//! The error taxonomy of a compilation and the diagnostics that accumulate
//! beside results: true failures short-circuit a phase through a result
//! type; diagnostics ride along and are surfaced together at its end.

use vstd::prelude::*;

verus! {

/// How severe a diagnostic is: an error blocks emission when fatal policy
/// says so, a warning never does.
#[derive(Clone, Copy, PartialEq, Eq, Structural, Debug)]
pub enum Severity {
    Error,
    Warning,
}

/// One diagnostic attached to a result.
#[derive(Clone, Debug)]
pub struct Diagnostic {
    pub severity: Severity,
    pub message: String,
}

/// A fatal failure of a compilation phase.
#[derive(Clone, Debug)]
pub enum CoreError {
    /// A dependency could not be turned into a module; reported with the
    /// request and the identifier of the module that asked for it.
    Resolution { request: String, parent: Option<String> },
    /// A module failed its build step.
    Build { module: String, message: String },
    /// A plugin hook failed; reported with the plugin's name and the hook.
    Hook { plugin: String, hook: String, message: String },
    /// Graph construction exhausted its step budget before the worklist
    /// drained; callers pass a budget of at least the expected module count.
    GraphBudget,
}

/// A value together with the diagnostics its computation produced.
#[derive(Clone, Debug)]
pub struct WithDiagnostics<T> {
    pub inner: T,
    pub diagnostics: Vec<Diagnostic>,
}

impl<T> WithDiagnostics<T> {
    /// Wraps a value with no diagnostics.
    pub fn with_empty_diagnostic(inner: T) -> (r: WithDiagnostics<T>)
        ensures
            r.inner == inner,
            r.diagnostics@.len() == 0,
    {
        WithDiagnostics { inner, diagnostics: Vec::new() }
    }

    /// Wraps a value with the given diagnostics.
    pub fn with_diagnostics(inner: T, diagnostics: Vec<Diagnostic>) -> (r: WithDiagnostics<T>)
        ensures
            r.inner == inner,
            r.diagnostics == diagnostics,
    {
        WithDiagnostics { inner, diagnostics }
    }
}

} // verus!
