//! The per-dependency code-generation contract: what a dependency
//! contributes to its module's output. A tree rewrite is described as plain
//! data — the path of the node and the replacement expressions — and handed
//! to the external source transformer by the caller.

use vstd::prelude::*;
use vstd::string::StringExecFns;

use crate::dependency::ContainerEntryDependency;
use crate::dependency::ContainerExportDependency;
use crate::dependency::UrlContextDependency;
use crate::error::CoreError;
use crate::graph::ModuleGraph;
use crate::runtime_globals::RuntimeGlobals;

verus! {

/// One rewrite of a `new URL(...)` expression: at the node named by `path`,
/// the first argument becomes a require call for the resolved module and the
/// second becomes the runtime's base URI.
#[derive(Debug)]
pub struct JsVisitor {
    /// The path of child indices from the tree's root to the expression.
    pub path: Vec<usize>,
    /// The expression replacing the first argument.
    pub first_arg: String,
    /// The expression replacing the second argument.
    pub second_arg: String,
}

/// What one dependency contributes to code generation.
#[derive(Debug)]
pub struct CodeGeneratableResult {
    pub visitors: Vec<JsVisitor>,
}

impl CodeGeneratableResult {
    /// A contribution of nothing.
    pub fn new() -> (r: CodeGeneratableResult)
        ensures
            r.visitors@.len() == 0,
    {
        CodeGeneratableResult { visitors: Vec::new() }
    }
}

impl ContainerEntryDependency {
    /// A container entry contributes nothing of its own to code output.
    pub fn generate(&self) -> (r: Result<CodeGeneratableResult, CoreError>)
        ensures
            match r {
                Ok(cg) => cg.visitors@.len() == 0,
                Err(_) => false,
            },
    {
        Ok(CodeGeneratableResult::new())
    }
}

impl ContainerExportDependency {
    /// An exposed-module dependency contributes nothing of its own to code
    /// output.
    pub fn generate(&self) -> (r: Result<CodeGeneratableResult, CoreError>)
        ensures
            match r {
                Ok(cg) => cg.visitors@.len() == 0,
                Err(_) => false,
            },
    {
        Ok(CodeGeneratableResult::new())
    }
}

/// The require call for a module id.
pub open spec fn spec_require_call(module_id: Seq<char>) -> Seq<char> {
    "__webpack_require__(\""@ + module_id + "\")"@
}

impl UrlContextDependency {
    /// Generates this dependency's rewrite: when the dependency has its
    /// graph identity and resolved to a module, the base-URI capability is
    /// required and one visitor rewrites the expression's arguments to a
    /// require call for the resolved module and the runtime's base URI;
    /// otherwise nothing is contributed and nothing is required.
    pub fn generate(&self, graph: &ModuleGraph, requirements: &mut RuntimeGlobals) -> (r: Result<
        CodeGeneratableResult,
        CoreError,
    >)
        requires
            graph.wf(),
        ensures
            match r {
                Ok(cg) => {
                    let resolved = match self.id {
                        Some(d) => graph.spec_resolution_identifier(d.index as int),
                        None => None,
                    };
                    match resolved {
                        Some(module_id) => final(requirements).bits == old(requirements).bits
                            | crate::runtime_globals::BASE_URI && cg.visitors@.len() == 1
                            && cg.visitors@[0].path@ == self.ast_path@ && cg.visitors@[0].first_arg@
                            == spec_require_call(module_id) && cg.visitors@[0].second_arg@
                            == "__webpack_require__.b"@,
                        None => *final(requirements) == *old(requirements) && cg.visitors@.len()
                            == 0,
                    }
                },
                Err(_) => false,
            },
    {
        let mut result = CodeGeneratableResult::new();
        if let Some(d) = self.id {
            if let Some(module_id) = graph.module_identifier_by_dependency(d) {
                requirements.insert(crate::runtime_globals::BASE_URI);
                let mut call = String::from_str("__webpack_require__(\"");
                call.append(module_id.as_str());
                call.append("\")");
                proof {
                    assert(call@ =~= spec_require_call(module_id@));
                }
                result.visitors.push(
                    JsVisitor {
                        path: self.ast_path.clone(),
                        first_arg: call,
                        second_arg: String::from_str("__webpack_require__.b"),
                    },
                );
            }
        }
        Ok(result)
    }
}

} // verus!
