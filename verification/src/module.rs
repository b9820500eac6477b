//! Modules: the polymorphic units of compiled output. A module is created
//! by a factory from a dependency, mutated exactly once by its own build
//! step (which may discover further dependencies), and immutable afterwards
//! except for code-generation caching.

use vstd::prelude::*;
use vstd::string::StringExecFns;

use crate::chunk::SourceType;
use crate::dependency::BoxDependency;
use crate::dependency::ContainerExportDependency;
use crate::error::CoreError;
use crate::error::WithDiagnostics;
use crate::ident::Identifier;
use crate::runtime_globals::RuntimeGlobals;

verus! {

/// The kind of a module.
#[derive(Clone, Copy, PartialEq, Eq, Structural, Debug)]
pub enum ModuleType {
    JsDynamic,
}

/// Side-channel metadata a build step records.
#[derive(Clone, Copy, PartialEq, Eq, Structural, Debug)]
pub struct BuildInfo {
    /// Whether the module is in strict mode.
    pub strict: bool,
}

impl Default for BuildInfo {
    /// Fresh build info: not strict.
    fn default() -> (r: BuildInfo)
        ensures
            r.strict == false,
    {
        BuildInfo { strict: false }
    }
}

/// The exports-shape classification a build step records.
#[derive(Clone, Copy, PartialEq, Eq, Structural, Debug)]
pub enum BuildMetaExportsType {
    Unset,
    Namespace,
}

/// Exports-shape metadata a build step records.
#[derive(Clone, Copy, PartialEq, Eq, Structural, Debug)]
pub struct BuildMeta {
    pub exports_type: BuildMetaExportsType,
}

impl Default for BuildMeta {
    /// Fresh build meta: exports shape not classified.
    fn default() -> (r: BuildMeta)
        ensures
            r.exports_type == BuildMetaExportsType::Unset,
    {
        BuildMeta { exports_type: BuildMetaExportsType::Unset }
    }
}

/// What one build step produced: metadata and the dependencies discovered.
#[derive(Clone, Debug)]
pub struct BuildResult {
    pub build_info: BuildInfo,
    pub build_meta: BuildMeta,
    pub dependencies: Vec<BoxDependency>,
}

impl Default for BuildResult {
    /// An empty build result.
    fn default() -> (r: BuildResult)
        ensures
            r.build_info.strict == false,
            r.build_meta.exports_type == BuildMetaExportsType::Unset,
            r.dependencies@.len() == 0,
    {
        BuildResult {
            build_info: BuildInfo { strict: false },
            build_meta: BuildMeta { exports_type: BuildMetaExportsType::Unset },
            dependencies: Vec::new(),
        }
    }
}

/// What code generation produced: one source fragment per supported source
/// type, and the runtime capabilities those fragments call.
#[derive(Clone, Debug)]
pub struct CodeGenerationResult {
    pub runtime_requirements: RuntimeGlobals,
    pub sources: Vec<(SourceType, String)>,
}

impl CodeGenerationResult {
    /// An empty result: no sources, no requirements.
    pub fn new() -> (r: CodeGenerationResult)
        ensures
            r.runtime_requirements.bits == 0,
            r.sources@.len() == 0,
    {
        CodeGenerationResult { runtime_requirements: RuntimeGlobals { bits: 0 }, sources: Vec::new() }
    }

    /// Adds the generated fragment for one source type.
    pub fn add(&mut self, source_type: SourceType, source: String)
        ensures
            final(self).sources@ == old(self).sources@.push((source_type, source)),
            final(self).runtime_requirements == old(self).runtime_requirements,
    {
        self.sources.push((source_type, source));
    }
}

/// The options a library-style identifier is derived under.
#[derive(Clone, Debug)]
pub struct LibIdentOptions {
    /// The context directory the identifier is made relative to.
    pub context: String,
}

/// The synthesized module that exposes a container's entry point.
#[derive(Clone, Debug)]
pub struct ContainerEntryModule {
    pub name: String,
    pub identifier: Identifier,
}

impl ContainerEntryModule {
    /// A container entry module for the given container name. The
    /// identifier is derived from the name, so equally named containers are
    /// one node.
    pub fn new(name: String) -> (r: ContainerEntryModule)
        ensures
            r.name@ == name@,
            r.identifier@ == "container entry ("@ + name@ + ")"@,
    {
        let mut text = String::from_str("container entry (");
        text.append(name.as_str());
        text.append(")");
        ContainerEntryModule { name, identifier: Identifier::from_string(text) }
    }

    /// The module's unique identifier.
    pub fn identifier(&self) -> (r: &Identifier)
        ensures
            r@ == self.identifier@,
    {
        &self.identifier
    }

    /// The module kind.
    pub fn module_type(&self) -> (r: ModuleType)
        ensures
            r == ModuleType::JsDynamic,
    {
        ModuleType::JsDynamic
    }

    /// The source types the module can generate.
    pub fn source_types(&self) -> (r: Vec<SourceType>)
        ensures
            r@ =~= seq![SourceType::JavaScript],
    {
        let mut v: Vec<SourceType> = Vec::new();
        v.push(SourceType::JavaScript);
        v
    }

    /// The original source text, of which a synthesized module has none.
    pub fn original_source(&self) -> (r: Option<&String>)
        ensures
            r is None,
    {
        None
    }

    /// A human-readable identifier.
    pub fn readable_identifier(&self) -> (r: String)
        ensures
            r@ == "contain entry"@,
    {
        String::from_str("contain entry")
    }

    /// An estimated size of the generated output, in bytes.
    pub fn size(&self, _source_type: SourceType) -> (r: u64)
        ensures
            r == 42,
    {
        42
    }

    /// Generates the module's code: one script fragment, requiring the
    /// property-getter definer, the own-property check and the exports
    /// object.
    pub fn code_generation(&self) -> (r: Result<CodeGenerationResult, CoreError>)
        ensures
            match r {
                Ok(cg) => cg.runtime_requirements.bits == (
                crate::runtime_globals::DEFINE_PROPERTY_GETTERS
                    | crate::runtime_globals::HAS_OWN_PROPERTY | crate::runtime_globals::EXPORTS)
                    && cg.sources@.len() == 1 && cg.sources@[0].0 == SourceType::JavaScript
                    && cg.sources@[0].1@ == "condole.log('ddd');"@,
                Err(_) => false,
            },
    {
        let mut runtime_globals = RuntimeGlobals::new();
        runtime_globals.insert(crate::runtime_globals::DEFINE_PROPERTY_GETTERS);
        runtime_globals.insert(crate::runtime_globals::HAS_OWN_PROPERTY);
        runtime_globals.insert(crate::runtime_globals::EXPORTS);
        let mut result = CodeGenerationResult::new();
        result.runtime_requirements = runtime_globals;
        result.add(SourceType::JavaScript, String::from_str("condole.log('ddd');"));
        proof {
            assert(0u64 | 0x4u64 == 0x4u64) by (bit_vector);
        }
        Ok(result)
    }

    /// Builds the module: discovers the one dependency on the exposed
    /// module, records strict mode and a namespace exports shape, and
    /// reports no diagnostics. The module itself does not change.
    pub fn build(&mut self) -> (r: Result<WithDiagnostics<BuildResult>, CoreError>)
        ensures
            *final(self) == *old(self),
            match r {
                Ok(b) => b.diagnostics@.len() == 0 && b.inner.build_info.strict
                    && b.inner.build_meta.exports_type == BuildMetaExportsType::Namespace
                    && b.inner.dependencies@.len() == 1 && match b.inner.dependencies@[0] {
                    BoxDependency::ContainerExport(d) => d.name@ == "container export dependency"@
                        && d.id is None,
                    _ => false,
                },
                Err(_) => false,
            },
    {
        let mut result = BuildResult::default();
        result.build_info = BuildInfo { strict: true };
        result.build_meta = BuildMeta { exports_type: BuildMetaExportsType::Namespace };
        let mut deps: Vec<BoxDependency> = Vec::new();
        deps.push(
            BoxDependency::ContainerExport(
                ContainerExportDependency {
                    name: String::from_str("container export dependency"),
                    id: None,
                },
            ),
        );
        result.dependencies = deps;
        Ok(WithDiagnostics::with_empty_diagnostic(result))
    }

    /// The library-style identifier of the entry point.
    pub fn lib_ident(&self, _options: &LibIdentOptions) -> (r: Option<String>)
        ensures
            match r {
                Some(s) => s@ == "webpack/container/entry/"@ + self.name@,
                None => false,
            },
    {
        let mut s = String::from_str("webpack/container/entry/");
        s.append(self.name.as_str());
        Some(s)
    }
}

/// A module created for a resolved request: its identifier is the request
/// itself, and its build discovers nothing further.
#[derive(Clone, Debug)]
pub struct ResolvedModule {
    pub identifier: Identifier,
    pub request: String,
}

impl ResolvedModule {
    /// A module for the given resolved request.
    pub fn new(request: String) -> (r: ResolvedModule)
        ensures
            r.identifier@ == request@,
            r.request@ == request@,
    {
        let identifier = Identifier::from_string(request.clone());
        ResolvedModule { identifier, request }
    }

    /// The module's unique identifier.
    pub fn identifier(&self) -> (r: &Identifier)
        ensures
            r@ == self.identifier@,
    {
        &self.identifier
    }

    /// Builds the module: nothing further is discovered.
    pub fn build(&mut self) -> (r: Result<WithDiagnostics<BuildResult>, CoreError>)
        ensures
            *final(self) == *old(self),
            match r {
                Ok(b) => b.diagnostics@.len() == 0 && b.inner.dependencies@.len() == 0,
                Err(_) => false,
            },
    {
        Ok(WithDiagnostics::with_empty_diagnostic(BuildResult::default()))
    }
}

/// A module standing for a request satisfied outside the compilation: the
/// host provides it under its request at runtime.
#[derive(Clone, Debug)]
pub struct ExternalModule {
    pub identifier: Identifier,
    pub request: String,
    pub external_type: String,
}

impl ExternalModule {
    /// An external module for the given request and external kind.
    pub fn new(request: String, external_type: String) -> (r: ExternalModule)
        ensures
            r.identifier@ == "external "@ + request@,
            r.request@ == request@,
            r.external_type@ == external_type@,
    {
        let mut text = String::from_str("external ");
        text.append(request.as_str());
        ExternalModule { identifier: Identifier::from_string(text), request, external_type }
    }

    /// The external kind the host satisfies the request under.
    pub fn get_external_type(&self) -> (r: &String)
        ensures
            r@ == self.external_type@,
    {
        &self.external_type
    }

    /// The module's unique identifier.
    pub fn identifier(&self) -> (r: &Identifier)
        ensures
            r@ == self.identifier@,
    {
        &self.identifier
    }

    /// Builds the module: an external module discovers nothing.
    pub fn build(&mut self) -> (r: Result<WithDiagnostics<BuildResult>, CoreError>)
        ensures
            *final(self) == *old(self),
            match r {
                Ok(b) => b.diagnostics@.len() == 0 && b.inner.dependencies@.len() == 0,
                Err(_) => false,
            },
    {
        Ok(WithDiagnostics::with_empty_diagnostic(BuildResult::default()))
    }
}

/// A module of any of the known kinds, as the graph owns it.
#[derive(Clone, Debug)]
pub enum BoxModule {
    ContainerEntry(ContainerEntryModule),
    Resolved(ResolvedModule),
    External(ExternalModule),
}

/// The identifier of a module, at the spec level.
pub open spec fn spec_module_identifier(m: BoxModule) -> Seq<char> {
    match m {
        BoxModule::ContainerEntry(cem) => cem.identifier@,
        BoxModule::Resolved(rm) => rm.identifier@,
        BoxModule::External(em) => em.identifier@,
    }
}

/// The runtime requirements a module's generated code declares, at the spec
/// level.
pub open spec fn spec_module_cg_bits(m: BoxModule) -> u64 {
    match m {
        BoxModule::ContainerEntry(_) => crate::runtime_globals::DEFINE_PROPERTY_GETTERS
            | crate::runtime_globals::HAS_OWN_PROPERTY | crate::runtime_globals::EXPORTS,
        BoxModule::Resolved(_) => 0,
        BoxModule::External(_) => 0,
    }
}

impl BoxModule {
    /// The module's unique identifier.
    pub fn identifier(&self) -> (r: &Identifier)
        ensures
            r@ == spec_module_identifier(*self),
    {
        match self {
            BoxModule::ContainerEntry(m) => m.identifier(),
            BoxModule::Resolved(m) => m.identifier(),
            BoxModule::External(m) => m.identifier(),
        }
    }

    /// The external module this is, if it is one.
    pub fn as_external_module(&self) -> (r: Option<&ExternalModule>)
        ensures
            match r {
                Some(m) => *self matches BoxModule::External(em) && em == *m,
                None => !(*self matches BoxModule::External(_)),
            },
    {
        match self {
            BoxModule::External(m) => Some(m),
            _ => None,
        }
    }

    /// Generates the module's code; only a container entry declares
    /// requirements and a fragment.
    pub fn code_generation(&self) -> (r: Result<CodeGenerationResult, CoreError>)
        ensures
            match r {
                Ok(cg) => cg.runtime_requirements.bits == spec_module_cg_bits(*self),
                Err(_) => false,
            },
    {
        match self {
            BoxModule::ContainerEntry(m) => m.code_generation(),
            BoxModule::Resolved(_) => Ok(CodeGenerationResult::new()),
            BoxModule::External(_) => Ok(CodeGenerationResult::new()),
        }
    }

    /// Builds the module, yielding the dependencies it discovered: exactly
    /// the exposed-module dependency for a container entry, nothing for a
    /// resolved request.
    pub fn build(&mut self) -> (r: Result<WithDiagnostics<BuildResult>, CoreError>)
        ensures
            *final(self) == *old(self),
            match r {
                Ok(b) => b.diagnostics@.len() == 0 && match old(self) {
                    BoxModule::ContainerEntry(_) => b.inner.build_info.strict
                        && b.inner.build_meta.exports_type == BuildMetaExportsType::Namespace
                        && b.inner.dependencies@.len() == 1 && match b.inner.dependencies@[0] {
                        BoxDependency::ContainerExport(d) => d.name@
                            == "container export dependency"@ && d.id is None,
                        _ => false,
                    },
                    BoxModule::Resolved(_) => b.inner.dependencies@.len() == 0,
                    BoxModule::External(_) => b.inner.dependencies@.len() == 0,
                },
                Err(_) => false,
            },
    {
        match self {
            BoxModule::ContainerEntry(m) => m.build(),
            BoxModule::Resolved(m) => m.build(),
            BoxModule::External(m) => m.build(),
        }
    }
}

} // verus!
