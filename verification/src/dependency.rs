//! Dependencies: records describing a reference from one module (or the
//! entry-point set) to a request. A dependency gets its identity from the
//! graph at insertion, exactly once, and after resolution carries nothing
//! but that id — the resolution edge lives in the graph.

use vstd::prelude::*;
use vstd::string::StringExecFns;

use crate::ident::DependencyId;
use crate::ident::Identifier;

verus! {

/// The import category of a dependency.
#[derive(Clone, Copy, PartialEq, Eq, Structural, Debug)]
pub enum DependencyCategory {
    Esm,
    Url,
}

/// The concrete kind of a dependency, selecting the factory that resolves
/// it.
#[derive(Clone, Copy, PartialEq, Eq, Structural, Debug)]
pub enum DependencyType {
    ContainerEntry,
    ContainerExposedDependency,
    NewUrlContext,
}

/// A source span a diagnostic can point at.
#[derive(Clone, Copy, PartialEq, Eq, Structural, Debug)]
pub struct ErrorSpan {
    pub start: u32,
    pub end: u32,
}

/// The dependency that seeds a container's entry point.
#[derive(Clone, Debug)]
pub struct ContainerEntryDependency {
    pub name: String,
    pub id: Option<DependencyId>,
}

impl ContainerEntryDependency {
    /// The import category: an ES module import.
    pub fn category(&self) -> (r: DependencyCategory)
        ensures
            r == DependencyCategory::Esm,
    {
        DependencyCategory::Esm
    }

    /// The dependency kind, selecting the container entry factory.
    pub fn dependency_type(&self) -> (r: DependencyType)
        ensures
            r == DependencyType::ContainerEntry,
    {
        DependencyType::ContainerEntry
    }

    /// The graph-assigned identity, absent until insertion.
    pub fn id(&self) -> (r: Option<DependencyId>)
        ensures
            r == self.id,
    {
        self.id
    }

    /// Sets the graph-assigned identity; the graph calls this exactly once.
    pub fn set_id(&mut self, id: Option<DependencyId>)
        ensures
            *final(self) == (ContainerEntryDependency { id, ..*old(self) }),
    {
        self.id = id;
    }

    /// The request resolved for this dependency.
    pub fn request(&self) -> (r: &'static str)
        ensures
            r@ == "container request"@,
    {
        "container request"
    }

    /// The user-facing request text.
    pub fn user_request(&self) -> (r: &'static str)
        ensures
            r@ == "container user request"@,
    {
        "container user request"
    }

    /// The source span, of which a container entry has none.
    pub fn span(&self) -> (r: Option<ErrorSpan>)
        ensures
            r is None,
    {
        None
    }
}

/// The dependency on one module a container exposes.
#[derive(Clone, Debug)]
pub struct ContainerExportDependency {
    pub name: String,
    pub id: Option<DependencyId>,
}

impl ContainerExportDependency {
    /// The import category: an ES module import.
    pub fn category(&self) -> (r: DependencyCategory)
        ensures
            r == DependencyCategory::Esm,
    {
        DependencyCategory::Esm
    }

    /// The dependency kind, marking an exposed module.
    pub fn dependency_type(&self) -> (r: DependencyType)
        ensures
            r == DependencyType::ContainerExposedDependency,
    {
        DependencyType::ContainerExposedDependency
    }

    /// The graph-assigned identity, absent until insertion.
    pub fn id(&self) -> (r: Option<DependencyId>)
        ensures
            r == self.id,
    {
        self.id
    }

    /// Sets the graph-assigned identity; the graph calls this exactly once.
    pub fn set_id(&mut self, id: Option<DependencyId>)
        ensures
            *final(self) == (ContainerExportDependency { id, ..*old(self) }),
    {
        self.id = id;
    }

    /// The request resolved for this dependency.
    pub fn request(&self) -> (r: &'static str)
        ensures
            r@ == "./export.js"@,
    {
        "./export.js"
    }

    /// The user-facing request text.
    pub fn user_request(&self) -> (r: &'static str)
        ensures
            r@ == "container export user request"@,
    {
        "container export user request"
    }

    /// The source span, of which an exposed module has none.
    pub fn span(&self) -> (r: Option<ErrorSpan>)
        ensures
            r is None,
    {
        None
    }
}

/// The dependency a `new URL(..., import.meta.url)` context creates. The
/// abstract-syntax-tree position it rewrites is kept as a plain path of
/// child indices; the source transformer applying it is an external
/// collaborator.
#[derive(Clone, Debug)]
pub struct UrlContextDependency {
    pub id: Option<DependencyId>,
    pub request: String,
    pub parent_module_identifier: Option<Identifier>,
    pub span: Option<ErrorSpan>,
    pub ast_path: Vec<usize>,
}

impl UrlContextDependency {
    /// A fresh dependency for the request at the given tree position.
    pub fn new(request: String, span: Option<ErrorSpan>, ast_path: Vec<usize>) -> (r:
        UrlContextDependency)
        ensures
            r.request@ == request@,
            r.span == span,
            r.ast_path@ == ast_path@,
            r.id is None,
            r.parent_module_identifier is None,
    {
        UrlContextDependency { id: None, request, parent_module_identifier: None, span, ast_path }
    }

    /// The graph-assigned identity, absent until insertion.
    pub fn id(&self) -> (r: Option<DependencyId>)
        ensures
            r == self.id,
    {
        self.id
    }

    /// Sets the graph-assigned identity; the graph calls this exactly once.
    pub fn set_id(&mut self, id: Option<DependencyId>)
        ensures
            *final(self) == (UrlContextDependency { id, ..*old(self) }),
    {
        self.id = id;
    }

    /// The import category: a URL reference.
    pub fn category(&self) -> (r: DependencyCategory)
        ensures
            r == DependencyCategory::Url,
    {
        DependencyCategory::Url
    }

    /// The dependency kind.
    pub fn dependency_type(&self) -> (r: DependencyType)
        ensures
            r == DependencyType::NewUrlContext,
    {
        DependencyType::NewUrlContext
    }

    /// The identifier of the module that owns this dependency, once set.
    pub fn parent_module_identifier(&self) -> (r: &Option<Identifier>)
        ensures
            r == &self.parent_module_identifier,
    {
        &self.parent_module_identifier
    }

    /// Records the owning module.
    pub fn set_parent_module_identifier(&mut self, module_identifier: Option<Identifier>)
        ensures
            final(self).parent_module_identifier == module_identifier,
            final(self).id == old(self).id,
            final(self).request@ == old(self).request@,
            final(self).span == old(self).span,
            final(self).ast_path@ == old(self).ast_path@,
    {
        self.parent_module_identifier = module_identifier;
    }

    /// The request resolved for this dependency.
    pub fn request(&self) -> (r: &String)
        ensures
            r@ == self.request@,
    {
        &self.request
    }

    /// The user-facing request text: the request itself.
    pub fn user_request(&self) -> (r: &String)
        ensures
            r@ == self.request@,
    {
        &self.request
    }

    /// The source span the dependency carries, for diagnostics.
    pub fn span(&self) -> (r: Option<ErrorSpan>)
        ensures
            r == self.span,
    {
        self.span
    }
}

/// A dependency of any of the known kinds, as the graph stores it.
#[derive(Clone, Debug)]
pub enum BoxDependency {
    ContainerEntry(ContainerEntryDependency),
    ContainerExport(ContainerExportDependency),
    UrlContext(UrlContextDependency),
}

/// The resolution request of a dependency, at the spec level: the key the
/// dedup map is consulted with.
pub open spec fn spec_dep_request(dep: BoxDependency) -> Seq<char> {
    match dep {
        BoxDependency::ContainerEntry(_) => "container request"@,
        BoxDependency::ContainerExport(_) => "./export.js"@,
        BoxDependency::UrlContext(d) => d.request@,
    }
}

/// The graph-assigned identity of a dependency, at the spec level.
pub open spec fn spec_dep_id(dep: BoxDependency) -> Option<DependencyId> {
    match dep {
        BoxDependency::ContainerEntry(d) => d.id,
        BoxDependency::ContainerExport(d) => d.id,
        BoxDependency::UrlContext(d) => d.id,
    }
}

/// The dependency with its graph-assigned identity set.
pub open spec fn spec_dep_with_id(dep: BoxDependency, id: Option<DependencyId>) -> BoxDependency {
    match dep {
        BoxDependency::ContainerEntry(d) => BoxDependency::ContainerEntry(
            ContainerEntryDependency { id, ..d },
        ),
        BoxDependency::ContainerExport(d) => BoxDependency::ContainerExport(
            ContainerExportDependency { id, ..d },
        ),
        BoxDependency::UrlContext(d) => BoxDependency::UrlContext(UrlContextDependency { id, ..d }),
    }
}

impl BoxDependency {
    /// The resolution request: the key the dedup map is consulted with.
    pub fn request(&self) -> (r: String)
        ensures
            r@ == spec_dep_request(*self),
    {
        match self {
            BoxDependency::ContainerEntry(d) => String::from_str(d.request()),
            BoxDependency::ContainerExport(d) => String::from_str(d.request()),
            BoxDependency::UrlContext(d) => d.request().clone(),
        }
    }

    /// The graph-assigned identity, absent until insertion.
    pub fn id(&self) -> (r: Option<DependencyId>)
        ensures
            r == spec_dep_id(*self),
    {
        match self {
            BoxDependency::ContainerEntry(d) => d.id(),
            BoxDependency::ContainerExport(d) => d.id(),
            BoxDependency::UrlContext(d) => d.id(),
        }
    }

    /// Sets the graph-assigned identity; the graph calls this exactly once.
    pub fn set_id(&mut self, id: Option<DependencyId>)
        ensures
            *final(self) == spec_dep_with_id(*old(self), id),
    {
        match self {
            BoxDependency::ContainerEntry(d) => d.set_id(id),
            BoxDependency::ContainerExport(d) => d.set_id(id),
            BoxDependency::UrlContext(d) => d.set_id(id),
        }
    }
}

} // verus!
