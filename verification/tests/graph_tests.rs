use bundler_core::dependency::{
    BoxDependency, ContainerEntryDependency, ContainerExportDependency, DependencyCategory,
    DependencyType, UrlContextDependency,
};
use bundler_core::error::CoreError;
use bundler_core::graph::{build_graph, ModuleGraph};
use bundler_core::ident::DependencyId;
use bundler_core::module::{BoxModule, ContainerEntryModule};

fn url_dep(request: &str) -> BoxDependency {
    BoxDependency::UrlContext(UrlContextDependency::new(String::from(request), None, Vec::new()))
}

#[test]
fn entry_dependency_surface() {
    let mut d = ContainerEntryDependency { name: String::from("b"), id: None };
    assert_eq!(d.category(), DependencyCategory::Esm);
    assert_eq!(d.dependency_type(), DependencyType::ContainerEntry);
    assert_eq!(d.request(), "container request");
    assert_eq!(d.user_request(), "container user request");
    assert!(d.span().is_none());
    assert!(d.id().is_none());
    d.set_id(Some(DependencyId::new(7)));
    assert_eq!(d.id(), Some(DependencyId::new(7)));
}

#[test]
fn export_dependency_surface() {
    let d = ContainerExportDependency { name: String::from("x"), id: None };
    assert_eq!(d.category(), DependencyCategory::Esm);
    assert_eq!(d.dependency_type(), DependencyType::ContainerExposedDependency);
    assert_eq!(d.request(), "./export.js");
    assert_eq!(d.user_request(), "container export user request");
    assert!(d.span().is_none());
}

#[test]
fn url_dependency_surface() {
    let mut d = UrlContextDependency::new(String::from("./img.png"), None, vec![3, 1]);
    assert_eq!(d.category(), DependencyCategory::Url);
    assert_eq!(d.dependency_type(), DependencyType::NewUrlContext);
    assert_eq!(d.request(), "./img.png");
    assert_eq!(d.user_request(), "./img.png");
    assert!(d.span().is_none());
    let spanned = UrlContextDependency::new(
        String::from("./img.png"),
        Some(bundler_core::dependency::ErrorSpan { start: 3, end: 9 }),
        Vec::new(),
    );
    assert_eq!(
        spanned.span(),
        Some(bundler_core::dependency::ErrorSpan { start: 3, end: 9 })
    );
    assert!(d.parent_module_identifier().is_none());
    d.set_parent_module_identifier(Some(bundler_core::ident::Identifier::from_str("m")));
    assert_eq!(d.parent_module_identifier().as_ref().unwrap().as_string(), "m");
}

#[test]
fn container_entry_closure_resolves_every_dependency() {
    let entries = vec![BoxDependency::ContainerEntry(ContainerEntryDependency {
        name: String::from("b"),
        id: None,
    })];
    let graph = build_graph(entries, 16).unwrap();
    // the entry module and the exposed module it discovered
    assert_eq!(graph.modules.len(), 2);
    assert_eq!(graph.dependencies.len(), 2);
    for r in &graph.resolutions {
        assert!(r.is_some());
    }
    assert_eq!(
        graph.modules[0].identifier().as_string(),
        "container entry (b)"
    );
    assert_eq!(graph.modules[1].identifier().as_string(), "./export.js");
}

#[test]
fn same_request_twice_yields_one_module_and_two_edges() {
    let entries = vec![url_dep("./shared.js"), url_dep("./shared.js")];
    let graph = build_graph(entries, 16).unwrap();
    assert_eq!(graph.modules.len(), 1);
    assert_eq!(graph.dependencies.len(), 2);
    assert!(graph.resolutions[0].is_some());
    assert_eq!(graph.resolutions[0], graph.resolutions[1]);
}

#[test]
fn distinct_requests_yield_distinct_modules() {
    let entries = vec![url_dep("./a.js"), url_dep("./b.js")];
    let graph = build_graph(entries, 16).unwrap();
    assert_eq!(graph.modules.len(), 2);
    assert_ne!(graph.resolutions[0], graph.resolutions[1]);
}

#[test]
fn exhausted_budget_is_a_fatal_error() {
    let entries = vec![url_dep("./a.js")];
    let r = build_graph(entries, 0);
    assert!(matches!(r, Err(CoreError::GraphBudget)));
}

#[test]
fn resolve_dependency_reuses_the_recorded_module() {
    let mut graph = ModuleGraph::new();
    let d1 = graph.add_dependency(url_dep("./x.js"));
    let d2 = graph.add_dependency(url_dep("./x.js"));
    let (m1, added1) = graph.resolve_dependency(d1.index);
    let (m2, added2) = graph.resolve_dependency(d2.index);
    assert!(added1);
    assert!(!added2);
    assert_eq!(m1, m2);
    assert_eq!(graph.modules.len(), 1);
}

#[test]
fn module_identifier_lookup_follows_the_edge() {
    let mut graph = ModuleGraph::new();
    let d = graph.add_dependency(url_dep("./y.js"));
    graph.resolve_dependency(d.index);
    assert_eq!(graph.module_identifier_by_dependency(d), Some(String::from("./y.js")));
    assert_eq!(graph.module_identifier_by_dependency(DependencyId::new(9)), None);
}

#[test]
fn adding_a_module_twice_keeps_one_node() {
    let mut graph = ModuleGraph::new();
    let (i1, added1) =
        graph.add_module(BoxModule::ContainerEntry(ContainerEntryModule::new(String::from("b"))));
    let (i2, added2) =
        graph.add_module(BoxModule::ContainerEntry(ContainerEntryModule::new(String::from("b"))));
    assert!(added1);
    assert!(!added2);
    assert_eq!(i1, i2);
    assert_eq!(graph.modules.len(), 1);
}

#[test]
fn twice_the_entry_count_always_suffices_as_budget() {
    let entries = vec![
        BoxDependency::ContainerEntry(ContainerEntryDependency {
            name: String::from("b"),
            id: None,
        }),
        url_dep("./a.js"),
    ];
    // two entries: a budget of four steps is guaranteed to finish
    let graph = build_graph(entries, 4).unwrap();
    for r in &graph.resolutions {
        assert!(r.is_some());
    }
}

#[test]
fn no_entries_succeed_on_any_budget() {
    let graph = build_graph(Vec::new(), 0).unwrap();
    assert_eq!(graph.dependencies.len(), 0);
    assert_eq!(graph.modules.len(), 0);
}
