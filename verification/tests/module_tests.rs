use bundler_core::chunk::SourceType;
use bundler_core::codegen::CodeGeneratableResult;
use bundler_core::dependency::{
    BoxDependency, ContainerEntryDependency, ContainerExportDependency, UrlContextDependency,
};
use bundler_core::eval::{eval_array_expression, BasicEvaluatedExpression, EvaluatedElement};
use bundler_core::factory::{
    create_module_for, ContainerEntryModuleFactory, ModuleFactoryCreateData,
};
use bundler_core::graph::ModuleGraph;
use bundler_core::module::{
    BoxModule, BuildMetaExportsType, ContainerEntryModule, LibIdentOptions, ModuleType,
};
use bundler_core::runtime_globals;
use bundler_core::runtime_globals::RuntimeGlobals;

fn entry_module() -> ContainerEntryModule {
    ContainerEntryModule::new(String::from("abc"))
}

#[test]
fn container_entry_module_surface() {
    let m = entry_module();
    assert_eq!(m.identifier().as_string(), "container entry (abc)");
    assert_eq!(m.module_type(), ModuleType::JsDynamic);
    assert_eq!(m.source_types(), vec![SourceType::JavaScript]);
    assert!(m.original_source().is_none());
    assert_eq!(m.readable_identifier(), "contain entry");
    assert_eq!(m.size(SourceType::JavaScript), 42);
    let lib = m.lib_ident(&LibIdentOptions { context: String::new() });
    assert_eq!(lib.unwrap(), "webpack/container/entry/abc");
}

#[test]
fn container_entry_code_generation_declares_its_requirements() {
    let m = entry_module();
    let cg = m.code_generation().unwrap();
    assert_eq!(
        cg.runtime_requirements.bits,
        runtime_globals::DEFINE_PROPERTY_GETTERS
            | runtime_globals::HAS_OWN_PROPERTY
            | runtime_globals::EXPORTS
    );
    assert_eq!(cg.sources.len(), 1);
    assert_eq!(cg.sources[0].0, SourceType::JavaScript);
    assert_eq!(cg.sources[0].1, "condole.log('ddd');");
}

#[test]
fn container_entry_build_discovers_the_export_dependency() {
    let mut m = entry_module();
    let built = m.build().unwrap();
    assert!(built.diagnostics.is_empty());
    assert_eq!(built.inner.dependencies.len(), 1);
    assert!(built.inner.build_info.strict);
    assert_eq!(built.inner.build_meta.exports_type, BuildMetaExportsType::Namespace);
    match &built.inner.dependencies[0] {
        BoxDependency::ContainerExport(d) => {
            assert_eq!(d.name, "container export dependency");
            assert!(d.id.is_none());
        },
        _ => panic!("wrong dependency kind"),
    }
}

#[test]
fn factory_creates_the_container_entry_module() {
    let factory = ContainerEntryModuleFactory {};
    let data = ModuleFactoryCreateData {
        dependency: BoxDependency::ContainerEntry(ContainerEntryDependency {
            name: String::from("b"),
            id: None,
        }),
    };
    let result = factory.create(data).unwrap();
    assert!(result.diagnostics.is_empty());
    match result.inner.module {
        BoxModule::ContainerEntry(m) => assert_eq!(m.name, "abc"),
        _ => panic!("wrong module kind"),
    }
}

#[test]
fn dispatching_factory_follows_the_dependency_kind() {
    let entry = create_module_for(&BoxDependency::ContainerEntry(ContainerEntryDependency {
        name: String::from("n"),
        id: None,
    }));
    assert_eq!(entry.identifier().as_string(), "container entry (n)");
    let export = create_module_for(&BoxDependency::ContainerExport(ContainerExportDependency {
        name: String::from("e"),
        id: None,
    }));
    assert_eq!(export.identifier().as_string(), "./export.js");
    let url = create_module_for(&BoxDependency::UrlContext(UrlContextDependency::new(
        String::from("./u.png"),
        None,
        Vec::new(),
    )));
    assert_eq!(url.identifier().as_string(), "./u.png");
}

#[test]
fn entry_and_export_dependencies_contribute_nothing() {
    let entry = ContainerEntryDependency { name: String::from("b"), id: None };
    let r: CodeGeneratableResult = entry.generate().unwrap();
    assert!(r.visitors.is_empty());
    let export = ContainerExportDependency { name: String::from("e"), id: None };
    assert!(export.generate().unwrap().visitors.is_empty());
}

#[test]
fn resolved_url_dependency_rewrites_its_expression() {
    let mut graph = ModuleGraph::new();
    let id = graph.add_dependency(BoxDependency::UrlContext(UrlContextDependency::new(
        String::from("./img.png"),
        None,
        vec![2, 0, 1],
    )));
    graph.resolve_dependency(id.index);
    let dep = match &graph.dependencies[0] {
        BoxDependency::UrlContext(d) => d.clone(),
        _ => panic!("wrong dependency kind"),
    };
    let mut reqs = RuntimeGlobals::new();
    let cg = dep.generate(&graph, &mut reqs).unwrap();
    assert!(reqs.contains(runtime_globals::BASE_URI));
    assert_eq!(cg.visitors.len(), 1);
    assert_eq!(cg.visitors[0].path, vec![2, 0, 1]);
    assert_eq!(cg.visitors[0].first_arg, "__webpack_require__(\"./img.png\")");
    assert_eq!(cg.visitors[0].second_arg, "__webpack_require__.b");
}

#[test]
fn unresolved_url_dependency_contributes_nothing() {
    let graph = ModuleGraph::new();
    let dep = UrlContextDependency::new(String::from("./img.png"), None, Vec::new());
    let mut reqs = RuntimeGlobals::new();
    let cg = dep.generate(&graph, &mut reqs).unwrap();
    assert_eq!(reqs.bits, 0);
    assert!(cg.visitors.is_empty());
}

fn leaf(start: u32, end: u32) -> BasicEvaluatedExpression {
    BasicEvaluatedExpression::with_range(start, end)
}

#[test]
fn array_of_plain_elements_evaluates_to_its_items() {
    let elements = vec![
        Some(EvaluatedElement { spread: false, value: leaf(1, 2) }),
        Some(EvaluatedElement { spread: false, value: leaf(3, 4) }),
    ];
    let res = eval_array_expression(elements, 0, 5).unwrap();
    assert_eq!(res.start, 0);
    assert_eq!(res.end, 5);
    assert_eq!(res.items.len(), 2);
    assert_eq!(res.items[0].start, 1);
    assert_eq!(res.items[1].end, 4);
}

#[test]
fn a_spread_element_makes_the_array_non_constant() {
    let elements = vec![
        Some(EvaluatedElement { spread: false, value: leaf(1, 2) }),
        Some(EvaluatedElement { spread: true, value: leaf(3, 4) }),
    ];
    assert!(eval_array_expression(elements, 0, 5).is_none());
}

#[test]
fn a_hole_makes_the_array_non_constant() {
    let elements = vec![None, Some(EvaluatedElement { spread: false, value: leaf(1, 2) })];
    assert!(eval_array_expression(elements, 0, 5).is_none());
}

#[test]
fn the_empty_array_evaluates_to_no_items() {
    let res = eval_array_expression(Vec::new(), 7, 9).unwrap();
    assert_eq!(res.start, 7);
    assert_eq!(res.end, 9);
    assert!(res.items.is_empty());
}
