use bundler_core::chunk::OutputOptions;
use bundler_core::compilation::{ChunkGraph, Compilation};
use bundler_core::dependency::BoxDependency;
use bundler_core::filename::Filename;
use bundler_core::graph::ModuleGraph;
use bundler_core::ident::Identifier;
use bundler_core::module::{BoxModule, ExternalModule};
use bundler_core::plugin::{
    chunk_runtime_requirements, run_additional_chunk_runtime_requirements, run_js_chunk_hash,
    run_render, ContainerPlugin, ContainerPluginOptions, Plugin, PluginHasher,
    SystemLibraryPlugin,
};
use bundler_core::runtime_globals;
use bundler_core::runtime_globals::RuntimeGlobals;

fn bare_compilation(library: Option<&str>) -> Compilation {
    Compilation {
        module_graph: ModuleGraph::new(),
        entries: Vec::new(),
        chunk_by_ukey: Vec::new(),
        chunk_group_by_ukey: Vec::new(),
        output_options: OutputOptions {
            filename: Filename::new(String::from("[name].js")),
            chunk_filename: Filename::new(String::from("[id].js")),
            css_filename: Filename::new(String::from("[name].css")),
            css_chunk_filename: Filename::new(String::from("[id].css")),
            hash_digest_length: 16,
            library: library.map(String::from),
        },
        chunk_graph: ChunkGraph::new(),
        full_hash: None,
    }
}

fn with_system_external(library: Option<&str>, request: &str) -> Compilation {
    let mut compilation = bare_compilation(library);
    let module = ExternalModule::new(String::from(request), String::from("system"));
    let ident = Identifier::from_string(module.identifier().as_string().clone());
    compilation.module_graph.add_module(BoxModule::External(module));
    compilation.chunk_graph.chunk_modules = vec![(1, vec![ident])];
    compilation
}

#[test]
fn system_plugin_injects_the_return_exports_requirement() {
    let plugin = SystemLibraryPlugin::new();
    assert_eq!(plugin.name(), "SystemLibraryPlugin");
    let mut reqs = RuntimeGlobals::new();
    plugin.additional_chunk_runtime_requirements(&mut reqs).unwrap();
    assert_eq!(reqs.bits, runtime_globals::RETURN_EXPORTS_FROM_RUNTIME);
}

#[test]
fn system_render_wraps_the_source_with_externals() {
    let compilation = with_system_external(Some("mylib"), "lodash");
    let plugin = SystemLibraryPlugin::new();
    let out = plugin
        .render(&compilation, 1, &String::from("SOURCE"))
        .unwrap()
        .unwrap();
    let expected = "System.register(\"mylib\", [\"lodash\"], function(__WEBPACK_DYNAMIC_EXPORT__, __system_context__) {\nvar __WEBPACK_EXTERNAL_MODULE_0__ = {};\nObject.defineProperty( __WEBPACK_EXTERNAL_MODULE_0__ , \"__esModule\", { value: true });\nreturn {\nfunction(module) {Object.keys(module).forEach(function(key) {\n __WEBPACK_EXTERNAL_MODULE_0__[key] = module[key]; })},\nexecute: function() {\nconsole.log(__WEBPACK_DYNAMIC_EXPORT__);__WEBPACK_DYNAMIC_EXPORT__(SOURCE)}\n}\n\n})";
    assert_eq!(out, expected);
}

#[test]
fn system_render_without_externals_or_library() {
    let compilation = bare_compilation(None);
    let plugin = SystemLibraryPlugin::new();
    let out = plugin
        .render(&compilation, 1, &String::from("S"))
        .unwrap()
        .unwrap();
    let expected = "System.register([], function(__WEBPACK_DYNAMIC_EXPORT__, __system_context__) {\nreturn {\nexecute: function() {\nconsole.log(__WEBPACK_DYNAMIC_EXPORT__);__WEBPACK_DYNAMIC_EXPORT__(S)}\n}\n\n})";
    assert_eq!(out, expected);
}

#[test]
fn non_system_externals_are_not_wrapped_in() {
    let mut compilation = bare_compilation(None);
    let module = ExternalModule::new(String::from("react"), String::from("var"));
    let ident = Identifier::from_string(module.identifier().as_string().clone());
    compilation.module_graph.add_module(BoxModule::External(module));
    compilation.chunk_graph.chunk_modules = vec![(1, vec![ident])];
    let plugin = SystemLibraryPlugin::new();
    let out = plugin
        .render(&compilation, 1, &String::from("S"))
        .unwrap()
        .unwrap();
    assert!(out.starts_with("System.register([], function"));
}

#[test]
fn chunk_hash_absorbs_the_plugin_name_and_library() {
    let compilation = bare_compilation(Some("lib"));
    let plugin = SystemLibraryPlugin::new();
    let mut hasher = PluginHasher::new();
    plugin.js_chunk_hash(&compilation, &mut hasher).unwrap();
    assert_eq!(hasher.data, "SystemLibraryPluginlib");
    let unnamed = bare_compilation(None);
    let mut hasher2 = PluginHasher::new();
    plugin.js_chunk_hash(&unnamed, &mut hasher2).unwrap();
    assert_eq!(hasher2.data, "SystemLibraryPlugin");
}

#[test]
fn container_plugin_seeds_one_entry() {
    let mut compilation = bare_compilation(None);
    let mut plugin = ContainerPlugin::new(ContainerPluginOptions::default());
    plugin.apply().unwrap();
    plugin.compilation(&mut compilation).unwrap();
    assert_eq!(compilation.entries.len(), 1);
    assert_eq!(compilation.entries[0].0, "a");
    assert_eq!(compilation.module_graph.dependencies.len(), 1);
    match &compilation.module_graph.dependencies[0] {
        BoxDependency::ContainerEntry(d) => {
            assert_eq!(d.name, "b");
            assert_eq!(d.id, Some(bundler_core::ident::DependencyId::new(0)));
        },
        _ => panic!("wrong dependency kind"),
    }
}

#[test]
fn requirement_hooks_accumulate_over_the_pipeline() {
    let plugins = vec![
        Plugin::Container(ContainerPlugin::new(ContainerPluginOptions::default())),
        Plugin::SystemLibrary(SystemLibraryPlugin::new()),
    ];
    let mut reqs = RuntimeGlobals::from_bits(runtime_globals::EXPORTS);
    run_additional_chunk_runtime_requirements(&plugins, &mut reqs).unwrap();
    assert_eq!(
        reqs.bits,
        runtime_globals::EXPORTS | runtime_globals::RETURN_EXPORTS_FROM_RUNTIME
    );
}

#[test]
fn render_pipeline_composes_in_registration_order() {
    let compilation = bare_compilation(None);
    let plugins = vec![
        Plugin::Container(ContainerPlugin::new(ContainerPluginOptions::default())),
        Plugin::SystemLibrary(SystemLibraryPlugin::new()),
    ];
    let out = run_render(&plugins, &compilation, 1, String::from("S")).unwrap();
    assert!(out.starts_with("System.register([], function"));
    assert!(out.contains("__WEBPACK_DYNAMIC_EXPORT__(S)"));
}

#[test]
fn hash_pipeline_concatenates_contributions() {
    let compilation = bare_compilation(Some("z"));
    let plugins = vec![
        Plugin::Container(ContainerPlugin::new(ContainerPluginOptions::default())),
        Plugin::SystemLibrary(SystemLibraryPlugin::new()),
    ];
    let mut hasher = PluginHasher::new();
    run_js_chunk_hash(&plugins, &compilation, &mut hasher).unwrap();
    assert_eq!(hasher.data, "SystemLibraryPluginz");
}

#[test]
fn chunk_requirements_union_modules_and_plugins() {
    let mut compilation = bare_compilation(None);
    let module = bundler_core::module::ContainerEntryModule::new(String::from("b"));
    let ident = Identifier::from_string(module.identifier().as_string().clone());
    compilation.module_graph.add_module(BoxModule::ContainerEntry(module));
    compilation.chunk_graph.chunk_modules = vec![(1, vec![ident])];
    let plugins = vec![Plugin::SystemLibrary(SystemLibraryPlugin::new())];
    let reqs = chunk_runtime_requirements(&compilation, 1, &plugins).unwrap();
    assert_eq!(
        reqs.bits,
        runtime_globals::DEFINE_PROPERTY_GETTERS
            | runtime_globals::HAS_OWN_PROPERTY
            | runtime_globals::EXPORTS
            | runtime_globals::RETURN_EXPORTS_FROM_RUNTIME
    );
}

#[test]
fn compilation_hooks_seed_entries_in_order() {
    let mut compilation = bare_compilation(None);
    let mut plugins = vec![
        Plugin::SystemLibrary(SystemLibraryPlugin::new()),
        Plugin::Container(ContainerPlugin::new(ContainerPluginOptions::default())),
    ];
    bundler_core::plugin::run_compilation_hooks(&mut plugins, &mut compilation).unwrap();
    assert_eq!(compilation.entries.len(), 1);
    assert_eq!(compilation.module_graph.dependencies.len(), 1);
}

#[test]
fn the_compilation_resolves_its_seeded_entries() {
    let mut compilation = bare_compilation(None);
    let mut plugins = vec![Plugin::Container(ContainerPlugin::new(
        ContainerPluginOptions::default(),
    ))];
    bundler_core::plugin::run_compilation_hooks(&mut plugins, &mut compilation).unwrap();
    compilation.build_module_graph(4).unwrap();
    for r in &compilation.module_graph.resolutions {
        assert!(r.is_some());
    }
    // the entry's dependency resolved to the container entry module
    let (_, id, _) = &compilation.entries[0];
    assert_eq!(
        compilation.module_graph.module_identifier_by_dependency(*id),
        Some(String::from("container entry (b)"))
    );
}

#[test]
fn a_short_budget_fails_graph_building() {
    let mut compilation = bare_compilation(None);
    let mut plugin = ContainerPlugin::new(ContainerPluginOptions::default());
    plugin.compilation(&mut compilation).unwrap();
    assert!(matches!(
        compilation.build_module_graph(0),
        Err(bundler_core::error::CoreError::GraphBudget)
    ));
}
