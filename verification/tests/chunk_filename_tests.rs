use bundler_core::chunk::{Chunk, ChunkGroup, OutputOptions, SourceType};
use bundler_core::chunk_filename::{
    build_dynamic_url, build_static_url, group_by_template, select_dynamic, FilenameGroup,
    GetChunkFilenameRuntimeModule,
};
use bundler_core::compilation::{ChunkGraph, Compilation};
use bundler_core::filename::Filename;
use bundler_core::graph::ModuleGraph;
use bundler_core::runtime_globals;

fn plain_chunk(ukey: u64, id: &str, template: &str) -> Chunk {
    Chunk {
        ukey,
        id: Some(String::from(id)),
        name: None,
        rendered_hash: None,
        js_content_hash: None,
        css_content_hash: None,
        filename_template: Some(Filename::new(String::from(template))),
        css_filename_template: None,
        groups: vec![10],
        has_css: false,
    }
}

fn compilation_of(chunks: Vec<Chunk>) -> Compilation {
    let members: Vec<u64> = chunks.iter().map(|c| c.ukey).collect();
    Compilation {
        module_graph: ModuleGraph::new(),
        entries: Vec::new(),
        chunk_by_ukey: chunks,
        chunk_group_by_ukey: vec![ChunkGroup {
            ukey: 10,
            chunks: members,
            children: Vec::new(),
            async_entrypoints: Vec::new(),
            is_initial: true,
            entry_point_chunk: None,
        }],
        output_options: OutputOptions {
            filename: Filename::new(String::from("[name].js")),
            chunk_filename: Filename::new(String::from("[id].js")),
            css_filename: Filename::new(String::from("[name].css")),
            css_chunk_filename: Filename::new(String::from("[id].css")),
            hash_digest_length: 16,
            library: None,
        },
        chunk_graph: ChunkGraph::new(),
        full_hash: None,
    }
}

fn group(template: &str, size: usize) -> FilenameGroup {
    FilenameGroup {
        template: String::from(template),
        chunks: (0..size as u64).collect(),
    }
}

#[test]
fn larger_group_wins_the_dynamic_slot() {
    let groups = vec![group("y.[chunkhash].js", 1), group("x.js", 2)];
    assert_eq!(select_dynamic(&groups), Some(1));
}

#[test]
fn equal_size_prefers_the_longer_template() {
    let groups = vec![group("x.js", 1), group("much-longer.js", 1)];
    assert_eq!(select_dynamic(&groups), Some(1));
    let flipped = vec![group("much-longer.js", 1), group("x.js", 1)];
    assert_eq!(select_dynamic(&flipped), Some(0));
}

#[test]
fn equal_size_and_length_prefers_the_lexicographically_greater() {
    let groups = vec![group("a.js", 1), group("b.js", 1)];
    assert_eq!(select_dynamic(&groups), Some(1));
    let flipped = vec![group("b.js", 1), group("a.js", 1)];
    assert_eq!(select_dynamic(&flipped), Some(0));
}

#[test]
fn no_groups_no_dynamic_template() {
    assert_eq!(select_dynamic(&Vec::new()), None);
}

#[test]
fn grouping_joins_equal_templates_and_keeps_order() {
    let compilation = compilation_of(vec![
        plain_chunk(1, "a", "x.js"),
        plain_chunk(2, "b", "x.js"),
        plain_chunk(3, "c", "y.[chunkhash].js"),
    ]);
    let candidates = vec![1, 2, 3];
    let groups = group_by_template(&candidates, &compilation, SourceType::JavaScript);
    assert_eq!(groups.len(), 2);
    assert_eq!(groups[0].template, "x.js");
    assert_eq!(groups[0].chunks, vec![1, 2]);
    assert_eq!(groups[1].template, "y.[chunkhash].js");
    assert_eq!(groups[1].chunks, vec![3]);
}

#[test]
fn shared_template_becomes_the_formula_and_the_rest_the_table() {
    let mut c3 = plain_chunk(3, "c", "y.[chunkhash].js");
    c3.rendered_hash = Some(String::from("cafebabe"));
    let compilation = compilation_of(vec![
        plain_chunk(1, "a", "x.js"),
        plain_chunk(2, "b", "x.js"),
        c3,
    ]);
    let mut module = GetChunkFilenameRuntimeModule::new(
        String::from("js"),
        SourceType::JavaScript,
        runtime_globals::GET_CHUNK_SCRIPT_FILENAME,
        true,
    );
    module.attach(1);
    let out = module.generate(&compilation);
    let expected = "// This function allow to reference chunks\n__webpack_require__.u = function (chunkId) {\n  // return url for filenames not based on template\n  if (chunkId === \"c\") return \"y.cafebabe.js\";\n  // return url for filenames based on template\n  return \"x.js\";\n};\n";
    assert_eq!(out, expected);
}

#[test]
fn zero_candidates_give_exactly_the_fallback_function() {
    let compilation = compilation_of(Vec::new());
    let module = GetChunkFilenameRuntimeModule::new(
        String::from("js"),
        SourceType::JavaScript,
        runtime_globals::GET_CHUNK_SCRIPT_FILENAME,
        false,
    );
    // not attached to any chunk: no candidate chunk exists
    let out = module.generate(&compilation);
    let expected = "// This function allow to reference chunks\n__webpack_require__.u = function (chunkId) {\n  // return url for filenames not based on template\n  // return url for filenames based on template\n  return \"\" + chunkId + \".js\";\n};\n";
    assert_eq!(out, expected);
}

#[test]
fn static_url_truncates_the_content_hash_literally() {
    let mut chunk = plain_chunk(3, "c", "a.[contenthash:8].js");
    chunk.js_content_hash = Some(String::from("1234567890abcdef"));
    let url = build_static_url(
        &String::from("a.[contenthash:8].js"),
        &chunk,
        SourceType::JavaScript,
        16,
    );
    assert_eq!(url, "\"a.12345678.js\"");
}

#[test]
fn dynamic_full_hash_becomes_a_slice_expression() {
    let compilation = compilation_of(Vec::new());
    let url = build_dynamic_url(
        &String::from("a.[fullhash:8].js"),
        &compilation,
        &Vec::new(),
        SourceType::JavaScript,
    );
    assert_eq!(url, "\"a.\" + __webpack_require__.h().slice(0, 8) + \".js\"");
}

#[test]
fn dynamic_untruncated_full_hash_uses_the_accessor_whole() {
    let compilation = compilation_of(Vec::new());
    let url = build_dynamic_url(
        &String::from("a.[fullhash].js"),
        &compilation,
        &Vec::new(),
        SourceType::JavaScript,
    );
    assert_eq!(url, "\"a.\" + __webpack_require__.h() + \".js\"");
}

#[test]
fn dynamic_url_substitutes_the_chunk_id_splice_and_name_map() {
    let mut c1 = plain_chunk(1, "1", "[id].[name].js");
    c1.name = Some(String::from("main"));
    let compilation = compilation_of(vec![c1]);
    let url = build_dynamic_url(
        &String::from("[id].[name].js"),
        &compilation,
        &vec![1],
        SourceType::JavaScript,
    );
    assert_eq!(url, "\"\" + chunkId + \".\" + {\"1\": \"main\"}[chunkId] + \".js\"");
}

#[test]
fn runtime_module_metadata() {
    let mut module = GetChunkFilenameRuntimeModule::new(
        String::from("css"),
        SourceType::Css,
        runtime_globals::GET_CHUNK_CSS_FILENAME,
        true,
    );
    assert_eq!(module.name().as_string(), "webpack/runtime/get_chunk_filename/css");
    assert!(!module.cacheable());
    assert!(module.chunk.is_none());
    module.attach(5);
    assert_eq!(module.chunk, Some(5));
}

#[test]
fn css_chunks_without_stylesheet_output_are_skipped() {
    let mut c1 = plain_chunk(1, "a", "x.js");
    c1.has_css = false;
    let mut c2 = plain_chunk(2, "b", "x.js");
    c2.has_css = true;
    c2.css_filename_template = Some(Filename::new(String::from("s.css")));
    let compilation = compilation_of(vec![c1, c2]);
    let groups = group_by_template(&vec![1, 2], &compilation, SourceType::Css);
    assert_eq!(groups.len(), 1);
    assert_eq!(groups[0].template, "s.css");
    assert_eq!(groups[0].chunks, vec![2]);
}

#[test]
fn a_known_chunk_without_reachable_chunks_gets_the_fallback() {
    // the chunk exists but belongs to no group, so no candidate is found
    let mut lone = plain_chunk(1, "a", "x.js");
    lone.groups = Vec::new();
    let mut compilation = compilation_of(vec![lone]);
    compilation.chunk_group_by_ukey = Vec::new();
    let mut module = GetChunkFilenameRuntimeModule::new(
        String::from("js"),
        SourceType::JavaScript,
        runtime_globals::GET_CHUNK_SCRIPT_FILENAME,
        true,
    );
    module.attach(1);
    let out = module.generate(&compilation);
    assert!(out.contains("return \"\" + chunkId + \".js\";"));
}
