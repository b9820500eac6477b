use bundler_core::chunk::{Chunk, ChunkGroup, OutputOptions};
use bundler_core::compilation::{
    collect_candidate_chunks, get_all_async_chunks, get_all_referenced_chunks, ChunkGraph,
    Compilation,
};
use bundler_core::filename::Filename;
use bundler_core::graph::ModuleGraph;
use bundler_core::runtime_globals;
use bundler_core::runtime_globals::RuntimeGlobals;

fn chunk(ukey: u64, groups: Vec<u64>) -> Chunk {
    Chunk {
        ukey,
        id: Some(format!("c{ukey}")),
        name: None,
        rendered_hash: None,
        js_content_hash: None,
        css_content_hash: None,
        filename_template: None,
        css_filename_template: None,
        groups,
        has_css: false,
    }
}

fn group(ukey: u64, chunks: Vec<u64>, children: Vec<u64>) -> ChunkGroup {
    ChunkGroup {
        ukey,
        chunks,
        children,
        async_entrypoints: Vec::new(),
        is_initial: false,
        entry_point_chunk: None,
    }
}

fn compilation(chunks: Vec<Chunk>, groups: Vec<ChunkGroup>) -> Compilation {
    Compilation {
        module_graph: ModuleGraph::new(),
        entries: Vec::new(),
        chunk_by_ukey: chunks,
        chunk_group_by_ukey: groups,
        output_options: OutputOptions {
            filename: Filename::new(String::from("[name].js")),
            chunk_filename: Filename::new(String::from("[id].js")),
            css_filename: Filename::new(String::from("[name].css")),
            css_chunk_filename: Filename::new(String::from("[id].css")),
            hash_digest_length: 16,
            library: None,
        },
        chunk_graph: ChunkGraph::new(),
        full_hash: None,
    }
}

#[test]
fn referenced_chunks_cover_the_child_closure() {
    // group 10 (chunk 1) -> group 11 (chunk 2) -> group 12 (chunk 3)
    let c = compilation(
        vec![chunk(1, vec![10]), chunk(2, vec![11]), chunk(3, vec![12])],
        vec![
            group(10, vec![1], vec![11]),
            group(11, vec![2], vec![12]),
            group(12, vec![3], vec![]),
        ],
    );
    let referenced = get_all_referenced_chunks(&c.chunk_by_ukey[0], &c.chunk_group_by_ukey);
    assert_eq!(referenced, vec![1, 2, 3]);
}

#[test]
fn async_chunks_leave_out_the_own_groups() {
    let c = compilation(
        vec![chunk(1, vec![10]), chunk(2, vec![11]), chunk(3, vec![12])],
        vec![
            group(10, vec![1], vec![11]),
            group(11, vec![2], vec![12]),
            group(12, vec![3], vec![]),
        ],
    );
    let async_chunks = get_all_async_chunks(&c.chunk_by_ukey[0], &c.chunk_group_by_ukey);
    assert_eq!(async_chunks, vec![2, 3]);
}

#[test]
fn candidates_widen_with_entry_dependent_chunks_when_required() {
    let mut c = compilation(
        vec![chunk(1, vec![10]), chunk(2, vec![11]), chunk(9, vec![])],
        vec![group(10, vec![1], vec![11]), group(11, vec![2], vec![])],
    );
    c.chunk_graph.tree_runtime_requirements = vec![(
        1,
        RuntimeGlobals::from_bits(runtime_globals::ENSURE_CHUNK_INCLUDE_ENTRIES),
    )];
    c.chunk_graph.entry_dependent_chunks = vec![(1, vec![9])];
    let candidates = collect_candidate_chunks(&c, 1, false);
    assert_eq!(candidates, vec![2, 9]);
}

#[test]
fn async_entry_points_contribute_their_entry_chunk() {
    let mut groups = vec![group(10, vec![1], vec![]), group(20, vec![7], vec![])];
    groups[0].async_entrypoints = vec![20];
    groups[1].entry_point_chunk = Some(7);
    let c = compilation(vec![chunk(1, vec![10]), chunk(7, vec![20])], groups);
    let candidates = collect_candidate_chunks(&c, 1, false);
    assert_eq!(candidates, vec![7]);
}

#[test]
fn an_unknown_chunk_has_no_candidates() {
    let c = compilation(Vec::new(), Vec::new());
    let candidates = collect_candidate_chunks(&c, 42, true);
    assert!(candidates.is_empty());
}

#[test]
fn all_chunks_mode_takes_the_whole_closure() {
    let c = compilation(
        vec![chunk(1, vec![10]), chunk(2, vec![11])],
        vec![group(10, vec![1], vec![11]), group(11, vec![2], vec![])],
    );
    let candidates = collect_candidate_chunks(&c, 1, true);
    assert_eq!(candidates, vec![1, 2]);
}
