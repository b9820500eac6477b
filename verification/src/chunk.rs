//! Chunks and chunk groups: the output units modules are grouped into, with
//! their hash, name and id metadata, and the choice of filename template for
//! a chunk and content kind.

use vstd::prelude::*;

use crate::filename::Filename;

verus! {

/// The unique key of a chunk, stable for the compilation's lifetime.
pub type ChunkUkey = u64;

/// The unique key of a chunk group.
pub type ChunkGroupUkey = u64;

/// The kind of output a generated source belongs to.
#[derive(Clone, Copy, PartialEq, Eq, Structural, Debug)]
pub enum SourceType {
    JavaScript,
    Css,
}

/// One output unit: produced from a set of connected modules, annotated
/// with id, name and hash metadata by the sealing passes.
#[derive(Clone, Debug)]
pub struct Chunk {
    /// Unique key, stable for the compilation's lifetime.
    pub ukey: ChunkUkey,
    /// The runtime identifier, absent until ids are assigned. A chunk with
    /// no id cannot appear in a static lookup table.
    pub id: Option<String>,
    /// The configured name, if any.
    pub name: Option<String>,
    /// The chunk's own rendered hash, absent until hashing has run.
    pub rendered_hash: Option<String>,
    /// Per-source-type content hashes, absent until hashing has run.
    pub js_content_hash: Option<String>,
    /// The stylesheet content hash, if the chunk has stylesheet output.
    pub css_content_hash: Option<String>,
    /// A filename template configured for this chunk alone, overriding the
    /// compilation-wide one.
    pub filename_template: Option<Filename>,
    /// A stylesheet filename template configured for this chunk alone.
    pub css_filename_template: Option<Filename>,
    /// The groups this chunk is a member of.
    pub groups: Vec<ChunkGroupUkey>,
    /// Whether the chunk produces stylesheet output.
    pub has_css: bool,
}

/// A set of chunks produced together for one entry point or one dynamic
/// import boundary.
#[derive(Clone, Debug)]
pub struct ChunkGroup {
    /// Unique key, stable for the compilation's lifetime.
    pub ukey: ChunkGroupUkey,
    /// The chunks of this group, in sealing order.
    pub chunks: Vec<ChunkUkey>,
    /// Child groups: groups loaded on demand from this one.
    pub children: Vec<ChunkGroupUkey>,
    /// Asynchronous entry points referenced from this group.
    pub async_entrypoints: Vec<ChunkGroupUkey>,
    /// Whether the group belongs to an initial (non-async) entry point.
    pub is_initial: bool,
    /// The entry point chunk of the group, where the group is an entry.
    pub entry_point_chunk: Option<ChunkUkey>,
}

/// The compilation-wide output options the filename choice draws on.
#[derive(Clone, Debug)]
pub struct OutputOptions {
    /// Template for initial script chunks.
    pub filename: Filename,
    /// Template for non-initial script chunks.
    pub chunk_filename: Filename,
    /// Template for initial stylesheet chunks.
    pub css_filename: Filename,
    /// Template for non-initial stylesheet chunks.
    pub css_chunk_filename: Filename,
    /// The length content hashes are rendered to.
    pub hash_digest_length: usize,
    /// The configured library name, if one is set.
    pub library: Option<String>,
}

/// The group at index `i` of `groups`, at the spec level.
pub open spec fn spec_group_by_ukey(groups: Seq<ChunkGroup>, ukey: ChunkGroupUkey) -> Option<
    ChunkGroup,
>
    decreases groups.len(),
{
    if groups.len() == 0 {
        None
    } else if groups.first().ukey == ukey {
        Some(groups.first())
    } else {
        spec_group_by_ukey(groups.drop_first(), ukey)
    }
}

/// Looks a chunk group up by its unique key; the first match wins.
pub fn group_by_ukey<'a>(groups: &'a Vec<ChunkGroup>, ukey: ChunkGroupUkey) -> (r: Option<
    &'a ChunkGroup,
>)
    ensures
        match r {
            Some(g) => spec_group_by_ukey(groups@, ukey) == Some(*g),
            None => spec_group_by_ukey(groups@, ukey) is None,
        },
{
    let mut i: usize = 0;
    proof {
        assert(groups@.skip(0) =~= groups@);
    }
    while i < groups.len()
        invariant
            i <= groups.len(),
            spec_group_by_ukey(groups@, ukey) == spec_group_by_ukey(groups@.skip(i as int), ukey),
        decreases groups.len() - i,
    {
        proof {
            assert(groups@.skip(i as int).drop_first() =~= groups@.skip(i + 1));
        }
        if groups[i].ukey == ukey {
            return Some(&groups[i]);
        }
        i = i + 1;
    }
    None
}

/// The chunk with the given unique key, at the spec level.
pub open spec fn spec_chunk_by_ukey(chunks: Seq<Chunk>, ukey: ChunkUkey) -> Option<Chunk>
    decreases chunks.len(),
{
    if chunks.len() == 0 {
        None
    } else if chunks.first().ukey == ukey {
        Some(chunks.first())
    } else {
        spec_chunk_by_ukey(chunks.drop_first(), ukey)
    }
}

/// Looks a chunk up by its unique key; the first match wins.
pub fn chunk_by_ukey<'a>(chunks: &'a Vec<Chunk>, ukey: ChunkUkey) -> (r: Option<&'a Chunk>)
    ensures
        match r {
            Some(c) => spec_chunk_by_ukey(chunks@, ukey) == Some(*c),
            None => spec_chunk_by_ukey(chunks@, ukey) is None,
        },
{
    let mut i: usize = 0;
    proof {
        assert(chunks@.skip(0) =~= chunks@);
    }
    while i < chunks.len()
        invariant
            i <= chunks.len(),
            spec_chunk_by_ukey(chunks@, ukey) == spec_chunk_by_ukey(chunks@.skip(i as int), ukey),
        decreases chunks.len() - i,
    {
        proof {
            assert(chunks@.skip(i as int).drop_first() =~= chunks@.skip(i + 1));
        }
        if chunks[i].ukey == ukey {
            return Some(&chunks[i]);
        }
        i = i + 1;
    }
    None
}

/// Whether the group with the given key exists and is initial.
pub open spec fn spec_is_initial_group(groups: Seq<ChunkGroup>, ukey: ChunkGroupUkey) -> bool {
    match spec_group_by_ukey(groups, ukey) {
        Some(g) => g.is_initial,
        None => false,
    }
}

/// Whether one of the chunk's groups is initial, at the spec level.
pub open spec fn spec_can_be_initial(chunk: Chunk, groups: Seq<ChunkGroup>) -> bool {
    exists|k: int|
        0 <= k < chunk.groups@.len() && #[trigger] spec_is_initial_group(
            groups,
            chunk.groups@[k],
        )
}

/// Whether the chunk belongs to an initial entry point's group.
pub fn can_be_initial(chunk: &Chunk, groups: &Vec<ChunkGroup>) -> (r: bool)
    ensures
        r == spec_can_be_initial(*chunk, groups@),
{
    let mut i: usize = 0;
    while i < chunk.groups.len()
        invariant
            i <= chunk.groups@.len(),
            forall|k: int| 0 <= k < i ==> !spec_is_initial_group(groups@, chunk.groups@[k]),
        decreases chunk.groups@.len() - i,
    {
        if let Some(g) = group_by_ukey(groups, chunk.groups[i]) {
            if g.is_initial {
                proof {
                    assert(spec_is_initial_group(groups@, chunk.groups@[i as int]));
                }
                return true;
            }
        }
        i = i + 1;
    }
    false
}

/// The script filename template of a chunk: its own, or the compilation-wide
/// one for initial or non-initial chunks, at the spec level.
pub open spec fn spec_js_template(chunk: Chunk, options: OutputOptions, groups: Seq<ChunkGroup>) -> Seq<char> {
    match chunk.filename_template {
        Some(f) => f.template@,
        None => if spec_can_be_initial(chunk, groups) {
            options.filename.template@
        } else {
            options.chunk_filename.template@
        },
    }
}

/// The script filename template used for the chunk.
pub fn get_js_chunk_filename_template(
    chunk: &Chunk,
    options: &OutputOptions,
    groups: &Vec<ChunkGroup>,
) -> (r: Filename)
    ensures
        r.template@ == spec_js_template(*chunk, *options, groups@),
{
    match &chunk.filename_template {
        Some(f) => f.duplicate(),
        None => {
            if can_be_initial(chunk, groups) {
                options.filename.duplicate()
            } else {
                options.chunk_filename.duplicate()
            }
        },
    }
}

/// The stylesheet filename template of a chunk, at the spec level.
pub open spec fn spec_css_template(chunk: Chunk, options: OutputOptions, groups: Seq<ChunkGroup>) -> Seq<char> {
    match chunk.css_filename_template {
        Some(f) => f.template@,
        None => if spec_can_be_initial(chunk, groups) {
            options.css_filename.template@
        } else {
            options.css_chunk_filename.template@
        },
    }
}

/// The stylesheet filename template used for the chunk.
pub fn get_css_chunk_filename_template(
    chunk: &Chunk,
    options: &OutputOptions,
    groups: &Vec<ChunkGroup>,
) -> (r: Filename)
    ensures
        r.template@ == spec_css_template(*chunk, *options, groups@),
{
    match &chunk.css_filename_template {
        Some(f) => f.duplicate(),
        None => {
            if can_be_initial(chunk, groups) {
                options.css_filename.duplicate()
            } else {
                options.css_chunk_filename.duplicate()
            }
        },
    }
}

/// The filename template of a chunk for a content kind: always present for
/// scripts, present for stylesheets only when the chunk has stylesheet
/// output, at the spec level.
pub open spec fn spec_template_of(
    chunk: Chunk,
    source_type: SourceType,
    options: OutputOptions,
    groups: Seq<ChunkGroup>,
) -> Option<Seq<char>> {
    match source_type {
        SourceType::JavaScript => Some(spec_js_template(chunk, options, groups)),
        SourceType::Css => if chunk.has_css {
            Some(spec_css_template(chunk, options, groups))
        } else {
            None
        },
    }
}

/// The filename template of a chunk for a content kind; a chunk that
/// produces no output of that kind has none.
pub fn template_of(
    chunk: &Chunk,
    source_type: SourceType,
    options: &OutputOptions,
    groups: &Vec<ChunkGroup>,
) -> (r: Option<Filename>)
    ensures
        match r {
            Some(f) => spec_template_of(*chunk, source_type, *options, groups@) == Some(
                f.template@,
            ),
            None => spec_template_of(*chunk, source_type, *options, groups@) is None,
        },
{
    match source_type {
        SourceType::JavaScript => Some(get_js_chunk_filename_template(chunk, options, groups)),
        SourceType::Css => {
            if chunk.has_css {
                Some(get_css_chunk_filename_template(chunk, options, groups))
            } else {
                None
            }
        },
    }
}

} // verus!
