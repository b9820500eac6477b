//! The chunk-filename runtime module: synthesizes the function that maps a
//! runtime chunk identifier to its asset URL. Candidate chunks are grouped
//! by identical filename template; at most one group becomes a dynamic
//! formula — the best by group size, then template length, then
//! lexicographic order — and every other group becomes a static lookup
//! table entry.

use vstd::prelude::*;
use vstd::string::StrSliceExecFns;
use vstd::string::StringExecFns;

use crate::chunk::Chunk;
use crate::chunk::ChunkUkey;
use crate::chunk::SourceType;
use crate::chunk::spec_chunk_by_ukey;
use crate::chunk::spec_template_of;
use crate::chunk::chunk_by_ukey;
use crate::chunk::template_of;
use crate::compilation::Compilation;
use crate::compilation::spec_no_dup;
use crate::filename::Filename;
use crate::strutil::lex_less;
use crate::strutil::spec_lex_less;
use crate::strutil::lemma_lex_less_total;
use crate::strutil::lemma_lex_less_trans;
use crate::strutil::lemma_lex_less_irrefl;

verus! {

/// One group of candidate chunks sharing a filename template.
#[derive(Debug)]
pub struct FilenameGroup {
    /// The shared raw template string.
    pub template: String,
    /// The candidate chunks using it, in candidate order, without
    /// duplicates.
    pub chunks: Vec<ChunkUkey>,
}

/// The filename template a candidate chunk contributes for the content
/// kind, at the spec level: none when the chunk is unknown or produces no
/// output of that kind.
pub open spec fn spec_candidate_template(
    compilation: Compilation,
    source_type: SourceType,
    ukey: ChunkUkey,
) -> Option<Seq<char>> {
    match spec_chunk_by_ukey(compilation.chunk_by_ukey@, ukey) {
        Some(c) => spec_template_of(
            c,
            source_type,
            compilation.output_options,
            compilation.chunk_group_by_ukey@,
        ),
        None => None,
    }
}

/// The filename template a candidate chunk contributes for the content
/// kind.
pub fn candidate_template(
    compilation: &Compilation,
    source_type: SourceType,
    ukey: ChunkUkey,
) -> (r: Option<Filename>)
    ensures
        match r {
            Some(f) => spec_candidate_template(*compilation, source_type, ukey) == Some(
                f.template@,
            ),
            None => spec_candidate_template(*compilation, source_type, ukey) is None,
        },
{
    match chunk_by_ukey(&compilation.chunk_by_ukey, ukey) {
        Some(c) => template_of(
            c,
            source_type,
            &compilation.output_options,
            &compilation.chunk_group_by_ukey,
        ),
        None => None,
    }
}

/// Whether some group holds the chunk key.
pub open spec fn spec_in_groups(groups: Seq<FilenameGroup>, u: ChunkUkey) -> bool {
    exists|g: int, c: int|
        0 <= g < groups.len() && 0 <= c < groups[g].chunks@.len() && #[trigger] groups[g].chunks@[c]
            == u
}

/// Whether the chunk key occurs among the first `k` candidates.
pub open spec fn spec_in_prefix(s: Seq<ChunkUkey>, k: int, u: ChunkUkey) -> bool {
    exists|j: int| 0 <= j < k && s[j] == u
}

/// The position of the group with the given template, if any.
fn find_group(groups: &Vec<FilenameGroup>, t: &String) -> (r: Option<usize>)
    ensures
        match r {
            Some(i) => i < groups@.len() && groups@[i as int].template@ == t@,
            None => forall|g: int| 0 <= g < groups@.len() ==> groups@[g].template@ != t@,
        },
{
    let mut i: usize = 0;
    while i < groups.len()
        invariant
            i <= groups.len(),
            forall|g: int| 0 <= g < i ==> groups@[g].template@ != t@,
        decreases groups.len() - i,
    {
        if groups[i].template.eq(t) {
            return Some(i);
        }
        i = i + 1;
    }
    None
}

/// Groups the candidate chunks by identical filename template, preserving
/// candidate order within a group and first-seen order across groups.
/// Candidates without a template for the content kind are dropped; every
/// other candidate lands in exactly the group of its template.
pub fn group_by_template(
    candidates: &Vec<ChunkUkey>,
    compilation: &Compilation,
    source_type: SourceType,
) -> (groups: Vec<FilenameGroup>)
    requires
        spec_no_dup(candidates@),
    ensures
        forall|i: int, j: int|
            0 <= i < j < groups@.len() ==> groups@[i].template@ != groups@[j].template@,
        forall|g: int| 0 <= g < groups@.len() ==> groups@[g].chunks@.len() > 0,
        forall|g: int, c: int|
            0 <= g < groups@.len() && 0 <= c < groups@[g].chunks@.len()
                ==> spec_candidate_template(*compilation, source_type, #[trigger] groups@[g].chunks@[c])
                == Some(groups@[g].template@),
        forall|g: int| 0 <= g < groups@.len() ==> spec_no_dup(#[trigger] groups@[g].chunks@),
        forall|k: int|
            0 <= k < candidates@.len() && spec_candidate_template(
                *compilation,
                source_type,
                #[trigger] candidates@[k],
            ) is Some ==> spec_in_groups(groups@, candidates@[k]),
        groups@.len() == 0 <==> (forall|k: int|
            0 <= k < candidates@.len() ==> spec_candidate_template(
                *compilation,
                source_type,
                #[trigger] candidates@[k],
            ) is None),
{
    let mut groups: Vec<FilenameGroup> = Vec::new();
    let mut k: usize = 0;
    while k < candidates.len()
        invariant
            k <= candidates@.len(),
            spec_no_dup(candidates@),
            forall|i: int, j: int|
                0 <= i < j < groups@.len() ==> groups@[i].template@ != groups@[j].template@,
            forall|g: int| 0 <= g < groups@.len() ==> groups@[g].chunks@.len() > 0,
            forall|g: int, c: int|
                0 <= g < groups@.len() && 0 <= c < groups@[g].chunks@.len()
                    ==> spec_candidate_template(
                    *compilation,
                    source_type,
                    #[trigger] groups@[g].chunks@[c],
                ) == Some(groups@[g].template@),
            forall|g: int| 0 <= g < groups@.len() ==> spec_no_dup(#[trigger] groups@[g].chunks@),
            forall|g: int, c: int|
                0 <= g < groups@.len() && 0 <= c < groups@[g].chunks@.len() ==> spec_in_prefix(
                    candidates@,
                    k as int,
                    #[trigger] groups@[g].chunks@[c],
                ),
            forall|k2: int|
                0 <= k2 < k && spec_candidate_template(
                    *compilation,
                    source_type,
                    #[trigger] candidates@[k2],
                ) is Some ==> spec_in_groups(groups@, candidates@[k2]),
            groups@.len() == 0 ==> (forall|k2: int|
                0 <= k2 < k ==> spec_candidate_template(
                    *compilation,
                    source_type,
                    #[trigger] candidates@[k2],
                ) is None),
        decreases candidates@.len() - k,
    {
        let ukey = candidates[k];
        let ghost groups_old = groups@;
        match candidate_template(compilation, source_type, ukey) {
            Some(f) => {
                match find_group(&groups, &f.template) {
                    Some(gi) => {
                        proof {
                            assert(!groups@[gi as int].chunks@.contains(ukey)) by {
                                if groups@[gi as int].chunks@.contains(ukey) {
                                    let c = choose|c: int|
                                        0 <= c < groups@[gi as int].chunks@.len() && groups@[gi as int].chunks@[c]
                                            == ukey;
                                    assert(spec_in_prefix(candidates@, k as int, ukey));
                                }
                            }
                        }
                        groups[gi].chunks.push(ukey);
                        proof {
                            let gii = gi as int;
                            assert(groups@[gii].chunks@ == groups_old[gii].chunks@.push(ukey));
                            assert(spec_no_dup(groups@[gii].chunks@)) by {
                                let s = groups@[gii].chunks@;
                                let s0 = groups_old[gii].chunks@;
                                assert(forall|c: int| 0 <= c < s0.len() ==> s[c] == s0[c]);
                                assert(s[s.len() - 1] == ukey);
                            }
                            assert(forall|g: int, c: int|
                                0 <= g < groups@.len() && 0 <= c < groups@[g].chunks@.len()
                                    ==> spec_in_prefix(
                                    candidates@,
                                    k + 1,
                                    #[trigger] groups@[g].chunks@[c],
                                )) by {
                                assert forall|g: int, c: int|
                                    0 <= g < groups@.len() && 0 <= c
                                        < groups@[g].chunks@.len() implies spec_in_prefix(
                                    candidates@,
                                    k + 1,
                                    #[trigger] groups@[g].chunks@[c],
                                ) by {
                                    if g == gii && c == groups@[g].chunks@.len() - 1 {
                                        assert(candidates@[k as int] == ukey);
                                    } else {
                                        assert(spec_in_prefix(
                                            candidates@,
                                            k as int,
                                            groups@[g].chunks@[c],
                                        ));
                                    }
                                }
                            }
                            assert(spec_in_groups(groups@, ukey)) by {
                                assert(groups@[gii].chunks@[groups@[gii].chunks@.len() - 1]
                                    == ukey);
                            }
                            assert(forall|k2: int|
                                0 <= k2 < k && spec_in_groups(groups_old, #[trigger] candidates@[k2])
                                    ==> spec_in_groups(groups@, candidates@[k2])) by {
                                assert forall|k2: int|
                                    0 <= k2 < k && spec_in_groups(
                                        groups_old,
                                        #[trigger] candidates@[k2],
                                    ) implies spec_in_groups(groups@, candidates@[k2]) by {
                                    let (g, c) = choose|g: int, c: int|
                                        0 <= g < groups_old.len() && 0 <= c
                                            < groups_old[g].chunks@.len()
                                            && #[trigger] groups_old[g].chunks@[c]
                                            == candidates@[k2];
                                    assert(groups@[g].chunks@[c] == candidates@[k2]);
                                }
                            }
                        }
                    },
                    None => {
                        let group = FilenameGroup { template: f.template, chunks: Vec::new() };
                        groups.push(group);
                        let last = groups.len() - 1;
                        groups[last].chunks.push(ukey);
                        proof {
                            let li = last as int;
                            assert(groups@[li].chunks@ =~= seq![ukey]);
                            assert(forall|g: int| 0 <= g < li ==> groups@[g] == groups_old[g]);
                            assert(spec_in_groups(groups@, ukey)) by {
                                assert(groups@[li].chunks@[0] == ukey);
                            }
                            assert(forall|g: int, c: int|
                                0 <= g < groups@.len() && 0 <= c < groups@[g].chunks@.len()
                                    ==> spec_in_prefix(
                                    candidates@,
                                    k + 1,
                                    #[trigger] groups@[g].chunks@[c],
                                )) by {
                                assert forall|g: int, c: int|
                                    0 <= g < groups@.len() && 0 <= c
                                        < groups@[g].chunks@.len() implies spec_in_prefix(
                                    candidates@,
                                    k + 1,
                                    #[trigger] groups@[g].chunks@[c],
                                ) by {
                                    if g == li {
                                        assert(candidates@[k as int] == ukey);
                                    } else {
                                        assert(spec_in_prefix(
                                            candidates@,
                                            k as int,
                                            groups@[g].chunks@[c],
                                        ));
                                    }
                                }
                            }
                            assert(forall|k2: int|
                                0 <= k2 < k && spec_in_groups(groups_old, #[trigger] candidates@[k2])
                                    ==> spec_in_groups(groups@, candidates@[k2])) by {
                                assert forall|k2: int|
                                    0 <= k2 < k && spec_in_groups(
                                        groups_old,
                                        #[trigger] candidates@[k2],
                                    ) implies spec_in_groups(groups@, candidates@[k2]) by {
                                    let (g, c) = choose|g: int, c: int|
                                        0 <= g < groups_old.len() && 0 <= c
                                            < groups_old[g].chunks@.len()
                                            && #[trigger] groups_old[g].chunks@[c]
                                            == candidates@[k2];
                                    assert(groups@[g].chunks@[c] == candidates@[k2]);
                                }
                            }
                        }
                    },
                }
            },
            None => {},
        }
        k = k + 1;
    }
    proof {
        if groups@.len() > 0 {
            let c = groups@[0].chunks@[0];
            assert(spec_in_prefix(candidates@, candidates@.len() as int, c));
            let j = choose|j: int| 0 <= j < candidates@.len() && candidates@[j] == c;
            assert(spec_candidate_template(*compilation, source_type, candidates@[j]) is Some);
        }
    }
    groups
}

/// The strict tie-break ordering of the dynamic-template choice: a larger
/// group wins; on equal size a longer template wins; on equal length the
/// lexicographically-not-less template wins.
pub open spec fn spec_group_beats(a: FilenameGroup, b: FilenameGroup) -> bool {
    if a.chunks@.len() != b.chunks@.len() {
        a.chunks@.len() > b.chunks@.len()
    } else if a.template@.len() != b.template@.len() {
        a.template@.len() > b.template@.len()
    } else {
        !spec_lex_less(a.template@, b.template@)
    }
}

/// Compares two groups under the tie-break ordering.
pub fn group_beats(a: &FilenameGroup, b: &FilenameGroup) -> (r: bool)
    ensures
        r == spec_group_beats(*a, *b),
{
    let a_size = a.chunks.len();
    let b_size = b.chunks.len();
    if a_size != b_size {
        a_size > b_size
    } else {
        let a_len = a.template.as_str().unicode_len();
        let b_len = b.template.as_str().unicode_len();
        if a_len != b_len {
            a_len > b_len
        } else {
            !lex_less(&a.template, &b.template)
        }
    }
}

/// On groups with distinct templates, one of the two always beats the
/// other.
pub proof fn lemma_beats_total(a: FilenameGroup, b: FilenameGroup)
    requires
        a.template@ != b.template@,
    ensures
        spec_group_beats(a, b) || spec_group_beats(b, a),
        !(spec_group_beats(a, b) && spec_group_beats(b, a)),
{
    lemma_lex_less_total(a.template@, b.template@);
}

/// The tie-break ordering is transitive over groups with pairwise distinct
/// templates.
pub proof fn lemma_beats_trans(a: FilenameGroup, b: FilenameGroup, c: FilenameGroup)
    requires
        spec_group_beats(a, b),
        spec_group_beats(b, c),
        a.template@ != b.template@,
        b.template@ != c.template@,
        a.template@ != c.template@,
    ensures
        spec_group_beats(a, c),
{
    if a.chunks@.len() == b.chunks@.len() && b.chunks@.len() == c.chunks@.len()
        && a.template@.len() == b.template@.len() && b.template@.len() == c.template@.len() {
        lemma_lex_less_total(a.template@, b.template@);
        lemma_lex_less_total(b.template@, c.template@);
        lemma_lex_less_total(a.template@, c.template@);
        if spec_lex_less(a.template@, c.template@) {
            lemma_lex_less_trans(c.template@, b.template@, a.template@);
            lemma_lex_less_irrefl(a.template@);
        }
    }
}

/// The dynamic choice is deterministic: among groups with pairwise distinct
/// templates, at most one beats every other, so the selection cannot depend
/// on traversal order.
pub proof fn lemma_selection_unique(groups: Seq<FilenameGroup>, i: int, j: int)
    requires
        0 <= i < groups.len(),
        0 <= j < groups.len(),
        forall|a: int, b: int|
            0 <= a < b < groups.len() ==> groups[a].template@ != groups[b].template@,
        forall|k: int| 0 <= k < groups.len() && k != i ==> spec_group_beats(groups[i], #[trigger] groups[k]),
        forall|k: int| 0 <= k < groups.len() && k != j ==> spec_group_beats(groups[j], #[trigger] groups[k]),
    ensures
        i == j,
{
    if i != j {
        assert(groups[i].template@ != groups[j].template@);
        lemma_beats_total(groups[i], groups[j]);
    }
}

/// Picks the group rendered as the dynamic formula: the unique best group
/// under the tie-break ordering. Only an empty grouping yields none.
pub fn select_dynamic(groups: &Vec<FilenameGroup>) -> (r: Option<usize>)
    requires
        forall|i: int, j: int|
            0 <= i < j < groups@.len() ==> groups@[i].template@ != groups@[j].template@,
    ensures
        match r {
            Some(best) => best < groups@.len() && forall|j: int|
                0 <= j < groups@.len() && j != best ==> spec_group_beats(
                    groups@[best as int],
                    #[trigger] groups@[j],
                ),
            None => groups@.len() == 0,
        },
{
    if groups.len() == 0 {
        return None;
    }
    let mut best: usize = 0;
    let mut j: usize = 1;
    while j < groups.len()
        invariant
            best < j <= groups@.len(),
            forall|i: int, j2: int|
                0 <= i < j2 < groups@.len() ==> groups@[i].template@ != groups@[j2].template@,
            forall|k: int|
                0 <= k < j && k != best ==> spec_group_beats(
                    groups@[best as int],
                    #[trigger] groups@[k],
                ),
        decreases groups@.len() - j,
    {
        if group_beats(&groups[j], &groups[best]) {
            proof {
                let bi = best as int;
                let ji = j as int;
                assert forall|k: int|
                    0 <= k < j + 1 && k != ji implies spec_group_beats(
                    groups@[ji],
                    #[trigger] groups@[k],
                ) by {
                    if k == bi {
                    } else {
                        assert(spec_group_beats(groups@[bi], groups@[k]));
                        lemma_beats_trans(groups@[ji], groups@[bi], groups@[k]);
                    }
                }
            }
            best = j;
        } else {
            proof {
                lemma_beats_total(groups@[j as int], groups@[best as int]);
            }
        }
        j = j + 1;
    }
    Some(best)
}


/// The view of a list of id/value string pairs.
pub open spec fn spec_pairs_view(s: Seq<(String, String)>) -> Seq<(Seq<char>, Seq<char>)> {
    s.map_values(|p: (String, String)| (p.0@, p.1@))
}

/// The map entries for the dynamic name lookup: each chunk with an id maps
/// it to the chunk's name, or to the id itself when it has no name.
pub open spec fn spec_name_map_entries(compilation: Compilation, chunks: Seq<ChunkUkey>) -> Seq<
    (Seq<char>, Seq<char>),
>
    decreases chunks.len(),
{
    if chunks.len() == 0 {
        Seq::empty()
    } else {
        let rest = spec_name_map_entries(compilation, chunks.drop_first());
        match spec_chunk_by_ukey(compilation.chunk_by_ukey@, chunks.first()) {
            Some(c) => match c.id {
                Some(id) => match c.name {
                    Some(n) => seq![(id@, n@)] + rest,
                    None => seq![(id@, id@)] + rest,
                },
                None => rest,
            },
            None => rest,
        }
    }
}

/// Collects the dynamic name-map entries of the given chunks, in order.
pub fn name_map_entries(compilation: &Compilation, chunks: &Vec<ChunkUkey>) -> (r: Vec<
    (String, String),
>)
    ensures
        spec_pairs_view(r@) == spec_name_map_entries(*compilation, chunks@),
{
    let mut out: Vec<(String, String)> = Vec::new();
    let mut i: usize = 0;
    proof {
        assert(chunks@.skip(0) =~= chunks@);
        assert(spec_pairs_view(out@) + spec_name_map_entries(*compilation, chunks@)
            =~= spec_name_map_entries(*compilation, chunks@));
    }
    while i < chunks.len()
        invariant
            i <= chunks@.len(),
            spec_name_map_entries(*compilation, chunks@) == spec_pairs_view(out@)
                + spec_name_map_entries(*compilation, chunks@.skip(i as int)),
        decreases chunks@.len() - i,
    {
        let ghost out_old = out@;
        proof {
            assert(chunks@.skip(i as int).drop_first() =~= chunks@.skip(i + 1));
            assert(chunks@.skip(i as int).first() == chunks@[i as int]);
        }
        match chunk_by_ukey(&compilation.chunk_by_ukey, chunks[i]) {
            Some(c) => {
                match &c.id {
                    Some(id) => {
                        match &c.name {
                            Some(n) => {
                                out.push((id.clone(), n.clone()));
                            },
                            None => {
                                out.push((id.clone(), id.clone()));
                            },
                        }
                    },
                    None => {},
                }
            },
            None => {},
        }
        proof {
            assert(spec_pairs_view(out_old) + spec_name_map_entries(
                *compilation,
                chunks@.skip(i as int),
            ) =~= spec_pairs_view(out@) + spec_name_map_entries(*compilation, chunks@.skip(i + 1)));
        }
        i = i + 1;
    }
    proof {
        assert(spec_name_map_entries(*compilation, chunks@.skip(chunks@.len() as int))
            =~= Seq::<(Seq<char>, Seq<char>)>::empty());
        assert(spec_pairs_view(out@) + spec_name_map_entries(
            *compilation,
            chunks@.skip(chunks@.len() as int),
        ) =~= spec_pairs_view(out@));
    }
    out
}

/// The map entries for the dynamic chunk-hash lookup: each chunk with an id
/// and a rendered hash maps the id to the hash, truncated to any requested
/// length at generation time, since per-chunk hashes are known statically.
pub open spec fn spec_chunk_hash_entries(
    compilation: Compilation,
    chunks: Seq<ChunkUkey>,
    l: Option<usize>,
) -> Seq<(Seq<char>, Seq<char>)>
    decreases chunks.len(),
{
    if chunks.len() == 0 {
        Seq::empty()
    } else {
        let rest = spec_chunk_hash_entries(compilation, chunks.drop_first(), l);
        match spec_chunk_by_ukey(compilation.chunk_by_ukey@, chunks.first()) {
            Some(c) => match c.id {
                Some(id) => match c.rendered_hash {
                    Some(h) => seq![(id@, crate::filename::spec_truncated(h@, l))] + rest,
                    None => rest,
                },
                None => rest,
            },
            None => rest,
        }
    }
}

/// Collects the dynamic chunk-hash entries of the given chunks, in order.
pub fn chunk_hash_entries(
    compilation: &Compilation,
    chunks: &Vec<ChunkUkey>,
    l: Option<usize>,
) -> (r: Vec<(String, String)>)
    ensures
        spec_pairs_view(r@) == spec_chunk_hash_entries(*compilation, chunks@, l),
{
    let mut out: Vec<(String, String)> = Vec::new();
    let mut i: usize = 0;
    proof {
        assert(chunks@.skip(0) =~= chunks@);
        assert(spec_pairs_view(out@) + spec_chunk_hash_entries(*compilation, chunks@, l)
            =~= spec_chunk_hash_entries(*compilation, chunks@, l));
    }
    while i < chunks.len()
        invariant
            i <= chunks@.len(),
            spec_chunk_hash_entries(*compilation, chunks@, l) == spec_pairs_view(out@)
                + spec_chunk_hash_entries(*compilation, chunks@.skip(i as int), l),
        decreases chunks@.len() - i,
    {
        let ghost out_old = out@;
        proof {
            assert(chunks@.skip(i as int).drop_first() =~= chunks@.skip(i + 1));
            assert(chunks@.skip(i as int).first() == chunks@[i as int]);
        }
        match chunk_by_ukey(&compilation.chunk_by_ukey, chunks[i]) {
            Some(c) => {
                match &c.id {
                    Some(id) => {
                        match &c.rendered_hash {
                            Some(h) => {
                                let v = crate::filename::truncated(h, l);
                                out.push((id.clone(), v));
                            },
                            None => {},
                        }
                    },
                    None => {},
                }
            },
            None => {},
        }
        proof {
            assert(spec_pairs_view(out_old) + spec_chunk_hash_entries(
                *compilation,
                chunks@.skip(i as int),
                l,
            ) =~= spec_pairs_view(out@) + spec_chunk_hash_entries(
                *compilation,
                chunks@.skip(i + 1),
                l,
            ));
        }
        i = i + 1;
    }
    proof {
        assert(spec_chunk_hash_entries(*compilation, chunks@.skip(chunks@.len() as int), l)
            =~= Seq::<(Seq<char>, Seq<char>)>::empty());
        assert(spec_pairs_view(out@) + spec_chunk_hash_entries(
            *compilation,
            chunks@.skip(chunks@.len() as int),
            l,
        ) =~= spec_pairs_view(out@));
    }
    out
}

/// The content hash a chunk carries for the content kind.
pub open spec fn spec_content_hash_of(c: Chunk, source_type: SourceType) -> Option<String> {
    match source_type {
        SourceType::JavaScript => c.js_content_hash,
        SourceType::Css => c.css_content_hash,
    }
}

/// The content hash a chunk carries for the content kind.
pub fn content_hash_of<'a>(c: &'a Chunk, source_type: SourceType) -> (r: Option<&'a String>)
    ensures
        match r {
            Some(h) => spec_content_hash_of(*c, source_type) == Some(*h),
            None => spec_content_hash_of(*c, source_type) is None,
        },
{
    match source_type {
        SourceType::JavaScript => c.js_content_hash.as_ref(),
        SourceType::Css => c.css_content_hash.as_ref(),
    }
}

/// The map entries for the dynamic content-hash lookup: each chunk with an
/// id and a content hash of the kind maps the id to the hash rendered to the
/// configured digest length, then truncated to any requested length.
pub open spec fn spec_content_hash_entries(
    compilation: Compilation,
    chunks: Seq<ChunkUkey>,
    source_type: SourceType,
    digest_len: usize,
    l: Option<usize>,
) -> Seq<(Seq<char>, Seq<char>)>
    decreases chunks.len(),
{
    if chunks.len() == 0 {
        Seq::empty()
    } else {
        let rest = spec_content_hash_entries(
            compilation,
            chunks.drop_first(),
            source_type,
            digest_len,
            l,
        );
        match spec_chunk_by_ukey(compilation.chunk_by_ukey@, chunks.first()) {
            Some(c) => match c.id {
                Some(id) => match spec_content_hash_of(c, source_type) {
                    Some(h) => seq![
                        (
                            id@,
                            crate::filename::spec_truncated(
                                crate::filename::spec_truncated(h@, Some(digest_len)),
                                l,
                            ),
                        ),
                    ] + rest,
                    None => rest,
                },
                None => rest,
            },
            None => rest,
        }
    }
}

/// Collects the dynamic content-hash entries of the given chunks, in order.
pub fn content_hash_entries(
    compilation: &Compilation,
    chunks: &Vec<ChunkUkey>,
    source_type: SourceType,
    digest_len: usize,
    l: Option<usize>,
) -> (r: Vec<(String, String)>)
    ensures
        spec_pairs_view(r@) == spec_content_hash_entries(
            *compilation,
            chunks@,
            source_type,
            digest_len,
            l,
        ),
{
    let mut out: Vec<(String, String)> = Vec::new();
    let mut i: usize = 0;
    proof {
        assert(chunks@.skip(0) =~= chunks@);
        assert(spec_pairs_view(out@) + spec_content_hash_entries(
            *compilation,
            chunks@,
            source_type,
            digest_len,
            l,
        ) =~= spec_content_hash_entries(*compilation, chunks@, source_type, digest_len, l));
    }
    while i < chunks.len()
        invariant
            i <= chunks@.len(),
            spec_content_hash_entries(*compilation, chunks@, source_type, digest_len, l)
                == spec_pairs_view(out@) + spec_content_hash_entries(
                *compilation,
                chunks@.skip(i as int),
                source_type,
                digest_len,
                l,
            ),
        decreases chunks@.len() - i,
    {
        let ghost out_old = out@;
        proof {
            assert(chunks@.skip(i as int).drop_first() =~= chunks@.skip(i + 1));
            assert(chunks@.skip(i as int).first() == chunks@[i as int]);
        }
        match chunk_by_ukey(&compilation.chunk_by_ukey, chunks[i]) {
            Some(c) => {
                match &c.id {
                    Some(id) => {
                        match content_hash_of(c, source_type) {
                            Some(h) => {
                                let rendered = crate::filename::truncated(h, Some(digest_len));
                                let v = crate::filename::truncated(&rendered, l);
                                out.push((id.clone(), v));
                            },
                            None => {},
                        }
                    },
                    None => {},
                }
            },
            None => {},
        }
        proof {
            assert(spec_pairs_view(out_old) + spec_content_hash_entries(
                *compilation,
                chunks@.skip(i as int),
                source_type,
                digest_len,
                l,
            ) =~= spec_pairs_view(out@) + spec_content_hash_entries(
                *compilation,
                chunks@.skip(i + 1),
                source_type,
                digest_len,
                l,
            ));
        }
        i = i + 1;
    }
    proof {
        assert(spec_content_hash_entries(
            *compilation,
            chunks@.skip(chunks@.len() as int),
            source_type,
            digest_len,
            l,
        ) =~= Seq::<(Seq<char>, Seq<char>)>::empty());
        assert(spec_pairs_view(out@) + spec_content_hash_entries(
            *compilation,
            chunks@.skip(chunks@.len() as int),
            source_type,
            digest_len,
            l,
        ) =~= spec_pairs_view(out@));
    }
    out
}

/// The text of one identifier-to-value map entry.
pub open spec fn spec_entry_text(e: (Seq<char>, Seq<char>)) -> Seq<char> {
    "\""@ + e.0 + "\": \""@ + e.1 + "\""@
}

/// The comma-joined text of the map entries.
pub open spec fn spec_entries_text(s: Seq<(Seq<char>, Seq<char>)>) -> Seq<char>
    decreases s.len(),
{
    if s.len() == 0 {
        Seq::empty()
    } else if s.len() == 1 {
        spec_entry_text(s.first())
    } else {
        spec_entries_text(s.drop_last()) + ","@ + spec_entry_text(s.last())
    }
}

/// The runtime expression selecting a per-chunk value from an inline object
/// literal by chunk id, spliced into a double-quoted template.
pub open spec fn spec_dynamic_map_expr(s: Seq<(Seq<char>, Seq<char>)>) -> Seq<char> {
    "\" + {"@ + spec_entries_text(s) + "}[chunkId] + \""@
}

/// Renders the object-lookup expression for the given entries.
pub fn dynamic_map_expr(entries: &Vec<(String, String)>) -> (r: String)
    ensures
        r@ == spec_dynamic_map_expr(spec_pairs_view(entries@)),
{
    let mut inner = String::new();
    let mut i: usize = 0;
    while i < entries.len()
        invariant
            i <= entries@.len(),
            inner@ == spec_entries_text(spec_pairs_view(entries@).take(i as int)),
        decreases entries@.len() - i,
    {
        if i > 0 {
            inner.append(",");
        }
        inner.append("\"");
        inner.append(entries[i].0.as_str());
        inner.append("\": \"");
        inner.append(entries[i].1.as_str());
        inner.append("\"");
        proof {
            let v = spec_pairs_view(entries@);
            assert(v.take(i + 1).drop_last() =~= v.take(i as int));
            assert(v.take(i + 1).last() == v[i as int]);
            assert(inner@ =~= spec_entries_text(v.take(i + 1)));
        }
        i = i + 1;
    }
    let mut out = String::from_str("\" + {");
    out.append(inner.as_str());
    out.append("}[chunkId] + \"");
    proof {
        let v = spec_pairs_view(entries@);
        assert(v.take(v.len() as int) =~= v);
        assert(out@ =~= spec_dynamic_map_expr(v));
    }
    out
}

/// The runtime expression for the full hash, spliced into a double-quoted
/// template: the hash accessor's value, sliced when the template requests a
/// truncated length.
pub open spec fn spec_full_hash_expr(l: Option<usize>) -> Seq<char> {
    match l {
        Some(n) => "\" + __webpack_require__.h().slice(0, "@ + crate::strutil::spec_dec_rep(
            n as nat,
        ) + ") + \""@,
        None => "\" + __webpack_require__.h() + \""@,
    }
}

/// Renders the runtime full-hash expression.
pub fn full_hash_expr(l: Option<usize>) -> (r: String)
    ensures
        r@ == spec_full_hash_expr(l),
{
    match l {
        Some(n) => {
            let mut out = String::from_str("\" + __webpack_require__.h().slice(0, ");
            let d = crate::strutil::u64_to_dec(n as u64);
            out.append(d.as_str());
            out.append(") + \"");
            proof {
                assert(out@ =~= spec_full_hash_expr(l));
            }
            out
        },
        None => String::from_str("\" + __webpack_require__.h() + \""),
    }
}


/// The substitution view the dynamic formula renders with: the chunk id as
/// a runtime splice, names and per-chunk hashes as object lookups, and the
/// full hash as the accessor expression.
pub open spec fn spec_dynamic_subst(
    compilation: Compilation,
    chunks: Seq<ChunkUkey>,
    source_type: SourceType,
    lens: crate::filename::HashLengths,
) -> crate::filename::SubstView {
    crate::filename::SubstView {
        id: Some("\" + chunkId + \""@),
        name: Some(spec_dynamic_map_expr(spec_name_map_entries(compilation, chunks))),
        full_hash: Some(spec_full_hash_expr(lens.full)),
        chunk_hash: Some(
            spec_dynamic_map_expr(spec_chunk_hash_entries(compilation, chunks, lens.chunk)),
        ),
        content_hash: Some(
            spec_dynamic_map_expr(
                spec_content_hash_entries(
                    compilation,
                    chunks,
                    source_type,
                    compilation.output_options.hash_digest_length,
                    lens.content,
                ),
            ),
        ),
    }
}

/// Builds the rendering data of the dynamic formula.
pub fn dynamic_subst(
    compilation: &Compilation,
    chunks: &Vec<ChunkUkey>,
    source_type: SourceType,
    lens: crate::filename::HashLengths,
) -> (data: crate::filename::PathData)
    ensures
        crate::filename::spec_data_view(data) == spec_dynamic_subst(
            *compilation,
            chunks@,
            source_type,
            lens,
        ),
{
    let names = name_map_entries(compilation, chunks);
    let chunk_hashes = chunk_hash_entries(compilation, chunks, lens.chunk);
    let content_hashes = content_hash_entries(
        compilation,
        chunks,
        source_type,
        compilation.output_options.hash_digest_length,
        lens.content,
    );
    crate::filename::PathData {
        id: Some(String::from_str("\" + chunkId + \"")),
        name: Some(dynamic_map_expr(&names)),
        full_hash: Some(full_hash_expr(lens.full)),
        chunk_hash: Some(dynamic_map_expr(&chunk_hashes)),
        content_hash: Some(dynamic_map_expr(&content_hashes)),
    }
}

/// The requested hash lengths of a parsed template.
pub open spec fn spec_lens_of(segs: Seq<crate::filename::Segment>) -> crate::filename::HashLengths {
    crate::filename::HashLengths {
        full: crate::filename::spec_hash_len(segs, crate::filename::PlaceholderKind::FullHash),
        chunk: crate::filename::spec_hash_len(segs, crate::filename::PlaceholderKind::ChunkHash),
        content: crate::filename::spec_hash_len(
            segs,
            crate::filename::PlaceholderKind::ContentHash,
        ),
    }
}

/// The dynamic URL expression for a template and its group of chunks: the
/// template with hash lengths stripped, rendered with the dynamic
/// substitution and wrapped in double quotes.
pub open spec fn spec_dynamic_url(
    t: Seq<char>,
    compilation: Compilation,
    chunks: Seq<ChunkUkey>,
    source_type: SourceType,
) -> Seq<char> {
    let segs = crate::filename::spec_parse(t);
    let lens = spec_lens_of(segs);
    "\""@ + crate::filename::spec_render(
        crate::filename::spec_strip(segs),
        spec_dynamic_subst(compilation, chunks, source_type, lens),
    ) + "\""@
}

/// Renders the dynamic URL expression of the selected group.
pub fn build_dynamic_url(
    template: &String,
    compilation: &Compilation,
    chunks: &Vec<ChunkUkey>,
    source_type: SourceType,
) -> (r: String)
    ensures
        r@ == spec_dynamic_url(template@, *compilation, chunks@, source_type),
{
    let segs = crate::filename::parse_template(template);
    let lens = crate::filename::hash_lengths(&segs);
    let stripped = crate::filename::strip_hash_lengths(&segs);
    let data = dynamic_subst(compilation, chunks, source_type, lens);
    let core = crate::filename::render_segments(&stripped, &data);
    let mut out = String::from_str("\"");
    out.append(core.as_str());
    out.append("\"");
    proof {
        assert(out@ =~= spec_dynamic_url(template@, *compilation, chunks@, source_type));
    }
    out
}

/// The substitution view a static table entry renders with: the chunk's own
/// literal id, name and hashes, with per-chunk hashes truncated at
/// generation time and the full hash as the accessor expression.
pub open spec fn spec_static_subst(
    c: Chunk,
    source_type: SourceType,
    digest_len: usize,
    lens: crate::filename::HashLengths,
) -> crate::filename::SubstView {
    crate::filename::SubstView {
        id: match c.id {
            Some(s) => Some(s@),
            None => None,
        },
        name: match c.name {
            Some(n) => Some(n@),
            None => match c.id {
                Some(s) => Some(s@),
                None => None,
            },
        },
        full_hash: Some(spec_full_hash_expr(lens.full)),
        chunk_hash: match c.rendered_hash {
            Some(h) => Some(crate::filename::spec_truncated(h@, lens.chunk)),
            None => None,
        },
        content_hash: match spec_content_hash_of(c, source_type) {
            Some(h) => Some(
                crate::filename::spec_truncated(
                    crate::filename::spec_truncated(h@, Some(digest_len)),
                    lens.content,
                ),
            ),
            None => None,
        },
    }
}

/// Builds the rendering data of one static table entry.
pub fn static_subst(
    c: &Chunk,
    source_type: SourceType,
    digest_len: usize,
    lens: crate::filename::HashLengths,
) -> (data: crate::filename::PathData)
    ensures
        crate::filename::spec_data_view(data) == spec_static_subst(
            *c,
            source_type,
            digest_len,
            lens,
        ),
{
    let id = match &c.id {
        Some(s) => Some(s.clone()),
        None => None,
    };
    let name = match &c.name {
        Some(n) => Some(n.clone()),
        None => match &c.id {
            Some(s) => Some(s.clone()),
            None => None,
        },
    };
    let chunk_hash = match &c.rendered_hash {
        Some(h) => Some(crate::filename::truncated(h, lens.chunk)),
        None => None,
    };
    let content_hash = match content_hash_of(c, source_type) {
        Some(h) => {
            let rendered = crate::filename::truncated(h, Some(digest_len));
            Some(crate::filename::truncated(&rendered, lens.content))
        },
        None => None,
    };
    crate::filename::PathData {
        id,
        name,
        full_hash: Some(full_hash_expr(lens.full)),
        chunk_hash,
        content_hash,
    }
}

/// The static URL of one chunk under a template: the template with hash
/// lengths stripped, rendered with the chunk's literal data and wrapped in
/// double quotes.
pub open spec fn spec_static_url(
    t: Seq<char>,
    c: Chunk,
    source_type: SourceType,
    digest_len: usize,
) -> Seq<char> {
    let segs = crate::filename::spec_parse(t);
    let lens = spec_lens_of(segs);
    "\""@ + crate::filename::spec_render(
        crate::filename::spec_strip(segs),
        spec_static_subst(c, source_type, digest_len, lens),
    ) + "\""@
}

/// Renders the static URL of one chunk under a template.
pub fn build_static_url(
    template: &String,
    c: &Chunk,
    source_type: SourceType,
    digest_len: usize,
) -> (r: String)
    ensures
        r@ == spec_static_url(template@, *c, source_type, digest_len),
{
    let segs = crate::filename::parse_template(template);
    let lens = crate::filename::hash_lengths(&segs);
    let stripped = crate::filename::strip_hash_lengths(&segs);
    let data = static_subst(c, source_type, digest_len, lens);
    let core = crate::filename::render_segments(&stripped, &data);
    let mut out = String::from_str("\"");
    out.append(core.as_str());
    out.append("\"");
    proof {
        assert(out@ =~= spec_static_url(template@, *c, source_type, digest_len));
    }
    out
}

/// Whether some chunk of a group other than the selected one renders to
/// `url` under its group's template and carries `id`.
pub open spec fn spec_static_source(
    compilation: Compilation,
    source_type: SourceType,
    groups: Seq<FilenameGroup>,
    selected: Option<usize>,
    url: Seq<char>,
    id: Seq<char>,
) -> bool {
    exists|g: int, c: int|
        {
            &&& 0 <= g < groups.len()
            &&& (match selected {
                Some(s) => g != s as int,
                None => true,
            })
            &&& 0 <= c < groups[g].chunks@.len()
            &&& (match spec_chunk_by_ukey(
                compilation.chunk_by_ukey@,
                #[trigger] groups[g].chunks@[c],
            ) {
                Some(ch) => ch.id matches Some(i) && i@ == id && spec_static_url(
                    groups[g].template@,
                    ch,
                    source_type,
                    compilation.output_options.hash_digest_length,
                ) == url,
                None => false,
            })
        }
}

/// Whether the table lists `id` under `url`.
pub open spec fn spec_in_table(
    entries: Seq<(String, Vec<String>)>,
    url: Seq<char>,
    id: Seq<char>,
) -> bool {
    exists|e: int, i: int|
        0 <= e < entries.len() && 0 <= i < entries[e].1@.len() && entries[e].0@ == url && (
        #[trigger] entries[e].1@[i])@ == id
}

/// What the static lookup table holds: URLs are unique with nonempty id
/// lists; every listed id comes from a chunk of a non-selected group that
/// renders to that URL; and every chunk of every non-selected group that
/// has an id is listed under its rendered URL. A chunk without an id
/// contributes nothing, and the selected group contributes nothing.
pub open spec fn spec_table_post(
    compilation: Compilation,
    source_type: SourceType,
    groups: Seq<FilenameGroup>,
    selected: Option<usize>,
    entries: Seq<(String, Vec<String>)>,
) -> bool {
    &&& forall|i: int, j: int| 0 <= i < j < entries.len() ==> entries[i].0@ != entries[j].0@
    &&& forall|e: int| 0 <= e < entries.len() ==> (#[trigger] entries[e]).1@.len() > 0
    &&& forall|e: int, i: int|
        0 <= e < entries.len() && 0 <= i < entries[e].1@.len() ==> spec_static_source(
            compilation,
            source_type,
            groups,
            selected,
            entries[e].0@,
            ((#[trigger] entries[e].1@[i])@),
        )
    &&& forall|g: int, c: int|
        (0 <= g < groups.len() && (match selected {
            Some(s) => g != s as int,
            None => true,
        }) && 0 <= c < groups[g].chunks@.len()) ==> match spec_chunk_by_ukey(
            compilation.chunk_by_ukey@,
            #[trigger] groups[g].chunks@[c],
        ) {
            Some(ch) => match ch.id {
                Some(i) => spec_in_table(
                    entries,
                    spec_static_url(
                        groups[g].template@,
                        ch,
                        source_type,
                        compilation.output_options.hash_digest_length,
                    ),
                    i@,
                ),
                None => true,
            },
            None => true,
        }
}

/// A listing survives a new table entry.
pub proof fn lemma_in_table_push(
    entries: Seq<(String, Vec<String>)>,
    entry: (String, Vec<String>),
    url: Seq<char>,
    id: Seq<char>,
)
    requires
        spec_in_table(entries, url, id),
    ensures
        spec_in_table(entries.push(entry), url, id),
{
    let (e, i) = choose|e: int, i: int|
        0 <= e < entries.len() && 0 <= i < entries[e].1@.len() && entries[e].0@ == url && (
        #[trigger] entries[e].1@[i])@ == id;
    assert(entries.push(entry)[e] == entries[e]);
}

/// A listing survives appending an id to some entry.
pub proof fn lemma_in_table_append(
    pre: Seq<(String, Vec<String>)>,
    post: Seq<(String, Vec<String>)>,
    at: int,
    url: Seq<char>,
    id: Seq<char>,
)
    requires
        spec_in_table(pre, url, id),
        pre.len() == post.len(),
        0 <= at < pre.len(),
        forall|j: int| 0 <= j < pre.len() && j != at ==> post[j] == pre[j],
        post[at].0 == pre[at].0,
        forall|i: int| 0 <= i < pre[at].1@.len() ==> post[at].1@[i] == pre[at].1@[i],
        post[at].1@.len() >= pre[at].1@.len(),
    ensures
        spec_in_table(post, url, id),
{
    let (e, i) = choose|e: int, i: int|
        0 <= e < pre.len() && 0 <= i < pre[e].1@.len() && pre[e].0@ == url && (
        #[trigger] pre[e].1@[i])@ == id;
    if e == at {
        assert(post[e].1@[i] == pre[e].1@[i]);
    } else {
        assert(post[e] == pre[e]);
    }
}

/// The position of the table entry with the given URL, if any.
fn find_entry(entries: &Vec<(String, Vec<String>)>, url: &String) -> (r: Option<usize>)
    ensures
        match r {
            Some(i) => i < entries@.len() && entries@[i as int].0@ == url@,
            None => forall|e: int| 0 <= e < entries@.len() ==> entries@[e].0@ != url@,
        },
{
    let mut e: usize = 0;
    while e < entries.len()
        invariant
            e <= entries@.len(),
            forall|e2: int| 0 <= e2 < e ==> entries@[e2].0@ != url@,
        decreases entries@.len() - e,
    {
        if entries[e].0.eq(url) {
            return Some(e);
        }
        e = e + 1;
    }
    None
}

/// Builds the static lookup table: for every group except the dynamic one,
/// every chunk with an id contributes its id under its rendered URL; URLs
/// are kept unique, ids grouped under them in encounter order. The table
/// holds exactly those ids: nothing else, and none is dropped.
pub fn build_static_entries(
    groups: &Vec<FilenameGroup>,
    selected: Option<usize>,
    compilation: &Compilation,
    source_type: SourceType,
) -> (entries: Vec<(String, Vec<String>)>)
    ensures
        spec_table_post(*compilation, source_type, groups@, selected, entries@),
        groups@.len() == 0 ==> entries@.len() == 0,
{
    let ghost digest = compilation.output_options.hash_digest_length;
    let mut entries: Vec<(String, Vec<String>)> = Vec::new();
    let mut g: usize = 0;
    while g < groups.len()
        invariant
            g <= groups@.len(),
            digest == compilation.output_options.hash_digest_length,
            forall|i: int, j: int|
                0 <= i < j < entries@.len() ==> entries@[i].0@ != entries@[j].0@,
            forall|e: int| 0 <= e < entries@.len() ==> (#[trigger] entries@[e]).1@.len() > 0,
            forall|e: int, i: int|
                0 <= e < entries@.len() && 0 <= i < entries@[e].1@.len() ==> spec_static_source(
                    *compilation,
                    source_type,
                    groups@,
                    selected,
                    entries@[e].0@,
                    ((#[trigger] entries@[e].1@[i])@),
                ),
            forall|g2: int, c2: int|
                (0 <= g2 < g && (match selected {
                    Some(s) => g2 != s as int,
                    None => true,
                }) && 0 <= c2 < groups@[g2].chunks@.len()) ==> match spec_chunk_by_ukey(
                    compilation.chunk_by_ukey@,
                    #[trigger] groups@[g2].chunks@[c2],
                ) {
                    Some(ch) => match ch.id {
                        Some(i) => spec_in_table(
                            entries@,
                            spec_static_url(groups@[g2].template@, ch, source_type, digest),
                            i@,
                        ),
                        None => true,
                    },
                    None => true,
                },
            groups@.len() == 0 ==> entries@.len() == 0,
        decreases groups@.len() - g,
    {
        let is_selected = match selected {
            Some(s) => s == g,
            None => false,
        };
        if !is_selected {
            let mut c: usize = 0;
            let chunk_count = groups[g].chunks.len();
            while c < chunk_count
                invariant
                    c <= chunk_count,
                    g < groups@.len(),
                    !(match selected {
                        Some(s) => g == s,
                        None => false,
                    }),
                    digest == compilation.output_options.hash_digest_length,
                    chunk_count == groups@[g as int].chunks@.len(),
                    forall|i: int, j: int|
                        0 <= i < j < entries@.len() ==> entries@[i].0@ != entries@[j].0@,
                    forall|e: int|
                        0 <= e < entries@.len() ==> (#[trigger] entries@[e]).1@.len() > 0,
                    forall|e: int, i: int|
                        0 <= e < entries@.len() && 0 <= i < entries@[e].1@.len()
                            ==> spec_static_source(
                            *compilation,
                            source_type,
                            groups@,
                            selected,
                            entries@[e].0@,
                            ((#[trigger] entries@[e].1@[i])@),
                        ),
                    forall|g2: int, c2: int|
                        (0 <= g2 < g && (match selected {
                            Some(s) => g2 != s as int,
                            None => true,
                        }) && 0 <= c2 < groups@[g2].chunks@.len()) ==> match spec_chunk_by_ukey(
                            compilation.chunk_by_ukey@,
                            #[trigger] groups@[g2].chunks@[c2],
                        ) {
                            Some(ch) => match ch.id {
                                Some(i) => spec_in_table(
                                    entries@,
                                    spec_static_url(
                                        groups@[g2].template@,
                                        ch,
                                        source_type,
                                        digest,
                                    ),
                                    i@,
                                ),
                                None => true,
                            },
                            None => true,
                        },
                    forall|c2: int|
                        0 <= c2 < c ==> match spec_chunk_by_ukey(
                            compilation.chunk_by_ukey@,
                            #[trigger] groups@[g as int].chunks@[c2],
                        ) {
                            Some(ch) => match ch.id {
                                Some(i) => spec_in_table(
                                    entries@,
                                    spec_static_url(
                                        groups@[g as int].template@,
                                        ch,
                                        source_type,
                                        digest,
                                    ),
                                    i@,
                                ),
                                None => true,
                            },
                            None => true,
                        },
                    groups@.len() == 0 ==> entries@.len() == 0,
                decreases chunk_count - c,
            {
                let ghost entries_old = entries@;
                if let Some(chunk) = chunk_by_ukey(&compilation.chunk_by_ukey, groups[g].chunks[c])
                    {
                    if let Some(id) = &chunk.id {
                        let url = build_static_url(
                            &groups[g].template,
                            chunk,
                            source_type,
                            compilation.output_options.hash_digest_length,
                        );
                        match find_entry(&entries, &url) {
                            Some(e) => {
                                entries[e].1.push(id.clone());
                                proof {
                                    assert(forall|j: int|
                                        0 <= j < entries@.len() && j != e ==> entries@[j]
                                            == entries_old[j]);
                                    assert(entries@[e as int].0 == entries_old[e as int].0);
                                    assert(forall|i: int|
                                        0 <= i < entries_old[e as int].1@.len()
                                            ==> entries@[e as int].1@[i] == entries_old[
                                        e as int].1@[i]);
                                    assert(entries@[e as int].1@.last() == *id);
                                    assert(spec_static_source(
                                        *compilation,
                                        source_type,
                                        groups@,
                                        selected,
                                        url@,
                                        id@,
                                    )) by {
                                        assert(0 <= g < groups@.len() && 0 <= c
                                            < groups@[g as int].chunks@.len()
                                            && spec_chunk_by_ukey(
                                            compilation.chunk_by_ukey@,
                                            groups@[g as int].chunks@[c as int],
                                        ) == Some(*chunk));
                                    }
                                    assert(spec_in_table(entries@, url@, id@)) by {
                                        let li = entries@[e as int].1@.len() - 1;
                                        assert(entries@[e as int].1@[li] == *id);
                                    }
                                    assert forall|g2: int, c2: int|
                                        ((0 <= g2 < g || (g2 == g && 0 <= c2 <= c)) && (
                                        match selected {
                                            Some(s) => g2 != s as int,
                                            None => true,
                                        }) && 0 <= c2 < groups@[g2].chunks@.len()) implies match spec_chunk_by_ukey(
                                        compilation.chunk_by_ukey@,
                                        #[trigger] groups@[g2].chunks@[c2],
                                    ) {
                                        Some(ch) => match ch.id {
                                            Some(i) => spec_in_table(
                                                entries@,
                                                spec_static_url(
                                                    groups@[g2].template@,
                                                    ch,
                                                    source_type,
                                                    digest,
                                                ),
                                                i@,
                                            ),
                                            None => true,
                                        },
                                        None => true,
                                    } by {
                                        match spec_chunk_by_ukey(
                                            compilation.chunk_by_ukey@,
                                            groups@[g2].chunks@[c2],
                                        ) {
                                            Some(ch) => {
                                                match ch.id {
                                                    Some(i) => {
                                                        if g2 == g && c2 == c {
                                                        } else {
                                                            lemma_in_table_append(
                                                                entries_old,
                                                                entries@,
                                                                e as int,
                                                                spec_static_url(
                                                                    groups@[g2].template@,
                                                                    ch,
                                                                    source_type,
                                                                    digest,
                                                                ),
                                                                i@,
                                                            );
                                                        }
                                                    },
                                                    None => {},
                                                }
                                            },
                                            None => {},
                                        }
                                    }
                                }
                            },
                            None => {
                                let mut ids: Vec<String> = Vec::new();
                                ids.push(id.clone());
                                entries.push((url, ids));
                                proof {
                                    let li = entries@.len() - 1;
                                    assert(forall|j: int|
                                        0 <= j < entries_old.len() ==> entries@[j]
                                            == entries_old[j]);
                                    assert(entries@[li].1@.len() == 1);
                                    assert(spec_static_source(
                                        *compilation,
                                        source_type,
                                        groups@,
                                        selected,
                                        entries@[li].0@,
                                        entries@[li].1@[0]@,
                                    )) by {
                                        assert(0 <= g < groups@.len() && 0 <= c
                                            < groups@[g as int].chunks@.len()
                                            && spec_chunk_by_ukey(
                                            compilation.chunk_by_ukey@,
                                            groups@[g as int].chunks@[c as int],
                                        ) == Some(*chunk));
                                    }
                                    assert(spec_in_table(entries@, entries@[li].0@, id@)) by {
                                        assert(entries@[li].1@[0] == *id);
                                    }
                                    assert forall|g2: int, c2: int|
                                        ((0 <= g2 < g || (g2 == g && 0 <= c2 <= c)) && (
                                        match selected {
                                            Some(s) => g2 != s as int,
                                            None => true,
                                        }) && 0 <= c2 < groups@[g2].chunks@.len()) implies match spec_chunk_by_ukey(
                                        compilation.chunk_by_ukey@,
                                        #[trigger] groups@[g2].chunks@[c2],
                                    ) {
                                        Some(ch) => match ch.id {
                                            Some(i) => spec_in_table(
                                                entries@,
                                                spec_static_url(
                                                    groups@[g2].template@,
                                                    ch,
                                                    source_type,
                                                    digest,
                                                ),
                                                i@,
                                            ),
                                            None => true,
                                        },
                                        None => true,
                                    } by {
                                        match spec_chunk_by_ukey(
                                            compilation.chunk_by_ukey@,
                                            groups@[g2].chunks@[c2],
                                        ) {
                                            Some(ch) => {
                                                match ch.id {
                                                    Some(i) => {
                                                        if g2 == g && c2 == c {
                                                        } else {
                                                            lemma_in_table_push(
                                                                entries_old,
                                                                entries@[li],
                                                                spec_static_url(
                                                                    groups@[g2].template@,
                                                                    ch,
                                                                    source_type,
                                                                    digest,
                                                                ),
                                                                i@,
                                                            );
                                                            assert(entries_old.push(entries@[li])
                                                                =~= entries@);
                                                        }
                                                    },
                                                    None => {},
                                                }
                                            },
                                            None => {},
                                        }
                                    }
                                }
                            },
                        }
                    }
                }
                c = c + 1;
            }
        }
        g = g + 1;
    }
    entries
}

/// The test of one chunk id in a static line's condition.
pub open spec fn spec_id_cond(id: Seq<char>) -> Seq<char> {
    "chunkId === \""@ + id + "\""@
}

/// The or-joined condition over a line's chunk ids.
pub open spec fn spec_ids_cond(ids: Seq<String>) -> Seq<char>
    decreases ids.len(),
{
    if ids.len() == 0 {
        Seq::empty()
    } else if ids.len() == 1 {
        spec_id_cond(ids.first()@)
    } else {
        spec_ids_cond(ids.drop_last()) + " || "@ + spec_id_cond(ids.last()@)
    }
}

/// One line of the static table: the guarded early return of a URL.
pub open spec fn spec_static_line(url: Seq<char>, ids: Seq<String>) -> Seq<char> {
    "  if ("@ + spec_ids_cond(ids) + ") return "@ + url + ";\n"@
}

/// The text of the whole static table.
pub open spec fn spec_static_lines(entries: Seq<(String, Vec<String>)>) -> Seq<char>
    decreases entries.len(),
{
    if entries.len() == 0 {
        Seq::empty()
    } else {
        spec_static_lines(entries.drop_last()) + spec_static_line(
            entries.last().0@,
            entries.last().1@,
        )
    }
}

/// Renders the or-joined condition over a line's chunk ids.
pub fn ids_cond(ids: &Vec<String>) -> (r: String)
    ensures
        r@ == spec_ids_cond(ids@),
{
    let mut out = String::new();
    let mut i: usize = 0;
    while i < ids.len()
        invariant
            i <= ids@.len(),
            out@ == spec_ids_cond(ids@.take(i as int)),
        decreases ids@.len() - i,
    {
        if i > 0 {
            out.append(" || ");
        }
        out.append("chunkId === \"");
        out.append(ids[i].as_str());
        out.append("\"");
        proof {
            assert(ids@.take(i + 1).drop_last() =~= ids@.take(i as int));
            assert(ids@.take(i + 1).last() == ids@[i as int]);
            assert(out@ =~= spec_ids_cond(ids@.take(i + 1)));
        }
        i = i + 1;
    }
    proof {
        assert(ids@.take(ids@.len() as int) =~= ids@);
    }
    out
}

/// Renders the whole static table.
pub fn static_lines(entries: &Vec<(String, Vec<String>)>) -> (r: String)
    ensures
        r@ == spec_static_lines(entries@),
{
    let mut out = String::new();
    let mut i: usize = 0;
    while i < entries.len()
        invariant
            i <= entries@.len(),
            out@ == spec_static_lines(entries@.take(i as int)),
        decreases entries@.len() - i,
    {
        out.append("  if (");
        let cond = ids_cond(&entries[i].1);
        out.append(cond.as_str());
        out.append(") return ");
        out.append(entries[i].0.as_str());
        out.append(";\n");
        proof {
            assert(entries@.take(i + 1).drop_last() =~= entries@.take(i as int));
            assert(entries@.take(i + 1).last() == entries@[i as int]);
            assert(out@ =~= spec_static_lines(entries@.take(i + 1)));
        }
        i = i + 1;
    }
    proof {
        assert(entries@.take(entries@.len() as int) =~= entries@);
    }
    out
}

/// The full text of the synthesized runtime function: the capability's
/// global name bound to a function that consults the static table first and
/// falls back to the returned expression.
pub open spec fn spec_output_text(
    global_name: Seq<char>,
    statics: Seq<char>,
    ret: Seq<char>,
) -> Seq<char> {
    "// This function allow to reference chunks\n"@ + global_name
        + " = function (chunkId) {\n  // return url for filenames not based on template\n"@
        + statics + "  // return url for filenames based on template\n  return "@ + ret
        + ";\n};\n"@
}

/// The fixed fallback pattern: the chunk id with the default extension for
/// the content type.
pub open spec fn spec_fallback_expr(content_type: Seq<char>) -> Seq<char> {
    "\"\" + chunkId + \"."@ + content_type + "\""@
}

/// What the runtime module emits when there is no candidate chunk at all: a
/// function that only applies the fallback pattern.
pub open spec fn spec_empty_output(global_name: Seq<char>, content_type: Seq<char>) -> Seq<char> {
    spec_output_text(global_name, Seq::empty(), spec_fallback_expr(content_type))
}

/// Renders the fallback expression for the content type.
pub fn fallback_expr(content_type: &String) -> (r: String)
    ensures
        r@ == spec_fallback_expr(content_type@),
{
    let mut out = String::from_str("\"\" + chunkId + \".");
    out.append(content_type.as_str());
    out.append("\"");
    proof {
        assert(out@ =~= spec_fallback_expr(content_type@));
    }
    out
}

/// Assembles the emitted function from its parts.
pub fn assemble_output(
    global: u64,
    statics: &String,
    dynamic_url: Option<&String>,
    content_type: &String,
) -> (r: String)
    ensures
        r@ == spec_output_text(
            crate::runtime_globals::spec_global_name(global),
            statics@,
            match dynamic_url {
                Some(d) => d@,
                None => spec_fallback_expr(content_type@),
            },
        ),
{
    let ret = match dynamic_url {
        Some(d) => d.clone(),
        None => fallback_expr(content_type),
    };
    let mut out = String::from_str("// This function allow to reference chunks\n");
    let gname = crate::runtime_globals::global_name(global);
    out.append(gname.as_str());
    out.append(" = function (chunkId) {\n  // return url for filenames not based on template\n");
    out.append(statics.as_str());
    out.append("  // return url for filenames based on template\n  return ");
    out.append(ret.as_str());
    out.append(";\n};\n");
    proof {
        assert(out@ =~= spec_output_text(
            crate::runtime_globals::spec_global_name(global),
            statics@,
            match dynamic_url {
                Some(d) => d@,
                None => spec_fallback_expr(content_type@),
            },
        ));
    }
    out
}


/// What grouping guarantees of its result: templates pairwise distinct,
/// groups nonempty and duplicate-free, every grouped chunk a candidate with
/// that template, every candidate with a template grouped, and an empty
/// grouping exactly when no candidate has one.
pub open spec fn spec_grouping_post(
    candidates: Seq<ChunkUkey>,
    compilation: Compilation,
    source_type: SourceType,
    groups: Seq<FilenameGroup>,
) -> bool {
    &&& forall|i: int, j: int|
        0 <= i < j < groups.len() ==> groups[i].template@ != groups[j].template@
    &&& forall|g: int| 0 <= g < groups.len() ==> groups[g].chunks@.len() > 0
    &&& forall|g: int, c: int|
        0 <= g < groups.len() && 0 <= c < groups[g].chunks@.len() ==> spec_candidate_template(
            compilation,
            source_type,
            #[trigger] groups[g].chunks@[c],
        ) == Some(groups[g].template@)
    &&& forall|g: int| 0 <= g < groups.len() ==> spec_no_dup(#[trigger] groups[g].chunks@)
    &&& forall|k: int|
        0 <= k < candidates.len() && spec_candidate_template(
            compilation,
            source_type,
            #[trigger] candidates[k],
        ) is Some ==> spec_in_groups(groups, candidates[k])
    &&& (groups.len() == 0 <==> (forall|k: int|
        0 <= k < candidates.len() ==> spec_candidate_template(
            compilation,
            source_type,
            #[trigger] candidates[k],
        ) is None))
}

/// What selection guarantees: the chosen group beats every other one under
/// the size/length/lexicographic ordering, and only an empty grouping
/// yields none.
pub open spec fn spec_selection_post(groups: Seq<FilenameGroup>, selected: Option<usize>) -> bool {
    match selected {
        Some(best) => (best as int) < groups.len() && forall|j: int|
            0 <= j < groups.len() && j != best as int ==> spec_group_beats(
                groups[best as int],
                #[trigger] groups[j],
            ),
        None => groups.len() == 0,
    }
}

/// The emitted text is the rendering of a valid classification of the
/// candidates: some grouping of them by template, the best group under the
/// tie-break ordering as the dynamic formula (the fallback pattern when no
/// group exists), and the static table of every other group's chunks.
pub open spec fn spec_generated(
    content_type: Seq<char>,
    source_type: SourceType,
    global: u64,
    compilation: Compilation,
    candidates: Seq<ChunkUkey>,
    out: Seq<char>,
) -> bool {
    exists|groups: Seq<FilenameGroup>, selected: Option<usize>, entries: Seq<(String, Vec<String>)>|
        {
            &&& spec_grouping_post(candidates, compilation, source_type, groups)
            &&& spec_selection_post(groups, selected)
            &&& #[trigger] spec_table_post(compilation, source_type, groups, selected, entries)
            &&& out == spec_output_text(
                crate::runtime_globals::spec_global_name(global),
                spec_static_lines(entries),
                match selected {
                    Some(i) => spec_dynamic_url(
                        groups[i as int].template@,
                        compilation,
                        groups[i as int].chunks@,
                        source_type,
                    ),
                    None => spec_fallback_expr(content_type),
                },
            )
        }
}

/// The runtime module that synthesizes the chunk-id-to-URL function for one
/// content kind. It renders a chunk map and searches it, rather than a
/// per-chunk switch.
#[derive(Debug)]
pub struct GetChunkFilenameRuntimeModule {
    /// The module's own identifier.
    pub id: crate::ident::Identifier,
    /// The chunk the module is attached to, absent until attachment.
    pub chunk: Option<ChunkUkey>,
    /// The default extension of the content kind, for the fallback pattern.
    pub content_type: String,
    /// The content kind whose filenames the function maps.
    pub source_type: SourceType,
    /// The runtime capability the function is bound to.
    pub global: u64,
    /// Whether every referenced chunk is a candidate, or only the
    /// asynchronously loaded ones.
    pub all_chunks: bool,
}

impl GetChunkFilenameRuntimeModule {
    /// A fresh, unattached runtime module for the given content kind and
    /// capability.
    pub fn new(
        content_type: String,
        source_type: SourceType,
        global: u64,
        all_chunks: bool,
    ) -> (r: GetChunkFilenameRuntimeModule)
        ensures
            r.id@ == "webpack/runtime/get_chunk_filename/"@ + content_type@,
            r.chunk is None,
            r.content_type@ == content_type@,
            r.source_type == source_type,
            r.global == global,
            r.all_chunks == all_chunks,
    {
        let mut id_text = String::from_str("webpack/runtime/get_chunk_filename/");
        id_text.append(content_type.as_str());
        GetChunkFilenameRuntimeModule {
            id: crate::ident::Identifier::from_string(id_text),
            chunk: None,
            content_type,
            source_type,
            global,
            all_chunks,
        }
    }

    /// The module's identifier.
    pub fn name(&self) -> (r: crate::ident::Identifier)
        ensures
            r@ == self.id@,
    {
        crate::ident::Identifier::from_string(self.id.text.clone())
    }

    /// The module's output depends on chunk-relative data, so it is never
    /// cached.
    pub fn cacheable(&self) -> (r: bool)
        ensures
            r == false,
    {
        false
    }

    /// Attaches the module to the chunk it will generate code for; nothing
    /// else changes.
    pub fn attach(&mut self, chunk: ChunkUkey)
        ensures
            final(self).chunk == Some(chunk),
            final(self).id@ == old(self).id@,
            final(self).content_type@ == old(self).content_type@,
            final(self).source_type == old(self).source_type,
            final(self).global == old(self).global,
            final(self).all_chunks == old(self).all_chunks,
    {
        self.chunk = Some(chunk);
    }

    /// Synthesizes the function body from an explicit candidate set: groups
    /// the candidates by template, renders the best group as the dynamic
    /// formula and the rest as the static table. With no usable candidate at
    /// all the function only applies the fallback pattern.
    pub fn generate_from_candidates(
        &self,
        candidates: &Vec<ChunkUkey>,
        compilation: &Compilation,
    ) -> (r: String)
        requires
            spec_no_dup(candidates@),
        ensures
            spec_generated(
                self.content_type@,
                self.source_type,
                self.global,
                *compilation,
                candidates@,
                r@,
            ),
            candidates@.len() == 0 ==> r@ == spec_empty_output(
                crate::runtime_globals::spec_global_name(self.global),
                self.content_type@,
            ),
            (forall|k: int|
                0 <= k < candidates@.len() ==> spec_candidate_template(
                    *compilation,
                    self.source_type,
                    #[trigger] candidates@[k],
                ) is None) ==> r@ == spec_empty_output(
                crate::runtime_globals::spec_global_name(self.global),
                self.content_type@,
            ),
    {
        let groups = group_by_template(candidates, compilation, self.source_type);
        let selected = select_dynamic(&groups);
        let dynamic_url = match selected {
            Some(i) => Some(
                build_dynamic_url(
                    &groups[i].template,
                    compilation,
                    &groups[i].chunks,
                    self.source_type,
                ),
            ),
            None => None,
        };
        let entries = build_static_entries(&groups, selected, compilation, self.source_type);
        let statics = static_lines(&entries);
        proof {
            if groups@.len() == 0 {
                assert(entries@.len() == 0);
                assert(statics@ =~= Seq::<char>::empty());
            }
        }
        let out = assemble_output(
            self.global,
            &statics,
            match &dynamic_url {
                Some(d) => Some(d),
                None => None,
            },
            &self.content_type,
        );
        proof {
            let gname = crate::runtime_globals::spec_global_name(self.global);
            assert(spec_grouping_post(candidates@, *compilation, self.source_type, groups@));
            assert(spec_selection_post(groups@, selected));
            assert(out@ == spec_output_text(
                gname,
                spec_static_lines(entries@),
                match selected {
                    Some(i) => spec_dynamic_url(
                        groups@[i as int].template@,
                        *compilation,
                        groups@[i as int].chunks@,
                        self.source_type,
                    ),
                    None => spec_fallback_expr(self.content_type@),
                },
            ));
            assert(spec_generated(
                self.content_type@,
                self.source_type,
                self.global,
                *compilation,
                candidates@,
                out@,
            )) by {
                assert(spec_table_post(
                    *compilation,
                    self.source_type,
                    groups@,
                    selected,
                    entries@,
                ));
            }
        }
        out
    }

    /// Synthesizes the function that maps a chunk id to its URL, from the
    /// compilation's sealed chunk graph: the emitted text renders a valid
    /// classification of a candidate set that covers the attached chunk's
    /// reachable chunks. Unattached, or attached to an unknown chunk, the
    /// function only applies the fallback pattern.
    pub fn generate(&self, compilation: &Compilation) -> (r: String)
        ensures
            self.chunk is None ==> r@ == spec_empty_output(
                crate::runtime_globals::spec_global_name(self.global),
                self.content_type@,
            ),
            match self.chunk {
                Some(u) => {
                    &&& (spec_chunk_by_ukey(compilation.chunk_by_ukey@, u) is None ==> r@
                        == spec_empty_output(
                        crate::runtime_globals::spec_global_name(self.global),
                        self.content_type@,
                    ))
                    &&& exists|candidates: Seq<ChunkUkey>|
                        {
                            &&& #[trigger] crate::compilation::spec_candidates_post(
                                *compilation,
                                u,
                                self.all_chunks,
                                candidates,
                            )
                            &&& spec_generated(
                                self.content_type@,
                                self.source_type,
                                self.global,
                                *compilation,
                                candidates,
                                r@,
                            )
                        }
                },
                None => true,
            },
    {
        let candidates = match self.chunk {
            Some(u) => crate::compilation::collect_candidate_chunks(compilation, u, self.all_chunks),
            None => Vec::new(),
        };
        let out = self.generate_from_candidates(&candidates, compilation);
        proof {
            if self.chunk is Some {
                assert(crate::compilation::spec_candidates_post(
                    *compilation,
                    self.chunk->0,
                    self.all_chunks,
                    candidates@,
                ));
            }
        }
        out
    }
}

} // verus!
