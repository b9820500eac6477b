//! The compilation snapshot the chunk-level passes read: chunks, chunk
//! groups, output options, and the chunk graph's per-chunk metadata, with
//! the traversals that gather the candidate chunks a runtime module may
//! need to reference.

use vstd::prelude::*;

use crate::chunk::Chunk;
use crate::chunk::ChunkGroup;
use crate::chunk::ChunkGroupUkey;
use crate::chunk::ChunkUkey;
use crate::chunk::OutputOptions;
use crate::chunk::chunk_by_ukey;
use crate::chunk::group_by_ukey;
use crate::error::CoreError;
use crate::ident::Identifier;
use crate::runtime_globals::RuntimeGlobals;

verus! {

/// Whether a sequence of chunk keys holds no duplicates.
pub open spec fn spec_no_dup(s: Seq<u64>) -> bool {
    forall|i: int, j: int| 0 <= i < j < s.len() ==> s[i] != s[j]
}

/// Chunk-graph metadata recorded per chunk during sealing.
#[derive(Clone, Debug)]
pub struct ChunkGraph {
    /// Per chunk, the runtime requirements accumulated over its whole tree.
    pub tree_runtime_requirements: Vec<(ChunkUkey, RuntimeGlobals)>,
    /// Per entry chunk, the chunks its entry depends on.
    pub entry_dependent_chunks: Vec<(ChunkUkey, Vec<ChunkUkey>)>,
    /// Per chunk, the identifiers of the modules it holds.
    pub chunk_modules: Vec<(ChunkUkey, Vec<Identifier>)>,
}

/// The requirements recorded for a chunk, at the spec level; the first
/// entry with the key wins.
pub open spec fn spec_tree_requirements(
    entries: Seq<(ChunkUkey, RuntimeGlobals)>,
    ukey: ChunkUkey,
) -> Option<RuntimeGlobals>
    decreases entries.len(),
{
    if entries.len() == 0 {
        None
    } else if entries.first().0 == ukey {
        Some(entries.first().1)
    } else {
        spec_tree_requirements(entries.drop_first(), ukey)
    }
}

impl ChunkGraph {
    /// An empty chunk graph, before sealing has recorded anything.
    pub fn new() -> (r: ChunkGraph)
        ensures
            r.tree_runtime_requirements@.len() == 0,
            r.entry_dependent_chunks@.len() == 0,
            r.chunk_modules@.len() == 0,
    {
        ChunkGraph {
            tree_runtime_requirements: Vec::new(),
            entry_dependent_chunks: Vec::new(),
            chunk_modules: Vec::new(),
        }
    }

    /// The runtime requirements accumulated over the chunk's tree, empty
    /// when none were recorded.
    pub fn get_tree_runtime_requirements(&self, ukey: ChunkUkey) -> (r: RuntimeGlobals)
        ensures
            r == match spec_tree_requirements(self.tree_runtime_requirements@, ukey) {
                Some(g) => g,
                None => RuntimeGlobals { bits: 0 },
            },
    {
        let entries = &self.tree_runtime_requirements;
        let mut i: usize = 0;
        proof {
            assert(entries@.skip(0) =~= entries@);
        }
        while i < entries.len()
            invariant
                i <= entries.len(),
                entries@ == self.tree_runtime_requirements@,
                spec_tree_requirements(entries@, ukey) == spec_tree_requirements(
                    entries@.skip(i as int),
                    ukey,
                ),
            decreases entries.len() - i,
        {
            proof {
                assert(entries@.skip(i as int).drop_first() =~= entries@.skip(i + 1));
                assert(entries@.skip(i as int).first() == entries@[i as int]);
            }
            if entries[i].0 == ukey {
                return entries[i].1;
            }
            i = i + 1;
        }
        RuntimeGlobals { bits: 0 }
    }

    /// The chunks the given entry chunk's entry depends on, empty when none
    /// were recorded.
    pub fn get_chunk_entry_dependent_chunks(&self, ukey: ChunkUkey) -> (r: Vec<ChunkUkey>)
        ensures
            r@ == spec_entry_dependent_chunks(self.entry_dependent_chunks@, ukey),
    {
        let entries = &self.entry_dependent_chunks;
        let mut i: usize = 0;
        proof {
            assert(entries@.skip(0) =~= entries@);
        }
        while i < entries.len()
            invariant
                i <= entries.len(),
                entries@ == self.entry_dependent_chunks@,
                spec_entry_dependent_chunks(entries@, ukey) == spec_entry_dependent_chunks(
                    entries@.skip(i as int),
                    ukey,
                ),
            decreases entries.len() - i,
        {
            proof {
                assert(entries@.skip(i as int).drop_first() =~= entries@.skip(i + 1));
                assert(entries@.skip(i as int).first() == entries@[i as int]);
            }
            if entries[i].0 == ukey {
                let found = &entries[i].1;
                let mut out: Vec<ChunkUkey> = Vec::new();
                let mut j: usize = 0;
                while j < found.len()
                    invariant
                        j <= found@.len(),
                        out@ == found@.take(j as int),
                    decreases found@.len() - j,
                {
                    out.push(found[j]);
                    proof {
                        assert(out@ =~= found@.take(j + 1));
                    }
                    j = j + 1;
                }
                proof {
                    assert(found@.take(found@.len() as int) =~= found@);
                }
                return out;
            }
            i = i + 1;
        }
        Vec::new()
    }

    /// The identifiers of the modules in the given chunk, empty when none
    /// were recorded.
    pub fn get_chunk_module_identifiers(&self, ukey: ChunkUkey) -> (r: Vec<Identifier>)
        ensures
            r@.len() == spec_chunk_modules(self.chunk_modules@, ukey).len(),
            forall|k: int|
                0 <= k < r@.len() ==> (#[trigger] r@[k])@ == spec_chunk_modules(
                    self.chunk_modules@,
                    ukey,
                )[k]@,
    {
        let entries = &self.chunk_modules;
        let mut i: usize = 0;
        proof {
            assert(entries@.skip(0) =~= entries@);
        }
        while i < entries.len()
            invariant
                i <= entries.len(),
                entries@ == self.chunk_modules@,
                spec_chunk_modules(entries@, ukey) == spec_chunk_modules(
                    entries@.skip(i as int),
                    ukey,
                ),
            decreases entries.len() - i,
        {
            proof {
                assert(entries@.skip(i as int).drop_first() =~= entries@.skip(i + 1));
                assert(entries@.skip(i as int).first() == entries@[i as int]);
            }
            if entries[i].0 == ukey {
                let found = &entries[i].1;
                let mut out: Vec<Identifier> = Vec::new();
                let mut j: usize = 0;
                while j < found.len()
                    invariant
                        j <= found@.len(),
                        out@.len() == j,
                        forall|k: int| 0 <= k < j ==> (#[trigger] out@[k])@ == found@[k]@,
                    decreases found@.len() - j,
                {
                    out.push(Identifier::from_string(found[j].as_string().clone()));
                    j = j + 1;
                }
                return out;
            }
            i = i + 1;
        }
        Vec::new()
    }
}

/// The chunks recorded as entry-dependent for a chunk, at the spec level;
/// the first entry with the key wins, and an unknown chunk has none.
pub open spec fn spec_entry_dependent_chunks(
    entries: Seq<(ChunkUkey, Vec<ChunkUkey>)>,
    ukey: ChunkUkey,
) -> Seq<ChunkUkey>
    decreases entries.len(),
{
    if entries.len() == 0 {
        Seq::empty()
    } else if entries.first().0 == ukey {
        entries.first().1@
    } else {
        spec_entry_dependent_chunks(entries.drop_first(), ukey)
    }
}

/// The module identifiers recorded for a chunk, at the spec level; the
/// first entry with the key wins, and an unknown chunk has none.
pub open spec fn spec_chunk_modules(
    entries: Seq<(ChunkUkey, Vec<Identifier>)>,
    ukey: ChunkUkey,
) -> Seq<Identifier>
    decreases entries.len(),
{
    if entries.len() == 0 {
        Seq::empty()
    } else if entries.first().0 == ukey {
        entries.first().1@
    } else {
        spec_chunk_modules(entries.drop_first(), ukey)
    }
}

/// Whether a chunk-key vector contains the given key.
pub fn contains_ukey(v: &Vec<ChunkUkey>, x: ChunkUkey) -> (r: bool)
    ensures
        r == v@.contains(x),
{
    let mut i: usize = 0;
    while i < v.len()
        invariant
            i <= v.len(),
            forall|k: int| 0 <= k < i ==> v@[k] != x,
        decreases v.len() - i,
    {
        if v[i] == x {
            return true;
        }
        i = i + 1;
    }
    proof {
        assert(!v@.contains(x));
    }
    false
}

/// The position of the group with the given key, at the spec level; the
/// first match wins.
pub open spec fn spec_group_index(groups: Seq<ChunkGroup>, ukey: ChunkGroupUkey) -> Option<int>
    decreases groups.len(),
{
    if groups.len() == 0 {
        None
    } else if groups.first().ukey == ukey {
        Some(0int)
    } else {
        match spec_group_index(groups.drop_first(), ukey) {
            Some(i) => Some(i + 1),
            None => None,
        }
    }
}

/// A found group position lies inside the store and names the key's group.
pub proof fn lemma_group_index_found(groups: Seq<ChunkGroup>, ukey: ChunkGroupUkey)
    ensures
        spec_group_index(groups, ukey) is Some ==> {
            let i = spec_group_index(groups, ukey)->0;
            0 <= i < groups.len() && groups[i].ukey == ukey
        },
    decreases groups.len(),
{
    if groups.len() > 0 && groups.first().ukey != ukey {
        lemma_group_index_found(groups.drop_first(), ukey);
        if spec_group_index(groups.drop_first(), ukey) is Some {
            let i = spec_group_index(groups.drop_first(), ukey)->0;
            assert(groups.drop_first()[i] == groups[i + 1]);
        }
    }
}

/// The position of the group with the given key, if it exists.
pub fn group_index(groups: &Vec<ChunkGroup>, ukey: ChunkGroupUkey) -> (r: Option<usize>)
    ensures
        match r {
            Some(i) => spec_group_index(groups@, ukey) == Some(i as int) && i < groups@.len()
                && groups@[i as int].ukey == ukey,
            None => spec_group_index(groups@, ukey) is None,
        },
{
    let mut i: usize = 0;
    proof {
        assert(groups@.skip(0) =~= groups@);
    }
    while i < groups.len()
        invariant
            i <= groups.len(),
            spec_group_index(groups@, ukey) == match spec_group_index(
                groups@.skip(i as int),
                ukey,
            ) {
                Some(j) => Some(j + i),
                None => None,
            },
        decreases groups.len() - i,
    {
        proof {
            assert(groups@.skip(i as int).drop_first() =~= groups@.skip(i + 1));
            assert(groups@.skip(i as int).first() == groups@[i as int]);
        }
        if groups[i].ukey == ukey {
            return Some(i);
        }
        i = i + 1;
    }
    None
}

/// Appending keeps every element present and adds the new one.
pub proof fn lemma_push_preserves_contains(s: Seq<u64>, v: u64)
    ensures
        forall|x: u64| s.contains(x) ==> #[trigger] s.push(v).contains(x),
        s.push(v).contains(v),
{
    assert forall|x: u64| s.contains(x) implies #[trigger] s.push(v).contains(x) by {
        let idx = choose|idx: int| 0 <= idx < s.len() && s[idx] == x;
        assert(s.push(v)[idx] == x);
    }
    assert(s.push(v)[s.len() as int] == v);
}

/// Closes a set of groups (as index flags) under the child relation by
/// repeated relaxation; every flag set on entry stays set.
pub fn close_over_children(groups: &Vec<ChunkGroup>, seed: Vec<bool>) -> (r: Vec<bool>)
    requires
        seed@.len() == groups@.len(),
    ensures
        r@.len() == groups@.len(),
        forall|i: int| 0 <= i < seed@.len() && seed@[i] ==> r@[i],
{
    let n = groups.len();
    let ghost seed0 = seed@;
    let mut reached = seed;
    let mut round: usize = 0;
    while round < n
        invariant
            reached@.len() == n,
            n == groups@.len(),
            seed0.len() == n,
            forall|i: int| 0 <= i < seed0.len() && seed0[i] ==> reached@[i],
        decreases n - round,
    {
        let mut i: usize = 0;
        while i < n
            invariant
                i <= n,
                reached@.len() == n,
                n == groups@.len(),
                seed0.len() == n,
                forall|k: int| 0 <= k < seed0.len() && seed0[k] ==> reached@[k],
            decreases n - i,
        {
            if reached[i] {
                let mut c: usize = 0;
                let children_len = groups[i].children.len();
                while c < children_len
                    invariant
                        c <= children_len,
                        i < n,
                        reached@.len() == n,
                        n == groups@.len(),
                        seed0.len() == n,
                        children_len == groups@[i as int].children@.len(),
                        forall|k: int| 0 <= k < seed0.len() && seed0[k] ==> reached@[k],
                    decreases children_len - c,
                {
                    if let Some(j) = group_index(groups, groups[i].children[c]) {
                        reached.set(j, true);
                    }
                    c = c + 1;
                }
            }
            i = i + 1;
        }
        round = round + 1;
    }
    reached
}

/// Appends, in group order, every chunk of every flagged group that is not
/// yet in `out`, keeping `out` free of duplicates: afterwards `out` holds
/// everything it held and every chunk of every flagged group.
pub fn collect_group_chunks(groups: &Vec<ChunkGroup>, reached: &Vec<bool>, out: &mut Vec<ChunkUkey>)
    requires
        reached@.len() == groups@.len(),
        spec_no_dup(old(out)@),
    ensures
        spec_no_dup(final(out)@),
        forall|x: u64| old(out)@.contains(x) ==> final(out)@.contains(x),
        forall|g: int, c: int|
            0 <= g < groups@.len() && reached@[g] && 0 <= c < groups@[g].chunks@.len()
                ==> final(out)@.contains(#[trigger] groups@[g].chunks@[c]),
{
    let ghost out0 = old(out)@;
    let mut i: usize = 0;
    while i < groups.len()
        invariant
            i <= groups.len(),
            reached@.len() == groups@.len(),
            spec_no_dup(out@),
            forall|x: u64| out0.contains(x) ==> out@.contains(x),
            forall|g: int, c: int|
                0 <= g < i && reached@[g] && 0 <= c < groups@[g].chunks@.len() ==> out@.contains(
                    #[trigger] groups@[g].chunks@[c],
                ),
        decreases groups.len() - i,
    {
        if reached[i] {
            let mut c: usize = 0;
            let chunks_len = groups[i].chunks.len();
            while c < chunks_len
                invariant
                    c <= chunks_len,
                    i < groups@.len(),
                    reached@.len() == groups@.len(),
                    reached@[i as int],
                    chunks_len == groups@[i as int].chunks@.len(),
                    spec_no_dup(out@),
                    forall|x: u64| out0.contains(x) ==> out@.contains(x),
                    forall|g: int, c2: int|
                        0 <= g < i && reached@[g] && 0 <= c2 < groups@[g].chunks@.len()
                            ==> out@.contains(#[trigger] groups@[g].chunks@[c2]),
                    forall|c2: int|
                        0 <= c2 < c ==> out@.contains(#[trigger] groups@[i as int].chunks@[c2]),
                decreases chunks_len - c,
            {
                let ukey = groups[i].chunks[c];
                if !contains_ukey(out, ukey) {
                    let ghost out_old = out@;
                    out.push(ukey);
                    proof {
                        lemma_push_preserves_contains(out_old, ukey);
                        assert(forall|k: int| 0 <= k < out_old.len() ==> out@[k] == out_old[k]);
                        assert(spec_no_dup(out@));
                    }
                }
                c = c + 1;
            }
        }
        i = i + 1;
    }
}

/// Inserts a chunk key if it is not yet present, keeping the vector free of
/// duplicates, as a set insert does: nothing else is added or removed.
pub fn insert_ukey(out: &mut Vec<ChunkUkey>, ukey: ChunkUkey)
    requires
        spec_no_dup(old(out)@),
    ensures
        spec_no_dup(final(out)@),
        final(out)@.contains(ukey),
        forall|x: u64| old(out)@.contains(x) ==> final(out)@.contains(x),
        forall|x: u64| final(out)@.contains(x) ==> old(out)@.contains(x) || x == ukey,
{
    if !contains_ukey(out, ukey) {
        let ghost out_old = out@;
        out.push(ukey);
        proof {
            lemma_push_preserves_contains(out_old, ukey);
            assert(forall|k: int| 0 <= k < out_old.len() ==> out@[k] == out_old[k]);
            assert(out@[out@.len() - 1] == ukey);
            assert forall|x: u64| out@.contains(x) implies out_old.contains(x) || x == ukey by {
                let idx = choose|idx: int| 0 <= idx < out@.len() && out@[idx] == x;
                if idx < out_old.len() {
                    assert(out_old[idx] == x);
                }
            }
        }
    }
}

/// One entry point as configured: what it imports and the runtime chunk it
/// runs in.
#[derive(Clone, Debug)]
pub struct EntryItem {
    pub import: Vec<String>,
    pub runtime: Option<String>,
}

/// A chunk found under a key carries that key.
pub proof fn lemma_chunk_by_ukey_found(chunks: Seq<Chunk>, ukey: ChunkUkey)
    ensures
        crate::chunk::spec_chunk_by_ukey(chunks, ukey) matches Some(c) ==> c.ukey == ukey,
    decreases chunks.len(),
{
    if chunks.len() > 0 && chunks.first().ukey != ukey {
        lemma_chunk_by_ukey_found(chunks.drop_first(), ukey);
    }
}

/// The aggregate state of one compilation: the module graph, the chunks and
/// chunk groups once sealing has run, the entry points, and the options.
#[derive(Debug)]
pub struct Compilation {
    /// The module graph, grown during construction.
    pub module_graph: crate::graph::ModuleGraph,
    /// The entry points: each name with the identity of its seeding
    /// dependency and its configuration.
    pub entries: Vec<(String, crate::ident::DependencyId, EntryItem)>,
    /// Every chunk, looked up by its unique key.
    pub chunk_by_ukey: Vec<Chunk>,
    /// Every chunk group, looked up by its unique key.
    pub chunk_group_by_ukey: Vec<ChunkGroup>,
    /// The output options of the running compilation.
    pub output_options: OutputOptions,
    /// Chunk-graph metadata recorded during sealing.
    pub chunk_graph: ChunkGraph,
    /// The whole-compilation hash, once computed.
    pub full_hash: Option<String>,
}

impl Compilation {
    /// Seeds one entry point: the dependency joins the module graph, which
    /// assigns its identity, and the entry is recorded under its name.
    /// Nothing else changes.
    pub fn add_entry(
        &mut self,
        name: String,
        dep: crate::dependency::BoxDependency,
        item: EntryItem,
    ) -> (id: crate::ident::DependencyId)
        requires
            old(self).module_graph.wf(),
        ensures
            final(self).module_graph.wf(),
            id.index == old(self).module_graph.dependencies@.len(),
            final(self).module_graph.dependencies@ == old(self).module_graph.dependencies@.push(
                crate::dependency::spec_dep_with_id(dep, Some(id)),
            ),
            final(self).module_graph.modules@ == old(self).module_graph.modules@,
            final(self).entries@ == old(self).entries@.push((name, id, item)),
            final(self).chunk_by_ukey@ == old(self).chunk_by_ukey@,
            final(self).chunk_group_by_ukey@ == old(self).chunk_group_by_ukey@,
    {
        let id = self.module_graph.add_dependency(dep);
        self.entries.push((name, id, item));
        id
    }
}

/// How many dependencies still lack a resolution edge.
pub open spec fn spec_unresolved_count(resolutions: Seq<Option<usize>>) -> int
    decreases resolutions.len(),
{
    if resolutions.len() == 0 {
        0
    } else {
        spec_unresolved_count(resolutions.drop_last()) + (if resolutions.last() is None {
            1int
        } else {
            0int
        })
    }
}

impl Compilation {
    /// Resolves every dependency the compilation's graph holds — the seeded
    /// entries and everything their modules discover — by draining a
    /// worklist of the unresolved ones. A budget of twice the unresolved
    /// count always suffices, so only a genuinely short budget fails. On
    /// success the graph is closed: no dangling dependency remains.
    pub fn build_module_graph(&mut self, fuel: usize) -> (r: Result<(), CoreError>)
        requires
            old(self).module_graph.wf(),
        ensures
            final(self).module_graph.wf(),
            final(self).entries@ == old(self).entries@,
            final(self).chunk_by_ukey@ == old(self).chunk_by_ukey@,
            final(self).chunk_group_by_ukey@ == old(self).chunk_group_by_ukey@,
            match r {
                Ok(_) => forall|d: int|
                    0 <= d < final(self).module_graph.resolutions@.len() ==> (
                    #[trigger] final(self).module_graph.resolutions@[d]) is Some,
                Err(e) => e is GraphBudget,
            },
            fuel >= 2 * spec_unresolved_count(old(self).module_graph.resolutions@) ==> r is Ok,
    {
        let mut queue: Vec<usize> = Vec::new();
        let n = self.module_graph.resolutions.len();
        let mut i: usize = 0;
        proof {
            assert(self.module_graph.resolutions@.take(0) =~= Seq::<Option<usize>>::empty());
        }
        while i < n
            invariant
                i <= n,
                *self == *old(self),
                n == self.module_graph.resolutions@.len(),
                queue@.len() == spec_unresolved_count(self.module_graph.resolutions@.take(i as int)),
                forall|q: int| 0 <= q < queue@.len() ==> (#[trigger] queue@[q]) < n,
                forall|dd: usize|
                    dd < i ==> (#[trigger] self.module_graph.resolutions@[dd as int]) is Some
                        || queue@.contains(dd),
            decreases n - i,
        {
            let ghost queue_old = queue@;
            proof {
                assert(self.module_graph.resolutions@.take(i + 1).drop_last()
                    =~= self.module_graph.resolutions@.take(i as int));
                assert(self.module_graph.resolutions@.take(i + 1).last()
                    == self.module_graph.resolutions@[i as int]);
            }
            if self.module_graph.resolutions[i].is_none() {
                queue.push(i);
                proof {
                    assert forall|dd: usize|
                        dd < i + 1 implies (
                    #[trigger] self.module_graph.resolutions@[dd as int]) is Some
                        || queue@.contains(dd) by {
                        if dd < i {
                            if !(self.module_graph.resolutions@[dd as int] is Some) {
                                let q = choose|q: int|
                                    0 <= q < queue_old.len() && queue_old[q] == dd;
                                assert(queue@[q] == dd);
                            }
                        } else {
                            assert(queue@[queue@.len() - 1] == dd);
                        }
                    }
                }
            }
            i = i + 1;
        }
        proof {
            assert(self.module_graph.resolutions@.take(n as int)
                =~= self.module_graph.resolutions@);
            if fuel >= 2 * spec_unresolved_count(old(self).module_graph.resolutions@) {
                crate::graph::lemma_queue_weight_le(queue@, self.module_graph.dependencies@);
            }
        }
        crate::graph::resolve_worklist(&mut self.module_graph, queue, fuel)
    }
}

/// All chunks reachable from the chunk's groups through child edges,
/// including every chunk of the chunk's own groups, without duplicates.
pub fn get_all_referenced_chunks(chunk: &Chunk, groups: &Vec<ChunkGroup>) -> (r: Vec<ChunkUkey>)
    ensures
        spec_no_dup(r@),
        forall|k: int|
            0 <= k < chunk.groups@.len() ==> match spec_group_index(
                groups@,
                #[trigger] chunk.groups@[k],
            ) {
                Some(gi) => forall|c: int|
                    0 <= c < groups@[gi].chunks@.len() ==> r@.contains(
                        #[trigger] groups@[gi].chunks@[c],
                    ),
                None => true,
            },
{
    let n = groups.len();
    let mut seed: Vec<bool> = Vec::new();
    let mut i: usize = 0;
    while i < n
        invariant
            i <= n,
            seed@.len() == i,
        decreases n - i,
    {
        seed.push(false);
        i = i + 1;
    }
    let mut g: usize = 0;
    while g < chunk.groups.len()
        invariant
            g <= chunk.groups@.len(),
            seed@.len() == n,
            n == groups@.len(),
            forall|k: int|
                0 <= k < g ==> match spec_group_index(groups@, #[trigger] chunk.groups@[k]) {
                    Some(gi) => 0 <= gi < n && seed@[gi],
                    None => true,
                },
        decreases chunk.groups@.len() - g,
    {
        if let Some(j) = group_index(groups, chunk.groups[g]) {
            seed.set(j, true);
        }
        g = g + 1;
    }
    let ghost seedv = seed@;
    let reached = close_over_children(groups, seed);
    let mut out: Vec<ChunkUkey> = Vec::new();
    collect_group_chunks(groups, &reached, &mut out);
    proof {
        assert forall|k: int|
            0 <= k < chunk.groups@.len() implies match spec_group_index(
            groups@,
            #[trigger] chunk.groups@[k],
        ) {
            Some(gi) => forall|c: int|
                0 <= c < groups@[gi].chunks@.len() ==> out@.contains(
                    #[trigger] groups@[gi].chunks@[c],
                ),
            None => true,
        } by {
            if spec_group_index(groups@, chunk.groups@[k]) is Some {
                let gi = spec_group_index(groups@, chunk.groups@[k])->0;
                lemma_group_index_found(groups@, chunk.groups@[k]);
                assert(seedv[gi]);
                assert(reached@[gi]);
            }
        }
    }
    out
}

/// Whether the group found under `child` is flagged in `seed`.
pub open spec fn spec_child_seeded(
    groups: Seq<ChunkGroup>,
    seed: Seq<bool>,
    child: ChunkGroupUkey,
) -> bool {
    match spec_group_index(groups, child) {
        Some(gj) => 0 <= gj < seed.len() && seed[gj],
        None => true,
    }
}

/// All chunks loaded on demand from the chunk: the chunks of every group
/// reached through at least one child edge from the chunk's own groups,
/// without duplicates. Every chunk of every direct child of an own group is
/// present.
pub fn get_all_async_chunks(chunk: &Chunk, groups: &Vec<ChunkGroup>) -> (r: Vec<ChunkUkey>)
    ensures
        spec_no_dup(r@),
        forall|k: int|
            0 <= k < chunk.groups@.len() ==> match spec_group_index(
                groups@,
                #[trigger] chunk.groups@[k],
            ) {
                Some(gi) => forall|c: int|
                    0 <= c < groups@[gi].children@.len() ==> match spec_group_index(
                        groups@,
                        #[trigger] groups@[gi].children@[c],
                    ) {
                        Some(gj) => forall|d: int|
                            0 <= d < groups@[gj].chunks@.len() ==> r@.contains(
                                #[trigger] groups@[gj].chunks@[d],
                            ),
                        None => true,
                    },
                None => true,
            },
{
    let n = groups.len();
    let mut seed: Vec<bool> = Vec::new();
    let mut i: usize = 0;
    while i < n
        invariant
            i <= n,
            seed@.len() == i,
        decreases n - i,
    {
        seed.push(false);
        i = i + 1;
    }
    let mut g: usize = 0;
    while g < chunk.groups.len()
        invariant
            g <= chunk.groups@.len(),
            seed@.len() == n,
            n == groups@.len(),
            forall|k: int|
                0 <= k < g ==> match spec_group_index(groups@, #[trigger] chunk.groups@[k]) {
                    Some(gi) => forall|c: int|
                        0 <= c < groups@[gi].children@.len() ==> spec_child_seeded(
                            groups@,
                            seed@,
                            #[trigger] groups@[gi].children@[c],
                        ),
                    None => true,
                },
        decreases chunk.groups@.len() - g,
    {
        if let Some(j) = group_index(groups, chunk.groups[g]) {
            let mut c: usize = 0;
            let children_len = groups[j].children.len();
            while c < children_len
                invariant
                    c <= children_len,
                    j < n,
                    seed@.len() == n,
                    n == groups@.len(),
                    children_len == groups@[j as int].children@.len(),
                    forall|k: int|
                        0 <= k < g ==> match spec_group_index(
                            groups@,
                            #[trigger] chunk.groups@[k],
                        ) {
                            Some(gi) => forall|c2: int|
                                0 <= c2 < groups@[gi].children@.len() ==> spec_child_seeded(
                                    groups@,
                                    seed@,
                                    #[trigger] groups@[gi].children@[c2],
                                ),
                            None => true,
                        },
                    forall|c2: int|
                        0 <= c2 < c ==> spec_child_seeded(
                            groups@,
                            seed@,
                            #[trigger] groups@[j as int].children@[c2],
                        ),
                decreases children_len - c,
            {
                if let Some(k) = group_index(groups, groups[j].children[c]) {
                    seed.set(k, true);
                }
                c = c + 1;
            }
        }
        g = g + 1;
    }
    let ghost seedv = seed@;
    let reached = close_over_children(groups, seed);
    let mut out: Vec<ChunkUkey> = Vec::new();
    collect_group_chunks(groups, &reached, &mut out);
    proof {
        assert forall|k: int|
            0 <= k < chunk.groups@.len() implies match spec_group_index(
            groups@,
            #[trigger] chunk.groups@[k],
        ) {
            Some(gi) => forall|c: int|
                0 <= c < groups@[gi].children@.len() ==> match spec_group_index(
                    groups@,
                    #[trigger] groups@[gi].children@[c],
                ) {
                    Some(gj) => forall|d: int|
                        0 <= d < groups@[gj].chunks@.len() ==> out@.contains(
                            #[trigger] groups@[gj].chunks@[d],
                        ),
                    None => true,
                },
            None => true,
        } by {
            if spec_group_index(groups@, chunk.groups@[k]) is Some {
                let gi = spec_group_index(groups@, chunk.groups@[k])->0;
                lemma_group_index_found(groups@, chunk.groups@[k]);
                assert forall|c: int|
                    0 <= c < groups@[gi].children@.len() implies match spec_group_index(
                    groups@,
                    #[trigger] groups@[gi].children@[c],
                ) {
                    Some(gj) => forall|d: int|
                        0 <= d < groups@[gj].chunks@.len() ==> out@.contains(
                            #[trigger] groups@[gj].chunks@[d],
                        ),
                    None => true,
                } by {
                    assert(spec_child_seeded(groups@, seedv, groups@[gi].children@[c]));
                    if spec_group_index(groups@, groups@[gi].children@[c]) is Some {
                        let gj = spec_group_index(groups@, groups@[gi].children@[c])->0;
                        assert(seedv[gj]);
                        assert(reached@[gj]);
                    }
                }
            }
        }
    }
    out
}

/// The asynchronous entry points referenced from any group reachable from
/// the chunk, without duplicates. Every entry point of an own group is
/// present.
pub fn get_all_referenced_async_entrypoints(chunk: &Chunk, groups: &Vec<ChunkGroup>) -> (r: Vec<
    ChunkGroupUkey,
>)
    ensures
        spec_no_dup(r@),
        forall|k: int|
            0 <= k < chunk.groups@.len() ==> match spec_group_index(
                groups@,
                #[trigger] chunk.groups@[k],
            ) {
                Some(gi) => forall|e: int|
                    0 <= e < groups@[gi].async_entrypoints@.len() ==> r@.contains(
                        #[trigger] groups@[gi].async_entrypoints@[e],
                    ),
                None => true,
            },
{
    let n = groups.len();
    let mut seed: Vec<bool> = Vec::new();
    let mut i: usize = 0;
    while i < n
        invariant
            i <= n,
            seed@.len() == i,
        decreases n - i,
    {
        seed.push(false);
        i = i + 1;
    }
    let mut g: usize = 0;
    while g < chunk.groups.len()
        invariant
            g <= chunk.groups@.len(),
            seed@.len() == n,
            n == groups@.len(),
            forall|k: int|
                0 <= k < g ==> match spec_group_index(groups@, #[trigger] chunk.groups@[k]) {
                    Some(gi) => 0 <= gi < n && seed@[gi],
                    None => true,
                },
        decreases chunk.groups@.len() - g,
    {
        if let Some(j) = group_index(groups, chunk.groups[g]) {
            seed.set(j, true);
        }
        g = g + 1;
    }
    let ghost seedv = seed@;
    let reached = close_over_children(groups, seed);
    let mut out: Vec<ChunkGroupUkey> = Vec::new();
    let mut gi: usize = 0;
    while gi < n
        invariant
            gi <= n,
            n == groups@.len(),
            reached@.len() == n,
            spec_no_dup(out@),
            forall|g2: int, e2: int|
                0 <= g2 < gi && reached@[g2] && 0 <= e2 < groups@[g2].async_entrypoints@.len()
                    ==> out@.contains(#[trigger] groups@[g2].async_entrypoints@[e2]),
        decreases n - gi,
    {
        if reached[gi] {
            let mut e: usize = 0;
            let eps_len = groups[gi].async_entrypoints.len();
            while e < eps_len
                invariant
                    e <= eps_len,
                    gi < groups@.len(),
                    n == groups@.len(),
                    reached@.len() == n,
                    reached@[gi as int],
                    eps_len == groups@[gi as int].async_entrypoints@.len(),
                    spec_no_dup(out@),
                    forall|g2: int, e2: int|
                        0 <= g2 < gi && reached@[g2] && 0 <= e2
                            < groups@[g2].async_entrypoints@.len() ==> out@.contains(
                            #[trigger] groups@[g2].async_entrypoints@[e2],
                        ),
                    forall|e2: int|
                        0 <= e2 < e ==> out@.contains(
                            #[trigger] groups@[gi as int].async_entrypoints@[e2],
                        ),
                decreases eps_len - e,
            {
                insert_ukey(&mut out, groups[gi].async_entrypoints[e]);
                e = e + 1;
            }
        }
        gi = gi + 1;
    }
    proof {
        assert forall|k: int|
            0 <= k < chunk.groups@.len() implies match spec_group_index(
            groups@,
            #[trigger] chunk.groups@[k],
        ) {
            Some(gi2) => forall|e: int|
                0 <= e < groups@[gi2].async_entrypoints@.len() ==> out@.contains(
                    #[trigger] groups@[gi2].async_entrypoints@[e],
                ),
            None => true,
        } by {
            if spec_group_index(groups@, chunk.groups@[k]) is Some {
                let gi2 = spec_group_index(groups@, chunk.groups@[k])->0;
                lemma_group_index_found(groups@, chunk.groups@[k]);
                assert(seedv[gi2]);
                assert(reached@[gi2]);
            }
        }
    }
    out
}

/// What candidate collection guarantees of its result: no duplicates; an
/// unknown chunk yields none; with every referenced chunk requested, every
/// chunk of every own group is present; otherwise every chunk of every
/// direct child group is present, widened by the recorded entry-dependent
/// chunks when the tree requires entry inclusion.
pub open spec fn spec_candidates_post(
    compilation: Compilation,
    chunk_ukey: ChunkUkey,
    all_chunks: bool,
    candidates: Seq<ChunkUkey>,
) -> bool {
    &&& spec_no_dup(candidates)
    &&& (crate::chunk::spec_chunk_by_ukey(compilation.chunk_by_ukey@, chunk_ukey) is None
        ==> candidates.len() == 0)
    &&& (all_chunks ==> match crate::chunk::spec_chunk_by_ukey(
        compilation.chunk_by_ukey@,
        chunk_ukey,
    ) {
        Some(c0) => forall|k: int|
            0 <= k < c0.groups@.len() ==> match spec_group_index(
                compilation.chunk_group_by_ukey@,
                #[trigger] c0.groups@[k],
            ) {
                Some(gi) => forall|c: int|
                    0 <= c < compilation.chunk_group_by_ukey@[gi].chunks@.len()
                        ==> candidates.contains(
                        #[trigger] compilation.chunk_group_by_ukey@[gi].chunks@[c],
                    ),
                None => true,
            },
        None => true,
    })
    &&& (!all_chunks ==> match crate::chunk::spec_chunk_by_ukey(
        compilation.chunk_by_ukey@,
        chunk_ukey,
    ) {
        Some(c0) => forall|k: int|
            0 <= k < c0.groups@.len() ==> match spec_group_index(
                compilation.chunk_group_by_ukey@,
                #[trigger] c0.groups@[k],
            ) {
                Some(gi) => forall|c: int|
                    0 <= c < compilation.chunk_group_by_ukey@[gi].children@.len()
                        ==> match spec_group_index(
                        compilation.chunk_group_by_ukey@,
                        #[trigger] compilation.chunk_group_by_ukey@[gi].children@[c],
                    ) {
                        Some(gj) => forall|d: int|
                            0 <= d < compilation.chunk_group_by_ukey@[gj].chunks@.len()
                                ==> candidates.contains(
                                #[trigger] compilation.chunk_group_by_ukey@[gj].chunks@[d],
                            ),
                        None => true,
                    },
                None => true,
            },
        None => true,
    })
    &&& forall|e: int|
        (!all_chunks && crate::chunk::spec_chunk_by_ukey(
            compilation.chunk_by_ukey@,
            chunk_ukey,
        ) is Some && (match spec_tree_requirements(
            compilation.chunk_graph.tree_runtime_requirements@,
            chunk_ukey,
        ) {
            Some(g) => g,
            None => RuntimeGlobals { bits: 0 },
        }).spec_contains(crate::runtime_globals::ENSURE_CHUNK_INCLUDE_ENTRIES) && 0 <= e
            < spec_entry_dependent_chunks(
            compilation.chunk_graph.entry_dependent_chunks@,
            chunk_ukey,
        ).len()) ==> candidates.contains(
            #[trigger] spec_entry_dependent_chunks(
                compilation.chunk_graph.entry_dependent_chunks@,
                chunk_ukey,
            )[e],
        )
}

/// The candidate chunks a chunk-filename runtime module considers: either
/// every chunk reachable from the attached chunk, or only the asynchronously
/// loaded ones, widened by entry-dependent chunks when the tree requires
/// entry inclusion and by the entry chunk of every referenced asynchronous
/// entry point. An unknown chunk key yields no candidates.
pub fn collect_candidate_chunks(
    compilation: &Compilation,
    chunk_ukey: ChunkUkey,
    all_chunks: bool,
) -> (r: Vec<ChunkUkey>)
    ensures
        spec_candidates_post(*compilation, chunk_ukey, all_chunks, r@),
{
    let chunk = match chunk_by_ukey(&compilation.chunk_by_ukey, chunk_ukey) {
        Some(c) => c,
        None => {
            return Vec::new();
        },
    };
    if all_chunks {
        get_all_referenced_chunks(chunk, &compilation.chunk_group_by_ukey)
    } else {
        proof {
            lemma_chunk_by_ukey_found(compilation.chunk_by_ukey@, chunk_ukey);
        }
        let ghost dependents = spec_entry_dependent_chunks(
            compilation.chunk_graph.entry_dependent_chunks@,
            chunk_ukey,
        );
        let mut chunks = get_all_async_chunks(chunk, &compilation.chunk_group_by_ukey);
        let reqs = compilation.chunk_graph.get_tree_runtime_requirements(chunk.ukey);
        let widened = reqs.contains(crate::runtime_globals::ENSURE_CHUNK_INCLUDE_ENTRIES);
        if widened {
            let extra = compilation.chunk_graph.get_chunk_entry_dependent_chunks(chunk.ukey);
            let mut e: usize = 0;
            while e < extra.len()
                invariant
                    e <= extra.len(),
                    extra@ == dependents,
                    spec_no_dup(chunks@),
                    forall|e2: int| 0 <= e2 < e ==> chunks@.contains(#[trigger] dependents[e2]),
                    forall|k: int|
                    0 <= k < chunk.groups@.len() ==> match spec_group_index(
                        compilation.chunk_group_by_ukey@,
                        #[trigger] chunk.groups@[k],
                    ) {
                        Some(gi) => forall|c2: int|
                            0 <= c2 < compilation.chunk_group_by_ukey@[gi].children@.len()
                                ==> match spec_group_index(
                                compilation.chunk_group_by_ukey@,
                                #[trigger] compilation.chunk_group_by_ukey@[gi].children@[c2],
                            ) {
                                Some(gj) => forall|d: int|
                                    0 <= d < compilation.chunk_group_by_ukey@[gj].chunks@.len()
                                        ==> chunks@.contains(
                                        #[trigger] compilation.chunk_group_by_ukey@[gj].chunks@[d],
                                    ),
                                None => true,
                            },
                        None => true,
                    },
                decreases extra.len() - e,
            {
                insert_ukey(&mut chunks, extra[e]);
                e = e + 1;
            }
        }
        let entrypoints = get_all_referenced_async_entrypoints(
            chunk,
            &compilation.chunk_group_by_ukey,
        );
        let mut p: usize = 0;
        while p < entrypoints.len()
            invariant
                p <= entrypoints.len(),
                spec_no_dup(chunks@),
                widened ==> forall|e2: int|
                    0 <= e2 < dependents.len() ==> chunks@.contains(#[trigger] dependents[e2]),
                forall|k: int|
                    0 <= k < chunk.groups@.len() ==> match spec_group_index(
                        compilation.chunk_group_by_ukey@,
                        #[trigger] chunk.groups@[k],
                    ) {
                        Some(gi) => forall|c2: int|
                            0 <= c2 < compilation.chunk_group_by_ukey@[gi].children@.len()
                                ==> match spec_group_index(
                                compilation.chunk_group_by_ukey@,
                                #[trigger] compilation.chunk_group_by_ukey@[gi].children@[c2],
                            ) {
                                Some(gj) => forall|d: int|
                                    0 <= d < compilation.chunk_group_by_ukey@[gj].chunks@.len()
                                        ==> chunks@.contains(
                                        #[trigger] compilation.chunk_group_by_ukey@[gj].chunks@[d],
                                    ),
                                None => true,
                            },
                        None => true,
                    },
            decreases entrypoints.len() - p,
        {
            if let Some(group) = group_by_ukey(
                &compilation.chunk_group_by_ukey,
                entrypoints[p],
            ) {
                if let Some(entry_chunk) = group.entry_point_chunk {
                    insert_ukey(&mut chunks, entry_chunk);
                }
            }
            p = p + 1;
        }
        chunks
    }
}

} // verus!
