//! The module graph: a dense store of modules keyed by identity, a store of
//! dependencies keyed by their graph-assigned id, the resolution edges from
//! dependency to module, and the request-keyed dedup map. Construction is an
//! explicit worklist seeded with the entry dependencies; a cache hit
//! attaches the dependency to the existing module without re-invoking the
//! factory.

use vstd::prelude::*;

use crate::dependency::BoxDependency;
use crate::dependency::spec_dep_request;
use crate::dependency::spec_dep_with_id;
use crate::error::CoreError;
use crate::factory::create_module_for;
use crate::ident::DependencyId;
use crate::module::BoxModule;
use crate::module::spec_module_identifier;

verus! {

/// The module index recorded under a resolution key; the first entry wins.
pub open spec fn spec_dedup_find(entries: Seq<(String, usize)>, key: Seq<char>) -> Option<usize>
    decreases entries.len(),
{
    if entries.len() == 0 {
        None
    } else if entries.first().0@ == key {
        Some(entries.first().1)
    } else {
        spec_dedup_find(entries.drop_first(), key)
    }
}

/// Appending an entry leaves earlier keys' findings unchanged and makes the
/// new key found when it was not before.
pub proof fn lemma_dedup_find_push(entries: Seq<(String, usize)>, e: (String, usize), key: Seq<char>)
    ensures
        spec_dedup_find(entries, key) is Some ==> spec_dedup_find(entries.push(e), key)
            == spec_dedup_find(entries, key),
        spec_dedup_find(entries, key) is None && e.0@ == key ==> spec_dedup_find(
            entries.push(e),
            key,
        ) == Some(e.1),
        spec_dedup_find(entries, key) is None && e.0@ != key ==> spec_dedup_find(
            entries.push(e),
            key,
        ) is None,
    decreases entries.len(),
{
    if entries.len() == 0 {
        assert(entries.push(e).first() == e);
        assert(entries.push(e).drop_first() =~= Seq::<(String, usize)>::empty());
        if e.0@ != key {
            assert(spec_dedup_find(entries.push(e), key) == spec_dedup_find(
                Seq::<(String, usize)>::empty(),
                key,
            ));
        }
    } else {
        assert(entries.push(e).first() == entries.first());
        assert(entries.push(e).drop_first() =~= entries.drop_first().push(e));
        lemma_dedup_find_push(entries.drop_first(), e, key);
    }
}

/// A found dedup value respects any bound every entry respects.
pub proof fn lemma_dedup_find_bound(entries: Seq<(String, usize)>, key: Seq<char>, bound: int)
    requires
        forall|k: int| 0 <= k < entries.len() ==> (#[trigger] entries[k]).1 < bound,
    ensures
        spec_dedup_find(entries, key) is Some ==> (spec_dedup_find(entries, key)->0) < bound,
    decreases entries.len(),
{
    if entries.len() > 0 {
        assert(entries.first() == entries[0]);
        assert(forall|k: int|
            0 <= k < entries.drop_first().len() ==> (#[trigger] entries.drop_first()[k])
                == entries[k + 1]);
        lemma_dedup_find_bound(entries.drop_first(), key, bound);
    }
}

/// The position of the module with the given identifier, at the spec level.
pub open spec fn spec_module_index(modules: Seq<BoxModule>, ident: Seq<char>) -> Option<int>
    decreases modules.len(),
{
    if modules.len() == 0 {
        None
    } else if spec_module_identifier(modules.first()) == ident {
        Some(0int)
    } else {
        match spec_module_index(modules.drop_first(), ident) {
            Some(i) => Some(i + 1),
            None => None,
        }
    }
}

/// The directed graph of modules connected by resolved dependencies.
#[derive(Debug)]
pub struct ModuleGraph {
    /// The dense store owning every module; identifiers are unique.
    pub modules: Vec<BoxModule>,
    /// The store owning every dependency; a dependency's id is its index.
    pub dependencies: Vec<BoxDependency>,
    /// Per dependency, the module it resolved to; absence means unresolved.
    pub resolutions: Vec<Option<usize>>,
    /// The dedup map from resolution key to module index.
    pub dedup: Vec<(String, usize)>,
}

impl ModuleGraph {
    /// Well-formedness: one resolution slot per dependency, every recorded
    /// module index in bounds, and no two modules with one identifier.
    pub open spec fn wf(self) -> bool {
        &&& self.resolutions@.len() == self.dependencies@.len()
        &&& forall|d: int|
            0 <= d < self.resolutions@.len() ==> match #[trigger] self.resolutions@[d] {
                Some(m) => m < self.modules@.len(),
                None => true,
            }
        &&& forall|k: int|
            0 <= k < self.dedup@.len() ==> (#[trigger] self.dedup@[k]).1 < self.modules@.len()
        &&& forall|i: int, j: int|
            0 <= i < j < self.modules@.len() ==> spec_module_identifier(self.modules@[i])
                != spec_module_identifier(self.modules@[j])
    }

    /// An empty graph.
    pub fn new() -> (r: ModuleGraph)
        ensures
            r.wf(),
            r.modules@.len() == 0,
            r.dependencies@.len() == 0,
            r.resolutions@.len() == 0,
            r.dedup@.len() == 0,
    {
        ModuleGraph {
            modules: Vec::new(),
            dependencies: Vec::new(),
            resolutions: Vec::new(),
            dedup: Vec::new(),
        }
    }

    /// Inserts a dependency, assigning its identity — its index in the
    /// store — exactly once, with an unresolved resolution slot.
    pub fn add_dependency(&mut self, dep: BoxDependency) -> (id: DependencyId)
        requires
            old(self).wf(),
        ensures
            final(self).wf(),
            id.index == old(self).dependencies@.len(),
            final(self).dependencies@ == old(self).dependencies@.push(
                spec_dep_with_id(dep, Some(id)),
            ),
            final(self).resolutions@ == old(self).resolutions@.push(None),
            final(self).modules@ == old(self).modules@,
            final(self).dedup@ == old(self).dedup@,
    {
        let idx = self.dependencies.len();
        let mut d = dep;
        d.set_id(Some(DependencyId::new(idx)));
        self.dependencies.push(d);
        self.resolutions.push(None);
        DependencyId::new(idx)
    }

    /// The position of the module with the given identifier text.
    pub fn module_index_by_identifier(&self, ident: &String) -> (r: Option<usize>)
        ensures
            match r {
                Some(u) => spec_module_index(self.modules@, ident@) == Some(u as int),
                None => spec_module_index(self.modules@, ident@) is None,
            },
    {
        let mut i: usize = 0;
        proof {
            assert(self.modules@.skip(0) =~= self.modules@);
        }
        while i < self.modules.len()
            invariant
                i <= self.modules@.len(),
                spec_module_index(self.modules@, ident@) == match spec_module_index(
                    self.modules@.skip(i as int),
                    ident@,
                ) {
                    Some(j) => Some(j + i),
                    None => None,
                },
            decreases self.modules@.len() - i,
        {
            proof {
                assert(self.modules@.skip(i as int).drop_first() =~= self.modules@.skip(i + 1));
                assert(self.modules@.skip(i as int).first() == self.modules@[i as int]);
            }
            if self.modules[i].identifier().as_string().eq(ident) {
                return Some(i);
            }
            i = i + 1;
        }
        None
    }

    /// Inserts a module unless one with its identifier is already stored;
    /// returns the module's position and whether it was new. Nothing else
    /// changes.
    pub fn add_module(&mut self, m: BoxModule) -> (r: (usize, bool))
        requires
            old(self).wf(),
        ensures
            final(self).wf(),
            final(self).dependencies@ == old(self).dependencies@,
            final(self).resolutions@ == old(self).resolutions@,
            final(self).dedup@ == old(self).dedup@,
            r.0 < final(self).modules@.len(),
            spec_module_identifier(final(self).modules@[r.0 as int]) == spec_module_identifier(m),
            match spec_module_index(old(self).modules@, spec_module_identifier(m)) {
                Some(i) => r.0 == i && r.1 == false && final(self).modules@ == old(self).modules@,
                None => r.0 == old(self).modules@.len() && r.1 == true && final(self).modules@
                    == old(self).modules@.push(m),
            },
    {
        let ident_owned = m.identifier().as_string().clone();
        match self.module_index_by_identifier(&ident_owned) {
            Some(i) => {
                proof {
                    lemma_module_index_found(self.modules@, ident_owned@);
                }
                (i, false)
            },
            None => {
                let idx = self.modules.len();
                proof {
                    lemma_module_index_none(self.modules@, ident_owned@);
                }
                self.modules.push(m);
                (idx, true)
            },
        }
    }

    /// The module index recorded under a resolution key.
    pub fn dedup_find(&self, key: &String) -> (r: Option<usize>)
        ensures
            r == spec_dedup_find(self.dedup@, key@),
    {
        let mut i: usize = 0;
        proof {
            assert(self.dedup@.skip(0) =~= self.dedup@);
        }
        while i < self.dedup.len()
            invariant
                i <= self.dedup@.len(),
                spec_dedup_find(self.dedup@, key@) == spec_dedup_find(
                    self.dedup@.skip(i as int),
                    key@,
                ),
            decreases self.dedup@.len() - i,
        {
            proof {
                assert(self.dedup@.skip(i as int).drop_first() =~= self.dedup@.skip(i + 1));
                assert(self.dedup@.skip(i as int).first() == self.dedup@[i as int]);
            }
            if self.dedup[i].0.eq(key) {
                return Some(self.dedup[i].1);
            }
            i = i + 1;
        }
        None
    }

    /// Records the resolution edge from a dependency to a module.
    pub fn set_resolution(&mut self, d: usize, m: usize)
        requires
            old(self).wf(),
            d < old(self).resolutions@.len(),
            m < old(self).modules@.len(),
        ensures
            final(self).wf(),
            final(self).resolutions@ == old(self).resolutions@.update(d as int, Some(m)),
            final(self).dependencies@ == old(self).dependencies@,
            final(self).modules@ == old(self).modules@,
            final(self).dedup@ == old(self).dedup@,
    {
        self.resolutions.set(d, Some(m));
    }

    /// The identifier text of the module a dependency resolved to.
    pub open spec fn spec_resolution_identifier(self, d: int) -> Option<Seq<char>> {
        if 0 <= d < self.resolutions@.len() {
            match self.resolutions@[d] {
                Some(m) => if m < self.modules@.len() {
                    Some(spec_module_identifier(self.modules@[m as int]))
                } else {
                    None
                },
                None => None,
            }
        } else {
            None
        }
    }

    /// The identifier text of the module a dependency resolved to, if any.
    pub fn module_identifier_by_dependency(&self, d: DependencyId) -> (r: Option<String>)
        requires
            self.wf(),
        ensures
            match r {
                Some(s) => self.spec_resolution_identifier(d.index as int) == Some(s@),
                None => self.spec_resolution_identifier(d.index as int) is None,
            },
    {
        if d.index < self.resolutions.len() {
            match self.resolutions[d.index] {
                Some(m) => Some(self.modules[m].identifier().as_string().clone()),
                None => None,
            }
        } else {
            None
        }
    }
}

/// A found module index lies inside the store.
pub proof fn lemma_module_index_bound(modules: Seq<BoxModule>, ident: Seq<char>)
    ensures
        spec_module_index(modules, ident) is Some ==> 0 <= (spec_module_index(modules, ident)->0)
            < modules.len(),
    decreases modules.len(),
{
    if modules.len() > 0 && spec_module_identifier(modules.first()) != ident {
        lemma_module_index_bound(modules.drop_first(), ident);
    }
}

/// A found module index names a module with the identifier looked for.
pub proof fn lemma_module_index_found(modules: Seq<BoxModule>, ident: Seq<char>)
    ensures
        spec_module_index(modules, ident) is Some ==> {
            let i = spec_module_index(modules, ident)->0;
            i < modules.len() && spec_module_identifier(modules[i as int]) == ident
        },
    decreases modules.len(),
{
    if modules.len() > 0 && spec_module_identifier(modules.first()) != ident {
        lemma_module_index_found(modules.drop_first(), ident);
        lemma_module_index_bound(modules.drop_first(), ident);
        if spec_module_index(modules.drop_first(), ident) is Some {
            let i = spec_module_index(modules.drop_first(), ident)->0;
            assert(modules.drop_first()[i] == modules[i + 1]);
        }
    }
}

/// When nothing is found, no module has the identifier.
pub proof fn lemma_module_index_none(modules: Seq<BoxModule>, ident: Seq<char>)
    ensures
        spec_module_index(modules, ident) is None ==> forall|j: int|
            0 <= j < modules.len() ==> spec_module_identifier(#[trigger] modules[j]) != ident,
    decreases modules.len(),
{
    if modules.len() > 0 {
        lemma_module_index_none(modules.drop_first(), ident);
        if spec_module_index(modules, ident) is None {
            assert forall|j: int|
                0 <= j < modules.len() implies spec_module_identifier(#[trigger] modules[j])
                != ident by {
                if j > 0 {
                    assert(modules.drop_first()[j - 1] == modules[j]);
                }
            }
        }
    }
}

/// What one resolution step does to the graph: the key is recorded, the
/// dependency's edge points at the module found under it, and a cache hit
/// changes neither the module store nor the dedup map. Dependencies never
/// change in a resolution step.
pub open spec fn spec_resolve_post(
    pre: ModuleGraph,
    post: ModuleGraph,
    d: int,
    key: Seq<char>,
) -> bool {
    &&& post.wf()
    &&& post.dependencies@ == pre.dependencies@
    &&& pre.modules@.len() <= post.modules@.len()
    &&& spec_dedup_find(post.dedup@, key) is Some
    &&& post.resolutions@ == pre.resolutions@.update(
        d,
        Some(spec_dedup_find(post.dedup@, key)->0),
    )
    &&& (spec_dedup_find(pre.dedup@, key) is Some ==> post.modules@ == pre.modules@
        && post.dedup@ == pre.dedup@)
}

impl ModuleGraph {
    /// Resolves one dependency: consults the dedup map with the
    /// dependency's request; a hit attaches the dependency to the existing
    /// module without invoking the factory, a miss invokes the factory,
    /// stores the module and records the key. Returns the module's position
    /// and whether a module was newly stored.
    pub fn resolve_dependency(&mut self, d: usize) -> (r: (usize, bool))
        requires
            old(self).wf(),
            d < old(self).dependencies@.len(),
        ensures
            spec_resolve_post(
                *old(self),
                *final(self),
                d as int,
                spec_dep_request(old(self).dependencies@[d as int]),
            ),
            r.0 < final(self).modules@.len(),
            final(self).resolutions@[d as int] == Some(r.0),
            r.1 ==> final(self).modules@ == old(self).modules@.push(
                final(self).modules@[r.0 as int],
            ),
            !r.1 ==> final(self).modules@ == old(self).modules@,
            r.1 ==> match old(self).dependencies@[d as int] {
                BoxDependency::ContainerEntry(_) => final(self).modules@[r.0 as int] matches BoxModule::ContainerEntry(_),
                BoxDependency::ContainerExport(_) => final(self).modules@[r.0 as int] matches BoxModule::Resolved(_),
                BoxDependency::UrlContext(_) => final(self).modules@[r.0 as int] matches BoxModule::Resolved(_),
            },
    {
        let key = self.dependencies[d].request();
        match self.dedup_find(&key) {
            Some(m) => {
                proof {
                    lemma_dedup_find_bound(
                        self.dedup@,
                        spec_dep_request(self.dependencies@[d as int]),
                        self.modules@.len() as int,
                    );
                }
                self.set_resolution(d, m);
                (m, false)
            },
            None => {
                let ghost pre_dedup = self.dedup@;
                let m = create_module_for(&self.dependencies[d]);
                let (midx, added) = self.add_module(m);
                self.dedup.push((key, midx));
                proof {
                    lemma_dedup_find_push(
                        pre_dedup,
                        self.dedup@.last(),
                        spec_dep_request(self.dependencies@[d as int]),
                    );
                    assert(self.dedup@.drop_last() =~= pre_dedup);
                }
                self.set_resolution(d, midx);
                (midx, added)
            },
        }
    }
}

/// Resolving the same normalized request twice, for two distinct
/// dependencies, yields exactly one module in the graph — the second
/// resolution stores nothing new — referenced by two distinct resolution
/// edges that point at the same module.
pub proof fn lemma_resolve_dedup_idempotent(
    g0: ModuleGraph,
    g1: ModuleGraph,
    g2: ModuleGraph,
    d1: int,
    d2: int,
    key: Seq<char>,
)
    requires
        spec_resolve_post(g0, g1, d1, key),
        spec_resolve_post(g1, g2, d2, key),
        d1 != d2,
        0 <= d1 < g0.resolutions@.len(),
        0 <= d2 < g1.resolutions@.len(),
    ensures
        g2.modules@ == g1.modules@,
        g2.resolutions@[d1] is Some,
        g2.resolutions@[d2] is Some,
        g2.resolutions@[d1] == g2.resolutions@[d2],
{
    assert(spec_dedup_find(g1.dedup@, key) is Some);
    assert(g2.dedup@ == g1.dedup@);
    assert(g2.resolutions@[d1] == g1.resolutions@[d1]);
}

/// The worklist cost of one dependency: one step to resolve it, and one
/// more for the single dependency a newly built container entry discovers.
pub open spec fn spec_dep_weight(dep: BoxDependency) -> int {
    match dep {
        BoxDependency::ContainerEntry(_) => 2,
        BoxDependency::ContainerExport(_) => 1,
        BoxDependency::UrlContext(_) => 1,
    }
}

/// The summed worklist cost of a list of dependencies.
pub open spec fn spec_deps_weight(deps: Seq<BoxDependency>) -> int
    decreases deps.len(),
{
    if deps.len() == 0 {
        0
    } else {
        spec_deps_weight(deps.drop_last()) + spec_dep_weight(deps.last())
    }
}

/// The summed worklist cost of the queued dependencies; an index outside
/// the store counts one step.
pub open spec fn spec_queue_weight(queue: Seq<usize>, deps: Seq<BoxDependency>) -> int
    decreases queue.len(),
{
    if queue.len() == 0 {
        0
    } else {
        spec_queue_weight(queue.drop_last(), deps) + (if (queue.last() as int) < deps.len() {
            spec_dep_weight(deps[queue.last() as int])
        } else {
            1
        })
    }
}

/// Every queued dependency costs at least one step.
pub proof fn lemma_queue_weight_ge_len(queue: Seq<usize>, deps: Seq<BoxDependency>)
    ensures
        spec_queue_weight(queue, deps) >= queue.len(),
    decreases queue.len(),
{
    if queue.len() > 0 {
        lemma_queue_weight_ge_len(queue.drop_last(), deps);
    }
}

/// No dependency costs more than two steps.
pub proof fn lemma_queue_weight_le(queue: Seq<usize>, deps: Seq<BoxDependency>)
    ensures
        spec_queue_weight(queue, deps) <= 2 * queue.len(),
    decreases queue.len(),
{
    if queue.len() > 0 {
        lemma_queue_weight_le(queue.drop_last(), deps);
    }
}

/// Appending dependencies to the store leaves the cost of already queued
/// indices unchanged.
pub proof fn lemma_queue_weight_extend(queue: Seq<usize>, deps: Seq<BoxDependency>, e: BoxDependency)
    requires
        forall|q: int| 0 <= q < queue.len() ==> (#[trigger] queue[q]) < deps.len(),
    ensures
        spec_queue_weight(queue, deps.push(e)) == spec_queue_weight(queue, deps),
    decreases queue.len(),
{
    if queue.len() > 0 {
        assert(forall|q: int|
            0 <= q < queue.drop_last().len() ==> (#[trigger] queue.drop_last()[q]) == queue[q]);
        lemma_queue_weight_extend(queue.drop_last(), deps, e);
    }
}

/// Assigning a dependency its identity does not change its worklist cost.
pub proof fn lemma_dep_weight_with_id(dep: BoxDependency, id: Option<DependencyId>)
    ensures
        spec_dep_weight(spec_dep_with_id(dep, id)) == spec_dep_weight(dep),
{
}

/// Drains a worklist of dependency indices: each popped dependency is
/// resolved, and a newly created module's build step enqueues what it
/// discovers. Succeeds exactly when the worklist drains within `fuel`
/// steps; a budget covering the queued cost guarantees success, so only a
/// genuinely short budget fails.
pub fn resolve_worklist(graph: &mut ModuleGraph, queue: Vec<usize>, fuel: usize) -> (r: Result<
    (),
    CoreError,
>)
    requires
        old(graph).wf(),
        forall|q: int| 0 <= q < queue@.len() ==> (#[trigger] queue@[q]) < old(
            graph,
        ).dependencies@.len(),
        forall|dd: usize|
            dd < old(graph).resolutions@.len() ==> (#[trigger] old(graph).resolutions@[dd as int]) is Some
                || queue@.contains(dd),
    ensures
        final(graph).wf(),
        match r {
            Ok(_) => forall|d: int|
                0 <= d < final(graph).resolutions@.len() ==> (
                #[trigger] final(graph).resolutions@[d]) is Some,
            Err(e) => e is GraphBudget,
        },
        fuel >= spec_queue_weight(queue@, old(graph).dependencies@) ==> r is Ok,
{
    let ghost budget_ok = fuel >= spec_queue_weight(queue@, old(graph).dependencies@);
    let mut queue = queue;
    let mut steps: usize = 0;
    while queue.len() > 0 && steps < fuel
        invariant
            graph.wf(),
            steps <= fuel,
            forall|q: int|
                0 <= q < queue@.len() ==> (#[trigger] queue@[q]) < graph.dependencies@.len(),
            forall|dd: usize|
                dd < graph.resolutions@.len() ==> (#[trigger] graph.resolutions@[dd as int]) is Some
                    || queue@.contains(dd),
            budget_ok ==> fuel - steps >= spec_queue_weight(queue@, graph.dependencies@),
        decreases fuel - steps,
    {
        steps = steps + 1;
        let ghost queue_before = queue@;
        let ghost deps_before = graph.dependencies@;
        let d_opt = queue.pop();
        let d = d_opt.unwrap();
        let ghost popped_weight = spec_dep_weight(deps_before[d as int]);
        let (midx, added) = graph.resolve_dependency(d);
        proof {
            assert forall|dd: usize|
                dd < graph.resolutions@.len() implies (
            #[trigger] graph.resolutions@[dd as int]) is Some || queue@.contains(dd) by {
                if dd != d {
                    if !(graph.resolutions@[dd as int] is Some) {
                        let q = choose|q: int| 0 <= q < queue_before.len() && queue_before[q] == dd;
                        assert(queue_before.last() == d);
                        if q == queue_before.len() - 1 {
                            assert(false);
                        }
                        assert(queue@[q] == queue_before[q]);
                    }
                }
            }
            if budget_ok {
                assert(spec_queue_weight(queue_before, deps_before) == spec_queue_weight(
                    queue@,
                    deps_before,
                ) + popped_weight);
            }
        }
        if added {
            let build_result = match graph.modules[midx].build() {
                Ok(b) => b,
                Err(e) => {
                    return Err(e);
                },
            };
            proof {
                assert(graph.modules@.update(midx as int, graph.modules@[midx as int])
                    =~= graph.modules@);
                if budget_ok {
                    assert(0 <= d < deps_before.len());
                    match deps_before[d as int] {
                        BoxDependency::ContainerEntry(_) => {
                            assert(popped_weight == 2);
                            assert(build_result.inner.dependencies@.len() == 1);
                            assert(spec_dep_weight(build_result.inner.dependencies@[0]) == 1);
                            assert(build_result.inner.dependencies@.drop_last()
                                =~= Seq::<BoxDependency>::empty());
                            assert(build_result.inner.dependencies@.last()
                                == build_result.inner.dependencies@[0]);
                            assert(spec_deps_weight(Seq::<BoxDependency>::empty()) == 0);
                            assert(spec_deps_weight(build_result.inner.dependencies@) == 1);
                        },
                        BoxDependency::ContainerExport(_) => {
                            assert(popped_weight == 1);
                            assert(build_result.inner.dependencies@.len() == 0);
                            assert(spec_deps_weight(build_result.inner.dependencies@) == 0);
                        },
                        BoxDependency::UrlContext(_) => {
                            assert(popped_weight == 1);
                            assert(build_result.inner.dependencies@.len() == 0);
                            assert(spec_deps_weight(build_result.inner.dependencies@) == 0);
                        },
                    }
                    assert(spec_deps_weight(build_result.inner.dependencies@) + 1 <= popped_weight);
                }
            }
            let mut new_deps = build_result.inner.dependencies;
            while new_deps.len() > 0
                invariant
                    graph.wf(),
                    forall|q: int|
                        0 <= q < queue@.len() ==> (#[trigger] queue@[q])
                            < graph.dependencies@.len(),
                    forall|dd: usize|
                        dd < graph.resolutions@.len() ==> (
                        #[trigger] graph.resolutions@[dd as int]) is Some || queue@.contains(dd),
                    budget_ok ==> fuel - steps >= spec_queue_weight(queue@, graph.dependencies@)
                        + spec_deps_weight(new_deps@),
                decreases new_deps@.len(),
            {
                let ghost new_deps_before = new_deps@;
                let nd_opt = new_deps.pop();
                let nd = nd_opt.unwrap();
                let ghost queue_old = queue@;
                let ghost deps_old = graph.dependencies@;
                let id = graph.add_dependency(nd);
                queue.push(id.index);
                proof {
                    assert forall|dd: usize|
                        dd < graph.resolutions@.len() implies (
                    #[trigger] graph.resolutions@[dd as int]) is Some || queue@.contains(dd) by {
                        if (dd as int) < graph.resolutions@.len() - 1 {
                            if !(graph.resolutions@[dd as int] is Some) {
                                let q = choose|q: int|
                                    0 <= q < queue_old.len() && queue_old[q] == dd;
                                assert(queue@[q] == dd);
                            }
                        } else {
                            assert(queue@[queue@.len() - 1] == dd);
                        }
                    }
                    if budget_ok {
                        let nd_stored = spec_dep_with_id(nd, Some(id));
                        lemma_queue_weight_extend(queue_old, deps_old, nd_stored);
                        lemma_dep_weight_with_id(nd, Some(id));
                        assert(queue@.drop_last() =~= queue_old);
                        assert(spec_queue_weight(queue@, graph.dependencies@)
                            == spec_queue_weight(queue_old, graph.dependencies@)
                            + spec_dep_weight(nd));
                        assert(spec_deps_weight(new_deps_before) == spec_deps_weight(new_deps@)
                            + spec_dep_weight(nd));
                    }
                }
            }
        }
    }
    if queue.len() > 0 {
        proof {
            if budget_ok {
                lemma_queue_weight_ge_len(queue@, graph.dependencies@);
            }
        }
        return Err(CoreError::GraphBudget);
    }
    let n = graph.resolutions.len();
    proof {
        assert forall|d: int|
            0 <= d < graph.resolutions@.len() implies (#[trigger] graph.resolutions@[d]) is Some by {
            if !(graph.resolutions@[d] is Some) {
                assert(d < n);
                assert(queue@.contains(d as usize));
            }
        }
    }
    Ok(())
}

/// Builds the module graph from the entry dependencies: seeds a worklist
/// with them and drains it, deduplicating by request. `fuel` bounds the
/// number of worklist steps; twice the number of entries always suffices,
/// so with such a budget construction cannot fail. On success every
/// dependency the graph ever saw — and every one is reachable from an entry
/// — has a resolution edge: no dangling dependency remains.
pub fn build_graph(entries: Vec<BoxDependency>, fuel: usize) -> (r: Result<ModuleGraph, CoreError>)
    ensures
        match r {
            Ok(g) => g.wf() && forall|d: int|
                0 <= d < g.resolutions@.len() ==> (#[trigger] g.resolutions@[d]) is Some,
            Err(e) => e is GraphBudget,
        },
        fuel >= 2 * entries@.len() ==> r is Ok,
{
    let ghost entries0 = entries@;
    let mut graph = ModuleGraph::new();
    let mut queue: Vec<usize> = Vec::new();
    let mut entries = entries;
    while entries.len() > 0
        invariant
            graph.wf(),
            entries@.len() <= entries0.len(),
            queue@.len() == entries0.len() - entries@.len(),
            forall|q: int|
                0 <= q < queue@.len() ==> (#[trigger] queue@[q]) < graph.dependencies@.len(),
            forall|dd: usize|
                dd < graph.resolutions@.len() ==> (#[trigger] graph.resolutions@[dd as int]) is Some
                    || queue@.contains(dd),
            spec_queue_weight(queue@, graph.dependencies@) <= 2 * queue@.len(),
        decreases entries@.len(),
    {
        let e_opt = entries.pop();
        let e = e_opt.unwrap();
        let ghost queue_old = queue@;
        let ghost deps_old = graph.dependencies@;
        let id = graph.add_dependency(e);
        queue.push(id.index);
        proof {
            assert forall|dd: usize|
                dd < graph.resolutions@.len() implies (
            #[trigger] graph.resolutions@[dd as int]) is Some || queue@.contains(dd) by {
                if (dd as int) < graph.resolutions@.len() - 1 {
                    if !(graph.resolutions@[dd as int] is Some) {
                        let q = choose|q: int| 0 <= q < queue_old.len() && queue_old[q] == dd;
                        assert(queue@[q] == dd);
                    }
                } else {
                    assert(queue@[queue@.len() - 1] == dd);
                }
            }
            lemma_queue_weight_extend(queue_old, deps_old, spec_dep_with_id(e, Some(id)));
            assert(queue@.drop_last() =~= queue_old);
            assert(spec_queue_weight(queue@, graph.dependencies@) == spec_queue_weight(
                queue_old,
                graph.dependencies@,
            ) + spec_dep_weight(spec_dep_with_id(e, Some(id))));
            lemma_dep_weight_with_id(e, Some(id));
        }
    }
    proof {
        if fuel >= 2 * entries0.len() {
            assert(fuel >= spec_queue_weight(queue@, graph.dependencies@));
        }
    }
    match resolve_worklist(&mut graph, queue, fuel) {
        Ok(_) => Ok(graph),
        Err(e) => Err(e),
    }
}

} // verus!
