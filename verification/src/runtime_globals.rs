//! The set of runtime helper capabilities a chunk's generated code depends
//! on, kept as a bitset. Union is the only combinator; no bit is ever
//! removed, so accumulation over modules and plugins is a monoid.

use vstd::prelude::*;
use vstd::string::StringExecFns;

verus! {

/// The exports object of the running module.
pub const EXPORTS: u64 = 0x1;

/// The main require function.
pub const REQUIRE: u64 = 0x2;

/// Helper that defines property getters on an exports object.
pub const DEFINE_PROPERTY_GETTERS: u64 = 0x4;

/// Helper that checks an own property without walking the prototype chain.
pub const HAS_OWN_PROPERTY: u64 = 0x8;

/// Accessor returning the full (whole-compilation) hash.
pub const GET_FULL_HASH: u64 = 0x10;

/// Requirement that ensure-chunk also loads entry chunks it depends on.
pub const ENSURE_CHUNK_INCLUDE_ENTRIES: u64 = 0x20;

/// Requirement that the runtime returns the exports from its startup call.
pub const RETURN_EXPORTS_FROM_RUNTIME: u64 = 0x40;

/// The base URI the runtime resolves relative assets against.
pub const BASE_URI: u64 = 0x80;

/// The function mapping a chunk id to its script filename.
pub const GET_CHUNK_SCRIPT_FILENAME: u64 = 0x100;

/// The function mapping a chunk id to its stylesheet filename.
pub const GET_CHUNK_CSS_FILENAME: u64 = 0x200;

/// A bitset of named runtime capabilities. The bitset is a monoid under
/// `union`: the accumulated requirements of a chunk never shrink.
#[derive(Clone, Copy, PartialEq, Eq, Structural, Debug)]
pub struct RuntimeGlobals {
    pub bits: u64,
}

impl RuntimeGlobals {
    /// The empty requirement set.
    pub fn new() -> (r: RuntimeGlobals)
        ensures
            r.bits == 0,
    {
        RuntimeGlobals { bits: 0 }
    }

    /// The requirement set holding exactly the given bits.
    pub fn from_bits(bits: u64) -> (r: RuntimeGlobals)
        ensures
            r.bits == bits,
    {
        RuntimeGlobals { bits }
    }

    /// Adds the given capabilities to the set; nothing is ever removed.
    pub fn insert(&mut self, g: u64)
        ensures
            final(self).bits == old(self).bits | g,
    {
        self.bits = self.bits | g;
    }

    /// Whether every capability in `g` is already present.
    pub fn contains(&self, g: u64) -> (r: bool)
        ensures
            r == (self.bits & g == g),
    {
        self.bits & g == g
    }

    /// The union of two requirement sets.
    pub fn union(&self, other: &RuntimeGlobals) -> (r: RuntimeGlobals)
        ensures
            r.bits == self.bits | other.bits,
    {
        RuntimeGlobals { bits: self.bits | other.bits }
    }

    /// The spec-level union, for stating laws about accumulation.
    pub open spec fn spec_union(self, other: RuntimeGlobals) -> RuntimeGlobals {
        RuntimeGlobals { bits: self.bits | other.bits }
    }

    /// Whether this set contains every bit of `other`, at the spec level.
    pub open spec fn spec_contains(self, g: u64) -> bool {
        self.bits & g == g
    }
}

impl Default for RuntimeGlobals {
    /// The default requirement set is empty.
    fn default() -> (r: RuntimeGlobals)
        ensures
            r.bits == 0,
    {
        RuntimeGlobals { bits: 0 }
    }
}

/// The name a runtime capability is bound to in generated code; a
/// capability without a code-level binding has the empty name.
pub open spec fn spec_global_name(g: u64) -> Seq<char> {
    if g == EXPORTS {
        "__webpack_exports__"@
    } else if g == REQUIRE {
        "__webpack_require__"@
    } else if g == DEFINE_PROPERTY_GETTERS {
        "__webpack_require__.d"@
    } else if g == HAS_OWN_PROPERTY {
        "__webpack_require__.o"@
    } else if g == GET_FULL_HASH {
        "__webpack_require__.h"@
    } else if g == BASE_URI {
        "__webpack_require__.b"@
    } else if g == GET_CHUNK_SCRIPT_FILENAME {
        "__webpack_require__.u"@
    } else if g == GET_CHUNK_CSS_FILENAME {
        "__webpack_require__.k"@
    } else {
        Seq::empty()
    }
}

/// Renders the code-level name of a runtime capability.
pub fn global_name(g: u64) -> (r: String)
    ensures
        r@ == spec_global_name(g),
{
    if g == EXPORTS {
        String::from_str("__webpack_exports__")
    } else if g == REQUIRE {
        String::from_str("__webpack_require__")
    } else if g == DEFINE_PROPERTY_GETTERS {
        String::from_str("__webpack_require__.d")
    } else if g == HAS_OWN_PROPERTY {
        String::from_str("__webpack_require__.o")
    } else if g == GET_FULL_HASH {
        String::from_str("__webpack_require__.h")
    } else if g == BASE_URI {
        String::from_str("__webpack_require__.b")
    } else if g == GET_CHUNK_SCRIPT_FILENAME {
        String::from_str("__webpack_require__.u")
    } else if g == GET_CHUNK_CSS_FILENAME {
        String::from_str("__webpack_require__.k")
    } else {
        let r = String::new();
        proof {
            assert(r@ =~= spec_global_name(g));
        }
        r
    }
}

/// Unioning requirement sets is commutative: accumulating the requirements
/// of two modules gives the same set whichever is merged first.
pub proof fn lemma_union_commutative(a: RuntimeGlobals, b: RuntimeGlobals)
    ensures
        a.spec_union(b) == b.spec_union(a),
{
    let (x, y) = (a.bits, b.bits);
    assert(x | y == y | x) by (bit_vector);
}

/// Unioning requirement sets is associative: grouping of merges does not
/// matter, so per-chunk accumulation may merge partial results in any shape.
pub proof fn lemma_union_associative(a: RuntimeGlobals, b: RuntimeGlobals, c: RuntimeGlobals)
    ensures
        a.spec_union(b).spec_union(c) == a.spec_union(b.spec_union(c)),
{
    let (x, y, z) = (a.bits, b.bits, c.bits);
    assert((x | y) | z == x | (y | z)) by (bit_vector);
}

/// Unioning a requirement set with itself changes nothing: merging one
/// module's requirements twice is the same as merging them once.
pub proof fn lemma_union_idempotent(a: RuntimeGlobals)
    ensures
        a.spec_union(a) == a,
{
    let x = a.bits;
    assert(x | x == x) by (bit_vector);
}

/// Folding a sequence of requirement sets into an accumulator, left to right.
pub open spec fn spec_union_all(sets: Seq<RuntimeGlobals>, acc: RuntimeGlobals) -> RuntimeGlobals
    decreases sets.len(),
{
    if sets.len() == 0 {
        acc
    } else {
        spec_union_all(sets.drop_first(), acc.spec_union(sets.first()))
    }
}

/// Unions a whole sequence of requirement sets into one, as the orchestrator
/// does per chunk over the sets contributed by modules and plugins.
pub fn union_all(sets: &Vec<RuntimeGlobals>) -> (r: RuntimeGlobals)
    ensures
        r == spec_union_all(sets@, RuntimeGlobals { bits: 0 }),
{
    let mut acc = RuntimeGlobals { bits: 0 };
    let mut i: usize = 0;
    proof {
        assert(sets@.skip(0) =~= sets@);
    }
    while i < sets.len()
        invariant
            i <= sets.len(),
            spec_union_all(sets@, RuntimeGlobals { bits: 0 }) == spec_union_all(
                sets@.skip(i as int),
                acc,
            ),
        decreases sets.len() - i,
    {
        proof {
            assert(sets@.skip(i as int).drop_first() =~= sets@.skip(i + 1));
            assert(sets@.skip(i as int).first() == sets@[i as int]);
        }
        acc = acc.union(&sets[i]);
        i = i + 1;
    }
    proof {
        assert(sets@.skip(sets@.len() as int) =~= Seq::<RuntimeGlobals>::empty());
    }
    acc
}

} // verus!
