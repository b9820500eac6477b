use bundler_core::runtime_globals;
use bundler_core::runtime_globals::RuntimeGlobals;

#[test]
fn empty_set_contains_nothing_but_empty() {
    let g = RuntimeGlobals::new();
    assert_eq!(g.bits, 0);
    assert!(g.contains(0));
    assert!(!g.contains(runtime_globals::EXPORTS));
}

#[test]
fn insert_accumulates_and_never_removes() {
    let mut g = RuntimeGlobals::new();
    g.insert(runtime_globals::EXPORTS);
    g.insert(runtime_globals::HAS_OWN_PROPERTY);
    g.insert(runtime_globals::EXPORTS);
    assert!(g.contains(runtime_globals::EXPORTS));
    assert!(g.contains(runtime_globals::HAS_OWN_PROPERTY));
    assert!(!g.contains(runtime_globals::GET_FULL_HASH));
    assert_eq!(g.bits, runtime_globals::EXPORTS | runtime_globals::HAS_OWN_PROPERTY);
}

#[test]
fn union_is_commutative_on_values() {
    let a = RuntimeGlobals::from_bits(runtime_globals::EXPORTS | runtime_globals::BASE_URI);
    let b = RuntimeGlobals::from_bits(runtime_globals::GET_FULL_HASH);
    assert_eq!(a.union(&b), b.union(&a));
}

#[test]
fn union_is_associative_on_values() {
    let a = RuntimeGlobals::from_bits(runtime_globals::EXPORTS);
    let b = RuntimeGlobals::from_bits(runtime_globals::REQUIRE);
    let c = RuntimeGlobals::from_bits(runtime_globals::BASE_URI);
    assert_eq!(a.union(&b).union(&c), a.union(&b.union(&c)));
}

#[test]
fn union_is_idempotent_on_values() {
    let a = RuntimeGlobals::from_bits(runtime_globals::DEFINE_PROPERTY_GETTERS);
    assert_eq!(a.union(&a), a);
}

#[test]
fn union_all_joins_every_set_in_any_order() {
    let sets = vec![
        RuntimeGlobals::from_bits(runtime_globals::EXPORTS),
        RuntimeGlobals::from_bits(runtime_globals::REQUIRE),
        RuntimeGlobals::from_bits(runtime_globals::EXPORTS),
    ];
    let reversed = vec![sets[2], sets[1], sets[0]];
    let joined = runtime_globals::union_all(&sets);
    assert_eq!(joined.bits, runtime_globals::EXPORTS | runtime_globals::REQUIRE);
    assert_eq!(joined, runtime_globals::union_all(&reversed));
}

#[test]
fn global_names_match_the_runtime_vocabulary() {
    assert_eq!(runtime_globals::global_name(runtime_globals::EXPORTS), "__webpack_exports__");
    assert_eq!(runtime_globals::global_name(runtime_globals::REQUIRE), "__webpack_require__");
    assert_eq!(
        runtime_globals::global_name(runtime_globals::GET_FULL_HASH),
        "__webpack_require__.h"
    );
    assert_eq!(runtime_globals::global_name(runtime_globals::BASE_URI), "__webpack_require__.b");
    assert_eq!(
        runtime_globals::global_name(runtime_globals::GET_CHUNK_SCRIPT_FILENAME),
        "__webpack_require__.u"
    );
    assert_eq!(
        runtime_globals::global_name(runtime_globals::GET_CHUNK_CSS_FILENAME),
        "__webpack_require__.k"
    );
    assert_eq!(runtime_globals::global_name(runtime_globals::ENSURE_CHUNK_INCLUDE_ENTRIES), "");
}

#[test]
fn default_set_is_empty() {
    let g: RuntimeGlobals = Default::default();
    assert_eq!(g.bits, 0);
}
