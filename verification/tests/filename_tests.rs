use bundler_core::filename::{
    hash_lengths, parse_template, render_segments, render_template, strip_hash_lengths, truncated,
    PathData, PlaceholderKind, Segment,
};
use bundler_core::strutil::{lex_less, matches_at, u64_to_dec};

fn data(
    id: Option<&str>,
    name: Option<&str>,
    full: Option<&str>,
    chunk: Option<&str>,
    content: Option<&str>,
) -> PathData {
    PathData {
        id: id.map(String::from),
        name: name.map(String::from),
        full_hash: full.map(String::from),
        chunk_hash: chunk.map(String::from),
        content_hash: content.map(String::from),
    }
}

#[test]
fn decimal_rendering_is_exact() {
    assert_eq!(u64_to_dec(0), "0");
    assert_eq!(u64_to_dec(8), "8");
    assert_eq!(u64_to_dec(10), "10");
    assert_eq!(u64_to_dec(90210), "90210");
}

#[test]
fn lexicographic_order_on_strings() {
    assert!(lex_less(&String::from("a.js"), &String::from("b.js")));
    assert!(!lex_less(&String::from("b.js"), &String::from("a.js")));
    assert!(!lex_less(&String::from("a.js"), &String::from("a.js")));
    assert!(lex_less(&String::from("a"), &String::from("a.js")));
}

#[test]
fn prefix_matching_is_positional() {
    let s = String::from("x[id].js");
    assert!(matches_at(&s, 1, "[id]"));
    assert!(!matches_at(&s, 0, "[id]"));
    assert!(!matches_at(&s, 6, "[id]"));
}

#[test]
fn parse_recognizes_each_placeholder_kind() {
    let segs = parse_template(&String::from("[id][name][fullhash][hash][chunkhash][contenthash]"));
    assert_eq!(segs.len(), 6);
    assert!(matches!(segs[0], Segment::Hole(PlaceholderKind::Id, None)));
    assert!(matches!(segs[1], Segment::Hole(PlaceholderKind::Name, None)));
    assert!(matches!(segs[2], Segment::Hole(PlaceholderKind::FullHash, None)));
    assert!(matches!(segs[3], Segment::Hole(PlaceholderKind::FullHash, None)));
    assert!(matches!(segs[4], Segment::Hole(PlaceholderKind::ChunkHash, None)));
    assert!(matches!(segs[5], Segment::Hole(PlaceholderKind::ContentHash, None)));
}

#[test]
fn parse_reads_requested_lengths() {
    let segs = parse_template(&String::from("a.[contenthash:8].js"));
    assert_eq!(segs.len(), 6);
    assert!(matches!(segs[0], Segment::Lit('a')));
    assert!(matches!(segs[1], Segment::Lit('.')));
    assert!(matches!(segs[2], Segment::Hole(PlaceholderKind::ContentHash, Some(8))));
    assert!(matches!(segs[3], Segment::Lit('.')));
}

#[test]
fn malformed_placeholders_stay_literal() {
    let segs = parse_template(&String::from("[hashes]"));
    assert_eq!(segs.len(), 8);
    for seg in &segs {
        assert!(matches!(seg, Segment::Lit(_)));
    }
    let unclosed = parse_template(&String::from("[contenthash:8"));
    for seg in &unclosed {
        assert!(matches!(seg, Segment::Lit(_)));
    }
    let empty_len = parse_template(&String::from("[contenthash:].js"));
    assert!(matches!(empty_len[0], Segment::Lit('[')));
}

#[test]
fn hash_lengths_take_the_first_explicit_length() {
    let segs = parse_template(&String::from("[chunkhash:4].[fullhash].[contenthash:8]"));
    let lens = hash_lengths(&segs);
    assert_eq!(lens.chunk, Some(4));
    assert_eq!(lens.full, None);
    assert_eq!(lens.content, Some(8));
}

#[test]
fn stripping_removes_hash_lengths_only() {
    let segs = parse_template(&String::from("x.[contenthash:8].[id]"));
    let stripped = strip_hash_lengths(&segs);
    let mut saw_content = false;
    for seg in &stripped {
        if let Segment::Hole(PlaceholderKind::ContentHash, l) = seg {
            assert_eq!(*l, None);
            saw_content = true;
        }
    }
    assert!(saw_content);
}

#[test]
fn truncation_takes_a_prefix_and_clamps() {
    assert_eq!(truncated(&String::from("1234567890abcdef"), Some(8)), "12345678");
    assert_eq!(truncated(&String::from("abc"), Some(8)), "abc");
    assert_eq!(truncated(&String::from("abc"), None), "abc");
    assert_eq!(truncated(&String::from("abc"), Some(0)), "");
}

#[test]
fn content_hash_truncation_renders_exactly() {
    let segs = parse_template(&String::from("a.[contenthash:8].js"));
    let lens = hash_lengths(&segs);
    assert_eq!(lens.content, Some(8));
    let stripped = strip_hash_lengths(&segs);
    let hash = truncated(&String::from("1234567890abcdef"), lens.content);
    let out = render_segments(&stripped, &data(None, None, None, None, Some(&hash)));
    assert_eq!(out, "a.12345678.js");
}

#[test]
fn substitution_replaces_every_kind() {
    let out = render_template(
        &String::from("[id]-[name]-[fullhash]-[chunkhash]-[contenthash]"),
        &data(Some("1"), Some("main"), Some("F"), Some("C"), Some("K")),
    );
    assert_eq!(out, "1-main-F-C-K");
}

#[test]
fn missing_value_leaves_the_placeholder_text() {
    let out = render_template(&String::from("x.[name].js"), &PathData::empty());
    assert_eq!(out, "x.[name].js");
}

#[test]
fn hash_alias_rerenders_canonically_when_unfilled() {
    let out = render_template(&String::from("[hash]"), &PathData::empty());
    assert_eq!(out, "[fullhash]");
}

#[test]
fn literal_template_renders_unchanged() {
    let out = render_template(&String::from("plain-name.js"), &PathData::empty());
    assert_eq!(out, "plain-name.js");
}
