//! Filename templates: literal text interspersed with bracketed placeholders
//! `[id]`, `[name]`, `[fullhash]` (alias `[hash]`), `[chunkhash]` and
//! `[contenthash]`, each optionally suffixed `:N` for a truncation length.
//!
//! A template is parsed into segments by a deterministic recursive
//! specification; stripping requested hash lengths and substituting values
//! are defined and proved against that specification.

use vstd::prelude::*;
use vstd::string::StrSliceExecFns;
use vstd::string::StringExecFns;

use crate::strutil::lex_less;
use crate::strutil::matches_at;
use crate::strutil::spec_dec_rep;
use crate::strutil::spec_digit_val;
use crate::strutil::spec_digits_val;
use crate::strutil::spec_is_digit;
use crate::strutil::spec_lex_less;
use crate::strutil::spec_matches_at;
use crate::strutil::u64_to_dec;

verus! {

/// The kinds of placeholder a filename template may hold. `[hash]` is an
/// alias of `[fullhash]` and parses to `FullHash`.
#[derive(Clone, Copy, PartialEq, Eq, Structural, Debug)]
pub enum PlaceholderKind {
    Id,
    Name,
    FullHash,
    ChunkHash,
    ContentHash,
}

/// One parsed element of a template: a literal character, or a placeholder
/// with an optional requested truncation length.
#[derive(Clone, Copy, Debug)]
pub enum Segment {
    Lit(char),
    Hole(PlaceholderKind, Option<usize>),
}

/// A filename template as configured: the raw template string.
#[derive(Clone, Debug)]
pub struct Filename {
    pub template: String,
}

impl Filename {
    /// Wraps a raw template string.
    pub fn new(template: String) -> (r: Filename)
        ensures
            r.template@ == template@,
    {
        Filename { template }
    }

    /// The raw template string.
    pub fn template(&self) -> (r: &String)
        ensures
            r@ == self.template@,
    {
        &self.template
    }

    /// A copy with the same template text.
    pub fn duplicate(&self) -> (r: Filename)
        ensures
            r.template@ == self.template@,
    {
        Filename { template: self.template.clone() }
    }
}

/// The values a template is rendered with; a missing value leaves the
/// placeholder's source text in place.
pub struct PathData {
    pub id: Option<String>,
    pub name: Option<String>,
    pub full_hash: Option<String>,
    pub chunk_hash: Option<String>,
    pub content_hash: Option<String>,
}

impl PathData {
    /// Data with no value for any placeholder.
    pub fn empty() -> (r: PathData)
        ensures
            r.id is None,
            r.name is None,
            r.full_hash is None,
            r.chunk_hash is None,
            r.content_hash is None,
    {
        PathData { id: None, name: None, full_hash: None, chunk_hash: None, content_hash: None }
    }
}

/// The truncation lengths a template requests for each hash placeholder
/// kind, taken from the first occurrence carrying an explicit length.
#[derive(Clone, Copy, PartialEq, Eq, Structural, Debug)]
pub struct HashLengths {
    pub full: Option<usize>,
    pub chunk: Option<usize>,
    pub content: Option<usize>,
}

/// The word between brackets for each placeholder kind; the alias `[hash]`
/// re-renders canonically as `[fullhash]`.
pub open spec fn spec_kind_word(k: PlaceholderKind) -> Seq<char> {
    match k {
        PlaceholderKind::Id => "id"@,
        PlaceholderKind::Name => "name"@,
        PlaceholderKind::FullHash => "fullhash"@,
        PlaceholderKind::ChunkHash => "chunkhash"@,
        PlaceholderKind::ContentHash => "contenthash"@,
    }
}

/// Length of the run of decimal digits in `t` starting at `j`.
pub open spec fn spec_digit_run(t: Seq<char>, j: int) -> int
    decreases t.len() - j,
{
    if 0 <= j < t.len() && spec_is_digit(t[j]) {
        1 + spec_digit_run(t, j + 1)
    } else {
        0
    }
}

/// Tries to read, at position `i` of `t`, a placeholder written with the
/// given word: `[word]` or `[word:N]`. Returns the requested length and the
/// width of the matched text. A length of more than ten digits, or one that
/// does not fit `usize`, is not recognized as a placeholder.
pub open spec fn spec_match_hole(t: Seq<char>, i: int, word: Seq<char>) -> Option<
    (Option<usize>, int),
> {
    if 0 <= i < t.len() && t[i] == '[' && spec_matches_at(t, i + 1, word) {
        let p = i + 1 + word.len();
        if p < t.len() && t[p] == ']' {
            Some((None, word.len() + 2 as int))
        } else if p < t.len() && t[p] == ':' {
            let run = spec_digit_run(t, p + 1);
            if 1 <= run <= 10 && p + 1 + run < t.len() && t[p + 1 + run] == ']'
                && spec_digits_val(t.subrange(p + 1, p + 1 + run)) <= usize::MAX {
                Some((Some(spec_digits_val(t.subrange(p + 1, p + 1 + run)) as usize), word.len()
                    + 3 + run))
            } else {
                None
            }
        } else {
            None
        }
    } else {
        None
    }
}

/// Tries each placeholder kind at position `i`, in a fixed order. No kind's
/// word is a prefix of another's, so at most one can match.
pub open spec fn spec_hole_at(t: Seq<char>, i: int) -> Option<
    (PlaceholderKind, Option<usize>, int),
> {
    if spec_match_hole(t, i, "id"@) is Some {
        let (l, w) = spec_match_hole(t, i, "id"@)->0;
        Some((PlaceholderKind::Id, l, w))
    } else if spec_match_hole(t, i, "name"@) is Some {
        let (l, w) = spec_match_hole(t, i, "name"@)->0;
        Some((PlaceholderKind::Name, l, w))
    } else if spec_match_hole(t, i, "fullhash"@) is Some {
        let (l, w) = spec_match_hole(t, i, "fullhash"@)->0;
        Some((PlaceholderKind::FullHash, l, w))
    } else if spec_match_hole(t, i, "hash"@) is Some {
        let (l, w) = spec_match_hole(t, i, "hash"@)->0;
        Some((PlaceholderKind::FullHash, l, w))
    } else if spec_match_hole(t, i, "chunkhash"@) is Some {
        let (l, w) = spec_match_hole(t, i, "chunkhash"@)->0;
        Some((PlaceholderKind::ChunkHash, l, w))
    } else if spec_match_hole(t, i, "contenthash"@) is Some {
        let (l, w) = spec_match_hole(t, i, "contenthash"@)->0;
        Some((PlaceholderKind::ContentHash, l, w))
    } else {
        None
    }
}

/// A matched placeholder has positive width and ends inside the template.
pub proof fn lemma_match_hole_width(t: Seq<char>, i: int, word: Seq<char>)
    ensures
        spec_match_hole(t, i, word) is Some ==> {
            let m = spec_match_hole(t, i, word)->0;
            1 <= m.1 && i + m.1 <= t.len()
        },
{
    if spec_match_hole(t, i, word) is Some {
        let p = i + 1 + word.len();
        if p < t.len() && t[p] == ']' {
        } else {
            let run = spec_digit_run(t, p + 1);
            assert(p + 1 + run < t.len());
        }
    }
}

/// A recognized placeholder has positive width and ends inside the template.
pub proof fn lemma_hole_at_width(t: Seq<char>, i: int)
    ensures
        spec_hole_at(t, i) is Some ==> {
            let h = spec_hole_at(t, i)->0;
            1 <= h.2 && i + h.2 <= t.len()
        },
{
    lemma_match_hole_width(t, i, "id"@);
    lemma_match_hole_width(t, i, "name"@);
    lemma_match_hole_width(t, i, "fullhash"@);
    lemma_match_hole_width(t, i, "hash"@);
    lemma_match_hole_width(t, i, "chunkhash"@);
    lemma_match_hole_width(t, i, "contenthash"@);
}

/// The parse of `t` from position `i` on: each position yields either the
/// placeholder recognized there or its literal character.
pub open spec fn spec_parse_from(t: Seq<char>, i: int) -> Seq<Segment>
    decreases t.len() - i when 0 <= i via spec_parse_from_decreases
{
    if i >= t.len() {
        Seq::empty()
    } else {
        match spec_hole_at(t, i) {
            Some((k, l, w)) => seq![Segment::Hole(k, l)] + spec_parse_from(t, i + w),
            None => seq![Segment::Lit(t[i])] + spec_parse_from(t, i + 1),
        }
    }
}

#[via_fn]
proof fn spec_parse_from_decreases(t: Seq<char>, i: int) {
    lemma_hole_at_width(t, i);
}

/// The canonical parse of a template string into segments.
pub open spec fn spec_parse(t: Seq<char>) -> Seq<Segment> {
    spec_parse_from(t, 0)
}


/// Powers of ten, bounding the value of a digit run.
pub open spec fn spec_pow10(n: nat) -> int
    decreases n,
{
    if n == 0 {
        1
    } else {
        10 * spec_pow10((n - 1) as nat)
    }
}

/// The first eleven powers of ten, written out for bounding short digit runs.
proof fn lemma_pow10_values()
    ensures
        spec_pow10(0) == 1,
        spec_pow10(1) == 10,
        spec_pow10(2) == 100,
        spec_pow10(3) == 1000,
        spec_pow10(4) == 10000,
        spec_pow10(5) == 100000,
        spec_pow10(6) == 1000000,
        spec_pow10(7) == 10000000,
        spec_pow10(8) == 100000000,
        spec_pow10(9) == 1000000000,
        spec_pow10(10) == 10000000000,
{
    assert(spec_pow10(0) == 1);
    assert(spec_pow10(1) == 10);
    assert(spec_pow10(2) == 100);
    assert(spec_pow10(3) == 1000);
    assert(spec_pow10(4) == 10000);
    assert(spec_pow10(5) == 100000);
    assert(spec_pow10(6) == 1000000);
    assert(spec_pow10(7) == 10000000);
    assert(spec_pow10(8) == 100000000);
    assert(spec_pow10(9) == 1000000000);
    assert(spec_pow10(10) == 10000000000);
}

/// A digit run never has negative length.
proof fn lemma_digit_run_nonneg(t: Seq<char>, j: int)
    ensures
        spec_digit_run(t, j) >= 0,
    decreases t.len() - j,
{
    if 0 <= j < t.len() && spec_is_digit(t[j]) {
        lemma_digit_run_nonneg(t, j + 1);
    }
}

/// Checks whether a character is an ASCII decimal digit.
pub fn is_digit_char(c: char) -> (r: bool)
    ensures
        r == spec_is_digit(c),
{
    '0' <= c && c <= '9'
}

/// Tries to read, at position `i` of `s`, a placeholder written with the
/// given word, as the parse specification does.
pub fn match_hole_word(s: &String, i: usize, word: &str) -> (r: Option<(Option<usize>, usize)>)
    ensures
        match r {
            Some(m) => spec_match_hole(s@, i as int, word@) == Some((m.0, m.1 as int)),
            None => spec_match_hole(s@, i as int, word@) is None,
        },
{
    let s_len = s.as_str().unicode_len();
    if i >= s_len {
        return None;
    }
    if s.as_str().get_char(i) != '[' {
        return None;
    }
    if !matches_at(s, i + 1, word) {
        return None;
    }
    let wlen = word.unicode_len();
    let p = i + 1 + wlen;
    if p >= s_len {
        return None;
    }
    let c = s.as_str().get_char(p);
    if c == ']' {
        return Some((None, wlen + 2));
    }
    if c != ':' {
        return None;
    }
    let avail = s_len - p - 1;
    let mut run: usize = 0;
    let mut acc: u64 = 0;
    proof {
        lemma_pow10_values();
        assert(s@.subrange(p + 1, p + 1) =~= Seq::<char>::empty());
    }
    while run < 11 && run < avail && is_digit_char(s.as_str().get_char(p + 1 + run))
        invariant
            run <= 11,
            run <= avail,
            avail == s_len - p - 1,
            p < s_len,
            s_len == s@.len(),
            acc == spec_digits_val(s@.subrange(p + 1, p + 1 + run)),
            acc < spec_pow10(run as nat),
            spec_digit_run(s@, p + 1) == run + spec_digit_run(s@, p + 1 + run),
            spec_pow10(10) == 10000000000,
        decreases 11 - run,
    {
        let d = s.as_str().get_char(p + 1 + run);
        let dv = (d as u32 - '0' as u32) as u64;
        proof {
            let pre = s@.subrange(p + 1, p + 1 + run);
            let post = s@.subrange(p + 1, p + 1 + run + 1);
            assert(post.drop_last() =~= pre);
            assert(post.last() == s@[p + 1 + run]);
            assert(spec_pow10((run + 1) as nat) == 10 * spec_pow10(run as nat));
            lemma_pow10_mono(run as nat, 10);
            assert(acc * 10 + dv < 10 * spec_pow10(run as nat)) by (nonlinear_arith)
                requires
                    acc < spec_pow10(run as nat),
                    dv <= 9,
                    spec_pow10(run as nat) >= 1,
            ;
            assert(acc * 10 + dv < 10 * spec_pow10(10)) by (nonlinear_arith)
                requires
                    acc < spec_pow10(run as nat),
                    dv <= 9,
                    spec_pow10(run as nat) <= spec_pow10(10),
                    spec_pow10(10) == 10000000000,
            ;
        }
        acc = acc * 10 + dv;
        run = run + 1;
    }
    if run == 0 {
        return None;
    }
    if run > 10 {
        proof {
            lemma_digit_run_nonneg(s@, p + 1 + run);
        }
        return None;
    }
    let end = p + 1 + run;
    if end >= s_len {
        return None;
    }
    if s.as_str().get_char(end) != ']' {
        return None;
    }
    if acc > usize::MAX as u64 {
        return None;
    }
    Some((Some(acc as usize), wlen + 3 + run))
}

/// Powers of ten do not shrink as the exponent grows.
pub proof fn lemma_pow10_mono(a: nat, b: nat)
    requires
        a <= b,
    ensures
        spec_pow10(a) <= spec_pow10(b),
        spec_pow10(a) >= 1,
    decreases b,
{
    if a == b {
        if a == 0 {
        } else {
            lemma_pow10_mono((a - 1) as nat, (b - 1) as nat);
        }
    } else {
        lemma_pow10_mono(a, (b - 1) as nat);
    }
}

/// Recognizes a placeholder of any kind at position `i`, as the parse
/// specification does.
pub fn hole_at(s: &String, i: usize) -> (r: Option<(PlaceholderKind, Option<usize>, usize)>)
    ensures
        match r {
            Some(h) => spec_hole_at(s@, i as int) == Some((h.0, h.1, h.2 as int)),
            None => spec_hole_at(s@, i as int) is None,
        },
{
    if let Some((l, w)) = match_hole_word(s, i, "id") {
        return Some((PlaceholderKind::Id, l, w));
    }
    if let Some((l, w)) = match_hole_word(s, i, "name") {
        return Some((PlaceholderKind::Name, l, w));
    }
    if let Some((l, w)) = match_hole_word(s, i, "fullhash") {
        return Some((PlaceholderKind::FullHash, l, w));
    }
    if let Some((l, w)) = match_hole_word(s, i, "hash") {
        return Some((PlaceholderKind::FullHash, l, w));
    }
    if let Some((l, w)) = match_hole_word(s, i, "chunkhash") {
        return Some((PlaceholderKind::ChunkHash, l, w));
    }
    if let Some((l, w)) = match_hole_word(s, i, "contenthash") {
        return Some((PlaceholderKind::ContentHash, l, w));
    }
    None
}

/// Parses a template string into its canonical segments.
pub fn parse_template(s: &String) -> (segs: Vec<Segment>)
    ensures
        segs@ == spec_parse(s@),
{
    let s_len = s.as_str().unicode_len();
    let mut segs: Vec<Segment> = Vec::new();
    let mut i: usize = 0;
    proof {
        assert(segs@ + spec_parse_from(s@, 0) =~= spec_parse_from(s@, 0));
    }
    while i < s_len
        invariant
            i <= s_len,
            s_len == s@.len(),
            spec_parse(s@) == segs@ + spec_parse_from(s@, i as int),
        decreases s_len - i,
    {
        let ghost segs_old = segs@;
        match hole_at(s, i) {
            Some((k, l, w)) => {
                proof {
                    lemma_hole_at_width(s@, i as int);
                }
                segs.push(Segment::Hole(k, l));
                proof {
                    assert(segs_old + spec_parse_from(s@, i as int) =~= segs@ + spec_parse_from(
                        s@,
                        i + w,
                    ));
                }
                i = i + w;
            },
            None => {
                let c = s.as_str().get_char(i);
                segs.push(Segment::Lit(c));
                proof {
                    assert(segs_old + spec_parse_from(s@, i as int) =~= segs@ + spec_parse_from(
                        s@,
                        i + 1,
                    ));
                }
                i = i + 1;
            },
        }
    }
    proof {
        assert(segs@ + spec_parse_from(s@, s_len as int) =~= segs@);
    }
    segs
}

/// Whether a placeholder kind names a hash.
pub open spec fn spec_is_hash_kind(k: PlaceholderKind) -> bool {
    k == PlaceholderKind::FullHash || k == PlaceholderKind::ChunkHash || k
        == PlaceholderKind::ContentHash
}

/// A segment with any requested hash length removed.
pub open spec fn spec_strip_seg(seg: Segment) -> Segment {
    match seg {
        Segment::Hole(k, l) => if spec_is_hash_kind(k) {
            Segment::Hole(k, None)
        } else {
            seg
        },
        Segment::Lit(_) => seg,
    }
}

/// The template with every hash placeholder's requested length removed.
pub open spec fn spec_strip(segs: Seq<Segment>) -> Seq<Segment> {
    segs.map_values(|seg: Segment| spec_strip_seg(seg))
}

/// Removes the requested hash lengths from a parsed template, leaving bare
/// hash placeholders for substitution.
pub fn strip_hash_lengths(segs: &Vec<Segment>) -> (r: Vec<Segment>)
    ensures
        r@ == spec_strip(segs@),
{
    let mut out: Vec<Segment> = Vec::new();
    let mut i: usize = 0;
    while i < segs.len()
        invariant
            i <= segs.len(),
            out@.len() == i,
            forall|j: int| 0 <= j < i ==> out@[j] == spec_strip_seg(segs@[j]),
        decreases segs.len() - i,
    {
        let seg = segs[i];
        match seg {
            Segment::Hole(k, l) => {
                if k == PlaceholderKind::FullHash || k == PlaceholderKind::ChunkHash || k
                    == PlaceholderKind::ContentHash {
                    out.push(Segment::Hole(k, None));
                } else {
                    out.push(seg);
                }
            },
            Segment::Lit(_) => {
                out.push(seg);
            },
        }
        i = i + 1;
    }
    proof {
        assert(out@ =~= spec_strip(segs@));
    }
    out
}

/// The length the template requests for the first placeholder of kind `k`
/// that carries one.
pub open spec fn spec_hash_len(segs: Seq<Segment>, k: PlaceholderKind) -> Option<usize>
    decreases segs.len(),
{
    if segs.len() == 0 {
        None
    } else {
        match segs.first() {
            Segment::Hole(k2, l) => if k2 == k && l is Some {
                l
            } else {
                spec_hash_len(segs.drop_first(), k)
            },
            Segment::Lit(_) => spec_hash_len(segs.drop_first(), k),
        }
    }
}

/// Finds the requested truncation length for placeholders of kind `k`.
pub fn hash_len(segs: &Vec<Segment>, k: PlaceholderKind) -> (r: Option<usize>)
    ensures
        r == spec_hash_len(segs@, k),
{
    let mut i: usize = 0;
    proof {
        assert(segs@.skip(0) =~= segs@);
    }
    while i < segs.len()
        invariant
            i <= segs.len(),
            spec_hash_len(segs@, k) == spec_hash_len(segs@.skip(i as int), k),
        decreases segs.len() - i,
    {
        proof {
            assert(segs@.skip(i as int).drop_first() =~= segs@.skip(i + 1));
        }
        match segs[i] {
            Segment::Hole(k2, l) => {
                if k2 == k {
                    if let Some(n) = l {
                        return Some(n);
                    }
                }
            },
            Segment::Lit(_) => {},
        }
        i = i + 1;
    }
    None
}

/// Collects the requested truncation length of each hash placeholder kind.
pub fn hash_lengths(segs: &Vec<Segment>) -> (r: HashLengths)
    ensures
        r.full == spec_hash_len(segs@, PlaceholderKind::FullHash),
        r.chunk == spec_hash_len(segs@, PlaceholderKind::ChunkHash),
        r.content == spec_hash_len(segs@, PlaceholderKind::ContentHash),
{
    HashLengths {
        full: hash_len(segs, PlaceholderKind::FullHash),
        chunk: hash_len(segs, PlaceholderKind::ChunkHash),
        content: hash_len(segs, PlaceholderKind::ContentHash),
    }
}

/// The first `n` characters of `v` when `n` is requested and shorter than
/// `v`; otherwise `v` unchanged.
pub open spec fn spec_truncated(v: Seq<char>, l: Option<usize>) -> Seq<char> {
    match l {
        Some(n) => if n < v.len() {
            v.take(n as int)
        } else {
            v
        },
        None => v,
    }
}

/// Truncates a value to a requested length, keeping it whole when it is
/// already short enough.
pub fn truncated(v: &String, l: Option<usize>) -> (r: String)
    ensures
        r@ == spec_truncated(v@, l),
{
    match l {
        Some(n) => {
            let len = v.as_str().unicode_len();
            if n < len {
                let cut = v.as_str().substring_char(0, n);
                proof {
                    assert(cut@ =~= v@.take(n as int));
                }
                cut.to_owned()
            } else {
                v.clone()
            }
        },
        None => v.clone(),
    }
}

/// The source text a placeholder re-renders to when no value is given;
/// the alias `[hash]` re-renders canonically as `[fullhash]`.
pub open spec fn spec_hole_source(k: PlaceholderKind, l: Option<usize>) -> Seq<char> {
    "["@ + spec_kind_word(k) + (match l {
        Some(n) => ":"@ + spec_dec_rep(n as nat),
        None => Seq::<char>::empty(),
    }) + "]"@
}

/// The bracket word of a placeholder kind.
pub fn kind_word(k: PlaceholderKind) -> (r: &'static str)
    ensures
        r@ == spec_kind_word(k),
{
    match k {
        PlaceholderKind::Id => "id",
        PlaceholderKind::Name => "name",
        PlaceholderKind::FullHash => "fullhash",
        PlaceholderKind::ChunkHash => "chunkhash",
        PlaceholderKind::ContentHash => "contenthash",
    }
}

/// Renders the source text of a placeholder, for when no value is given.
pub fn hole_source(k: PlaceholderKind, l: Option<usize>) -> (r: String)
    ensures
        r@ == spec_hole_source(k, l),
{
    let mut out = String::from_str("[");
    out.append(kind_word(k));
    match l {
        Some(n) => {
            out.append(":");
            let d = u64_to_dec(n as u64);
            out.append(d.as_str());
        },
        None => {},
    }
    out.append("]");
    proof {
        assert(out@ =~= spec_hole_source(k, l));
    }
    out
}

/// The substitution values at the specification level: what each
/// placeholder kind renders to, as character sequences.
pub struct SubstView {
    pub id: Option<Seq<char>>,
    pub name: Option<Seq<char>>,
    pub full_hash: Option<Seq<char>>,
    pub chunk_hash: Option<Seq<char>>,
    pub content_hash: Option<Seq<char>>,
}

/// The substitution view of rendering data.
pub open spec fn spec_data_view(data: PathData) -> SubstView {
    SubstView {
        id: match data.id {
            Some(s) => Some(s@),
            None => None,
        },
        name: match data.name {
            Some(s) => Some(s@),
            None => None,
        },
        full_hash: match data.full_hash {
            Some(s) => Some(s@),
            None => None,
        },
        chunk_hash: match data.chunk_hash {
            Some(s) => Some(s@),
            None => None,
        },
        content_hash: match data.content_hash {
            Some(s) => Some(s@),
            None => None,
        },
    }
}

/// The value the data gives for a placeholder kind.
pub open spec fn spec_subst_value(data: SubstView, k: PlaceholderKind) -> Option<Seq<char>> {
    match k {
        PlaceholderKind::Id => data.id,
        PlaceholderKind::Name => data.name,
        PlaceholderKind::FullHash => data.full_hash,
        PlaceholderKind::ChunkHash => data.chunk_hash,
        PlaceholderKind::ContentHash => data.content_hash,
    }
}

/// What one segment renders to: a literal stays itself; a placeholder with a
/// value renders the value, truncated to any requested length; a placeholder
/// without one re-renders its source text.
pub open spec fn spec_render_seg(seg: Segment, data: SubstView) -> Seq<char> {
    match seg {
        Segment::Lit(c) => seq![c],
        Segment::Hole(k, l) => match spec_subst_value(data, k) {
            Some(v) => spec_truncated(v, l),
            None => spec_hole_source(k, l),
        },
    }
}

/// What a parsed template renders to with the given data.
pub open spec fn spec_render(segs: Seq<Segment>, data: SubstView) -> Seq<char>
    decreases segs.len(),
{
    if segs.len() == 0 {
        Seq::empty()
    } else {
        spec_render_seg(segs.first(), data) + spec_render(segs.drop_first(), data)
    }
}

/// The data's value for a placeholder kind.
pub fn subst_value<'a>(data: &'a PathData, k: PlaceholderKind) -> (r: Option<&'a String>)
    ensures
        match r {
            Some(v) => spec_subst_value(spec_data_view(*data), k) == Some(v@),
            None => spec_subst_value(spec_data_view(*data), k) is None,
        },
{
    match k {
        PlaceholderKind::Id => data.id.as_ref(),
        PlaceholderKind::Name => data.name.as_ref(),
        PlaceholderKind::FullHash => data.full_hash.as_ref(),
        PlaceholderKind::ChunkHash => data.chunk_hash.as_ref(),
        PlaceholderKind::ContentHash => data.content_hash.as_ref(),
    }
}

/// Substitutes the given values into a parsed template.
pub fn render_segments(segs: &Vec<Segment>, data: &PathData) -> (out: String)
    ensures
        out@ == spec_render(segs@, spec_data_view(*data)),
{
    let mut out = String::new();
    let mut i: usize = 0;
    proof {
        assert(segs@.skip(0) =~= segs@);
        assert(out@ + spec_render(segs@, spec_data_view(*data)) =~= spec_render(segs@, spec_data_view(*data)));
    }
    while i < segs.len()
        invariant
            i <= segs.len(),
            spec_render(segs@, spec_data_view(*data)) == out@ + spec_render(segs@.skip(i as int), spec_data_view(*data)),
        decreases segs.len() - i,
    {
        let ghost out_old = out@;
        proof {
            assert(segs@.skip(i as int).drop_first() =~= segs@.skip(i + 1));
            assert(segs@.skip(i as int).first() == segs@[i as int]);
        }
        let seg = segs[i];
        match seg {
            Segment::Lit(c) => {
                crate::strutil::push_char(&mut out, c);
                proof {
                    assert(out@ =~= out_old + seq![c]);
                }
            },
            Segment::Hole(k, l) => {
                match subst_value(data, k) {
                    Some(v) => {
                        let piece = truncated(v, l);
                        out.append(piece.as_str());
                    },
                    None => {
                        let piece = hole_source(k, l);
                        out.append(piece.as_str());
                    },
                }
            },
        }
        proof {
            assert(out_old + spec_render(segs@.skip(i as int), spec_data_view(*data)) =~= out@
                + spec_render(segs@.skip(i + 1), spec_data_view(*data)));
        }
        i = i + 1;
    }
    proof {
        assert(out@ + spec_render(segs@.skip(segs@.len() as int), spec_data_view(*data)) =~= out@);
    }
    out
}

/// What a template string renders to with the given data: its canonical
/// parse, substituted.
pub open spec fn spec_render_template(t: Seq<char>, data: SubstView) -> Seq<char> {
    spec_render(spec_parse(t), data)
}

/// Parses and renders a template string with the given data.
pub fn render_template(t: &String, data: &PathData) -> (out: String)
    ensures
        out@ == spec_render_template(t@, spec_data_view(*data)),
{
    let segs = parse_template(t);
    render_segments(&segs, data)
}

} // verus!
