//! Small verified string helpers: decimal rendering of integers,
//! lexicographic comparison of character sequences, and prefix matching.
//! The filename-template machinery builds on these.

use vstd::prelude::*;
use vstd::string::StrSliceExecFns;
use vstd::string::StringExecFns;

verus! {

/// Whether `c` is an ASCII decimal digit.
pub open spec fn spec_is_digit(c: char) -> bool {
    '0' <= c && c <= '9'
}

/// The numeric value of an ASCII decimal digit.
pub open spec fn spec_digit_val(c: char) -> nat {
    (c as u32 - '0' as u32) as nat
}

/// The digit character for a value below ten.
pub open spec fn spec_digit_char(d: nat) -> char {
    if d == 0 {
        '0'
    } else if d == 1 {
        '1'
    } else if d == 2 {
        '2'
    } else if d == 3 {
        '3'
    } else if d == 4 {
        '4'
    } else if d == 5 {
        '5'
    } else if d == 6 {
        '6'
    } else if d == 7 {
        '7'
    } else if d == 8 {
        '8'
    } else {
        '9'
    }
}

/// The decimal representation of `n`, most significant digit first.
pub open spec fn spec_dec_rep(n: nat) -> Seq<char>
    decreases n,
{
    if n < 10 {
        seq![spec_digit_char(n)]
    } else {
        spec_dec_rep(n / 10) + seq![spec_digit_char(n % 10)]
    }
}

/// The value of a sequence of decimal digits, most significant first.
pub open spec fn spec_digits_val(d: Seq<char>) -> nat
    decreases d.len(),
{
    if d.len() == 0 {
        0
    } else {
        spec_digits_val(d.drop_last()) * 10 + spec_digit_val(d.last())
    }
}

/// Strict lexicographic order on character sequences by code point, the
/// order Rust's `str` comparison uses.
pub open spec fn spec_lex_less(a: Seq<char>, b: Seq<char>) -> bool
    decreases b.len(),
{
    if b.len() == 0 {
        false
    } else if a.len() == 0 {
        true
    } else if a.first() != b.first() {
        (a.first() as u32) < (b.first() as u32)
    } else {
        spec_lex_less(a.drop_first(), b.drop_first())
    }
}

/// The one-character string for a digit value below ten.
pub fn digit_to_str(d: u64) -> (s: &'static str)
    requires
        d < 10,
    ensures
        s@ =~= seq![spec_digit_char(d as nat)],
{
    if d == 0 {
        proof {
            reveal_strlit("0");
        }
        "0"
    } else if d == 1 {
        proof {
            reveal_strlit("1");
        }
        "1"
    } else if d == 2 {
        proof {
            reveal_strlit("2");
        }
        "2"
    } else if d == 3 {
        proof {
            reveal_strlit("3");
        }
        "3"
    } else if d == 4 {
        proof {
            reveal_strlit("4");
        }
        "4"
    } else if d == 5 {
        proof {
            reveal_strlit("5");
        }
        "5"
    } else if d == 6 {
        proof {
            reveal_strlit("6");
        }
        "6"
    } else if d == 7 {
        proof {
            reveal_strlit("7");
        }
        "7"
    } else if d == 8 {
        proof {
            reveal_strlit("8");
        }
        "8"
    } else {
        proof {
            reveal_strlit("9");
        }
        "9"
    }
}

/// Renders `n` in decimal, most significant digit first.
pub fn u64_to_dec(n: u64) -> (s: String)
    ensures
        s@ == spec_dec_rep(n as nat),
    decreases n,
{
    if n < 10 {
        String::from_str(digit_to_str(n))
    } else {
        let mut s = u64_to_dec(n / 10);
        s.append(digit_to_str(n % 10));
        proof {
            assert(s@ =~= spec_dec_rep(n as nat));
        }
        s
    }
}

/// Compares two strings in strict lexicographic code-point order.
pub fn lex_less(a: &String, b: &String) -> (r: bool)
    ensures
        r == spec_lex_less(a@, b@),
{
    let a_len = a.as_str().unicode_len();
    let b_len = b.as_str().unicode_len();
    let mut i: usize = 0;
    proof {
        assert(a@.skip(0) =~= a@);
        assert(b@.skip(0) =~= b@);
    }
    loop
        invariant
            i <= a_len,
            i <= b_len,
            a_len == a@.len(),
            b_len == b@.len(),
            spec_lex_less(a@, b@) == spec_lex_less(a@.skip(i as int), b@.skip(i as int)),
        decreases b_len - i,
    {
        if i == b_len {
            return false;
        }
        if i == a_len {
            return true;
        }
        let ca = a.as_str().get_char(i);
        let cb = b.as_str().get_char(i);
        if ca != cb {
            return (ca as u32) < (cb as u32);
        }
        proof {
            assert(a@.skip(i as int).drop_first() =~= a@.skip(i + 1));
            assert(b@.skip(i as int).drop_first() =~= b@.skip(i + 1));
        }
        i = i + 1;
    }
}

/// Lexicographic order is irreflexive.
pub proof fn lemma_lex_less_irrefl(a: Seq<char>)
    ensures
        !spec_lex_less(a, a),
    decreases a.len(),
{
    if a.len() > 0 {
        lemma_lex_less_irrefl(a.drop_first());
    }
}

/// On distinct sequences, lexicographic order runs exactly one way.
pub proof fn lemma_lex_less_total(a: Seq<char>, b: Seq<char>)
    requires
        a != b,
    ensures
        spec_lex_less(a, b) <==> !spec_lex_less(b, a),
    decreases a.len() + b.len(),
{
    if b.len() == 0 {
        assert(a.len() > 0) by {
            if a.len() == 0 {
                assert(a =~= b);
            }
        }
    } else if a.len() == 0 {
    } else if a.first() != b.first() {
        vstd::utf8::char_u32_cast(a.first(), a.first() as u32);
        vstd::utf8::char_u32_cast(b.first(), b.first() as u32);
        assert((a.first() as u32) != (b.first() as u32));
    } else {
        if a.drop_first() == b.drop_first() {
            assert(a.drop_first().len() == a.len() - 1);
            assert(b.drop_first().len() == b.len() - 1);
            assert(a.len() == b.len());
            assert forall|i: int| 0 <= i < a.len() implies a[i] == b[i] by {
                if i > 0 {
                    assert(a[i] == a.drop_first()[i - 1]);
                    assert(b[i] == b.drop_first()[i - 1]);
                }
            }
            assert(a =~= b);
        }
        lemma_lex_less_total(a.drop_first(), b.drop_first());
    }
}

/// Lexicographic order is transitive.
pub proof fn lemma_lex_less_trans(a: Seq<char>, b: Seq<char>, c: Seq<char>)
    requires
        spec_lex_less(a, b),
        spec_lex_less(b, c),
    ensures
        spec_lex_less(a, c),
    decreases a.len() + b.len() + c.len(),
{
    if a.len() == 0 {
    } else if a.first() == b.first() && b.first() == c.first() {
        lemma_lex_less_trans(a.drop_first(), b.drop_first(), c.drop_first());
    }
}

/// Relies on `String::push`: appends exactly the one character to the end
/// of the string.
#[verifier::external_body]
pub fn push_char(s: &mut String, c: char)
    ensures
        final(s)@ == old(s)@.push(c),
{
    s.push(c);
}

/// Whether the pattern `pat` occurs in `s` starting at position `i`.
pub open spec fn spec_matches_at(s: Seq<char>, i: int, pat: Seq<char>) -> bool {
    0 <= i && i + pat.len() <= s.len() && s.subrange(i, i + pat.len()) == pat
}

/// Checks whether `pat` occurs in `s` at position `i`.
pub fn matches_at(s: &String, i: usize, pat: &str) -> (r: bool)
    ensures
        r == spec_matches_at(s@, i as int, pat@),
{
    let s_len = s.as_str().unicode_len();
    let p_len = pat.unicode_len();
    if p_len > s_len || i > s_len - p_len {
        proof {
            assert(!spec_matches_at(s@, i as int, pat@));
        }
        return false;
    }
    let mut j: usize = 0;
    while j < p_len
        invariant
            j <= p_len,
            i + p_len <= s_len,
            s_len == s@.len(),
            p_len == pat@.len(),
            forall|k: int| 0 <= k < j ==> s@[i + k] == pat@[k],
        decreases p_len - j,
    {
        let cs = s.as_str().get_char(i + j);
        let cp = pat.get_char(j);
        if cs != cp {
            proof {
                assert(s@.subrange(i as int, i + pat@.len())[j as int] != pat@[j as int]);
            }
            return false;
        }
        j = j + 1;
    }
    proof {
        assert(s@.subrange(i as int, i + pat@.len()) =~= pat@);
    }
    true
}

} // verus!
