//! Character-sequence utilities shared by both signing schemes: lexicographic
//! comparison, equality, decimal formatting and joining of key/value pairs.
use vstd::prelude::*;

verus! {

use vstd::string::StrSliceExecFns;
use vstd::string::StringExecFns;

/// Lexicographic `<=` on character sequences, ordered by code point, which for
/// UTF-8 text coincides with byte-wise comparison of the encoded strings.
pub open spec fn lex_le(a: Seq<char>, b: Seq<char>) -> bool
    decreases a.len(),
{
    if a.len() == 0 {
        true
    } else if b.len() == 0 {
        false
    } else if a[0] != b[0] {
        (a[0] as u32) < (b[0] as u32)
    } else {
        lex_le(a.drop_first(), b.drop_first())
    }
}

/// `lex_le` is total: of any two strings, one is `lex_le` the other.
pub proof fn lemma_lex_le_total(a: Seq<char>, b: Seq<char>)
    ensures
        lex_le(a, b) || lex_le(b, a),
    decreases a.len(),
{
    if a.len() == 0 {
    } else if b.len() == 0 {
        assert(lex_le(b, a));
    } else if a[0] == b[0] {
        lemma_lex_le_total(a.drop_first(), b.drop_first());
    } else {
        vstd::utf8::char_u32_cast(a[0], a[0] as u32);
        vstd::utf8::char_u32_cast(b[0], b[0] as u32);
        assert((a[0] as u32) != (b[0] as u32));
    }
}

/// `lex_le` is transitive.
pub proof fn lemma_lex_le_trans(a: Seq<char>, b: Seq<char>, c: Seq<char>)
    requires
        lex_le(a, b),
        lex_le(b, c),
    ensures
        lex_le(a, c),
    decreases a.len(),
{
    if a.len() > 0 {
        if a[0] == b[0] && b[0] == c[0] {
            lemma_lex_le_trans(a.drop_first(), b.drop_first(), c.drop_first());
        }
    }
}

proof fn lemma_skip_one_more(s: Seq<char>, i: int)
    requires
        0 <= i < s.len(),
    ensures
        s.skip(i).drop_first() == s.skip(i + 1),
{
    assert(s.skip(i).drop_first() =~= s.skip(i + 1));
}

/// Decides `lex_le` on two string slices.
pub fn str_le(a: &str, b: &str) -> (r: bool)
    ensures
        r == lex_le(a@, b@),
{
    let alen = a.unicode_len();
    let blen = b.unicode_len();
    let mut i: usize = 0;
    proof {
        assert(a@.skip(0) =~= a@);
        assert(b@.skip(0) =~= b@);
    }
    loop
        invariant
            i <= alen,
            i <= blen,
            alen == a@.len(),
            blen == b@.len(),
            lex_le(a@, b@) == lex_le(a@.skip(i as int), b@.skip(i as int)),
        decreases alen - i,
    {
        if i == alen {
            assert(a@.skip(i as int).len() == 0);
            return true;
        }
        if i == blen {
            assert(b@.skip(i as int).len() == 0);
            assert(a@.skip(i as int).len() > 0);
            return false;
        }
        let ca = a.get_char(i);
        let cb = b.get_char(i);
        assert(a@.skip(i as int)[0] == ca);
        assert(b@.skip(i as int)[0] == cb);
        if ca != cb {
            return ca < cb;
        }
        proof {
            lemma_skip_one_more(a@, i as int);
            lemma_skip_one_more(b@, i as int);
        }
        i = i + 1;
    }
}

/// Decides equality of the character sequences of two string slices.
pub fn str_eq(a: &str, b: &str) -> (r: bool)
    ensures
        r == (a@ == b@),
{
    let alen = a.unicode_len();
    let blen = b.unicode_len();
    if alen != blen {
        return false;
    }
    let mut i: usize = 0;
    while i < alen
        invariant
            i <= alen,
            alen == a@.len(),
            alen == b@.len(),
            forall|j: int| 0 <= j < i ==> a@[j] == b@[j],
        decreases alen - i,
    {
        if a.get_char(i) != b.get_char(i) {
            return false;
        }
        i = i + 1;
    }
    proof {
        assert(a@ =~= b@);
    }
    true
}

pub open spec fn digit_char(d: nat) -> char {
    ((48 + d) as u8) as char
}

/// The decimal digits of `n`, most significant first.
pub open spec fn dec_digits(n: nat) -> Seq<char>
    decreases n,
{
    if n < 10 {
        seq![digit_char(n)]
    } else {
        dec_digits(n / 10).push(digit_char(n % 10))
    }
}

/// The decimal rendering of a signed value: a minus sign followed by the
/// digits of its magnitude, or just the digits.
pub open spec fn dec_i64(n: int) -> Seq<char> {
    if n < 0 {
        seq!['-'] + dec_digits((-n) as nat)
    } else {
        dec_digits(n as nat)
    }
}

fn digit_str(d: u8) -> (r: &'static str)
    requires
        d < 10,
    ensures
        r@ == seq![digit_char(d as nat)],
{
    proof {
        reveal_strlit("0");
        reveal_strlit("1");
        reveal_strlit("2");
        reveal_strlit("3");
        reveal_strlit("4");
        reveal_strlit("5");
        reveal_strlit("6");
        reveal_strlit("7");
        reveal_strlit("8");
        reveal_strlit("9");
    }
    let r = match d {
        0 => "0",
        1 => "1",
        2 => "2",
        3 => "3",
        4 => "4",
        5 => "5",
        6 => "6",
        7 => "7",
        8 => "8",
        _ => "9",
    };
    proof {
        assert(r@ =~= seq![digit_char(d as nat)]);
    }
    r
}

fn push_dec_u64(n: u64, out: &mut String)
    ensures
        final(out)@ == old(out)@ + dec_digits(n as nat),
    decreases n,
{
    if n >= 10 {
        push_dec_u64(n / 10, out);
    }
    out.append(digit_str((n % 10) as u8));
    proof {
        if n >= 10 {
            assert(out@ =~= old(out)@ + dec_digits(n as nat));
        } else {
            assert(out@ =~= old(out)@ + dec_digits(n as nat));
        }
    }
}

/// Renders an unsigned value in decimal.
pub fn u64_to_string(n: u64) -> (r: String)
    ensures
        r@ == dec_digits(n as nat),
{
    let mut out = String::new();
    push_dec_u64(n, &mut out);
    proof {
        assert(out@ =~= dec_digits(n as nat));
    }
    out
}

/// Renders a signed value in decimal.
pub fn i64_to_string(n: i64) -> (r: String)
    ensures
        r@ == dec_i64(n as int),
{
    if n >= 0 {
        let r = u64_to_string(n as u64);
        r
    } else {
        let mut out = String::new();
        proof {
            reveal_strlit("-");
        }
        out.append("-");
        let mag: u64 = (-(n as i128)) as u64;
        push_dec_u64(mag, &mut out);
        proof {
            assert(out@ =~= dec_i64(n as int));
        }
        out
    }
}

/// Joins character sequences with a separator.
pub open spec fn join_strs(s: Seq<Seq<char>>, sep: Seq<char>) -> Seq<char>
    decreases s.len(),
{
    if s.len() == 0 {
        Seq::empty()
    } else if s.len() == 1 {
        s[0]
    } else {
        join_strs(s.drop_last(), sep) + sep + s.last()
    }
}

/// Joins pairs as `key=value`, with a separator between pairs.
pub open spec fn join_pairs(s: Seq<(Seq<char>, Seq<char>)>, sep: Seq<char>) -> Seq<char>
    decreases s.len(),
{
    if s.len() == 0 {
        Seq::empty()
    } else if s.len() == 1 {
        s[0].0 + seq!['='] + s[0].1
    } else {
        join_pairs(s.drop_last(), sep) + sep + s.last().0 + seq!['='] + s.last().1
    }
}

pub proof fn lemma_join_strs_step(s: Seq<Seq<char>>, sep: Seq<char>, i: int)
    requires
        0 <= i < s.len(),
    ensures
        join_strs(s.take(i + 1), sep) == if i == 0 {
            s[0]
        } else {
            join_strs(s.take(i), sep) + sep + s[i]
        },
{
    assert(s.take(i + 1).drop_last() =~= s.take(i));
    assert(s.take(i + 1).last() == s[i]);
    if i == 0 {
        assert(s.take(1)[0] == s[0]);
    }
}

pub proof fn lemma_join_pairs_step(s: Seq<(Seq<char>, Seq<char>)>, sep: Seq<char>, i: int)
    requires
        0 <= i < s.len(),
    ensures
        join_pairs(s.take(i + 1), sep) == if i == 0 {
            s[0].0 + seq!['='] + s[0].1
        } else {
            join_pairs(s.take(i), sep) + sep + s[i].0 + seq!['='] + s[i].1
        },
{
    assert(s.take(i + 1).drop_last() =~= s.take(i));
    assert(s.take(i + 1).last() == s[i]);
    if i == 0 {
        assert(s.take(1)[0] == s[0]);
    }
}

} // verus!
