//! The decimal form of offer identifiers.
//!
//! An offer is addressed by the base-ten rendering of its numeric id, with
//! no sign, no padding and no leading zeros.
use vstd::prelude::*;

verus! {

/// The character of a decimal digit.
pub open spec fn digit_char(d: nat) -> char
    recommends
        d < 10,
{
    ((d + 48) as u32) as char
}

/// Whether a character is an ASCII decimal digit.
pub open spec fn is_digit(c: char) -> bool {
    '0' <= c <= '9'
}

/// The value of an ASCII decimal digit.
pub open spec fn digit_value(c: char) -> nat {
    (c as u32 - 48) as nat
}

/// The canonical decimal rendering of `n`.
pub open spec fn dec(n: nat) -> Seq<char>
    decreases n,
{
    if n < 10 {
        seq![digit_char(n)]
    } else {
        dec(n / 10).push(digit_char(n % 10))
    }
}

/// The number that a string of digits denotes, most significant first.
pub open spec fn digits_value(s: Seq<char>) -> nat
    decreases s.len(),
{
    if s.len() == 0 {
        0
    } else {
        digits_value(s.drop_last()) * 10 + digit_value(s.last())
    }
}

/// A non-empty string of digits without a leading zero (but `"0"` itself).
pub open spec fn is_canonical(s: Seq<char>) -> bool {
    &&& s.len() >= 1
    &&& forall|i: int| 0 <= i < s.len() ==> is_digit(#[trigger] s[i])
    &&& s.len() > 1 ==> s[0] != '0'
}

/// Every rendering is canonical and denotes the number it renders.
pub proof fn lemma_dec_canonical(n: nat)
    ensures
        is_canonical(dec(n)),
        digits_value(dec(n)) == n,
        n > 0 ==> dec(n)[0] != '0',
    decreases n,
{
    if n < 10 {
        assert(dec(n).drop_last() =~= Seq::<char>::empty());
        assert(digits_value(dec(n).drop_last()) == 0);
    } else {
        lemma_dec_canonical(n / 10);
        let d = dec(n);
        assert(d.drop_last() == dec(n / 10));
        assert(digit_value(d.last()) == n % 10);
        assert(n == (n / 10) * 10 + n % 10);
    }
}

proof fn lemma_leading_nonzero_positive(s: Seq<char>)
    requires
        s.len() >= 1,
        forall|i: int| 0 <= i < s.len() ==> is_digit(#[trigger] s[i]),
        s[0] != '0',
    ensures
        digits_value(s) > 0,
    decreases s.len(),
{
    if s.len() > 1 {
        let p = s.drop_last();
        assert(p[0] == s[0]);
        assert forall|i: int| 0 <= i < p.len() implies is_digit(#[trigger] p[i]) by {
            assert(p[i] == s[i]);
        }
        lemma_leading_nonzero_positive(p);
    }
}

/// A canonical string is the rendering of the number it denotes.
pub proof fn lemma_canonical_is_dec(s: Seq<char>)
    requires
        is_canonical(s),
    ensures
        dec(digits_value(s)) == s,
    decreases s.len(),
{
    let v = digits_value(s);
    assert(is_digit(s.last()));
    if s.len() == 1 {
        assert(s.drop_last() =~= Seq::<char>::empty());
        assert(digits_value(s.drop_last()) == 0);
        assert(v == digit_value(s[0]));
        assert(digit_char(v) == s[0]);
        assert(dec(v) =~= s);
    } else {
        let p = s.drop_last();
        assert(p[0] == s[0]);
        assert forall|i: int| 0 <= i < p.len() implies is_digit(#[trigger] p[i]) by {
            assert(p[i] == s[i]);
        }
        lemma_leading_nonzero_positive(p);
        lemma_canonical_is_dec(p);
        let d = digit_value(s.last());
        let pv = digits_value(p);
        assert(v == pv * 10 + d);
        assert(v / 10 == pv && v % 10 == d) by (nonlinear_arith)
            requires
                v == pv * 10 + d,
                d < 10,
        ;
        assert(dec(v) =~= s);
    }
}

/// Two numbers with the same rendering are equal.
pub proof fn lemma_dec_injective(a: nat, b: nat)
    requires
        dec(a) == dec(b),
    ensures
        a == b,
{
    lemma_dec_canonical(a);
    lemma_dec_canonical(b);
}

fn digit_str(d: u64) -> (r: &'static str)
    requires
        d < 10,
    ensures
        r@ == seq![digit_char(d as nat)],
{
    if d == 0 {
        proof { reveal_strlit("0"); }
        "0"
    } else if d == 1 {
        proof { reveal_strlit("1"); }
        "1"
    } else if d == 2 {
        proof { reveal_strlit("2"); }
        "2"
    } else if d == 3 {
        proof { reveal_strlit("3"); }
        "3"
    } else if d == 4 {
        proof { reveal_strlit("4"); }
        "4"
    } else if d == 5 {
        proof { reveal_strlit("5"); }
        "5"
    } else if d == 6 {
        proof { reveal_strlit("6"); }
        "6"
    } else if d == 7 {
        proof { reveal_strlit("7"); }
        "7"
    } else if d == 8 {
        proof { reveal_strlit("8"); }
        "8"
    } else {
        proof { reveal_strlit("9"); }
        "9"
    }
}

/// Renders `n` in decimal.
pub fn decimal_string(n: u64) -> (r: String)
    ensures
        r@ == dec(n as nat),
    decreases n,
{
    if n < 10 {
        let mut s = String::new();
        s.append(digit_str(n));
        assert(s@ =~= dec(n as nat));
        s
    } else {
        let mut s = decimal_string(n / 10);
        s.append(digit_str(n % 10));
        assert(s@ =~= dec(n as nat));
        s
    }
}

/// The `u64` whose rendering is `s`, if there is one.
pub open spec fn parse_id(s: Seq<char>) -> Option<u64> {
    if exists|n: u64| dec(n as nat) == s {
        Some(choose|n: u64| dec(n as nat) == s)
    } else {
        None
    }
}

/// Reads the number whose decimal rendering is `s`: `None` when `s` is the
/// rendering of no `u64` (empty, a non-digit, a leading zero, or too large).
pub fn parse_decimal(s: &str) -> (r: Option<u64>)
    ensures
        forall|n: u64| #[trigger] dec(n as nat) == s@ <==> r == Some(n),
        r == parse_id(s@),
{
    let len = s.unicode_len();
    if len == 0 {
        proof { lemma_no_rendering(s@); }
        return None;
    }
    if len > 1 && s.get_char(0) == '0' {
        proof { lemma_no_rendering(s@); }
        return None;
    }
    let mut v: u64 = 0;
    let mut i: usize = 0;
    while i < len
        invariant
            len == s@.len(),
            i <= len,
            v as nat == digits_value(s@.take(i as int)),
            forall|j: int| 0 <= j < i ==> is_digit(#[trigger] s@[j]),
        decreases len - i,
    {
        let c = s.get_char(i);
        if !('0' <= c && c <= '9') {
            proof { lemma_no_rendering(s@); }
            return None;
        }
        let d = (c as u32 - 48) as u64;
        if v > (u64::MAX - d) / 10 {
            proof {
                assert(v * 10 + d > u64::MAX) by (nonlinear_arith)
                    requires
                        v > (u64::MAX - d) / 10,
                        d <= u64::MAX,
                ;
                lemma_prefix_value_bounded(s@, (i + 1) as int);
                assert(s@.take(i + 1).drop_last() =~= s@.take(i as int));
                lemma_no_rendering(s@);
            }
            return None;
        }
        proof {
            assert(s@.take(i + 1).drop_last() =~= s@.take(i as int));
        }
        v = v * 10 + d;
        i = i + 1;
    }
    proof {
        assert(s@.take(len as int) =~= s@);
        lemma_canonical_is_dec(s@);
        assert forall|n: u64| #[trigger] dec(n as nat) == s@ implies n == v by {
            lemma_dec_injective(n as nat, v as nat);
        }
        assert(dec(v as nat) == s@);
    }
    Some(v)
}

/// A digit string denotes at least what any of its prefixes denotes.
proof fn lemma_prefix_value_bounded(s: Seq<char>, k: int)
    requires
        0 <= k <= s.len(),
    ensures
        digits_value(s.take(k)) <= digits_value(s),
    decreases s.len() - k,
{
    if k < s.len() {
        lemma_prefix_value_bounded(s, k + 1);
        assert(s.take(k + 1).drop_last() =~= s.take(k));
    } else {
        assert(s.take(k) =~= s);
    }
}

/// Stated for a string that is not the rendering of any `u64`: non-canonical,
/// or denoting a number too large.
proof fn lemma_no_rendering(s: Seq<char>)
    requires
        !is_canonical(s) || digits_value(s) > u64::MAX,
    ensures
        forall|n: u64| #[trigger] dec(n as nat) != s,
{
    assert forall|n: u64| #[trigger] dec(n as nat) != s by {
        lemma_dec_canonical(n as nat);
    }
}

} // verus!
