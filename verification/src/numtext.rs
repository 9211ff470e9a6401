//! Decimal text for the numeric columns of a row.
//!
//! Every integer column of the output schema is written as canonical decimal
//! text (no sign for naturals, a leading '-' for negative integers, no
//! leading zeroes), and parsed back when a row is read again.

use vstd::prelude::*;

verus! {

/// The decimal digit character for a value below ten.
pub open spec fn digit_char(d: nat) -> char
    recommends
        d < 10,
{
    if d == 0 {
        '0'
    } else if d == 1 {
        '1'
    } else if d == 2 {
        '2'
    } else if d == 3 {
        '3'
    } else if d == 4 {
        '4'
    } else if d == 5 {
        '5'
    } else if d == 6 {
        '6'
    } else if d == 7 {
        '7'
    } else if d == 8 {
        '8'
    } else {
        '9'
    }
}

/// The canonical decimal representation of a natural number:
/// most significant digit first, no leading zeroes, a single '0' for zero.
pub open spec fn dec_rep(n: nat) -> Seq<char>
    decreases n,
{
    if n < 10 {
        seq![digit_char(n)]
    } else {
        dec_rep(n / 10).push(digit_char(n % 10))
    }
}

/// The canonical decimal representation of an integer: the magnitude's
/// representation, with a '-' sign in front for negative values.
pub open spec fn dec_rep_int(n: int) -> Seq<char> {
    if n < 0 {
        seq!['-'] + dec_rep((-n) as nat)
    } else {
        dec_rep(n as nat)
    }
}

pub open spec fn is_digit(c: char) -> bool {
    48 <= c as u32 <= 57
}

pub open spec fn digit_val(c: char) -> nat
    recommends
        is_digit(c),
{
    (c as u32 - 48) as nat
}

pub open spec fn all_digits(s: Seq<char>) -> bool {
    forall|i: int| 0 <= i < s.len() ==> is_digit(#[trigger] s[i])
}

/// The numeric value of a digit string, most significant digit first.
pub open spec fn val_of(s: Seq<char>) -> nat
    decreases s.len(),
{
    if s.len() == 0 {
        0
    } else {
        val_of(s.drop_last()) * 10 + digit_val(s.last())
    }
}

pub open spec fn pow10(k: nat) -> nat
    decreases k,
{
    if k == 0 {
        1
    } else {
        10 * pow10((k - 1) as nat)
    }
}

pub proof fn lemma_pow10_le(a: nat, b: nat)
    requires
        a <= b,
    ensures
        pow10(a) <= pow10(b),
        pow10(a) >= 1,
    decreases b,
{
    if b > 0 {
        if a == b {
            lemma_pow10_le((a - 1) as nat, (b - 1) as nat);
        } else {
            lemma_pow10_le(a, (b - 1) as nat);
        }
    }
}

pub proof fn lemma_pow10_20()
    ensures
        pow10(20) == 100_000_000_000_000_000_000,
{
    reveal_with_fuel(pow10, 21);
}

/// A canonical representation is a non-empty string of digits.
pub proof fn lemma_dec_rep_wf(n: nat)
    ensures
        dec_rep(n).len() >= 1,
        all_digits(dec_rep(n)),
    decreases n,
{
    if n < 10 {
        assert(is_digit(dec_rep(n)[0]));
    } else {
        lemma_dec_rep_wf(n / 10);
        let s = dec_rep(n / 10);
        let c = digit_char(n % 10);
        assert(is_digit(c));
        assert forall|i: int| 0 <= i < s.push(c).len() implies is_digit(#[trigger] s.push(c)[i]) by {
            if i < s.len() {
                assert(s.push(c)[i] == s[i]);
            } else {
                assert(s.push(c)[i] == c);
            }
        }
    }
}

/// Parsing the canonical representation gives the number back.
pub proof fn lemma_dec_rep_val(n: nat)
    ensures
        val_of(dec_rep(n)) == n,
    decreases n,
{
    if n < 10 {
        let s = dec_rep(n);
        assert(s.drop_last() =~= Seq::<char>::empty());
        assert(val_of(s.drop_last()) == 0);
        assert(digit_val(s.last()) == n);
        assert(val_of(s) == val_of(s.drop_last()) * 10 + digit_val(s.last()));
    } else {
        lemma_dec_rep_val(n / 10);
        let s = dec_rep(n);
        assert(s.drop_last() =~= dec_rep(n / 10));
        assert(digit_val(s.last()) == n % 10);
    }
}

/// The value of a digit string is bounded by a power of ten of its length.
pub proof fn lemma_val_bound(s: Seq<char>)
    requires
        all_digits(s),
    ensures
        val_of(s) < pow10(s.len()),
    decreases s.len(),
{
    if s.len() == 0 {
    } else {
        assert(all_digits(s.drop_last())) by {
            assert(forall|i: int| 0 <= i < s.drop_last().len() ==> s.drop_last()[i] == s[i]);
        }
        lemma_val_bound(s.drop_last());
        assert(is_digit(s.last()));
        assert(digit_val(s.last()) <= 9);
    }
}

/// The canonical representation of a number below `pow10(k)` has at most `k` digits.
pub proof fn lemma_dec_rep_len(n: nat, k: nat)
    requires
        n < pow10(k),
        k >= 1,
    ensures
        dec_rep(n).len() <= k,
    decreases k,
{
    if n < 10 {
    } else {
        if k == 1 {
            assert(false);
        } else {
            assert(n / 10 < pow10((k - 1) as nat)) by {
                assert(pow10(k) == 10 * pow10((k - 1) as nat));
            }
            lemma_dec_rep_len(n / 10, (k - 1) as nat);
        }
    }
}

/// What a numeric token of a row satisfies when it can be read back as a `u64`.
pub open spec fn parseable_u64(s: Seq<char>) -> bool {
    &&& 1 <= s.len() <= 20
    &&& all_digits(s)
    &&& val_of(s) <= u64::MAX
}

pub open spec fn parseable_i64(s: Seq<char>) -> bool {
    if s.len() >= 1 && s[0] == '-' {
        let m = s.subrange(1, s.len() as int);
        parseable_u64(m) && val_of(m) <= 0x8000_0000_0000_0000
    } else {
        parseable_u64(s) && val_of(s) <= i64::MAX
    }
}

pub open spec fn i64_val(s: Seq<char>) -> int {
    if s.len() >= 1 && s[0] == '-' {
        -(val_of(s.subrange(1, s.len() as int)) as int)
    } else {
        val_of(s) as int
    }
}

fn digit_str(d: u64) -> (s: &'static str)
    requires
        d < 10,
    ensures
        s@ =~= seq![digit_char(d as nat)],
{
    proof {
        reveal_strlit("0");
        reveal_strlit("1");
        reveal_strlit("2");
        reveal_strlit("3");
        reveal_strlit("4");
        reveal_strlit("5");
        reveal_strlit("6");
        reveal_strlit("7");
        reveal_strlit("8");
        reveal_strlit("9");
    }
    if d == 0 {
        "0"
    } else if d == 1 {
        "1"
    } else if d == 2 {
        "2"
    } else if d == 3 {
        "3"
    } else if d == 4 {
        "4"
    } else if d == 5 {
        "5"
    } else if d == 6 {
        "6"
    } else if d == 7 {
        "7"
    } else if d == 8 {
        "8"
    } else {
        "9"
    }
}

/// Canonical decimal text of a `u64`.
pub fn u64_to_dec(n: u64) -> (s: String)
    ensures
        s@ == dec_rep(n as nat),
    decreases n,
{
    if n < 10 {
        let s = String::from_str(digit_str(n));
        proof {
            assert(s@ =~= dec_rep(n as nat));
        }
        s
    } else {
        let mut s = u64_to_dec(n / 10);
        s.append(digit_str(n % 10));
        proof {
            assert(s@ =~= dec_rep(n as nat));
        }
        s
    }
}

/// Canonical decimal text of an `i64`.
pub fn i64_to_dec(n: i64) -> (s: String)
    ensures
        s@ == dec_rep_int(n as int),
{
    if n >= 0 {
        let s = u64_to_dec(n as u64);
        s
    } else {
        let m: u64 = (-(n as i128)) as u64;
        let mut s = String::from_str("-");
        let tail = u64_to_dec(m);
        s.append(tail.as_str());
        proof {
            reveal_strlit("-");
            assert(s@ =~= dec_rep_int(n as int));
        }
        s
    }
}

/// Reads canonical (or zero-padded) decimal text back as a `u64`.
pub fn dec_to_u64(s: &str) -> (r: Option<u64>)
    ensures
        parseable_u64(s@) ==> r == Some((val_of(s@) as u64)),
        !parseable_u64(s@) ==> r is None,
{
    let n = s.unicode_len();
    if n == 0 || n > 20 {
        return None;
    }
    let mut acc: u128 = 0;
    let mut i: usize = 0;
    while i < n
        invariant
            0 <= i <= n,
            n == s@.len(),
            n <= 20,
            all_digits(s@.take(i as int)),
            acc == val_of(s@.take(i as int)),
            acc < pow10(i as nat),
        decreases n - i,
    {
        let c = s.get_char(i);
        let cu = c as u32;
        if cu < 48 || cu > 57 {
            proof {
                assert(!is_digit(s@[i as int]));
            }
            return None;
        }
        proof {
            let t1 = s@.take(i as int + 1);
            assert(t1.drop_last() =~= s@.take(i as int));
            assert(t1.last() == s@[i as int]);
            assert(all_digits(t1)) by {
                assert(forall|j: int| 0 <= j < i ==> t1[j] == s@.take(i as int)[j]);
            }
            lemma_val_bound(t1);
            lemma_pow10_le((i + 1) as nat, 20);
            lemma_pow10_20();
        }
        acc = acc * 10 + ((cu - 48) as u128);
        i += 1;
    }
    proof {
        assert(s@.take(n as int) =~= s@);
    }
    if acc > u64::MAX as u128 {
        None
    } else {
        Some(acc as u64)
    }
}

/// Reads decimal text, with an optional leading '-', back as an `i64`.
pub fn dec_to_i64(s: &str) -> (r: Option<i64>)
    ensures
        parseable_i64(s@) ==> r == Some(i64_val(s@) as i64),
        !parseable_i64(s@) ==> r is None,
{
    let n = s.unicode_len();
    if n == 0 {
        return None;
    }
    let c0 = s.get_char(0);
    if c0 == '-' {
        let rest = s.substring_char(1, n);
        proof {
            assert(rest@ =~= s@.subrange(1, s@.len() as int));
        }
        match dec_to_u64(rest) {
            None => None,
            Some(m) => {
                if m > 0x8000_0000_0000_0000u64 {
                    None
                } else {
                    Some((-(m as i128)) as i64)
                }
            },
        }
    } else {
        match dec_to_u64(s) {
            None => None,
            Some(m) => {
                if m > i64::MAX as u64 {
                    None
                } else {
                    Some(m as i64)
                }
            },
        }
    }
}

/// The canonical text of a `u64` reads back as the same number.
pub proof fn lemma_u64_round_trip(n: u64)
    ensures
        parseable_u64(dec_rep(n as nat)),
        val_of(dec_rep(n as nat)) == n as nat,
{
    lemma_dec_rep_wf(n as nat);
    lemma_dec_rep_val(n as nat);
    lemma_pow10_20();
    lemma_dec_rep_len(n as nat, 20);
}

/// The canonical text of an `i64` reads back as the same number.
pub proof fn lemma_i64_round_trip(n: i64)
    ensures
        parseable_i64(dec_rep_int(n as int)),
        i64_val(dec_rep_int(n as int)) == n as int,
{
    if n >= 0 {
        lemma_u64_round_trip(n as u64);
        assert(dec_rep_int(n as int) == dec_rep(n as nat));
        lemma_dec_rep_wf(n as nat);
        assert(is_digit(dec_rep(n as nat)[0]));
        assert(dec_rep(n as nat)[0] != '-');
    } else {
        let m = (-(n as int)) as nat;
        lemma_dec_rep_wf(m);
        lemma_dec_rep_val(m);
        lemma_pow10_20();
        lemma_dec_rep_len(m, 20);
        let s = dec_rep_int(n as int);
        assert(s[0] == '-');
        assert(s.subrange(1, s.len() as int) =~= dec_rep(m));
    }
}

} // verus!
