//! Theme identifiers written as decimal text (the values of the theme picker's
//! options) and read back from it.
use vstd::prelude::*;

use crate::text::{chars_of, push_char};

verus! {

pub open spec fn is_digit(c: char) -> bool {
    '0' <= c <= '9'
}

pub open spec fn digit_value(c: char) -> int {
    c as int - '0' as int
}

/// The character of decimal digit `d`.
pub open spec fn digit_char(d: int) -> char
    recommends
        0 <= d < 10,
{
    (d + 48) as char
}

pub open spec fn all_digits(s: Seq<char>) -> bool {
    forall|i: int| 0 <= i < s.len() ==> is_digit(#[trigger] s[i])
}

/// The number that a string of decimal digits denotes.
pub open spec fn digits_value(s: Seq<char>) -> int
    decreases s.len(),
{
    if s.len() == 0 {
        0
    } else {
        digits_value(s.drop_last()) * 10 + digit_value(s.last())
    }
}

/// The decimal text of a natural number, without leading zeros.
pub open spec fn decimal_of_nat(n: nat) -> Seq<char>
    decreases n,
{
    if n < 10 {
        seq![digit_char(n as int)]
    } else {
        decimal_of_nat(n / 10).push(digit_char((n % 10) as int))
    }
}

/// The decimal text of an integer, with a leading `-` when it is negative
/// (what `i64::to_string` writes).
pub open spec fn decimal_of_int(i: int) -> Seq<char> {
    if i < 0 {
        seq!['-'] + decimal_of_nat((-i) as nat)
    } else {
        decimal_of_nat(i as nat)
    }
}

/// What `str::parse::<i64>` reads from `s`: an optional `+` or `-`, then one
/// or more decimal digits and nothing else, denoting a value in the range of `i64`.
pub open spec fn parse_decimal_i64(s: Seq<char>) -> Option<i64> {
    let negative = s.len() > 0 && s[0] == '-';
    let signed = s.len() > 0 && (s[0] == '-' || s[0] == '+');
    let digits = if signed {
        s.drop_first()
    } else {
        s
    };
    let value = if negative {
        -digits_value(digits)
    } else {
        digits_value(digits)
    };
    if digits.len() > 0 && all_digits(digits) && i64::MIN <= value <= i64::MAX {
        Some(value as i64)
    } else {
        None
    }
}

proof fn lemma_digit_char(d: int)
    requires
        0 <= d < 10,
    ensures
        is_digit(digit_char(d)),
        digit_value(digit_char(d)) == d,
{
    assert(0 <= d + 48 < 0xD800);
    assert((d + 48) as char as int == d + 48);
}

proof fn lemma_digits_value_nonneg(s: Seq<char>)
    requires
        all_digits(s),
    ensures
        digits_value(s) >= 0,
    decreases s.len(),
{
    if s.len() > 0 {
        assert(all_digits(s.drop_last())) by {
            assert forall|i: int| 0 <= i < s.drop_last().len() implies is_digit(#[trigger] s.drop_last()[i]) by {
                assert(s.drop_last()[i] == s[i]);
            }
        }
        lemma_digits_value_nonneg(s.drop_last());
        assert(is_digit(s[s.len() - 1]));
    }
}

/// A prefix of a digit string never denotes more than the whole string.
proof fn lemma_prefix_value_le(s: Seq<char>, k: int)
    requires
        all_digits(s),
        0 <= k <= s.len(),
    ensures
        digits_value(s.take(k)) <= digits_value(s),
    decreases s.len() - k,
{
    if k < s.len() {
        let t = s.take(k + 1);
        assert(all_digits(t)) by {
            assert forall|i: int| 0 <= i < t.len() implies is_digit(#[trigger] t[i]) by {
                assert(t[i] == s[i]);
            }
        }
        assert(t.drop_last() =~= s.take(k));
        assert(is_digit(t[k]));
        lemma_digits_value_nonneg(s.take(k));
        lemma_prefix_value_le(s, k + 1);
    } else {
        assert(s.take(k) =~= s);
    }
}

proof fn lemma_decimal_of_nat(n: nat)
    ensures
        decimal_of_nat(n).len() > 0,
        all_digits(decimal_of_nat(n)),
        digits_value(decimal_of_nat(n)) == n,
    decreases n,
{
    if n < 10 {
        lemma_digit_char(n as int);
        let s = decimal_of_nat(n);
        assert(s.drop_last() =~= Seq::<char>::empty());
        assert(digits_value(s.drop_last()) == 0);
    } else {
        lemma_decimal_of_nat(n / 10);
        lemma_digit_char((n % 10) as int);
        let s = decimal_of_nat(n);
        let p = decimal_of_nat(n / 10);
        assert(s.drop_last() =~= p);
        assert(s.last() == digit_char((n % 10) as int));
        assert(digits_value(s) == digits_value(p) * 10 + (n % 10));
        assert((n / 10) * 10 + n % 10 == n);
        assert forall|i: int| 0 <= i < s.len() implies is_digit(#[trigger] s[i]) by {
            if i < p.len() {
                assert(s[i] == p[i]);
            }
        }
    }
}

/// Reading back the decimal text of an identifier gives the identifier.
pub proof fn lemma_decimal_round_trip(n: i64)
    ensures
        parse_decimal_i64(decimal_of_int(n as int)) == Some(n),
{
    let s = decimal_of_int(n as int);
    if n < 0 {
        let m = (-(n as int)) as nat;
        lemma_decimal_of_nat(m);
        assert(s.drop_first() =~= decimal_of_nat(m));
    } else {
        lemma_decimal_of_nat(n as nat);
        let d = decimal_of_nat(n as nat);
        assert(is_digit(d[0]));
    }
}

fn digit_to_char(d: u64) -> (c: char)
    requires
        d < 10,
    ensures
        c == digit_char(d as int),
{
    let b: u8 = 48 + d as u8;
    b as char
}

fn push_decimal(s: &mut String, n: u64)
    ensures
        final(s)@ == old(s)@ + decimal_of_nat(n as nat),
    decreases n,
{
    if n >= 10 {
        push_decimal(s, n / 10);
    }
    let c = digit_to_char(n % 10);
    push_char(s, c);
    assert(s@ =~= old(s)@ + decimal_of_nat(n as nat));
}

/// The decimal text of a theme identifier (`i64::to_string`).
pub fn format_theme_id(id: i64) -> (s: String)
    ensures
        s@ == decimal_of_int(id as int),
{
    let mut s = String::new();
    let magnitude: u64 = if id < 0 {
        push_char(&mut s, '-');
        (-(id as i128)) as u64
    } else {
        id as u64
    };
    push_decimal(&mut s, magnitude);
    assert(s@ =~= decimal_of_int(id as int));
    s
}

/// Reads a theme identifier back from its decimal text (`str::parse::<i64>`).
pub fn parse_theme_id(text: &str) -> (r: Option<i64>)
    ensures
        r == parse_decimal_i64(text@),
{
    let v = chars_of(text);
    let n = v.len();
    let negative = n > 0 && v[0] == '-';
    let start: usize = if n > 0 && (v[0] == '-' || v[0] == '+') {
        1
    } else {
        0
    };
    let ghost digits = if start == 1 {
        v@.drop_first()
    } else {
        v@
    };
    assert(digits =~= v@.subrange(start as int, n as int));
    if start >= n {
        return None;
    }
    let bound: u128 = 9223372036854775808;
    let mut acc: u128 = 0;
    let mut i: usize = start;
    while i < n
        invariant
            start <= i <= n == v@.len(),
            v@ == text@,
            digits == v@.subrange(start as int, n as int),
            start <= 1,
            (start == 1) == (text@.len() > 0 && (text@[0] == '-' || text@[0] == '+')),
            digits == if start == 1 {
                v@.drop_first()
            } else {
                v@
            },
            all_digits(v@.subrange(start as int, i as int)),
            acc == digits_value(v@.subrange(start as int, i as int)),
            acc <= bound,
            bound == 9223372036854775808,
        decreases n - i,
    {
        let c = v[i];
        if !('0' <= c && c <= '9') {
            assert(digits[i - start] == c);
            assert(!all_digits(digits));
            return None;
        }
        let ghost prefix = v@.subrange(start as int, (i + 1) as int);
        assert(prefix.drop_last() =~= v@.subrange(start as int, i as int));
        assert(all_digits(prefix)) by {
            assert forall|j: int| 0 <= j < prefix.len() implies is_digit(#[trigger] prefix[j]) by {
                if j < prefix.len() - 1 {
                    assert(prefix[j] == v@.subrange(start as int, i as int)[j]);
                }
            }
        }
        acc = acc * 10 + (c as u32 - 48) as u128;
        if acc > bound {
            proof {
                if all_digits(digits) {
                    assert(digits.take((i + 1 - start) as int) =~= prefix);
                    lemma_prefix_value_le(digits, (i + 1 - start) as int);
                }
            }
            return None;
        }
        i += 1;
    }
    proof {
        assert(v@.subrange(start as int, i as int) =~= digits);
    }
    if negative {
        Some((0 - acc as i128) as i64)
    } else if acc <= 9223372036854775807 {
        Some(acc as i64)
    } else {
        None
    }
}

} // verus!
