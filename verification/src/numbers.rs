//! Base-10 parsing of signed 32-bit integers, used for the argument of
//! the `exit` builtin: an optional `+` or `-` sign followed by one or
//! more decimal digits, rejecting anything else and values out of
//! range.

use vstd::prelude::*;

verus! {

/// Whether `c` is a decimal digit.
pub open spec fn is_digit(c: char) -> bool {
    48 <= c as int && c as int <= 57
}

/// The numeric value of a decimal digit.
pub open spec fn digit_val(c: char) -> int {
    c as int - 48
}

/// Whether every character of `s` is a decimal digit.
pub open spec fn all_digits(s: Seq<char>) -> bool {
    forall|i: int| 0 <= i < s.len() ==> is_digit(s[i])
}

/// The value of a digit string read in base 10.
pub open spec fn dec_value(s: Seq<char>) -> int
    decreases s.len(),
{
    if s.len() == 0 {
        0
    } else {
        dec_value(s.drop_last()) * 10 + digit_val(s.last())
    }
}

/// The digits of `s`: everything after an optional leading sign.
pub open spec fn digits_of(s: Seq<char>) -> Seq<char> {
    if s.len() > 0 && (s[0] == '+' || s[0] == '-') {
        s.subrange(1, s.len() as int)
    } else {
        s
    }
}

/// The sign of `s`: -1 under a leading minus, 1 otherwise.
pub open spec fn sign_of(s: Seq<char>) -> int {
    if s.len() > 0 && s[0] == '-' {
        -1
    } else {
        1
    }
}

/// The value of `s` as a base-10 signed 32-bit integer, if it has the
/// shape of one: an optional sign, then at least one digit, with the
/// signed value in range.
pub open spec fn spec_parse_i32(s: Seq<char>) -> Option<int> {
    let v = sign_of(s) * dec_value(digits_of(s));
    if digits_of(s).len() > 0 && all_digits(digits_of(s)) && -0x8000_0000 <= v && v
        <= 0x7fff_ffff {
        Some(v)
    } else {
        None
    }
}

/// A digit string's value is never negative.
pub proof fn lemma_dec_value_nonneg(s: Seq<char>)
    requires
        all_digits(s),
    ensures
        dec_value(s) >= 0,
    decreases s.len(),
{
    if s.len() > 0 {
        lemma_dec_value_nonneg(s.drop_last());
    }
}

/// Extending a digit string never shrinks its value.
pub proof fn lemma_dec_value_prefix(s: Seq<char>, k: int)
    requires
        all_digits(s),
        0 <= k <= s.len(),
    ensures
        dec_value(s.subrange(0, k)) <= dec_value(s),
    decreases s.len(),
{
    if k < s.len() {
        let t = s.drop_last();
        assert(s.subrange(0, k) =~= t.subrange(0, k));
        lemma_dec_value_prefix(t, k);
        lemma_dec_value_nonneg(t);
    } else {
        assert(s.subrange(0, k) =~= s);
    }
}

/// The digit character for a value below ten.
pub open spec fn digit_char(d: int) -> char {
    if d == 0 {
        '0'
    } else if d == 1 {
        '1'
    } else if d == 2 {
        '2'
    } else if d == 3 {
        '3'
    } else if d == 4 {
        '4'
    } else if d == 5 {
        '5'
    } else if d == 6 {
        '6'
    } else if d == 7 {
        '7'
    } else {
        if d == 8 {
            '8'
        } else {
            '9'
        }
    }
}

/// The decimal digits of a non-negative integer, most significant
/// first.
pub open spec fn nat_repr(m: int) -> Seq<char>
    decreases m,
{
    if m < 10 {
        seq![digit_char(m)]
    } else {
        nat_repr(m / 10).push(digit_char(m % 10))
    }
}

/// The decimal rendering of an integer: a minus sign before the digits
/// of its magnitude when it is negative.
pub open spec fn dec_repr(n: int) -> Seq<char> {
    if n < 0 {
        seq!['-'] + nat_repr(-n)
    } else {
        nat_repr(n)
    }
}

/// The decimal digits of a non-negative integer are digits, start with
/// one, and read back as the integer itself.
pub proof fn lemma_nat_repr_value(m: int)
    requires
        0 <= m,
    ensures
        all_digits(nat_repr(m)),
        nat_repr(m).len() > 0,
        dec_value(nat_repr(m)) == m,
    decreases m,
{
    if m < 10 {
        let s = nat_repr(m);
        assert(s.drop_last() =~= Seq::<char>::empty());
        assert(dec_value(Seq::<char>::empty()) == 0);
        assert(s.last() == digit_char(m));
        assert(dec_value(s) == digit_val(digit_char(m)));
    } else {
        vstd::arithmetic::div_mod::lemma_fundamental_div_mod(m, 10);
        vstd::arithmetic::div_mod::lemma_remainder_upper(m, 10);
        vstd::arithmetic::div_mod::lemma_remainder_lower(m, 10);
        vstd::arithmetic::div_mod::lemma_div_pos_is_pos(m, 10);
        lemma_nat_repr_value(m / 10);
        let t = nat_repr(m / 10);
        let s = nat_repr(m);
        assert(s.drop_last() =~= t);
        assert(dec_value(s) == dec_value(t) * 10 + digit_val(digit_char(m % 10)));
    }
}

/// Every value of a 32-bit integer, rendered in decimal, parses back
/// as exactly that value.
pub proof fn lemma_dec_repr_parses(n: int)
    requires
        -0x8000_0000 <= n <= 0x7fff_ffff,
    ensures
        spec_parse_i32(dec_repr(n)) == Some(n),
{
    if n < 0 {
        lemma_nat_repr_value(-n);
        let s = dec_repr(n);
        assert(s[0] == '-');
        assert(digits_of(s) =~= nat_repr(-n));
        assert(sign_of(s) == -1);
    } else {
        lemma_nat_repr_value(n);
        let s = dec_repr(n);
        assert(is_digit(s[0]));
        assert(s[0] != '+' && s[0] != '-');
        assert(digits_of(s) == s);
        assert(sign_of(s) == 1);
    }
}

/// Parses `s` as a base-10 signed 32-bit integer. Returns `None` when
/// `s` is empty, is a bare sign, holds a non-digit after the sign, or
/// names a value outside the 32-bit range.
pub fn parse_i32(s: &str) -> (r: Option<i32>)
    ensures
        r is Some <==> spec_parse_i32(s@) is Some,
        r matches Some(v) ==> spec_parse_i32(s@) == Some(v as int),
{
    let n: usize = s.unicode_len();
    if n == 0 {
        return None;
    }
    let c0 = s.get_char(0);
    let neg = c0 == '-';
    let start: usize = if c0 == '-' || c0 == '+' {
        1
    } else {
        0
    };
    let ghost digits = digits_of(s@);
    proof {
        assert(digits =~= s@.subrange(start as int, n as int));
    }
    if start == n {
        return None;
    }
    let bound: u64 = if neg {
        2147483648
    } else {
        2147483647
    };
    let mut acc: u64 = 0;
    let mut i: usize = start;
    proof {
        assert(digits.subrange(0, 0) =~= Seq::<char>::empty());
    }
    while i < n
        invariant
            start <= i <= n,
            n == s@.len(),
            start == 1 ==> (s@[0] == '+' || s@[0] == '-'),
            neg <==> (s@.len() > 0 && s@[0] == '-'),
            digits == digits_of(s@),
            digits == s@.subrange(start as int, n as int),
            bound == (if neg { 2147483648u64 } else { 2147483647u64 }),
            all_digits(digits.subrange(0, i - start)),
            acc as int == dec_value(digits.subrange(0, i - start)),
            acc <= bound,
        decreases n - i,
    {
        let c = s.get_char(i);
        let u = c as u32;
        proof {
            assert(digits[i - start] == s@[i as int]);
        }
        if u < 48 || u > 57 {
            proof {
                assert(!is_digit(digits[i - start]));
            }
            return None;
        }
        let d = (u - 48) as u64;
        let next = acc * 10 + d;
        proof {
            let pref = digits.subrange(0, i - start + 1);
            assert(pref.drop_last() =~= digits.subrange(0, i - start));
            assert(pref.last() == digits[i - start]);
            assert(dec_value(pref) == next as int);
            assert(all_digits(pref));
        }
        if next > bound {
            proof {
                if all_digits(digits) {
                    lemma_dec_value_prefix(digits, i - start + 1);
                }
            }
            return None;
        }
        acc = next;
        i += 1;
    }
    proof {
        assert(digits.subrange(0, n - start) =~= digits);
    }
    if neg {
        if acc == 2147483648 {
            Some(i32::MIN)
        } else {
            Some(-(acc as i32))
        }
    } else {
        Some(acc as i32)
    }
}

} // verus!
