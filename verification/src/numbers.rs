//! Numeric and boolean text forms used throughout pack descriptors:
//! unsigned numbers written in hexadecimal (`0x` prefix), octal (leading
//! zero) or decimal, and booleans written as `true`/`1`/`false`/`0`.

use vstd::prelude::*;

verus! {

/// The numeric value of one digit character, or 16 for a non-digit.
pub open spec fn digit_val(c: char) -> nat {
    if '0' <= c && c <= '9' {
        ((c as int) - ('0' as int)) as nat
    } else if 'a' <= c && c <= 'f' {
        ((c as int) - ('a' as int) + 10) as nat
    } else if 'A' <= c && c <= 'F' {
        ((c as int) - ('A' as int) + 10) as nat
    } else {
        16
    }
}

pub open spec fn is_digit(c: char, base: nat) -> bool {
    digit_val(c) < base
}

pub open spec fn all_digits(s: Seq<char>, base: nat) -> bool {
    forall|i: int| 0 <= i < s.len() ==> is_digit(#[trigger] s[i], base)
}

/// The value of a digit string read most-significant first.
pub open spec fn digits_val(s: Seq<char>, base: nat) -> nat
    decreases s.len(),
{
    if s.len() == 0 {
        0
    } else {
        digits_val(s.drop_last(), base) * base + digit_val(s.last())
    }
}

/// What parsing a whole digit string in the given base returns: the value,
/// or nothing when the string is empty, holds a non-digit, or does not fit
/// in 64 bits.
pub open spec fn spec_parse_radix(s: Seq<char>, base: nat) -> Option<u64> {
    if s.len() == 0 || !all_digits(s, base) || digits_val(s, base) > u64::MAX {
        None
    } else {
        Some(digits_val(s, base) as u64)
    }
}

/// What parsing a number with automatic base detection returns: `0x` means
/// hexadecimal, another leading zero followed by more digits means octal,
/// anything else decimal.
pub open spec fn spec_parse_number(s: Seq<char>) -> Option<u64> {
    if s.len() >= 2 && s[0] == '0' && s[1] == 'x' {
        spec_parse_radix(s.subrange(2, s.len() as int), 16)
    } else if s.len() >= 2 && s[0] == '0' {
        spec_parse_radix(s.subrange(1, s.len() as int), 8)
    } else {
        spec_parse_radix(s, 10)
    }
}

proof fn lemma_digits_val_step(s: Seq<char>, i: int, base: nat)
    requires
        0 <= i < s.len(),
    ensures
        digits_val(s.subrange(0, i + 1), base) == digits_val(s.subrange(0, i), base) * base
            + digit_val(s[i]),
{
    let t = s.subrange(0, i + 1);
    assert(t.drop_last() =~= s.subrange(0, i));
    assert(t.last() == s[i]);
}

/// A digit character in the given base, or a flag that it is none.
fn digit_of(c: char, base: u64) -> (r: Option<u64>)
    requires
        base == 8 || base == 10 || base == 16,
    ensures
        match r {
            Some(v) => is_digit(c, base as nat) && v == digit_val(c),
            None => !is_digit(c, base as nat),
        },
{
    let v: u32 = c as u32;
    if c >= '0' && c <= '9' {
        let d: u64 = (v - 48) as u64;
        if d < base {
            Some(d)
        } else {
            None
        }
    } else if base == 16 && c >= 'a' && c <= 'f' {
        Some((v - 97) as u64 + 10)
    } else if base == 16 && c >= 'A' && c <= 'F' {
        Some((v - 65) as u64 + 10)
    } else {
        None
    }
}

/// Parses a digit string in one base, failing on an empty string, a
/// non-digit, or a value that does not fit in 64 bits.
pub fn parse_radix(s: &str, base: u64) -> (r: Option<u64>)
    requires
        base == 8 || base == 10 || base == 16,
    ensures
        r == spec_parse_radix(s@, base as nat),
{
    let len = s.unicode_len();
    if len == 0 {
        return None;
    }
    let mut acc: u64 = 0;
    let mut i: usize = 0;
    while i < len
        invariant
            0 < len == s@.len(),
            0 <= i <= len,
            base == 8 || base == 10 || base == 16,
            all_digits(s@.subrange(0, i as int), base as nat),
            acc == digits_val(s@.subrange(0, i as int), base as nat),
        decreases len - i,
    {
        let c = s.get_char(i);
        proof {
            lemma_digits_val_step(s@, i as int, base as nat);
        }
        match digit_of(c, base) {
            None => {
                assert(!is_digit(s@[i as int], base as nat));
                return None;
            },
            Some(d) => {
                let shifted = match acc.checked_mul(base) {
                    Some(x) => x,
                    None => {
                        proof {
                            lemma_digits_val_grows(s@, i as int + 1, base as nat);
                        }
                        return None;
                    },
                };
                acc = match shifted.checked_add(d) {
                    Some(x) => x,
                    None => {
                        proof {
                            lemma_digits_val_grows(s@, i as int + 1, base as nat);
                        }
                        return None;
                    },
                };
            },
        }
        i = i + 1;
        assert(s@.subrange(0, i - 1 as int) =~= s@.subrange(0, i as int).subrange(
            0,
            i - 1 as int,
        ));
        assert(forall|j: int| 0 <= j < i ==> is_digit(#[trigger] s@.subrange(0, i as int)[j],
            base as nat));
    }
    assert(s@.subrange(0, len as int) =~= s@);
    Some(acc)
}

/// The value of every longer digit prefix is at least the value of the
/// shorter one, so an overflow while scanning rules the whole string out.
proof fn lemma_digits_val_grows(s: Seq<char>, i: int, base: nat)
    requires
        0 <= i <= s.len(),
        base >= 1,
    ensures
        digits_val(s, base) >= digits_val(s.subrange(0, i), base),
    decreases s.len() - i,
{
    if i < s.len() {
        lemma_digits_val_step(s, i, base);
        let v = digits_val(s.subrange(0, i), base);
        assert(v * base >= v) by (nonlinear_arith)
            requires
                base >= 1,
                v >= 0,
        ;
        lemma_digits_val_grows(s, i + 1, base);
    } else {
        assert(s.subrange(0, i) =~= s);
    }
}

/// Parses a number with automatic base detection: `0x` prefix for
/// hexadecimal, a further leading zero for octal, decimal otherwise.
pub fn parse_number(s: &str) -> (r: Option<u64>)
    ensures
        r == spec_parse_number(s@),
{
    let len = s.unicode_len();
    if len >= 2 && s.get_char(0) == '0' && s.get_char(1) == 'x' {
        parse_radix(s.substring_char(2, len), 16)
    } else if len >= 2 && s.get_char(0) == '0' {
        parse_radix(s.substring_char(1, len), 8)
    } else {
        parse_radix(s, 10)
    }
}

/// What parsing a descriptor boolean returns: `true` and `1` are true,
/// `false` and `0` are false, everything else is rejected.
pub open spec fn spec_parse_bool(s: Seq<char>) -> Option<bool> {
    if s == "true"@ || s == "1"@ {
        Some(true)
    } else if s == "false"@ || s == "0"@ {
        Some(false)
    } else {
        None
    }
}

/// Compares two string slices by their characters.
pub fn str_eq(a: &str, b: &str) -> (r: bool)
    ensures
        r == (a@ == b@),
{
    let x = a.to_owned();
    let y = b.to_owned();
    x == y
}

/// Parses a descriptor boolean.
pub fn parse_bool(s: &str) -> (r: Option<bool>)
    ensures
        r == spec_parse_bool(s@),
{
    if str_eq(s, "true") || str_eq(s, "1") {
        Some(true)
    } else if str_eq(s, "false") || str_eq(s, "0") {
        Some(false)
    } else {
        None
    }
}

} // verus!
