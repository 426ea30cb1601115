//! Decimal, an exact decimal number as parsed from text, and the parser for
//! decimal literals.
//!
//! Geometric file formats carry fractional coordinates as text.  The crate
//! keeps such a coordinate exactly as the sign, integer mantissa and decimal
//! exponent of the literal, and leaves any rounding to a binary format to
//! the caller.

use vstd::prelude::*;

verus! {

/// A decimal number: the value `mant * 10^exp`, negated when `neg` holds.
/// A literal with more significant digits than a `u64` mantissa can hold is
/// truncated, raising the exponent by one per dropped digit, as a binary
/// float parser would round.
#[derive(Clone, Copy, Debug, PartialEq, Eq, Structural)]
pub struct Decimal {
    pub neg: bool,
    pub mant: u64,
    pub exp: i32,
}

/// A point in 3D space with exact decimal coordinates, as read from a text
/// file.
#[derive(Clone, Copy, Debug, PartialEq, Eq, Structural)]
pub struct DecPoint3D {
    pub x: Decimal,
    pub y: Decimal,
    pub z: Decimal,
}

/// Whether `c` is an ASCII digit.
pub open spec fn is_digit(c: u8) -> bool {
    48 <= c <= 57
}

/// The first position at or after `i` where `s` has no digit.
pub open spec fn digits_end(s: Seq<u8>, i: int) -> int
    decreases s.len() - i,
{
    if 0 <= i < s.len() && is_digit(s[i]) {
        digits_end(s, i + 1)
    } else {
        i
    }
}

/// The largest mantissa that can still take one more digit without leaving
/// `u64`.
pub open spec fn mant_limit() -> u64 {
    0x1999_9999_9999_9998
}

/// Folds the digits `s[i..end]` into a mantissa and an exponent adjustment,
/// starting from `m` and `adj`.  A digit that no longer fits the mantissa
/// is dropped; a dropped digit before the decimal point raises the exponent,
/// a kept digit after the decimal point (`in_frac`) lowers it.
pub open spec fn mant_fold(s: Seq<u8>, i: int, end: int, m: u64, adj: int, in_frac: bool) -> (
    u64,
    int,
)
    decreases end - i,
{
    if i < end {
        if m <= mant_limit() {
            let m2 = (10 * m + (s[i] - 48)) as u64;
            mant_fold(s, i + 1, end, m2, if in_frac { adj - 1 } else { adj }, in_frac)
        } else {
            mant_fold(s, i + 1, end, m, if in_frac { adj } else { adj + 1 }, in_frac)
        }
    } else {
        (m, adj)
    }
}

/// The cap of the exponent literal fold: growth stops here, far beyond any
/// exponent that still fits an `i32`.
pub open spec fn exp_limit() -> i64 {
    10_000_000_000
}

/// Folds the digits `s[i..end]` into the value of an exponent literal,
/// saturating at `exp_limit`.
pub open spec fn exp_fold(s: Seq<u8>, i: int, end: int, e: i64) -> i64
    decreases end - i,
{
    if i < end {
        if e >= exp_limit() {
            exp_fold(s, i + 1, end, e)
        } else {
            exp_fold(s, i + 1, end, (10 * e + (s[i] - 48)) as i64)
        }
    } else {
        e
    }
}

/// The decimal denoted by the whole of `s`, or `None` where `s` is not a
/// decimal literal or its exponent leaves `i32`.  The grammar is
/// `sign? digits` with an optional fraction (`.` digits, with at least one
/// digit on some side of the point) and an optional exponent
/// (`e`/`E` sign? digits).
pub open spec fn spec_parse_decimal(s: Seq<u8>) -> Option<Decimal> {
    let n = s.len() as int;
    if n == 0 {
        None
    } else {
        let neg = s[0] == 45;
        let i0: int = if s[0] == 45 || s[0] == 43 {
            1
        } else {
            0
        };
        let int_end = digits_end(s, i0);
        let has_dot = int_end < n && s[int_end] == 46;
        let frac_start: int = if has_dot {
            int_end + 1
        } else {
            int_end
        };
        let frac_end = if has_dot {
            digits_end(s, frac_start)
        } else {
            int_end
        };
        if int_end == i0 && frac_end == frac_start {
            None
        } else {
            let (m1, adj1) = mant_fold(s, i0, int_end, 0, 0, false);
            let (m2, adj2) = mant_fold(s, frac_start, frac_end, m1, adj1, true);
            if frac_end == n {
                if -0x8000_0000 <= adj2 <= 0x7fff_ffff {
                    Some(Decimal { neg, mant: m2, exp: adj2 as i32 })
                } else {
                    None
                }
            } else if s[frac_end] == 101 || s[frac_end] == 69 {
                let eneg = frac_end + 1 < n && s[frac_end + 1] == 45;
                let ei: int = if frac_end + 1 < n && (s[frac_end + 1] == 45 || s[frac_end + 1]
                    == 43) {
                    frac_end + 2
                } else {
                    frac_end + 1
                };
                if digits_end(s, ei) == n && ei < n {
                    let elit = exp_fold(s, ei, n, 0);
                    let total: int = if eneg {
                        adj2 - elit
                    } else {
                        adj2 + elit
                    };
                    if -0x8000_0000 <= total <= 0x7fff_ffff {
                        Some(Decimal { neg, mant: m2, exp: total as i32 })
                    } else {
                        None
                    }
                } else {
                    None
                }
            } else {
                None
            }
        }
    }
}

/// Scans the digits `s[i..]` for the mantissa: returns the position after
/// them and the mantissa and exponent adjustment folded from them.
fn scan_mantissa_digits(s: &[u8], i: usize, m: u64, adj: i128, in_frac: bool) -> (r: (
    usize,
    u64,
    i128,
))
    requires
        i <= s@.len(),
        adj - (s@.len() - i) > i128::MIN + 10,
        adj + (s@.len() - i) < i128::MAX - 10,
    ensures
        r.0 == digits_end(s@, i as int),
        i <= r.0 <= s@.len(),
        (r.1, r.2 as int) == mant_fold(s@, i as int, digits_end(s@, i as int), m, adj as int, in_frac),
        adj - (s@.len() - i) <= r.2 <= adj + (s@.len() - i),
    decreases s@.len() - i,
{
    if i < s.len() && 48 <= s[i] && s[i] <= 57 {
        if m <= 0x1999_9999_9999_9998u64 {
            let m2 = 10 * m + ((s[i] - 48) as u64);
            scan_mantissa_digits(s, i + 1, m2, if in_frac { adj - 1 } else { adj }, in_frac)
        } else {
            scan_mantissa_digits(s, i + 1, m, if in_frac { adj } else { adj + 1 }, in_frac)
        }
    } else {
        (i, m, adj)
    }
}

/// Scans the digits `s[i..]` of an exponent literal: returns the position
/// after them and their folded, saturated value.
fn scan_exponent_digits(s: &[u8], i: usize, e: i64) -> (r: (usize, i64))
    requires
        i <= s@.len(),
        0 <= e <= 11 * exp_limit(),
    ensures
        r.0 == digits_end(s@, i as int),
        i <= r.0 <= s@.len(),
        r.1 == exp_fold(s@, i as int, digits_end(s@, i as int), e),
        0 <= r.1 <= 11 * exp_limit(),
    decreases s@.len() - i,
{
    if i < s.len() && 48 <= s[i] && s[i] <= 57 {
        if e >= 10_000_000_000i64 {
            scan_exponent_digits(s, i + 1, e)
        } else {
            scan_exponent_digits(s, i + 1, 10 * e + ((s[i] - 48) as i64))
        }
    } else {
        (i, e)
    }
}

/// Parses the whole of `s` as a decimal literal.
pub fn parse_decimal(s: &[u8]) -> (r: Option<Decimal>)
    ensures
        r == spec_parse_decimal(s@),
{
    let n = s.len();
    if n == 0 {
        return None;
    }
    let neg = s[0] == 45;
    let i0: usize = if s[0] == 45 || s[0] == 43 {
        1
    } else {
        0
    };
    let (int_end, m1, adj1) = scan_mantissa_digits(s, i0, 0, 0, false);
    let has_dot = int_end < n && s[int_end] == 46;
    let frac_start = if has_dot {
        int_end + 1
    } else {
        int_end
    };
    let (frac_end, m2, adj2) = if has_dot {
        scan_mantissa_digits(s, frac_start, m1, adj1, true)
    } else {
        (int_end, m1, adj1)
    };
    if int_end == i0 && frac_end == frac_start {
        return None;
    }
    if frac_end == n {
        if -0x8000_0000i128 <= adj2 && adj2 <= 0x7fff_ffffi128 {
            return Some(Decimal { neg, mant: m2, exp: adj2 as i32 });
        } else {
            return None;
        }
    }
    if s[frac_end] == 101 || s[frac_end] == 69 {
        let eneg = frac_end + 1 < n && s[frac_end + 1] == 45;
        let ei: usize = if frac_end + 1 < n && (s[frac_end + 1] == 45 || s[frac_end + 1] == 43) {
            frac_end + 2
        } else {
            frac_end + 1
        };
        let (e_end, elit) = scan_exponent_digits(s, ei, 0);
        if e_end != n || ei == n {
            return None;
        }
        let total: i128 = if eneg {
            adj2 - (elit as i128)
        } else {
            adj2 + (elit as i128)
        };
        if -0x8000_0000i128 <= total && total <= 0x7fff_ffffi128 {
            return Some(Decimal { neg, mant: m2, exp: total as i32 });
        } else {
            return None;
        }
    }
    None
}

} // verus!
