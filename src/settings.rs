//! Sampling settings given as text (how many samples per pixel, how many
//! bounces at most), each with a default that applies when the text is
//! absent or is not a decimal number.
use vstd::prelude::*;

verus! {

/// Samples taken of each pixel when no setting says otherwise.
pub const SAMPLES_PER_PIXEL: usize = 50;

/// Bounces a ray may make before it is given up as black, when no setting
/// says otherwise.
pub const MAX_DEPTH: usize = 40;

pub open spec fn is_decimal_digit(c: char) -> bool {
    '0' <= c && c <= '9'
}

/// The value of a string of decimal digits, most significant first.
pub open spec fn digits_value(d: Seq<char>) -> nat
    decreases d.len(),
{
    if d.len() == 0 {
        0
    } else {
        digits_value(d.drop_last()) * 10 + ((d.last() as u32 - '0' as u32) as nat)
    }
}

/// `s` without its leading `+`, if it has one.
pub open spec fn unsigned_part(s: Seq<char>) -> Seq<char> {
    if s.len() > 0 && s[0] == '+' {
        s.drop_first()
    } else {
        s
    }
}

/// One or more decimal digits and nothing else.
pub open spec fn all_digits(d: Seq<char>) -> bool {
    d.len() > 0 && forall|i: int| 0 <= i < d.len() ==> is_decimal_digit(#[trigger] d[i])
}

/// The `usize` that `s` writes in decimal: an optional `+`, then one or more
/// digits and nothing else, with a value that fits in a `usize`.
pub open spec fn decimal_usize(s: Seq<char>) -> Option<usize> {
    let d = unsigned_part(s);
    if all_digits(d) && digits_value(d) <= usize::MAX {
        Some(digits_value(d) as usize)
    } else {
        None
    }
}

/// Relies on std's `usize::from_str_radix` with radix 10, which accepts an
/// optional `+` followed by digits only, and fails on an empty string, on any
/// other character and on a value that overflows.
#[verifier::external_body]
fn parse_decimal(s: &str) -> (r: Option<usize>)
    ensures
        r == decimal_usize(s@),
{
    usize::from_str_radix(s, 10).ok()
}

/// The setting that `raw` gives, or `default` where `raw` is absent or is
/// not a decimal `usize`.
pub fn sampling_setting(raw: Option<&str>, default: usize) -> (r: usize)
    ensures
        r == match raw {
            Some(s) => match decimal_usize(s@) {
                Some(v) => v,
                None => default,
            },
            None => default,
        },
{
    match raw {
        Some(s) => match parse_decimal(s) {
            Some(v) => v,
            None => default,
        },
        None => default,
    }
}

} // verus!
