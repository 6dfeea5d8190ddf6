//! Byte counts in words: decimal magnitudes, one decimal place.

use vstd::prelude::*;
use vstd::string::*;
use vstd::arithmetic::div_mod::lemma_div_denominator;
use crate::text::{append_digits, digit_char, digit_str, digits};

verus! {

/// 1000 to the power `m`.
pub open spec fn pow1000(m: nat) -> nat
    decreases m,
{
    if m == 0 {
        1
    } else {
        1000 * pow1000((m - 1) as nat)
    }
}

/// The number of whole steps of 1000 in `bytes`: the greatest `m` with
/// `1000^m <= bytes`, for a positive count.
pub open spec fn magnitude(bytes: nat) -> nat
    decreases bytes,
{
    if bytes < 1000 {
        0
    } else {
        1 + magnitude(bytes / 1000)
    }
}

/// The count scaled to its magnitude and rounded to one decimal place
/// (a half rounds up), in tenths.
pub open spec fn scaled_tenths(bytes: nat) -> nat {
    let unit = pow1000(magnitude(bytes));
    (bytes * 10 + unit / 2) / unit
}

/// The suffix of a magnitude.
pub open spec fn suffix_text(m: nat) -> Seq<char> {
    if m == 0 {
        "B"@
    } else if m == 1 {
        "KB"@
    } else if m == 2 {
        "MB"@
    } else if m == 3 {
        "GB"@
    } else if m == 4 {
        "TB"@
    } else if m == 5 {
        "PB"@
    } else if m == 6 {
        "EB"@
    } else if m == 7 {
        "ZB"@
    } else {
        "YB"@
    }
}

/// A number of tenths as a numeral with one decimal place, a zero decimal
/// left out.
pub open spec fn tenths_text(tenths: nat) -> Seq<char> {
    if tenths % 10 == 0 {
        digits(tenths / 10)
    } else {
        digits(tenths / 10) + seq!['.', digit_char(tenths % 10)]
    }
}

/// What `human_bytes` returns.
pub open spec fn human_bytes_text(bytes: int) -> Seq<char> {
    if bytes <= 0 {
        "0 B"@
    } else {
        tenths_text(scaled_tenths(bytes as nat)) + seq![' '] + suffix_text(magnitude(bytes as nat))
    }
}

/// The greatest count that has a suffix: one below 1000^9.
pub open spec fn max_count() -> int {
    999_999_999_999_999_999_999_999_999
}

/// From the ninth power on, a power of 1000 is beyond every count with a
/// suffix.
pub proof fn lemma_pow1000_from_nine(m: nat)
    requires
        m >= 9,
    ensures
        pow1000(m) > max_count(),
    decreases m,
{
    if m == 9 {
        reveal_with_fuel(pow1000, 10);
    } else {
        lemma_pow1000_from_nine((m - 1) as nat);
    }
}

fn suffix(m: usize) -> (s: &'static str)
    requires
        m <= 8,
    ensures
        s@ == suffix_text(m as nat),
{
    if m == 0 {
        "B"
    } else if m == 1 {
        "KB"
    } else if m == 2 {
        "MB"
    } else if m == 3 {
        "GB"
    } else if m == 4 {
        "TB"
    } else if m == 5 {
        "PB"
    } else if m == 6 {
        "EB"
    } else if m == 7 {
        "ZB"
    } else {
        "YB"
    }
}

/// A byte count as text: the count scaled by the greatest power of 1000
/// that it reaches, with one decimal place unless that is zero, a space, and
/// the suffix of that power. A count of zero or less reads "0 B".
pub fn human_bytes(bytes: i128) -> (text: String)
    requires
        bytes <= max_count(),
    ensures
        text@ == human_bytes_text(bytes as int),
{
    if bytes <= 0 {
        return String::from_str("0 B");
    }
    let count: u128 = bytes as u128;
    let mut m: usize = 0;
    let mut unit: u128 = 1;
    while count / unit >= 1000
        invariant
            0 < unit <= count <= max_count(),
            unit == pow1000(m as nat),
            m <= 8,
            magnitude(count as nat) == m + magnitude((count / unit) as nat),
        decreases count / unit,
    {
        proof {
            lemma_div_denominator(count as int, unit as int, 1000);
            assert(unit * 1000 <= count) by (nonlinear_arith)
                requires
                    count / unit >= 1000,
                    unit > 0,
            ;
            if m + 1 >= 9 {
                lemma_pow1000_from_nine((m + 1) as nat);
            }
        }
        unit = unit * 1000;
        m = m + 1;
    }
    let tenths: u128 = (count * 10 + unit / 2) / unit;
    let mut text = String::new();
    append_digits(&mut text, tenths / 10);
    if tenths % 10 != 0 {
        text.append(".");
        text.append(digit_str(tenths % 10));
    }
    text.append(" ");
    text.append(suffix(m));
    proof {
        reveal_strlit(".");
        reveal_strlit(" ");
        assert(text@ =~= human_bytes_text(bytes as int));
    }
    text
}

} // verus!
