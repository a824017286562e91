//! The decimal text of numbers and temperatures.

use crate::units::floor_div;
use crate::units::UNITS_PER_DECI;
use vstd::prelude::*;
use vstd::string::StringExecFns;

verus! {

/// The character of a decimal digit.
pub open spec fn digit_char(d: int) -> char {
    if d == 0 {
        '0'
    } else if d == 1 {
        '1'
    } else if d == 2 {
        '2'
    } else if d == 3 {
        '3'
    } else if d == 4 {
        '4'
    } else if d == 5 {
        '5'
    } else if d == 6 {
        '6'
    } else if d == 7 {
        '7'
    } else if d == 8 {
        '8'
    } else {
        '9'
    }
}

/// The decimal digits of a number, without leading zeros.
pub open spec fn decimal_text(n: nat) -> Seq<char>
    decreases n,
{
    if n < 10 {
        seq![digit_char(n as int)]
    } else {
        decimal_text(n / 10).push(digit_char((n % 10) as int))
    }
}

/// The text of a number of tenths with one decimal place, such as `-0.5`
/// for -5 and `21.0` for 210.
pub open spec fn tenths_text(tenths: int) -> Seq<char> {
    let magnitude = if tenths < 0 {
        -tenths
    } else {
        tenths
    };
    let sign = if tenths < 0 {
        seq!['-']
    } else {
        Seq::<char>::empty()
    };
    sign + decimal_text((magnitude / 10) as nat) + seq!['.', digit_char(magnitude % 10)]
}

/// The tenth of a degree nearest to a temperature, the upper one of two
/// that are equally near.
pub open spec fn nearest_tenth(units: int) -> int {
    (units + UNITS_PER_DECI / 2) / (UNITS_PER_DECI as int)
}

/// The text of a temperature in degrees with one decimal place.
pub open spec fn temperature_text(units: int) -> Seq<char> {
    tenths_text(nearest_tenth(units))
}

/// Appends one decimal digit to `out`.
pub fn push_digit(out: &mut String, d: u8)
    requires
        d < 10,
    ensures
        final(out)@ == old(out)@.push(digit_char(d as int)),
{
    proof {
        reveal_strlit("0");
        reveal_strlit("1");
        reveal_strlit("2");
        reveal_strlit("3");
        reveal_strlit("4");
        reveal_strlit("5");
        reveal_strlit("6");
        reveal_strlit("7");
        reveal_strlit("8");
        reveal_strlit("9");
    }
    let text = if d == 0 {
        "0"
    } else if d == 1 {
        "1"
    } else if d == 2 {
        "2"
    } else if d == 3 {
        "3"
    } else if d == 4 {
        "4"
    } else if d == 5 {
        "5"
    } else if d == 6 {
        "6"
    } else if d == 7 {
        "7"
    } else if d == 8 {
        "8"
    } else {
        "9"
    };
    assert(text@ =~= seq![digit_char(d as int)]);
    out.append(text);
    assert(out@ =~= old(out)@.push(digit_char(d as int)));
}

/// Appends the decimal digits of `n` to `out`.
pub fn push_decimal(out: &mut String, n: u64)
    ensures
        final(out)@ == old(out)@ + decimal_text(n as nat),
    decreases n,
{
    if n >= 10 {
        push_decimal(out, n / 10);
    }
    push_digit(out, (n % 10) as u8);
    assert(out@ =~= old(out)@ + decimal_text(n as nat));
}

/// Appends the text of a number of tenths to `out`.
pub fn push_tenths(out: &mut String, tenths: i64)
    ensures
        final(out)@ == old(out)@ + tenths_text(tenths as int),
{
    proof {
        reveal_strlit("-");
        reveal_strlit(".");
    }
    let magnitude: u64 = if tenths < 0 {
        out.append("-");
        ((-(tenths + 1)) as u64) + 1
    } else {
        tenths as u64
    };
    push_decimal(out, magnitude / 10);
    out.append(".");
    push_digit(out, (magnitude % 10) as u8);
    assert(out@ =~= old(out)@ + tenths_text(tenths as int));
}

/// Appends the text of a temperature to `out`.
pub fn push_temperature(out: &mut String, units: i64)
    ensures
        final(out)@ == old(out)@ + temperature_text(units as int),
{
    let tenths = floor_div(units as i128 + (UNITS_PER_DECI / 2) as i128, UNITS_PER_DECI as i128);
    push_tenths(out, tenths as i64);
}

} // verus!
