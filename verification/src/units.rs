//! Fixed-point temperatures and the integer arithmetic on them.
//!
//! A temperature is an `i64` count of billionths of a degree. Quotients are
//! rounded down, so every result is the greatest representable value that
//! does not exceed the exact one.

use vstd::prelude::*;

verus! {

/// Number of temperature units in one degree.
pub const UNITS_PER_DEGREE: i64 = 1_000_000_000;

/// Number of temperature units in a tenth of a degree.
pub const UNITS_PER_DECI: i64 = 100_000_000;

/// The temperature of a reading given in tenths of a degree.
pub fn from_deci(deci: i32) -> (r: i64)
    ensures
        r == deci * UNITS_PER_DECI,
{
    (deci as i64) * UNITS_PER_DECI
}

/// The quotient of `a` by a positive `b`, rounded down.
pub fn floor_div(a: i128, b: i128) -> (r: i128)
    requires
        b > 0,
    ensures
        r == a / b,
{
    if a >= 0 {
        a / b
    } else {
        let m: i128 = -(a + 1);
        let q: i128 = m / b;
        assert(a / b == -q - 1) by (nonlinear_arith)
            requires
                b > 0,
                a < 0,
                m == -(a + 1),
                q == m / b,
        ;
        -q - 1
    }
}

/// The product of `x` and a small factor, for an `x` far from the ends of
/// its type.
pub fn scaled(x: i128, factor: i64) -> (r: i128)
    requires
        -0x1_0000_0000_0000_0000_0000 <= x <= 0x1_0000_0000_0000_0000_0000,
        0 <= factor <= 0x1_0000_0000,
    ensures
        r == x * factor,
{
    assert(-0x1_0000_0000_0000_0000_0000 * 0x1_0000_0000 <= x * factor
        <= 0x1_0000_0000_0000_0000_0000 * 0x1_0000_0000) by (nonlinear_arith)
        requires
            -0x1_0000_0000_0000_0000_0000 <= x <= 0x1_0000_0000_0000_0000_0000,
            0 <= factor <= 0x1_0000_0000,
    ;
    x * (factor as i128)
}

} // verus!
