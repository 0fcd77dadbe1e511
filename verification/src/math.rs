//! Fixed-point helpers shared by the contracts.
use vstd::prelude::*;

verus! {

/// The fixed-point scale used for prices, factors and ratios (seven decimals).
pub const SCALE: u128 = 10000000;

/// `num_integer::div_floor` on `u128`: for unsigned integers the crate
/// computes `x / y` (floored division equals truncating division), and panics
/// when `y` is zero, which the `requires` leaves out.
#[verifier::external_body]
pub(crate) fn div_floor(x: u128, y: u128) -> (r: u128)
    requires
        y != 0,
    ensures
        r == x / y,
{
    num_integer::div_floor(x, y)
}

/// Integer division rounds down: the quotient times the divisor is at most
/// the dividend, and one more would exceed it.
pub proof fn lemma_floor_div(x: int, y: int)
    requires
        y > 0,
    ensures
        (x / y) * y <= x,
        x < (x / y + 1) * y,
{
    assert((x / y) * y <= x && x < (x / y + 1) * y) by (nonlinear_arith)
        requires
            y > 0,
    ;
}

} // verus!
