//! Integer helpers backed by `num_integer`.
use vstd::prelude::*;

verus! {

/// Relies on `num_integer::Integer::div_mod_floor` for `u8`: floored
/// quotient and remainder, which for unsigned values are `/` and `%`.
/// It panics on a zero divisor, which `requires` rules out.
#[verifier::external_body]
pub(crate) fn div_mod_floor(value: u8, divisor: u8) -> (r: (u8, u8))
    requires
        divisor != 0,
    ensures
        r.0 == value / divisor,
        r.1 == value % divisor,
{
    num_integer::Integer::div_mod_floor(&value, &divisor)
}

} // verus!
