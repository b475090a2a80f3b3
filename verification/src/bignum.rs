//! Trusted boundary around `num::BigUint`, the arbitrary-precision
//! unsigned integers in which field capacities are reported.
//!
//! A `BigUint` is opaque to the verifier; `big_nat` names the natural
//! number it holds, and the wrappers below state how the `num`
//! operations the library uses act on that number.
use vstd::prelude::*;

verus! {

/// `num::BigUint` declared for the verifier; its values are described
/// through `big_nat` alone.
#[verifier::external_type_specification]
#[verifier::external_body]
pub struct ExBigUint(num::BigUint);

/// The natural number that a `num::BigUint` holds.
pub uninterp spec fn big_nat(b: num::BigUint) -> nat;

/// Relies on `<num::BigUint as From<u32>>::from`: the big integer with
/// exactly the given value.
#[verifier::external_body]
pub(crate) fn big_from_u32(v: u32) -> (r: num::BigUint)
    ensures
        big_nat(r) == v,
{
    num::BigUint::from(v)
}

/// Relies on `<num::BigUint as Mul<u32>>::mul`: the exact product.
#[verifier::external_body]
pub(crate) fn big_mul_u32(a: num::BigUint, m: u32) -> (r: num::BigUint)
    ensures
        big_nat(r) == big_nat(a) * m,
{
    a * m
}

/// Relies on `<num::BigUint as Mul<&num::BigUint>>::mul`: the exact product.
#[verifier::external_body]
pub(crate) fn big_mul(a: num::BigUint, b: &num::BigUint) -> (r: num::BigUint)
    ensures
        big_nat(r) == big_nat(a) * big_nat(*b),
{
    a * b
}

/// Relies on `<num::BigUint as Ord>::cmp` (through `>=`): `BigUint`s
/// compare by their numerical value.
#[verifier::external_body]
pub(crate) fn big_ge(a: &num::BigUint, b: &num::BigUint) -> (r: bool)
    ensures
        r == (big_nat(*a) >= big_nat(*b)),
{
    a >= b
}

} // verus!
