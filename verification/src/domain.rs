//! Field widths and their domain sizes: how many distinct values a
//! field of a given bit or byte width can hold.
use vstd::prelude::*;

verus! {

use crate::VmError;
use crate::pow_nat;
use crate::bignum::big_nat;
use crate::bignum::big_from_u32;
use crate::bignum::big_mul_u32;

/// A domain whose element count can be computed exactly.  For example,
/// the domain of a two-bit field counts four distinct elements.
pub trait Countable {
    /// The number of distinct values in the domain.
    spec fn capacity(&self) -> nat;

    /// Calculate the number of elements in the given domain, exactly,
    /// with no fixed-width overflow.
    fn count(&self) -> (r: num::BigUint)
        ensures
            big_nat(r) == self.capacity(),
    ;
}

/// A field width counted in bits; always at least one bit.
#[derive(Clone, Copy, Debug, PartialEq, Eq, Structural)]
pub struct Bits {
    value: u8,
}

impl View for Bits {
    type V = nat;

    /// The number of bits.
    closed spec fn view(&self) -> nat {
        self.value as nat
    }
}

impl Bits {
    #[verifier::type_invariant]
    spec fn wf(self) -> bool {
        self.value >= 1
    }

    /// Build a width of `value` bits; a zero width has no meaningful
    /// capacity and is rejected.
    pub fn new(value: u8) -> (r: Result<Bits, VmError>)
        ensures
            r matches Ok(b) && b@ == value <==> value != 0,
            r is Err <==> value == 0,
            r is Err ==> r == Err::<Bits, VmError>(VmError::InvalidWidth),
    {
        if value == 0 {
            Err(VmError::InvalidWidth)
        } else {
            Ok(Bits { value })
        }
    }
}

impl Countable for Bits {
    open spec fn capacity(&self) -> nat {
        pow_nat(2, self@)
    }

    fn count(&self) -> (r: num::BigUint) {
        let mut count = big_from_u32(1);
        let mut i: u8 = 0;
        while i < self.value
            invariant
                i <= self.value,
                big_nat(count) == pow_nat(2, i as nat),
            decreases self.value - i,
        {
            count = big_mul_u32(count, 2);
            i = i + 1;
        }
        count
    }
}

/// A field width counted in bytes; always at least one byte.
#[derive(Clone, Copy, Debug, PartialEq, Eq, Structural)]
pub struct Bytes {
    value: u8,
}

impl View for Bytes {
    type V = nat;

    /// The number of bytes.
    closed spec fn view(&self) -> nat {
        self.value as nat
    }
}

impl Bytes {
    #[verifier::type_invariant]
    spec fn wf(self) -> bool {
        self.value >= 1
    }

    /// Build a width of `value` bytes; a zero width has no meaningful
    /// capacity and is rejected.
    pub fn new(value: u8) -> (r: Result<Bytes, VmError>)
        ensures
            r matches Ok(b) && b@ == value <==> value != 0,
            r is Err <==> value == 0,
            r is Err ==> r == Err::<Bytes, VmError>(VmError::InvalidWidth),
    {
        if value == 0 {
            Err(VmError::InvalidWidth)
        } else {
            Ok(Bytes { value })
        }
    }
}

impl Countable for Bytes {
    open spec fn capacity(&self) -> nat {
        pow_nat(256, self@)
    }

    fn count(&self) -> (r: num::BigUint) {
        let mut count = big_from_u32(1);
        let mut i: u8 = 0;
        while i < self.value
            invariant
                i <= self.value,
                big_nat(count) == pow_nat(256, i as nat),
            decreases self.value - i,
        {
            count = big_mul_u32(count, 256);
            i = i + 1;
        }
        count
    }
}

} // verus!
