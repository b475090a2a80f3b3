//! A small instruction-set description library for a byte-addressed
//! virtual machine: field capacity arithmetic over arbitrary-precision
//! integers, instruction formats, symbolic microcode that is lowered to
//! concrete microcode, and an interpreter over little-endian memory.
use vstd::prelude::*;

pub mod bignum;
pub mod domain;
pub mod insn;
pub mod machine;

verus! {

/// Every failure the library can report.  Construction-time conditions
/// (`InvalidWidth`, `FormatTooWide`, `ArityMismatch`) reject a broken
/// instruction-set description; the rest are surfaced by lowering and
/// execution instead of aborting the host.
#[derive(Clone, Copy, Debug, PartialEq, Eq, Structural)]
pub enum VmError {
    /// A bit or byte width was constructed with value zero.
    InvalidWidth,
    /// A format's opcode and operand fields do not fit its declared width.
    FormatTooWide,
    /// A semantic template references more operand slots than its format declares.
    ArityMismatch,
    /// Lowering referenced an operand slot beyond the supplied operand tuple.
    OperandIndexOutOfRange,
    /// A load immediate does not fit the target width.
    ImmediateOverflow,
    /// A memory access lies outside the buffer.
    OutOfBounds,
    /// A relative jump would drive the program counter negative.
    PcUnderflow,
}

/// Mathematical exponentiation, used for field capacities (base 2 and
/// base 256) and for the value range of a multi-byte memory cell.
pub open spec fn pow_nat(base: nat, exp: nat) -> nat
    decreases exp,
{
    if exp == 0 {
        1
    } else {
        base * pow_nat(base, (exp - 1) as nat)
    }
}

/// A power of a positive base is positive.
pub proof fn lemma_pow_nat_pos(base: nat, exp: nat)
    requires
        base >= 1,
    ensures
        pow_nat(base, exp) >= 1,
    decreases exp,
{
    if exp > 0 {
        lemma_pow_nat_pos(base, (exp - 1) as nat);
        assert(base * pow_nat(base, (exp - 1) as nat) >= 1) by (nonlinear_arith)
            requires
                base >= 1,
                pow_nat(base, (exp - 1) as nat) >= 1,
        ;
    }
}

/// Powers of a positive base grow with the exponent.
pub proof fn lemma_pow_nat_mono(base: nat, e1: nat, e2: nat)
    requires
        base >= 1,
        e1 <= e2,
    ensures
        pow_nat(base, e1) <= pow_nat(base, e2),
    decreases e2,
{
    if e1 < e2 {
        lemma_pow_nat_mono(base, e1, (e2 - 1) as nat);
        let p = pow_nat(base, (e2 - 1) as nat);
        assert(p <= base * p) by (nonlinear_arith)
            requires
                base >= 1,
                p >= 0,
        ;
    }
}

} // verus!
