//! The executable side of the machine: a byte-addressable memory with
//! little-endian multi-width access, concrete microcode, and the
//! interpreter that applies one microcode operation to a machine state.
use vstd::prelude::*;

verus! {

use crate::VmError;
use crate::pow_nat;

/// The width of a memory operation, in bytes.
#[derive(Clone, Copy, Debug, PartialEq, Eq, Structural)]
pub enum Width {
    /// 8 bits
    Byte,
    /// 16 bits
    Word,
    /// 32 bits
    DoubleWord,
    /// 64 bits
    QuadWord,
}

impl Width {
    /// How many bytes a value of this width occupies.
    pub open spec fn bytes(&self) -> nat {
        match self {
            Width::Byte => 1,
            Width::Word => 2,
            Width::DoubleWord => 4,
            Width::QuadWord => 8,
        }
    }

    /// How many bytes a value of this width occupies.
    pub fn byte_count(&self) -> (n: usize)
        ensures
            n as nat == self.bytes(),
    {
        match self {
            Width::Byte => 1,
            Width::Word => 2,
            Width::DoubleWord => 4,
            Width::QuadWord => 8,
        }
    }
}

/// Whether an operation treats its operands as signed or unsigned.
#[derive(Clone, Copy, Debug, PartialEq, Eq, Structural)]
pub enum Sign {
    /// An unsigned operation.
    Unsigned,
    /// A signed operation.
    Signed,
}

/// Concrete microcode: fully resolved operations that define the
/// semantics of virtual machine instructions, so that they can be run
/// by a machine-state interpreter.
#[derive(Clone, Copy, Debug, PartialEq, Eq, Structural)]
pub enum MachineCode {
    /// x := x + y (w bits, wrapping, so signed and unsigned agree)
    Add(usize, usize, Width),
    /// x := y (w bits)
    Copy(usize, usize, Width),
    /// pc := i
    Goto(usize),
    /// pc := pc + i
    Jump(isize),
    /// x := i (w bits)
    Load(usize, u64, Width),
}

/// The value of the `n` bytes at `a`, least-significant byte first.
pub open spec fn read_le(mem: Seq<u8>, a: int, n: nat) -> nat
    decreases n,
{
    if n == 0 {
        0
    } else {
        (mem[a] + 256 * read_le(mem, a + 1, (n - 1) as nat)) as nat
    }
}

/// The memory after storing the low `n` bytes of `v` at `a`,
/// least-significant byte first.
pub open spec fn write_le(mem: Seq<u8>, a: int, n: nat, v: nat) -> Seq<u8>
    decreases n,
{
    if n == 0 {
        mem
    } else {
        write_le(mem.update(a, (v % 256) as u8), a + 1, (n - 1) as nat, v / 256)
    }
}

/// A read never reaches the capacity of its width.
pub proof fn lemma_read_le_bound(mem: Seq<u8>, a: int, n: nat)
    requires
        0 <= a,
        a + n <= mem.len(),
    ensures
        read_le(mem, a, n) < pow_nat(256, n),
    decreases n,
{
    if n > 0 {
        lemma_read_le_bound(mem, a + 1, (n - 1) as nat);
    }
}

/// A store changes nothing but the `n` bytes at `a`.
pub proof fn lemma_write_le_frame(mem: Seq<u8>, a: int, n: nat, v: nat)
    requires
        0 <= a,
        a + n <= mem.len(),
    ensures
        write_le(mem, a, n, v).len() == mem.len(),
        forall|i: int| 0 <= i < mem.len() && !(a <= i < a + n) ==> write_le(mem, a, n, v)[i] == mem[i],
    decreases n,
{
    if n > 0 {
        let mem1 = mem.update(a, (v % 256) as u8);
        let rest = write_le(mem1, a + 1, (n - 1) as nat, v / 256);
        lemma_write_le_frame(mem1, a + 1, (n - 1) as nat, v / 256);
        assert(write_le(mem, a, n, v) == rest);
        assert forall|i: int|
            0 <= i < mem.len() && !(a <= i < a + n) implies write_le(mem, a, n, v)[i]
            == mem[i] by {
            assert(rest[i] == mem1[i]);
            assert(mem1[i] == mem[i]);
        }
    }
}

/// The bytes a store writes: the base-256 digits of `v`, in order.
pub proof fn lemma_write_le_bytes(mem: Seq<u8>, a: int, n: nat, v: nat)
    requires
        0 <= a,
        a + n <= mem.len(),
    ensures
        forall|i: int| a <= i < a + n
            ==> write_le(mem, a, n, v)[i] == (v / pow_nat(256, (i - a) as nat)) % 256,
    decreases n,
{
    if n > 0 {
        let mem1 = mem.update(a, (v % 256) as u8);
        let rest = write_le(mem1, a + 1, (n - 1) as nat, v / 256);
        lemma_write_le_bytes(mem1, a + 1, (n - 1) as nat, v / 256);
        lemma_write_le_frame(mem1, a + 1, (n - 1) as nat, v / 256);
        assert(write_le(mem, a, n, v) == rest);
        assert forall|i: int| a <= i < a + n implies write_le(mem, a, n, v)[i] == (v / pow_nat(
            256,
            (i - a) as nat,
        )) % 256 by {
            if i == a {
                assert(rest[a] == mem1[a]);
                assert(pow_nat(256, 0) == 1);
                assert(v as int / 1 == v);
            } else {
                let p1 = pow_nat(256, (i - a - 1) as nat) as int;
                assert(rest[i] == ((v as int / 256) / p1) % 256);
                crate::lemma_pow_nat_pos(256, (i - a - 1) as nat);
                vstd::arithmetic::div_mod::lemma_div_denominator(v as int, 256, p1);
                assert((v as int / 256) / p1 == v as int / (256 * p1));
                assert(pow_nat(256, (i - a) as nat) == 256 * p1);
            }
        }
    }
}

/// Reading back what was just stored gives the value, reduced to the
/// width: the little-endian round trip.
pub proof fn lemma_le_round_trip(mem: Seq<u8>, a: int, n: nat, v: nat)
    requires
        0 <= a,
        a + n <= mem.len(),
    ensures
        read_le(write_le(mem, a, n, v), a, n) == v % pow_nat(256, n),
    decreases n,
{
    if n == 0 {
        assert(pow_nat(256, 0) == 1);
    } else {
        let mem1 = mem.update(a, (v % 256) as u8);
        lemma_le_round_trip(mem1, a + 1, (n - 1) as nat, v / 256);
        lemma_write_le_frame(mem1, a + 1, (n - 1) as nat, v / 256);
        let w = write_le(mem, a, n, v);
        assert(w == write_le(mem1, a + 1, (n - 1) as nat, v / 256));
        assert(w[a] == mem1[a]);
        assert(w[a] == v % 256);
        assert(read_le(w, a + 1, (n - 1) as nat) == (v / 256) % pow_nat(256, (n - 1) as nat));
        crate::lemma_pow_nat_pos(256, (n - 1) as nat);
        vstd::arithmetic::div_mod::lemma_breakdown(
            v as int,
            256,
            pow_nat(256, (n - 1) as nat) as int,
        );
        assert(256 * pow_nat(256, (n - 1) as nat) == pow_nat(256, n));
    }
}

/// A value that fits its width is read back exactly after being
/// stored at that width: the memory round trip at any address.
pub proof fn lemma_width_round_trip(mem: Seq<u8>, a: int, w: Width, v: nat)
    requires
        0 <= a,
        a + w.bytes() <= mem.len(),
        v < pow_nat(256, w.bytes()),
    ensures
        read_le(write_le(mem, a, w.bytes(), v), a, w.bytes()) == v,
{
    lemma_le_round_trip(mem, a, w.bytes(), v);
    crate::lemma_pow_nat_pos(256, w.bytes());
    vstd::arithmetic::div_mod::lemma_small_mod(v, pow_nat(256, w.bytes()));
}

/// A fixed-size array of bytes with little-endian multi-width access.
/// Every failure is reported; no access panics.
pub struct Memory {
    contents: Vec<u8>,
}

impl View for Memory {
    type V = Seq<u8>;

    /// The bytes the memory holds.
    closed spec fn view(&self) -> Seq<u8> {
        self.contents@
    }
}

impl Memory {
    /// Wrap a byte buffer; the memory owns it exclusively.
    pub fn new(contents: Vec<u8>) -> (r: Memory)
        ensures
            r@ == contents@,
    {
        Memory { contents }
    }

    /// A read-only view of the underlying bytes.
    pub fn as_bytes(&self) -> (r: &Vec<u8>)
        ensures
            r@ == self@,
    {
        &self.contents
    }

    /// How many bytes the memory holds.
    pub fn len(&self) -> (n: usize)
        ensures
            n == self@.len(),
    {
        self.contents.len()
    }

    /// Whether the `n` bytes at `address` lie inside the buffer.
    fn in_range(&self, address: usize, n: usize) -> (r: bool)
        ensures
            r == (address + n <= self@.len()),
    {
        address <= self.contents.len() && self.contents.len() - address >= n
    }

    /// Read the `n`-byte little-endian value at `address`.
    fn read_bytes(&self, address: usize, n: usize) -> (v: u64)
        requires
            address + n <= self@.len(),
            n <= 8,
        ensures
            v as nat == read_le(self@, address as int, n as nat),
    {
        let buffer_len = self.contents.len();
        let mut v: u64 = 0;
        let mut i: usize = n;
        while i > 0
            invariant
                i <= n <= 8,
                address + n <= buffer_len,
                buffer_len == self@.len(),
                v as nat == read_le(self@, address + i, (n - i) as nat),
                v < pow_nat(256, (n - i) as nat),
            decreases i,
        {
            proof {
                crate::lemma_pow_nat_mono(256, (n - i) as nat, 7);
                assert(pow_nat(256, 7) == 72057594037927936) by {
                    reveal_with_fuel(crate::pow_nat, 8);
                }
            }
            i = i - 1;
            let b = self.contents[address + i];
            proof {
                assert(read_le(self@, address + i, (n - i) as nat) == self@[address + i] + 256
                    * read_le(self@, address + i + 1, (n - i - 1) as nat));
            }
            v = v * 256 + b as u64;
        }
        v
    }

    /// Store the low `n` bytes of `value` at `address`, least-significant
    /// byte first.
    fn write_bytes(&mut self, address: usize, n: usize, value: u64)
        requires
            address + n <= old(self)@.len(),
            n <= 8,
        ensures
            final(self)@ == write_le(old(self)@, address as int, n as nat, value as nat),
    {
        let ghost target = write_le(old(self)@, address as int, n as nat, value as nat);
        let buffer_len = self.contents.len();
        let mut v: u64 = value;
        let mut i: usize = 0;
        while i < n
            invariant
                i <= n,
                address + n <= buffer_len,
                buffer_len == self@.len(),
                self@.len() == old(self)@.len(),
                write_le(self@, address + i, (n - i) as nat, v as nat) == target,
            decreases n - i,
        {
            proof {
                assert(write_le(self@, address + i, (n - i) as nat, v as nat) == write_le(
                    self@.update(address + i, ((v as nat) % 256) as u8),
                    address + i + 1,
                    (n - i - 1) as nat,
                    (v as nat) / 256,
                ));
            }
            let b: u8 = (v % 256) as u8;
            self.contents[address + i] = b;
            v = v / 256;
            i = i + 1;
        }
    }

    /// Read the byte at `address`.
    pub fn read_u8(&self, address: usize) -> (r: Result<u8, VmError>)
        ensures
            r is Ok <==> address + 1 <= self@.len(),
            r matches Ok(v) ==> v as nat == read_le(self@, address as int, 1),
            r is Err ==> r == Err::<u8, VmError>(VmError::OutOfBounds),
    {
        if self.in_range(address, 1) {
            proof {
                lemma_read_le_bound(self@, address as int, 1);
                assert(pow_nat(256, 1) == 256) by {
                    reveal_with_fuel(crate::pow_nat, 2);
                }
            }
            Ok(self.read_bytes(address, 1) as u8)
        } else {
            Err(VmError::OutOfBounds)
        }
    }

    /// Read the two-byte little-endian value at `address`.
    pub fn read_u16(&self, address: usize) -> (r: Result<u16, VmError>)
        ensures
            r is Ok <==> address + 2 <= self@.len(),
            r matches Ok(v) ==> v as nat == read_le(self@, address as int, 2),
            r is Err ==> r == Err::<u16, VmError>(VmError::OutOfBounds),
    {
        if self.in_range(address, 2) {
            proof {
                lemma_read_le_bound(self@, address as int, 2);
                assert(pow_nat(256, 2) == 65536) by {
                    reveal_with_fuel(crate::pow_nat, 3);
                }
            }
            Ok(self.read_bytes(address, 2) as u16)
        } else {
            Err(VmError::OutOfBounds)
        }
    }

    /// Read the four-byte little-endian value at `address`.
    pub fn read_u32(&self, address: usize) -> (r: Result<u32, VmError>)
        ensures
            r is Ok <==> address + 4 <= self@.len(),
            r matches Ok(v) ==> v as nat == read_le(self@, address as int, 4),
            r is Err ==> r == Err::<u32, VmError>(VmError::OutOfBounds),
    {
        if self.in_range(address, 4) {
            proof {
                lemma_read_le_bound(self@, address as int, 4);
                assert(pow_nat(256, 4) == 4294967296) by {
                    reveal_with_fuel(crate::pow_nat, 5);
                }
            }
            Ok(self.read_bytes(address, 4) as u32)
        } else {
            Err(VmError::OutOfBounds)
        }
    }

    /// Read the eight-byte little-endian value at `address`.
    pub fn read_u64(&self, address: usize) -> (r: Result<u64, VmError>)
        ensures
            r is Ok <==> address + 8 <= self@.len(),
            r matches Ok(v) ==> v as nat == read_le(self@, address as int, 8),
            r is Err ==> r == Err::<u64, VmError>(VmError::OutOfBounds),
    {
        if self.in_range(address, 8) {
            Ok(self.read_bytes(address, 8))
        } else {
            Err(VmError::OutOfBounds)
        }
    }

    /// Store `value` at `address`.
    pub fn write_u8(&mut self, address: usize, value: u8) -> (r: Result<(), VmError>)
        ensures
            r is Ok <==> address + 1 <= old(self)@.len(),
            r is Ok ==> final(self)@ == write_le(old(self)@, address as int, 1, value as nat),
            r is Err ==> final(self)@ == old(self)@ && r == Err::<(), VmError>(
                VmError::OutOfBounds,
            ),
    {
        if self.in_range(address, 1) {
            self.write_bytes(address, 1, value as u64);
            Ok(())
        } else {
            Err(VmError::OutOfBounds)
        }
    }

    /// Store `value` at `address` as two bytes, least-significant first.
    pub fn write_u16(&mut self, address: usize, value: u16) -> (r: Result<(), VmError>)
        ensures
            r is Ok <==> address + 2 <= old(self)@.len(),
            r is Ok ==> final(self)@ == write_le(old(self)@, address as int, 2, value as nat),
            r is Err ==> final(self)@ == old(self)@ && r == Err::<(), VmError>(
                VmError::OutOfBounds,
            ),
    {
        if self.in_range(address, 2) {
            self.write_bytes(address, 2, value as u64);
            Ok(())
        } else {
            Err(VmError::OutOfBounds)
        }
    }

    /// Store `value` at `address` as four bytes, least-significant first.
    pub fn write_u32(&mut self, address: usize, value: u32) -> (r: Result<(), VmError>)
        ensures
            r is Ok <==> address + 4 <= old(self)@.len(),
            r is Ok ==> final(self)@ == write_le(old(self)@, address as int, 4, value as nat),
            r is Err ==> final(self)@ == old(self)@ && r == Err::<(), VmError>(
                VmError::OutOfBounds,
            ),
    {
        if self.in_range(address, 4) {
            self.write_bytes(address, 4, value as u64);
            Ok(())
        } else {
            Err(VmError::OutOfBounds)
        }
    }

    /// Store `value` at `address` as eight bytes, least-significant first.
    pub fn write_u64(&mut self, address: usize, value: u64) -> (r: Result<(), VmError>)
        ensures
            r is Ok <==> address + 8 <= old(self)@.len(),
            r is Ok ==> final(self)@ == write_le(old(self)@, address as int, 8, value as nat),
            r is Err ==> final(self)@ == old(self)@ && r == Err::<(), VmError>(
                VmError::OutOfBounds,
            ),
    {
        if self.in_range(address, 8) {
            self.write_bytes(address, 8, value as u64);
            Ok(())
        } else {
            Err(VmError::OutOfBounds)
        }
    }
}

/// One interpreter transition: the program counter and memory after one
/// operation, or the failure that the operation reports, in which case
/// the state is left as it was.
pub open spec fn step(pc: nat, mem: Seq<u8>, insn: MachineCode) -> Result<(nat, Seq<u8>), VmError> {
    match insn {
        MachineCode::Add(x, y, w) => {
            let n = w.bytes();
            if x + n <= mem.len() && y + n <= mem.len() {
                let sum = (read_le(mem, x as int, n) + read_le(mem, y as int, n)) % pow_nat(256, n);
                Ok(((pc + 1) as nat, write_le(mem, x as int, n, sum)))
            } else {
                Err(VmError::OutOfBounds)
            }
        },
        MachineCode::Copy(x, y, w) => {
            let n = w.bytes();
            if x + n <= mem.len() && y + n <= mem.len() {
                Ok(((pc + 1) as nat, write_le(mem, x as int, n, read_le(mem, y as int, n))))
            } else {
                Err(VmError::OutOfBounds)
            }
        },
        MachineCode::Goto(i) => Ok((i as nat, mem)),
        MachineCode::Jump(i) => {
            if pc + i >= 0 {
                Ok(((pc + i) as nat, mem))
            } else {
                Err(VmError::PcUnderflow)
            }
        },
        MachineCode::Load(x, imm, w) => {
            let n = w.bytes();
            if imm < pow_nat(256, n) {
                if x + n <= mem.len() {
                    Ok(((pc + 1) as nat, write_le(mem, x as int, n, imm as nat)))
                } else {
                    Err(VmError::OutOfBounds)
                }
            } else {
                Err(VmError::ImmediateOverflow)
            }
        },
    }
}

/// The one machine limit on a transition: where it succeeds, the next
/// program counter must be representable.
pub open spec fn step_pc_fits(pc: nat, mem: Seq<u8>, insn: MachineCode) -> bool {
    match step(pc, mem, insn) {
        Ok(s) => s.0 <= usize::MAX,
        Err(_) => true,
    }
}

/// A program counter together with the memory it drives.
pub struct MachineState {
    /// Program counter.  This determines where in the instruction
    /// memory the machine is currently executing: always the *next*
    /// operation to be executed.
    pub pc: usize,
    /// Available memory.
    pub data: Memory,
}

impl MachineState {
    /// A machine starting at `pc` over the given bytes.
    pub fn new(pc: usize, bytes: Vec<u8>) -> (r: MachineState)
        ensures
            r.pc == pc,
            r.data@ == bytes@,
    {
        MachineState { pc, data: Memory::new(bytes) }
    }

    /// Apply exactly one microcode operation, as `step` describes:
    /// arithmetic wraps at its width, loads reject immediates that are
    /// too wide, jumps reject a negative counter, and every memory
    /// access is bounds-checked.  On failure the state is unchanged.
    pub fn execute(&mut self, insn: MachineCode) -> (r: Result<(), VmError>)
        requires
            step_pc_fits(old(self).pc as nat, old(self).data@, insn),
        ensures
            match step(old(self).pc as nat, old(self).data@, insn) {
                Ok(s) => {
                    &&& r == Ok::<(), VmError>(())
                    &&& final(self).pc == s.0
                    &&& final(self).data@ == s.1
                },
                Err(e) => {
                    &&& r == Err::<(), VmError>(e)
                    &&& final(self).pc == old(self).pc
                    &&& final(self).data@ == old(self).data@
                },
            },
    {
        match insn {
            MachineCode::Add(x, y, w) => {
                let n = w.byte_count();
                if self.data.in_range(x, n) && self.data.in_range(y, n) {
                    let vx = self.data.read_bytes(x, n);
                    let vy = self.data.read_bytes(y, n);
                    proof {
                        lemma_read_le_bound(self.data@, x as int, n as nat);
                        lemma_read_le_bound(self.data@, y as int, n as nat);
                        reveal_with_fuel(crate::pow_nat, 9);
                    }
                    let ghost total = read_le(self.data@, x as int, n as nat) + read_le(
                        self.data@,
                        y as int,
                        n as nat,
                    );
                    let sum: u64 = match w {
                        Width::Byte => (vx + vy) % 256,
                        Width::Word => (vx + vy) % 65536,
                        Width::DoubleWord => (vx + vy) % 4294967296,
                        Width::QuadWord => vx.wrapping_add(vy),
                    };
                    proof {
                        reveal_with_fuel(crate::pow_nat, 9);
                        if w == Width::QuadWord {
                            if total > u64::MAX {
                                vstd::arithmetic::div_mod::lemma_mod_sub_multiples_vanish(
                                    total as int,
                                    0x10000000000000000,
                                );
                                vstd::arithmetic::div_mod::lemma_small_mod(
                                    (total - 0x10000000000000000) as nat,
                                    0x10000000000000000,
                                );
                            } else {
                                vstd::arithmetic::div_mod::lemma_small_mod(
                                    total as nat,
                                    0x10000000000000000,
                                );
                            }
                        }
                        assert(sum as nat == total as nat % pow_nat(256, n as nat));
                    }
                    self.data.write_bytes(x, n, sum);
                    self.pc = self.pc + 1;
                    Ok(())
                } else {
                    Err(VmError::OutOfBounds)
                }
            },
            MachineCode::Copy(x, y, w) => {
                let n = w.byte_count();
                if self.data.in_range(x, n) && self.data.in_range(y, n) {
                    let v = self.data.read_bytes(y, n);
                    self.data.write_bytes(x, n, v);
                    self.pc = self.pc + 1;
                    Ok(())
                } else {
                    Err(VmError::OutOfBounds)
                }
            },
            MachineCode::Goto(i) => {
                self.pc = i;
                Ok(())
            },
            MachineCode::Jump(i) => {
                if i < 0 {
                    let magnitude: usize = ((-(i + 1)) as usize) + 1;
                    if magnitude <= self.pc {
                        self.pc = self.pc - magnitude;
                        Ok(())
                    } else {
                        Err(VmError::PcUnderflow)
                    }
                } else {
                    self.pc = self.pc + (i as usize);
                    Ok(())
                }
            },
            MachineCode::Load(x, imm, w) => {
                let n = w.byte_count();
                proof {
                    reveal_with_fuel(crate::pow_nat, 9);
                }
                let fits: bool = match w {
                    Width::Byte => imm < 256,
                    Width::Word => imm < 65536,
                    Width::DoubleWord => imm < 4294967296,
                    Width::QuadWord => true,
                };
                if fits {
                    if self.data.in_range(x, n) {
                        self.data.write_bytes(x, n, imm);
                        self.pc = self.pc + 1;
                        Ok(())
                    } else {
                        Err(VmError::OutOfBounds)
                    }
                } else {
                    Err(VmError::ImmediateOverflow)
                }
            },
        }
    }
}

} // verus!
