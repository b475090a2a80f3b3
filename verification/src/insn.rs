//! Instruction descriptions: formats (an opcode field plus operand
//! fields that must fit a declared width), symbolic operand expressions,
//! abstract microcode templates, and their lowering to concrete
//! microcode once operand values are known.
use vstd::prelude::*;

verus! {

use crate::VmError;
use crate::pow_nat;
use crate::bignum::big_ge;
use crate::bignum::big_mul;
use crate::bignum::big_nat;
use crate::domain::Bits;
use crate::domain::Bytes;
use crate::domain::Countable;
use crate::machine::MachineCode;
use crate::machine::Width;

/// The mathematical content of a `Format`: widths in bits and bytes as
/// plain numbers.
pub struct FormatView {
    /// Declared overall instruction width, in bytes.
    pub width: nat,
    /// Human-readable label.
    pub label: Seq<char>,
    /// Opcode field width, in bits.
    pub opcode: nat,
    /// Operand field widths, in bits, in order.
    pub operands: Seq<nat>,
}

/// The product of the capacities of a sequence of bit-field widths.
pub open spec fn operands_capacity(ws: Seq<nat>) -> nat
    decreases ws.len(),
{
    if ws.len() == 0 {
        1
    } else {
        operands_capacity(ws.drop_last()) * pow_nat(2, ws.last())
    }
}

/// Defines a format for a class of related instructions.  For
/// example, some instructions might not take any operands.  Others
/// might take, say, three register operands, etc.  The following
/// illustrates:
///
/// ```text
///    +-+-+-+-+-+-+-+-+
///    |7   5|    2|1 0|
///    +-+-+-+-+-+-+-+-+
///    | #2  | #1  |Op |
///    +-+-+-+-+-+-+-+-+
/// ```
/// Here, we see one possible layout for an instruction class which
/// includes two three-bit operands, and a two bit opcode.  This means
/// we can have at most four instructions in this class, and each
/// operand can take on eight distinct values.
///
/// The constructor is the only way to build a format, and it rejects
/// any whose opcode and operand fields cannot fit the declared width,
/// so `capacity() <= pow_nat(256, width)` holds of every value.
pub struct Format {
    /// Determines the overall width (in bytes) of an instruction in
    /// this class.  Generally speaking, virtual machines normally
    /// have all instructions of the same width (e.g. 32bits) and, in
    /// such case, `width` will be the same for all formats.  However,
    /// it is possible that a virtual machine has different sized
    /// instructions (e.g. 16bit instructions, and 32bit "double"
    /// instructions).
    width: Bytes,
    /// Human-readable label for this format.
    label: String,
    /// Determines the number of distinct instructions in this class.
    opcode: Bits,
    /// Determines the number and size of operands for all instructions
    /// in this class.
    operands: Vec<Bits>,
}

impl View for Format {
    type V = FormatView;

    closed spec fn view(&self) -> FormatView {
        FormatView {
            width: self.width@,
            label: self.label@,
            opcode: self.opcode@,
            operands: self.operands@.map_values(|b: Bits| b@),
        }
    }
}

impl Format {
    /// Build a format after checking that there is enough space: the
    /// declared byte width must hold every distinct combination of
    /// opcode and operand values.
    pub fn new(width: Bytes, label: &str, opcode: Bits, operands: &[Bits]) -> (r: Result<
        Format,
        VmError,
    >)
        ensures
            r matches Ok(f) ==> {
                &&& f@.width == width@
                &&& f@.label == label@
                &&& f@.opcode == opcode@
                &&& f@.operands == operands@.map_values(|b: Bits| b@)
            },
            r is Ok <==> pow_nat(2, opcode@) * operands_capacity(
                operands@.map_values(|b: Bits| b@),
            ) <= pow_nat(256, width@),
            r is Err ==> r == Err::<Format, VmError>(VmError::FormatTooWide),
    {
        let mut ops: Vec<Bits> = Vec::new();
        let mut i: usize = 0;
        while i < operands.len()
            invariant
                i <= operands.len(),
                ops@ == operands@.subrange(0, i as int),
            decreases operands.len() - i,
        {
            ops.push(operands[i]);
            proof {
                assert(ops@ =~= operands@.subrange(0, i + 1));
            }
            i = i + 1;
        }
        proof {
            assert(ops@ =~= operands@);
        }
        let f = Format { width, label: label.to_owned(), opcode, operands: ops };
        let width_cap = f.width.count();
        let format_cap = f.count();
        if big_ge(&width_cap, &format_cap) {
            Ok(f)
        } else {
            Err(VmError::FormatTooWide)
        }
    }
}

impl Countable for Format {
    open spec fn capacity(&self) -> nat {
        pow_nat(2, self@.opcode) * operands_capacity(self@.operands)
    }

    fn count(&self) -> (r: num::BigUint) {
        let mut count = self.opcode.count();
        proof {
            assert(self@.operands.subrange(0, 0) =~= Seq::<nat>::empty());
            assert(operands_capacity(self@.operands.subrange(0, 0)) == 1);
        }
        let mut i: usize = 0;
        while i < self.operands.len()
            invariant
                i <= self.operands.len(),
                self@.operands.len() == self.operands@.len(),
                big_nat(count) == pow_nat(2, self@.opcode) * operands_capacity(
                    self@.operands.subrange(0, i as int),
                ),
            decreases self.operands.len() - i,
        {
            let op_cap = self.operands[i].count();
            count = big_mul(count, &op_cap);
            proof {
                let pre = self@.operands.subrange(0, i as int);
                let post = self@.operands.subrange(0, i + 1);
                assert(post.drop_last() =~= pre);
                assert(post.last() == self@.operands[i as int]);
                vstd::arithmetic::mul::lemma_mul_is_associative(
                    pow_nat(2, self@.opcode) as int,
                    operands_capacity(pre) as int,
                    pow_nat(2, self@.operands[i as int]) as int,
                );
            }
            i = i + 1;
        }
        proof {
            assert(self@.operands.subrange(0, self.operands@.len() as int) =~= self@.operands);
        }
        count
    }
}

/// Represents an arbitrary expression over one or more instruction
/// operands.  For each instruction instantiation, an operand
/// expression can be evaluated to a constant.
#[derive(Clone, Copy, Debug, PartialEq, Eq, Structural)]
pub enum Operand {
    /// A constant value which can be used in various ways.  For
    /// example, it can be used to identify a fixed location in the
    /// underlying machine.
    Const(usize),
    /// An operand value read from the instantiated instruction: the
    /// value of the given (zero-indexed) operand slot.
    Var(usize),
}

impl Operand {
    /// The least number of operand slots the expression needs: none
    /// for a constant, one past its index for a slot reference.
    pub open spec fn arity_spec(&self) -> nat {
        match self {
            Operand::Const(_) => 0,
            Operand::Var(v) => (v + 1) as nat,
        }
    }

    /// The value of the expression under the given concrete operands.
    pub open spec fn eval_spec(&self, operands: Seq<usize>) -> Result<usize, VmError> {
        match self {
            Operand::Const(i) => Ok(*i),
            Operand::Var(v) => {
                if v < operands.len() {
                    Ok(operands[*v as int])
                } else {
                    Err(VmError::OperandIndexOutOfRange)
                }
            },
        }
    }

    /// Determine the arity of an operand expression.  That is, how
    /// many operands are needed for it to evaluate.
    pub fn arity(&self) -> (r: usize)
        requires
            self.arity_spec() <= usize::MAX,
        ensures
            r == self.arity_spec(),
    {
        match self {
            Operand::Const(_) => 0,
            Operand::Var(v) => *v + 1,
        }
    }

    /// Whether the expression can evaluate with `n` operand slots.
    fn fits(&self, n: usize) -> (r: bool)
        ensures
            r == (self.arity_spec() <= n),
    {
        match self {
            Operand::Const(_) => true,
            Operand::Var(v) => *v < n,
        }
    }

    /// Evaluate the expression against a tuple of concrete operands; a
    /// slot reference beyond the tuple is rejected.
    pub fn as_usize(&self, operands: &[usize]) -> (r: Result<usize, VmError>)
        ensures
            r == self.eval_spec(operands@),
    {
        match self {
            Operand::Const(i) => Ok(*i),
            Operand::Var(v) => {
                if *v < operands.len() {
                    Ok(operands[*v])
                } else {
                    Err(VmError::OperandIndexOutOfRange)
                }
            },
        }
    }
}

/// The signed offset whose two's-complement machine-word bit pattern
/// is `v`.
pub open spec fn as_signed(v: usize) -> int {
    if v <= isize::MAX {
        v as int
    } else {
        v - usize::MAX - 1
    }
}

/// Reinterpret an unsigned machine word as a two's-complement signed
/// offset.
fn to_signed(v: usize) -> (r: isize)
    ensures
        r as int == as_signed(v),
{
    if v <= (isize::MAX as usize) {
        v as isize
    } else {
        -((usize::MAX - v) as isize) - 1
    }
}

/// Represents an abstract microcode instruction.  This is
/// (effectively) a template for constructing a concrete microcode
/// instruction from a concrete instantiation of an instruction
/// (i.e. where all operands have known values).
#[derive(Clone, Copy, Debug, PartialEq, Eq, Structural)]
pub enum AbstractMicroCode {
    /// X := Y (w bits)
    Copy(Operand, Operand, Width),
    /// pc := I
    Goto(Operand),
    /// pc := pc + I, where the operand value is read as a
    /// two's-complement signed offset
    Jump(Operand),
    /// X := i (w bits)
    Load(Operand, u64, Width),
}

impl AbstractMicroCode {
    /// The least number of operand slots the template needs: the
    /// largest need among its operand expressions.
    pub open spec fn arity_spec(&self) -> nat {
        match self {
            AbstractMicroCode::Copy(x, y, _) => {
                if x.arity_spec() >= y.arity_spec() {
                    x.arity_spec()
                } else {
                    y.arity_spec()
                }
            },
            AbstractMicroCode::Goto(x) => x.arity_spec(),
            AbstractMicroCode::Jump(x) => x.arity_spec(),
            AbstractMicroCode::Load(x, _, _) => x.arity_spec(),
        }
    }

    /// The concrete microcode the template yields under the given
    /// operands, or the failure of the operand expression that cannot
    /// evaluate.
    pub open spec fn lower_spec(&self, operands: Seq<usize>) -> Result<MachineCode, VmError> {
        match self {
            AbstractMicroCode::Copy(x, y, w) => match (x.eval_spec(operands), y.eval_spec(
                operands,
            )) {
                (Ok(l), Ok(r)) => Ok(MachineCode::Copy(l, r, *w)),
                (Err(e), _) => Err(e),
                (_, Err(e)) => Err(e),
            },
            AbstractMicroCode::Goto(x) => match x.eval_spec(operands) {
                Ok(l) => Ok(MachineCode::Goto(l)),
                Err(e) => Err(e),
            },
            AbstractMicroCode::Jump(x) => match x.eval_spec(operands) {
                Ok(l) => Ok(MachineCode::Jump(as_signed(l) as isize)),
                Err(e) => Err(e),
            },
            AbstractMicroCode::Load(x, i, w) => match x.eval_spec(operands) {
                Ok(l) => Ok(MachineCode::Load(l, *i, *w)),
                Err(e) => Err(e),
            },
        }
    }

    /// Determine how many operands this microcode requires.  This is
    /// necessary to sanity check that, for a given instruction
    /// format, this microcode instruction makes sense.
    pub fn arity(&self) -> (r: usize)
        requires
            self.arity_spec() <= usize::MAX,
        ensures
            r == self.arity_spec(),
    {
        match self {
            AbstractMicroCode::Copy(x, y, _) => {
                let ax = x.arity();
                let ay = y.arity();
                if ax >= ay {
                    ax
                } else {
                    ay
                }
            },
            AbstractMicroCode::Goto(x) => x.arity(),
            AbstractMicroCode::Jump(x) => x.arity(),
            AbstractMicroCode::Load(x, _, _) => x.arity(),
        }
    }

    /// Whether the template can evaluate with `n` operand slots.
    fn fits(&self, n: usize) -> (r: bool)
        ensures
            r == (self.arity_spec() <= n),
    {
        match self {
            AbstractMicroCode::Copy(x, y, _) => x.fits(n) && y.fits(n),
            AbstractMicroCode::Goto(x) => x.fits(n),
            AbstractMicroCode::Jump(x) => x.fits(n),
            AbstractMicroCode::Load(x, _, _) => x.fits(n),
        }
    }

    /// Given a set of concrete operands, reduce this abstract
    /// microcode instruction into a concrete microcode instruction.
    pub fn to_microcode(&self, operands: &[usize]) -> (r: Result<MachineCode, VmError>)
        ensures
            r == self.lower_spec(operands@),
    {
        match self {
            AbstractMicroCode::Copy(x, y, w) => {
                let l = match x.as_usize(operands) {
                    Ok(v) => v,
                    Err(e) => {
                        return Err(e);
                    },
                };
                let r = match y.as_usize(operands) {
                    Ok(v) => v,
                    Err(e) => {
                        return Err(e);
                    },
                };
                Ok(MachineCode::Copy(l, r, *w))
            },
            AbstractMicroCode::Goto(x) => {
                match x.as_usize(operands) {
                    Ok(l) => Ok(MachineCode::Goto(l)),
                    Err(e) => Err(e),
                }
            },
            AbstractMicroCode::Jump(x) => {
                match x.as_usize(operands) {
                    Ok(l) => Ok(MachineCode::Jump(to_signed(l))),
                    Err(e) => Err(e),
                }
            },
            AbstractMicroCode::Load(x, i, w) => {
                match x.as_usize(operands) {
                    Ok(l) => Ok(MachineCode::Load(l, *i, *w)),
                    Err(e) => Err(e),
                }
            },
        }
    }
}

/// A mnemonic bound to a format and to the abstract semantics every
/// occurrence of the instruction follows.  The constructor is the only
/// way to build one, and it rejects semantics that reference more
/// operand slots than the format declares.
pub struct Instruction<'a> {
    /// Mnemonic for referring to the instruction.  Every instruction
    /// should have a unique mnemonic.
    mnemonic: &'a str,
    /// Format associated with this instruction.
    format: &'a Format,
    /// Machine semantics associated with instruction.
    semantic: &'a [AbstractMicroCode],
}

impl<'a> Instruction<'a> {
    /// The mnemonic.
    pub closed spec fn mnemonic_spec(&self) -> Seq<char> {
        self.mnemonic@
    }

    /// The format's mathematical content.
    pub closed spec fn format_spec(&self) -> FormatView {
        (*self.format)@
    }

    /// The abstract semantics, in order.
    pub closed spec fn semantic_spec(&self) -> Seq<AbstractMicroCode> {
        self.semantic@
    }

    /// Bind a mnemonic, format and semantics, after checking that no
    /// template references an operand slot the format does not declare.
    pub fn new(mnemonic: &'a str, format: &'a Format, semantic: &'a [AbstractMicroCode]) -> (r:
        Result<Instruction<'a>, VmError>)
        ensures
            r matches Ok(insn) ==> {
                &&& insn.mnemonic_spec() == mnemonic@
                &&& insn.format_spec() == format@
                &&& insn.semantic_spec() == semantic@
            },
            r is Ok <==> (forall|j: int|
                0 <= j < semantic@.len() ==> semantic@[j].arity_spec() <= format@.operands.len()),
            r is Err ==> r == Err::<Instruction<'a>, VmError>(VmError::ArityMismatch),
    {
        let slot_count = format.operands.len();
        let mut j: usize = 0;
        while j < semantic.len()
            invariant
                j <= semantic.len(),
                slot_count == format@.operands.len(),
                forall|k: int| 0 <= k < j ==> semantic@[k].arity_spec() <= format@.operands.len(),
            decreases semantic.len() - j,
        {
            if !semantic[j].fits(slot_count) {
                return Err(VmError::ArityMismatch);
            }
            j = j + 1;
        }
        Ok(Instruction { mnemonic, format, semantic })
    }

    /// Lower every template of the semantics, in order, against the
    /// given concrete operands.
    pub fn to_microcode(&self, operands: &[usize]) -> (r: Result<Vec<MachineCode>, VmError>)
        ensures
            r matches Ok(v) ==> {
                &&& v@.len() == self.semantic_spec().len()
                &&& forall|j: int|
                    0 <= j < v@.len() ==> Ok::<MachineCode, VmError>(v@[j])
                        == self.semantic_spec()[j].lower_spec(operands@)
            },
            r is Ok <==> (forall|j: int|
                0 <= j < self.semantic_spec().len() ==> self.semantic_spec()[j].lower_spec(
                    operands@,
                ) is Ok),
            r matches Err(e) ==> exists|j: int|
                0 <= j < self.semantic_spec().len() && self.semantic_spec()[j].lower_spec(operands@)
                    == Err::<MachineCode, VmError>(e),
    {
        let mut microcode: Vec<MachineCode> = Vec::new();
        let mut j: usize = 0;
        while j < self.semantic.len()
            invariant
                j <= self.semantic.len(),
                microcode@.len() == j,
                forall|k: int|
                    0 <= k < j ==> Ok::<MachineCode, VmError>(microcode@[k])
                        == self.semantic_spec()[k].lower_spec(operands@),
            decreases self.semantic.len() - j,
        {
            match self.semantic[j].to_microcode(operands) {
                Ok(code) => {
                    microcode.push(code);
                },
                Err(e) => {
                    return Err(e);
                },
            }
            j = j + 1;
        }
        Ok(microcode)
    }
}

/// A template whose arity fits within the available operand count
/// evaluates without failure: every operand expression it contains
/// stays inside the tuple.
proof fn lemma_op_lowers(op: AbstractMicroCode, operands: Seq<usize>)
    requires
        op.arity_spec() <= operands.len(),
    ensures
        op.lower_spec(operands) is Ok,
{
    match op {
        AbstractMicroCode::Copy(x, y, _) => {
            assert(x.eval_spec(operands) is Ok);
            assert(y.eval_spec(operands) is Ok);
        },
        AbstractMicroCode::Goto(x) => {
            assert(x.eval_spec(operands) is Ok);
        },
        AbstractMicroCode::Jump(x) => {
            assert(x.eval_spec(operands) is Ok);
        },
        AbstractMicroCode::Load(x, _, _) => {
            assert(x.eval_spec(operands) is Ok);
        },
    }
}

/// The arity check at instruction construction covers lowering: an
/// instruction whose semantics passed the check lowers without failure
/// against any operand tuple at least as long as its format's operand
/// list.
pub proof fn lemma_arity_covers_lowering<'a>(insn: Instruction<'a>, operands: Seq<usize>)
    requires
        forall|j: int|
            0 <= j < insn.semantic_spec().len() ==> insn.semantic_spec()[j].arity_spec()
                <= insn.format_spec().operands.len(),
        insn.format_spec().operands.len() <= operands.len(),
    ensures
        forall|j: int|
            0 <= j < insn.semantic_spec().len() ==> insn.semantic_spec()[j].lower_spec(
                operands,
            ) is Ok,
{
    assert forall|j: int|
        0 <= j < insn.semantic_spec().len() implies insn.semantic_spec()[j].lower_spec(
        operands,
    ) is Ok by {
        lemma_op_lowers(insn.semantic_spec()[j], operands);
    }
}

/// An ordered, read-only collection of instructions.
pub struct InstructionSet<'a> {
    insns: &'a [Instruction<'a>],
}

impl<'a> InstructionSet<'a> {
    /// The instructions, in order.
    pub closed spec fn insns_spec(&self) -> Seq<Instruction<'a>> {
        self.insns@
    }

    /// Collect instructions into a set; they are kept as given.
    pub fn new(insns: &'a [Instruction<'a>]) -> (r: InstructionSet<'a>)
        ensures
            r.insns_spec() == insns@,
    {
        InstructionSet { insns }
    }
}

} // verus!
