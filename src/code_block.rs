use vstd::prelude::*;

use crate::error::KetError;
use crate::number::Real;

verus! {

/// The quantum gates of the instruction set. The rotations and the phase gate
/// carry their angle.
#[derive(Debug, Clone, Copy, PartialEq, Eq, Structural)]
pub enum QuantumGate {
    PauliX,
    PauliY,
    PauliZ,
    Hadamard,
    Phase(Real),
    RX(Real),
    RY(Real),
    RZ(Real),
}

impl QuantumGate {
    /// The inverse gate: the angle of a rotation or phase gate is negated, the
    /// Pauli gates and Hadamard are their own inverse.
    pub open spec fn spec_inverse(self) -> QuantumGate {
        match self {
            QuantumGate::Phase(a) => QuantumGate::Phase(a.spec_neg()),
            QuantumGate::RX(a) => QuantumGate::RX(a.spec_neg()),
            QuantumGate::RY(a) => QuantumGate::RY(a.spec_neg()),
            QuantumGate::RZ(a) => QuantumGate::RZ(a.spec_neg()),
            g => g,
        }
    }

    /// How a gate is recorded under `depth` nested adjoint regions: inverted
    /// once for each region, so inverted when `depth` is odd.
    pub open spec fn under_adjoint(self, depth: nat) -> QuantumGate {
        if depth % 2 == 1 {
            self.spec_inverse()
        } else {
            self
        }
    }

    /// Inverting twice gives back the original.
    pub proof fn lemma_inverse_inverse(self)
        ensures
            self.spec_inverse().spec_inverse() == self,
    {
        match self {
            QuantumGate::Phase(a) => a.lemma_neg_neg(),
            QuantumGate::RX(a) => a.lemma_neg_neg(),
            QuantumGate::RY(a) => a.lemma_neg_neg(),
            QuantumGate::RZ(a) => a.lemma_neg_neg(),
            _ => {},
        }
    }

    /// Each further region inverts once more.
    pub proof fn lemma_under_adjoint_step(self, depth: nat)
        ensures
            self.under_adjoint(depth + 1) == self.under_adjoint(depth).spec_inverse(),
    {
        self.lemma_inverse_inverse();
    }

    pub open spec fn is_parametrized(self) -> bool {
        self is Phase || self is RX || self is RY || self is RZ
    }

    /// Under one adjoint region a rotation or phase gate is recorded with its
    /// angle negated; under two nested regions it is negated twice, which
    /// leaves it unchanged. The other gates are never changed.
    pub proof fn lemma_adjoint_angle(self)
        ensures
            self.is_parametrized() ==> self.under_adjoint(1).spec_param() == self.spec_param().spec_neg()
                && self.under_adjoint(1).spec_code() == self.spec_code()
                && self.under_adjoint(1) != self,
            !self.is_parametrized() ==> self.under_adjoint(1) == self,
            self.under_adjoint(2) == self,
    {
        self.spec_param().lemma_neg_differs();
    }

    pub fn inverse(self) -> (r: QuantumGate)
        ensures
            r == self.spec_inverse(),
    {
        match self {
            QuantumGate::Phase(a) => QuantumGate::Phase(a.neg()),
            QuantumGate::RX(a) => QuantumGate::RX(a.neg()),
            QuantumGate::RY(a) => QuantumGate::RY(a.neg()),
            QuantumGate::RZ(a) => QuantumGate::RZ(a.neg()),
            g => g,
        }
    }

    /// The code of a gate at a foreign-function boundary.
    pub open spec fn spec_code(self) -> u32 {
        match self {
            QuantumGate::PauliX => 0,
            QuantumGate::PauliY => 1,
            QuantumGate::PauliZ => 2,
            QuantumGate::Hadamard => 3,
            QuantumGate::Phase(_) => 4,
            QuantumGate::RX(_) => 5,
            QuantumGate::RY(_) => 6,
            QuantumGate::RZ(_) => 7,
        }
    }

    /// The angle of a parametrized gate.
    pub open spec fn spec_param(self) -> Real {
        match self {
            QuantumGate::Phase(a) => a,
            QuantumGate::RX(a) => a,
            QuantumGate::RY(a) => a,
            QuantumGate::RZ(a) => a,
            _ => Real { bits: 0 },
        }
    }

    /// Builds a gate from its code from a foreign-function boundary; `param` is
    /// the angle of a parametrized gate and is ignored by the others.
    pub fn from_code(code: u32, param: Real) -> (r: Result<QuantumGate, KetError>)
        ensures
            code < 8 <==> r is Ok,
            r matches Ok(g) ==> g.spec_code() == code && (g.is_parametrized() ==> g.spec_param()
                == param),
            r matches Err(e) ==> e == KetError::UndefinedOperation,
    {
        match code {
            0 => Ok(QuantumGate::PauliX),
            1 => Ok(QuantumGate::PauliY),
            2 => Ok(QuantumGate::PauliZ),
            3 => Ok(QuantumGate::Hadamard),
            4 => Ok(QuantumGate::Phase(param)),
            5 => Ok(QuantumGate::RX(param)),
            6 => Ok(QuantumGate::RY(param)),
            7 => Ok(QuantumGate::RZ(param)),
            _ => Err(KetError::UndefinedOperation),
        }
    }
}

/// The classical integer operations of the instruction set.
#[derive(Debug, Clone, Copy, PartialEq, Eq, Structural)]
pub enum ClassicalOp {
    Eq,
    Neq,
    Gt,
    Geq,
    Lt,
    Leq,
    Add,
    Sub,
    Mul,
    Div,
    Sll,
    Srl,
    And,
    Or,
    Xor,
}

impl ClassicalOp {
    /// The code of the operation at a foreign-function boundary.
    pub open spec fn spec_code(self) -> u32 {
        match self {
            ClassicalOp::Eq => 0,
            ClassicalOp::Neq => 1,
            ClassicalOp::Gt => 2,
            ClassicalOp::Geq => 3,
            ClassicalOp::Lt => 4,
            ClassicalOp::Leq => 5,
            ClassicalOp::Add => 6,
            ClassicalOp::Sub => 7,
            ClassicalOp::Mul => 8,
            ClassicalOp::Div => 9,
            ClassicalOp::Sll => 10,
            ClassicalOp::Srl => 11,
            ClassicalOp::And => 12,
            ClassicalOp::Or => 13,
            ClassicalOp::Xor => 14,
        }
    }

    /// Builds the operation of a code from a foreign-function boundary.
    pub fn from_code(code: u32) -> (r: Result<ClassicalOp, KetError>)
        ensures
            code < 15 <==> r is Ok,
            r matches Ok(op) ==> op.spec_code() == code,
            r matches Err(e) ==> e == KetError::UndefinedOperation,
    {
        match code {
            0 => Ok(ClassicalOp::Eq),
            1 => Ok(ClassicalOp::Neq),
            2 => Ok(ClassicalOp::Gt),
            3 => Ok(ClassicalOp::Geq),
            4 => Ok(ClassicalOp::Lt),
            5 => Ok(ClassicalOp::Leq),
            6 => Ok(ClassicalOp::Add),
            7 => Ok(ClassicalOp::Sub),
            8 => Ok(ClassicalOp::Mul),
            9 => Ok(ClassicalOp::Div),
            10 => Ok(ClassicalOp::Sll),
            11 => Ok(ClassicalOp::Srl),
            12 => Ok(ClassicalOp::And),
            13 => Ok(ClassicalOp::Or),
            14 => Ok(ClassicalOp::Xor),
            _ => Err(KetError::UndefinedOperation),
        }
    }
}

/// One instruction of the program handed to the execution backend. Qubits,
/// futures, dumps and blocks are named by their index.
#[derive(Debug, Clone, PartialEq)]
pub enum Instruction {
    Alloc { dirty: bool, target: u32 },
    Free { dirty: bool, target: u32 },
    Gate { gate: QuantumGate, target: u32, control: Vec<u32> },
    Measure { qubits: Vec<u32>, output: u32 },
    Plugin { name: String, target: Vec<u32>, control: Vec<u32>, adj: bool, args: String },
    Jump { addr: u32 },
    Branch { test: u32, then: u32, otherwise: u32 },
    IntOp { op: ClassicalOp, result: u32, lhs: u32, rhs: u32 },
    IntSet { result: u32, value: i64 },
    Dump { qubits: Vec<u32>, output: u32 },
    Halt,
}

/// An instruction as the specifications see it: lists of indices and names
/// as sequences.
pub enum InstructionView {
    Alloc { dirty: bool, target: u32 },
    Free { dirty: bool, target: u32 },
    Gate { gate: QuantumGate, target: u32, control: Seq<u32> },
    Measure { qubits: Seq<u32>, output: u32 },
    Plugin { name: Seq<char>, target: Seq<u32>, control: Seq<u32>, adj: bool, args: Seq<char> },
    Jump { addr: u32 },
    Branch { test: u32, then: u32, otherwise: u32 },
    IntOp { op: ClassicalOp, result: u32, lhs: u32, rhs: u32 },
    IntSet { result: u32, value: i64 },
    Dump { qubits: Seq<u32>, output: u32 },
    Halt,
}

impl InstructionView {
    /// Jump, Branch and Halt end a basic block.
    pub open spec fn is_terminator(self) -> bool {
        self is Jump || self is Branch || self is Halt
    }
}

impl View for Instruction {
    type V = InstructionView;

    open spec fn view(&self) -> InstructionView {
        match self {
            Instruction::Alloc { dirty, target } => InstructionView::Alloc {
                dirty: *dirty,
                target: *target,
            },
            Instruction::Free { dirty, target } => InstructionView::Free {
                dirty: *dirty,
                target: *target,
            },
            Instruction::Gate { gate, target, control } => InstructionView::Gate {
                gate: *gate,
                target: *target,
                control: control@,
            },
            Instruction::Measure { qubits, output } => InstructionView::Measure {
                qubits: qubits@,
                output: *output,
            },
            Instruction::Plugin { name, target, control, adj, args } => InstructionView::Plugin {
                name: name@,
                target: target@,
                control: control@,
                adj: *adj,
                args: args@,
            },
            Instruction::Jump { addr } => InstructionView::Jump { addr: *addr },
            Instruction::Branch { test, then, otherwise } => InstructionView::Branch {
                test: *test,
                then: *then,
                otherwise: *otherwise,
            },
            Instruction::IntOp { op, result, lhs, rhs } => InstructionView::IntOp {
                op: *op,
                result: *result,
                lhs: *lhs,
                rhs: *rhs,
            },
            Instruction::IntSet { result, value } => InstructionView::IntSet {
                result: *result,
                value: *value,
            },
            Instruction::Dump { qubits, output } => InstructionView::Dump {
                qubits: qubits@,
                output: *output,
            },
            Instruction::Halt => InstructionView::Halt,
        }
    }
}

/// The views of a sequence of instructions.
pub open spec fn views(s: Seq<Instruction>) -> Seq<InstructionView> {
    s.map_values(|i: Instruction| i@)
}

/// What an instruction block holds: its main sequence, the stack of sequences
/// recorded by the open adjoint regions (innermost last), and whether a
/// terminator ended it.
pub struct BlockModel {
    pub instructions: Seq<InstructionView>,
    pub pending: Seq<Seq<InstructionView>>,
    pub ended: bool,
}

impl BlockModel {
    pub open spec fn empty() -> BlockModel {
        BlockModel { instructions: Seq::empty(), pending: Seq::empty(), ended: false }
    }

    pub open spec fn in_adj(self) -> bool {
        self.pending.len() > 0
    }

    /// The block after `i` was appended to it, the block being open: outside an
    /// adjoint region `i` goes to the main sequence and a terminator ends the
    /// block; inside one it goes to the innermost pending sequence.
    pub open spec fn appended(self, i: InstructionView) -> BlockModel {
        if self.pending.len() == 0 {
            BlockModel {
                instructions: self.instructions.push(i),
                pending: self.pending,
                ended: i.is_terminator(),
            }
        } else {
            BlockModel {
                pending: self.pending.update(
                    self.pending.len() - 1,
                    self.pending.last().push(i),
                ),
                ..self
            }
        }
    }

    /// The block after each of `s` was appended in turn.
    pub open spec fn appended_all(self, s: Seq<InstructionView>) -> BlockModel
        decreases s.len(),
    {
        if s.len() == 0 {
            self
        } else {
            self.appended_all(s.drop_last()).appended(s.last())
        }
    }

    /// The block after a new adjoint region was opened.
    pub open spec fn adjoint_opened(self) -> BlockModel {
        BlockModel { pending: self.pending.push(Seq::empty()), ..self }
    }

    /// The block after the innermost adjoint region was closed: its sequence,
    /// reversed, is added at the end of the next outer destination (the main
    /// sequence, or the enclosing region's sequence).
    pub open spec fn adjoint_closed(self) -> BlockModel {
        let inner = self.pending.last().reverse();
        let rest = self.pending.drop_last();
        if rest.len() == 0 {
            BlockModel { instructions: self.instructions + inner, pending: rest, ended: self.ended }
        } else {
            BlockModel {
                pending: rest.update(rest.len() - 1, rest.last() + inner),
                ..self
            }
        }
    }
}

/// Once a terminator is appended outside every adjoint region the block is
/// ended, and `add_instruction` and `adj_begin` refuse it from then on. A
/// terminator appended inside an adjoint region leaves the block open.
pub proof fn lemma_terminator_ends_block(b: BlockModel, i: InstructionView)
    requires
        !b.ended,
        i.is_terminator(),
    ensures
        !b.in_adj() ==> b.appended(i).ended,
        b.in_adj() ==> !b.appended(i).ended,
{
}

/// Appending inside an open adjoint region adds to the innermost region's
/// sequence only, whatever the instructions are.
pub proof fn lemma_appended_all_in_adj(b: BlockModel, s: Seq<InstructionView>)
    requires
        b.in_adj(),
    ensures
        b.appended_all(s) == (BlockModel {
            pending: b.pending.update(b.pending.len() - 1, b.pending.last() + s),
            ..b
        }),
    decreases s.len(),
{
    if s.len() == 0 {
        assert(b.pending.last() + s =~= b.pending.last());
        assert(b.pending.update(b.pending.len() - 1, b.pending.last()) =~= b.pending);
    } else {
        lemma_appended_all_in_adj(b, s.drop_last());
        let prev = b.appended_all(s.drop_last());
        assert(prev.pending.last() == b.pending.last() + s.drop_last());
        assert((b.pending.last() + s.drop_last()).push(s.last()) =~= b.pending.last() + s);
        assert(prev.appended(s.last()).pending =~= b.pending.update(
            b.pending.len() - 1,
            b.pending.last() + s,
        ));
    }
}

/// Instructions recorded in one adjoint region reach the main sequence in
/// reverse order; recorded in two nested regions, they reach it in their
/// original order.
pub proof fn lemma_adjoint_regions(b: BlockModel, s: Seq<InstructionView>)
    requires
        !b.ended,
        !b.in_adj(),
    ensures
        b.adjoint_opened().appended_all(s).adjoint_closed() == (BlockModel {
            instructions: b.instructions + s.reverse(),
            ..b
        }),
        b.adjoint_opened().adjoint_opened().appended_all(s).adjoint_closed().adjoint_closed() == (
        BlockModel { instructions: b.instructions + s, ..b }),
{
    let one = b.adjoint_opened();
    lemma_appended_all_in_adj(one, s);
    assert(one.pending.last() + s =~= s);
    assert(one.appended_all(s).pending.drop_last() =~= b.pending);
    assert(one.appended_all(s).adjoint_closed().pending =~= b.pending);
    let two = one.adjoint_opened();
    lemma_appended_all_in_adj(two, s);
    assert(two.pending.last() + s =~= s);
    let inner_closed = two.appended_all(s).adjoint_closed();
    assert(two.appended_all(s).pending.drop_last() =~= seq![Seq::<InstructionView>::empty()]);
    assert(Seq::<InstructionView>::empty() + s.reverse() =~= s.reverse());
    assert(inner_closed.pending =~= seq![s.reverse()]);
    assert(s.reverse().reverse() =~= s);
    assert(inner_closed.adjoint_closed().pending =~= b.pending);
}

/// A basic block under construction, with nested adjoint recording.
pub struct CodeBlock {
    instructions: Vec<Instruction>,
    adj_instructions: Vec<Vec<Instruction>>,
    ended: bool,
}

impl View for CodeBlock {
    type V = BlockModel;

    closed spec fn view(&self) -> BlockModel {
        BlockModel {
            instructions: views(self.instructions@),
            pending: self.adj_instructions@.map_values(|v: Vec<Instruction>| views(v@)),
            ended: self.ended,
        }
    }
}

impl CodeBlock {
    pub fn new() -> (r: CodeBlock)
        ensures
            r@ == BlockModel::empty(),
    {
        let r = CodeBlock { instructions: Vec::new(), adj_instructions: Vec::new(), ended: false };
        assert(r@.pending =~= Seq::<Seq<InstructionView>>::empty());
        assert(r@.instructions =~= Seq::<InstructionView>::empty());
        r
    }

    /// Appends an instruction; a terminated block refuses it.
    pub fn add_instruction(&mut self, instruction: Instruction) -> (r: Result<(), KetError>)
        ensures
            old(self)@.ended ==> r == Err::<(), KetError>(KetError::BlockTerminated)
                && final(self)@ == old(self)@,
            !old(self)@.ended ==> r is Ok && final(self)@ == old(self)@.appended(instruction@),
    {
        if self.ended {
            return Err(KetError::BlockTerminated);
        }
        let n = self.adj_instructions.len();
        if n == 0 {
            self.ended = match instruction {
                Instruction::Jump { .. } => true,
                Instruction::Branch { .. } => true,
                Instruction::Halt => true,
                _ => false,
            };
            self.instructions.push(instruction);
        } else {
            let ghost before = self.adj_instructions@[n - 1]@;
            self.adj_instructions[n - 1].push(instruction);
            assert(views(self.adj_instructions@[n - 1]@) =~= views(before).push(instruction@));
        }
        assert(self@.pending =~= old(self)@.appended(instruction@).pending);
        assert(self@.instructions =~= old(self)@.appended(instruction@).instructions);
        Ok(())
    }

    pub fn in_adj(&self) -> (r: bool)
        ensures
            r == self@.in_adj(),
    {
        self.adj_instructions.len() > 0
    }

    /// The number of open adjoint regions.
    pub fn adj_depth(&self) -> (r: usize)
        ensures
            r == self@.pending.len(),
    {
        self.adj_instructions.len()
    }

    /// Opens an adjoint region; a terminated block refuses it.
    pub fn adj_begin(&mut self) -> (r: Result<(), KetError>)
        ensures
            old(self)@.ended ==> r == Err::<(), KetError>(KetError::BlockTerminated)
                && final(self)@ == old(self)@,
            !old(self)@.ended ==> r is Ok && final(self)@ == old(self)@.adjoint_opened(),
    {
        if self.ended {
            return Err(KetError::BlockTerminated);
        }
        self.adj_instructions.push(Vec::new());
        assert(views(self.adj_instructions@.last()@) =~= Seq::<InstructionView>::empty());
        assert(self@.pending =~= old(self)@.adjoint_opened().pending);
        Ok(())
    }

    /// Closes the innermost adjoint region, moving its instructions, in reverse
    /// order, to the next outer destination.
    pub fn adj_end(&mut self) -> (r: Result<(), KetError>)
        ensures
            !old(self)@.in_adj() ==> r == Err::<(), KetError>(KetError::NoOpenAdjoint)
                && final(self)@ == old(self)@,
            old(self)@.in_adj() ==> r is Ok && final(self)@ == old(self)@.adjoint_closed(),
    {
        if self.adj_instructions.len() == 0 {
            return Err(KetError::NoOpenAdjoint);
        }
        let ghost model = self@;
        let mut inner = self.adj_instructions.pop().unwrap();
        let ghost top = inner@;
        assert(views(top) == model.pending.last());
        assert(views(top.reverse()) =~= views(top).reverse());
        if self.adj_instructions.len() == 0 {
            let ghost start = self.instructions@;
            while inner.len() > 0
                invariant
                    inner@.len() <= top.len(),
                    inner@ == top.subrange(0, inner@.len() as int),
                    self.instructions@ == start + top.subrange(inner@.len() as int, top.len() as int).reverse(),
                    self.adj_instructions@.len() == 0,
                    self.ended == model.ended,
                decreases inner.len(),
            {
                let ghost k = inner@.len() as int;
                let i = inner.pop().unwrap();
                self.instructions.push(i);
                assert(top.subrange(k - 1, top.len() as int).reverse() =~= top.subrange(k, top.len() as int).reverse().push(top[k - 1]));
                assert(inner@ =~= top.subrange(0, k - 1));
            }
            assert(top.subrange(0, top.len() as int) =~= top);
            assert(views(start + top.reverse()) =~= views(start) + views(top.reverse()));
        } else {
            let mut outer = self.adj_instructions.pop().unwrap();
            let ghost start = outer@;
            while inner.len() > 0
                invariant
                    inner@.len() <= top.len(),
                    inner@ == top.subrange(0, inner@.len() as int),
                    outer@ == start + top.subrange(inner@.len() as int, top.len() as int).reverse(),
                decreases inner.len(),
            {
                let ghost k = inner@.len() as int;
                let i = inner.pop().unwrap();
                outer.push(i);
                assert(top.subrange(k - 1, top.len() as int).reverse() =~= top.subrange(k, top.len() as int).reverse().push(top[k - 1]));
                assert(inner@ =~= top.subrange(0, k - 1));
            }
            assert(top.subrange(0, top.len() as int) =~= top);
            assert(views(start + top.reverse()) =~= views(start) + views(top.reverse()));
            self.adj_instructions.push(outer);
        }
        assert(self@.pending =~= model.adjoint_closed().pending);
        assert(self@.instructions =~= model.adjoint_closed().instructions);
        Ok(())
    }

    /// The main sequence of the block.
    pub fn instructions(&self) -> (r: &[Instruction])
        ensures
            views(r@) == self@.instructions,
    {
        self.instructions.as_slice()
    }

    /// Whether a terminator has ended the block.
    pub fn ended(&self) -> (r: bool)
        ensures
            r == self@.ended,
    {
        self.ended
    }
}

} // verus!
