use vstd::prelude::*;

use crate::code_block::{views, BlockModel, ClassicalOp, CodeBlock, Instruction, InstructionView, QuantumGate};
use crate::error::KetError;
use crate::number::Real;
use crate::object::{DumpData, Dump, Future, HandleView, Label, Pid, Qubit, QubitView};

verus! {

/// The result that the backend sends back: one value per future issued (the
/// reserved future 0 included), one snapshot per dump issued, and the
/// execution time.
pub struct QuantumResult {
    pub future: Vec<i64>,
    pub dump: Vec<DumpData>,
    pub exec_time: Real,
}

/// Counters of a process, for the backend.
#[derive(Debug, Clone, Copy, PartialEq, Eq, Structural)]
pub struct Metrics {
    pub max_num_qubit: u32,
    pub qubit_count: u32,
    pub future_count: u32,
    pub dump_count: u32,
    pub label_count: u32,
    pub timeout: Option<u32>,
}

/// What a process holds.
pub struct ProcessView {
    pub pid: u32,
    /// Qubits allocated and not yet freed.
    pub num_qubit: u32,
    /// The largest value `num_qubit` has had.
    pub max_num_qubit: u32,
    /// Qubits issued; the next qubit gets this index.
    pub qubit_count: u32,
    /// The basic blocks; a label's index is its block's index.
    pub blocks: Seq<BlockModel>,
    /// The block that instructions go to.
    pub current_block: u32,
    /// The open control scopes, innermost last.
    pub ctrl_stack: Seq<Seq<u32>>,
    /// One cell per future issued; the next future gets index `futures.len()`.
    pub futures: Seq<Option<i64>>,
    /// One cell per dump issued; the next dump gets index `dumps.len()`.
    pub dumps: Seq<Option<DumpData>>,
    pub timeout: Option<u32>,
    pub exec_time: Option<Real>,
    /// Set once the program was handed out.
    pub waiting_result: bool,
}

/// Why the process `pid` refuses a qubit handle: it belongs to another
/// process, or it was freed.
pub open spec fn handle_error(pid: u32, q: QubitView) -> Option<KetError> {
    if q.pid != pid {
        Some(KetError::UnmatchedPid)
    } else if !q.allocated {
        Some(KetError::DeallocatedQubit)
    } else {
        None
    }
}

/// The error for the first of `qs` that the process `pid` refuses; `None`
/// when it accepts them all.
pub open spec fn first_handle_error(pid: u32, qs: Seq<QubitView>) -> Option<KetError>
    decreases qs.len(),
{
    if qs.len() == 0 {
        None
    } else if handle_error(pid, qs[0]) is Some {
        handle_error(pid, qs[0])
    } else {
        first_handle_error(pid, qs.drop_first())
    }
}

/// The views of a sequence of mutable qubit references.
pub open spec fn mut_qubit_views(qs: Seq<&mut Qubit>) -> Seq<QubitView> {
    qs.map_values(|q: &mut Qubit| q@)
}

/// The views of a sequence of qubit references.
pub open spec fn qubit_views(qs: Seq<&Qubit>) -> Seq<QubitView> {
    qs.map_values(|q: &Qubit| q@)
}

/// The indices of a sequence of qubits.
pub open spec fn qubit_indices(qs: Seq<QubitView>) -> Seq<u32> {
    qs.map_values(|q: QubitView| q.index)
}

impl ProcessView {
    pub open spec fn wf(self) -> bool {
        &&& 1 <= self.blocks.len() <= u32::MAX
        &&& self.current_block < self.blocks.len()
        &&& 1 <= self.futures.len() <= u32::MAX
        &&& self.dumps.len() <= u32::MAX
        &&& self.num_qubit <= self.max_num_qubit <= self.qubit_count
    }

    /// The block that instructions go to.
    pub open spec fn cur(self) -> BlockModel {
        self.blocks[self.current_block as int]
    }

    pub open spec fn in_adj(self) -> bool {
        self.cur().in_adj()
    }

    pub open spec fn in_ctrl_or_adj(self) -> bool {
        self.ctrl_stack.len() > 0 || self.in_adj()
    }

    /// The qubits of every open control scope, outermost first.
    pub open spec fn controls(self) -> Seq<u32> {
        self.ctrl_stack.flatten()
    }

    /// The process after `i` was appended to the current block.
    pub open spec fn appended(self, i: InstructionView) -> ProcessView {
        ProcessView {
            blocks: self.blocks.update(self.current_block as int, self.cur().appended(i)),
            ..self
        }
    }

    /// A label that this process did not issue.
    pub open spec fn label_foreign(self, l: HandleView) -> bool {
        l.pid != self.pid || l.index >= self.blocks.len()
    }

    /// A future that this process did not issue.
    pub open spec fn future_foreign(self, f: HandleView) -> bool {
        f.pid != self.pid || f.index >= self.futures.len()
    }

    /// The number of adjoint regions open in the current block.
    pub open spec fn adj_depth(self) -> nat {
        self.cur().pending.len()
    }

    /// Whether one of `qs` is a qubit of an open control scope.
    pub open spec fn any_controlled(self, qs: Seq<QubitView>) -> bool {
        exists|i: int| 0 <= i < qs.len() && self.controls().contains(#[trigger] qs[i].index)
    }

    pub open spec fn gate_error(self, q: QubitView) -> Option<KetError> {
        if handle_error(self.pid, q) is Some {
            handle_error(self.pid, q)
        } else if self.controls().contains(q.index) {
            Some(KetError::TargetAlsoControl)
        } else if self.cur().ended {
            Some(KetError::BlockTerminated)
        } else {
            None
        }
    }

    pub open spec fn plugin_error(self, qs: Seq<QubitView>) -> Option<KetError> {
        if first_handle_error(self.pid, qs) is Some {
            first_handle_error(self.pid, qs)
        } else if self.any_controlled(qs) {
            Some(KetError::TargetAlsoControl)
        } else if self.cur().ended {
            Some(KetError::BlockTerminated)
        } else {
            None
        }
    }

    /// The error of `measure` and of `dump` on `qs`.
    pub open spec fn measure_error(self, qs: Seq<QubitView>) -> Option<KetError> {
        if self.in_ctrl_or_adj() {
            Some(KetError::IllegalInControlOrAdjoint)
        } else if first_handle_error(self.pid, qs) is Some {
            first_handle_error(self.pid, qs)
        } else if self.cur().ended {
            Some(KetError::BlockTerminated)
        } else {
            None
        }
    }

    pub open spec fn ctrl_push_error(self, qs: Seq<QubitView>) -> Option<KetError> {
        if first_handle_error(self.pid, qs) is Some {
            first_handle_error(self.pid, qs)
        } else if self.any_controlled(qs) {
            Some(KetError::QubitAlreadyControl)
        } else {
            None
        }
    }

    /// The error of a classical operation on the futures `fs`.
    pub open spec fn int_error(self, fs: Seq<HandleView>) -> Option<KetError> {
        if self.in_ctrl_or_adj() {
            Some(KetError::IllegalInControlOrAdjoint)
        } else if exists|i: int| 0 <= i < fs.len() && self.future_foreign(#[trigger] fs[i]) {
            Some(KetError::UnmatchedPid)
        } else if self.cur().ended {
            Some(KetError::BlockTerminated)
        } else {
            None
        }
    }

    /// The error of `jump` and of `branch`.
    pub open spec fn jump_error(self, foreign: bool) -> Option<KetError> {
        if foreign {
            Some(KetError::UnmatchedPid)
        } else if self.cur().ended {
            Some(KetError::BlockTerminated)
        } else {
            None
        }
    }

    /// No counter of `self` exceeds that of `later`: qubits, futures, dumps
    /// and labels issued.
    pub open spec fn counters_le(self, later: ProcessView) -> bool {
        &&& self.qubit_count <= later.qubit_count
        &&& self.futures.len() <= later.futures.len()
        &&& self.dumps.len() <= later.dumps.len()
        &&& self.blocks.len() <= later.blocks.len()
    }

    /// The process after a result was injected: every future and dump cell
    /// holds the value at its index, and the execution time is recorded.
    pub open spec fn injected(self, future: Seq<i64>, dump: Seq<DumpData>, exec_time: Real) -> ProcessView {
        ProcessView {
            futures: future.map_values(|v: i64| Some(v)),
            dumps: dump.map_values(|d: DumpData| Some(d)),
            exec_time: Some(exec_time),
            ..self
        }
    }

    /// The process with the current block replaced by `b`.
    pub open spec fn with_cur(self, b: BlockModel) -> ProcessView {
        ProcessView { blocks: self.blocks.update(self.current_block as int, b), ..self }
    }

    /// The process after the program was handed out: the current block ends
    /// with Halt unless a terminator already ended it.
    pub open spec fn prepared(self) -> ProcessView {
        let p = if self.cur().ended {
            self
        } else {
            self.appended(InstructionView::Halt)
        };
        ProcessView { waiting_result: true, ..p }
    }

    /// The error of `allocate_qubit`: not allowed inside a control scope or
    /// an adjoint region, nor in an ended block.
    pub open spec fn allocate_error(self) -> Option<KetError> {
        if self.in_ctrl_or_adj() {
            Some(KetError::IllegalInControlOrAdjoint)
        } else if self.cur().ended {
            Some(KetError::BlockTerminated)
        } else {
            None
        }
    }

    pub open spec fn free_error(self, q: QubitView) -> Option<KetError> {
        if handle_error(self.pid, q) is Some {
            handle_error(self.pid, q)
        } else if self.cur().ended {
            Some(KetError::BlockTerminated)
        } else {
            None
        }
    }
}

/// The state of one program under construction: its blocks, its control
/// scopes, the counters that issue handles, and the cells that the result
/// fills.
pub struct Process {
    pid: u32,
    num_qubit: u32,
    max_num_qubit: u32,
    qubit_count: u32,
    blocks: Vec<CodeBlock>,
    current_block: u32,
    ctrl_stack: Vec<Vec<u32>>,
    futures: Vec<Option<i64>>,
    dumps: Vec<Option<DumpData>>,
    timeout: Option<u32>,
    exec_time: Option<Real>,
    waiting_result: bool,
}

impl View for Process {
    type V = ProcessView;

    closed spec fn view(&self) -> ProcessView {
        ProcessView {
            pid: self.pid,
            num_qubit: self.num_qubit,
            max_num_qubit: self.max_num_qubit,
            qubit_count: self.qubit_count,
            blocks: self.blocks@.map_values(|b: CodeBlock| b@),
            current_block: self.current_block,
            ctrl_stack: self.ctrl_stack@.map_values(|v: Vec<u32>| v@),
            futures: self.futures@,
            dumps: self.dumps@,
            timeout: self.timeout,
            exec_time: self.exec_time,
            waiting_result: self.waiting_result,
        }
    }
}

impl Process {
    /// A process with one empty block and the reserved future 0, whose value
    /// is 0.
    pub fn new(pid: u32) -> (r: Process)
        ensures
            r@ == (ProcessView {
                pid,
                num_qubit: 0,
                max_num_qubit: 0,
                qubit_count: 0,
                blocks: seq![BlockModel::empty()],
                current_block: 0,
                ctrl_stack: Seq::empty(),
                futures: seq![Some(0i64)],
                dumps: Seq::empty(),
                timeout: None,
                exec_time: None,
                waiting_result: false,
            }),
    {
        let r = Process {
            pid,
            num_qubit: 0,
            max_num_qubit: 0,
            qubit_count: 0,
            blocks: vec![CodeBlock::new()],
            current_block: 0,
            ctrl_stack: Vec::new(),
            futures: vec![Some(0i64)],
            dumps: Vec::new(),
            timeout: None,
            exec_time: None,
            waiting_result: false,
        };
        assert(r@.blocks =~= seq![BlockModel::empty()]);
        assert(r@.ctrl_stack =~= Seq::<Seq<u32>>::empty());
        assert(r@.futures =~= seq![Some(0i64)]);
        r
    }

    pub fn pid(&self) -> (r: u32)
        ensures
            r == self@.pid,
    {
        self.pid
    }

    /// Appends to the current block; the caller has checked that it is open.
    fn append(&mut self, instruction: Instruction)
        requires
            old(self)@.wf(),
            !old(self)@.cur().ended,
        ensures
            final(self)@.wf(),
            old(self)@.counters_le(final(self)@),
            final(self)@ == old(self)@.appended(instruction@),
    {
        let c = self.current_block as usize;
        let ghost i = instruction@;
        let _ = self.blocks[c].add_instruction(instruction);
        assert(self@.blocks =~= old(self)@.blocks.update(c as int, old(self)@.cur().appended(i)));
    }

    fn check_not_ctrl_adj_err(&self) -> (r: Result<(), KetError>)
        requires
            self@.wf(),
        ensures
            r is Ok <==> !self@.in_ctrl_or_adj(),
            r matches Err(e) ==> e == KetError::IllegalInControlOrAdjoint,
    {
        if self.ctrl_stack.len() > 0 {
            return Err(KetError::IllegalInControlOrAdjoint);
        }
        if self.blocks[self.current_block as usize].in_adj() {
            return Err(KetError::IllegalInControlOrAdjoint);
        }
        Ok(())
    }

    fn check_block_open(&self) -> (r: Result<(), KetError>)
        requires
            self@.wf(),
        ensures
            r is Ok <==> !self@.cur().ended,
            r matches Err(e) ==> e == KetError::BlockTerminated,
    {
        if self.blocks[self.current_block as usize].ended() {
            Err(KetError::BlockTerminated)
        } else {
            Ok(())
        }
    }

    fn match_pid<T: Pid>(&self, obj: &T) -> (r: Result<(), KetError>)
        ensures
            r is Ok <==> obj.spec_pid() == self@.pid,
            r matches Err(e) ==> e == KetError::UnmatchedPid,
    {
        if obj.pid() != self.pid {
            Err(KetError::UnmatchedPid)
        } else {
            Ok(())
        }
    }

    fn check_qubit(&self, qubit: &Qubit) -> (r: Result<(), KetError>)
        ensures
            r matches Err(e) ==> handle_error(self@.pid, qubit@) == Some(e),
            r is Ok ==> handle_error(self@.pid, qubit@) is None,
    {
        if let Err(e) = self.match_pid(qubit) {
            return Err(e);
        }
        qubit.not_allocated_err()
    }

    /// Issues a new qubit and appends its Alloc instruction. Not allowed
    /// inside a control scope or an adjoint region.
    pub fn allocate_qubit(&mut self, dirty: bool) -> (r: Result<Qubit, KetError>)
        requires
            old(self)@.wf(),
            old(self)@.qubit_count < u32::MAX,
        ensures
            final(self)@.wf(),
            old(self)@.counters_le(final(self)@),
            match old(self)@.allocate_error() {
                Some(e) => r == Err::<Qubit, KetError>(e) && final(self)@ == old(self)@,
                None => r matches Ok(q) && q@ == (QubitView {
                    index: old(self)@.qubit_count,
                    pid: old(self)@.pid,
                    allocated: true,
                    measured: false,
                }) && final(self)@ == (ProcessView {
                    qubit_count: (old(self)@.qubit_count + 1) as u32,
                    num_qubit: (old(self)@.num_qubit + 1) as u32,
                    max_num_qubit: if old(self)@.num_qubit + 1 > old(self)@.max_num_qubit {
                        (old(self)@.num_qubit + 1) as u32
                    } else {
                        old(self)@.max_num_qubit
                    },
                    ..old(self)@.appended(
                        InstructionView::Alloc { dirty, target: old(self)@.qubit_count },
                    )
                }),
            },
    {
        if let Err(e) = self.check_not_ctrl_adj_err() {
            return Err(e);
        }
        if let Err(e) = self.check_block_open() {
            return Err(e);
        }
        let index = self.qubit_count;
        self.append(Instruction::Alloc { dirty, target: index });
        self.qubit_count = index + 1;
        if self.num_qubit + 1 > self.max_num_qubit {
            self.max_num_qubit = self.num_qubit + 1;
        }
        self.num_qubit = self.num_qubit + 1;
        Ok(Qubit::new(index, self.pid))
    }

    /// Appends a Free instruction and marks the handle deallocated.
    pub fn free(&mut self, qubit: &mut Qubit, dirty: bool) -> (r: Result<(), KetError>)
        requires
            old(self)@.wf(),
        ensures
            final(self)@.wf(),
            old(self)@.counters_le(final(self)@),
            match old(self)@.free_error(old(qubit)@) {
                Some(e) => r == Err::<(), KetError>(e) && final(self)@ == old(self)@ && final(qubit)@
                    == old(qubit)@,
                None => r is Ok && final(qubit)@ == (QubitView {
                    allocated: false,
                    ..old(qubit)@
                }) && final(self)@ == (ProcessView {
                    num_qubit: if old(self)@.num_qubit > 0 {
                        (old(self)@.num_qubit - 1) as u32
                    } else {
                        0
                    },
                    ..old(self)@.appended(
                        InstructionView::Free { dirty, target: old(qubit)@.index },
                    )
                }),
            },
    {
        if let Err(e) = self.check_qubit(qubit) {
            return Err(e);
        }
        if let Err(e) = self.check_block_open() {
            return Err(e);
        }
        self.append(Instruction::Free { dirty, target: qubit.index() });
        if self.num_qubit > 0 {
            self.num_qubit = self.num_qubit - 1;
        }
        qubit.set_deallocated();
        Ok(())
    }

    /// The qubits of every open control scope, outermost first.
    fn get_ctrl_as_vec(&self) -> (r: Vec<u32>)
        ensures
            r@ == self@.controls(),
    {
        let mut tmp_vec: Vec<u32> = Vec::new();
        let mut i: usize = 0;
        while i < self.ctrl_stack.len()
            invariant
                i <= self.ctrl_stack@.len(),
                tmp_vec@ == self@.ctrl_stack.take(i as int).flatten(),
            decreases self.ctrl_stack@.len() - i,
        {
            let inner = &self.ctrl_stack[i];
            let ghost before = tmp_vec@;
            let mut j: usize = 0;
            while j < inner.len()
                invariant
                    j <= inner@.len(),
                    tmp_vec@ == before + inner@.take(j as int),
                decreases inner@.len() - j,
            {
                tmp_vec.push(inner[j]);
                j += 1;
                assert(inner@.take(j as int) =~= inner@.take(j - 1).push(inner@[j - 1]));
            }
            proof {
                let stack = self@.ctrl_stack;
                assert(inner@.take(inner@.len() as int) =~= inner@);
                assert(stack.take(i + 1) =~= stack.take(i as int).push(stack[i as int]));
                stack.take(i as int).lemma_flatten_push(stack[i as int]);
            }
            i += 1;
        }
        assert(self@.ctrl_stack.take(i as int) =~= self@.ctrl_stack);
        tmp_vec
    }

    /// Fails when the target is one of the controls.
    fn target_in_ctrl_err(target: &Qubit, control: &Vec<u32>) -> (r: Result<(), KetError>)
        ensures
            r is Ok <==> !control@.contains(target@.index),
            r matches Err(e) ==> e == KetError::TargetAlsoControl,
    {
        if contains(control, target.index()) {
            Err(KetError::TargetAlsoControl)
        } else {
            Ok(())
        }
    }

    /// Checks the qubits in order, failing on the first one refused.
    fn check_qubits(&self, qubits: &[&Qubit]) -> (r: Result<(), KetError>)
        ensures
            r matches Err(e) ==> first_handle_error(self@.pid, qubit_views(qubits@)) == Some(e),
            r is Ok ==> first_handle_error(self@.pid, qubit_views(qubits@)) is None,
    {
        let ghost qs = qubit_views(qubits@);
        assert(qs.subrange(0, qs.len() as int) =~= qs);
        let mut i: usize = 0;
        while i < qubits.len()
            invariant
                i <= qs.len(),
                qs.len() == qubits@.len(),
                qs == qubit_views(qubits@),
                first_handle_error(self@.pid, qs) == first_handle_error(
                    self@.pid,
                    qs.subrange(i as int, qs.len() as int),
                ),
            decreases qs.len() - i,
        {
            assert(qs.subrange(i as int, qs.len() as int).drop_first() =~= qs.subrange(
                i + 1,
                qs.len() as int,
            ));
            if let Err(e) = self.check_qubit(qubits[i]) {
                return Err(e);
            }
            i += 1;
        }
        assert(qs.subrange(i as int, qs.len() as int) =~= Seq::<QubitView>::empty());
        Ok(())
    }

    /// The indices of the qubits, in order.
    fn indices_of(qubits: &[&Qubit]) -> (r: Vec<u32>)
        ensures
            r@ == qubit_indices(qubit_views(qubits@)),
    {
        let mut r: Vec<u32> = Vec::new();
        let mut i: usize = 0;
        while i < qubits.len()
            invariant
                i <= qubits@.len(),
                r@ == qubit_indices(qubit_views(qubits@)).take(i as int),
            decreases qubits@.len() - i,
        {
            r.push(qubits[i].index());
            i += 1;
            assert(r@ =~= qubit_indices(qubit_views(qubits@)).take(i as int));
        }
        assert(r@ =~= qubit_indices(qubit_views(qubits@)));
        r
    }

    /// Whether one of the qubits is among the controls.
    fn any_in(control: &Vec<u32>, qubits: &[&Qubit]) -> (r: bool)
        ensures
            r == exists|i: int|
                0 <= i < qubits@.len() && control@.contains(#[trigger] qubit_views(qubits@)[i].index),
    {
        let ghost qs = qubit_views(qubits@);
        let mut i: usize = 0;
        while i < qubits.len()
            invariant
                i <= qubits@.len(),
                qs == qubit_views(qubits@),
                forall|k: int| 0 <= k < i ==> !control@.contains(#[trigger] qs[k].index),
            decreases qubits@.len() - i,
        {
            if contains(control, qubits[i].index()) {
                assert(control@.contains(qs[i as int].index));
                return true;
            }
            i += 1;
        }
        false
    }

    /// Applies a gate to the target, controlled by the qubits of every open
    /// control scope. Under an odd number of open adjoint regions, it is
    /// replaced by its inverse (a rotation's angle is negated).
    pub fn apply_gate(&mut self, gate: QuantumGate, target: &Qubit) -> (r: Result<(), KetError>)
        requires
            old(self)@.wf(),
        ensures
            final(self)@.wf(),
            old(self)@.counters_le(final(self)@),
            match old(self)@.gate_error(target@) {
                Some(e) => r == Err::<(), KetError>(e) && final(self)@ == old(self)@,
                None => r is Ok && final(self)@ == old(self)@.appended(
                    InstructionView::Gate {
                        gate: gate.under_adjoint(old(self)@.adj_depth()),
                        target: target@.index,
                        control: old(self)@.controls(),
                    },
                ),
            },
    {
        if let Err(e) = self.check_qubit(target) {
            return Err(e);
        }
        let control = self.get_ctrl_as_vec();
        if let Err(e) = Process::target_in_ctrl_err(target, &control) {
            return Err(e);
        }
        if let Err(e) = self.check_block_open() {
            return Err(e);
        }
        let depth = self.blocks[self.current_block as usize].adj_depth();
        let gate = if depth % 2 == 1 {
            gate.inverse()
        } else {
            gate
        };
        self.append(Instruction::Gate { gate, target: target.index(), control });
        Ok(())
    }

    /// Applies a backend plugin to the targets, controlled by the qubits of
    /// every open control scope; `adj` is set under an odd number of open
    /// adjoint regions. `args` is handed to the backend as it is.
    pub fn apply_plugin(&mut self, name: &str, target: &[&Qubit], args: &str) -> (r: Result<
        (),
        KetError,
    >)
        requires
            old(self)@.wf(),
        ensures
            final(self)@.wf(),
            old(self)@.counters_le(final(self)@),
            match old(self)@.plugin_error(qubit_views(target@)) {
                Some(e) => r == Err::<(), KetError>(e) && final(self)@ == old(self)@,
                None => r is Ok && final(self)@ == old(self)@.appended(
                    InstructionView::Plugin {
                        name: name@,
                        target: qubit_indices(qubit_views(target@)),
                        control: old(self)@.controls(),
                        adj: old(self)@.adj_depth() % 2 == 1,
                        args: args@,
                    },
                ),
            },
    {
        if let Err(e) = self.check_qubits(target) {
            return Err(e);
        }
        let control = self.get_ctrl_as_vec();
        if Process::any_in(&control, target) {
            return Err(KetError::TargetAlsoControl);
        }
        if let Err(e) = self.check_block_open() {
            return Err(e);
        }
        let depth = self.blocks[self.current_block as usize].adj_depth();
        let instruction = Instruction::Plugin {
            name: String::from_str(name),
            target: Process::indices_of(target),
            control,
            adj: depth % 2 == 1,
            args: String::from_str(args),
        };
        self.append(instruction);
        Ok(())
    }

    /// Measures the qubits into a new future, marking them measured. Not
    /// allowed inside a control scope or an adjoint region.
    pub fn measure(&mut self, qubits: &mut [&mut Qubit]) -> (r: Result<Future, KetError>)
        requires
            old(self)@.wf(),
            old(self)@.futures.len() < u32::MAX,
        ensures
            final(self)@.wf(),
            old(self)@.counters_le(final(self)@),
            match old(self)@.measure_error(mut_qubit_views(old(qubits)@)) {
                Some(e) => r == Err::<Future, KetError>(e) && final(self)@ == old(self)@
                    && mut_qubit_views(final(qubits)@) == mut_qubit_views(old(qubits)@),
                None => r matches Ok(f) && f@ == (HandleView {
                    index: old(self)@.futures.len() as u32,
                    pid: old(self)@.pid,
                }) && final(self)@ == (ProcessView {
                    futures: old(self)@.futures.push(None),
                    ..old(self)@.appended(
                        InstructionView::Measure {
                            qubits: qubit_indices(mut_qubit_views(old(qubits)@)),
                            output: old(self)@.futures.len() as u32,
                        },
                    )
                }) && mut_qubit_views(final(qubits)@) == mut_qubit_views(old(qubits)@).map_values(
                    |q: QubitView| QubitView { measured: true, ..q },
                ),
            },
    {
        if let Err(e) = self.check_not_ctrl_adj_err() {
            assert(mut_qubit_views(qubits@) =~= mut_qubit_views(old(qubits)@));
            return Err(e);
        }
        let ghost qs = mut_qubit_views(qubits@);
        assert(qs.subrange(0, qs.len() as int) =~= qs);
        let mut qubits_index: Vec<u32> = Vec::new();
        let mut i: usize = 0;
        while i < qubits.len()
            invariant
                i <= qs.len(),
                qs.len() == qubits@.len(),
                qs == mut_qubit_views(qubits@),
                qs == mut_qubit_views(old(qubits)@),
                qubits@ == old(qubits)@,
                self@ == old(self)@,
                self@.wf(),
                !self@.in_ctrl_or_adj(),
                qubits_index@ == qubit_indices(qs).take(i as int),
                first_handle_error(self@.pid, qs) == first_handle_error(
                    self@.pid,
                    qs.subrange(i as int, qs.len() as int),
                ),
            decreases qs.len() - i,
        {
            assert(qs.subrange(i as int, qs.len() as int).drop_first() =~= qs.subrange(
                i + 1,
                qs.len() as int,
            ));
            if let Err(e) = self.check_qubit(&*qubits[i]) {
                return Err(e);
            }
            qubits_index.push(qubits[i].index());
            i += 1;
            assert(qubits_index@ =~= qubit_indices(qs).take(i as int));
        }
        assert(qs.subrange(i as int, qs.len() as int) =~= Seq::<QubitView>::empty());
        assert(qubits_index@ =~= qubit_indices(qs));
        if let Err(e) = self.check_block_open() {
            return Err(e);
        }
        let mut i: usize = 0;
        while i < qubits.len()
            invariant
                qubits@.len() == qs.len(),
                i <= qs.len(),
                forall|k: int| 0 <= k < i ==> qubits@[k]@ == (QubitView { measured: true, ..qs[k] }),
                forall|k: int| i <= k < qs.len() ==> qubits@[k]@ == qs[k],
            decreases qs.len() - i,
        {
            qubits[i].set_measured();
            i += 1;
        }
        assert(mut_qubit_views(qubits@) =~= qs.map_values(
            |q: QubitView| QubitView { measured: true, ..q },
        ));
        let future_index = self.futures.len() as u32;
        self.futures.push(None);
        self.append(Instruction::Measure { qubits: qubits_index, output: future_index });
        Ok(Future::new(future_index, self.pid))
    }

    /// Opens a control scope over the qubits. A qubit of an open scope cannot
    /// be pushed again.
    pub fn ctrl_push(&mut self, qubits: &[&Qubit]) -> (r: Result<(), KetError>)
        requires
            old(self)@.wf(),
        ensures
            final(self)@.wf(),
            old(self)@.counters_le(final(self)@),
            match old(self)@.ctrl_push_error(qubit_views(qubits@)) {
                Some(e) => r == Err::<(), KetError>(e) && final(self)@ == old(self)@,
                None => r is Ok && final(self)@ == (ProcessView {
                    ctrl_stack: old(self)@.ctrl_stack.push(qubit_indices(qubit_views(qubits@))),
                    ..old(self)@
                }),
            },
    {
        if let Err(e) = self.check_qubits(qubits) {
            return Err(e);
        }
        let control = self.get_ctrl_as_vec();
        if Process::any_in(&control, qubits) {
            return Err(KetError::QubitAlreadyControl);
        }
        let scope = Process::indices_of(qubits);
        self.ctrl_stack.push(scope);
        assert(self@.ctrl_stack =~= old(self)@.ctrl_stack.push(
            qubit_indices(qubit_views(qubits@)),
        ));
        Ok(())
    }

    /// Closes the innermost control scope.
    pub fn ctrl_pop(&mut self) -> (r: Result<(), KetError>)
        requires
            old(self)@.wf(),
        ensures
            final(self)@.wf(),
            old(self)@.counters_le(final(self)@),
            old(self)@.ctrl_stack.len() == 0 ==> r == Err::<(), KetError>(KetError::NoOpenControl)
                && final(self)@ == old(self)@,
            old(self)@.ctrl_stack.len() > 0 ==> r is Ok && final(self)@ == (ProcessView {
                ctrl_stack: old(self)@.ctrl_stack.drop_last(),
                ..old(self)@
            }),
    {
        match self.ctrl_stack.pop() {
            Some(_) => {
                assert(self@.ctrl_stack =~= old(self)@.ctrl_stack.drop_last());
                Ok(())
            },
            None => Err(KetError::NoOpenControl),
        }
    }

    /// Opens an adjoint region in the current block.
    pub fn adj_begin(&mut self) -> (r: Result<(), KetError>)
        requires
            old(self)@.wf(),
        ensures
            final(self)@.wf(),
            old(self)@.counters_le(final(self)@),
            old(self)@.cur().ended ==> r == Err::<(), KetError>(KetError::BlockTerminated)
                && final(self)@ == old(self)@,
            !old(self)@.cur().ended ==> r is Ok && final(self)@ == old(self)@.with_cur(
                old(self)@.cur().adjoint_opened(),
            ),
    {
        let c = self.current_block as usize;
        let r = self.blocks[c].adj_begin();
        proof {
            if r is Err {
                assert(self@.blocks =~= old(self)@.blocks);
            } else {
                assert(self@.blocks =~= old(self)@.blocks.update(c as int, self.blocks@[c as int]@));
            }
        }
        r
    }

    /// Closes the innermost adjoint region of the current block.
    pub fn adj_end(&mut self) -> (r: Result<(), KetError>)
        requires
            old(self)@.wf(),
        ensures
            final(self)@.wf(),
            old(self)@.counters_le(final(self)@),
            !old(self)@.in_adj() ==> r == Err::<(), KetError>(KetError::NoOpenAdjoint) 
                && final(self)@ == old(self)@,
            old(self)@.in_adj() ==> r is Ok && final(self)@ == old(self)@.with_cur(
                old(self)@.cur().adjoint_closed(),
            ),
    {
        let c = self.current_block as usize;
        let r = self.blocks[c].adj_end();
        proof {
            if r is Err {
                assert(self@.blocks =~= old(self)@.blocks);
            } else {
                assert(self@.blocks =~= old(self)@.blocks.update(c as int, self.blocks@[c as int]@));
            }
        }
        r
    }

    /// Creates a new empty block and returns its label.
    pub fn get_label(&mut self) -> (r: Result<Label, KetError>)
        requires
            old(self)@.wf(),
            old(self)@.blocks.len() < u32::MAX,
        ensures
            final(self)@.wf(),
            old(self)@.counters_le(final(self)@),
            old(self)@.waiting_result ==> r == Err::<Label, KetError>(KetError::AwaitingResult)
                && final(self)@ == old(self)@,
            !old(self)@.waiting_result ==> (r matches Ok(l) && l@ == (HandleView {
                index: old(self)@.blocks.len() as u32,
                pid: old(self)@.pid,
            }) && final(self)@ == (ProcessView {
                blocks: old(self)@.blocks.push(BlockModel::empty()),
                ..old(self)@
            })),
    {
        if self.waiting_result {
            return Err(KetError::AwaitingResult);
        }
        let index = self.blocks.len() as u32;
        self.blocks.push(CodeBlock::new());
        assert(self@.blocks =~= old(self)@.blocks.push(BlockModel::empty()));
        Ok(Label::new(index, self.pid))
    }

    fn check_label(&self, label: &Label) -> (r: Result<(), KetError>)
        ensures
            r is Ok <==> !self@.label_foreign(label@),
            r matches Err(e) ==> e == KetError::UnmatchedPid,
    {
        if label.pid() != self.pid || label.index() as usize >= self.blocks.len() {
            Err(KetError::UnmatchedPid)
        } else {
            Ok(())
        }
    }

    fn check_future(&self, future: &Future) -> (r: Result<(), KetError>)
        ensures
            r is Ok <==> !self@.future_foreign(future@),
            r matches Err(e) ==> e == KetError::UnmatchedPid,
    {
        if future.pid() != self.pid || future.index() as usize >= self.futures.len() {
            Err(KetError::UnmatchedPid)
        } else {
            Ok(())
        }
    }

    /// Makes the label's block the one that instructions go to.
    pub fn open_block(&mut self, label: &Label) -> (r: Result<(), KetError>)
        requires
            old(self)@.wf(),
        ensures
            final(self)@.wf(),
            old(self)@.counters_le(final(self)@),
            old(self)@.label_foreign(label@) ==> r == Err::<(), KetError>(KetError::UnmatchedPid)
                && final(self)@ == old(self)@,
            !old(self)@.label_foreign(label@) ==> r is Ok && final(self)@ == (ProcessView {
                current_block: label@.index,
                ..old(self)@
            }),
    {
        if let Err(e) = self.check_label(label) {
            return Err(e);
        }
        self.current_block = label.index();
        Ok(())
    }

    /// Ends the current block with a jump to the label's block.
    pub fn jump(&mut self, label: &Label) -> (r: Result<(), KetError>)
        requires
            old(self)@.wf(),
        ensures
            final(self)@.wf(),
            old(self)@.counters_le(final(self)@),
            match old(self)@.jump_error(old(self)@.label_foreign(label@)) {
                Some(e) => r == Err::<(), KetError>(e) && final(self)@ == old(self)@,
                None => r is Ok && final(self)@ == old(self)@.appended(
                    InstructionView::Jump { addr: label@.index },
                ),
            },
    {
        if let Err(e) = self.check_label(label) {
            return Err(e);
        }
        if let Err(e) = self.check_block_open() {
            return Err(e);
        }
        self.append(Instruction::Jump { addr: label.index() });
        Ok(())
    }

    /// Ends the current block with a branch on the future `test`: to `then`
    /// when it is nonzero, else to `otherwise`.
    pub fn branch(&mut self, test: &Future, then: &Label, otherwise: &Label) -> (r: Result<
        (),
        KetError,
    >)
        requires
            old(self)@.wf(),
        ensures
            final(self)@.wf(),
            old(self)@.counters_le(final(self)@),
            match old(self)@.jump_error(
                old(self)@.future_foreign(test@) || old(self)@.label_foreign(then@)
                    || old(self)@.label_foreign(otherwise@),
            ) {
                Some(e) => r == Err::<(), KetError>(e) && final(self)@ == old(self)@,
                None => r is Ok && final(self)@ == old(self)@.appended(
                    InstructionView::Branch {
                        test: test@.index,
                        then: then@.index,
                        otherwise: otherwise@.index,
                    },
                ),
            },
    {
        if let Err(e) = self.check_future(test) {
            return Err(e);
        }
        if let Err(e) = self.check_label(then) {
            return Err(e);
        }
        if let Err(e) = self.check_label(otherwise) {
            return Err(e);
        }
        if let Err(e) = self.check_block_open() {
            return Err(e);
        }
        self.append(
            Instruction::Branch { test: test.index(), then: then.index(), otherwise: otherwise.index() },
        );
        Ok(())
    }

    /// Asks for a snapshot of the qubits' state into a new dump. Not allowed
    /// inside a control scope or an adjoint region.
    pub fn dump(&mut self, qubits: &[&Qubit]) -> (r: Result<Dump, KetError>)
        requires
            old(self)@.wf(),
            old(self)@.dumps.len() < u32::MAX,
        ensures
            final(self)@.wf(),
            old(self)@.counters_le(final(self)@),
            match old(self)@.measure_error(qubit_views(qubits@)) {
                Some(e) => r == Err::<Dump, KetError>(e) && final(self)@ == old(self)@,
                None => r matches Ok(d) && d@ == (HandleView {
                    index: old(self)@.dumps.len() as u32,
                    pid: old(self)@.pid,
                }) && final(self)@ == (ProcessView {
                    dumps: old(self)@.dumps.push(None),
                    ..old(self)@.appended(
                        InstructionView::Dump {
                            qubits: qubit_indices(qubit_views(qubits@)),
                            output: old(self)@.dumps.len() as u32,
                        },
                    )
                }),
            },
    {
        if let Err(e) = self.check_not_ctrl_adj_err() {
            return Err(e);
        }
        if let Err(e) = self.check_qubits(qubits) {
            return Err(e);
        }
        if let Err(e) = self.check_block_open() {
            return Err(e);
        }
        let qubits_index = Process::indices_of(qubits);
        let dump_index = self.dumps.len() as u32;
        self.dumps.push(None);
        self.append(Instruction::Dump { qubits: qubits_index, output: dump_index });
        Ok(Dump::new(dump_index, self.pid))
    }

    /// Appends `op` on the futures `lhs` and `rhs` into a new future. Not
    /// allowed inside a control scope or an adjoint region.
    pub fn add_int_op(&mut self, op: ClassicalOp, lhs: &Future, rhs: &Future) -> (r: Result<
        Future,
        KetError,
    >)
        requires
            old(self)@.wf(),
            old(self)@.futures.len() < u32::MAX,
        ensures
            final(self)@.wf(),
            old(self)@.counters_le(final(self)@),
            match old(self)@.int_error(seq![lhs@, rhs@]) {
                Some(e) => r == Err::<Future, KetError>(e) && final(self)@ == old(self)@,
                None => r matches Ok(f) && f@ == (HandleView {
                    index: old(self)@.futures.len() as u32,
                    pid: old(self)@.pid,
                }) && final(self)@ == (ProcessView {
                    futures: old(self)@.futures.push(None),
                    ..old(self)@.appended(
                        InstructionView::IntOp {
                            op,
                            result: old(self)@.futures.len() as u32,
                            lhs: lhs@.index,
                            rhs: rhs@.index,
                        },
                    )
                }),
            },
    {
        if let Err(e) = self.check_not_ctrl_adj_err() {
            return Err(e);
        }
        let ghost fs = seq![lhs@, rhs@];
        if let Err(e) = self.check_future(lhs) {
            assert(self@.future_foreign(fs[0]));
            return Err(e);
        }
        if let Err(e) = self.check_future(rhs) {
            assert(self@.future_foreign(fs[1]));
            return Err(e);
        }
        if let Err(e) = self.check_block_open() {
            return Err(e);
        }
        let result_index = self.futures.len() as u32;
        self.futures.push(None);
        self.append(
            Instruction::IntOp { op, result: result_index, lhs: lhs.index(), rhs: rhs.index() },
        );
        Ok(Future::new(result_index, self.pid))
    }

    /// Sets the future `result` to the value of the future `value`, as
    /// `result = 0 + value` with the reserved future 0.
    pub fn int_set(&mut self, result: &Future, value: &Future) -> (r: Result<(), KetError>)
        requires
            old(self)@.wf(),
        ensures
            final(self)@.wf(),
            old(self)@.counters_le(final(self)@),
            match old(self)@.int_error(seq![result@, value@]) {
                Some(e) => r == Err::<(), KetError>(e) && final(self)@ == old(self)@,
                None => r is Ok && final(self)@ == old(self)@.appended(
                    InstructionView::IntOp {
                        op: ClassicalOp::Add,
                        result: result@.index,
                        lhs: 0,
                        rhs: value@.index,
                    },
                ),
            },
    {
        if let Err(e) = self.check_not_ctrl_adj_err() {
            return Err(e);
        }
        let ghost fs = seq![result@, value@];
        if let Err(e) = self.check_future(result) {
            assert(self@.future_foreign(fs[0]));
            return Err(e);
        }
        if let Err(e) = self.check_future(value) {
            assert(self@.future_foreign(fs[1]));
            return Err(e);
        }
        if let Err(e) = self.check_block_open() {
            return Err(e);
        }
        self.append(
            Instruction::IntOp { op: ClassicalOp::Add, result: result.index(), lhs: 0, rhs: value.index() },
        );
        Ok(())
    }

    /// Creates a new future set to `value`. Not allowed inside a control scope
    /// or an adjoint region.
    pub fn int_new(&mut self, value: i64) -> (r: Result<Future, KetError>)
        requires
            old(self)@.wf(),
            old(self)@.futures.len() < u32::MAX,
        ensures
            final(self)@.wf(),
            old(self)@.counters_le(final(self)@),
            match old(self)@.int_error(Seq::empty()) {
                Some(e) => r == Err::<Future, KetError>(e) && final(self)@ == old(self)@,
                None => r matches Ok(f) && f@ == (HandleView {
                    index: old(self)@.futures.len() as u32,
                    pid: old(self)@.pid,
                }) && final(self)@ == (ProcessView {
                    futures: old(self)@.futures.push(None),
                    ..old(self)@.appended(
                        InstructionView::IntSet { result: old(self)@.futures.len() as u32, value },
                    )
                }),
            },
    {
        if let Err(e) = self.check_not_ctrl_adj_err() {
            return Err(e);
        }
        if let Err(e) = self.check_block_open() {
            return Err(e);
        }
        let index = self.futures.len() as u32;
        self.futures.push(None);
        self.append(Instruction::IntSet { result: index, value });
        Ok(Future::new(index, self.pid))
    }

    /// Ends the current block with Halt unless a terminator already ended it,
    /// and from then on refuses new blocks until the result comes.
    pub fn prepare_for_execution(&mut self)
        requires
            old(self)@.wf(),
        ensures
            final(self)@.wf(),
            old(self)@.counters_le(final(self)@),
            final(self)@ == old(self)@.prepared(),
    {
        let c = self.current_block as usize;
        if !self.blocks[c].ended() {
            self.append(Instruction::Halt);
        }
        self.waiting_result = true;
    }

    /// The main sequence of every block, in label order.
    pub fn blocks(&self) -> (r: Vec<&[Instruction]>)
        ensures
            r@.len() == self@.blocks.len(),
            forall|i: int|
                0 <= i < r@.len() ==> views(#[trigger] r@[i]@) == self@.blocks[i].instructions,
    {
        let mut r: Vec<&[Instruction]> = Vec::new();
        let mut i: usize = 0;
        while i < self.blocks.len()
            invariant
                i <= self.blocks@.len(),
                r@.len() == i,
                forall|k: int| 0 <= k < i ==> views(#[trigger] r@[k]@) == self@.blocks[k].instructions,
            decreases self.blocks@.len() - i,
        {
            r.push(self.blocks[i].instructions());
            i += 1;
        }
        r
    }

    /// Prepares the program for execution and returns it: the main sequence
    /// of every block, in label order.
    pub fn get_quantum_code(&mut self) -> (r: Vec<&[Instruction]>)
        requires
            old(self)@.wf(),
        ensures
            final(self)@.wf(),
            old(self)@.counters_le(final(self)@),
            final(self)@ == old(self)@.prepared(),
            r@.len() == final(self)@.blocks.len(),
            forall|i: int|
                0 <= i < r@.len() ==> views(#[trigger] r@[i]@) == final(self)@.blocks[i].instructions,
    {
        self.prepare_for_execution();
        self.blocks()
    }

    /// Fills the cells of every future and dump from the backend's result.
    /// The result must hold exactly one value per future issued and one
    /// snapshot per dump issued; otherwise nothing changes.
    pub fn set_quantum_result(&mut self, result: QuantumResult) -> (r: Result<(), KetError>)
        requires
            old(self)@.wf(),
        ensures
            final(self)@.wf(),
            old(self)@.counters_le(final(self)@),
            old(self)@.futures.len() != result.future@.len() || old(self)@.dumps.len()
                != result.dump@.len() ==> r == Err::<(), KetError>(KetError::ResultCountMismatch)
                && final(self)@ == old(self)@,
            old(self)@.futures.len() == result.future@.len() && old(self)@.dumps.len()
                == result.dump@.len() ==> r is Ok && final(self)@ == old(self)@.injected(
                result.future@,
                result.dump@,
                result.exec_time,
            ),
    {
        let QuantumResult { future, dump: mut dumps, exec_time } = result;
        if self.futures.len() != future.len() || self.dumps.len() != dumps.len() {
            return Err(KetError::ResultCountMismatch);
        }
        let ghost all_dumps = dumps@;
        let mut index: usize = 0;
        while index < future.len()
            invariant
                self.futures@.len() == future@.len(),
                index <= future@.len(),
                forall|k: int| 0 <= k < index ==> self.futures@[k] == Some(future@[k]),
                self@ == (ProcessView { futures: self@.futures, ..old(self)@ }),
            decreases future@.len() - index,
        {
            self.futures.set(index, Some(future[index]));
            index += 1;
        }
        // The dumps are filled from the back of the list, last issued first.
        let mut n: usize = self.dumps.len();
        while n > 0
            invariant
                self.dumps@.len() == all_dumps.len(),
                n <= all_dumps.len(),
                dumps@ == all_dumps.take(n as int),
                forall|k: int| n <= k < all_dumps.len() ==> self.dumps@[k] == Some(all_dumps[k]),
                self.futures@ == future@.map_values(|v: i64| Some(v)),
                self@ == (ProcessView { futures: self@.futures, dumps: self@.dumps, ..old(self)@ }),
            decreases n,
        {
            n -= 1;
            let d = dumps.pop();
            assert(dumps@ =~= all_dumps.take(n as int));
            self.dumps.set(n, d);
        }
        self.exec_time = Some(exec_time);
        assert(self@.futures =~= future@.map_values(|v: i64| Some(v)));
        assert(self@.dumps =~= all_dumps.map_values(|d: DumpData| Some(d)));
        Ok(())
    }

    /// The execution time of the program, once the result came.
    pub fn exec_time(&self) -> (r: Option<Real>)
        ensures
            r == self@.exec_time,
    {
        self.exec_time
    }

    /// Records a timeout for the backend; the builder does not act on it.
    pub fn set_timeout(&mut self, timeout: u32)
        requires
            old(self)@.wf(),
        ensures
            final(self)@.wf(),
            old(self)@.counters_le(final(self)@),
            final(self)@ == (ProcessView { timeout: Some(timeout), ..old(self)@ }),
    {
        self.timeout = Some(timeout);
    }

    pub fn get_metrics(&self) -> (r: Metrics)
        requires
            self@.wf(),
        ensures
            r == (Metrics {
                max_num_qubit: self@.max_num_qubit,
                qubit_count: self@.qubit_count,
                future_count: self@.futures.len() as u32,
                dump_count: self@.dumps.len() as u32,
                label_count: (self@.blocks.len() - 1) as u32,
                timeout: self@.timeout,
            }),
    {
        Metrics {
            max_num_qubit: self.max_num_qubit,
            qubit_count: self.qubit_count,
            future_count: self.futures.len() as u32,
            dump_count: self.dumps.len() as u32,
            label_count: (self.blocks.len() - 1) as u32,
            timeout: self.timeout,
        }
    }
}

impl Future {
    /// The value of the future, once the result came; `None` before, and for
    /// a future that the process did not issue.
    pub fn value(&self, process: &Process) -> (r: Option<i64>)
        ensures
            r == (if self@.pid == process@.pid && self@.index < process@.futures.len() {
                process@.futures[self@.index as int]
            } else {
                None
            }),
    {
        if self.pid() != process.pid || self.index() as usize >= process.futures.len() {
            None
        } else {
            process.futures[self.index() as usize]
        }
    }
}

impl Dump {
    /// The snapshot of the dump, once the result came; `None` before, and for
    /// a dump that the process did not issue.
    pub fn value<'a>(&self, process: &'a Process) -> (r: Option<&'a DumpData>)
        ensures
            match r {
                Some(d) => self@.pid == process@.pid && self@.index < process@.dumps.len()
                    && process@.dumps[self@.index as int] == Some(*d),
                None => !(self@.pid == process@.pid && self@.index < process@.dumps.len()
                    && process@.dumps[self@.index as int] is Some),
            },
    {
        if self.pid() != process.pid || self.index() as usize >= process.dumps.len() {
            None
        } else {
            match &process.dumps[self.index() as usize] {
                Some(d) => Some(d),
                None => None,
            }
        }
    }
}

/// Counters never decrease over a sequence of operations: each operation
/// ensures `counters_le` between the states before and after it, and the
/// relation composes. As every issuing operation gives its handle the value
/// of the counter and then raises it by one, the handles of each kind come out
/// with strictly increasing indices.
pub proof fn lemma_counters_le_trans(a: ProcessView, b: ProcessView, c: ProcessView)
    requires
        a.counters_le(b),
        b.counters_le(c),
    ensures
        a.counters_le(c),
{
}

/// A result with the right number of values resolves every future and every
/// dump: the future or dump of index `i` holds the `i`-th value of the list,
/// the dumps being taken from the back of their list, last issued first.
pub proof fn lemma_injection_resolves_all(
    p: ProcessView,
    future: Seq<i64>,
    dump: Seq<DumpData>,
    exec_time: Real,
)
    requires
        future.len() == p.futures.len(),
        dump.len() == p.dumps.len(),
    ensures
        forall|i: int|
            0 <= i < p.futures.len() ==> #[trigger] p.injected(future, dump, exec_time).futures[i]
                == Some(future[i]),
        forall|i: int|
            0 <= i < p.dumps.len() ==> #[trigger] p.injected(future, dump, exec_time).dumps[i]
                == Some(dump[i]),
        p.injected(future, dump, exec_time).futures.len() == p.futures.len(),
        p.injected(future, dump, exec_time).dumps.len() == p.dumps.len(),
{
}

/// Whether `x` is one of `v`.
fn contains(v: &Vec<u32>, x: u32) -> (r: bool)
    ensures
        r == v@.contains(x),
{
    let mut i: usize = 0;
    while i < v.len()
        invariant
            i <= v@.len(),
            forall|k: int| 0 <= k < i ==> v@[k] != x,
        decreases v@.len() - i,
    {
        if v[i] == x {
            return true;
        }
        i += 1;
    }
    false
}

} // verus!
