use ket::{
    ClassicalOp, CodeBlock, DataType, DumpData, Instruction, KetError, Process, QuantumGate,
    QuantumResult, Real,
};

fn angle(x: f64) -> Real {
    Real::from_bits(x.to_bits())
}

fn angle_value(r: Real) -> f64 {
    f64::from_bits(r.to_bits())
}

fn alloc_instr(target: u32) -> Instruction {
    Instruction::Alloc { dirty: false, target }
}

#[test]
fn bell_print() {
    let mut p = Process::new(0);
    let mut a = p.allocate_qubit(false).unwrap();
    let mut b = p.allocate_qubit(false).unwrap();

    p.apply_gate(QuantumGate::Hadamard, &a).unwrap();
    p.ctrl_push(&[&a]).unwrap();
    p.apply_gate(QuantumGate::PauliX, &b).unwrap();
    p.ctrl_pop().unwrap();

    let m = p.measure(&mut [&mut a, &mut b]).unwrap();

    println!("{:#?}", p.get_quantum_code());
    println!("{:#?}", m);
}

#[test]
fn bell_end_to_end() {
    let mut p = Process::new(0);
    let mut a = p.allocate_qubit(false).unwrap();
    let mut b = p.allocate_qubit(false).unwrap();
    p.apply_gate(QuantumGate::Hadamard, &a).unwrap();
    p.ctrl_push(&[&a]).unwrap();
    p.apply_gate(QuantumGate::PauliX, &b).unwrap();
    p.ctrl_pop().unwrap();
    let m = p.measure(&mut [&mut a, &mut b]).unwrap();
    assert_eq!(m.index(), 1);
    assert!(a.measured() && b.measured());

    let code = p.get_quantum_code();
    assert_eq!(code.len(), 1);
    let expected = vec![
        alloc_instr(0),
        alloc_instr(1),
        Instruction::Gate { gate: QuantumGate::Hadamard, target: 0, control: vec![] },
        Instruction::Gate { gate: QuantumGate::PauliX, target: 1, control: vec![0] },
        Instruction::Measure { qubits: vec![0, 1], output: 1 },
        Instruction::Halt,
    ];
    assert_eq!(code[0].to_vec(), expected);

    assert_eq!(m.value(&p), None);
    let result = QuantumResult { future: vec![0, 1], dump: vec![], exec_time: angle(1.23) };
    p.set_quantum_result(result).unwrap();
    assert_eq!(m.value(&p), Some(1));
    assert_eq!(p.exec_time().map(angle_value), Some(1.23));
}

#[test]
fn adjoint_reverses_order() {
    let mut b = CodeBlock::new();
    b.adj_begin().unwrap();
    b.add_instruction(alloc_instr(1)).unwrap();
    b.add_instruction(alloc_instr(2)).unwrap();
    assert!(b.instructions().is_empty());
    b.adj_end().unwrap();
    assert_eq!(b.instructions().to_vec(), vec![alloc_instr(2), alloc_instr(1)]);
}

#[test]
fn nested_adjoint_composes() {
    let mut b = CodeBlock::new();
    b.adj_begin().unwrap();
    b.add_instruction(alloc_instr(1)).unwrap();
    b.adj_begin().unwrap();
    b.add_instruction(alloc_instr(2)).unwrap();
    b.add_instruction(alloc_instr(3)).unwrap();
    b.adj_end().unwrap();
    b.add_instruction(alloc_instr(4)).unwrap();
    b.adj_end().unwrap();
    assert_eq!(
        b.instructions().to_vec(),
        vec![alloc_instr(4), alloc_instr(2), alloc_instr(3), alloc_instr(1)]
    );
    assert!(!b.in_adj());
}

#[test]
fn adj_end_without_region_fails() {
    let mut b = CodeBlock::new();
    assert_eq!(b.adj_end(), Err(KetError::NoOpenAdjoint));
    let mut p = Process::new(3);
    assert_eq!(p.adj_end(), Err(KetError::NoOpenAdjoint));
}

#[test]
fn process_adjoint_reverses_gates() {
    let mut p = Process::new(0);
    let q = p.allocate_qubit(false).unwrap();
    p.adj_begin().unwrap();
    p.apply_gate(QuantumGate::PauliX, &q).unwrap();
    p.apply_gate(QuantumGate::Hadamard, &q).unwrap();
    p.adj_end().unwrap();
    let code = p.get_quantum_code();
    assert_eq!(
        code[0].to_vec(),
        vec![
            alloc_instr(0),
            Instruction::Gate { gate: QuantumGate::Hadamard, target: 0, control: vec![] },
            Instruction::Gate { gate: QuantumGate::PauliX, target: 0, control: vec![] },
            Instruction::Halt,
        ]
    );
}

#[test]
fn rotation_angles_under_adjoint() {
    let mut p = Process::new(0);
    let q = p.allocate_qubit(false).unwrap();
    p.adj_begin().unwrap();
    p.apply_gate(QuantumGate::RX(angle(0.5)), &q).unwrap();
    p.apply_gate(QuantumGate::Phase(angle(0.25)), &q).unwrap();
    p.adj_begin().unwrap();
    p.apply_gate(QuantumGate::RZ(angle(0.75)), &q).unwrap();
    p.apply_gate(QuantumGate::RY(angle(-1.0)), &q).unwrap();
    p.adj_end().unwrap();
    p.adj_end().unwrap();
    let code = p.get_quantum_code();
    let gates: Vec<QuantumGate> = code[0]
        .iter()
        .filter_map(|i| match i {
            Instruction::Gate { gate, .. } => Some(*gate),
            _ => None,
        })
        .collect();
    // Outer region reversed: the inner region (in its original order) comes
    // first, then Phase, then RX.
    assert_eq!(
        gates,
        vec![
            QuantumGate::RZ(angle(0.75)),
            QuantumGate::RY(angle(-1.0)),
            QuantumGate::Phase(angle(-0.25)),
            QuantumGate::RX(angle(-0.5)),
        ]
    );
}

#[test]
fn self_inverse_gates_unchanged_under_adjoint() {
    let mut p = Process::new(0);
    let q = p.allocate_qubit(false).unwrap();
    p.adj_begin().unwrap();
    p.apply_gate(QuantumGate::PauliY, &q).unwrap();
    p.adj_end().unwrap();
    let code = p.get_quantum_code();
    assert_eq!(
        code[0][1],
        Instruction::Gate { gate: QuantumGate::PauliY, target: 0, control: vec![] }
    );
}

#[test]
fn real_negation() {
    assert_eq!(angle_value(angle(2.5).neg()), -2.5);
    assert_eq!(angle(2.5).neg().neg(), angle(2.5));
    assert_eq!(QuantumGate::RX(angle(1.0)).inverse(), QuantumGate::RX(angle(-1.0)));
    assert_eq!(QuantumGate::Hadamard.inverse(), QuantumGate::Hadamard);
}

#[test]
fn free_twice_fails() {
    let mut p = Process::new(0);
    let mut q = p.allocate_qubit(false).unwrap();
    p.free(&mut q, false).unwrap();
    assert!(!q.allocated());
    assert_eq!(p.free(&mut q, false), Err(KetError::DeallocatedQubit));
    assert_eq!(p.apply_gate(QuantumGate::PauliX, &q), Err(KetError::DeallocatedQubit));
    let code = p.get_quantum_code();
    assert_eq!(
        code[0].to_vec(),
        vec![alloc_instr(0), Instruction::Free { dirty: false, target: 0 }, Instruction::Halt]
    );
}

#[test]
fn target_also_control_fails() {
    let mut p = Process::new(0);
    let a = p.allocate_qubit(false).unwrap();
    let b = p.allocate_qubit(false).unwrap();
    p.ctrl_push(&[&a]).unwrap();
    assert_eq!(p.apply_gate(QuantumGate::PauliX, &a), Err(KetError::TargetAlsoControl));
    assert_eq!(p.apply_plugin("pown", &[&b, &a], "2"), Err(KetError::TargetAlsoControl));
    p.apply_plugin("pown", &[&b], "2").unwrap();
    p.ctrl_pop().unwrap();
    let code = p.get_quantum_code();
    assert_eq!(
        code[0][2],
        Instruction::Plugin {
            name: String::from("pown"),
            target: vec![1],
            control: vec![0],
            adj: false,
            args: String::from("2"),
        }
    );
}

#[test]
fn double_control_fails() {
    let mut p = Process::new(0);
    let a = p.allocate_qubit(false).unwrap();
    p.ctrl_push(&[&a]).unwrap();
    assert_eq!(p.ctrl_push(&[&a]), Err(KetError::QubitAlreadyControl));
    p.ctrl_pop().unwrap();
    assert_eq!(p.ctrl_pop(), Err(KetError::NoOpenControl));
}

#[test]
fn nested_controls_flatten() {
    let mut p = Process::new(0);
    let a = p.allocate_qubit(false).unwrap();
    let b = p.allocate_qubit(false).unwrap();
    let c = p.allocate_qubit(false).unwrap();
    let d = p.allocate_qubit(false).unwrap();
    p.ctrl_push(&[&b, &a]).unwrap();
    p.ctrl_push(&[&c]).unwrap();
    p.apply_gate(QuantumGate::PauliZ, &d).unwrap();
    p.ctrl_pop().unwrap();
    p.ctrl_pop().unwrap();
    let code = p.get_quantum_code();
    assert_eq!(
        code[0][4],
        Instruction::Gate { gate: QuantumGate::PauliZ, target: 3, control: vec![1, 0, 2] }
    );
}

#[test]
fn terminated_block_rejects_append() {
    let mut p = Process::new(0);
    let l = p.get_label().unwrap();
    p.jump(&l).unwrap();
    assert_eq!(p.allocate_qubit(false).unwrap_err(), KetError::BlockTerminated);
    assert_eq!(p.adj_begin(), Err(KetError::BlockTerminated));
    assert_eq!(p.int_new(3).unwrap_err(), KetError::BlockTerminated);

    let mut b = CodeBlock::new();
    b.add_instruction(Instruction::Halt).unwrap();
    assert_eq!(b.add_instruction(alloc_instr(0)), Err(KetError::BlockTerminated));
}

#[test]
fn terminator_inside_adjoint_keeps_block_open() {
    let mut b = CodeBlock::new();
    b.adj_begin().unwrap();
    b.add_instruction(Instruction::Jump { addr: 1 }).unwrap();
    b.add_instruction(alloc_instr(0)).unwrap();
    b.adj_end().unwrap();
    assert!(!b.ended());
    b.add_instruction(alloc_instr(1)).unwrap();
    assert_eq!(
        b.instructions().to_vec(),
        vec![alloc_instr(0), Instruction::Jump { addr: 1 }, alloc_instr(1)]
    );
}

#[test]
fn labels_and_branches() {
    let mut p = Process::new(5);
    let mut q = p.allocate_qubit(false).unwrap();
    let m = p.measure(&mut [&mut q]).unwrap();
    let then = p.get_label().unwrap();
    let otherwise = p.get_label().unwrap();
    assert_eq!((then.index(), otherwise.index()), (1, 2));
    p.branch(&m, &then, &otherwise).unwrap();
    p.open_block(&then).unwrap();
    p.apply_gate(QuantumGate::PauliX, &q).unwrap();
    p.jump(&otherwise).unwrap();
    p.open_block(&otherwise).unwrap();
    let code = p.get_quantum_code();
    assert_eq!(code.len(), 3);
    assert_eq!(code[0][2], Instruction::Branch { test: 1, then: 1, otherwise: 2 });
    assert_eq!(code[1][1], Instruction::Jump { addr: 2 });
    assert_eq!(code[2].to_vec(), vec![Instruction::Halt]);
    assert_eq!(p.get_label().unwrap_err(), KetError::AwaitingResult);
}

#[test]
fn prepare_twice_appends_one_halt() {
    let mut p = Process::new(0);
    p.prepare_for_execution();
    p.prepare_for_execution();
    assert_eq!(p.get_quantum_code()[0].to_vec(), vec![Instruction::Halt]);
}

#[test]
fn foreign_handles_fail() {
    let mut p1 = Process::new(1);
    let mut p2 = Process::new(2);
    let mut q1 = p1.allocate_qubit(false).unwrap();
    let l1 = p1.get_label().unwrap();
    let f1 = p1.int_new(4).unwrap();
    assert_eq!(p2.apply_gate(QuantumGate::PauliX, &q1), Err(KetError::UnmatchedPid));
    assert_eq!(p2.free(&mut q1, false), Err(KetError::UnmatchedPid));
    assert!(q1.allocated());
    assert_eq!(p2.open_block(&l1), Err(KetError::UnmatchedPid));
    assert_eq!(p2.jump(&l1), Err(KetError::UnmatchedPid));
    let f2 = p2.int_new(1).unwrap();
    assert_eq!(p2.add_int_op(ClassicalOp::Add, &f1, &f2).unwrap_err(), KetError::UnmatchedPid);
    assert_eq!(p2.measure(&mut [&mut q1]).unwrap_err(), KetError::UnmatchedPid);
    assert!(!q1.measured());
    assert_eq!(q1.pid(), 1);
    assert_eq!(f1.pid(), 1);
    assert_eq!(l1.pid(), 1);
}

#[test]
fn classical_ops_inside_scopes_fail() {
    let mut p = Process::new(0);
    let mut a = p.allocate_qubit(false).unwrap();
    p.ctrl_push(&[&a]).unwrap();
    assert_eq!(p.allocate_qubit(false).unwrap_err(), KetError::IllegalInControlOrAdjoint);
    assert_eq!(p.int_new(1).unwrap_err(), KetError::IllegalInControlOrAdjoint);
    p.ctrl_pop().unwrap();
    p.adj_begin().unwrap();
    assert_eq!(p.measure(&mut [&mut a]).unwrap_err(), KetError::IllegalInControlOrAdjoint);
    assert_eq!(p.dump(&[&a]).unwrap_err(), KetError::IllegalInControlOrAdjoint);
    p.adj_end().unwrap();
    assert!(!a.measured());
    let metrics = p.get_metrics();
    assert_eq!((metrics.qubit_count, metrics.future_count, metrics.dump_count), (1, 1, 0));
}

#[test]
fn integer_operations() {
    let mut p = Process::new(0);
    let a = p.int_new(7).unwrap();
    let b = p.int_new(5).unwrap();
    let c = p.add_int_op(ClassicalOp::Sub, &a, &b).unwrap();
    p.int_set(&a, &c).unwrap();
    let code = p.get_quantum_code();
    assert_eq!(
        code[0].to_vec(),
        vec![
            Instruction::IntSet { result: 1, value: 7 },
            Instruction::IntSet { result: 2, value: 5 },
            Instruction::IntOp { op: ClassicalOp::Sub, result: 3, lhs: 1, rhs: 2 },
            Instruction::IntOp { op: ClassicalOp::Add, result: 1, lhs: 0, rhs: 3 },
            Instruction::Halt,
        ]
    );
}

#[test]
fn handle_indices_increase() {
    let mut p = Process::new(0);
    let mut qs = Vec::new();
    for _ in 0..3 {
        qs.push(p.allocate_qubit(false).unwrap());
    }
    let idx: Vec<u32> = qs.iter().map(|q| q.index()).collect();
    assert_eq!(idx, vec![0, 1, 2]);
    let f1 = p.int_new(0).unwrap();
    let d1 = p.dump(&[&qs[0]]).unwrap();
    let f2 = p.measure(&mut [&mut qs[1]]).unwrap();
    let d2 = p.dump(&[&qs[2], &qs[0]]).unwrap();
    assert!(f1.index() < f2.index());
    assert_eq!((d1.index(), d2.index()), (0, 1));
    let l1 = p.get_label().unwrap();
    let l2 = p.get_label().unwrap();
    assert!(l1.index() < l2.index());
    let mut q = p.allocate_qubit(false).unwrap();
    p.free(&mut q, false).unwrap();
    let m = p.get_metrics();
    assert_eq!(m.qubit_count, 4);
    assert_eq!(m.max_num_qubit, 4);
    assert_eq!(m.future_count, 3);
    assert_eq!(m.dump_count, 2);
    assert_eq!(m.label_count, 2);
    assert_eq!(m.timeout, None);
}

#[test]
fn live_qubit_high_water_mark() {
    let mut p = Process::new(0);
    let mut a = p.allocate_qubit(false).unwrap();
    let mut b = p.allocate_qubit(true).unwrap();
    p.free(&mut a, false).unwrap();
    p.free(&mut b, true).unwrap();
    let _c = p.allocate_qubit(false).unwrap();
    p.set_timeout(30);
    let m = p.get_metrics();
    assert_eq!((m.max_num_qubit, m.qubit_count, m.timeout), (2, 3, Some(30)));
}

fn vector_dump(state: u64) -> DumpData {
    DumpData::Vector {
        basis_states: vec![vec![state]],
        amplitudes_real: vec![angle(1.0)],
        amplitudes_img: vec![angle(0.0)],
    }
}

#[test]
fn result_with_wrong_counts_fails() {
    let mut p = Process::new(0);
    let q = p.allocate_qubit(false).unwrap();
    let f = p.int_new(2).unwrap();
    let d = p.dump(&[&q]).unwrap();
    p.prepare_for_execution();
    let short = QuantumResult { future: vec![0], dump: vec![vector_dump(0)], exec_time: angle(0.1) };
    assert_eq!(p.set_quantum_result(short), Err(KetError::ResultCountMismatch));
    let no_dump = QuantumResult { future: vec![0, 2], dump: vec![], exec_time: angle(0.1) };
    assert_eq!(p.set_quantum_result(no_dump), Err(KetError::ResultCountMismatch));
    assert_eq!(f.value(&p), None);
    assert!(d.value(&p).is_none());
    assert!(p.exec_time().is_none());
}

#[test]
fn result_fills_futures_and_dumps_by_index() {
    let mut p = Process::new(0);
    let mut q = p.allocate_qubit(false).unwrap();
    let d0 = p.dump(&[&q]).unwrap();
    let f = p.measure(&mut [&mut q]).unwrap();
    let d1 = p.dump(&[&q]).unwrap();
    p.prepare_for_execution();
    let shots = DumpData::Shots { basis_states: vec![vec![0], vec![1]], count: vec![3, 7] };
    let result = QuantumResult {
        future: vec![0, 1],
        dump: vec![vector_dump(1), shots.clone()],
        exec_time: angle(2.0),
    };
    p.set_quantum_result(result).unwrap();
    assert_eq!(f.value(&p), Some(1));
    let v0 = d0.value(&p).unwrap();
    assert!(v0.is_vector());
    assert_eq!(v0.basis_states(), &vec![vec![1u64]]);
    assert_eq!(v0.amplitudes_real(), Some(&vec![angle(1.0)]));
    assert_eq!(v0.amplitudes_img(), Some(&vec![angle(0.0)]));
    assert_eq!(v0.count(), None);
    let v1 = d1.value(&p).unwrap();
    assert!(v1.is_shots() && !v1.is_probability() && !v1.is_vector());
    assert_eq!(v1, &shots);
    assert_eq!(v1.count(), Some(&vec![3, 7]));
    assert_eq!(v1.probabilities(), None);
}

#[test]
fn probability_dump() {
    let d = DumpData::Probability { basis_states: vec![vec![2]], probabilities: vec![angle(1.0)] };
    assert!(d.is_probability());
    assert_eq!(d.probabilities(), Some(&vec![angle(1.0)]));
    assert_eq!(d.amplitudes_real(), None);
}

#[test]
fn codes_from_the_boundary() {
    assert_eq!(QuantumGate::from_code(3, angle(0.0)), Ok(QuantumGate::Hadamard));
    assert_eq!(QuantumGate::from_code(5, angle(0.5)), Ok(QuantumGate::RX(angle(0.5))));
    assert_eq!(QuantumGate::from_code(8, angle(0.0)), Err(KetError::UndefinedOperation));
    assert_eq!(ClassicalOp::from_code(0), Ok(ClassicalOp::Eq));
    assert_eq!(ClassicalOp::from_code(14), Ok(ClassicalOp::Xor));
    assert_eq!(ClassicalOp::from_code(15), Err(KetError::UndefinedOperation));
    assert_eq!(DataType::from_code(1), Some(DataType::BIN));
    assert_eq!(DataType::from_code(2), None);
}
