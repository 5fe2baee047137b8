use vstd::prelude::*;

use crate::error::KetError;
use crate::number::Real;

verus! {

/// A handle that belongs to one process.
pub trait Pid {
    /// The id of the process that issued the handle.
    spec fn spec_pid(&self) -> u32;

    fn pid(&self) -> (r: u32)
        ensures
            r == self.spec_pid(),
    ;
}

/// What a qubit handle holds.
pub struct QubitView {
    pub index: u32,
    pub pid: u32,
    pub allocated: bool,
    pub measured: bool,
}

/// A qubit of a process. Once freed, a handle stays deallocated.
#[derive(Debug)]
pub struct Qubit {
    index: u32,
    pid: u32,
    allocated: bool,
    measured: bool,
}

impl View for Qubit {
    type V = QubitView;

    closed spec fn view(&self) -> QubitView {
        QubitView {
            index: self.index,
            pid: self.pid,
            allocated: self.allocated,
            measured: self.measured,
        }
    }
}

impl Qubit {
    /// A freshly allocated, unmeasured qubit.
    pub fn new(index: u32, pid: u32) -> (r: Qubit)
        ensures
            r@ == (QubitView { index, pid, allocated: true, measured: false }),
    {
        Qubit { index, pid, allocated: true, measured: false }
    }

    pub fn index(&self) -> (r: u32)
        ensures
            r == self@.index,
    {
        self.index
    }

    pub fn pid(&self) -> (r: u32)
        ensures
            r == self@.pid,
    {
        self.pid
    }

    pub fn allocated(&self) -> (r: bool)
        ensures
            r == self@.allocated,
    {
        self.allocated
    }

    pub fn measured(&self) -> (r: bool)
        ensures
            r == self@.measured,
    {
        self.measured
    }

    pub fn set_deallocated(&mut self)
        ensures
            final(self)@ == (QubitView { allocated: false, ..old(self)@ }),
    {
        self.allocated = false;
    }

    pub fn set_measured(&mut self)
        ensures
            final(self)@ == (QubitView { measured: true, ..old(self)@ }),
    {
        self.measured = true;
    }

    /// Fails on a deallocated qubit.
    pub fn assert_allocated(&self) -> (r: Result<(), KetError>)
        ensures
            r is Ok <==> self@.allocated,
            r matches Err(e) ==> e == KetError::DeallocatedQubit,
    {
        if !self.allocated {
            Err(KetError::DeallocatedQubit)
        } else {
            Ok(())
        }
    }

    /// Fails on a deallocated qubit.
    pub fn not_allocated_err(&self) -> (r: Result<(), KetError>)
        ensures
            r is Ok <==> self@.allocated,
            r matches Err(e) ==> e == KetError::DeallocatedQubit,
    {
        self.assert_allocated()
    }
}

impl Pid for Qubit {
    open spec fn spec_pid(&self) -> u32 {
        self@.pid
    }

    fn pid(&self) -> (r: u32) {
        self.pid
    }
}

/// What a future or label handle holds.
pub struct HandleView {
    pub index: u32,
    pub pid: u32,
}

/// A classical integer of a process, known once the result is injected.
#[derive(Debug)]
pub struct Future {
    index: u32,
    pid: u32,
}

impl View for Future {
    type V = HandleView;

    closed spec fn view(&self) -> HandleView {
        HandleView { index: self.index, pid: self.pid }
    }
}

impl Future {
    pub fn new(index: u32, pid: u32) -> (r: Future)
        ensures
            r@ == (HandleView { index, pid }),
    {
        Future { index, pid }
    }

    pub fn index(&self) -> (r: u32)
        ensures
            r == self@.index,
    {
        self.index
    }

    pub fn pid(&self) -> (r: u32)
        ensures
            r == self@.pid,
    {
        self.pid
    }
}

impl Pid for Future {
    open spec fn spec_pid(&self) -> u32 {
        self@.pid
    }

    fn pid(&self) -> (r: u32) {
        self.pid
    }
}

/// A state snapshot of a process, known once the result is injected.
#[derive(Debug)]
pub struct Dump {
    index: u32,
    pid: u32,
}

impl View for Dump {
    type V = HandleView;

    closed spec fn view(&self) -> HandleView {
        HandleView { index: self.index, pid: self.pid }
    }
}

impl Dump {
    pub fn new(index: u32, pid: u32) -> (r: Dump)
        ensures
            r@ == (HandleView { index, pid }),
    {
        Dump { index, pid }
    }

    pub fn index(&self) -> (r: u32)
        ensures
            r == self@.index,
    {
        self.index
    }

    pub fn pid(&self) -> (r: u32)
        ensures
            r == self@.pid,
    {
        self.pid
    }
}

impl Pid for Dump {
    open spec fn spec_pid(&self) -> u32 {
        self@.pid
    }

    fn pid(&self) -> (r: u32) {
        self.pid
    }
}

/// The entry point of a basic block of a process.
#[derive(Debug)]
pub struct Label {
    index: u32,
    pid: u32,
}

impl View for Label {
    type V = HandleView;

    closed spec fn view(&self) -> HandleView {
        HandleView { index: self.index, pid: self.pid }
    }
}

impl Label {
    pub fn new(index: u32, pid: u32) -> (r: Label)
        ensures
            r@ == (HandleView { index, pid }),
    {
        Label { index, pid }
    }

    pub fn index(&self) -> (r: u32)
        ensures
            r == self@.index,
    {
        self.index
    }

    pub fn pid(&self) -> (r: u32)
        ensures
            r == self@.pid,
    {
        self.pid
    }
}

impl Pid for Label {
    open spec fn spec_pid(&self) -> u32 {
        self@.pid
    }

    fn pid(&self) -> (r: u32) {
        self.pid
    }
}

/// A snapshot of quantum state from the backend: the basis states with their
/// amplitudes, their probabilities, or the number of shots that gave each.
/// The numbers are carried, not interpreted.
#[derive(Debug, Clone, PartialEq)]
pub enum DumpData {
    Vector {
        basis_states: Vec<Vec<u64>>,
        amplitudes_real: Vec<Real>,
        amplitudes_img: Vec<Real>,
    },
    Probability { basis_states: Vec<Vec<u64>>, probabilities: Vec<Real> },
    Shots { basis_states: Vec<Vec<u64>>, count: Vec<u32> },
}

impl DumpData {
    pub open spec fn spec_basis_states(&self) -> Vec<Vec<u64>> {
        match self {
            DumpData::Vector { basis_states, .. } => *basis_states,
            DumpData::Probability { basis_states, .. } => *basis_states,
            DumpData::Shots { basis_states, .. } => *basis_states,
        }
    }

    pub fn basis_states(&self) -> (r: &Vec<Vec<u64>>)
        ensures
            *r == self.spec_basis_states(),
    {
        match self {
            DumpData::Vector { basis_states, .. } => basis_states,
            DumpData::Probability { basis_states, .. } => basis_states,
            DumpData::Shots { basis_states, .. } => basis_states,
        }
    }

    pub fn amplitudes_real(&self) -> (r: Option<&Vec<Real>>)
        ensures
            self matches DumpData::Vector { amplitudes_real, .. } ==> r == Some(amplitudes_real),
            !(self is Vector) ==> r is None,
    {
        match self {
            DumpData::Vector { amplitudes_real, .. } => Some(amplitudes_real),
            _ => None,
        }
    }

    pub fn amplitudes_img(&self) -> (r: Option<&Vec<Real>>)
        ensures
            self matches DumpData::Vector { amplitudes_img, .. } ==> r == Some(amplitudes_img),
            !(self is Vector) ==> r is None,
    {
        match self {
            DumpData::Vector { amplitudes_img, .. } => Some(amplitudes_img),
            _ => None,
        }
    }

    pub fn probabilities(&self) -> (r: Option<&Vec<Real>>)
        ensures
            self matches DumpData::Probability { probabilities, .. } ==> r == Some(probabilities),
            !(self is Probability) ==> r is None,
    {
        match self {
            DumpData::Probability { probabilities, .. } => Some(probabilities),
            _ => None,
        }
    }

    pub fn count(&self) -> (r: Option<&Vec<u32>>)
        ensures
            self matches DumpData::Shots { count, .. } ==> r == Some(count),
            !(self is Shots) ==> r is None,
    {
        match self {
            DumpData::Shots { count, .. } => Some(count),
            _ => None,
        }
    }

    pub fn is_vector(&self) -> (r: bool)
        ensures
            r == self is Vector,
    {
        match self {
            DumpData::Vector { .. } => true,
            _ => false,
        }
    }

    pub fn is_probability(&self) -> (r: bool)
        ensures
            r == self is Probability,
    {
        match self {
            DumpData::Probability { .. } => true,
            _ => false,
        }
    }

    pub fn is_shots(&self) -> (r: bool)
        ensures
            r == self is Shots,
    {
        match self {
            DumpData::Shots { .. } => true,
            _ => false,
        }
    }
}

} // verus!
