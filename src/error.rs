use vstd::prelude::*;

verus! {

/// Why a builder operation or a result injection was refused.
#[derive(Debug, Clone, Copy, PartialEq, Eq, Structural)]
pub enum KetError {
    /// A handle belongs to another process.
    UnmatchedPid,
    /// A qubit handle was used after it was freed.
    DeallocatedQubit,
    /// The operation is not allowed while a control scope or an adjoint region is open.
    IllegalInControlOrAdjoint,
    /// The target of a gate is also one of its active controls.
    TargetAlsoControl,
    /// A qubit was pushed as a control while it already controls.
    QubitAlreadyControl,
    /// `ctrl_pop` with no open control scope.
    NoOpenControl,
    /// An instruction or adjoint region was added to a terminated block.
    BlockTerminated,
    /// `adj_end` with no open adjoint region.
    NoOpenAdjoint,
    /// A new block was requested after the program was handed out.
    AwaitingResult,
    /// The injected result does not hold one value per future and per dump.
    ResultCountMismatch,
    /// A gate or operator code that names no operation.
    UndefinedOperation,
}

} // verus!
