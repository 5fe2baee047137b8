//! The construction core of a hybrid quantum/classical runtime: a builder that
//! turns qubit allocation, gates, measurement, control flow and classical
//! integer operations into a program of basic blocks for an execution
//! backend, and that later takes the backend's result into the futures and
//! dumps it issued.
pub mod code_block;
pub mod error;
pub mod number;
pub mod object;
pub mod process;
pub mod serialize;

pub use code_block::{ClassicalOp, CodeBlock, Instruction, QuantumGate};
pub use error::KetError;
pub use number::Real;
pub use object::{Dump, DumpData, Future, Label, Pid, Qubit};
pub use process::{Metrics, Process, QuantumResult};
pub use serialize::{DataType, SerializedData};
