//! The outcome of running a program on the virtual machine.

use vstd::prelude::*;

verus! {

/// How a run of the virtual machine ended.
#[derive(Debug, Clone, PartialEq)]
pub enum InterpretResult {
    /// The run finished without error.
    Completed,
    CompileError(String),
    RuntimeError(String),
}

} // verus!
