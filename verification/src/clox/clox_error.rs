//! Everything that can go wrong while compiling or running a chunk.
use vstd::prelude::*;

verus! {

/// The failure conditions of the bytecode pipeline: compile-time errors,
/// runtime faults, and the internal string-handle fault.
#[derive(Debug, Clone, Copy, PartialEq, Eq, Structural)]
pub enum CloxError {
    /// The source text did not compile; the partial chunk is discarded.
    CompileError,
    /// A fault while executing a chunk: a type mismatch, or running off
    /// the end of the instruction stream without a `Return`.
    RuntimeError,
    /// A pop from an empty operand stack.
    StackUnderflow,
    /// A character or token no rule accepts.
    UnexpectedToken,
    /// A string handle past the end of the indexer's table.
    StringIndexOutOfBouds,
    /// A string literal still open at the end of the source, with the
    /// line where it began.
    UnterminatedString { line: usize },
}

} // verus!
