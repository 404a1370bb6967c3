//! The bytecode pipeline: a single-pass compiler from source text to a
//! chunk of opcodes, and a stack-based virtual machine that runs it.
use vstd::prelude::*;

pub mod chunk;
pub mod clox_error;
pub mod clox_value;
pub mod compiler;
pub mod opcode;
pub mod scanner;
pub mod stack;
pub mod string_indexer;
pub mod token;
pub mod vm;

use clox_error::CloxError;
use clox_value::CloxValue;
use compiler::{rule_of, simple_source_code};
use scanner::{scan_at, skip_ws_from, Scan};
use vm::{run_spec, Vm, VmOutcome};

verus! {

/// Compiles the source text and, on a clean compile, executes it; the
/// result of a successful run is printed. A compile failure is reported
/// without attempting execution — in particular on a lexical error or a
/// source that opens with no expression — and a source of one of the
/// simple shapes (a lone literal, a prefix operator on one, or two
/// literals joined by an infix operator) goes on to exactly the run
/// its compiled code has under `run_spec`; a run can fail only with a
/// runtime error or a stack underflow.
pub fn run(content: &str) -> (r: Result<(), CloxError>)
    ensures
        r matches Err(e) ==> (e == CloxError::CompileError || e == CloxError::RuntimeError || e
            == CloxError::StackUnderflow),
        ({
            let p = skip_ws_from(content@, 0, false);
            match scan_at(content@, p) {
                Scan::AtEnd => r == Err::<(), CloxError>(CloxError::CompileError),
                Scan::Unexpected => r == Err::<(), CloxError>(CloxError::CompileError),
                Scan::Unterminated => r == Err::<(), CloxError>(CloxError::CompileError),
                Scan::Lexeme { token_type, end } => rule_of(token_type).prefix is None ==> r
                    == Err::<(), CloxError>(CloxError::CompileError),
            }
        }),
        (simple_source_code(content@) matches Some(code) ==> (match run_spec(
            code,
            0,
            Seq::<CloxValue>::empty(),
        ) {
            VmOutcome::Halt { value, stack } => r is Ok,
            VmOutcome::Fault { error, stack } => r == Err::<(), CloxError>(error),
        })),
{
    let mut vm = Vm::new();
    match vm.interpret(content) {
        Ok(_) => Ok(()),
        Err(e) => Err(e),
    }
}

} // verus!
