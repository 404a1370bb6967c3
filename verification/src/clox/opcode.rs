//! The instruction set of the bytecode.
use super::clox_value::CloxValue;
use vstd::prelude::*;

verus! {

/// One instruction. Each is a single stack-effect operation; there are no
/// jump targets, so a chunk is straight-line code. `Constant` carries its
/// operand value inline.
#[derive(Debug, Clone, Copy)]
pub enum Opcode {
    Return,
    Nil,
    True,
    False,
    Equal,
    Greater,
    Less,
    Add,
    Sub,
    Mul,
    Div,
    Not,
    Negate,
    Constant(CloxValue),
}

} // verus!
