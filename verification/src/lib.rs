//! A small scripting-language implementation: a bytecode compiler and a
//! stack-based virtual machine, together with a tree-walking front end.
use vstd::prelude::*;

pub mod clox;
mod console;
pub mod expr;
pub mod expr_parser;
pub mod loxerror;
pub mod number;
pub mod string_indexer;
pub mod text;
pub mod token;
pub mod tokenizer;

verus! {

} // verus!
