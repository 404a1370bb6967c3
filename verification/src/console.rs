//! The one place where the library writes to standard output.
use std::io::Write;
use vstd::prelude::*;

verus! {

/// Relies on `std::io::stdout`: writes the text and a newline to standard
/// output. Diagnostic and result printing only; nothing is promised of it.
#[verifier::external_body]
pub(crate) fn print_line(s: &str) {
    let _ = writeln!(std::io::stdout(), "{}", s);
}

} // verus!
