//! The runtime values of the virtual machine.
use crate::number::{eq_bits, num_eq, num_to_string, number_display};
use vstd::prelude::*;

verus! {

/// A runtime value: a number (carried as its IEEE-754 bit pattern), a
/// boolean, or nil. Values are plain data, copied freely.
#[derive(Debug, Clone, Copy)]
pub enum CloxValue {
    Boolean(bool),
    Number(u64),
    Nil,
}

/// Structural equality per variant, with IEEE-754 equality between
/// numbers; values of different variants are never equal.
pub open spec fn value_eq_spec(a: CloxValue, b: CloxValue) -> bool {
    match (a, b) {
        (CloxValue::Boolean(l), CloxValue::Boolean(r)) => l == r,
        (CloxValue::Number(l), CloxValue::Number(r)) => eq_bits(l, r),
        (CloxValue::Nil, CloxValue::Nil) => true,
        _ => false,
    }
}

/// The printed form of a value: the number's decimal rendering, `true` or
/// `false`, or the literal text `nil`.
pub open spec fn value_text(v: CloxValue) -> Seq<char> {
    match v {
        CloxValue::Boolean(b) => if b {
            "true"@
        } else {
            "false"@
        },
        CloxValue::Number(n) => number_display(n),
        CloxValue::Nil => "nil"@,
    }
}

impl PartialEq for CloxValue {
    fn eq(&self, other: &Self) -> (r: bool) {
        match (self, other) {
            (CloxValue::Boolean(l), CloxValue::Boolean(r)) => l == r,
            (CloxValue::Number(l), CloxValue::Number(r)) => num_eq(*l, *r),
            (CloxValue::Nil, CloxValue::Nil) => true,
            _ => false,
        }
    }
}

impl vstd::std_specs::cmp::PartialEqSpecImpl for CloxValue {
    open spec fn obeys_eq_spec() -> bool {
        true
    }

    open spec fn eq_spec(&self, other: &Self) -> bool {
        value_eq_spec(*self, *other)
    }
}

impl CloxValue {
    pub fn new_bool(value: bool) -> (r: Self)
        ensures
            r == CloxValue::Boolean(value),
    {
        CloxValue::Boolean(value)
    }

    pub fn new_num(value: u64) -> (r: Self)
        ensures
            r == CloxValue::Number(value),
    {
        CloxValue::Number(value)
    }

    pub fn is_number(&self) -> (r: bool)
        ensures
            r == (self is Number),
    {
        matches!(self, CloxValue::Number(_))
    }

    pub fn as_number(&self) -> (r: u64)
        requires
            self is Number,
        ensures
            r == self->Number_0,
    {
        match self {
            CloxValue::Number(val) => *val,
            _ => vstd::pervasive::unreached(),
        }
    }

    /// The value's display form as text.
    pub fn display_string(&self) -> (r: String)
        ensures
            r@ == value_text(*self),
    {
        match self {
            CloxValue::Boolean(value) => {
                if *value {
                    String::from_str("true")
                } else {
                    String::from_str("false")
                }
            },
            CloxValue::Number(value) => num_to_string(*value),
            CloxValue::Nil => String::from_str("nil"),
        }
    }
}

} // verus!
