//! The operand stack of the virtual machine.
use super::clox_error::CloxError;
use super::clox_value::CloxValue;
use vstd::prelude::*;

verus! {

/// A last-in-first-out stack of runtime values. Popping an empty stack is
/// reported as an underflow, never treated as nil.
pub struct Stack {
    inner: Vec<CloxValue>,
}

impl View for Stack {
    type V = Seq<CloxValue>;

    closed spec fn view(&self) -> Seq<CloxValue> {
        self.inner@
    }
}

impl Stack {
    pub fn new() -> (r: Self)
        ensures
            r@ == Seq::<CloxValue>::empty(),
    {
        Self { inner: Vec::new() }
    }

    pub fn push(&mut self, value: CloxValue)
        ensures
            final(self)@ == old(self)@.push(value),
    {
        self.inner.push(value);
    }

    pub fn pop(&mut self) -> (r: Result<CloxValue, CloxError>)
        ensures
            old(self)@.len() == 0 ==> r == Result::<CloxValue, CloxError>::Err(
                CloxError::StackUnderflow,
            ) && final(self)@ == old(self)@,
            old(self)@.len() > 0 ==> r == Result::<CloxValue, CloxError>::Ok(old(self)@.last())
                && final(self)@ == old(self)@.drop_last(),
    {
        match self.inner.pop() {
            Some(value) => Ok(value),
            None => Err(CloxError::StackUnderflow),
        }
    }

    /// The value `distance` places below the top, without removing it.
    pub fn peek(&self, distance: usize) -> (r: Option<CloxValue>)
        ensures
            distance < self@.len() ==> r == Some(self@[self@.len() - 1 - distance]),
            distance >= self@.len() ==> r is None,
    {
        let len = self.inner.len();
        if distance < len {
            Some(self.inner[len - 1 - distance])
        } else {
            None
        }
    }
}

} // verus!
