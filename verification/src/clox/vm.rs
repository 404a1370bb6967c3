//! The virtual machine: fetches opcodes from a chunk and executes them
//! against an operand stack.
use super::chunk::Chunk;
use super::clox_error::CloxError;
use super::compiler::{rule_of, simple_source_code, Compiler};
use super::clox_value::{value_eq_spec, value_text, CloxValue};
use super::opcode::Opcode;
use super::scanner::{scan_at, skip_ws_from, Scan};
use super::stack::Stack;
use crate::number::{
    parse_opt_of,
    add_bits, div_bits, gt_bits, lt_bits, mul_bits, neg_bits, num_add, num_div, num_gt, num_lt,
    num_mul, num_neg, num_sub, sub_bits,
};
use vstd::prelude::*;

verus! {

/// How a run ends: a `Return` halts with the popped value and what the
/// stack still holds, or a fault aborts with the stack as the faulting
/// instruction left it.
pub enum VmOutcome {
    Halt { value: CloxValue, stack: Seq<CloxValue> },
    Fault { error: CloxError, stack: Seq<CloxValue> },
}

/// The value a binary numeric instruction leaves on the stack, from the
/// bits of its left and right operands.
pub open spec fn binary_result(op: Opcode, a: u64, b: u64) -> CloxValue {
    match op {
        Opcode::Add => CloxValue::Number(add_bits(a, b)),
        Opcode::Sub => CloxValue::Number(sub_bits(a, b)),
        Opcode::Mul => CloxValue::Number(mul_bits(a, b)),
        Opcode::Div => CloxValue::Number(div_bits(a, b)),
        Opcode::Greater => CloxValue::Boolean(gt_bits(a, b)),
        Opcode::Less => CloxValue::Boolean(lt_bits(a, b)),
        _ => CloxValue::Nil,
    }
}

/// Whether an opcode is one of the binary numeric instructions.
pub open spec fn is_binary_numeric(op: Opcode) -> bool {
    match op {
        Opcode::Add | Opcode::Sub | Opcode::Mul | Opcode::Div | Opcode::Greater
            | Opcode::Less => true,
        _ => false,
    }
}

/// The meaning of a chunk: executing `ops` from `ip` against `stack`.
/// Instructions take effect one at a time; a missing `Return` at the end
/// of the stream, a pop from an empty stack, and a wrongly typed operand
/// each abort the run. Operands of a binary instruction are checked
/// before they are popped, so a type fault leaves the stack as it was.
pub open spec fn run_spec(ops: Seq<Opcode>, ip: nat, stack: Seq<CloxValue>) -> VmOutcome
    decreases ops.len() - ip,
{
    if ip >= ops.len() {
        VmOutcome::Fault { error: CloxError::RuntimeError, stack }
    } else {
        match ops[ip as int] {
            Opcode::Return => {
                if stack.len() == 0 {
                    VmOutcome::Fault { error: CloxError::StackUnderflow, stack }
                } else {
                    VmOutcome::Halt { value: stack.last(), stack: stack.drop_last() }
                }
            },
            Opcode::Constant(v) => run_spec(ops, ip + 1, stack.push(v)),
            Opcode::Nil => run_spec(ops, ip + 1, stack.push(CloxValue::Nil)),
            Opcode::True => run_spec(ops, ip + 1, stack.push(CloxValue::Boolean(true))),
            Opcode::False => run_spec(ops, ip + 1, stack.push(CloxValue::Boolean(false))),
            Opcode::Negate => {
                if stack.len() == 0 {
                    VmOutcome::Fault { error: CloxError::StackUnderflow, stack }
                } else {
                    match stack.last() {
                        CloxValue::Number(n) => run_spec(
                            ops,
                            ip + 1,
                            stack.drop_last().push(CloxValue::Number(neg_bits(n))),
                        ),
                        _ => VmOutcome::Fault { error: CloxError::RuntimeError, stack },
                    }
                }
            },
            Opcode::Not => {
                if stack.len() == 0 {
                    VmOutcome::Fault { error: CloxError::StackUnderflow, stack }
                } else {
                    match stack.last() {
                        CloxValue::Boolean(b) => run_spec(
                            ops,
                            ip + 1,
                            stack.drop_last().push(CloxValue::Boolean(!b)),
                        ),
                        // nil is falsey, so its negation is true
                        CloxValue::Nil => run_spec(
                            ops,
                            ip + 1,
                            stack.drop_last().push(CloxValue::Boolean(true)),
                        ),
                        CloxValue::Number(_) => VmOutcome::Fault {
                            error: CloxError::RuntimeError,
                            stack,
                        },
                    }
                }
            },
            Opcode::Equal => {
                if stack.len() < 2 {
                    VmOutcome::Fault { error: CloxError::StackUnderflow, stack }
                } else {
                    run_spec(
                        ops,
                        ip + 1,
                        stack.drop_last().drop_last().push(
                            CloxValue::Boolean(
                                value_eq_spec(stack.last(), stack.drop_last().last()),
                            ),
                        ),
                    )
                }
            },
            _ => {
                // the binary numeric instructions
                if stack.len() < 2 {
                    VmOutcome::Fault { error: CloxError::StackUnderflow, stack }
                } else {
                    match (stack.drop_last().last(), stack.last()) {
                        (CloxValue::Number(a), CloxValue::Number(b)) => run_spec(
                            ops,
                            ip + 1,
                            stack.drop_last().drop_last().push(
                                binary_result(ops[ip as int], a, b),
                            ),
                        ),
                        _ => VmOutcome::Fault { error: CloxError::RuntimeError, stack },
                    }
                }
            },
        }
    }
}

/// One virtual machine: the chunk it runs, the instruction pointer, and
/// the operand stack.
pub struct Vm {
    chunk: Chunk,
    ip: usize,
    stack: Stack,
}

impl Vm {
    /// The instruction stream of the chunk the machine holds.
    pub closed spec fn code(&self) -> Seq<Opcode> {
        self.chunk.ops()
    }

    /// The instruction pointer.
    pub closed spec fn ip_spec(&self) -> nat {
        self.ip as nat
    }

    /// What the operand stack holds, bottom first.
    pub closed spec fn stack_spec(&self) -> Seq<CloxValue> {
        self.stack@
    }

    pub fn new() -> (r: Self)
        ensures
            r.code() == Seq::<Opcode>::empty(),
            r.ip_spec() == 0,
            r.stack_spec() == Seq::<CloxValue>::empty(),
    {
        Self { chunk: Chunk::new(), ip: 0, stack: Stack::new() }
    }

    /// Replaces the chunk the machine will run, leaving the instruction
    /// pointer and the stack as they are.
    pub fn load_chunk(&mut self, chunk: Chunk)
        ensures
            final(self).code() == chunk.ops(),
            final(self).ip_spec() == old(self).ip_spec(),
            final(self).stack_spec() == old(self).stack_spec(),
    {
        self.chunk = chunk;
    }

    /// Compiles the source and, on a clean compile, executes the chunk,
    /// returning the value the run halted with. A compile failure leaves
    /// the machine untouched; a run proceeds exactly as `run_spec`
    /// states of the compiled code.
    pub fn interpret(&mut self, content: &str) -> (r: Result<CloxValue, CloxError>)
        ensures
            match r {
                Ok(v) => ({
                    &&& final(self).code().len() >= 1
                    &&& final(self).code().last() == Opcode::Return
                    &&& run_spec(final(self).code(), old(self).ip_spec(), old(self).stack_spec())
                        == (VmOutcome::Halt { value: v, stack: final(self).stack_spec() })
                }),
                Err(e) => {
                    ||| (e == CloxError::CompileError && final(self).code() == old(self).code()
                        && final(self).stack_spec() == old(self).stack_spec())
                    ||| ((e == CloxError::RuntimeError || e == CloxError::StackUnderflow)
                        && run_spec(final(self).code(), old(self).ip_spec(), old(self).stack_spec())
                        == (VmOutcome::Fault { error: e, stack: final(self).stack_spec() }))
                },
            },
            ({
                let p = skip_ws_from(content@, 0, false);
                match scan_at(content@, p) {
                    Scan::AtEnd => r matches Err(e) && e == CloxError::CompileError,
                    Scan::Unexpected => r matches Err(e) && e == CloxError::CompileError,
                    Scan::Unterminated => r matches Err(e) && e == CloxError::CompileError,
                    Scan::Lexeme { token_type, end } => rule_of(token_type).prefix is None
                        ==> (r matches Err(e) && e == CloxError::CompileError),
                }
            }),
            (simple_source_code(content@) matches Some(code) ==> ((old(self).ip_spec() == 0
                && old(self).stack_spec() == Seq::<CloxValue>::empty()) ==> (match run_spec(
                code,
                0,
                Seq::<CloxValue>::empty(),
            ) {
                VmOutcome::Halt { value, stack } => r == Ok::<CloxValue, CloxError>(value),
                VmOutcome::Fault { error, stack } => r == Err::<CloxValue, CloxError>(error),
            }))),
    {
        let ghost ip0 = self.ip_spec();
        let ghost stack0 = self.stack_spec();
        let mut compiler = Compiler::new();
        match compiler.compile(content) {
            Ok(chunk) => {
                self.chunk = chunk;
                let result = self.run();
                proof {
                    if result is Err {
                        lemma_run_fault_kinds(self.code(), ip0, stack0);
                    }
                }
                result
            },
            Err(_) => Err(CloxError::CompileError),
        }
    }

    /// Executes the held chunk from the current instruction pointer. On a
    /// `Return` the popped value is printed and returned; on a fault the
    /// error is returned with the stack as the fault left it, exactly as
    /// `run_spec` states.
    pub fn run(&mut self) -> (r: Result<CloxValue, CloxError>)
        ensures
            (match run_spec(old(self).code(), old(self).ip_spec(), old(self).stack_spec()) {
                VmOutcome::Halt { value, stack } => r == Result::<CloxValue, CloxError>::Ok(value)
                    && final(self).stack_spec() == stack,
                VmOutcome::Fault { error, stack } => r == Result::<CloxValue, CloxError>::Err(
                    error,
                ) && final(self).stack_spec() == stack,
            }),
            final(self).code() == old(self).code(),
    {
        let ghost code0 = self.code();
        let ghost outcome0 = run_spec(self.code(), self.ip_spec(), self.stack_spec());
        loop
            invariant
                self.code() == code0,
                code0 == old(self).code(),
                outcome0 == run_spec(old(self).code(), old(self).ip_spec(), old(self).stack_spec()),
                run_spec(code0, self.ip_spec(), self.stack_spec()) == outcome0,
            decreases code0.len() - self.ip_spec(),
        {
            let ghost stack_pre = self.stack_spec();
            match self.chunk.get_at(self.ip) {
                Some(opcode) => {
                    let op = *opcode;
                    match op {
                        Opcode::Return => {
                            match self.stack.pop() {
                                Ok(value) => {
                                    self.chunk.print_value(&value);
                                    return Ok(value);
                                },
                                Err(e) => {
                                    return Err(e);
                                },
                            }
                        },
                        Opcode::Constant(constant) => {
                            self.stack.push(constant);
                        },
                        Opcode::Nil => {
                            self.stack.push(CloxValue::Nil);
                        },
                        Opcode::True => {
                            self.stack.push(CloxValue::Boolean(true));
                        },
                        Opcode::False => {
                            self.stack.push(CloxValue::Boolean(false));
                        },
                        Opcode::Negate => {
                            match self.stack.peek(0) {
                                Some(CloxValue::Number(n)) => {
                                    let _ = self.stack.pop();
                                    self.stack.push(CloxValue::Number(num_neg(n)));
                                },
                                Some(_) => {
                                    return Err(CloxError::RuntimeError);
                                },
                                None => {
                                    return Err(CloxError::StackUnderflow);
                                },
                            }
                        },
                        Opcode::Not => {
                            match self.stack.peek(0) {
                                Some(CloxValue::Boolean(b)) => {
                                    let _ = self.stack.pop();
                                    self.stack.push(CloxValue::Boolean(!b));
                                },
                                Some(CloxValue::Nil) => {
                                    // nil is falsey, so its negation is true
                                    let _ = self.stack.pop();
                                    self.stack.push(CloxValue::Boolean(true));
                                },
                                Some(CloxValue::Number(_)) => {
                                    return Err(CloxError::RuntimeError);
                                },
                                None => {
                                    return Err(CloxError::StackUnderflow);
                                },
                            }
                        },
                        Opcode::Equal => {
                            match self.stack.peek(1) {
                                Some(_) => {
                                    let a = match self.stack.pop() {
                                        Ok(v) => v,
                                        Err(_) => vstd::pervasive::unreached(),
                                    };
                                    let b = match self.stack.pop() {
                                        Ok(v) => v,
                                        Err(_) => vstd::pervasive::unreached(),
                                    };
                                    self.stack.push(CloxValue::new_bool(a == b));
                                },
                                None => {
                                    return Err(CloxError::StackUnderflow);
                                },
                            }
                        },
                        Opcode::Add | Opcode::Sub | Opcode::Mul | Opcode::Div | Opcode::Greater
                            | Opcode::Less => {
                            let top = self.stack.peek(0);
                            let below = self.stack.peek(1);
                            match (below, top) {
                                (Some(lhs), Some(rhs)) => {
                                    if !lhs.is_number() || !rhs.is_number() {
                                        return Err(CloxError::RuntimeError);
                                    }
                                    let b = match self.stack.pop() {
                                        Ok(v) => v.as_number(),
                                        Err(_) => vstd::pervasive::unreached(),
                                    };
                                    let a = match self.stack.pop() {
                                        Ok(v) => v.as_number(),
                                        Err(_) => vstd::pervasive::unreached(),
                                    };
                                    let result = match op {
                                        Opcode::Add => CloxValue::new_num(num_add(a, b)),
                                        Opcode::Sub => CloxValue::new_num(num_sub(a, b)),
                                        Opcode::Mul => CloxValue::new_num(num_mul(a, b)),
                                        Opcode::Div => CloxValue::new_num(num_div(a, b)),
                                        Opcode::Greater => CloxValue::new_bool(num_gt(a, b)),
                                        _ => CloxValue::new_bool(num_lt(a, b)),
                                    };
                                    proof {
                                        assert(result == binary_result(
                                            code0[self.ip_spec() as int],
                                            a,
                                            b,
                                        ));
                                    }
                                    self.stack.push(result);
                                },
                                _ => {
                                    return Err(CloxError::StackUnderflow);
                                },
                            }
                        },
                    }
                },
                None => {
                    return Err(CloxError::RuntimeError);
                },
            }

            proof {
                assert(run_spec(code0, self.ip_spec(), stack_pre) == run_spec(
                    code0,
                    self.ip_spec() + 1,
                    self.stack_spec(),
                ));
            }
            self.ip = self.ip + 1;
        }
    }
}

/// How many operands an instruction takes off the stack.
pub open spec fn op_pops(op: Opcode) -> int {
    match op {
        Opcode::Return => 1,
        Opcode::Constant(_) | Opcode::Nil | Opcode::True | Opcode::False => 0,
        Opcode::Negate | Opcode::Not => 1,
        _ => 2,
    }
}

/// Straight-line expression code: no `Return`, and from a stack of
/// height `h` every instruction finds the operands it pops, each one
/// leaving a single result.
pub open spec fn expr_code(seg: Seq<Opcode>, h: int) -> bool
    decreases seg.len(),
{
    if seg.len() == 0 {
        true
    } else {
        &&& !(seg[0] is Return)
        &&& h >= op_pops(seg[0])
        &&& expr_code(seg.skip(1), h - op_pops(seg[0]) + 1)
    }
}

/// The stack height after such a segment runs from height `h`.
pub open spec fn code_height(seg: Seq<Opcode>, h: int) -> int
    decreases seg.len(),
{
    if seg.len() == 0 {
        h
    } else {
        code_height(seg.skip(1), h - op_pops(seg[0]) + 1)
    }
}

/// Expression code holds no `Return` anywhere.
pub proof fn lemma_expr_code_no_return(seg: Seq<Opcode>, h: int)
    requires
        expr_code(seg, h),
    ensures
        forall|i: int| 0 <= i < seg.len() ==> !((#[trigger] seg[i]) is Return),
    decreases seg.len(),
{
    if seg.len() > 0 {
        lemma_expr_code_no_return(seg.skip(1), h - op_pops(seg[0]) + 1);
        assert forall|i: int| 0 <= i < seg.len() implies !((#[trigger] seg[i]) is Return) by {
            if i > 0 {
                assert(seg.skip(1)[i - 1] == seg[i]);
            }
        }
    }
}

/// Expression code keeps its shape on any taller stack, and its net
/// effect does not depend on the height it starts from.
pub proof fn lemma_expr_code_monotone(seg: Seq<Opcode>, h1: int, h2: int)
    requires
        expr_code(seg, h1),
        h1 <= h2,
    ensures
        expr_code(seg, h2),
        code_height(seg, h2) == code_height(seg, h1) + (h2 - h1),
    decreases seg.len(),
{
    if seg.len() > 0 {
        lemma_expr_code_monotone(
            seg.skip(1),
            h1 - op_pops(seg[0]) + 1,
            h2 - op_pops(seg[0]) + 1,
        );
    }
}

/// Two pieces of expression code run one after the other are expression
/// code again, ending where the second one ends.
pub proof fn lemma_expr_code_concat(a: Seq<Opcode>, b: Seq<Opcode>, h: int)
    requires
        expr_code(a, h),
        expr_code(b, code_height(a, h)),
    ensures
        expr_code(a + b, h),
        code_height(a + b, h) == code_height(b, code_height(a, h)),
    decreases a.len(),
{
    if a.len() == 0 {
        assert(a + b =~= b);
    } else {
        assert((a + b).skip(1) =~= a.skip(1) + b);
        lemma_expr_code_concat(a.skip(1), b, h - op_pops(a[0]) + 1);
    }
}

/// Expression code followed by a final `Return` never underflows the
/// stack: the run halts, or faults on a wrongly typed operand and
/// nothing else.
pub proof fn lemma_expr_code_no_underflow(ops: Seq<Opcode>, ip: nat, stack: Seq<CloxValue>)
    requires
        ops.len() >= 1,
        ip + 1 <= ops.len(),
        ops.last() == Opcode::Return,
        expr_code(ops.subrange(ip as int, ops.len() - 1), stack.len() as int),
        code_height(ops.subrange(ip as int, ops.len() - 1), stack.len() as int) >= 1,
    ensures
        (match run_spec(ops, ip, stack) {
            VmOutcome::Halt { value, stack: rest } => true,
            VmOutcome::Fault { error, stack: rest } => error == CloxError::RuntimeError,
        }),
    decreases ops.len() - ip,
{
    let seg = ops.subrange(ip as int, ops.len() - 1);
    if ip + 1 == ops.len() {
        assert(seg.len() == 0);
        assert(stack.len() >= 1);
    } else {
        let op = ops[ip as int];
        assert(op == seg[0]);
        let rest = ops.subrange(ip as int + 1, ops.len() - 1);
        assert(seg.skip(1) =~= rest);
        match op {
            Opcode::Return => {
                assert(false);
            },
            Opcode::Constant(v) => {
                lemma_expr_code_no_underflow(ops, ip + 1, stack.push(v));
            },
            Opcode::Nil => {
                lemma_expr_code_no_underflow(ops, ip + 1, stack.push(CloxValue::Nil));
            },
            Opcode::True => {
                lemma_expr_code_no_underflow(ops, ip + 1, stack.push(CloxValue::Boolean(true)));
            },
            Opcode::False => {
                lemma_expr_code_no_underflow(
                    ops,
                    ip + 1,
                    stack.push(CloxValue::Boolean(false)),
                );
            },
            Opcode::Negate => {
                match stack.last() {
                    CloxValue::Number(n) => {
                        lemma_expr_code_no_underflow(
                            ops,
                            ip + 1,
                            stack.drop_last().push(CloxValue::Number(neg_bits(n))),
                        );
                    },
                    _ => {},
                }
            },
            Opcode::Not => {
                match stack.last() {
                    CloxValue::Boolean(b) => {
                        lemma_expr_code_no_underflow(
                            ops,
                            ip + 1,
                            stack.drop_last().push(CloxValue::Boolean(!b)),
                        );
                    },
                    CloxValue::Nil => {
                        lemma_expr_code_no_underflow(
                            ops,
                            ip + 1,
                            stack.drop_last().push(CloxValue::Boolean(true)),
                        );
                    },
                    CloxValue::Number(_) => {},
                }
            },
            Opcode::Equal => {
                lemma_expr_code_no_underflow(
                    ops,
                    ip + 1,
                    stack.drop_last().drop_last().push(
                        CloxValue::Boolean(value_eq_spec(stack.last(), stack.drop_last().last())),
                    ),
                );
            },
            _ => {
                match (stack.drop_last().last(), stack.last()) {
                    (CloxValue::Number(a), CloxValue::Number(b)) => {
                        lemma_expr_code_no_underflow(
                            ops,
                            ip + 1,
                            stack.drop_last().drop_last().push(binary_result(op, a, b)),
                        );
                    },
                    _ => {},
                }
            },
        }
    }
}

/// The value a single push instruction leaves for `Return` to hand back.
pub open spec fn single_token_value(op: Opcode) -> CloxValue {
    match op {
        Opcode::Constant(v) => v,
        Opcode::True => CloxValue::Boolean(true),
        Opcode::False => CloxValue::Boolean(false),
        _ => CloxValue::Nil,
    }
}

/// A chunk holding one push instruction and a `Return` halts with
/// exactly the pushed value and an empty stack.
pub proof fn lemma_single_push_return(op: Opcode)
    requires
        !(op is Return),
        op_pops(op) == 0,
    ensures
        run_spec(seq![op, Opcode::Return], 0, Seq::<CloxValue>::empty()) == (VmOutcome::Halt {
            value: single_token_value(op),
            stack: Seq::<CloxValue>::empty(),
        }),
{
    let ops = seq![op, Opcode::Return];
    let stack1 = Seq::<CloxValue>::empty().push(single_token_value(op));
    assert(run_spec(ops, 0, Seq::<CloxValue>::empty()) == run_spec(ops, 1, stack1));
    assert(stack1.drop_last() =~= Seq::<CloxValue>::empty());
}

/// Round trip of a literal: a chunk holding one number constant and a
/// `Return` halts with exactly that number, whatever its bits, and the
/// value's printed form is its natural decimal rendering.
pub proof fn lemma_constant_return_round_trip(b: u64)
    ensures
        run_spec(
            seq![Opcode::Constant(CloxValue::Number(b)), Opcode::Return],
            0,
            Seq::<CloxValue>::empty(),
        ) == (VmOutcome::Halt {
            value: CloxValue::Number(b),
            stack: Seq::<CloxValue>::empty(),
        }),
        value_text(CloxValue::Number(b)) == crate::number::number_display(b),
        (!crate::number::is_nan_bits(b) && !crate::number::is_inf_bits(b)
            && crate::number::first_reading_back(b, 1) <= crate::number::DISPLAY_DIGITS_MAX)
            ==> crate::number::parse_opt_of(value_text(CloxValue::Number(b))) == Some(b),
{
    crate::number::lemma_display_reads_back(b, 1);
    let ops = seq![Opcode::Constant(CloxValue::Number(b)), Opcode::Return];
    let stack1 = Seq::<CloxValue>::empty().push(CloxValue::Number(b));
    assert(run_spec(ops, 0, Seq::<CloxValue>::empty()) == run_spec(ops, 1, stack1));
    assert(stack1.last() == CloxValue::Number(b));
    assert(stack1.drop_last() =~= Seq::<CloxValue>::empty());
}

/// Nil is falsey: `Not` applied to a nil on top of the stack replaces it
/// with the boolean true and goes on.
pub proof fn lemma_not_nil_is_true(ops: Seq<Opcode>, ip: nat, stack: Seq<CloxValue>)
    requires
        ip < ops.len(),
        ops[ip as int] == Opcode::Not,
        stack.len() > 0,
        stack.last() == CloxValue::Nil,
    ensures
        run_spec(ops, ip, stack) == run_spec(
            ops,
            ip + 1,
            stack.drop_last().push(CloxValue::Boolean(true)),
        ),
{
}

/// A bare `Return` on an empty stack fails with a stack underflow — it
/// never yields a default value.
pub proof fn lemma_return_on_empty_underflows(ops: Seq<Opcode>, ip: nat, stack: Seq<CloxValue>)
    requires
        ip < ops.len(),
        ops[ip as int] == Opcode::Return,
        stack.len() == 0,
    ensures
        run_spec(ops, ip, stack) == (VmOutcome::Fault {
            error: CloxError::StackUnderflow,
            stack,
        }),
{
}

/// A binary numeric instruction with a wrongly typed operand fails with
/// a runtime error and leaves the stack exactly as it was.
pub proof fn lemma_binary_type_mismatch(ops: Seq<Opcode>, ip: nat, stack: Seq<CloxValue>)
    requires
        ip < ops.len(),
        is_binary_numeric(ops[ip as int]),
        stack.len() >= 2,
        !(stack.last() is Number) || !(stack.drop_last().last() is Number),
    ensures
        run_spec(ops, ip, stack) == (VmOutcome::Fault {
            error: CloxError::RuntimeError,
            stack,
        }),
{
}

/// A run can only fault two ways: popping an empty stack is an
/// underflow, and everything else — a wrongly typed operand or running
/// off the end of the stream — is a runtime error.
pub proof fn lemma_run_fault_kinds(ops: Seq<Opcode>, ip: nat, stack: Seq<CloxValue>)
    ensures
        run_spec(ops, ip, stack) matches VmOutcome::Fault { error, stack: s } ==> (error
            == CloxError::RuntimeError || error == CloxError::StackUnderflow),
    decreases ops.len() - ip,
{
    if ip < ops.len() {
        match ops[ip as int] {
            Opcode::Return => {},
            Opcode::Constant(v) => lemma_run_fault_kinds(ops, ip + 1, stack.push(v)),
            Opcode::Nil => lemma_run_fault_kinds(ops, ip + 1, stack.push(CloxValue::Nil)),
            Opcode::True => lemma_run_fault_kinds(
                ops,
                ip + 1,
                stack.push(CloxValue::Boolean(true)),
            ),
            Opcode::False => lemma_run_fault_kinds(
                ops,
                ip + 1,
                stack.push(CloxValue::Boolean(false)),
            ),
            Opcode::Negate => {
                if stack.len() > 0 {
                    match stack.last() {
                        CloxValue::Number(n) => lemma_run_fault_kinds(
                            ops,
                            ip + 1,
                            stack.drop_last().push(CloxValue::Number(neg_bits(n))),
                        ),
                        _ => {},
                    }
                }
            },
            Opcode::Not => {
                if stack.len() > 0 {
                    match stack.last() {
                        CloxValue::Boolean(b) => lemma_run_fault_kinds(
                            ops,
                            ip + 1,
                            stack.drop_last().push(CloxValue::Boolean(!b)),
                        ),
                        CloxValue::Nil => lemma_run_fault_kinds(
                            ops,
                            ip + 1,
                            stack.drop_last().push(CloxValue::Boolean(true)),
                        ),
                        CloxValue::Number(_) => {},
                    }
                }
            },
            Opcode::Equal => {
                if stack.len() >= 2 {
                    lemma_run_fault_kinds(
                        ops,
                        ip + 1,
                        stack.drop_last().drop_last().push(
                            CloxValue::Boolean(
                                value_eq_spec(stack.last(), stack.drop_last().last()),
                            ),
                        ),
                    );
                }
            },
            _ => {
                if stack.len() >= 2 {
                    match (stack.drop_last().last(), stack.last()) {
                        (CloxValue::Number(a), CloxValue::Number(b)) => {
                            lemma_run_fault_kinds(
                                ops,
                                ip + 1,
                                stack.drop_last().drop_last().push(
                                    binary_result(ops[ip as int], a, b),
                                ),
                            );
                        },
                        _ => {},
                    }
                }
            },
        }
    }
}

} // verus!
