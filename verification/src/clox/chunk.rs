//! The compiled form of an expression: a flat instruction stream with a
//! parallel table of source line numbers for diagnostics.
use super::clox_value::{value_text, CloxValue};
use super::opcode::Opcode;
use crate::console::print_line;
use crate::text::usize_to_string;
use vstd::prelude::*;

verus! {

/// An ordered sequence of opcodes paired index-for-index with the source
/// line each was emitted on. The two sequences always have equal length.
#[derive(Debug)]
pub struct Chunk {
    opcodes: Vec<Opcode>,
    lines: Vec<usize>,
}

/// The mnemonic of an instruction, as the disassembly prints it.
pub open spec fn mnemonic(op: Opcode) -> Seq<char> {
    match op {
        Opcode::Return => "OP_RETURN"@,
        Opcode::Nil => "OP_NIL"@,
        Opcode::True => "OP_TRUE"@,
        Opcode::False => "OP_FALSE"@,
        Opcode::Equal => "OP_EQUAL"@,
        Opcode::Greater => "OP_GREATER"@,
        Opcode::Less => "OP_LESS"@,
        Opcode::Add => "OP_ADD"@,
        Opcode::Sub => "OP_SUB"@,
        Opcode::Mul => "OP_MUL"@,
        Opcode::Div => "OP_DIV"@,
        Opcode::Not => "OP_NOT"@,
        Opcode::Negate => "OP_NEGATE"@,
        Opcode::Constant(v) => "OP_CONSTANT '"@ + value_text(v) + "'"@,
    }
}

impl Chunk {
    /// The instruction stream.
    pub closed spec fn ops(&self) -> Seq<Opcode> {
        self.opcodes@
    }

    /// The line-number table, index-for-index with the instructions.
    pub closed spec fn line_seq(&self) -> Seq<usize> {
        self.lines@
    }

    /// The two parallel tables cover the same offsets.
    pub open spec fn wf(&self) -> bool {
        self.ops().len() == self.line_seq().len()
    }

    pub fn new() -> (r: Self)
        ensures
            r.ops() == Seq::<Opcode>::empty(),
            r.line_seq() == Seq::<usize>::empty(),
            r.wf(),
    {
        Self { opcodes: Vec::new(), lines: Vec::new() }
    }

    /// Appends one instruction together with its source line.
    pub fn write_chunk(&mut self, opcode: Opcode, line: usize)
        ensures
            final(self).ops() == old(self).ops().push(opcode),
            final(self).line_seq() == old(self).line_seq().push(line),
            old(self).wf() ==> final(self).wf(),
    {
        self.opcodes.push(opcode);
        self.lines.push(line);
    }

    /// The virtual machine's fetch primitive: the instruction at `offset`,
    /// or nothing past the end of the stream.
    pub fn get_at(&self, offset: usize) -> (r: Option<&Opcode>)
        ensures
            offset < self.ops().len() ==> (r matches Some(op) && *op == self.ops()[offset as int]),
            offset >= self.ops().len() ==> r is None,
            self.ops().len() <= usize::MAX,
    {
        if offset < self.opcodes.len() {
            Some(&self.opcodes[offset])
        } else {
            None
        }
    }

    /// Prints a human-readable dump of the chunk: a header, then one line
    /// per instruction. A diagnostic aid with no stable format.
    pub fn disassemble_chunk(&self, source: &str)
        requires
            self.wf(),
    {
        let mut header = String::from_str("== ");
        header.append(source);
        header.append(" ==");
        print_line(header.as_str());

        let mut idx: usize = 0;
        while idx < self.opcodes.len()
            invariant
                self.wf(),
            decreases self.opcodes.len() - idx,
        {
            let op = &self.opcodes[idx];
            self.disassemble_instruction(op, idx);
            idx = idx + 1;
        }
    }

    /// Prints one instruction: its offset, its line number (blanked when
    /// it repeats the previous instruction's line), and its mnemonic.
    fn disassemble_instruction(&self, opcode: &Opcode, offset: usize) -> (r: usize)
        requires
            self.wf(),
            offset < self.ops().len(),
            offset < usize::MAX,
        ensures
            r == offset + 1,
    {
        let mut text = pad_zeros_4(usize_to_string(offset));
        text.append(" ");

        if offset > 0 && self.lines[offset] == self.lines[offset - 1] {
            text.append("  | ");
        } else {
            let line_text = pad_spaces_3(usize_to_string(self.lines[offset]));
            text = text.concat(line_text.as_str());
            text.append(" ");
        }

        let mnemonic_text = opcode_text(opcode);
        text = text.concat(mnemonic_text.as_str());
        print_line(text.as_str());
        offset + 1
    }

    /// Prints a value's display form.
    pub fn print_value(&self, value: &CloxValue) {
        let text = value.display_string();
        print_line(text.as_str());
    }
}

/// The mnemonic of one instruction as text, exactly as `mnemonic` states.
pub fn opcode_text(op: &Opcode) -> (r: String)
    ensures
        r@ == mnemonic(*op),
{
    match op {
        Opcode::Return => String::from_str("OP_RETURN"),
        Opcode::Nil => String::from_str("OP_NIL"),
        Opcode::True => String::from_str("OP_TRUE"),
        Opcode::False => String::from_str("OP_FALSE"),
        Opcode::Equal => String::from_str("OP_EQUAL"),
        Opcode::Greater => String::from_str("OP_GREATER"),
        Opcode::Less => String::from_str("OP_LESS"),
        Opcode::Add => String::from_str("OP_ADD"),
        Opcode::Sub => String::from_str("OP_SUB"),
        Opcode::Mul => String::from_str("OP_MUL"),
        Opcode::Div => String::from_str("OP_DIV"),
        Opcode::Not => String::from_str("OP_NOT"),
        Opcode::Negate => String::from_str("OP_NEGATE"),
        Opcode::Constant(v) => {
            let mut text = String::from_str("OP_CONSTANT '");
            let value = v.display_string();
            text.append(value.as_str());
            text.append("'");
            assert(text@ =~= mnemonic(*op));
            text
        },
    }
}

/// Left-pads with zeros to a width of four, as offsets are printed.
fn pad_zeros_4(s: String) -> (r: String)
    ensures
        r@.len() >= 4,
        s@.len() >= 4 ==> r@ == s@,
    decreases (if s@.len() < 4 {
        4 - s@.len()
    } else {
        0int
    }),
{
    if s.as_str().unicode_len() >= 4 {
        s
    } else {
        let mut t = String::from_str("0");
        t.append(s.as_str());
        proof {
            reveal_strlit("0");
            assert(t@.len() == s@.len() + 1);
        }
        pad_zeros_4(t)
    }
}

/// Right-pads with spaces to a width of three, as line numbers are
/// printed.
fn pad_spaces_3(s: String) -> (r: String)
    ensures
        r@.len() >= 3,
        s@.len() >= 3 ==> r@ == s@,
    decreases (if s@.len() < 3 {
        3 - s@.len()
    } else {
        0int
    }),
{
    if s.as_str().unicode_len() >= 3 {
        s
    } else {
        let ghost s0 = s@;
        let mut t = s;
        t.append(" ");
        proof {
            reveal_strlit(" ");
            assert(t@.len() == s0.len() + 1);
        }
        pad_spaces_3(t)
    }
}

} // verus!
