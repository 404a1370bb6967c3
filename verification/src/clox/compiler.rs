//! The compiler: a single-pass Pratt parser that reads tokens straight
//! from the scanner and emits opcodes into a chunk as it recognizes each
//! production. There is no intermediate syntax tree.
//!
//! The parse table maps every token kind to an optional prefix handler,
//! an optional infix handler, and a precedence level; the handlers are a
//! closed set, dispatched by tag. Termination of the mutually recursive
//! parse functions rests on a measure over the unconsumed input.
use super::chunk::Chunk;
use super::clox_error::CloxError;
use super::clox_value::CloxValue;
use super::opcode::Opcode;
use super::scanner::{lexeme_matches, scan_at, skip_ws_from, Scan, Scanner};
use super::string_indexer::StringIndexer;
use super::token::{Token, TokenType};
use super::vm::{
    code_height, expr_code, lemma_expr_code_concat, lemma_expr_code_monotone,
    lemma_expr_code_no_return, lemma_expr_code_no_underflow, op_pops, run_spec, VmOutcome,
};
use crate::console::print_line;
use crate::number::{parse_number, parse_opt_of};
use vstd::prelude::*;

verus! {

/// The strictly ordered precedence levels, lowest first.
#[derive(Debug, Clone, Copy, PartialEq, Eq, Structural)]
pub enum Precedence {
    Lowest,
    Assignment,
    Or,
    And,
    Equality,
    Comparison,
    Term,
    Factor,
    Unary,
    Call,
    Primary,
}

/// The numeric rank of a precedence level.
pub open spec fn prec_val(p: Precedence) -> int {
    match p {
        Precedence::Lowest => 0,
        Precedence::Assignment => 1,
        Precedence::Or => 2,
        Precedence::And => 3,
        Precedence::Equality => 4,
        Precedence::Comparison => 5,
        Precedence::Term => 6,
        Precedence::Factor => 7,
        Precedence::Unary => 8,
        Precedence::Call => 9,
        Precedence::Primary => 10,
    }
}

impl Precedence {
    /// The level's numeric rank.
    pub fn value(self) -> (r: u32)
        ensures
            r == prec_val(self),
    {
        match self {
            Precedence::Lowest => 0,
            Precedence::Assignment => 1,
            Precedence::Or => 2,
            Precedence::And => 3,
            Precedence::Equality => 4,
            Precedence::Comparison => 5,
            Precedence::Term => 6,
            Precedence::Factor => 7,
            Precedence::Unary => 8,
            Precedence::Call => 9,
            Precedence::Primary => 10,
        }
    }

    /// The level with the given rank.
    pub fn from_value(v: u32) -> (r: Precedence)
        requires
            v <= 10,
        ensures
            prec_val(r) == v,
    {
        match v {
            0 => Precedence::Lowest,
            1 => Precedence::Assignment,
            2 => Precedence::Or,
            3 => Precedence::And,
            4 => Precedence::Equality,
            5 => Precedence::Comparison,
            6 => Precedence::Term,
            7 => Precedence::Factor,
            8 => Precedence::Unary,
            9 => Precedence::Call,
            _ => Precedence::Primary,
        }
    }
}

/// The closed set of parse handlers the table can name.
#[derive(Debug, Clone, Copy, PartialEq, Eq, Structural)]
pub enum ParseFn {
    Grouping,
    Unary,
    Binary,
    Number,
    Literal,
    StringLit,
}

/// One row of the parse table.
#[derive(Debug, Clone, Copy, PartialEq, Eq, Structural)]
pub struct ParseRule {
    pub prefix: Option<ParseFn>,
    pub infix: Option<ParseFn>,
    pub precedence: Precedence,
}

/// The parse table: for every token kind, its prefix handler, its infix
/// handler, and its precedence.
pub open spec fn rule_of(token_type: TokenType) -> ParseRule {
    match token_type {
        TokenType::LeftParen => ParseRule {
            prefix: Some(ParseFn::Grouping),
            infix: None,
            precedence: Precedence::Lowest,
        },
        TokenType::Minus => ParseRule {
            prefix: Some(ParseFn::Unary),
            infix: Some(ParseFn::Binary),
            precedence: Precedence::Term,
        },
        TokenType::Plus => ParseRule {
            prefix: None,
            infix: Some(ParseFn::Binary),
            precedence: Precedence::Term,
        },
        TokenType::Slash => ParseRule {
            prefix: None,
            infix: Some(ParseFn::Binary),
            precedence: Precedence::Factor,
        },
        TokenType::Star => ParseRule {
            prefix: None,
            infix: Some(ParseFn::Binary),
            precedence: Precedence::Factor,
        },
        TokenType::Bang => ParseRule {
            prefix: Some(ParseFn::Unary),
            infix: None,
            precedence: Precedence::Lowest,
        },
        TokenType::BangEqual => ParseRule {
            prefix: None,
            infix: Some(ParseFn::Binary),
            precedence: Precedence::Equality,
        },
        TokenType::EqualEqual => ParseRule {
            prefix: None,
            infix: Some(ParseFn::Binary),
            precedence: Precedence::Equality,
        },
        TokenType::Greater => ParseRule {
            prefix: None,
            infix: Some(ParseFn::Binary),
            precedence: Precedence::Comparison,
        },
        TokenType::GreaterEqual => ParseRule {
            prefix: None,
            infix: Some(ParseFn::Binary),
            precedence: Precedence::Comparison,
        },
        TokenType::Less => ParseRule {
            prefix: None,
            infix: Some(ParseFn::Binary),
            precedence: Precedence::Comparison,
        },
        TokenType::LessEqual => ParseRule {
            prefix: None,
            infix: Some(ParseFn::Binary),
            precedence: Precedence::Comparison,
        },
        TokenType::String => ParseRule {
            prefix: Some(ParseFn::StringLit),
            infix: None,
            precedence: Precedence::Lowest,
        },
        TokenType::Number => ParseRule {
            prefix: Some(ParseFn::Number),
            infix: None,
            precedence: Precedence::Lowest,
        },
        TokenType::False => ParseRule {
            prefix: Some(ParseFn::Literal),
            infix: None,
            precedence: Precedence::Lowest,
        },
        TokenType::Nil => ParseRule {
            prefix: Some(ParseFn::Literal),
            infix: None,
            precedence: Precedence::Lowest,
        },
        TokenType::True => ParseRule {
            prefix: Some(ParseFn::Literal),
            infix: None,
            precedence: Precedence::Lowest,
        },
        _ => ParseRule { prefix: None, infix: None, precedence: Precedence::Lowest },
    }
}

/// The one-token lookahead buffer.
pub struct Parser {
    current: Option<Token>,
    previous: Option<Token>,
}

/// A token the compiler holds points at a recorded span whose text has
/// the token's shape.
pub(crate) open spec fn tok_ok<'a>(t: Option<Token>, indexer: StringIndexer<'a>) -> bool {
    t matches Some(tok) ==> {
        &&& tok.id < indexer.locations().len()
        &&& lexeme_matches(
            tok.token_type,
            indexer.span_text(indexer.locations()[tok.id as int]),
        )
    }
}

/// The one instruction a self-contained prefix token compiles to: a
/// number constant from its lexeme, or a keyword literal's opcode.
pub open spec fn single_token_code(lex: Seq<char>, token_type: TokenType) -> Option<Opcode> {
    match token_type {
        TokenType::Number => match parse_opt_of(lex) {
            Some(b) => Some(Opcode::Constant(CloxValue::Number(b))),
            None => None,
        },
        TokenType::True => Some(Opcode::True),
        TokenType::False => Some(Opcode::False),
        TokenType::Nil => Some(Opcode::Nil),
        _ => None,
    }
}

/// The instruction a prefix operator compiles to.
pub open spec fn unary_opcode(token_type: TokenType) -> Option<Opcode> {
    match token_type {
        TokenType::Bang => Some(Opcode::Not),
        TokenType::Minus => Some(Opcode::Negate),
        _ => None,
    }
}

/// A token kind that compiles to one instruction on its own.
pub open spec fn is_single_token(token_type: TokenType) -> bool {
    token_type == TokenType::Number || token_type == TokenType::True || token_type
        == TokenType::False || token_type == TokenType::Nil
}

/// The instruction sequence an infix operator compiles to after its
/// operands: one opcode each, but for the three two-opcode idioms.
pub open spec fn op_codes(token_type: TokenType) -> Seq<Opcode> {
    match token_type {
        TokenType::BangEqual => seq![Opcode::Equal, Opcode::Not],
        TokenType::EqualEqual => seq![Opcode::Equal],
        TokenType::Greater => seq![Opcode::Greater],
        TokenType::GreaterEqual => seq![Opcode::Less, Opcode::Not],
        TokenType::Less => seq![Opcode::Less],
        TokenType::LessEqual => seq![Opcode::Greater, Opcode::Not],
        TokenType::Plus => seq![Opcode::Add],
        TokenType::Minus => seq![Opcode::Sub],
        TokenType::Star => seq![Opcode::Mul],
        TokenType::Slash => seq![Opcode::Div],
        _ => Seq::<Opcode>::empty(),
    }
}

/// The exact code a prefix operator applied to one self-contained token
/// compiles to, read off the text: the operator begins at the position
/// already skipped to, its operand follows, and then the input ends.
pub open spec fn unary_source_code(text: Seq<char>, op_tt: TokenType, op_end: nat) -> Option<
    Seq<Opcode>,
> {
    let q2 = skip_ws_from(text, op_end, false);
    let sc2 = scan_at(text, q2);
    if sc2 is Lexeme && is_single_token(sc2->Lexeme_token_type) && scan_at(
        text,
        skip_ws_from(text, sc2->Lexeme_end, false),
    ) is AtEnd {
        let operand = single_token_code(
            text.subrange(q2 as int, sc2->Lexeme_end as int),
            sc2->Lexeme_token_type,
        );
        if operand is Some && unary_opcode(op_tt) is Some {
            Some(seq![operand->Some_0, unary_opcode(op_tt)->Some_0, Opcode::Return])
        } else {
            None
        }
    } else {
        None
    }
}

/// The exact code one self-contained token followed by an infix operator
/// and a second such token compiles to: both operands, then the
/// operator's opcodes, then the `Return`.
pub open spec fn binary_source_code(text: Seq<char>, c1: Opcode, t1_end: nat) -> Option<
    Seq<Opcode>,
> {
    let qop = skip_ws_from(text, t1_end, false);
    let scop = scan_at(text, qop);
    let q2 = skip_ws_from(text, scop->Lexeme_end, false);
    let sc2 = scan_at(text, q2);
    if scop is Lexeme && rule_of(scop->Lexeme_token_type).infix == Some(ParseFn::Binary) && sc2
        is Lexeme && is_single_token(sc2->Lexeme_token_type) && scan_at(
        text,
        skip_ws_from(text, sc2->Lexeme_end, false),
    ) is AtEnd {
        match single_token_code(text.subrange(q2 as int, sc2->Lexeme_end as int), sc2->Lexeme_token_type) {
            Some(c2) => Some(
                (Seq::<Opcode>::empty().push(c1).push(c2) + op_codes(scop->Lexeme_token_type)).push(
                    Opcode::Return,
                ),
            ),
            None => None,
        }
    } else {
        None
    }
}

/// The exact chunk a source of one of the simple shapes compiles to: a
/// lone self-contained token, a prefix operator applied to one, or two
/// such tokens joined by one infix operator, each followed by the end of
/// the input. Sources of any other shape are out of this function's
/// reach.
pub open spec fn simple_source_code(text: Seq<char>) -> Option<Seq<Opcode>> {
    let p = skip_ws_from(text, 0, false);
    let sc = scan_at(text, p);
    if sc is Lexeme {
        let tt = sc->Lexeme_token_type;
        let end = sc->Lexeme_end;
        if is_single_token(tt) {
            match single_token_code(text.subrange(p as int, end as int), tt) {
                Some(op) => {
                    if scan_at(text, skip_ws_from(text, end, false)) is AtEnd {
                        Some(seq![op, Opcode::Return])
                    } else {
                        binary_source_code(text, op, end)
                    }
                },
                None => None,
            }
        } else if tt == TokenType::Bang || tt == TokenType::Minus {
            unary_source_code(text, tt, end)
        } else {
            None
        }
    } else {
        None
    }
}

/// One expression's worth of code was appended: the old opcodes are
/// untouched, and the new ones are expression code that produces
/// exactly one value on an empty stack.
pub open spec fn emits_value(pre: Seq<Opcode>, post: Seq<Opcode>) -> bool {
    &&& pre.len() <= post.len()
    &&& post.take(pre.len() as int) == pre
    &&& expr_code(post.skip(pre.len() as int), 0)
    &&& code_height(post.skip(pre.len() as int), 0) == 1
}

/// An operator's completion: with one value already on the stack, the
/// appended code turns it into the operation's single result.
pub open spec fn emits_operator(pre: Seq<Opcode>, post: Seq<Opcode>) -> bool {
    &&& pre.len() <= post.len()
    &&& post.take(pre.len() as int) == pre
    &&& expr_code(post.skip(pre.len() as int), 1)
    &&& code_height(post.skip(pre.len() as int), 1) == 1
}

/// A value followed by an operator's completion is a value again.
proof fn lemma_emits_compose(pre: Seq<Opcode>, mid: Seq<Opcode>, post: Seq<Opcode>)
    requires
        emits_value(pre, mid),
        emits_operator(mid, post),
    ensures
        emits_value(pre, post),
{
    let d1 = mid.skip(pre.len() as int);
    let d2 = post.skip(mid.len() as int);
    lemma_expr_code_concat(d1, d2, 0);
    assert(post.skip(pre.len() as int) =~= d1 + d2);
    assert(post.take(pre.len() as int) =~= pre);
}

/// Appending one operand-free instruction emits one value.
proof fn lemma_emits_single(pre: Seq<Opcode>, op: Opcode)
    requires
        !(op is Return),
        op_pops(op) == 0,
    ensures
        emits_value(pre, pre.push(op)),
{
    let post = pre.push(op);
    assert(post.take(pre.len() as int) =~= pre);
    let d = post.skip(pre.len() as int);
    assert(d =~= seq![op]);
    assert(d.skip(1) =~= Seq::<Opcode>::empty());
    assert(expr_code(Seq::<Opcode>::empty(), 1));
    assert(code_height(Seq::<Opcode>::empty(), 1) == 1);
    assert(expr_code(d, 0));
    assert(code_height(d, 0) == 1);
}

/// A value followed by a one-operand instruction is a value again.
proof fn lemma_emits_value_unary(pre: Seq<Opcode>, mid: Seq<Opcode>, op: Opcode)
    requires
        emits_value(pre, mid),
        !(op is Return),
        op_pops(op) == 1,
    ensures
        emits_value(pre, mid.push(op)),
{
    let post = mid.push(op);
    let d1 = mid.skip(pre.len() as int);
    assert(seq![op].skip(1) =~= Seq::<Opcode>::empty());
    assert(expr_code(Seq::<Opcode>::empty(), 1));
    assert(code_height(Seq::<Opcode>::empty(), 1) == 1);
    assert(expr_code(seq![op], 1));
    assert(code_height(seq![op], 1) == 1);
    lemma_expr_code_concat(d1, seq![op], 0);
    assert(post.skip(pre.len() as int) =~= d1 + seq![op]);
    assert(post.take(pre.len() as int) =~= pre);
}

/// A value followed by a two-operand instruction completes an operator:
/// it consumes the value below as its left operand.
proof fn lemma_emits_operator_binary(pre: Seq<Opcode>, mid: Seq<Opcode>, op: Opcode)
    requires
        emits_value(pre, mid),
        !(op is Return),
        op_pops(op) == 2,
    ensures
        emits_operator(pre, mid.push(op)),
{
    let post = mid.push(op);
    let d1 = mid.skip(pre.len() as int);
    lemma_expr_code_monotone(d1, 0, 1);
    assert(seq![op].skip(1) =~= Seq::<Opcode>::empty());
    assert(expr_code(Seq::<Opcode>::empty(), 1));
    assert(code_height(Seq::<Opcode>::empty(), 1) == 1);
    assert(expr_code(seq![op], 2));
    assert(code_height(seq![op], 2) == 1);
    lemma_expr_code_concat(d1, seq![op], 1);
    assert(post.skip(pre.len() as int) =~= d1 + seq![op]);
    assert(post.take(pre.len() as int) =~= pre);
}

/// The same for the two-opcode idioms: a two-operand instruction and a
/// following one-operand one.
proof fn lemma_emits_operator_binary2(pre: Seq<Opcode>, mid: Seq<Opcode>, op1: Opcode, op2: Opcode)
    requires
        emits_value(pre, mid),
        !(op1 is Return),
        !(op2 is Return),
        op_pops(op1) == 2,
        op_pops(op2) == 1,
    ensures
        emits_operator(pre, mid.push(op1).push(op2)),
{
    let post = mid.push(op1).push(op2);
    let d1 = mid.skip(pre.len() as int);
    lemma_expr_code_monotone(d1, 0, 1);
    assert(seq![op1, op2].skip(1) =~= seq![op2]);
    assert(seq![op2].skip(1) =~= Seq::<Opcode>::empty());
    assert(expr_code(Seq::<Opcode>::empty(), 1));
    assert(code_height(Seq::<Opcode>::empty(), 1) == 1);
    assert(expr_code(seq![op2], 1));
    assert(code_height(seq![op2], 1) == 1);
    assert(expr_code(seq![op1, op2], 2));
    assert(code_height(seq![op1, op2], 2) == 1);
    lemma_expr_code_concat(d1, seq![op1, op2], 1);
    assert(post.skip(pre.len() as int) =~= d1 + seq![op1, op2]);
    assert(post.take(pre.len() as int) =~= pre);
}

/// The single-pass compiler.
pub struct Compiler<'src> {
    scanner: Scanner<'src>,
    parser: Parser,
    chunk: Chunk,
    has_error: bool,
    panic_mode: bool,
    string_seen: Ghost<bool>,
}

impl<'src> Compiler<'src> {
    /// The compiler's pieces fit together: the scanner and chunk are
    /// well formed, and both lookahead tokens point at sound spans.
    pub closed spec fn inv(&self) -> bool {
        &&& self.scanner.wf()
        &&& self.chunk.wf()
        &&& tok_ok(self.parser.current, self.scanner.indexer())
        &&& tok_ok(self.parser.previous, self.scanner.indexer())
        &&& (self.panic_mode ==> self.has_error)
    }

    /// Whether an error was recorded since the compile began.
    pub closed spec fn has_error_spec(&self) -> bool {
        self.has_error
    }

    /// Whether error reports are currently being suppressed.
    pub closed spec fn in_panic_mode(&self) -> bool {
        self.panic_mode
    }

    /// Whether no string literal was parsed since the compile began; the
    /// value model has no strings yet, so a string emits no code.
    pub closed spec fn string_free(&self) -> bool {
        !self.string_seen@
    }

    /// How much input is left: the unread characters, plus one while the
    /// lookahead token still has to be consumed.
    pub closed spec fn measure(&self) -> int {
        self.scanner.text().len() - self.scanner.current_spec() + (
        if self.parser.current matches Some(t) && t.token_type != TokenType::Eof {
            1int
        } else {
            0int
        })
    }

    /// Whether the lookahead token is present.
    pub closed spec fn has_current(&self) -> bool {
        self.parser.current is Some
    }

    /// Whether the consumed token is present.
    pub closed spec fn has_previous(&self) -> bool {
        self.parser.previous is Some
    }

    /// The compiled opcodes so far.
    pub closed spec fn ops(&self) -> Seq<Opcode> {
        self.chunk.ops()
    }

    pub fn new() -> (r: Self)
        ensures
            r.inv(),
    {
        Self {
            scanner: Scanner::new(""),
            parser: Parser { current: None, previous: None },
            chunk: Chunk::new(),
            has_error: false,
            panic_mode: false,
            string_seen: Ghost(false),
        }
    }

    /// Compiles one expression. On success the chunk holds the emitted
    /// code with a final `Return`; any error anywhere discards the chunk
    /// and reports a compile failure. A source whose first lexical item
    /// is an error, the end of the input, or a token no expression can
    /// begin with always fails; a source of one of the simple shapes —
    /// a lone literal, a prefix operator on one, or two literals joined
    /// by an infix operator — always compiles, to exactly the code
    /// `simple_source_code` states. Unless a string literal was parsed
    /// (strings emit no code yet), the compiled code can never underflow
    /// the operand stack: run on an empty stack it halts, or faults only
    /// on a wrongly typed operand.
    pub fn compile(&mut self, source: &'src str) -> (r: Result<Chunk, CloxError>)
        requires
            old(self).inv(),
        ensures
            final(self).inv(),
            match r {
                Ok(chunk) => {
                    &&& chunk.wf()
                    &&& chunk.ops().len() >= 1
                    &&& chunk.ops().last() == Opcode::Return
                    &&& final(self).string_free() ==> (forall|i: int|
                        0 <= i < chunk.ops().len() - 1 ==> !((#[trigger] chunk.ops()[i])
                            is Return))
                    &&& final(self).string_free() ==> (match run_spec(
                        chunk.ops(),
                        0,
                        Seq::<CloxValue>::empty(),
                    ) {
                        VmOutcome::Halt { value, stack } => true,
                        VmOutcome::Fault { error, stack } => error == CloxError::RuntimeError,
                    })
                },
                Err(e) => e == CloxError::CompileError,
            },
            (r is Err) == final(self).has_error_spec(),
            ({
                let p = skip_ws_from(source@, 0, false);
                match scan_at(source@, p) {
                    Scan::AtEnd => r is Err,
                    Scan::Unexpected => r is Err,
                    Scan::Unterminated => r is Err,
                    Scan::Lexeme { token_type, end } => rule_of(token_type).prefix is None
                        ==> r is Err,
                }
            }),
            (simple_source_code(source@) matches Some(code) ==> (r matches Ok(chunk)
                && chunk.ops() == code)),
    {
        self.scanner = Scanner::new(source);
        self.parser = Parser { current: None, previous: None };
        self.chunk = Chunk::new();

        self.has_error = false;
        self.panic_mode = false;
        self.string_seen = Ghost(false);

        self.advance();
        self.expression();
        let ghost body_ops = self.ops();
        self.consume(TokenType::Eof, "Expected end of expression");

        self.end_compiler();

        if self.has_error {
            Err(CloxError::CompileError)
        } else {
            let mut chunk = Chunk::new();
            core::mem::swap(&mut chunk, &mut self.chunk);
            proof {
                if chunk.ops().len() == 3 {
                    assert(chunk.ops() =~= seq![
                        chunk.ops()[0],
                        chunk.ops()[1],
                        chunk.ops()[2],
                    ]);
                }
                if self.string_free() {
                    assert(emits_value(Seq::<Opcode>::empty(), body_ops));
                    assert(chunk.ops() == body_ops.push(Opcode::Return));
                    assert(chunk.ops().subrange(0, chunk.ops().len() - 1) =~= body_ops);
                    assert(body_ops.skip(0) =~= body_ops);
                    lemma_expr_code_no_return(body_ops, 0);
                    lemma_expr_code_no_underflow(
                        chunk.ops(),
                        0,
                        Seq::<CloxValue>::empty(),
                    );
                }
            }
            Ok(chunk)
        }
    }

    /// Shifts the lookahead down and scans the next token, reporting
    /// scan errors and retrying until a token comes out.
    fn advance(&mut self)
        requires
            old(self).inv(),
        ensures
            final(self).inv(),
            final(self).has_current(),
            final(self).parser.previous == old(self).parser.current,
            final(self).ops() == old(self).ops(),
            final(self).string_free() == old(self).string_free(),
            old(self).has_error_spec() ==> final(self).has_error_spec(),
            final(self).measure() <= old(self).measure(),
            (old(self).parser.current matches Some(t) && t.token_type != TokenType::Eof)
                ==> final(self).measure() < old(self).measure(),
            final(self).scanner.text() == old(self).scanner.text(),
            old(self).scanner.indexer().locations().len() <= final(self).scanner.indexer().locations().len(),
            forall|k: int|
                0 <= k < old(self).scanner.indexer().locations().len() ==> final(self).scanner.indexer().locations()[k] == old(self).scanner.indexer().locations()[k],
            ({
                let text = old(self).scanner.text();
                let p = skip_ws_from(text, old(self).scanner.current_spec() as nat, false);
                match scan_at(text, p) {
                    Scan::AtEnd => {
                        &&& final(self).parser.current matches Some(t) && t.token_type
                            == TokenType::Eof
                        &&& final(self).scanner.current_spec() == p
                        &&& final(self).has_error_spec() == old(self).has_error_spec()
                    },
                    Scan::Lexeme { token_type, end } => {
                        &&& final(self).parser.current matches Some(t) && t.token_type
                            == token_type && t.id < final(self).scanner.indexer().locations().len()
                            && final(self).scanner.indexer().locations()[t.id as int].start == p
                            && final(self).scanner.indexer().locations()[t.id as int].end == end
                        &&& final(self).scanner.current_spec() == end
                        &&& final(self).has_error_spec() == old(self).has_error_spec()
                    },
                    Scan::Unexpected => final(self).has_error_spec(),
                    Scan::Unterminated => final(self).has_error_spec(),
                }
            }),
    {
        self.parser.previous = self.parser.current;

        loop
            invariant_except_break
                self.parser.current == old(self).parser.current,
                self.scanner == old(self).scanner || self.has_error_spec(),
                self.scanner == old(self).scanner ==> self.has_error_spec() == old(self).has_error_spec(),
                self.scanner == old(self).scanner || (match scan_at(
                    old(self).scanner.text(),
                    skip_ws_from(
                        old(self).scanner.text(),
                        old(self).scanner.current_spec() as nat,
                        false,
                    ),
                ) {
                    Scan::Unexpected => true,
                    Scan::Unterminated => true,
                    _ => false,
                }),
            invariant
                self.inv(),
                self.parser.previous == old(self).parser.current,
                self.chunk == old(self).chunk,
                self.scanner.text() == old(self).scanner.text(),
                self.string_free() == old(self).string_free(),
                old(self).has_error_spec() ==> self.has_error_spec(),
                old(self).scanner.current_spec() <= self.scanner.current_spec(),
                old(self).scanner.indexer().locations().len() <= self.scanner.indexer().locations().len(),
                forall|k: int|
                    0 <= k < old(self).scanner.indexer().locations().len() ==> self.scanner.indexer().locations()[k] == old(self).scanner.indexer().locations()[k],
            ensures
                self.inv(),
                self.parser.previous == old(self).parser.current,
                self.parser.current is Some,
                self.chunk == old(self).chunk,
                self.scanner.text() == old(self).scanner.text(),
                self.string_free() == old(self).string_free(),
                old(self).has_error_spec() ==> self.has_error_spec(),
                old(self).scanner.current_spec() <= self.scanner.current_spec(),
                (self.parser.current matches Some(t) && t.token_type != TokenType::Eof)
                    ==> self.scanner.current_spec() > old(self).scanner.current_spec(),
                (self.parser.current matches Some(t) && t.token_type == TokenType::Eof)
                    ==> self.scanner.current_spec() == self.scanner.text().len(),
                ({
                    let text = old(self).scanner.text();
                    let p = skip_ws_from(text, old(self).scanner.current_spec() as nat, false);
                    match scan_at(text, p) {
                        Scan::AtEnd => {
                            &&& self.parser.current matches Some(t) && t.token_type
                                == TokenType::Eof
                            &&& self.scanner.current_spec() == p
                            &&& self.has_error_spec() == old(self).has_error_spec()
                        },
                        Scan::Lexeme { token_type, end } => {
                            &&& self.parser.current matches Some(t) && t.token_type == token_type
                                && t.id < self.scanner.indexer().locations().len()
                                && self.scanner.indexer().locations()[t.id as int].start == p
                                && self.scanner.indexer().locations()[t.id as int].end == end
                            &&& self.scanner.current_spec() == end
                            &&& self.has_error_spec() == old(self).has_error_spec()
                        },
                        Scan::Unexpected => self.has_error_spec(),
                        Scan::Unterminated => self.has_error_spec(),
                    }
                }),
            decreases self.scanner.text().len() - self.scanner.current_spec(),
        {
            match self.scanner.scan_token() {
                Ok(token) => {
                    self.parser.current = Some(token);
                    break ;
                },
                Err(_) => {
                    self.error_at_current("could not scan a token");
                },
            }
        }
    }

    fn expression(&mut self)
        requires
            old(self).inv(),
            old(self).has_current(),
        ensures
            final(self).inv(),
            final(self).has_current(),
            final(self).has_previous(),
            final(self).scanner.text() == old(self).scanner.text(),
            final(self).measure() <= old(self).measure(),
            old(self).has_error_spec() ==> final(self).has_error_spec(),
            final(self).string_free() ==> old(self).string_free(),
            (final(self).string_free() && !final(self).has_error_spec()) ==> emits_value(
                old(self).ops(),
                final(self).ops(),
            ),
            (old(self).parser.current matches Some(t) && rule_of(t.token_type).prefix is None)
                ==> final(self).has_error_spec(),
            ({
                let text = old(self).scanner.text();
                let p2 = skip_ws_from(text, old(self).scanner.current_spec() as nat, false);
                old(self).parser.current matches Some(t) ==> (((t.token_type
                    == TokenType::Number || t.token_type == TokenType::True || t.token_type
                    == TokenType::False || t.token_type == TokenType::Nil) && t.id < old(self).scanner.indexer().locations().len() && scan_at(
                    text,
                    p2,
                ) is AtEnd) ==> ({
                    let lex = old(self).scanner.indexer().span_text(
                        old(self).scanner.indexer().locations()[t.id as int],
                    );
                    &&& single_token_code(lex, t.token_type) matches Some(op) && final(self).ops() == old(self).ops().push(op)
                    &&& final(self).parser.current matches Some(t2) && t2.token_type
                        == TokenType::Eof
                    &&& final(self).scanner.current_spec() >= final(self).scanner.text().len()
                    &&& final(self).has_error_spec() == old(self).has_error_spec()
                }))
            }),
            ({
                let text = old(self).scanner.text();
                let p2 = skip_ws_from(text, old(self).scanner.current_spec() as nat, false);
                old(self).parser.current matches Some(opt) ==> ((opt.token_type
                    == TokenType::Bang || opt.token_type == TokenType::Minus) ==> (scan_at(
                    text,
                    p2,
                ) matches Scan::Lexeme { token_type, end } ==> ((is_single_token(token_type)
                    && scan_at(text, skip_ws_from(text, end, false)) is AtEnd) ==> ({
                    &&& single_token_code(text.subrange(p2 as int, end as int), token_type)
                        matches Some(c) && unary_opcode(opt.token_type) matches Some(u)
                        && final(self).ops() == old(self).ops().push(c).push(u)
                    &&& final(self).parser.current matches Some(t2) && t2.token_type
                        == TokenType::Eof
                    &&& final(self).scanner.current_spec() >= final(self).scanner.text().len()
                    &&& final(self).has_error_spec() == old(self).has_error_spec()
                }))))
            }),
            ({
                let text = old(self).scanner.text();
                let p2 = skip_ws_from(text, old(self).scanner.current_spec() as nat, false);
                let scop = scan_at(text, p2);
                let q2 = skip_ws_from(text, scop->Lexeme_end, false);
                let sc2 = scan_at(text, q2);
                old(self).parser.current matches Some(t1) ==> ((is_single_token(t1.token_type)
                    && t1.id < old(self).scanner.indexer().locations().len() && scop is Lexeme
                    && rule_of(scop->Lexeme_token_type).infix == Some(ParseFn::Binary) && sc2
                    is Lexeme && is_single_token(sc2->Lexeme_token_type) && scan_at(
                    text,
                    skip_ws_from(text, sc2->Lexeme_end, false),
                ) is AtEnd) ==> ({
                    let lex1 = old(self).scanner.indexer().span_text(
                        old(self).scanner.indexer().locations()[t1.id as int],
                    );
                    let c2o = single_token_code(
                        text.subrange(q2 as int, sc2->Lexeme_end as int),
                        sc2->Lexeme_token_type,
                    );
                    &&& single_token_code(lex1, t1.token_type) matches Some(c1) && c2o is Some
                        && final(self).ops() == old(self).ops().push(c1).push(c2o->Some_0)
                        + op_codes(scop->Lexeme_token_type)
                    &&& final(self).parser.current matches Some(te) && te.token_type
                        == TokenType::Eof
                    &&& final(self).scanner.current_spec() >= final(self).scanner.text().len()
                    &&& final(self).has_error_spec() == old(self).has_error_spec()
                }))
            }),
        decreases old(self).measure(), 1int,
    {
        self.parse_presendence(Precedence::Assignment);
    }

    /// Expects the lookahead to be of the given kind and consumes it;
    /// otherwise reports the message as a syntax error.
    fn consume(&mut self, token_type: TokenType, message: &str)
        requires
            old(self).inv(),
            old(self).has_current(),
            old(self).has_previous(),
        ensures
            final(self).inv(),
            final(self).has_current(),
            final(self).has_previous(),
            final(self).ops() == old(self).ops(),
            final(self).scanner.text() == old(self).scanner.text(),
            final(self).string_free() == old(self).string_free(),
            old(self).has_error_spec() ==> final(self).has_error_spec(),
            (old(self).parser.current matches Some(t) && t.token_type == token_type) ==> final(self).parser.previous == old(self).parser.current,
            (old(self).parser.current matches Some(t) && t.token_type == token_type && scan_at(
                old(self).scanner.text(),
                skip_ws_from(
                    old(self).scanner.text(),
                    old(self).scanner.current_spec() as nat,
                    false,
                ),
            ) is AtEnd) ==> final(self).has_error_spec() == old(self).has_error_spec(),
            (old(self).parser.current matches Some(t) && t.token_type != token_type) ==> (
            final(self).has_error_spec() && final(self).parser == old(self).parser && final(self).scanner == old(self).scanner),
            final(self).measure() <= old(self).measure(),
    {
        let cur = match self.parser.current {
            Some(t) => t,
            None => vstd::pervasive::unreached(),
        };
        if cur.token_type == token_type {
            self.advance();
            return ;
        }

        self.error_at_current(message);
    }

    /// Records an error at the lookahead token: the first error sets the
    /// failure flag and panic mode; later ones are swallowed until the
    /// mode clears.
    fn error_at_current(&mut self, message: &str)
        requires
            old(self).inv(),
        ensures
            final(self).inv(),
            final(self).parser == old(self).parser,
            final(self).scanner == old(self).scanner,
            final(self).chunk == old(self).chunk,
            final(self).string_free() == old(self).string_free(),
            final(self).has_error_spec(),
            final(self).in_panic_mode(),
            old(self).in_panic_mode() ==> final(self).has_error_spec() == old(self).has_error_spec(),
            final(self).measure() == old(self).measure(),
    {
        self.error_at(message);
    }

    fn error_at(&mut self, _message: &str)
        requires
            old(self).inv(),
        ensures
            final(self).inv(),
            final(self).parser == old(self).parser,
            final(self).scanner == old(self).scanner,
            final(self).chunk == old(self).chunk,
            final(self).string_free() == old(self).string_free(),
            final(self).has_error_spec(),
            final(self).in_panic_mode(),
            old(self).in_panic_mode() ==> final(self).has_error_spec() == old(self).has_error_spec(),
            final(self).measure() == old(self).measure(),
    {
        if self.panic_mode {
            return ;
        }
        self.panic_mode = true;

        self.has_error = true;
    }

    /// Emits the final `Return` and, after a clean compile, prints the
    /// chunk's disassembly.
    fn end_compiler(&mut self)
        requires
            old(self).inv(),
            old(self).has_previous(),
        ensures
            final(self).inv(),
            final(self).ops() == old(self).ops().push(Opcode::Return),
            final(self).string_free() == old(self).string_free(),
            final(self).has_error_spec() == old(self).has_error_spec(),
    {
        self.emit_return();

        if !self.has_error {
            self.chunk.disassemble_chunk("test");
        } else {
            print_line("error compiling");
        }
    }

    fn emit_return(&mut self)
        requires
            old(self).inv(),
            old(self).has_previous(),
        ensures
            final(self).inv(),
            final(self).parser == old(self).parser,
            final(self).scanner == old(self).scanner,
            final(self).ops() == old(self).ops().push(Opcode::Return),
            final(self).string_free() == old(self).string_free(),
            final(self).has_error_spec() == old(self).has_error_spec(),
            final(self).measure() == old(self).measure(),
    {
        self.emit_byte(Opcode::Return);
    }

    fn emit_bytes(&mut self, op1: Opcode, op2: Opcode)
        requires
            old(self).inv(),
            old(self).has_previous(),
        ensures
            final(self).inv(),
            final(self).parser == old(self).parser,
            final(self).scanner == old(self).scanner,
            final(self).ops() == old(self).ops().push(op1).push(op2),
            final(self).string_free() == old(self).string_free(),
            final(self).has_error_spec() == old(self).has_error_spec(),
            final(self).measure() == old(self).measure(),
    {
        self.emit_byte(op1);
        self.emit_byte(op2);
    }

    fn emit_byte(&mut self, opcode: Opcode)
        requires
            old(self).inv(),
            old(self).has_previous(),
        ensures
            final(self).inv(),
            final(self).parser == old(self).parser,
            final(self).scanner == old(self).scanner,
            final(self).ops() == old(self).ops().push(opcode),
            final(self).string_free() == old(self).string_free(),
            final(self).has_error_spec() == old(self).has_error_spec(),
            final(self).measure() == old(self).measure(),
    {
        let line = match self.parser.previous {
            Some(t) => t.line,
            None => vstd::pervasive::unreached(),
        };
        self.chunk.write_chunk(opcode, line);
    }

    /// Parses the previous token's lexeme as a number and emits the
    /// constant.
    fn number(&mut self)
        requires
            old(self).inv(),
            old(self).parser.previous matches Some(t) && t.token_type == TokenType::Number,
        ensures
            final(self).inv(),
            final(self).parser == old(self).parser,
            final(self).scanner == old(self).scanner,
            final(self).string_free() == old(self).string_free(),
            final(self).has_error_spec() == old(self).has_error_spec(),
            emits_value(old(self).ops(), final(self).ops()),
            (old(self).parser.previous matches Some(t) ==> ({
                let lex = old(self).scanner.indexer().span_text(
                    old(self).scanner.indexer().locations()[t.id as int],
                );
                parse_opt_of(lex) matches Some(b) && final(self).ops() == old(self).ops().push(
                    Opcode::Constant(CloxValue::Number(b)),
                )
            })),
            final(self).measure() == old(self).measure(),
    {
        let string_id = match self.parser.previous {
            Some(t) => t.id,
            None => vstd::pervasive::unreached(),
        };
        let value = self.scanner.get_str_at(string_id);
        match parse_number(value) {
            Some(bits) => {
                self.emit_constant(CloxValue::Number(bits));
                proof {
                    lemma_emits_single(
                        old(self).ops(),
                        Opcode::Constant(CloxValue::Number(bits)),
                    );
                }
            },
            None => {
                // the scanner only hands out digit-shaped lexemes
                vstd::pervasive::unreached()
            },
        }
    }

    /// A parenthesized expression: no opcode for the parens themselves.
    fn grouping(&mut self)
        requires
            old(self).inv(),
            old(self).has_current(),
        ensures
            final(self).inv(),
            final(self).has_current(),
            final(self).has_previous(),
            final(self).scanner.text() == old(self).scanner.text(),
            old(self).has_error_spec() ==> final(self).has_error_spec(),
            final(self).string_free() ==> old(self).string_free(),
            (final(self).string_free() && !final(self).has_error_spec()) ==> emits_value(
                old(self).ops(),
                final(self).ops(),
            ),
            final(self).measure() <= old(self).measure(),
        decreases old(self).measure(), 3int,
    {
        self.expression();
        self.consume(TokenType::RightParen, "Expect ')' after expression");
    }

    /// A prefix operator: parses its operand at unary precedence, then
    /// emits the operator's opcode.
    fn unary(&mut self)
        requires
            old(self).inv(),
            old(self).has_current(),
            old(self).parser.previous matches Some(t) && (t.token_type == TokenType::Bang
                || t.token_type == TokenType::Minus),
        ensures
            final(self).inv(),
            final(self).has_current(),
            final(self).has_previous(),
            final(self).scanner.text() == old(self).scanner.text(),
            old(self).has_error_spec() ==> final(self).has_error_spec(),
            final(self).string_free() ==> old(self).string_free(),
            (final(self).string_free() && !final(self).has_error_spec()) ==> emits_value(
                old(self).ops(),
                final(self).ops(),
            ),
            (old(self).parser.previous matches Some(opt) ==> (old(self).parser.current
                matches Some(t) ==> ((is_single_token(t.token_type) && t.id < old(self).scanner.indexer().locations().len() && scan_at(
                old(self).scanner.text(),
                skip_ws_from(
                    old(self).scanner.text(),
                    old(self).scanner.current_spec() as nat,
                    false,
                ),
            ) is AtEnd) ==> ({
                let lex = old(self).scanner.indexer().span_text(
                    old(self).scanner.indexer().locations()[t.id as int],
                );
                &&& single_token_code(lex, t.token_type) matches Some(c)
                    && unary_opcode(opt.token_type) matches Some(u) && final(self).ops() == old(self).ops().push(c).push(u)
                &&& final(self).parser.current matches Some(t2) && t2.token_type
                    == TokenType::Eof
                &&& final(self).scanner.current_spec() >= final(self).scanner.text().len()
                &&& final(self).has_error_spec() == old(self).has_error_spec()
            })))),
            final(self).measure() <= old(self).measure(),
        decreases old(self).measure(), 3int,
    {
        let operator_type = match self.parser.previous {
            Some(t) => t.token_type,
            None => vstd::pervasive::unreached(),
        };
        self.parse_presendence(Precedence::Unary);
        let ghost mid_ops = self.ops();

        match operator_type {
            TokenType::Bang => {
                self.emit_byte(Opcode::Not);
                proof {
                    if self.string_free() && !self.has_error_spec() {
                        lemma_emits_value_unary(old(self).ops(), mid_ops, Opcode::Not);
                    }
                }
            },
            TokenType::Minus => {
                self.emit_byte(Opcode::Negate);
                proof {
                    if self.string_free() && !self.has_error_spec() {
                        lemma_emits_value_unary(old(self).ops(), mid_ops, Opcode::Negate);
                    }
                }
            },
            _ => vstd::pervasive::unreached(),
        }
    }

    /// An infix operator: parses the right operand one level tighter
    /// (left associativity), then emits the operator's opcodes; the
    /// kinds without an opcode of their own become two-opcode idioms.
    fn binary(&mut self)
        requires
            old(self).inv(),
            old(self).has_current(),
            old(self).parser.previous matches Some(t) && rule_of(t.token_type).infix == Some(
                ParseFn::Binary,
            ),
        ensures
            final(self).inv(),
            final(self).has_current(),
            final(self).has_previous(),
            final(self).scanner.text() == old(self).scanner.text(),
            old(self).has_error_spec() ==> final(self).has_error_spec(),
            final(self).string_free() ==> old(self).string_free(),
            (final(self).string_free() && !final(self).has_error_spec()) ==> emits_operator(
                old(self).ops(),
                final(self).ops(),
            ),
            (old(self).parser.previous matches Some(opt) ==> (old(self).parser.current
                matches Some(t) ==> ((is_single_token(t.token_type) && t.id < old(self).scanner.indexer().locations().len() && scan_at(
                old(self).scanner.text(),
                skip_ws_from(
                    old(self).scanner.text(),
                    old(self).scanner.current_spec() as nat,
                    false,
                ),
            ) is AtEnd) ==> ({
                let lex = old(self).scanner.indexer().span_text(
                    old(self).scanner.indexer().locations()[t.id as int],
                );
                &&& single_token_code(lex, t.token_type) matches Some(c) && final(self).ops()
                    == old(self).ops().push(c) + op_codes(opt.token_type)
                &&& final(self).parser.current matches Some(t2) && t2.token_type
                    == TokenType::Eof
                &&& final(self).scanner.current_spec() >= final(self).scanner.text().len()
                &&& final(self).has_error_spec() == old(self).has_error_spec()
            })))),
            final(self).measure() <= old(self).measure(),
        decreases old(self).measure(), 3int,
    {
        let operator = match self.parser.previous {
            Some(t) => t.token_type,
            None => vstd::pervasive::unreached(),
        };

        let precedence = Precedence::from_value(self.get_rule(operator).precedence.value() + 1);
        self.parse_presendence(precedence);
        let ghost mid_ops = self.ops();
        let ghost pre_ops = old(self).ops();

        match operator {
            TokenType::BangEqual => {
                self.emit_bytes(Opcode::Equal, Opcode::Not);
                proof {
                    if self.string_free() && !self.has_error_spec() {
                        lemma_emits_operator_binary2(
                            old(self).ops(),
                            mid_ops,
                            Opcode::Equal,
                            Opcode::Not,
                        );
                    }
                }
            },
            TokenType::EqualEqual => {
                self.emit_byte(Opcode::Equal);
                proof {
                    if self.string_free() && !self.has_error_spec() {
                        lemma_emits_operator_binary(old(self).ops(), mid_ops, Opcode::Equal);
                    }
                }
            },
            TokenType::Greater => {
                self.emit_byte(Opcode::Greater);
                proof {
                    if self.string_free() && !self.has_error_spec() {
                        lemma_emits_operator_binary(old(self).ops(), mid_ops, Opcode::Greater);
                    }
                }
            },
            TokenType::GreaterEqual => {
                self.emit_bytes(Opcode::Less, Opcode::Not);
                proof {
                    if self.string_free() && !self.has_error_spec() {
                        lemma_emits_operator_binary2(
                            old(self).ops(),
                            mid_ops,
                            Opcode::Less,
                            Opcode::Not,
                        );
                    }
                }
            },
            TokenType::Less => {
                self.emit_byte(Opcode::Less);
                proof {
                    if self.string_free() && !self.has_error_spec() {
                        lemma_emits_operator_binary(old(self).ops(), mid_ops, Opcode::Less);
                    }
                }
            },
            TokenType::LessEqual => {
                self.emit_bytes(Opcode::Greater, Opcode::Not);
                proof {
                    if self.string_free() && !self.has_error_spec() {
                        lemma_emits_operator_binary2(
                            old(self).ops(),
                            mid_ops,
                            Opcode::Greater,
                            Opcode::Not,
                        );
                    }
                }
            },
            TokenType::Plus => {
                self.emit_byte(Opcode::Add);
                proof {
                    if self.string_free() && !self.has_error_spec() {
                        lemma_emits_operator_binary(old(self).ops(), mid_ops, Opcode::Add);
                    }
                }
            },
            TokenType::Minus => {
                self.emit_byte(Opcode::Sub);
                proof {
                    if self.string_free() && !self.has_error_spec() {
                        lemma_emits_operator_binary(old(self).ops(), mid_ops, Opcode::Sub);
                    }
                }
            },
            TokenType::Star => {
                self.emit_byte(Opcode::Mul);
                proof {
                    if self.string_free() && !self.has_error_spec() {
                        lemma_emits_operator_binary(old(self).ops(), mid_ops, Opcode::Mul);
                    }
                }
            },
            TokenType::Slash => {
                self.emit_byte(Opcode::Div);
                proof {
                    if self.string_free() && !self.has_error_spec() {
                        lemma_emits_operator_binary(old(self).ops(), mid_ops, Opcode::Div);
                    }
                }
            },
            _ => vstd::pervasive::unreached(),
        }
    }

    /// The keyword literals `false`, `nil` and `true`.
    fn literal(&mut self)
        requires
            old(self).inv(),
            old(self).parser.previous matches Some(t) && (t.token_type == TokenType::False
                || t.token_type == TokenType::Nil || t.token_type == TokenType::True),
        ensures
            final(self).inv(),
            final(self).parser == old(self).parser,
            final(self).scanner == old(self).scanner,
            final(self).string_free() == old(self).string_free(),
            final(self).has_error_spec() == old(self).has_error_spec(),
            emits_value(old(self).ops(), final(self).ops()),
            (old(self).parser.previous matches Some(t) ==> (match t.token_type {
                TokenType::False => final(self).ops() == old(self).ops().push(Opcode::False),
                TokenType::Nil => final(self).ops() == old(self).ops().push(Opcode::Nil),
                TokenType::True => final(self).ops() == old(self).ops().push(Opcode::True),
                _ => true,
            })),
            final(self).measure() == old(self).measure(),
    {
        let token_type = match self.parser.previous {
            Some(t) => t.token_type,
            None => vstd::pervasive::unreached(),
        };
        match token_type {
            TokenType::False => {
                self.emit_byte(Opcode::False);
                proof {
                    lemma_emits_single(old(self).ops(), Opcode::False);
                }
            },
            TokenType::Nil => {
                self.emit_byte(Opcode::Nil);
                proof {
                    lemma_emits_single(old(self).ops(), Opcode::Nil);
                }
            },
            TokenType::True => {
                self.emit_byte(Opcode::True);
                proof {
                    lemma_emits_single(old(self).ops(), Opcode::True);
                }
            },
            _ => vstd::pervasive::unreached(),
        }
    }

    /// String values are not part of the value model yet: the handler
    /// recognizes the token and emits nothing.
    fn string(&mut self)
        requires
            old(self).inv(),
        ensures
            final(self).inv(),
            final(self).parser == old(self).parser,
            final(self).scanner == old(self).scanner,
            final(self).ops() == old(self).ops(),
            !final(self).string_free(),
            final(self).has_error_spec() == old(self).has_error_spec(),
            final(self).measure() == old(self).measure(),
    {
        self.string_seen = Ghost(true);
    }

    fn emit_constant(&mut self, value: CloxValue)
        requires
            old(self).inv(),
            old(self).has_previous(),
        ensures
            final(self).inv(),
            final(self).parser == old(self).parser,
            final(self).scanner == old(self).scanner,
            final(self).ops() == old(self).ops().push(Opcode::Constant(value)),
            final(self).string_free() == old(self).string_free(),
            final(self).has_error_spec() == old(self).has_error_spec(),
            final(self).measure() == old(self).measure(),
    {
        self.emit_byte(Opcode::Constant(value));
    }

    /// Runs the handler a table row names.
    fn run_rule(&mut self, f: ParseFn)
        requires
            old(self).inv(),
            old(self).has_current(),
            old(self).parser.previous matches Some(t) && (rule_of(t.token_type).prefix == Some(f)
                || rule_of(t.token_type).infix == Some(f)),
        ensures
            final(self).inv(),
            final(self).has_current(),
            final(self).has_previous(),
            old(self).has_error_spec() ==> final(self).has_error_spec(),
            final(self).string_free() ==> old(self).string_free(),
            final(self).scanner.text() == old(self).scanner.text(),
            (final(self).string_free() && !final(self).has_error_spec() && f != ParseFn::Binary)
                ==> emits_value(old(self).ops(), final(self).ops()),
            (final(self).string_free() && !final(self).has_error_spec() && f == ParseFn::Binary)
                ==> emits_operator(old(self).ops(), final(self).ops()),
            (f == ParseFn::Number || f == ParseFn::Literal) ==> ({
                &&& final(self).parser == old(self).parser
                &&& final(self).scanner == old(self).scanner
                &&& final(self).has_error_spec() == old(self).has_error_spec()
                &&& (old(self).parser.previous matches Some(t) ==> ({
                    let lex = old(self).scanner.indexer().span_text(
                        old(self).scanner.indexer().locations()[t.id as int],
                    );
                    (f == ParseFn::Number || (f == ParseFn::Literal && (t.token_type
                        == TokenType::True || t.token_type == TokenType::False || t.token_type
                        == TokenType::Nil))) ==> (single_token_code(lex, t.token_type)
                        matches Some(op) && final(self).ops() == old(self).ops().push(op))
                }))
            }),
            f == ParseFn::Unary ==> (old(self).parser.previous matches Some(opt) ==> (old(self).parser.current matches Some(t) ==> ((is_single_token(t.token_type) && t.id < old(self).scanner.indexer().locations().len() && scan_at(
                old(self).scanner.text(),
                skip_ws_from(
                    old(self).scanner.text(),
                    old(self).scanner.current_spec() as nat,
                    false,
                ),
            ) is AtEnd) ==> ({
                let lex = old(self).scanner.indexer().span_text(
                    old(self).scanner.indexer().locations()[t.id as int],
                );
                &&& single_token_code(lex, t.token_type) matches Some(c)
                    && unary_opcode(opt.token_type) matches Some(u) && final(self).ops() == old(self).ops().push(c).push(u)
                &&& final(self).parser.current matches Some(t2) && t2.token_type
                    == TokenType::Eof
                &&& final(self).scanner.current_spec() >= final(self).scanner.text().len()
                &&& final(self).has_error_spec() == old(self).has_error_spec()
            })))),
            f == ParseFn::Binary ==> (old(self).parser.previous matches Some(opt) ==> (old(self).parser.current matches Some(t) ==> ((is_single_token(t.token_type) && t.id < old(self).scanner.indexer().locations().len() && scan_at(
                old(self).scanner.text(),
                skip_ws_from(
                    old(self).scanner.text(),
                    old(self).scanner.current_spec() as nat,
                    false,
                ),
            ) is AtEnd) ==> ({
                let lex = old(self).scanner.indexer().span_text(
                    old(self).scanner.indexer().locations()[t.id as int],
                );
                &&& single_token_code(lex, t.token_type) matches Some(c) && final(self).ops()
                    == old(self).ops().push(c) + op_codes(opt.token_type)
                &&& final(self).parser.current matches Some(t2) && t2.token_type
                    == TokenType::Eof
                &&& final(self).scanner.current_spec() >= final(self).scanner.text().len()
                &&& final(self).has_error_spec() == old(self).has_error_spec()
            })))),
            final(self).measure() <= old(self).measure(),
        decreases old(self).measure(), 4int,
    {
        match f {
            ParseFn::Grouping => self.grouping(),
            ParseFn::Unary => self.unary(),
            ParseFn::Binary => self.binary(),
            ParseFn::Number => self.number(),
            ParseFn::Literal => self.literal(),
            ParseFn::StringLit => self.string(),
        }
    }

    /// Precedence climbing: consumes one token and runs its prefix rule
    /// (a token with none is a syntax error), then keeps consuming
    /// operators as long as the lookahead's precedence is at least the
    /// minimum. Besides the general well-formedness and stack-shape
    /// guarantees, the contract pins the exact emission for the simple
    /// shapes that end at the input: a lone literal, a prefix operator
    /// applied to one, and two literals joined by one infix operator.
    fn parse_presendence(&mut self, precedence: Precedence)
        requires
            old(self).inv(),
            old(self).has_current(),
            prec_val(precedence) >= 1,
        ensures
            final(self).inv(),
            final(self).has_current(),
            final(self).has_previous(),
            final(self).scanner.text() == old(self).scanner.text(),
            old(self).has_error_spec() ==> final(self).has_error_spec(),
            final(self).string_free() ==> old(self).string_free(),
            (final(self).string_free() && !final(self).has_error_spec()) ==> emits_value(
                old(self).ops(),
                final(self).ops(),
            ),
            (old(self).parser.current matches Some(t) && rule_of(t.token_type).prefix is None)
                ==> final(self).has_error_spec(),
            ({
                let text = old(self).scanner.text();
                let p2 = skip_ws_from(text, old(self).scanner.current_spec() as nat, false);
                old(self).parser.current matches Some(t) ==> (((t.token_type
                    == TokenType::Number || t.token_type == TokenType::True || t.token_type
                    == TokenType::False || t.token_type == TokenType::Nil) && t.id < old(self).scanner.indexer().locations().len() && scan_at(
                    text,
                    p2,
                ) is AtEnd) ==> ({
                    let lex = old(self).scanner.indexer().span_text(
                        old(self).scanner.indexer().locations()[t.id as int],
                    );
                    &&& single_token_code(lex, t.token_type) matches Some(op) && final(self).ops() == old(self).ops().push(op)
                    &&& final(self).parser.current matches Some(t2) && t2.token_type
                        == TokenType::Eof
                    &&& final(self).scanner.current_spec() >= final(self).scanner.text().len()
                    &&& final(self).has_error_spec() == old(self).has_error_spec()
                }))
            }),
            ({
                let text = old(self).scanner.text();
                let p2 = skip_ws_from(text, old(self).scanner.current_spec() as nat, false);
                old(self).parser.current matches Some(opt) ==> ((opt.token_type
                    == TokenType::Bang || opt.token_type == TokenType::Minus) ==> (scan_at(
                    text,
                    p2,
                ) matches Scan::Lexeme { token_type, end } ==> ((is_single_token(token_type)
                    && scan_at(text, skip_ws_from(text, end, false)) is AtEnd) ==> ({
                    &&& single_token_code(text.subrange(p2 as int, end as int), token_type)
                        matches Some(c) && unary_opcode(opt.token_type) matches Some(u)
                        && final(self).ops() == old(self).ops().push(c).push(u)
                    &&& final(self).parser.current matches Some(t2) && t2.token_type
                        == TokenType::Eof
                    &&& final(self).scanner.current_spec() >= final(self).scanner.text().len()
                    &&& final(self).has_error_spec() == old(self).has_error_spec()
                }))))
            }),
            ({
                let text = old(self).scanner.text();
                let p2 = skip_ws_from(text, old(self).scanner.current_spec() as nat, false);
                let scop = scan_at(text, p2);
                let q2 = skip_ws_from(text, scop->Lexeme_end, false);
                let sc2 = scan_at(text, q2);
                old(self).parser.current matches Some(t1) ==> ((is_single_token(t1.token_type)
                    && t1.id < old(self).scanner.indexer().locations().len() && scop is Lexeme
                    && rule_of(scop->Lexeme_token_type).infix == Some(ParseFn::Binary)
                    && prec_val(rule_of(scop->Lexeme_token_type).precedence) >= prec_val(
                    precedence,
                ) && sc2 is Lexeme && is_single_token(sc2->Lexeme_token_type) && scan_at(
                    text,
                    skip_ws_from(text, sc2->Lexeme_end, false),
                ) is AtEnd) ==> ({
                    let lex1 = old(self).scanner.indexer().span_text(
                        old(self).scanner.indexer().locations()[t1.id as int],
                    );
                    let c2o = single_token_code(
                        text.subrange(q2 as int, sc2->Lexeme_end as int),
                        sc2->Lexeme_token_type,
                    );
                    &&& single_token_code(lex1, t1.token_type) matches Some(c1) && c2o is Some
                        && final(self).ops() == old(self).ops().push(c1).push(c2o->Some_0)
                        + op_codes(scop->Lexeme_token_type)
                    &&& final(self).parser.current matches Some(te) && te.token_type
                        == TokenType::Eof
                    &&& final(self).scanner.current_spec() >= final(self).scanner.text().len()
                    &&& final(self).has_error_spec() == old(self).has_error_spec()
                }))
            }),
            final(self).measure() <= old(self).measure(),
        decreases old(self).measure(), 0int,
    {
        let ghost m0 = self.measure();
        let ghost ops0 = self.ops();
        let ghost single_literal = (self.parser.current matches Some(t) && is_single_token(
            t.token_type,
        ) && t.id < self.scanner.indexer().locations().len() && scan_at(
            self.scanner.text(),
            skip_ws_from(self.scanner.text(), self.scanner.current_spec() as nat, false),
        ) is AtEnd);
        let ghost unary_shape = (self.parser.current matches Some(opt) && (opt.token_type
            == TokenType::Bang || opt.token_type == TokenType::Minus) && (scan_at(
            self.scanner.text(),
            skip_ws_from(self.scanner.text(), self.scanner.current_spec() as nat, false),
        ) matches Scan::Lexeme { token_type, end } && is_single_token(token_type) && scan_at(
            self.scanner.text(),
            skip_ws_from(self.scanner.text(), end, false),
        ) is AtEnd));
        let ghost settled = single_literal || unary_shape;
        let ghost text_g = self.scanner.text();
        let ghost p2_g = skip_ws_from(text_g, self.scanner.current_spec() as nat, false);
        let ghost scop_g = scan_at(text_g, p2_g);
        let ghost q2_g = skip_ws_from(text_g, scop_g->Lexeme_end, false);
        let ghost sc2_g = scan_at(text_g, q2_g);
        let ghost binary_shape = (self.parser.current matches Some(t1) && is_single_token(
            t1.token_type,
        ) && t1.id < self.scanner.indexer().locations().len() && scop_g is Lexeme && rule_of(
            scop_g->Lexeme_token_type,
        ).infix == Some(ParseFn::Binary) && prec_val(rule_of(scop_g->Lexeme_token_type).precedence)
            >= prec_val(precedence) && sc2_g is Lexeme && is_single_token(
            sc2_g->Lexeme_token_type,
        ) && scan_at(text_g, skip_ws_from(text_g, sc2_g->Lexeme_end, false)) is AtEnd);
        let ghost c2_g = single_token_code(
            text_g.subrange(q2_g as int, sc2_g->Lexeme_end as int),
            sc2_g->Lexeme_token_type,
        );
        self.advance();
        let prev_token = match self.parser.previous {
            Some(t) => t,
            None => vstd::pervasive::unreached(),
        };
        let rule = self.get_rule(prev_token.token_type);
        match rule.prefix {
            Some(prefix_rule) => {
                proof {
                    // a token with a prefix rule is never the end marker,
                    // so the advance consumed real input; and it is never
                    // the infix-only handler
                    assert(prev_token.token_type != TokenType::Eof);
                    assert(prefix_rule != ParseFn::Binary);
                }
                self.run_rule(prefix_rule);

                let ghost ops_single = self.ops();
                let ghost mut infix_done: bool = false;
                loop
                    invariant
                        self.inv(),
                        self.has_current(),
                        self.has_previous(),
                        self.measure() < m0,
                        m0 == old(self).measure(),
                        ops0 == old(self).ops(),
                        old(self).has_error_spec() ==> self.has_error_spec(),
                        self.string_free() ==> old(self).string_free(),
                        (self.string_free() && !self.has_error_spec()) ==> emits_value(
                            ops0,
                            self.ops(),
                        ),
                        self.scanner.text() == old(self).scanner.text(),
                        settled ==> self.ops() == ops_single,
                        settled ==> (self.parser.current matches Some(t2) && t2.token_type
                            == TokenType::Eof),
                        settled ==> self.scanner.current_spec() >= self.scanner.text().len(),
                        text_g == old(self).scanner.text(),
                        p2_g == skip_ws_from(
                            text_g,
                            old(self).scanner.current_spec() as nat,
                            false,
                        ),
                        scop_g == scan_at(text_g, p2_g),
                        q2_g == skip_ws_from(text_g, scop_g->Lexeme_end, false),
                        sc2_g == scan_at(text_g, q2_g),
                        c2_g == single_token_code(
                            text_g.subrange(q2_g as int, sc2_g->Lexeme_end as int),
                            sc2_g->Lexeme_token_type,
                        ),
                        binary_shape ==> (old(self).parser.current matches Some(t1)
                            && is_single_token(t1.token_type) && t1.id < old(self).scanner.indexer().locations().len() && scop_g is Lexeme && rule_of(
                            scop_g->Lexeme_token_type,
                        ).infix == Some(ParseFn::Binary) && prec_val(
                            rule_of(scop_g->Lexeme_token_type).precedence,
                        ) >= prec_val(precedence) && sc2_g is Lexeme && is_single_token(
                            sc2_g->Lexeme_token_type,
                        ) && scan_at(
                            text_g,
                            skip_ws_from(text_g, sc2_g->Lexeme_end, false),
                        ) is AtEnd),
                        settled ==> self.has_error_spec() == old(self).has_error_spec(),
                        binary_shape ==> (if infix_done {
                            self.parser.current matches Some(ct) && ct.token_type
                                == TokenType::Eof && self.scanner.current_spec()
                                >= self.scanner.text().len() && c2_g is Some && self.ops()
                                == ops_single.push(c2_g->Some_0) + op_codes(
                                scop_g->Lexeme_token_type,
                            ) && self.has_error_spec() == old(self).has_error_spec()
                        } else {
                            self.parser.current matches Some(ct) && ct.token_type
                                == scop_g->Lexeme_token_type && self.scanner.current_spec()
                                == scop_g->Lexeme_end && self.ops() == ops_single
                                && self.has_error_spec() == old(self).has_error_spec()
                        }),
                        prec_val(precedence) >= 1,
                    ensures
                        self.inv(),
                        self.has_current(),
                        self.has_previous(),
                        self.measure() < m0,
                        old(self).has_error_spec() ==> self.has_error_spec(),
                        self.string_free() ==> old(self).string_free(),
                        (self.string_free() && !self.has_error_spec()) ==> emits_value(
                            ops0,
                            self.ops(),
                        ),
                        self.scanner.text() == old(self).scanner.text(),
                        settled ==> self.ops() == ops_single,
                        settled ==> (self.parser.current matches Some(t2) && t2.token_type
                            == TokenType::Eof),
                        settled ==> self.scanner.current_spec() >= self.scanner.text().len(),
                        settled ==> self.has_error_spec() == old(self).has_error_spec(),
                        binary_shape ==> (self.parser.current matches Some(ct) && ct.token_type
                            == TokenType::Eof && self.scanner.current_spec()
                            >= self.scanner.text().len() && c2_g is Some && self.ops()
                            == ops_single.push(c2_g->Some_0) + op_codes(
                            scop_g->Lexeme_token_type,
                        ) && self.has_error_spec() == old(self).has_error_spec()),
                    decreases self.measure(),
                {
                    let ghost was_done = infix_done;
                    let cur_token = match self.parser.current {
                        Some(t) => t,
                        None => vstd::pervasive::unreached(),
                    };
                    let cur_rule = self.get_rule(cur_token.token_type);
                    if !(precedence.value() <= cur_rule.precedence.value()) {
                        break ;
                    }
                    proof {
                        // only real operators bind at assignment level or
                        // higher, so the lookahead is not the end marker
                        assert(cur_token.token_type != TokenType::Eof);
                    }
                    self.advance();
                    let infix_prev = match self.parser.previous {
                        Some(t) => t,
                        None => vstd::pervasive::unreached(),
                    };
                    let ghost mid_ops = self.ops();
                    match self.get_rule(infix_prev.token_type).infix {
                        Some(infix_rule) => {
                            proof {
                                assert(infix_rule == ParseFn::Binary);
                            }
                            self.run_rule(infix_rule);
                            proof {
                                if self.string_free() && !self.has_error_spec() {
                                    lemma_emits_compose(ops0, mid_ops, self.ops());
                                }
                                if binary_shape && !was_done {
                                    assert(self.scanner.text() == text_g);
                                    assert(self.parser.current matches Some(ct) && ct.token_type
                                        == TokenType::Eof);
                                    assert(self.scanner.current_spec()
                                        >= self.scanner.text().len());
                                    assert(self.has_error_spec() == old(self).has_error_spec());
                                    assert(c2_g is Some);
                                    assert(self.ops() == ops_single.push(c2_g->Some_0)
                                        + op_codes(scop_g->Lexeme_token_type));
                                    infix_done = true;
                                }
                            }
                        },
                        None => {
                            // every token at that precedence has an infix rule
                            vstd::pervasive::unreached()
                        },
                    }
                }
            },
            None => {
                self.error_at_current("Expect expression");
            },
        }
    }

    /// The table row for a token kind, exactly as `rule_of` states.
    fn get_rule(&self, token_type: TokenType) -> (r: ParseRule)
        ensures
            r == rule_of(token_type),
    {
        match token_type {
            TokenType::LeftParen => ParseRule {
                prefix: Some(ParseFn::Grouping),
                infix: None,
                precedence: Precedence::Lowest,
            },
            TokenType::Minus => ParseRule {
                prefix: Some(ParseFn::Unary),
                infix: Some(ParseFn::Binary),
                precedence: Precedence::Term,
            },
            TokenType::Plus => ParseRule {
                prefix: None,
                infix: Some(ParseFn::Binary),
                precedence: Precedence::Term,
            },
            TokenType::Slash => ParseRule {
                prefix: None,
                infix: Some(ParseFn::Binary),
                precedence: Precedence::Factor,
            },
            TokenType::Star => ParseRule {
                prefix: None,
                infix: Some(ParseFn::Binary),
                precedence: Precedence::Factor,
            },
            TokenType::Bang => ParseRule {
                prefix: Some(ParseFn::Unary),
                infix: None,
                precedence: Precedence::Lowest,
            },
            TokenType::BangEqual => ParseRule {
                prefix: None,
                infix: Some(ParseFn::Binary),
                precedence: Precedence::Equality,
            },
            TokenType::EqualEqual => ParseRule {
                prefix: None,
                infix: Some(ParseFn::Binary),
                precedence: Precedence::Equality,
            },
            TokenType::Greater => ParseRule {
                prefix: None,
                infix: Some(ParseFn::Binary),
                precedence: Precedence::Comparison,
            },
            TokenType::GreaterEqual => ParseRule {
                prefix: None,
                infix: Some(ParseFn::Binary),
                precedence: Precedence::Comparison,
            },
            TokenType::Less => ParseRule {
                prefix: None,
                infix: Some(ParseFn::Binary),
                precedence: Precedence::Comparison,
            },
            TokenType::LessEqual => ParseRule {
                prefix: None,
                infix: Some(ParseFn::Binary),
                precedence: Precedence::Comparison,
            },
            TokenType::String => ParseRule {
                prefix: Some(ParseFn::StringLit),
                infix: None,
                precedence: Precedence::Lowest,
            },
            TokenType::Number => ParseRule {
                prefix: Some(ParseFn::Number),
                infix: None,
                precedence: Precedence::Lowest,
            },
            TokenType::False => ParseRule {
                prefix: Some(ParseFn::Literal),
                infix: None,
                precedence: Precedence::Lowest,
            },
            TokenType::Nil => ParseRule {
                prefix: Some(ParseFn::Literal),
                infix: None,
                precedence: Precedence::Lowest,
            },
            TokenType::True => ParseRule {
                prefix: Some(ParseFn::Literal),
                infix: None,
                precedence: Precedence::Lowest,
            },
            _ => ParseRule { prefix: None, infix: None, precedence: Precedence::Lowest },
        }
    }
}

} // verus!
