//! An expression parser for the tree-walking front end, using binding
//! powers in the Pratt style.
use crate::expr::{Expr, Literal, Operator};
use crate::loxerror::LoxError;
use crate::string_indexer::StringIndexer;
use crate::text::str_eq;
use crate::token::{Token, TokenStore};
use vstd::prelude::*;

verus! {

/// The parser itself carries no state: it reads the token store and
/// looks literal text up in the string indexer.
pub struct ExprParser {}

impl ExprParser {
    pub fn new() -> (r: Self) {
        Self {}
    }

    /// Parses one expression from the front of the token stream.
    pub fn parse<'src>(
        &self,
        token_store: &mut TokenStore,
        string_indexer: &StringIndexer<'src>,
    ) -> (r: Result<Expr, LoxError>)
        requires
            old(token_store).wf(),
            string_indexer.wf(),
        ensures
            final(token_store).wf(),
            final(token_store).tokens() == old(token_store).tokens(),
            old(token_store).index_spec() <= final(token_store).index_spec(),
            r is Ok ==> old(token_store).index_spec() < final(token_store).index_spec(),
    {
        parse_expression_binding_power(token_store, string_indexer, 0)
    }
}

/// Precedence climbing: one prefix step, then operators as long as their
/// left binding power reaches the minimum.
fn parse_expression_binding_power<'src>(
    token_store: &mut TokenStore,
    string_indexer: &StringIndexer<'src>,
    min_binding_power: u8,
) -> (r: Result<Expr, LoxError>)
    requires
        old(token_store).wf(),
        string_indexer.wf(),
    ensures
        final(token_store).wf(),
        final(token_store).tokens() == old(token_store).tokens(),
        old(token_store).index_spec() <= final(token_store).index_spec(),
        r is Ok ==> old(token_store).index_spec() < final(token_store).index_spec(),
    decreases old(token_store).tokens().len() - old(token_store).index_spec(), 0int,
{
    let lhs_first = match token_store.next() {
        Some(token) => match token {
            Token::Number(bits) => Expr::Literal(Literal::Number(bits)),
            Token::String(string_id) => {
                match string_indexer.get_string(string_id) {
                    Ok(value) => parse_string(value),
                    Err(e) => {
                        return Err(e);
                    },
                }
            },
            Token::Minus => {
                match parse_unary(token_store, string_indexer, Operator::Negate) {
                    Ok(e) => e,
                    Err(e) => {
                        return Err(e);
                    },
                }
            },
            Token::Bang => {
                match parse_unary(token_store, string_indexer, Operator::Not) {
                    Ok(e) => e,
                    Err(e) => {
                        return Err(e);
                    },
                }
            },
            Token::LeftParen => {
                match parse_grouping(token_store, string_indexer) {
                    Ok(e) => e,
                    Err(e) => {
                        return Err(e);
                    },
                }
            },
            Token::True => Expr::Literal(Literal::Bool(true)),
            Token::False => Expr::Literal(Literal::Bool(false)),
            _ => {
                return Err(LoxError::InvalidToken { error: "invalid token in expression" });
            },
        },
        None => {
            return Err(LoxError::UnexpectedEof);
        },
    };
    let mut lhs = lhs_first;

    loop
        invariant
            token_store.wf(),
            string_indexer.wf(),
            token_store.tokens() == old(token_store).tokens(),
            old(token_store).index_spec() < token_store.index_spec(),
        decreases token_store.tokens().len() - token_store.index_spec(),
    {
        let op = match token_store.peek() {
            Some(token) => {
                match parse_operator(&token) {
                    Some(op) => op,
                    None => {
                        break ;
                    },
                }
            },
            None => {
                return Err(LoxError::UnexpectedEof);
            },
        };

        let bind_powers = infix_binding_power(&op);
        let l_bind_power = bind_powers.0;
        let r_bind_power = bind_powers.1;
        if l_bind_power < min_binding_power {
            break ;
        }
        token_store.consume();

        let rhs = match parse_expression_binding_power(token_store, string_indexer, r_bind_power) {
            Ok(e) => e,
            Err(e) => {
                return Err(e);
            },
        };

        lhs = Expr::Binary(Box::new(lhs), op, Box::new(rhs));
    }
    Ok(lhs)
}

/// The literal an interned string denotes: the keyword-like texts keep
/// their special meanings, everything else is a plain string value.
fn parse_string(value: &str) -> (r: Expr)
    ensures
        value@ == "true"@ ==> r == Expr::Literal(Literal::Bool(true)),
        value@ == "false"@ ==> r == Expr::Literal(Literal::Bool(false)),
        value@ == "Nil"@ ==> r == Expr::Literal(Literal::Nil),
        value@ != "true"@ && value@ != "false"@ && value@ != "Nil"@ ==> (r matches Expr::Literal(
            l,
        ) && l matches Literal::String(s) && s@ == value@),
{
    proof {
        reveal_strlit("true");
        reveal_strlit("false");
        reveal_strlit("Nil");
        assert("true"@ =~= seq!['t', 'r', 'u', 'e']);
        assert("false"@ =~= seq!['f', 'a', 'l', 's', 'e']);
        assert("Nil"@ =~= seq!['N', 'i', 'l']);
    }
    if str_eq(value, "true") {
        Expr::Literal(Literal::Bool(true))
    } else if str_eq(value, "false") {
        Expr::Literal(Literal::Bool(false))
    } else if str_eq(value, "Nil") {
        Expr::Literal(Literal::Nil)
    } else {
        Expr::Literal(Literal::String(String::from_str(value)))
    }
}

/// A parenthesized expression; the closing parenthesis is consumed
/// without further ado.
fn parse_grouping<'src>(
    tokens: &mut TokenStore,
    string_indexer: &StringIndexer<'src>,
) -> (r: Result<Expr, LoxError>)
    requires
        old(tokens).wf(),
        string_indexer.wf(),
    ensures
        final(tokens).wf(),
        final(tokens).tokens() == old(tokens).tokens(),
        old(tokens).index_spec() <= final(tokens).index_spec(),
    decreases old(tokens).tokens().len() - old(tokens).index_spec(), 1int,
{
    let expression = match parse_expression_binding_power(tokens, string_indexer, 0) {
        Ok(e) => e,
        Err(e) => {
            return Err(e);
        },
    };
    tokens.consume();
    Ok(Expr::Grouping(Box::new(expression)))
}

/// A prefix operator's operand, parsed at the operator's binding power.
fn parse_unary<'src>(
    tokens: &mut TokenStore,
    string_indexer: &StringIndexer<'src>,
    op: Operator,
) -> (r: Result<Expr, LoxError>)
    requires
        old(tokens).wf(),
        string_indexer.wf(),
        op is Negate || op is Not,
    ensures
        final(tokens).wf(),
        final(tokens).tokens() == old(tokens).tokens(),
        old(tokens).index_spec() <= final(tokens).index_spec(),
    decreases old(tokens).tokens().len() - old(tokens).index_spec(), 1int,
{
    let bind_powers = prefix_binding_power(&op);
    let min_binding_power = bind_powers.1;
    let operand = match parse_expression_binding_power(tokens, string_indexer, min_binding_power) {
        Ok(e) => e,
        Err(e) => {
            return Err(e);
        },
    };
    Ok(Expr::Unary(op, Box::new(operand)))
}

/// The operator an infix-capable token denotes, if any.
fn parse_operator(token: &Token) -> (r: Option<Operator>)
    ensures
        r == (match *token {
            Token::Plus => Some(Operator::Plus),
            Token::Minus => Some(Operator::Minus),
            Token::Slash => Some(Operator::Divide),
            Token::Star => Some(Operator::Mult),
            Token::EqualEqual => Some(Operator::EqualTo),
            Token::BangEqual => Some(Operator::NotEqualTo),
            Token::Greater => Some(Operator::GreaterThan),
            Token::GreaterEqual => Some(Operator::GreaterEqualThan),
            Token::Less => Some(Operator::LessThan),
            Token::LessEqual => Some(Operator::LessEqualThan),
            _ => None::<Operator>,
        }),
{
    match token {
        Token::Eof => None,
        Token::Plus => Some(Operator::Plus),
        Token::Minus => Some(Operator::Minus),
        Token::Slash => Some(Operator::Divide),
        Token::Star => Some(Operator::Mult),
        Token::EqualEqual => Some(Operator::EqualTo),
        Token::BangEqual => Some(Operator::NotEqualTo),
        Token::Greater => Some(Operator::GreaterThan),
        Token::GreaterEqual => Some(Operator::GreaterEqualThan),
        Token::Less => Some(Operator::LessThan),
        Token::LessEqual => Some(Operator::LessEqualThan),
        _ => None,
    }
}

/// The left and right binding powers of an infix operator: equality
/// binds loosest, then comparison, terms, and factors; the right power
/// is one above the left, making every level left-associative.
fn infix_binding_power(op: &Operator) -> (r: (u8, u8))
    requires
        !(op is Negate) && !(op is Not),
    ensures
        r == (match *op {
            Operator::EqualTo | Operator::NotEqualTo => (1u8, 2u8),
            Operator::LessThan | Operator::LessEqualThan | Operator::GreaterThan
                | Operator::GreaterEqualThan => (3u8, 4u8),
            Operator::Plus | Operator::Minus => (5u8, 6u8),
            Operator::Mult | Operator::Divide => (7u8, 8u8),
            _ => (0u8, 0u8),
        }),
{
    match op {
        Operator::EqualTo | Operator::NotEqualTo => (1, 2),
        Operator::LessThan
        | Operator::LessEqualThan
        | Operator::GreaterThan
        | Operator::GreaterEqualThan => (3, 4),
        Operator::Plus | Operator::Minus => (5, 6),
        Operator::Mult | Operator::Divide => (7, 8),
        _ => vstd::pervasive::unreached(),
    }
}

/// The binding power of a prefix operator: tighter than any infix level.
fn prefix_binding_power(op: &Operator) -> (r: ((), u8))
    requires
        op is Negate || op is Not,
    ensures
        r.1 == 9u8,
{
    match op {
        Operator::Negate | Operator::Not => ((), 9),
        _ => vstd::pervasive::unreached(),
    }
}

} // verus!
