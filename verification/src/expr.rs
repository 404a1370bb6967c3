//! The expression tree of the tree-walking front end, with its prefix
//! rendering.
use crate::number::{num_to_string, number_display};
use vstd::prelude::*;

verus! {

/// An expression: a literal, a prefix operator, a binary operator, or a
/// parenthesized grouping.
#[derive(Debug)]
pub enum Expr {
    Literal(Literal),
    Unary(Operator, Box<Expr>),
    Binary(Box<Expr>, Operator, Box<Expr>),
    Grouping(Box<Expr>),
}

/// A literal value: a number (as its bit pattern), a string, a boolean,
/// or nil.
#[derive(Debug)]
pub enum Literal {
    Number(u64),
    String(String),
    Bool(bool),
    Nil,
}

/// The unary and binary operators.
#[derive(Debug, Clone, Copy)]
pub enum Operator {
    EqualTo,
    NotEqualTo,
    LessThan,
    LessEqualThan,
    GreaterThan,
    GreaterEqualThan,
    Plus,
    Minus,
    Mult,
    Divide,
    Negate,
    Not,
}

/// An operator's written form.
pub open spec fn op_text(op: Operator) -> Seq<char> {
    match op {
        Operator::EqualTo => "=="@,
        Operator::NotEqualTo => "!="@,
        Operator::LessThan => "<"@,
        Operator::LessEqualThan => "<="@,
        Operator::GreaterThan => ">"@,
        Operator::GreaterEqualThan => ">="@,
        Operator::Plus => "+"@,
        Operator::Minus => "-"@,
        Operator::Mult => "*"@,
        Operator::Divide => "/"@,
        Operator::Negate => "-"@,
        Operator::Not => "!"@,
    }
}

/// A literal's written form: numbers in their natural decimal rendering,
/// booleans as `true` and `false`, nil as `nil`.
pub open spec fn literal_text(l: Literal) -> Seq<char> {
    match l {
        Literal::Number(bits) => number_display(bits),
        Literal::String(s) => s@,
        Literal::Bool(b) => if b {
            "true"@
        } else {
            "false"@
        },
        Literal::Nil => "nil"@,
    }
}

/// An expression's written form: operators prefix, one space between a
/// binary operator and each operand, groupings in parentheses.
pub open spec fn expr_text(e: Expr) -> Seq<char>
    decreases e,
{
    match e {
        Expr::Literal(l) => literal_text(l),
        Expr::Unary(op, rhs) => op_text(op) + expr_text(*rhs),
        Expr::Binary(lhs, op, rhs) => op_text(op) + " "@ + expr_text(*lhs) + " "@ + expr_text(
            *rhs,
        ),
        Expr::Grouping(inner) => "("@ + expr_text(*inner) + ")"@,
    }
}

impl Operator {
    /// The operator's written form as text.
    pub fn to_string(&self) -> (r: String)
        ensures
            r@ == op_text(*self),
    {
        match self {
            Operator::EqualTo => String::from_str("=="),
            Operator::NotEqualTo => String::from_str("!="),
            Operator::LessThan => String::from_str("<"),
            Operator::LessEqualThan => String::from_str("<="),
            Operator::GreaterThan => String::from_str(">"),
            Operator::GreaterEqualThan => String::from_str(">="),
            Operator::Plus => String::from_str("+"),
            Operator::Minus => String::from_str("-"),
            Operator::Mult => String::from_str("*"),
            Operator::Divide => String::from_str("/"),
            Operator::Negate => String::from_str("-"),
            Operator::Not => String::from_str("!"),
        }
    }
}

impl Literal {
    /// The literal's written form as text.
    pub fn to_string(&self) -> (r: String)
        ensures
            r@ == literal_text(*self),
    {
        match self {
            Literal::Number(bits) => num_to_string(*bits),
            Literal::String(s) => s.clone(),
            Literal::Bool(b) => {
                if *b {
                    String::from_str("true")
                } else {
                    String::from_str("false")
                }
            },
            Literal::Nil => String::from_str("nil"),
        }
    }
}

impl Expr {
    /// The expression's written form as text, exactly as `expr_text`
    /// states.
    pub fn to_string(&self) -> (r: String)
        ensures
            r@ == expr_text(*self),
        decreases *self,
    {
        match self {
            Expr::Literal(l) => l.to_string(),
            Expr::Unary(op, rhs) => {
                let mut s = op.to_string();
                let rhs_text = rhs.to_string();
                s.append(rhs_text.as_str());
                proof {
                    assert(s@ =~= expr_text(*self));
                }
                s
            },
            Expr::Binary(lhs, op, rhs) => {
                let mut s = op.to_string();
                s.append(" ");
                let lhs_text = lhs.to_string();
                s.append(lhs_text.as_str());
                s.append(" ");
                let rhs_text = rhs.to_string();
                s.append(rhs_text.as_str());
                proof {
                    assert(s@ =~= expr_text(*self));
                }
                s
            },
            Expr::Grouping(inner) => {
                let mut s = String::from_str("(");
                let inner_text = inner.to_string();
                s.append(inner_text.as_str());
                s.append(")");
                proof {
                    assert(s@ =~= expr_text(*self));
                }
                s
            },
        }
    }
}

} // verus!
