//! The expression tree the compiler builds while parsing.
//!
//! The tree is an internal aid: it never survives compilation. It also serves
//! as the reference model for correctness, through the evaluator in
//! [`crate::eval`].

use vstd::prelude::*;

verus! {

/// A prefix operator.
#[derive(Debug, Clone, Copy, PartialEq, Eq, Structural)]
pub enum UnaryExpressionType {
    Not,
    Negate,
}

/// An infix operator. All binary operators are left-associative.
#[derive(Debug, Clone, Copy, PartialEq, Eq, Structural)]
pub enum BinaryExpressionType {
    Plus,
    Minus,
    Times,
    Divide,
    Equals,
    NotEquals,
    LessThan,
    LessThanEquals,
    GreaterThan,
    GreaterThanEquals,
}

/// A parsed expression. Parentheses are kept as explicit nodes; they affect
/// grouping only and emit no instructions.
#[derive(Debug)]
pub enum Expression {
    Number(i64),
    String(String),
    Boolean(bool),
    Nil,
    Unary(UnaryExpressionType, Box<Expression>),
    Binary(BinaryExpressionType, Box<Expression>, Box<Expression>),
    Paren(Box<Expression>),
}

/// The number of operand-stack slots needed to execute the code emitted for
/// an expression: a literal occupies one slot, a unary operator works in
/// place, and a binary operator holds its left operand while the right one is
/// computed.
pub open spec fn stack_height(e: Expression) -> int
    decreases e,
{
    match e {
        Expression::Number(_) => 1,
        Expression::String(_) => 1,
        Expression::Boolean(_) => 1,
        Expression::Nil => 1,
        Expression::Unary(_, inner) => stack_height(*inner),
        Expression::Binary(_, l, r) => {
            let hl = stack_height(*l);
            let hr = stack_height(*r) + 1;
            if hl >= hr {
                hl
            } else {
                hr
            }
        },
        Expression::Paren(inner) => stack_height(*inner),
    }
}

} // verus!
