//! The reference evaluator: a recursive specification of what an expression
//! means. The virtual machine is proved to agree with it on every program
//! the compiler emits.

use vstd::prelude::*;

use crate::ast::{BinaryExpressionType, Expression, UnaryExpressionType};
use crate::errors::RuntimeError;
use crate::program::OpCode;
use crate::value::{spec_kind, spec_value_eq, Value, ValueKind};

verus! {

/// The opcode that performs a unary operator.
pub open spec fn spec_unary_opcode(op: UnaryExpressionType) -> OpCode {
    match op {
        UnaryExpressionType::Not => OpCode::Not,
        UnaryExpressionType::Negate => OpCode::Negate,
    }
}

/// The opcode that performs a binary operator.
pub open spec fn spec_binary_opcode(op: BinaryExpressionType) -> OpCode {
    match op {
        BinaryExpressionType::Plus => OpCode::Add,
        BinaryExpressionType::Minus => OpCode::Subtract,
        BinaryExpressionType::Times => OpCode::Multiply,
        BinaryExpressionType::Divide => OpCode::Divide,
        BinaryExpressionType::Equals => OpCode::Equal,
        BinaryExpressionType::NotEquals => OpCode::NotEqual,
        BinaryExpressionType::LessThan => OpCode::Less,
        BinaryExpressionType::LessThanEquals => OpCode::LessEqual,
        BinaryExpressionType::GreaterThan => OpCode::Greater,
        BinaryExpressionType::GreaterThanEquals => OpCode::GreaterEqual,
    }
}

/// The tag reported by a type-mismatch error over two operands: the first
/// operand's tag if it is not a number, otherwise the second's.
pub open spec fn spec_mismatch_kind(a: Value, b: Value) -> ValueKind {
    if !(a is Number) {
        spec_kind(a)
    } else {
        spec_kind(b)
    }
}

/// Applying a unary operator to a value. `Negate` requires a number and
/// wraps on overflow; `Not` requires a boolean.
pub open spec fn apply_unary(op: UnaryExpressionType, v: Value) -> Result<Value, RuntimeError> {
    match op {
        UnaryExpressionType::Negate => match v {
            Value::Number(n) => Ok(Value::Number((0 as i64).wrapping_sub(n))),
            _ => Err(
                RuntimeError::TypeMismatch { op: OpCode::Negate, got: spec_kind(v) },
            ),
        },
        UnaryExpressionType::Not => match v {
            Value::Boolean(b) => Ok(Value::Boolean(!b)),
            _ => Err(RuntimeError::TypeMismatch { op: OpCode::Not, got: spec_kind(v) }),
        },
    }
}

/// Applying a binary operator to two values, the left operand first.
///
/// Arithmetic and ordering are defined only for numbers; addition,
/// subtraction and multiplication wrap on overflow. Division checks its
/// operands' tags first, then fails on a zero right operand; the one
/// overflowing quotient wraps. Equality never fails: operands of different
/// variants are simply unequal.
pub open spec fn apply_binary(op: BinaryExpressionType, a: Value, b: Value) -> Result<
    Value,
    RuntimeError,
> {
    match op {
        BinaryExpressionType::Plus => match (a, b) {
            (Value::Number(x), Value::Number(y)) => Ok(Value::Number(x.wrapping_add(y))),
            _ => Err(
                RuntimeError::TypeMismatch { op: OpCode::Add, got: spec_mismatch_kind(a, b) },
            ),
        },
        BinaryExpressionType::Minus => match (a, b) {
            (Value::Number(x), Value::Number(y)) => Ok(Value::Number(x.wrapping_sub(y))),
            _ => Err(
                RuntimeError::TypeMismatch { op: OpCode::Subtract, got: spec_mismatch_kind(a, b) },
            ),
        },
        BinaryExpressionType::Times => match (a, b) {
            (Value::Number(x), Value::Number(y)) => Ok(Value::Number(x.wrapping_mul(y))),
            _ => Err(
                RuntimeError::TypeMismatch { op: OpCode::Multiply, got: spec_mismatch_kind(a, b) },
            ),
        },
        BinaryExpressionType::Divide => match (a, b) {
            (Value::Number(x), Value::Number(y)) => match x.checked_div(y) {
                Some(q) => Ok(Value::Number(q)),
                None => if y == 0 {
                    Err(RuntimeError::DivisionByZero)
                } else {
                    Ok(Value::Number(i64::MIN))
                },
            },
            _ => Err(
                RuntimeError::TypeMismatch { op: OpCode::Divide, got: spec_mismatch_kind(a, b) },
            ),
        },
        BinaryExpressionType::Equals => Ok(Value::Boolean(spec_value_eq(a, b))),
        BinaryExpressionType::NotEquals => Ok(Value::Boolean(!spec_value_eq(a, b))),
        BinaryExpressionType::LessThan => match (a, b) {
            (Value::Number(x), Value::Number(y)) => Ok(Value::Boolean(x < y)),
            _ => Err(
                RuntimeError::TypeMismatch { op: OpCode::Less, got: spec_mismatch_kind(a, b) },
            ),
        },
        BinaryExpressionType::LessThanEquals => match (a, b) {
            (Value::Number(x), Value::Number(y)) => Ok(Value::Boolean(x <= y)),
            _ => Err(
                RuntimeError::TypeMismatch { op: OpCode::LessEqual, got: spec_mismatch_kind(a, b) },
            ),
        },
        BinaryExpressionType::GreaterThan => match (a, b) {
            (Value::Number(x), Value::Number(y)) => Ok(Value::Boolean(x > y)),
            _ => Err(
                RuntimeError::TypeMismatch { op: OpCode::Greater, got: spec_mismatch_kind(a, b) },
            ),
        },
        BinaryExpressionType::GreaterThanEquals => match (a, b) {
            (Value::Number(x), Value::Number(y)) => Ok(Value::Boolean(x >= y)),
            _ => Err(
                RuntimeError::TypeMismatch {
                    op: OpCode::GreaterEqual,
                    got: spec_mismatch_kind(a, b),
                },
            ),
        },
    }
}

/// The meaning of an expression: its value, or the first runtime error met
/// in left-to-right, innermost-first evaluation order.
pub open spec fn eval_expr(e: Expression) -> Result<Value, RuntimeError>
    decreases e,
{
    match e {
        Expression::Number(n) => Ok(Value::Number(n)),
        Expression::String(s) => Ok(Value::String(s)),
        Expression::Boolean(b) => Ok(Value::Boolean(b)),
        Expression::Nil => Ok(Value::Nil),
        Expression::Paren(inner) => eval_expr(*inner),
        Expression::Unary(op, inner) => match eval_expr(*inner) {
            Ok(v) => apply_unary(op, v),
            Err(er) => Err(er),
        },
        Expression::Binary(op, l, r) => match eval_expr(*l) {
            Ok(a) => match eval_expr(*r) {
                Ok(b) => apply_binary(op, a, b),
                Err(er) => Err(er),
            },
            Err(er) => Err(er),
        },
    }
}

} // verus!
