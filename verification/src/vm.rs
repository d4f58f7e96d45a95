//! The virtual machine: a fetch–dispatch loop over a program's instructions,
//! executed on a bounded operand stack.

use vstd::prelude::*;

use crate::ast::{BinaryExpressionType, UnaryExpressionType};
use crate::errors::RuntimeError;
use crate::eval::{apply_binary, apply_unary};
use crate::program::{OpCode, Program, ProgramModel};
use crate::value::{Value, ValueKind};

verus! {

/// The fixed capacity of the operand stack. A program built by the compiler
/// never reaches it (expression nesting is capped well below it); the machine
/// still detects and reports overflow on hand-built programs.
pub const STACK_CAPACITY: usize = 256;

/// The binary operator an opcode performs. Only meaningful for the ten
/// binary opcodes; the dispatch loop never consults it for the others.
pub open spec fn spec_binop_of_opcode(op: OpCode) -> BinaryExpressionType {
    match op {
        OpCode::Add => BinaryExpressionType::Plus,
        OpCode::Subtract => BinaryExpressionType::Minus,
        OpCode::Multiply => BinaryExpressionType::Times,
        OpCode::Divide => BinaryExpressionType::Divide,
        OpCode::Equal => BinaryExpressionType::Equals,
        OpCode::NotEqual => BinaryExpressionType::NotEquals,
        OpCode::Less => BinaryExpressionType::LessThan,
        OpCode::LessEqual => BinaryExpressionType::LessThanEquals,
        OpCode::Greater => BinaryExpressionType::GreaterThan,
        _ => BinaryExpressionType::GreaterThanEquals,
    }
}

/// The stack after a binary opcode: the two topmost values are replaced by
/// the operator's result (the right operand was pushed last, so it pops
/// first), or execution fails with the operator's error.
pub open spec fn spec_binary_step(stack: Seq<Value>, op: BinaryExpressionType) -> Result<
    Seq<Value>,
    RuntimeError,
> {
    if stack.len() < 2 {
        Err(RuntimeError::StackUnderflow)
    } else {
        match apply_binary(op, stack[stack.len() - 2], stack[stack.len() - 1]) {
            Ok(v) => Ok(stack.drop_last().drop_last().push(v)),
            Err(e) => Err(e),
        }
    }
}

/// The stack after a unary opcode: the topmost value is replaced in place.
pub open spec fn spec_unary_step(stack: Seq<Value>, op: UnaryExpressionType) -> Result<
    Seq<Value>,
    RuntimeError,
> {
    if stack.len() < 1 {
        Err(RuntimeError::StackUnderflow)
    } else {
        match apply_unary(op, stack.last()) {
            Ok(v) => Ok(stack.drop_last().push(v)),
            Err(e) => Err(e),
        }
    }
}

/// Execution from instruction `ip` with the given operand stack: the value
/// `Return` pops, or the first runtime error. Running past the last
/// instruction without a `Return` is the defect `MissingReturn`.
pub open spec fn spec_exec(
    code: Seq<OpCode>,
    pool: Seq<Value>,
    ip: int,
    stack: Seq<Value>,
) -> Result<Value, RuntimeError>
    decreases code.len() - ip,
{
    if ip < 0 || ip >= code.len() {
        Err(RuntimeError::MissingReturn)
    } else {
        match code[ip] {
            OpCode::Return => if stack.len() >= 1 {
                Ok(stack.last())
            } else {
                Err(RuntimeError::StackUnderflow)
            },
            OpCode::LoadConstant(i) => if stack.len() >= STACK_CAPACITY {
                Err(RuntimeError::StackOverflow)
            } else {
                spec_exec(code, pool, ip + 1, stack.push(pool[i as int]))
            },
            OpCode::Negate => match spec_unary_step(stack, UnaryExpressionType::Negate) {
                Ok(s) => spec_exec(code, pool, ip + 1, s),
                Err(e) => Err(e),
            },
            OpCode::Not => match spec_unary_step(stack, UnaryExpressionType::Not) {
                Ok(s) => spec_exec(code, pool, ip + 1, s),
                Err(e) => Err(e),
            },
            _ => match spec_binary_step(stack, spec_binop_of_opcode(code[ip])) {
                Ok(s) => spec_exec(code, pool, ip + 1, s),
                Err(e) => Err(e),
            },
        }
    }
}

/// The result of running a whole program: execution from its first
/// instruction on an empty stack.
pub open spec fn spec_run(m: ProgramModel) -> Result<Value, RuntimeError> {
    spec_exec(m.code, m.constants, 0, Seq::empty())
}

/// Applies a unary operator to a value.
fn exec_apply_unary(op: UnaryExpressionType, v: Value) -> (r: Result<Value, RuntimeError>)
    ensures
        r == apply_unary(op, v),
{
    match op {
        UnaryExpressionType::Negate => match v {
            Value::Number(n) => Ok(Value::Number((0 as i64).wrapping_sub(n))),
            _ => Err(RuntimeError::TypeMismatch { op: OpCode::Negate, got: v.kind() }),
        },
        UnaryExpressionType::Not => match v {
            Value::Boolean(b) => Ok(Value::Boolean(!b)),
            _ => Err(RuntimeError::TypeMismatch { op: OpCode::Not, got: v.kind() }),
        },
    }
}

/// Equality between two values, per the cross-variant policy of
/// [`crate::value::spec_value_eq`].
fn value_eq(a: &Value, b: &Value) -> (r: bool)
    ensures
        r == crate::value::spec_value_eq(*a, *b),
{
    match (a, b) {
        (Value::Number(x), Value::Number(y)) => *x == *y,
        (Value::String(x), Value::String(y)) => *x == *y,
        (Value::Boolean(x), Value::Boolean(y)) => *x == *y,
        (Value::Nil, Value::Nil) => true,
        _ => false,
    }
}

/// The tag reported for a type mismatch over two operands.
fn mismatch_kind(a: &Value, b: &Value) -> (k: ValueKind)
    ensures
        k == crate::eval::spec_mismatch_kind(*a, *b),
{
    match a {
        Value::Number(_) => b.kind(),
        _ => a.kind(),
    }
}

/// Applies a binary operator to two values, the left operand first.
fn exec_apply_binary(op: BinaryExpressionType, a: Value, b: Value) -> (r: Result<
    Value,
    RuntimeError,
>)
    ensures
        r == apply_binary(op, a, b),
{
    match op {
        BinaryExpressionType::Plus => match (&a, &b) {
            (Value::Number(x), Value::Number(y)) => Ok(Value::Number(x.wrapping_add(*y))),
            _ => Err(RuntimeError::TypeMismatch { op: OpCode::Add, got: mismatch_kind(&a, &b) }),
        },
        BinaryExpressionType::Minus => match (&a, &b) {
            (Value::Number(x), Value::Number(y)) => Ok(Value::Number(x.wrapping_sub(*y))),
            _ => Err(
                RuntimeError::TypeMismatch { op: OpCode::Subtract, got: mismatch_kind(&a, &b) },
            ),
        },
        BinaryExpressionType::Times => match (&a, &b) {
            (Value::Number(x), Value::Number(y)) => Ok(Value::Number(x.wrapping_mul(*y))),
            _ => Err(
                RuntimeError::TypeMismatch { op: OpCode::Multiply, got: mismatch_kind(&a, &b) },
            ),
        },
        BinaryExpressionType::Divide => match (&a, &b) {
            (Value::Number(x), Value::Number(y)) => match x.checked_div(*y) {
                Some(q) => Ok(Value::Number(q)),
                None => if *y == 0 {
                    Err(RuntimeError::DivisionByZero)
                } else {
                    // the one overflowing quotient wraps
                    Ok(Value::Number(i64::MIN))
                },
            },
            _ => Err(RuntimeError::TypeMismatch { op: OpCode::Divide, got: mismatch_kind(&a, &b) }),
        },
        BinaryExpressionType::Equals => Ok(Value::Boolean(value_eq(&a, &b))),
        BinaryExpressionType::NotEquals => Ok(Value::Boolean(!value_eq(&a, &b))),
        BinaryExpressionType::LessThan => match (&a, &b) {
            (Value::Number(x), Value::Number(y)) => Ok(Value::Boolean(*x < *y)),
            _ => Err(RuntimeError::TypeMismatch { op: OpCode::Less, got: mismatch_kind(&a, &b) }),
        },
        BinaryExpressionType::LessThanEquals => match (&a, &b) {
            (Value::Number(x), Value::Number(y)) => Ok(Value::Boolean(*x <= *y)),
            _ => Err(
                RuntimeError::TypeMismatch { op: OpCode::LessEqual, got: mismatch_kind(&a, &b) },
            ),
        },
        BinaryExpressionType::GreaterThan => match (&a, &b) {
            (Value::Number(x), Value::Number(y)) => Ok(Value::Boolean(*x > *y)),
            _ => Err(
                RuntimeError::TypeMismatch { op: OpCode::Greater, got: mismatch_kind(&a, &b) },
            ),
        },
        BinaryExpressionType::GreaterThanEquals => match (&a, &b) {
            (Value::Number(x), Value::Number(y)) => Ok(Value::Boolean(*x >= *y)),
            _ => Err(
                RuntimeError::TypeMismatch { op: OpCode::GreaterEqual, got: mismatch_kind(&a, &b) },
            ),
        },
    }
}

/// Executes a program and produces its single result value, or the first
/// runtime error. Execution only reads the program; each call is independent
/// and its exact result is [`spec_run`].
pub fn run(program: &Program) -> (r: Result<Value, RuntimeError>)
    requires
        program@.wf(),
    ensures
        r == spec_run(program@),
{
    let ghost m = program@;
    let mut stack: Vec<Value> = Vec::new();
    let mut ip: usize = 0;
    loop
        invariant
            program@ == m,
            m.wf(),
            ip <= m.code.len(),
            stack@.len() <= STACK_CAPACITY,
            spec_exec(m.code, m.constants, ip as int, stack@) == spec_run(m),
        decreases m.code.len() - ip,
    {
        if ip >= program.code.len() {
            return Err(RuntimeError::MissingReturn);
        }
        let op = program.code[ip];
        match op {
            OpCode::Return => {
                match stack.pop() {
                    Some(v) => return Ok(v),
                    None => return Err(RuntimeError::StackUnderflow),
                }
            },
            OpCode::LoadConstant(i) => {
                if stack.len() >= STACK_CAPACITY {
                    return Err(RuntimeError::StackOverflow);
                }
                let v = program.constants[i as usize].clone();
                stack.push(v);
                ip += 1;
            },
            OpCode::Negate | OpCode::Not => {
                let uop = match op {
                    OpCode::Negate => UnaryExpressionType::Negate,
                    _ => UnaryExpressionType::Not,
                };
                let ghost s0 = stack@;
                let v = match stack.pop() {
                    Some(v) => v,
                    None => return Err(RuntimeError::StackUnderflow),
                };
                match exec_apply_unary(uop, v) {
                    Ok(w) => {
                        stack.push(w);
                        proof {
                            assert(stack@ =~= s0.drop_last().push(w));
                        }
                        ip += 1;
                    },
                    Err(e) => return Err(e),
                }
            },
            _ => {
                let bop = match op {
                    OpCode::Add => BinaryExpressionType::Plus,
                    OpCode::Subtract => BinaryExpressionType::Minus,
                    OpCode::Multiply => BinaryExpressionType::Times,
                    OpCode::Divide => BinaryExpressionType::Divide,
                    OpCode::Equal => BinaryExpressionType::Equals,
                    OpCode::NotEqual => BinaryExpressionType::NotEquals,
                    OpCode::Less => BinaryExpressionType::LessThan,
                    OpCode::LessEqual => BinaryExpressionType::LessThanEquals,
                    OpCode::Greater => BinaryExpressionType::GreaterThan,
                    _ => BinaryExpressionType::GreaterThanEquals,
                };
                let ghost s0 = stack@;
                let b = match stack.pop() {
                    Some(v) => v,
                    None => return Err(RuntimeError::StackUnderflow),
                };
                let a = match stack.pop() {
                    Some(v) => v,
                    None => return Err(RuntimeError::StackUnderflow),
                };
                proof {
                    assert(s0.len() >= 2);
                    assert(a == s0[s0.len() - 2] && b == s0[s0.len() - 1]);
                }
                match exec_apply_binary(bop, a, b) {
                    Ok(w) => {
                        stack.push(w);
                        proof {
                            assert(stack@ =~= s0.drop_last().drop_last().push(w));
                        }
                        ip += 1;
                    },
                    Err(e) => return Err(e),
                }
            },
        }
    }
}

} // verus!
