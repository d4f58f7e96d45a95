//! The two disjoint error phases: compile-time and run-time.

use vstd::prelude::*;

use crate::program::OpCode;
use crate::scanner::TokenType;
use crate::value::ValueKind;

verus! {

/// A structural or syntactic error, detected before any instruction
/// executes. A compile error always prevents a program from being produced.
#[derive(Debug, Clone, Copy, PartialEq, Eq, Structural)]
pub enum CompileError {
    /// A token that cannot begin or continue the expression, with its kind
    /// and source line. End of input mid-expression is reported as an
    /// unexpected `Eof`.
    UnexpectedToken { found: TokenType, line: usize },
    /// An opening parenthesis (at the given line) without a matching closing
    /// one.
    UnterminatedGroup { line: usize },
    /// A literal token whose text does not denote a value of this language:
    /// a numeric lexeme that is not a plain decimal integer in range.
    InvalidLiteral { line: usize },
    /// The token stream holds no expression at all.
    EmptyExpression,
    /// The constant pool's index space is exhausted.
    TooManyConstants,
    /// The expression nests deeper than the compiler's explicit recursion
    /// ceiling.
    NestingTooDeep,
}

/// A run-time error. `TypeMismatch` and `DivisionByZero` reflect bad input
/// programs; the remaining variants are defect-class failures that a program
/// built by the compiler never triggers, but which the virtual machine
/// detects and reports rather than reading out of bounds.
#[derive(Debug, Clone, Copy, PartialEq, Eq, Structural)]
pub enum RuntimeError {
    /// An operand had the wrong tag for the opcode that consumed it.
    TypeMismatch { op: OpCode, got: ValueKind },
    /// The right operand of a division was the number zero.
    DivisionByZero,
    /// An instruction popped from an empty operand stack.
    StackUnderflow,
    /// An instruction pushed past the stack's fixed capacity.
    StackOverflow,
    /// Execution ran past the last instruction without a `Return`.
    MissingReturn,
}

} // verus!
