//! A bytecode compiler and stack-machine interpreter for single infix
//! expressions.
//!
//! The pipeline has three stages. The scanner turns source text into a
//! sequence of tokens. The compiler resolves operator precedence and
//! associativity in a single precedence-climbing pass and emits a [`Program`]:
//! a flat instruction sequence plus a constant pool. The virtual machine
//! executes a program on a bounded operand stack and produces one [`Value`]
//! or a typed runtime error.
//!
//! Every stage carries a full functional specification. The central theorem,
//! [`properties::lemma_compile_run_oracle`], states that running a compiled
//! program yields exactly the value of the expression the tokens denote under
//! the precedence table, evaluated by a recursive reference evaluator.
//!
//! [`Program`]: program::Program
//! [`Value`]: value::Value

pub mod ast;
pub mod emit;
pub mod errors;
pub mod eval;
pub mod program;
pub mod properties;
pub mod scanner;
pub mod value;
pub mod vm;
