//! The compiler: precedence-climbing parsing and bytecode emission.
//!
//! Parsing is driven by a minimum binding power threaded through recursive
//! calls. A primary (literal, unary operator applied to a primary, or
//! parenthesized sub-expression) is parsed first; then, while the next token
//! is a binary operator binding strictly tighter than the threshold, its
//! right operand is parsed at that operator's own power. All binary operators
//! are left-associative, so the recursive call reuses the operator's rank and
//! equal-precedence chains fold to the left.
//!
//! Code is emitted postfix: an operand's code first, then the opcode that
//! consumes it, matching the stack machine in [`crate::vm`].

use vstd::prelude::*;

use crate::ast::{BinaryExpressionType, Expression, UnaryExpressionType};
use crate::errors::CompileError;
use crate::eval::{spec_binary_opcode, spec_unary_opcode};
use crate::program::{OpCode, Program, ProgramModel, CONSTANT_POOL_LIMIT};
use crate::scanner::{spec_digit_val, spec_is_digit, Token, TokenType};
use crate::value::Value;

verus! {

/// The ceiling on parse recursion (parenthesis nesting, prefix chains, and
/// towers of increasing precedence). Exceeding it is `NestingTooDeep` rather
/// than uncontrolled call-stack growth. It is kept below the virtual
/// machine's stack capacity, so a compiled program can never overflow the
/// operand stack.
pub const MAX_NESTING_DEPTH: u8 = 200;

/// The binding power of a prefix operator: higher than every binary
/// operator, so unary operators bind tighter than binary ones.
pub const UNARY_POWER: u8 = 5;

/// The binary operator a token denotes, if any.
pub open spec fn spec_binary_op_of(t: TokenType) -> Option<BinaryExpressionType> {
    match t {
        TokenType::Plus => Some(BinaryExpressionType::Plus),
        TokenType::Minus => Some(BinaryExpressionType::Minus),
        TokenType::Star => Some(BinaryExpressionType::Times),
        TokenType::Slash => Some(BinaryExpressionType::Divide),
        TokenType::EqualEqual => Some(BinaryExpressionType::Equals),
        TokenType::BangEqual => Some(BinaryExpressionType::NotEquals),
        TokenType::Less => Some(BinaryExpressionType::LessThan),
        TokenType::LessEqual => Some(BinaryExpressionType::LessThanEquals),
        TokenType::Greater => Some(BinaryExpressionType::GreaterThan),
        TokenType::GreaterEqual => Some(BinaryExpressionType::GreaterThanEquals),
        _ => None,
    }
}

/// The precedence table, lowest to highest binding: equality, relational,
/// additive, multiplicative. Unary prefix ([`UNARY_POWER`]) binds tighter
/// than all of them.
pub open spec fn spec_op_power(op: BinaryExpressionType) -> u8 {
    match op {
        BinaryExpressionType::Equals => 1,
        BinaryExpressionType::NotEquals => 1,
        BinaryExpressionType::LessThan => 2,
        BinaryExpressionType::LessThanEquals => 2,
        BinaryExpressionType::GreaterThan => 2,
        BinaryExpressionType::GreaterThanEquals => 2,
        BinaryExpressionType::Plus => 3,
        BinaryExpressionType::Minus => 3,
        BinaryExpressionType::Times => 4,
        BinaryExpressionType::Divide => 4,
    }
}

/// Whether the input is exhausted at `pos`: past the last token, or at the
/// end marker.
pub open spec fn at_end(toks: Seq<Token>, pos: int) -> bool {
    pos >= toks.len() || toks[pos].token_type is Eof
}

/// The token kind visible at `pos`, with `Eof` standing in past the end.
pub open spec fn peek_type(toks: Seq<Token>, pos: int) -> TokenType {
    if 0 <= pos < toks.len() {
        toks[pos].token_type
    } else {
        TokenType::Eof
    }
}

/// The source line to report for a diagnostic at `pos`: the token's own
/// line, or the last token's line past the end.
pub open spec fn line_at(toks: Seq<Token>, pos: int) -> usize {
    if 0 <= pos < toks.len() {
        toks[pos].line
    } else if toks.len() > 0 {
        toks[toks.len() - 1].line
    } else {
        1
    }
}

/// The `UnexpectedToken` error for position `pos`.
pub open spec fn err_unexpected(toks: Seq<Token>, pos: int) -> CompileError {
    CompileError::UnexpectedToken { found: peek_type(toks, pos), line: line_at(toks, pos) }
}

/// Whether every character of `s` is a decimal digit.
pub open spec fn spec_all_digits(s: Seq<char>) -> bool {
    forall|i: int| 0 <= i < s.len() ==> spec_is_digit(#[trigger] s[i])
}

/// The integer a digit string denotes, most significant digit first.
pub open spec fn spec_digits_to_int(s: Seq<char>) -> int
    decreases s.len(),
{
    if s.len() == 0 {
        0
    } else {
        spec_digits_to_int(s.drop_last()) * 10 + spec_digit_val(s.last())
    }
}

/// The value of a numeric lexeme: a non-empty all-digit string whose value
/// fits in an `i64`. Anything else (a fractional literal, an overflowing
/// one) is an invalid literal for this language.
pub open spec fn spec_parse_int(s: Seq<char>) -> Option<i64> {
    if s.len() > 0 && spec_all_digits(s) && spec_digits_to_int(s) <= i64::MAX {
        Some(spec_digits_to_int(s) as i64)
    } else {
        None
    }
}

proof fn lemma_digits_nonneg(s: Seq<char>)
    requires
        spec_all_digits(s),
    ensures
        spec_digits_to_int(s) >= 0,
    decreases s.len(),
{
    if s.len() > 0 {
        assert(spec_all_digits(s.drop_last())) by {
            assert(forall|i: int|
                0 <= i < s.len() - 1 ==> #[trigger] s.drop_last()[i] == s[i]);
        }
        lemma_digits_nonneg(s.drop_last());
    }
}

proof fn lemma_digits_take_succ(s: Seq<char>, i: int)
    requires
        0 <= i < s.len(),
    ensures
        spec_digits_to_int(s.take(i + 1)) == spec_digits_to_int(s.take(i)) * 10 + spec_digit_val(
            s[i],
        ),
{
    assert(s.take(i + 1).drop_last() =~= s.take(i));
    assert(s.take(i + 1).last() == s[i]);
}

proof fn lemma_digits_prefix_bound(s: Seq<char>, i: int)
    requires
        spec_all_digits(s),
        0 <= i <= s.len(),
    ensures
        spec_digits_to_int(s.take(i)) <= spec_digits_to_int(s),
    decreases s.len() - i,
{
    if i == s.len() {
        assert(s.take(i) =~= s);
    } else {
        assert(spec_all_digits(s.take(i))) by {
            assert(forall|j: int| 0 <= j < i ==> #[trigger] s.take(i)[j] == s[j]);
        }
        lemma_digits_nonneg(s.take(i));
        lemma_digits_take_succ(s, i);
        lemma_digits_prefix_bound(s, i + 1);
    }
}

/// Parses a numeric lexeme as a decimal integer, rejecting anything that is
/// not a plain in-range digit string.
pub fn parse_int(s: &String) -> (r: Option<i64>)
    ensures
        r == spec_parse_int(s@),
{
    let n = s.as_str().unicode_len();
    if n == 0 {
        return None;
    }
    let mut acc: i64 = 0;
    let mut i: usize = 0;
    while i < n
        invariant
            n == s@.len(),
            i <= n,
            spec_all_digits(s@.take(i as int)),
            acc == spec_digits_to_int(s@.take(i as int)),
            0 <= acc,
        decreases n - i,
    {
        let c = s.as_str().get_char(i);
        let cu = c as u32;
        if cu < 48 || cu > 57 {
            proof {
                assert(!spec_is_digit(s@[i as int]));
            }
            return None;
        }
        let d = (cu - 48) as i64;
        proof {
            lemma_digits_take_succ(s@, i as int);
        }
        let step = match acc.checked_mul(10) {
            Some(x) => x.checked_add(d),
            None => None,
        };
        match step {
            Some(y) => {
                acc = y;
            },
            None => {
                // The digits seen so far already exceed `i64::MAX`, so the
                // whole lexeme does, whatever follows.
                proof {
                    if spec_all_digits(s@) {
                        lemma_digits_prefix_bound(s@, i as int + 1);
                    }
                }
                return None;
            },
        }
        proof {
            assert(spec_all_digits(s@.take(i as int + 1))) by {
                assert(forall|j: int|
                    0 <= j < i as int + 1 ==> #[trigger] s@.take(i as int + 1)[j] == s@[j]);
            }
        }
        i += 1;
    }
    proof {
        assert(s@.take(n as int) =~= s@);
    }
    Some(acc)
}

/// Precedence climbing at a minimum binding power: parse a primary, then
/// fold in binary operators that bind tighter than `min_bp`. `depth` is the
/// remaining recursion budget.
pub open spec fn spec_parse_expr(
    toks: Seq<Token>,
    pos: int,
    min_bp: u8,
    depth: int,
) -> Result<(Expression, int), CompileError>
    decreases depth, toks.len() - pos, 2int,
{
    if depth <= 0 {
        Err(CompileError::NestingTooDeep)
    } else if at_end(toks, pos) {
        Err(err_unexpected(toks, pos))
    } else {
        match spec_parse_primary(toks, pos, depth) {
            Err(e) => Err(e),
            Ok((lhs, p)) => {
                // A successful primary always consumes at least one token;
                // the bound keeps the recursion well-founded.
                let p1 = if pos < p && p <= toks.len() {
                    p
                } else {
                    pos + 1
                };
                spec_parse_tail(toks, p1, min_bp, depth, lhs)
            },
        }
    }
}

/// A primary: a literal, a prefix operator applied at [`UNARY_POWER`], or a
/// parenthesized sub-expression parsed back at power zero.
pub open spec fn spec_parse_primary(toks: Seq<Token>, pos: int, depth: int) -> Result<
    (Expression, int),
    CompileError,
>
    decreases depth, toks.len() - pos, 1int,
{
    if !(0 <= pos < toks.len()) || depth <= 0 {
        Err(err_unexpected(toks, pos))
    } else {
        let t = toks[pos];
        match t.token_type {
            TokenType::Number => match spec_parse_int(t.lexeme@) {
                Some(n) => Ok((Expression::Number(n), pos + 1)),
                None => Err(CompileError::InvalidLiteral { line: t.line }),
            },
            TokenType::String => Ok((Expression::String(t.lexeme), pos + 1)),
            TokenType::True => Ok((Expression::Boolean(true), pos + 1)),
            TokenType::False => Ok((Expression::Boolean(false), pos + 1)),
            TokenType::Nil => Ok((Expression::Nil, pos + 1)),
            TokenType::Minus => match spec_parse_expr(toks, pos + 1, UNARY_POWER, depth - 1) {
                Ok((e, p)) => Ok(
                    (Expression::Unary(UnaryExpressionType::Negate, Box::new(e)), p),
                ),
                Err(er) => Err(er),
            },
            TokenType::Bang => match spec_parse_expr(toks, pos + 1, UNARY_POWER, depth - 1) {
                Ok((e, p)) => Ok((Expression::Unary(UnaryExpressionType::Not, Box::new(e)), p)),
                Err(er) => Err(er),
            },
            TokenType::LeftParen => match spec_parse_expr(toks, pos + 1, 0u8, depth - 1) {
                Err(er) => Err(er),
                Ok((e, p)) => if 0 <= p < toks.len() && toks[p].token_type is RightParen {
                    Ok((Expression::Paren(Box::new(e)), p + 1))
                } else {
                    Err(CompileError::UnterminatedGroup { line: t.line })
                },
            },
            _ => Err(CompileError::UnexpectedToken { found: t.token_type, line: t.line }),
        }
    }
}

/// The operator loop: while the next token is a binary operator binding
/// strictly tighter than `min_bp`, parse its right operand at the operator's
/// own power and fold it into `lhs` from the left.
pub open spec fn spec_parse_tail(
    toks: Seq<Token>,
    pos: int,
    min_bp: u8,
    depth: int,
    lhs: Expression,
) -> Result<(Expression, int), CompileError>
    decreases depth, toks.len() - pos, 0int,
{
    if depth <= 0 {
        Err(CompileError::NestingTooDeep)
    } else if pos < 0 || at_end(toks, pos) {
        Ok((lhs, pos))
    } else {
        match spec_binary_op_of(toks[pos].token_type) {
            None => Ok((lhs, pos)),
            Some(op) => if spec_op_power(op) <= min_bp {
                Ok((lhs, pos))
            } else {
                match spec_parse_expr(toks, pos + 1, spec_op_power(op), depth - 1) {
                    Err(er) => Err(er),
                    Ok((rhs, p2)) => {
                        let np = if pos < p2 && p2 <= toks.len() {
                            p2
                        } else {
                            pos + 1
                        };
                        spec_parse_tail(
                            toks,
                            np,
                            min_bp,
                            depth,
                            Expression::Binary(op, Box::new(lhs), Box::new(rhs)),
                        )
                    },
                }
            },
        }
    }
}

/// Parsing a whole token stream: exactly one expression, optionally followed
/// by the end marker; an empty stream is `EmptyExpression`, and trailing
/// unconsumed tokens are an error.
pub open spec fn spec_parse_tokens(toks: Seq<Token>) -> Result<Expression, CompileError> {
    if at_end(toks, 0) {
        Err(CompileError::EmptyExpression)
    } else {
        match spec_parse_expr(toks, 0, 0u8, MAX_NESTING_DEPTH as int) {
            Err(e) => Err(e),
            Ok((e, p)) => if p >= toks.len() || (toks[p].token_type is Eof && p + 1
                == toks.len()) {
                Ok(e)
            } else {
                Err(err_unexpected(toks, p))
            },
        }
    }
}

/// The code and pool that loading one literal appends, given the pool
/// emitted so far.
pub open spec fn spec_emit_literal(v: Value, pool: Seq<Value>) -> Option<
    (Seq<OpCode>, Seq<Value>),
> {
    if pool.len() < CONSTANT_POOL_LIMIT {
        Some((seq![OpCode::LoadConstant(pool.len() as u8)], pool.push(v)))
    } else {
        None
    }
}

/// The postfix code an expression compiles to, and the constant pool after
/// it, given the pool emitted so far. `None` is constant-pool exhaustion.
pub open spec fn spec_emit(e: Expression, pool: Seq<Value>) -> Option<(Seq<OpCode>, Seq<Value>)>
    decreases e,
{
    match e {
        Expression::Number(n) => spec_emit_literal(Value::Number(n), pool),
        Expression::String(s) => spec_emit_literal(Value::String(s), pool),
        Expression::Boolean(b) => spec_emit_literal(Value::Boolean(b), pool),
        Expression::Nil => spec_emit_literal(Value::Nil, pool),
        Expression::Paren(inner) => spec_emit(*inner, pool),
        Expression::Unary(op, inner) => match spec_emit(*inner, pool) {
            None => None,
            Some((c, p)) => Some((c.push(spec_unary_opcode(op)), p)),
        },
        Expression::Binary(op, l, r) => match spec_emit(*l, pool) {
            None => None,
            Some((cl, p1)) => match spec_emit(*r, p1) {
                None => None,
                Some((cr, p2)) => Some((cl + cr + seq![spec_binary_opcode(op)], p2)),
            },
        },
    }
}

/// Compiling a whole token stream: parse, emit the expression's code, and
/// end the program with `Return`.
pub open spec fn spec_compile(toks: Seq<Token>) -> Result<ProgramModel, CompileError> {
    match spec_parse_tokens(toks) {
        Err(e) => Err(e),
        Ok(e) => match spec_emit(e, Seq::empty()) {
            None => Err(CompileError::TooManyConstants),
            Some((c, p)) => Ok(ProgramModel { code: c.push(OpCode::Return), constants: p }),
        },
    }
}

/// The binary operator a token denotes, if any.
fn binary_op_of(t: TokenType) -> (r: Option<BinaryExpressionType>)
    ensures
        r == spec_binary_op_of(t),
{
    match t {
        TokenType::Plus => Some(BinaryExpressionType::Plus),
        TokenType::Minus => Some(BinaryExpressionType::Minus),
        TokenType::Star => Some(BinaryExpressionType::Times),
        TokenType::Slash => Some(BinaryExpressionType::Divide),
        TokenType::EqualEqual => Some(BinaryExpressionType::Equals),
        TokenType::BangEqual => Some(BinaryExpressionType::NotEquals),
        TokenType::Less => Some(BinaryExpressionType::LessThan),
        TokenType::LessEqual => Some(BinaryExpressionType::LessThanEquals),
        TokenType::Greater => Some(BinaryExpressionType::GreaterThan),
        TokenType::GreaterEqual => Some(BinaryExpressionType::GreaterThanEquals),
        _ => None,
    }
}

/// The binding power of a binary operator.
fn op_power_of(op: BinaryExpressionType) -> (r: u8)
    ensures
        r == spec_op_power(op),
{
    match op {
        BinaryExpressionType::Equals => 1,
        BinaryExpressionType::NotEquals => 1,
        BinaryExpressionType::LessThan => 2,
        BinaryExpressionType::LessThanEquals => 2,
        BinaryExpressionType::GreaterThan => 2,
        BinaryExpressionType::GreaterThanEquals => 2,
        BinaryExpressionType::Plus => 3,
        BinaryExpressionType::Minus => 3,
        BinaryExpressionType::Times => 4,
        BinaryExpressionType::Divide => 4,
    }
}

/// Whether a token is a binary operator.
pub fn is_operator(token: &Token) -> (r: bool)
    ensures
        r == (spec_binary_op_of(token.token_type) is Some),
{
    match binary_op_of(token.token_type) {
        Some(_) => true,
        None => false,
    }
}

/// The binding power of an operator token, or `UnexpectedToken` for a token
/// that is no binary operator.
pub fn op_power(token: &Token) -> (r: Result<u8, CompileError>)
    ensures
        match spec_binary_op_of(token.token_type) {
            Some(op) => r == Ok::<u8, CompileError>(spec_op_power(op)),
            None => r == Err::<u8, CompileError>(
                CompileError::UnexpectedToken { found: token.token_type, line: token.line },
            ),
        },
{
    match binary_op_of(token.token_type) {
        Some(op) => Ok(op_power_of(op)),
        None => Err(CompileError::UnexpectedToken { found: token.token_type, line: token.line }),
    }
}

fn is_at_end(tokens: &Vec<Token>, pos: usize) -> (r: bool)
    ensures
        r == at_end(tokens@, pos as int),
{
    pos >= tokens.len() || match tokens[pos].token_type {
        TokenType::Eof => true,
        _ => false,
    }
}

fn unexpected_here(tokens: &Vec<Token>, pos: usize) -> (e: CompileError)
    ensures
        e == err_unexpected(tokens@, pos as int),
{
    if pos < tokens.len() {
        CompileError::UnexpectedToken { found: tokens[pos].token_type, line: tokens[pos].line }
    } else if tokens.len() > 0 {
        CompileError::UnexpectedToken {
            found: TokenType::Eof,
            line: tokens[tokens.len() - 1].line,
        }
    } else {
        CompileError::UnexpectedToken { found: TokenType::Eof, line: 1 }
    }
}

fn parse_expr(tokens: &Vec<Token>, pos: usize, min_bp: u8, depth: u8) -> (r: Result<
    (Expression, usize),
    CompileError,
>)
    requires
        pos <= tokens@.len(),
    ensures
        match r {
            Ok((e, p)) => spec_parse_expr(tokens@, pos as int, min_bp, depth as int) == Ok::<
                (Expression, int),
                CompileError,
            >((e, p as int)) && p <= tokens@.len(),
            Err(er) => spec_parse_expr(tokens@, pos as int, min_bp, depth as int) == Err::<
                (Expression, int),
                CompileError,
            >(er),
        },
    decreases depth as int, tokens@.len() - pos, 2int,
{
    proof {
        vstd::std_specs::vec::axiom_spec_len(tokens);
    }
    if depth == 0 {
        return Err(CompileError::NestingTooDeep);
    }
    if is_at_end(tokens, pos) {
        return Err(unexpected_here(tokens, pos));
    }
    let (lhs, p) = match parse_primary(tokens, pos, depth) {
        Ok(x) => x,
        Err(e) => return Err(e),
    };
    let p1 = if pos < p && p <= tokens.len() {
        p
    } else {
        pos + 1
    };
    parse_tail(tokens, p1, min_bp, depth, lhs)
}

fn parse_primary(tokens: &Vec<Token>, pos: usize, depth: u8) -> (r: Result<
    (Expression, usize),
    CompileError,
>)
    requires
        pos < tokens@.len(),
        depth >= 1,
    ensures
        match r {
            Ok((e, p)) => spec_parse_primary(tokens@, pos as int, depth as int) == Ok::<
                (Expression, int),
                CompileError,
            >((e, p as int)) && p <= tokens@.len(),
            Err(er) => spec_parse_primary(tokens@, pos as int, depth as int) == Err::<
                (Expression, int),
                CompileError,
            >(er),
        },
    decreases depth as int, tokens@.len() - pos, 1int,
{
    proof {
        vstd::std_specs::vec::axiom_spec_len(tokens);
    }
    let t = &tokens[pos];
    match t.token_type {
        TokenType::Number => match parse_int(&t.lexeme) {
            Some(n) => Ok((Expression::Number(n), pos + 1)),
            None => Err(CompileError::InvalidLiteral { line: t.line }),
        },
        TokenType::String => Ok((Expression::String(t.lexeme.clone()), pos + 1)),
        TokenType::True => Ok((Expression::Boolean(true), pos + 1)),
        TokenType::False => Ok((Expression::Boolean(false), pos + 1)),
        TokenType::Nil => Ok((Expression::Nil, pos + 1)),
        TokenType::Minus => match parse_expr(tokens, pos + 1, UNARY_POWER, depth - 1) {
            Ok((e, p)) => Ok((Expression::Unary(UnaryExpressionType::Negate, Box::new(e)), p)),
            Err(er) => Err(er),
        },
        TokenType::Bang => match parse_expr(tokens, pos + 1, UNARY_POWER, depth - 1) {
            Ok((e, p)) => Ok((Expression::Unary(UnaryExpressionType::Not, Box::new(e)), p)),
            Err(er) => Err(er),
        },
        TokenType::LeftParen => match parse_expr(tokens, pos + 1, 0, depth - 1) {
            Err(er) => Err(er),
            Ok((e, p)) => {
                let closed = p < tokens.len() && match tokens[p].token_type {
                    TokenType::RightParen => true,
                    _ => false,
                };
                if closed {
                    Ok((Expression::Paren(Box::new(e)), p + 1))
                } else {
                    Err(CompileError::UnterminatedGroup { line: t.line })
                }
            },
        },
        _ => Err(CompileError::UnexpectedToken { found: t.token_type, line: t.line }),
    }
}

fn parse_tail(tokens: &Vec<Token>, pos: usize, min_bp: u8, depth: u8, lhs: Expression) -> (r:
    Result<(Expression, usize), CompileError>)
    requires
        pos <= tokens@.len(),
    ensures
        match r {
            Ok((e, p)) => spec_parse_tail(tokens@, pos as int, min_bp, depth as int, lhs) == Ok::<
                (Expression, int),
                CompileError,
            >((e, p as int)) && p <= tokens@.len(),
            Err(er) => spec_parse_tail(tokens@, pos as int, min_bp, depth as int, lhs) == Err::<
                (Expression, int),
                CompileError,
            >(er),
        },
    decreases depth as int, tokens@.len() - pos, 0int,
{
    proof {
        vstd::std_specs::vec::axiom_spec_len(tokens);
    }
    if depth == 0 {
        return Err(CompileError::NestingTooDeep);
    }
    if is_at_end(tokens, pos) {
        return Ok((lhs, pos));
    }
    let op = match binary_op_of(tokens[pos].token_type) {
        None => return Ok((lhs, pos)),
        Some(op) => op,
    };
    let power = op_power_of(op);
    if power <= min_bp {
        return Ok((lhs, pos));
    }
    let (rhs, p2) = match parse_expr(tokens, pos + 1, power, depth - 1) {
        Ok(x) => x,
        Err(er) => return Err(er),
    };
    let np = if pos < p2 && p2 <= tokens.len() {
        p2
    } else {
        pos + 1
    };
    parse_tail(tokens, np, min_bp, depth, Expression::Binary(op, Box::new(lhs), Box::new(rhs)))
}

/// The opcode that performs a unary operator.
fn unary_opcode_of(op: UnaryExpressionType) -> (r: OpCode)
    ensures
        r == spec_unary_opcode(op),
{
    match op {
        UnaryExpressionType::Not => OpCode::Not,
        UnaryExpressionType::Negate => OpCode::Negate,
    }
}

/// The opcode that performs a binary operator.
fn binary_opcode_of(op: BinaryExpressionType) -> (r: OpCode)
    ensures
        r == spec_binary_opcode(op),
{
    match op {
        BinaryExpressionType::Plus => OpCode::Add,
        BinaryExpressionType::Minus => OpCode::Subtract,
        BinaryExpressionType::Times => OpCode::Multiply,
        BinaryExpressionType::Divide => OpCode::Divide,
        BinaryExpressionType::Equals => OpCode::Equal,
        BinaryExpressionType::NotEquals => OpCode::NotEqual,
        BinaryExpressionType::LessThan => OpCode::Less,
        BinaryExpressionType::LessThanEquals => OpCode::LessEqual,
        BinaryExpressionType::GreaterThan => OpCode::Greater,
        BinaryExpressionType::GreaterThanEquals => OpCode::GreaterEqual,
    }
}

fn emit_expr(expr: &Expression, program: &mut Program) -> (r: Result<(), CompileError>)
    requires
        old(program)@.wf(),
    ensures
        final (program)@.wf(),
        match r {
            Ok(()) => match spec_emit(*expr, old(program)@.constants) {
                Some((c, p)) => final (program)@.code == old(program)@.code + c
                    && final (program)@.constants == p,
                None => false,
            },
            Err(e) => e == CompileError::TooManyConstants && spec_emit(
                *expr,
                old(program)@.constants,
            ) is None,
        },
    decreases expr,
{
    match expr {
        Expression::Number(n) => match program.emit_constant(Value::Number(*n)) {
            Ok(_) => {
                proof {
                    assert(old(program)@.code + seq![
                        OpCode::LoadConstant(old(program)@.constants.len() as u8),
                    ] =~= old(program)@.code.push(
                        OpCode::LoadConstant(old(program)@.constants.len() as u8),
                    ));
                }
                Ok(())
            },
            Err(e) => Err(e),
        },
        Expression::String(s) => match program.emit_constant(Value::String(s.clone())) {
            Ok(_) => {
                proof {
                    assert(old(program)@.code + seq![
                        OpCode::LoadConstant(old(program)@.constants.len() as u8),
                    ] =~= old(program)@.code.push(
                        OpCode::LoadConstant(old(program)@.constants.len() as u8),
                    ));
                }
                Ok(())
            },
            Err(e) => Err(e),
        },
        Expression::Boolean(b) => match program.emit_constant(Value::Boolean(*b)) {
            Ok(_) => {
                proof {
                    assert(old(program)@.code + seq![
                        OpCode::LoadConstant(old(program)@.constants.len() as u8),
                    ] =~= old(program)@.code.push(
                        OpCode::LoadConstant(old(program)@.constants.len() as u8),
                    ));
                }
                Ok(())
            },
            Err(e) => Err(e),
        },
        Expression::Nil => match program.emit_constant(Value::Nil) {
            Ok(_) => {
                proof {
                    assert(old(program)@.code + seq![
                        OpCode::LoadConstant(old(program)@.constants.len() as u8),
                    ] =~= old(program)@.code.push(
                        OpCode::LoadConstant(old(program)@.constants.len() as u8),
                    ));
                }
                Ok(())
            },
            Err(e) => Err(e),
        },
        Expression::Paren(inner) => emit_expr(&**inner, program),
        Expression::Unary(op, inner) => match emit_expr(&**inner, program) {
            Err(e) => Err(e),
            Ok(()) => {
                let opc = unary_opcode_of(*op);
                program.emit(opc);
                proof {
                    if let Some((c, p)) = spec_emit(**inner, old(program)@.constants) {
                        assert((old(program)@.code + c).push(opc) =~= old(program)@.code + c.push(
                            opc,
                        ));
                    }
                }
                Ok(())
            },
        },
        Expression::Binary(op, l, r) => match emit_expr(&**l, program) {
            Err(e) => Err(e),
            Ok(()) => {
                match emit_expr(&**r, program) {
                    Err(e) => Err(e),
                    Ok(()) => {
                        let opc = binary_opcode_of(*op);
                        program.emit(opc);
                        proof {
                            if let Some((cl, p1)) = spec_emit(**l, old(program)@.constants) {
                                if let Some((cr, p2)) = spec_emit(**r, p1) {
                                    assert(((old(program)@.code + cl) + cr).push(opc) =~= old(
                                        program,
                                    )@.code + (cl + cr + seq![opc]));
                                }
                            }
                        }
                        Ok(())
                    },
                }
            },
        },
    }
}

/// Compiles one expression's tokens into a program, or reports the first
/// structural error. The input must hold exactly one expression, optionally
/// terminated by an end marker; trailing tokens are an error. Compilation is
/// a pure function of the token sequence: its exact result is
/// [`spec_compile`], so compiling the same tokens twice yields identical
/// programs.
pub fn compile(tokens: &Vec<Token>) -> (r: Result<Program, CompileError>)
    ensures
        match r {
            Ok(p) => spec_compile(tokens@) == Ok::<ProgramModel, CompileError>(p@) && p@.wf(),
            Err(e) => spec_compile(tokens@) == Err::<ProgramModel, CompileError>(e),
        },
{
    if is_at_end(tokens, 0) {
        return Err(CompileError::EmptyExpression);
    }
    let (expr, p) = match parse_expr(tokens, 0, 0, MAX_NESTING_DEPTH) {
        Ok(x) => x,
        Err(e) => return Err(e),
    };
    let sole_eof = p < tokens.len() && p + 1 == tokens.len() && match tokens[p].token_type {
        TokenType::Eof => true,
        _ => false,
    };
    if !(p >= tokens.len() || sole_eof) {
        return Err(unexpected_here(tokens, p));
    }
    let mut program = Program::new();
    match emit_expr(&expr, &mut program) {
        Err(e) => return Err(e),
        Ok(()) => {},
    }
    proof {
        if let Some((c, pool)) = spec_emit(expr, Seq::<Value>::empty()) {
            assert(Seq::<OpCode>::empty() + c =~= c);
        }
    }
    program.emit(OpCode::Return);
    Ok(program)
}

} // verus!
