//! The laws that tie the compiler, the virtual machine and the reference
//! evaluator together.
//!
//! The central result is [`lemma_compile_run_oracle`]: for every token
//! sequence the compiler accepts, running the compiled program produces
//! exactly what the recursive reference evaluator says the parsed expression
//! means — the same value, or the same runtime error.

use vstd::prelude::*;

use crate::ast::{stack_height, BinaryExpressionType, Expression};
use crate::emit::{
    at_end, spec_compile, spec_emit, spec_emit_literal, spec_parse_expr, spec_parse_primary,
    spec_parse_tail, spec_parse_tokens, MAX_NESTING_DEPTH, UNARY_POWER,
};
use crate::errors::RuntimeError;
use crate::eval::{
    apply_binary, apply_unary, eval_expr, spec_binary_opcode, spec_mismatch_kind,
    spec_unary_opcode,
};
use crate::program::OpCode;
use crate::scanner::Token;
use crate::value::{spec_kind, Value};
use crate::vm::{spec_exec, spec_run, STACK_CAPACITY};

verus! {

/// A successful parse at recursion budget `depth` yields an expression whose
/// operand-stack need is at most `depth`: unary operators and grouping work
/// in place, and a binary operator's right operand, which holds one extra
/// slot, was parsed at a smaller budget.
pub proof fn lemma_parse_expr_height(toks: Seq<Token>, pos: int, min_bp: u8, depth: int)
    ensures
        spec_parse_expr(toks, pos, min_bp, depth) matches Ok((e, p)) ==> stack_height(e) <= depth,
    decreases depth, toks.len() - pos, 2int,
{
    if depth <= 0 || at_end(toks, pos) {
    } else {
        if let Ok((lhs, p)) = spec_parse_primary(toks, pos, depth) {
            lemma_parse_primary_height(toks, pos, depth);
            let p1 = if pos < p && p <= toks.len() {
                p
            } else {
                pos + 1
            };
            lemma_parse_tail_height(toks, p1, min_bp, depth, lhs);
        }
    }
}

proof fn lemma_parse_primary_height(toks: Seq<Token>, pos: int, depth: int)
    ensures
        spec_parse_primary(toks, pos, depth) matches Ok((e, p)) ==> stack_height(e) <= depth,
    decreases depth, toks.len() - pos, 1int,
{
    if !(0 <= pos < toks.len()) || depth <= 0 {
    } else {
        lemma_parse_expr_height(toks, pos + 1, UNARY_POWER, depth - 1);
        lemma_parse_expr_height(toks, pos + 1, 0u8, depth - 1);
    }
}

proof fn lemma_parse_tail_height(
    toks: Seq<Token>,
    pos: int,
    min_bp: u8,
    depth: int,
    lhs: Expression,
)
    requires
        stack_height(lhs) <= depth,
    ensures
        spec_parse_tail(toks, pos, min_bp, depth, lhs) matches Ok((e, p)) ==> stack_height(e)
            <= depth,
    decreases depth, toks.len() - pos, 0int,
{
    if depth <= 0 || pos < 0 || at_end(toks, pos) {
    } else {
        if let Some(op) = crate::emit::spec_binary_op_of(toks[pos].token_type) {
            if crate::emit::spec_op_power(op) > min_bp {
                lemma_parse_expr_height(toks, pos + 1, crate::emit::spec_op_power(op), depth - 1);
                if let Ok((rhs, p2)) = spec_parse_expr(
                    toks,
                    pos + 1,
                    crate::emit::spec_op_power(op),
                    depth - 1,
                ) {
                    let np = if pos < p2 && p2 <= toks.len() {
                        p2
                    } else {
                        pos + 1
                    };
                    lemma_parse_tail_height(
                        toks,
                        np,
                        min_bp,
                        depth,
                        Expression::Binary(op, Box::new(lhs), Box::new(rhs)),
                    );
                }
            }
        }
    }
}

/// One pool is an initial segment of another.
pub open spec fn pool_extends(p: Seq<Value>, q: Seq<Value>) -> bool {
    p.len() <= q.len() && forall|i: int| 0 <= i < p.len() ==> #[trigger] q[i] == p[i]
}

/// Emission only appends to the constant pool: the pool handed in is an
/// initial segment of the pool handed back.
pub proof fn lemma_emit_extends_pool(e: Expression, pool: Seq<Value>, c: Seq<OpCode>, p1: Seq<
    Value,
>)
    requires
        spec_emit(e, pool) == Some((c, p1)),
    ensures
        pool_extends(pool, p1),
    decreases e,
{
    match e {
        Expression::Number(_) => {},
        Expression::String(_) => {},
        Expression::Boolean(_) => {},
        Expression::Nil => {},
        Expression::Paren(inner) => {
            lemma_emit_extends_pool(*inner, pool, c, p1);
        },
        Expression::Unary(op, inner) => {
            if let Some((ci, pi)) = spec_emit(*inner, pool) {
                lemma_emit_extends_pool(*inner, pool, ci, pi);
            }
        },
        Expression::Binary(op, l, r) => {
            if let Some((cl, pl)) = spec_emit(*l, pool) {
                lemma_emit_extends_pool(*l, pool, cl, pl);
                if let Some((cr, pr)) = spec_emit(*r, pl) {
                    lemma_emit_extends_pool(*r, pl, cr, pr);
                }
            }
        },
    }
}

proof fn lemma_literal_step(
    v: Value,
    pool0: Seq<Value>,
    c: Seq<OpCode>,
    pool1: Seq<Value>,
    code: Seq<OpCode>,
    pool: Seq<Value>,
    ip: int,
    stack: Seq<Value>,
)
    requires
        spec_emit_literal(v, pool0) == Some((c, pool1)),
        0 <= ip,
        ip + c.len() <= code.len(),
        code.subrange(ip, ip + c.len() as int) == c,
        pool_extends(pool1, pool),
        stack.len() + 1 <= STACK_CAPACITY,
    ensures
        spec_exec(code, pool, ip, stack) == spec_exec(code, pool, ip + c.len(), stack.push(v)),
{
    let idx = pool0.len() as u8;
    assert(code[ip] == c[0]) by {
        assert(code.subrange(ip, ip + c.len() as int)[0] == c[0]);
    }
    assert(code[ip] == OpCode::LoadConstant(idx));
    assert(pool[idx as int] == v);
}

/// Running the code emitted for an expression, embedded anywhere in a larger
/// program whose pool extends the one emission produced: if the expression
/// evaluates to a value, execution continues past that code with the value
/// pushed; if it evaluates to an error, execution stops with exactly that
/// error.
pub proof fn lemma_emitted_code_runs(
    e: Expression,
    pool0: Seq<Value>,
    c: Seq<OpCode>,
    pool1: Seq<Value>,
    code: Seq<OpCode>,
    pool: Seq<Value>,
    ip: int,
    stack: Seq<Value>,
)
    requires
        spec_emit(e, pool0) == Some((c, pool1)),
        0 <= ip,
        ip + c.len() <= code.len(),
        code.subrange(ip, ip + c.len() as int) == c,
        pool_extends(pool1, pool),
        stack.len() + stack_height(e) <= STACK_CAPACITY,
    ensures
        match eval_expr(e) {
            Ok(v) => spec_exec(code, pool, ip, stack) == spec_exec(
                code,
                pool,
                ip + c.len(),
                stack.push(v),
            ),
            Err(er) => spec_exec(code, pool, ip, stack) == Err::<Value, RuntimeError>(er),
        },
    decreases e,
{
    assert forall|j: int| 0 <= j < c.len() implies code[ip + j] == c[j] by {
        assert(code.subrange(ip, ip + c.len() as int)[j] == c[j]);
    }
    match e {
        Expression::Number(n) => {
            lemma_literal_step(Value::Number(n), pool0, c, pool1, code, pool, ip, stack);
        },
        Expression::String(s) => {
            lemma_literal_step(Value::String(s), pool0, c, pool1, code, pool, ip, stack);
        },
        Expression::Boolean(b) => {
            lemma_literal_step(Value::Boolean(b), pool0, c, pool1, code, pool, ip, stack);
        },
        Expression::Nil => {
            lemma_literal_step(Value::Nil, pool0, c, pool1, code, pool, ip, stack);
        },
        Expression::Paren(inner) => {
            lemma_emitted_code_runs(*inner, pool0, c, pool1, code, pool, ip, stack);
        },
        Expression::Unary(op, inner) => {
            let (ci, pi) = spec_emit(*inner, pool0)->Some_0;
            assert(c == ci.push(spec_unary_opcode(op)));
            assert(code.subrange(ip, ip + ci.len() as int) =~= ci);
            lemma_emitted_code_runs(*inner, pool0, ci, pi, code, pool, ip, stack);
            match eval_expr(*inner) {
                Err(_) => {},
                Ok(v) => {
                    let ip1 = ip + ci.len();
                    assert(code[ip1] == spec_unary_opcode(op));
                    let st1 = stack.push(v);
                    assert(st1.last() == v);
                    match apply_unary(op, v) {
                        Ok(w) => {
                            assert(st1.drop_last() =~= stack);
                            assert(spec_exec(code, pool, ip1, st1) == spec_exec(
                                code,
                                pool,
                                ip1 + 1,
                                stack.push(w),
                            ));
                        },
                        Err(_) => {},
                    }
                },
            }
        },
        Expression::Binary(op, l, r) => {
            let (cl, pl) = spec_emit(*l, pool0)->Some_0;
            let (cr, pr) = spec_emit(*r, pl)->Some_0;
            assert(c == cl + cr + seq![spec_binary_opcode(op)]);
            assert(c.len() == cl.len() + cr.len() + 1);
            assert forall|j: int| 0 <= j < cl.len() implies c[j] == cl[j] by {}
            assert forall|j: int| 0 <= j < cr.len() implies c[cl.len() + j] == cr[j] by {}
            assert(c[c.len() - 1] == spec_binary_opcode(op));
            assert(code.subrange(ip, ip + cl.len() as int) =~= cl);
            lemma_emit_extends_pool(*r, pl, cr, pr);
            lemma_emitted_code_runs(*l, pool0, cl, pl, code, pool, ip, stack);
            match eval_expr(*l) {
                Err(_) => {},
                Ok(a) => {
                    let ip1 = ip + cl.len();
                    let st1 = stack.push(a);
                    assert(code.subrange(ip1, ip1 + cr.len() as int) =~= cr);
                    lemma_emitted_code_runs(*r, pl, cr, pr, code, pool, ip1, st1);
                    match eval_expr(*r) {
                        Err(_) => {},
                        Ok(b) => {
                            let ip2 = ip1 + cr.len();
                            let st2 = st1.push(b);
                            assert(code[ip2] == spec_binary_opcode(op));
                            assert(st2.len() == stack.len() + 2);
                            assert(st2[st2.len() - 2] == a && st2[st2.len() - 1] == b);
                            assert(crate::vm::spec_binop_of_opcode(spec_binary_opcode(op)) == op);
                            match apply_binary(op, a, b) {
                                Ok(w) => {
                                    assert(st2.drop_last().drop_last().push(w) =~= stack.push(w));
                                    assert(spec_exec(code, pool, ip2, st2) == spec_exec(
                                        code,
                                        pool,
                                        ip2 + 1,
                                        stack.push(w),
                                    ));
                                },
                                Err(_) => {},
                            }
                        },
                    }
                },
            }
        },
    }
}

/// Reference-oracle equivalence: for every token sequence the compiler
/// accepts, running the compiled program yields exactly the result of
/// evaluating the parsed expression with the reference evaluator — the same
/// value, or the same runtime error.
pub proof fn lemma_compile_run_oracle(toks: Seq<Token>)
    requires
        spec_compile(toks) is Ok,
    ensures
        spec_parse_tokens(toks) is Ok,
        spec_run(spec_compile(toks)->Ok_0) == eval_expr(spec_parse_tokens(toks)->Ok_0),
{
    let e = spec_parse_tokens(toks)->Ok_0;
    let (c, pool) = spec_emit(e, Seq::<Value>::empty())->Some_0;
    let m = spec_compile(toks)->Ok_0;
    assert(m.code == c.push(OpCode::Return) && m.constants == pool);
    lemma_parse_expr_height(toks, 0, 0u8, MAX_NESTING_DEPTH as int);
    assert(stack_height(e) <= MAX_NESTING_DEPTH as int);
    assert(m.code.subrange(0, c.len() as int) =~= c);
    assert(pool_extends(pool, m.constants));
    lemma_emitted_code_runs(
        e,
        Seq::<Value>::empty(),
        c,
        pool,
        m.code,
        m.constants,
        0,
        Seq::<Value>::empty(),
    );
    match eval_expr(e) {
        Ok(v) => {
            let st = Seq::<Value>::empty().push(v);
            assert(m.code[c.len() as int] == OpCode::Return);
            assert(st.last() == v);
            assert(spec_run(m) == Ok::<Value, RuntimeError>(v));
        },
        Err(_) => {},
    }
}

/// Compilation is a pure function of the token sequence: the same tokens
/// always yield the identical program, same instructions and same constant
/// pool, in the same order.
pub proof fn lemma_compile_deterministic(t1: Seq<Token>, t2: Seq<Token>)
    requires
        t1 == t2,
    ensures
        spec_compile(t1) == spec_compile(t2),
{
}

/// A prefix operator binds tighter than every binary operator: an operand
/// parsed at [`UNARY_POWER`] never absorbs a binary operator.
pub proof fn lemma_unary_binds_tighter(op: BinaryExpressionType)
    ensures
        crate::emit::spec_op_power(op) < UNARY_POWER,
{
}

/// Dividing any number by the number zero is `DivisionByZero` — never a
/// crash and never a silently wrapped value.
pub proof fn lemma_division_by_zero(a: i64)
    ensures
        apply_binary(BinaryExpressionType::Divide, Value::Number(a), Value::Number(0)) == Err::<
            Value,
            RuntimeError,
        >(RuntimeError::DivisionByZero),
{
}

/// Arithmetic and ordering are defined only for numbers: applying one of
/// those operators to any non-number operand is a `TypeMismatch`.
pub proof fn lemma_arithmetic_type_mismatch(op: BinaryExpressionType, a: Value, b: Value)
    requires
        op != BinaryExpressionType::Equals && op != BinaryExpressionType::NotEquals,
        !(a is Number) || !(b is Number),
    ensures
        apply_binary(op, a, b) == Err::<Value, RuntimeError>(
            RuntimeError::TypeMismatch {
                op: spec_binary_opcode(op),
                got: spec_mismatch_kind(a, b),
            },
        ),
{
}

/// Equality across different variants never errors and is always false (so
/// inequality is always true); it is only within one variant that contents
/// are compared.
pub proof fn lemma_cross_kind_equality(a: Value, b: Value)
    requires
        spec_kind(a) != spec_kind(b),
    ensures
        apply_binary(BinaryExpressionType::Equals, a, b) == Ok::<Value, RuntimeError>(
            Value::Boolean(false),
        ),
        apply_binary(BinaryExpressionType::NotEquals, a, b) == Ok::<Value, RuntimeError>(
            Value::Boolean(true),
        ),
{
}

/// Nil equals nil.
pub proof fn lemma_nil_equals_nil()
    ensures
        apply_binary(BinaryExpressionType::Equals, Value::Nil, Value::Nil) == Ok::<
            Value,
            RuntimeError,
        >(Value::Boolean(true)),
{
}

} // verus!

