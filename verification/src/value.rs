//! The tagged runtime value and its equality policy.

use vstd::prelude::*;

verus! {

/// A runtime value: exactly one variant is active at a time, and values are
/// immutable once constructed. Numbers are signed 64-bit integers; arithmetic
/// on them wraps (see the virtual machine's instruction semantics).
#[derive(Debug)]
pub enum Value {
    Number(i64),
    String(String),
    Boolean(bool),
    Nil,
}

/// The tag of a [`Value`], reported in type-mismatch errors.
#[derive(Debug, Clone, Copy, PartialEq, Eq, Structural)]
pub enum ValueKind {
    Number,
    String,
    Boolean,
    Nil,
}

/// The tag of a value.
pub open spec fn spec_kind(v: Value) -> ValueKind {
    match v {
        Value::Number(_) => ValueKind::Number,
        Value::String(_) => ValueKind::String,
        Value::Boolean(_) => ValueKind::Boolean,
        Value::Nil => ValueKind::Nil,
    }
}

/// Equality between values: same-variant values compare by content (numeric
/// equality, string content equality, boolean equality, and nil equals nil);
/// values of different variants are never equal.
pub open spec fn spec_value_eq(a: Value, b: Value) -> bool {
    match (a, b) {
        (Value::Number(x), Value::Number(y)) => x == y,
        (Value::String(x), Value::String(y)) => x@ == y@,
        (Value::Boolean(x), Value::Boolean(y)) => x == y,
        (Value::Nil, Value::Nil) => true,
        _ => false,
    }
}

impl Value {
    /// The tag of this value.
    pub fn kind(&self) -> (k: ValueKind)
        ensures
            k == spec_kind(*self),
    {
        match self {
            Value::Number(_) => ValueKind::Number,
            Value::String(_) => ValueKind::String,
            Value::Boolean(_) => ValueKind::Boolean,
            Value::Nil => ValueKind::Nil,
        }
    }
}

/// The character for one decimal digit.
pub open spec fn spec_digit_char(d: int) -> char {
    if d == 0 {
        '0'
    } else if d == 1 {
        '1'
    } else if d == 2 {
        '2'
    } else if d == 3 {
        '3'
    } else if d == 4 {
        '4'
    } else if d == 5 {
        '5'
    } else if d == 6 {
        '6'
    } else if d == 7 {
        '7'
    } else if d == 8 {
        '8'
    } else {
        '9'
    }
}

/// The decimal digits of a non-negative integer, most significant first.
pub open spec fn spec_nat_digits(n: int) -> Seq<char>
    decreases n,
{
    if n < 10 {
        seq![spec_digit_char(n)]
    } else {
        spec_nat_digits(n / 10) + seq![spec_digit_char(n % 10)]
    }
}

/// The decimal text of an integer: a minus sign for a negative one, then its
/// magnitude's digits.
pub open spec fn spec_int_text(n: int) -> Seq<char> {
    if n < 0 {
        seq!['-'] + spec_nat_digits(-n)
    } else {
        spec_nat_digits(n)
    }
}

/// The rendering of a value as text: a number in decimal, a string's own
/// content, `true`, `false`, or `nil`.
pub open spec fn spec_value_text(v: Value) -> Seq<char> {
    match v {
        Value::Number(n) => spec_int_text(n as int),
        Value::String(s) => s@,
        Value::Boolean(b) => if b {
            "true"@
        } else {
            "false"@
        },
        Value::Nil => "nil"@,
    }
}

/// The one-character text of a decimal digit.
fn digit_str(d: u64) -> (r: &'static str)
    requires
        d < 10,
    ensures
        r@ == seq![spec_digit_char(d as int)],
{
    proof {
        reveal_strlit("0");
        reveal_strlit("1");
        reveal_strlit("2");
        reveal_strlit("3");
        reveal_strlit("4");
        reveal_strlit("5");
        reveal_strlit("6");
        reveal_strlit("7");
        reveal_strlit("8");
        reveal_strlit("9");
    }
    if d == 0 {
        "0"
    } else if d == 1 {
        "1"
    } else if d == 2 {
        "2"
    } else if d == 3 {
        "3"
    } else if d == 4 {
        "4"
    } else if d == 5 {
        "5"
    } else if d == 6 {
        "6"
    } else if d == 7 {
        "7"
    } else if d == 8 {
        "8"
    } else {
        "9"
    }
}

/// The decimal text of a non-negative integer.
fn nat_to_string(n: u64) -> (s: String)
    ensures
        s@ == spec_nat_digits(n as int),
    decreases n,
{
    if n < 10 {
        digit_str(n).to_owned()
    } else {
        let mut s = nat_to_string(n / 10);
        s.append(digit_str(n % 10));
        s
    }
}

/// The decimal text of an integer.
pub fn int_to_string(n: i64) -> (s: String)
    ensures
        s@ == spec_int_text(n as int),
{
    if n >= 0 {
        nat_to_string(n as u64)
    } else {
        // the magnitude, computed without negating the minimum value
        let magnitude: u64 = ((-(n + 1)) as u64) + 1;
        proof {
            assert(magnitude as int == -(n as int));
            reveal_strlit("-");
        }
        let mut s = "-".to_owned();
        let digits = nat_to_string(magnitude);
        s.append(digits.as_str());
        proof {
            assert(seq!['-'] =~= "-"@);
        }
        s
    }
}

impl Value {
    /// This value rendered as text.
    pub fn text(&self) -> (s: String)
        ensures
            s@ == spec_value_text(*self),
    {
        match self {
            Value::Number(n) => int_to_string(*n),
            Value::String(s) => s.clone(),
            Value::Boolean(b) => if *b {
                "true".to_owned()
            } else {
                "false".to_owned()
            },
            Value::Nil => "nil".to_owned(),
        }
    }
}

impl Clone for Value {
    fn clone(&self) -> (res: Self)
        ensures
            res == *self,
    {
        match self {
            Value::Number(n) => Value::Number(*n),
            Value::String(s) => Value::String(s.clone()),
            Value::Boolean(b) => Value::Boolean(*b),
            Value::Nil => Value::Nil,
        }
    }
}

impl PartialEq for Value {
    fn eq(&self, other: &Value) -> (r: bool) {
        match (self, other) {
            (Value::Number(x), Value::Number(y)) => *x == *y,
            (Value::String(x), Value::String(y)) => *x == *y,
            (Value::Boolean(x), Value::Boolean(y)) => *x == *y,
            (Value::Nil, Value::Nil) => true,
            _ => false,
        }
    }
}

impl vstd::std_specs::cmp::PartialEqSpecImpl for Value {
    open spec fn obeys_eq_spec() -> bool {
        true
    }

    open spec fn eq_spec(&self, other: &Value) -> bool {
        spec_value_eq(*self, *other)
    }
}

} // verus!
