use vstd::prelude::*;
use crate::decimal::{float_text, normal_float};

verus! {

/// The type declared for a column.
#[derive(Debug, Clone, Copy, PartialEq, Eq, Structural)]
pub enum ColumnType {
    Integer,
    Float,
    Text,
    Bool,
}

/// A scalar stored in a table cell.
///
/// A float is kept as the decimal numeral it was written with, so that
/// storing, comparing and rendering it never leaves exact arithmetic; it is
/// compared and shown by its canonical text (`float_text`).
#[derive(Debug, Clone)]
pub enum Value {
    Integer(i64),
    Float(String),
    Text(String),
    Bool(bool),
    Null,
}

/// Structural equality of two values, as the store sees it.
pub open spec fn same_value(a: Value, b: Value) -> bool {
    match (a, b) {
        (Value::Integer(x), Value::Integer(y)) => x == y,
        (Value::Float(x), Value::Float(y)) => float_text(x@) == float_text(y@),
        (Value::Text(x), Value::Text(y)) => x@ == y@,
        (Value::Bool(x), Value::Bool(y)) => x == y,
        (Value::Null, Value::Null) => true,
        _ => false,
    }
}

/// Whether two values count as equal for joins and uniqueness: Null equals nothing.
pub open spec fn joinable(a: Value, b: Value) -> bool {
    a !is Null && same_value(a, b)
}

/// Whether a value may be stored in a column of type `t`.
pub open spec fn fits(v: Value, t: ColumnType) -> bool {
    match v {
        Value::Integer(_) => t == ColumnType::Integer,
        Value::Float(_) => t == ColumnType::Float,
        Value::Text(_) => t == ColumnType::Text,
        Value::Bool(_) => t == ColumnType::Bool,
        Value::Null => true,
    }
}

pub open spec fn digit_char(d: nat) -> char {
    if d == 0 { '0' } else if d == 1 { '1' } else if d == 2 { '2' } else if d == 3 { '3' }
    else if d == 4 { '4' } else if d == 5 { '5' } else if d == 6 { '6' } else if d == 7 { '7' }
    else if d == 8 { '8' } else { '9' }
}

/// Decimal digits of a natural number, most significant first.
pub open spec fn digits(n: nat) -> Seq<char>
    decreases n,
{
    if n < 10 {
        seq![digit_char(n)]
    } else {
        digits(n / 10).push(digit_char(n % 10))
    }
}

/// Decimal text of an integer, with a leading '-' when negative.
pub open spec fn int_text(i: int) -> Seq<char> {
    if i < 0 {
        seq!['-'] + digits((-i) as nat)
    } else {
        digits(i as nat)
    }
}

/// How a value is shown in a query result.
pub open spec fn value_text(v: Value) -> Seq<char> {
    match v {
        Value::Integer(i) => int_text(i as int),
        Value::Float(s) => float_text(s@),
        Value::Text(s) => s@,
        Value::Bool(b) => if b { "true"@ } else { "false"@ },
        Value::Null => "NULL"@,
    }
}

/// The one-character text of a decimal digit.
fn digit_str(d: u128) -> (r: &'static str)
    requires
        d < 10,
    ensures
        r@ == seq![digit_char(d as nat)],
{
    proof {
        reveal_strlit("0"); reveal_strlit("1"); reveal_strlit("2"); reveal_strlit("3"); reveal_strlit("4");
        reveal_strlit("5"); reveal_strlit("6"); reveal_strlit("7"); reveal_strlit("8"); reveal_strlit("9");
    }
    if d == 0 { "0" } else if d == 1 { "1" } else if d == 2 { "2" } else if d == 3 { "3" }
    else if d == 4 { "4" } else if d == 5 { "5" } else if d == 6 { "6" } else if d == 7 { "7" }
    else if d == 8 { "8" } else { "9" }
}

/// Appends the decimal digits of `n`.
fn append_digits(n: u128, out: &mut String)
    ensures
        final(out)@ == old(out)@ + digits(n as nat),
    decreases n,
{
    if n >= 10 {
        append_digits(n / 10, out);
    }
    out.append(digit_str(n % 10));
    assert(n < 10 ==> n % 10 == n);
}

/// The decimal text of an integer.
pub fn int_to_text(i: i128) -> (r: String)
    ensures
        r@ == int_text(i as int),
{
    let mut out = String::new();
    if i < 0 {
        proof { reveal_strlit("-"); }
        out.append("-");
        let m: u128 = ((-(i + 1)) as u128) + 1;
        append_digits(m, &mut out);
    } else {
        append_digits(i as u128, &mut out);
    }
    out
}

impl Value {
    /// A copy of this value.
    pub fn duplicate(&self) -> (r: Value)
        ensures
            r == *self,
    {
        match self {
            Value::Integer(i) => Value::Integer(*i),
            Value::Float(s) => Value::Float(s.clone()),
            Value::Text(s) => Value::Text(s.clone()),
            Value::Bool(b) => Value::Bool(*b),
            Value::Null => Value::Null,
        }
    }

    pub fn is_null(&self) -> (r: bool)
        ensures
            r == (*self is Null),
    {
        matches!(self, Value::Null)
    }

    /// Structural equality.
    pub fn same_as(&self, other: &Value) -> (r: bool)
        ensures
            r == same_value(*self, *other),
    {
        match (self, other) {
            (Value::Integer(x), Value::Integer(y)) => *x == *y,
            (Value::Float(x), Value::Float(y)) => normal_float(x).eq(&normal_float(y)),
            (Value::Text(x), Value::Text(y)) => x.eq(y),
            (Value::Bool(x), Value::Bool(y)) => *x == *y,
            (Value::Null, Value::Null) => true,
            _ => false,
        }
    }

    /// Whether this value may be stored in a column of type `t`.
    pub fn fits_type(&self, t: ColumnType) -> (r: bool)
        ensures
            r == fits(*self, t),
    {
        match self {
            Value::Integer(_) => t == ColumnType::Integer,
            Value::Float(_) => t == ColumnType::Float,
            Value::Text(_) => t == ColumnType::Text,
            Value::Bool(_) => t == ColumnType::Bool,
            Value::Null => true,
        }
    }

    /// The text of this value in a query result.
    pub fn render(&self) -> (r: String)
        ensures
            r@ == value_text(*self),
    {
        match self {
            Value::Integer(i) => int_to_text(*i as i128),
            Value::Float(s) => normal_float(s),
            Value::Text(s) => s.clone(),
            Value::Bool(b) => {
                if *b {
                    proof { reveal_strlit("true"); }
                    String::from_str("true")
                } else {
                    proof { reveal_strlit("false"); }
                    String::from_str("false")
                }
            },
            Value::Null => {
                proof { reveal_strlit("NULL"); }
                String::from_str("NULL")
            },
        }
    }
}

} // verus!
