use vstd::prelude::*;
use crate::value::Value;
use crate::statement::{Expr, Literal, SqlError};

verus! {

pub open spec fn is_digit(c: char) -> bool {
    '0' <= c && c <= '9'
}

pub open spec fn all_digits(s: Seq<char>) -> bool {
    forall|i: int| 0 <= i < s.len() ==> is_digit(s[i])
}

/// The number that a string of decimal digits denotes.
pub open spec fn dec(s: Seq<char>) -> nat
    decreases s.len(),
{
    if s.len() == 0 {
        0
    } else {
        dec(s.drop_last()) * 10 + (s.last() as nat - '0' as nat) as nat
    }
}

/// The value of a non-empty string of decimal digits that does not exceed `bound`.
pub open spec fn decimal(s: Seq<char>, bound: nat) -> Option<nat> {
    if s.len() > 0 && all_digits(s) && dec(s) <= bound {
        Some(dec(s))
    } else {
        None
    }
}

/// The value of a numeral without a decimal point: its digits as an `i64`, or
/// 0 where it is not such a number.
pub open spec fn integer_of(n: Seq<char>) -> i64 {
    match decimal(n, i64::MAX as nat) {
        Some(v) => v as i64,
        None => 0,
    }
}

/// A numeral with a decimal point is a Float, any other an Integer.
pub open spec fn number_value(n: String) -> Value {
    if n@.contains('.') {
        Value::Float(n)
    } else {
        Value::Integer(integer_of(n@))
    }
}

pub open spec fn literal_value(l: Literal) -> Option<Value> {
    match l {
        Literal::Number(n) => Some(number_value(n)),
        Literal::Text(s) => Some(Value::Text(s)),
        Literal::Boolean(b) => Some(Value::Bool(b)),
        Literal::Null => Some(Value::Null),
        Literal::Other => None,
    }
}

/// The value that INSERT takes from an expression.
pub open spec fn insert_value(e: Expr) -> Result<Value, SqlError> {
    match e {
        Expr::Literal(l) => match literal_value(l) {
            Some(v) => Ok(v),
            None => Err(SqlError::UnsupportedExpression),
        },
        _ => Err(SqlError::UnsupportedExpression),
    }
}

/// The value that UPDATE takes from an expression: a literal of another kind
/// becomes Null.
pub open spec fn update_value(e: Expr) -> Result<Value, SqlError> {
    match e {
        Expr::Literal(l) => match literal_value(l) {
            Some(v) => Ok(v),
            None => Ok(Value::Null),
        },
        _ => Err(SqlError::UnsupportedExpression),
    }
}

/// `id`, in any letter case.
pub open spec fn is_id_name(s: Seq<char>) -> bool {
    &&& s.len() == 2
    &&& (s[0] == 'i' || s[0] == 'I')
    &&& (s[1] == 'd' || s[1] == 'D')
}

/// The numeral of a `WHERE id = N` predicate, `None` for any other shape.
pub open spec fn id_numeral(e: Expr) -> Option<String> {
    match e {
        Expr::Equals(l, r) => match *l {
            Expr::Identifier(c) => match *r {
                Expr::Literal(Literal::Number(n)) => if is_id_name(c@) {
                    Some(n)
                } else {
                    None
                },
                _ => None,
            },
            _ => None,
        },
        _ => None,
    }
}

/// The row id that a numeral names; a numeral that is no 32-bit number
/// names no row id.
pub open spec fn numeral_id(n: Seq<char>) -> Option<u32> {
    match decimal(n, u32::MAX as nat) {
        Some(v) => Some(v as u32),
        None => None,
    }
}

/// The column that a join condition operand names: the last segment of a
/// qualified name.
pub open spec fn column_ref(e: Expr) -> Option<String> {
    match e {
        Expr::Identifier(s) => Some(s),
        Expr::CompoundIdentifier(v) => if v@.len() > 0 {
            Some(v@.last())
        } else {
            None
        },
        _ => None,
    }
}

proof fn lemma_dec_prefix(s: Seq<char>, j: int)
    requires
        0 <= j <= s.len(),
        all_digits(s),
    ensures
        dec(s.take(j)) <= dec(s),
    decreases s.len(),
{
    if j < s.len() {
        assert(s.drop_last().take(j) =~= s.take(j));
        lemma_dec_prefix(s.drop_last(), j);
    } else {
        assert(s.take(j) =~= s);
    }
}

/// The value of `s` as decimal digits, if it is one that does not exceed `bound`.
pub fn parse_decimal(s: &String, bound: u64) -> (r: Option<u64>)
    ensures
        r == match decimal(s@, bound as nat) {
            Some(v) => Some(v as u64),
            None => None::<u64>,
        },
{
    let n = s.as_str().unicode_len();
    if n == 0 {
        return None;
    }
    let mut acc: u128 = 0;
    let mut i: usize = 0;
    while i < n
        invariant
            n == s@.len(),
            i <= n,
            all_digits(s@.take(i as int)),
            acc == dec(s@.take(i as int)),
            acc <= bound,
        decreases n - i,
    {
        let c = s.as_str().get_char(i);
        assert(s@.take(i + 1).drop_last() =~= s@.take(i as int));
        if !('0' <= c && c <= '9') {
            return None;
        }
        acc = acc * 10 + (c as u128 - '0' as u128);
        i = i + 1;
        if acc > bound as u128 {
            proof {
                if all_digits(s@) {
                    lemma_dec_prefix(s@, i as int);
                }
            }
            return None;
        }
    }
    assert(s@.take(n as int) =~= s@);
    Some(acc as u64)
}

/// Whether `s` holds a '.'.
pub fn has_point(s: &String) -> (r: bool)
    ensures
        r == s@.contains('.'),
{
    let n = s.as_str().unicode_len();
    let mut i: usize = 0;
    while i < n
        invariant
            n == s@.len(),
            i <= n,
            forall|j: int| 0 <= j < i ==> s@[j] != '.',
        decreases n - i,
    {
        if s.as_str().get_char(i) == '.' {
            return true;
        }
        i = i + 1;
    }
    false
}

/// The value of a literal, `None` for a kind the store has no value for.
pub fn value_of_literal(l: &Literal) -> (r: Option<Value>)
    ensures
        r == literal_value(*l),
{
    match l {
        Literal::Number(n) => {
            if has_point(n) {
                Some(Value::Float(n.clone()))
            } else {
                let v = match parse_decimal(n, 0x7fff_ffff_ffff_ffff) {
                    Some(v) => v as i64,
                    None => 0,
                };
                Some(Value::Integer(v))
            }
        },
        Literal::Text(s) => Some(Value::Text(s.clone())),
        Literal::Boolean(b) => Some(Value::Bool(*b)),
        Literal::Null => Some(Value::Null),
        Literal::Other => None,
    }
}

/// The value that INSERT stores for an expression.
pub fn insert_value_of(e: &Expr) -> (r: Result<Value, SqlError>)
    ensures
        r == insert_value(*e),
{
    match e {
        Expr::Literal(l) => match value_of_literal(l) {
            Some(v) => Ok(v),
            None => Err(SqlError::UnsupportedExpression),
        },
        _ => Err(SqlError::UnsupportedExpression),
    }
}

/// The value that UPDATE stores for an expression.
pub fn update_value_of(e: &Expr) -> (r: Result<Value, SqlError>)
    ensures
        r == update_value(*e),
{
    match e {
        Expr::Literal(l) => match value_of_literal(l) {
            Some(v) => Ok(v),
            None => Ok(Value::Null),
        },
        _ => Err(SqlError::UnsupportedExpression),
    }
}

pub fn is_id_column(s: &String) -> (r: bool)
    ensures
        r == is_id_name(s@),
{
    if s.as_str().unicode_len() != 2 {
        return false;
    }
    let a = s.as_str().get_char(0);
    let b = s.as_str().get_char(1);
    (a == 'i' || a == 'I') && (b == 'd' || b == 'D')
}

/// The numeral of a `WHERE id = N` predicate, `None` for any other shape.
pub fn id_numeral_of(e: &Expr) -> (r: Option<String>)
    ensures
        r == id_numeral(*e),
{
    match e {
        Expr::Equals(l, r) => match &**l {
            Expr::Identifier(c) => match &**r {
                Expr::Literal(Literal::Number(n)) => {
                    if is_id_column(c) {
                        Some(n.clone())
                    } else {
                        None
                    }
                },
                _ => None,
            },
            _ => None,
        },
        _ => None,
    }
}

/// The row id that a numeral names, if it is a 32-bit number.
pub fn numeral_id_of(n: &String) -> (r: Option<u32>)
    ensures
        r == numeral_id(n@),
{
    match parse_decimal(n, 0xffff_ffff) {
        Some(v) => Some(v as u32),
        None => None,
    }
}

/// The column named by a join condition operand.
pub fn column_ref_of(e: &Expr) -> (r: Option<String>)
    ensures
        r == column_ref(*e),
{
    match e {
        Expr::Identifier(s) => Some(s.clone()),
        Expr::CompoundIdentifier(v) => {
            if v.len() > 0 {
                Some(v[v.len() - 1].clone())
            } else {
                None
            }
        },
        _ => None,
    }
}

} // verus!
