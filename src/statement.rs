use vstd::prelude::*;
use crate::value::{ColumnType, Value};

verus! {

/// A column type as written in CREATE TABLE.
#[derive(Debug, Clone)]
pub enum SqlType {
    Int,
    Float,
    Text,
    Boolean,
    /// Any other type; carries its name as written.
    Other(String),
}

/// One column definition of CREATE TABLE.
#[derive(Debug, Clone)]
pub struct ColumnSpec {
    pub name: String,
    pub data_type: SqlType,
    pub unique: bool,
}

/// A literal of the statement text.
#[derive(Debug, Clone)]
pub enum Literal {
    /// A numeral, as written.
    Number(String),
    /// A single-quoted string.
    Text(String),
    Boolean(bool),
    Null,
    Other,
}

/// The expression shapes that the executor tells apart.
#[derive(Debug)]
pub enum Expr {
    Literal(Literal),
    Identifier(String),
    CompoundIdentifier(Vec<String>),
    /// `left = right`
    Equals(Box<Expr>, Box<Expr>),
    Other,
}

/// A table reference: a plain table name, or anything else.
#[derive(Debug, Clone)]
pub enum TableRef {
    Named(String),
    Other,
}

/// One item of a SELECT list.
#[derive(Debug, Clone)]
pub enum SelectItem {
    Wildcard,
    /// A bare column name.
    Column(String),
    Other,
}

/// How a join is constrained.
#[derive(Debug)]
pub enum JoinConstraint {
    /// `INNER JOIN ... ON condition`
    InnerOn(Expr),
    Other,
}

#[derive(Debug)]
pub struct Join {
    pub relation: TableRef,
    pub constraint: JoinConstraint,
}

/// One source of a SELECT with the joins attached to it.
#[derive(Debug)]
pub struct FromClause {
    pub relation: TableRef,
    pub joins: Vec<Join>,
}

/// `column = value` of UPDATE.
#[derive(Debug)]
pub struct Assignment {
    pub column: String,
    pub value: Expr,
}

/// One parsed statement.
#[derive(Debug)]
pub enum Statement {
    CreateTable { name: String, columns: Vec<ColumnSpec> },
    /// `values` is `None` where the source is not a VALUES list.
    Insert { table: String, values: Option<Vec<Vec<Expr>>> },
    Select { from: Vec<FromClause>, projection: Vec<SelectItem> },
    Update { table: TableRef, assignments: Vec<Assignment>, selection: Option<Expr> },
    /// `from` holds the standard `DELETE FROM t` form, `tables` the table-list form.
    Delete { from: Vec<TableRef>, tables: Vec<String>, selection: Option<Expr> },
    Other,
}

/// Why a statement was rejected.
#[derive(Debug, Clone)]
pub enum SqlError {
    TableExists(String),
    TableNotFound(String),
    UnsupportedType(String),
    ArityError,
    UnsupportedExpression,
    TypeMismatch { column: String, expected: ColumnType, actual: Value },
    UniqueViolation { column: String, value: Value },
    ColumnNotFound(String),
    UnsupportedJoin,
    UnsupportedProjection,
    UnsupportedPredicate,
    MissingWhereClause,
    NoTableSpecified,
    /// No row has the id that this numeral names.
    RowNotFound(String),
    UnsupportedStatement,
    /// A table reference that is not a plain name.
    UnsupportedTableReference,
    /// Every 32-bit row id has been handed out.
    IdsExhausted,
}

} // verus!
