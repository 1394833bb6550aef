//! An in-memory relational store driven by a small SQL subset: typed tables,
//! uniqueness, inner joins and id-keyed updates and deletes.
pub mod value;
pub mod decimal;
pub mod row;
pub mod table;
pub mod statement;
pub mod literal;
pub mod insert;
pub mod database;
pub mod exec;
pub mod select;
pub mod engine;
pub mod laws;
