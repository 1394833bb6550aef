use vstd::prelude::*;
use crate::table::Table;
use crate::database::Database;
use crate::statement::{SqlError, Statement, TableRef};
use crate::exec::{create_table, created, delete_from, delete_target, deleted, insert_into, inserted, update_table, updated};
use crate::select::{select, selected};

verus! {

/// What one statement does: `old` and `new` are the tables before and after,
/// `r` the message or the refusal.
pub open spec fn executes(old: Seq<Table>, new: Seq<Table>, stmt: Statement, r: Result<String, SqlError>) -> bool {
    match stmt {
        Statement::CreateTable { name, columns } => created(old, new, name, columns@, r),
        Statement::Insert { table, values } => inserted(old, new, table, values, r),
        Statement::Select { from, projection } => new == old && match selected(old, from@, projection@) {
            Ok(s) => r is Ok && r->Ok_0@ == s,
            Err(e) => r == Err::<String, SqlError>(e),
        },
        Statement::Update { table, assignments, selection } => match table {
            TableRef::Other => r == Err::<String, SqlError>(SqlError::UnsupportedTableReference) && new == old,
            TableRef::Named(name) => updated(old, new, name, assignments@, selection, r),
        },
        Statement::Delete { from, tables, selection } => match delete_target(from@, tables@) {
            Err(e) => r == Err::<String, SqlError>(e) && new == old,
            Ok(name) => deleted(old, new, name, selection, r),
        },
        Statement::Other => r == Err::<String, SqlError>(SqlError::UnsupportedStatement) && new == old,
    }
}

/// Applies one parsed statement to the store. Every refusal is checked before
/// anything changes, except that INSERT keeps the rows that preceded a refused one.
pub fn process_command(db: &mut Database, stmt: &Statement) -> (r: Result<String, SqlError>)
    requires
        old(db).wf(),
    ensures
        final(db).wf(),
        executes(old(db).tables@, final(db).tables@, *stmt, r),
{
    match stmt {
        Statement::CreateTable { name, columns } => create_table(db, name, columns),
        Statement::Insert { table, values } => insert_into(db, table, values),
        Statement::Select { from, projection } => select(db, from, projection),
        Statement::Update { table, assignments, selection } => update_table(db, table, assignments, selection),
        Statement::Delete { from, tables, selection } => delete_from(db, from, tables, selection),
        Statement::Other => Err(SqlError::UnsupportedStatement),
    }
}

} // verus!
