use vstd::prelude::*;
use crate::value::{ColumnType, Value, int_text, int_to_text};
use crate::row::{field, entry_view};
use crate::table::{Table, TableView, has_id, without};
use crate::database::{Database, has_table, index_of, table_replaced};
use crate::statement::{Assignment, ColumnSpec, Expr, SqlError, SqlType, TableRef};
use crate::literal::{id_numeral, id_numeral_of, numeral_id, numeral_id_of, update_value, update_value_of};
use crate::insert::{insert_all, insert_row};

verus! {

pub open spec fn column_type(t: SqlType) -> Option<ColumnType> {
    match t {
        SqlType::Int => Some(ColumnType::Integer),
        SqlType::Float => Some(ColumnType::Float),
        SqlType::Text => Some(ColumnType::Text),
        SqlType::Boolean => Some(ColumnType::Bool),
        SqlType::Other(_) => None,
    }
}

/// The schema that column definitions declare, or the first unsupported type.
pub open spec fn column_types(cols: Seq<ColumnSpec>) -> Result<Seq<(Seq<char>, ColumnType)>, SqlError>
    decreases cols.len(),
{
    if cols.len() == 0 {
        Ok(Seq::empty())
    } else {
        match column_types(cols.drop_last()) {
            Err(e) => Err(e),
            Ok(s) => match column_type(cols.last().data_type) {
                Some(t) => Ok(s.push((cols.last().name@, t))),
                None => Err(SqlError::UnsupportedType(cols.last().data_type->Other_0)),
            },
        }
    }
}

/// The names of the columns flagged UNIQUE, in declaration order.
pub open spec fn unique_names(cols: Seq<ColumnSpec>) -> Seq<Seq<char>>
    decreases cols.len(),
{
    if cols.len() == 0 {
        Seq::empty()
    } else if cols.last().unique {
        unique_names(cols.drop_last()).push(cols.last().name@)
    } else {
        unique_names(cols.drop_last())
    }
}

/// The table that CREATE TABLE makes.
pub open spec fn new_table(name: Seq<char>, schema: Seq<(Seq<char>, ColumnType)>, cols: Seq<ColumnSpec>) -> TableView {
    TableView { name, columns: schema, unique_columns: unique_names(cols), rows: Seq::empty(), last_id: 0 }
}

/// The (column, value) pairs of UPDATE's assignments, or the first refusal.
pub open spec fn assigned(a: Seq<Assignment>) -> Result<Seq<(String, Value)>, SqlError>
    decreases a.len(),
{
    if a.len() == 0 {
        Ok(Seq::empty())
    } else {
        match assigned(a.drop_last()) {
            Err(e) => Err(e),
            Ok(s) => match update_value(a.last().value) {
                Err(e) => Err(e),
                Ok(v) => Ok(s.push((a.last().column, v))),
            },
        }
    }
}

/// The table that DELETE names: the standard form first, then the table list.
pub open spec fn delete_target(from: Seq<TableRef>, tables: Seq<String>) -> Result<String, SqlError> {
    if from.len() > 0 {
        match from[0] {
            TableRef::Named(n) => Ok(n),
            TableRef::Other => Err(SqlError::UnsupportedTableReference),
        }
    } else if tables.len() > 0 {
        Ok(tables[0])
    } else {
        Err(SqlError::NoTableSpecified)
    }
}

pub open spec fn text_of(r: Result<String, SqlError>) -> Seq<char> {
    r->Ok_0@
}

proof fn lemma_types_err(cols: Seq<ColumnSpec>, j: int)
    requires
        0 <= j <= cols.len(),
        column_types(cols.take(j)) is Err,
    ensures
        column_types(cols) == column_types(cols.take(j)),
    decreases cols.len(),
{
    if j < cols.len() {
        assert(cols.drop_last().take(j) =~= cols.take(j));
        lemma_types_err(cols.drop_last(), j);
    } else {
        assert(cols.take(j) =~= cols);
    }
}

proof fn lemma_assigned_err(a: Seq<Assignment>, j: int)
    requires
        0 <= j <= a.len(),
        assigned(a.take(j)) is Err,
    ensures
        assigned(a) == assigned(a.take(j)),
    decreases a.len(),
{
    if j < a.len() {
        assert(a.drop_last().take(j) =~= a.take(j));
        lemma_assigned_err(a.drop_last(), j);
    } else {
        assert(a.take(j) =~= a);
    }
}

proof fn lemma_insert_all_err(
    cols: Seq<(String, ColumnType)>,
    uniq: Seq<String>,
    t: TableView,
    rows: Seq<Seq<Expr>>,
    j: int,
)
    requires
        0 <= j <= rows.len(),
        insert_all(cols, uniq, t, rows.take(j)).1 is Err,
    ensures
        insert_all(cols, uniq, t, rows) == insert_all(cols, uniq, t, rows.take(j)),
    decreases rows.len(),
{
    if j < rows.len() {
        assert(rows.drop_last().take(j) =~= rows.take(j));
        lemma_insert_all_err(cols, uniq, t, rows.drop_last(), j);
    } else {
        assert(rows.take(j) =~= rows);
    }
}

/// The outcome of CREATE TABLE.
pub open spec fn created(old: Seq<Table>, new: Seq<Table>, name: String, cols: Seq<ColumnSpec>, r: Result<String, SqlError>) -> bool {
    if has_table(old, name@) {
        r == Err::<String, SqlError>(SqlError::TableExists(name)) && new == old
    } else {
        match column_types(cols) {
            Err(e) => r == Err::<String, SqlError>(e) && new == old,
            Ok(schema) => {
                &&& r is Ok
                &&& text_of(r) == "Table '"@ + name@ + "' created"@
                &&& new.len() == old.len() + 1
                &&& new.drop_last() == old
                &&& new.last()@ == new_table(name@, schema, cols)
            },
        }
    }
}

/// The outcome of INSERT into the table called `name`.
pub open spec fn inserted(old: Seq<Table>, new: Seq<Table>, name: String, values: Option<Vec<Vec<Expr>>>, r: Result<String, SqlError>) -> bool {
    if !has_table(old, name@) {
        r == Err::<String, SqlError>(SqlError::TableNotFound(name)) && new == old
    } else if values is None {
        r == Err::<String, SqlError>(SqlError::UnsupportedStatement) && new == old
    } else {
        let i = index_of(old, name@);
        let t = old[i];
        let (tv, res) = insert_all(t.columns@, t.unique_columns@, t@, rows_of(values->Some_0@));
        &&& table_replaced(old, new, i, tv)
        &&& match res {
            Ok(n) => r is Ok && text_of(r) == "Inserted "@ + int_text(n as int) + " rows"@,
            Err(e) => r == Err::<String, SqlError>(e),
        }
    }
}

/// CREATE TABLE: adds an empty table with the declared schema.
pub fn create_table(db: &mut Database, name: &String, cols: &Vec<ColumnSpec>) -> (r: Result<String, SqlError>)
    requires
        old(db).wf(),
    ensures
        final(db).wf(),
        created(old(db).tables@, final(db).tables@, *name, cols@, r),
{
    if db.find_table(name).is_some() {
        return Err(SqlError::TableExists(name.clone()));
    }
    let mut table = Table::new(name.clone());
    let mut j: usize = 0;
    assert(cols@.take(0) =~= Seq::<ColumnSpec>::empty());
    assert(table@.columns =~= Seq::<(Seq<char>, ColumnType)>::empty());
    assert(table@.unique_columns =~= Seq::<Seq<char>>::empty());
    while j < cols.len()
        invariant
            j <= cols.len(),
            column_types(cols@.take(j as int)) == Ok::<Seq<(Seq<char>, ColumnType)>, SqlError>(table@.columns),
            table@.unique_columns == unique_names(cols@.take(j as int)),
            table@.name == name@,
            table@.rows.len() == 0,
            table@.last_id == 0,
            db.tables@ == old(db).tables@,
            db.wf(),
            !has_table(db.tables@, name@),
        decreases cols.len() - j,
    {
        let c = &cols[j];
        assert(cols@.take(j + 1).drop_last() =~= cols@.take(j as int));
        let t = match &c.data_type {
            SqlType::Int => ColumnType::Integer,
            SqlType::Float => ColumnType::Float,
            SqlType::Text => ColumnType::Text,
            SqlType::Boolean => ColumnType::Bool,
            SqlType::Other(s) => {
                proof { lemma_types_err(cols@, j + 1); }
                return Err(SqlError::UnsupportedType(s.clone()));
            },
        };
        let ghost cs = table@.columns;
        let ghost us = table@.unique_columns;
        table.columns.push((c.name.clone(), t));
        assert(table@.columns =~= cs.push((c.name@, t)));
        if c.unique {
            table.unique_columns.push(c.name.clone());
            assert(table@.unique_columns =~= us.push(c.name@));
        }
        j = j + 1;
    }
    assert(cols@.take(j as int) =~= cols@);
    assert(table@.rows =~= Seq::<crate::row::RowView>::empty());
    let mut msg = String::from_str("Table '");
    msg.append(name.as_str());
    msg.append("' created");
    let ghost ts = db.tables@;
    db.tables.push(table);
    assert(db.tables@.drop_last() =~= ts);
    Ok(msg)
}

pub open spec fn rows_of(values: Seq<Vec<Expr>>) -> Seq<Seq<Expr>> {
    values.map_values(|v: Vec<Expr>| v@)
}

/// Inserts the VALUES rows in order, stopping at the first refused row.
pub fn insert_rows(t: &mut Table, values: &Vec<Vec<Expr>>) -> (r: Result<usize, SqlError>)
    requires
        old(t)@.wf(),
    ensures
        final(t)@.wf(),
        final(t).name == old(t).name,
        final(t).columns == old(t).columns,
        final(t).unique_columns == old(t).unique_columns,
        ({
            let (tv, res) = insert_all(old(t).columns@, old(t).unique_columns@, old(t)@, rows_of(values@));
            &&& final(t)@ == tv
            &&& match res {
                Ok(n) => r is Ok && r->Ok_0 as nat == n,
                Err(e) => r == Err::<usize, SqlError>(e),
            }
        }),
{
    let ghost cols = t.columns@;
    let ghost uniq = t.unique_columns@;
    let ghost t0 = t@;
    let ghost rs = rows_of(values@);
    let mut k: usize = 0;
    assert(rs.take(0) =~= Seq::<Seq<Expr>>::empty());
    while k < values.len()
        invariant
            k <= values.len(),
            rs == rows_of(values@),
            t0 == old(t)@,
            cols == old(t).columns@,
            uniq == old(t).unique_columns@,
            t@.wf(),
            t.name == old(t).name,
            t.columns@ == cols,
            t.columns == old(t).columns,
            t.unique_columns == old(t).unique_columns,
            t.unique_columns@ == uniq,
            insert_all(cols, uniq, t0, rs.take(k as int)) == (t@, Ok::<nat, SqlError>(k as nat)),
        decreases values.len() - k,
    {
        assert(rs.take(k + 1).drop_last() =~= rs.take(k as int));
        assert(rs.take(k + 1).last() == values@[k as int]@);
        let ghost before = t@;
        match insert_row(t, &values[k]) {
            Ok(()) => {},
            Err(e) => {
                assert(insert_all(cols, uniq, t0, rs.take(k + 1)) == (t@, Err::<nat, SqlError>(e)));
                proof { lemma_insert_all_err(cols, uniq, t0, rs, k + 1); }
                return Err(e);
            },
        }
        k = k + 1;
    }
    assert(rs.take(k as int) =~= rs);
    Ok(k)
}

/// INSERT: adds the VALUES rows to the named table, in order.
pub fn insert_into(db: &mut Database, name: &String, values: &Option<Vec<Vec<Expr>>>) -> (r: Result<String, SqlError>)
    requires
        old(db).wf(),
    ensures
        final(db).wf(),
        inserted(old(db).tables@, final(db).tables@, *name, *values, r),
{
    let i = match db.find_table(name) {
        Some(i) => i,
        None => return Err(SqlError::TableNotFound(name.clone())),
    };
    let rows = match values {
        Some(rows) => rows,
        None => return Err(SqlError::UnsupportedStatement),
    };
    let ghost ts = db.tables@;
    let mut t = db.tables.remove(i);
    assert(ts[i as int]@.wf());
    let res = insert_rows(&mut t, rows);
    db.tables.insert(i, t);
    assert(db.tables@ =~= ts.update(i as int, t));
    assert forall|a: int, b: int| 0 <= a < b < db.tables@.len() implies db.tables@[a].name@ != db.tables@[b].name@ by {
        assert(ts[a].name@ != ts[b].name@);
    }
    match res {
        Ok(n) => {
            let mut msg = String::from_str("Inserted ");
            let count = int_to_text(n as i128);
            msg.append(count.as_str());
            msg.append(" rows");
            Ok(msg)
        },
        Err(e) => Err(e),
    }
}

/// The table at `i` once the row with id `id` is removed.
pub open spec fn row_deleted(old: Seq<Table>, new: Seq<Table>, i: int, id: u32) -> bool {
    let t = old[i]@;
    table_replaced(old, new, i, TableView { rows: without(t.rows, id), ..t })
}

/// Whether the numeral `n` names the id of a row of table `t`.
pub open spec fn names_row(t: TableView, n: String) -> bool {
    numeral_id(n@) is Some && has_id(t.rows, numeral_id(n@)->Some_0)
}

/// The outcome of DELETE on the table called `name`.
pub open spec fn deleted(old: Seq<Table>, new: Seq<Table>, name: String, selection: Option<Expr>, r: Result<String, SqlError>) -> bool {
    if !has_table(old, name@) {
        r == Err::<String, SqlError>(SqlError::TableNotFound(name)) && new == old
    } else if selection is None {
        r == Err::<String, SqlError>(SqlError::MissingWhereClause) && new == old
    } else if id_numeral(selection->Some_0) is None {
        r == Err::<String, SqlError>(SqlError::UnsupportedPredicate) && new == old
    } else {
        let n = id_numeral(selection->Some_0)->Some_0;
        let i = index_of(old, name@);
        if names_row(old[i]@, n) {
            let id = numeral_id(n@)->Some_0;
            &&& r is Ok
            &&& text_of(r) == "Deleted row with id "@ + int_text(id as int)
            &&& row_deleted(old, new, i, id)
        } else {
            r == Err::<String, SqlError>(SqlError::RowNotFound(n)) && new == old
        }
    }
}

/// DELETE: removes the row with the id of the `WHERE id = N` predicate.
pub fn delete_from(db: &mut Database, from: &Vec<TableRef>, tables: &Vec<String>, selection: &Option<Expr>) -> (r: Result<String, SqlError>)
    requires
        old(db).wf(),
    ensures
        final(db).wf(),
        match delete_target(from@, tables@) {
            Err(e) => r == Err::<String, SqlError>(e) && final(db).tables@ == old(db).tables@,
            Ok(name) => deleted(old(db).tables@, final(db).tables@, name, *selection, r),
        },
{
    let name = if from.len() > 0 {
        match &from[0] {
            TableRef::Named(n) => n.clone(),
            TableRef::Other => return Err(SqlError::UnsupportedTableReference),
        }
    } else if tables.len() > 0 {
        tables[0].clone()
    } else {
        return Err(SqlError::NoTableSpecified);
    };
    let i = match db.find_table(&name) {
        Some(i) => i,
        None => return Err(SqlError::TableNotFound(name)),
    };
    let n = match selection {
        None => return Err(SqlError::MissingWhereClause),
        Some(e) => match id_numeral_of(e) {
            Some(n) => n,
            None => return Err(SqlError::UnsupportedPredicate),
        },
    };
    let id = match numeral_id_of(&n) {
        Some(id) => id,
        None => return Err(SqlError::RowNotFound(n)),
    };
    if !db.tables[i].contains_id(id) {
        return Err(SqlError::RowNotFound(n));
    }
    let ghost ts = db.tables@;
    let mut t = db.tables.remove(i);
    assert(ts[i as int]@.wf());
    t.remove_row(id);
    db.tables.insert(i, t);
    assert(db.tables@ =~= ts.update(i as int, t));
    assert forall|a: int, b: int| 0 <= a < b < db.tables@.len() implies db.tables@[a].name@ != db.tables@[b].name@ by {
        assert(ts[a].name@ != ts[b].name@);
    }
    let mut msg = String::from_str("Deleted row with id ");
    let n = int_to_text(id as i128);
    msg.append(n.as_str());
    Ok(msg)
}

/// The table at `i` once the row with id `id` has `pairs` assigned, in order.
pub open spec fn row_updated(old: Seq<Table>, new: Seq<Table>, i: int, id: u32, pairs: Seq<(String, Value)>) -> bool {
    let t = old[i]@;
    let u = new[i]@;
    &&& new.len() == old.len()
    &&& forall|j: int| 0 <= j < old.len() && j != i ==> new[j] == old[j]
    &&& new[i].name == old[i].name
    &&& new[i].columns == old[i].columns
    &&& new[i].unique_columns == old[i].unique_columns
    &&& u.last_id == t.last_id
    &&& u.rows.len() == t.rows.len()
    &&& forall|q: int| 0 <= q < t.rows.len() ==> (#[trigger] u.rows[q]).id == t.rows[q].id
    &&& forall|q: int| 0 <= q < t.rows.len() && t.rows[q].id != id ==> #[trigger] u.rows[q] == t.rows[q]
    &&& forall|q: int, k: Seq<char>| 0 <= q < t.rows.len() && t.rows[q].id == id ==>
            #[trigger] field(u.rows[q].data, k) == field(t.rows[q].data + pairs.map_values(|p: (String, Value)| entry_view(p)), k)
}

/// The outcome of UPDATE on the table called `name`.
pub open spec fn updated(
    old: Seq<Table>,
    new: Seq<Table>,
    name: String,
    assignments: Seq<Assignment>,
    selection: Option<Expr>,
    r: Result<String, SqlError>,
) -> bool {
    if !has_table(old, name@) {
        r == Err::<String, SqlError>(SqlError::TableNotFound(name)) && new == old
    } else if selection is None || id_numeral(selection->Some_0) is None {
        r == Err::<String, SqlError>(SqlError::UnsupportedPredicate) && new == old
    } else {
        let i = index_of(old, name@);
        let n = id_numeral(selection->Some_0)->Some_0;
        if !names_row(old[i]@, n) {
            r == Err::<String, SqlError>(SqlError::RowNotFound(n)) && new == old
        } else {
            let id = numeral_id(n@)->Some_0;
            match assigned(assignments) {
                Err(e) => r == Err::<String, SqlError>(e) && new == old,
                Ok(pairs) => {
                    &&& r is Ok
                    &&& text_of(r) == "Updated row "@ + int_text(id as int)
                    &&& row_updated(old, new, i, id, pairs)
                },
            }
        }
    }
}

/// The (column, value) pairs of the assignments, checked before anything changes.
fn assignment_values(a: &Vec<Assignment>) -> (r: Result<Vec<(String, Value)>, SqlError>)
    ensures
        match assigned(a@) {
            Ok(pairs) => r is Ok && r->Ok_0@ == pairs,
            Err(e) => r == Err::<Vec<(String, Value)>, SqlError>(e),
        },
{
    let mut out: Vec<(String, Value)> = Vec::new();
    let mut k: usize = 0;
    assert(a@.take(0) =~= Seq::<Assignment>::empty());
    while k < a.len()
        invariant
            k <= a.len(),
            assigned(a@.take(k as int)) == Ok::<Seq<(String, Value)>, SqlError>(out@),
        decreases a.len() - k,
    {
        assert(a@.take(k + 1).drop_last() =~= a@.take(k as int));
        let v = match update_value_of(&a[k].value) {
            Ok(v) => v,
            Err(e) => {
                proof { lemma_assigned_err(a@, k + 1); }
                return Err(e);
            },
        };
        out.push((a[k].column.clone(), v));
        k = k + 1;
    }
    assert(a@.take(k as int) =~= a@);
    Ok(out)
}

/// UPDATE: assigns columns of the row with the id of the `WHERE id = N`
/// predicate. Values are not checked against the schema or for uniqueness:
/// only INSERT enforces those.
pub fn update_table(db: &mut Database, table: &TableRef, assignments: &Vec<Assignment>, selection: &Option<Expr>) -> (r: Result<String, SqlError>)
    requires
        old(db).wf(),
    ensures
        final(db).wf(),
        match table {
            TableRef::Other => r == Err::<String, SqlError>(SqlError::UnsupportedTableReference) && final(db).tables@ == old(db).tables@,
            TableRef::Named(name) => updated(old(db).tables@, final(db).tables@, *name, assignments@, *selection, r),
        },
{
    let name = match table {
        TableRef::Named(n) => n,
        TableRef::Other => return Err(SqlError::UnsupportedTableReference),
    };
    let i = match db.find_table(name) {
        Some(i) => i,
        None => return Err(SqlError::TableNotFound(name.clone())),
    };
    let n = match selection {
        None => return Err(SqlError::UnsupportedPredicate),
        Some(e) => match id_numeral_of(e) {
            Some(n) => n,
            None => return Err(SqlError::UnsupportedPredicate),
        },
    };
    let id = match numeral_id_of(&n) {
        Some(id) => id,
        None => return Err(SqlError::RowNotFound(n)),
    };
    if !db.tables[i].contains_id(id) {
        return Err(SqlError::RowNotFound(n));
    }
    let pairs = match assignment_values(assignments) {
        Ok(p) => p,
        Err(e) => return Err(e),
    };
    let ghost ts = db.tables@;
    let mut t = db.tables.remove(i);
    assert(ts[i as int]@.wf());
    t.update_row(id, &pairs);
    db.tables.insert(i, t);
    assert(db.tables@ =~= ts.update(i as int, t));
    assert forall|a: int, b: int| 0 <= a < b < db.tables@.len() implies db.tables@[a].name@ != db.tables@[b].name@ by {
        assert(ts[a].name@ != ts[b].name@);
    }
    let mut msg = String::from_str("Updated row ");
    let n = int_to_text(id as i128);
    msg.append(n.as_str());
    Ok(msg)
}

} // verus!
