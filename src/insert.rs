use vstd::prelude::*;
use crate::value::{ColumnType, Value, fits, joinable};
use crate::row::{Row, RowView, field, cell};
use crate::table::{Table, TableView, upserted};
use crate::statement::{Expr, SqlError};
use crate::literal::{insert_value, insert_value_of};

verus! {

/// The entries of a new row: the `j`-th value goes under the `j`-th column,
/// checked against that column's type.
pub open spec fn row_entries(cols: Seq<(String, ColumnType)>, exprs: Seq<Expr>) -> Result<
    Seq<(Seq<char>, Value)>,
    SqlError,
>
    decreases exprs.len(),
{
    if exprs.len() == 0 {
        Ok(Seq::empty())
    } else {
        match row_entries(cols, exprs.drop_last()) {
            Err(e) => Err(e),
            Ok(d) => {
                let j = exprs.len() - 1;
                if j >= cols.len() {
                    Err(SqlError::ArityError)
                } else {
                    match insert_value(exprs.last()) {
                        Err(e) => Err(e),
                        Ok(v) => if fits(v, cols[j].1) {
                            Ok(d.push((cols[j].0@, v)))
                        } else {
                            Err(SqlError::TypeMismatch { column: cols[j].0, expected: cols[j].1, actual: v })
                        },
                    }
                }
            },
        }
    }
}

/// Whether the new entries `d` give column `u` a non-Null value that an existing row holds.
pub open spec fn clashes(u: Seq<char>, d: Seq<(Seq<char>, Value)>, rows: Seq<RowView>) -> bool {
    match field(d, u) {
        Some(v) => exists|i: int| 0 <= i < rows.len() && joinable(v, #[trigger] cell(rows[i].data, u)),
        None => false,
    }
}

/// The violation for the first unique column, in declaration order, that clashes.
pub open spec fn first_clash(uniq: Seq<String>, d: Seq<(Seq<char>, Value)>, rows: Seq<RowView>) -> Option<SqlError>
    decreases uniq.len(),
{
    if uniq.len() == 0 {
        None
    } else if clashes(uniq[0]@, d, rows) {
        Some(SqlError::UniqueViolation { column: uniq[0], value: field(d, uniq[0]@)->Some_0 })
    } else {
        first_clash(uniq.drop_first(), d, rows)
    }
}

/// The id of a new row: an integer given under the column `id`, cut to 32
/// bits, or else the one after `last_id`.
pub open spec fn chosen_id(d: Seq<(Seq<char>, Value)>, last_id: u32) -> Option<u32> {
    match field(d, "id"@) {
        Some(Value::Integer(n)) => Some(n as u32),
        _ => if last_id < u32::MAX {
            Some((last_id + 1) as u32)
        } else {
            None
        },
    }
}

/// The table once one VALUES row is inserted, or why it is refused.
pub open spec fn insert_outcome(
    cols: Seq<(String, ColumnType)>,
    uniq: Seq<String>,
    t: TableView,
    exprs: Seq<Expr>,
) -> Result<TableView, SqlError> {
    match row_entries(cols, exprs) {
        Err(e) => Err(e),
        Ok(d) => match first_clash(uniq, d, t.rows) {
            Some(e) => Err(e),
            None => match chosen_id(d, t.last_id) {
                None => Err(SqlError::IdsExhausted),
                Some(id) => Ok(
                    TableView {
                        rows: upserted(t.rows, RowView { id, data: d }),
                        last_id: if id > t.last_id {
                            id
                        } else {
                            t.last_id
                        },
                        ..t
                    },
                ),
            },
        },
    }
}

/// The table once the VALUES rows are inserted in order, and the count
/// inserted or the first refusal. Rows before a refused one stay.
pub open spec fn insert_all(
    cols: Seq<(String, ColumnType)>,
    uniq: Seq<String>,
    t: TableView,
    rows: Seq<Seq<Expr>>,
) -> (TableView, Result<nat, SqlError>)
    decreases rows.len(),
{
    if rows.len() == 0 {
        (t, Ok(0))
    } else {
        let (t1, r1) = insert_all(cols, uniq, t, rows.drop_last());
        match r1 {
            Err(e) => (t1, Err(e)),
            Ok(n) => match insert_outcome(cols, uniq, t1, rows.last()) {
                Err(e) => (t1, Err(e)),
                Ok(t2) => (t2, Ok(n + 1)),
            },
        }
    }
}

proof fn lemma_entries_err(cols: Seq<(String, ColumnType)>, exprs: Seq<Expr>, j: int)
    requires
        0 <= j <= exprs.len(),
        row_entries(cols, exprs.take(j)) is Err,
    ensures
        row_entries(cols, exprs) == row_entries(cols, exprs.take(j)),
    decreases exprs.len(),
{
    if j < exprs.len() {
        assert(exprs.drop_last().take(j) =~= exprs.take(j));
        lemma_entries_err(cols, exprs.drop_last(), j);
    } else {
        assert(exprs.take(j) =~= exprs);
    }
}

/// Builds the entries of a new row from one VALUES row.
fn build_entries(cols: &Vec<(String, ColumnType)>, exprs: &Vec<Expr>) -> (r: Result<Row, SqlError>)
    ensures
        match row_entries(cols@, exprs@) {
            Ok(d) => r is Ok && r->Ok_0@.data == d,
            Err(e) => r == Err::<Row, SqlError>(e),
        },
{
    let mut row = Row::new(0);
    let mut j: usize = 0;
    assert(exprs@.take(0) =~= Seq::<Expr>::empty());
    assert(row@.data =~= Seq::<(Seq<char>, Value)>::empty());
    while j < exprs.len()
        invariant
            j <= exprs.len(),
            row_entries(cols@, exprs@.take(j as int)) == Ok::<Seq<(Seq<char>, Value)>, SqlError>(row@.data),
        decreases exprs.len() - j,
    {
        assert(exprs@.take(j + 1).drop_last() =~= exprs@.take(j as int));
        if j >= cols.len() {
            proof { lemma_entries_err(cols@, exprs@, j + 1); }
            return Err(SqlError::ArityError);
        }
        let v = match insert_value_of(&exprs[j]) {
            Ok(v) => v,
            Err(e) => {
                proof { lemma_entries_err(cols@, exprs@, j + 1); }
                return Err(e);
            },
        };
        if !v.fits_type(cols[j].1) {
            proof { lemma_entries_err(cols@, exprs@, j + 1); }
            return Err(SqlError::TypeMismatch { column: cols[j].0.clone(), expected: cols[j].1, actual: v });
        }
        let ghost before = row@.data;
        row.data.push((cols[j].0.clone(), v));
        assert(row@.data =~= before.push((cols@[j as int].0@, v)));
        j = j + 1;
    }
    assert(exprs@.take(j as int) =~= exprs@);
    Ok(row)
}

/// Whether column `u` of the new row clashes with an existing row.
fn column_clashes(t: &Table, u: &String, new_row: &Row) -> (r: Option<Value>)
    ensures
        clashes(u@, new_row@.data, t@.rows) ==> r == field(new_row@.data, u@),
        !clashes(u@, new_row@.data, t@.rows) ==> r is None,
{
    let nv = match new_row.lookup(u) {
        Some(v) => v,
        None => return None,
    };
    if nv.is_null() {
        return None;
    }
    let mut i: usize = 0;
    while i < t.data.len()
        invariant
            i <= t.data.len(),
            nv == field(new_row@.data, u@)->Some_0,
            nv !is Null,
            field(new_row@.data, u@) is Some,
            forall|k: int| 0 <= k < i ==> !joinable(nv, #[trigger] cell(t@.rows[k].data, u@)),
        decreases t.data.len() - i,
    {
        let ev = t.data[i].get(u);
        assert(t@.rows[i as int] == t.data@[i as int]@);
        if nv.same_as(&ev) {
            assert(joinable(nv, cell(t@.rows[i as int].data, u@)));
            return Some(nv);
        }
        i = i + 1;
    }
    None
}

/// The violation for the first clashing unique column, if any.
fn find_clash(t: &Table, new_row: &Row) -> (r: Option<SqlError>)
    ensures
        r == first_clash(t.unique_columns@, new_row@.data, t@.rows),
{
    let mut k: usize = 0;
    assert(t.unique_columns@.skip(0) =~= t.unique_columns@);
    while k < t.unique_columns.len()
        invariant
            k <= t.unique_columns.len(),
            first_clash(t.unique_columns@, new_row@.data, t@.rows) == first_clash(t.unique_columns@.skip(k as int), new_row@.data, t@.rows),
        decreases t.unique_columns.len() - k,
    {
        assert(t.unique_columns@.skip(k as int).drop_first() =~= t.unique_columns@.skip(k + 1));
        match column_clashes(t, &t.unique_columns[k], new_row) {
            Some(v) => {
                assert(t.unique_columns@.skip(k as int)[0] == t.unique_columns@[k as int]);
                return Some(SqlError::UniqueViolation { column: t.unique_columns[k].clone(), value: v });
            },
            None => {
                assert(t.unique_columns@.skip(k as int)[0] == t.unique_columns@[k as int]);
            },
        }
        k = k + 1;
    }
    None
}

/// Inserts one VALUES row. A refused row leaves the table as it was.
pub fn insert_row(t: &mut Table, exprs: &Vec<Expr>) -> (r: Result<(), SqlError>)
    requires
        old(t)@.wf(),
    ensures
        final(t)@.wf(),
        final(t).columns == old(t).columns,
        final(t).unique_columns == old(t).unique_columns,
        final(t).name == old(t).name,
        match insert_outcome(old(t).columns@, old(t).unique_columns@, old(t)@, exprs@) {
            Ok(tv) => r is Ok && final(t)@ == tv,
            Err(e) => r == Err::<(), SqlError>(e) && final(t)@ == old(t)@,
        },
{
    let mut row = match build_entries(&t.columns, exprs) {
        Ok(row) => row,
        Err(e) => return Err(e),
    };
    match find_clash(t, &row) {
        Some(e) => return Err(e),
        None => {},
    }
    let key = String::from_str("id");
    let id: u32 = match row.lookup(&key) {
        Some(Value::Integer(n)) => n as u32,
        _ => {
            if t.last_id < u32::MAX {
                t.last_id + 1
            } else {
                return Err(SqlError::IdsExhausted);
            }
        },
    };
    if id > t.last_id {
        t.last_id = id;
    }
    row.id = id;
    t.store_row(row);
    Ok(())
}

} // verus!
