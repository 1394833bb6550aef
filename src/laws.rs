use vstd::prelude::*;
use crate::value::{ColumnType, Value, fits, joinable};
use crate::row::{RowView, field, cell, entry_view};
use crate::table::{Table, TableView, upserted};
use crate::statement::{Expr, SqlError};
use crate::literal::insert_value;
use crate::insert::{row_entries, first_clash, clashes, chosen_id, insert_outcome};
use crate::select::{sep_join, plain_text, plain_header, plain_line, matches_for, cells_text};
use crate::value::value_text;
use crate::exec::{row_updated, deleted, names_row};
use crate::database::{has_table, index_of};
use crate::literal::id_numeral;

verus! {

/// Every value converts and fits the column it falls under.
pub open spec fn schema_matching(cols: Seq<(String, ColumnType)>, exprs: Seq<Expr>) -> bool {
    &&& exprs.len() <= cols.len()
    &&& forall|j: int| 0 <= j < exprs.len() ==> (#[trigger] insert_value(exprs[j])) is Ok
        && fits(insert_value(exprs[j])->Ok_0, cols[j].1)
}

/// The entries that schema-matching values make.
pub open spec fn typed_entries(cols: Seq<(String, ColumnType)>, exprs: Seq<Expr>) -> Seq<(Seq<char>, Value)> {
    Seq::new(exprs.len(), |j: int| (cols[j].0@, insert_value(exprs[j])->Ok_0))
}

proof fn lemma_matching_entries(cols: Seq<(String, ColumnType)>, exprs: Seq<Expr>)
    requires
        schema_matching(cols, exprs),
    ensures
        row_entries(cols, exprs) == Ok::<Seq<(Seq<char>, Value)>, SqlError>(typed_entries(cols, exprs)),
    decreases exprs.len(),
{
    if exprs.len() > 0 {
        let p = exprs.drop_last();
        assert forall|j: int| 0 <= j < p.len() implies (#[trigger] insert_value(p[j])) is Ok
            && fits(insert_value(p[j])->Ok_0, cols[j].1) by {
            assert(p[j] == exprs[j]);
        }
        lemma_matching_entries(cols, p);
        let j = exprs.len() - 1;
        assert(insert_value(exprs[j]) is Ok);
        assert(typed_entries(cols, exprs) =~= typed_entries(cols, p).push((cols[j].0@, insert_value(exprs.last())->Ok_0)));
    } else {
        assert(typed_entries(cols, exprs) =~= Seq::<(Seq<char>, Value)>::empty());
    }
}

proof fn lemma_field_distinct(d: Seq<(Seq<char>, Value)>, j: int)
    requires
        0 <= j < d.len(),
        forall|a: int, b: int| 0 <= a < b < d.len() ==> d[a].0 != d[b].0,
    ensures
        field(d, d[j].0) == Some(d[j].1),
    decreases d.len(),
{
    if j < d.len() - 1 {
        assert(d.last().0 != d[j].0);
        assert(d.drop_last()[j] == d[j]);
        lemma_field_distinct(d.drop_last(), j);
    }
}

proof fn lemma_no_clash_on_empty(uniq: Seq<String>, d: Seq<(Seq<char>, Value)>, rows: Seq<RowView>)
    requires
        rows.len() == 0,
    ensures
        first_clash(uniq, d, rows) is None,
    decreases uniq.len(),
{
    if uniq.len() > 0 {
        lemma_no_clash_on_empty(uniq.drop_first(), d, rows);
    }
}

/// Creating a table and inserting one row of values that match its schema
/// succeeds, stores exactly that row with each value under its column, and a
/// following SELECT shows a header and that row.
pub proof fn lemma_insert_then_select(
    cols: Seq<(String, ColumnType)>,
    uniq: Seq<String>,
    t: TableView,
    exprs: Seq<Expr>,
    target: Seq<Seq<char>>,
)
    requires
        t.rows.len() == 0,
        t.last_id == 0,
        schema_matching(cols, exprs),
    ensures
        insert_outcome(cols, uniq, t, exprs) is Ok,
        ({
            let t2 = insert_outcome(cols, uniq, t, exprs)->Ok_0;
            &&& t2.rows.len() == 1
            &&& t2.rows[0].data == typed_entries(cols, exprs)
            &&& forall|j: int| 0 <= j < exprs.len() ==> #[trigger] t2.rows[0].data[j].0 == cols[j].0@
                && fits(t2.rows[0].data[j].1, cols[j].1)
            &&& plain_text(t2, target) == sep_join(seq![plain_header(target), plain_line(t2.rows[0], target)], "\n"@)
        }),
        (forall|a: int, b: int| 0 <= a < b < exprs.len() ==> cols[a].0@ != cols[b].0@) ==> forall|m: int, j: int|
            #![trigger cells_text(insert_outcome(cols, uniq, t, exprs)->Ok_0.rows[0], target)[m], cols[j]]
            0 <= m < target.len() && 0 <= j < exprs.len() && target[m] == cols[j].0@
                ==> cells_text(insert_outcome(cols, uniq, t, exprs)->Ok_0.rows[0], target)[m]
                    == value_text(insert_value(exprs[j])->Ok_0),
{
    lemma_matching_entries(cols, exprs);
    let d = typed_entries(cols, exprs);
    lemma_no_clash_on_empty(uniq, d, t.rows);
    let id = chosen_id(d, t.last_id)->Some_0;
    assert(chosen_id(d, t.last_id) is Some);
    let r = RowView { id, data: d };
    reveal(Seq::filter);
    assert(t.rows.filter(|x: RowView| x.id < id) =~= Seq::<RowView>::empty());
    assert(t.rows.filter(|x: RowView| x.id > id) =~= Seq::<RowView>::empty());
    assert(upserted(t.rows, r) =~= seq![r]);
    let t2 = insert_outcome(cols, uniq, t, exprs)->Ok_0;
    if forall|a: int, b: int| 0 <= a < b < exprs.len() ==> cols[a].0@ != cols[b].0@ {
        assert forall|m: int, j: int|
            #![trigger cells_text(t2.rows[0], target)[m], cols[j]]
            0 <= m < target.len() && 0 <= j < exprs.len() && target[m] == cols[j].0@
                implies cells_text(t2.rows[0], target)[m] == value_text(insert_value(exprs[j])->Ok_0) by {
            assert forall|a: int, b: int| 0 <= a < b < d.len() implies d[a].0 != d[b].0 by {
                assert(cols[a].0@ != cols[b].0@);
            }
            lemma_field_distinct(d, j);
        }
    }
    assert(seq![plain_header(target)] + t2.rows.map_values(|x: RowView| plain_line(x, target)) =~= seq![
        plain_header(target),
        plain_line(t2.rows[0], target),
    ]);
}

proof fn lemma_clash_found(uniq: Seq<String>, d: Seq<(Seq<char>, Value)>, rows: Seq<RowView>, k: int)
    requires
        0 <= k < uniq.len(),
        clashes(uniq[k]@, d, rows),
    ensures
        first_clash(uniq, d, rows) is Some,
        first_clash(uniq, d, rows)->Some_0 is UniqueViolation,
    decreases uniq.len(),
{
    if k > 0 && !clashes(uniq[0]@, d, rows) {
        assert(uniq.drop_first()[k - 1] == uniq[k]);
        lemma_clash_found(uniq.drop_first(), d, rows, k - 1);
    }
}

/// A row whose value in a unique column equals, and is not Null, a value that
/// an existing row holds there is refused with a uniqueness violation, and the
/// table keeps its rows (see `insert_row`).
pub proof fn lemma_unique_violation(
    cols: Seq<(String, ColumnType)>,
    uniq: Seq<String>,
    t: TableView,
    exprs: Seq<Expr>,
    k: int,
    i: int,
)
    requires
        row_entries(cols, exprs) is Ok,
        0 <= k < uniq.len(),
        0 <= i < t.rows.len(),
        field(row_entries(cols, exprs)->Ok_0, uniq[k]@) is Some,
        joinable(field(row_entries(cols, exprs)->Ok_0, uniq[k]@)->Some_0, cell(t.rows[i].data, uniq[k]@)),
    ensures
        insert_outcome(cols, uniq, t, exprs) is Err,
        insert_outcome(cols, uniq, t, exprs)->Err_0 is UniqueViolation,
{
    let d = row_entries(cols, exprs)->Ok_0;
    assert(clashes(uniq[k]@, d, t.rows));
    lemma_clash_found(uniq, d, t.rows, k);
}

proof fn lemma_mismatch_found(cols: Seq<(String, ColumnType)>, exprs: Seq<Expr>)
    requires
        exprs.len() <= cols.len(),
        forall|j: int| 0 <= j < exprs.len() ==> (#[trigger] insert_value(exprs[j])) is Ok,
        exists|j: int| 0 <= j < exprs.len() && !fits(insert_value(exprs[j])->Ok_0, cols[j].1),
    ensures
        row_entries(cols, exprs) is Err,
        row_entries(cols, exprs)->Err_0 is TypeMismatch,
    decreases exprs.len(),
{
    let p = exprs.drop_last();
    let last = exprs.len() - 1;
    assert(insert_value(exprs[last]) is Ok);
    if exists|j: int| 0 <= j < p.len() && !fits(insert_value(p[j])->Ok_0, cols[j].1) {
        assert forall|j: int| 0 <= j < p.len() implies (#[trigger] insert_value(p[j])) is Ok by {
            assert(p[j] == exprs[j]);
        }
        lemma_mismatch_found(cols, p);
    } else {
        let j = choose|j: int| 0 <= j < exprs.len() && !fits(insert_value(exprs[j])->Ok_0, cols[j].1);
        if j < last {
            assert(p[j] == exprs[j]);
        }
        assert forall|m: int| 0 <= m < p.len() implies (#[trigger] insert_value(p[m])) is Ok
            && fits(insert_value(p[m])->Ok_0, cols[m].1) by {
            assert(p[m] == exprs[m]);
        }
        lemma_matching_entries(cols, p);
    }
}

/// A row whose values all convert but one of which does not fit its column is
/// refused with a type mismatch, and no part of it is stored (see `insert_row`).
pub proof fn lemma_type_mismatch(cols: Seq<(String, ColumnType)>, uniq: Seq<String>, t: TableView, exprs: Seq<Expr>, j: int)
    requires
        exprs.len() <= cols.len(),
        forall|m: int| 0 <= m < exprs.len() ==> (#[trigger] insert_value(exprs[m])) is Ok,
        0 <= j < exprs.len(),
        !fits(insert_value(exprs[j])->Ok_0, cols[j].1),
    ensures
        insert_outcome(cols, uniq, t, exprs) is Err,
        insert_outcome(cols, uniq, t, exprs)->Err_0 is TypeMismatch,
{
    lemma_mismatch_found(cols, exprs);
}

/// A left row whose join column is Null (or absent) matches no right row.
pub proof fn lemma_null_key_joins_nothing(
    lr: RowView,
    rrows: Seq<RowView>,
    lc: Seq<char>,
    rc: Seq<char>,
    lcols: Seq<Seq<char>>,
    rcols: Seq<Seq<char>>,
)
    requires
        cell(lr.data, lc) is Null,
    ensures
        matches_for(lr, rrows, lc, rc, lcols, rcols).len() == 0,
    decreases rrows.len(),
{
    if rrows.len() > 0 {
        lemma_null_key_joins_nothing(lr, rrows.drop_last(), lc, rc, lcols, rcols);
    }
}

/// DELETE with an id numeral that names no row of the table (no row has that
/// id, or the numeral is no 32-bit number) is refused with `RowNotFound`, and
/// the tables, their row counts included, stay as they were.
pub proof fn lemma_delete_missing(old: Seq<Table>, new: Seq<Table>, name: String, e: Expr, r: Result<String, SqlError>)
    requires
        has_table(old, name@),
        deleted(old, new, name, Some(e), r),
        id_numeral(e) is Some,
        !names_row(old[index_of(old, name@)]@, id_numeral(e)->Some_0),
    ensures
        r == Err::<String, SqlError>(SqlError::RowNotFound(id_numeral(e)->Some_0)),
        new == old,
        new[index_of(old, name@)]@.rows.len() == old[index_of(old, name@)]@.rows.len(),
{
}

proof fn lemma_field_append(d: Seq<(Seq<char>, Value)>, p: Seq<(Seq<char>, Value)>, k: Seq<char>)
    ensures
        (forall|j: int| 0 <= j < p.len() ==> p[j].0 != k) ==> field(d + p, k) == field(d, k),
        forall|j: int|
            0 <= j < p.len() && p[j].0 == k && (forall|m: int| j < m < p.len() ==> p[m].0 != k)
                ==> field(d + p, k) == Some(#[trigger] p[j].1),
    decreases p.len(),
{
    if p.len() == 0 {
        assert(d + p =~= d);
    } else {
        assert((d + p).drop_last() =~= d + p.drop_last());
        lemma_field_append(d, p.drop_last(), k);
        assert forall|j: int|
            0 <= j < p.len() && p[j].0 == k && (forall|m: int| j < m < p.len() ==> p[m].0 != k)
                implies field(d + p, k) == Some(#[trigger] p[j].1) by {
            if j < p.len() - 1 {
                assert(p.last().0 != k);
                assert(p.drop_last()[j] == p[j]);
            }
        }
    }
}

/// After UPDATE, the updated row holds the last value assigned to each
/// assigned column, every other column of it keeps its value, and every other
/// row is unchanged; so a following SELECT differs only in those columns.
pub proof fn lemma_update_changes_assigned(
    old: Seq<Table>,
    new: Seq<Table>,
    i: int,
    id: u32,
    pairs: Seq<(String, Value)>,
    q: int,
    k: Seq<char>,
)
    requires
        0 <= i < old.len(),
        row_updated(old, new, i, id, pairs),
        0 <= q < old[i]@.rows.len(),
    ensures
        old[i]@.rows[q].id != id ==> new[i]@.rows[q] == old[i]@.rows[q],
        old[i]@.rows[q].id == id && (forall|j: int| 0 <= j < pairs.len() ==> pairs[j].0@ != k)
            ==> cell(new[i]@.rows[q].data, k) == cell(old[i]@.rows[q].data, k),
        forall|j: int|
            old[i]@.rows[q].id == id && 0 <= j < pairs.len() && pairs[j].0@ == k
                && (forall|m: int| j < m < pairs.len() ==> pairs[m].0@ != k)
                ==> cell(new[i]@.rows[q].data, k) == #[trigger] pairs[j].1,
{
    let pv = pairs.map_values(|p: (String, Value)| entry_view(p));
    let d = old[i]@.rows[q].data;
    lemma_field_append(d, pv, k);
    if old[i]@.rows[q].id == id {
        assert(field(new[i]@.rows[q].data, k) == field(d + pv, k));
        assert forall|j: int|
            0 <= j < pairs.len() && pairs[j].0@ == k && (forall|m: int| j < m < pairs.len() ==> pairs[m].0@ != k)
                implies cell(new[i]@.rows[q].data, k) == #[trigger] pairs[j].1 by {
            assert(pv[j].0 == k);
            assert forall|m: int| j < m < pv.len() implies pv[m].0 != k by {
                assert(pv[m].0 == pairs[m].0@);
            }
            assert(field(d + pv, k) == Some(pv[j].1));
        }
        if forall|j: int| 0 <= j < pairs.len() ==> pairs[j].0@ != k {
            assert forall|j: int| 0 <= j < pv.len() implies pv[j].0 != k by {
                assert(pv[j].0 == pairs[j].0@);
            }
        }
    }
}

/// After UPDATE, a SELECT of the table shows as many lines as before; every
/// line but the updated row's is as it was, and in that line only the cells
/// of assigned columns change, each to the last value assigned to it.
pub proof fn lemma_update_then_select(
    old: Seq<Table>,
    new: Seq<Table>,
    i: int,
    id: u32,
    pairs: Seq<(String, Value)>,
    target: Seq<Seq<char>>,
)
    requires
        0 <= i < old.len(),
        row_updated(old, new, i, id, pairs),
    ensures
        new[i]@.rows.len() == old[i]@.rows.len(),
        forall|q: int| 0 <= q < old[i]@.rows.len() && old[i]@.rows[q].id != id
            ==> #[trigger] plain_line(new[i]@.rows[q], target) == plain_line(old[i]@.rows[q], target),
        forall|q: int, m: int|
            0 <= q < old[i]@.rows.len() && old[i]@.rows[q].id == id && 0 <= m < target.len()
                && (forall|j: int| 0 <= j < pairs.len() ==> pairs[j].0@ != target[m])
                ==> #[trigger] cells_text(new[i]@.rows[q], target)[m] == cells_text(old[i]@.rows[q], target)[m],
        forall|q: int, m: int, j: int|
            0 <= q < old[i]@.rows.len() && old[i]@.rows[q].id == id && 0 <= m < target.len()
                && 0 <= j < pairs.len() && pairs[j].0@ == target[m]
                && (forall|k: int| j < k < pairs.len() ==> pairs[k].0@ != target[m])
                ==> #[trigger] cells_text(new[i]@.rows[q], target)[m] == value_text(#[trigger] pairs[j].1),
{
    assert forall|q: int, m: int|
        0 <= q < old[i]@.rows.len() && old[i]@.rows[q].id == id && 0 <= m < target.len()
            && (forall|j: int| 0 <= j < pairs.len() ==> pairs[j].0@ != target[m])
            implies #[trigger] cells_text(new[i]@.rows[q], target)[m] == cells_text(old[i]@.rows[q], target)[m] by {
        lemma_update_changes_assigned(old, new, i, id, pairs, q, target[m]);
    }
    assert forall|q: int, m: int, j: int|
        0 <= q < old[i]@.rows.len() && old[i]@.rows[q].id == id && 0 <= m < target.len()
            && 0 <= j < pairs.len() && pairs[j].0@ == target[m]
            && (forall|k: int| j < k < pairs.len() ==> pairs[k].0@ != target[m])
            implies #[trigger] cells_text(new[i]@.rows[q], target)[m] == value_text(#[trigger] pairs[j].1) by {
        lemma_update_changes_assigned(old, new, i, id, pairs, q, target[m]);
    }
}

} // verus!
