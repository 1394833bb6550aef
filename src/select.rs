use vstd::prelude::*;
use crate::value::{int_text, int_to_text, joinable, value_text};
use crate::row::{Row, RowView, cell};
use crate::table::{Table, TableView};
use crate::database::{Database, has_table, index_of};
use crate::statement::{Expr, FromClause, Join, JoinConstraint, SelectItem, SqlError, TableRef};
use crate::literal::{column_ref, column_ref_of};

verus! {

pub open spec fn views(v: Seq<String>) -> Seq<Seq<char>> {
    v.map_values(|s: String| s@)
}

/// The parts, with `sep` between each two.
pub open spec fn sep_join(parts: Seq<Seq<char>>, sep: Seq<char>) -> Seq<char>
    decreases parts.len(),
{
    if parts.len() == 0 {
        Seq::empty()
    } else if parts.len() == 1 {
        parts[0]
    } else {
        sep_join(parts.drop_last(), sep) + sep + parts.last()
    }
}

/// The columns a SELECT list asks for, after those already in `acc`: a
/// wildcard stands for every column and ends the list.
pub open spec fn projected(items: Seq<SelectItem>, cols: Seq<Seq<char>>, acc: Seq<Seq<char>>) -> Result<Seq<Seq<char>>, SqlError>
    decreases items.len(),
{
    if items.len() == 0 {
        Ok(acc)
    } else {
        match items[0] {
            SelectItem::Wildcard => Ok(cols),
            SelectItem::Column(c) => if cols.contains(c@) {
                projected(items.drop_first(), cols, acc.push(c@))
            } else {
                Err(SqlError::ColumnNotFound(c))
            },
            SelectItem::Other => Err(SqlError::UnsupportedProjection),
        }
    }
}

/// The texts of a row's values under the given columns.
pub open spec fn cells_text(r: RowView, cols: Seq<Seq<char>>) -> Seq<Seq<char>> {
    cols.map_values(|c: Seq<char>| value_text(cell(r.data, c)))
}

pub open spec fn plain_header(target: Seq<Seq<char>>) -> Seq<char> {
    "ID | "@ + sep_join(target, " | "@)
}

pub open spec fn plain_line(r: RowView, target: Seq<Seq<char>>) -> Seq<char> {
    int_text(r.id as int) + "  | "@ + sep_join(cells_text(r, target), " | "@)
}

/// The result of a SELECT without a join: a header, then one line per row in id order.
pub open spec fn plain_text(t: TableView, target: Seq<Seq<char>>) -> Seq<char> {
    sep_join(seq![plain_header(target)] + t.rows.map_values(|r: RowView| plain_line(r, target)), "\n"@)
}

pub open spec fn qualified(name: Seq<char>, cols: Seq<Seq<char>>) -> Seq<Seq<char>> {
    cols.map_values(|c: Seq<char>| name + "."@ + c)
}

pub open spec fn join_header(l: TableView, r: TableView) -> Seq<char> {
    sep_join(qualified(l.name, l.column_names()) + qualified(r.name, r.column_names()), " | "@)
}

pub open spec fn pair_line(lr: RowView, rr: RowView, lcols: Seq<Seq<char>>, rcols: Seq<Seq<char>>) -> Seq<char> {
    sep_join(cells_text(lr, lcols) + cells_text(rr, rcols), " | "@)
}

/// The output lines that the left row `lr` makes with the right rows, in order.
pub open spec fn matches_for(
    lr: RowView,
    rrows: Seq<RowView>,
    lc: Seq<char>,
    rc: Seq<char>,
    lcols: Seq<Seq<char>>,
    rcols: Seq<Seq<char>>,
) -> Seq<Seq<char>>
    decreases rrows.len(),
{
    if rrows.len() == 0 {
        Seq::empty()
    } else if joinable(cell(lr.data, lc), cell(rrows.last().data, rc)) {
        matches_for(lr, rrows.drop_last(), lc, rc, lcols, rcols).push(pair_line(lr, rrows.last(), lcols, rcols))
    } else {
        matches_for(lr, rrows.drop_last(), lc, rc, lcols, rcols)
    }
}

/// The output lines of the nested-loop join, left rows outside.
pub open spec fn join_rows(
    lrows: Seq<RowView>,
    rrows: Seq<RowView>,
    lc: Seq<char>,
    rc: Seq<char>,
    lcols: Seq<Seq<char>>,
    rcols: Seq<Seq<char>>,
) -> Seq<Seq<char>>
    decreases lrows.len(),
{
    if lrows.len() == 0 {
        Seq::empty()
    } else {
        join_rows(lrows.drop_last(), rrows, lc, rc, lcols, rcols) + matches_for(lrows.last(), rrows, lc, rc, lcols, rcols)
    }
}

/// The result of `l JOIN r ON l.lc = r.rc`: a header, then the matching pairs.
pub open spec fn join_text(l: TableView, r: TableView, lc: Seq<char>, rc: Seq<char>) -> Seq<char> {
    sep_join(
        seq![join_header(l, r)] + join_rows(l.rows, r.rows, lc, rc, l.column_names(), r.column_names()),
        "\n"@,
    )
}

/// The two columns of an `ON a = b` condition.
pub open spec fn on_columns(c: JoinConstraint) -> Option<(String, String)> {
    match c {
        JoinConstraint::InnerOn(Expr::Equals(a, b)) => match (column_ref(*a), column_ref(*b)) {
            (Some(x), Some(y)) => Some((x, y)),
            _ => None,
        },
        _ => None,
    }
}

/// The result of joining the table `l` as the first join clause `j` asks.
pub open spec fn joined(ts: Seq<Table>, l: TableView, j: Join) -> Result<Seq<char>, SqlError> {
    match j.relation {
        TableRef::Other => Err(SqlError::UnsupportedJoin),
        TableRef::Named(rn) => if !has_table(ts, rn@) {
            Err(SqlError::TableNotFound(rn))
        } else {
            match on_columns(j.constraint) {
                None => Err(SqlError::UnsupportedJoin),
                Some((a, b)) => Ok(join_text(l, ts[index_of(ts, rn@)]@, a@, b@)),
            }
        },
    }
}

/// The result of a SELECT; only the first join is read.
pub open spec fn selected(ts: Seq<Table>, from: Seq<FromClause>, projection: Seq<SelectItem>) -> Result<Seq<char>, SqlError> {
    if from.len() == 0 {
        Err(SqlError::NoTableSpecified)
    } else {
        match from[0].relation {
            TableRef::Other => Err(SqlError::UnsupportedTableReference),
            TableRef::Named(n) => if !has_table(ts, n@) {
                Err(SqlError::TableNotFound(n))
            } else if from[0].joins@.len() > 0 {
                joined(ts, ts[index_of(ts, n@)]@, from[0].joins@[0])
            } else {
                match projected(projection, ts[index_of(ts, n@)]@.column_names(), Seq::empty()) {
                    Err(e) => Err(e),
                    Ok(target) => Ok(plain_text(ts[index_of(ts, n@)]@, target)),
                }
            },
        }
    }
}

/// The parts joined with `sep` between each two.
pub fn join_texts(parts: &Vec<String>, sep: &str) -> (r: String)
    ensures
        r@ == sep_join(views(parts@), sep@),
{
    if parts.len() == 0 {
        return String::new();
    }
    let mut out = parts[0].clone();
    let mut k: usize = 1;
    assert(views(parts@).take(1) =~= seq![parts@[0]@]);
    while k < parts.len()
        invariant
            1 <= k <= parts.len(),
            out@ == sep_join(views(parts@).take(k as int), sep@),
        decreases parts.len() - k,
    {
        assert(views(parts@).take(k + 1).drop_last() =~= views(parts@).take(k as int));
        out.append(sep);
        out.append(parts[k].as_str());
        k = k + 1;
    }
    assert(views(parts@).take(k as int) =~= views(parts@));
    out
}

/// The rendered values of `row` under `cols`.
fn row_cells(row: &Row, cols: &Vec<String>) -> (r: Vec<String>)
    ensures
        views(r@) == cells_text(row@, views(cols@)),
{
    let mut out: Vec<String> = Vec::new();
    let mut k: usize = 0;
    while k < cols.len()
        invariant
            k <= cols.len(),
            views(out@) == cells_text(row@, views(cols@).take(k as int)),
        decreases cols.len() - k,
    {
        let v = row.get(&cols[k]);
        let s = v.render();
        let ghost before = out@;
        out.push(s);
        assert(views(out@) =~= views(before).push(s@));
        assert(views(cols@).take(k + 1) =~= views(cols@).take(k as int).push(cols@[k as int]@));
        assert(cells_text(row@, views(cols@).take(k + 1)) =~= cells_text(row@, views(cols@).take(k as int)).push(s@));
        k = k + 1;
    }
    assert(views(cols@).take(k as int) =~= views(cols@));
    out
}

/// The names of a table's columns, in schema order.
fn column_names_of(t: &Table) -> (r: Vec<String>)
    ensures
        views(r@) == t@.column_names(),
{
    let mut out: Vec<String> = Vec::new();
    let mut k: usize = 0;
    while k < t.columns.len()
        invariant
            k <= t.columns.len(),
            views(out@) == t@.column_names().take(k as int),
        decreases t.columns.len() - k,
    {
        let ghost before = out@;
        out.push(t.columns[k].0.clone());
        assert(views(out@) =~= views(before).push(t.columns@[k as int].0@));
        assert(t@.column_names().take(k + 1) =~= t@.column_names().take(k as int).push(t.columns@[k as int].0@));
        k = k + 1;
    }
    assert(t@.column_names().take(k as int) =~= t@.column_names());
    out
}

/// Whether `c` is among `cols`.
fn contains_text(cols: &Vec<String>, c: &String) -> (r: bool)
    ensures
        r == views(cols@).contains(c@),
{
    let mut k: usize = 0;
    while k < cols.len()
        invariant
            k <= cols.len(),
            forall|j: int| 0 <= j < k ==> cols@[j]@ != c@,
        decreases cols.len() - k,
    {
        if cols[k].eq(c) {
            assert(views(cols@)[k as int] == c@);
            return true;
        }
        k = k + 1;
    }
    proof {
        if views(cols@).contains(c@) {
            let j = choose|j: int| 0 <= j < views(cols@).len() && views(cols@)[j] == c@;
            assert(cols@[j]@ == c@);
        }
    }
    false
}

/// The columns that a SELECT list asks for.
pub fn projection_of(items: &Vec<SelectItem>, cols: &Vec<String>) -> (r: Result<Vec<String>, SqlError>)
    ensures
        match projected(items@, views(cols@), Seq::empty()) {
            Ok(target) => r is Ok && views(r->Ok_0@) == target,
            Err(e) => r == Err::<Vec<String>, SqlError>(e),
        },
{
    let mut target: Vec<String> = Vec::new();
    let mut k: usize = 0;
    assert(items@.skip(0) =~= items@);
    assert(views(target@) =~= Seq::<Seq<char>>::empty());
    while k < items.len()
        invariant
            k <= items.len(),
            projected(items@, views(cols@), Seq::empty()) == projected(items@.skip(k as int), views(cols@), views(target@)),
        decreases items.len() - k,
    {
        assert(items@.skip(k as int)[0] == items@[k as int]);
        assert(items@.skip(k as int).drop_first() =~= items@.skip(k + 1));
        match &items[k] {
            SelectItem::Wildcard => {
                return Ok(column_copy(cols));
            },
            SelectItem::Column(c) => {
                if !contains_text(cols, c) {
                    return Err(SqlError::ColumnNotFound(c.clone()));
                }
                let ghost before = target@;
                target.push(c.clone());
                assert(views(target@) =~= views(before).push(c@));
            },
            SelectItem::Other => {
                return Err(SqlError::UnsupportedProjection);
            },
        }
        k = k + 1;
    }
    Ok(target)
}

fn column_copy(cols: &Vec<String>) -> (r: Vec<String>)
    ensures
        views(r@) == views(cols@),
{
    let mut out: Vec<String> = Vec::new();
    let mut k: usize = 0;
    while k < cols.len()
        invariant
            k <= cols.len(),
            views(out@) == views(cols@).take(k as int),
        decreases cols.len() - k,
    {
        let ghost before = out@;
        out.push(cols[k].clone());
        assert(views(out@) =~= views(before).push(cols@[k as int]@));
        assert(views(cols@).take(k + 1) =~= views(cols@).take(k as int).push(cols@[k as int]@));
        k = k + 1;
    }
    assert(views(cols@).take(k as int) =~= views(cols@));
    out
}

/// The result text of a SELECT without a join.
pub fn plain_select(t: &Table, target: &Vec<String>) -> (r: String)
    ensures
        r@ == plain_text(t@, views(target@)),
{
    let ghost tv = views(target@);
    let mut lines: Vec<String> = Vec::new();
    let mut header = String::from_str("ID | ");
    let cols = join_texts(target, " | ");
    header.append(cols.as_str());
    lines.push(header);
    let ghost all = seq![plain_header(tv)] + t@.rows.map_values(|r: RowView| plain_line(r, tv));
    let mut i: usize = 0;
    assert(views(lines@) =~= all.take(1));
    while i < t.data.len()
        invariant
            i <= t.data.len(),
            all == seq![plain_header(tv)] + t@.rows.map_values(|r: RowView| plain_line(r, tv)),
            tv == views(target@),
            views(lines@) == all.take(i + 1),
        decreases t.data.len() - i,
    {
        let row = &t.data[i];
        let mut line = int_to_text(row.id as i128);
        line.append("  | ");
        let cells = row_cells(row, target);
        let joined = join_texts(&cells, " | ");
        line.append(joined.as_str());
        assert(t@.rows[i as int] == row@);
        assert(line@ == plain_line(row@, tv));
        let ghost before = lines@;
        lines.push(line);
        assert(views(lines@) =~= views(before).push(line@));
        assert(all.take(i + 2) =~= all.take(i + 1).push(all[i + 1]));
        i = i + 1;
    }
    assert(all.take(i + 1) =~= all);
    join_texts(&lines, "\n")
}

fn qualified_names(t: &Table, cols: &Vec<String>, out: &mut Vec<String>)
    requires
        views(cols@) == t@.column_names(),
    ensures
        views(final(out)@) == views(old(out)@) + qualified(t@.name, t@.column_names()),
{
    let ghost start = views(out@);
    let ghost q = qualified(t@.name, t@.column_names());
    let mut k: usize = 0;
    while k < cols.len()
        invariant
            k <= cols.len(),
            views(cols@) == t@.column_names(),
            q == qualified(t@.name, t@.column_names()),
            views(out@) == start + q.take(k as int),
        decreases cols.len() - k,
    {
        let mut name = t.name.clone();
        name.append(".");
        name.append(cols[k].as_str());
        let ghost before = out@;
        out.push(name);
        assert(views(out@) =~= views(before).push(name@));
        assert(q.take(k + 1) =~= q.take(k as int).push(q[k as int]));
        k = k + 1;
    }
    assert(q.take(k as int) =~= q);
}

/// The result text of `l JOIN r ON l.lc = r.rc`.
pub fn join_select(l: &Table, r: &Table, lc: &String, rc: &String) -> (out: String)
    ensures
        out@ == join_text(l@, r@, lc@, rc@),
{
    let lcols = column_names_of(l);
    let rcols = column_names_of(r);
    let ghost lv = views(lcols@);
    let ghost rv = views(rcols@);
    let mut headers: Vec<String> = Vec::new();
    assert(views(headers@) =~= Seq::<Seq<char>>::empty());
    qualified_names(l, &lcols, &mut headers);
    qualified_names(r, &rcols, &mut headers);
    let mut lines: Vec<String> = Vec::new();
    lines.push(join_texts(&headers, " | "));
    assert(Seq::<Seq<char>>::empty() + qualified(l@.name, l@.column_names()) =~= qualified(l@.name, l@.column_names()));
    let ghost head = seq![join_header(l@, r@)];
    assert(views(lines@) =~= head);
    let mut i: usize = 0;
    assert(l@.rows.take(0) =~= Seq::<RowView>::empty());
    assert(head + Seq::<Seq<char>>::empty() =~= head);
    while i < l.data.len()
        invariant
            i <= l.data.len(),
            lv == l@.column_names(),
            rv == r@.column_names(),
            views(lcols@) == lv,
            views(rcols@) == rv,
            head == seq![join_header(l@, r@)],
            views(lines@) == head + join_rows(l@.rows.take(i as int), r@.rows, lc@, rc@, lv, rv),
        decreases l.data.len() - i,
    {
        let lrow = &l.data[i];
        assert(l@.rows[i as int] == lrow@);
        let lkey = lrow.get(lc);
        let ghost base = views(lines@);
        let mut j: usize = 0;
        assert(r@.rows.take(0) =~= Seq::<RowView>::empty());
        assert(base + Seq::<Seq<char>>::empty() =~= base);
        while j < r.data.len()
            invariant
                j <= r.data.len(),
                lkey == cell(lrow@.data, lc@),
                views(lcols@) == lv,
                views(rcols@) == rv,
                views(lines@) == base + matches_for(lrow@, r@.rows.take(j as int), lc@, rc@, lv, rv),
            decreases r.data.len() - j,
        {
            let rrow = &r.data[j];
            assert(r@.rows[j as int] == rrow@);
            assert(r@.rows.take(j + 1).drop_last() =~= r@.rows.take(j as int));
            let rkey = rrow.get(rc);
            if !lkey.is_null() && lkey.same_as(&rkey) {
                let mut cells = row_cells(lrow, &lcols);
                let mut more = row_cells(rrow, &rcols);
                let ghost c1 = views(cells@);
                let ghost c2 = views(more@);
                cells.append(&mut more);
                assert(views(cells@) =~= c1 + c2);
                let line = join_texts(&cells, " | ");
                let ghost before = views(lines@);
                lines.push(line);
                assert(views(lines@) =~= before.push(line@));
            }
            j = j + 1;
        }
        assert(r@.rows.take(j as int) =~= r@.rows);
        assert(l@.rows.take(i + 1).drop_last() =~= l@.rows.take(i as int));
        i = i + 1;
    }
    assert(l@.rows.take(i as int) =~= l@.rows);
    join_texts(&lines, "\n")
}

/// SELECT: the rendered rows of one table, or of an inner join of two.
/// The store is not changed.
pub fn select(db: &Database, from: &Vec<FromClause>, projection: &Vec<SelectItem>) -> (r: Result<String, SqlError>)
    requires
        db.wf(),
    ensures
        match selected(db.tables@, from@, projection@) {
            Ok(s) => r is Ok && r->Ok_0@ == s,
            Err(e) => r == Err::<String, SqlError>(e),
        },
{
    if from.len() == 0 {
        return Err(SqlError::NoTableSpecified);
    }
    let src = &from[0];
    let name = match &src.relation {
        TableRef::Named(n) => n,
        TableRef::Other => return Err(SqlError::UnsupportedTableReference),
    };
    let li = match db.find_table(name) {
        Some(i) => i,
        None => return Err(SqlError::TableNotFound(name.clone())),
    };
    let left = &db.tables[li];
    if src.joins.len() > 0 {
        let join = &src.joins[0];
        let rname = match &join.relation {
            TableRef::Named(n) => n,
            TableRef::Other => return Err(SqlError::UnsupportedJoin),
        };
        let ri = match db.find_table(rname) {
            Some(i) => i,
            None => return Err(SqlError::TableNotFound(rname.clone())),
        };
        let (lc, rc) = match &join.constraint {
            JoinConstraint::InnerOn(Expr::Equals(a, b)) => match (column_ref_of(a), column_ref_of(b)) {
                (Some(x), Some(y)) => (x, y),
                _ => return Err(SqlError::UnsupportedJoin),
            },
            _ => return Err(SqlError::UnsupportedJoin),
        };
        return Ok(join_select(left, &db.tables[ri], &lc, &rc));
    }
    let cols = column_names_of(left);
    let target = match projection_of(projection, &cols) {
        Ok(t) => t,
        Err(e) => return Err(e),
    };
    Ok(plain_select(left, &target))
}

} // verus!
