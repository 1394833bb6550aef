use vstd::prelude::*;
use crate::value::{ColumnType, Value};
use crate::row::{Row, RowView, field, entry_view};

verus! {

/// Rows whose ids strictly increase: ids are unique and in id order.
pub open spec fn ids_ascending(rows: Seq<RowView>) -> bool {
    forall|i: int, j: int| 0 <= i < j < rows.len() ==> rows[i].id < rows[j].id
}

pub open spec fn has_id(rows: Seq<RowView>, id: u32) -> bool {
    exists|i: int| 0 <= i < rows.len() && rows[i].id == id
}

/// The rows with an id below `id`.
pub open spec fn below(rows: Seq<RowView>, id: u32) -> Seq<RowView> {
    rows.filter(|r: RowView| r.id < id)
}

/// The rows with an id above `id`.
pub open spec fn above(rows: Seq<RowView>, id: u32) -> Seq<RowView> {
    rows.filter(|r: RowView| r.id > id)
}

/// The rows once `r` is stored: it takes the place of a row with its id, if any.
pub open spec fn upserted(rows: Seq<RowView>, r: RowView) -> Seq<RowView> {
    below(rows, r.id) + seq![r] + above(rows, r.id)
}

/// The rows once the row with id `id` is removed.
pub open spec fn without(rows: Seq<RowView>, id: u32) -> Seq<RowView> {
    below(rows, id) + above(rows, id)
}

/// A table as the contracts see it.
pub struct TableView {
    pub name: Seq<char>,
    pub columns: Seq<(Seq<char>, ColumnType)>,
    pub unique_columns: Seq<Seq<char>>,
    pub rows: Seq<RowView>,
    pub last_id: u32,
}

impl TableView {
    /// Rows in id order, and `last_id` at least every id present.
    pub open spec fn wf(&self) -> bool {
        &&& ids_ascending(self.rows)
        &&& forall|i: int| 0 <= i < self.rows.len() ==> self.rows[i].id <= self.last_id
    }

    pub open spec fn column_names(&self) -> Seq<Seq<char>> {
        self.columns.map_values(|c: (Seq<char>, ColumnType)| c.0)
    }
}

pub open spec fn column_view(c: (String, ColumnType)) -> (Seq<char>, ColumnType) {
    (c.0@, c.1)
}

pub open spec fn string_view(s: String) -> Seq<char> {
    s@
}

/// A table: its schema, its unique columns, its rows in id order and the
/// greatest id it has handed out.
#[derive(Debug)]
pub struct Table {
    pub name: String,
    pub columns: Vec<(String, ColumnType)>,
    pub unique_columns: Vec<String>,
    /// The rows, kept in strictly increasing id order (see `TableView::wf`).
    /// A sorted `Vec` rather than an ordered map: query results are stated
    /// and proved position by position in id order, which the `Vec`'s
    /// sequence view gives directly, while a map's view is an unordered `Map`.
    pub data: Vec<Row>,
    pub last_id: u32,
}

impl View for Table {
    type V = TableView;

    open spec fn view(&self) -> TableView {
        TableView {
            name: self.name@,
            columns: self.columns@.map_values(|c: (String, ColumnType)| column_view(c)),
            unique_columns: self.unique_columns@.map_values(|s: String| string_view(s)),
            rows: self.data@.map_values(|r: Row| r@),
            last_id: self.last_id,
        }
    }
}

proof fn lemma_filter_all<A>(s: Seq<A>, p: spec_fn(A) -> bool)
    requires
        forall|i: int| 0 <= i < s.len() ==> p(s[i]),
    ensures
        s.filter(p) == s,
    decreases s.len(),
{
    reveal(Seq::filter);
    if s.len() > 0 {
        lemma_filter_all(s.drop_last(), p);
        assert(s.drop_last().push(s.last()) =~= s);
    }
}

proof fn lemma_filter_none<A>(s: Seq<A>, p: spec_fn(A) -> bool)
    requires
        forall|i: int| 0 <= i < s.len() ==> !p(s[i]),
    ensures
        s.filter(p) == Seq::<A>::empty(),
    decreases s.len(),
{
    reveal(Seq::filter);
    if s.len() > 0 {
        lemma_filter_none(s.drop_last(), p);
    }
    assert(s.filter(p) =~= Seq::<A>::empty());
}

/// A filter over `a + b` where `p` holds throughout `a` and nowhere in `b`.
proof fn lemma_filter_prefix<A>(a: Seq<A>, b: Seq<A>, p: spec_fn(A) -> bool)
    requires
        forall|i: int| 0 <= i < a.len() ==> p(a[i]),
        forall|i: int| 0 <= i < b.len() ==> !p(b[i]),
    ensures
        (a + b).filter(p) == a,
{
    Seq::filter_distributes_over_add(a, b, p);
    lemma_filter_all(a, p);
    lemma_filter_none(b, p);
    assert(a + Seq::<A>::empty() =~= a);
}

/// A filter over `a + b` where `p` holds nowhere in `a` and throughout `b`.
proof fn lemma_filter_suffix<A>(a: Seq<A>, b: Seq<A>, p: spec_fn(A) -> bool)
    requires
        forall|i: int| 0 <= i < a.len() ==> !p(a[i]),
        forall|i: int| 0 <= i < b.len() ==> p(b[i]),
    ensures
        (a + b).filter(p) == b,
{
    Seq::filter_distributes_over_add(a, b, p);
    lemma_filter_none(a, p);
    lemma_filter_all(b, p);
    assert(Seq::<A>::empty() + b =~= b);
}

proof fn lemma_below(rows: Seq<RowView>, id: u32, p: int)
    requires
        0 <= p <= rows.len(),
        forall|i: int| 0 <= i < p ==> rows[i].id < id,
        forall|i: int| p <= i < rows.len() ==> rows[i].id >= id,
    ensures
        below(rows, id) == rows.take(p),
{
    let lo = |r: RowView| r.id < id;
    assert(rows =~= rows.take(p) + rows.skip(p));
    lemma_filter_prefix(rows.take(p), rows.skip(p), lo);
}

proof fn lemma_above(rows: Seq<RowView>, id: u32, q: int)
    requires
        0 <= q <= rows.len(),
        forall|i: int| 0 <= i < q ==> rows[i].id <= id,
        forall|i: int| q <= i < rows.len() ==> rows[i].id > id,
    ensures
        above(rows, id) == rows.skip(q),
{
    let hi = |r: RowView| r.id > id;
    assert(rows =~= rows.take(q) + rows.skip(q));
    lemma_filter_suffix(rows.take(q), rows.skip(q), hi);
}

/// In ascending rows, the rows below `id` are those before the first
/// position `p` whose id is at least `id`.
proof fn lemma_split(rows: Seq<RowView>, id: u32, p: int)
    requires
        ids_ascending(rows),
        0 <= p <= rows.len(),
        forall|i: int| 0 <= i < p ==> rows[i].id < id,
        forall|i: int| p <= i < rows.len() ==> rows[i].id >= id,
    ensures
        below(rows, id) == rows.take(p),
        p < rows.len() && rows[p].id == id ==> above(rows, id) == rows.skip(p + 1),
        !(p < rows.len() && rows[p].id == id) ==> above(rows, id) == rows.skip(p),
        has_id(rows, id) <==> (p < rows.len() && rows[p].id == id),
{
    lemma_below(rows, id, p);
    if p < rows.len() && rows[p].id == id {
        assert forall|i: int| p + 1 <= i < rows.len() implies rows[i].id > id by {
            assert(rows[p].id < rows[i].id);
        }
        lemma_above(rows, id, p + 1);
    } else {
        assert forall|i: int| p <= i < rows.len() implies rows[i].id > id by {
            if i > p {
                assert(rows[p].id < rows[i].id);
            }
        }
        lemma_above(rows, id, p);
    }
}

impl Table {
    /// An empty table with no columns.
    pub fn new(name: String) -> (t: Table)
        ensures
            t@.name == name@,
            t@.columns.len() == 0,
            t@.unique_columns.len() == 0,
            t@.rows.len() == 0,
            t@.last_id == 0,
            t@.wf(),
    {
        Table {
            name,
            columns: Vec::new(),
            unique_columns: Vec::new(),
            data: Vec::new(),
            last_id: 0,
        }
    }

    /// Whether the rows are in strictly increasing id order, none above `last_id`.
    pub fn is_well_formed(&self) -> (r: bool)
        ensures
            r == self@.wf(),
    {
        let mut i: usize = 0;
        while i < self.data.len()
            invariant
                i <= self.data.len(),
                forall|a: int, b: int| 0 <= a < b < i ==> self@.rows[a].id < self@.rows[b].id,
                forall|a: int| 0 <= a < i ==> self@.rows[a].id <= self.last_id,
            decreases self.data.len() - i,
        {
            assert(self@.rows[i as int].id == self.data@[i as int].id);
            if self.data[i].id > self.last_id {
                return false;
            }
            if i > 0 && self.data[i - 1].id >= self.data[i].id {
                assert(self@.rows[i - 1].id == self.data@[i - 1].id);
                return false;
            }
            proof {
                assert forall|a: int, b: int| 0 <= a < b < i + 1 implies self@.rows[a].id < self@.rows[b].id by {
                    if b == i && a < i - 1 {
                        assert(self@.rows[a].id < self@.rows[i - 1].id);
                    }
                }
            }
            i = i + 1;
        }
        true
    }

    /// The first position whose row id is at least `id`.
    fn position_of(&self, id: u32) -> (p: usize)
        requires
            self@.wf(),
        ensures
            p <= self@.rows.len(),
            forall|i: int| 0 <= i < p ==> self@.rows[i].id < id,
            forall|i: int| p <= i < self@.rows.len() ==> self@.rows[i].id >= id,
    {
        let mut p: usize = 0;
        while p < self.data.len() && self.data[p].id < id
            invariant
                p <= self.data.len(),
                self@.wf(),
                forall|i: int| 0 <= i < p ==> self@.rows[i].id < id,
            decreases self.data.len() - p,
        {
            p = p + 1;
        }
        assert forall|i: int| p <= i < self@.rows.len() implies self@.rows[i].id >= id by {
            if i > p {
                assert(self@.rows[p as int].id < self@.rows[i].id);
            }
        }
        p
    }

    /// Whether a row with this id is present.
    pub fn contains_id(&self, id: u32) -> (r: bool)
        requires
            self@.wf(),
        ensures
            r == has_id(self@.rows, id),
    {
        let p = self.position_of(id);
        proof { lemma_split(self@.rows, id, p as int); }
        p < self.data.len() && self.data[p].id == id
    }

    /// Stores `row`, replacing the row with the same id if there is one.
    pub fn store_row(&mut self, row: Row)
        requires
            old(self)@.wf(),
            row.id <= old(self).last_id,
        ensures
            final(self)@.wf(),
            final(self)@.rows == upserted(old(self)@.rows, row@),
            final(self).name == old(self).name,
            final(self).columns == old(self).columns,
            final(self).unique_columns == old(self).unique_columns,
            final(self)@.last_id == old(self)@.last_id,
    {
        let ghost rows = self@.rows;
        let ghost rv = row@;
        let id = row.id;
        let p = self.position_of(id);
        proof { lemma_split(rows, id, p as int); }
        if p < self.data.len() && self.data[p].id == id {
            self.data.set(p, row);
            assert(self@.rows =~= rows.take(p as int) + seq![rv] + rows.skip(p + 1));
        } else {
            self.data.insert(p, row);
            assert(self@.rows =~= rows.take(p as int) + seq![rv] + rows.skip(p as int));
        }
        assert(self@.rows =~= upserted(rows, rv));
    }

    /// Removes the row with id `id`, if present; returns whether it was.
    pub fn remove_row(&mut self, id: u32) -> (found: bool)
        requires
            old(self)@.wf(),
        ensures
            found == has_id(old(self)@.rows, id),
            found ==> final(self)@.rows == without(old(self)@.rows, id),
            !found ==> final(self)@.rows == old(self)@.rows,
            final(self)@.wf(),
            final(self).name == old(self).name,
            final(self).columns == old(self).columns,
            final(self).unique_columns == old(self).unique_columns,
            final(self)@.last_id == old(self)@.last_id,
    {
        let ghost rows = self@.rows;
        let p = self.position_of(id);
        proof { lemma_split(rows, id, p as int); }
        if p < self.data.len() && self.data[p].id == id {
            self.data.remove(p);
            assert(self@.rows =~= rows.take(p as int) + rows.skip(p + 1));
            assert(self@.rows =~= without(rows, id));
            true
        } else {
            false
        }
    }

    /// Sets, in the row with id `id`, each column of `pairs` in order; returns
    /// whether that row is present.
    pub fn update_row(&mut self, id: u32, pairs: &Vec<(String, Value)>) -> (found: bool)
        requires
            old(self)@.wf(),
        ensures
            found == has_id(old(self)@.rows, id),
            final(self)@.wf(),
            final(self).name == old(self).name,
            final(self).columns == old(self).columns,
            final(self).unique_columns == old(self).unique_columns,
            final(self)@.last_id == old(self)@.last_id,
            final(self)@.rows.len() == old(self)@.rows.len(),
            forall|i: int| 0 <= i < old(self)@.rows.len() ==> (#[trigger] final(self)@.rows[i]).id == old(self)@.rows[i].id,
            forall|i: int| 0 <= i < old(self)@.rows.len() && old(self)@.rows[i].id != id ==> #[trigger] final(self)@.rows[i] == old(self)@.rows[i],
            forall|i: int, k: Seq<char>| 0 <= i < old(self)@.rows.len() && old(self)@.rows[i].id == id ==>
                #[trigger] field(final(self)@.rows[i].data, k) == field(old(self)@.rows[i].data + pairs@.map_values(|p: (String, Value)| entry_view(p)), k),
    {
        let ghost rows = self@.rows;
        let p = self.position_of(id);
        proof { lemma_split(rows, id, p as int); }
        if !(p < self.data.len() && self.data[p].id == id) {
            return false;
        }
        let mut row = self.data.remove(p);
        let ghost d0 = row@.data;
        let mut k: usize = 0;
        while k < pairs.len()
            invariant
                k <= pairs.len(),
                row@.id == id,
                forall|c: Seq<char>| #[trigger] field(row@.data, c) == field(d0 + pairs@.take(k as int).map_values(|p: (String, Value)| entry_view(p)), c),
            decreases pairs.len() - k,
        {
            let ghost before = row@.data;
            row.put(pairs[k].0.clone(), pairs[k].1.duplicate());
            proof {
                let e = pairs@.take(k + 1).map_values(|p: (String, Value)| entry_view(p));
                let e0 = pairs@.take(k as int).map_values(|p: (String, Value)| entry_view(p));
                assert(e =~= e0.push(entry_view(pairs@[k as int])));
                assert(d0 + e =~= (d0 + e0).push(entry_view(pairs@[k as int])));
                assert forall|c: Seq<char>| #[trigger] field(row@.data, c) == field(d0 + e, c) by {
                    assert((d0 + e).drop_last() =~= d0 + e0);
                }
            }
            k = k + 1;
        }
        let ghost rv = row@;
        self.data.insert(p, row);
        proof {
            assert(pairs@.take(pairs@.len() as int) =~= pairs@);
            assert(self@.rows =~= rows.update(p as int, rv));
            assert forall|i: int| 0 <= i < rows.len() && rows[i].id == id implies i == p by {
                if i < p {
                    assert(rows[i].id < rows[p as int].id);
                } else if i > p {
                    assert(rows[p as int].id < rows[i].id);
                }
            }
        }
        true
    }
}

} // verus!
