use vstd::prelude::*;
use crate::value::Value;

verus! {

/// A row as the contracts see it: its id and its (column, value) entries.
pub struct RowView {
    pub id: u32,
    pub data: Seq<(Seq<char>, Value)>,
}

/// The value that the entries give for column `k`: the latest entry for `k` wins.
pub open spec fn field(d: Seq<(Seq<char>, Value)>, k: Seq<char>) -> Option<Value>
    decreases d.len(),
{
    if d.len() == 0 {
        None
    } else if d.last().0 == k {
        Some(d.last().1)
    } else {
        field(d.drop_last(), k)
    }
}

/// The value shown for column `k`: Null where the row has none.
pub open spec fn cell(d: Seq<(Seq<char>, Value)>, k: Seq<char>) -> Value {
    match field(d, k) {
        Some(v) => v,
        None => Value::Null,
    }
}

pub open spec fn entry_view(p: (String, Value)) -> (Seq<char>, Value) {
    (p.0@, p.1)
}

/// One stored row: an id and the values of its columns.
#[derive(Debug, Clone)]
pub struct Row {
    pub id: u32,
    pub data: Vec<(String, Value)>,
}

impl View for Row {
    type V = RowView;

    open spec fn view(&self) -> RowView {
        RowView { id: self.id, data: self.data@.map_values(|p: (String, Value)| entry_view(p)) }
    }
}

/// Replacing the entry at `i`, the last one for its column, changes that column alone.
proof fn lemma_field_replace(d: Seq<(Seq<char>, Value)>, i: int, v: Value, k: Seq<char>)
    requires
        0 <= i < d.len(),
        forall|j: int| i < j < d.len() ==> d[j].0 != d[i].0,
    ensures
        field(d.update(i, (d[i].0, v)), k) == if k == d[i].0 {
            Some(v)
        } else {
            field(d, k)
        },
    decreases d.len(),
{
    let e = d.update(i, (d[i].0, v));
    if i == d.len() - 1 {
        assert(e.drop_last() =~= d.drop_last());
    } else {
        assert(e.drop_last() =~= d.drop_last().update(i, (d[i].0, v)));
        lemma_field_replace(d.drop_last(), i, v, k);
    }
}

impl Row {
    /// An empty row with the given id.
    pub fn new(id: u32) -> (r: Row)
        ensures
            r@.id == id,
            r@.data.len() == 0,
    {
        let r = Row { id, data: Vec::new() };
        assert(r@.data =~= Seq::<(Seq<char>, Value)>::empty());
        r
    }

    /// The value of column `col`, if the row has one.
    pub fn lookup(&self, col: &String) -> (r: Option<Value>)
        ensures
            r == field(self@.data, col@),
    {
        let ghost d = self@.data;
        let mut i: usize = self.data.len();
        assert(d.take(d.len() as int) =~= d);
        while i > 0
            invariant
                i <= self.data.len(),
                d == self@.data,
                field(d, col@) == field(d.take(i as int), col@),
            decreases i,
        {
            assert(d.take(i as int).drop_last() =~= d.take(i - 1));
            if self.data[i - 1].0.eq(col) {
                return Some(self.data[i - 1].1.duplicate());
            }
            i = i - 1;
        }
        None
    }

    /// The value of column `col`, Null where the row has none.
    pub fn get(&self, col: &String) -> (r: Value)
        ensures
            r == cell(self@.data, col@),
    {
        match self.lookup(col) {
            Some(v) => v,
            None => Value::Null,
        }
    }

    /// Sets column `col` to `v`, leaving every other column as it was.
    pub fn put(&mut self, col: String, v: Value)
        ensures
            final(self)@.id == old(self)@.id,
            forall|k: Seq<char>|
                #![trigger field(final(self)@.data, k)]
                field(final(self)@.data, k) == if k == col@ {
                    Some(v)
                } else {
                    field(old(self)@.data, k)
                },
    {
        let ghost d = self@.data;
        let mut i: usize = self.data.len();
        while i > 0
            invariant
                i <= self.data.len(),
                d == self@.data,
                self.id == old(self).id,
                self.data@ == old(self).data@,
                forall|j: int| i <= j < d.len() ==> d[j].0 != col@,
            decreases i,
        {
            if self.data[i - 1].0.eq(&col) {
                let ghost iv = i - 1;
                self.data.set(i - 1, (col, v));
                proof {
                    assert(self@.data =~= d.update(iv as int, (d[iv as int].0, v)));
                    assert forall|k: Seq<char>|
                        #![trigger field(self@.data, k)]
                        field(self@.data, k) == if k == col@ {
                            Some(v)
                        } else {
                            field(d, k)
                        } by {
                        lemma_field_replace(d, iv as int, v, k);
                    }
                }
                return;
            }
            i = i - 1;
        }
        self.data.push((col, v));
        proof {
            assert(self@.data.drop_last() =~= d);
        }
    }
}

} // verus!
