use vstd::prelude::*;
use crate::table::Table;

verus! {

pub open spec fn has_table(ts: Seq<Table>, name: Seq<char>) -> bool {
    exists|i: int| 0 <= i < ts.len() && ts[i].name@ == name
}

/// The position of the table called `name`.
pub open spec fn index_of(ts: Seq<Table>, name: Seq<char>) -> int {
    choose|i: int| 0 <= i < ts.len() && ts[i].name@ == name
}

pub open spec fn names_unique(ts: Seq<Table>) -> bool {
    forall|i: int, j: int| 0 <= i < j < ts.len() ==> ts[i].name@ != ts[j].name@
}

/// `new` is `old` with the table at `i` replaced by one with the same name
/// and schema whose view is `tv`.
pub open spec fn table_replaced(old: Seq<Table>, new: Seq<Table>, i: int, tv: crate::table::TableView) -> bool {
    &&& new.len() == old.len()
    &&& forall|j: int| 0 <= j < old.len() && j != i ==> new[j] == old[j]
    &&& new[i].name == old[i].name
    &&& new[i].columns == old[i].columns
    &&& new[i].unique_columns == old[i].unique_columns
    &&& new[i]@ == tv
}

/// The whole store: its tables, each with a distinct name.
#[derive(Debug)]
pub struct Database {
    pub tables: Vec<Table>,
}

impl Database {
    pub open spec fn wf(&self) -> bool {
        &&& names_unique(self.tables@)
        &&& forall|i: int| 0 <= i < self.tables@.len() ==> (#[trigger] self.tables@[i])@.wf()
    }

    /// An empty database.
    pub fn new() -> (db: Database)
        ensures
            db.tables@.len() == 0,
            db.wf(),
    {
        Database { tables: Vec::new() }
    }

    /// Whether table names are distinct and every table is well formed; a
    /// store read from elsewhere is checked with this before use.
    pub fn is_well_formed(&self) -> (r: bool)
        ensures
            r == self.wf(),
    {
        let mut i: usize = 0;
        while i < self.tables.len()
            invariant
                i <= self.tables.len(),
                forall|a: int, b: int| 0 <= a < b < i ==> self.tables@[a].name@ != self.tables@[b].name@,
                forall|a: int| 0 <= a < i ==> (#[trigger] self.tables@[a])@.wf(),
            decreases self.tables.len() - i,
        {
            if !self.tables[i].is_well_formed() {
                return false;
            }
            let mut j: usize = 0;
            while j < i
                invariant
                    j <= i < self.tables.len(),
                    forall|a: int| 0 <= a < j ==> self.tables@[a].name@ != self.tables@[i as int].name@,
                decreases i - j,
            {
                if self.tables[j].name.eq(&self.tables[i].name) {
                    return false;
                }
                j = j + 1;
            }
            i = i + 1;
        }
        true
    }

    /// The position of the table called `name`, if there is one.
    pub fn find_table(&self, name: &String) -> (r: Option<usize>)
        requires
            self.wf(),
        ensures
            r is Some <==> has_table(self.tables@, name@),
            r is Some ==> r->Some_0 == index_of(self.tables@, name@) && r->Some_0 < self.tables@.len(),
    {
        let mut i: usize = 0;
        while i < self.tables.len()
            invariant
                i <= self.tables.len(),
                self.wf(),
                forall|j: int| 0 <= j < i ==> self.tables@[j].name@ != name@,
            decreases self.tables.len() - i,
        {
            if self.tables[i].name.eq(name) {
                proof {
                    assert(self.tables@[i as int].name@ == name@);
                    assert(has_table(self.tables@, name@));
                    let k = index_of(self.tables@, name@);
                    assert(k == i) by {
                        if k < i {
                            assert(self.tables@[k].name@ != self.tables@[i as int].name@);
                        } else if k > i {
                            assert(self.tables@[i as int].name@ != self.tables@[k].name@);
                        }
                    }
                }
                return Some(i);
            }
            i = i + 1;
        }
        None
    }
}

} // verus!
