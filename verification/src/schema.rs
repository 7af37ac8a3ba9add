//! The catalog: tables in slots that are never reused, and a name per slot.

use vstd::prelude::*;
use crate::failure::{FailureView, SqlError, SqlFailure};
use crate::tables::{MemoryTable, TableView};

verus! {

/// The mathematical value of a catalog: the tables slot by slot, and for
/// each slot its name, or `None` once the table was dropped.
pub struct CatalogView {
    pub tables: Seq<TableView>,
    pub names: Seq<Option<Seq<char>>>,
}

impl CatalogView {
    /// A catalog without slots.
    pub open spec fn empty() -> CatalogView {
        CatalogView { tables: Seq::empty(), names: Seq::empty() }
    }

    /// Every slot has a name entry, every table is well formed, and no two
    /// live tables carry one name.
    pub open spec fn wf(self) -> bool {
        &&& self.tables.len() == self.names.len()
        &&& forall|i: int| 0 <= i < self.tables.len() ==> (#[trigger] self.tables[i]).wf()
        &&& self.live_names_differ()
    }

    /// In every table, every cell holds `Null` or a value of its column's
    /// type.
    pub open spec fn typed(self) -> bool {
        forall|i: int| 0 <= i < self.tables.len() ==> (#[trigger] self.tables[i]).typed()
    }

    /// No two live tables carry one name.
    pub open spec fn live_names_differ(self) -> bool {
        forall|i: int, j: int|
            0 <= i < j < self.names.len() && (#[trigger] self.names[i]) is Some
                ==> self.names[i] != #[trigger] self.names[j]
    }

    /// Slot `i` holds a live table called `name`.
    pub open spec fn named(self, name: Seq<char>, i: int) -> bool {
        0 <= i < self.names.len() && self.names[i] == Some(name)
    }

    /// Some live table is called `name`.
    pub open spec fn has_live(self, name: Seq<char>) -> bool {
        exists|i: int| self.named(name, i)
    }

    /// Slot `i` is the first that holds a live table called `name`: the slot
    /// the name resolves to.
    pub open spec fn resolves_to(self, name: Seq<char>, i: int) -> bool {
        self.named(name, i) && forall|j: int| 0 <= j < i ==> !self.named(name, j)
    }

    /// The catalog with an empty table called `name` in a new last slot.
    pub open spec fn with_table(self, name: Seq<char>) -> CatalogView {
        CatalogView {
            tables: self.tables.push(TableView::empty()),
            names: self.names.push(Some(name)),
        }
    }

    /// The catalog with the table in slot `i` dropped: the name is gone, the
    /// storage stays.
    pub open spec fn without_name(self, i: int) -> CatalogView {
        CatalogView { tables: self.tables, names: self.names.update(i, None) }
    }

    /// The catalog with the table in slot `i` replaced.
    pub open spec fn with_slot(self, i: int, table: TableView) -> CatalogView {
        CatalogView { tables: self.tables.update(i, table), names: self.names }
    }
}

/// One call that changes which tables a catalog lists.
pub enum CatalogStep {
    /// `create_table` with this name.
    Create(Seq<char>),
    /// `drop_table` of this slot.
    Drop(usize),
}

impl CatalogView {
    /// The catalog after one call: a creation under a live name and a drop
    /// of a slot that does not exist change nothing.
    pub open spec fn step(self, call: CatalogStep) -> CatalogView {
        match call {
            CatalogStep::Create(name) => if self.has_live(name) {
                self
            } else {
                self.with_table(name)
            },
            CatalogStep::Drop(i) => if i < self.tables.len() {
                self.without_name(i as int)
            } else {
                self
            },
        }
    }

    /// The catalog after a sequence of calls, first to last.
    pub open spec fn run(self, calls: Seq<CatalogStep>) -> CatalogView
        decreases calls.len(),
    {
        if calls.len() == 0 {
            self
        } else {
            self.run(calls.drop_last()).step(calls.last())
        }
    }
}

/// A name resolves to one slot at most.
pub proof fn lemma_resolves_to_one_slot(catalog: CatalogView, name: Seq<char>, i: int, j: int)
    requires
        catalog.resolves_to(name, i),
        catalog.resolves_to(name, j),
    ensures
        i == j,
{
    if i < j {
        assert(catalog.named(name, i));
    } else if j < i {
        assert(catalog.named(name, j));
    }
}

/// In a well-formed catalog the slot that holds a live table of a name is
/// the slot the name resolves to: there is no second.
pub proof fn lemma_live_name_resolves(catalog: CatalogView, name: Seq<char>, i: int)
    requires
        catalog.wf(),
        catalog.named(name, i),
    ensures
        catalog.resolves_to(name, i),
{
    assert forall|j: int| 0 <= j < i implies !catalog.named(name, j) by {
        if catalog.named(name, j) {
            assert(catalog.names[j] != catalog.names[i]);
        }
    }
}

/// A dropped table is gone by name: no live table carries the name any
/// more, while every slot, the dropped one too, keeps its storage.
pub proof fn lemma_dropped_table_is_gone(catalog: CatalogView, name: Seq<char>, i: int)
    requires
        catalog.wf(),
        catalog.named(name, i),
    ensures
        !catalog.without_name(i).has_live(name),
        catalog.without_name(i).tables == catalog.tables,
{
    let after = catalog.without_name(i);
    assert forall|j: int| !after.named(name, j) by {
        if after.named(name, j) {
            if i < j {
                assert(catalog.names[i] != catalog.names[j]);
            } else {
                assert(catalog.names[j] != catalog.names[i]);
            }
        }
    }
}

/// A creation and a drop keep a catalog well formed.
pub proof fn lemma_step_keeps_wf(catalog: CatalogView, call: CatalogStep)
    requires
        catalog.wf(),
    ensures
        catalog.step(call).wf(),
{
    let after = catalog.step(call);
    match call {
        CatalogStep::Create(name) => {
            if !catalog.has_live(name) {
                assert forall|i: int, j: int|
                    0 <= i < j < after.names.len() && (#[trigger] after.names[i]) is Some
                    implies after.names[i] != #[trigger] after.names[j] by {
                    if j == catalog.names.len() {
                        assert(!catalog.named(name, i));
                    } else {
                        assert(catalog.names[i] != catalog.names[j]);
                    }
                }
                assert forall|i: int| 0 <= i < after.tables.len() implies (#[trigger] after.tables[
                    i
                ]).wf() by {
                    if i < catalog.tables.len() {
                        assert(catalog.tables[i].wf());
                    }
                }
            }
        },
        CatalogStep::Drop(slot) => {
            if slot < catalog.tables.len() {
                assert forall|i: int, j: int|
                    0 <= i < j < after.names.len() && (#[trigger] after.names[i]) is Some
                    implies after.names[i] != #[trigger] after.names[j] by {
                    assert(catalog.names[i] != catalog.names[j]);
                }
            }
        },
    }
}

/// Slots are stable: whatever tables are created and dropped afterwards,
/// every slot that exists keeps its index and its table.
pub proof fn lemma_stable_addressing(catalog: CatalogView, calls: Seq<CatalogStep>)
    ensures
        catalog.tables.len() <= catalog.run(calls).tables.len(),
        forall|i: int|
            0 <= i < catalog.tables.len() ==> #[trigger] catalog.run(calls).tables[i]
                == catalog.tables[i],
        catalog.wf() ==> catalog.run(calls).wf(),
    decreases calls.len(),
{
    if calls.len() > 0 {
        lemma_stable_addressing(catalog, calls.drop_last());
        if catalog.wf() {
            lemma_step_keeps_wf(catalog.run(calls.drop_last()), calls.last());
        }
    }
}

/// The catalog of an engine.
#[derive(Clone, PartialEq, Debug)]
pub struct Schema {
    tables: Vec<MemoryTable>,
    // A slot whose name is `None` held a table that was dropped.
    names: Vec<Option<String>>,
}

impl View for Schema {
    type V = CatalogView;

    closed spec fn view(&self) -> CatalogView {
        CatalogView {
            tables: Seq::new(self.tables@.len(), |i: int| self.tables@[i]@),
            names: self.names.deep_view(),
        }
    }
}

impl Schema {
    /// The invariant of a catalog: its value is well formed.
    pub open spec fn wf(&self) -> bool {
        self@.wf()
    }

    /// A catalog without tables.
    pub fn new() -> (schema: Schema)
        ensures
            schema.wf(),
            schema@ == CatalogView::empty(),
    {
        let schema = Schema { tables: Vec::new(), names: Vec::new() };
        assert(schema@.tables =~= Seq::empty());
        assert(schema@.names =~= Seq::empty());
        schema
    }

    /// The slot a table name resolves to: the first live table of that name.
    /// Names are compared character for character.
    pub fn find_table(&self, name: &str) -> (slot: Option<usize>)
        ensures
            match slot {
                Some(i) => self@.resolves_to(name@, i as int),
                None => !self@.has_live(name@),
            },
    {
        let wanted = name.to_owned();
        let mut i: usize = 0;
        while i < self.names.len()
            invariant
                i <= self.names@.len(),
                wanted@ == name@,
                forall|j: int| 0 <= j < i ==> !self@.named(name@, j),
            decreases self.names@.len() - i,
        {
            let hit = match &self.names[i] {
                Some(n) => *n == wanted,
                None => false,
            };
            if hit {
                return Some(i);
            }
            i += 1;
        }
        None
    }

    /// As [`Schema::find_table`], with a missing name as a failure.
    pub fn find_table_or_err(&self, name: &str) -> (slot: SqlError<usize>)
        ensures
            match slot {
                Ok(i) => self@.resolves_to(name@, i as int),
                Err(e) => !self@.has_live(name@) && e@ == FailureView::TableNotFound(name@),
            },
    {
        match self.find_table(name) {
            Some(i) => Ok(i),
            None => Err(SqlFailure::TableNotFound(name.to_owned())),
        }
    }

    /// Applies `closure` to the table in slot `index`, which it may change,
    /// and returns what it returns. This is the one place where a slot index
    /// is checked on the way to a table that is written.
    ///
    /// The closure must accept the table as it stands in the slot, and must
    /// leave a well-formed table behind. What comes back is what the closure
    /// returned for that table, and the slot holds the table as the closure
    /// left it; the names and the other slots stay as they were. An index
    /// that names no slot fails, and nothing changes.
    pub fn map_on_table_mut<F, H>(&mut self, index: usize, closure: F) -> (res: SqlError<H>) where
        F: FnOnce(&mut MemoryTable) -> SqlError<H>,

        requires
            old(self).wf(),
            index < old(self)@.tables.len() ==> forall|t: &mut MemoryTable|
                mut_ref_current(t).wf() && mut_ref_current(t)@ == old(self)@.tables[index as int]
                    ==> #[trigger] call_requires(closure, (t,)),
            forall|t: &mut MemoryTable, r: SqlError<H>|
                mut_ref_current(t).wf() && #[trigger] call_ensures(closure, (t,), r)
                    ==> mut_ref_future(t).wf(),
        ensures
            final(self).wf(),
            index < old(self)@.tables.len() ==> exists|t: &mut MemoryTable|
                {
                    &&& mut_ref_current(t).wf()
                    &&& mut_ref_current(t)@ == old(self)@.tables[index as int]
                    &&& #[trigger] call_ensures(closure, (t,), res)
                    &&& final(self)@ == old(self)@.with_slot(index as int, mut_ref_future(t)@)
                },
            index >= old(self)@.tables.len() ==> {
                &&& final(self)@ == old(self)@
                &&& res matches Err(e)
                &&& e@ == FailureView::TableIndex(index)
            },
    {
        if index < self.tables.len() {
            assert(self@.tables[index as int].wf());
            let table = &mut self.tables[index];
            assert(mut_ref_current(table)@ == old(self)@.tables[index as int]);
            let res = closure(table);
            assert(self.tables@[index as int].wf());
            assert(self@.tables =~= old(self)@.tables.update(
                index as int,
                self.tables@[index as int]@,
            ));
            assert forall|i: int| 0 <= i < self@.tables.len() implies (#[trigger] self@.tables[
                i
            ]).wf() by {
                if i != index {
                    assert(old(self)@.tables[i].wf());
                }
            }
            res
        } else {
            Err(SqlFailure::TableIndex(index))
        }
    }

    /// Applies `closure` to the table in slot `index` and returns what it
    /// returns. This is the one place where a slot index is checked on the
    /// way to a table that is read.
    ///
    /// The closure must accept the table as it stands in the slot. What
    /// comes back is what the closure returned for that table. An index that
    /// names no slot fails.
    pub fn map_on_table<F, H>(&self, index: usize, closure: F) -> (res: SqlError<H>) where
        F: FnOnce(&MemoryTable) -> SqlError<H>,

        requires
            self.wf(),
            index < self@.tables.len() ==> forall|t: &MemoryTable|
                t.wf() && t@ == self@.tables[index as int] ==> #[trigger] call_requires(
                    closure,
                    (t,),
                ),
        ensures
            index < self@.tables.len() ==> exists|t: &MemoryTable|
                {
                    &&& t.wf()
                    &&& t@ == self@.tables[index as int]
                    &&& #[trigger] call_ensures(closure, (t,), res)
                },
            index >= self@.tables.len() ==> {
                &&& res matches Err(e)
                &&& e@ == FailureView::TableIndex(index)
            },
    {
        if index < self.tables.len() {
            assert(self@.tables[index as int].wf());
            closure(&self.tables[index])
        } else {
            Err(SqlFailure::TableIndex(index))
        }
    }

    /// Adds an empty table under a name that no live table carries, and
    /// returns its slot. The slots of the other tables stay as they are.
    pub fn create_table(&mut self, table_name: &String) -> (slot: SqlError<usize>)
        requires
            old(self).wf(),
        ensures
            final(self).wf(),
            match slot {
                Ok(i) => {
                    &&& !old(self)@.has_live(table_name@)
                    &&& i == old(self)@.tables.len()
                    &&& final(self)@ == old(self)@.with_table(table_name@)
                },
                Err(e) => {
                    &&& old(self)@.has_live(table_name@)
                    &&& e@ == FailureView::TableExists(table_name@)
                    &&& final(self)@ == old(self)@
                },
            },
            final(self)@ == old(self)@.step(CatalogStep::Create(table_name@)),
    {
        if self.find_table(table_name.as_str()).is_some() {
            return Err(SqlFailure::TableExists(table_name.clone()));
        }
        self.names.push(Some(table_name.clone()));
        self.tables.push(MemoryTable::new());
        assert(self@.tables =~= old(self)@.tables.push(TableView::empty()));
        assert(self@.names =~= old(self)@.names.push(Some(table_name@)));
        proof {
            lemma_step_keeps_wf(old(self)@, CatalogStep::Create(table_name@));
        }
        Ok(self.names.len() - 1)
    }

    /// Drops the table in slot `index`: its name is free again and resolves
    /// no longer. The slot and its storage stay, so the other slots keep
    /// their indices.
    pub fn drop_table(&mut self, index: usize) -> (res: SqlError<()>)
        requires
            old(self).wf(),
        ensures
            final(self).wf(),
            match res {
                Ok(_) => {
                    &&& index < old(self)@.tables.len()
                    &&& final(self)@ == old(self)@.without_name(index as int)
                },
                Err(e) => {
                    &&& index >= old(self)@.tables.len()
                    &&& e@ == FailureView::TableIndex(index)
                    &&& final(self)@ == old(self)@
                },
            },
            final(self)@ == old(self)@.step(CatalogStep::Drop(index)),
    {
        if index < self.names.len() {
            self.names[index] = None;
            assert(self@.names =~= old(self)@.names.update(index as int, None));
            Ok(())
        } else {
            Err(SqlFailure::TableIndex(index))
        }
    }
}

} // verus!
