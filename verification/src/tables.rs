//! Columnar storage for one relation, with tombstoned rows.

use vstd::prelude::*;
use bit_vec::BitVec;
use crate::bitmap::{bit_seq, bits_clone, bits_get, bits_len, bits_new, bits_push, bits_set};
use crate::definitions::{ColumnDefinition, ColumnType, ColumnView, LiteralValue, LiteralView};
use crate::failure::{FailureView, SqlError, SqlFailure};

verus! {

/// A 0-based position in a table's parallel arrays. A row id is assigned
/// once and never reused.
pub type RowId = usize;

/// The positions at or after `from` whose bit is set, in ascending order.
pub open spec fn live_rows(live: Seq<bool>, from: int) -> Seq<int>
    decreases live.len() - from,
{
    if from < 0 || from >= live.len() {
        Seq::empty()
    } else if live[from] {
        seq![from] + live_rows(live, from + 1)
    } else {
        live_rows(live, from + 1)
    }
}

/// A cell fits a column type if it holds `Null` or a value of the type.
pub open spec fn cell_fits(cell: LiteralView, col_type: ColumnType) -> bool {
    cell is Null || cell.has_type(col_type)
}

/// The mathematical value of a table: its column definitions, one array of
/// cells per column, and one validity bit per row slot.
pub struct TableView {
    pub columns: Seq<ColumnView>,
    pub cells: Seq<Seq<LiteralView>>,
    pub live: Seq<bool>,
}

impl TableView {
    /// A table without columns or rows.
    pub open spec fn empty() -> TableView {
        TableView { columns: Seq::empty(), cells: Seq::empty(), live: Seq::empty() }
    }

    /// Every column has a cell array, and every cell array has one cell per
    /// row slot.
    pub open spec fn wf(self) -> bool {
        &&& self.cells.len() == self.columns.len()
        &&& forall|c: int|
            0 <= c < self.cells.len() ==> (#[trigger] self.cells[c]).len() == self.live.len()
    }

    /// Every cell fits the type of its column. A table keeps this as long
    /// as the rows stored in it do; the table itself stores what it is
    /// given.
    pub open spec fn typed(self) -> bool {
        forall|c: int, r: int|
            0 <= c < self.columns.len() && 0 <= r < self.live.len() ==> cell_fits(
                #[trigger] self.cells[c][r],
                self.columns[c].ctype,
            )
    }

    /// The number of row slots, tombstoned ones included.
    pub open spec fn raw_len(self) -> nat {
        self.live.len()
    }

    /// The cells stored in slot `r`, one per column in declared order.
    pub open spec fn cells_of(self, r: int) -> Seq<LiteralView> {
        Seq::new(self.columns.len(), |c: int| self.cells[c][r])
    }

    /// What reading row `r` gives: its cells, or why it cannot be read.
    pub open spec fn row(self, r: usize) -> Result<Seq<LiteralView>, FailureView> {
        if r >= self.live.len() {
            Err(FailureView::RowMissing(r))
        } else if !self.live[r as int] {
            Err(FailureView::RowDeleted(r))
        } else {
            Ok(self.cells_of(r as int))
        }
    }

    /// The ids of the visible rows, in ascending order.
    pub open spec fn visible(self) -> Seq<int> {
        live_rows(self.live, 0)
    }

    /// The table with one more column, `Null` in every existing row slot.
    pub open spec fn with_column(self, def: ColumnView) -> TableView {
        TableView {
            columns: self.columns.push(def),
            cells: self.cells.push(Seq::new(self.live.len(), |r: int| LiteralView::Null)),
            live: self.live,
        }
    }

    /// The table with more columns, `Null` in every existing row slot of
    /// each.
    pub open spec fn with_columns(self, defs: Seq<ColumnView>) -> TableView {
        TableView {
            columns: self.columns + defs,
            cells: self.cells + Seq::new(
                defs.len(),
                |c: int| Seq::new(self.live.len(), |r: int| LiteralView::Null),
            ),
            live: self.live,
        }
    }

    /// The table with `row` stored in a new, visible slot at the end.
    pub open spec fn with_row(self, row: Seq<LiteralView>) -> TableView {
        TableView {
            columns: self.columns,
            cells: Seq::new(self.cells.len(), |c: int| self.cells[c].push(row[c])),
            live: self.live.push(true),
        }
    }

    /// What storing `row` gives: the id of the new slot, which is the number
    /// of slots before. A row that has not one cell per column is rejected,
    /// and so is any row once every id is taken.
    pub open spec fn insert_result(self, row: Seq<LiteralView>) -> Result<RowId, FailureView> {
        if row.len() != self.columns.len() {
            Err(FailureView::RowWidth)
        } else if self.raw_len() >= usize::MAX {
            Err(FailureView::TableFull)
        } else {
            Ok(self.raw_len() as usize)
        }
    }

    /// The table after storing `row`: with the row where it was accepted,
    /// unchanged where it was rejected.
    pub open spec fn after_insert(self, row: Seq<LiteralView>) -> TableView {
        if self.insert_result(row) is Ok {
            self.with_row(row)
        } else {
            self
        }
    }

    /// The table with slot `r` tombstoned; its cells stay in place.
    pub open spec fn without_row(self, r: int) -> TableView {
        TableView { columns: self.columns, cells: self.cells, live: self.live.update(r, false) }
    }
}

/// Columnar storage for one relation.
#[derive(PartialEq, Debug)]
pub struct MemoryTable {
    column_defs: Vec<ColumnDefinition>,
    columns_data: Vec<Vec<LiteralValue>>,
    rows_status: BitVec,
}

impl View for MemoryTable {
    type V = TableView;

    closed spec fn view(&self) -> TableView {
        TableView {
            columns: self.column_defs.deep_view(),
            cells: self.columns_data.deep_view(),
            live: bit_seq(self.rows_status),
        }
    }
}

impl Clone for MemoryTable {
    /// A table of its own that holds the same columns, cells and bits.
    fn clone(&self) -> (res: Self)
        ensures
            res@ == self@,
    {
        let res = MemoryTable {
            column_defs: self.column_defs.clone(),
            columns_data: self.columns_data.clone(),
            rows_status: bits_clone(&self.rows_status),
        };
        assert(res@.columns =~= self@.columns);
        assert(res@.cells =~= self@.cells);
        res
    }
}

impl MemoryTable {
    /// The invariant of a table: its value is well formed.
    pub open spec fn wf(&self) -> bool {
        self@.wf()
    }

    /// A table without columns or rows.
    pub fn new() -> (table: MemoryTable)
        ensures
            table.wf(),
            table@ == TableView::empty(),
    {
        let table = MemoryTable {
            column_defs: Vec::new(),
            columns_data: Vec::new(),
            rows_status: bits_new(),
        };
        assert(table@.columns =~= Seq::empty());
        assert(table@.cells =~= Seq::empty());
        table
    }

    /// The column definitions, in declared order.
    pub fn columns(&self) -> (defs: &[ColumnDefinition])
        ensures
            defs.deep_view() == self@.columns,
    {
        let defs = self.column_defs.as_slice();
        assert(defs.deep_view() =~= self@.columns);
        defs
    }

    /// The number of row slots, tombstoned ones included.
    pub fn raw_len(&self) -> (n: usize)
        ensures
            n == self@.raw_len(),
    {
        bits_len(&self.rows_status)
    }

    /// The number of visible rows.
    pub fn len(&self) -> (n: usize)
        ensures
            n == self@.visible().len(),
    {
        let total = bits_len(&self.rows_status);
        let mut i: usize = total;
        let mut count: usize = 0;
        while i > 0
            invariant
                i <= total,
                total == bit_seq(self.rows_status).len(),
                count == live_rows(bit_seq(self.rows_status), i as int).len(),
                count <= total - i,
            decreases i,
        {
            i -= 1;
            match bits_get(&self.rows_status, i) {
                Some(true) => {
                    count += 1;
                },
                _ => {},
            }
        }
        count
    }

    /// Appends a column. Every existing row slot gets `Null` in it, so all
    /// cell arrays keep one length.
    pub fn add_column(&mut self, column_def: ColumnDefinition)
        requires
            old(self).wf(),
        ensures
            final(self).wf(),
            final(self)@ == old(self)@.with_column(column_def@),
            final(self)@.raw_len() == old(self)@.raw_len(),
            final(self)@.cells.last().len() == old(self)@.raw_len(),
            forall|r: int|
                0 <= r < old(self)@.raw_len() ==> #[trigger] final(self)@.cells.last()[r]
                    == LiteralView::Null,
    {
        let slots = bits_len(&self.rows_status);
        let mut nulls: Vec<LiteralValue> = Vec::new();
        let mut r: usize = 0;
        while r < slots
            invariant
                r <= slots,
                nulls@.len() == r,
                forall|k: int| 0 <= k < r ==> (#[trigger] nulls@[k])@ == LiteralView::Null,
            decreases slots - r,
        {
            nulls.push(LiteralValue::Null);
            r += 1;
        }
        assert(nulls.deep_view() =~= Seq::new(slots as nat, |r: int| LiteralView::Null));
        self.column_defs.push(column_def);
        self.columns_data.push(nulls);
        assert(self@.columns =~= old(self)@.columns.push(column_def@));
        assert(self@.cells =~= old(self)@.cells.push(nulls.deep_view()));
    }

    /// Stores `row` in a new slot and returns its id. The row must have one
    /// cell per column; the cells are stored as they are, whatever the
    /// columns' declared types.
    pub fn insert_row(&mut self, row: Vec<LiteralValue>) -> (res: SqlError<RowId>)
        requires
            old(self).wf(),
        ensures
            final(self).wf(),
            final(self)@ == old(self)@.after_insert(row.deep_view()),
            match res {
                Ok(id) => old(self)@.insert_result(row.deep_view()) == Ok::<RowId, FailureView>(id),
                Err(e) => old(self)@.insert_result(row.deep_view()) == Err::<RowId, FailureView>(
                    e@,
                ),
            },
    {
        let width = row.len();
        if width != self.column_defs.len() {
            return Err(SqlFailure::RowWidth);
        }
        let id = bits_len(&self.rows_status);
        if id == usize::MAX {
            return Err(SqlFailure::TableFull);
        }
        let mut rest = row;
        let mut c: usize = width;
        while c > 0
            invariant
                c <= width,
                width == row@.len(),
                width == self.columns_data@.len(),
                old(self).wf(),
                self.column_defs == old(self).column_defs,
                self.rows_status == old(self).rows_status,
                rest@ == row@.subrange(0, c as int),
                forall|k: int|
                    0 <= k < c ==> #[trigger] self.columns_data@[k] == old(self).columns_data@[k],
                forall|k: int|
                    c <= k < width ==> (#[trigger] self.columns_data@[k])@
                        == old(self).columns_data@[k]@.push(row@[k]),
            decreases c,
        {
            c -= 1;
            let cell = rest.pop().unwrap();
            self.columns_data[c].push(cell);
        }
        bits_push(&mut self.rows_status, true);
        proof {
            let after = old(self)@.with_row(row.deep_view());
            assert forall|k: int| 0 <= k < width implies #[trigger] self@.cells[k]
                == after.cells[k] by {
                assert(self.columns_data@[k]@ == old(self).columns_data@[k]@.push(row@[k]));
                assert(old(self)@.cells[k].len() == old(self)@.live.len());
                assert(self@.cells[k] =~= old(self)@.cells[k].push(row.deep_view()[k]));
            }
            assert(self@.cells =~= after.cells);
        }
        Ok(id)
    }

    /// Tombstones a row: its id is never yielded again, and reading it
    /// fails, while its cells stay where they are. Fails as reading the row
    /// would.
    pub fn drop_row(&mut self, rowid: RowId) -> (res: SqlError<()>)
        requires
            old(self).wf(),
        ensures
            final(self).wf(),
            match res {
                Ok(_) => {
                    &&& old(self)@.row(rowid) is Ok
                    &&& final(self)@ == old(self)@.without_row(rowid as int)
                },
                Err(e) => {
                    &&& old(self)@.row(rowid) == Err::<Seq<LiteralView>, FailureView>(e@)
                    &&& final(self)@ == old(self)@
                },
            },
    {
        match bits_get(&self.rows_status, rowid) {
            None => Err(SqlFailure::RowMissing(rowid)),
            Some(false) => Err(SqlFailure::RowDeleted(rowid)),
            Some(true) => {
                bits_set(&mut self.rows_status, rowid, false);
                Ok(())
            },
        }
    }

    /// Reads a row: a copy of its cells, one per column in declared order.
    /// Fails for an id that was never assigned, and differently for one that
    /// is tombstoned.
    pub fn get_row(&self, rowid: RowId) -> (res: SqlError<Vec<LiteralValue>>)
        requires
            self.wf(),
        ensures
            match res {
                Ok(row) => self@.row(rowid) == Ok::<Seq<LiteralView>, FailureView>(row.deep_view()),
                Err(e) => self@.row(rowid) == Err::<Seq<LiteralView>, FailureView>(e@),
            },
    {
        match bits_get(&self.rows_status, rowid) {
            None => Err(SqlFailure::RowMissing(rowid)),
            Some(false) => Err(SqlFailure::RowDeleted(rowid)),
            Some(true) => {
                let width = self.columns_data.len();
                let mut row: Vec<LiteralValue> = Vec::new();
                let mut c: usize = 0;
                while c < width
                    invariant
                        c <= width,
                        width == self.columns_data@.len(),
                        self.wf(),
                        rowid < bit_seq(self.rows_status).len(),
                        row@.len() == c,
                        forall|k: int|
                            0 <= k < c ==> #[trigger] row@[k] == self.columns_data@[k]@[rowid as int
                            ],
                    decreases width - c,
                {
                    assert(self@.cells[c as int].len() == self@.live.len());
                    row.push(self.columns_data[c][rowid].clone());
                    c += 1;
                }
                assert(row.deep_view() =~= self@.cells_of(rowid as int));
                Ok(row)
            },
        }
    }

    /// A cursor over the ids of the rows visible now. Rows dropped or stored
    /// afterwards do not change what it yields.
    pub fn rowid_iter(&self) -> (iter: RowIdIterator)
        ensures
            iter@ == self@.visible(),
    {
        RowIdIterator { bit_vec: bits_clone(&self.rows_status), next_rowid: 0 }
    }

    /// The cell stored for a row slot in a column, tombstoned or not; `None`
    /// where the table has no such column or the column no such slot.
    pub fn get_row_col(&self, rowid: RowId, column_id: usize) -> (cell: Option<&LiteralValue>)
        ensures
            match cell {
                Some(v) => {
                    &&& column_id < self@.cells.len()
                    &&& rowid < self@.cells[column_id as int].len()
                    &&& v@ == self@.cells[column_id as int][rowid as int]
                },
                None => column_id >= self@.cells.len()
                    || rowid >= self@.cells[column_id as int].len(),
            },
    {
        if column_id < self.columns_data.len() {
            let column = &self.columns_data[column_id];
            if rowid < column.len() {
                Some(&column[rowid])
            } else {
                None
            }
        } else {
            None
        }
    }
}

/// A cursor over row ids: a snapshot of a table's validity bits and the
/// position from which the next visible row is sought.
pub struct RowIdIterator {
    bit_vec: BitVec,
    next_rowid: usize,
}

impl View for RowIdIterator {
    type V = Seq<int>;

    /// The ids still to be yielded, in order.
    closed spec fn view(&self) -> Seq<int> {
        live_rows(bit_seq(self.bit_vec), self.next_rowid as int)
    }
}

impl RowIdIterator {
    /// Yields the next visible row id of the snapshot, skipping tombstoned
    /// slots, or `None` once there is none left.
    pub fn next(&mut self) -> (id: Option<RowId>)
        ensures
            match id {
                Some(r) => old(self)@ == seq![r as int] + final(self)@,
                None => old(self)@.len() == 0 && final(self)@.len() == 0,
            },
    {
        let slots = bits_len(&self.bit_vec);
        let mut pos: usize = self.next_rowid;
        loop
            invariant
                self.bit_vec == old(self).bit_vec,
                slots == bit_seq(self.bit_vec).len(),
                live_rows(bit_seq(self.bit_vec), pos as int) == old(self)@,
            decreases bit_seq(self.bit_vec).len() - pos,
        {
            match bits_get(&self.bit_vec, pos) {
                Some(true) => {
                    self.next_rowid = pos + 1;
                    return Some(pos);
                },
                Some(false) => {
                    pos += 1;
                },
                None => {
                    self.next_rowid = pos;
                    return None;
                },
            }
        }
    }
}

/// What `live_rows` holds: exactly the positions from `from` on whose bit is
/// set, each once, in ascending order.
pub proof fn lemma_live_rows(live: Seq<bool>, from: int)
    requires
        0 <= from,
    ensures
        forall|k: int|
            0 <= k < live_rows(live, from).len() ==> {
                let r = #[trigger] live_rows(live, from)[k];
                from <= r < live.len() && live[r]
            },
        forall|j: int, k: int|
            0 <= j < k < live_rows(live, from).len() ==> live_rows(live, from)[j] < live_rows(
                live,
                from,
            )[k],
        forall|r: int| from <= r < live.len() && live[r] ==> live_rows(live, from).contains(r),
    decreases live.len() - from,
{
    if from < live.len() {
        lemma_live_rows(live, from + 1);
        let rest = live_rows(live, from + 1);
        let all = live_rows(live, from);
        if live[from] {
            assert(all =~= seq![from] + rest);
            assert(all[0] == from);
            assert forall|r: int| from <= r < live.len() && live[r] implies all.contains(r) by {
                if r == from {
                    assert(all[0] == r);
                } else {
                    assert(rest.contains(r));
                    let k = choose|k: int| 0 <= k < rest.len() && rest[k] == r;
                    assert(all[k + 1] == r);
                }
            }
        } else {
            assert(all =~= rest);
        }
    }
}

/// A tombstoned row is never yielded again, and reading it is told apart
/// from reading a row that never existed; the other rows are read as before.
pub proof fn lemma_tombstone(table: TableView, r: usize)
    requires
        r < table.raw_len(),
    ensures
        !table.without_row(r as int).visible().contains(r as int),
        table.without_row(r as int).row(r) == Err::<Seq<LiteralView>, FailureView>(
            FailureView::RowDeleted(r),
        ),
        forall|m: usize|
            m >= table.raw_len() ==> #[trigger] table.without_row(r as int).row(m) == Err::<
                Seq<LiteralView>,
                FailureView,
            >(FailureView::RowMissing(m)),
        forall|m: usize| m != r ==> #[trigger] table.without_row(r as int).row(m) == table.row(m),
{
    let after = table.without_row(r as int);
    lemma_live_rows(after.live, 0);
    if after.visible().contains(r as int) {
        let k = choose|k: int| 0 <= k < after.visible().len() && after.visible()[k] == r as int;
        assert(after.live[after.visible()[k]]);
    }
    assert forall|m: usize| m != r implies #[trigger] after.row(m) == table.row(m) by {
        if m < table.live.len() && table.live[m as int] {
            assert(after.cells_of(m as int) =~= table.cells_of(m as int));
        }
    }
}

/// A stored row reads back cell for cell under the id it was given, and the
/// rows stored before read as they did.
pub proof fn lemma_stored_row_reads_back(table: TableView, row: Seq<LiteralView>)
    requires
        table.wf(),
        row.len() == table.columns.len(),
        table.raw_len() < usize::MAX,
    ensures
        table.with_row(row).wf(),
        table.with_row(row).row(table.raw_len() as usize) == Ok::<Seq<LiteralView>, FailureView>(
            row,
        ),
        forall|m: usize|
            m < table.raw_len() ==> #[trigger] table.with_row(row).row(m) == table.row(m),
{
    let after = table.with_row(row);
    let id = table.raw_len() as usize;
    assert(after.cells_of(id as int) =~= row);
    assert forall|m: usize| m < table.raw_len() implies #[trigger] after.row(m) == table.row(
        m,
    ) by {
        assert(after.cells_of(m as int) =~= table.cells_of(m as int));
    }
}

/// A table whose cells fit their columns keeps that when a row is stored
/// whose cells fit, when a column is added, and when a row is tombstoned.
pub proof fn lemma_typed_is_kept(table: TableView, row: Seq<LiteralView>, def: ColumnView, r: int)
    requires
        table.wf(),
        table.typed(),
    ensures
        row.len() == table.columns.len() && (forall|c: int|
            0 <= c < row.len() ==> cell_fits(#[trigger] row[c], table.columns[c].ctype))
            ==> table.with_row(row).typed(),
        table.with_column(def).typed(),
        0 <= r < table.raw_len() ==> table.without_row(r).typed(),
{
    if row.len() == table.columns.len() && (forall|c: int|
        0 <= c < row.len() ==> cell_fits(#[trigger] row[c], table.columns[c].ctype)) {
        let after = table.with_row(row);
        assert forall|c: int, r: int|
            0 <= c < after.columns.len() && 0 <= r < after.live.len() implies cell_fits(
            #[trigger] after.cells[c][r],
            after.columns[c].ctype,
        ) by {
            assert(table.cells[c].len() == table.live.len());
            if r < table.live.len() {
                assert(after.cells[c][r] == table.cells[c][r]);
            } else {
                assert(after.cells[c][r] == row[c]);
            }
        }
    }
    let wider = table.with_column(def);
    assert forall|c: int, r: int|
        0 <= c < wider.columns.len() && 0 <= r < wider.live.len() implies cell_fits(
        #[trigger] wider.cells[c][r],
        wider.columns[c].ctype,
    ) by {
        if c < table.columns.len() {
            assert(wider.cells[c][r] == table.cells[c][r]);
        }
    }
    if 0 <= r < table.raw_len() {
        let fewer = table.without_row(r);
        assert forall|c: int, s: int|
            0 <= c < fewer.columns.len() && 0 <= s < fewer.live.len() implies cell_fits(
            #[trigger] fewer.cells[c][s],
            fewer.columns[c].ctype,
        ) by {
            assert(fewer.cells[c][s] == table.cells[c][s]);
        }
    }
}

} // verus!
