//! The select path: a scan over the rows of one table, which keeps of each
//! row the requested columns.

use vstd::prelude::*;
use crate::definitions::{LiteralValue, LiteralView};
use crate::failure::{FailureView, SqlError, SqlFailure};
use crate::ir::select_ir::SelectIr;
use crate::ir::ColumnRef;
use crate::schema::{CatalogView, Schema};
use crate::tables::{MemoryTable, RowId, RowIdIterator};

verus! {

/// The mathematical value of a scan: the slot of the table it reads, the
/// positions of the columns it keeps, in the requested order, and the ids
/// of the rows it has still to visit.
pub struct ScanView {
    pub target: usize,
    pub columns: Seq<usize>,
    pub pending: Seq<int>,
}

/// Position `k` is the first that names a column beyond `width`.
pub open spec fn first_beyond(width: nat, column_ids: Seq<usize>, k: int) -> bool {
    &&& 0 <= k < column_ids.len()
    &&& column_ids[k] >= width
    &&& forall|j: int| 0 <= j < k ==> #[trigger] column_ids[j] < width
}

/// What keeping the columns `column_ids` of a row gives: the cells at
/// those positions, in the order of the positions requested. A position
/// that the row does not have fails the row.
pub open spec fn projection(
    cells: Seq<LiteralView>,
    column_ids: Seq<usize>,
    outcome: Result<Seq<LiteralView>, FailureView>,
) -> bool {
    match outcome {
        Ok(row) => {
            &&& row.len() == column_ids.len()
            &&& forall|k: int|
                0 <= k < column_ids.len() ==> column_ids[k] < cells.len() && #[trigger] row[k]
                    == cells[column_ids[k] as int]
        },
        Err(e) => exists|k: int|
            #[trigger] first_beyond(cells.len(), column_ids, k) && e == FailureView::ColumnIndex(
                column_ids[k],
            ),
    }
}

/// What fetching row `row_id` of the table in slot `target` gives: the
/// requested cells of the row, or why the row cannot be read.
pub open spec fn fetched(
    catalog: CatalogView,
    target: usize,
    column_ids: Seq<usize>,
    row_id: RowId,
    outcome: Result<Seq<LiteralView>, FailureView>,
) -> bool {
    if target >= catalog.tables.len() {
        outcome == Err::<Seq<LiteralView>, FailureView>(FailureView::TableIndex(target))
    } else {
        match catalog.tables[target as int].row(row_id) {
            Ok(cells) => projection(cells, column_ids, outcome),
            Err(e) => outcome == Err::<Seq<LiteralView>, FailureView>(e),
        }
    }
}

/// What the next step of a scan gives: the end of the rows where none is
/// pending, else the first pending row fetched.
pub open spec fn scan_step(
    catalog: CatalogView,
    scan: ScanView,
    outcome: Result<Seq<LiteralView>, FailureView>,
) -> bool {
    if scan.pending.len() == 0 {
        outcome == Err::<Seq<LiteralView>, FailureView>(FailureView::NoMoreRows)
    } else {
        fetched(catalog, scan.target, scan.columns, scan.pending[0] as usize, outcome)
    }
}

/// The scan after its next step: the first pending row is done with.
pub open spec fn after_step(scan: ScanView) -> ScanView {
    ScanView {
        target: scan.target,
        columns: scan.columns,
        pending: if scan.pending.len() == 0 {
            scan.pending
        } else {
            scan.pending.drop_first()
        },
    }
}

/// The positions of the columns that belong to the first table of a
/// statement, in the order in which the statement lists them.
pub open spec fn first_table_columns(cols: Seq<ColumnRef>) -> Seq<usize>
    decreases cols.len(),
{
    if cols.len() == 0 {
        Seq::empty()
    } else if cols.last().table_ref_index == 0 {
        first_table_columns(cols.drop_last()).push(cols.last().column_index)
    } else {
        first_table_columns(cols.drop_last())
    }
}

/// Keeps of a row the cells at the requested positions, in the requested
/// order.
pub fn project_row(row: &Vec<LiteralValue>, column_ids: &Vec<usize>) -> (res: SqlError<
    Vec<LiteralValue>,
>)
    ensures
        match res {
            Ok(kept) => projection(row.deep_view(), column_ids@, Ok(kept.deep_view())),
            Err(e) => projection(row.deep_view(), column_ids@, Err(e@)),
        },
{
    let mut kept: Vec<LiteralValue> = Vec::new();
    let mut k: usize = 0;
    while k < column_ids.len()
        invariant
            k <= column_ids@.len(),
            kept@.len() == k,
            forall|j: int| 0 <= j < k ==> #[trigger] column_ids@[j] < row@.len(),
            forall|j: int| 0 <= j < k ==> (#[trigger] kept@[j])@ == row@[column_ids@[j] as int]@,
        decreases column_ids@.len() - k,
    {
        let position = column_ids[k];
        if position >= row.len() {
            assert(first_beyond(row.deep_view().len(), column_ids@, k as int));
            return Err(SqlFailure::ColumnIndex(position));
        }
        kept.push(row[position].clone());
        k += 1;
    }
    assert forall|j: int| 0 <= j < column_ids@.len() implies column_ids@[j] < row.deep_view().len()
        && #[trigger] kept.deep_view()[j] == row.deep_view()[column_ids@[j] as int] by {
        assert(kept.deep_view()[j] == kept@[j]@);
    }
    Ok(kept)
}

/// A scan over all rows of one table that were visible when the scan was
/// built.
pub struct FullTableScan {
    table_index: usize,
    column_ids: Vec<usize>,
    table_iter: RowIdIterator,
}

impl View for FullTableScan {
    type V = ScanView;

    closed spec fn view(&self) -> ScanView {
        ScanView {
            target: self.table_index,
            columns: self.column_ids@,
            pending: self.table_iter@,
        }
    }
}

impl FullTableScan {
    /// Fetches the next row: its requested cells, in the requested order.
    /// The end of the rows is reported as a failure of its own.
    pub fn get_next_row(&mut self, schema: &Schema) -> (res: SqlError<Vec<LiteralValue>>)
        requires
            schema.wf(),
        ensures
            final(self)@ == after_step(old(self)@),
            match res {
                Ok(row) => scan_step(schema@, old(self)@, Ok(row.deep_view())),
                Err(e) => scan_step(schema@, old(self)@, Err(e@)),
            },
    {
        let row_id = match self.table_iter.next() {
            Some(id) => id,
            None => {
                assert(self.table_iter@ =~= old(self).table_iter@);
                return Err(SqlFailure::NoMoreRows);
            },
        };
        assert(old(self)@.pending[0] == row_id);
        assert(self.table_iter@ =~= old(self)@.pending.drop_first());
        let column_ids = &self.column_ids;
        let fetch = |table: &MemoryTable| -> (r: SqlError<Vec<LiteralValue>>)
            requires
                table.wf(),
            ensures
                match table@.row(row_id) {
                    Ok(cells) => match r {
                        Ok(kept) => projection(cells, column_ids@, Ok(kept.deep_view())),
                        Err(e) => projection(cells, column_ids@, Err(e@)),
                    },
                    Err(e) => r matches Err(f) && f@ == e,
                },
            {
                match table.get_row(row_id) {
                    Ok(row) => project_row(&row, column_ids),
                    Err(e) => Err(e),
                }
            };
        schema.map_on_table(self.table_index, fetch)
    }

    /// A scan over the rows of the table in slot `table_index` that are
    /// visible now.
    pub fn new(table_index: usize, column_ids: Vec<usize>, schema: &Schema) -> (res: SqlError<
        FullTableScan,
    >)
        requires
            schema.wf(),
        ensures
            match res {
                Ok(scan) => {
                    &&& table_index < schema@.tables.len()
                    &&& scan@ == (ScanView {
                        target: table_index,
                        columns: column_ids@,
                        pending: schema@.tables[table_index as int].visible(),
                    })
                },
                Err(e) => {
                    &&& table_index >= schema@.tables.len()
                    &&& e@ == FailureView::TableIndex(table_index)
                },
            },
    {
        let snapshot = |table: &MemoryTable| -> (r: SqlError<RowIdIterator>)
            ensures
                r matches Ok(iter) && iter@ == table@.visible(),
            {
                Ok(table.rowid_iter())
            };
        match schema.map_on_table(table_index, snapshot) {
            Ok(iterator) => Ok(FullTableScan { table_index, table_iter: iterator, column_ids }),
            Err(e) => Err(e),
        }
    }
}

/// The rows a `SELECT` gives, one at a time.
pub struct ResultSet {
    table_scan: FullTableScan,
}

impl View for ResultSet {
    type V = ScanView;

    closed spec fn view(&self) -> ScanView {
        self.table_scan@
    }
}

impl ResultSet {
    /// Fetches the next row. The catalog is read, not changed.
    pub fn get_next_row(&mut self, schema: &mut Schema) -> (res: SqlError<Vec<LiteralValue>>)
        requires
            old(schema).wf(),
        ensures
            final(schema).wf(),
            final(schema)@ == old(schema)@,
            final(self)@ == after_step(old(self)@),
            match res {
                Ok(row) => scan_step(old(schema)@, old(self)@, Ok(row.deep_view())),
                Err(e) => scan_step(old(schema)@, old(self)@, Err(e@)),
            },
    {
        self.table_scan.get_next_row(schema)
    }
}

/// Plans a `SELECT`: a scan over the statement's first table that keeps the
/// projected columns of that table.
pub fn build_select_plan(ir: &SelectIr, schema: &Schema) -> (res: SqlError<ResultSet>)
    requires
        schema.wf(),
    ensures
        match res {
            Ok(plan) => {
                &&& ir.tables@.len() > 0
                &&& ir.tables@[0].table_index < schema@.tables.len()
                &&& plan@ == (ScanView {
                    target: ir.tables@[0].table_index,
                    columns: first_table_columns(ir.columns@),
                    pending: schema@.tables[ir.tables@[0].table_index as int].visible(),
                })
            },
            Err(e) => if ir.tables@.len() == 0 {
                e@ == FailureView::NoSourceTable
            } else {
                &&& ir.tables@[0].table_index >= schema@.tables.len()
                &&& e@ == FailureView::TableIndex(ir.tables@[0].table_index)
            },
        },
{
    let mut table_column_ids: Vec<usize> = Vec::new();
    let mut k: usize = 0;
    while k < ir.columns.len()
        invariant
            k <= ir.columns@.len(),
            table_column_ids@ == first_table_columns(ir.columns@.take(k as int)),
        decreases ir.columns@.len() - k,
    {
        let column_ref = &ir.columns[k];
        assert(ir.columns@.take(k as int + 1).drop_last() =~= ir.columns@.take(k as int));
        if column_ref.table_ref_index == 0 {
            table_column_ids.push(column_ref.column_index);
        }
        k += 1;
    }
    assert(ir.columns@.take(k as int) =~= ir.columns@);
    if ir.tables.len() == 0 {
        return Err(SqlFailure::NoSourceTable);
    }
    match FullTableScan::new(ir.tables[0].table_index, table_column_ids, schema) {
        Ok(table_scan) => Ok(ResultSet { table_scan }),
        Err(e) => Err(e),
    }
}

/// Keeping columns of a row has one outcome.
pub proof fn lemma_projection_decided(
    cells: Seq<LiteralView>,
    column_ids: Seq<usize>,
    a: Result<Seq<LiteralView>, FailureView>,
    b: Result<Seq<LiteralView>, FailureView>,
)
    requires
        projection(cells, column_ids, a),
        projection(cells, column_ids, b),
    ensures
        a == b,
{
    match (a, b) {
        (Ok(x), Ok(y)) => {
            assert forall|k: int| 0 <= k < x.len() implies x[k] == y[k] by {
                assert(x[k] == cells[column_ids[k] as int]);
                assert(y[k] == cells[column_ids[k] as int]);
            }
            assert(x =~= y);
        },
        (Err(e), Err(f)) => {
            let i = choose|i: int|
                #[trigger] first_beyond(cells.len(), column_ids, i) && e
                    == FailureView::ColumnIndex(column_ids[i]);
            let j = choose|j: int|
                #[trigger] first_beyond(cells.len(), column_ids, j) && f
                    == FailureView::ColumnIndex(column_ids[j]);
            if i < j {
                assert(column_ids[i] < cells.len());
            } else if j < i {
                assert(column_ids[j] < cells.len());
            }
        },
        (Ok(x), Err(e)) => {
            let i = choose|i: int|
                #[trigger] first_beyond(cells.len(), column_ids, i) && e
                    == FailureView::ColumnIndex(column_ids[i]);
            assert(x[i] == cells[column_ids[i] as int]);
        },
        (Err(e), Ok(y)) => {
            let i = choose|i: int|
                #[trigger] first_beyond(cells.len(), column_ids, i) && e
                    == FailureView::ColumnIndex(column_ids[i]);
            assert(y[i] == cells[column_ids[i] as int]);
        },
    }
}

/// A step of a scan has one outcome: the catalog and the scan decide which
/// row comes out, or which failure.
pub proof fn lemma_scan_step_decided(
    catalog: CatalogView,
    scan: ScanView,
    a: Result<Seq<LiteralView>, FailureView>,
    b: Result<Seq<LiteralView>, FailureView>,
)
    requires
        scan_step(catalog, scan, a),
        scan_step(catalog, scan, b),
    ensures
        a == b,
{
    if scan.pending.len() > 0 && scan.target < catalog.tables.len() {
        match catalog.tables[scan.target as int].row(scan.pending[0] as usize) {
            Ok(cells) => {
                lemma_projection_decided(cells, scan.columns, a, b);
            },
            Err(_) => {},
        }
    }
}

} // verus!
