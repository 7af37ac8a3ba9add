//! The insert path: a full-width row is built from the listed columns and
//! their values, coerced to the columns' types, and stored once.

use vstd::prelude::*;
use crate::definitions::{ColumnDefinition, ColumnType, LiteralValue, LiteralView};
use crate::failure::{FailureView, SqlError, SqlFailure};
use crate::ir::insert_ir::InsertIr;
use crate::ir::{ColumnRef, TableRef};
use crate::plan::StaticRow;
use crate::schema::{CatalogView, Schema};
use crate::tables::{cell_fits, MemoryTable, RowId, TableView};

verus! {

/// The cells of a row of `width` columns after the first `upto` values
/// were placed, each at the position its column reference names: `None`
/// where nothing was placed. A later value replaces an earlier one.
pub open spec fn placed(
    width: nat,
    cols: Seq<ColumnRef>,
    values: Seq<LiteralView>,
    upto: int,
) -> Seq<Option<LiteralView>>
    decreases upto,
{
    if upto <= 0 {
        Seq::new(width, |c: int| None)
    } else {
        placed(width, cols, values, upto - 1).update(
            cols[upto - 1].column_index as int,
            Some(values[upto - 1]),
        )
    }
}

/// What is stored for a cell: `Null` where nothing was placed, else the
/// placed value coerced to the column's type.
pub open spec fn stored_cell(cell: Option<LiteralView>, col_type: ColumnType) -> Result<
    LiteralView,
    FailureView,
> {
    match cell {
        None => Ok(LiteralView::Null),
        Some(v) => v.coerce(col_type),
    }
}

/// Every column reference names a position within `width`.
pub open spec fn all_placeable(width: nat, cols: Seq<ColumnRef>) -> bool {
    forall|k: int| 0 <= k < cols.len() ==> (#[trigger] cols[k]).column_index < width
}

/// Reference `k` is the first that names a position beyond `width`.
pub open spec fn first_misplaced(width: nat, cols: Seq<ColumnRef>, k: int) -> bool {
    &&& 0 <= k < cols.len()
    &&& cols[k].column_index >= width
    &&& forall|j: int| 0 <= j < k ==> (#[trigger] cols[j]).column_index < width
}

/// Column `c` is the first whose placed value cannot be coerced.
pub open spec fn first_uncoercible(
    columns: Seq<ColumnType>,
    cells: Seq<Option<LiteralView>>,
    c: int,
) -> bool {
    &&& 0 <= c < columns.len()
    &&& stored_cell(cells[c], columns[c]) is Err
    &&& forall|j: int| 0 <= j < c ==> stored_cell(#[trigger] cells[j], columns[j]) is Ok
}

/// What building the row for columns of the types `columns` gives. There
/// must be one value per column reference, and every reference must name a
/// column. Then the values are placed, and each placed value is coerced;
/// the first column whose value cannot be coerced fails the row.
pub open spec fn materialization(
    columns: Seq<ColumnType>,
    cols: Seq<ColumnRef>,
    values: Seq<LiteralView>,
    outcome: Result<Seq<LiteralView>, FailureView>,
) -> bool {
    let cells = placed(columns.len(), cols, values, values.len() as int);
    if values.len() > cols.len() {
        outcome == Err::<Seq<LiteralView>, FailureView>(FailureView::TooManyValues)
    } else if values.len() < cols.len() {
        outcome == Err::<Seq<LiteralView>, FailureView>(FailureView::TooFewValues)
    } else {
        match outcome {
            Ok(row) => {
                &&& all_placeable(columns.len(), cols)
                &&& row.len() == columns.len()
                &&& forall|c: int|
                    0 <= c < columns.len() ==> stored_cell(cells[c], columns[c]) == Ok::<
                        LiteralView,
                        FailureView,
                    >(#[trigger] row[c])
            },
            Err(e) => {
                ||| exists|k: int|
                    #[trigger] first_misplaced(columns.len(), cols, k) && e
                        == FailureView::ColumnIndex(cols[k].column_index)
                ||| {
                    &&& all_placeable(columns.len(), cols)
                    &&& exists|c: int|
                        #[trigger] first_uncoercible(columns, cells, c) && stored_cell(
                            cells[c],
                            columns[c],
                        ) == Err::<LiteralView, FailureView>(e)
                }
            },
        }
    }
}

/// The declared types of a table's columns, in order.
pub open spec fn column_types(table: TableView) -> Seq<ColumnType> {
    Seq::new(table.columns.len(), |c: int| table.columns[c].ctype)
}

/// What planning an insert into the table `target` gives: the row to
/// store, or why there is none.
pub open spec fn planned_row(
    catalog: CatalogView,
    target: TableRef,
    cols: Seq<ColumnRef>,
    values: Seq<LiteralView>,
    outcome: Result<Seq<LiteralView>, FailureView>,
) -> bool {
    if target.table_index >= catalog.tables.len() {
        outcome == Err::<Seq<LiteralView>, FailureView>(
            FailureView::TableIndex(target.table_index),
        )
    } else {
        materialization(
            column_types(catalog.tables[target.table_index as int]),
            cols,
            values,
            outcome,
        )
    }
}

/// What running a plan gives, and what it leaves of the catalog. A plan
/// whose row was handed out has no more rows. Else the row is stored in the
/// target table, and the new row id returned; where the table rejects the
/// row, or there is no such table, the catalog stays as it was.
pub open spec fn run_result(
    pending: Option<Seq<LiteralView>>,
    target: usize,
    catalog: CatalogView,
) -> Result<RowId, FailureView> {
    match pending {
        None => Err(FailureView::NoMoreRows),
        Some(row) => if target >= catalog.tables.len() {
            Err(FailureView::TableIndex(target))
        } else {
            catalog.tables[target as int].insert_result(row)
        },
    }
}

/// The catalog after running a plan.
pub open spec fn after_run(
    pending: Option<Seq<LiteralView>>,
    target: usize,
    catalog: CatalogView,
) -> CatalogView {
    match pending {
        Some(row) if target < catalog.tables.len() => catalog.with_slot(
            target as int,
            catalog.tables[target as int].after_insert(row),
        ),
        _ => catalog,
    }
}

/// An insert that is ready to run: the target table and the row to store.
pub struct InsertPlan {
    table_index: usize,
    source: StaticRow,
}

impl InsertPlan {
    /// The slot of the table the plan inserts into.
    pub closed spec fn target(&self) -> usize {
        self.table_index
    }

    /// The row the plan has still to store, if any.
    pub closed spec fn pending(&self) -> Option<Seq<LiteralView>> {
        self.source@
    }

    /// Stores the plan's row in its table and returns the new row id. The
    /// row is handed out to the table once: a plan that ran has no more
    /// rows.
    pub fn run(&mut self, schema: &mut Schema) -> (res: SqlError<RowId>)
        requires
            old(schema).wf(),
        ensures
            final(schema).wf(),
            final(self).target() == old(self).target(),
            final(self).pending() is None,
            final(schema)@ == after_run(old(self).pending(), old(self).target(), old(schema)@),
            match res {
                Ok(id) => run_result(old(self).pending(), old(self).target(), old(schema)@)
                    == Ok::<RowId, FailureView>(id),
                Err(e) => run_result(old(self).pending(), old(self).target(), old(schema)@)
                    == Err::<RowId, FailureView>(e@),
            },
    {
        match self.source.next() {
            Some(row) => {
                let ghost cells = row.deep_view();
                let store = |table: &mut MemoryTable| -> (r: SqlError<RowId>)
                    requires
                        old(table).wf(),
                    ensures
                        final(table).wf(),
                        final(table)@ == old(table)@.after_insert(cells),
                        match r {
                            Ok(id) => old(table)@.insert_result(cells) == Ok::<RowId, FailureView>(
                                id,
                            ),
                            Err(e) => old(table)@.insert_result(cells) == Err::<
                                RowId,
                                FailureView,
                            >(e@),
                        },
                    {
                        table.insert_row(row)
                    };
                let res = schema.map_on_table_mut(self.table_index, store);
                proof {
                    if self.table_index < old(schema)@.tables.len() {
                        let table = old(schema)@.tables[self.table_index as int];
                        if !(table.insert_result(cells) is Ok) {
                            assert(schema@.tables =~= old(schema)@.tables);
                        }
                    }
                }
                res
            },
            None => Err(SqlFailure::NoMoreRows),
        }
    }
}

/// The declared types of column definitions, in order.
fn column_types_of(defs: &[ColumnDefinition]) -> (types: Vec<ColumnType>)
    ensures
        types@.len() == defs@.len(),
        forall|c: int| 0 <= c < defs@.len() ==> #[trigger] types@[c] == defs@[c].ctype,
{
    let mut types: Vec<ColumnType> = Vec::new();
    let mut c: usize = 0;
    while c < defs.len()
        invariant
            c <= defs@.len(),
            types@.len() == c,
            forall|j: int| 0 <= j < c ==> #[trigger] types@[j] == defs@[j].ctype,
        decreases defs@.len() - c,
    {
        types.push(defs[c].ctype);
        c += 1;
    }
    types
}

/// Builds the row for columns of the given types: places each value at the
/// position its column reference names, then coerces what was placed.
pub fn materialize_row(
    types: &Vec<ColumnType>,
    columns: &Vec<ColumnRef>,
    values: &Vec<LiteralValue>,
) -> (res: SqlError<Vec<LiteralValue>>)
    ensures
        match res {
            Ok(row) => materialization(types@, columns@, values.deep_view(), Ok(row.deep_view())),
            Err(e) => materialization(types@, columns@, values.deep_view(), Err(e@)),
        },
{
    let width = types.len();
    if values.len() > columns.len() {
        return Err(SqlFailure::TooManyValues);
    } else if values.len() < columns.len() {
        return Err(SqlFailure::TooFewValues);
    }
    let ghost vals = values.deep_view();
    // A partial row first: nothing is placed yet.
    let mut cells: Vec<Option<LiteralValue>> = Vec::new();
    let mut c: usize = 0;
    while c < width
        invariant
            c <= width,
            cells@.len() == c,
            forall|j: int| 0 <= j < c ==> (#[trigger] cells@[j]) is None,
        decreases width - c,
    {
        cells.push(None);
        c += 1;
    }
    assert(cells.deep_view() =~= placed(width as nat, columns@, vals, 0));
    let mut k: usize = 0;
    while k < values.len()
        invariant
            k <= values@.len(),
            values@.len() == columns@.len(),
            vals == values.deep_view(),
            width == types@.len(),
            cells@.len() == width,
            cells.deep_view() == placed(width as nat, columns@, vals, k as int),
            forall|j: int| 0 <= j < k ==> (#[trigger] columns@[j]).column_index < width,
        decreases values@.len() - k,
    {
        let position = columns[k].column_index;
        if position >= width {
            assert(first_misplaced(width as nat, columns@, k as int));
            return Err(SqlFailure::ColumnIndex(position));
        }
        let ghost prior = cells.deep_view();
        cells[position] = Some(values[k].clone());
        assert(cells.deep_view() =~= prior.update(position as int, Some(vals[k as int])));
        k += 1;
    }
    let ghost raw = cells.deep_view();
    let mut row: Vec<LiteralValue> = Vec::new();
    let mut c: usize = 0;
    while c < width
        invariant
            c <= width,
            width == types@.len(),
            cells@.len() == width,
            raw == cells.deep_view(),
            raw == placed(width as nat, columns@, vals, vals.len() as int),
            vals == values.deep_view(),
            values@.len() == columns@.len(),
            all_placeable(width as nat, columns@),
            row@.len() == c,
            forall|j: int|
                0 <= j < c ==> stored_cell(raw[j], types@[j]) == Ok::<LiteralView, FailureView>(
                    (#[trigger] row@[j])@,
                ),
        decreases width - c,
    {
        let cell = match &cells[c] {
            None => LiteralValue::Null,
            Some(v) => match v.to_type(types[c]) {
                Ok(typed) => typed,
                Err(e) => {
                    assert forall|j: int| 0 <= j < c implies stored_cell(
                        #[trigger] raw[j],
                        types@[j],
                    ) is Ok by {
                        assert(stored_cell(raw[j], types@[j]) == Ok::<LiteralView, FailureView>(
                            row@[j]@,
                        ));
                    }
                    assert(first_uncoercible(types@, raw, c as int));
                    return Err(e);
                },
            },
        };
        row.push(cell);
        c += 1;
    }
    assert forall|j: int| 0 <= j < width implies stored_cell(raw[j], types@[j]) == Ok::<
        LiteralView,
        FailureView,
    >(#[trigger] row.deep_view()[j]) by {
        assert(row.deep_view()[j] == row@[j]@);
    }
    Ok(row)
}

/// Plans an insert: looks up the target table's column types and builds
/// the row. Nothing is stored yet, so a value that cannot be coerced fails
/// the insert before any write.
pub fn build_insert_plan(insert_ir: &InsertIr, schema: &Schema) -> (res: SqlError<InsertPlan>)
    requires
        schema.wf(),
    ensures
        match res {
            Ok(plan) => {
                &&& plan.target() == insert_ir.table.table_index
                &&& plan.pending() matches Some(row)
                &&& planned_row(
                    schema@,
                    insert_ir.table,
                    insert_ir.columns@,
                    insert_ir.values.deep_view(),
                    Ok(row),
                )
            },
            Err(e) => planned_row(
                schema@,
                insert_ir.table,
                insert_ir.columns@,
                insert_ir.values.deep_view(),
                Err(e@),
            ),
        },
{
    let read_types = |table: &MemoryTable| -> (types: SqlError<Vec<ColumnType>>)
        ensures
            types matches Ok(list) && list@ == column_types(table@),
        {
            let list = column_types_of(table.columns());
            assert(list@ =~= column_types(table@));
            Ok(list)
        };
    let types = match schema.map_on_table(insert_ir.table.table_index, read_types) {
        Ok(types) => types,
        Err(e) => {
            return Err(e);
        },
    };
    match materialize_row(&types, &insert_ir.columns, &insert_ir.values) {
        Ok(row) => Ok(
            InsertPlan { table_index: insert_ir.table.table_index, source: StaticRow::new(row) },
        ),
        Err(e) => Err(e),
    }
}

/// A row that was built for a table and stored in it reads back, under the
/// id it was given, as the coerced values: a cell that a value was placed
/// in holds the value coerced to the column's type, which is a value of
/// that type, and every other cell holds `Null`.
pub proof fn lemma_round_trip(
    table: TableView,
    cols: Seq<ColumnRef>,
    values: Seq<LiteralView>,
    row: Seq<LiteralView>,
)
    requires
        table.wf(),
        table.raw_len() < usize::MAX,
        materialization(column_types(table), cols, values, Ok(row)),
    ensures
        table.insert_result(row) == Ok::<RowId, FailureView>(table.raw_len() as usize),
        table.after_insert(row).wf(),
        table.after_insert(row).row(table.raw_len() as usize) == Ok::<
            Seq<LiteralView>,
            FailureView,
        >(row),
        forall|c: int|
            0 <= c < table.columns.len() ==> match placed(
                table.columns.len(),
                cols,
                values,
                values.len() as int,
            )[c] {
                Some(v) => {
                    &&& v.coerce(table.columns[c].ctype) == Ok::<LiteralView, FailureView>(
                        #[trigger] row[c],
                    )
                    &&& row[c].has_type(table.columns[c].ctype)
                },
                None => row[c] == LiteralView::Null,
            },
{
    crate::tables::lemma_stored_row_reads_back(table, row);
    let cells = placed(table.columns.len(), cols, values, values.len() as int);
    assert forall|c: int| 0 <= c < table.columns.len() implies match cells[c] {
        Some(v) => {
            &&& v.coerce(table.columns[c].ctype) == Ok::<LiteralView, FailureView>(
                #[trigger] row[c],
            )
            &&& row[c].has_type(table.columns[c].ctype)
        },
        None => row[c] == LiteralView::Null,
    } by {
        assert(stored_cell(cells[c], column_types(table)[c]) == Ok::<LiteralView, FailureView>(
            row[c],
        ));
    }
}

/// Where every value is placed in a column of its own, the cell of each
/// listed column holds the value listed for it: the order of the columns
/// in the statement does not matter, only which value goes with which.
pub proof fn lemma_placed_value(
    width: nat,
    cols: Seq<ColumnRef>,
    values: Seq<LiteralView>,
    upto: int,
    k: int,
)
    requires
        0 <= k < upto <= cols.len(),
        all_placeable(width, cols),
        forall|i: int, j: int|
            0 <= i < j < cols.len() ==> (#[trigger] cols[i]).column_index != (#[trigger] cols[
                j
            ]).column_index,
    ensures
        placed(width, cols, values, upto).len() == width,
        placed(width, cols, values, upto)[cols[k].column_index as int] == Some(values[k]),
    decreases upto,
{
    lemma_placed_len(width, cols, values, upto);
    lemma_placed_len(width, cols, values, upto - 1);
    if k < upto - 1 {
        lemma_placed_value(width, cols, values, upto - 1, k);
        assert(cols[k].column_index != cols[upto - 1].column_index);
    }
}

/// Placing values keeps the width of the row.
pub proof fn lemma_placed_len(width: nat, cols: Seq<ColumnRef>, values: Seq<LiteralView>, upto: int)
    requires
        upto <= cols.len(),
        all_placeable(width, cols),
    ensures
        placed(width, cols, values, upto).len() == width,
    decreases upto,
{
    if upto > 0 {
        lemma_placed_len(width, cols, values, upto - 1);
    }
}

/// Building a row has one outcome: the column types, the column references
/// and the values decide which row comes out, or which failure.
pub proof fn lemma_materialization_decided(
    columns: Seq<ColumnType>,
    cols: Seq<ColumnRef>,
    values: Seq<LiteralView>,
    a: Result<Seq<LiteralView>, FailureView>,
    b: Result<Seq<LiteralView>, FailureView>,
)
    requires
        materialization(columns, cols, values, a),
        materialization(columns, cols, values, b),
    ensures
        a == b,
{
    if values.len() == cols.len() {
        let cells = placed(columns.len(), cols, values, values.len() as int);
        lemma_materialization_cases(columns, cols, values, a);
        lemma_materialization_cases(columns, cols, values, b);
        if !all_placeable(columns.len(), cols) {
            let e = a->Err_0;
            let f = b->Err_0;
            let i = choose|i: int|
                #[trigger] first_misplaced(columns.len(), cols, i) && e
                    == FailureView::ColumnIndex(cols[i].column_index);
            let j = choose|j: int|
                #[trigger] first_misplaced(columns.len(), cols, j) && f
                    == FailureView::ColumnIndex(cols[j].column_index);
            if i < j {
                assert(cols[i].column_index < columns.len());
            } else if j < i {
                assert(cols[j].column_index < columns.len());
            }
        } else if exists|c: int| first_uncoercible(columns, cells, c) {
            let e = a->Err_0;
            let f = b->Err_0;
            let i = choose|i: int|
                #[trigger] first_uncoercible(columns, cells, i) && stored_cell(
                    cells[i],
                    columns[i],
                ) == Err::<LiteralView, FailureView>(e);
            let j = choose|j: int|
                #[trigger] first_uncoercible(columns, cells, j) && stored_cell(
                    cells[j],
                    columns[j],
                ) == Err::<LiteralView, FailureView>(f);
            if i < j {
                assert(stored_cell(cells[i], columns[i]) is Ok);
            } else if j < i {
                assert(stored_cell(cells[j], columns[j]) is Ok);
            }
        } else {
            let x = a->Ok_0;
            let y = b->Ok_0;
            assert forall|c: int| 0 <= c < x.len() implies x[c] == y[c] by {
                assert(stored_cell(cells[c], columns[c]) == Ok::<LiteralView, FailureView>(x[c]));
                assert(stored_cell(cells[c], columns[c]) == Ok::<LiteralView, FailureView>(y[c]));
            }
            assert(x =~= y);
        }
    }
}

/// With as many values as column references, building a row fails where a
/// reference names no column or a placed value cannot be coerced, and
/// succeeds else.
proof fn lemma_materialization_cases(
    columns: Seq<ColumnType>,
    cols: Seq<ColumnRef>,
    values: Seq<LiteralView>,
    outcome: Result<Seq<LiteralView>, FailureView>,
)
    requires
        values.len() == cols.len(),
        materialization(columns, cols, values, outcome),
    ensures
        !all_placeable(columns.len(), cols) ==> {
            &&& outcome matches Err(e)
            &&& exists|k: int|
                #[trigger] first_misplaced(columns.len(), cols, k) && e
                    == FailureView::ColumnIndex(cols[k].column_index)
        },
        all_placeable(columns.len(), cols) && (exists|c: int|
            first_uncoercible(
                columns,
                placed(columns.len(), cols, values, values.len() as int),
                c,
            )) ==> {
            &&& outcome matches Err(e)
            &&& exists|c: int|
                #[trigger] first_uncoercible(
                    columns,
                    placed(columns.len(), cols, values, values.len() as int),
                    c,
                ) && stored_cell(
                    placed(columns.len(), cols, values, values.len() as int)[c],
                    columns[c],
                ) == Err::<LiteralView, FailureView>(e)
        },
        all_placeable(columns.len(), cols) && !(exists|c: int|
            first_uncoercible(
                columns,
                placed(columns.len(), cols, values, values.len() as int),
                c,
            )) ==> outcome is Ok,
{
    let cells = placed(columns.len(), cols, values, values.len() as int);
    if all_placeable(columns.len(), cols) {
        match outcome {
            Ok(row) => {
                if exists|c: int| first_uncoercible(columns, cells, c) {
                    let c = choose|c: int| first_uncoercible(columns, cells, c);
                    assert(stored_cell(cells[c], columns[c]) == Ok::<LiteralView, FailureView>(
                        row[c],
                    ));
                }
            },
            Err(e) => {
                if exists|k: int|
                    #[trigger] first_misplaced(columns.len(), cols, k) && e
                        == FailureView::ColumnIndex(cols[k].column_index) {
                    let k = choose|k: int|
                        #[trigger] first_misplaced(columns.len(), cols, k) && e
                            == FailureView::ColumnIndex(cols[k].column_index);
                    assert(cols[k].column_index < columns.len());
                }
            },
        }
    }
}

/// Planning an insert has one outcome.
pub proof fn lemma_planned_row_decided(
    catalog: CatalogView,
    target: TableRef,
    cols: Seq<ColumnRef>,
    values: Seq<LiteralView>,
    a: Result<Seq<LiteralView>, FailureView>,
    b: Result<Seq<LiteralView>, FailureView>,
)
    requires
        planned_row(catalog, target, cols, values, a),
        planned_row(catalog, target, cols, values, b),
    ensures
        a == b,
{
    if target.table_index < catalog.tables.len() {
        lemma_materialization_decided(
            column_types(catalog.tables[target.table_index as int]),
            cols,
            values,
            a,
            b,
        );
    }
}

/// Every cell of a row that was built fits the type of its column.
pub proof fn lemma_built_row_fits(
    columns: Seq<ColumnType>,
    cols: Seq<ColumnRef>,
    values: Seq<LiteralView>,
    row: Seq<LiteralView>,
)
    requires
        materialization(columns, cols, values, Ok(row)),
    ensures
        row.len() == columns.len(),
        forall|c: int| 0 <= c < row.len() ==> cell_fits(#[trigger] row[c], columns[c]),
{
    let cells = placed(columns.len(), cols, values, values.len() as int);
    assert forall|c: int| 0 <= c < row.len() implies cell_fits(#[trigger] row[c], columns[c]) by {
        assert(stored_cell(cells[c], columns[c]) == Ok::<LiteralView, FailureView>(row[c]));
    }
}

} // verus!
