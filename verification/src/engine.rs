//! The engine: it owns the catalog, runs one parsed statement at a time,
//! and hands back a result of one shape.
//!
//! A statement that fails leaves the catalog as it was: everything is
//! resolved and built before the one step that writes.

use vstd::prelude::*;
use crate::definitions::{
    ColumnDefinition, ColumnView, CreateTableStmt, DropTableStmt, InsertStmt, LiteralValue,
    LiteralView, SelectStmt, SqlResult, SqlStmt,
};
use crate::failure::{FailureView, SqlError};
use crate::ir::insert_ir::{
    insert_resolution, ir_from_insert_stmt, lemma_insert_resolution_decided,
};
use crate::ir::select_ir::{
    ir_from_select_stmt, lemma_select_resolution_decided, select_resolution,
};
use crate::ir::{ColumnRef, TableRef};
use crate::plan::insert_plan::{
    after_run, build_insert_plan, lemma_planned_row_decided, planned_row, run_result,
};
use crate::plan::select_plan::{
    build_select_plan, first_table_columns, lemma_scan_step_decided, scan_step, ScanView,
};
use crate::schema::{lemma_resolves_to_one_slot, CatalogView, Schema};
use crate::tables::{MemoryTable, RowId, TableView};

verus! {

/// The mathematical value of a [`SqlResult`].
pub enum ResultView {
    Message(Seq<char>),
    RowsUpdated(usize),
    Rows(Seq<Seq<LiteralView>>),
    Nothing,
}

impl View for SqlResult {
    type V = ResultView;

    open spec fn view(&self) -> ResultView {
        match self {
            SqlResult::Message(text) => ResultView::Message(text@),
            SqlResult::RowsUpdated(count) => ResultView::RowsUpdated(*count),
            SqlResult::Rows(rows) => ResultView::Rows(rows.deep_view()),
            SqlResult::Nothing => ResultView::Nothing,
        }
    }
}

/// What `CREATE TABLE` leaves of the catalog: under a name that no live
/// table carries, a new last slot with a table of the declared columns and
/// no rows; else the catalog as it was.
pub open spec fn after_create(
    catalog: CatalogView,
    name: Seq<char>,
    defs: Seq<ColumnView>,
) -> CatalogView {
    if catalog.has_live(name) {
        catalog
    } else {
        CatalogView {
            tables: catalog.tables.push(TableView::empty().with_columns(defs)),
            names: catalog.names.push(Some(name)),
        }
    }
}

/// The failure of `CREATE TABLE`, if it fails: it does under a name that a
/// live table carries.
pub open spec fn create_failure(catalog: CatalogView, name: Seq<char>) -> Option<FailureView> {
    if catalog.has_live(name) {
        Some(FailureView::TableExists(name))
    } else {
        None
    }
}

/// What `DROP TABLE` leaves, and its failure, if it fails: the table the
/// name resolves to is dropped; a name that no live table carries fails.
pub open spec fn drop_outcome(
    catalog: CatalogView,
    name: Seq<char>,
    after: CatalogView,
    failure: Option<FailureView>,
) -> bool {
    match failure {
        None => exists|slot: int|
            #[trigger] catalog.resolves_to(name, slot) && after == catalog.without_name(slot),
        Some(e) => {
            &&& !catalog.has_live(name)
            &&& e == FailureView::TableNotFound(name)
            &&& after == catalog
        },
    }
}

/// What `INSERT` gives and leaves. The statement is resolved, then the row
/// is built, then it is stored; the first of these that fails is the
/// failure of the statement, and the catalog is written by the last only.
pub open spec fn insert_outcome(
    catalog: CatalogView,
    stmt: InsertStmt,
    after: CatalogView,
    outcome: Result<RowId, FailureView>,
) -> bool {
    exists|resolved: Result<(TableRef, Seq<ColumnRef>), FailureView>|
        insert_stage(catalog, stmt, after, outcome, resolved)
}

/// What `SELECT` gives. The statement is resolved; a scan over its first
/// table is built; the scan is driven for one row, and the rows handed
/// back are that one row. A table without visible rows ends the scan at
/// once, which fails the statement.
pub open spec fn select_outcome(
    catalog: CatalogView,
    stmt: SelectStmt,
    outcome: Result<Seq<Seq<LiteralView>>, FailureView>,
) -> bool {
    exists|resolved: Result<(Seq<ColumnRef>, Seq<TableRef>), FailureView>|
        select_stage(catalog, stmt, outcome, resolved)
}

/// The scan that a resolved `SELECT` is run as: over its first table, as
/// the table stands when the statement runs.
pub open spec fn scan_of(
    catalog: CatalogView,
    cols: Seq<ColumnRef>,
    refs: Seq<TableRef>,
) -> ScanView {
    ScanView {
        target: refs[0].table_index,
        columns: first_table_columns(cols),
        pending: catalog.tables[refs[0].table_index as int].visible(),
    }
}

/// With what a `SELECT` resolved to, or the failure to resolve it, what
/// the statement gives.
pub open spec fn select_stage(
    catalog: CatalogView,
    stmt: SelectStmt,
    outcome: Result<Seq<Seq<LiteralView>>, FailureView>,
    resolved: Result<(Seq<ColumnRef>, Seq<TableRef>), FailureView>,
) -> bool {
    &&& select_resolution(catalog, stmt, resolved)
    &&& match resolved {
        Err(e) => outcome == Err::<Seq<Seq<LiteralView>>, FailureView>(e),
        Ok((cols, refs)) => if refs.len() == 0 {
            outcome == Err::<Seq<Seq<LiteralView>>, FailureView>(FailureView::NoSourceTable)
        } else {
            match outcome {
                Ok(rows) => rows.len() == 1 && scan_step(
                    catalog,
                    scan_of(catalog, cols, refs),
                    Ok(rows[0]),
                ),
                Err(e) => scan_step(catalog, scan_of(catalog, cols, refs), Err(e)),
            }
        },
    }
}

/// What a statement gives and leaves.
pub open spec fn statement_outcome(
    catalog: CatalogView,
    stmt: SqlStmt,
    after: CatalogView,
    outcome: Result<ResultView, FailureView>,
) -> bool {
    match stmt {
        SqlStmt::Select(select) => {
            &&& after == catalog
            &&& match outcome {
                Ok(result) => result matches ResultView::Rows(rows) && select_outcome(
                    catalog,
                    select,
                    Ok(rows),
                ),
                Err(e) => select_outcome(catalog, select, Err(e)),
            }
        },
        SqlStmt::DumpTables => after == catalog && outcome == Ok::<ResultView, FailureView>(
            ResultView::Nothing,
        ),
        SqlStmt::CreateTable(create) => {
            &&& after == after_create(catalog, create.table_name@, create.column_defs.deep_view())
            &&& match create_failure(catalog, create.table_name@) {
                None => outcome == Ok::<ResultView, FailureView>(ResultView::Nothing),
                Some(e) => outcome == Err::<ResultView, FailureView>(e),
            }
        },
        SqlStmt::DropTable(drop) => match outcome {
            Ok(result) => result == ResultView::Nothing && drop_outcome(
                catalog,
                drop.table_name@,
                after,
                None,
            ),
            Err(e) => drop_outcome(catalog, drop.table_name@, after, Some(e)),
        },
        SqlStmt::Insert(insert) => match outcome {
            Ok(result) => result == ResultView::Nothing && exists|id: RowId|
                #[trigger] insert_outcome(catalog, insert, after, Ok(id)),
            Err(e) => insert_outcome(catalog, insert, after, Err(e)),
        },
    }
}

/// Appends each column definition to a table, in order.
fn add_columns(table: &mut MemoryTable, defs: &Vec<ColumnDefinition>)
    requires
        old(table).wf(),
    ensures
        final(table).wf(),
        final(table)@ == old(table)@.with_columns(defs.deep_view()),
{
    let mut c: usize = 0;
    while c < defs.len()
        invariant
            c <= defs@.len(),
            table.wf(),
            table@ == old(table)@.with_columns(defs.deep_view().take(c as int)),
        decreases defs@.len() - c,
    {
        table.add_column(defs[c].clone());
        proof {
            let sofar = defs.deep_view().take(c as int);
            let next = defs.deep_view().take(c as int + 1);
            assert(next =~= sofar.push(defs@[c as int]@));
            let want = old(table)@.with_columns(next);
            assert(table@.columns =~= want.columns);
            assert(table@.cells =~= want.cells);
        }
        c += 1;
    }
    assert(defs.deep_view().take(c as int) =~= defs.deep_view());
}

/// A relational engine over tables held in memory.
pub struct SqlEngine {
    schema: Schema,
}

impl View for SqlEngine {
    type V = CatalogView;

    closed spec fn view(&self) -> CatalogView {
        self.schema@
    }
}

impl SqlEngine {
    /// The invariant of an engine: its catalog is well formed, and every
    /// cell in it fits the type of its column. The tables store what they
    /// are given; the engine gives them coerced values only.
    pub open spec fn wf(&self) -> bool {
        self@.wf() && self@.typed()
    }

    /// An engine without tables.
    pub fn new() -> (engine: SqlEngine)
        ensures
            engine.wf(),
            engine@ == CatalogView::empty(),
    {
        SqlEngine { schema: Schema::new() }
    }

    /// The catalog, to read.
    pub fn schema(&self) -> (schema: &Schema)
        ensures
            schema@ == self@,
    {
        &self.schema
    }

    /// Runs one statement. A statement that fails leaves the catalog as it
    /// was.
    pub fn excecute_stmt(&mut self, stmt: SqlStmt) -> (res: SqlError<SqlResult>)
        requires
            old(self).wf(),
        ensures
            final(self).wf(),
            match res {
                Ok(result) => statement_outcome(old(self)@, stmt, final(self)@, Ok(result@)),
                Err(e) => statement_outcome(old(self)@, stmt, final(self)@, Err(e@)),
            },
            res is Err ==> final(self)@ == old(self)@,
    {
        match stmt {
            SqlStmt::Select(sel) => match self.select(sel) {
                Ok(rows) => Ok(SqlResult::Rows(rows)),
                Err(e) => Err(e),
            },
            SqlStmt::DumpTables => Ok(SqlResult::Nothing),
            SqlStmt::CreateTable(table) => match self.create_table(table) {
                Ok(_) => Ok(SqlResult::Nothing),
                Err(e) => Err(e),
            },
            SqlStmt::DropTable(table) => match self.drop_table(table) {
                Ok(_) => Ok(SqlResult::Nothing),
                Err(e) => Err(e),
            },
            SqlStmt::Insert(insert) => match self.insert(insert) {
                Ok(_) => Ok(SqlResult::Nothing),
                Err(e) => Err(e),
            },
        }
    }

    /// Runs a `SELECT`, and hands back the row that the scan gives first.
    pub fn select(&mut self, stmt: SelectStmt) -> (res: SqlError<Vec<Vec<LiteralValue>>>)
        requires
            old(self).wf(),
        ensures
            final(self).wf(),
            final(self)@ == old(self)@,
            match res {
                Ok(rows) => select_outcome(old(self)@, stmt, Ok(rows.deep_view())),
                Err(e) => select_outcome(old(self)@, stmt, Err(e@)),
            },
    {
        let ir = match ir_from_select_stmt(&stmt, &self.schema) {
            Ok(ir) => ir,
            Err(e) => {
                assert(select_stage(self@, stmt, Err(e@), Err(e@)));
                return Err(e);
            },
        };
        let ghost resolved = Ok::<(Seq<ColumnRef>, Seq<TableRef>), FailureView>(
            (ir.columns@, ir.tables@),
        );
        let mut plan = match build_select_plan(&ir, &self.schema) {
            Ok(plan) => plan,
            Err(e) => {
                proof {
                    if ir.tables@.len() > 0 {
                        // A resolved table has a slot.
                        assert(stmt.from@[0] is NamedTable);
                    }
                    assert(select_stage(self@, stmt, Err(e@), resolved));
                }
                return Err(e);
            },
        };
        let row = match plan.get_next_row(&mut self.schema) {
            Ok(row) => row,
            Err(e) => {
                assert(select_stage(self@, stmt, Err(e@), resolved));
                return Err(e);
            },
        };
        let ghost cells = row.deep_view();
        let rows = vec![row];
        assert(rows.deep_view() =~= seq![cells]);
        assert(select_stage(self@, stmt, Ok(rows.deep_view()), resolved));
        Ok(rows)
    }

    /// Runs a `CREATE TABLE`: a new table with the declared columns.
    pub fn create_table(&mut self, stmt: CreateTableStmt) -> (res: SqlError<()>)
        requires
            old(self).wf(),
        ensures
            final(self).wf(),
            final(self)@ == after_create(
                old(self)@,
                stmt.table_name@,
                stmt.column_defs.deep_view(),
            ),
            match res {
                Ok(_) => create_failure(old(self)@, stmt.table_name@) is None,
                Err(e) => create_failure(old(self)@, stmt.table_name@) == Some(e@),
            },
    {
        let table_index = match self.schema.create_table(&stmt.table_name) {
            Ok(slot) => slot,
            Err(e) => {
                return Err(e);
            },
        };
        let defs = &stmt.column_defs;
        let declare = |table: &mut MemoryTable| -> (r: SqlError<()>)
            requires
                old(table).wf(),
            ensures
                final(table).wf(),
                final(table)@ == old(table)@.with_columns(defs.deep_view()),
                r is Ok,
            {
                add_columns(table, defs);
                Ok(())
            };
        let res = self.schema.map_on_table_mut(table_index, declare);
        proof {
            let want = after_create(old(self)@, stmt.table_name@, stmt.column_defs.deep_view());
            assert(self@.tables =~= want.tables);
            assert(self@.names =~= want.names);
        }
        res
    }

    /// Runs a `DROP TABLE`.
    pub fn drop_table(&mut self, stmt: DropTableStmt) -> (res: SqlError<()>)
        requires
            old(self).wf(),
        ensures
            final(self).wf(),
            match res {
                Ok(_) => drop_outcome(old(self)@, stmt.table_name@, final(self)@, None),
                Err(e) => drop_outcome(old(self)@, stmt.table_name@, final(self)@, Some(e@)),
            },
    {
        let table_index = match self.schema.find_table_or_err(stmt.table_name.as_str()) {
            Ok(slot) => slot,
            Err(e) => {
                return Err(e);
            },
        };
        assert(old(self)@.named(stmt.table_name@, table_index as int));
        self.schema.drop_table(table_index)
    }

    /// Runs an `INSERT`: one row, built from the listed columns and values.
    pub fn insert(&mut self, stmt: InsertStmt) -> (res: SqlError<()>)
        requires
            old(self).wf(),
        ensures
            final(self).wf(),
            match res {
                Ok(_) => exists|id: RowId|
                    #[trigger] insert_outcome(old(self)@, stmt, final(self)@, Ok(id)),
                Err(e) => insert_outcome(old(self)@, stmt, final(self)@, Err(e@)),
            },
            res is Err ==> final(self)@ == old(self)@,
    {
        let ghost values = stmt.column_values.deep_view();
        let ir = match ir_from_insert_stmt(&stmt, &self.schema) {
            Ok(ir) => ir,
            Err(e) => {
                assert(insert_stage(self@, stmt, self@, Err(e@), Err(e@)));
                return Err(e);
            },
        };
        let ghost resolved = Ok::<(TableRef, Seq<ColumnRef>), FailureView>(
            (ir.table, ir.columns@),
        );
        let mut plan = match build_insert_plan(&ir, &self.schema) {
            Ok(plan) => plan,
            Err(e) => {
                assert(store_stage(
                    self@,
                    ir.table,
                    ir.columns@,
                    values,
                    self@,
                    Err(e@),
                    Err(e@),
                ));
                assert(insert_stage(self@, stmt, self@, Err(e@), resolved));
                return Err(e);
            },
        };
        let ghost cells = plan.pending()->0;
        match plan.run(&mut self.schema) {
            Ok(id) => {
                assert(store_stage(
                    old(self)@,
                    ir.table,
                    ir.columns@,
                    values,
                    self@,
                    Ok(id),
                    Ok(cells),
                ));
                assert(insert_stage(old(self)@, stmt, self@, Ok(id), resolved));
                assert(insert_outcome(old(self)@, stmt, self@, Ok(id)));
                Ok(())
            },
            Err(e) => {
                proof {
                    let catalog = old(self)@;
                    let slot = ir.table.table_index;
                    if slot < catalog.tables.len() {
                        assert(self@.tables =~= catalog.tables);
                    }
                    assert(store_stage(
                        catalog,
                        ir.table,
                        ir.columns@,
                        values,
                        self@,
                        Err(e@),
                        Ok(cells),
                    ));
                    assert(insert_stage(catalog, stmt, self@, Err(e@), resolved));
                }
                Err(e)
            },
        }
    }
}

/// A `DROP TABLE` has one outcome and leaves one catalog.
pub proof fn lemma_drop_outcome_decided(
    catalog: CatalogView,
    name: Seq<char>,
    after_a: CatalogView,
    a: Option<FailureView>,
    after_b: CatalogView,
    b: Option<FailureView>,
)
    requires
        drop_outcome(catalog, name, after_a, a),
        drop_outcome(catalog, name, after_b, b),
    ensures
        a == b,
        after_a == after_b,
{
    if a is None {
        let i = choose|i: int|
            #[trigger] catalog.resolves_to(name, i) && after_a == catalog.without_name(i);
        assert(catalog.named(name, i));
        if b is None {
            let j = choose|j: int|
                #[trigger] catalog.resolves_to(name, j) && after_b == catalog.without_name(j);
            lemma_resolves_to_one_slot(catalog, name, i, j);
        }
    } else if b is None {
        let j = choose|j: int|
            #[trigger] catalog.resolves_to(name, j) && after_b == catalog.without_name(j);
        assert(catalog.named(name, j));
    }
}

/// An `INSERT` has one outcome and leaves one catalog.
pub proof fn lemma_insert_outcome_decided(
    catalog: CatalogView,
    stmt: InsertStmt,
    after_a: CatalogView,
    a: Result<RowId, FailureView>,
    after_b: CatalogView,
    b: Result<RowId, FailureView>,
)
    requires
        insert_outcome(catalog, stmt, after_a, a),
        insert_outcome(catalog, stmt, after_b, b),
    ensures
        a == b,
        after_a == after_b,
{
    let name = stmt.table_name@;
    let names = stmt.column_names.deep_view();
    let values = stmt.column_values.deep_view();
    let resolved_a = choose|resolved: Result<(TableRef, Seq<ColumnRef>), FailureView>|
        insert_stage(catalog, stmt, after_a, a, resolved);
    let resolved_b = choose|resolved: Result<(TableRef, Seq<ColumnRef>), FailureView>|
        insert_stage(catalog, stmt, after_b, b, resolved);
    assert(insert_stage(catalog, stmt, after_a, a, resolved_a));
    assert(insert_stage(catalog, stmt, after_b, b, resolved_b));
    lemma_insert_resolution_decided(
        catalog,
        name,
        names,
        stmt.column_values@.len(),
        resolved_a,
        resolved_b,
    );
    if let Ok((table, cols)) = resolved_a {
        let row_a = choose|row: Result<Seq<LiteralView>, FailureView>|
            store_stage(catalog, table, cols, values, after_a, a, row);
        let row_b = choose|row: Result<Seq<LiteralView>, FailureView>|
            store_stage(catalog, table, cols, values, after_b, b, row);
        lemma_planned_row_decided(catalog, table, cols, values, row_a, row_b);
    }
}

/// The second stage of an `INSERT`: with the row that was built, or the
/// failure to build it, what the statement gives and leaves.
pub open spec fn store_stage(
    catalog: CatalogView,
    table: TableRef,
    cols: Seq<ColumnRef>,
    values: Seq<LiteralView>,
    after: CatalogView,
    outcome: Result<RowId, FailureView>,
    row: Result<Seq<LiteralView>, FailureView>,
) -> bool {
    &&& planned_row(catalog, table, cols, values, row)
    &&& match row {
        Err(e) => outcome == Err::<RowId, FailureView>(e) && after == catalog,
        Ok(cells) => {
            &&& outcome == run_result(Some(cells), table.table_index, catalog)
            &&& after == after_run(Some(cells), table.table_index, catalog)
        },
    }
}

/// The first stage of an `INSERT`: with what the statement resolved to, or
/// the failure to resolve it, what the statement gives and leaves.
pub open spec fn insert_stage(
    catalog: CatalogView,
    stmt: InsertStmt,
    after: CatalogView,
    outcome: Result<RowId, FailureView>,
    resolved: Result<(TableRef, Seq<ColumnRef>), FailureView>,
) -> bool {
    &&& insert_resolution(
        catalog,
        stmt.table_name@,
        stmt.column_names.deep_view(),
        stmt.column_values@.len(),
        resolved,
    )
    &&& match resolved {
        Err(e) => outcome == Err::<RowId, FailureView>(e) && after == catalog,
        Ok((table, cols)) => exists|row: Result<Seq<LiteralView>, FailureView>|
            store_stage(catalog, table, cols, stmt.column_values.deep_view(), after, outcome, row),
    }
}

/// A `SELECT` has one outcome.
pub proof fn lemma_select_outcome_decided(
    catalog: CatalogView,
    stmt: SelectStmt,
    a: Result<Seq<Seq<LiteralView>>, FailureView>,
    b: Result<Seq<Seq<LiteralView>>, FailureView>,
)
    requires
        select_outcome(catalog, stmt, a),
        select_outcome(catalog, stmt, b),
    ensures
        a == b,
{
    let resolved_a = choose|resolved: Result<(Seq<ColumnRef>, Seq<TableRef>), FailureView>|
        select_stage(catalog, stmt, a, resolved);
    let resolved_b = choose|resolved: Result<(Seq<ColumnRef>, Seq<TableRef>), FailureView>|
        select_stage(catalog, stmt, b, resolved);
    lemma_select_resolution_decided(catalog, stmt, resolved_a, resolved_b);
    if let Ok((cols, refs)) = resolved_a {
        if refs.len() > 0 {
            let scan = scan_of(catalog, cols, refs);
            lemma_scan_step_decided(catalog, scan, first_row(a), first_row(b));
            if let (Ok(x), Ok(y)) = (a, b) {
                assert(x =~= y);
            }
        }
    }
}

/// The row that a `SELECT` gave, or its failure.
spec fn first_row(outcome: Result<Seq<Seq<LiteralView>>, FailureView>) -> Result<
    Seq<LiteralView>,
    FailureView,
> {
    match outcome {
        Ok(rows) => Ok(rows[0]),
        Err(e) => Err(e),
    }
}

/// A statement has one outcome and leaves one catalog: what the engine
/// does is decided by the catalog and the statement.
pub proof fn lemma_statement_outcome_decided(
    catalog: CatalogView,
    stmt: SqlStmt,
    after_a: CatalogView,
    a: Result<ResultView, FailureView>,
    after_b: CatalogView,
    b: Result<ResultView, FailureView>,
)
    requires
        statement_outcome(catalog, stmt, after_a, a),
        statement_outcome(catalog, stmt, after_b, b),
    ensures
        a == b,
        after_a == after_b,
{
    match stmt {
        SqlStmt::Select(select) => {
            lemma_select_outcome_decided(catalog, select, rows_of(a), rows_of(b));
        },
        SqlStmt::DumpTables => {},
        SqlStmt::CreateTable(_) => {},
        SqlStmt::DropTable(drop) => {
            lemma_drop_outcome_decided(
                catalog,
                drop.table_name@,
                after_a,
                failure_of(a),
                after_b,
                failure_of(b),
            );
        },
        SqlStmt::Insert(insert) => {
            lemma_insert_outcome_decided(
                catalog,
                insert,
                after_a,
                row_id_of(catalog, insert, after_a, a),
                after_b,
                row_id_of(catalog, insert, after_b, b),
            );
        },
    }
}

/// The rows of a result, or the failure.
spec fn rows_of(outcome: Result<ResultView, FailureView>) -> Result<
    Seq<Seq<LiteralView>>,
    FailureView,
> {
    match outcome {
        Ok(ResultView::Rows(rows)) => Ok(rows),
        Ok(_) => Ok(Seq::empty()),
        Err(e) => Err(e),
    }
}

/// The failure of an outcome, if it is one.
spec fn failure_of(outcome: Result<ResultView, FailureView>) -> Option<FailureView> {
    match outcome {
        Ok(_) => None,
        Err(e) => Some(e),
    }
}

/// The id of the row that an `INSERT` stored, or the failure.
spec fn row_id_of(
    catalog: CatalogView,
    stmt: InsertStmt,
    after: CatalogView,
    outcome: Result<ResultView, FailureView>,
) -> Result<RowId, FailureView> {
    match outcome {
        Ok(_) => Ok(choose|id: RowId| #[trigger] insert_outcome(catalog, stmt, after, Ok(id))),
        Err(e) => Err(e),
    }
}

} // verus!
