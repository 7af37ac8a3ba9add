use mini_sql::definitions::{ColumnDefinition, ColumnType, LiteralValue};
use mini_sql::failure::{FailureKind, SqlFailure};
use mini_sql::ir::insert_ir::InsertIr;
use mini_sql::ir::select_ir::SelectIr;
use mini_sql::ir::{ColumnRef, TableRef};
use mini_sql::plan::insert_plan::{build_insert_plan, materialize_row};
use mini_sql::plan::select_plan::{build_select_plan, project_row, FullTableScan};
use mini_sql::plan::StaticRow;
use mini_sql::schema::Schema;
use mini_sql::tables::MemoryTable;

fn text(s: &str) -> LiteralValue {
    LiteralValue::Text(s.to_string())
}

fn col(table_ref_index: usize, column_index: usize) -> ColumnRef {
    ColumnRef { column_index, table_ref_index }
}

/// One table `t(name Text, flag Bool, note Text)` in slot 0.
fn one_table() -> Schema {
    let mut schema = Schema::new();
    schema.create_table(&"t".to_string()).unwrap();
    schema
        .map_on_table_mut(0, |t: &mut MemoryTable| {
            t.add_column(ColumnDefinition { ctype: ColumnType::Text, name: "name".to_string() });
            t.add_column(ColumnDefinition { ctype: ColumnType::Bool, name: "flag".to_string() });
            t.add_column(ColumnDefinition { ctype: ColumnType::Text, name: "note".to_string() });
            Ok(())
        })
        .unwrap();
    schema
}

fn store(schema: &mut Schema, row: Vec<LiteralValue>) -> usize {
    schema.map_on_table_mut(0, |t: &mut MemoryTable| t.insert_row(row)).unwrap()
}

fn read(schema: &Schema, id: usize) -> Result<Vec<LiteralValue>, SqlFailure> {
    schema.map_on_table(0, |t: &MemoryTable| t.get_row(id))
}

fn raw_len(schema: &Schema) -> usize {
    schema.map_on_table(0, |t: &MemoryTable| Ok(t.raw_len())).unwrap()
}

fn insert_ir(columns: Vec<ColumnRef>, values: Vec<LiteralValue>) -> InsertIr {
    InsertIr { values, table: TableRef { table_index: 0 }, columns }
}

fn types() -> Vec<ColumnType> {
    vec![ColumnType::Text, ColumnType::Bool, ColumnType::Text]
}

#[test]
fn static_row_hands_its_row_out_once() {
    let mut source = StaticRow::new(vec![text("a")]);
    assert_eq!(source.next(), Some(vec![text("a")]));
    assert_eq!(source.next(), None);
    assert_eq!(source.next(), None);
}

#[test]
fn materialize_row_places_values_by_column() {
    let row = materialize_row(
        &types(),
        &vec![col(0, 2), col(0, 0)],
        &vec![text("second"), text("first")],
    );
    assert_eq!(row, Ok(vec![text("first"), LiteralValue::Null, text("second")]));
}

#[test]
fn materialize_row_coerces_what_was_placed() {
    let row = materialize_row(
        &types(),
        &vec![col(0, 0), col(0, 1), col(0, 2)],
        &vec![LiteralValue::Bool(true), LiteralValue::Bool(false), LiteralValue::Null],
    );
    assert_eq!(row, Ok(vec![text("true"), LiteralValue::Bool(false), text("")]));
}

#[test]
fn materialize_row_leaves_unlisted_columns_null() {
    let row = materialize_row(&types(), &vec![], &vec![]);
    assert_eq!(row, Ok(vec![LiteralValue::Null, LiteralValue::Null, LiteralValue::Null]));
    let none = materialize_row(&vec![], &vec![], &vec![]);
    assert_eq!(none, Ok(vec![]));
}

#[test]
fn materialize_row_rejects_values_of_the_wrong_type() {
    let null = materialize_row(&types(), &vec![col(0, 1)], &vec![LiteralValue::Null]);
    assert_eq!(null, Err(SqlFailure::NullToBool));
    let word = materialize_row(&types(), &vec![col(0, 1)], &vec![text("yes")]);
    assert_eq!(word, Err(SqlFailure::TextToBool("yes".to_string())));
    assert_eq!(word.unwrap_err().kind(), FailureKind::Type);
}

#[test]
fn materialize_row_checks_counts_and_positions() {
    let many = materialize_row(&types(), &vec![col(0, 0)], &vec![text("a"), text("b")]);
    assert_eq!(many, Err(SqlFailure::TooManyValues));
    let few = materialize_row(&types(), &vec![col(0, 0), col(0, 1)], &vec![text("a")]);
    assert_eq!(few, Err(SqlFailure::TooFewValues));
    let beyond = materialize_row(&types(), &vec![col(0, 0), col(0, 3)], &vec![text("a"), text("b")]);
    assert_eq!(beyond, Err(SqlFailure::ColumnIndex(3)));
    assert_eq!(beyond.unwrap_err().kind(), FailureKind::Internal);
}

#[test]
fn materialize_row_keeps_the_later_of_two_values_for_one_column() {
    let row = materialize_row(
        &types(),
        &vec![col(0, 1), col(0, 1)],
        &vec![text("overwritten"), LiteralValue::Bool(true)],
    );
    assert_eq!(row, Ok(vec![LiteralValue::Null, LiteralValue::Bool(true), LiteralValue::Null]));
}

#[test]
fn insert_plan_stores_the_row_and_returns_its_id() {
    let mut schema = one_table();
    store(&mut schema, vec![text("old"), LiteralValue::Bool(true), text("")]);
    let ir = insert_ir(vec![col(0, 1), col(0, 0)], vec![LiteralValue::Bool(false), text("new")]);
    let mut plan = build_insert_plan(&ir, &schema).unwrap();
    assert_eq!(raw_len(&schema), 1);
    assert_eq!(plan.run(&mut schema), Ok(1));
    assert_eq!(read(&schema, 1), Ok(vec![text("new"), LiteralValue::Bool(false), LiteralValue::Null]));
    assert_eq!(read(&schema, 0), Ok(vec![text("old"), LiteralValue::Bool(true), text("")]));
}

#[test]
fn insert_plan_runs_once() {
    let mut schema = one_table();
    let ir = insert_ir(vec![col(0, 0)], vec![text("a")]);
    let mut plan = build_insert_plan(&ir, &schema).unwrap();
    assert_eq!(plan.run(&mut schema), Ok(0));
    let again = plan.run(&mut schema);
    assert_eq!(again, Err(SqlFailure::NoMoreRows));
    assert_eq!(again.unwrap_err().kind(), FailureKind::Exhausted);
    assert_eq!(raw_len(&schema), 1);
}

#[test]
fn insert_plan_fails_before_any_write() {
    let schema = one_table();
    let ir = insert_ir(vec![col(0, 0), col(0, 1)], vec![text("a"), text("not a bool")]);
    let res = build_insert_plan(&ir, &schema);
    assert_eq!(res.err(), Some(SqlFailure::TextToBool("not a bool".to_string())));
    assert_eq!(raw_len(&schema), 0);
}

#[test]
fn insert_plan_needs_its_table() {
    let schema = one_table();
    let ir = InsertIr { values: vec![], table: TableRef { table_index: 4 }, columns: vec![] };
    assert_eq!(build_insert_plan(&ir, &schema).err(), Some(SqlFailure::TableIndex(4)));
}

#[test]
fn insert_plan_reports_a_table_that_changed_width() {
    let mut schema = one_table();
    let ir = insert_ir(vec![col(0, 0)], vec![text("a")]);
    let mut plan = build_insert_plan(&ir, &schema).unwrap();
    schema
        .map_on_table_mut(0, |t: &mut MemoryTable| {
            t.add_column(ColumnDefinition { ctype: ColumnType::Text, name: "more".to_string() });
            Ok(())
        })
        .unwrap();
    assert_eq!(plan.run(&mut schema), Err(SqlFailure::RowWidth));
    assert_eq!(raw_len(&schema), 0);
}

#[test]
fn project_row_keeps_the_requested_order() {
    let row = vec![text("a"), text("b"), text("c")];
    assert_eq!(project_row(&row, &vec![2, 0]), Ok(vec![text("c"), text("a")]));
    assert_eq!(project_row(&row, &vec![1, 1]), Ok(vec![text("b"), text("b")]));
    assert_eq!(project_row(&row, &vec![]), Ok(vec![]));
    assert_eq!(project_row(&row, &vec![0, 3, 4]), Err(SqlFailure::ColumnIndex(3)));
}

#[test]
fn scan_visits_visible_rows_in_order() {
    let mut schema = one_table();
    for n in ["a", "b", "c"] {
        store(&mut schema, vec![text(n), LiteralValue::Bool(true), text("-")]);
    }
    schema.map_on_table_mut(0, |t: &mut MemoryTable| t.drop_row(1)).unwrap();
    let mut scan = FullTableScan::new(0, vec![0], &schema).unwrap();
    assert_eq!(scan.get_next_row(&schema), Ok(vec![text("a")]));
    assert_eq!(scan.get_next_row(&schema), Ok(vec![text("c")]));
    let end = scan.get_next_row(&schema);
    assert_eq!(end, Err(SqlFailure::NoMoreRows));
    assert_eq!(end.unwrap_err().kind(), FailureKind::Exhausted);
    assert_eq!(scan.get_next_row(&schema), Err(SqlFailure::NoMoreRows));
}

#[test]
fn scan_is_a_snapshot_of_the_visible_rows() {
    let mut schema = one_table();
    store(&mut schema, vec![text("a"), LiteralValue::Bool(true), text("-")]);
    store(&mut schema, vec![text("b"), LiteralValue::Bool(true), text("-")]);
    let mut scan = FullTableScan::new(0, vec![0], &schema).unwrap();
    store(&mut schema, vec![text("c"), LiteralValue::Bool(true), text("-")]);
    schema.map_on_table_mut(0, |t: &mut MemoryTable| t.drop_row(1)).unwrap();
    assert_eq!(scan.get_next_row(&schema), Ok(vec![text("a")]));
    assert_eq!(scan.get_next_row(&schema), Err(SqlFailure::RowDeleted(1)));
    assert_eq!(scan.get_next_row(&schema), Err(SqlFailure::NoMoreRows));
}

#[test]
fn scan_needs_its_table_and_its_columns() {
    let mut schema = one_table();
    assert_eq!(FullTableScan::new(1, vec![], &schema).err(), Some(SqlFailure::TableIndex(1)));
    store(&mut schema, vec![text("a"), LiteralValue::Bool(true), text("-")]);
    let mut scan = FullTableScan::new(0, vec![0, 5], &schema).unwrap();
    assert_eq!(scan.get_next_row(&schema), Err(SqlFailure::ColumnIndex(5)));
    let mut other = FullTableScan::new(0, vec![0], &schema).unwrap();
    assert_eq!(other.get_next_row(&Schema::new()), Err(SqlFailure::TableIndex(0)));
}

#[test]
fn select_plan_scans_the_first_table() {
    let mut schema = one_table();
    store(&mut schema, vec![text("a"), LiteralValue::Bool(true), text("n")]);
    let ir = SelectIr {
        columns: vec![col(0, 2), col(1, 1), col(0, 0)],
        tables: vec![TableRef { table_index: 0 }, TableRef { table_index: 7 }],
    };
    let mut plan = build_select_plan(&ir, &schema).unwrap();
    assert_eq!(plan.get_next_row(&mut schema), Ok(vec![text("n"), text("a")]));
    assert_eq!(plan.get_next_row(&mut schema), Err(SqlFailure::NoMoreRows));
}

#[test]
fn select_plan_needs_a_table() {
    let schema = one_table();
    let none = SelectIr { columns: vec![], tables: vec![] };
    assert_eq!(build_select_plan(&none, &schema).err(), Some(SqlFailure::NoSourceTable));
    let gone = SelectIr { columns: vec![], tables: vec![TableRef { table_index: 3 }] };
    assert_eq!(build_select_plan(&gone, &schema).err(), Some(SqlFailure::TableIndex(3)));
}
