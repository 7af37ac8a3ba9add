use mini_sql::definitions::{
    ColumnDefinition, ColumnType, FunctionCall, InsertStmt, LiteralValue, SelectFromTable,
    SelectProjection, SelectProjectionColumn, SelectStmt,
};
use mini_sql::failure::{FailureKind, SqlFailure};
use mini_sql::ir::insert_ir::{has_duplicate_names, ir_from_insert_stmt};
use mini_sql::ir::select_ir::{ir_from_select_stmt, resolve_projection_columns};
use mini_sql::ir::{
    resolve_column_references, resolve_column_wildcard, resolve_table_reference,
    resolve_table_references, ColumnRef, TableRef,
};
use mini_sql::schema::Schema;
use mini_sql::tables::MemoryTable;

fn name(s: &str) -> String {
    s.to_string()
}

fn names(list: &[&str]) -> Vec<String> {
    list.iter().map(|s| s.to_string()).collect()
}

fn col(table_ref_index: usize, column_index: usize) -> ColumnRef {
    ColumnRef { column_index, table_ref_index }
}

fn add_table(schema: &mut Schema, table: &str, columns: &[&str]) -> usize {
    let slot = schema.create_table(&name(table)).unwrap();
    schema
        .map_on_table_mut(slot, |t: &mut MemoryTable| {
            for c in columns {
                t.add_column(ColumnDefinition { ctype: ColumnType::Text, name: c.to_string() });
            }
            Ok(())
        })
        .unwrap();
    slot
}

/// Two tables: `left(id, x)` in slot 0 and `right(x, y)` in slot 1.
fn two_tables() -> Schema {
    let mut schema = Schema::new();
    add_table(&mut schema, "left", &["id", "x"]);
    add_table(&mut schema, "right", &["x", "y"]);
    schema
}

fn both() -> Vec<TableRef> {
    vec![TableRef { table_index: 0 }, TableRef { table_index: 1 }]
}

fn select(projection: SelectProjection, from: Vec<SelectFromTable>) -> SelectStmt {
    SelectStmt { projection, from, filter: vec![] }
}

fn named(list: &[&str]) -> SelectProjection {
    SelectProjection::Columns(
        list.iter().map(|s| SelectProjectionColumn::Named(s.to_string())).collect(),
    )
}

fn table(s: &str) -> SelectFromTable {
    SelectFromTable::NamedTable(s.to_string())
}

fn function() -> SelectFromTable {
    SelectFromTable::Function(FunctionCall { function_name: name("csv_table"), arguments: vec![] })
}

#[test]
fn resolve_table_reference_finds_the_slot() {
    let schema = two_tables();
    assert_eq!(resolve_table_reference("right", &schema), Ok(TableRef { table_index: 1 }));
    assert_eq!(
        resolve_table_reference("middle", &schema),
        Err(SqlFailure::TableNotFound(name("middle")))
    );
}

#[test]
fn resolve_table_references_keeps_the_order_of_the_names() {
    let schema = two_tables();
    assert_eq!(resolve_table_references(&names(&["right", "left", "right"]), &schema), Ok(vec![
        TableRef { table_index: 1 },
        TableRef { table_index: 0 },
        TableRef { table_index: 1 },
    ]));
    assert_eq!(resolve_table_references(&[], &schema), Ok(vec![]));
}

#[test]
fn resolve_table_references_fails_at_the_first_missing_name() {
    let schema = two_tables();
    assert_eq!(
        resolve_table_references(&names(&["left", "one", "right", "two"]), &schema),
        Err(SqlFailure::TableNotFound(name("one")))
    );
}

#[test]
fn column_in_both_tables_is_ambiguous() {
    let schema = two_tables();
    let res = resolve_column_references(&names(&["x"]), &both(), &schema);
    assert_eq!(res, Err(SqlFailure::AmbiguousColumn(name("x"))));
    assert_eq!(res.unwrap_err().kind(), FailureKind::Ambiguous);
}

#[test]
fn column_in_one_table_resolves() {
    let schema = two_tables();
    assert_eq!(resolve_column_references(&names(&["id"]), &both(), &schema), Ok(vec![col(0, 0)]));
    assert_eq!(resolve_column_references(&names(&["y"]), &both(), &schema), Ok(vec![col(1, 1)]));
}

#[test]
fn column_in_no_table_is_not_found() {
    let schema = two_tables();
    let res = resolve_column_references(&names(&["z"]), &both(), &schema);
    assert_eq!(res, Err(SqlFailure::ColumnNotFound(name("z"))));
    assert_eq!(res.unwrap_err().kind(), FailureKind::NotFound);
}

#[test]
fn column_of_a_table_that_is_not_listed_is_not_found() {
    let schema = two_tables();
    let left_only = vec![TableRef { table_index: 0 }];
    assert_eq!(resolve_column_references(&names(&["x"]), &left_only, &schema), Ok(vec![col(0, 1)]));
    assert_eq!(
        resolve_column_references(&names(&["y"]), &left_only, &schema),
        Err(SqlFailure::ColumnNotFound(name("y")))
    );
}

#[test]
fn column_declared_twice_in_one_table_is_ambiguous() {
    let mut schema = Schema::new();
    add_table(&mut schema, "t", &["a", "b", "a"]);
    let refs = vec![TableRef { table_index: 0 }];
    assert_eq!(
        resolve_column_references(&names(&["a"]), &refs, &schema),
        Err(SqlFailure::AmbiguousColumn(name("a")))
    );
    assert_eq!(resolve_column_references(&names(&["b"]), &refs, &schema), Ok(vec![col(0, 1)]));
}

#[test]
fn table_listed_twice_makes_its_columns_ambiguous() {
    let schema = two_tables();
    let twice = vec![TableRef { table_index: 0 }, TableRef { table_index: 0 }];
    assert_eq!(
        resolve_column_references(&names(&["id"]), &twice, &schema),
        Err(SqlFailure::AmbiguousColumn(name("id")))
    );
}

#[test]
fn columns_come_out_in_the_order_asked() {
    let schema = two_tables();
    assert_eq!(
        resolve_column_references(&names(&["y", "id", "y"]), &both(), &schema),
        Ok(vec![col(1, 1), col(0, 0), col(1, 1)])
    );
    assert_eq!(resolve_column_references(&[], &both(), &schema), Ok(vec![]));
}

#[test]
fn first_name_that_fails_decides_the_failure() {
    let schema = two_tables();
    assert_eq!(
        resolve_column_references(&names(&["id", "z", "x"]), &both(), &schema),
        Err(SqlFailure::ColumnNotFound(name("z")))
    );
    assert_eq!(
        resolve_column_references(&names(&["x", "z"]), &both(), &schema),
        Err(SqlFailure::AmbiguousColumn(name("x")))
    );
}

#[test]
fn reference_to_a_missing_slot_fails_before_any_name() {
    let schema = two_tables();
    let refs = vec![TableRef { table_index: 0 }, TableRef { table_index: 9 }];
    assert_eq!(
        resolve_column_references(&names(&["z"]), &refs, &schema),
        Err(SqlFailure::TableIndex(9))
    );
    assert_eq!(resolve_column_references(&[], &refs, &schema), Err(SqlFailure::TableIndex(9)));
}

#[test]
fn column_names_are_case_sensitive() {
    let schema = two_tables();
    assert_eq!(
        resolve_column_references(&names(&["ID"]), &both(), &schema),
        Err(SqlFailure::ColumnNotFound(name("ID")))
    );
}

#[test]
fn wildcard_expands_in_declared_order() {
    let schema = two_tables();
    assert_eq!(
        resolve_column_wildcard(&TableRef { table_index: 1 }, 0, &schema),
        Ok(vec![col(0, 0), col(0, 1)])
    );
    assert_eq!(
        resolve_column_wildcard(&TableRef { table_index: 1 }, 3, &schema),
        Ok(vec![col(3, 0), col(3, 1)])
    );
    assert_eq!(
        resolve_column_wildcard(&TableRef { table_index: 2 }, 0, &schema),
        Err(SqlFailure::TableIndex(2))
    );
}

#[test]
fn select_resolves_tables_then_columns() {
    let schema = two_tables();
    let ir = ir_from_select_stmt(&select(named(&["y", "id"]), vec![table("left"), table("right")]), &schema)
        .unwrap();
    assert_eq!(ir.tables, both());
    assert_eq!(ir.columns, vec![col(1, 1), col(0, 0)]);
}

#[test]
fn select_wildcard_needs_exactly_one_table() {
    let schema = two_tables();
    let one = ir_from_select_stmt(&select(SelectProjection::Wildcard, vec![table("right")]), &schema)
        .unwrap();
    assert_eq!(one.tables, vec![TableRef { table_index: 1 }]);
    assert_eq!(one.columns, vec![col(0, 0), col(0, 1)]);
    let two = ir_from_select_stmt(
        &select(SelectProjection::Wildcard, vec![table("left"), table("right")]),
        &schema,
    );
    assert_eq!(two.unwrap_err(), SqlFailure::WildcardTables);
    let none = ir_from_select_stmt(&select(SelectProjection::Wildcard, vec![]), &schema);
    assert_eq!(none.unwrap_err(), SqlFailure::WildcardTables);
}

#[test]
fn select_rejects_function_sources_and_literal_projections() {
    let schema = two_tables();
    let from_function = ir_from_select_stmt(&select(named(&["id"]), vec![function()]), &schema);
    assert_eq!(from_function.unwrap_err(), SqlFailure::FunctionSource);
    assert_eq!(SqlFailure::FunctionSource.kind(), FailureKind::Unsupported);
    let literal = SelectProjection::Columns(vec![
        SelectProjectionColumn::Named(name("nope")),
        SelectProjectionColumn::LiteralValue(LiteralValue::Bool(true)),
    ]);
    let projected = ir_from_select_stmt(&select(literal, vec![table("left")]), &schema);
    assert_eq!(projected.unwrap_err(), SqlFailure::LiteralProjection);
}

#[test]
fn select_fails_at_the_first_source_that_cannot_be_scanned() {
    let schema = two_tables();
    let missing_first =
        ir_from_select_stmt(&select(named(&["id"]), vec![table("gone"), function()]), &schema);
    assert_eq!(missing_first.unwrap_err(), SqlFailure::TableNotFound(name("gone")));
    let function_first =
        ir_from_select_stmt(&select(named(&["id"]), vec![function(), table("gone")]), &schema);
    assert_eq!(function_first.unwrap_err(), SqlFailure::FunctionSource);
    let sources_first = ir_from_select_stmt(&select(named(&["zzz"]), vec![table("gone")]), &schema);
    assert_eq!(sources_first.unwrap_err(), SqlFailure::TableNotFound(name("gone")));
}

#[test]
fn projection_is_resolved_over_the_given_tables() {
    let schema = two_tables();
    let stmt = select(named(&["x"]), vec![]);
    assert_eq!(
        resolve_projection_columns(&stmt, &vec![TableRef { table_index: 1 }], &schema),
        Ok(vec![col(0, 0)])
    );
    assert_eq!(
        resolve_projection_columns(&stmt, &both(), &schema),
        Err(SqlFailure::AmbiguousColumn(name("x")))
    );
}

#[test]
fn duplicate_names_are_found_wherever_they_stand() {
    assert!(!has_duplicate_names(&names(&[])));
    assert!(!has_duplicate_names(&names(&["a"])));
    assert!(!has_duplicate_names(&names(&["a", "b", "c"])));
    assert!(has_duplicate_names(&names(&["a", "a"])));
    assert!(has_duplicate_names(&names(&["a", "b", "a"])));
    assert!(has_duplicate_names(&names(&["c", "b", "a", "b"])));
    assert!(!has_duplicate_names(&names(&["a", "A"])));
}

fn insert(table: &str, columns: &[&str], values: Vec<LiteralValue>) -> InsertStmt {
    InsertStmt { table_name: name(table), column_names: names(columns), column_values: values }
}

#[test]
fn insert_resolves_table_and_columns() {
    let schema = two_tables();
    let values = vec![LiteralValue::Bool(true), LiteralValue::Null];
    let ir = ir_from_insert_stmt(&insert("right", &["y", "x"], values.clone()), &schema).unwrap();
    assert_eq!(ir.table, TableRef { table_index: 1 });
    assert_eq!(ir.columns, vec![col(0, 1), col(0, 0)]);
    assert_eq!(ir.values, values);
}

#[test]
fn insert_checks_duplicates_before_counts_and_names() {
    let schema = two_tables();
    let res = ir_from_insert_stmt(&insert("gone", &["q", "q"], vec![]), &schema);
    assert_eq!(res.unwrap_err(), SqlFailure::DuplicateColumns);
    assert_eq!(SqlFailure::DuplicateColumns.kind(), FailureKind::Shape);
}

#[test]
fn insert_checks_counts_before_names() {
    let schema = two_tables();
    let few = ir_from_insert_stmt(&insert("gone", &["q", "r"], vec![LiteralValue::Null]), &schema);
    assert_eq!(few.unwrap_err(), SqlFailure::TooFewValues);
    let many = ir_from_insert_stmt(
        &insert("gone", &["q"], vec![LiteralValue::Null, LiteralValue::Null]),
        &schema,
    );
    assert_eq!(many.unwrap_err(), SqlFailure::TooManyValues);
}

#[test]
fn insert_resolves_the_table_before_the_columns() {
    let schema = two_tables();
    let no_table = ir_from_insert_stmt(&insert("gone", &["q"], vec![LiteralValue::Null]), &schema);
    assert_eq!(no_table.unwrap_err(), SqlFailure::TableNotFound(name("gone")));
    let no_column = ir_from_insert_stmt(&insert("left", &["q"], vec![LiteralValue::Null]), &schema);
    assert_eq!(no_column.unwrap_err(), SqlFailure::ColumnNotFound(name("q")));
}

#[test]
fn insert_sees_only_the_columns_of_its_table() {
    let schema = two_tables();
    let ir = ir_from_insert_stmt(&insert("left", &["x"], vec![LiteralValue::Null]), &schema)
        .unwrap();
    assert_eq!(ir.columns, vec![col(0, 1)]);
}
