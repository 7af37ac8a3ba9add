use mini_sql::definitions::{
    ColumnDefinition, ColumnType, CreateTableStmt, DropTableStmt, FunctionCall, InsertStmt,
    LiteralValue, SelectFromTable, SelectProjection, SelectProjectionColumn, SelectStmt,
    SqlResult, SqlStmt,
};
use mini_sql::engine::SqlEngine;
use mini_sql::failure::{FailureKind, SqlFailure};
use mini_sql::tables::MemoryTable;

fn name(s: &str) -> String {
    s.to_string()
}

fn create(table: &str, columns: &[(&str, ColumnType)]) -> SqlStmt {
    SqlStmt::CreateTable(CreateTableStmt {
        table_name: name(table),
        column_defs: columns
            .iter()
            .map(|(n, t)| ColumnDefinition { ctype: *t, name: n.to_string() })
            .collect(),
    })
}

fn insert(table: &str, columns: &[&str], values: Vec<LiteralValue>) -> SqlStmt {
    SqlStmt::Insert(InsertStmt {
        table_name: name(table),
        column_names: columns.iter().map(|c| c.to_string()).collect(),
        column_values: values,
    })
}

fn select_all(table: &str) -> SqlStmt {
    SqlStmt::Select(SelectStmt {
        projection: SelectProjection::Wildcard,
        from: vec![SelectFromTable::NamedTable(name(table))],
        filter: vec![],
    })
}

fn select(columns: &[&str], table: &str) -> SqlStmt {
    SqlStmt::Select(SelectStmt {
        projection: SelectProjection::Columns(
            columns.iter().map(|c| SelectProjectionColumn::Named(c.to_string())).collect(),
        ),
        from: vec![SelectFromTable::NamedTable(name(table))],
        filter: vec![],
    })
}

fn drop(table: &str) -> SqlStmt {
    SqlStmt::DropTable(DropTableStmt { table_name: name(table) })
}

fn rows(list: Vec<Vec<LiteralValue>>) -> Result<SqlResult, SqlFailure> {
    Ok(SqlResult::Rows(list))
}

/// An engine with the table `abc(col1 Bool, col2 Bool)`.
fn engine_with_abc() -> SqlEngine {
    let mut engine = SqlEngine::new();
    engine
        .excecute_stmt(create("abc", &[("col1", ColumnType::Bool), ("col2", ColumnType::Bool)]))
        .unwrap();
    engine
}

fn raw_len(engine: &SqlEngine, slot: usize) -> usize {
    engine.schema().map_on_table(slot, |t: &MemoryTable| Ok(t.raw_len())).unwrap()
}

#[test]
fn create_table_insert_select() {
    let mut engine = SqlEngine::new();
    // CREATE TABLE ABC(COL1 BOOL, COL2 BOOL)
    engine
        .excecute_stmt(create("abc", &[("col1", ColumnType::Bool), ("col2", ColumnType::Bool)]))
        .unwrap();
    // INSERT INTO ABC(COL1, COL2) VALUES (TRUE, FALSE)
    engine
        .excecute_stmt(insert(
            "abc",
            &["col1", "col2"],
            vec![LiteralValue::Bool(true), LiteralValue::Bool(false)],
        ))
        .unwrap();
    // INSERT INTO ABC(COL1, COL2) VALUES (TRUE)
    assert!(engine
        .excecute_stmt(insert("abc", &["col1", "col2"], vec![LiteralValue::Bool(true)]))
        .is_err());
    // INSERT INTO ABC(COL1) VALUES (TRUE,FALSE)
    assert!(engine
        .excecute_stmt(insert(
            "abc",
            &["col1"],
            vec![LiteralValue::Bool(true), LiteralValue::Bool(false)]
        ))
        .is_err());
    // INSERT INTO ABC(COL1,COL1) VALUES (TRUE,FALSE)
    assert!(engine
        .excecute_stmt(insert(
            "abc",
            &["col1", "col1"],
            vec![LiteralValue::Bool(true), LiteralValue::Bool(false)]
        ))
        .is_err());

    // SELECT * FROM ABC
    let mut result = engine.excecute_stmt(select_all("abc")).unwrap();
    let mut expected_result =
        SqlResult::Rows(vec![vec![LiteralValue::Bool(true), LiteralValue::Bool(false)]]);
    assert_eq!(result, expected_result);

    // SELECT COL1 FROM ABC
    result = engine.excecute_stmt(select(&["col1"], "abc")).unwrap();
    expected_result = SqlResult::Rows(vec![vec![LiteralValue::Bool(true)]]);
    assert_eq!(result, expected_result);

    // SELECT COL2 FROM ABC
    result = engine.excecute_stmt(select(&["col2"], "abc")).unwrap();
    expected_result = SqlResult::Rows(vec![vec![LiteralValue::Bool(false)]]);
    assert_eq!(result, expected_result);
}

#[test]
fn insert_shape_is_checked() {
    let mut engine = engine_with_abc();
    let both = vec![LiteralValue::Bool(true), LiteralValue::Bool(false)];
    assert_eq!(
        engine.excecute_stmt(insert("abc", &["col1", "col2"], both.clone())),
        Ok(SqlResult::Nothing)
    );
    assert_eq!(engine.excecute_stmt(select_all("abc")), rows(vec![both.clone()]));
    let one = engine.excecute_stmt(insert("abc", &["col1", "col2"], vec![LiteralValue::Bool(true)]));
    assert_eq!(one, Err(SqlFailure::TooFewValues));
    assert_eq!(one.unwrap_err().kind(), FailureKind::Shape);
    let extra = engine.excecute_stmt(insert("abc", &["col1"], both.clone()));
    assert_eq!(extra, Err(SqlFailure::TooManyValues));
    assert_eq!(raw_len(&engine, 0), 1);
}

#[test]
fn duplicated_column_names_fail_before_any_value_is_examined() {
    let mut engine = engine_with_abc();
    let unusable = vec![LiteralValue::Text(name("not a bool")), LiteralValue::Null];
    let res = engine.excecute_stmt(insert("abc", &["col1", "col1"], unusable));
    assert_eq!(res, Err(SqlFailure::DuplicateColumns));
    let short = engine.excecute_stmt(insert("abc", &["col1", "col1"], vec![]));
    assert_eq!(short, Err(SqlFailure::DuplicateColumns));
    assert_eq!(raw_len(&engine, 0), 0);
}

#[test]
fn projection_keeps_the_requested_columns() {
    let mut engine = engine_with_abc();
    engine
        .excecute_stmt(insert(
            "abc",
            &["col1", "col2"],
            vec![LiteralValue::Bool(true), LiteralValue::Bool(false)],
        ))
        .unwrap();
    assert_eq!(
        engine.excecute_stmt(select(&["col1"], "abc")),
        rows(vec![vec![LiteralValue::Bool(true)]])
    );
    assert_eq!(
        engine.excecute_stmt(select(&["col2"], "abc")),
        rows(vec![vec![LiteralValue::Bool(false)]])
    );
    assert_eq!(
        engine.excecute_stmt(select_all("abc")),
        rows(vec![vec![LiteralValue::Bool(true), LiteralValue::Bool(false)]])
    );
}

#[test]
fn projection_follows_the_requested_order() {
    let mut engine = engine_with_abc();
    engine
        .excecute_stmt(insert(
            "abc",
            &["col1", "col2"],
            vec![LiteralValue::Bool(true), LiteralValue::Bool(false)],
        ))
        .unwrap();
    assert_eq!(
        engine.excecute_stmt(select(&["col2", "col1"], "abc")),
        rows(vec![vec![LiteralValue::Bool(false), LiteralValue::Bool(true)]])
    );
}

#[test]
fn insert_places_values_by_listed_column() {
    let mut engine = engine_with_abc();
    engine
        .excecute_stmt(insert(
            "abc",
            &["col2", "col1"],
            vec![LiteralValue::Bool(true), LiteralValue::Bool(false)],
        ))
        .unwrap();
    assert_eq!(
        engine.excecute_stmt(select_all("abc")),
        rows(vec![vec![LiteralValue::Bool(false), LiteralValue::Bool(true)]])
    );
}

#[test]
fn stored_values_read_back_coerced() {
    let mut engine = SqlEngine::new();
    engine
        .excecute_stmt(create(
            "t",
            &[("a", ColumnType::Text), ("b", ColumnType::Text), ("c", ColumnType::Bool)],
        ))
        .unwrap();
    engine
        .excecute_stmt(insert(
            "t",
            &["a", "b", "c"],
            vec![LiteralValue::Null, LiteralValue::Bool(true), LiteralValue::Bool(false)],
        ))
        .unwrap();
    assert_eq!(
        engine.excecute_stmt(select_all("t")),
        rows(vec![vec![
            LiteralValue::Text(name("")),
            LiteralValue::Text(name("true")),
            LiteralValue::Bool(false)
        ]])
    );
}

#[test]
fn unlisted_columns_are_null() {
    let mut engine = engine_with_abc();
    engine.excecute_stmt(insert("abc", &["col2"], vec![LiteralValue::Bool(true)])).unwrap();
    assert_eq!(
        engine.excecute_stmt(select_all("abc")),
        rows(vec![vec![LiteralValue::Null, LiteralValue::Bool(true)]])
    );
}

#[test]
fn value_of_the_wrong_type_aborts_the_insert() {
    let mut engine = engine_with_abc();
    let res = engine.excecute_stmt(insert(
        "abc",
        &["col1", "col2"],
        vec![LiteralValue::Bool(true), LiteralValue::Text(name("x"))],
    ));
    assert_eq!(res, Err(SqlFailure::TextToBool(name("x"))));
    assert_eq!(res.unwrap_err().kind(), FailureKind::Type);
    let null = engine.excecute_stmt(insert("abc", &["col1"], vec![LiteralValue::Null]));
    assert_eq!(null, Err(SqlFailure::NullToBool));
    assert_eq!(raw_len(&engine, 0), 0);
    assert_eq!(engine.excecute_stmt(select_all("abc")), Err(SqlFailure::NoMoreRows));
}

#[test]
fn select_hands_back_the_first_visible_row() {
    let mut engine = engine_with_abc();
    for first in [true, false] {
        engine
            .excecute_stmt(insert(
                "abc",
                &["col1", "col2"],
                vec![LiteralValue::Bool(first), LiteralValue::Bool(true)],
            ))
            .unwrap();
    }
    assert_eq!(
        engine.excecute_stmt(select(&["col1"], "abc")),
        rows(vec![vec![LiteralValue::Bool(true)]])
    );
}

#[test]
fn select_of_a_table_without_rows_ends_at_once() {
    let mut engine = engine_with_abc();
    let res = engine.excecute_stmt(select_all("abc"));
    assert_eq!(res, Err(SqlFailure::NoMoreRows));
    assert_eq!(res.unwrap_err().kind(), FailureKind::Exhausted);
}

#[test]
fn select_rejects_what_is_not_evaluated() {
    let mut engine = engine_with_abc();
    let function = SqlStmt::Select(SelectStmt {
        projection: SelectProjection::Wildcard,
        from: vec![SelectFromTable::Function(FunctionCall {
            function_name: name("csv_table"),
            arguments: vec![],
        })],
        filter: vec![],
    });
    assert_eq!(engine.excecute_stmt(function), Err(SqlFailure::FunctionSource));
    let literal = SqlStmt::Select(SelectStmt {
        projection: SelectProjection::Columns(vec![SelectProjectionColumn::LiteralValue(
            LiteralValue::Bool(true),
        )]),
        from: vec![SelectFromTable::NamedTable(name("abc"))],
        filter: vec![],
    });
    assert_eq!(engine.excecute_stmt(literal), Err(SqlFailure::LiteralProjection));
    let no_table = SqlStmt::Select(SelectStmt {
        projection: SelectProjection::Columns(vec![]),
        from: vec![],
        filter: vec![],
    });
    assert_eq!(engine.excecute_stmt(no_table), Err(SqlFailure::NoSourceTable));
}

#[test]
fn select_names_what_it_cannot_find() {
    let mut engine = engine_with_abc();
    assert_eq!(
        engine.excecute_stmt(select_all("xyz")),
        Err(SqlFailure::TableNotFound(name("xyz")))
    );
    assert_eq!(
        engine.excecute_stmt(select(&["col3"], "abc")),
        Err(SqlFailure::ColumnNotFound(name("col3")))
    );
}

#[test]
fn create_table_rejects_a_live_name_and_changes_nothing() {
    let mut engine = engine_with_abc();
    let again = engine.excecute_stmt(create("abc", &[("other", ColumnType::Text)]));
    assert_eq!(again, Err(SqlFailure::TableExists(name("abc"))));
    assert_eq!(engine.schema().find_table("abc"), Some(0));
    assert_eq!(
        engine.schema().map_on_table(0, |t: &MemoryTable| Ok(t.columns().len())),
        Ok(2)
    );
    assert_eq!(engine.schema().map_on_table(1, |t: &MemoryTable| Ok(t.len())), Err(SqlFailure::TableIndex(1)));
}

#[test]
fn create_table_declares_columns_in_order() {
    let mut engine = SqlEngine::new();
    assert_eq!(
        engine.excecute_stmt(create("t", &[("b", ColumnType::Bool), ("a", ColumnType::Text)])),
        Ok(SqlResult::Nothing)
    );
    let columns = engine.schema().map_on_table(0, |t: &MemoryTable| Ok(t.columns().to_vec()));
    assert_eq!(
        columns,
        Ok(vec![
            ColumnDefinition { ctype: ColumnType::Bool, name: name("b") },
            ColumnDefinition { ctype: ColumnType::Text, name: name("a") },
        ])
    );
}

#[test]
fn drop_table_hides_the_table_and_keeps_the_others() {
    let mut engine = engine_with_abc();
    engine.excecute_stmt(create("def", &[("x", ColumnType::Text)])).unwrap();
    engine.excecute_stmt(insert("def", &["x"], vec![LiteralValue::Text(name("kept"))])).unwrap();
    assert_eq!(engine.excecute_stmt(drop("abc")), Ok(SqlResult::Nothing));
    assert_eq!(
        engine.excecute_stmt(select_all("abc")),
        Err(SqlFailure::TableNotFound(name("abc")))
    );
    assert_eq!(
        engine.excecute_stmt(insert("abc", &["col1"], vec![LiteralValue::Bool(true)])),
        Err(SqlFailure::TableNotFound(name("abc")))
    );
    assert_eq!(engine.excecute_stmt(drop("abc")), Err(SqlFailure::TableNotFound(name("abc"))));
    assert_eq!(
        engine.excecute_stmt(select_all("def")),
        rows(vec![vec![LiteralValue::Text(name("kept"))]])
    );
    assert_eq!(engine.schema().find_table("def"), Some(1));
}

#[test]
fn dropped_name_can_be_created_again() {
    let mut engine = engine_with_abc();
    engine
        .excecute_stmt(insert(
            "abc",
            &["col1", "col2"],
            vec![LiteralValue::Bool(true), LiteralValue::Bool(true)],
        ))
        .unwrap();
    engine.excecute_stmt(drop("abc")).unwrap();
    engine.excecute_stmt(create("abc", &[("only", ColumnType::Text)])).unwrap();
    assert_eq!(engine.schema().find_table("abc"), Some(1));
    assert_eq!(engine.excecute_stmt(select_all("abc")), Err(SqlFailure::NoMoreRows));
    assert_eq!(raw_len(&engine, 0), 1);
}

#[test]
fn dump_tables_changes_nothing() {
    let mut engine = engine_with_abc();
    assert_eq!(engine.excecute_stmt(SqlStmt::DumpTables), Ok(SqlResult::Nothing));
    assert_eq!(engine.schema().find_table("abc"), Some(0));
    assert_eq!(raw_len(&engine, 0), 0);
}

#[test]
fn filters_are_carried_and_not_evaluated() {
    let mut engine = engine_with_abc();
    engine
        .excecute_stmt(insert(
            "abc",
            &["col1", "col2"],
            vec![LiteralValue::Bool(true), LiteralValue::Bool(false)],
        ))
        .unwrap();
    let filtered = SqlStmt::Select(SelectStmt {
        projection: SelectProjection::Wildcard,
        from: vec![SelectFromTable::NamedTable(name("abc"))],
        filter: vec![mini_sql::definitions::SelectWhereFilter::ColumnLiteral(
            name("col1"),
            mini_sql::definitions::Comparator::Equals,
            LiteralValue::Bool(false),
        )],
    });
    assert_eq!(
        engine.excecute_stmt(filtered),
        rows(vec![vec![LiteralValue::Bool(true), LiteralValue::Bool(false)]])
    );
}

#[test]
fn statements_can_be_run_one_kind_at_a_time() {
    let mut engine = SqlEngine::new();
    let created = engine.create_table(CreateTableStmt {
        table_name: name("t"),
        column_defs: vec![ColumnDefinition { ctype: ColumnType::Text, name: name("a") }],
    });
    assert_eq!(created, Ok(()));
    let stored = engine.insert(InsertStmt {
        table_name: name("t"),
        column_names: vec![name("a")],
        column_values: vec![LiteralValue::Bool(true)],
    });
    assert_eq!(stored, Ok(()));
    let read = engine.select(SelectStmt {
        projection: SelectProjection::Wildcard,
        from: vec![SelectFromTable::NamedTable(name("t"))],
        filter: vec![],
    });
    assert_eq!(read, Ok(vec![vec![LiteralValue::Text(name("true"))]]));
    assert_eq!(engine.drop_table(DropTableStmt { table_name: name("t") }), Ok(()));
    assert_eq!(
        engine.drop_table(DropTableStmt { table_name: name("t") }),
        Err(SqlFailure::TableNotFound(name("t")))
    );
}

#[test]
fn cloned_catalog_is_a_catalog_of_its_own() {
    let mut engine = engine_with_abc();
    for first in [true, false] {
        engine
            .excecute_stmt(insert(
                "abc",
                &["col1", "col2"],
                vec![LiteralValue::Bool(first), LiteralValue::Bool(first)],
            ))
            .unwrap();
    }
    let mut catalog = engine.schema().clone();
    catalog.map_on_table_mut(0, |t: &mut MemoryTable| t.drop_row(0)).unwrap();
    let first_visible = catalog.map_on_table(0, |t: &MemoryTable| {
        let mut iter = t.rowid_iter();
        Ok(iter.next())
    });
    assert_eq!(first_visible, Ok(Some(1)));
    assert_eq!(
        engine.excecute_stmt(select_all("abc")),
        rows(vec![vec![LiteralValue::Bool(true), LiteralValue::Bool(true)]])
    );
}
