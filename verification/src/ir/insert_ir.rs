//! Resolution of an `INSERT` statement.

use vstd::prelude::*;
use crate::definitions::{InsertStmt, LiteralValue};
use crate::failure::{FailureView, SqlError, SqlFailure};
use crate::ir::{
    column_resolution, lemma_column_resolution_decided, resolve_column_references,
    resolve_table_reference, ColumnRef, TableRef,
};
use crate::schema::{lemma_resolves_to_one_slot, CatalogView, Schema};

verus! {

/// A resolved `INSERT`: the target table, the listed columns in order, and
/// a value for each.
#[derive(Debug)]
pub struct InsertIr {
    pub values: Vec<LiteralValue>,
    pub table: TableRef,
    pub columns: Vec<ColumnRef>,
}

/// Some name stands twice in the list.
pub open spec fn has_duplicate(names: Seq<Seq<char>>) -> bool {
    exists|i: int, j: int| 0 <= i < j < names.len() && #[trigger] names[i] == #[trigger] names[j]
}

/// What resolving an `INSERT` gives. The statement is checked before
/// anything is resolved: a repeated column name fails it, whatever the
/// values are; then a count of values other than the count of names. Then
/// the table is resolved, and the names against its columns.
pub open spec fn insert_resolution(
    catalog: CatalogView,
    table_name: Seq<char>,
    names: Seq<Seq<char>>,
    values: nat,
    outcome: Result<(TableRef, Seq<ColumnRef>), FailureView>,
) -> bool {
    if has_duplicate(names) {
        outcome == Err::<(TableRef, Seq<ColumnRef>), FailureView>(FailureView::DuplicateColumns)
    } else if values < names.len() {
        outcome == Err::<(TableRef, Seq<ColumnRef>), FailureView>(FailureView::TooFewValues)
    } else if values > names.len() {
        outcome == Err::<(TableRef, Seq<ColumnRef>), FailureView>(FailureView::TooManyValues)
    } else if !catalog.has_live(table_name) {
        outcome == Err::<(TableRef, Seq<ColumnRef>), FailureView>(
            FailureView::TableNotFound(table_name),
        )
    } else {
        match outcome {
            Ok((table, cols)) => {
                &&& catalog.resolves_to(table_name, table.table_index as int)
                &&& column_resolution(catalog, seq![table], names, Ok(cols))
            },
            Err(e) => exists|table: TableRef|
                {
                    &&& catalog.resolves_to(table_name, table.table_index as int)
                    &&& #[trigger] column_resolution(catalog, seq![table], names, Err(e))
                },
        }
    }
}

/// Whether some name stands twice in the list.
pub fn has_duplicate_names(names: &Vec<String>) -> (found: bool)
    ensures
        found == has_duplicate(names.deep_view()),
{
    let ghost list = names.deep_view();
    let mut j: usize = 0;
    while j < names.len()
        invariant
            j <= names@.len(),
            list == names.deep_view(),
            forall|a: int, b: int| 0 <= a < b < j ==> #[trigger] list[a] != #[trigger] list[b],
        decreases names@.len() - j,
    {
        let mut i: usize = 0;
        while i < j
            invariant
                i <= j < names@.len(),
                list == names.deep_view(),
                forall|a: int| 0 <= a < i ==> #[trigger] list[a] != list[j as int],
            decreases j - i,
        {
            if names[i] == names[j] {
                assert(list[i as int] == list[j as int]);
                return true;
            }
            i += 1;
        }
        j += 1;
    }
    false
}

/// Resolves an `INSERT`.
pub fn ir_from_insert_stmt(stmt: &InsertStmt, schema: &Schema) -> (res: SqlError<InsertIr>)
    requires
        schema.wf(),
    ensures
        match res {
            Ok(ir) => {
                &&& insert_resolution(
                    schema@,
                    stmt.table_name@,
                    stmt.column_names.deep_view(),
                    stmt.column_values@.len(),
                    Ok((ir.table, ir.columns@)),
                )
                &&& ir.values.deep_view() == stmt.column_values.deep_view()
            },
            Err(e) => insert_resolution(
                schema@,
                stmt.table_name@,
                stmt.column_names.deep_view(),
                stmt.column_values@.len(),
                Err(e@),
            ),
        },
{
    // First lets ensure that the columns listed are not duplicated
    if has_duplicate_names(&stmt.column_names) {
        return Err(SqlFailure::DuplicateColumns);
    }
    // Ensure the number of listed columns match the number of supplied values
    if stmt.column_values.len() < stmt.column_names.len() {
        return Err(SqlFailure::TooFewValues);
    } else if stmt.column_values.len() > stmt.column_names.len() {
        return Err(SqlFailure::TooManyValues);
    }
    // Now lets resolve the table and column references
    let table_ref = match resolve_table_reference(stmt.table_name.as_str(), schema) {
        Ok(r) => r,
        Err(e) => {
            return Err(e);
        },
    };
    assert(schema@.named(stmt.table_name@, table_ref.table_index as int));
    let table_refs = vec![table_ref];
    assert(table_refs@ =~= seq![table_ref]);
    let column_names = stmt.column_names.as_slice();
    assert(column_names.deep_view() =~= stmt.column_names.deep_view());
    let column_refs = match resolve_column_references(column_names, table_refs.as_slice(), schema) {
        Ok(cols) => cols,
        Err(e) => {
            return Err(e);
        },
    };
    let values = stmt.column_values.clone();
    assert(values.deep_view() =~= stmt.column_values.deep_view());
    Ok(InsertIr { columns: column_refs, table: table_ref, values })
}

/// A repeated column name fails an `INSERT` before anything else is looked
/// at: whatever the values, the table and the catalog are.
pub proof fn lemma_duplicates_fail_first(
    catalog: CatalogView,
    table_name: Seq<char>,
    names: Seq<Seq<char>>,
    values: nat,
    outcome: Result<(TableRef, Seq<ColumnRef>), FailureView>,
)
    requires
        has_duplicate(names),
        insert_resolution(catalog, table_name, names, values, outcome),
    ensures
        outcome == Err::<(TableRef, Seq<ColumnRef>), FailureView>(FailureView::DuplicateColumns),
{
}

/// Resolving an `INSERT` has one outcome: the catalog and the statement
/// decide which table and columns come out, or which failure.
pub proof fn lemma_insert_resolution_decided(
    catalog: CatalogView,
    table_name: Seq<char>,
    names: Seq<Seq<char>>,
    values: nat,
    a: Result<(TableRef, Seq<ColumnRef>), FailureView>,
    b: Result<(TableRef, Seq<ColumnRef>), FailureView>,
)
    requires
        insert_resolution(catalog, table_name, names, values, a),
        insert_resolution(catalog, table_name, names, values, b),
    ensures
        a == b,
{
    if !has_duplicate(names) && values == names.len() && catalog.has_live(table_name) {
        let table_a = target_of(catalog, table_name, names, a);
        let table_b = target_of(catalog, table_name, names, b);
        lemma_resolves_to_one_slot(
            catalog,
            table_name,
            table_a.table_index as int,
            table_b.table_index as int,
        );
        lemma_column_resolution_decided(
            catalog,
            seq![table_a],
            names,
            columns_of(a),
            columns_of(b),
        );
    }
}

/// The table that an `INSERT` was resolved against.
spec fn target_of(
    catalog: CatalogView,
    table_name: Seq<char>,
    names: Seq<Seq<char>>,
    outcome: Result<(TableRef, Seq<ColumnRef>), FailureView>,
) -> TableRef {
    match outcome {
        Ok((table, _)) => table,
        Err(e) => choose|table: TableRef|
            {
                &&& catalog.resolves_to(table_name, table.table_index as int)
                &&& #[trigger] column_resolution(catalog, seq![table], names, Err(e))
            },
    }
}

/// The columns of a resolved `INSERT`, or its failure.
spec fn columns_of(outcome: Result<(TableRef, Seq<ColumnRef>), FailureView>) -> Result<
    Seq<ColumnRef>,
    FailureView,
> {
    match outcome {
        Ok((_, cols)) => Ok(cols),
        Err(e) => Err(e),
    }
}

} // verus!
