//! Resolution of a `SELECT` statement.

use vstd::prelude::*;
use crate::definitions::{SelectFromTable, SelectProjection, SelectProjectionColumn, SelectStmt};
use crate::failure::{FailureView, SqlError, SqlFailure};
use crate::ir::{
    column_resolution, lemma_column_resolution_decided, lemma_wildcard_resolution_decided,
    resolve_column_references, resolve_column_wildcard, resolve_table_reference,
    wildcard_resolution, ColumnRef, TableRef,
};
use crate::schema::{lemma_resolves_to_one_slot, CatalogView, Schema};

verus! {

/// A resolved `SELECT`: the tables of its `FROM` list in order, and the
/// columns it projects in order.
#[derive(Debug)]
pub struct SelectIr {
    pub columns: Vec<ColumnRef>,
    pub tables: Vec<TableRef>,
}

/// Why a source of a `FROM` list cannot be scanned, if it cannot: it is a
/// function call, or no live table carries its name.
pub open spec fn source_failure(catalog: CatalogView, source: SelectFromTable) -> Option<
    FailureView,
> {
    match source {
        SelectFromTable::Function(_) => Some(FailureView::FunctionSource),
        SelectFromTable::NamedTable(name) => if catalog.has_live(name@) {
            None
        } else {
            Some(FailureView::TableNotFound(name@))
        },
    }
}

/// Source `k` is the first that cannot be scanned.
pub open spec fn first_failing_source(
    catalog: CatalogView,
    from: Seq<SelectFromTable>,
    k: int,
) -> bool {
    &&& 0 <= k < from.len()
    &&& source_failure(catalog, from[k]) is Some
    &&& forall|j: int| 0 <= j < k ==> source_failure(catalog, #[trigger] from[j]) is None
}

/// Every source is a table name, and `refs` lists the slots the names
/// resolve to, in order.
pub open spec fn sources_resolved(
    catalog: CatalogView,
    from: Seq<SelectFromTable>,
    refs: Seq<TableRef>,
) -> bool {
    &&& refs.len() == from.len()
    &&& forall|k: int|
        0 <= k < from.len() ==> ((#[trigger] from[k]) matches SelectFromTable::NamedTable(name)
            && catalog.resolves_to(name@, refs[k].table_index as int))
}

/// Some projected column is a literal.
pub open spec fn has_literal(list: Seq<SelectProjectionColumn>) -> bool {
    exists|k: int| 0 <= k < list.len() && (#[trigger] list[k]) is LiteralValue
}

/// The names of projected columns, in order.
pub open spec fn projected_names(list: Seq<SelectProjectionColumn>) -> Seq<Seq<char>> {
    Seq::new(
        list.len(),
        |k: int|
            match list[k] {
                SelectProjectionColumn::Named(name) => name@,
                SelectProjectionColumn::LiteralValue(_) => Seq::empty(),
            },
    )
}

/// What resolving a projection over the resolved tables `refs` gives. `*`
/// needs exactly one table and expands to its columns; listed columns must
/// all be names, and are resolved as names.
pub open spec fn projection_resolution(
    catalog: CatalogView,
    projection: SelectProjection,
    refs: Seq<TableRef>,
    outcome: Result<Seq<ColumnRef>, FailureView>,
) -> bool {
    match projection {
        SelectProjection::Wildcard => if refs.len() == 1 {
            wildcard_resolution(catalog, refs[0], 0, outcome)
        } else {
            outcome == Err::<Seq<ColumnRef>, FailureView>(FailureView::WildcardTables)
        },
        SelectProjection::Columns(list) => if has_literal(list@) {
            outcome == Err::<Seq<ColumnRef>, FailureView>(FailureView::LiteralProjection)
        } else {
            column_resolution(catalog, refs, projected_names(list@), outcome)
        },
    }
}

/// What resolving a `SELECT` gives: the first source that cannot be scanned
/// fails it; else the projection decides.
pub open spec fn select_resolution(
    catalog: CatalogView,
    stmt: SelectStmt,
    outcome: Result<(Seq<ColumnRef>, Seq<TableRef>), FailureView>,
) -> bool {
    match outcome {
        Ok((cols, refs)) => {
            &&& sources_resolved(catalog, stmt.from@, refs)
            &&& projection_resolution(catalog, stmt.projection, refs, Ok(cols))
        },
        Err(e) => {
            ||| exists|k: int|
                #[trigger] first_failing_source(catalog, stmt.from@, k) && source_failure(
                    catalog,
                    stmt.from@[k],
                ) == Some(e)
            ||| exists|refs: Seq<TableRef>|
                #[trigger] sources_resolved(catalog, stmt.from@, refs) && projection_resolution(
                    catalog,
                    stmt.projection,
                    refs,
                    Err(e),
                )
        },
    }
}

/// Resolves the projection of a `SELECT` over its resolved tables.
pub fn resolve_projection_columns(
    stmt: &SelectStmt,
    table_refs: &Vec<TableRef>,
    schema: &Schema,
) -> (res: SqlError<Vec<ColumnRef>>)
    requires
        schema.wf(),
    ensures
        match res {
            Ok(cols) => projection_resolution(schema@, stmt.projection, table_refs@, Ok(cols@)),
            Err(e) => projection_resolution(schema@, stmt.projection, table_refs@, Err(e@)),
        },
{
    match &stmt.projection {
        SelectProjection::Wildcard => {
            if table_refs.len() != 1 {
                return Err(SqlFailure::WildcardTables);
            }
            resolve_column_wildcard(&table_refs[0], 0, schema)
        },
        SelectProjection::Columns(list) => {
            let mut column_names: Vec<String> = Vec::new();
            let mut k: usize = 0;
            while k < list.len()
                invariant
                    stmt.projection == SelectProjection::Columns(*list),
                    k <= list@.len(),
                    column_names@.len() == k,
                    forall|j: int| 0 <= j < k ==> !((#[trigger] list@[j]) is LiteralValue),
                    forall|j: int|
                        0 <= j < k ==> (#[trigger] column_names@[j])@ == projected_names(list@)[j],
                decreases list@.len() - k,
            {
                match &list[k] {
                    SelectProjectionColumn::Named(column_name) => {
                        column_names.push(column_name.clone());
                    },
                    SelectProjectionColumn::LiteralValue(_) => {
                        assert(list@[k as int] is LiteralValue);
                        return Err(SqlFailure::LiteralProjection);
                    },
                }
                k += 1;
            }
            let names = column_names.as_slice();
            assert(names.deep_view() =~= projected_names(list@));
            resolve_column_references(names, table_refs.as_slice(), schema)
        },
    }
}

/// Resolves a `SELECT`: each source of its `FROM` list in order, then its
/// projection.
pub fn ir_from_select_stmt(stmt: &SelectStmt, schema: &Schema) -> (res: SqlError<SelectIr>)
    requires
        schema.wf(),
    ensures
        match res {
            Ok(ir) => select_resolution(schema@, *stmt, Ok((ir.columns@, ir.tables@))),
            Err(e) => select_resolution(schema@, *stmt, Err(e@)),
        },
{
    // Get all named tables
    let mut table_refs: Vec<TableRef> = Vec::new();
    let mut k: usize = 0;
    while k < stmt.from.len()
        invariant
            k <= stmt.from@.len(),
            table_refs@.len() == k,
            forall|j: int| 0 <= j < k ==> source_failure(schema@, #[trigger] stmt.from@[j]) is None,
            forall|j: int|
                0 <= j < k ==> ((#[trigger] stmt.from@[j]) matches SelectFromTable::NamedTable(name)
                    && schema@.resolves_to(name@, table_refs@[j].table_index as int)),
        decreases stmt.from@.len() - k,
    {
        match &stmt.from[k] {
            SelectFromTable::NamedTable(table_name) => {
                match resolve_table_reference(table_name.as_str(), schema) {
                    Ok(r) => {
                        assert(schema@.named(table_name@, r.table_index as int));
                        table_refs.push(r);
                    },
                    Err(e) => {
                        assert(first_failing_source(schema@, stmt.from@, k as int));
                        return Err(e);
                    },
                }
            },
            SelectFromTable::Function(_) => {
                assert(first_failing_source(schema@, stmt.from@, k as int));
                return Err(SqlFailure::FunctionSource);
            },
        }
        k += 1;
    }
    assert(sources_resolved(schema@, stmt.from@, table_refs@));
    match resolve_projection_columns(stmt, &table_refs, schema) {
        Ok(column_refs) => Ok(SelectIr { columns: column_refs, tables: table_refs }),
        Err(e) => Err(e),
    }
}

/// The sources of a `FROM` list resolve to one list of tables at most.
pub proof fn lemma_sources_resolved_once(
    catalog: CatalogView,
    from: Seq<SelectFromTable>,
    a: Seq<TableRef>,
    b: Seq<TableRef>,
)
    requires
        sources_resolved(catalog, from, a),
        sources_resolved(catalog, from, b),
    ensures
        a == b,
{
    assert forall|k: int| 0 <= k < a.len() implies a[k] == b[k] by {
        match from[k] {
            SelectFromTable::NamedTable(name) => {
                lemma_resolves_to_one_slot(
                    catalog,
                    name@,
                    a[k].table_index as int,
                    b[k].table_index as int,
                );
            },
            SelectFromTable::Function(_) => {},
        }
    }
    assert(a =~= b);
}

/// Resolving a projection has one outcome.
pub proof fn lemma_projection_resolution_decided(
    catalog: CatalogView,
    projection: SelectProjection,
    refs: Seq<TableRef>,
    a: Result<Seq<ColumnRef>, FailureView>,
    b: Result<Seq<ColumnRef>, FailureView>,
)
    requires
        projection_resolution(catalog, projection, refs, a),
        projection_resolution(catalog, projection, refs, b),
    ensures
        a == b,
{
    match projection {
        SelectProjection::Wildcard => {
            if refs.len() == 1 {
                lemma_wildcard_resolution_decided(catalog, refs[0], 0, a, b);
            }
        },
        SelectProjection::Columns(list) => {
            if !has_literal(list@) {
                lemma_column_resolution_decided(catalog, refs, projected_names(list@), a, b);
            }
        },
    }
}

/// Resolving a `SELECT` has one outcome: the catalog and the statement
/// decide which tables and columns come out, or which failure.
pub proof fn lemma_select_resolution_decided(
    catalog: CatalogView,
    stmt: SelectStmt,
    a: Result<(Seq<ColumnRef>, Seq<TableRef>), FailureView>,
    b: Result<(Seq<ColumnRef>, Seq<TableRef>), FailureView>,
)
    requires
        select_resolution(catalog, stmt, a),
        select_resolution(catalog, stmt, b),
    ensures
        a == b,
{
    lemma_select_resolution_cases(catalog, stmt, a);
    lemma_select_resolution_cases(catalog, stmt, b);
    if exists|k: int| first_failing_source(catalog, stmt.from@, k) {
        let k = choose|k: int| first_failing_source(catalog, stmt.from@, k);
        let e = a->Err_0;
        let f = b->Err_0;
        let i = choose|i: int|
            #[trigger] first_failing_source(catalog, stmt.from@, i) && source_failure(
                catalog,
                stmt.from@[i],
            ) == Some(e);
        let j = choose|j: int|
            #[trigger] first_failing_source(catalog, stmt.from@, j) && source_failure(
                catalog,
                stmt.from@[j],
            ) == Some(f);
        if i < j {
            assert(source_failure(catalog, stmt.from@[i]) is None);
        } else if j < i {
            assert(source_failure(catalog, stmt.from@[j]) is None);
        }
    } else {
        let refs_a = choose|refs: Seq<TableRef>|
            #[trigger] sources_resolved(catalog, stmt.from@, refs) && projection_resolution(
                catalog,
                stmt.projection,
                refs,
                columns_of(a),
            );
        let refs_b = choose|refs: Seq<TableRef>|
            #[trigger] sources_resolved(catalog, stmt.from@, refs) && projection_resolution(
                catalog,
                stmt.projection,
                refs,
                columns_of(b),
            );
        lemma_sources_resolved_once(catalog, stmt.from@, refs_a, refs_b);
        lemma_projection_resolution_decided(
            catalog,
            stmt.projection,
            refs_a,
            columns_of(a),
            columns_of(b),
        );
        if let Ok((_, refs)) = a {
            lemma_sources_resolved_once(catalog, stmt.from@, refs, refs_a);
        }
        if let Ok((_, refs)) = b {
            lemma_sources_resolved_once(catalog, stmt.from@, refs, refs_b);
        }
    }
}

/// The columns of a resolved `SELECT`, or its failure.
spec fn columns_of(outcome: Result<(Seq<ColumnRef>, Seq<TableRef>), FailureView>) -> Result<
    Seq<ColumnRef>,
    FailureView,
> {
    match outcome {
        Ok((cols, _)) => Ok(cols),
        Err(e) => Err(e),
    }
}

/// Where a source cannot be scanned, the resolution fails at the first
/// such source; where every source can, the tables are resolved and the
/// projection decides.
proof fn lemma_select_resolution_cases(
    catalog: CatalogView,
    stmt: SelectStmt,
    outcome: Result<(Seq<ColumnRef>, Seq<TableRef>), FailureView>,
)
    requires
        select_resolution(catalog, stmt, outcome),
    ensures
        (exists|k: int| first_failing_source(catalog, stmt.from@, k)) ==> {
            &&& outcome matches Err(e)
            &&& exists|k: int|
                #[trigger] first_failing_source(catalog, stmt.from@, k) && source_failure(
                    catalog,
                    stmt.from@[k],
                ) == Some(e)
        },
        !(exists|k: int| first_failing_source(catalog, stmt.from@, k)) ==> exists|
            refs: Seq<TableRef>,
        |
            #[trigger] sources_resolved(catalog, stmt.from@, refs) && projection_resolution(
                catalog,
                stmt.projection,
                refs,
                columns_of(outcome),
            ),
{
    let from = stmt.from@;
    if exists|k: int| first_failing_source(catalog, from, k) {
        let k = choose|k: int| first_failing_source(catalog, from, k);
        assert forall|refs: Seq<TableRef>| !sources_resolved(catalog, from, refs) by {
            if sources_resolved(catalog, from, refs) {
                match from[k] {
                    SelectFromTable::NamedTable(name) => {
                        assert(catalog.named(name@, refs[k].table_index as int));
                    },
                    SelectFromTable::Function(_) => {},
                }
            }
        }
    } else {
        if let Err(e) = outcome {
            assert(!(exists|k: int|
                #[trigger] first_failing_source(catalog, from, k) && source_failure(
                    catalog,
                    from[k],
                ) == Some(e)));
        }
    }
}

} // verus!
