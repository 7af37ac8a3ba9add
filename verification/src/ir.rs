//! Resolution of the names in a statement to positions in a catalog.
//!
//! Resolution reads the catalog and changes nothing. A statement's tables
//! are resolved once, to slots of the catalog; its columns are resolved
//! against the columns of those tables, and a name that no column or more
//! than one column carries is rejected before any row is touched.

use vstd::prelude::*;
use crate::definitions::{ColumnDefinition, ColumnView};
use crate::failure::{FailureView, SqlError, SqlFailure};
use crate::schema::{CatalogView, Schema};
use crate::tables::MemoryTable;

pub mod insert_ir;
pub mod select_ir;

verus! {

/// A resolved table: a slot of the catalog.
#[derive(Clone, Copy, Debug, PartialEq, Eq, Structural)]
pub struct TableRef {
    pub table_index: usize,
}

/// A resolved column: a position in the statement's list of resolved
/// tables, and a position in that table's column definitions.
#[derive(Clone, Copy, Debug, PartialEq, Eq, Structural)]
pub struct ColumnRef {
    pub column_index: usize,
    pub table_ref_index: usize,
}

/// Every reference points at a slot of the catalog.
pub open spec fn refs_exist(catalog: CatalogView, refs: Seq<TableRef>) -> bool {
    forall|k: int| 0 <= k < refs.len() ==> (#[trigger] refs[k]).table_index < catalog.tables.len()
}

/// Reference `k` is the first that points at no slot of the catalog.
pub open spec fn first_missing_ref(catalog: CatalogView, refs: Seq<TableRef>, k: int) -> bool {
    &&& 0 <= k < refs.len()
    &&& refs[k].table_index >= catalog.tables.len()
    &&& forall|j: int| 0 <= j < k ==> (#[trigger] refs[j]).table_index < catalog.tables.len()
}

/// The column definitions of the referenced tables, table by table.
pub open spec fn sources(catalog: CatalogView, refs: Seq<TableRef>) -> Seq<Seq<ColumnView>> {
    Seq::new(refs.len(), |k: int| catalog.tables[refs[k].table_index as int].columns)
}

/// Column `c` of source table `t` is called `name`.
pub open spec fn column_named(
    sources: Seq<Seq<ColumnView>>,
    name: Seq<char>,
    t: int,
    c: int,
) -> bool {
    &&& 0 <= t < sources.len()
    &&& 0 <= c < sources[t].len()
    &&& sources[t][c].name == name
}

/// No column of any source table is called `name`.
pub open spec fn no_column(sources: Seq<Seq<ColumnView>>, name: Seq<char>) -> bool {
    forall|t: int, c: int| !column_named(sources, name, t, c)
}

/// Two different columns are called `name`, in one source table or in two.
pub open spec fn ambiguous(sources: Seq<Seq<ColumnView>>, name: Seq<char>) -> bool {
    exists|t1: int, c1: int, t2: int, c2: int|
        {
            &&& #[trigger] column_named(sources, name, t1, c1)
            &&& #[trigger] column_named(sources, name, t2, c2)
            &&& (t1 != t2 || c1 != c2)
        }
}

/// Column `c` of source table `t` is the one column called `name`.
pub open spec fn only_column(
    sources: Seq<Seq<ColumnView>>,
    name: Seq<char>,
    t: int,
    c: int,
) -> bool {
    &&& column_named(sources, name, t, c)
    &&& forall|t2: int, c2: int|
        #[trigger] column_named(sources, name, t2, c2) ==> t2 == t && c2 == c
}

/// Exactly one column is called `name`.
pub open spec fn resolvable(sources: Seq<Seq<ColumnView>>, name: Seq<char>) -> bool {
    exists|t: int, c: int| only_column(sources, name, t, c)
}

/// Why a name that is not resolvable is rejected.
pub open spec fn column_failure(sources: Seq<Seq<ColumnView>>, name: Seq<char>) -> FailureView {
    if no_column(sources, name) {
        FailureView::ColumnNotFound(name)
    } else {
        FailureView::AmbiguousColumn(name)
    }
}

/// Each name is carried by exactly one column, and `cols` lists those
/// columns in the order of the names.
pub open spec fn columns_resolved(
    sources: Seq<Seq<ColumnView>>,
    names: Seq<Seq<char>>,
    cols: Seq<ColumnRef>,
) -> bool {
    &&& cols.len() == names.len()
    &&& forall|k: int|
        0 <= k < names.len() ==> only_column(
            sources,
            names[k],
            (#[trigger] cols[k]).table_ref_index as int,
            cols[k].column_index as int,
        )
}

/// Name `k` is the first that is not resolvable.
pub open spec fn first_unresolved(
    sources: Seq<Seq<ColumnView>>,
    names: Seq<Seq<char>>,
    k: int,
) -> bool {
    &&& 0 <= k < names.len()
    &&& !resolvable(sources, names[k])
    &&& forall|j: int| 0 <= j < k ==> resolvable(sources, #[trigger] names[j])
}

/// What resolving `names` against the tables `refs` of `catalog` gives.
/// A reference to a slot that does not exist fails first; then the first
/// name that is not resolvable fails; else each name resolves to its column.
pub open spec fn column_resolution(
    catalog: CatalogView,
    refs: Seq<TableRef>,
    names: Seq<Seq<char>>,
    outcome: Result<Seq<ColumnRef>, FailureView>,
) -> bool {
    match outcome {
        Ok(cols) => {
            &&& refs_exist(catalog, refs)
            &&& columns_resolved(sources(catalog, refs), names, cols)
        },
        Err(e) => {
            ||| exists|k: int|
                #[trigger] first_missing_ref(catalog, refs, k) && e == FailureView::TableIndex(
                    refs[k].table_index,
                )
            ||| {
                &&& refs_exist(catalog, refs)
                &&& exists|k: int|
                    #[trigger] first_unresolved(sources(catalog, refs), names, k) && e
                        == column_failure(sources(catalog, refs), names[k])
            }
        },
    }
}

/// What expanding `*` over the table `table_ref` gives: one reference per
/// column, in declared order.
pub open spec fn wildcard_resolution(
    catalog: CatalogView,
    table_ref: TableRef,
    table_ref_index: usize,
    outcome: Result<Seq<ColumnRef>, FailureView>,
) -> bool {
    match outcome {
        Ok(cols) => {
            &&& table_ref.table_index < catalog.tables.len()
            &&& cols.len() == catalog.tables[table_ref.table_index as int].columns.len()
            &&& forall|c: int|
                0 <= c < cols.len() ==> #[trigger] cols[c] == (ColumnRef {
                    column_index: c as usize,
                    table_ref_index,
                })
        },
        Err(e) => {
            &&& table_ref.table_index >= catalog.tables.len()
            &&& e == FailureView::TableIndex(table_ref.table_index)
        },
    }
}

/// Resolves a table name to the slot of the first live table of that name.
pub fn resolve_table_reference(table_name: &str, schema: &Schema) -> (res: SqlError<TableRef>)
    ensures
        match res {
            Ok(r) => schema@.resolves_to(table_name@, r.table_index as int),
            Err(e) => !schema@.has_live(table_name@) && e@ == FailureView::TableNotFound(
                table_name@,
            ),
        },
{
    match schema.find_table_or_err(table_name) {
        Ok(table_index) => Ok(TableRef { table_index }),
        Err(e) => Err(e),
    }
}

/// Resolves table names in order. The first name that no live table carries
/// fails the whole resolution.
pub fn resolve_table_references(table_names: &[String], schema: &Schema) -> (res: SqlError<
    Vec<TableRef>,
>)
    ensures
        match res {
            Ok(refs) => {
                &&& refs@.len() == table_names@.len()
                &&& forall|k: int|
                    0 <= k < refs@.len() ==> schema@.resolves_to(
                        table_names@[k]@,
                        (#[trigger] refs@[k]).table_index as int,
                    )
            },
            Err(e) => exists|k: int|
                {
                    &&& 0 <= k < table_names@.len()
                    &&& !schema@.has_live(#[trigger] table_names@[k]@)
                    &&& forall|j: int| 0 <= j < k ==> schema@.has_live(#[trigger] table_names@[j]@)
                    &&& e@ == FailureView::TableNotFound(table_names@[k]@)
                },
        },
{
    let mut refs: Vec<TableRef> = Vec::new();
    let mut k: usize = 0;
    while k < table_names.len()
        invariant
            k <= table_names@.len(),
            refs@.len() == k,
            forall|j: int|
                0 <= j < k ==> schema@.resolves_to(
                    table_names@[j]@,
                    (#[trigger] refs@[j]).table_index as int,
                ),
            forall|j: int| 0 <= j < k ==> schema@.has_live(#[trigger] table_names@[j]@),
        decreases table_names@.len() - k,
    {
        match resolve_table_reference(table_names[k].as_str(), schema) {
            Ok(r) => {
                assert(schema@.named(table_names@[k as int]@, r.table_index as int));
                refs.push(r);
            },
            Err(e) => {
                return Err(e);
            },
        }
        k += 1;
    }
    Ok(refs)
}

/// Expands `*` over one resolved table: a reference to each of its columns,
/// in declared order, under the given position in the statement's tables.
pub fn resolve_column_wildcard(
    table_ref: &TableRef,
    table_ref_index: usize,
    schema: &Schema,
) -> (res: SqlError<Vec<ColumnRef>>)
    requires
        schema.wf(),
    ensures
        match res {
            Ok(cols) => wildcard_resolution(schema@, *table_ref, table_ref_index, Ok(cols@)),
            Err(e) => wildcard_resolution(schema@, *table_ref, table_ref_index, Err(e@)),
        },
{
    let count_columns = |table: &MemoryTable| -> (n: SqlError<usize>)
        ensures
            n matches Ok(width) && width == table@.columns.len(),
        {
            Ok(table.columns().len())
        };
    match schema.map_on_table(table_ref.table_index, count_columns) {
        Ok(width) => {
            let mut cols: Vec<ColumnRef> = Vec::new();
            let mut c: usize = 0;
            while c < width
                invariant
                    c <= width,
                    cols@.len() == c,
                    forall|j: int|
                        0 <= j < c ==> #[trigger] cols@[j] == (ColumnRef {
                            column_index: j as usize,
                            table_ref_index,
                        }),
                decreases width - c,
            {
                cols.push(ColumnRef { column_index: c, table_ref_index });
                c += 1;
            }
            Ok(cols)
        },
        Err(e) => Err(e),
    }
}

/// One column that a name can resolve to: where it stands, and its name.
struct ColumnTableMapping {
    table_ref_index: usize,
    index: usize,
    name: String,
}

/// Position `(t, c)` comes before `(upto_t, upto_c)`, table first.
spec fn before(t: int, c: int, upto_t: int, upto_c: int) -> bool {
    t < upto_t || (t == upto_t && c < upto_c)
}

/// `all` lists the columns of `sources` that come before
/// `(upto_t, upto_c)`: each entry is such a column with its name, each such
/// column has an entry, and no column has two.
spec fn listed(
    all: Seq<ColumnTableMapping>,
    sources: Seq<Seq<ColumnView>>,
    upto_t: int,
    upto_c: int,
) -> bool {
    &&& forall|k: int|
        0 <= k < all.len() ==> {
            let m = #[trigger] all[k];
            &&& column_named(sources, m.name@, m.table_ref_index as int, m.index as int)
            &&& before(m.table_ref_index as int, m.index as int, upto_t, upto_c)
        }
    &&& forall|t: int, c: int|
        0 <= t < sources.len() && 0 <= c < (#[trigger] sources[t]).len() && before(
            t,
            c,
            upto_t,
            upto_c,
        ) ==> #[trigger] holds(all, t, c)
    &&& forall|j: int, k: int|
        0 <= j < k < all.len() ==> !((#[trigger] all[j]).table_ref_index == (#[trigger] all[
            k
        ]).table_ref_index && all[j].index == all[k].index)
}

/// `all` has an entry for column `c` of source table `t`.
spec fn holds(all: Seq<ColumnTableMapping>, t: int, c: int) -> bool {
    exists|k: int|
        0 <= k < all.len() && (#[trigger] all[k]).table_ref_index == t && all[k].index == c
}

/// The columns of one source table: for each definition an entry that
/// names its position and carries its name.
fn table_columns(defs: &[ColumnDefinition], table_ref_index: usize) -> (cols: Vec<
    ColumnTableMapping,
>)
    ensures
        cols@.len() == defs@.len(),
        forall|c: int|
            0 <= c < defs@.len() ==> {
                let m = #[trigger] cols@[c];
                &&& m.table_ref_index == table_ref_index
                &&& m.index == c
                &&& m.name@ == defs@[c].name@
            },
{
    let mut cols: Vec<ColumnTableMapping> = Vec::new();
    let mut c: usize = 0;
    while c < defs.len()
        invariant
            c <= defs@.len(),
            cols@.len() == c,
            forall|j: int|
                0 <= j < c ==> {
                    let m = #[trigger] cols@[j];
                    &&& m.table_ref_index == table_ref_index
                    &&& m.index == j
                    &&& m.name@ == defs@[j].name@
                },
        decreases defs@.len() - c,
    {
        cols.push(ColumnTableMapping { table_ref_index, index: c, name: defs[c].name.clone() });
        c += 1;
    }
    cols
}

/// Lists every column of the referenced tables, table by table and column
/// by column. Fails at the first reference to a slot that does not exist.
fn collect_columns(table_refs: &[TableRef], schema: &Schema) -> (res: SqlError<
    Vec<ColumnTableMapping>,
>)
    requires
        schema.wf(),
    ensures
        match res {
            Ok(all) => {
                &&& refs_exist(schema@, table_refs@)
                &&& listed(all@, sources(schema@, table_refs@), table_refs@.len() as int, 0)
            },
            Err(e) => exists|k: int|
                #[trigger] first_missing_ref(schema@, table_refs@, k) && e@
                    == FailureView::TableIndex(table_refs@[k].table_index),
        },
{
    let ghost src = sources(schema@, table_refs@);
    let mut all: Vec<ColumnTableMapping> = Vec::new();
    let mut t: usize = 0;
    while t < table_refs.len()
        invariant
            schema.wf(),
            src == sources(schema@, table_refs@),
            t <= table_refs@.len(),
            forall|j: int|
                0 <= j < t ==> (#[trigger] table_refs@[j]).table_index < schema@.tables.len(),
            listed(all@, src, t as int, 0),
        decreases table_refs@.len() - t,
    {
        let slot = table_refs[t].table_index;
        let list_columns = |table: &MemoryTable| -> (cols: SqlError<Vec<ColumnTableMapping>>)
            ensures
                cols matches Ok(list) && list@.len() == table@.columns.len() && forall|c: int|
                    0 <= c < list@.len() ==> {
                        let m = #[trigger] list@[c];
                        &&& m.table_ref_index == t
                        &&& m.index == c
                        &&& m.name@ == table@.columns[c].name
                    },
            {
                Ok(table_columns(table.columns(), t))
            };
        let mut found = match schema.map_on_table(slot, list_columns) {
            Ok(found) => found,
            Err(e) => {
                assert(first_missing_ref(schema@, table_refs@, t as int));
                return Err(e);
            },
        };
        assert(src[t as int] == schema@.tables[slot as int].columns);
        let ghost prior = all@;
        let ghost added = found@;
        all.append(&mut found);
        proof {
            assert forall|k: int| 0 <= k < all@.len() implies {
                let m = #[trigger] all@[k];
                &&& column_named(src, m.name@, m.table_ref_index as int, m.index as int)
                &&& before(m.table_ref_index as int, m.index as int, t as int + 1, 0)
            } by {
                if k < prior.len() {
                    assert(all@[k] == prior[k]);
                } else {
                    assert(all@[k] == added[k - prior.len()]);
                }
            }
            assert forall|t2: int, c2: int|
                0 <= t2 < src.len() && 0 <= c2 < (#[trigger] src[t2]).len() && before(
                    t2,
                    c2,
                    t as int + 1,
                    0,
                ) implies #[trigger] holds(all@, t2, c2) by {
                if t2 == t {
                    assert(all@[prior.len() + c2] == added[c2]);
                } else {
                    assert(holds(prior, t2, c2));
                    let k = choose|k: int|
                        0 <= k < prior.len() && (#[trigger] prior[k]).table_ref_index == t2
                            && prior[k].index == c2;
                    assert(all@[k] == prior[k]);
                }
            }
            assert forall|j: int, k: int| 0 <= j < k < all@.len() implies !((#[trigger] all@[
                j
            ]).table_ref_index == (#[trigger] all@[k]).table_ref_index && all@[j].index
                == all@[k].index) by {
                if k < prior.len() {
                    assert(all@[j] == prior[j] && all@[k] == prior[k]);
                } else if j < prior.len() {
                    assert(all@[j] == prior[j]);
                    assert(all@[k] == added[k - prior.len()]);
                } else {
                    assert(all@[j] == added[j - prior.len()]);
                    assert(all@[k] == added[k - prior.len()]);
                }
            }
        }
        t += 1;
    }
    Ok(all)
}

/// The first entry at or after `from` that carries the name `wanted`.
fn find_named(all: &Vec<ColumnTableMapping>, wanted: &String, from: usize) -> (found: Option<usize>)
    ensures
        match found {
            Some(k) => {
                &&& from <= k < all@.len()
                &&& all@[k as int].name@ == wanted@
                &&& forall|j: int| from <= j < k ==> (#[trigger] all@[j]).name@ != wanted@
            },
            None => forall|j: int| from <= j < all@.len() ==> (#[trigger] all@[j]).name@ != wanted@,
        },
{
    let mut k: usize = from;
    while k < all.len()
        invariant
            from <= k,
            forall|j: int|
                from <= j < k && j < all@.len() ==> (#[trigger] all@[j]).name@ != wanted@,
        decreases all@.len() - k,
    {
        if all[k].name == *wanted {
            return Some(k);
        }
        k += 1;
    }
    None
}

/// Resolves column names against the columns of the listed tables. Each
/// name is resolved on its own, and the result follows the order of the
/// names. A name that no column carries, or more than one, is rejected.
pub fn resolve_column_references(
    column_names: &[String],
    table_refs: &[TableRef],
    schema: &Schema,
) -> (res: SqlError<Vec<ColumnRef>>)
    requires
        schema.wf(),
    ensures
        match res {
            Ok(cols) => column_resolution(
                schema@,
                table_refs@,
                column_names.deep_view(),
                Ok(cols@),
            ),
            Err(e) => column_resolution(schema@, table_refs@, column_names.deep_view(), Err(e@)),
        },
{
    let ghost src = sources(schema@, table_refs@);
    let ghost names = column_names.deep_view();
    // First list all the columns there are.
    let all = match collect_columns(table_refs, schema) {
        Ok(all) => all,
        Err(e) => {
            return Err(e);
        },
    };
    // Then match each name against them.
    let listed_columns = all.len();
    let mut cols: Vec<ColumnRef> = Vec::new();
    let mut n: usize = 0;
    while n < column_names.len()
        invariant
            n <= column_names@.len(),
            listed_columns == all@.len(),
            src == sources(schema@, table_refs@),
            names == column_names.deep_view(),
            refs_exist(schema@, table_refs@),
            listed(all@, src, table_refs@.len() as int, 0),
            cols@.len() == n,
            forall|j: int|
                0 <= j < n ==> only_column(
                    src,
                    names[j],
                    (#[trigger] cols@[j]).table_ref_index as int,
                    cols@[j].column_index as int,
                ),
            forall|j: int| 0 <= j < n ==> resolvable(src, #[trigger] names[j]),
        decreases column_names@.len() - n,
    {
        let wanted = &column_names[n];
        assert(names[n as int] == wanted@);
        match find_named(&all, wanted, 0) {
            None => {
                proof {
                    assert forall|t: int, c: int| !column_named(src, wanted@, t, c) by {
                        if column_named(src, wanted@, t, c) {
                            lemma_entry_of(all@, src, table_refs@.len() as int, t, c);
                        }
                    }
                    lemma_not_resolvable(src, wanted@);
                    assert(first_unresolved(src, names, n as int));
                }
                return Err(SqlFailure::ColumnNotFound(wanted.clone()));
            },
            Some(first) => match find_named(&all, wanted, first + 1) {
                Some(second) => {
                    proof {
                        let a = all@[first as int];
                        let b = all@[second as int];
                        let (ta, ca) = (a.table_ref_index as int, a.index as int);
                        let (tb, cb) = (b.table_ref_index as int, b.index as int);
                        assert(column_named(src, wanted@, ta, ca));
                        assert(column_named(src, wanted@, tb, cb));
                        assert(ambiguous(src, wanted@));
                        lemma_not_resolvable(src, wanted@);
                        assert(first_unresolved(src, names, n as int));
                    }
                    return Err(SqlFailure::AmbiguousColumn(wanted.clone()));
                },
                None => {
                    let col = ColumnRef {
                        column_index: all[first].index,
                        table_ref_index: all[first].table_ref_index,
                    };
                    proof {
                        let a = all@[first as int];
                        let (ta, ca) = (a.table_ref_index as int, a.index as int);
                        assert(column_named(src, wanted@, ta, ca));
                        assert forall|t: int, c: int| #[trigger]
                            column_named(src, wanted@, t, c) implies t == col.table_ref_index && c
                            == col.column_index by {
                            lemma_entry_of(all@, src, table_refs@.len() as int, t, c);
                            let k = choose|k: int|
                                0 <= k < all@.len() && (#[trigger] all@[k]).table_ref_index == t
                                    && all@[k].index == c;
                            assert(all@[k].name@ == wanted@);
                            assert(k == first);
                        }
                        assert(only_column(
                            src,
                            wanted@,
                            col.table_ref_index as int,
                            col.column_index as int,
                        ));
                    }
                    cols.push(col);
                },
            },
        }
        n += 1;
    }
    Ok(cols)
}

/// In a full listing, every column of a source table has an entry, and the
/// entry carries the column's name.
proof fn lemma_entry_of(
    all: Seq<ColumnTableMapping>,
    sources: Seq<Seq<ColumnView>>,
    tables: int,
    t: int,
    c: int,
)
    requires
        listed(all, sources, tables, 0),
        tables == sources.len(),
        0 <= t < sources.len(),
        0 <= c < sources[t].len(),
    ensures
        exists|k: int|
            0 <= k < all.len() && (#[trigger] all[k]).table_ref_index == t && all[k].index == c
                && all[k].name@ == sources[t][c].name,
{
    assert(before(t, c, tables, 0));
    assert(holds(all, t, c));
    let k = choose|k: int|
        0 <= k < all.len() && (#[trigger] all[k]).table_ref_index == t && all[k].index == c;
    assert(column_named(sources, all[k].name@, t, c));
}

/// A name that no column carries, or that two columns carry, is not
/// resolvable.
proof fn lemma_not_resolvable(sources: Seq<Seq<ColumnView>>, name: Seq<char>)
    requires
        no_column(sources, name) || ambiguous(sources, name),
    ensures
        !resolvable(sources, name),
        column_failure(sources, name) == if no_column(sources, name) {
            FailureView::ColumnNotFound(name)
        } else {
            FailureView::AmbiguousColumn(name)
        },
{
    if resolvable(sources, name) {
        let (t, c) = choose|t: int, c: int| only_column(sources, name, t, c);
        assert(column_named(sources, name, t, c));
        if ambiguous(sources, name) {
            let (t1, c1, t2, c2) = choose|t1: int, c1: int, t2: int, c2: int|
                {
                    &&& #[trigger] column_named(sources, name, t1, c1)
                    &&& #[trigger] column_named(sources, name, t2, c2)
                    &&& (t1 != t2 || c1 != c2)
                };
            assert(t1 == t && c1 == c);
            assert(t2 == t && c2 == c);
        }
    }
}

/// Of a name, exactly one holds: no column carries it, exactly one does, or
/// more than one does.
pub proof fn lemma_resolution_cases(sources: Seq<Seq<ColumnView>>, name: Seq<char>)
    ensures
        no_column(sources, name) || resolvable(sources, name) || ambiguous(sources, name),
        !(no_column(sources, name) && resolvable(sources, name)),
        !(no_column(sources, name) && ambiguous(sources, name)),
        !(resolvable(sources, name) && ambiguous(sources, name)),
{
    if no_column(sources, name) || ambiguous(sources, name) {
        lemma_not_resolvable(sources, name);
        if no_column(sources, name) && ambiguous(sources, name) {
            let (t1, c1, t2, c2) = choose|t1: int, c1: int, t2: int, c2: int|
                {
                    &&& #[trigger] column_named(sources, name, t1, c1)
                    &&& #[trigger] column_named(sources, name, t2, c2)
                    &&& (t1 != t2 || c1 != c2)
                };
            assert(column_named(sources, name, t1, c1));
        }
    } else {
        let (t, c) = choose|t: int, c: int| column_named(sources, name, t, c);
        assert(column_named(sources, name, t, c));
        assert forall|t2: int, c2: int| #[trigger]
            column_named(sources, name, t2, c2) implies t2 == t && c2 == c by {
            if t2 != t || c2 != c {
                assert(column_named(sources, name, t, c) && column_named(sources, name, t2, c2));
                assert(ambiguous(sources, name));
            }
        }
        assert(only_column(sources, name, t, c));
    }
}

/// A name that two source tables each have a column of is ambiguous: it is
/// not resolvable, and it is rejected as ambiguous, not as missing.
pub proof fn lemma_ambiguity(
    sources: Seq<Seq<ColumnView>>,
    name: Seq<char>,
    t1: int,
    c1: int,
    t2: int,
    c2: int,
)
    requires
        column_named(sources, name, t1, c1),
        column_named(sources, name, t2, c2),
        t1 != t2,
    ensures
        ambiguous(sources, name),
        !resolvable(sources, name),
        column_failure(sources, name) == FailureView::AmbiguousColumn(name),
{
    assert(ambiguous(sources, name));
    lemma_not_resolvable(sources, name);
}

/// A name is rejected as missing only if no source table has a column of
/// it; where exactly one has, the name resolves to that column.
pub proof fn lemma_missing_only_if_absent(sources: Seq<Seq<ColumnView>>, name: Seq<char>)
    ensures
        column_failure(sources, name) == FailureView::ColumnNotFound(name) <==> no_column(
            sources,
            name,
        ),
        forall|t: int, c: int|
            #[trigger] column_named(sources, name, t, c) && !ambiguous(sources, name)
                ==> only_column(sources, name, t, c),
{
    assert forall|t: int, c: int|
        #[trigger] column_named(sources, name, t, c) && !ambiguous(
            sources,
            name,
        ) implies only_column(sources, name, t, c) by {
        assert forall|t2: int, c2: int| #[trigger]
            column_named(sources, name, t2, c2) implies t2 == t && c2 == c by {
            if t2 != t || c2 != c {
                assert(column_named(sources, name, t, c) && column_named(sources, name, t2, c2));
                assert(ambiguous(sources, name));
            }
        }
    }
}

/// Resolution has one outcome: the catalog, the tables and the names
/// decide which columns come out, or which failure.
pub proof fn lemma_column_resolution_decided(
    catalog: CatalogView,
    refs: Seq<TableRef>,
    names: Seq<Seq<char>>,
    a: Result<Seq<ColumnRef>, FailureView>,
    b: Result<Seq<ColumnRef>, FailureView>,
)
    requires
        column_resolution(catalog, refs, names, a),
        column_resolution(catalog, refs, names, b),
    ensures
        a == b,
{
    let src = sources(catalog, refs);
    match (a, b) {
        (Ok(x), Ok(y)) => {
            assert forall|k: int| 0 <= k < x.len() implies x[k] == y[k] by {
                assert(only_column(
                    src,
                    names[k],
                    x[k].table_ref_index as int,
                    x[k].column_index as int,
                ));
                assert(only_column(
                    src,
                    names[k],
                    y[k].table_ref_index as int,
                    y[k].column_index as int,
                ));
            }
            assert(x =~= y);
        },
        (Err(e), Err(f)) => {
            lemma_failure_decided(catalog, refs, names, e);
            lemma_failure_decided(catalog, refs, names, f);
            if refs_exist(catalog, refs) {
                let k = choose|k: int|
                    #[trigger] first_unresolved(src, names, k) && e == column_failure(
                        src,
                        names[k],
                    );
                let m = choose|m: int|
                    #[trigger] first_unresolved(src, names, m) && f == column_failure(
                        src,
                        names[m],
                    );
                if k < m {
                    assert(resolvable(src, names[k]));
                } else if m < k {
                    assert(resolvable(src, names[m]));
                }
            } else {
                let k = choose|k: int|
                    #[trigger] first_missing_ref(catalog, refs, k) && e
                        == FailureView::TableIndex(refs[k].table_index);
                let m = choose|m: int|
                    #[trigger] first_missing_ref(catalog, refs, m) && f
                        == FailureView::TableIndex(refs[m].table_index);
                if k < m {
                    assert(refs[k].table_index < catalog.tables.len());
                } else if m < k {
                    assert(refs[m].table_index < catalog.tables.len());
                }
            }
        },
        (Ok(x), Err(e)) => {
            lemma_success_excludes_failure(catalog, refs, names, x, e);
        },
        (Err(e), Ok(x)) => {
            lemma_success_excludes_failure(catalog, refs, names, x, e);
        },
    }
}

/// A failed resolution failed in one of two ways, and the references tell
/// in which.
proof fn lemma_failure_decided(
    catalog: CatalogView,
    refs: Seq<TableRef>,
    names: Seq<Seq<char>>,
    e: FailureView,
)
    requires
        column_resolution(catalog, refs, names, Err(e)),
    ensures
        refs_exist(catalog, refs) ==> exists|k: int|
            #[trigger] first_unresolved(sources(catalog, refs), names, k) && e == column_failure(
                sources(catalog, refs),
                names[k],
            ),
        !refs_exist(catalog, refs) ==> exists|k: int|
            #[trigger] first_missing_ref(catalog, refs, k) && e == FailureView::TableIndex(
                refs[k].table_index,
            ),
{
    if refs_exist(catalog, refs) {
        if exists|k: int|
            #[trigger] first_missing_ref(catalog, refs, k) && e == FailureView::TableIndex(
                refs[k].table_index,
            ) {
            let k = choose|k: int|
                #[trigger] first_missing_ref(catalog, refs, k) && e == FailureView::TableIndex(
                    refs[k].table_index,
                );
            assert(refs[k].table_index < catalog.tables.len());
        }
    }
}

/// A resolution does not both succeed and fail.
proof fn lemma_success_excludes_failure(
    catalog: CatalogView,
    refs: Seq<TableRef>,
    names: Seq<Seq<char>>,
    cols: Seq<ColumnRef>,
    e: FailureView,
)
    requires
        column_resolution(catalog, refs, names, Ok(cols)),
    ensures
        !column_resolution(catalog, refs, names, Err(e)),
{
    let src = sources(catalog, refs);
    if column_resolution(catalog, refs, names, Err(e)) {
        lemma_failure_decided(catalog, refs, names, e);
        let k = choose|k: int|
            #[trigger] first_unresolved(src, names, k) && e == column_failure(src, names[k]);
        assert(only_column(
            src,
            names[k],
            cols[k].table_ref_index as int,
            cols[k].column_index as int,
        ));
        assert(resolvable(src, names[k]));
    }
}

/// Expanding `*` has one outcome.
pub proof fn lemma_wildcard_resolution_decided(
    catalog: CatalogView,
    table_ref: TableRef,
    table_ref_index: usize,
    a: Result<Seq<ColumnRef>, FailureView>,
    b: Result<Seq<ColumnRef>, FailureView>,
)
    requires
        wildcard_resolution(catalog, table_ref, table_ref_index, a),
        wildcard_resolution(catalog, table_ref, table_ref_index, b),
    ensures
        a == b,
{
    if let (Ok(x), Ok(y)) = (a, b) {
        assert(x =~= y);
    }
}

} // verus!
