//! Statements as the parser hands them over, literals, and column
//! definitions.

use vstd::prelude::*;
use crate::failure::{SqlError, SqlFailure, FailureView};

verus! {

/// The declared type of a column.
#[derive(Clone, Copy, Debug, PartialEq, Eq, Structural)]
pub enum ColumnType {
    Text,
    Bool,
}

/// A literal value: what a statement supplies and what a cell stores.
#[derive(Debug, PartialEq)]
pub enum LiteralValue {
    Null,
    Text(String),
    Bool(bool),
}

/// The mathematical value of a [`LiteralValue`].
pub enum LiteralView {
    Null,
    Text(Seq<char>),
    Bool(bool),
}

impl View for LiteralValue {
    type V = LiteralView;

    open spec fn view(&self) -> LiteralView {
        match self {
            LiteralValue::Null => LiteralView::Null,
            LiteralValue::Text(s) => LiteralView::Text(s@),
            LiteralValue::Bool(b) => LiteralView::Bool(*b),
        }
    }
}

impl DeepView for LiteralValue {
    type V = LiteralView;

    open spec fn deep_view(&self) -> LiteralView {
        self@
    }
}

/// The text of a boolean: `true` or `false`.
pub open spec fn bool_text(b: bool) -> Seq<char> {
    if b {
        seq!['t', 'r', 'u', 'e']
    } else {
        seq!['f', 'a', 'l', 's', 'e']
    }
}

impl LiteralView {
    /// The text a literal converts to: empty for `Null`, the text itself, or
    /// the text of the boolean.
    pub open spec fn text(self) -> Seq<char> {
        match self {
            LiteralView::Null => Seq::empty(),
            LiteralView::Text(s) => s,
            LiteralView::Bool(b) => bool_text(b),
        }
    }

    /// The boolean a literal converts to; only a boolean converts.
    pub open spec fn boolean(self) -> Result<bool, FailureView> {
        match self {
            LiteralView::Null => Err(FailureView::NullToBool),
            LiteralView::Text(s) => Err(FailureView::TextToBool(s)),
            LiteralView::Bool(b) => Ok(b),
        }
    }

    /// The literal coerced to a column type.
    pub open spec fn coerce(self, col_type: ColumnType) -> Result<LiteralView, FailureView> {
        match col_type {
            ColumnType::Text => Ok(LiteralView::Text(self.text())),
            ColumnType::Bool => match self.boolean() {
                Ok(b) => Ok(LiteralView::Bool(b)),
                Err(e) => Err(e),
            },
        }
    }

    /// Whether the literal is a value of the column type.
    pub open spec fn has_type(self, col_type: ColumnType) -> bool {
        match col_type {
            ColumnType::Text => self is Text,
            ColumnType::Bool => self is Bool,
        }
    }

    /// The narrowest column type that can hold the literal.
    pub open spec fn natural_type(self) -> ColumnType {
        match self {
            LiteralView::Bool(_) => ColumnType::Bool,
            _ => ColumnType::Text,
        }
    }
}

/// Coercion follows the table of conversions: any literal converts to text,
/// only a boolean converts to a boolean. What comes out is a value of the
/// column type, and coercing it again changes nothing.
pub proof fn lemma_coercion(v: LiteralView, col_type: ColumnType)
    ensures
        v.coerce(ColumnType::Text) == Ok::<LiteralView, FailureView>(LiteralView::Text(v.text())),
        v.coerce(ColumnType::Bool) is Ok <==> v is Bool,
        v.coerce(col_type) matches Ok(w) ==> w.has_type(col_type) && w.coerce(col_type) == Ok::<
            LiteralView,
            FailureView,
        >(w),
        v.has_type(col_type) ==> v.coerce(col_type) == Ok::<LiteralView, FailureView>(v),
{
}

impl Clone for LiteralValue {
    fn clone(&self) -> (res: Self)
        ensures
            res == *self,
    {
        match self {
            LiteralValue::Null => LiteralValue::Null,
            LiteralValue::Text(s) => LiteralValue::Text(s.clone()),
            LiteralValue::Bool(b) => LiteralValue::Bool(*b),
        }
    }
}

impl LiteralValue {
    /// Converts the literal to text. This never fails.
    pub fn as_string(&self) -> (res: SqlError<String>)
        ensures
            res matches Ok(s) && s@ == self@.text(),
    {
        match self {
            LiteralValue::Null => Ok(String::new()),
            LiteralValue::Text(s) => Ok(s.clone()),
            LiteralValue::Bool(b) => {
                proof {
                    reveal_strlit("true");
                    reveal_strlit("false");
                }
                let s = if *b { "true".to_owned() } else { "false".to_owned() };
                assert(s@ =~= bool_text(*b));
                Ok(s)
            },
        }
    }

    /// Converts the literal to a boolean; `Null` and text do not convert.
    pub fn as_bool(&self) -> (res: SqlError<bool>)
        ensures
            match res {
                Ok(b) => self@.boolean() == Ok::<bool, FailureView>(b),
                Err(e) => self@.boolean() == Err::<bool, FailureView>(e@),
            },
    {
        match self {
            LiteralValue::Null => Err(SqlFailure::NullToBool),
            LiteralValue::Text(s) => Err(SqlFailure::TextToBool(s.clone())),
            LiteralValue::Bool(b) => Ok(*b),
        }
    }

    /// Coerces the literal to a column type.
    pub fn to_type(&self, col_type: ColumnType) -> (res: SqlError<LiteralValue>)
        ensures
            match res {
                Ok(v) => self@.coerce(col_type) == Ok::<LiteralView, FailureView>(v@),
                Err(e) => self@.coerce(col_type) == Err::<LiteralView, FailureView>(e@),
            },
    {
        match col_type {
            ColumnType::Text => match self.as_string() {
                Ok(s) => Ok(LiteralValue::Text(s)),
                Err(e) => Err(e),
            },
            ColumnType::Bool => match self.as_bool() {
                Ok(b) => Ok(LiteralValue::Bool(b)),
                Err(e) => Err(e),
            },
        }
    }
}

/// A column of a table: its name and declared type.
#[derive(Debug, PartialEq)]
pub struct ColumnDefinition {
    pub ctype: ColumnType,
    pub name: String,
}

/// The mathematical value of a [`ColumnDefinition`].
pub struct ColumnView {
    pub ctype: ColumnType,
    pub name: Seq<char>,
}

impl View for ColumnDefinition {
    type V = ColumnView;

    open spec fn view(&self) -> ColumnView {
        ColumnView { ctype: self.ctype, name: self.name@ }
    }
}

impl DeepView for ColumnDefinition {
    type V = ColumnView;

    open spec fn deep_view(&self) -> ColumnView {
        self@
    }
}

impl Clone for ColumnDefinition {
    fn clone(&self) -> (res: Self)
        ensures
            res == *self,
    {
        ColumnDefinition { ctype: self.ctype, name: self.name.clone() }
    }
}

impl ColumnType {
    /// The narrowest column type that can hold the literal.
    pub fn accomodate_literal(val: &LiteralValue) -> (t: ColumnType)
        ensures
            t == val@.natural_type(),
    {
        match val {
            LiteralValue::Null => ColumnType::Text,
            LiteralValue::Text(_) => ColumnType::Text,
            LiteralValue::Bool(_) => ColumnType::Bool,
        }
    }
}

/// An argument of a function call in a `FROM` list.
#[derive(Debug, Clone, PartialEq)]
pub enum FunctionArgument {
    LiteralValue(LiteralValue),
    Identifier(String),
}

/// A function call in a `FROM` list. The engine accepts it in a statement
/// and rejects it when the statement is resolved.
#[derive(Debug, Clone, PartialEq)]
pub struct FunctionCall {
    pub function_name: String,
    pub arguments: Vec<FunctionArgument>,
}

/// One projected column: a column name, or a literal, which the engine
/// rejects when the statement is resolved.
#[derive(Debug, Clone, PartialEq)]
pub enum SelectProjectionColumn {
    Named(String),
    LiteralValue(LiteralValue),
}

/// What a `SELECT` projects: listed columns, or every column of its table.
#[derive(Debug, Clone, PartialEq)]
pub enum SelectProjection {
    Columns(Vec<SelectProjectionColumn>),
    Wildcard,
}

/// One source of a `FROM` list.
#[derive(Debug, Clone, PartialEq)]
pub enum SelectFromTable {
    Function(FunctionCall),
    NamedTable(String),
}

/// How a filter compares.
#[derive(Debug, Clone, PartialEq)]
pub enum Comparator {
    Equals,
}

/// One condition of a `WHERE` clause. Filters are carried in the statement
/// and not evaluated.
#[derive(Debug, Clone, PartialEq)]
pub enum SelectWhereFilter {
    ColumnColumn(String, Comparator, String),
    ColumnLiteral(String, Comparator, LiteralValue),
}

/// A `SELECT` statement.
#[derive(Debug, Clone, PartialEq)]
pub struct SelectStmt {
    pub projection: SelectProjection,
    pub from: Vec<SelectFromTable>,
    pub filter: Vec<SelectWhereFilter>,
}

/// A `CREATE TABLE` statement.
#[derive(Debug, Clone, PartialEq)]
pub struct CreateTableStmt {
    pub table_name: String,
    pub column_defs: Vec<ColumnDefinition>,
}

/// A `DROP TABLE` statement.
#[derive(Debug, Clone, PartialEq)]
pub struct DropTableStmt {
    pub table_name: String,
}

/// An `INSERT` statement: a value for each listed column.
#[derive(Debug, Clone, PartialEq)]
pub struct InsertStmt {
    pub table_name: String,
    pub column_names: Vec<String>,
    pub column_values: Vec<LiteralValue>,
}

/// A parsed statement.
#[derive(Debug, Clone, PartialEq)]
pub enum SqlStmt {
    Select(SelectStmt),
    DumpTables,
    CreateTable(CreateTableStmt),
    DropTable(DropTableStmt),
    Insert(InsertStmt),
}

/// What a statement that ran hands back.
#[derive(Debug, Clone, PartialEq)]
pub enum SqlResult {
    Message(String),
    RowsUpdated(usize),
    Rows(Vec<Vec<LiteralValue>>),
    /// The statement has nothing to report.
    Nothing,
}

} // verus!
