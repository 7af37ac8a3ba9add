//! The failures a statement can end in, and the classes they fall into.

use vstd::prelude::*;

verus! {

/// The class of a failure.
#[derive(Clone, Copy, Debug, PartialEq, Eq, Structural)]
pub enum FailureKind {
    /// A table, column or row has no match.
    NotFound,
    /// A column name matches more than one source column.
    Ambiguous,
    /// A live table already carries the name.
    AlreadyExists,
    /// Counts of names, values or row cells do not agree.
    Shape,
    /// A literal cannot be converted to a column's declared type.
    Type,
    /// A tombstoned row was dereferenced.
    Deleted,
    /// A scan has no more rows; the expected end of a sequence.
    Exhausted,
    /// The statement asks for something the engine does not evaluate.
    Unsupported,
    /// A resolved position does not exist, or a store is full.
    Internal,
}

/// Why a statement, or a step of it, was rejected.
#[derive(Debug, PartialEq)]
pub enum SqlFailure {
    /// No live table has this name.
    TableNotFound(String),
    /// No listed table has a column of this name.
    ColumnNotFound(String),
    /// More than one source column has this name.
    AmbiguousColumn(String),
    /// A live table of this name exists already.
    TableExists(String),
    /// An insert lists a column name twice.
    DuplicateColumns,
    /// An insert supplies fewer values than column names.
    TooFewValues,
    /// An insert supplies more values than column names.
    TooManyValues,
    /// A row does not have one cell per column of the table.
    RowWidth,
    /// `Null` cannot be read as a boolean.
    NullToBool,
    /// This text cannot be read as a boolean.
    TextToBool(String),
    /// The row id was never assigned.
    RowMissing(usize),
    /// The row id refers to a tombstoned row.
    RowDeleted(usize),
    /// The scan is exhausted.
    NoMoreRows,
    /// A literal stands in a projection.
    LiteralProjection,
    /// A function call stands in a `FROM` list.
    FunctionSource,
    /// `*` is projected from a number of tables other than one.
    WildcardTables,
    /// The catalog has no slot of this index.
    TableIndex(usize),
    /// A row has no cell of this index.
    ColumnIndex(usize),
    /// A scan was planned over no table.
    NoSourceTable,
    /// The table cannot assign another row id.
    TableFull,
}

/// A result that fails with a [`SqlFailure`].
pub type SqlError<T> = Result<T, SqlFailure>;

/// The mathematical value of a [`SqlFailure`]: names are sequences of
/// characters.
pub enum FailureView {
    TableNotFound(Seq<char>),
    ColumnNotFound(Seq<char>),
    AmbiguousColumn(Seq<char>),
    TableExists(Seq<char>),
    DuplicateColumns,
    TooFewValues,
    TooManyValues,
    RowWidth,
    NullToBool,
    TextToBool(Seq<char>),
    RowMissing(usize),
    RowDeleted(usize),
    NoMoreRows,
    LiteralProjection,
    FunctionSource,
    WildcardTables,
    TableIndex(usize),
    ColumnIndex(usize),
    NoSourceTable,
    TableFull,
}

impl FailureView {
    /// The class this failure belongs to.
    pub open spec fn kind(self) -> FailureKind {
        match self {
            FailureView::TableNotFound(_) => FailureKind::NotFound,
            FailureView::ColumnNotFound(_) => FailureKind::NotFound,
            FailureView::RowMissing(_) => FailureKind::NotFound,
            FailureView::AmbiguousColumn(_) => FailureKind::Ambiguous,
            FailureView::TableExists(_) => FailureKind::AlreadyExists,
            FailureView::DuplicateColumns => FailureKind::Shape,
            FailureView::TooFewValues => FailureKind::Shape,
            FailureView::TooManyValues => FailureKind::Shape,
            FailureView::RowWidth => FailureKind::Shape,
            FailureView::NullToBool => FailureKind::Type,
            FailureView::TextToBool(_) => FailureKind::Type,
            FailureView::RowDeleted(_) => FailureKind::Deleted,
            FailureView::NoMoreRows => FailureKind::Exhausted,
            FailureView::LiteralProjection => FailureKind::Unsupported,
            FailureView::FunctionSource => FailureKind::Unsupported,
            FailureView::WildcardTables => FailureKind::Unsupported,
            FailureView::TableIndex(_) => FailureKind::Internal,
            FailureView::ColumnIndex(_) => FailureKind::Internal,
            FailureView::NoSourceTable => FailureKind::Internal,
            FailureView::TableFull => FailureKind::Internal,
        }
    }
}

/// The decimal digit of a number below ten.
pub open spec fn digit(d: nat) -> char {
    if d == 0 {
        '0'
    } else if d == 1 {
        '1'
    } else if d == 2 {
        '2'
    } else if d == 3 {
        '3'
    } else if d == 4 {
        '4'
    } else if d == 5 {
        '5'
    } else if d == 6 {
        '6'
    } else if d == 7 {
        '7'
    } else if d == 8 {
        '8'
    } else {
        '9'
    }
}

/// A number in decimal, without leading zeros.
pub open spec fn decimal(n: nat) -> Seq<char>
    decreases n,
{
    if n < 10 {
        seq![digit(n)]
    } else {
        decimal(n / 10).push(digit(n % 10))
    }
}

impl FailureView {
    /// The text that tells a user of the failure.
    pub open spec fn text(self) -> Seq<char> {
        match self {
            FailureView::TableNotFound(n) => "Table "@ + n + " doesn't exist"@,
            FailureView::ColumnNotFound(n) => "Column "@ + n + " not found"@,
            FailureView::AmbiguousColumn(n) => "Ambiguous column "@ + n,
            FailureView::TableExists(n) => "Table "@ + n + " already exists"@,
            FailureView::DuplicateColumns => "Duplicated column names in insert statement"@,
            FailureView::TooFewValues => "Not enough values"@,
            FailureView::TooManyValues => "Too many values"@,
            FailureView::RowWidth => "Wrong number of columns for table"@,
            FailureView::NullToBool => "Cannot convert Null value to bool"@,
            FailureView::TextToBool(t) => "Cannot convert Text value ("@ + t + ") to bool"@,
            FailureView::RowMissing(r) => "Row "@ + decimal(r as nat) + " doesn't exist"@,
            FailureView::RowDeleted(r) => "Row "@ + decimal(r as nat) + " is no longer valid"@,
            FailureView::NoMoreRows => "No more rows."@,
            FailureView::LiteralProjection => "Select LiteralValue not implemented"@,
            FailureView::FunctionSource => "Select from function not implemented"@,
            FailureView::WildcardTables => "Select wildcard not supported for multiple tables"@,
            FailureView::TableIndex(i) => "Internal Error: Table index "@ + decimal(i as nat)
                + " doesn't exist"@,
            FailureView::ColumnIndex(i) => "Internal Error: Column index "@ + decimal(i as nat)
                + " doesn't exist"@,
            FailureView::NoSourceTable => "Internal Error: Select without a table"@,
            FailureView::TableFull => "Internal Error: Table is full"@,
        }
    }
}

impl View for SqlFailure {
    type V = FailureView;

    open spec fn view(&self) -> FailureView {
        match self {
            SqlFailure::TableNotFound(n) => FailureView::TableNotFound(n@),
            SqlFailure::ColumnNotFound(n) => FailureView::ColumnNotFound(n@),
            SqlFailure::AmbiguousColumn(n) => FailureView::AmbiguousColumn(n@),
            SqlFailure::TableExists(n) => FailureView::TableExists(n@),
            SqlFailure::DuplicateColumns => FailureView::DuplicateColumns,
            SqlFailure::TooFewValues => FailureView::TooFewValues,
            SqlFailure::TooManyValues => FailureView::TooManyValues,
            SqlFailure::RowWidth => FailureView::RowWidth,
            SqlFailure::NullToBool => FailureView::NullToBool,
            SqlFailure::TextToBool(t) => FailureView::TextToBool(t@),
            SqlFailure::RowMissing(r) => FailureView::RowMissing(*r),
            SqlFailure::RowDeleted(r) => FailureView::RowDeleted(*r),
            SqlFailure::NoMoreRows => FailureView::NoMoreRows,
            SqlFailure::LiteralProjection => FailureView::LiteralProjection,
            SqlFailure::FunctionSource => FailureView::FunctionSource,
            SqlFailure::WildcardTables => FailureView::WildcardTables,
            SqlFailure::TableIndex(i) => FailureView::TableIndex(*i),
            SqlFailure::ColumnIndex(i) => FailureView::ColumnIndex(*i),
            SqlFailure::NoSourceTable => FailureView::NoSourceTable,
            SqlFailure::TableFull => FailureView::TableFull,
        }
    }
}

impl Clone for SqlFailure {
    fn clone(&self) -> (res: Self)
        ensures
            res == *self,
    {
        match self {
            SqlFailure::TableNotFound(n) => SqlFailure::TableNotFound(n.clone()),
            SqlFailure::ColumnNotFound(n) => SqlFailure::ColumnNotFound(n.clone()),
            SqlFailure::AmbiguousColumn(n) => SqlFailure::AmbiguousColumn(n.clone()),
            SqlFailure::TableExists(n) => SqlFailure::TableExists(n.clone()),
            SqlFailure::DuplicateColumns => SqlFailure::DuplicateColumns,
            SqlFailure::TooFewValues => SqlFailure::TooFewValues,
            SqlFailure::TooManyValues => SqlFailure::TooManyValues,
            SqlFailure::RowWidth => SqlFailure::RowWidth,
            SqlFailure::NullToBool => SqlFailure::NullToBool,
            SqlFailure::TextToBool(t) => SqlFailure::TextToBool(t.clone()),
            SqlFailure::RowMissing(r) => SqlFailure::RowMissing(*r),
            SqlFailure::RowDeleted(r) => SqlFailure::RowDeleted(*r),
            SqlFailure::NoMoreRows => SqlFailure::NoMoreRows,
            SqlFailure::LiteralProjection => SqlFailure::LiteralProjection,
            SqlFailure::FunctionSource => SqlFailure::FunctionSource,
            SqlFailure::WildcardTables => SqlFailure::WildcardTables,
            SqlFailure::TableIndex(i) => SqlFailure::TableIndex(*i),
            SqlFailure::ColumnIndex(i) => SqlFailure::ColumnIndex(*i),
            SqlFailure::NoSourceTable => SqlFailure::NoSourceTable,
            SqlFailure::TableFull => SqlFailure::TableFull,
        }
    }
}

impl SqlFailure {
    /// The class this failure belongs to.
    pub fn kind(&self) -> (k: FailureKind)
        ensures
            k == self@.kind(),
    {
        match self {
            SqlFailure::TableNotFound(_) => FailureKind::NotFound,
            SqlFailure::ColumnNotFound(_) => FailureKind::NotFound,
            SqlFailure::RowMissing(_) => FailureKind::NotFound,
            SqlFailure::AmbiguousColumn(_) => FailureKind::Ambiguous,
            SqlFailure::TableExists(_) => FailureKind::AlreadyExists,
            SqlFailure::DuplicateColumns => FailureKind::Shape,
            SqlFailure::TooFewValues => FailureKind::Shape,
            SqlFailure::TooManyValues => FailureKind::Shape,
            SqlFailure::RowWidth => FailureKind::Shape,
            SqlFailure::NullToBool => FailureKind::Type,
            SqlFailure::TextToBool(_) => FailureKind::Type,
            SqlFailure::RowDeleted(_) => FailureKind::Deleted,
            SqlFailure::NoMoreRows => FailureKind::Exhausted,
            SqlFailure::LiteralProjection => FailureKind::Unsupported,
            SqlFailure::FunctionSource => FailureKind::Unsupported,
            SqlFailure::WildcardTables => FailureKind::Unsupported,
            SqlFailure::TableIndex(_) => FailureKind::Internal,
            SqlFailure::ColumnIndex(_) => FailureKind::Internal,
            SqlFailure::NoSourceTable => FailureKind::Internal,
            SqlFailure::TableFull => FailureKind::Internal,
        }
    }
}

/// The text of a decimal digit.
fn digit_text(d: usize) -> (text: &'static str)
    requires
        d < 10,
    ensures
        text@ == seq![digit(d as nat)],
{
    proof {
        reveal_strlit("0");
        reveal_strlit("1");
        reveal_strlit("2");
        reveal_strlit("3");
        reveal_strlit("4");
        reveal_strlit("5");
        reveal_strlit("6");
        reveal_strlit("7");
        reveal_strlit("8");
        reveal_strlit("9");
    }
    let text = if d == 0 {
        "0"
    } else if d == 1 {
        "1"
    } else if d == 2 {
        "2"
    } else if d == 3 {
        "3"
    } else if d == 4 {
        "4"
    } else if d == 5 {
        "5"
    } else if d == 6 {
        "6"
    } else if d == 7 {
        "7"
    } else if d == 8 {
        "8"
    } else {
        "9"
    };
    assert(text@ =~= seq![digit(d as nat)]);
    text
}

/// Appends a number in decimal to a text.
fn append_decimal(text: &mut String, n: usize)
    ensures
        final(text)@ == old(text)@ + decimal(n as nat),
    decreases n,
{
    if n >= 10 {
        append_decimal(text, n / 10);
    }
    text.append(digit_text(n % 10));
    assert(text@ =~= old(text)@ + decimal(n as nat));
}

/// A text made of a head, a name and a tail.
fn framed(head: &str, name: &str, tail: &str) -> (text: String)
    ensures
        text@ == head@ + name@ + tail@,
{
    let mut text = head.to_owned();
    text.append(name);
    text.append(tail);
    text
}

/// A text made of a head, a number in decimal and a tail.
fn numbered(head: &str, n: usize, tail: &str) -> (text: String)
    ensures
        text@ == head@ + decimal(n as nat) + tail@,
{
    let mut text = head.to_owned();
    append_decimal(&mut text, n);
    text.append(tail);
    text
}

impl SqlFailure {
    /// The text that tells a user of the failure.
    pub fn message(&self) -> (text: String)
        ensures
            text@ == self@.text(),
    {
        match self {
            SqlFailure::TableNotFound(n) => framed("Table ", n.as_str(), " doesn't exist"),
            SqlFailure::ColumnNotFound(n) => framed("Column ", n.as_str(), " not found"),
            SqlFailure::AmbiguousColumn(n) => {
                let text = framed("Ambiguous column ", n.as_str(), "");
                proof {
                    reveal_strlit("");
                }
                assert(text@ =~= self@.text());
                text
            },
            SqlFailure::TableExists(n) => framed("Table ", n.as_str(), " already exists"),
            SqlFailure::DuplicateColumns => {
                "Duplicated column names in insert statement".to_owned()
            },
            SqlFailure::TooFewValues => "Not enough values".to_owned(),
            SqlFailure::TooManyValues => "Too many values".to_owned(),
            SqlFailure::RowWidth => "Wrong number of columns for table".to_owned(),
            SqlFailure::NullToBool => "Cannot convert Null value to bool".to_owned(),
            SqlFailure::TextToBool(t) => framed(
                "Cannot convert Text value (",
                t.as_str(),
                ") to bool",
            ),
            SqlFailure::RowMissing(r) => numbered("Row ", *r, " doesn't exist"),
            SqlFailure::RowDeleted(r) => numbered("Row ", *r, " is no longer valid"),
            SqlFailure::NoMoreRows => "No more rows.".to_owned(),
            SqlFailure::LiteralProjection => "Select LiteralValue not implemented".to_owned(),
            SqlFailure::FunctionSource => "Select from function not implemented".to_owned(),
            SqlFailure::WildcardTables => {
                "Select wildcard not supported for multiple tables".to_owned()
            },
            SqlFailure::TableIndex(i) => numbered(
                "Internal Error: Table index ",
                *i,
                " doesn't exist",
            ),
            SqlFailure::ColumnIndex(i) => numbered(
                "Internal Error: Column index ",
                *i,
                " doesn't exist",
            ),
            SqlFailure::NoSourceTable => "Internal Error: Select without a table".to_owned(),
            SqlFailure::TableFull => "Internal Error: Table is full".to_owned(),
        }
    }
}

} // verus!
