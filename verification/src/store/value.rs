//! What goes to the database and what comes back: values, rows and replies.

use crate::number::{dec_chars, int_text};
use crate::text::string_of;
use vstd::prelude::*;
use vstd::string::StringExecFns;

verus! {

/// Why the store did not do what it was asked.
#[derive(Debug)]
pub enum StoreError {
    /// The database failed, or answered something that the store cannot read.
    Backend(String),
    /// The database carries another schema; the text tells them apart.
    SchemaDiff(String),
    NotFound(String),
    Io(String),
}

pub ghost enum StoreErrorView {
    Backend(Seq<char>),
    SchemaDiff(Seq<char>),
    NotFound(Seq<char>),
    Io(Seq<char>),
}

impl View for StoreError {
    type V = StoreErrorView;

    open spec fn view(&self) -> StoreErrorView {
        match *self {
            StoreError::Backend(s) => StoreErrorView::Backend(s@),
            StoreError::SchemaDiff(s) => StoreErrorView::SchemaDiff(s@),
            StoreError::NotFound(s) => StoreErrorView::NotFound(s@),
            StoreError::Io(s) => StoreErrorView::Io(s@),
        }
    }
}

/// What an error says.
pub open spec fn error_text(e: StoreErrorView) -> Seq<char> {
    match e {
        StoreErrorView::Backend(s) => "turso: "@ + s,
        StoreErrorView::SchemaDiff(s) =>
            "veritabanı şeması bildirilenle uyuşmuyor — başlatma reddedildi; fark:\n"@ + s,
        StoreErrorView::NotFound(s) => "bulunamadı: "@ + s,
        StoreErrorView::Io(s) => "io: "@ + s,
    }
}

impl StoreError {
    /// The error in words.
    pub fn message(&self) -> (r: String)
        ensures
            r@ == error_text(self@),
    {
        let mut text = String::new();
        match self {
            StoreError::Backend(s) => {
                text.append("turso: ");
                text.append(s.as_str());
            },
            StoreError::SchemaDiff(s) => {
                text.append(
                    "veritabanı şeması bildirilenle uyuşmuyor — başlatma reddedildi; fark:\n",
                );
                text.append(s.as_str());
            },
            StoreError::NotFound(s) => {
                text.append("bulunamadı: ");
                text.append(s.as_str());
            },
            StoreError::Io(s) => {
                text.append("io: ");
                text.append(s.as_str());
            },
        }
        proof {
            assert(text@ =~= error_text(self@));
        }
        text
    }
}

/// The outcome of a function of the store, by its view.
pub open spec fn outcome<T: View>(r: Result<T, StoreError>) -> Result<T::V, StoreErrorView> {
    match r {
        Ok(x) => Ok(x@),
        Err(e) => Err(e@),
    }
}

/// A value of a column or a parameter.
#[derive(Debug, Clone)]
pub enum SqlValue {
    Null,
    Integer(i64),
    Text(String),
    /// A real number or a blob: the store writes neither.
    Other,
}

pub ghost enum SqlView {
    Null,
    Integer(i64),
    Text(Seq<char>),
    Other,
}

impl View for SqlValue {
    type V = SqlView;

    open spec fn view(&self) -> SqlView {
        match *self {
            SqlValue::Null => SqlView::Null,
            SqlValue::Integer(n) => SqlView::Integer(n),
            SqlValue::Text(s) => SqlView::Text(s@),
            SqlValue::Other => SqlView::Other,
        }
    }
}

pub open spec fn value_views(values: Seq<SqlValue>) -> Seq<SqlView> {
    Seq::new(values.len(), |i: int| values[i]@)
}

pub open spec fn row_views(rows: Seq<Vec<SqlValue>>) -> Seq<Seq<SqlView>> {
    Seq::new(rows.len(), |i: int| value_views(rows[i]@))
}

/// An optional text as a parameter.
pub open spec fn text_or_null(s: Option<Seq<char>>) -> SqlView {
    match s {
        Some(s) => SqlView::Text(s),
        None => SqlView::Null,
    }
}

/// An optional number as a parameter.
pub open spec fn integer_or_null(n: Option<i64>) -> SqlView {
    match n {
        Some(n) => SqlView::Integer(n),
        None => SqlView::Null,
    }
}

pub fn text_val(s: &str) -> (r: SqlValue)
    ensures
        r@ == SqlView::Text(s@),
{
    SqlValue::Text(s.to_owned())
}

pub fn int_val(n: i64) -> (r: SqlValue)
    ensures
        r@ == SqlView::Integer(n),
{
    SqlValue::Integer(n)
}

pub fn opt_text(v: &Option<String>) -> (r: SqlValue)
    ensures
        r@ == text_or_null(crate::parse::opt_text(*v)),
{
    match v {
        Some(s) => text_val(s.as_str()),
        None => SqlValue::Null,
    }
}

pub fn opt_int(v: &Option<i64>) -> (r: SqlValue)
    ensures
        r@ == integer_or_null(*v),
{
    match v {
        Some(n) => int_val(*n),
        None => SqlValue::Null,
    }
}

/// What the database says to a statement: that it failed, or the rows that it
/// gave and the number of rows that it changed.
#[derive(Debug)]
pub enum Reply {
    Failed(String),
    Done { rows: Vec<Vec<SqlValue>>, changed: u64 },
}

pub ghost enum ReplyView {
    Failed(Seq<char>),
    Done { rows: Seq<Seq<SqlView>>, changed: u64 },
}

impl View for Reply {
    type V = ReplyView;

    open spec fn view(&self) -> ReplyView {
        match *self {
            Reply::Failed(s) => ReplyView::Failed(s@),
            Reply::Done { rows, changed } => ReplyView::Done { rows: row_views(rows@), changed },
        }
    }
}

/// The error on a column that a row does not have.
pub open spec fn no_column(idx: int, columns: nat) -> StoreErrorView {
    StoreErrorView::Backend(
        "column index "@ + int_text(idx) + " out of bounds (row has "@ + int_text(columns as int)
            + " columns)"@,
    )
}

pub open spec fn null_value() -> StoreErrorView {
    StoreErrorView::Backend("Conversion failure: `Null value`"@)
}

pub open spec fn wrong_type() -> StoreErrorView {
    StoreErrorView::Backend("Conversion failure: `invalid column type`"@)
}

/// The text in a column of a row.
pub open spec fn text_at(row: Seq<SqlView>, idx: int) -> Result<Seq<char>, StoreErrorView> {
    if idx >= row.len() {
        Err(no_column(idx, row.len()))
    } else {
        match row[idx] {
            SqlView::Text(s) => Ok(s),
            SqlView::Null => Err(null_value()),
            _ => Err(wrong_type()),
        }
    }
}

/// The text, or nothing, in a column of a row.
pub open spec fn opt_text_at(row: Seq<SqlView>, idx: int) -> Result<
    Option<Seq<char>>,
    StoreErrorView,
> {
    if idx >= row.len() {
        Err(no_column(idx, row.len()))
    } else {
        match row[idx] {
            SqlView::Text(s) => Ok(Some(s)),
            SqlView::Null => Ok(None),
            _ => Err(wrong_type()),
        }
    }
}

/// The number in a column of a row.
pub open spec fn int_at(row: Seq<SqlView>, idx: int) -> Result<i64, StoreErrorView> {
    if idx >= row.len() {
        Err(no_column(idx, row.len()))
    } else {
        match row[idx] {
            SqlView::Integer(n) => Ok(n),
            SqlView::Null => Err(null_value()),
            _ => Err(wrong_type()),
        }
    }
}

/// The number, or nothing, in a column of a row.
pub open spec fn opt_int_at(row: Seq<SqlView>, idx: int) -> Result<Option<i64>, StoreErrorView> {
    if idx >= row.len() {
        Err(no_column(idx, row.len()))
    } else {
        match row[idx] {
            SqlView::Integer(n) => Ok(Some(n)),
            SqlView::Null => Ok(None),
            _ => Err(wrong_type()),
        }
    }
}

pub fn backend(what: &str) -> (r: StoreError)
    ensures
        r@ == StoreErrorView::Backend(what@),
{
    StoreError::Backend(what.to_owned())
}

fn append_count(text: &mut String, n: usize)
    ensures
        final(text)@ == old(text)@ + int_text(n as int),
{
    let digits = dec_chars(n as u64);
    text.append(string_of(&digits).as_str());
    proof {
        assert(text@ =~= old(text)@ + int_text(n as int));
    }
}

pub fn missing_column(idx: usize, columns: usize) -> (r: StoreError)
    ensures
        r@ == no_column(idx as int, columns as nat),
{
    let mut text = String::new();
    text.append("column index ");
    append_count(&mut text, idx);
    text.append(" out of bounds (row has ");
    append_count(&mut text, columns);
    text.append(" columns)");
    proof {
        assert(no_column(idx as int, columns as nat) == StoreErrorView::Backend(text@)) by {
            assert(text@ =~= "column index "@ + int_text(idx as int)
                + " out of bounds (row has "@ + int_text(columns as int) + " columns)"@);
        }
    }
    StoreError::Backend(text)
}

/// Reads a column that holds a text.
pub fn text(row: &[SqlValue], idx: usize) -> (r: Result<String, StoreError>)
    ensures
        outcome(r) == text_at(value_views(row@), idx as int),
{
    if idx >= row.len() {
        return Err(missing_column(idx, row.len()));
    }
    match &row[idx] {
        SqlValue::Text(s) => Ok(s.as_str().to_owned()),
        SqlValue::Null => Err(backend("Conversion failure: `Null value`")),
        _ => Err(backend("Conversion failure: `invalid column type`")),
    }
}

/// Reads a column that holds a text or nothing.
pub fn opt_text_of(row: &[SqlValue], idx: usize) -> (r: Result<Option<String>, StoreError>)
    ensures
        match r {
            Ok(s) => opt_text_at(value_views(row@), idx as int) == Ok::<
                Option<Seq<char>>,
                StoreErrorView,
            >(crate::parse::opt_text(s)),
            Err(e) => opt_text_at(value_views(row@), idx as int) == Err::<
                Option<Seq<char>>,
                StoreErrorView,
            >(e@),
        },
{
    if idx >= row.len() {
        return Err(missing_column(idx, row.len()));
    }
    match &row[idx] {
        SqlValue::Text(s) => Ok(Some(s.as_str().to_owned())),
        SqlValue::Null => Ok(None),
        _ => Err(backend("Conversion failure: `invalid column type`")),
    }
}

/// Reads a column that holds a number.
pub fn int_of(row: &[SqlValue], idx: usize) -> (r: Result<i64, StoreError>)
    ensures
        outcome(r) == int_at(value_views(row@), idx as int),
{
    if idx >= row.len() {
        return Err(missing_column(idx, row.len()));
    }
    match &row[idx] {
        SqlValue::Integer(n) => Ok(*n),
        SqlValue::Null => Err(backend("Conversion failure: `Null value`")),
        _ => Err(backend("Conversion failure: `invalid column type`")),
    }
}

/// Reads a column that holds a number or nothing.
pub fn opt_int_of(row: &[SqlValue], idx: usize) -> (r: Result<Option<i64>, StoreError>)
    ensures
        match r {
            Ok(n) => opt_int_at(value_views(row@), idx as int) == Ok::<
                Option<i64>,
                StoreErrorView,
            >(n),
            Err(e) => opt_int_at(value_views(row@), idx as int) == Err::<
                Option<i64>,
                StoreErrorView,
            >(e@),
        },
{
    if idx >= row.len() {
        return Err(missing_column(idx, row.len()));
    }
    match &row[idx] {
        SqlValue::Integer(n) => Ok(Some(*n)),
        SqlValue::Null => Ok(None),
        _ => Err(backend("Conversion failure: `invalid column type`")),
    }
}

} // verus!
