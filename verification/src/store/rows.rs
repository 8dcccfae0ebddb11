//! Rows of the database as what they stand for.

use crate::parse::{opt_text, Direction, TxnKind};
use crate::store::value::{backend, missing_column, no_column, null_value, outcome, row_views,
    value_views, wrong_type, SqlValue, SqlView, StoreError, StoreErrorView};
use vstd::prelude::*;

verus! {

/// What a column has to hold.
#[derive(Debug, Clone, Copy, PartialEq, Eq, Structural)]
pub enum Column {
    Text,
    OptText,
    Integer,
    OptInteger,
    /// The word of a direction.
    Direction,
    /// The word of a transaction's kind.
    Kind,
}

/// The text of a value that is one.
pub open spec fn text_of(v: SqlView) -> Seq<char> {
    v->Text_0
}

pub open spec fn opt_text_of(v: SqlView) -> Option<Seq<char>> {
    match v {
        SqlView::Text(s) => Some(s),
        _ => None,
    }
}

/// The number of a value that is one.
pub open spec fn integer_of(v: SqlView) -> i64 {
    v->Integer_0
}

pub open spec fn opt_integer_of(v: SqlView) -> Option<i64> {
    match v {
        SqlView::Integer(n) => Some(n),
        _ => None,
    }
}

/// What is wrong with a value for its column.
pub open spec fn value_error(v: SqlView, column: Column) -> Option<StoreErrorView> {
    match (v, column) {
        (SqlView::Text(_), Column::Text) => None,
        (SqlView::Text(_), Column::OptText) => None,
        (SqlView::Text(s), Column::Direction) => if Direction::of_text(s) is Some {
            None
        } else {
            Some(StoreErrorView::Backend("bilinmeyen yön"@))
        },
        (SqlView::Text(s), Column::Kind) => if TxnKind::of_text(s) is Some {
            None
        } else {
            Some(StoreErrorView::Backend("bilinmeyen tür"@))
        },
        (SqlView::Integer(_), Column::Integer) => None,
        (SqlView::Integer(_), Column::OptInteger) => None,
        (SqlView::Null, Column::OptText) => None,
        (SqlView::Null, Column::OptInteger) => None,
        (SqlView::Null, _) => Some(null_value()),
        _ => Some(wrong_type()),
    }
}

/// What is wrong with a row, from a column on: the first thing is told.
pub open spec fn row_error(row: Seq<SqlView>, columns: Seq<Column>, from: int) -> Option<
    StoreErrorView,
>
    decreases columns.len() - from,
{
    if from < 0 || from >= columns.len() {
        None
    } else if from >= row.len() {
        Some(no_column(from, row.len()))
    } else if value_error(row[from], columns[from]) is Some {
        value_error(row[from], columns[from])
    } else {
        row_error(row, columns, from + 1)
    }
}

/// A row with nothing wrong has a fitting value in each column.
pub open spec fn fits(row: Seq<SqlView>, columns: Seq<Column>) -> bool {
    row.len() >= columns.len() && forall|i: int|
        0 <= i < columns.len() ==> value_error(#[trigger] row[i], columns[i]) is None
}

fn check_value(v: &SqlValue, column: Column) -> (r: Option<StoreError>)
    ensures
        match r {
            Some(e) => value_error(v@, column) == Some(e@),
            None => value_error(v@, column) is None,
        },
{
    match v {
        SqlValue::Text(s) => match column {
            Column::Text => None,
            Column::OptText => None,
            Column::Direction => if Direction::from_db(s.as_str()).is_some() {
                None
            } else {
                Some(backend("bilinmeyen yön"))
            },
            Column::Kind => if TxnKind::from_db(s.as_str()).is_some() {
                None
            } else {
                Some(backend("bilinmeyen tür"))
            },
            _ => Some(backend("Conversion failure: `invalid column type`")),
        },
        SqlValue::Integer(_) => match column {
            Column::Integer => None,
            Column::OptInteger => None,
            _ => Some(backend("Conversion failure: `invalid column type`")),
        },
        SqlValue::Null => match column {
            Column::OptText => None,
            Column::OptInteger => None,
            _ => Some(backend("Conversion failure: `Null value`")),
        },
        SqlValue::Other => Some(backend("Conversion failure: `invalid column type`")),
    }
}

/// Checks a row, column by column.
pub fn check_row(row: &[SqlValue], columns: &[Column]) -> (r: Option<StoreError>)
    ensures
        match r {
            Some(e) => row_error(value_views(row@), columns@, 0) == Some(e@),
            None => row_error(value_views(row@), columns@, 0) is None && fits(
                value_views(row@),
                columns@,
            ),
        },
{
    let ghost all = value_views(row@);
    let mut i: usize = 0;
    while i < columns.len()
        invariant
            i <= columns.len(),
            i <= row.len(),
            all == value_views(row@),
            row_error(all, columns@, 0) == row_error(all, columns@, i as int),
            forall|j: int| 0 <= j < i ==> value_error(#[trigger] all[j], columns@[j]) is None,
        decreases columns.len() - i,
    {
        if i >= row.len() {
            return Some(missing_column(i, row.len()));
        }
        proof {
            assert(all[i as int] == row@[i as int]@);
        }
        if let Some(e) = check_value(&row[i], columns[i]) {
            return Some(e);
        }
        i += 1;
    }
    None
}

pub fn take_text(v: &SqlValue) -> (r: String)
    requires
        v@ is Text,
    ensures
        r@ == text_of(v@),
{
    match v {
        SqlValue::Text(s) => s.as_str().to_owned(),
        _ => String::new(),
    }
}

pub fn take_opt_text(v: &SqlValue) -> (r: Option<String>)
    ensures
        opt_text(r) == opt_text_of(v@),
{
    match v {
        SqlValue::Text(s) => Some(s.as_str().to_owned()),
        _ => None,
    }
}

pub fn take_integer(v: &SqlValue) -> (r: i64)
    requires
        v@ is Integer,
    ensures
        r == integer_of(v@),
{
    match v {
        SqlValue::Integer(n) => *n,
        _ => 0,
    }
}

pub fn take_opt_integer(v: &SqlValue) -> (r: Option<i64>)
    ensures
        r == opt_integer_of(v@),
{
    match v {
        SqlValue::Integer(n) => Some(*n),
        _ => None,
    }
}

pub fn take_direction(v: &SqlValue) -> (r: Direction)
    requires
        value_error(v@, Column::Direction) is None,
    ensures
        Direction::of_text(text_of(v@)) == Some(r),
{
    if let SqlValue::Text(s) = v {
        if let Some(d) = Direction::from_db(s.as_str()) {
            return d;
        }
    }
    Direction::Debit
}

pub fn take_kind(v: &SqlValue) -> (r: TxnKind)
    requires
        value_error(v@, Column::Kind) is None,
    ensures
        TxnKind::of_text(text_of(v@)) == Some(r),
{
    if let SqlValue::Text(s) = v {
        if let Some(k) = TxnKind::from_db(s.as_str()) {
            return k;
        }
    }
    TxnKind::Pos
}

/// A category of spending.
#[derive(Debug, Clone)]
pub struct Category {
    pub id: String,
    pub name: String,
    pub kind: String,
    pub color: String,
    pub sort: i64,
}

#[verifier::ext_equal]
pub ghost struct CategoryView {
    pub id: Seq<char>,
    pub name: Seq<char>,
    pub kind: Seq<char>,
    pub color: Seq<char>,
    pub sort: i64,
}

impl View for Category {
    type V = CategoryView;

    open spec fn view(&self) -> CategoryView {
        CategoryView {
            id: self.id@,
            name: self.name@,
            kind: self.kind@,
            color: self.color@,
            sort: self.sort,
        }
    }
}

/// The columns of a category.
pub open spec fn category_columns() -> Seq<Column> {
    seq![
        Column::Text,
        Column::Text,
        Column::Text,
        Column::Text,
        Column::Integer,
    ]
}

/// What a row of those columns holds.
pub open spec fn category_of(row: Seq<SqlView>) -> Result<CategoryView, StoreErrorView> {
    match row_error(row, category_columns(), 0) {
        Some(e) => Err(e),
        None => Ok(
            CategoryView {
                id: text_of(row[0]),
                name: text_of(row[1]),
                kind: text_of(row[2]),
                color: text_of(row[3]),
                sort: integer_of(row[4]),
            },
        ),
    }
}

/// Reads a row of those columns.
pub fn category_from(row: &[SqlValue]) -> (r: Result<Category, StoreError>)
    ensures
        outcome(r) == category_of(value_views(row@)),
{
    let columns = vec![
        Column::Text,
        Column::Text,
        Column::Text,
        Column::Text,
        Column::Integer,
    ];
    proof {
        assert(columns@ =~= category_columns());
        assert(value_views(row@).len() == row@.len());
    }
    if let Some(e) = check_row(row, &columns) {
        return Err(e);
    }
    Ok(
        Category {
            id: take_text(&row[0]),
            name: take_text(&row[1]),
            kind: take_text(&row[2]),
            color: take_text(&row[3]),
            sort: take_integer(&row[4]),
        },
    )
}

/// A stored statement.
#[derive(Debug, Clone)]
pub struct StatementRow {
    pub id: String,
    pub source_sha256: String,
    pub period_end: String,
    pub next_period_end: Option<String>,
    pub due_date: Option<String>,
    pub next_due_date: Option<String>,
    pub previous_balance_minor: i64,
    pub spend_minor: i64,
    pub fees_minor: i64,
    pub payments_minor: i64,
    pub period_debt_minor: i64,
    pub period_debt_usd_minor: i64,
    pub min_pay_minor: i64,
    pub card_limit_minor: Option<i64>,
    pub available_limit_minor: Option<i64>,
    pub imported_at: String,
}

#[verifier::ext_equal]
pub ghost struct StatementRowView {
    pub id: Seq<char>,
    pub source_sha256: Seq<char>,
    pub period_end: Seq<char>,
    pub next_period_end: Option<Seq<char>>,
    pub due_date: Option<Seq<char>>,
    pub next_due_date: Option<Seq<char>>,
    pub previous_balance_minor: i64,
    pub spend_minor: i64,
    pub fees_minor: i64,
    pub payments_minor: i64,
    pub period_debt_minor: i64,
    pub period_debt_usd_minor: i64,
    pub min_pay_minor: i64,
    pub card_limit_minor: Option<i64>,
    pub available_limit_minor: Option<i64>,
    pub imported_at: Seq<char>,
}

impl View for StatementRow {
    type V = StatementRowView;

    open spec fn view(&self) -> StatementRowView {
        StatementRowView {
            id: self.id@,
            source_sha256: self.source_sha256@,
            period_end: self.period_end@,
            next_period_end: opt_text(self.next_period_end),
            due_date: opt_text(self.due_date),
            next_due_date: opt_text(self.next_due_date),
            previous_balance_minor: self.previous_balance_minor,
            spend_minor: self.spend_minor,
            fees_minor: self.fees_minor,
            payments_minor: self.payments_minor,
            period_debt_minor: self.period_debt_minor,
            period_debt_usd_minor: self.period_debt_usd_minor,
            min_pay_minor: self.min_pay_minor,
            card_limit_minor: self.card_limit_minor,
            available_limit_minor: self.available_limit_minor,
            imported_at: self.imported_at@,
        }
    }
}

/// The columns of a stored statement.
pub open spec fn statement_columns() -> Seq<Column> {
    seq![
        Column::Text,
        Column::Text,
        Column::Text,
        Column::OptText,
        Column::OptText,
        Column::OptText,
        Column::Integer,
        Column::Integer,
        Column::Integer,
        Column::Integer,
        Column::Integer,
        Column::Integer,
        Column::Integer,
        Column::OptInteger,
        Column::OptInteger,
        Column::Text,
    ]
}

/// What a row of those columns holds.
pub open spec fn statement_of(row: Seq<SqlView>) -> Result<StatementRowView, StoreErrorView> {
    match row_error(row, statement_columns(), 0) {
        Some(e) => Err(e),
        None => Ok(
            StatementRowView {
                id: text_of(row[0]),
                source_sha256: text_of(row[1]),
                period_end: text_of(row[2]),
                next_period_end: opt_text_of(row[3]),
                due_date: opt_text_of(row[4]),
                next_due_date: opt_text_of(row[5]),
                previous_balance_minor: integer_of(row[6]),
                spend_minor: integer_of(row[7]),
                fees_minor: integer_of(row[8]),
                payments_minor: integer_of(row[9]),
                period_debt_minor: integer_of(row[10]),
                period_debt_usd_minor: integer_of(row[11]),
                min_pay_minor: integer_of(row[12]),
                card_limit_minor: opt_integer_of(row[13]),
                available_limit_minor: opt_integer_of(row[14]),
                imported_at: text_of(row[15]),
            },
        ),
    }
}

/// Reads a row of those columns.
pub fn statement_from(row: &[SqlValue]) -> (r: Result<StatementRow, StoreError>)
    ensures
        outcome(r) == statement_of(value_views(row@)),
{
    let columns = vec![
        Column::Text,
        Column::Text,
        Column::Text,
        Column::OptText,
        Column::OptText,
        Column::OptText,
        Column::Integer,
        Column::Integer,
        Column::Integer,
        Column::Integer,
        Column::Integer,
        Column::Integer,
        Column::Integer,
        Column::OptInteger,
        Column::OptInteger,
        Column::Text,
    ];
    proof {
        assert(columns@ =~= statement_columns());
        assert(value_views(row@).len() == row@.len());
    }
    if let Some(e) = check_row(row, &columns) {
        return Err(e);
    }
    Ok(
        StatementRow {
            id: take_text(&row[0]),
            source_sha256: take_text(&row[1]),
            period_end: take_text(&row[2]),
            next_period_end: take_opt_text(&row[3]),
            due_date: take_opt_text(&row[4]),
            next_due_date: take_opt_text(&row[5]),
            previous_balance_minor: take_integer(&row[6]),
            spend_minor: take_integer(&row[7]),
            fees_minor: take_integer(&row[8]),
            payments_minor: take_integer(&row[9]),
            period_debt_minor: take_integer(&row[10]),
            period_debt_usd_minor: take_integer(&row[11]),
            min_pay_minor: take_integer(&row[12]),
            card_limit_minor: take_opt_integer(&row[13]),
            available_limit_minor: take_opt_integer(&row[14]),
            imported_at: take_text(&row[15]),
        },
    )
}

/// A stored transaction, with its payee and category where it has them.
#[derive(Debug, Clone)]
pub struct TxnRow {
    pub id: String,
    pub statement_id: String,
    pub row_index: i64,
    pub date: String,
    pub merchant_raw: String,
    pub merchant_norm: String,
    pub extra: String,
    pub amount_minor: i64,
    pub direction: Direction,
    pub usd_minor: Option<i64>,
    pub bankkart_lira_minor: i64,
    pub card_last4: String,
    pub kind: TxnKind,
    pub payee_id: Option<String>,
    pub payee_name: Option<String>,
    pub category_id: Option<String>,
    pub category_name: Option<String>,
    pub category_color: Option<String>,
}

#[verifier::ext_equal]
pub ghost struct TxnRowView {
    pub id: Seq<char>,
    pub statement_id: Seq<char>,
    pub row_index: i64,
    pub date: Seq<char>,
    pub merchant_raw: Seq<char>,
    pub merchant_norm: Seq<char>,
    pub extra: Seq<char>,
    pub amount_minor: i64,
    pub direction: Direction,
    pub usd_minor: Option<i64>,
    pub bankkart_lira_minor: i64,
    pub card_last4: Seq<char>,
    pub kind: TxnKind,
    pub payee_id: Option<Seq<char>>,
    pub payee_name: Option<Seq<char>>,
    pub category_id: Option<Seq<char>>,
    pub category_name: Option<Seq<char>>,
    pub category_color: Option<Seq<char>>,
}

impl View for TxnRow {
    type V = TxnRowView;

    open spec fn view(&self) -> TxnRowView {
        TxnRowView {
            id: self.id@,
            statement_id: self.statement_id@,
            row_index: self.row_index,
            date: self.date@,
            merchant_raw: self.merchant_raw@,
            merchant_norm: self.merchant_norm@,
            extra: self.extra@,
            amount_minor: self.amount_minor,
            direction: self.direction,
            usd_minor: self.usd_minor,
            bankkart_lira_minor: self.bankkart_lira_minor,
            card_last4: self.card_last4@,
            kind: self.kind,
            payee_id: opt_text(self.payee_id),
            payee_name: opt_text(self.payee_name),
            category_id: opt_text(self.category_id),
            category_name: opt_text(self.category_name),
            category_color: opt_text(self.category_color),
        }
    }
}

/// The columns of a stored transaction.
pub open spec fn txn_columns() -> Seq<Column> {
    seq![
        Column::Text,
        Column::Text,
        Column::Integer,
        Column::Text,
        Column::Text,
        Column::Text,
        Column::Text,
        Column::Integer,
        Column::Direction,
        Column::OptInteger,
        Column::Integer,
        Column::Text,
        Column::Kind,
        Column::OptText,
        Column::OptText,
        Column::OptText,
        Column::OptText,
        Column::OptText,
    ]
}

/// What a row of those columns holds.
pub open spec fn txn_of(row: Seq<SqlView>) -> Result<TxnRowView, StoreErrorView> {
    match row_error(row, txn_columns(), 0) {
        Some(e) => Err(e),
        None => Ok(
            TxnRowView {
                id: text_of(row[0]),
                statement_id: text_of(row[1]),
                row_index: integer_of(row[2]),
                date: text_of(row[3]),
                merchant_raw: text_of(row[4]),
                merchant_norm: text_of(row[5]),
                extra: text_of(row[6]),
                amount_minor: integer_of(row[7]),
                direction: Direction::of_text(text_of(row[8]))->0,
                usd_minor: opt_integer_of(row[9]),
                bankkart_lira_minor: integer_of(row[10]),
                card_last4: text_of(row[11]),
                kind: TxnKind::of_text(text_of(row[12]))->0,
                payee_id: opt_text_of(row[13]),
                payee_name: opt_text_of(row[14]),
                category_id: opt_text_of(row[15]),
                category_name: opt_text_of(row[16]),
                category_color: opt_text_of(row[17]),
            },
        ),
    }
}

/// Reads a row of those columns.
pub fn txn_from(row: &[SqlValue]) -> (r: Result<TxnRow, StoreError>)
    ensures
        outcome(r) == txn_of(value_views(row@)),
{
    let columns = vec![
        Column::Text,
        Column::Text,
        Column::Integer,
        Column::Text,
        Column::Text,
        Column::Text,
        Column::Text,
        Column::Integer,
        Column::Direction,
        Column::OptInteger,
        Column::Integer,
        Column::Text,
        Column::Kind,
        Column::OptText,
        Column::OptText,
        Column::OptText,
        Column::OptText,
        Column::OptText,
    ];
    proof {
        assert(columns@ =~= txn_columns());
        assert(value_views(row@).len() == row@.len());
    }
    if let Some(e) = check_row(row, &columns) {
        return Err(e);
    }
    Ok(
        TxnRow {
            id: take_text(&row[0]),
            statement_id: take_text(&row[1]),
            row_index: take_integer(&row[2]),
            date: take_text(&row[3]),
            merchant_raw: take_text(&row[4]),
            merchant_norm: take_text(&row[5]),
            extra: take_text(&row[6]),
            amount_minor: take_integer(&row[7]),
            direction: take_direction(&row[8]),
            usd_minor: take_opt_integer(&row[9]),
            bankkart_lira_minor: take_integer(&row[10]),
            card_last4: take_text(&row[11]),
            kind: take_kind(&row[12]),
            payee_id: take_opt_text(&row[13]),
            payee_name: take_opt_text(&row[14]),
            category_id: take_opt_text(&row[15]),
            category_name: take_opt_text(&row[16]),
            category_color: take_opt_text(&row[17]),
        },
    )
}

/// What a row of the database can be read as.
pub trait FromRow: Sized + View {
    /// What a row holds, or what is wrong with it.
    spec fn of_row(row: Seq<SqlView>) -> Result<Self::V, StoreErrorView>;

    /// Reads a row.
    fn from_row(row: &[SqlValue]) -> (r: Result<Self, StoreError>)
        ensures
            outcome(r) == Self::of_row(value_views(row@)),
    ;
}

/// What rows hold, in order, or what is wrong with the first that cannot be
/// read.
pub open spec fn list_of<T: FromRow>(rows: Seq<Seq<SqlView>>) -> Result<Seq<T::V>, StoreErrorView>
    decreases rows.len(),
{
    if rows.len() == 0 {
        Ok(Seq::empty())
    } else {
        match list_of::<T>(rows.drop_last()) {
            Err(e) => Err(e),
            Ok(list) => match T::of_row(rows.last()) {
                Err(e) => Err(e),
                Ok(x) => Ok(list.push(x)),
            },
        }
    }
}

proof fn list_stops<T: FromRow>(rows: Seq<Seq<SqlView>>, n: int)
    requires
        0 <= n <= rows.len(),
        list_of::<T>(rows.take(n)) is Err,
    ensures
        list_of::<T>(rows) == list_of::<T>(rows.take(n)),
    decreases rows.len() - n,
{
    if n < rows.len() {
        assert(rows.take(n + 1).drop_last() =~= rows.take(n));
        list_stops::<T>(rows, n + 1);
    } else {
        assert(rows.take(n) =~= rows);
    }
}

/// Rows that can all be read give a list of what each holds.
pub proof fn list_reads<T: FromRow>(rows: Seq<Seq<SqlView>>)
    requires
        forall|i: int| 0 <= i < rows.len() ==> T::of_row(#[trigger] rows[i]) is Ok,
    ensures
        list_of::<T>(rows) is Ok,
        list_of::<T>(rows)->Ok_0.len() == rows.len(),
        forall|i: int|
            0 <= i < rows.len() ==> T::of_row(rows[i]) == Ok::<T::V, StoreErrorView>(
                #[trigger] list_of::<T>(rows)->Ok_0[i],
            ),
    decreases rows.len(),
{
    if rows.len() > 0 {
        let before = rows.drop_last();
        assert forall|i: int| 0 <= i < before.len() implies T::of_row(#[trigger] before[i]) is Ok by {
            assert(before[i] == rows[i]);
        }
        list_reads::<T>(before);
        let last = rows[rows.len() - 1];
        let list = list_of::<T>(rows)->Ok_0;
        assert(T::of_row(last) is Ok);
        assert(list == list_of::<T>(before)->Ok_0.push(T::of_row(last)->Ok_0));
        assert forall|i: int| 0 <= i < rows.len() implies T::of_row(rows[i]) == Ok::<
            T::V,
            StoreErrorView,
        >(#[trigger] list[i]) by {
            if i < before.len() {
                assert(before[i] == rows[i]);
                assert(list[i] == list_of::<T>(before)->Ok_0[i]);
            }
        }
    }
}

/// What the elements of a list stand for.
pub open spec fn list_views<T: View>(list: Seq<T>) -> Seq<T::V> {
    Seq::new(list.len(), |i: int| list[i]@)
}

/// The outcome of reading rows, by its view.
pub open spec fn list_outcome<T: View>(r: Result<Vec<T>, StoreError>) -> Result<
    Seq<T::V>,
    StoreErrorView,
> {
    match r {
        Ok(list) => Ok(list_views(list@)),
        Err(e) => Err(e@),
    }
}

/// Reads rows until one cannot be read.
pub fn read_rows<T: FromRow>(rows: &[Vec<SqlValue>]) -> (r: Result<Vec<T>, StoreError>)
    ensures
        list_outcome(r) == list_of::<T>(row_views(rows@)),
{
    let ghost all = row_views(rows@);
    let mut list: Vec<T> = Vec::new();
    let mut i: usize = 0;
    proof {
        assert(all.take(0) =~= Seq::<Seq<SqlView>>::empty());
        assert(list_views(list@) =~= Seq::<T::V>::empty());
    }
    while i < rows.len()
        invariant
            i <= rows.len(),
            all == row_views(rows@),
            list_of::<T>(all.take(i as int)) == Ok::<Seq<T::V>, StoreErrorView>(list_views(list@)),
        decreases rows.len() - i,
    {
        let ghost done = list_views(list@);
        proof {
            assert(all.take(i as int + 1).drop_last() =~= all.take(i as int));
            assert(all.take(i as int + 1).last() == value_views(rows@[i as int]@));
        }
        match T::from_row(&rows[i]) {
            Ok(x) => {
                list.push(x);
                proof {
                    assert(list_views(list@) =~= done.push(x@));
                }
            },
            Err(e) => {
                proof {
                    list_stops::<T>(all, i as int + 1);
                }
                return Err(e);
            },
        }
        i += 1;
    }
    proof {
        assert(all.take(all.len() as int) =~= all);
    }
    Ok(list)
}

impl FromRow for Category {
    open spec fn of_row(row: Seq<SqlView>) -> Result<CategoryView, StoreErrorView> {
        category_of(row)
    }

    fn from_row(row: &[SqlValue]) -> (r: Result<Category, StoreError>) {
        category_from(row)
    }
}

/// The categories that rows hold, in order.
pub open spec fn categories_of(rows: Seq<Seq<SqlView>>) -> Result<
    Seq<CategoryView>,
    StoreErrorView,
> {
    list_of::<Category>(rows)
}

/// Reads rows until one cannot be read.
pub fn categories(rows: &[Vec<SqlValue>]) -> (r: Result<Vec<Category>, StoreError>)
    ensures
        list_outcome(r) == categories_of(row_views(rows@)),
{
    read_rows(rows)
}

impl FromRow for StatementRow {
    open spec fn of_row(row: Seq<SqlView>) -> Result<StatementRowView, StoreErrorView> {
        statement_of(row)
    }

    fn from_row(row: &[SqlValue]) -> (r: Result<StatementRow, StoreError>) {
        statement_from(row)
    }
}

/// The statements that rows hold, in order.
pub open spec fn statements_of(rows: Seq<Seq<SqlView>>) -> Result<
    Seq<StatementRowView>,
    StoreErrorView,
> {
    list_of::<StatementRow>(rows)
}

pub open spec fn statement_views(list: Seq<StatementRow>) -> Seq<StatementRowView> {
    list_views(list)
}

/// Reads rows until one cannot be read.
pub fn statements(rows: &[Vec<SqlValue>]) -> (r: Result<Vec<StatementRow>, StoreError>)
    ensures
        list_outcome(r) == statements_of(row_views(rows@)),
{
    read_rows(rows)
}

impl FromRow for TxnRow {
    open spec fn of_row(row: Seq<SqlView>) -> Result<TxnRowView, StoreErrorView> {
        txn_of(row)
    }

    fn from_row(row: &[SqlValue]) -> (r: Result<TxnRow, StoreError>) {
        txn_from(row)
    }
}

/// The transactions that rows hold, in order.
pub open spec fn txns_of(rows: Seq<Seq<SqlView>>) -> Result<Seq<TxnRowView>, StoreErrorView> {
    list_of::<TxnRow>(rows)
}

/// Reads rows until one cannot be read.
pub fn list_txns(rows: &[Vec<SqlValue>]) -> (r: Result<Vec<TxnRow>, StoreError>)
    ensures
        list_outcome(r) == txns_of(row_views(rows@)),
{
    read_rows(rows)
}

} // verus!
