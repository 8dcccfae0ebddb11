//! The SQL that the store speaks.
//!
//! A [`Sql`] is a statement as a value. It has a text, the parameters that
//! stand for the question marks of the text, and a meaning over the tables,
//! each of them told from its parts alone.

use crate::store::model::Tables;
use crate::store::query::{like, lists, lists_first, sum_over, to_nul};
use crate::store::value::{integer_or_null, text_or_null, SqlView};
use crate::text::text_less;
use vstd::prelude::*;

verus! {

pub ghost enum Table {
    Category,
    Payee,
    Alias,
    Statement,
    Txn,
}

pub ghost enum Col {
    Id,
    Name,
    Kind,
    Color,
    Sort,
    CategoryId,
    CreatedAt,
    MerchantNorm,
    PayeeId,
    SourceSha256,
    PeriodEnd,
    NextPeriodEnd,
    DueDate,
    NextDueDate,
    PreviousBalance,
    Spend,
    Fees,
    Payments,
    PeriodDebt,
    PeriodDebtUsd,
    MinPay,
    CardLimit,
    AvailableLimit,
    ImportedAt,
    StatementId,
    RowIndex,
    Date,
    MerchantRaw,
    Extra,
    Amount,
    Direction,
    Usd,
    Lira,
    CardLast4,
}

/// The table that a column is taken from: the one that the statement is on, or
/// one of those that it joins.
pub ghost enum Side {
    Own,
    T,
    P,
    C,
}

pub ghost enum Val {
    /// A question mark, and what stands for it.
    Param(SqlView),
    Word(Seq<char>),
    Null,
}

pub ghost enum Cond {
    Eq(Side, Col, Val),
    Ne(Side, Col, Val),
    IsNull(Side, Col),
    NotNull(Side, Col),
    Always,
    /// The payee is of a category.
    OfCategory(Val),
    /// The merchant matches a mask.
    Search(Val),
    /// No transaction has the payee.
    Unused,
}

/// Conditions that hold together.
pub ghost enum Conds {
    End,
    And(Cond, Box<Conds>),
}

/// Columns and what they are set to.
pub ghost enum Sets {
    End,
    Put(Col, Val, Box<Sets>),
}

pub ghost enum From {
    One(Table),
    /// The transactions, under a short name.
    Short,
    /// The transactions that have a payee.
    WithPayee,
    /// The transactions that have a payee in a category.
    WithCategory,
    /// All transactions, with their payees and categories where they have any.
    WithAny,
}

pub ghost enum Expr {
    Col(Side, Col),
    /// The first seven characters of a date.
    Month,
    Sum(Side),
    /// The sum of the amounts of one direction.
    SumOf(Side, Seq<char>),
    /// The same, 0 where there is none.
    SumOfOrZero(Side, Seq<char>),
    Count,
    Min(Col),
}

pub ghost enum Exprs {
    End,
    Next(Expr, Box<Exprs>),
}

/// What rows are ordered by, and whether the largest comes first.
pub ghost enum Orders {
    End,
    Next(Expr, bool, Box<Orders>),
}

/// How the key of a group is written.
pub ghost enum By {
    /// By its columns.
    Cols,
    /// By the place of the first column that is asked for.
    First,
    /// As different rows.
    Distinct,
}

pub ghost enum Having {
    Any,
    /// More than one row.
    Many,
    /// More than one payee.
    ManyPayees,
}

pub ghost enum Sql {
    Update { table: Table, sets: Sets, conds: Conds },
    Delete { table: Table, conds: Conds },
    Insert { table: Table, sets: Sets },
    /// Stores an alias, or gives the stored one its payee.
    Upsert { sets: Sets },
    /// Stores the aliases of a payee's merchants that have none.
    Adopt { payee: Val, now: Val, of: Val },
    /// Stores an alias for each labeled merchant.
    Rebuild { now: Val },
    /// Tells whether there is a row.
    Any { table: Table, conds: Conds },
    List { out: Exprs, from: From, conds: Conds, order: Orders, limit: Option<nat> },
    Totals { out: Exprs, from: From, conds: Conds },
    /// The transactions of a statement, and those of a statement with a label.
    TwoCounts { all: Val, labeled: Val },
    Group {
        out: Exprs,
        from: From,
        conds: Conds,
        key: Exprs,
        by: By,
        having: Having,
        order: Orders,
        limit: Option<nat>,
    },
}

pub open spec fn table_name(table: Table) -> Seq<char> {
    match table {
        Table::Category => "category"@,
        Table::Payee => "payee"@,
        Table::Alias => "payee_alias"@,
        Table::Statement => "statement"@,
        Table::Txn => "txn"@,
    }
}

pub open spec fn col_name(col: Col) -> Seq<char> {
    match col {
        Col::Id => "id"@,
        Col::Name => "name"@,
        Col::Kind => "kind"@,
        Col::Color => "color"@,
        Col::Sort => "sort"@,
        Col::CategoryId => "category_id"@,
        Col::CreatedAt => "created_at"@,
        Col::MerchantNorm => "merchant_norm"@,
        Col::PayeeId => "payee_id"@,
        Col::SourceSha256 => "source_sha256"@,
        Col::PeriodEnd => "period_end"@,
        Col::NextPeriodEnd => "next_period_end"@,
        Col::DueDate => "due_date"@,
        Col::NextDueDate => "next_due_date"@,
        Col::PreviousBalance => "previous_balance_minor"@,
        Col::Spend => "spend_minor"@,
        Col::Fees => "fees_minor"@,
        Col::Payments => "payments_minor"@,
        Col::PeriodDebt => "period_debt_minor"@,
        Col::PeriodDebtUsd => "period_debt_usd_minor"@,
        Col::MinPay => "min_pay_minor"@,
        Col::CardLimit => "card_limit_minor"@,
        Col::AvailableLimit => "available_limit_minor"@,
        Col::ImportedAt => "imported_at"@,
        Col::StatementId => "statement_id"@,
        Col::RowIndex => "row_index"@,
        Col::Date => "date"@,
        Col::MerchantRaw => "merchant_raw"@,
        Col::Extra => "extra"@,
        Col::Amount => "amount_minor"@,
        Col::Direction => "direction"@,
        Col::Usd => "usd_minor"@,
        Col::Lira => "bankkart_lira_minor"@,
        Col::CardLast4 => "card_last4"@,
    }
}

pub open spec fn side_text(side: Side) -> Seq<char> {
    match side {
        Side::Own => Seq::empty(),
        Side::T => "t."@,
        Side::P => "p."@,
        Side::C => "c."@,
    }
}

pub open spec fn val_text(val: Val) -> Seq<char> {
    match val {
        Val::Param(_) => "?"@,
        Val::Word(word) => "'"@ + word + "'"@,
        Val::Null => "NULL"@,
    }
}

pub open spec fn val_params(val: Val) -> Seq<SqlView> {
    match val {
        Val::Param(v) => seq![v],
        _ => Seq::empty(),
    }
}

pub open spec fn cond_text(cond: Cond) -> Seq<char> {
    match cond {
        Cond::Eq(side, col, val) => side_text(side) + col_name(col) + " = "@ + val_text(val),
        Cond::Ne(side, col, val) => side_text(side) + col_name(col) + " != "@ + val_text(val),
        Cond::IsNull(side, col) => side_text(side) + col_name(col) + " IS NULL"@,
        Cond::NotNull(side, col) => side_text(side) + col_name(col) + " IS NOT NULL"@,
        Cond::Always => "1 = 1"@,
        Cond::OfCategory(val) => "t.payee_id IN (SELECT id FROM payee WHERE category_id = "@
            + val_text(val) + ")"@,
        Cond::Search(val) => "(t.merchant_raw LIKE "@ + val_text(val)
            + " OR t.merchant_norm LIKE "@ + val_text(val) + ")"@,
        Cond::Unused =>
            "id NOT IN (SELECT DISTINCT payee_id FROM txn WHERE payee_id IS NOT NULL)"@,
    }
}

pub open spec fn cond_params(cond: Cond) -> Seq<SqlView> {
    match cond {
        Cond::Eq(_, _, val) => val_params(val),
        Cond::Ne(_, _, val) => val_params(val),
        Cond::OfCategory(val) => val_params(val),
        Cond::Search(val) => val_params(val) + val_params(val),
        _ => Seq::empty(),
    }
}

/// The conditions, each behind a word: the first behind `word`, the others
/// behind `AND`.
pub open spec fn conds_text(word: Seq<char>, conds: Conds) -> Seq<char>
    decreases conds,
{
    match conds {
        Conds::End => Seq::empty(),
        Conds::And(cond, rest) => word + cond_text(cond) + conds_text(" AND "@, *rest),
    }
}

pub open spec fn conds_params(conds: Conds) -> Seq<SqlView>
    decreases conds,
{
    match conds {
        Conds::End => Seq::empty(),
        Conds::And(cond, rest) => cond_params(cond) + conds_params(*rest),
    }
}

/// The columns that are set, each with its value.
pub open spec fn sets_text(word: Seq<char>, sets: Sets) -> Seq<char>
    decreases sets,
{
    match sets {
        Sets::End => Seq::empty(),
        Sets::Put(col, val, rest) => word + col_name(col) + " = "@ + val_text(val) + sets_text(
            ", "@,
            *rest,
        ),
    }
}

/// The columns alone.
pub open spec fn set_cols_text(word: Seq<char>, sets: Sets) -> Seq<char>
    decreases sets,
{
    match sets {
        Sets::End => Seq::empty(),
        Sets::Put(col, val, rest) => word + col_name(col) + set_cols_text(", "@, *rest),
    }
}

/// The values alone.
pub open spec fn set_vals_text(word: Seq<char>, sets: Sets) -> Seq<char>
    decreases sets,
{
    match sets {
        Sets::End => Seq::empty(),
        Sets::Put(col, val, rest) => word + val_text(val) + set_vals_text(", "@, *rest),
    }
}

pub open spec fn sets_params(sets: Sets) -> Seq<SqlView>
    decreases sets,
{
    match sets {
        Sets::End => Seq::empty(),
        Sets::Put(col, val, rest) => val_params(val) + sets_params(*rest),
    }
}

pub open spec fn from_text(from: From) -> Seq<char> {
    match from {
        From::One(table) => table_name(table),
        From::Short => "txn t"@,
        From::WithPayee => "txn t JOIN payee p ON t.payee_id = p.id"@,
        From::WithCategory =>
            "txn t JOIN payee p ON t.payee_id = p.id JOIN category c ON p.category_id = c.id"@,
        From::WithAny =>
            "txn t LEFT JOIN payee p ON t.payee_id = p.id LEFT JOIN category c ON p.category_id = c.id"@,
    }
}

pub open spec fn expr_text(expr: Expr) -> Seq<char> {
    match expr {
        Expr::Col(side, col) => side_text(side) + col_name(col),
        Expr::Month => "substr(date, 1, 7)"@,
        Expr::Sum(side) => "SUM("@ + side_text(side) + "amount_minor)"@,
        Expr::SumOf(side, direction) => "SUM(CASE WHEN "@ + side_text(side) + "direction = '"@
            + direction + "' THEN amount_minor ELSE 0 END)"@,
        Expr::SumOfOrZero(side, direction) => "COALESCE(SUM(CASE WHEN "@ + side_text(side)
            + "direction = '"@ + direction + "' THEN amount_minor ELSE 0 END), 0)"@,
        Expr::Count => "COUNT(*)"@,
        Expr::Min(col) => "MIN("@ + col_name(col) + ")"@,
    }
}

pub open spec fn exprs_text(word: Seq<char>, exprs: Exprs) -> Seq<char>
    decreases exprs,
{
    match exprs {
        Exprs::End => Seq::empty(),
        Exprs::Next(expr, rest) => word + expr_text(expr) + exprs_text(", "@, *rest),
    }
}

pub open spec fn orders_text(word: Seq<char>, orders: Orders) -> Seq<char>
    decreases orders,
{
    match orders {
        Orders::End => Seq::empty(),
        Orders::Next(expr, largest_first, rest) => word + expr_text(expr) + (if largest_first {
            " DESC"@
        } else {
            Seq::empty()
        }) + orders_text(", "@, *rest),
    }
}

/// The rows that a group has to have.
pub open spec fn having_text(having: Having) -> Seq<char> {
    match having {
        Having::Any => Seq::empty(),
        Having::Many => " HAVING COUNT(*) > 1"@,
        Having::ManyPayees => " HAVING COUNT(DISTINCT payee_id) > 1"@,
    }
}

/// How many rows there are at most.
pub open spec fn limit_text(limit: Option<nat>) -> Seq<char> {
    match limit {
        None => Seq::empty(),
        Some(n) => if n == 1 {
            " LIMIT 1"@
        } else {
            " LIMIT 8"@
        },
    }
}

/// The text of a statement.
pub open spec fn sql_text(sql: Sql) -> Seq<char> {
    match sql {
        Sql::Update { table, sets, conds } => "UPDATE "@ + table_name(table) + sets_text(
            " SET "@,
            sets,
        ) + conds_text(" WHERE "@, conds),
        Sql::Delete { table, conds } => "DELETE FROM "@ + table_name(table) + conds_text(
            " WHERE "@,
            conds,
        ),
        Sql::Insert { table, sets } => "INSERT INTO "@ + table_name(table) + set_cols_text(
            " ("@,
            sets,
        ) + set_vals_text(") VALUES ("@, sets) + ")"@,
        Sql::Upsert { sets } => "INSERT INTO payee_alias"@ + set_cols_text(" ("@, sets)
            + set_vals_text(") VALUES ("@, sets)
            + ") ON CONFLICT(merchant_norm) DO UPDATE SET payee_id = excluded.payee_id"@,
        Sql::Adopt { payee, now, of } =>
            "INSERT OR IGNORE INTO payee_alias (merchant_norm, payee_id, created_at) SELECT DISTINCT merchant_norm, "@
            + val_text(payee) + ", "@ + val_text(now) + " FROM txn WHERE payee_id = "@ + val_text(
            of,
        ),
        Sql::Rebuild { now } =>
            "INSERT INTO payee_alias (merchant_norm, payee_id, created_at) SELECT merchant_norm, MIN(payee_id), "@
            + val_text(now)
            + " FROM txn WHERE payee_id IS NOT NULL GROUP BY merchant_norm"@,
        Sql::Any { table, conds } => "SELECT 1 FROM "@ + table_name(table) + conds_text(
            " WHERE "@,
            conds,
        ),
        Sql::List { out, from, conds, order, limit } => exprs_text("SELECT "@, out) + " FROM "@
            + from_text(from) + conds_text(" WHERE "@, conds) + orders_text(" ORDER BY "@, order)
            + limit_text(limit),
        Sql::Totals { out, from, conds } => exprs_text("SELECT "@, out) + " FROM "@ + from_text(
            from,
        ) + conds_text(" WHERE "@, conds),
        Sql::TwoCounts { .. } =>
            "SELECT COUNT(*), (SELECT COUNT(*) FROM txn WHERE statement_id = ?2 AND payee_id IS NOT NULL) FROM txn WHERE statement_id = ?1"@,
        Sql::Group { out, from, conds, key, by, having, order, limit } => exprs_text(
            if by is Distinct {
                "SELECT DISTINCT "@
            } else {
                "SELECT "@
            },
            out,
        ) + " FROM "@ + from_text(from) + conds_text(" WHERE "@, conds) + (match by {
            By::Cols => exprs_text(" GROUP BY "@, key),
            By::First => " GROUP BY 1"@,
            By::Distinct => Seq::empty(),
        }) + having_text(having) + (if by is First {
            " ORDER BY 1"@
        } else {
            orders_text(" ORDER BY "@, order)
        }) + limit_text(limit),
    }
}

/// What stands for the question marks of a statement's text, in their order.
pub open spec fn sql_params(sql: Sql) -> Seq<SqlView> {
    match sql {
        Sql::Update { table, sets, conds } => sets_params(sets) + conds_params(conds),
        Sql::Delete { table, conds } => conds_params(conds),
        Sql::Insert { table, sets } => sets_params(sets),
        Sql::Upsert { sets } => sets_params(sets),
        Sql::Adopt { payee, now, of } => val_params(payee) + val_params(now) + val_params(of),
        Sql::Rebuild { now } => val_params(now),
        Sql::Any { table, conds } => conds_params(conds),
        Sql::List { conds, .. } => conds_params(conds),
        Sql::Totals { conds, .. } => conds_params(conds),
        Sql::TwoCounts { all, labeled } => val_params(all) + val_params(labeled),
        Sql::Group { conds, .. } => conds_params(conds),
    }
}

/// The keys of a table's rows.
pub open spec fn keys(t: Tables, table: Table) -> Set<Seq<char>> {
    match table {
        Table::Category => t.categories.dom(),
        Table::Payee => t.payees.dom(),
        Table::Alias => t.aliases.dom(),
        Table::Statement => t.statements.dom(),
        Table::Txn => t.txns.dom(),
    }
}

/// What a column of a row holds.
pub open spec fn cell(t: Tables, table: Table, k: Seq<char>, col: Col) -> SqlView {
    match (table, col) {
        (Table::Category, Col::Id) => SqlView::Text(k),
        (Table::Category, Col::Name) => SqlView::Text(t.categories[k].name),
        (Table::Category, Col::Kind) => SqlView::Text(t.categories[k].kind),
        (Table::Category, Col::Color) => SqlView::Text(t.categories[k].color),
        (Table::Category, Col::Sort) => SqlView::Integer(t.categories[k].sort),
        (Table::Payee, Col::Id) => SqlView::Text(k),
        (Table::Payee, Col::Name) => SqlView::Text(t.payees[k].name),
        (Table::Payee, Col::CategoryId) => SqlView::Text(t.payees[k].category_id),
        (Table::Payee, Col::CreatedAt) => SqlView::Text(t.payees[k].created_at),
        (Table::Alias, Col::MerchantNorm) => SqlView::Text(k),
        (Table::Alias, Col::PayeeId) => SqlView::Text(t.aliases[k].payee_id),
        (Table::Alias, Col::CreatedAt) => SqlView::Text(t.aliases[k].created_at),
        (Table::Statement, Col::Id) => SqlView::Text(k),
        (Table::Statement, Col::SourceSha256) => SqlView::Text(
            t.statements[k].head.source_sha256,
        ),
        (Table::Statement, Col::PeriodEnd) => SqlView::Text(t.statements[k].head.period_end),
        (Table::Statement, Col::NextPeriodEnd) => text_or_null(
            t.statements[k].head.next_period_end,
        ),
        (Table::Statement, Col::DueDate) => text_or_null(t.statements[k].head.due_date),
        (Table::Statement, Col::NextDueDate) => text_or_null(t.statements[k].head.next_due_date),
        (Table::Statement, Col::PreviousBalance) => SqlView::Integer(
            t.statements[k].head.previous_balance_minor,
        ),
        (Table::Statement, Col::Spend) => SqlView::Integer(t.statements[k].head.spend_minor),
        (Table::Statement, Col::Fees) => SqlView::Integer(t.statements[k].head.fees_minor),
        (Table::Statement, Col::Payments) => SqlView::Integer(
            t.statements[k].head.payments_minor,
        ),
        (Table::Statement, Col::PeriodDebt) => SqlView::Integer(
            t.statements[k].head.period_debt_minor,
        ),
        (Table::Statement, Col::PeriodDebtUsd) => SqlView::Integer(
            t.statements[k].head.period_debt_usd_minor,
        ),
        (Table::Statement, Col::MinPay) => SqlView::Integer(t.statements[k].head.min_pay_minor),
        (Table::Statement, Col::CardLimit) => integer_or_null(
            t.statements[k].head.card_limit_minor,
        ),
        (Table::Statement, Col::AvailableLimit) => integer_or_null(
            t.statements[k].head.available_limit_minor,
        ),
        (Table::Statement, Col::ImportedAt) => SqlView::Text(t.statements[k].imported_at),
        (Table::Txn, Col::Id) => SqlView::Text(k),
        (Table::Txn, Col::StatementId) => SqlView::Text(t.txns[k].statement_id),
        (Table::Txn, Col::RowIndex) => SqlView::Integer(t.txns[k].txn.row_index),
        (Table::Txn, Col::Date) => SqlView::Text(t.txns[k].txn.date),
        (Table::Txn, Col::MerchantRaw) => SqlView::Text(t.txns[k].txn.merchant_raw),
        (Table::Txn, Col::MerchantNorm) => SqlView::Text(t.txns[k].txn.merchant_norm),
        (Table::Txn, Col::Extra) => SqlView::Text(t.txns[k].txn.extra),
        (Table::Txn, Col::Amount) => SqlView::Integer(t.txns[k].txn.amount_minor),
        (Table::Txn, Col::Direction) => SqlView::Text(t.txns[k].txn.direction.text()),
        (Table::Txn, Col::Usd) => integer_or_null(t.txns[k].txn.usd_minor),
        (Table::Txn, Col::Lira) => SqlView::Integer(t.txns[k].txn.bankkart_lira_minor),
        (Table::Txn, Col::CardLast4) => SqlView::Text(t.txns[k].txn.card_last4),
        (Table::Txn, Col::Kind) => SqlView::Text(t.txns[k].txn.kind.text()),
        (Table::Txn, Col::PayeeId) => text_or_null(t.txns[k].payee_id),
        _ => SqlView::Null,
    }
}

pub open spec fn val_value(val: Val) -> SqlView {
    match val {
        Val::Param(v) => v,
        Val::Word(word) => SqlView::Text(word),
        Val::Null => SqlView::Null,
    }
}

/// The table that a source takes a row from.
pub open spec fn base(from: From) -> Table {
    match from {
        From::One(table) => table,
        _ => Table::Txn,
    }
}

/// The row of a table whose id a column names, where there is one.
pub open spec fn row_named(t: Tables, table: Table, id: SqlView) -> Option<Seq<char>> {
    match id {
        SqlView::Text(k) => if keys(t, table).contains(k) {
            Some(k)
        } else {
            None
        },
        _ => None,
    }
}

/// The payee's row that is joined to a transaction's.
pub open spec fn payee_row_of(t: Tables, k: Seq<char>) -> Option<Seq<char>> {
    row_named(t, Table::Payee, cell(t, Table::Txn, k, Col::PayeeId))
}

/// The category's row that is joined to those.
pub open spec fn category_row_of(t: Tables, k: Seq<char>) -> Option<Seq<char>> {
    match payee_row_of(t, k) {
        Some(p) => row_named(t, Table::Category, cell(t, Table::Payee, p, Col::CategoryId)),
        None => None,
    }
}

/// What a column holds in a joined row.
pub open spec fn cell_in(t: Tables, from: From, k: Seq<char>, side: Side, col: Col) -> SqlView {
    match side {
        Side::Own => cell(t, base(from), k, col),
        Side::T => cell(t, base(from), k, col),
        Side::P => match payee_row_of(t, k) {
            Some(p) => cell(t, Table::Payee, p, col),
            None => SqlView::Null,
        },
        Side::C => match category_row_of(t, k) {
            Some(c) => cell(t, Table::Category, c, col),
            None => SqlView::Null,
        },
    }
}

/// A row of a source.
pub open spec fn is_row(t: Tables, from: From, k: Seq<char>) -> bool {
    keys(t, base(from)).contains(k) && match from {
        From::WithPayee => payee_row_of(t, k) is Some,
        From::WithCategory => category_row_of(t, k) is Some,
        _ => true,
    }
}

/// A text matches a mask.
pub open spec fn is_like(v: SqlView, mask: SqlView) -> bool {
    match (v, mask) {
        (SqlView::Text(s), SqlView::Text(m)) => like(to_nul(s), to_nul(m)),
        _ => false,
    }
}

/// A condition holds of a row. Nothing equals or differs from what is not
/// there.
pub open spec fn holds(t: Tables, from: From, k: Seq<char>, cond: Cond) -> bool {
    match cond {
        Cond::Eq(side, col, val) => !(cell_in(t, from, k, side, col) is Null) && cell_in(
            t,
            from,
            k,
            side,
            col,
        ) == val_value(val),
        Cond::Ne(side, col, val) => !(cell_in(t, from, k, side, col) is Null) && !(val_value(val)
            is Null) && cell_in(t, from, k, side, col) != val_value(val),
        Cond::IsNull(side, col) => cell_in(t, from, k, side, col) is Null,
        Cond::NotNull(side, col) => !(cell_in(t, from, k, side, col) is Null),
        Cond::Always => true,
        Cond::OfCategory(val) => exists|p: Seq<char>| #[trigger]
            keys(t, Table::Payee).contains(p) && cell(t, Table::Payee, p, Col::CategoryId)
                == val_value(val) && cell_in(t, from, k, Side::T, Col::PayeeId) == SqlView::Text(p),
        Cond::Search(val) => is_like(cell_in(t, from, k, Side::T, Col::MerchantRaw), val_value(val))
            || is_like(cell_in(t, from, k, Side::T, Col::MerchantNorm), val_value(val)),
        Cond::Unused => !exists|x: Seq<char>| #[trigger]
            keys(t, Table::Txn).contains(x) && cell(t, Table::Txn, x, Col::PayeeId) == cell_in(
                t,
                from,
                k,
                Side::Own,
                Col::Id,
            ),
    }
}

pub open spec fn all_hold(t: Tables, from: From, k: Seq<char>, conds: Conds) -> bool
    decreases conds,
{
    match conds {
        Conds::End => true,
        Conds::And(cond, rest) => holds(t, from, k, cond) && all_hold(t, from, k, *rest),
    }
}

/// A row that a statement is about.
pub open spec fn is_hit(t: Tables, from: From, conds: Conds, k: Seq<char>) -> bool {
    is_row(t, from, k) && all_hold(t, from, k, conds)
}

/// What a column is set to; one that is not set stays.
pub open spec fn set_to(sets: Sets, col: Col, old: SqlView) -> SqlView
    decreases sets,
{
    match sets {
        Sets::End => old,
        Sets::Put(c, val, rest) => if c == col {
            val_value(val)
        } else {
            set_to(*rest, col, old)
        },
    }
}

/// The other tables stay.
pub open spec fn others_stay(t: Tables, after: Tables, table: Table) -> bool {
    &&& table is Category || after.categories == t.categories
    &&& table is Payee || after.payees == t.payees
    &&& table is Alias || after.aliases == t.aliases
    &&& table is Statement || after.statements == t.statements
    &&& table is Txn || after.txns == t.txns
}

/// The number of rows that a statement is about.
pub open spec fn hit_count(t: Tables, table: Table, conds: Conds) -> nat {
    keys(t, table).filter(|k: Seq<char>| all_hold(t, From::One(table), k, conds)).len()
}

/// The key of a table's rows.
pub open spec fn key_col(table: Table) -> Col {
    match table {
        Table::Alias => Col::MerchantNorm,
        _ => Col::Id,
    }
}

/// An order of values.
pub open spec fn is_less(a: SqlView, b: SqlView) -> bool {
    match (a, b) {
        (SqlView::Integer(x), SqlView::Integer(y)) => x < y,
        (SqlView::Text(x), SqlView::Text(y)) => text_less(x, y),
        _ => false,
    }
}

/// What an expression is of one row.
pub open spec fn row_value(t: Tables, from: From, k: Seq<char>, expr: Expr) -> SqlView {
    match expr {
        Expr::Col(side, col) => cell_in(t, from, k, side, col),
        Expr::Month => match cell_in(t, from, k, Side::Own, Col::Date) {
            SqlView::Text(s) => SqlView::Text(
                if s.len() > 7 {
                    s.take(7)
                } else {
                    s
                },
            ),
            other => other,
        },
        _ => SqlView::Null,
    }
}

pub open spec fn row_values(t: Tables, from: From, k: Seq<char>, exprs: Exprs) -> Seq<SqlView>
    decreases exprs,
{
    match exprs {
        Exprs::End => Seq::empty(),
        Exprs::Next(expr, rest) => seq![row_value(t, from, k, expr)] + row_values(
            t,
            from,
            k,
            *rest,
        ),
    }
}

/// One row may come before another.
pub open spec fn row_upto(t: Tables, from: From, orders: Orders, a: Seq<char>, b: Seq<char>) -> bool
    decreases orders,
{
    match orders {
        Orders::End => true,
        Orders::Next(expr, largest_first, rest) => {
            let x = row_value(t, from, a, expr);
            let y = row_value(t, from, b, expr);
            if largest_first {
                is_less(y, x) || (x == y && row_upto(t, from, *rest, a, b))
            } else {
                is_less(x, y) || (x == y && row_upto(t, from, *rest, a, b))
            }
        },
    }
}

/// The rows of a list, so many at most.
pub open spec fn lists_rows<K>(
    rows: Seq<Seq<SqlView>>,
    limit: Option<nat>,
    which: spec_fn(K) -> bool,
    item: spec_fn(K) -> Seq<SqlView>,
    upto: spec_fn(K, K) -> bool,
) -> bool {
    match limit {
        None => lists(rows, which, item, upto),
        Some(n) => lists_first(rows, n, which, item, upto),
    }
}

/// The rows of a group.
pub open spec fn group_rows(
    t: Tables,
    from: From,
    conds: Conds,
    key: Exprs,
    g: Seq<SqlView>,
) -> Set<Seq<char>> {
    keys(t, base(from)).filter(
        |k: Seq<char>| is_hit(t, from, conds, k) && row_values(t, from, k, key) == g,
    )
}

/// What the amounts of transactions come to.
pub open spec fn amounts(t: Tables, ids: Set<Seq<char>>) -> int {
    sum_over(t.txns, ids.to_seq())
}

/// The rows of one direction.
pub open spec fn of_direction(
    t: Tables,
    ids: Set<Seq<char>>,
    direction: Seq<char>,
) -> Set<Seq<char>> {
    ids.filter(
        |k: Seq<char>| cell(t, Table::Txn, k, Col::Direction) == SqlView::Text(direction),
    )
}

/// The least value of a column.
pub open spec fn is_least(t: Tables, from: From, ids: Set<Seq<char>>, col: Col, v: SqlView) -> bool {
    &&& exists|k: Seq<char>| #[trigger]
        ids.contains(k) && cell_in(t, from, k, Side::Own, col) == v
    &&& forall|k: Seq<char>| #[trigger]
        ids.contains(k) ==> !is_less(cell_in(t, from, k, Side::Own, col), v)
}

/// A value is that of an expression over rows.
pub open spec fn is_value(t: Tables, from: From, ids: Set<Seq<char>>, expr: Expr, v: SqlView) -> bool {
    match expr {
        Expr::Sum(_) => v matches SqlView::Integer(n) && n == amounts(t, ids),
        Expr::SumOf(_, direction) => v matches SqlView::Integer(n) && n == amounts(
            t,
            of_direction(t, ids, direction),
        ),
        Expr::SumOfOrZero(_, direction) => v matches SqlView::Integer(n) && n == amounts(
            t,
            of_direction(t, ids, direction),
        ),
        Expr::Count => v matches SqlView::Integer(n) && n == ids.len(),
        Expr::Min(col) => is_least(t, from, ids, col, v),
        _ => exists|k: Seq<char>| #[trigger]
            ids.contains(k) && row_value(t, from, k, expr) == v,
    }
}

/// The values of a row are those of expressions over rows.
pub open spec fn are_values(
    t: Tables,
    from: From,
    ids: Set<Seq<char>>,
    exprs: Exprs,
    row: Seq<SqlView>,
) -> bool
    decreases exprs,
{
    match exprs {
        Exprs::End => row.len() == 0,
        Exprs::Next(expr, rest) => row.len() > 0 && is_value(t, from, ids, expr, row[0])
            && are_values(t, from, ids, *rest, row.skip(1)),
    }
}

/// A group has the rows that it has to have.
pub open spec fn has_enough(t: Tables, from: From, ids: Set<Seq<char>>, having: Having) -> bool {
    match having {
        Having::Any => true,
        Having::Many => exists|a: Seq<char>, b: Seq<char>|
            a != b && #[trigger] ids.contains(a) && #[trigger] ids.contains(b),
        Having::ManyPayees => exists|a: Seq<char>, b: Seq<char>|
            cell_in(t, from, a, Side::Own, Col::PayeeId) != cell_in(
                t,
                from,
                b,
                Side::Own,
                Col::PayeeId,
            ) && #[trigger] ids.contains(a) && #[trigger] ids.contains(b),
    }
}

/// A group that a statement tells.
pub open spec fn is_group(
    t: Tables,
    from: From,
    conds: Conds,
    key: Exprs,
    having: Having,
    g: Seq<SqlView>,
) -> bool {
    let ids = group_rows(t, from, conds, key, g);
    (exists|k: Seq<char>| #[trigger] ids.contains(k)) && has_enough(t, from, ids, having)
}

/// One group may come before another.
pub open spec fn group_upto(
    t: Tables,
    from: From,
    orders: Orders,
    a: Set<Seq<char>>,
    b: Set<Seq<char>>,
) -> bool
    decreases orders,
{
    match orders {
        Orders::End => true,
        Orders::Next(expr, largest_first, rest) => forall|x: SqlView, y: SqlView|
            #![trigger is_value(t, from, a, expr, x), is_value(t, from, b, expr, y)]
            is_value(t, from, a, expr, x) && is_value(t, from, b, expr, y) ==> if largest_first {
                is_less(y, x) || (x == y && group_upto(t, from, *rest, a, b))
            } else {
                is_less(x, y) || (x == y && group_upto(t, from, *rest, a, b))
            },
    }
}

/// The rows tell the groups, each once, in their order.
pub open spec fn tells_groups(
    t: Tables,
    rows: Seq<Seq<SqlView>>,
    out: Exprs,
    from: From,
    conds: Conds,
    key: Exprs,
    having: Having,
    order: Orders,
    limit: Option<nat>,
    groups: Seq<Seq<SqlView>>,
) -> bool {
    &&& groups.no_duplicates()
    &&& forall|g: Seq<SqlView>|
        #![trigger is_group(t, from, conds, key, having, g)]
        #![trigger groups.contains(g)]
        is_group(t, from, conds, key, having, g) <==> groups.contains(g)
    &&& rows.len() == match limit {
        Some(n) => if groups.len() <= n {
            groups.len()
        } else {
            n
        },
        None => groups.len(),
    }
    &&& forall|i: int|
        0 <= i < rows.len() ==> are_values(
            t,
            from,
            group_rows(t, from, conds, key, groups[i]),
            out,
            #[trigger] rows[i],
        )
    &&& forall|i: int, j: int|
        0 <= i < j < groups.len() ==> group_upto(
            t,
            from,
            order,
            group_rows(t, from, conds, key, #[trigger] groups[i]),
            group_rows(t, from, conds, key, #[trigger] groups[j]),
        )
}

/// What a statement that succeeds does to the tables, and the rows that it
/// has, all of them.
pub open spec fn sql_does(
    t: Tables,
    sql: Sql,
    rows: Seq<Seq<SqlView>>,
    changed: u64,
    after: Tables,
) -> bool {
    match sql {
        Sql::Update { table, sets, conds } => {
            &&& others_stay(t, after, table)
            &&& keys(after, table) == keys(t, table)
            &&& forall|k: Seq<char>, col: Col|
                keys(t, table).contains(k) ==> #[trigger] cell(after, table, k, col) == if all_hold(
                    t,
                    From::One(table),
                    k,
                    conds,
                ) {
                    set_to(sets, col, cell(t, table, k, col))
                } else {
                    cell(t, table, k, col)
                }
            &&& changed == hit_count(t, table, conds)
        },
        Sql::Delete { table, conds } => {
            &&& others_stay(t, after, table)
            &&& forall|k: Seq<char>|
                #![trigger keys(after, table).contains(k)]
                #![trigger keys(t, table).contains(k)]
                keys(after, table).contains(k) <==> keys(t, table).contains(k) && !all_hold(
                    t,
                    From::One(table),
                    k,
                    conds,
                )
            &&& forall|k: Seq<char>, col: Col|
                keys(after, table).contains(k) ==> #[trigger] cell(after, table, k, col) == cell(
                    t,
                    table,
                    k,
                    col,
                )
            &&& changed == hit_count(t, table, conds)
        },
        Sql::Insert { table, sets } => adds_row(t, table, sets, after),
        Sql::Upsert { sets } => match set_to(sets, Col::MerchantNorm, SqlView::Null) {
            SqlView::Text(k) => if keys(t, Table::Alias).contains(k) {
                &&& others_stay(t, after, Table::Alias)
                &&& keys(after, Table::Alias) == keys(t, Table::Alias)
                &&& forall|x: Seq<char>, col: Col|
                    keys(t, Table::Alias).contains(x) ==> #[trigger] cell(
                        after,
                        Table::Alias,
                        x,
                        col,
                    ) == if x == k && col is PayeeId {
                        set_to(sets, Col::PayeeId, SqlView::Null)
                    } else {
                        cell(t, Table::Alias, x, col)
                    }
            } else {
                adds_row(t, Table::Alias, sets, after)
            },
            _ => false,
        },
        Sql::Adopt { payee, now, of } => {
            &&& others_stay(t, after, Table::Alias)
            &&& forall|norm: Seq<char>|
                #![trigger keys(after, Table::Alias).contains(norm)]
                keys(after, Table::Alias).contains(norm) <==> keys(t, Table::Alias).contains(norm)
                    || has_norm(t, norm, val_value(of))
            &&& forall|norm: Seq<char>, col: Col|
                keys(after, Table::Alias).contains(norm) ==> #[trigger] cell(
                    after,
                    Table::Alias,
                    norm,
                    col,
                ) == if keys(t, Table::Alias).contains(norm) || col is MerchantNorm {
                    cell(t, Table::Alias, norm, col)
                } else if col is PayeeId {
                    val_value(payee)
                } else if col is CreatedAt {
                    val_value(now)
                } else {
                    SqlView::Null
                }
        },
        Sql::Rebuild { now } => {
            &&& others_stay(t, after, Table::Alias)
            &&& forall|norm: Seq<char>, p: Seq<char>|
                keys(t, Table::Alias).contains(norm) ==> !#[trigger] has_norm(
                    t,
                    norm,
                    SqlView::Text(p),
                )
            &&& forall|norm: Seq<char>|
                #![trigger keys(after, Table::Alias).contains(norm)]
                keys(after, Table::Alias).contains(norm) <==> keys(t, Table::Alias).contains(norm)
                    || exists|p: Seq<char>| #[trigger] has_norm(t, norm, SqlView::Text(p))
            &&& forall|norm: Seq<char>, col: Col|
                keys(t, Table::Alias).contains(norm) ==> #[trigger] cell(
                    after,
                    Table::Alias,
                    norm,
                    col,
                ) == cell(t, Table::Alias, norm, col)
            &&& forall|norm: Seq<char>|
                #![trigger keys(after, Table::Alias).contains(norm)]
                keys(after, Table::Alias).contains(norm) && !keys(t, Table::Alias).contains(norm)
                    ==> cell(after, Table::Alias, norm, Col::CreatedAt) == val_value(now)
                    && is_first_payee(t, norm, cell(after, Table::Alias, norm, Col::PayeeId))
        },
        Sql::Any { table, conds } => after == t && (rows.len() > 0 <==> exists|k: Seq<char>|
            #[trigger]
            is_hit(t, From::One(table), conds, k)),
        Sql::List { out, from, conds, order, limit } => after == t && lists_rows(
            rows,
            limit,
            |k: Seq<char>| is_hit(t, from, conds, k),
            |k: Seq<char>| row_values(t, from, k, out),
            |a: Seq<char>, b: Seq<char>| row_upto(t, from, order, a, b),
        ),
        Sql::Totals { out, from, conds } => after == t && rows.len() == 1 && are_values(
            t,
            from,
            keys(t, base(from)).filter(|k: Seq<char>| is_hit(t, from, conds, k)),
            out,
            rows[0],
        ),
        Sql::TwoCounts { all, labeled } => {
            &&& after == t
            &&& rows.len() == 1
            &&& rows[0].len() == 2
            &&& rows[0][0] matches SqlView::Integer(n)
            &&& rows[0][1] matches SqlView::Integer(m)
            &&& n == keys(t, Table::Txn).filter(
                |k: Seq<char>| cell(t, Table::Txn, k, Col::StatementId) == val_value(all),
            ).len()
            &&& m == keys(t, Table::Txn).filter(
                |k: Seq<char>|
                    cell(t, Table::Txn, k, Col::StatementId) == val_value(labeled) && !(cell(
                        t,
                        Table::Txn,
                        k,
                        Col::PayeeId,
                    ) is Null),
            ).len()
        },
        Sql::Group { out, from, conds, key, by, having, order, limit } => after == t && exists|
            groups: Seq<Seq<SqlView>>,
        | #[trigger]
            tells_groups(t, rows, out, from, conds, key, having, order, limit, groups),
    }
}

/// A row is added whose columns are set as given.
pub open spec fn adds_row(t: Tables, table: Table, sets: Sets, after: Tables) -> bool {
    set_to(sets, key_col(table), SqlView::Null) matches SqlView::Text(k) && {
        &&& others_stay(t, after, table)
        &&& !keys(t, table).contains(k)
        &&& table is Statement ==> forall|x: Seq<char>| #[trigger]
            keys(t, table).contains(x) ==> cell(t, table, x, Col::SourceSha256) != set_to(
                sets,
                Col::SourceSha256,
                SqlView::Null,
            )
        &&& keys(after, table) == keys(t, table).insert(k)
        &&& forall|x: Seq<char>, col: Col|
            keys(t, table).contains(x) ==> #[trigger] cell(after, table, x, col) == cell(
                t,
                table,
                x,
                col,
            )
        &&& forall|col: Col| #[trigger] cell(after, table, k, col) == set_to(sets, col, SqlView::Null)
    }
}

/// A transaction of a merchant has this payee.
pub open spec fn has_norm(t: Tables, norm: Seq<char>, payee: SqlView) -> bool {
    exists|x: Seq<char>| #[trigger]
        keys(t, Table::Txn).contains(x) && cell(t, Table::Txn, x, Col::MerchantNorm)
            == SqlView::Text(norm) && cell(t, Table::Txn, x, Col::PayeeId) == payee
}

/// The least payee of a merchant's transactions.
pub open spec fn is_first_payee(t: Tables, norm: Seq<char>, payee: SqlView) -> bool {
    &&& payee is Text
    &&& has_norm(t, norm, payee)
    &&& forall|other: SqlView| #[trigger]
        has_norm(t, norm, other) && other is Text ==> !is_less(other, payee)
}

} // verus!
