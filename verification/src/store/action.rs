//! The statements that the store puts to its database.
//!
//! An [`Action`] is one SQL statement with what goes into it. Its text and its
//! parameters are plain values; whoever holds the connection runs it and hands
//! back a `Reply`.

use crate::parse::{opt_text, ParsedTxn, ParsedTxnView, StatementHead, StatementHeadView};
use crate::store::filter::{push_filter_params, scope, scope_params, where_params, where_text,
    TxnFilter, TxnFilterView};
use crate::store::migrations::{declared_schema, schema_sql};
use crate::store::value::{int_val, integer_or_null, opt_int, text_or_null, text_val, value_views,
    SqlValue, SqlView};
use crate::text::copy;
use vstd::prelude::*;
use vstd::string::StringExecFns;

verus! {

pub const FOREIGN_KEYS_ON: &'static str = "PRAGMA foreign_keys = ON";

pub const BUSY_TIMEOUT: &'static str = "PRAGMA busy_timeout = 5000";

pub const COUNT_TABLES: &'static str =
    "SELECT COUNT(*) FROM sqlite_master \
     WHERE type = 'table' AND name NOT LIKE 'sqlite_%'";

pub const BEGIN: &'static str = "BEGIN IMMEDIATE";

pub const COMMIT: &'static str = "COMMIT";

pub const ROLLBACK: &'static str = "ROLLBACK";

pub const READ_SCHEMA: &'static str =
    "SELECT type, name, sql FROM sqlite_master \
     WHERE name NOT LIKE 'sqlite_%' \
     ORDER BY type, name";

pub const RAW_MERCHANTS: &'static str = "SELECT DISTINCT merchant_raw FROM txn";

pub const SET_NORM: &'static str = "UPDATE txn SET merchant_norm = ? WHERE merchant_raw = ?";

pub const SHARED_NORMS: &'static str =
    "SELECT merchant_norm, MIN(payee_id) FROM txn \
     WHERE payee_id IS NOT NULL GROUP BY merchant_norm \
     HAVING COUNT(DISTINCT payee_id) > 1";

pub const UNIFY_NORM: &'static str =
    "UPDATE txn SET payee_id = ? WHERE merchant_norm = ? AND payee_id IS NOT NULL";

pub const CLEAR_ALIASES: &'static str = "DELETE FROM payee_alias";

pub const REBUILD_ALIASES: &'static str =
    "INSERT INTO payee_alias (merchant_norm, payee_id, created_at) \
     SELECT merchant_norm, MIN(payee_id), ? FROM txn \
     WHERE payee_id IS NOT NULL GROUP BY merchant_norm";

pub const SHARED_NAMES: &'static str =
    "SELECT name, MIN(id) FROM payee GROUP BY name HAVING COUNT(*) > 1";

pub const OTHERS_NAMED: &'static str = "SELECT id FROM payee WHERE name = ? AND id != ?";

pub const MOVE_TXNS: &'static str = "UPDATE txn SET payee_id = ? WHERE payee_id = ?";

pub const ADOPT_ALIASES: &'static str =
    "INSERT OR IGNORE INTO payee_alias (merchant_norm, payee_id, created_at) \
     SELECT DISTINCT merchant_norm, ?, ? FROM txn WHERE payee_id = ?";

pub const DROP_UNUSED_PAYEES: &'static str =
    "DELETE FROM payee WHERE id NOT IN \
     (SELECT DISTINCT payee_id FROM txn WHERE payee_id IS NOT NULL)";

pub const FIND_STATEMENT: &'static str = "SELECT id FROM statement WHERE source_sha256 = ?";

pub const INSERT_STATEMENT: &'static str =
    "INSERT INTO statement (id, source_sha256, period_end, next_period_end, due_date, \
     next_due_date, previous_balance_minor, spend_minor, \
     fees_minor, payments_minor, period_debt_minor, \
     period_debt_usd_minor, min_pay_minor, card_limit_minor, \
     available_limit_minor, imported_at) \
     VALUES (?, ?, ?, ?, ?, ?, ?, ?, ?, ?, ?, ?, ?, ?, ?, ?)";

pub const ALIAS_OF: &'static str = "SELECT payee_id FROM payee_alias WHERE merchant_norm = ?";

pub const INSERT_TXN: &'static str =
    "INSERT INTO txn (id, statement_id, row_index, date, merchant_raw, merchant_norm, \
     extra, amount_minor, direction, usd_minor, bankkart_lira_minor, \
     card_last4, kind, payee_id) \
     VALUES (?, ?, ?, ?, ?, ?, ?, ?, ?, ?, ?, ?, ?, ?)";

pub const FIND_PAYEE: &'static str = "SELECT id FROM payee WHERE name = ?";

pub const INSERT_PAYEE: &'static str =
    "INSERT INTO payee (id, name, category_id, created_at) VALUES (?, ?, ?, ?)";

pub const UPSERT_ALIAS: &'static str =
    "INSERT INTO payee_alias (merchant_norm, payee_id, created_at) VALUES (?, ?, ?) \
     ON CONFLICT(merchant_norm) DO UPDATE SET payee_id = excluded.payee_id";

pub const LINK_UNLABELED: &'static str =
    "UPDATE txn SET payee_id = ? WHERE statement_id = ? AND merchant_norm = ? \
     AND payee_id IS NULL";

pub const COUNT_LABELED: &'static str =
    "SELECT COUNT(*), \
     (SELECT COUNT(*) FROM txn WHERE statement_id = ?2 AND payee_id IS NOT NULL) \
     FROM txn WHERE statement_id = ?1";

pub const FIND_CATEGORY: &'static str = "SELECT 1 FROM category WHERE id = ?";

pub const SET_PAYEE_CATEGORY: &'static str = "UPDATE payee SET category_id = ? WHERE id = ?";

pub const INSERT_ALIAS: &'static str =
    "INSERT INTO payee_alias (merchant_norm, payee_id, created_at) VALUES (?, ?, ?)";

pub const UPDATE_ALIAS: &'static str =
    "UPDATE payee_alias SET payee_id = ? WHERE merchant_norm = ?";

pub const LABEL_TXNS: &'static str = "UPDATE txn SET payee_id = ? WHERE merchant_norm = ?";

pub const SET_PAYEE_NAME: &'static str = "UPDATE payee SET name = ? WHERE id = ?";

pub const UNLABEL_PAYEE: &'static str = "UPDATE txn SET payee_id = NULL WHERE payee_id = ?";

pub const DROP_ALIASES_OF: &'static str = "DELETE FROM payee_alias WHERE payee_id = ?";

pub const DROP_PAYEE: &'static str = "DELETE FROM payee WHERE id = ?";

pub const UNLABEL_SOURCE: &'static str =
    "UPDATE txn SET payee_id = NULL WHERE payee_id = ? AND merchant_norm = ?";

pub const DROP_ALIAS: &'static str =
    "DELETE FROM payee_alias WHERE payee_id = ? AND merchant_norm = ?";

pub const COUNT_TXNS_OF: &'static str = "SELECT COUNT(*) FROM txn WHERE payee_id = ?";

pub const STATEMENT_BY_ID: &'static str =
    "SELECT id, source_sha256, period_end, next_period_end, due_date, \
     next_due_date, previous_balance_minor, spend_minor, fees_minor, \
     payments_minor, period_debt_minor, period_debt_usd_minor, \
     min_pay_minor, card_limit_minor, available_limit_minor, imported_at \
     FROM statement WHERE id = ?";

pub const LATEST_STATEMENT: &'static str =
    "SELECT id, source_sha256, period_end, next_period_end, due_date, \
     next_due_date, previous_balance_minor, spend_minor, fees_minor, \
     payments_minor, period_debt_minor, period_debt_usd_minor, \
     min_pay_minor, card_limit_minor, available_limit_minor, imported_at \
     FROM statement ORDER BY period_end DESC, imported_at DESC LIMIT 1";

pub const LIST_STATEMENTS: &'static str =
    "SELECT id, source_sha256, period_end, next_period_end, due_date, \
     next_due_date, previous_balance_minor, spend_minor, fees_minor, \
     payments_minor, period_debt_minor, period_debt_usd_minor, \
     min_pay_minor, card_limit_minor, available_limit_minor, imported_at \
     FROM statement ORDER BY period_end DESC, imported_at DESC";

pub const SPEND_BY_CATEGORY: &'static str =
    "SELECT c.id, c.name, c.kind, c.color, c.sort, SUM(t.amount_minor) \
     FROM txn t \
     JOIN payee p ON t.payee_id = p.id \
     JOIN category c ON p.category_id = c.id \
     WHERE t.direction = 'debit' AND c.kind = 'spend'";

pub const SPEND_BY_CATEGORY_END: &'static str = " GROUP BY c.id ORDER BY SUM(t.amount_minor) DESC";

pub const UNLABELED_TOTALS: &'static str =
    "SELECT COALESCE(SUM(CASE WHEN t.direction = 'debit' THEN amount_minor ELSE 0 END), 0), \
     COUNT(*) FROM txn t \
     WHERE t.payee_id IS NULL";

pub const TOP_PAYEES: &'static str =
    "SELECT p.name, SUM(t.amount_minor) FROM txn t \
     JOIN payee p ON t.payee_id = p.id \
     WHERE t.direction = 'debit'";

pub const TOP_PAYEES_END: &'static str = " GROUP BY p.id ORDER BY SUM(t.amount_minor) DESC LIMIT 8";

pub const MONTHLY_TOTALS: &'static str =
    "SELECT substr(date, 1, 7), \
     SUM(CASE WHEN direction = 'debit' THEN amount_minor ELSE 0 END), \
     SUM(CASE WHEN direction = 'credit' THEN amount_minor ELSE 0 END) \
     FROM txn t WHERE 1 = 1";

pub const MONTHLY_TOTALS_END: &'static str = " GROUP BY 1 ORDER BY 1";

pub const LIST_TXNS: &'static str =
    "SELECT t.id, t.statement_id, t.row_index, t.date, t.merchant_raw, \
     t.merchant_norm, t.extra, t.amount_minor, t.direction, t.usd_minor, \
     t.bankkart_lira_minor, t.card_last4, t.kind, t.payee_id, \
     p.name, c.id, c.name, c.color \
     FROM txn t \
     LEFT JOIN payee p ON t.payee_id = p.id \
     LEFT JOIN category c ON p.category_id = c.id \
     WHERE 1 = 1";

pub const LIST_TXNS_END: &'static str = " ORDER BY t.date DESC, t.row_index DESC";

pub const IN_STATEMENT: &'static str = " AND t.statement_id = ?";

pub const IN_CATEGORY: &'static str =
    " AND t.payee_id IN (SELECT id FROM payee WHERE category_id = ?)";

pub const UNLABELED_ONLY: &'static str = " AND t.payee_id IS NULL";

pub const MATCHING: &'static str = " AND (t.merchant_raw LIKE ? OR t.merchant_norm LIKE ?)";

pub const UNLABELED_TXNS: &'static str =
    "SELECT merchant_norm, merchant_raw, extra, date, amount_minor, direction \
     FROM txn WHERE payee_id IS NULL \
     ORDER BY date DESC, row_index DESC";

pub const LIST_CATEGORIES: &'static str =
    "SELECT id, name, kind, color, sort FROM category ORDER BY sort";

pub const LIST_PAYEES: &'static str =
    "SELECT id, name, category_id, created_at FROM payee ORDER BY name";

pub const PAYEE_SOURCES: &'static str =
    "SELECT payee_id, merchant_norm, COUNT(*), MIN(merchant_raw) \
     FROM txn WHERE payee_id IS NOT NULL \
     GROUP BY payee_id, merchant_norm \
     ORDER BY COUNT(*) DESC, merchant_norm";

/// How a statement is run.
#[derive(Debug, Clone, Copy, PartialEq, Eq, Structural)]
pub enum Mode {
    /// For the number of rows that it changes.
    Execute,
    /// For its first row.
    FirstRow,
    /// For all its rows.
    AllRows,
    /// As a batch of statements.
    Batch,
    /// For all its rows, on an empty database with the declared schema put in.
    Declared,
}

/// One statement of the store.
#[derive(Debug)]
#[allow(inconsistent_fields)]
pub enum Action {
    ForeignKeysOn,
    BusyTimeout,
    CountTables,
    Begin,
    Commit,
    Rollback,
    InstallSchema,
    ReadSchema,
    ReadDeclaredSchema,
    RawMerchants,
    SetNorm { norm: String, raw: String },
    SharedNorms,
    UnifyNorm { keeper: String, norm: String },
    ClearAliases,
    RebuildAliases { now: String },
    SharedNames,
    OthersNamed { name: String, id: String },
    OtherNamed { name: String, id: String },
    MoveTxns { keeper: String, extra: String },
    AdoptAliases { keeper: String, now: String },
    DropUnusedPayees,
    FindStatement { source_sha256: String },
    InsertStatement { id: String, head: StatementHead, now: String },
    AliasOf { norm: String },
    InsertTxn { id: String, statement_id: String, txn: ParsedTxn, payee_id: Option<String> },
    FindPayee { name: String },
    InsertPayee { id: String, name: String, category_id: String, now: String },
    UpsertAlias { norm: String, payee_id: String, now: String },
    LinkUnlabeled { payee_id: String, statement_id: String, norm: String },
    CountLabeled { statement_id: String },
    FindCategory { id: String },
    SetPayeeCategory { category_id: String, payee_id: String },
    InsertAlias { norm: String, payee_id: String, now: String },
    UpdateAlias { payee_id: String, norm: String },
    LabelTxns { payee_id: String, norm: String },
    SetPayeeName { name: String, payee_id: String },
    UnlabelPayee { payee_id: String },
    DropAliasesOf { payee_id: String },
    DropPayee { payee_id: String },
    UnlabelSource { payee_id: String, norm: String },
    DropAlias { payee_id: String, norm: String },
    CountTxnsOf { payee_id: String },
    StatementById { id: String },
    LatestStatement,
    SpendByCategory { statement_id: Option<String> },
    UnlabeledTotals { statement_id: Option<String> },
    TopPayees { statement_id: Option<String> },
    MonthlyTotals { statement_id: Option<String> },
    ListTxns { filter: TxnFilter },
    UnlabeledTxns,
    ListCategories,
    ListPayees,
    PayeeSources,
    ListStatements,
}

#[allow(inconsistent_fields)]
pub ghost enum ActionView {
    ForeignKeysOn,
    BusyTimeout,
    CountTables,
    Begin,
    Commit,
    Rollback,
    InstallSchema,
    ReadSchema,
    ReadDeclaredSchema,
    RawMerchants,
    SetNorm { norm: Seq<char>, raw: Seq<char> },
    SharedNorms,
    UnifyNorm { keeper: Seq<char>, norm: Seq<char> },
    ClearAliases,
    RebuildAliases { now: Seq<char> },
    SharedNames,
    OthersNamed { name: Seq<char>, id: Seq<char> },
    OtherNamed { name: Seq<char>, id: Seq<char> },
    MoveTxns { keeper: Seq<char>, extra: Seq<char> },
    AdoptAliases { keeper: Seq<char>, now: Seq<char> },
    DropUnusedPayees,
    FindStatement { source_sha256: Seq<char> },
    InsertStatement { id: Seq<char>, head: StatementHeadView, now: Seq<char> },
    AliasOf { norm: Seq<char> },
    InsertTxn {
        id: Seq<char>,
        statement_id: Seq<char>,
        txn: ParsedTxnView,
        payee_id: Option<Seq<char>>,
    },
    FindPayee { name: Seq<char> },
    InsertPayee { id: Seq<char>, name: Seq<char>, category_id: Seq<char>, now: Seq<char> },
    UpsertAlias { norm: Seq<char>, payee_id: Seq<char>, now: Seq<char> },
    LinkUnlabeled { payee_id: Seq<char>, statement_id: Seq<char>, norm: Seq<char> },
    CountLabeled { statement_id: Seq<char> },
    FindCategory { id: Seq<char> },
    SetPayeeCategory { category_id: Seq<char>, payee_id: Seq<char> },
    InsertAlias { norm: Seq<char>, payee_id: Seq<char>, now: Seq<char> },
    UpdateAlias { payee_id: Seq<char>, norm: Seq<char> },
    LabelTxns { payee_id: Seq<char>, norm: Seq<char> },
    SetPayeeName { name: Seq<char>, payee_id: Seq<char> },
    UnlabelPayee { payee_id: Seq<char> },
    DropAliasesOf { payee_id: Seq<char> },
    DropPayee { payee_id: Seq<char> },
    UnlabelSource { payee_id: Seq<char>, norm: Seq<char> },
    DropAlias { payee_id: Seq<char>, norm: Seq<char> },
    CountTxnsOf { payee_id: Seq<char> },
    StatementById { id: Seq<char> },
    LatestStatement,
    SpendByCategory { statement_id: Option<Seq<char>> },
    UnlabeledTotals { statement_id: Option<Seq<char>> },
    TopPayees { statement_id: Option<Seq<char>> },
    MonthlyTotals { statement_id: Option<Seq<char>> },
    ListTxns { filter: TxnFilterView },
    UnlabeledTxns,
    ListCategories,
    ListPayees,
    PayeeSources,
    ListStatements,
}

impl View for Action {
    type V = ActionView;

    open spec fn view(&self) -> ActionView {
        match *self {
            Action::ForeignKeysOn => ActionView::ForeignKeysOn,
            Action::BusyTimeout => ActionView::BusyTimeout,
            Action::CountTables => ActionView::CountTables,
            Action::Begin => ActionView::Begin,
            Action::Commit => ActionView::Commit,
            Action::Rollback => ActionView::Rollback,
            Action::InstallSchema => ActionView::InstallSchema,
            Action::ReadSchema => ActionView::ReadSchema,
            Action::ReadDeclaredSchema => ActionView::ReadDeclaredSchema,
            Action::RawMerchants => ActionView::RawMerchants,
            Action::SetNorm { norm, raw } => ActionView::SetNorm { norm: norm@, raw: raw@ },
            Action::SharedNorms => ActionView::SharedNorms,
            Action::UnifyNorm { keeper, norm } => ActionView::UnifyNorm {
                keeper: keeper@,
                norm: norm@,
            },
            Action::ClearAliases => ActionView::ClearAliases,
            Action::RebuildAliases { now } => ActionView::RebuildAliases { now: now@ },
            Action::SharedNames => ActionView::SharedNames,
            Action::OthersNamed { name, id } => ActionView::OthersNamed { name: name@, id: id@ },
            Action::OtherNamed { name, id } => ActionView::OtherNamed { name: name@, id: id@ },
            Action::MoveTxns { keeper, extra } => ActionView::MoveTxns {
                keeper: keeper@,
                extra: extra@,
            },
            Action::AdoptAliases { keeper, now } => ActionView::AdoptAliases {
                keeper: keeper@,
                now: now@,
            },
            Action::DropUnusedPayees => ActionView::DropUnusedPayees,
            Action::FindStatement { source_sha256 } => ActionView::FindStatement {
                source_sha256: source_sha256@,
            },
            Action::InsertStatement { id, head, now } => ActionView::InsertStatement {
                id: id@,
                head: head@,
                now: now@,
            },
            Action::AliasOf { norm } => ActionView::AliasOf { norm: norm@ },
            Action::InsertTxn { id, statement_id, txn, payee_id } => ActionView::InsertTxn {
                id: id@,
                statement_id: statement_id@,
                txn: txn@,
                payee_id: opt_text(payee_id),
            },
            Action::FindPayee { name } => ActionView::FindPayee { name: name@ },
            Action::InsertPayee { id, name, category_id, now } => ActionView::InsertPayee {
                id: id@,
                name: name@,
                category_id: category_id@,
                now: now@,
            },
            Action::UpsertAlias { norm, payee_id, now } => ActionView::UpsertAlias {
                norm: norm@,
                payee_id: payee_id@,
                now: now@,
            },
            Action::LinkUnlabeled { payee_id, statement_id, norm } => ActionView::LinkUnlabeled {
                payee_id: payee_id@,
                statement_id: statement_id@,
                norm: norm@,
            },
            Action::CountLabeled { statement_id } => ActionView::CountLabeled {
                statement_id: statement_id@,
            },
            Action::FindCategory { id } => ActionView::FindCategory { id: id@ },
            Action::SetPayeeCategory { category_id, payee_id } => ActionView::SetPayeeCategory {
                category_id: category_id@,
                payee_id: payee_id@,
            },
            Action::InsertAlias { norm, payee_id, now } => ActionView::InsertAlias {
                norm: norm@,
                payee_id: payee_id@,
                now: now@,
            },
            Action::UpdateAlias { payee_id, norm } => ActionView::UpdateAlias {
                payee_id: payee_id@,
                norm: norm@,
            },
            Action::LabelTxns { payee_id, norm } => ActionView::LabelTxns {
                payee_id: payee_id@,
                norm: norm@,
            },
            Action::SetPayeeName { name, payee_id } => ActionView::SetPayeeName {
                name: name@,
                payee_id: payee_id@,
            },
            Action::UnlabelPayee { payee_id } => ActionView::UnlabelPayee { payee_id: payee_id@ },
            Action::DropAliasesOf { payee_id } => ActionView::DropAliasesOf { payee_id: payee_id@ },
            Action::DropPayee { payee_id } => ActionView::DropPayee { payee_id: payee_id@ },
            Action::UnlabelSource { payee_id, norm } => ActionView::UnlabelSource {
                payee_id: payee_id@,
                norm: norm@,
            },
            Action::DropAlias { payee_id, norm } => ActionView::DropAlias {
                payee_id: payee_id@,
                norm: norm@,
            },
            Action::CountTxnsOf { payee_id } => ActionView::CountTxnsOf { payee_id: payee_id@ },
            Action::StatementById { id } => ActionView::StatementById { id: id@ },
            Action::LatestStatement => ActionView::LatestStatement,
            Action::SpendByCategory { statement_id } => ActionView::SpendByCategory {
                statement_id: opt_text(statement_id),
            },
            Action::UnlabeledTotals { statement_id } => ActionView::UnlabeledTotals {
                statement_id: opt_text(statement_id),
            },
            Action::TopPayees { statement_id } => ActionView::TopPayees {
                statement_id: opt_text(statement_id),
            },
            Action::MonthlyTotals { statement_id } => ActionView::MonthlyTotals {
                statement_id: opt_text(statement_id),
            },
            Action::ListTxns { filter } => ActionView::ListTxns { filter: filter@ },
            Action::UnlabeledTxns => ActionView::UnlabeledTxns,
            Action::ListCategories => ActionView::ListCategories,
            Action::ListPayees => ActionView::ListPayees,
            Action::PayeeSources => ActionView::PayeeSources,
            Action::ListStatements => ActionView::ListStatements,
        }
    }
}

/// The SQL text of a statement.
pub open spec fn action_sql(action: ActionView) -> Seq<char> {
    match action {
        ActionView::ForeignKeysOn => FOREIGN_KEYS_ON@,
        ActionView::BusyTimeout => BUSY_TIMEOUT@,
        ActionView::CountTables => COUNT_TABLES@,
        ActionView::Begin => BEGIN@,
        ActionView::Commit => COMMIT@,
        ActionView::Rollback => ROLLBACK@,
        ActionView::InstallSchema => declared_schema(),
        ActionView::ReadSchema => READ_SCHEMA@,
        ActionView::ReadDeclaredSchema => READ_SCHEMA@,
        ActionView::RawMerchants => RAW_MERCHANTS@,
        ActionView::SetNorm { .. } => SET_NORM@,
        ActionView::SharedNorms => SHARED_NORMS@,
        ActionView::UnifyNorm { .. } => UNIFY_NORM@,
        ActionView::ClearAliases => CLEAR_ALIASES@,
        ActionView::RebuildAliases { .. } => REBUILD_ALIASES@,
        ActionView::SharedNames => SHARED_NAMES@,
        ActionView::OthersNamed { .. } => OTHERS_NAMED@,
        ActionView::OtherNamed { .. } => OTHERS_NAMED@,
        ActionView::MoveTxns { .. } => MOVE_TXNS@,
        ActionView::AdoptAliases { .. } => ADOPT_ALIASES@,
        ActionView::DropUnusedPayees => DROP_UNUSED_PAYEES@,
        ActionView::FindStatement { .. } => FIND_STATEMENT@,
        ActionView::InsertStatement { .. } => INSERT_STATEMENT@,
        ActionView::AliasOf { .. } => ALIAS_OF@,
        ActionView::InsertTxn { .. } => INSERT_TXN@,
        ActionView::FindPayee { .. } => FIND_PAYEE@,
        ActionView::InsertPayee { .. } => INSERT_PAYEE@,
        ActionView::UpsertAlias { .. } => UPSERT_ALIAS@,
        ActionView::LinkUnlabeled { .. } => LINK_UNLABELED@,
        ActionView::CountLabeled { .. } => COUNT_LABELED@,
        ActionView::FindCategory { .. } => FIND_CATEGORY@,
        ActionView::SetPayeeCategory { .. } => SET_PAYEE_CATEGORY@,
        ActionView::InsertAlias { .. } => INSERT_ALIAS@,
        ActionView::UpdateAlias { .. } => UPDATE_ALIAS@,
        ActionView::LabelTxns { .. } => LABEL_TXNS@,
        ActionView::SetPayeeName { .. } => SET_PAYEE_NAME@,
        ActionView::UnlabelPayee { .. } => UNLABEL_PAYEE@,
        ActionView::DropAliasesOf { .. } => DROP_ALIASES_OF@,
        ActionView::DropPayee { .. } => DROP_PAYEE@,
        ActionView::UnlabelSource { .. } => UNLABEL_SOURCE@,
        ActionView::DropAlias { .. } => DROP_ALIAS@,
        ActionView::CountTxnsOf { .. } => COUNT_TXNS_OF@,
        ActionView::StatementById { .. } => STATEMENT_BY_ID@,
        ActionView::LatestStatement => LATEST_STATEMENT@,
        ActionView::SpendByCategory { statement_id } => SPEND_BY_CATEGORY@ + scope(statement_id) + SPEND_BY_CATEGORY_END@,
        ActionView::UnlabeledTotals { statement_id } => UNLABELED_TOTALS@ + scope(statement_id),
        ActionView::TopPayees { statement_id } => TOP_PAYEES@ + scope(statement_id) + TOP_PAYEES_END@,
        ActionView::MonthlyTotals { statement_id } => MONTHLY_TOTALS@ + scope(statement_id) + MONTHLY_TOTALS_END@,
        ActionView::ListTxns { filter } => LIST_TXNS@ + where_text(filter) + LIST_TXNS_END@,
        ActionView::UnlabeledTxns => UNLABELED_TXNS@,
        ActionView::ListCategories => LIST_CATEGORIES@,
        ActionView::ListPayees => LIST_PAYEES@,
        ActionView::PayeeSources => PAYEE_SOURCES@,
        ActionView::ListStatements => LIST_STATEMENTS@,
    }
}

/// The parameters of a statement that stores a statement's head.
pub open spec fn statement_params(
    id: Seq<char>,
    head: StatementHeadView,
    now: Seq<char>,
) -> Seq<SqlView> {
    seq![
        SqlView::Text(id),
        SqlView::Text(head.source_sha256),
        SqlView::Text(head.period_end),
        text_or_null(head.next_period_end),
        text_or_null(head.due_date),
        text_or_null(head.next_due_date),
        SqlView::Integer(head.previous_balance_minor),
        SqlView::Integer(head.spend_minor),
        SqlView::Integer(head.fees_minor),
        SqlView::Integer(head.payments_minor),
        SqlView::Integer(head.period_debt_minor),
        SqlView::Integer(head.period_debt_usd_minor),
        SqlView::Integer(head.min_pay_minor),
        integer_or_null(head.card_limit_minor),
        integer_or_null(head.available_limit_minor),
        SqlView::Text(now),
    ]
}

/// The parameters of a statement that stores a transaction.
pub open spec fn txn_params(
    id: Seq<char>,
    statement_id: Seq<char>,
    txn: ParsedTxnView,
    payee_id: Option<Seq<char>>,
) -> Seq<SqlView> {
    seq![
        SqlView::Text(id),
        SqlView::Text(statement_id),
        SqlView::Integer(txn.row_index),
        SqlView::Text(txn.date),
        SqlView::Text(txn.merchant_raw),
        SqlView::Text(txn.merchant_norm),
        SqlView::Text(txn.extra),
        SqlView::Integer(txn.amount_minor),
        SqlView::Text(txn.direction.text()),
        integer_or_null(txn.usd_minor),
        SqlView::Integer(txn.bankkart_lira_minor),
        SqlView::Text(txn.card_last4),
        SqlView::Text(txn.kind.text()),
        text_or_null(payee_id),
    ]
}

/// The parameters of a statement, in the order of their places in its text.
pub open spec fn action_params(action: ActionView) -> Seq<SqlView> {
    match action {
        ActionView::SetNorm { norm, raw } => seq![SqlView::Text(norm), SqlView::Text(raw)],
        ActionView::UnifyNorm { keeper, norm } => seq![SqlView::Text(keeper), SqlView::Text(norm)],
        ActionView::RebuildAliases { now } => seq![SqlView::Text(now)],
        ActionView::OthersNamed { name, id } => seq![SqlView::Text(name), SqlView::Text(id)],
        ActionView::OtherNamed { name, id } => seq![SqlView::Text(name), SqlView::Text(id)],
        ActionView::MoveTxns { keeper, extra } => seq![SqlView::Text(keeper), SqlView::Text(extra)],
        ActionView::AdoptAliases { keeper, now } => seq![
            SqlView::Text(keeper),
            SqlView::Text(now),
            SqlView::Text(keeper),
        ],
        ActionView::FindStatement { source_sha256 } => seq![SqlView::Text(source_sha256)],
        ActionView::InsertStatement { id, head, now } => statement_params(id, head, now),
        ActionView::AliasOf { norm } => seq![SqlView::Text(norm)],
        ActionView::InsertTxn { id, statement_id, txn, payee_id } => txn_params(
            id,
            statement_id,
            txn,
            payee_id,
        ),
        ActionView::FindPayee { name } => seq![SqlView::Text(name)],
        ActionView::InsertPayee { id, name, category_id, now } => seq![
            SqlView::Text(id),
            SqlView::Text(name),
            SqlView::Text(category_id),
            SqlView::Text(now),
        ],
        ActionView::UpsertAlias { norm, payee_id, now } => seq![
            SqlView::Text(norm),
            SqlView::Text(payee_id),
            SqlView::Text(now),
        ],
        ActionView::LinkUnlabeled { payee_id, statement_id, norm } => seq![
            SqlView::Text(payee_id),
            SqlView::Text(statement_id),
            SqlView::Text(norm),
        ],
        ActionView::CountLabeled { statement_id } => seq![
            SqlView::Text(statement_id),
            SqlView::Text(statement_id),
        ],
        ActionView::FindCategory { id } => seq![SqlView::Text(id)],
        ActionView::SetPayeeCategory { category_id, payee_id } => seq![
            SqlView::Text(category_id),
            SqlView::Text(payee_id),
        ],
        ActionView::InsertAlias { norm, payee_id, now } => seq![
            SqlView::Text(norm),
            SqlView::Text(payee_id),
            SqlView::Text(now),
        ],
        ActionView::UpdateAlias { payee_id, norm } => seq![
            SqlView::Text(payee_id),
            SqlView::Text(norm),
        ],
        ActionView::LabelTxns { payee_id, norm } => seq![
            SqlView::Text(payee_id),
            SqlView::Text(norm),
        ],
        ActionView::SetPayeeName { name, payee_id } => seq![
            SqlView::Text(name),
            SqlView::Text(payee_id),
        ],
        ActionView::UnlabelPayee { payee_id } => seq![SqlView::Text(payee_id)],
        ActionView::DropAliasesOf { payee_id } => seq![SqlView::Text(payee_id)],
        ActionView::DropPayee { payee_id } => seq![SqlView::Text(payee_id)],
        ActionView::UnlabelSource { payee_id, norm } => seq![
            SqlView::Text(payee_id),
            SqlView::Text(norm),
        ],
        ActionView::DropAlias { payee_id, norm } => seq![
            SqlView::Text(payee_id),
            SqlView::Text(norm),
        ],
        ActionView::CountTxnsOf { payee_id } => seq![SqlView::Text(payee_id)],
        ActionView::StatementById { id } => seq![SqlView::Text(id)],
        ActionView::SpendByCategory { statement_id } => scope_params(statement_id),
        ActionView::UnlabeledTotals { statement_id } => scope_params(statement_id),
        ActionView::TopPayees { statement_id } => scope_params(statement_id),
        ActionView::MonthlyTotals { statement_id } => scope_params(statement_id),
        ActionView::ListTxns { filter } => where_params(filter),
        _ => Seq::empty(),
    }
}

/// How a statement is run.
pub open spec fn action_mode(action: ActionView) -> Mode {
    match action {
        ActionView::CountTables => Mode::FirstRow,
        ActionView::OtherNamed { .. } => Mode::FirstRow,
        ActionView::FindStatement { .. } => Mode::FirstRow,
        ActionView::AliasOf { .. } => Mode::FirstRow,
        ActionView::FindPayee { .. } => Mode::FirstRow,
        ActionView::CountLabeled { .. } => Mode::FirstRow,
        ActionView::FindCategory { .. } => Mode::FirstRow,
        ActionView::CountTxnsOf { .. } => Mode::FirstRow,
        ActionView::StatementById { .. } => Mode::FirstRow,
        ActionView::LatestStatement => Mode::FirstRow,
        ActionView::UnlabeledTotals { .. } => Mode::FirstRow,
        ActionView::ReadSchema => Mode::AllRows,
        ActionView::RawMerchants => Mode::AllRows,
        ActionView::SharedNorms => Mode::AllRows,
        ActionView::SharedNames => Mode::AllRows,
        ActionView::OthersNamed { .. } => Mode::AllRows,
        ActionView::SpendByCategory { .. } => Mode::AllRows,
        ActionView::TopPayees { .. } => Mode::AllRows,
        ActionView::MonthlyTotals { .. } => Mode::AllRows,
        ActionView::ListTxns { .. } => Mode::AllRows,
        ActionView::UnlabeledTxns => Mode::AllRows,
        ActionView::ListCategories => Mode::AllRows,
        ActionView::ListPayees => Mode::AllRows,
        ActionView::PayeeSources => Mode::AllRows,
        ActionView::ListStatements => Mode::AllRows,
        ActionView::InstallSchema => Mode::Batch,
        ActionView::ReadDeclaredSchema => Mode::Declared,
        _ => Mode::Execute,
    }
}

/// A text with a scope and an end behind it.
fn scoped(head: &str, statement_id: &Option<String>, end: &str) -> (r: String)
    ensures
        r@ == head@ + scope(opt_text(*statement_id)) + end@,
{
    let mut text = String::new();
    text.append(head);
    if statement_id.is_some() {
        text.append(IN_STATEMENT);
    }
    text.append(end);
    proof {
        assert(text@ =~= head@ + scope(opt_text(*statement_id)) + end@);
    }
    text
}

fn scope_vals(statement_id: &Option<String>) -> (r: Vec<SqlValue>)
    ensures
        value_views(r@) == scope_params(opt_text(*statement_id)),
{
    let mut vals: Vec<SqlValue> = Vec::new();
    if let Some(id) = statement_id {
        vals.push(text_val(id.as_str()));
    }
    proof {
        assert(value_views(vals@) =~= scope_params(opt_text(*statement_id)));
    }
    vals
}

fn statement_vals(id: &str, head: &StatementHead, now: &str) -> (r: Vec<SqlValue>)
    ensures
        value_views(r@) == statement_params(id@, head@, now@),
{
    let vals = vec![
        text_val(id),
        text_val(head.source_sha256.as_str()),
        text_val(head.period_end.as_str()),
        crate::store::value::opt_text(&head.next_period_end),
        crate::store::value::opt_text(&head.due_date),
        crate::store::value::opt_text(&head.next_due_date),
        int_val(head.previous_balance_minor),
        int_val(head.spend_minor),
        int_val(head.fees_minor),
        int_val(head.payments_minor),
        int_val(head.period_debt_minor),
        int_val(head.period_debt_usd_minor),
        int_val(head.min_pay_minor),
        opt_int(&head.card_limit_minor),
        opt_int(&head.available_limit_minor),
        text_val(now),
    ];
    proof {
        assert(value_views(vals@) =~= statement_params(id@, head@, now@));
    }
    vals
}

fn txn_vals(id: &str, statement_id: &str, txn: &ParsedTxn, payee_id: &Option<String>) -> (r: Vec<
    SqlValue,
>)
    ensures
        value_views(r@) == txn_params(id@, statement_id@, txn@, opt_text(*payee_id)),
{
    let vals = vec![
        text_val(id),
        text_val(statement_id),
        int_val(txn.row_index),
        text_val(txn.date.as_str()),
        text_val(txn.merchant_raw.as_str()),
        text_val(txn.merchant_norm.as_str()),
        text_val(txn.extra.as_str()),
        int_val(txn.amount_minor),
        text_val(txn.direction.as_str()),
        opt_int(&txn.usd_minor),
        int_val(txn.bankkart_lira_minor),
        text_val(txn.card_last4.as_str()),
        text_val(txn.kind.as_str()),
        crate::store::value::opt_text(payee_id),
    ];
    proof {
        assert(value_views(vals@) =~= txn_params(id@, statement_id@, txn@, opt_text(*payee_id)));
    }
    vals
}

fn texts1(a: &str) -> (r: Vec<SqlValue>)
    ensures
        value_views(r@) == seq![SqlView::Text(a@)],
{
    let vals = vec![text_val(a)];
    proof {
        assert(value_views(vals@) =~= seq![SqlView::Text(a@)]);
    }
    vals
}

fn texts2(a: &str, b: &str) -> (r: Vec<SqlValue>)
    ensures
        value_views(r@) == seq![SqlView::Text(a@), SqlView::Text(b@)],
{
    let vals = vec![text_val(a), text_val(b)];
    proof {
        assert(value_views(vals@) =~= seq![SqlView::Text(a@), SqlView::Text(b@)]);
    }
    vals
}

fn texts3(a: &str, b: &str, c: &str) -> (r: Vec<SqlValue>)
    ensures
        value_views(r@) == seq![SqlView::Text(a@), SqlView::Text(b@), SqlView::Text(c@)],
{
    let vals = vec![text_val(a), text_val(b), text_val(c)];
    proof {
        assert(value_views(vals@) =~= seq![
            SqlView::Text(a@),
            SqlView::Text(b@),
            SqlView::Text(c@),
        ]);
    }
    vals
}

fn texts4(a: &str, b: &str, c: &str, d: &str) -> (r: Vec<SqlValue>)
    ensures
        value_views(r@) == seq![
            SqlView::Text(a@),
            SqlView::Text(b@),
            SqlView::Text(c@),
            SqlView::Text(d@),
        ],
{
    let vals = vec![text_val(a), text_val(b), text_val(c), text_val(d)];
    proof {
        assert(value_views(vals@) =~= seq![
            SqlView::Text(a@),
            SqlView::Text(b@),
            SqlView::Text(c@),
            SqlView::Text(d@),
        ]);
    }
    vals
}

impl Action {
    /// The SQL text.
    pub fn sql(&self) -> (r: String)
        ensures
            r@ == action_sql(self@),
    {
        match self {
            Action::ForeignKeysOn => copy(FOREIGN_KEYS_ON),
            Action::BusyTimeout => copy(BUSY_TIMEOUT),
            Action::CountTables => copy(COUNT_TABLES),
            Action::Begin => copy(BEGIN),
            Action::Commit => copy(COMMIT),
            Action::Rollback => copy(ROLLBACK),
            Action::InstallSchema => schema_sql(),
            Action::ReadSchema => copy(READ_SCHEMA),
            Action::ReadDeclaredSchema => copy(READ_SCHEMA),
            Action::RawMerchants => copy(RAW_MERCHANTS),
            Action::SetNorm { .. } => copy(SET_NORM),
            Action::SharedNorms => copy(SHARED_NORMS),
            Action::UnifyNorm { .. } => copy(UNIFY_NORM),
            Action::ClearAliases => copy(CLEAR_ALIASES),
            Action::RebuildAliases { .. } => copy(REBUILD_ALIASES),
            Action::SharedNames => copy(SHARED_NAMES),
            Action::OthersNamed { .. } => copy(OTHERS_NAMED),
            Action::OtherNamed { .. } => copy(OTHERS_NAMED),
            Action::MoveTxns { .. } => copy(MOVE_TXNS),
            Action::AdoptAliases { .. } => copy(ADOPT_ALIASES),
            Action::DropUnusedPayees => copy(DROP_UNUSED_PAYEES),
            Action::FindStatement { .. } => copy(FIND_STATEMENT),
            Action::InsertStatement { .. } => copy(INSERT_STATEMENT),
            Action::AliasOf { .. } => copy(ALIAS_OF),
            Action::InsertTxn { .. } => copy(INSERT_TXN),
            Action::FindPayee { .. } => copy(FIND_PAYEE),
            Action::InsertPayee { .. } => copy(INSERT_PAYEE),
            Action::UpsertAlias { .. } => copy(UPSERT_ALIAS),
            Action::LinkUnlabeled { .. } => copy(LINK_UNLABELED),
            Action::CountLabeled { .. } => copy(COUNT_LABELED),
            Action::FindCategory { .. } => copy(FIND_CATEGORY),
            Action::SetPayeeCategory { .. } => copy(SET_PAYEE_CATEGORY),
            Action::InsertAlias { .. } => copy(INSERT_ALIAS),
            Action::UpdateAlias { .. } => copy(UPDATE_ALIAS),
            Action::LabelTxns { .. } => copy(LABEL_TXNS),
            Action::SetPayeeName { .. } => copy(SET_PAYEE_NAME),
            Action::UnlabelPayee { .. } => copy(UNLABEL_PAYEE),
            Action::DropAliasesOf { .. } => copy(DROP_ALIASES_OF),
            Action::DropPayee { .. } => copy(DROP_PAYEE),
            Action::UnlabelSource { .. } => copy(UNLABEL_SOURCE),
            Action::DropAlias { .. } => copy(DROP_ALIAS),
            Action::CountTxnsOf { .. } => copy(COUNT_TXNS_OF),
            Action::StatementById { .. } => copy(STATEMENT_BY_ID),
            Action::LatestStatement => copy(LATEST_STATEMENT),
            Action::SpendByCategory { statement_id } => scoped(
                SPEND_BY_CATEGORY,
                statement_id,
                SPEND_BY_CATEGORY_END,
            ),
            Action::UnlabeledTotals { statement_id } => {
                proof {
                    reveal_strlit("");
                    assert(UNLABELED_TOTALS@ + scope(opt_text(*statement_id)) + ""@ =~= UNLABELED_TOTALS@ + scope(
                        opt_text(*statement_id),
                    ));
                }
                scoped(UNLABELED_TOTALS, statement_id, "")
            },
            Action::TopPayees { statement_id } => scoped(TOP_PAYEES, statement_id, TOP_PAYEES_END),
            Action::MonthlyTotals { statement_id } => scoped(
                MONTHLY_TOTALS,
                statement_id,
                MONTHLY_TOTALS_END,
            ),
            Action::ListTxns { filter } => {
                let mut text = String::new();
                text.append(LIST_TXNS);
                text.append(filter.where_sql().as_str());
                text.append(LIST_TXNS_END);
                proof {
                    assert(text@ =~= LIST_TXNS@ + where_text(filter@) + LIST_TXNS_END@);
                }
                text
            },
            Action::UnlabeledTxns => copy(UNLABELED_TXNS),
            Action::ListCategories => copy(LIST_CATEGORIES),
            Action::ListPayees => copy(LIST_PAYEES),
            Action::PayeeSources => copy(PAYEE_SOURCES),
            Action::ListStatements => copy(LIST_STATEMENTS),
        }
    }

    /// The parameters.
    pub fn params(&self) -> (r: Vec<SqlValue>)
        ensures
            value_views(r@) == action_params(self@),
    {
        match self {
            Action::SetNorm { norm, raw } => texts2(norm.as_str(), raw.as_str()),
            Action::UnifyNorm { keeper, norm } => texts2(keeper.as_str(), norm.as_str()),
            Action::RebuildAliases { now } => texts1(now.as_str()),
            Action::OthersNamed { name, id } => texts2(name.as_str(), id.as_str()),
            Action::OtherNamed { name, id } => texts2(name.as_str(), id.as_str()),
            Action::MoveTxns { keeper, extra } => texts2(keeper.as_str(), extra.as_str()),
            Action::AdoptAliases { keeper, now } => texts3(
                keeper.as_str(),
                now.as_str(),
                keeper.as_str(),
            ),
            Action::FindStatement { source_sha256 } => texts1(source_sha256.as_str()),
            Action::InsertStatement { id, head, now } => statement_vals(
                id.as_str(),
                head,
                now.as_str(),
            ),
            Action::AliasOf { norm } => texts1(norm.as_str()),
            Action::InsertTxn { id, statement_id, txn, payee_id } => txn_vals(
                id.as_str(),
                statement_id.as_str(),
                txn,
                payee_id,
            ),
            Action::FindPayee { name } => texts1(name.as_str()),
            Action::InsertPayee { id, name, category_id, now } => texts4(
                id.as_str(),
                name.as_str(),
                category_id.as_str(),
                now.as_str(),
            ),
            Action::UpsertAlias { norm, payee_id, now } => texts3(
                norm.as_str(),
                payee_id.as_str(),
                now.as_str(),
            ),
            Action::LinkUnlabeled { payee_id, statement_id, norm } => texts3(
                payee_id.as_str(),
                statement_id.as_str(),
                norm.as_str(),
            ),
            Action::CountLabeled { statement_id } => texts2(
                statement_id.as_str(),
                statement_id.as_str(),
            ),
            Action::FindCategory { id } => texts1(id.as_str()),
            Action::SetPayeeCategory { category_id, payee_id } => texts2(
                category_id.as_str(),
                payee_id.as_str(),
            ),
            Action::InsertAlias { norm, payee_id, now } => texts3(
                norm.as_str(),
                payee_id.as_str(),
                now.as_str(),
            ),
            Action::UpdateAlias { payee_id, norm } => texts2(payee_id.as_str(), norm.as_str()),
            Action::LabelTxns { payee_id, norm } => texts2(payee_id.as_str(), norm.as_str()),
            Action::SetPayeeName { name, payee_id } => texts2(name.as_str(), payee_id.as_str()),
            Action::UnlabelPayee { payee_id } => texts1(payee_id.as_str()),
            Action::DropAliasesOf { payee_id } => texts1(payee_id.as_str()),
            Action::DropPayee { payee_id } => texts1(payee_id.as_str()),
            Action::UnlabelSource { payee_id, norm } => texts2(payee_id.as_str(), norm.as_str()),
            Action::DropAlias { payee_id, norm } => texts2(payee_id.as_str(), norm.as_str()),
            Action::CountTxnsOf { payee_id } => texts1(payee_id.as_str()),
            Action::StatementById { id } => texts1(id.as_str()),
            Action::SpendByCategory { statement_id } => scope_vals(statement_id),
            Action::UnlabeledTotals { statement_id } => scope_vals(statement_id),
            Action::TopPayees { statement_id } => scope_vals(statement_id),
            Action::MonthlyTotals { statement_id } => scope_vals(statement_id),
            Action::ListTxns { filter } => {
                let mut vals: Vec<SqlValue> = Vec::new();
                push_filter_params(filter, &mut vals);
                vals
            },
            _ => {
                let none: Vec<SqlValue> = Vec::new();
                proof {
                    assert(value_views(none@) =~= Seq::<SqlView>::empty());
                }
                none
            },
        }
    }

    /// How it is run.
    pub fn mode(&self) -> (r: Mode)
        ensures
            r == action_mode(self@),
    {
        match self {
            Action::CountTables => Mode::FirstRow,
            Action::OtherNamed { .. } => Mode::FirstRow,
            Action::FindStatement { .. } => Mode::FirstRow,
            Action::AliasOf { .. } => Mode::FirstRow,
            Action::FindPayee { .. } => Mode::FirstRow,
            Action::CountLabeled { .. } => Mode::FirstRow,
            Action::FindCategory { .. } => Mode::FirstRow,
            Action::CountTxnsOf { .. } => Mode::FirstRow,
            Action::StatementById { .. } => Mode::FirstRow,
            Action::LatestStatement => Mode::FirstRow,
            Action::UnlabeledTotals { .. } => Mode::FirstRow,
            Action::ReadSchema => Mode::AllRows,
            Action::RawMerchants => Mode::AllRows,
            Action::SharedNorms => Mode::AllRows,
            Action::SharedNames => Mode::AllRows,
            Action::OthersNamed { .. } => Mode::AllRows,
            Action::SpendByCategory { .. } => Mode::AllRows,
            Action::TopPayees { .. } => Mode::AllRows,
            Action::MonthlyTotals { .. } => Mode::AllRows,
            Action::ListTxns { .. } => Mode::AllRows,
            Action::UnlabeledTxns => Mode::AllRows,
            Action::ListCategories => Mode::AllRows,
            Action::ListPayees => Mode::AllRows,
            Action::PayeeSources => Mode::AllRows,
            Action::ListStatements => Mode::AllRows,
            Action::InstallSchema => Mode::Batch,
            Action::ReadDeclaredSchema => Mode::Declared,
            _ => Mode::Execute,
        }
    }
}

} // verus!
