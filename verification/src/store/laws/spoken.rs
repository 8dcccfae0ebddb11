//! What the statements of the store say is what the model says that they do.
//!
//! Each statement of the store has a form as a [`Sql`]. Its text and its
//! parameters are those of the form, and what the form means is what [`does`]
//! tells of the statement.

use crate::parse::{ParsedTxnView, StatementHeadView};
use crate::store::action::{action_params, action_sql, ActionView, ADOPT_ALIASES, ALIAS_OF,
    CLEAR_ALIASES, COUNT_LABELED, COUNT_TXNS_OF, DROP_ALIAS, DROP_ALIASES_OF, DROP_PAYEE,
    DROP_UNUSED_PAYEES, FIND_CATEGORY, FIND_PAYEE, FIND_STATEMENT, INSERT_ALIAS, INSERT_PAYEE,
    INSERT_STATEMENT, INSERT_TXN, IN_CATEGORY, LABEL_TXNS, LATEST_STATEMENT, LINK_UNLABELED,
    LIST_CATEGORIES, LIST_PAYEES, LIST_STATEMENTS, LIST_TXNS, LIST_TXNS_END, MATCHING,
    MONTHLY_TOTALS, MONTHLY_TOTALS_END, MOVE_TXNS, OTHERS_NAMED, PAYEE_SOURCES, RAW_MERCHANTS,
    REBUILD_ALIASES, SET_NORM, SET_PAYEE_CATEGORY, SET_PAYEE_NAME, SHARED_NAMES, SHARED_NORMS,
    SPEND_BY_CATEGORY, SPEND_BY_CATEGORY_END, STATEMENT_BY_ID, TOP_PAYEES, TOP_PAYEES_END,
    UNIFY_NORM, UNLABELED_ONLY, UNLABELED_TOTALS, UNLABELED_TXNS, UNLABEL_PAYEE, UNLABEL_SOURCE,
    UPDATE_ALIAS, UPSERT_ALIAS};
use crate::store::filter::{pattern, scope, scope_params, where_params, where_text, TxnFilterView};
use crate::store::lang::{cond_text, conds_params, conds_text, exprs_text, from_text, orders_text,
    set_cols_text, set_vals_text, sets_params, sets_text, sql_params, sql_text, By, Col, Cond,
    Conds, Expr, Exprs, From, Having, Orders, Sets, Side, Sql, Table, Val};
use crate::store::migrations::declared_schema;
use crate::store::value::{integer_or_null, text_or_null, SqlView};
use vstd::prelude::*;

verus! {

pub open spec fn text_param(s: Seq<char>) -> Val {
    Val::Param(SqlView::Text(s))
}

pub open spec fn where1(a: Cond) -> Conds {
    Conds::And(a, Box::new(Conds::End))
}

pub open spec fn where2(a: Cond, b: Cond) -> Conds {
    Conds::And(a, Box::new(where1(b)))
}

pub open spec fn where3(a: Cond, b: Cond, c: Cond) -> Conds {
    Conds::And(a, Box::new(where2(b, c)))
}

/// A column of the table itself is a text.
pub open spec fn own_is(col: Col, s: Seq<char>) -> Cond {
    Cond::Eq(Side::Own, col, text_param(s))
}

pub open spec fn set1(col: Col, val: Val) -> Sets {
    Sets::Put(col, val, Box::new(Sets::End))
}

pub open spec fn out1(a: Expr) -> Exprs {
    Exprs::Next(a, Box::new(Exprs::End))
}

pub open spec fn out2(a: Expr, b: Expr) -> Exprs {
    Exprs::Next(a, Box::new(out1(b)))
}

pub open spec fn out3(a: Expr, b: Expr, c: Expr) -> Exprs {
    Exprs::Next(a, Box::new(out2(b, c)))
}

pub open spec fn out4(a: Expr, b: Expr, c: Expr, d: Expr) -> Exprs {
    Exprs::Next(a, Box::new(out3(b, c, d)))
}

pub open spec fn out6(a: Expr, b: Expr, c: Expr, d: Expr, e: Expr, f: Expr) -> Exprs {
    Exprs::Next(a, Box::new(Exprs::Next(b, Box::new(out4(c, d, e, f)))))
}

pub open spec fn own(col: Col) -> Expr {
    Expr::Col(Side::Own, col)
}

/// A column of a transaction.
pub open spec fn txn(col: Col) -> Expr {
    Expr::Col(Side::T, col)
}

/// The columns of a statement.
pub open spec fn statement_cols() -> Exprs {
    out4_more(
        own(Col::Id),
        own(Col::SourceSha256),
        own(Col::PeriodEnd),
        own(Col::NextPeriodEnd),
        statement_more_cols(),
    )
}

pub open spec fn statement_more_cols() -> Exprs {
    out4_more(
        own(Col::DueDate),
        own(Col::NextDueDate),
        own(Col::PreviousBalance),
        own(Col::Spend),
        out4_more(own(Col::Fees), own(Col::Payments), own(Col::PeriodDebt), own(Col::PeriodDebtUsd), statement_last_cols()),
    )
}

pub open spec fn statement_last_cols() -> Exprs {
    out4(own(Col::MinPay), own(Col::CardLimit), own(Col::AvailableLimit), own(Col::ImportedAt))
}

pub open spec fn out4_more(a: Expr, b: Expr, c: Expr, d: Expr, more: Exprs) -> Exprs {
    Exprs::Next(
        a,
        Box::new(
            Exprs::Next(b, Box::new(Exprs::Next(c, Box::new(Exprs::Next(d, Box::new(more)))))),
        ),
    )
}

/// The columns of a transaction, with the names of its payee and category.
pub open spec fn txn_cols() -> Exprs {
    out4_more(
        txn(Col::Id),
        txn(Col::StatementId),
        txn(Col::RowIndex),
        txn(Col::Date),
        out4_more(
            txn(Col::MerchantRaw),
            txn(Col::MerchantNorm),
            txn(Col::Extra),
            txn(Col::Amount),
            out4_more(
                txn(Col::Direction),
                txn(Col::Usd),
                txn(Col::Lira),
                txn(Col::CardLast4),
                out6(
                    txn(Col::Kind),
                    txn(Col::PayeeId),
                    Expr::Col(Side::P, Col::Name),
                    Expr::Col(Side::C, Col::Id),
                    Expr::Col(Side::C, Col::Name),
                    Expr::Col(Side::C, Col::Color),
                ),
            ),
        ),
    )
}

pub open spec fn spend_cols() -> Exprs {
    out6(
        Expr::Col(Side::C, Col::Id),
        Expr::Col(Side::C, Col::Name),
        Expr::Col(Side::C, Col::Kind),
        Expr::Col(Side::C, Col::Color),
        Expr::Col(Side::C, Col::Sort),
        Expr::Sum(Side::T),
    )
}

pub open spec fn unlabeled_cols() -> Exprs {
    out2(Expr::SumOfOrZero(Side::T, "debit"@), Expr::Count)
}

pub open spec fn paid_cols() -> Exprs {
    out2(Expr::Col(Side::P, Col::Name), Expr::Sum(Side::T))
}

pub open spec fn month_cols() -> Exprs {
    out3(Expr::Month, Expr::SumOf(Side::Own, "debit"@), Expr::SumOf(Side::Own, "credit"@))
}

pub open spec fn put(col: Col, v: SqlView, rest: Sets) -> Sets {
    Sets::Put(col, Val::Param(v), Box::new(rest))
}

/// The columns of a statement that is stored, each with its own value.
pub open spec fn statement_sets(id: Seq<char>, head: StatementHeadView, now: Seq<char>) -> Sets {
    put(
        Col::Id,
        SqlView::Text(id),
        put(
            Col::SourceSha256,
            SqlView::Text(head.source_sha256),
            put(
                Col::PeriodEnd,
                SqlView::Text(head.period_end),
                put(
                    Col::NextPeriodEnd,
                    text_or_null(head.next_period_end),
                    put(
                        Col::DueDate,
                        text_or_null(head.due_date),
                        put(
                            Col::NextDueDate,
                            text_or_null(head.next_due_date),
                            put(
                                Col::PreviousBalance,
                                SqlView::Integer(head.previous_balance_minor),
                                put(
                                    Col::Spend,
                                    SqlView::Integer(head.spend_minor),
                                    statement_sums(head, now),
                                ),
                            ),
                        ),
                    ),
                ),
            ),
        ),
    )
}

pub open spec fn statement_sums(head: StatementHeadView, now: Seq<char>) -> Sets {
    put(
        Col::Fees,
        SqlView::Integer(head.fees_minor),
        put(
            Col::Payments,
            SqlView::Integer(head.payments_minor),
            put(
                Col::PeriodDebt,
                SqlView::Integer(head.period_debt_minor),
                put(
                    Col::PeriodDebtUsd,
                    SqlView::Integer(head.period_debt_usd_minor),
                    put(
                        Col::MinPay,
                        SqlView::Integer(head.min_pay_minor),
                        put(
                            Col::CardLimit,
                            integer_or_null(head.card_limit_minor),
                            put(
                                Col::AvailableLimit,
                                integer_or_null(head.available_limit_minor),
                                put(Col::ImportedAt, SqlView::Text(now), Sets::End),
                            ),
                        ),
                    ),
                ),
            ),
        ),
    )
}

/// The columns of a transaction that is stored, each with its own value.
pub open spec fn txn_sets(
    id: Seq<char>,
    statement_id: Seq<char>,
    txn: ParsedTxnView,
    payee_id: Option<Seq<char>>,
) -> Sets {
    put(
        Col::Id,
        SqlView::Text(id),
        put(
            Col::StatementId,
            SqlView::Text(statement_id),
            put(
                Col::RowIndex,
                SqlView::Integer(txn.row_index),
                put(
                    Col::Date,
                    SqlView::Text(txn.date),
                    put(
                        Col::MerchantRaw,
                        SqlView::Text(txn.merchant_raw),
                        put(
                            Col::MerchantNorm,
                            SqlView::Text(txn.merchant_norm),
                            put(Col::Extra, SqlView::Text(txn.extra), txn_sums(txn, payee_id)),
                        ),
                    ),
                ),
            ),
        ),
    )
}

pub open spec fn txn_sums(txn: ParsedTxnView, payee_id: Option<Seq<char>>) -> Sets {
    put(
        Col::Amount,
        SqlView::Integer(txn.amount_minor),
        put(
            Col::Direction,
            SqlView::Text(txn.direction.text()),
            put(
                Col::Usd,
                integer_or_null(txn.usd_minor),
                put(
                    Col::Lira,
                    SqlView::Integer(txn.bankkart_lira_minor),
                    put(
                        Col::CardLast4,
                        SqlView::Text(txn.card_last4),
                        put(
                            Col::Kind,
                            SqlView::Text(txn.kind.text()),
                            put(Col::PayeeId, text_or_null(payee_id), Sets::End),
                        ),
                    ),
                ),
            ),
        ),
    )
}

pub open spec fn alias_sets(norm: Seq<char>, payee_id: Seq<char>, now: Seq<char>) -> Sets {
    put(
        Col::MerchantNorm,
        SqlView::Text(norm),
        put(
            Col::PayeeId,
            SqlView::Text(payee_id),
            put(Col::CreatedAt, SqlView::Text(now), Sets::End),
        ),
    )
}

/// The condition on the statement that is asked for, before others.
pub open spec fn of_statement(statement_id: Option<Seq<char>>, more: Conds) -> Conds {
    match statement_id {
        Some(id) => Conds::And(
            Cond::Eq(Side::T, Col::StatementId, text_param(id)),
            Box::new(more),
        ),
        None => more,
    }
}

pub open spec fn of_search(q: Option<Seq<char>>) -> Conds {
    match q {
        Some(q) => where1(Cond::Search(text_param(pattern(q)))),
        None => Conds::End,
    }
}

pub open spec fn of_unlabeled(only: bool, more: Conds) -> Conds {
    if only {
        Conds::And(Cond::IsNull(Side::T, Col::PayeeId), Box::new(more))
    } else {
        more
    }
}

pub open spec fn of_category(category_id: Option<Seq<char>>, more: Conds) -> Conds {
    match category_id {
        Some(id) => Conds::And(Cond::OfCategory(text_param(id)), Box::new(more)),
        None => more,
    }
}

/// The conditions of a filter.
pub open spec fn filter_conds(f: TxnFilterView) -> Conds {
    of_statement(
        f.statement_id,
        of_category(f.category_id, of_unlabeled(f.unlabeled_only, of_search(f.q))),
    )
}

pub open spec fn latest_order() -> Orders {
    Orders::Next(
        own(Col::PeriodEnd),
        true,
        Box::new(Orders::Next(own(Col::ImportedAt), true, Box::new(Orders::End))),
    )
}

pub open spec fn order1(expr: Expr, largest_first: bool) -> Orders {
    Orders::Next(expr, largest_first, Box::new(Orders::End))
}

pub open spec fn list_own(out: Exprs, table: Table, conds: Conds) -> Sql {
    Sql::List { out, from: From::One(table), conds, order: Orders::End, limit: None }
}

/// A statement of the store as SQL; what only sets the database up has no
/// form.
pub open spec fn spoken(action: ActionView) -> Option<Sql> {
    match action {
        ActionView::RawMerchants => Some(
            Sql::Group {
                out: out1(own(Col::MerchantRaw)),
                from: From::One(Table::Txn),
                conds: Conds::End,
                key: out1(own(Col::MerchantRaw)),
                by: By::Distinct,
                having: Having::Any,
                order: Orders::End,
                limit: None,
            },
        ),
        ActionView::SetNorm { norm, raw } => Some(
            Sql::Update {
                table: Table::Txn,
                sets: set1(Col::MerchantNorm, text_param(norm)),
                conds: where1(own_is(Col::MerchantRaw, raw)),
            },
        ),
        ActionView::SharedNorms => Some(
            Sql::Group {
                out: out2(own(Col::MerchantNorm), Expr::Min(Col::PayeeId)),
                from: From::One(Table::Txn),
                conds: where1(Cond::NotNull(Side::Own, Col::PayeeId)),
                key: out1(own(Col::MerchantNorm)),
                by: By::Cols,
                having: Having::ManyPayees,
                order: Orders::End,
                limit: None,
            },
        ),
        ActionView::UnifyNorm { keeper, norm } => Some(
            Sql::Update {
                table: Table::Txn,
                sets: set1(Col::PayeeId, text_param(keeper)),
                conds: where2(
                    own_is(Col::MerchantNorm, norm),
                    Cond::NotNull(Side::Own, Col::PayeeId),
                ),
            },
        ),
        ActionView::ClearAliases => Some(Sql::Delete { table: Table::Alias, conds: Conds::End }),
        ActionView::RebuildAliases { now } => Some(Sql::Rebuild { now: text_param(now) }),
        ActionView::SharedNames => Some(
            Sql::Group {
                out: out2(own(Col::Name), Expr::Min(Col::Id)),
                from: From::One(Table::Payee),
                conds: Conds::End,
                key: out1(own(Col::Name)),
                by: By::Cols,
                having: Having::Many,
                order: Orders::End,
                limit: None,
            },
        ),
        ActionView::OthersNamed { name, id } => Some(others_named(name, id)),
        ActionView::OtherNamed { name, id } => Some(others_named(name, id)),
        ActionView::MoveTxns { keeper, extra } => Some(
            Sql::Update {
                table: Table::Txn,
                sets: set1(Col::PayeeId, text_param(keeper)),
                conds: where1(own_is(Col::PayeeId, extra)),
            },
        ),
        ActionView::AdoptAliases { keeper, now } => Some(
            Sql::Adopt {
                payee: text_param(keeper),
                now: text_param(now),
                of: text_param(keeper),
            },
        ),
        ActionView::DropUnusedPayees => Some(
            Sql::Delete { table: Table::Payee, conds: where1(Cond::Unused) },
        ),
        ActionView::FindStatement { source_sha256 } => Some(
            list_own(
                out1(own(Col::Id)),
                Table::Statement,
                where1(own_is(Col::SourceSha256, source_sha256)),
            ),
        ),
        ActionView::InsertStatement { id, head, now } => Some(
            Sql::Insert { table: Table::Statement, sets: statement_sets(id, head, now) },
        ),
        ActionView::AliasOf { norm } => Some(
            list_own(
                out1(own(Col::PayeeId)),
                Table::Alias,
                where1(own_is(Col::MerchantNorm, norm)),
            ),
        ),
        ActionView::InsertTxn { id, statement_id, txn, payee_id } => Some(
            Sql::Insert { table: Table::Txn, sets: txn_sets(id, statement_id, txn, payee_id) },
        ),
        ActionView::FindPayee { name } => Some(
            list_own(out1(own(Col::Id)), Table::Payee, where1(own_is(Col::Name, name))),
        ),
        ActionView::InsertPayee { id, name, category_id, now } => Some(
            Sql::Insert {
                table: Table::Payee,
                sets: put(
                    Col::Id,
                    SqlView::Text(id),
                    put(
                        Col::Name,
                        SqlView::Text(name),
                        put(
                            Col::CategoryId,
                            SqlView::Text(category_id),
                            put(Col::CreatedAt, SqlView::Text(now), Sets::End),
                        ),
                    ),
                ),
            },
        ),
        ActionView::UpsertAlias { norm, payee_id, now } => Some(
            Sql::Upsert { sets: alias_sets(norm, payee_id, now) },
        ),
        ActionView::LinkUnlabeled { payee_id, statement_id, norm } => Some(
            Sql::Update {
                table: Table::Txn,
                sets: set1(Col::PayeeId, text_param(payee_id)),
                conds: where3(
                    own_is(Col::StatementId, statement_id),
                    own_is(Col::MerchantNorm, norm),
                    Cond::IsNull(Side::Own, Col::PayeeId),
                ),
            },
        ),
        ActionView::CountLabeled { statement_id } => Some(
            Sql::TwoCounts {
                all: text_param(statement_id),
                labeled: text_param(statement_id),
            },
        ),
        ActionView::FindCategory { id } => Some(
            Sql::Any { table: Table::Category, conds: where1(own_is(Col::Id, id)) },
        ),
        ActionView::SetPayeeCategory { category_id, payee_id } => Some(
            Sql::Update {
                table: Table::Payee,
                sets: set1(Col::CategoryId, text_param(category_id)),
                conds: where1(own_is(Col::Id, payee_id)),
            },
        ),
        ActionView::InsertAlias { norm, payee_id, now } => Some(
            Sql::Insert { table: Table::Alias, sets: alias_sets(norm, payee_id, now) },
        ),
        ActionView::UpdateAlias { payee_id, norm } => Some(
            Sql::Update {
                table: Table::Alias,
                sets: set1(Col::PayeeId, text_param(payee_id)),
                conds: where1(own_is(Col::MerchantNorm, norm)),
            },
        ),
        ActionView::LabelTxns { payee_id, norm } => Some(
            Sql::Update {
                table: Table::Txn,
                sets: set1(Col::PayeeId, text_param(payee_id)),
                conds: where1(own_is(Col::MerchantNorm, norm)),
            },
        ),
        ActionView::SetPayeeName { name, payee_id } => Some(
            Sql::Update {
                table: Table::Payee,
                sets: set1(Col::Name, text_param(name)),
                conds: where1(own_is(Col::Id, payee_id)),
            },
        ),
        ActionView::UnlabelPayee { payee_id } => Some(
            Sql::Update {
                table: Table::Txn,
                sets: set1(Col::PayeeId, Val::Null),
                conds: where1(own_is(Col::PayeeId, payee_id)),
            },
        ),
        ActionView::DropAliasesOf { payee_id } => Some(
            Sql::Delete { table: Table::Alias, conds: where1(own_is(Col::PayeeId, payee_id)) },
        ),
        ActionView::DropPayee { payee_id } => Some(
            Sql::Delete { table: Table::Payee, conds: where1(own_is(Col::Id, payee_id)) },
        ),
        ActionView::UnlabelSource { payee_id, norm } => Some(
            Sql::Update {
                table: Table::Txn,
                sets: set1(Col::PayeeId, Val::Null),
                conds: where2(own_is(Col::PayeeId, payee_id), own_is(Col::MerchantNorm, norm)),
            },
        ),
        ActionView::DropAlias { payee_id, norm } => Some(
            Sql::Delete {
                table: Table::Alias,
                conds: where2(own_is(Col::PayeeId, payee_id), own_is(Col::MerchantNorm, norm)),
            },
        ),
        ActionView::CountTxnsOf { payee_id } => Some(
            Sql::Totals {
                out: out1(Expr::Count),
                from: From::One(Table::Txn),
                conds: where1(own_is(Col::PayeeId, payee_id)),
            },
        ),
        ActionView::StatementById { id } => Some(
            list_own(statement_cols(), Table::Statement, where1(own_is(Col::Id, id))),
        ),
        ActionView::LatestStatement => Some(
            Sql::List {
                out: statement_cols(),
                from: From::One(Table::Statement),
                conds: Conds::End,
                order: latest_order(),
                limit: Some(1),
            },
        ),
        ActionView::ListStatements => Some(
            Sql::List {
                out: statement_cols(),
                from: From::One(Table::Statement),
                conds: Conds::End,
                order: latest_order(),
                limit: None,
            },
        ),
        ActionView::SpendByCategory { statement_id } => Some(
            Sql::Group {
                out: spend_cols(),
                from: From::WithCategory,
                conds: Conds::And(
                    Cond::Eq(Side::T, Col::Direction, Val::Word("debit"@)),
                    Box::new(
                        Conds::And(
                            Cond::Eq(Side::C, Col::Kind, Val::Word("spend"@)),
                            Box::new(of_statement(statement_id, Conds::End)),
                        ),
                    ),
                ),
                key: out1(Expr::Col(Side::C, Col::Id)),
                by: By::Cols,
                having: Having::Any,
                order: order1(Expr::Sum(Side::T), true),
                limit: None,
            },
        ),
        ActionView::UnlabeledTotals { statement_id } => Some(
            Sql::Totals {
                out: unlabeled_cols(),
                from: From::Short,
                conds: Conds::And(
                    Cond::IsNull(Side::T, Col::PayeeId),
                    Box::new(of_statement(statement_id, Conds::End)),
                ),
            },
        ),
        ActionView::TopPayees { statement_id } => Some(
            Sql::Group {
                out: paid_cols(),
                from: From::WithPayee,
                conds: Conds::And(
                    Cond::Eq(Side::T, Col::Direction, Val::Word("debit"@)),
                    Box::new(of_statement(statement_id, Conds::End)),
                ),
                key: out1(Expr::Col(Side::P, Col::Id)),
                by: By::Cols,
                having: Having::Any,
                order: order1(Expr::Sum(Side::T), true),
                limit: Some(8),
            },
        ),
        ActionView::MonthlyTotals { statement_id } => Some(
            Sql::Group {
                out: month_cols(),
                from: From::Short,
                conds: Conds::And(
                    Cond::Always,
                    Box::new(of_statement(statement_id, Conds::End)),
                ),
                key: out1(Expr::Month),
                by: By::First,
                having: Having::Any,
                order: order1(Expr::Month, false),
                limit: None,
            },
        ),
        ActionView::ListTxns { filter } => Some(
            Sql::List {
                out: txn_cols(),
                from: From::WithAny,
                conds: Conds::And(Cond::Always, Box::new(filter_conds(filter))),
                order: Orders::Next(
                    txn(Col::Date),
                    true,
                    Box::new(order1(txn(Col::RowIndex), true)),
                ),
                limit: None,
            },
        ),
        ActionView::UnlabeledTxns => Some(
            Sql::List {
                out: out6(
                    own(Col::MerchantNorm),
                    own(Col::MerchantRaw),
                    own(Col::Extra),
                    own(Col::Date),
                    own(Col::Amount),
                    own(Col::Direction),
                ),
                from: From::One(Table::Txn),
                conds: where1(Cond::IsNull(Side::Own, Col::PayeeId)),
                order: Orders::Next(
                    own(Col::Date),
                    true,
                    Box::new(order1(own(Col::RowIndex), true)),
                ),
                limit: None,
            },
        ),
        ActionView::ListCategories => Some(
            Sql::List {
                out: Exprs::Next(
                    own(Col::Id),
                    Box::new(
                        out4(own(Col::Name), own(Col::Kind), own(Col::Color), own(Col::Sort)),
                    ),
                ),
                from: From::One(Table::Category),
                conds: Conds::End,
                order: order1(own(Col::Sort), false),
                limit: None,
            },
        ),
        ActionView::ListPayees => Some(
            Sql::List {
                out: out4(own(Col::Id), own(Col::Name), own(Col::CategoryId), own(Col::CreatedAt)),
                from: From::One(Table::Payee),
                conds: Conds::End,
                order: order1(own(Col::Name), false),
                limit: None,
            },
        ),
        ActionView::PayeeSources => Some(
            Sql::Group {
                out: out4(
                    own(Col::PayeeId),
                    own(Col::MerchantNorm),
                    Expr::Count,
                    Expr::Min(Col::MerchantRaw),
                ),
                from: From::One(Table::Txn),
                conds: where1(Cond::NotNull(Side::Own, Col::PayeeId)),
                key: out2(own(Col::PayeeId), own(Col::MerchantNorm)),
                by: By::Cols,
                having: Having::Any,
                order: Orders::Next(
                    Expr::Count,
                    true,
                    Box::new(order1(own(Col::MerchantNorm), false)),
                ),
                limit: None,
            },
        ),
        _ => None,
    }
}

pub open spec fn others_named(name: Seq<char>, id: Seq<char>) -> Sql {
    list_own(
        out1(own(Col::Id)),
        Table::Payee,
        where2(own_is(Col::Name, name), Cond::Ne(Side::Own, Col::Id, text_param(id))),
    )
}

proof fn text_of_statement_last_cols()
    ensures
        exprs_text(", "@, statement_last_cols()) == ", min_pay_minor, card_limit_minor, available_limit_minor, imported_at"@,
{
    reveal_with_fuel(exprs_text, 5);
    reveal_strlit(", ");
    reveal_strlit(", min_pay_minor, card_limit_minor, available_limit_minor, imported_at");
    reveal_strlit("min_pay_minor");
    reveal_strlit("card_limit_minor");
    reveal_strlit("available_limit_minor");
    reveal_strlit("imported_at");
    assert(exprs_text(", "@, statement_last_cols()) =~= ", min_pay_minor, card_limit_minor, available_limit_minor, imported_at"@);
}

proof fn text_of_statement_more_cols()
    ensures
        exprs_text(", "@, statement_more_cols()) == ", due_date, next_due_date, previous_balance_minor, spend_minor, fees_minor, payments_minor, period_debt_minor, period_debt_usd_minor, min_pay_minor, card_limit_minor, available_limit_minor, imported_at"@,
{
    text_of_statement_last_cols();
    reveal_with_fuel(exprs_text, 9);
    reveal_strlit(", ");
    reveal_strlit(", min_pay_minor, card_limit_minor, available_limit_minor, imported_at");
    reveal_strlit(
        ", due_date, next_due_date, previous_balance_minor, spend_minor, fees_minor, payments_minor, period_debt_minor, period_debt_usd_minor, min_pay_minor, card_limit_minor, available_limit_minor, imported_at",
    );
    reveal_strlit("due_date");
    reveal_strlit("next_due_date");
    reveal_strlit("previous_balance_minor");
    reveal_strlit("spend_minor");
    reveal_strlit("fees_minor");
    reveal_strlit("payments_minor");
    reveal_strlit("period_debt_minor");
    reveal_strlit("period_debt_usd_minor");
    assert(exprs_text(", "@, statement_more_cols()) =~= ", due_date, next_due_date, previous_balance_minor, spend_minor, fees_minor, payments_minor, period_debt_minor, period_debt_usd_minor, min_pay_minor, card_limit_minor, available_limit_minor, imported_at"@);
}

proof fn text_of_statement_cols()
    ensures
        exprs_text("SELECT "@, statement_cols()) == "SELECT id, source_sha256, period_end, next_period_end, due_date, next_due_date, previous_balance_minor, spend_minor, fees_minor, payments_minor, period_debt_minor, period_debt_usd_minor, min_pay_minor, card_limit_minor, available_limit_minor, imported_at"@,
{
    text_of_statement_more_cols();
    reveal_with_fuel(exprs_text, 5);
    reveal_strlit("SELECT ");
    reveal_strlit(", ");
    reveal_strlit(
        ", due_date, next_due_date, previous_balance_minor, spend_minor, fees_minor, payments_minor, period_debt_minor, period_debt_usd_minor, min_pay_minor, card_limit_minor, available_limit_minor, imported_at",
    );
    reveal_strlit(
        "SELECT id, source_sha256, period_end, next_period_end, due_date, next_due_date, previous_balance_minor, spend_minor, fees_minor, payments_minor, period_debt_minor, period_debt_usd_minor, min_pay_minor, card_limit_minor, available_limit_minor, imported_at",
    );
    reveal_strlit("id");
    reveal_strlit("source_sha256");
    reveal_strlit("period_end");
    reveal_strlit("next_period_end");
    assert(exprs_text("SELECT "@, statement_cols()) =~= "SELECT id, source_sha256, period_end, next_period_end, due_date, next_due_date, previous_balance_minor, spend_minor, fees_minor, payments_minor, period_debt_minor, period_debt_usd_minor, min_pay_minor, card_limit_minor, available_limit_minor, imported_at"@);
}

proof fn text_of_statement_sums(head: StatementHeadView, now: Seq<char>)
    ensures
        set_cols_text(", "@, statement_sums(head, now)) == ", fees_minor, payments_minor, period_debt_minor, period_debt_usd_minor, min_pay_minor, card_limit_minor, available_limit_minor, imported_at"@,
        set_vals_text(", "@, statement_sums(head, now)) == ", ?, ?, ?, ?, ?, ?, ?, ?"@,
{
    reveal_with_fuel(set_cols_text, 9);
    reveal_with_fuel(set_vals_text, 9);
    reveal_strlit(", ");
    reveal_strlit("?");
    reveal_strlit(", ?, ?, ?, ?, ?, ?, ?, ?");
    reveal_strlit(
        ", fees_minor, payments_minor, period_debt_minor, period_debt_usd_minor, min_pay_minor, card_limit_minor, available_limit_minor, imported_at",
    );
    reveal_strlit("fees_minor");
    reveal_strlit("payments_minor");
    reveal_strlit("period_debt_minor");
    reveal_strlit("period_debt_usd_minor");
    reveal_strlit("min_pay_minor");
    reveal_strlit("card_limit_minor");
    reveal_strlit("available_limit_minor");
    reveal_strlit("imported_at");
    let sets = statement_sums(head, now);
    assert(set_cols_text(", "@, sets) =~= ", fees_minor, payments_minor, period_debt_minor, period_debt_usd_minor, min_pay_minor, card_limit_minor, available_limit_minor, imported_at"@);
    assert(set_vals_text(", "@, sets) =~= ", ?, ?, ?, ?, ?, ?, ?, ?"@);
}

proof fn text_of_insert_statement(action: ActionView)
    requires
        action is InsertStatement,
    ensures
        spoken(action) is Some,
        sql_text(spoken(action)->0) == INSERT_STATEMENT@,
        sql_params(spoken(action)->0) == action_params(action),
{
    let head = action->InsertStatement_head;
    let now = action->InsertStatement_now;
    text_of_statement_sums(head, now);
    assert(sql_text(spoken(action)->0) =~= INSERT_STATEMENT@) by {
        reveal_with_fuel(set_cols_text, 9);
        reveal_with_fuel(set_vals_text, 9);
        reveal_strlit(
        "INSERT INTO statement (id, source_sha256, period_end, next_period_end, due_date, next_due_date, previous_balance_minor, spend_minor, fees_minor, payments_minor, period_debt_minor, period_debt_usd_minor, min_pay_minor, card_limit_minor, available_limit_minor, imported_at) VALUES (?, ?, ?, ?, ?, ?, ?, ?, ?, ?, ?, ?, ?, ?, ?, ?)",
    );
    reveal_strlit("INSERT INTO ");
    reveal_strlit("statement");
    reveal_strlit(" (");
    reveal_strlit(") VALUES (");
    reveal_strlit(")");
    reveal_strlit(", ");
    reveal_strlit("?");
    reveal_strlit(", ?, ?, ?, ?, ?, ?, ?, ?");
    reveal_strlit(
        ", fees_minor, payments_minor, period_debt_minor, period_debt_usd_minor, min_pay_minor, card_limit_minor, available_limit_minor, imported_at",
    );
    reveal_strlit("id");
    reveal_strlit("source_sha256");
    reveal_strlit("period_end");
    reveal_strlit("next_period_end");
    reveal_strlit("due_date");
    reveal_strlit("next_due_date");
    reveal_strlit("previous_balance_minor");
    reveal_strlit("spend_minor");
    }
    reveal_with_fuel(sets_params, 18);
    assert(sql_params(spoken(action)->0) =~= action_params(action));
}

proof fn text_of_statement_by_id(action: ActionView)
    requires
        action is StatementById,
    ensures
        spoken(action) is Some,
        sql_text(spoken(action)->0) == STATEMENT_BY_ID@,
        sql_params(spoken(action)->0) == action_params(action),
{
    text_of_statement_cols();
    reveal_with_fuel(conds_text, 2);
    reveal_with_fuel(orders_text, 3);
    reveal_with_fuel(conds_params, 2);
    reveal_strlit(
        "SELECT id, source_sha256, period_end, next_period_end, due_date, next_due_date, previous_balance_minor, spend_minor, fees_minor, payments_minor, period_debt_minor, period_debt_usd_minor, min_pay_minor, card_limit_minor, available_limit_minor, imported_at FROM statement WHERE id = ?",
    );
    reveal_strlit(
        "SELECT id, source_sha256, period_end, next_period_end, due_date, next_due_date, previous_balance_minor, spend_minor, fees_minor, payments_minor, period_debt_minor, period_debt_usd_minor, min_pay_minor, card_limit_minor, available_limit_minor, imported_at",
    );
    reveal_strlit(" FROM ");
    reveal_strlit("statement");
    reveal_strlit(" WHERE ");
    reveal_strlit("id");
    reveal_strlit(" = ");
    reveal_strlit("?");
    assert(STATEMENT_BY_ID@ =~= sql_text(spoken(action)->0));
    assert(sql_params(spoken(action)->0) =~= action_params(action));
}

proof fn text_of_latest_statement(action: ActionView)
    requires
        action is LatestStatement,
    ensures
        spoken(action) is Some,
        sql_text(spoken(action)->0) == LATEST_STATEMENT@,
        sql_params(spoken(action)->0) == action_params(action),
{
    text_of_statement_cols();
    reveal_with_fuel(conds_text, 2);
    reveal_with_fuel(orders_text, 3);
    reveal_with_fuel(conds_params, 2);
    reveal_strlit(
        "SELECT id, source_sha256, period_end, next_period_end, due_date, next_due_date, previous_balance_minor, spend_minor, fees_minor, payments_minor, period_debt_minor, period_debt_usd_minor, min_pay_minor, card_limit_minor, available_limit_minor, imported_at FROM statement ORDER BY period_end DESC, imported_at DESC LIMIT 1",
    );
    reveal_strlit(
        "SELECT id, source_sha256, period_end, next_period_end, due_date, next_due_date, previous_balance_minor, spend_minor, fees_minor, payments_minor, period_debt_minor, period_debt_usd_minor, min_pay_minor, card_limit_minor, available_limit_minor, imported_at",
    );
    reveal_strlit(" FROM ");
    reveal_strlit("statement");
    reveal_strlit(" ORDER BY ");
    reveal_strlit("period_end");
    reveal_strlit(", ");
    reveal_strlit("imported_at");
    reveal_strlit(" DESC");
    reveal_strlit(" LIMIT ");
    reveal_strlit("1");
    reveal_strlit(" LIMIT 1");
    assert(LATEST_STATEMENT@ =~= sql_text(spoken(action)->0));
    assert(sql_params(spoken(action)->0) =~= action_params(action));
}

proof fn text_of_list_statements(action: ActionView)
    requires
        action is ListStatements,
    ensures
        spoken(action) is Some,
        sql_text(spoken(action)->0) == LIST_STATEMENTS@,
        sql_params(spoken(action)->0) == action_params(action),
{
    text_of_statement_cols();
    reveal_with_fuel(conds_text, 2);
    reveal_with_fuel(orders_text, 3);
    reveal_with_fuel(conds_params, 2);
    reveal_strlit(
        "SELECT id, source_sha256, period_end, next_period_end, due_date, next_due_date, previous_balance_minor, spend_minor, fees_minor, payments_minor, period_debt_minor, period_debt_usd_minor, min_pay_minor, card_limit_minor, available_limit_minor, imported_at FROM statement ORDER BY period_end DESC, imported_at DESC",
    );
    reveal_strlit(
        "SELECT id, source_sha256, period_end, next_period_end, due_date, next_due_date, previous_balance_minor, spend_minor, fees_minor, payments_minor, period_debt_minor, period_debt_usd_minor, min_pay_minor, card_limit_minor, available_limit_minor, imported_at",
    );
    reveal_strlit(" FROM ");
    reveal_strlit("statement");
    reveal_strlit(" ORDER BY ");
    reveal_strlit("period_end");
    reveal_strlit(", ");
    reveal_strlit("imported_at");
    reveal_strlit(" DESC");
    reveal_strlit(" LIMIT ");
    reveal_strlit("1");
    reveal_strlit(" LIMIT 1");
    assert(LIST_STATEMENTS@ =~= sql_text(spoken(action)->0));
    assert(sql_params(spoken(action)->0) =~= action_params(action));
}

proof fn text_of_raw_merchants(action: ActionView)
    requires
        action is RawMerchants,
    ensures
        spoken(action) is Some,
        sql_text(spoken(action)->0) == RAW_MERCHANTS@,
        sql_params(spoken(action)->0) == action_params(action),
{
    reveal_with_fuel(exprs_text, 3);
    reveal_with_fuel(conds_text, 4);
    reveal_with_fuel(sets_text, 2);
    reveal_with_fuel(conds_params, 4);
    reveal_with_fuel(sets_params, 2);
    reveal_strlit("SELECT DISTINCT merchant_raw FROM txn");
    reveal_strlit("txn");
    reveal_strlit(" FROM ");
    reveal_strlit("SELECT ");
    reveal_strlit("merchant_raw");
    reveal_strlit("SELECT DISTINCT ");
    assert(RAW_MERCHANTS@ =~= sql_text(spoken(action)->0));
    assert(sql_params(spoken(action)->0) =~= action_params(action));
}

proof fn text_of_set_norm(action: ActionView)
    requires
        action is SetNorm,
    ensures
        spoken(action) is Some,
        sql_text(spoken(action)->0) == SET_NORM@,
        sql_params(spoken(action)->0) == action_params(action),
{
    reveal_with_fuel(conds_text, 4);
    reveal_with_fuel(sets_text, 2);
    reveal_with_fuel(conds_params, 4);
    reveal_with_fuel(sets_params, 2);
    reveal_strlit("UPDATE txn SET merchant_norm = ? WHERE merchant_raw = ?");
    reveal_strlit("?");
    reveal_strlit(" = ");
    reveal_strlit("txn");
    reveal_strlit(" SET ");
    reveal_strlit("UPDATE ");
    reveal_strlit(" WHERE ");
    reveal_strlit("merchant_raw");
    reveal_strlit("merchant_norm");
    assert(SET_NORM@ =~= sql_text(spoken(action)->0));
    assert(sql_params(spoken(action)->0) =~= action_params(action));
}

proof fn text_of_shared_norms(action: ActionView)
    requires
        action is SharedNorms,
    ensures
        spoken(action) is Some,
        sql_text(spoken(action)->0) == SHARED_NORMS@,
        sql_params(spoken(action)->0) == action_params(action),
{
    reveal_with_fuel(exprs_text, 3);
    reveal_with_fuel(conds_text, 4);
    reveal_with_fuel(sets_text, 2);
    reveal_with_fuel(conds_params, 4);
    reveal_with_fuel(sets_params, 2);
    reveal_strlit(
        "SELECT merchant_norm, MIN(payee_id) FROM txn WHERE payee_id IS NOT NULL GROUP BY merchant_norm HAVING COUNT(DISTINCT payee_id) > 1",
    );
    reveal_strlit(")");
    reveal_strlit(", ");
    reveal_strlit("id");
    reveal_strlit("txn");
    reveal_strlit("MIN(");
    reveal_strlit("NULL");
    reveal_strlit("payee");
    reveal_strlit(" FROM ");
    reveal_strlit("SELECT ");
    reveal_strlit(" WHERE ");
    reveal_strlit("payee_id");
    reveal_strlit(" GROUP BY ");
    reveal_strlit(" IS NOT NULL");
    reveal_strlit("merchant_norm");
    reveal_strlit(" HAVING COUNT(DISTINCT payee_id) > 1");
    reveal_strlit(" FROM txn WHERE payee_id IS NOT NULL GROUP BY merchant_norm");
    assert(SHARED_NORMS@ =~= sql_text(spoken(action)->0));
    assert(sql_params(spoken(action)->0) =~= action_params(action));
}

proof fn text_of_unify_norm(action: ActionView)
    requires
        action is UnifyNorm,
    ensures
        spoken(action) is Some,
        sql_text(spoken(action)->0) == UNIFY_NORM@,
        sql_params(spoken(action)->0) == action_params(action),
{
    reveal_with_fuel(conds_text, 4);
    reveal_with_fuel(sets_text, 2);
    reveal_with_fuel(conds_params, 4);
    reveal_with_fuel(sets_params, 2);
    reveal_strlit(
        "UPDATE txn SET payee_id = ? WHERE merchant_norm = ? AND payee_id IS NOT NULL",
    );
    reveal_strlit("?");
    reveal_strlit("id");
    reveal_strlit(" = ");
    reveal_strlit("txn");
    reveal_strlit("NULL");
    reveal_strlit(" SET ");
    reveal_strlit("payee");
    reveal_strlit(" AND ");
    reveal_strlit("UPDATE ");
    reveal_strlit(" WHERE ");
    reveal_strlit("payee_id");
    reveal_strlit(" IS NOT NULL");
    reveal_strlit("merchant_norm");
    assert(UNIFY_NORM@ =~= sql_text(spoken(action)->0));
    assert(sql_params(spoken(action)->0) =~= action_params(action));
}

proof fn text_of_clear_aliases(action: ActionView)
    requires
        action is ClearAliases,
    ensures
        spoken(action) is Some,
        sql_text(spoken(action)->0) == CLEAR_ALIASES@,
        sql_params(spoken(action)->0) == action_params(action),
{
    reveal_with_fuel(conds_text, 4);
    reveal_with_fuel(sets_text, 2);
    reveal_with_fuel(conds_params, 4);
    reveal_with_fuel(sets_params, 2);
    reveal_strlit("DELETE FROM payee_alias");
    reveal_strlit("payee");
    reveal_strlit(" FROM ");
    reveal_strlit("payee_alias");
    reveal_strlit("DELETE FROM ");
    assert(CLEAR_ALIASES@ =~= sql_text(spoken(action)->0));
    assert(sql_params(spoken(action)->0) =~= action_params(action));
}

proof fn text_of_rebuild_aliases(action: ActionView)
    requires
        action is RebuildAliases,
    ensures
        spoken(action) is Some,
        sql_text(spoken(action)->0) == REBUILD_ALIASES@,
        sql_params(spoken(action)->0) == action_params(action),
{
    reveal_with_fuel(conds_text, 4);
    reveal_with_fuel(sets_text, 2);
    reveal_with_fuel(set_cols_text, 18);
    reveal_with_fuel(set_vals_text, 18);
    reveal_with_fuel(conds_params, 4);
    reveal_with_fuel(sets_params, 18);
    reveal_strlit(
        "INSERT INTO payee_alias (merchant_norm, payee_id, created_at) SELECT merchant_norm, MIN(payee_id), ? FROM txn WHERE payee_id IS NOT NULL GROUP BY merchant_norm",
    );
    reveal_strlit("?");
    reveal_strlit(")");
    reveal_strlit(", ");
    reveal_strlit("id");
    reveal_strlit(" (");
    reveal_strlit("txn");
    reveal_strlit("MIN(");
    reveal_strlit("NULL");
    reveal_strlit("payee");
    reveal_strlit(" FROM ");
    reveal_strlit("SELECT ");
    reveal_strlit(" WHERE ");
    reveal_strlit("payee_id");
    reveal_strlit(" GROUP BY ");
    reveal_strlit("created_at");
    reveal_strlit("payee_alias");
    reveal_strlit("INSERT INTO ");
    reveal_strlit(" IS NOT NULL");
    reveal_strlit("merchant_norm");
    reveal_strlit("INSERT INTO payee_alias");
    reveal_strlit(" FROM txn WHERE payee_id IS NOT NULL GROUP BY merchant_norm");
    reveal_strlit(
        "INSERT INTO payee_alias (merchant_norm, payee_id, created_at) SELECT merchant_norm, MIN(payee_id), ",
    );
    assert(REBUILD_ALIASES@ =~= sql_text(spoken(action)->0));
    assert(sql_params(spoken(action)->0) =~= action_params(action));
}

proof fn text_of_shared_names(action: ActionView)
    requires
        action is SharedNames,
    ensures
        spoken(action) is Some,
        sql_text(spoken(action)->0) == SHARED_NAMES@,
        sql_params(spoken(action)->0) == action_params(action),
{
    reveal_with_fuel(exprs_text, 3);
    reveal_with_fuel(conds_text, 4);
    reveal_with_fuel(sets_text, 2);
    reveal_with_fuel(conds_params, 4);
    reveal_with_fuel(sets_params, 2);
    reveal_strlit("SELECT name, MIN(id) FROM payee GROUP BY name HAVING COUNT(*) > 1");
    reveal_strlit(")");
    reveal_strlit(", ");
    reveal_strlit("id");
    reveal_strlit("name");
    reveal_strlit("MIN(");
    reveal_strlit("payee");
    reveal_strlit(" FROM ");
    reveal_strlit("SELECT ");
    reveal_strlit("COUNT(*)");
    reveal_strlit(" GROUP BY ");
    reveal_strlit(" HAVING COUNT(*) > 1");
    assert(SHARED_NAMES@ =~= sql_text(spoken(action)->0));
    assert(sql_params(spoken(action)->0) =~= action_params(action));
}

proof fn text_of_others_named(action: ActionView)
    requires
        action is OthersNamed,
    ensures
        spoken(action) is Some,
        sql_text(spoken(action)->0) == OTHERS_NAMED@,
        sql_params(spoken(action)->0) == action_params(action),
{
    reveal_with_fuel(exprs_text, 3);
    reveal_with_fuel(conds_text, 4);
    reveal_with_fuel(sets_text, 2);
    reveal_with_fuel(conds_params, 4);
    reveal_with_fuel(sets_params, 2);
    reveal_strlit("SELECT id FROM payee WHERE name = ? AND id != ?");
    reveal_strlit("?");
    reveal_strlit("id");
    reveal_strlit(" = ");
    reveal_strlit("name");
    reveal_strlit(" != ");
    reveal_strlit("payee");
    reveal_strlit(" AND ");
    reveal_strlit(" FROM ");
    reveal_strlit("SELECT ");
    reveal_strlit(" WHERE ");
    assert(OTHERS_NAMED@ =~= sql_text(spoken(action)->0));
    assert(sql_params(spoken(action)->0) =~= action_params(action));
}

proof fn text_of_other_named(action: ActionView)
    requires
        action is OtherNamed,
    ensures
        spoken(action) is Some,
        sql_text(spoken(action)->0) == OTHERS_NAMED@,
        sql_params(spoken(action)->0) == action_params(action),
{
    reveal_with_fuel(exprs_text, 3);
    reveal_with_fuel(conds_text, 4);
    reveal_with_fuel(sets_text, 2);
    reveal_with_fuel(conds_params, 4);
    reveal_with_fuel(sets_params, 2);
    reveal_strlit("SELECT id FROM payee WHERE name = ? AND id != ?");
    reveal_strlit("?");
    reveal_strlit("id");
    reveal_strlit(" = ");
    reveal_strlit("name");
    reveal_strlit(" != ");
    reveal_strlit("payee");
    reveal_strlit(" AND ");
    reveal_strlit(" FROM ");
    reveal_strlit("SELECT ");
    reveal_strlit(" WHERE ");
    assert(OTHERS_NAMED@ =~= sql_text(spoken(action)->0));
    assert(sql_params(spoken(action)->0) =~= action_params(action));
}

proof fn text_of_move_txns(action: ActionView)
    requires
        action is MoveTxns,
    ensures
        spoken(action) is Some,
        sql_text(spoken(action)->0) == MOVE_TXNS@,
        sql_params(spoken(action)->0) == action_params(action),
{
    reveal_with_fuel(conds_text, 4);
    reveal_with_fuel(sets_text, 2);
    reveal_with_fuel(conds_params, 4);
    reveal_with_fuel(sets_params, 2);
    reveal_strlit("UPDATE txn SET payee_id = ? WHERE payee_id = ?");
    reveal_strlit("?");
    reveal_strlit("id");
    reveal_strlit(" = ");
    reveal_strlit("txn");
    reveal_strlit(" SET ");
    reveal_strlit("payee");
    reveal_strlit("UPDATE ");
    reveal_strlit(" WHERE ");
    reveal_strlit("payee_id");
    assert(MOVE_TXNS@ =~= sql_text(spoken(action)->0));
    assert(sql_params(spoken(action)->0) =~= action_params(action));
}

proof fn text_of_adopt_aliases(action: ActionView)
    requires
        action is AdoptAliases,
    ensures
        spoken(action) is Some,
        sql_text(spoken(action)->0) == ADOPT_ALIASES@,
        sql_params(spoken(action)->0) == action_params(action),
{
    reveal_with_fuel(conds_text, 4);
    reveal_with_fuel(sets_text, 2);
    reveal_with_fuel(set_cols_text, 18);
    reveal_with_fuel(set_vals_text, 18);
    reveal_with_fuel(conds_params, 4);
    reveal_with_fuel(sets_params, 18);
    reveal_strlit(
        "INSERT OR IGNORE INTO payee_alias (merchant_norm, payee_id, created_at) SELECT DISTINCT merchant_norm, ?, ? FROM txn WHERE payee_id = ?",
    );
    reveal_strlit("?");
    reveal_strlit(")");
    reveal_strlit(", ");
    reveal_strlit("id");
    reveal_strlit(" (");
    reveal_strlit(" = ");
    reveal_strlit("txn");
    reveal_strlit("payee");
    reveal_strlit(" FROM ");
    reveal_strlit("SELECT ");
    reveal_strlit(" WHERE ");
    reveal_strlit("payee_id");
    reveal_strlit("created_at");
    reveal_strlit("payee_alias");
    reveal_strlit("merchant_norm");
    reveal_strlit("SELECT DISTINCT ");
    reveal_strlit(" FROM txn WHERE payee_id = ");
    reveal_strlit(
        "INSERT OR IGNORE INTO payee_alias (merchant_norm, payee_id, created_at) SELECT DISTINCT merchant_norm, ",
    );
    assert(ADOPT_ALIASES@ =~= sql_text(spoken(action)->0));
    assert(sql_params(spoken(action)->0) =~= action_params(action));
}

proof fn text_of_drop_unused_payees(action: ActionView)
    requires
        action is DropUnusedPayees,
    ensures
        spoken(action) is Some,
        sql_text(spoken(action)->0) == DROP_UNUSED_PAYEES@,
        sql_params(spoken(action)->0) == action_params(action),
{
    reveal_with_fuel(conds_text, 4);
    reveal_with_fuel(sets_text, 2);
    reveal_with_fuel(conds_params, 4);
    reveal_with_fuel(sets_params, 2);
    reveal_strlit(
        "DELETE FROM payee WHERE id NOT IN (SELECT DISTINCT payee_id FROM txn WHERE payee_id IS NOT NULL)",
    );
    reveal_strlit(")");
    reveal_strlit("id");
    reveal_strlit(" (");
    reveal_strlit("txn");
    reveal_strlit("NULL");
    reveal_strlit("payee");
    reveal_strlit(" FROM ");
    reveal_strlit("SELECT ");
    reveal_strlit(" WHERE ");
    reveal_strlit("payee_id");
    reveal_strlit("DELETE FROM ");
    reveal_strlit(" IS NOT NULL");
    reveal_strlit("SELECT DISTINCT ");
    reveal_strlit("id NOT IN (SELECT DISTINCT payee_id FROM txn WHERE payee_id IS NOT NULL)");
    assert(DROP_UNUSED_PAYEES@ =~= sql_text(spoken(action)->0));
    assert(sql_params(spoken(action)->0) =~= action_params(action));
}

proof fn text_of_find_statement(action: ActionView)
    requires
        action is FindStatement,
    ensures
        spoken(action) is Some,
        sql_text(spoken(action)->0) == FIND_STATEMENT@,
        sql_params(spoken(action)->0) == action_params(action),
{
    reveal_with_fuel(exprs_text, 3);
    reveal_with_fuel(conds_text, 4);
    reveal_with_fuel(sets_text, 2);
    reveal_with_fuel(conds_params, 4);
    reveal_with_fuel(sets_params, 2);
    reveal_strlit("SELECT id FROM statement WHERE source_sha256 = ?");
    reveal_strlit("?");
    reveal_strlit("id");
    reveal_strlit(" = ");
    reveal_strlit(" FROM ");
    reveal_strlit("SELECT ");
    reveal_strlit(" WHERE ");
    reveal_strlit("statement");
    reveal_strlit("source_sha256");
    assert(FIND_STATEMENT@ =~= sql_text(spoken(action)->0));
    assert(sql_params(spoken(action)->0) =~= action_params(action));
}

proof fn text_of_alias_of(action: ActionView)
    requires
        action is AliasOf,
    ensures
        spoken(action) is Some,
        sql_text(spoken(action)->0) == ALIAS_OF@,
        sql_params(spoken(action)->0) == action_params(action),
{
    reveal_with_fuel(exprs_text, 3);
    reveal_with_fuel(conds_text, 4);
    reveal_with_fuel(sets_text, 2);
    reveal_with_fuel(conds_params, 4);
    reveal_with_fuel(sets_params, 2);
    reveal_strlit("SELECT payee_id FROM payee_alias WHERE merchant_norm = ?");
    reveal_strlit("?");
    reveal_strlit("id");
    reveal_strlit(" = ");
    reveal_strlit("payee");
    reveal_strlit(" FROM ");
    reveal_strlit("SELECT ");
    reveal_strlit(" WHERE ");
    reveal_strlit("payee_id");
    reveal_strlit("payee_alias");
    reveal_strlit("merchant_norm");
    assert(ALIAS_OF@ =~= sql_text(spoken(action)->0));
    assert(sql_params(spoken(action)->0) =~= action_params(action));
}

proof fn text_of_insert_txn(action: ActionView)
    requires
        action is InsertTxn,
    ensures
        spoken(action) is Some,
        sql_text(spoken(action)->0) == INSERT_TXN@,
        sql_params(spoken(action)->0) == action_params(action),
{
    reveal_with_fuel(conds_text, 4);
    reveal_with_fuel(sets_text, 2);
    reveal_with_fuel(set_cols_text, 18);
    reveal_with_fuel(set_vals_text, 18);
    reveal_with_fuel(conds_params, 4);
    reveal_with_fuel(sets_params, 18);
    reveal_strlit(
        "INSERT INTO txn (id, statement_id, row_index, date, merchant_raw, merchant_norm, extra, amount_minor, direction, usd_minor, bankkart_lira_minor, card_last4, kind, payee_id) VALUES (?, ?, ?, ?, ?, ?, ?, ?, ?, ?, ?, ?, ?, ?)",
    );
    reveal_strlit("?");
    reveal_strlit(")");
    reveal_strlit(", ");
    reveal_strlit("id");
    reveal_strlit(" (");
    reveal_strlit("txn");
    reveal_strlit("kind");
    reveal_strlit("date");
    reveal_strlit("payee");
    reveal_strlit("extra");
    reveal_strlit("payee_id");
    reveal_strlit("direction");
    reveal_strlit("row_index");
    reveal_strlit("usd_minor");
    reveal_strlit("statement");
    reveal_strlit(") VALUES (");
    reveal_strlit("card_last4");
    reveal_strlit("amount_minor");
    reveal_strlit("INSERT INTO ");
    reveal_strlit("merchant_raw");
    reveal_strlit("statement_id");
    reveal_strlit("merchant_norm");
    reveal_strlit("bankkart_lira_minor");
    assert(INSERT_TXN@ =~= sql_text(spoken(action)->0));
    assert(sql_params(spoken(action)->0) =~= action_params(action));
}

proof fn text_of_find_payee(action: ActionView)
    requires
        action is FindPayee,
    ensures
        spoken(action) is Some,
        sql_text(spoken(action)->0) == FIND_PAYEE@,
        sql_params(spoken(action)->0) == action_params(action),
{
    reveal_with_fuel(exprs_text, 3);
    reveal_with_fuel(conds_text, 4);
    reveal_with_fuel(sets_text, 2);
    reveal_with_fuel(conds_params, 4);
    reveal_with_fuel(sets_params, 2);
    reveal_strlit("SELECT id FROM payee WHERE name = ?");
    reveal_strlit("?");
    reveal_strlit("id");
    reveal_strlit(" = ");
    reveal_strlit("name");
    reveal_strlit("payee");
    reveal_strlit(" FROM ");
    reveal_strlit("SELECT ");
    reveal_strlit(" WHERE ");
    assert(FIND_PAYEE@ =~= sql_text(spoken(action)->0));
    assert(sql_params(spoken(action)->0) =~= action_params(action));
}

proof fn text_of_insert_payee(action: ActionView)
    requires
        action is InsertPayee,
    ensures
        spoken(action) is Some,
        sql_text(spoken(action)->0) == INSERT_PAYEE@,
        sql_params(spoken(action)->0) == action_params(action),
{
    reveal_with_fuel(conds_text, 4);
    reveal_with_fuel(sets_text, 2);
    reveal_with_fuel(set_cols_text, 18);
    reveal_with_fuel(set_vals_text, 18);
    reveal_with_fuel(conds_params, 4);
    reveal_with_fuel(sets_params, 18);
    reveal_strlit(
        "INSERT INTO payee (id, name, category_id, created_at) VALUES (?, ?, ?, ?)",
    );
    reveal_strlit("?");
    reveal_strlit(")");
    reveal_strlit(", ");
    reveal_strlit("id");
    reveal_strlit(" (");
    reveal_strlit("name");
    reveal_strlit("payee");
    reveal_strlit("category");
    reveal_strlit(") VALUES (");
    reveal_strlit("created_at");
    reveal_strlit("category_id");
    reveal_strlit("INSERT INTO ");
    assert(INSERT_PAYEE@ =~= sql_text(spoken(action)->0));
    assert(sql_params(spoken(action)->0) =~= action_params(action));
}

proof fn text_of_upsert_alias(action: ActionView)
    requires
        action is UpsertAlias,
    ensures
        spoken(action) is Some,
        sql_text(spoken(action)->0) == UPSERT_ALIAS@,
        sql_params(spoken(action)->0) == action_params(action),
{
    reveal_with_fuel(conds_text, 4);
    reveal_with_fuel(sets_text, 2);
    reveal_with_fuel(set_cols_text, 18);
    reveal_with_fuel(set_vals_text, 18);
    reveal_with_fuel(conds_params, 4);
    reveal_with_fuel(sets_params, 18);
    reveal_strlit(
        "INSERT INTO payee_alias (merchant_norm, payee_id, created_at) VALUES (?, ?, ?) ON CONFLICT(merchant_norm) DO UPDATE SET payee_id = excluded.payee_id",
    );
    reveal_strlit("?");
    reveal_strlit(")");
    reveal_strlit(", ");
    reveal_strlit("id");
    reveal_strlit(" (");
    reveal_strlit(" = ");
    reveal_strlit(" SET ");
    reveal_strlit("payee");
    reveal_strlit("UPDATE ");
    reveal_strlit("payee_id");
    reveal_strlit(") VALUES (");
    reveal_strlit("created_at");
    reveal_strlit("payee_alias");
    reveal_strlit("INSERT INTO ");
    reveal_strlit("merchant_norm");
    reveal_strlit("INSERT INTO payee_alias");
    reveal_strlit(") ON CONFLICT(merchant_norm) DO UPDATE SET payee_id = excluded.payee_id");
    assert(UPSERT_ALIAS@ =~= sql_text(spoken(action)->0));
    assert(sql_params(spoken(action)->0) =~= action_params(action));
}

proof fn text_of_link_unlabeled(action: ActionView)
    requires
        action is LinkUnlabeled,
    ensures
        spoken(action) is Some,
        sql_text(spoken(action)->0) == LINK_UNLABELED@,
        sql_params(spoken(action)->0) == action_params(action),
{
    reveal_with_fuel(conds_text, 4);
    reveal_with_fuel(sets_text, 2);
    reveal_with_fuel(conds_params, 4);
    reveal_with_fuel(sets_params, 2);
    reveal_strlit(
        "UPDATE txn SET payee_id = ? WHERE statement_id = ? AND merchant_norm = ? AND payee_id IS NULL",
    );
    reveal_strlit("?");
    reveal_strlit("id");
    reveal_strlit(" = ");
    reveal_strlit("txn");
    reveal_strlit("NULL");
    reveal_strlit(" SET ");
    reveal_strlit("payee");
    reveal_strlit(" AND ");
    reveal_strlit("UPDATE ");
    reveal_strlit(" WHERE ");
    reveal_strlit("payee_id");
    reveal_strlit(" IS NULL");
    reveal_strlit("statement");
    reveal_strlit("statement_id");
    reveal_strlit("merchant_norm");
    assert(LINK_UNLABELED@ =~= sql_text(spoken(action)->0));
    assert(sql_params(spoken(action)->0) =~= action_params(action));
}

proof fn text_of_count_labeled(action: ActionView)
    requires
        action is CountLabeled,
    ensures
        spoken(action) is Some,
        sql_text(spoken(action)->0) == COUNT_LABELED@,
        sql_params(spoken(action)->0) == action_params(action),
{
    reveal_with_fuel(exprs_text, 3);
    reveal_with_fuel(conds_text, 4);
    reveal_with_fuel(sets_text, 2);
    reveal_with_fuel(conds_params, 4);
    reveal_with_fuel(sets_params, 2);
    reveal_strlit(
        "SELECT COUNT(*), (SELECT COUNT(*) FROM txn WHERE statement_id = ?2 AND payee_id IS NOT NULL) FROM txn WHERE statement_id = ?1",
    );
    reveal_strlit("?");
    reveal_strlit(")");
    reveal_strlit(", ");
    reveal_strlit("id");
    reveal_strlit(" (");
    reveal_strlit(" = ");
    reveal_strlit("txn");
    reveal_strlit("NULL");
    reveal_strlit("payee");
    reveal_strlit(" AND ");
    reveal_strlit(" FROM ");
    reveal_strlit("SELECT ");
    reveal_strlit(" WHERE ");
    reveal_strlit("payee_id");
    reveal_strlit("COUNT(*)");
    reveal_strlit("statement");
    reveal_strlit("statement_id");
    reveal_strlit(" IS NOT NULL");
    assert(COUNT_LABELED@ =~= sql_text(spoken(action)->0));
    assert(sql_params(spoken(action)->0) =~= action_params(action));
}

proof fn text_of_find_category(action: ActionView)
    requires
        action is FindCategory,
    ensures
        spoken(action) is Some,
        sql_text(spoken(action)->0) == FIND_CATEGORY@,
        sql_params(spoken(action)->0) == action_params(action),
{
    reveal_with_fuel(exprs_text, 3);
    reveal_with_fuel(conds_text, 4);
    reveal_with_fuel(sets_text, 2);
    reveal_with_fuel(conds_params, 4);
    reveal_with_fuel(sets_params, 2);
    reveal_strlit("SELECT 1 FROM category WHERE id = ?");
    reveal_strlit("?");
    reveal_strlit("id");
    reveal_strlit(" = ");
    reveal_strlit(" FROM ");
    reveal_strlit("SELECT ");
    reveal_strlit(" WHERE ");
    reveal_strlit("category");
    reveal_strlit("SELECT 1 FROM ");
    assert(FIND_CATEGORY@ =~= sql_text(spoken(action)->0));
    assert(sql_params(spoken(action)->0) =~= action_params(action));
}

proof fn text_of_set_payee_category(action: ActionView)
    requires
        action is SetPayeeCategory,
    ensures
        spoken(action) is Some,
        sql_text(spoken(action)->0) == SET_PAYEE_CATEGORY@,
        sql_params(spoken(action)->0) == action_params(action),
{
    reveal_with_fuel(conds_text, 4);
    reveal_with_fuel(sets_text, 2);
    reveal_with_fuel(conds_params, 4);
    reveal_with_fuel(sets_params, 2);
    reveal_strlit("UPDATE payee SET category_id = ? WHERE id = ?");
    reveal_strlit("?");
    reveal_strlit("id");
    reveal_strlit(" = ");
    reveal_strlit(" SET ");
    reveal_strlit("payee");
    reveal_strlit("UPDATE ");
    reveal_strlit(" WHERE ");
    reveal_strlit("category");
    reveal_strlit("category_id");
    assert(SET_PAYEE_CATEGORY@ =~= sql_text(spoken(action)->0));
    assert(sql_params(spoken(action)->0) =~= action_params(action));
}

proof fn text_of_insert_alias(action: ActionView)
    requires
        action is InsertAlias,
    ensures
        spoken(action) is Some,
        sql_text(spoken(action)->0) == INSERT_ALIAS@,
        sql_params(spoken(action)->0) == action_params(action),
{
    reveal_with_fuel(conds_text, 4);
    reveal_with_fuel(sets_text, 2);
    reveal_with_fuel(set_cols_text, 18);
    reveal_with_fuel(set_vals_text, 18);
    reveal_with_fuel(conds_params, 4);
    reveal_with_fuel(sets_params, 18);
    reveal_strlit(
        "INSERT INTO payee_alias (merchant_norm, payee_id, created_at) VALUES (?, ?, ?)",
    );
    reveal_strlit("?");
    reveal_strlit(")");
    reveal_strlit(", ");
    reveal_strlit("id");
    reveal_strlit(" (");
    reveal_strlit("payee");
    reveal_strlit("payee_id");
    reveal_strlit(") VALUES (");
    reveal_strlit("created_at");
    reveal_strlit("payee_alias");
    reveal_strlit("INSERT INTO ");
    reveal_strlit("merchant_norm");
    reveal_strlit("INSERT INTO payee_alias");
    assert(INSERT_ALIAS@ =~= sql_text(spoken(action)->0));
    assert(sql_params(spoken(action)->0) =~= action_params(action));
}

proof fn text_of_update_alias(action: ActionView)
    requires
        action is UpdateAlias,
    ensures
        spoken(action) is Some,
        sql_text(spoken(action)->0) == UPDATE_ALIAS@,
        sql_params(spoken(action)->0) == action_params(action),
{
    reveal_with_fuel(conds_text, 4);
    reveal_with_fuel(sets_text, 2);
    reveal_with_fuel(conds_params, 4);
    reveal_with_fuel(sets_params, 2);
    reveal_strlit("UPDATE payee_alias SET payee_id = ? WHERE merchant_norm = ?");
    reveal_strlit("?");
    reveal_strlit("id");
    reveal_strlit(" = ");
    reveal_strlit(" SET ");
    reveal_strlit("payee");
    reveal_strlit("UPDATE ");
    reveal_strlit(" WHERE ");
    reveal_strlit("payee_id");
    reveal_strlit("payee_alias");
    reveal_strlit("merchant_norm");
    assert(UPDATE_ALIAS@ =~= sql_text(spoken(action)->0));
    assert(sql_params(spoken(action)->0) =~= action_params(action));
}

proof fn text_of_label_txns(action: ActionView)
    requires
        action is LabelTxns,
    ensures
        spoken(action) is Some,
        sql_text(spoken(action)->0) == LABEL_TXNS@,
        sql_params(spoken(action)->0) == action_params(action),
{
    reveal_with_fuel(conds_text, 4);
    reveal_with_fuel(sets_text, 2);
    reveal_with_fuel(conds_params, 4);
    reveal_with_fuel(sets_params, 2);
    reveal_strlit("UPDATE txn SET payee_id = ? WHERE merchant_norm = ?");
    reveal_strlit("?");
    reveal_strlit("id");
    reveal_strlit(" = ");
    reveal_strlit("txn");
    reveal_strlit(" SET ");
    reveal_strlit("payee");
    reveal_strlit("UPDATE ");
    reveal_strlit(" WHERE ");
    reveal_strlit("payee_id");
    reveal_strlit("merchant_norm");
    assert(LABEL_TXNS@ =~= sql_text(spoken(action)->0));
    assert(sql_params(spoken(action)->0) =~= action_params(action));
}

proof fn text_of_set_payee_name(action: ActionView)
    requires
        action is SetPayeeName,
    ensures
        spoken(action) is Some,
        sql_text(spoken(action)->0) == SET_PAYEE_NAME@,
        sql_params(spoken(action)->0) == action_params(action),
{
    reveal_with_fuel(conds_text, 4);
    reveal_with_fuel(sets_text, 2);
    reveal_with_fuel(conds_params, 4);
    reveal_with_fuel(sets_params, 2);
    reveal_strlit("UPDATE payee SET name = ? WHERE id = ?");
    reveal_strlit("?");
    reveal_strlit("id");
    reveal_strlit(" = ");
    reveal_strlit("name");
    reveal_strlit(" SET ");
    reveal_strlit("payee");
    reveal_strlit("UPDATE ");
    reveal_strlit(" WHERE ");
    assert(SET_PAYEE_NAME@ =~= sql_text(spoken(action)->0));
    assert(sql_params(spoken(action)->0) =~= action_params(action));
}

proof fn text_of_unlabel_payee(action: ActionView)
    requires
        action is UnlabelPayee,
    ensures
        spoken(action) is Some,
        sql_text(spoken(action)->0) == UNLABEL_PAYEE@,
        sql_params(spoken(action)->0) == action_params(action),
{
    reveal_with_fuel(conds_text, 4);
    reveal_with_fuel(sets_text, 2);
    reveal_with_fuel(conds_params, 4);
    reveal_with_fuel(sets_params, 2);
    reveal_strlit("UPDATE txn SET payee_id = NULL WHERE payee_id = ?");
    reveal_strlit("?");
    reveal_strlit("id");
    reveal_strlit(" = ");
    reveal_strlit("txn");
    reveal_strlit("NULL");
    reveal_strlit(" SET ");
    reveal_strlit("payee");
    reveal_strlit("UPDATE ");
    reveal_strlit(" WHERE ");
    reveal_strlit("payee_id");
    assert(UNLABEL_PAYEE@ =~= sql_text(spoken(action)->0));
    assert(sql_params(spoken(action)->0) =~= action_params(action));
}

proof fn text_of_drop_aliases_of(action: ActionView)
    requires
        action is DropAliasesOf,
    ensures
        spoken(action) is Some,
        sql_text(spoken(action)->0) == DROP_ALIASES_OF@,
        sql_params(spoken(action)->0) == action_params(action),
{
    reveal_with_fuel(conds_text, 4);
    reveal_with_fuel(sets_text, 2);
    reveal_with_fuel(conds_params, 4);
    reveal_with_fuel(sets_params, 2);
    reveal_strlit("DELETE FROM payee_alias WHERE payee_id = ?");
    reveal_strlit("?");
    reveal_strlit("id");
    reveal_strlit(" = ");
    reveal_strlit("payee");
    reveal_strlit(" FROM ");
    reveal_strlit(" WHERE ");
    reveal_strlit("payee_id");
    reveal_strlit("payee_alias");
    reveal_strlit("DELETE FROM ");
    assert(DROP_ALIASES_OF@ =~= sql_text(spoken(action)->0));
    assert(sql_params(spoken(action)->0) =~= action_params(action));
}

proof fn text_of_drop_payee(action: ActionView)
    requires
        action is DropPayee,
    ensures
        spoken(action) is Some,
        sql_text(spoken(action)->0) == DROP_PAYEE@,
        sql_params(spoken(action)->0) == action_params(action),
{
    reveal_with_fuel(conds_text, 4);
    reveal_with_fuel(sets_text, 2);
    reveal_with_fuel(conds_params, 4);
    reveal_with_fuel(sets_params, 2);
    reveal_strlit("DELETE FROM payee WHERE id = ?");
    reveal_strlit("?");
    reveal_strlit("id");
    reveal_strlit(" = ");
    reveal_strlit("payee");
    reveal_strlit(" FROM ");
    reveal_strlit(" WHERE ");
    reveal_strlit("DELETE FROM ");
    assert(DROP_PAYEE@ =~= sql_text(spoken(action)->0));
    assert(sql_params(spoken(action)->0) =~= action_params(action));
}

proof fn text_of_unlabel_source(action: ActionView)
    requires
        action is UnlabelSource,
    ensures
        spoken(action) is Some,
        sql_text(spoken(action)->0) == UNLABEL_SOURCE@,
        sql_params(spoken(action)->0) == action_params(action),
{
    reveal_with_fuel(conds_text, 4);
    reveal_with_fuel(sets_text, 2);
    reveal_with_fuel(conds_params, 4);
    reveal_with_fuel(sets_params, 2);
    reveal_strlit(
        "UPDATE txn SET payee_id = NULL WHERE payee_id = ? AND merchant_norm = ?",
    );
    reveal_strlit("?");
    reveal_strlit("id");
    reveal_strlit(" = ");
    reveal_strlit("txn");
    reveal_strlit("NULL");
    reveal_strlit(" SET ");
    reveal_strlit("payee");
    reveal_strlit(" AND ");
    reveal_strlit("UPDATE ");
    reveal_strlit(" WHERE ");
    reveal_strlit("payee_id");
    reveal_strlit("merchant_norm");
    assert(UNLABEL_SOURCE@ =~= sql_text(spoken(action)->0));
    assert(sql_params(spoken(action)->0) =~= action_params(action));
}

proof fn text_of_drop_alias(action: ActionView)
    requires
        action is DropAlias,
    ensures
        spoken(action) is Some,
        sql_text(spoken(action)->0) == DROP_ALIAS@,
        sql_params(spoken(action)->0) == action_params(action),
{
    reveal_with_fuel(conds_text, 4);
    reveal_with_fuel(sets_text, 2);
    reveal_with_fuel(conds_params, 4);
    reveal_with_fuel(sets_params, 2);
    reveal_strlit("DELETE FROM payee_alias WHERE payee_id = ? AND merchant_norm = ?");
    reveal_strlit("?");
    reveal_strlit("id");
    reveal_strlit(" = ");
    reveal_strlit("payee");
    reveal_strlit(" AND ");
    reveal_strlit(" FROM ");
    reveal_strlit(" WHERE ");
    reveal_strlit("payee_id");
    reveal_strlit("payee_alias");
    reveal_strlit("DELETE FROM ");
    reveal_strlit("merchant_norm");
    assert(DROP_ALIAS@ =~= sql_text(spoken(action)->0));
    assert(sql_params(spoken(action)->0) =~= action_params(action));
}

proof fn text_of_count_txns_of(action: ActionView)
    requires
        action is CountTxnsOf,
    ensures
        spoken(action) is Some,
        sql_text(spoken(action)->0) == COUNT_TXNS_OF@,
        sql_params(spoken(action)->0) == action_params(action),
{
    reveal_with_fuel(exprs_text, 3);
    reveal_with_fuel(conds_text, 4);
    reveal_with_fuel(sets_text, 2);
    reveal_with_fuel(conds_params, 4);
    reveal_with_fuel(sets_params, 2);
    reveal_strlit("SELECT COUNT(*) FROM txn WHERE payee_id = ?");
    reveal_strlit("?");
    reveal_strlit(")");
    reveal_strlit("id");
    reveal_strlit(" = ");
    reveal_strlit("txn");
    reveal_strlit("payee");
    reveal_strlit(" FROM ");
    reveal_strlit("SELECT ");
    reveal_strlit(" WHERE ");
    reveal_strlit("payee_id");
    reveal_strlit("COUNT(*)");
    reveal_strlit(" FROM txn WHERE payee_id = ");
    assert(COUNT_TXNS_OF@ =~= sql_text(spoken(action)->0));
    assert(sql_params(spoken(action)->0) =~= action_params(action));
}

proof fn text_of_unlabeled_txns(action: ActionView)
    requires
        action is UnlabeledTxns,
    ensures
        spoken(action) is Some,
        sql_text(spoken(action)->0) == UNLABELED_TXNS@,
        sql_params(spoken(action)->0) == action_params(action),
{
    reveal_with_fuel(exprs_text, 8);
    reveal_with_fuel(conds_text, 4);
    reveal_with_fuel(sets_text, 2);
    reveal_with_fuel(orders_text, 3);
    reveal_with_fuel(conds_params, 4);
    reveal_with_fuel(sets_params, 2);
    reveal_strlit(
        "SELECT merchant_norm, merchant_raw, extra, date, amount_minor, direction FROM txn WHERE payee_id IS NULL ORDER BY date DESC, row_index DESC",
    );
    reveal_strlit(", ");
    reveal_strlit("id");
    reveal_strlit("txn");
    reveal_strlit("date");
    reveal_strlit("NULL");
    reveal_strlit(" DESC");
    reveal_strlit("payee");
    reveal_strlit("extra");
    reveal_strlit(" FROM ");
    reveal_strlit("SELECT ");
    reveal_strlit(" WHERE ");
    reveal_strlit("payee_id");
    reveal_strlit(" IS NULL");
    reveal_strlit("direction");
    reveal_strlit("row_index");
    reveal_strlit(" ORDER BY ");
    reveal_strlit("amount_minor");
    reveal_strlit("merchant_raw");
    reveal_strlit("merchant_norm");
    assert(UNLABELED_TXNS@ =~= sql_text(spoken(action)->0));
    assert(sql_params(spoken(action)->0) =~= action_params(action));
}

proof fn text_of_list_categories(action: ActionView)
    requires
        action is ListCategories,
    ensures
        spoken(action) is Some,
        sql_text(spoken(action)->0) == LIST_CATEGORIES@,
        sql_params(spoken(action)->0) == action_params(action),
{
    reveal_with_fuel(exprs_text, 6);
    reveal_with_fuel(conds_text, 4);
    reveal_with_fuel(sets_text, 2);
    reveal_with_fuel(orders_text, 3);
    reveal_with_fuel(conds_params, 4);
    reveal_with_fuel(sets_params, 2);
    reveal_strlit("SELECT id, name, kind, color, sort FROM category ORDER BY sort");
    reveal_strlit(", ");
    reveal_strlit("id");
    reveal_strlit("kind");
    reveal_strlit("name");
    reveal_strlit("sort");
    reveal_strlit("color");
    reveal_strlit(" FROM ");
    reveal_strlit("SELECT ");
    reveal_strlit("category");
    reveal_strlit(" ORDER BY ");
    assert(LIST_CATEGORIES@ =~= sql_text(spoken(action)->0));
    assert(sql_params(spoken(action)->0) =~= action_params(action));
}

proof fn text_of_list_payees(action: ActionView)
    requires
        action is ListPayees,
    ensures
        spoken(action) is Some,
        sql_text(spoken(action)->0) == LIST_PAYEES@,
        sql_params(spoken(action)->0) == action_params(action),
{
    reveal_with_fuel(exprs_text, 5);
    reveal_with_fuel(conds_text, 4);
    reveal_with_fuel(sets_text, 2);
    reveal_with_fuel(orders_text, 3);
    reveal_with_fuel(conds_params, 4);
    reveal_with_fuel(sets_params, 2);
    reveal_strlit("SELECT id, name, category_id, created_at FROM payee ORDER BY name");
    reveal_strlit(", ");
    reveal_strlit("id");
    reveal_strlit("name");
    reveal_strlit("payee");
    reveal_strlit(" FROM ");
    reveal_strlit("SELECT ");
    reveal_strlit("category");
    reveal_strlit(" ORDER BY ");
    reveal_strlit("created_at");
    reveal_strlit("category_id");
    assert(LIST_PAYEES@ =~= sql_text(spoken(action)->0));
    assert(sql_params(spoken(action)->0) =~= action_params(action));
}

proof fn text_of_payee_sources(action: ActionView)
    requires
        action is PayeeSources,
    ensures
        spoken(action) is Some,
        sql_text(spoken(action)->0) == PAYEE_SOURCES@,
        sql_params(spoken(action)->0) == action_params(action),
{
    reveal_with_fuel(exprs_text, 7);
    reveal_with_fuel(conds_text, 4);
    reveal_with_fuel(sets_text, 2);
    reveal_with_fuel(orders_text, 3);
    reveal_with_fuel(conds_params, 4);
    reveal_with_fuel(sets_params, 2);
    reveal_strlit(
        "SELECT payee_id, merchant_norm, COUNT(*), MIN(merchant_raw) FROM txn WHERE payee_id IS NOT NULL GROUP BY payee_id, merchant_norm ORDER BY COUNT(*) DESC, merchant_norm",
    );
    reveal_strlit(")");
    reveal_strlit(", ");
    reveal_strlit("id");
    reveal_strlit("txn");
    reveal_strlit("MIN(");
    reveal_strlit("NULL");
    reveal_strlit(" DESC");
    reveal_strlit("payee");
    reveal_strlit(" FROM ");
    reveal_strlit("SELECT ");
    reveal_strlit(" WHERE ");
    reveal_strlit("payee_id");
    reveal_strlit("COUNT(*)");
    reveal_strlit(" GROUP BY ");
    reveal_strlit(" ORDER BY ");
    reveal_strlit("merchant_raw");
    reveal_strlit(" IS NOT NULL");
    reveal_strlit("merchant_norm");
    assert(PAYEE_SOURCES@ =~= sql_text(spoken(action)->0));
    assert(sql_params(spoken(action)->0) =~= action_params(action));
}

proof fn text_of_spend_by_category_start()
    ensures
        SPEND_BY_CATEGORY@ == exprs_text("SELECT "@, spend_cols()) + " FROM "@ + from_text(From::WithCategory) + " WHERE "@ + cond_text(Cond::Eq(Side::T, Col::Direction, Val::Word("debit"@))) + " AND "@ + cond_text(Cond::Eq(Side::C, Col::Kind, Val::Word("spend"@))),
{
    reveal_with_fuel(exprs_text, 8);
    reveal_strlit(
        "SELECT c.id, c.name, c.kind, c.color, c.sort, SUM(t.amount_minor) FROM txn t JOIN payee p ON t.payee_id = p.id JOIN category c ON p.category_id = c.id WHERE t.direction = 'debit' AND c.kind = 'spend'",
    );
    reveal_strlit("'");
    reveal_strlit(")");
    reveal_strlit(", ");
    reveal_strlit("p.");
    reveal_strlit("c.");
    reveal_strlit("t.");
    reveal_strlit("id");
    reveal_strlit(" = ");
    reveal_strlit("txn");
    reveal_strlit("kind");
    reveal_strlit("name");
    reveal_strlit("sort");
    reveal_strlit("SUM(");
    reveal_strlit("color");
    reveal_strlit("payee");
    reveal_strlit(" AND ");
    reveal_strlit("txn t");
    reveal_strlit(" FROM ");
    reveal_strlit("SELECT ");
    reveal_strlit(" WHERE ");
    reveal_strlit("payee_id");
    reveal_strlit("category");
    reveal_strlit("direction");
    reveal_strlit("category_id");
    reveal_strlit("amount_minor");
    reveal_strlit("direction = '");
    reveal_strlit("amount_minor)");
    reveal_strlit("txn t JOIN payee p ON t.payee_id = p.id");
    reveal_strlit(
        "txn t JOIN payee p ON t.payee_id = p.id JOIN category c ON p.category_id = c.id",
    );
    reveal_strlit("debit");
    reveal_strlit("spend");
    assert(SPEND_BY_CATEGORY@ =~= exprs_text("SELECT "@, spend_cols()) + " FROM "@ + from_text(From::WithCategory) + " WHERE "@ + cond_text(Cond::Eq(Side::T, Col::Direction, Val::Word("debit"@))) + " AND "@ + cond_text(Cond::Eq(Side::C, Col::Kind, Val::Word("spend"@))));
}

proof fn text_of_spend_by_category(statement_id: Option<Seq<char>>)
    ensures
        sql_text(spoken(ActionView::SpendByCategory { statement_id })->0) == action_sql(
            ActionView::SpendByCategory { statement_id },
        ),
        sql_params(spoken(ActionView::SpendByCategory { statement_id })->0) == action_params(
            ActionView::SpendByCategory { statement_id },
        ),
{
    text_of_spend_by_category_start();
    text_of_scope(statement_id, Conds::End);
    assert(SPEND_BY_CATEGORY_END@ =~= exprs_text(" GROUP BY "@, out1(Expr::Col(Side::C, Col::Id))) + orders_text(" ORDER BY "@, order1(Expr::Sum(Side::T), true))) by {
        reveal_with_fuel(exprs_text, 2);
        reveal_with_fuel(orders_text, 2);
    reveal_strlit(" GROUP BY c.id ORDER BY SUM(t.amount_minor) DESC");
    reveal_strlit(")");
    reveal_strlit("c.");
    reveal_strlit("t.");
    reveal_strlit("id");
    reveal_strlit("SUM(");
    reveal_strlit(" DESC");
    reveal_strlit(" GROUP BY ");
    reveal_strlit(" ORDER BY ");
    reveal_strlit("amount_minor");
    reveal_strlit("amount_minor)");
    }
    reveal_with_fuel(conds_text, 3);
    reveal_with_fuel(conds_params, 3);
    let action = ActionView::SpendByCategory { statement_id };
    assert(sql_text(spoken(action)->0) =~= action_sql(action));
    assert(sql_params(spoken(action)->0) =~= action_params(action));
}

proof fn text_of_unlabeled_totals_start()
    ensures
        UNLABELED_TOTALS@ == exprs_text("SELECT "@, unlabeled_cols()) + " FROM "@ + from_text(From::Short) + " WHERE "@ + cond_text(Cond::IsNull(Side::T, Col::PayeeId)),
{
    reveal_with_fuel(exprs_text, 8);
    reveal_strlit(
        "SELECT COALESCE(SUM(CASE WHEN t.direction = 'debit' THEN amount_minor ELSE 0 END), 0), COUNT(*) FROM txn t WHERE t.payee_id IS NULL",
    );
    reveal_strlit("'");
    reveal_strlit(")");
    reveal_strlit(", ");
    reveal_strlit("t.");
    reveal_strlit("id");
    reveal_strlit(" = ");
    reveal_strlit("txn");
    reveal_strlit("SUM(");
    reveal_strlit("NULL");
    reveal_strlit("payee");
    reveal_strlit("txn t");
    reveal_strlit(" FROM ");
    reveal_strlit("SELECT ");
    reveal_strlit(" WHERE ");
    reveal_strlit("payee_id");
    reveal_strlit(" IS NULL");
    reveal_strlit("COUNT(*)");
    reveal_strlit("direction");
    reveal_strlit("amount_minor");
    reveal_strlit("direction = '");
    reveal_strlit("SUM(CASE WHEN ");
    reveal_strlit("COALESCE(SUM(CASE WHEN ");
    reveal_strlit("' THEN amount_minor ELSE 0 END)");
    reveal_strlit("' THEN amount_minor ELSE 0 END), 0)");
    reveal_strlit("debit");
    assert(UNLABELED_TOTALS@ =~= exprs_text("SELECT "@, unlabeled_cols()) + " FROM "@ + from_text(From::Short) + " WHERE "@ + cond_text(Cond::IsNull(Side::T, Col::PayeeId)));
}

proof fn text_of_unlabeled_totals(statement_id: Option<Seq<char>>)
    ensures
        sql_text(spoken(ActionView::UnlabeledTotals { statement_id })->0) == action_sql(
            ActionView::UnlabeledTotals { statement_id },
        ),
        sql_params(spoken(ActionView::UnlabeledTotals { statement_id })->0) == action_params(
            ActionView::UnlabeledTotals { statement_id },
        ),
{
    text_of_unlabeled_totals_start();
    text_of_scope(statement_id, Conds::End);
    reveal_with_fuel(conds_text, 3);
    reveal_with_fuel(conds_params, 3);
    let action = ActionView::UnlabeledTotals { statement_id };
    assert(sql_text(spoken(action)->0) =~= action_sql(action));
    assert(sql_params(spoken(action)->0) =~= action_params(action));
}

proof fn text_of_top_payees_start()
    ensures
        TOP_PAYEES@ == exprs_text("SELECT "@, paid_cols()) + " FROM "@ + from_text(From::WithPayee) + " WHERE "@ + cond_text(Cond::Eq(Side::T, Col::Direction, Val::Word("debit"@))),
{
    reveal_with_fuel(exprs_text, 8);
    reveal_strlit(
        "SELECT p.name, SUM(t.amount_minor) FROM txn t JOIN payee p ON t.payee_id = p.id WHERE t.direction = 'debit'",
    );
    reveal_strlit("'");
    reveal_strlit(")");
    reveal_strlit(", ");
    reveal_strlit("p.");
    reveal_strlit("t.");
    reveal_strlit("id");
    reveal_strlit(" = ");
    reveal_strlit("txn");
    reveal_strlit("name");
    reveal_strlit("SUM(");
    reveal_strlit("payee");
    reveal_strlit("txn t");
    reveal_strlit(" FROM ");
    reveal_strlit("SELECT ");
    reveal_strlit(" WHERE ");
    reveal_strlit("payee_id");
    reveal_strlit("direction");
    reveal_strlit("amount_minor");
    reveal_strlit("direction = '");
    reveal_strlit("amount_minor)");
    reveal_strlit("txn t JOIN payee p ON t.payee_id = p.id");
    reveal_strlit("debit");
    assert(TOP_PAYEES@ =~= exprs_text("SELECT "@, paid_cols()) + " FROM "@ + from_text(From::WithPayee) + " WHERE "@ + cond_text(Cond::Eq(Side::T, Col::Direction, Val::Word("debit"@))));
}

proof fn text_of_top_payees(statement_id: Option<Seq<char>>)
    ensures
        sql_text(spoken(ActionView::TopPayees { statement_id })->0) == action_sql(
            ActionView::TopPayees { statement_id },
        ),
        sql_params(spoken(ActionView::TopPayees { statement_id })->0) == action_params(
            ActionView::TopPayees { statement_id },
        ),
{
    text_of_top_payees_start();
    text_of_scope(statement_id, Conds::End);
    assert(TOP_PAYEES_END@ =~= exprs_text(" GROUP BY "@, out1(Expr::Col(Side::P, Col::Id))) + orders_text(" ORDER BY "@, order1(Expr::Sum(Side::T), true)) + " LIMIT 8"@) by {
        reveal_with_fuel(exprs_text, 2);
        reveal_with_fuel(orders_text, 2);
    reveal_strlit(" GROUP BY p.id ORDER BY SUM(t.amount_minor) DESC LIMIT 8");
    reveal_strlit(")");
    reveal_strlit("p.");
    reveal_strlit("t.");
    reveal_strlit("id");
    reveal_strlit("SUM(");
    reveal_strlit(" DESC");
    reveal_strlit(" LIMIT 8");
    reveal_strlit(" GROUP BY ");
    reveal_strlit(" ORDER BY ");
    reveal_strlit("amount_minor");
    reveal_strlit("amount_minor)");
    }
    reveal_with_fuel(conds_text, 3);
    reveal_with_fuel(conds_params, 3);
    let action = ActionView::TopPayees { statement_id };
    assert(sql_text(spoken(action)->0) =~= action_sql(action));
    assert(sql_params(spoken(action)->0) =~= action_params(action));
}

proof fn text_of_monthly_totals_start()
    ensures
        MONTHLY_TOTALS@ == exprs_text("SELECT "@, month_cols()) + " FROM "@ + from_text(From::Short) + " WHERE "@ + cond_text(Cond::Always),
{
    reveal_with_fuel(exprs_text, 8);
    reveal_strlit(
        "SELECT substr(date, 1, 7), SUM(CASE WHEN direction = 'debit' THEN amount_minor ELSE 0 END), SUM(CASE WHEN direction = 'credit' THEN amount_minor ELSE 0 END) FROM txn t WHERE 1 = 1",
    );
    reveal_strlit("'");
    reveal_strlit(")");
    reveal_strlit(", ");
    reveal_strlit(" = ");
    reveal_strlit("txn");
    reveal_strlit("date");
    reveal_strlit("SUM(");
    reveal_strlit("txn t");
    reveal_strlit("1 = 1");
    reveal_strlit(" FROM ");
    reveal_strlit("SELECT ");
    reveal_strlit(" WHERE ");
    reveal_strlit("direction");
    reveal_strlit("amount_minor");
    reveal_strlit("direction = '");
    reveal_strlit("SUM(CASE WHEN ");
    reveal_strlit("substr(date, 1, 7)");
    reveal_strlit("' THEN amount_minor ELSE 0 END)");
    reveal_strlit("debit");
    reveal_strlit("credit");
    assert(MONTHLY_TOTALS@ =~= exprs_text("SELECT "@, month_cols()) + " FROM "@ + from_text(From::Short) + " WHERE "@ + cond_text(Cond::Always));
}

proof fn text_of_monthly_totals(statement_id: Option<Seq<char>>)
    ensures
        sql_text(spoken(ActionView::MonthlyTotals { statement_id })->0) == action_sql(
            ActionView::MonthlyTotals { statement_id },
        ),
        sql_params(spoken(ActionView::MonthlyTotals { statement_id })->0) == action_params(
            ActionView::MonthlyTotals { statement_id },
        ),
{
    text_of_monthly_totals_start();
    text_of_scope(statement_id, Conds::End);
    assert(MONTHLY_TOTALS_END@ =~= " GROUP BY 1"@ + " ORDER BY 1"@) by {
        reveal_with_fuel(exprs_text, 2);
        reveal_with_fuel(orders_text, 2);
    reveal_strlit(" GROUP BY 1 ORDER BY 1");
    reveal_strlit(" GROUP BY ");
    reveal_strlit(" ORDER BY ");
    reveal_strlit(" ORDER BY 1");
    reveal_strlit(" GROUP BY 1");
    }
    reveal_with_fuel(conds_text, 3);
    reveal_with_fuel(conds_params, 3);
    let action = ActionView::MonthlyTotals { statement_id };
    assert(sql_text(spoken(action)->0) =~= action_sql(action));
    assert(sql_params(spoken(action)->0) =~= action_params(action));
}

proof fn text_of_search(q: Option<Seq<char>>)
    ensures
        conds_text(" AND "@, of_search(q)) == if q is Some {
            MATCHING@
        } else {
            Seq::empty()
        },
        conds_params(of_search(q)) == match q {
            Some(q) => seq![SqlView::Text(pattern(q)), SqlView::Text(pattern(q))],
            None => Seq::empty(),
        },
{
    reveal_with_fuel(conds_text, 2);
    reveal_with_fuel(conds_params, 2);
    reveal_strlit(" AND (t.merchant_raw LIKE ? OR t.merchant_norm LIKE ?)");
    reveal_strlit("?");
    reveal_strlit(")");
    reveal_strlit("t.");
    reveal_strlit(" (");
    reveal_strlit(" AND ");
    reveal_strlit("merchant_raw");
    reveal_strlit("merchant_norm");
    reveal_strlit("(t.merchant_raw LIKE ");
    reveal_strlit(" OR t.merchant_norm LIKE ");
    if q is Some {
        assert(conds_text(" AND "@, of_search(q)) =~= MATCHING@);
        assert(conds_params(of_search(q)) =~= seq![
            SqlView::Text(pattern(q->0)),
            SqlView::Text(pattern(q->0)),
        ]);
    }
}

proof fn text_of_unlabeled(only: bool, more: Conds)
    ensures
        conds_text(" AND "@, of_unlabeled(only, more)) == (if only {
            UNLABELED_ONLY@
        } else {
            Seq::empty()
        }) + conds_text(" AND "@, more),
        conds_params(of_unlabeled(only, more)) == conds_params(more),
{
    reveal_strlit(" AND t.payee_id IS NULL");
    reveal_strlit("t.");
    reveal_strlit("id");
    reveal_strlit("NULL");
    reveal_strlit("payee");
    reveal_strlit(" AND ");
    reveal_strlit("payee_id");
    reveal_strlit(" IS NULL");
    assert(conds_text(" AND "@, of_unlabeled(only, more)) =~= (if only {
        UNLABELED_ONLY@
    } else {
        Seq::empty()
    }) + conds_text(" AND "@, more));
    assert(conds_params(of_unlabeled(only, more)) =~= conds_params(more));
}

proof fn text_of_category(category_id: Option<Seq<char>>, more: Conds)
    ensures
        conds_text(" AND "@, of_category(category_id, more)) == (if category_id is Some {
            IN_CATEGORY@
        } else {
            Seq::empty()
        }) + conds_text(" AND "@, more),
        conds_params(of_category(category_id, more)) == scope_params(category_id) + conds_params(
            more,
        ),
{
    reveal_strlit(" AND t.payee_id IN (SELECT id FROM payee WHERE category_id = ?)");
    reveal_strlit("?");
    reveal_strlit(")");
    reveal_strlit("t.");
    reveal_strlit("id");
    reveal_strlit(" (");
    reveal_strlit(" = ");
    reveal_strlit("payee");
    reveal_strlit(" AND ");
    reveal_strlit(" FROM ");
    reveal_strlit("SELECT ");
    reveal_strlit(" WHERE ");
    reveal_strlit("payee_id");
    reveal_strlit("category");
    reveal_strlit("category_id");
    reveal_strlit("t.payee_id IN (SELECT id FROM payee WHERE category_id = ");
    assert(conds_text(" AND "@, of_category(category_id, more)) =~= (if category_id is Some {
        IN_CATEGORY@
    } else {
        Seq::empty()
    }) + conds_text(" AND "@, more));
    assert(conds_params(of_category(category_id, more)) =~= scope_params(category_id)
        + conds_params(more));
}

proof fn text_of_scope(statement_id: Option<Seq<char>>, more: Conds)
    ensures
        conds_text(" AND "@, of_statement(statement_id, more)) == scope(statement_id)
            + conds_text(" AND "@, more),
        conds_params(of_statement(statement_id, more)) == scope_params(statement_id)
            + conds_params(more),
{
    reveal_strlit(" AND t.statement_id = ?");
    reveal_strlit("?");
    reveal_strlit("t.");
    reveal_strlit("id");
    reveal_strlit(" = ");
    reveal_strlit(" AND ");
    reveal_strlit("statement");
    reveal_strlit("statement_id");
    assert(conds_text(" AND "@, of_statement(statement_id, more)) =~= scope(statement_id)
        + conds_text(" AND "@, more));
    assert(conds_params(of_statement(statement_id, more)) =~= scope_params(statement_id)
        + conds_params(more));
}

proof fn text_of_list_txns(filter: TxnFilterView)
    ensures
        sql_text(spoken(ActionView::ListTxns { filter })->0) == action_sql(
            ActionView::ListTxns { filter },
        ),
        sql_params(spoken(ActionView::ListTxns { filter })->0) == action_params(
            ActionView::ListTxns { filter },
        ),
{
    let after_category = of_unlabeled(filter.unlabeled_only, of_search(filter.q));
    let after_statement = of_category(filter.category_id, after_category);
    text_of_search(filter.q);
    text_of_unlabeled(filter.unlabeled_only, of_search(filter.q));
    text_of_category(filter.category_id, after_category);
    text_of_scope(filter.statement_id, after_statement);
    let conds = Conds::And(Cond::Always, Box::new(filter_conds(filter)));
    assert(conds_text(" AND "@, filter_conds(filter)) =~= where_text(filter));
    assert(conds_params(filter_conds(filter)) =~= where_params(filter));
    assert(conds_params(conds) =~= where_params(filter));
    text_of_list_start();
    text_of_list_end();
    let action = ActionView::ListTxns { filter };
    assert(conds_text(" WHERE "@, conds) == " WHERE "@ + "1 = 1"@ + conds_text(
        " AND "@,
        filter_conds(filter),
    ));
    assert(sql_text(spoken(action)->0) =~= action_sql(action));
}

proof fn text_of_list_start()
    ensures
        LIST_TXNS@ == exprs_text("SELECT "@, txn_cols()) + " FROM "@ + from_text(From::WithAny)
            + " WHERE "@ + "1 = 1"@,
{
    reveal_with_fuel(exprs_text, 20);
    reveal_strlit(
        "SELECT t.id, t.statement_id, t.row_index, t.date, t.merchant_raw, t.merchant_norm, t.extra, t.amount_minor, t.direction, t.usd_minor, t.bankkart_lira_minor, t.card_last4, t.kind, t.payee_id, p.name, c.id, c.name, c.color FROM txn t LEFT JOIN payee p ON t.payee_id = p.id LEFT JOIN category c ON p.category_id = c.id WHERE 1 = 1",
    );
    reveal_strlit(", ");
    reveal_strlit("p.");
    reveal_strlit("c.");
    reveal_strlit("t.");
    reveal_strlit("id");
    reveal_strlit(" = ");
    reveal_strlit("txn");
    reveal_strlit("kind");
    reveal_strlit("date");
    reveal_strlit("name");
    reveal_strlit("color");
    reveal_strlit("payee");
    reveal_strlit("txn t");
    reveal_strlit("extra");
    reveal_strlit("1 = 1");
    reveal_strlit(" FROM ");
    reveal_strlit("SELECT ");
    reveal_strlit(" WHERE ");
    reveal_strlit("payee_id");
    reveal_strlit("category");
    reveal_strlit("direction");
    reveal_strlit("row_index");
    reveal_strlit("usd_minor");
    reveal_strlit("statement");
    reveal_strlit("card_last4");
    reveal_strlit("category_id");
    reveal_strlit("amount_minor");
    reveal_strlit("merchant_raw");
    reveal_strlit("statement_id");
    reveal_strlit("merchant_norm");
    reveal_strlit("bankkart_lira_minor");
    reveal_strlit(
        "txn t LEFT JOIN payee p ON t.payee_id = p.id LEFT JOIN category c ON p.category_id = c.id",
    );
    assert(LIST_TXNS@ =~= exprs_text("SELECT "@, txn_cols()) + " FROM "@ + from_text(
        From::WithAny,
    ) + " WHERE "@ + "1 = 1"@);
}

proof fn text_of_list_end()
    ensures
        LIST_TXNS_END@ == orders_text(
            " ORDER BY "@,
            Orders::Next(txn(Col::Date), true, Box::new(order1(txn(Col::RowIndex), true))),
        ),
{
    reveal_with_fuel(orders_text, 3);
    reveal_strlit(" ORDER BY t.date DESC, t.row_index DESC");
    reveal_strlit(", ");
    reveal_strlit("t.");
    reveal_strlit("date");
    reveal_strlit(" DESC");
    reveal_strlit("row_index");
    reveal_strlit(" ORDER BY ");
    assert(LIST_TXNS_END@ =~= orders_text(
        " ORDER BY "@,
        Orders::Next(txn(Col::Date), true, Box::new(order1(txn(Col::RowIndex), true))),
    ));
}

/// The text of each statement of the store is that of its form, and each
/// question mark of the text stands for the value that the form has in its
/// place: the value of the column that it is set to or compared with.
pub proof fn texts_and_parameters_are_spoken(action: ActionView)
    ensures
        spoken(action) matches Some(sql) ==> action_sql(action) == sql_text(sql)
            && action_params(action) == sql_params(sql),
{
    match action {
        ActionView::RawMerchants { .. } => text_of_raw_merchants(action),
        ActionView::SetNorm { .. } => text_of_set_norm(action),
        ActionView::SharedNorms { .. } => text_of_shared_norms(action),
        ActionView::UnifyNorm { .. } => text_of_unify_norm(action),
        ActionView::ClearAliases { .. } => text_of_clear_aliases(action),
        ActionView::RebuildAliases { .. } => text_of_rebuild_aliases(action),
        ActionView::SharedNames { .. } => text_of_shared_names(action),
        ActionView::OthersNamed { .. } => text_of_others_named(action),
        ActionView::OtherNamed { .. } => text_of_other_named(action),
        ActionView::MoveTxns { .. } => text_of_move_txns(action),
        ActionView::AdoptAliases { .. } => text_of_adopt_aliases(action),
        ActionView::DropUnusedPayees { .. } => text_of_drop_unused_payees(action),
        ActionView::FindStatement { .. } => text_of_find_statement(action),
        ActionView::InsertStatement { .. } => text_of_insert_statement(action),
        ActionView::AliasOf { .. } => text_of_alias_of(action),
        ActionView::InsertTxn { .. } => text_of_insert_txn(action),
        ActionView::FindPayee { .. } => text_of_find_payee(action),
        ActionView::InsertPayee { .. } => text_of_insert_payee(action),
        ActionView::UpsertAlias { .. } => text_of_upsert_alias(action),
        ActionView::LinkUnlabeled { .. } => text_of_link_unlabeled(action),
        ActionView::CountLabeled { .. } => text_of_count_labeled(action),
        ActionView::FindCategory { .. } => text_of_find_category(action),
        ActionView::SetPayeeCategory { .. } => text_of_set_payee_category(action),
        ActionView::InsertAlias { .. } => text_of_insert_alias(action),
        ActionView::UpdateAlias { .. } => text_of_update_alias(action),
        ActionView::LabelTxns { .. } => text_of_label_txns(action),
        ActionView::SetPayeeName { .. } => text_of_set_payee_name(action),
        ActionView::UnlabelPayee { .. } => text_of_unlabel_payee(action),
        ActionView::DropAliasesOf { .. } => text_of_drop_aliases_of(action),
        ActionView::DropPayee { .. } => text_of_drop_payee(action),
        ActionView::UnlabelSource { .. } => text_of_unlabel_source(action),
        ActionView::DropAlias { .. } => text_of_drop_alias(action),
        ActionView::CountTxnsOf { .. } => text_of_count_txns_of(action),
        ActionView::StatementById { .. } => text_of_statement_by_id(action),
        ActionView::LatestStatement { .. } => text_of_latest_statement(action),
        ActionView::ListStatements { .. } => text_of_list_statements(action),
        ActionView::UnlabeledTxns { .. } => text_of_unlabeled_txns(action),
        ActionView::ListCategories { .. } => text_of_list_categories(action),
        ActionView::ListPayees { .. } => text_of_list_payees(action),
        ActionView::PayeeSources { .. } => text_of_payee_sources(action),
        ActionView::SpendByCategory { statement_id } => text_of_spend_by_category(statement_id),
        ActionView::UnlabeledTotals { statement_id } => text_of_unlabeled_totals(statement_id),
        ActionView::TopPayees { statement_id } => text_of_top_payees(statement_id),
        ActionView::MonthlyTotals { statement_id } => text_of_monthly_totals(statement_id),
        ActionView::ListTxns { filter } => text_of_list_txns(filter),
        _ => {},
    }
}

/// The statements without a form are those that set the database up, that begin
/// and end transactions, and that read or make the schema; none of them has
/// parameters.
pub proof fn other_statements_are_plain(action: ActionView)
    requires
        spoken(action) is None,
    ensures
        action_params(action).len() == 0,
        match action {
            ActionView::ForeignKeysOn => action_sql(action) == "PRAGMA foreign_keys = ON"@,
            ActionView::BusyTimeout => action_sql(action) == "PRAGMA busy_timeout = 5000"@,
            ActionView::Begin => action_sql(action) == "BEGIN IMMEDIATE"@,
            ActionView::Commit => action_sql(action) == "COMMIT"@,
            ActionView::Rollback => action_sql(action) == "ROLLBACK"@,
            ActionView::InstallSchema => action_sql(action) == declared_schema(),
            ActionView::CountTables => action_sql(action)
                == "SELECT COUNT(*) FROM sqlite_master WHERE type = 'table' AND name NOT LIKE 'sqlite_%'"@,
            ActionView::ReadSchema | ActionView::ReadDeclaredSchema => action_sql(action)
                == "SELECT type, name, sql FROM sqlite_master WHERE name NOT LIKE 'sqlite_%' ORDER BY type, name"@,
            _ => false,
        },
{
}

} // verus!
