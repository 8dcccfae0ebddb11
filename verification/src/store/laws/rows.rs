//! What is written reads back.

use crate::parse::{direction_reads_back, kind_reads_back, ParsedTxnView, StatementHeadView};
use crate::store::action::{statement_params, txn_params};
use crate::store::rows::{fits, row_error, statement_columns, statement_of, txn_columns, txn_of,
    value_error, Column, StatementRowView, TxnRowView};
use crate::store::value::{text_or_null, SqlView, StoreErrorView};
use vstd::prelude::*;

verus! {

/// Nothing is wrong with a row of fitting values.
pub proof fn fitting_row(row: Seq<SqlView>, columns: Seq<Column>, from: int)
    requires
        fits(row, columns),
        0 <= from <= columns.len(),
    ensures
        row_error(row, columns, from) is None,
    decreases columns.len() - from,
{
    if from < columns.len() {
        assert(value_error(row[from], columns[from]) is None);
        fitting_row(row, columns, from + 1);
    }
}

/// The row of a stored statement, in the columns that it was written to, reads
/// as the statement.
pub proof fn stored_statement_reads_back(id: Seq<char>, head: StatementHeadView, now: Seq<char>)
    ensures
        statement_of(statement_params(id, head, now)) == Ok::<StatementRowView, StoreErrorView>(
            StatementRowView {
                id,
                source_sha256: head.source_sha256,
                period_end: head.period_end,
                next_period_end: head.next_period_end,
                due_date: head.due_date,
                next_due_date: head.next_due_date,
                previous_balance_minor: head.previous_balance_minor,
                spend_minor: head.spend_minor,
                fees_minor: head.fees_minor,
                payments_minor: head.payments_minor,
                period_debt_minor: head.period_debt_minor,
                period_debt_usd_minor: head.period_debt_usd_minor,
                min_pay_minor: head.min_pay_minor,
                card_limit_minor: head.card_limit_minor,
                available_limit_minor: head.available_limit_minor,
                imported_at: now,
            },
        ),
{
    let row = statement_params(id, head, now);
    fitting_row(row, statement_columns(), 0);
}

/// The row of a stored transaction, in the columns that it was written to and
/// with the names of its payee and category behind them, reads as the
/// transaction.
pub proof fn stored_transaction_reads_back(
    id: Seq<char>,
    statement_id: Seq<char>,
    txn: ParsedTxnView,
    payee_id: Option<Seq<char>>,
    payee_name: Option<Seq<char>>,
    category_id: Option<Seq<char>>,
    category_name: Option<Seq<char>>,
    category_color: Option<Seq<char>>,
)
    ensures
        txn_of(
            txn_params(id, statement_id, txn, payee_id) + seq![
                text_or_null(payee_name),
                text_or_null(category_id),
                text_or_null(category_name),
                text_or_null(category_color),
            ],
        ) == Ok::<TxnRowView, StoreErrorView>(
            TxnRowView {
                id,
                statement_id,
                row_index: txn.row_index,
                date: txn.date,
                merchant_raw: txn.merchant_raw,
                merchant_norm: txn.merchant_norm,
                extra: txn.extra,
                amount_minor: txn.amount_minor,
                direction: txn.direction,
                usd_minor: txn.usd_minor,
                bankkart_lira_minor: txn.bankkart_lira_minor,
                card_last4: txn.card_last4,
                kind: txn.kind,
                payee_id,
                payee_name,
                category_id,
                category_name,
                category_color,
            },
        ),
{
    direction_reads_back(txn.direction);
    kind_reads_back(txn.kind);
    let row = txn_params(id, statement_id, txn, payee_id) + seq![
        text_or_null(payee_name),
        text_or_null(category_id),
        text_or_null(category_name),
        text_or_null(category_color),
    ];
    fitting_row(row, txn_columns(), 0);
}

} // verus!
