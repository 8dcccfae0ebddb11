//! What the statements that change rows mean is what the model says that they
//! do.

use crate::parse::{direction_reads_back, kind_reads_back, Direction, ParsedTxnView};
use crate::store::action::{action_params, action_sql, ActionView};
use crate::store::lang::{all_hold, cell, has_norm, hit_count, holds, is_first_payee, keys,
    others_stay, set_to, sql_does, sql_params, sql_text, val_value, Col, Cond, Conds, From, Sql,
    Table, Val};
use crate::store::laws::meaning_groups::{merchants_mean_what_they_say, months_mean_what_they_say,
    payments_mean_what_they_say, shared_names_mean_what_they_say, shared_norms_mean_what_they_say,
    sources_mean_what_they_say, spending_means_what_it_says};
use crate::store::laws::meaning_reads::{counts_mean_what_they_say, gets, lookups_mean_what_they_say,
    plain_lists_mean_what_they_say, statement_lists_mean_what_they_say,
    transaction_list_means_what_it_says, unlabeled_totals_mean_what_they_say};
use crate::store::laws::spoken::{set1, spoken, text_param, texts_and_parameters_are_spoken};
use crate::store::model::{adopted, aliases_without, does, has_fingerprint, how_many, is_first_label,
    is_labeled, labels, relabeled, with_aliases, with_payees, with_txns, AliasRec, PayeeRec,
    StatementRec, Tables, TxnRec};
use crate::store::query::{in_month, is_i64, paid_to, spent_on, uses_of};
use crate::store::value::{text_or_null, SqlView};
use crate::text::text_less;
use vstd::prelude::*;

verus! {

/// Two rows of a table hold the same.
pub open spec fn same_cells(a: Tables, b: Tables, table: Table, k: Seq<char>) -> bool {
    forall|col: Col| #[trigger] cell(a, table, k, col) == cell(b, table, k, col)
}

proof fn txn_is_its_cells(a: Tables, b: Tables, k: Seq<char>)
    requires
        same_cells(a, b, Table::Txn, k),
    ensures
        a.txns[k] == b.txns[k],
{
    let x = a.txns[k];
    let y = b.txns[k];
    assert(cell(a, Table::Txn, k, Col::StatementId) == cell(b, Table::Txn, k, Col::StatementId));
    assert(cell(a, Table::Txn, k, Col::RowIndex) == cell(b, Table::Txn, k, Col::RowIndex));
    assert(cell(a, Table::Txn, k, Col::Date) == cell(b, Table::Txn, k, Col::Date));
    assert(cell(a, Table::Txn, k, Col::MerchantRaw) == cell(b, Table::Txn, k, Col::MerchantRaw));
    assert(cell(a, Table::Txn, k, Col::MerchantNorm) == cell(b, Table::Txn, k, Col::MerchantNorm));
    assert(cell(a, Table::Txn, k, Col::Extra) == cell(b, Table::Txn, k, Col::Extra));
    assert(cell(a, Table::Txn, k, Col::Amount) == cell(b, Table::Txn, k, Col::Amount));
    assert(cell(a, Table::Txn, k, Col::Direction) == cell(b, Table::Txn, k, Col::Direction));
    assert(cell(a, Table::Txn, k, Col::Usd) == cell(b, Table::Txn, k, Col::Usd));
    assert(cell(a, Table::Txn, k, Col::Lira) == cell(b, Table::Txn, k, Col::Lira));
    assert(cell(a, Table::Txn, k, Col::CardLast4) == cell(b, Table::Txn, k, Col::CardLast4));
    assert(cell(a, Table::Txn, k, Col::Kind) == cell(b, Table::Txn, k, Col::Kind));
    assert(cell(a, Table::Txn, k, Col::PayeeId) == cell(b, Table::Txn, k, Col::PayeeId));
    direction_reads_back(x.txn.direction);
    direction_reads_back(y.txn.direction);
    kind_reads_back(x.txn.kind);
    kind_reads_back(y.txn.kind);
    assert(x.txn.usd_minor == y.txn.usd_minor);
    assert(x.payee_id == y.payee_id);
    assert(x.txn == y.txn);
}

proof fn payee_is_its_cells(a: Tables, b: Tables, k: Seq<char>)
    requires
        same_cells(a, b, Table::Payee, k),
    ensures
        a.payees[k] == b.payees[k],
{
    assert(cell(a, Table::Payee, k, Col::Name) == cell(b, Table::Payee, k, Col::Name));
    assert(cell(a, Table::Payee, k, Col::CategoryId) == cell(b, Table::Payee, k, Col::CategoryId));
    assert(cell(a, Table::Payee, k, Col::CreatedAt) == cell(b, Table::Payee, k, Col::CreatedAt));
}

proof fn alias_is_its_cells(a: Tables, b: Tables, k: Seq<char>)
    requires
        same_cells(a, b, Table::Alias, k),
    ensures
        a.aliases[k] == b.aliases[k],
{
    assert(cell(a, Table::Alias, k, Col::PayeeId) == cell(b, Table::Alias, k, Col::PayeeId));
    assert(cell(a, Table::Alias, k, Col::CreatedAt) == cell(b, Table::Alias, k, Col::CreatedAt));
}

proof fn statement_is_its_cells(a: Tables, b: Tables, k: Seq<char>)
    requires
        same_cells(a, b, Table::Statement, k),
    ensures
        a.statements[k] == b.statements[k],
{
    let x = a.statements[k];
    let y = b.statements[k];
    assert(cell(a, Table::Statement, k, Col::SourceSha256) == cell(
        b,
        Table::Statement,
        k,
        Col::SourceSha256,
    ));
    assert(cell(a, Table::Statement, k, Col::PeriodEnd) == cell(
        b,
        Table::Statement,
        k,
        Col::PeriodEnd,
    ));
    assert(cell(a, Table::Statement, k, Col::NextPeriodEnd) == cell(
        b,
        Table::Statement,
        k,
        Col::NextPeriodEnd,
    ));
    assert(cell(a, Table::Statement, k, Col::DueDate) == cell(b, Table::Statement, k, Col::DueDate));
    assert(cell(a, Table::Statement, k, Col::NextDueDate) == cell(
        b,
        Table::Statement,
        k,
        Col::NextDueDate,
    ));
    assert(cell(a, Table::Statement, k, Col::PreviousBalance) == cell(
        b,
        Table::Statement,
        k,
        Col::PreviousBalance,
    ));
    assert(cell(a, Table::Statement, k, Col::Spend) == cell(b, Table::Statement, k, Col::Spend));
    assert(cell(a, Table::Statement, k, Col::Fees) == cell(b, Table::Statement, k, Col::Fees));
    assert(cell(a, Table::Statement, k, Col::Payments) == cell(
        b,
        Table::Statement,
        k,
        Col::Payments,
    ));
    assert(cell(a, Table::Statement, k, Col::PeriodDebt) == cell(
        b,
        Table::Statement,
        k,
        Col::PeriodDebt,
    ));
    assert(cell(a, Table::Statement, k, Col::PeriodDebtUsd) == cell(
        b,
        Table::Statement,
        k,
        Col::PeriodDebtUsd,
    ));
    assert(cell(a, Table::Statement, k, Col::MinPay) == cell(b, Table::Statement, k, Col::MinPay));
    assert(cell(a, Table::Statement, k, Col::CardLimit) == cell(
        b,
        Table::Statement,
        k,
        Col::CardLimit,
    ));
    assert(cell(a, Table::Statement, k, Col::AvailableLimit) == cell(
        b,
        Table::Statement,
        k,
        Col::AvailableLimit,
    ));
    assert(cell(a, Table::Statement, k, Col::ImportedAt) == cell(
        b,
        Table::Statement,
        k,
        Col::ImportedAt,
    ));
    assert(x.head.next_period_end == y.head.next_period_end);
    assert(x.head.due_date == y.head.due_date);
    assert(x.head.next_due_date == y.head.next_due_date);
    assert(x.head.card_limit_minor == y.head.card_limit_minor);
    assert(x.head.available_limit_minor == y.head.available_limit_minor);
    assert(x.head == y.head);
}

/// How many rows a statement is about, told by what holds of the record.
proof fn hits_are_counted(
    t: Tables,
    conds: Conds,
    which: spec_fn(TxnRec) -> bool,
)
    requires
        forall|k: Seq<char>|
            t.txns.contains_key(k) ==> (#[trigger] all_hold(t, From::One(Table::Txn), k, conds)
                <==> which(t.txns[k])),
    ensures
        hit_count(t, Table::Txn, conds) == how_many(t.txns, which),
{
    let a = keys(t, Table::Txn).filter(|k: Seq<char>| all_hold(t, From::One(Table::Txn), k, conds));
    let b = t.txns.dom().filter(|id: Seq<char>| which(t.txns[id]));
    assert(a =~= b);
}

/// A statement that sets the payee of transactions labels those that its
/// conditions hold of.
proof fn labels_as_told(
    t: Tables,
    sql: Sql,
    conds: Conds,
    val: Val,
    payee_id: Option<Seq<char>>,
    which: spec_fn(TxnRec) -> bool,
    rows: Seq<Seq<SqlView>>,
    changed: u64,
    after: Tables,
)
    requires
        sql == (Sql::Update { table: Table::Txn, sets: set1(Col::PayeeId, val), conds }),
        val_value(val) == text_or_null(payee_id),
        sql_does(t, sql, rows, changed, after),
        forall|k: Seq<char>|
            t.txns.contains_key(k) ==> (#[trigger] all_hold(t, From::One(Table::Txn), k, conds)
                <==> which(t.txns[k])),
    ensures
        after == with_txns(t, relabeled(t.txns, which, payee_id)),
        changed == how_many(t.txns, which),
{
    let want = with_txns(t, relabeled(t.txns, which, payee_id));
    hits_are_counted(t, conds, which);
    assert(keys(after, Table::Txn) =~= keys(want, Table::Txn));
    assert forall|k: Seq<char>| #[trigger] after.txns.contains_key(k) implies after.txns[k]
        == want.txns[k] by {
        assert(keys(t, Table::Txn).contains(k));
        assert(all_hold(t, From::One(Table::Txn), k, conds) <==> which(t.txns[k]));
        assert forall|col: Col| #[trigger]
            cell(after, Table::Txn, k, col) == cell(want, Table::Txn, k, col) by {
            reveal_with_fuel(set_to, 2);
            if col is PayeeId {
            } else {
            }
        }
        txn_is_its_cells(after, want, k);
    }
    assert(after.txns =~= want.txns);
}

/// Statements that label transactions, or take their labels away, do what the
/// model says.
pub proof fn labeling_means_what_it_says(
    t: Tables,
    action: ActionView,
    rows: Seq<Seq<SqlView>>,
    changed: u64,
    after: Tables,
)
    requires
        action is LabelTxns || action is LinkUnlabeled || action is UnlabelPayee || action
            is UnlabelSource || action is MoveTxns || action is UnifyNorm,
        sql_does(t, spoken(action)->0, rows, changed, after),
    ensures
        does(t, action, rows, changed, after),
{
    reveal_with_fuel(all_hold, 4);
    let sql = spoken(action)->0;
    match action {
        ActionView::LabelTxns { payee_id, norm } => labels_as_told(
            t,
            sql,
            sql->Update_conds,
            text_param(payee_id),
            Some(payee_id),
            |x: TxnRec| x.txn.merchant_norm == norm,
            rows,
            changed,
            after,
        ),
        ActionView::LinkUnlabeled { payee_id, statement_id, norm } => labels_as_told(
            t,
            sql,
            sql->Update_conds,
            text_param(payee_id),
            Some(payee_id),
            |x: TxnRec|
                x.statement_id == statement_id && x.txn.merchant_norm == norm && x.payee_id
                    is None,
            rows,
            changed,
            after,
        ),
        ActionView::UnlabelPayee { payee_id } => labels_as_told(
            t,
            sql,
            sql->Update_conds,
            Val::Null,
            None,
            |x: TxnRec| x.payee_id == Some(payee_id),
            rows,
            changed,
            after,
        ),
        ActionView::UnlabelSource { payee_id, norm } => labels_as_told(
            t,
            sql,
            sql->Update_conds,
            Val::Null,
            None,
            |x: TxnRec| x.payee_id == Some(payee_id) && x.txn.merchant_norm == norm,
            rows,
            changed,
            after,
        ),
        ActionView::MoveTxns { keeper, extra } => labels_as_told(
            t,
            sql,
            sql->Update_conds,
            text_param(keeper),
            Some(keeper),
            |x: TxnRec| x.payee_id == Some(extra),
            rows,
            changed,
            after,
        ),
        ActionView::UnifyNorm { keeper, norm } => labels_as_told(
            t,
            sql,
            sql->Update_conds,
            text_param(keeper),
            Some(keeper),
            |x: TxnRec| x.txn.merchant_norm == norm && x.payee_id is Some,
            rows,
            changed,
            after,
        ),
        _ => {},
    }
}

/// Giving a merchant another key does what the model says.
pub proof fn keying_means_what_it_says(
    t: Tables,
    norm: Seq<char>,
    raw: Seq<char>,
    rows: Seq<Seq<SqlView>>,
    changed: u64,
    after: Tables,
)
    requires
        sql_does(t, spoken(ActionView::SetNorm { norm, raw })->0, rows, changed, after),
    ensures
        does(t, ActionView::SetNorm { norm, raw }, rows, changed, after),
{
    reveal_with_fuel(all_hold, 2);
    let sql = spoken(ActionView::SetNorm { norm, raw })->0;
    let want = with_txns(
        t,
        Map::new(
            |id: Seq<char>| t.txns.contains_key(id),
            |id: Seq<char>|
                if t.txns[id].txn.merchant_raw == raw {
                    TxnRec {
                        txn: ParsedTxnView { merchant_norm: norm, ..t.txns[id].txn },
                        ..t.txns[id]
                    }
                } else {
                    t.txns[id]
                },
        ),
    );
    assert(keys(after, Table::Txn) =~= keys(want, Table::Txn));
    assert forall|k: Seq<char>| #[trigger] after.txns.contains_key(k) implies after.txns[k]
        == want.txns[k] by {
        assert(keys(t, Table::Txn).contains(k));
        assert forall|col: Col| #[trigger]
            cell(after, Table::Txn, k, col) == cell(want, Table::Txn, k, col) by {
            reveal_with_fuel(set_to, 2);
            if col is MerchantNorm {
            } else {
            }
        }
        txn_is_its_cells(after, want, k);
    }
    assert(after.txns =~= want.txns);
    assert(after == want);
}

/// A table that a statement leaves as the model says: its rows have the same
/// cells.
proof fn payees_are_as_told(t: Tables, after: Tables, payees: Map<Seq<char>, PayeeRec>)
    requires
        others_stay(t, after, Table::Payee),
        keys(after, Table::Payee) == payees.dom(),
        forall|k: Seq<char>| #[trigger]
            payees.contains_key(k) ==> same_cells(after, with_payees(t, payees), Table::Payee, k),
    ensures
        after == with_payees(t, payees),
{
    let want = with_payees(t, payees);
    assert forall|k: Seq<char>| #[trigger] after.payees.contains_key(k) implies after.payees[k]
        == want.payees[k] by {
        assert(payees.contains_key(k));
        payee_is_its_cells(after, want, k);
    }
    assert(after.payees =~= payees);
    assert(after == want);
}

proof fn aliases_are_as_told(t: Tables, after: Tables, aliases: Map<Seq<char>, AliasRec>)
    requires
        others_stay(t, after, Table::Alias),
        keys(after, Table::Alias) == aliases.dom(),
        forall|k: Seq<char>| #[trigger]
            aliases.contains_key(k) ==> same_cells(
                after,
                with_aliases(t, aliases),
                Table::Alias,
                k,
            ),
    ensures
        after == with_aliases(t, aliases),
{
    let want = with_aliases(t, aliases);
    assert forall|k: Seq<char>| #[trigger] after.aliases.contains_key(k) implies after.aliases[k]
        == want.aliases[k] by {
        assert(aliases.contains_key(k));
        alias_is_its_cells(after, want, k);
    }
    assert(after.aliases =~= aliases);
    assert(after == want);
}

/// One row, where there is one, is all that a statement with its key is about.
proof fn one_row_is_hit(t: Tables, table: Table, conds: Conds, key: Seq<char>)
    requires
        forall|k: Seq<char>|
            keys(t, table).contains(k) ==> (#[trigger] all_hold(t, From::One(table), k, conds)
                <==> k == key),
    ensures
        hit_count(t, table, conds) == if keys(t, table).contains(key) {
            1nat
        } else {
            0
        },
{
    let hits = keys(t, table).filter(|k: Seq<char>| all_hold(t, From::One(table), k, conds));
    if keys(t, table).contains(key) {
        assert(hits =~= Set::empty().insert(key));
    } else {
        assert(hits =~= Set::empty());
    }
}

/// Statements that change or remove payees do what the model says.
pub proof fn payee_changes_mean_what_they_say(
    t: Tables,
    action: ActionView,
    rows: Seq<Seq<SqlView>>,
    changed: u64,
    after: Tables,
)
    requires
        action is SetPayeeCategory || action is SetPayeeName || action is DropPayee || action
            is DropUnusedPayees,
        sql_does(t, spoken(action)->0, rows, changed, after),
    ensures
        does(t, action, rows, changed, after),
{
    reveal_with_fuel(all_hold, 2);
    reveal_with_fuel(set_to, 2);
    let sql = spoken(action)->0;
    match action {
        ActionView::SetPayeeCategory { category_id, payee_id } => {
            one_row_is_hit(t, Table::Payee, sql->Update_conds, payee_id);
            if t.payees.contains_key(payee_id) {
                let payees = t.payees.insert(
                    payee_id,
                    PayeeRec { category_id, ..t.payees[payee_id] },
                );
                assert(payees.dom() =~= t.payees.dom());
                payees_are_as_told(t, after, payees);
            } else {
                payees_are_as_told(t, after, t.payees);
            }
        },
        ActionView::SetPayeeName { name, payee_id } => {
            one_row_is_hit(t, Table::Payee, sql->Update_conds, payee_id);
            if t.payees.contains_key(payee_id) {
                let payees = t.payees.insert(payee_id, PayeeRec { name, ..t.payees[payee_id] });
                assert(payees.dom() =~= t.payees.dom());
                payees_are_as_told(t, after, payees);
            } else {
                payees_are_as_told(t, after, t.payees);
            }
        },
        ActionView::DropPayee { payee_id } => {
            one_row_is_hit(t, Table::Payee, sql->Delete_conds, payee_id);
            let payees = t.payees.remove(payee_id);
            assert(keys(after, Table::Payee) =~= payees.dom());
            payees_are_as_told(t, after, payees);
        },
        ActionView::DropUnusedPayees => {
            let payees = Map::new(
                |id: Seq<char>|
                    t.payees.contains_key(id) && exists|x: Seq<char>| #[trigger]
                        t.txns.contains_key(x) && t.txns[x].payee_id == Some(id),
                |id: Seq<char>| t.payees[id],
            );
            assert forall|k: Seq<char>| #[trigger] keys(after, Table::Payee).contains(
                k,
            ) <==> payees.contains_key(k) by {
                if keys(t, Table::Payee).contains(k) {
                    let unused = all_hold(t, From::One(Table::Payee), k, sql->Delete_conds);
                    assert(unused <==> holds(t, From::One(Table::Payee), k, Cond::Unused));
                    if payees.contains_key(k) {
                        let x = choose|x: Seq<char>| #[trigger]
                            t.txns.contains_key(x) && t.txns[x].payee_id == Some(k);
                        assert(keys(t, Table::Txn).contains(x));
                        assert(!unused);
                    } else if !unused {
                        let x = choose|x: Seq<char>| #[trigger]
                            keys(t, Table::Txn).contains(x) && cell(
                                t,
                                Table::Txn,
                                x,
                                Col::PayeeId,
                            ) == SqlView::Text(k);
                        assert(t.txns.contains_key(x));
                    }
                }
            }
            assert(keys(after, Table::Payee) =~= payees.dom());
            payees_are_as_told(t, after, payees);
        },
        _ => {},
    }
}

/// Statements that change or remove aliases do what the model says.
pub proof fn alias_changes_mean_what_they_say(
    t: Tables,
    action: ActionView,
    rows: Seq<Seq<SqlView>>,
    changed: u64,
    after: Tables,
)
    requires
        action is UpdateAlias || action is DropAliasesOf || action is DropAlias || action
            is ClearAliases || action is UpsertAlias,
        sql_does(t, spoken(action)->0, rows, changed, after),
    ensures
        does(t, action, rows, changed, after),
{
    reveal_with_fuel(all_hold, 3);
    reveal_with_fuel(set_to, 4);
    match action {
        ActionView::UpdateAlias { payee_id, norm } => {
            if t.aliases.contains_key(norm) {
                let aliases = t.aliases.insert(norm, AliasRec { payee_id, ..t.aliases[norm] });
                assert(aliases.dom() =~= t.aliases.dom());
                aliases_are_as_told(t, after, aliases);
            } else {
                aliases_are_as_told(t, after, t.aliases);
            }
        },
        ActionView::DropAliasesOf { payee_id } => {
            let aliases = aliases_without(
                t.aliases,
                |norm: Seq<char>, a: AliasRec| a.payee_id == payee_id,
            );
            assert(keys(after, Table::Alias) =~= aliases.dom());
            aliases_are_as_told(t, after, aliases);
        },
        ActionView::DropAlias { payee_id, norm } => {
            let aliases = aliases_without(
                t.aliases,
                |key: Seq<char>, a: AliasRec| a.payee_id == payee_id && key == norm,
            );
            assert(keys(after, Table::Alias) =~= aliases.dom());
            aliases_are_as_told(t, after, aliases);
        },
        ActionView::ClearAliases => {
            let aliases: Map<Seq<char>, AliasRec> = Map::empty();
            assert(keys(after, Table::Alias) =~= aliases.dom());
            aliases_are_as_told(t, after, aliases);
        },
        ActionView::UpsertAlias { norm, payee_id, now } => {
            let aliases = t.aliases.insert(
                norm,
                if t.aliases.contains_key(norm) {
                    AliasRec { payee_id, ..t.aliases[norm] }
                } else {
                    AliasRec { payee_id, created_at: now }
                },
            );
            assert(keys(after, Table::Alias) =~= aliases.dom());
            aliases_are_as_told(t, after, aliases);
        },
        _ => {},
    }
}

/// Statements that give merchants their aliases do what the model says.
pub proof fn alias_rebuilds_mean_what_they_say(
    t: Tables,
    action: ActionView,
    rows: Seq<Seq<SqlView>>,
    changed: u64,
    after: Tables,
)
    requires
        action is AdoptAliases || action is RebuildAliases,
        sql_does(t, spoken(action)->0, rows, changed, after),
    ensures
        does(t, action, rows, changed, after),
{
    assert forall|norm: Seq<char>, p: Seq<char>| #[trigger]
        has_norm(t, norm, SqlView::Text(p)) <==> labels(t.txns, norm, p) by {
        if has_norm(t, norm, SqlView::Text(p)) {
            let x = choose|x: Seq<char>| #[trigger]
                keys(t, Table::Txn).contains(x) && cell(t, Table::Txn, x, Col::MerchantNorm)
                    == SqlView::Text(norm) && cell(t, Table::Txn, x, Col::PayeeId)
                    == SqlView::Text(p);
            assert(t.txns.contains_key(x));
        }
        if labels(t.txns, norm, p) {
            let x = choose|x: Seq<char>| #[trigger]
                t.txns.contains_key(x) && t.txns[x].txn.merchant_norm == norm
                    && t.txns[x].payee_id == Some(p);
            assert(keys(t, Table::Txn).contains(x));
        }
    }
    match action {
        ActionView::AdoptAliases { keeper, now } => {
            let aliases = adopted(t, keeper, now);
            assert forall|norm: Seq<char>| #[trigger] keys(after, Table::Alias).contains(
                norm,
            ) <==> aliases.contains_key(norm) by {
                assert(has_norm(t, norm, SqlView::Text(keeper)) <==> labels(
                    t.txns,
                    norm,
                    keeper,
                ));
            }
            assert(keys(after, Table::Alias) =~= aliases.dom());
            aliases_are_as_told(t, after, aliases);
        },
        ActionView::RebuildAliases { now } => {
            assert forall|norm: Seq<char>| #[trigger] is_labeled(t.txns, norm) <==> exists|
                p: Seq<char>,
            | #[trigger] has_norm(t, norm, SqlView::Text(p)) by {
                if is_labeled(t.txns, norm) {
                    let p = choose|p: Seq<char>| labels(t.txns, norm, p);
                    assert(has_norm(t, norm, SqlView::Text(p)));
                }
                if exists|p: Seq<char>| #[trigger] has_norm(t, norm, SqlView::Text(p)) {
                    let p = choose|p: Seq<char>| #[trigger] has_norm(t, norm, SqlView::Text(p));
                    assert(labels(t.txns, norm, p));
                }
            }
            assert(after == with_aliases(t, after.aliases));
            assert forall|norm: Seq<char>| #[trigger] t.aliases.contains_key(norm) implies !is_labeled(
                t.txns,
                norm,
            ) && after.aliases.contains_key(norm) && after.aliases[norm] == t.aliases[norm] by {
                assert(keys(t, Table::Alias).contains(norm));
                assert(keys(after, Table::Alias).contains(norm));
                alias_is_its_cells(after, t, norm);
            }
            assert forall|norm: Seq<char>| #[trigger]
                after.aliases.contains_key(norm) && !t.aliases.contains_key(
                    norm,
                ) implies is_first_label(t.txns, norm, after.aliases[norm].payee_id)
                && after.aliases[norm].created_at == now by {
                assert(keys(after, Table::Alias).contains(norm));
                let p = after.aliases[norm].payee_id;
                assert(is_first_payee(t, norm, SqlView::Text(p)));
                assert forall|other: Seq<char>| #[trigger] labels(
                    t.txns,
                    norm,
                    other,
                ) implies !text_less(other, p) by {
                    assert(has_norm(t, norm, SqlView::Text(other)));
                }
            }
            assert forall|norm: Seq<char>| #[trigger]
                after.aliases.contains_key(norm) <==> t.aliases.contains_key(norm) || is_labeled(
                    t.txns,
                    norm,
                ) by {
                assert(keys(after, Table::Alias).contains(norm) <==> after.aliases.contains_key(
                    norm,
                ));
            }
        },
        _ => {},
    }
}

/// Statements that add rows add those that the model says.
pub proof fn additions_mean_what_they_say(
    t: Tables,
    action: ActionView,
    rows: Seq<Seq<SqlView>>,
    changed: u64,
    after: Tables,
)
    requires
        action is InsertPayee || action is InsertAlias || action is InsertStatement || action
            is InsertTxn,
        sql_does(t, spoken(action)->0, rows, changed, after),
    ensures
        does(t, action, rows, changed, after),
{
    match action {
        ActionView::InsertPayee { id, name, category_id, now } => {
            reveal_with_fuel(set_to, 5);
            let payees = t.payees.insert(id, PayeeRec { name, category_id, created_at: now });
            assert(keys(after, Table::Payee) =~= payees.dom());
            payees_are_as_told(t, after, payees);
        },
        ActionView::InsertAlias { norm, payee_id, now } => {
            reveal_with_fuel(set_to, 4);
            let aliases = t.aliases.insert(norm, AliasRec { payee_id, created_at: now });
            assert(keys(after, Table::Alias) =~= aliases.dom());
            aliases_are_as_told(t, after, aliases);
        },
        ActionView::InsertStatement { id, head, now } => {
            reveal_with_fuel(set_to, 17);
            let want = Tables {
                statements: t.statements.insert(id, StatementRec { head, imported_at: now }),
                ..t
            };
            assert(keys(after, Table::Statement) =~= want.statements.dom());
            assert forall|k: Seq<char>| #[trigger] after.statements.contains_key(k) implies
                after.statements[k] == want.statements[k] by {
                assert(k == id || keys(t, Table::Statement).contains(k));
                statement_is_its_cells(after, want, k);
            }
            assert(after.statements =~= want.statements);
            if has_fingerprint(t, head.source_sha256) {
                let x = choose|x: Seq<char>| #[trigger]
                    t.statements.contains_key(x) && t.statements[x].head.source_sha256
                        == head.source_sha256;
                assert(keys(t, Table::Statement).contains(x));
            }
        },
        ActionView::InsertTxn { id, statement_id, txn, payee_id } => {
            reveal_with_fuel(set_to, 15);
            let want = with_txns(t, t.txns.insert(id, TxnRec { statement_id, txn, payee_id }));
            assert(keys(after, Table::Txn) =~= want.txns.dom());
            assert forall|k: Seq<char>| #[trigger] after.txns.contains_key(k) implies after.txns[k]
                == want.txns[k] by {
                assert(k == id || keys(t, Table::Txn).contains(k));
                txn_is_its_cells(after, want, k);
            }
            assert(after.txns =~= want.txns);
        },
        _ => {},
    }
}

/// 64 bits hold the sums and counts that a statement answers with.
pub open spec fn sums_fit(t: Tables, action: ActionView) -> bool {
    match action {
        ActionView::SpendByCategory { statement_id } => forall|c: Seq<char>|
            t.categories.contains_key(c) ==> is_i64(#[trigger] spent_on(t, statement_id, c)),
        ActionView::TopPayees { statement_id } => forall|p: Seq<char>|
            t.payees.contains_key(p) ==> is_i64(#[trigger] paid_to(t, statement_id, p)),
        ActionView::MonthlyTotals { statement_id } => forall|m: Seq<char>, direction: Direction|
            is_i64(#[trigger] in_month(t, statement_id, m, direction)),
        ActionView::PayeeSources => forall|p: Seq<char>, norm: Seq<char>|
            is_i64(#[trigger] uses_of(t, p, norm) as int),
        _ => true,
    }
}

/// What the model says that a statement does is what its text means with its
/// parameters: the text and the parameters are those of its form, and whatever
/// rows and changes that form has, the model says of them.
pub proof fn statements_mean_what_they_say(
    t: Tables,
    action: ActionView,
    all: Seq<Seq<SqlView>>,
    rows: Seq<Seq<SqlView>>,
    changed: u64,
    after: Tables,
)
    requires
        spoken(action) is Some,
        sql_does(t, spoken(action)->0, all, changed, after),
        gets(action, all, rows),
        sums_fit(t, action),
    ensures
        action_sql(action) == sql_text(spoken(action)->0),
        action_params(action) == sql_params(spoken(action)->0),
        does(t, action, rows, changed, after),
{
    texts_and_parameters_are_spoken(action);
    match action {
        ActionView::LabelTxns { .. }
        | ActionView::LinkUnlabeled { .. }
        | ActionView::UnlabelPayee { .. }
        | ActionView::UnlabelSource { .. }
        | ActionView::MoveTxns { .. }
        | ActionView::UnifyNorm { .. } => labeling_means_what_it_says(
            t,
            action,
            rows,
            changed,
            after,
        ),
        ActionView::SetNorm { norm, raw } => keying_means_what_it_says(
            t,
            norm,
            raw,
            rows,
            changed,
            after,
        ),
        ActionView::SetPayeeCategory { .. }
        | ActionView::SetPayeeName { .. }
        | ActionView::DropPayee { .. }
        | ActionView::DropUnusedPayees => payee_changes_mean_what_they_say(
            t,
            action,
            rows,
            changed,
            after,
        ),
        ActionView::UpdateAlias { .. }
        | ActionView::DropAliasesOf { .. }
        | ActionView::DropAlias { .. }
        | ActionView::ClearAliases
        | ActionView::UpsertAlias { .. } => alias_changes_mean_what_they_say(
            t,
            action,
            rows,
            changed,
            after,
        ),
        ActionView::AdoptAliases { .. } | ActionView::RebuildAliases { .. } =>
            alias_rebuilds_mean_what_they_say(t, action, rows, changed, after),
        ActionView::InsertPayee { .. }
        | ActionView::InsertAlias { .. }
        | ActionView::InsertStatement { .. }
        | ActionView::InsertTxn { .. } => additions_mean_what_they_say(
            t,
            action,
            rows,
            changed,
            after,
        ),
        ActionView::FindCategory { .. }
        | ActionView::FindPayee { .. }
        | ActionView::OtherNamed { .. }
        | ActionView::OthersNamed { .. }
        | ActionView::FindStatement { .. }
        | ActionView::AliasOf { .. } => lookups_mean_what_they_say(
            t,
            action,
            all,
            rows,
            changed,
            after,
        ),
        ActionView::ListStatements
        | ActionView::LatestStatement
        | ActionView::StatementById { .. } => statement_lists_mean_what_they_say(
            t,
            action,
            all,
            rows,
            changed,
            after,
        ),
        ActionView::ListCategories | ActionView::ListPayees | ActionView::UnlabeledTxns =>
            plain_lists_mean_what_they_say(t, action, rows, changed, after),
        ActionView::ListTxns { filter } => transaction_list_means_what_it_says(
            t,
            filter,
            rows,
            changed,
            after,
        ),
        ActionView::CountLabeled { .. } | ActionView::CountTxnsOf { .. } =>
            counts_mean_what_they_say(t, action, all, rows, changed, after),
        ActionView::UnlabeledTotals { statement_id } => unlabeled_totals_mean_what_they_say(
            t,
            statement_id,
            all,
            rows,
            changed,
            after,
        ),
        ActionView::SpendByCategory { statement_id } => spending_means_what_it_says(
            t,
            statement_id,
            rows,
            changed,
            after,
        ),
        ActionView::TopPayees { statement_id } => payments_mean_what_they_say(
            t,
            statement_id,
            rows,
            changed,
            after,
        ),
        ActionView::MonthlyTotals { statement_id } => months_mean_what_they_say(
            t,
            statement_id,
            rows,
            changed,
            after,
        ),
        ActionView::PayeeSources => sources_mean_what_they_say(t, rows, changed, after),
        ActionView::RawMerchants => merchants_mean_what_they_say(t, rows, changed, after),
        ActionView::SharedNorms => shared_norms_mean_what_they_say(t, rows, changed, after),
        ActionView::SharedNames => shared_names_mean_what_they_say(t, rows, changed, after),
        _ => {},
    }
}

} // verus!
