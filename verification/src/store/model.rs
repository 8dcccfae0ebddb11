//! What the statements of the store do to a database.
//!
//! The tables are maps by primary key. [`answers`] says which reply a database
//! may give to a statement and which tables it then carries. Any statement may
//! fail; one that does changes nothing. [`runs`] follows an operation through
//! the replies that it gets.
//!
//! What [`does`] says of a statement is what its SQL text means with its
//! parameters; that the two agree is a law of its own, in
//! [`crate::store::laws::meaning`].

use crate::parse::{Direction, ParsedTxnView, StatementHeadView};
use crate::store::action::ActionView;
use crate::store::query::{by_name, by_sort, by_text, category_row, in_month, is_category, is_i64,
    is_month, is_paid, is_payee, is_picked, is_source, is_spent_on, is_statement, is_unlabeled,
    last_first, latest_first, lists, lists_first, month_row, most_paid_first, most_spent_first,
    most_used_first, paid_row, paid_to, payee_row, source_row, spend_row, spent_on, statement_row,
    txn_row, unlabeled_count, unlabeled_debit, unlabeled_row, uses_of};
use crate::store::step::{StampView, StepView};
use crate::store::value::{ReplyView, SqlView, StoreErrorView};
use crate::text::text_less;
use vstd::prelude::*;

verus! {

pub ghost struct CategoryRec {
    pub name: Seq<char>,
    pub kind: Seq<char>,
    pub color: Seq<char>,
    pub sort: i64,
}

pub ghost struct PayeeRec {
    pub name: Seq<char>,
    pub category_id: Seq<char>,
    pub created_at: Seq<char>,
}

pub ghost struct AliasRec {
    pub payee_id: Seq<char>,
    pub created_at: Seq<char>,
}

pub ghost struct StatementRec {
    pub head: StatementHeadView,
    pub imported_at: Seq<char>,
}

pub ghost struct TxnRec {
    pub statement_id: Seq<char>,
    pub txn: ParsedTxnView,
    pub payee_id: Option<Seq<char>>,
}

/// The tables of the store.
#[verifier::ext_equal]
pub ghost struct Tables {
    pub categories: Map<Seq<char>, CategoryRec>,
    pub payees: Map<Seq<char>, PayeeRec>,
    pub aliases: Map<Seq<char>, AliasRec>,
    pub statements: Map<Seq<char>, StatementRec>,
    pub txns: Map<Seq<char>, TxnRec>,
}

/// A database: its tables, and within a transaction what a rollback brings
/// back.
pub ghost struct Db {
    pub tables: Tables,
    pub saved: Option<Tables>,
}

/// The transactions that a condition holds of, with another label.
pub open spec fn relabeled(
    txns: Map<Seq<char>, TxnRec>,
    which: spec_fn(TxnRec) -> bool,
    payee_id: Option<Seq<char>>,
) -> Map<Seq<char>, TxnRec> {
    Map::new(
        |id: Seq<char>| txns.contains_key(id),
        |id: Seq<char>|
            if which(txns[id]) {
                TxnRec { payee_id, ..txns[id] }
            } else {
                txns[id]
            },
    )
}

/// The number of transactions that a condition holds of.
pub open spec fn how_many(txns: Map<Seq<char>, TxnRec>, which: spec_fn(TxnRec) -> bool) -> nat {
    txns.dom().filter(|id: Seq<char>| which(txns[id])).len()
}

/// The aliases that a condition does not hold of.
pub open spec fn aliases_without(
    aliases: Map<Seq<char>, AliasRec>,
    which: spec_fn(Seq<char>, AliasRec) -> bool,
) -> Map<Seq<char>, AliasRec> {
    Map::new(
        |norm: Seq<char>| aliases.contains_key(norm) && !which(norm, aliases[norm]),
        |norm: Seq<char>| aliases[norm],
    )
}

/// A merchant has a transaction with this label.
pub open spec fn labels(txns: Map<Seq<char>, TxnRec>, norm: Seq<char>, payee_id: Seq<char>) -> bool {
    exists|id: Seq<char>| #[trigger]
        txns.contains_key(id) && txns[id].txn.merchant_norm == norm && txns[id].payee_id == Some(
            payee_id,
        )
}

/// A merchant has a labeled transaction.
pub open spec fn is_labeled(txns: Map<Seq<char>, TxnRec>, norm: Seq<char>) -> bool {
    exists|payee_id: Seq<char>| labels(txns, norm, payee_id)
}

/// Of the labels that a merchant's transactions have, the first by its id.
pub open spec fn is_first_label(
    txns: Map<Seq<char>, TxnRec>,
    norm: Seq<char>,
    payee_id: Seq<char>,
) -> bool {
    labels(txns, norm, payee_id) && forall|other: Seq<char>| #[trigger]
        labels(txns, norm, other) ==> !text_less(other, payee_id)
}

/// The aliases with those of a payee's merchants that have none yet.
pub open spec fn adopted(
    tables: Tables,
    keeper: Seq<char>,
    now: Seq<char>,
) -> Map<Seq<char>, AliasRec> {
    Map::new(
        |norm: Seq<char>|
            tables.aliases.contains_key(norm) || labels(tables.txns, norm, keeper),
        |norm: Seq<char>|
            if tables.aliases.contains_key(norm) {
                tables.aliases[norm]
            } else {
                AliasRec { payee_id: keeper, created_at: now }
            },
    )
}

/// A row of one text.
pub open spec fn one_text(a: Seq<char>) -> Seq<SqlView> {
    seq![SqlView::Text(a)]
}

/// A row of two texts.
pub open spec fn two_texts(a: Seq<char>, b: Seq<char>) -> Seq<SqlView> {
    seq![SqlView::Text(a), SqlView::Text(b)]
}

/// A row of one number.
pub open spec fn one_number(a: i64) -> Seq<SqlView> {
    seq![SqlView::Integer(a)]
}

/// A row of two numbers.
pub open spec fn two_numbers(a: i64, b: i64) -> Seq<SqlView> {
    seq![SqlView::Integer(a), SqlView::Integer(b)]
}

/// The first row names a record, or there is none.
pub open spec fn names_one(rows: Seq<Seq<SqlView>>, which: spec_fn(Seq<char>) -> bool) -> bool {
    if rows.len() == 0 {
        forall|id: Seq<char>| !#[trigger] which(id)
    } else {
        exists|id: Seq<char>| #[trigger] which(id) && rows[0] == one_text(id)
    }
}

/// The rows name those that a condition holds of, and no others.
pub open spec fn names_all(rows: Seq<Seq<SqlView>>, which: spec_fn(Seq<char>) -> bool) -> bool {
    &&& forall|i: int|
        0 <= i < rows.len() ==> exists|id: Seq<char>| #[trigger]
            which(id) && (#[trigger] rows[i]) == one_text(id)
    &&& forall|id: Seq<char>| #[trigger] which(id) ==> rows.contains(one_text(id))
}

/// The tables with other payees.
pub open spec fn with_payees(t: Tables, payees: Map<Seq<char>, PayeeRec>) -> Tables {
    Tables { payees, ..t }
}

pub open spec fn with_aliases(t: Tables, aliases: Map<Seq<char>, AliasRec>) -> Tables {
    Tables { aliases, ..t }
}

pub open spec fn with_txns(t: Tables, txns: Map<Seq<char>, TxnRec>) -> Tables {
    Tables { txns, ..t }
}

/// Two merchants' transactions carry different labels under one key.
pub open spec fn is_shared(txns: Map<Seq<char>, TxnRec>, norm: Seq<char>) -> bool {
    exists|a: Seq<char>, b: Seq<char>|
        a != b && #[trigger] labels(txns, norm, a) && #[trigger] labels(txns, norm, b)
}

/// A statement of this fingerprint is stored.
pub open spec fn has_fingerprint(t: Tables, source_sha256: Seq<char>) -> bool {
    exists|id: Seq<char>| #[trigger]
        t.statements.contains_key(id) && t.statements[id].head.source_sha256 == source_sha256
}

/// What a statement that succeeds does to the tables, and what it answers.
pub open spec fn does(
    t: Tables,
    action: ActionView,
    rows: Seq<Seq<SqlView>>,
    changed: u64,
    after: Tables,
) -> bool {
    match action {
        ActionView::FindCategory { id } => after == t && (rows.len() > 0 <==> t.categories.contains_key(
            id,
        )),
        ActionView::FindPayee { name } => after == t && names_one(
            rows,
            |id: Seq<char>| t.payees.contains_key(id) && t.payees[id].name == name,
        ),
        ActionView::OtherNamed { name, id } => after == t && names_one(
            rows,
            |other: Seq<char>|
                t.payees.contains_key(other) && t.payees[other].name == name && other != id,
        ),
        ActionView::OthersNamed { name, id } => after == t && names_all(
            rows,
            |other: Seq<char>|
                t.payees.contains_key(other) && t.payees[other].name == name && other != id,
        ),
        ActionView::InsertPayee { id, name, category_id, now } => !t.payees.contains_key(id)
            && after == with_payees(
            t,
            t.payees.insert(id, PayeeRec { name, category_id, created_at: now }),
        ),
        ActionView::SetPayeeCategory { category_id, payee_id } => if t.payees.contains_key(
            payee_id,
        ) {
            changed == 1 && after == with_payees(
                t,
                t.payees.insert(payee_id, PayeeRec { category_id, ..t.payees[payee_id] }),
            )
        } else {
            changed == 0 && after == t
        },
        ActionView::SetPayeeName { name, payee_id } => if t.payees.contains_key(payee_id) {
            changed == 1 && after == with_payees(
                t,
                t.payees.insert(payee_id, PayeeRec { name, ..t.payees[payee_id] }),
            )
        } else {
            changed == 0 && after == t
        },
        ActionView::DropPayee { payee_id } => after == with_payees(t, t.payees.remove(payee_id))
            && changed == if t.payees.contains_key(payee_id) {
            1u64
        } else {
            0
        },
        ActionView::DropUnusedPayees => after == with_payees(
            t,
            Map::new(
                |id: Seq<char>|
                    t.payees.contains_key(id) && exists|x: Seq<char>| #[trigger]
                        t.txns.contains_key(x) && t.txns[x].payee_id == Some(id),
                |id: Seq<char>| t.payees[id],
            ),
        ),
        ActionView::AliasOf { norm } => after == t && if t.aliases.contains_key(norm) {
            rows.len() > 0 && rows[0] == one_text(t.aliases[norm].payee_id)
        } else {
            rows.len() == 0
        },
        ActionView::InsertAlias { norm, payee_id, now } => !t.aliases.contains_key(norm) && after
            == with_aliases(
            t,
            t.aliases.insert(norm, AliasRec { payee_id, created_at: now }),
        ),
        ActionView::UpdateAlias { payee_id, norm } => if t.aliases.contains_key(norm) {
            after == with_aliases(
                t,
                t.aliases.insert(norm, AliasRec { payee_id, ..t.aliases[norm] }),
            )
        } else {
            after == t
        },
        ActionView::UpsertAlias { norm, payee_id, now } => after == with_aliases(
            t,
            t.aliases.insert(
                norm,
                if t.aliases.contains_key(norm) {
                    AliasRec { payee_id, ..t.aliases[norm] }
                } else {
                    AliasRec { payee_id, created_at: now }
                },
            ),
        ),
        ActionView::DropAliasesOf { payee_id } => after == with_aliases(
            t,
            aliases_without(t.aliases, |norm: Seq<char>, a: AliasRec| a.payee_id == payee_id),
        ),
        ActionView::DropAlias { payee_id, norm } => after == with_aliases(
            t,
            aliases_without(
                t.aliases,
                |key: Seq<char>, a: AliasRec| a.payee_id == payee_id && key == norm,
            ),
        ),
        ActionView::AdoptAliases { keeper, now } => after == with_aliases(
            t,
            adopted(t, keeper, now),
        ),
        ActionView::ClearAliases => after == with_aliases(t, Map::empty()),
        ActionView::RebuildAliases { now } => {
            &&& after == with_aliases(t, after.aliases)
            &&& forall|norm: Seq<char>| #[trigger]
                t.aliases.contains_key(norm) ==> !is_labeled(t.txns, norm)
                    && after.aliases.contains_key(norm) && after.aliases[norm] == t.aliases[norm]
            &&& forall|norm: Seq<char>| #[trigger]
                after.aliases.contains_key(norm) <==> t.aliases.contains_key(norm) || is_labeled(
                    t.txns,
                    norm,
                )
            &&& forall|norm: Seq<char>| #[trigger]
                after.aliases.contains_key(norm) && !t.aliases.contains_key(norm)
                    ==> is_first_label(t.txns, norm, after.aliases[norm].payee_id)
                    && after.aliases[norm].created_at == now
        },
        ActionView::FindStatement { source_sha256 } => after == t && names_one(
            rows,
            |id: Seq<char>|
                t.statements.contains_key(id) && t.statements[id].head.source_sha256
                    == source_sha256,
        ),
        ActionView::InsertStatement { id, head, now } => !t.statements.contains_key(id)
            && !has_fingerprint(t, head.source_sha256) && after == (Tables {
            statements: t.statements.insert(id, StatementRec { head, imported_at: now }),
            ..t
        }),
        ActionView::InsertTxn { id, statement_id, txn, payee_id } => !t.txns.contains_key(id)
            && after == with_txns(
            t,
            t.txns.insert(id, TxnRec { statement_id, txn, payee_id }),
        ),
        ActionView::CountLabeled { statement_id } => after == t && rows.len() > 0 && exists|
            all: i64,
            labeled: i64,
        |
            rows[0] == #[trigger] two_numbers(all, labeled) && all
                == how_many(t.txns, |x: TxnRec| x.statement_id == statement_id) && labeled
                == how_many(
                t.txns,
                |x: TxnRec| x.statement_id == statement_id && x.payee_id is Some,
            ),
        ActionView::CountTxnsOf { payee_id } => after == t && rows.len() > 0 && exists|n: i64|
            rows[0] == #[trigger] one_number(n) && n == how_many(
                t.txns,
                |x: TxnRec| x.payee_id == Some(payee_id),
            ),
        ActionView::LabelTxns { payee_id, norm } => after == with_txns(
            t,
            relabeled(t.txns, |x: TxnRec| x.txn.merchant_norm == norm, Some(payee_id)),
        ) && changed == how_many(t.txns, |x: TxnRec| x.txn.merchant_norm == norm),
        ActionView::LinkUnlabeled { payee_id, statement_id, norm } => after == with_txns(
            t,
            relabeled(
                t.txns,
                |x: TxnRec|
                    x.statement_id == statement_id && x.txn.merchant_norm == norm && x.payee_id
                        is None,
                Some(payee_id),
            ),
        ),
        ActionView::UnlabelPayee { payee_id } => after == with_txns(
            t,
            relabeled(t.txns, |x: TxnRec| x.payee_id == Some(payee_id), None),
        ),
        ActionView::UnlabelSource { payee_id, norm } => after == with_txns(
            t,
            relabeled(
                t.txns,
                |x: TxnRec| x.payee_id == Some(payee_id) && x.txn.merchant_norm == norm,
                None,
            ),
        ),
        ActionView::MoveTxns { keeper, extra } => after == with_txns(
            t,
            relabeled(t.txns, |x: TxnRec| x.payee_id == Some(extra), Some(keeper)),
        ),
        ActionView::UnifyNorm { keeper, norm } => after == with_txns(
            t,
            relabeled(
                t.txns,
                |x: TxnRec| x.txn.merchant_norm == norm && x.payee_id is Some,
                Some(keeper),
            ),
        ),
        ActionView::RawMerchants => after == t && names_all(
            rows,
            |raw: Seq<char>|
                exists|x: Seq<char>| #[trigger]
                    t.txns.contains_key(x) && t.txns[x].txn.merchant_raw == raw,
        ),
        ActionView::SetNorm { norm, raw } => after == with_txns(
            t,
            Map::new(
                |id: Seq<char>| t.txns.contains_key(id),
                |id: Seq<char>|
                    if t.txns[id].txn.merchant_raw == raw {
                        TxnRec {
                            txn: ParsedTxnView { merchant_norm: norm, ..t.txns[id].txn },
                            ..t.txns[id]
                        }
                    } else {
                        t.txns[id]
                    },
            ),
        ),
        ActionView::SharedNorms => after == t && shared_are_told(t.txns, rows) && told_are_shared(
            t.txns,
            rows,
        ),
        ActionView::SharedNames => after == t && names_shared(t.payees, rows),
        ActionView::StatementById { id } => after == t && if t.statements.contains_key(id) {
            rows.len() > 0 && rows[0] == statement_row(t)(id)
        } else {
            rows.len() == 0
        },
        ActionView::LatestStatement => after == t && lists_first(
            rows,
            1,
            is_statement(t),
            statement_row(t),
            latest_first(t),
        ),
        ActionView::ListStatements => after == t && lists(
            rows,
            is_statement(t),
            statement_row(t),
            latest_first(t),
        ),
        ActionView::SpendByCategory { statement_id } => after == t && lists(
            rows,
            is_spent_on(t, statement_id),
            spend_row(t, statement_id),
            most_spent_first(t, statement_id),
        ) && forall|c: Seq<char>|
            t.categories.contains_key(c) ==> is_i64(#[trigger] spent_on(t, statement_id, c)),
        ActionView::UnlabeledTotals { statement_id } => after == t && rows.len() > 0 && rows[0]
            == two_numbers(
            unlabeled_debit(t, statement_id) as i64,
            unlabeled_count(t, statement_id) as i64,
        ) && is_i64(unlabeled_debit(t, statement_id)) && is_i64(
            unlabeled_count(t, statement_id) as int,
        ),
        ActionView::TopPayees { statement_id } => after == t && lists_first(
            rows,
            8,
            is_paid(t, statement_id),
            paid_row(t, statement_id),
            most_paid_first(t, statement_id),
        ) && forall|p: Seq<char>|
            t.payees.contains_key(p) ==> is_i64(#[trigger] paid_to(t, statement_id, p)),
        ActionView::MonthlyTotals { statement_id } => after == t && lists(
            rows,
            is_month(t, statement_id),
            month_row(t, statement_id),
            by_text(),
        ) && forall|m: Seq<char>, direction: Direction|
            is_i64(#[trigger] in_month(t, statement_id, m, direction)),
        ActionView::ListTxns { filter } => after == t && lists(
            rows,
            is_picked(t, filter),
            txn_row(t),
            last_first(t),
        ),
        ActionView::UnlabeledTxns => after == t && lists(
            rows,
            is_unlabeled(t),
            unlabeled_row(t),
            last_first(t),
        ),
        ActionView::ListCategories => after == t && lists(
            rows,
            is_category(t),
            category_row(t),
            by_sort(t),
        ),
        ActionView::ListPayees => after == t && lists(
            rows,
            is_payee(t),
            payee_row(t),
            by_name(t),
        ),
        ActionView::PayeeSources => after == t && lists(
            rows,
            is_source(t),
            source_row(t),
            most_used_first(t),
        ) && forall|p: Seq<char>, norm: Seq<char>|
            is_i64(#[trigger] uses_of(t, p, norm) as int),
        _ => after == t,
    }
}

/// Each merchant key with different labels has a row, with the first of them.
pub open spec fn shared_are_told(txns: Map<Seq<char>, TxnRec>, rows: Seq<Seq<SqlView>>) -> bool {
    forall|norm: Seq<char>| #[trigger]
        is_shared(txns, norm) ==> exists|keeper: Seq<char>|
            is_first_label(txns, norm, keeper) && #[trigger] rows.contains(
                two_texts(norm, keeper),
            )
}

/// Each row names such a key, with the first of its labels.
pub open spec fn told_are_shared(txns: Map<Seq<char>, TxnRec>, rows: Seq<Seq<SqlView>>) -> bool {
    forall|i: int|
        0 <= i < rows.len() ==> exists|norm: Seq<char>, keeper: Seq<char>| #[trigger]
            labels(txns, norm, keeper) && is_first_label(txns, norm, keeper) && is_shared(
                txns,
                norm,
            ) && (#[trigger] rows[i]) == two_texts(norm, keeper)
}

/// Of the payees with one name, the first by its id, where there are others.
#[verifier::opaque]
pub open spec fn is_first_named(
    payees: Map<Seq<char>, PayeeRec>,
    name: Seq<char>,
    id: Seq<char>,
) -> bool {
    &&& payees.contains_key(id) && payees[id].name == name
    &&& forall|other: Seq<char>| #[trigger]
        payees.contains_key(other) && payees[other].name == name ==> !text_less(other, id)
    &&& exists|other: Seq<char>| #[trigger]
        payees.contains_key(other) && payees[other].name == name && other != id
}

/// The rows name each name that payees share, once, with the first of them.
pub open spec fn names_shared(
    payees: Map<Seq<char>, PayeeRec>,
    rows: Seq<Seq<SqlView>>,
) -> bool {
    &&& forall|a: Seq<char>, b: Seq<char>|
        #![trigger payees.contains_key(a), payees.contains_key(b)]
        payees.contains_key(a) && payees.contains_key(b) && a != b && payees[a].name
            == payees[b].name ==> exists|keeper: Seq<char>| #[trigger]
            rows.contains(two_texts(payees[a].name, keeper))
    &&& forall|i: int|
        0 <= i < rows.len() ==> exists|name: Seq<char>, keeper: Seq<char>|
            payees.contains_key(keeper) && payees[keeper].name == name && is_first_named(
                payees,
                name,
                keeper,
            ) && (#[trigger] rows[i]) == #[trigger] two_texts(name, keeper)
    &&& forall|i: int, j: int|
        0 <= i < rows.len() && 0 <= j < rows.len() && i != j ==> (#[trigger] rows[i])[0] != (
        #[trigger] rows[j])[0]
}

/// Which reply a database may give to a statement, and what it then is.
pub open spec fn answers(db: Db, action: ActionView, reply: ReplyView, after: Db) -> bool {
    match reply {
        ReplyView::Failed(_) => after == db,
        ReplyView::Done { rows, changed } => match action {
            ActionView::Begin => db.saved is None && after == (Db {
                tables: db.tables,
                saved: Some(db.tables),
            }),
            ActionView::Commit => db.saved is Some && after == (Db {
                tables: db.tables,
                saved: None,
            }),
            ActionView::Rollback => db.saved is Some && after == (Db {
                tables: db.saved->0,
                saved: None,
            }),
            _ => after.saved == db.saved && does(db.tables, action, rows, changed, after.tables),
        },
    }
}

/// One statement that was run: what the database said, what the step was
/// stamped with, and the database afterwards.
pub ghost struct Event {
    pub reply: ReplyView,
    pub stamp: StampView,
    pub after: Db,
}

/// An operation goes from a step, on a database, through events to an end.
pub open spec fn runs<S, R>(
    next: spec_fn(S, ReplyView, StampView) -> StepView<S, R>,
    step: StepView<S, R>,
    db: Db,
    events: Seq<Event>,
    end: Db,
    out: Result<R, StoreErrorView>,
) -> bool
    decreases events.len(),
{
    match step {
        StepView::Finish(r) => events.len() == 0 && end == db && out == r,
        StepView::Run(action, s) => events.len() > 0 && answers(
            db,
            action,
            events[0].reply,
            events[0].after,
        ) && runs(
            next,
            next(s, events[0].reply, events[0].stamp),
            events[0].after,
            events.skip(1),
            end,
            out,
        ),
    }
}

} // verus!
