//! What an import comes to.

use crate::parse::{ParseResultView, PAYMENT_NORM};
use crate::store::action::ActionView;
use crate::store::import::{import_next, import_report, import_start, payment_norms,
    payment_norms_are_the_payments, strictly_ordered, ImportAtView, ImportReportView, ImportStep,
    ImportView, CAT_ODEME, PAYEE_CARD_PAYMENT};
use crate::store::label::{label_start, LabelReportView};
use crate::store::laws::label::{has_payee, label_keeps_transaction, label_reaches_every_transaction,
    label_runs};
use crate::store::model::{does, has_fingerprint, how_many, one_text, relabeled, runs, two_numbers,
    with_aliases, with_payees, with_txns, AliasRec, Db, Event, PayeeRec, Tables, TxnRec};
use crate::store::step::{StampView, StepView};
use crate::store::value::{int_at, opt_text_at, text_at, ReplyView, SqlView, StoreErrorView};
use crate::text::{contains, text_less, text_less_total};
use vstd::prelude::*;

verus! {

/// An import goes from a step through events to an end.
pub open spec fn import_runs(
    step: ImportStep,
    db: Db,
    events: Seq<Event>,
    end: Db,
    out: Result<ImportReportView, StoreErrorView>,
) -> bool {
    runs(
        |s: ImportView, reply: ReplyView, stamp: StampView| import_next(s, reply, stamp),
        step,
        db,
        events,
        end,
        out,
    )
}

/// Every transaction is of a statement.
pub open spec fn is_sound(t: Tables) -> bool {
    forall|id: Seq<char>| #[trigger]
        t.txns.contains_key(id) ==> t.statements.contains_key(t.txns[id].statement_id)
}

/// The payee that a merchant's alias names.
pub open spec fn alias_payee(t: Tables, norm: Seq<char>) -> Option<Seq<char>> {
    if t.aliases.contains_key(norm) {
        Some(t.aliases[norm].payee_id)
    } else {
        None
    }
}

/// A statement of this fingerprint is stored.
pub open spec fn is_known(t: Tables, source_sha256: Seq<char>) -> bool {
    has_fingerprint(t, source_sha256)
}

/// A statement's head is stored under a new id, and transactions under new
/// ids, each once.
pub open spec fn adds_rows(
    t: Tables,
    after: Tables,
    parsed: ParseResultView,
    statement_id: Seq<char>,
    ids: Seq<Seq<char>>,
) -> bool {
    &&& after.categories == t.categories
    &&& !t.statements.contains_key(statement_id)
    &&& after.statements.contains_key(statement_id)
    &&& after.statements[statement_id].head == parsed.statement
    &&& after.statements == t.statements.insert(statement_id, after.statements[statement_id])
    &&& ids.no_duplicates()
    &&& forall|i: int| 0 <= i < ids.len() ==> !t.txns.contains_key(#[trigger] ids[i])
    &&& forall|id: Seq<char>| #[trigger]
        after.txns.contains_key(id) <==> t.txns.contains_key(id) || ids.contains(id)
    &&& forall|id: Seq<char>| #[trigger]
        t.txns.contains_key(id) ==> after.txns[id] == t.txns[id]
}

/// A merchant's transactions are labeled by its alias or, of a card payment,
/// by the payee of card payments; otherwise they are not.
pub open spec fn label_given(
    t: Tables,
    after: Tables,
    norm: Seq<char>,
    is_payment: bool,
) -> Option<Seq<char>> {
    if alias_payee(t, norm) is Some {
        alias_payee(t, norm)
    } else if is_payment {
        alias_payee(after, norm)
    } else {
        None
    }
}

/// The tables with a whole statement stored: its head, each of its
/// transactions with the label that it is due, the aliases of its card
/// payments, and nothing else changed.
pub open spec fn stores(
    t: Tables,
    after: Tables,
    parsed: ParseResultView,
    statement_id: Seq<char>,
    ids: Seq<Seq<char>>,
) -> bool {
    let norms = payment_norms(parsed.txns);
    &&& adds_rows(t, after, parsed, statement_id, ids)
    &&& ids.len() == parsed.txns.len()
    &&& forall|i: int|
        0 <= i < ids.len() ==> after.txns[#[trigger] ids[i]] == (TxnRec {
            statement_id,
            txn: parsed.txns[i],
            payee_id: label_given(
                t,
                after,
                parsed.txns[i].merchant_norm,
                norms.contains(parsed.txns[i].merchant_norm),
            ),
        })
    &&& labels_payments(t, after, norms)
    &&& norms.len() == 0 ==> after.payees == t.payees
}

/// The aliases of card payments name a payee of card payments, a new one only
/// where there was none; other aliases and payees stay.
pub open spec fn labels_payments(t: Tables, after: Tables, norms: Seq<Seq<char>>) -> bool {
    &&& forall|id: Seq<char>| #[trigger]
        t.payees.contains_key(id) ==> after.payees.contains_key(id) && after.payees[id]
            == t.payees[id]
    &&& forall|id: Seq<char>| #[trigger]
        after.payees.contains_key(id) && !t.payees.contains_key(id) ==> after.payees[id].name
            == PAYEE_CARD_PAYMENT@ && after.payees[id].category_id == CAT_ODEME@ && !has_payee(
            t,
            PAYEE_CARD_PAYMENT@,
        )
    &&& forall|a: Seq<char>, b: Seq<char>|
        #![trigger after.payees.contains_key(a), after.payees.contains_key(b)]
        after.payees.contains_key(a) && !t.payees.contains_key(a) && after.payees.contains_key(b)
            && !t.payees.contains_key(b) ==> a == b
    &&& forall|norm: Seq<char>| #[trigger]
        norms.contains(norm) ==> after.aliases.contains_key(norm) && is_card_payment(
            after,
            after.aliases[norm].payee_id,
        )
    &&& forall|norm: Seq<char>|
        !norms.contains(norm) ==> (#[trigger] after.aliases.contains_key(norm)
            <==> t.aliases.contains_key(norm))
    &&& forall|norm: Seq<char>| #[trigger]
        t.aliases.contains_key(norm) && !norms.contains(norm) ==> after.aliases[norm]
            == t.aliases[norm]
}

/// The payee of this id is that of card payments.
pub open spec fn is_card_payment(t: Tables, id: Seq<char>) -> bool {
    t.payees.contains_key(id) && t.payees[id].name == PAYEE_CARD_PAYMENT@
}

/// A whole statement was stored, under this id.
pub open spec fn stores_whole(
    t: Tables,
    after: Tables,
    parsed: ParseResultView,
    statement_id: Seq<char>,
) -> bool {
    exists|ids: Seq<Seq<char>>| stores(t, after, parsed, statement_id, ids)
}

/// The head and the first transactions are stored, labeled by their aliases.
spec fn has_stored(
    t: Tables,
    now: Tables,
    parsed: ParseResultView,
    statement_id: Seq<char>,
    ids: Seq<Seq<char>>,
) -> bool {
    &&& adds_rows(t, now, parsed, statement_id, ids)
    &&& now.payees == t.payees
    &&& now.aliases == t.aliases
    &&& ids.len() <= parsed.txns.len()
    &&& forall|i: int|
        0 <= i < ids.len() ==> now.txns[#[trigger] ids[i]] == (TxnRec {
            statement_id,
            txn: parsed.txns[i],
            payee_id: alias_payee(t, parsed.txns[i].merchant_norm),
        })
}

/// All is stored, `named` merchants of card payments have their alias, and the
/// transactions of `linked` of them their label.
spec fn has_linked(
    t: Tables,
    now: Tables,
    parsed: ParseResultView,
    statement_id: Seq<char>,
    ids: Seq<Seq<char>>,
    named: Seq<Seq<char>>,
    linked: Seq<Seq<char>>,
) -> bool {
    &&& adds_rows(t, now, parsed, statement_id, ids)
    &&& ids.len() == parsed.txns.len()
    &&& forall|i: int|
        0 <= i < ids.len() ==> now.txns[#[trigger] ids[i]] == (TxnRec {
            statement_id,
            txn: parsed.txns[i],
            payee_id: label_given(
                t,
                now,
                parsed.txns[i].merchant_norm,
                linked.contains(parsed.txns[i].merchant_norm),
            ),
        })
    &&& labels_payments(t, now, named)
}

/// What holds while an import waits for a reply.
spec fn import_holds(t: Tables, s: ImportView, action: ActionView, db: Db, ids: Seq<Seq<char>>) -> bool {
    let parsed = s.parsed;
    let now = db.tables;
    match s.at {
        ImportAtView::Find => {
            &&& now == t
            &&& db.saved is None
            &&& action == ActionView::FindStatement {
                source_sha256: parsed.statement.source_sha256,
            }
        },
        ImportAtView::CountOld { statement_id } => {
            &&& now == t
            &&& db.saved is None
            &&& t.statements.contains_key(statement_id)
            &&& t.statements[statement_id].head.source_sha256 == parsed.statement.source_sha256
            &&& action == ActionView::CountLabeled { statement_id }
        },
        ImportAtView::Begin { statement_id } => {
            &&& now == t
            &&& db.saved is None
            &&& !is_known(t, parsed.statement.source_sha256)
            &&& action is Begin
        },
        ImportAtView::Statement { statement_id } => {
            &&& now == t
            &&& db.saved == Some(t)
            &&& !is_known(t, parsed.statement.source_sha256)
            &&& action is InsertStatement
            &&& action->InsertStatement_id == statement_id
            &&& action->InsertStatement_head == parsed.statement
        },
        ImportAtView::Alias { statement_id, txn } => {
            &&& db.saved == Some(t)
            &&& !is_known(t, parsed.statement.source_sha256)
            &&& has_stored(t, now, parsed, statement_id, ids)
            &&& ids.len() == txn
            &&& txn < parsed.txns.len()
            &&& action == ActionView::AliasOf { norm: parsed.txns[txn as int].merchant_norm }
        },
        ImportAtView::Txn { statement_id, txn } => {
            &&& db.saved == Some(t)
            &&& !is_known(t, parsed.statement.source_sha256)
            &&& has_stored(t, now, parsed, statement_id, ids)
            &&& ids.len() == txn
            &&& txn < parsed.txns.len()
            &&& action is InsertTxn
            &&& action->InsertTxn_statement_id == statement_id
            &&& action->InsertTxn_txn == parsed.txns[txn as int]
            &&& action->InsertTxn_payee_id == alias_payee(
                t,
                parsed.txns[txn as int].merchant_norm,
            )
        },
        ImportAtView::Payee { statement_id, norms, norm } => {
            &&& db.saved == Some(t)
            &&& !is_known(t, parsed.statement.source_sha256)
            &&& norms == payment_norms(parsed.txns)
            &&& norm < norms.len()
            &&& has_linked(
                t,
                now,
                parsed,
                statement_id,
                ids,
                norms.take(norm as int),
                norms.take(norm as int),
            )
            &&& action == ActionView::FindPayee { name: PAYEE_CARD_PAYMENT@ }
        },
        ImportAtView::NewPayee { statement_id, norms, norm, payee_id } => {
            &&& db.saved == Some(t)
            &&& !is_known(t, parsed.statement.source_sha256)
            &&& norms == payment_norms(parsed.txns)
            &&& norm < norms.len()
            &&& has_linked(
                t,
                now,
                parsed,
                statement_id,
                ids,
                norms.take(norm as int),
                norms.take(norm as int),
            )
            &&& !has_payee(now, PAYEE_CARD_PAYMENT@)
            &&& action is InsertPayee
            &&& action->InsertPayee_id == payee_id
            &&& action->InsertPayee_name == PAYEE_CARD_PAYMENT@
            &&& action->InsertPayee_category_id == CAT_ODEME@
        },
        ImportAtView::PaymentAlias { statement_id, norms, norm, payee_id } => {
            &&& db.saved == Some(t)
            &&& !is_known(t, parsed.statement.source_sha256)
            &&& norms == payment_norms(parsed.txns)
            &&& norm < norms.len()
            &&& has_linked(
                t,
                now,
                parsed,
                statement_id,
                ids,
                norms.take(norm as int),
                norms.take(norm as int),
            )
            &&& is_card_payment(now, payee_id)
            &&& action is UpsertAlias
            &&& action->UpsertAlias_norm == norms[norm as int]
            &&& action->UpsertAlias_payee_id == payee_id
        },
        ImportAtView::Link { statement_id, norms, norm } => {
            &&& db.saved == Some(t)
            &&& !is_known(t, parsed.statement.source_sha256)
            &&& norms == payment_norms(parsed.txns)
            &&& norm < norms.len()
            &&& has_linked(
                t,
                now,
                parsed,
                statement_id,
                ids,
                norms.take(norm as int + 1),
                norms.take(norm as int),
            )
            &&& action == ActionView::LinkUnlabeled {
                payee_id: now.aliases[norms[norm as int]].payee_id,
                statement_id,
                norm: norms[norm as int],
            }
        },
        ImportAtView::Commit { statement_id } => {
            &&& db.saved == Some(t)
            &&& !is_known(t, parsed.statement.source_sha256)
            &&& stores(t, now, parsed, statement_id, ids)
            &&& action is Commit
        },
        ImportAtView::CountNew { statement_id } => {
            &&& db.saved is None
            &&& !is_known(t, parsed.statement.source_sha256)
            &&& stores(t, now, parsed, statement_id, ids)
            &&& action == ActionView::CountLabeled { statement_id }
        },
        ImportAtView::Undo { error } => {
            &&& db.saved == Some(t)
            &&& !is_known(t, parsed.statement.source_sha256)
            &&& action is Rollback
        },
    }
}

/// A report tells the transactions of its statement, with and without a label.
pub open spec fn counts_hold(t: Tables, report: ImportReportView) -> bool {
    let id = report.statement_id;
    let all = how_many(t.txns, |x: TxnRec| x.statement_id == id);
    let labeled = how_many(t.txns, |x: TxnRec| x.statement_id == id && x.payee_id is Some);
    &&& report.txn_count == all as usize
    &&& report.labeled == labeled as usize
    &&& report.unlabeled == (report.txn_count - report.labeled) as usize
}

/// What an import that is over has come to.
spec fn import_ended(
    t: Tables,
    parsed: ParseResultView,
    end: Db,
    out: Result<ImportReportView, StoreErrorView>,
) -> bool {
    &&& end.saved is Some ==> end.saved == Some(t) && out is Err
    &&& end.saved is None ==> end.tables == t || exists|id: Seq<char>|
        stores_whole(t, end.tables, parsed, id)
    &&& is_known(t, parsed.statement.source_sha256) ==> end.tables == t && end.saved is None
    &&& match out {
        Ok(report) => counts_hold(end.tables, report) && if report.duplicate {
            &&& end.tables == t
            &&& t.statements.contains_key(report.statement_id)
            &&& t.statements[report.statement_id].head.source_sha256
                == parsed.statement.source_sha256
        } else {
            &&& !is_known(t, parsed.statement.source_sha256)
            &&& stores_whole(t, end.tables, parsed, report.statement_id)
            &&& report.txn_count == parsed.txns.len() as usize
        },
        Err(_) => true,
    }
}

proof fn add_txn(
    t: Tables,
    now: Tables,
    parsed: ParseResultView,
    statement_id: Seq<char>,
    ids: Seq<Seq<char>>,
    id: Seq<char>,
)
    requires
        has_stored(t, now, parsed, statement_id, ids),
        ids.len() < parsed.txns.len(),
        !now.txns.contains_key(id),
    ensures
        has_stored(
            t,
            with_txns(
                now,
                now.txns.insert(
                    id,
                    TxnRec {
                        statement_id,
                        txn: parsed.txns[ids.len() as int],
                        payee_id: alias_payee(
                            t,
                            parsed.txns[ids.len() as int].merchant_norm,
                        ),
                    },
                ),
            ),
            parsed,
            statement_id,
            ids.push(id),
        ),
{
    let more = ids.push(id);
    let rec = TxnRec {
        statement_id,
        txn: parsed.txns[ids.len() as int],
        payee_id: alias_payee(t, parsed.txns[ids.len() as int].merchant_norm),
    };
    let after = with_txns(now, now.txns.insert(id, rec));
    assert(!ids.contains(id));
    assert forall|x: Seq<char>| more.contains(x) <==> ids.contains(x) || x == id by {
        if ids.contains(x) {
            let i = choose|i: int| 0 <= i < ids.len() && ids[i] == x;
            assert(more[i] == x);
        }
        if x == id {
            assert(more[ids.len() as int] == x);
        }
    }
    assert(more.no_duplicates()) by {
        assert forall|i: int, j: int|
            0 <= i < more.len() && 0 <= j < more.len() && i != j implies more[i] != more[j] by {
            if i == ids.len() {
                assert(ids.contains(ids[j]));
            } else if j == ids.len() {
                assert(ids.contains(ids[i]));
            }
        }
    }
    assert forall|i: int| 0 <= i < more.len() implies after.txns[#[trigger] more[i]] == (TxnRec {
        statement_id,
        txn: parsed.txns[i],
        payee_id: alias_payee(t, parsed.txns[i].merchant_norm),
    }) by {
        if i < ids.len() {
            assert(more[i] == ids[i]);
            assert(ids.contains(ids[i]));
        }
    }
}

proof fn start_links(
    t: Tables,
    now: Tables,
    parsed: ParseResultView,
    statement_id: Seq<char>,
    ids: Seq<Seq<char>>,
)
    requires
        has_stored(t, now, parsed, statement_id, ids),
        ids.len() == parsed.txns.len(),
    ensures
        has_linked(
            t,
            now,
            parsed,
            statement_id,
            ids,
            payment_norms(parsed.txns).take(0),
            payment_norms(parsed.txns).take(0),
        ),
{
}

proof fn insert_payment_payee(
    t: Tables,
    now: Tables,
    parsed: ParseResultView,
    statement_id: Seq<char>,
    ids: Seq<Seq<char>>,
    done: Seq<Seq<char>>,
    id: Seq<char>,
    rec: PayeeRec,
)
    requires
        has_linked(t, now, parsed, statement_id, ids, done, done),
        !now.payees.contains_key(id),
        !has_payee(now, PAYEE_CARD_PAYMENT@),
        rec.name == PAYEE_CARD_PAYMENT@,
        rec.category_id == CAT_ODEME@,
    ensures
        has_linked(
            t,
            with_payees(now, now.payees.insert(id, rec)),
            parsed,
            statement_id,
            ids,
            done,
            done,
        ),
        is_card_payment(with_payees(now, now.payees.insert(id, rec)), id),
{
    let after = with_payees(now, now.payees.insert(id, rec));
    assert(after.aliases == now.aliases);
    assert forall|norm: Seq<char>|
        label_given(t, after, norm, done.contains(norm)) == label_given(
            t,
            now,
            norm,
            done.contains(norm),
        ) by {}
}

proof fn name_payment(
    t: Tables,
    now: Tables,
    parsed: ParseResultView,
    statement_id: Seq<char>,
    ids: Seq<Seq<char>>,
    norms: Seq<Seq<char>>,
    k: int,
    rec: AliasRec,
)
    requires
        strictly_ordered(norms),
        0 <= k < norms.len(),
        has_linked(t, now, parsed, statement_id, ids, norms.take(k), norms.take(k)),
        is_card_payment(now, rec.payee_id),
    ensures
        has_linked(
            t,
            with_aliases(now, now.aliases.insert(norms[k], rec)),
            parsed,
            statement_id,
            ids,
            norms.take(k + 1),
            norms.take(k),
        ),
{
    let after = with_aliases(now, now.aliases.insert(norms[k], rec));
    let before = norms.take(k);
    let named = norms.take(k + 1);
    place_is_new(norms, k);
    assert forall|norm: Seq<char>| named.contains(norm) <==> before.contains(norm) || norm
        == norms[k] by {
        if before.contains(norm) {
            let i = choose|i: int| 0 <= i < before.len() && before[i] == norm;
            assert(named[i] == norm);
        }
        if norm == norms[k] {
            assert(named[k] == norm);
        }
        if named.contains(norm) {
            let i = choose|i: int| 0 <= i < named.len() && named[i] == norm;
            if i < k {
                assert(before[i] == norm);
            }
        }
    }
    assert forall|i: int| 0 <= i < ids.len() implies after.txns[#[trigger] ids[i]] == (TxnRec {
        statement_id,
        txn: parsed.txns[i],
        payee_id: label_given(
            t,
            after,
            parsed.txns[i].merchant_norm,
            before.contains(parsed.txns[i].merchant_norm),
        ),
    }) by {
        assert(after.txns[ids[i]] == now.txns[ids[i]]);
    }
    assert(labels_payments(t, after, named)) by {
        assert forall|norm: Seq<char>| #[trigger]
            named.contains(norm) implies after.aliases.contains_key(norm) && is_card_payment(
            after,
            after.aliases[norm].payee_id,
        ) by {
            if norm != norms[k] {
                assert(before.contains(norm));
            }
        }
    }
}

/// In a strict order no text stands twice.
proof fn place_is_new(norms: Seq<Seq<char>>, k: int)
    requires
        strictly_ordered(norms),
        0 <= k < norms.len(),
    ensures
        !norms.take(k).contains(norms[k]),
{
    if norms.take(k).contains(norms[k]) {
        let i = choose|i: int| 0 <= i < norms.take(k).len() && norms.take(k)[i] == norms[k];
        assert(text_less(norms[i], norms[k]));
        text_less_total(norms[k], norms[k]);
    }
}

proof fn link_payment(
    t: Tables,
    now: Tables,
    parsed: ParseResultView,
    statement_id: Seq<char>,
    ids: Seq<Seq<char>>,
    norms: Seq<Seq<char>>,
    k: int,
)
    requires
        is_sound(t),
        strictly_ordered(norms),
        0 <= k < norms.len(),
        has_linked(t, now, parsed, statement_id, ids, norms.take(k + 1), norms.take(k)),
    ensures
        has_linked(
            t,
            with_txns(
                now,
                relabeled(
                    now.txns,
                    |x: TxnRec|
                        x.statement_id == statement_id && x.txn.merchant_norm == norms[k]
                            && x.payee_id is None,
                    Some(now.aliases[norms[k]].payee_id),
                ),
            ),
            parsed,
            statement_id,
            ids,
            norms.take(k + 1),
            norms.take(k + 1),
        ),
{
    let which = |x: TxnRec|
        x.statement_id == statement_id && x.txn.merchant_norm == norms[k] && x.payee_id is None;
    let payee_id = now.aliases[norms[k]].payee_id;
    let after = with_txns(now, relabeled(now.txns, which, Some(payee_id)));
    let before = norms.take(k);
    let named = norms.take(k + 1);
    place_is_new(norms, k);
    assert(named[k] == norms[k]);
    assert(named.contains(norms[k]));
    assert forall|norm: Seq<char>| named.contains(norm) <==> before.contains(norm) || norm
        == norms[k] by {
        if before.contains(norm) {
            let i = choose|i: int| 0 <= i < before.len() && before[i] == norm;
            assert(named[i] == norm);
        }
        if named.contains(norm) {
            let i = choose|i: int| 0 <= i < named.len() && named[i] == norm;
            if i < k {
                assert(before[i] == norm);
            }
        }
    }
    assert forall|id: Seq<char>| #[trigger] t.txns.contains_key(id) implies after.txns[id]
        == t.txns[id] by {
        assert(now.txns.contains_key(id));
        assert(now.txns[id].statement_id != statement_id);
    }
    assert forall|i: int| 0 <= i < ids.len() implies after.txns[#[trigger] ids[i]] == (TxnRec {
        statement_id,
        txn: parsed.txns[i],
        payee_id: label_given(
            t,
            after,
            parsed.txns[i].merchant_norm,
            named.contains(parsed.txns[i].merchant_norm),
        ),
    }) by {
        assert(ids.contains(ids[i]));
        assert(now.txns.contains_key(ids[i]));
        let norm = parsed.txns[i].merchant_norm;
        if before.contains(norm) {
            let j = choose|j: int| 0 <= j < before.len() && before[j] == norm;
            assert(named[j] == norm);
            assert(named.contains(norm));
            assert(now.aliases.contains_key(norm));
        }
    }
    assert forall|id: Seq<char>| #[trigger]
        after.txns.contains_key(id) <==> t.txns.contains_key(id) || ids.contains(id) by {
        assert(after.txns.contains_key(id) <==> now.txns.contains_key(id));
    }
}

/// A stored statement has as many transactions as were read.
proof fn stored_count(
    t: Tables,
    after: Tables,
    parsed: ParseResultView,
    statement_id: Seq<char>,
    ids: Seq<Seq<char>>,
)
    requires
        is_sound(t),
        stores(t, after, parsed, statement_id, ids),
    ensures
        how_many(after.txns, |x: TxnRec| x.statement_id == statement_id) == parsed.txns.len(),
{
    let which = |x: TxnRec| x.statement_id == statement_id;
    let found = after.txns.dom().filter(|id: Seq<char>| which(after.txns[id]));
    ids.unique_seq_to_set();
    assert forall|id: Seq<char>| found.contains(id) <==> ids.to_set().contains(id) by {
        if ids.contains(id) {
            let i = choose|i: int| 0 <= i < ids.len() && ids[i] == id;
            assert(after.txns[ids[i]].statement_id == statement_id);
        } else if t.txns.contains_key(id) {
            assert(after.txns[id] == t.txns[id]);
        }
    }
    assert(found =~= ids.to_set());
}

/// The report on a count tells what was counted.
proof fn report_counts(
    t: Tables,
    rows: Seq<Seq<SqlView>>,
    statement_id: Seq<char>,
    duplicate: bool,
)
    requires
        does(t, ActionView::CountLabeled { statement_id }, rows, 0, t),
    ensures
        import_report(statement_id, rows, duplicate) matches StepView::Finish(Ok(report))
            && report.statement_id == statement_id && report.duplicate == duplicate
            && counts_hold(t, report),
{
    let (all, labeled) = choose|all: i64, labeled: i64|
        rows[0] == #[trigger] two_numbers(all, labeled) && all == how_many(
            t.txns,
            |x: TxnRec| x.statement_id == statement_id,
        ) && labeled == how_many(
            t.txns,
            |x: TxnRec| x.statement_id == statement_id && x.payee_id is Some,
        );
    assert(int_at(rows[0], 0) == Ok::<i64, StoreErrorView>(all));
    assert(int_at(rows[0], 1) == Ok::<i64, StoreErrorView>(labeled));
}

proof fn import_run(
    t: Tables,
    s: ImportView,
    action: ActionView,
    db: Db,
    ids: Seq<Seq<char>>,
    events: Seq<Event>,
    end: Db,
    out: Result<ImportReportView, StoreErrorView>,
)
    requires
        is_sound(t),
        import_holds(t, s, action, db, ids),
        import_runs(StepView::Run(action, s), db, events, end, out),
    ensures
        import_ended(t, s.parsed, end, out),
    decreases events.len(),
{
    let event = events[0];
    let step = import_next(s, event.reply, event.stamp);
    let rest = events.skip(1);
    let after = event.after;
    let now = db.tables;
    let parsed = s.parsed;
    assert(import_runs(step, after, rest, end, out));
    payment_norms_are_the_payments(parsed.txns);
    match event.reply {
        ReplyView::Failed(_) => {
            match s.at {
                ImportAtView::CountNew { statement_id } => {
                    assert(stores_whole(t, now, parsed, statement_id));
                },
                _ => {},
            }
            if let StepView::Run(next_action, next) = step {
                assert(import_holds(t, next, next_action, after, ids));
                import_run(t, next, next_action, after, ids, rest, end, out);
            }
        },
        ReplyView::Done { rows, changed } => {
            let mut more = ids;
            match s.at {
                ImportAtView::Find => {
                    if rows.len() > 0 {
                        let id = choose|id: Seq<char>|
                            #![trigger one_text(id)]
                            t.statements.contains_key(id) && t.statements[id].head.source_sha256
                                == parsed.statement.source_sha256 && rows[0] == one_text(id);
                        assert(text_at(rows[0], 0) == Ok::<Seq<char>, StoreErrorView>(id));
                    } else {
                        let which = |id: Seq<char>|
                            t.statements.contains_key(id) && t.statements[id].head.source_sha256
                                == parsed.statement.source_sha256;
                        assert forall|id: Seq<char>|
                            !(#[trigger] t.statements.contains_key(id)
                                && t.statements[id].head.source_sha256
                                == parsed.statement.source_sha256) by {
                            assert(!which(id));
                        }
                    }
                },
                ImportAtView::Statement { statement_id } => {
                    more = Seq::empty();
                    assert(has_stored(t, after.tables, parsed, statement_id, more));
                    if parsed.txns.len() == 0 {
                        start_links(t, after.tables, parsed, statement_id, more);
                        finish_links(t, after.tables, parsed, statement_id, more, 0);
                    }
                },
                ImportAtView::Alias { statement_id, txn } => {
                    let norm = parsed.txns[txn as int].merchant_norm;
                    if t.aliases.contains_key(norm) {
                        assert(opt_text_at(rows[0], 0) == Ok::<Option<Seq<char>>, StoreErrorView>(
                            Some(t.aliases[norm].payee_id),
                        ));
                    }
                },
                ImportAtView::Txn { statement_id, txn } => {
                    add_txn(t, now, parsed, statement_id, ids, action->InsertTxn_id);
                    more = ids.push(action->InsertTxn_id);
                    assert(has_stored(t, after.tables, parsed, statement_id, more));
                    if txn + 1 == parsed.txns.len() {
                        start_links(t, after.tables, parsed, statement_id, more);
                        finish_links(t, after.tables, parsed, statement_id, more, 0);
                    }
                },
                ImportAtView::Payee { statement_id, norms, norm } => {
                    if rows.len() > 0 {
                        let id = choose|id: Seq<char>|
                            #![trigger one_text(id)]
                            now.payees.contains_key(id) && now.payees[id].name
                                == PAYEE_CARD_PAYMENT@ && rows[0] == one_text(id);
                        assert(text_at(rows[0], 0) == Ok::<Seq<char>, StoreErrorView>(id));
                    } else {
                        let named = |id: Seq<char>|
                            now.payees.contains_key(id) && now.payees[id].name
                                == PAYEE_CARD_PAYMENT@;
                        assert forall|id: Seq<char>| #[trigger]
                            now.payees.contains_key(id) implies now.payees[id].name
                            != PAYEE_CARD_PAYMENT@ by {
                            assert(!named(id));
                        }
                    }
                },
                ImportAtView::NewPayee { statement_id, norms, norm, payee_id } => {
                    insert_payment_payee(
                        t,
                        now,
                        parsed,
                        statement_id,
                        ids,
                        norms.take(norm as int),
                        payee_id,
                        PayeeRec {
                            name: PAYEE_CARD_PAYMENT@,
                            category_id: CAT_ODEME@,
                            created_at: action->InsertPayee_now,
                        },
                    );
                },
                ImportAtView::PaymentAlias { statement_id, norms, norm, payee_id } => {
                    name_payment(
                        t,
                        now,
                        parsed,
                        statement_id,
                        ids,
                        norms,
                        norm as int,
                        after.tables.aliases[norms[norm as int]],
                    );
                },
                ImportAtView::Link { statement_id, norms, norm } => {
                    link_payment(t, now, parsed, statement_id, ids, norms, norm as int);
                    if norm + 1 == norms.len() {
                        finish_links(
                            t,
                            after.tables,
                            parsed,
                            statement_id,
                            ids,
                            norms.len() as int,
                        );
                    }
                },
                ImportAtView::CountOld { statement_id } => {
                    report_counts(now, rows, statement_id, true);
                },
                ImportAtView::CountNew { statement_id } => {
                    stored_count(t, now, parsed, statement_id, ids);
                    report_counts(now, rows, statement_id, false);
                    assert(stores_whole(t, now, parsed, statement_id));
                },
                _ => {},
            }
            if let StepView::Run(next_action, next) = step {
                assert(import_holds(t, next, next_action, after, more));
                import_run(t, next, next_action, after, more, rest, end, out);
            }
        },
    }
}

/// With every merchant of card payments linked, the statement is stored whole.
proof fn finish_links(
    t: Tables,
    now: Tables,
    parsed: ParseResultView,
    statement_id: Seq<char>,
    ids: Seq<Seq<char>>,
    k: int,
)
    requires
        0 <= k <= payment_norms(parsed.txns).len(),
        has_linked(
            t,
            now,
            parsed,
            statement_id,
            ids,
            payment_norms(parsed.txns).take(k),
            payment_norms(parsed.txns).take(k),
        ),
        payment_norms(parsed.txns).len() == 0 ==> now.payees == t.payees,
    ensures
        k == payment_norms(parsed.txns).len() ==> stores(t, now, parsed, statement_id, ids),
{
    let norms = payment_norms(parsed.txns);
    if k == norms.len() {
        assert(norms.take(k) =~= norms);
    }
}

proof fn import_from_start(
    db: Db,
    parsed: ParseResultView,
    events: Seq<Event>,
    end: Db,
    out: Result<ImportReportView, StoreErrorView>,
)
    requires
        is_sound(db.tables),
        db.saved is None,
        import_runs(import_start(parsed), db, events, end, out),
    ensures
        import_ended(db.tables, parsed, end, out),
{
    import_run(
        db.tables,
        ImportView { parsed, at: ImportAtView::Find },
        ActionView::FindStatement { source_sha256: parsed.statement.source_sha256 },
        db,
        Seq::empty(),
        events,
        end,
        out,
    );
}

/// The import of a statement whose fingerprint is stored changes nothing: it
/// reports the stored statement as a duplicate and tells its transactions,
/// unless the database fails.
pub proof fn known_statement_is_not_imported_again(
    db: Db,
    parsed: ParseResultView,
    events: Seq<Event>,
    end: Db,
    out: Result<ImportReportView, StoreErrorView>,
)
    requires
        is_sound(db.tables),
        db.saved is None,
        is_known(db.tables, parsed.statement.source_sha256),
        import_runs(import_start(parsed), db, events, end, out),
    ensures
        end == db,
        out matches Ok(report) ==> {
            &&& report.duplicate
            &&& db.tables.statements.contains_key(report.statement_id)
            &&& db.tables.statements[report.statement_id].head.source_sha256
                == parsed.statement.source_sha256
            &&& counts_hold(db.tables, report)
        },
{
    import_from_start(db, parsed, events, end, out);
}

/// An import is whole or nothing: when it is over, either its transaction is
/// still open and a rollback brings the tables back, or the tables are as they
/// were, or the whole statement is stored.
pub proof fn import_is_whole_or_nothing(
    db: Db,
    parsed: ParseResultView,
    events: Seq<Event>,
    end: Db,
    out: Result<ImportReportView, StoreErrorView>,
)
    requires
        is_sound(db.tables),
        db.saved is None,
        import_runs(import_start(parsed), db, events, end, out),
    ensures
        end.saved is Some ==> end.saved == Some(db.tables) && out is Err,
        end.saved is None ==> end.tables == db.tables || exists|id: Seq<char>|
            stores_whole(db.tables, end.tables, parsed, id),
{
    import_from_start(db, parsed, events, end, out);
}

/// An import that reports a new statement has stored it whole, under the id
/// that it reports and with all its transactions; no statement of the
/// fingerprint was there before.
pub proof fn imported_statement_is_stored_whole(
    db: Db,
    parsed: ParseResultView,
    events: Seq<Event>,
    end: Db,
    report: ImportReportView,
)
    requires
        is_sound(db.tables),
        db.saved is None,
        import_runs(import_start(parsed), db, events, end, Ok(report)),
        !report.duplicate,
    ensures
        end.saved is None,
        !is_known(db.tables, parsed.statement.source_sha256),
        stores_whole(db.tables, end.tables, parsed, report.statement_id),
        report.txn_count == parsed.txns.len() as usize,
        counts_hold(end.tables, report),
{
    import_from_start(db, parsed, events, end, Ok(report));
}

/// The import of a statement whose fingerprint is not stored never reports a
/// duplicate.
pub proof fn unknown_statement_is_no_duplicate(
    db: Db,
    parsed: ParseResultView,
    events: Seq<Event>,
    end: Db,
    report: ImportReportView,
)
    requires
        is_sound(db.tables),
        db.saved is None,
        !is_known(db.tables, parsed.statement.source_sha256),
        import_runs(import_start(parsed), db, events, end, Ok(report)),
    ensures
        !report.duplicate,
        stores_whole(db.tables, end.tables, parsed, report.statement_id),
{
    import_from_start(db, parsed, events, end, Ok(report));
    if report.duplicate {
        assert(db.tables.statements.contains_key(report.statement_id));
    }
}

/// No two statements have one fingerprint.
pub open spec fn fingerprints_differ(t: Tables) -> bool {
    forall|a: Seq<char>, b: Seq<char>|
        #![trigger t.statements.contains_key(a), t.statements.contains_key(b)]
        t.statements.contains_key(a) && t.statements.contains_key(b)
            && t.statements[a].head.source_sha256 == t.statements[b].head.source_sha256 ==> a == b
}

/// An import that is over, with no transaction left open, leaves every
/// transaction with a statement and every statement with a fingerprint of its
/// own.
pub proof fn import_keeps_fingerprints_apart(
    db: Db,
    parsed: ParseResultView,
    events: Seq<Event>,
    end: Db,
    out: Result<ImportReportView, StoreErrorView>,
)
    requires
        is_sound(db.tables),
        fingerprints_differ(db.tables),
        db.saved is None,
        import_runs(import_start(parsed), db, events, end, out),
        end.saved is None,
    ensures
        is_sound(end.tables),
        fingerprints_differ(end.tables),
{
    import_from_start(db, parsed, events, end, out);
    let t = db.tables;
    let after = end.tables;
    if after != t {
        let id = choose|id: Seq<char>| stores_whole(t, after, parsed, id);
        let ids = choose|ids: Seq<Seq<char>>| stores(t, after, parsed, id, ids);
        assert(!is_known(t, parsed.statement.source_sha256));
        assert forall|x: Seq<char>| #[trigger] after.txns.contains_key(x) implies
            after.statements.contains_key(after.txns[x].statement_id) by {
            if t.txns.contains_key(x) {
                assert(after.txns[x] == t.txns[x]);
            } else {
                let i = choose|i: int| 0 <= i < ids.len() && ids[i] == x;
                assert(after.txns[ids[i]].statement_id == id);
            }
        }
        assert forall|a: Seq<char>, b: Seq<char>|
            #![trigger after.statements.contains_key(a), after.statements.contains_key(b)]
            after.statements.contains_key(a) && after.statements.contains_key(b)
                && after.statements[a].head.source_sha256
                == after.statements[b].head.source_sha256 implies a == b by {
            if a != id && b != id {
                assert(t.statements.contains_key(a) && t.statements.contains_key(b));
            } else if a != id {
                assert(t.statements.contains_key(a));
            } else if b != id {
                assert(t.statements.contains_key(b));
            }
        }
    }
}

/// The statements that one database holds are in another too, with as many
/// transactions each.
pub open spec fn still_holds(t: Tables, later: Tables) -> bool {
    forall|id: Seq<char>| #[trigger]
        t.statements.contains_key(id) ==> later.statements.contains_key(id)
            && later.statements[id].head == t.statements[id].head && how_many(
            later.txns,
            |x: TxnRec| x.statement_id == id,
        ) == how_many(t.txns, |x: TxnRec| x.statement_id == id)
}

/// No statement of the store but the one that adds a transaction takes a stored
/// statement away, changes it or gives it more or fewer transactions.
pub proof fn stored_statements_stay(
    t: Tables,
    action: ActionView,
    rows: Seq<Seq<SqlView>>,
    changed: u64,
    after: Tables,
)
    requires
        does(t, action, rows, changed, after),
        !(action is InsertTxn),
    ensures
        still_holds(t, after),
{
    assert forall|x: Seq<char>| #[trigger] after.txns.contains_key(x) <==> t.txns.contains_key(
        x,
    ) by {}
    assert forall|x: Seq<char>| #[trigger] t.txns.contains_key(x) implies after.txns[x].statement_id
        == t.txns[x].statement_id by {}
    same_statements_same_counts(t, after);
}

proof fn same_statements_same_counts(t: Tables, after: Tables)
    requires
        forall|id: Seq<char>| #[trigger]
            t.statements.contains_key(id) ==> after.statements.contains_key(id)
                && after.statements[id].head == t.statements[id].head,
        forall|id: Seq<char>, x: Seq<char>|
            #![trigger t.statements.contains_key(id), after.txns.contains_key(x)]
            #![trigger t.statements.contains_key(id), t.txns.contains_key(x)]
            t.statements.contains_key(id) ==> ((after.txns.contains_key(x)
                && after.txns[x].statement_id == id) <==> (t.txns.contains_key(x)
                && t.txns[x].statement_id == id)),
    ensures
        still_holds(t, after),
{
    assert forall|id: Seq<char>| #[trigger] t.statements.contains_key(id) implies how_many(
        after.txns,
        |x: TxnRec| x.statement_id == id,
    ) == how_many(t.txns, |x: TxnRec| x.statement_id == id) by {
        let which = |x: TxnRec| x.statement_id == id;
        let now = after.txns.dom().filter(|x: Seq<char>| which(after.txns[x]));
        let was = t.txns.dom().filter(|x: Seq<char>| which(t.txns[x]));
        assert forall|x: Seq<char>| now.contains(x) <==> was.contains(x) by {
            assert(after.txns.dom().contains(x) <==> after.txns.contains_key(x));
            assert(t.txns.dom().contains(x) <==> t.txns.contains_key(x));
        }
        assert(now =~= was);
    }
}

/// Nor does an import that is over.
pub proof fn import_keeps_stored_statements(
    db: Db,
    parsed: ParseResultView,
    events: Seq<Event>,
    end: Db,
    out: Result<ImportReportView, StoreErrorView>,
)
    requires
        is_sound(db.tables),
        db.saved is None,
        import_runs(import_start(parsed), db, events, end, out),
        end.saved is None,
    ensures
        still_holds(db.tables, end.tables),
{
    import_from_start(db, parsed, events, end, out);
    let t = db.tables;
    let after = end.tables;
    if after != t {
        let id = choose|id: Seq<char>| stores_whole(t, after, parsed, id);
        let ids = choose|ids: Seq<Seq<char>>| stores(t, after, parsed, id, ids);
        assert forall|s: Seq<char>, x: Seq<char>|
            #![trigger t.statements.contains_key(s), after.txns.contains_key(x)]
            #![trigger t.statements.contains_key(s), t.txns.contains_key(x)]
            t.statements.contains_key(s) implies ((after.txns.contains_key(x)
            && after.txns[x].statement_id == s) <==> (t.txns.contains_key(x)
            && t.txns[x].statement_id == s)) by {
            if after.txns.contains_key(x) && !t.txns.contains_key(x) {
                let i = choose|i: int| 0 <= i < ids.len() && ids[i] == x;
                assert(after.txns[ids[i]].statement_id == id);
            }
            if t.txns.contains_key(x) {
                assert(after.txns[x] == t.txns[x]);
            }
        }
        same_statements_same_counts(t, after);
    }
}

/// A second import of a fingerprint, at any later time, changes nothing: it
/// reports the statement of the first one as a duplicate, with its number of
/// transactions and with the labels that they have by then.
pub proof fn second_import_reports_the_first(
    db: Db,
    parsed: ParseResultView,
    events: Seq<Event>,
    stored: Db,
    first: ImportReportView,
    later: Db,
    again: ParseResultView,
    more_events: Seq<Event>,
    end: Db,
    second: ImportReportView,
)
    requires
        is_sound(db.tables),
        db.saved is None,
        import_runs(import_start(parsed), db, events, stored, Ok(first)),
        still_holds(stored.tables, later.tables),
        is_sound(later.tables),
        fingerprints_differ(later.tables),
        later.saved is None,
        again.statement.source_sha256 == parsed.statement.source_sha256,
        import_runs(import_start(again), later, more_events, end, Ok(second)),
    ensures
        end == later,
        second.duplicate,
        second.statement_id == first.statement_id,
        second.txn_count == first.txn_count,
        counts_hold(later.tables, second),
{
    import_from_start(db, parsed, events, stored, Ok(first));
    let id = first.statement_id;
    if !first.duplicate {
        let ids = choose|ids: Seq<Seq<char>>|
            stores(db.tables, stored.tables, parsed, id, ids);
        assert(stored.tables.statements.contains_key(id));
    }
    assert(stored.tables.statements.contains_key(id));
    assert(later.tables.statements.contains_key(id));
    assert(is_known(later.tables, again.statement.source_sha256));
    import_from_start(later, again, more_events, end, Ok(second));
    known_statement_is_not_imported_again(later, again, more_events, end, Ok(second));
    assert(later.tables.statements.contains_key(second.statement_id));
}

/// Once a merchant is labeled, the transactions that later imports bring of it
/// carry the label.
pub proof fn label_reaches_later_imports(
    db: Db,
    norm: Seq<char>,
    name: Seq<char>,
    category_id: Seq<char>,
    label_events: Seq<Event>,
    labeled: Db,
    label: LabelReportView,
    parsed: ParseResultView,
    import_events: Seq<Event>,
    end: Db,
    report: ImportReportView,
    id: Seq<char>,
)
    requires
        is_sound(db.tables),
        db.saved is None,
        label_runs(label_start(norm, name, category_id), db, label_events, labeled, Ok(label)),
        import_runs(import_start(parsed), labeled, import_events, end, Ok(report)),
        !report.duplicate,
        end.tables.txns.contains_key(id),
        end.tables.txns[id].txn.merchant_norm == norm,
    ensures
        end.tables.txns[id].payee_id == Some(label.payee_id),
{
    label_reaches_every_transaction(
        db,
        norm,
        name,
        category_id,
        label_events,
        labeled,
        label,
    );
    label_keeps_transaction(db, norm, name, category_id, label_events, labeled, Ok(label));
    assert(is_sound(labeled.tables));
    imported_statement_is_stored_whole(labeled, parsed, import_events, end, report);
    let ids = choose|ids: Seq<Seq<char>>|
        stores(labeled.tables, end.tables, parsed, report.statement_id, ids);
    if labeled.tables.txns.contains_key(id) {
        assert(end.tables.txns[id] == labeled.tables.txns[id]);
    } else {
        assert(ids.contains(id));
        let i = choose|i: int| 0 <= i < ids.len() && ids[i] == id;
        assert(end.tables.txns[ids[i]].txn == parsed.txns[i]);
    }
}

/// Every card payment that an import brings is labeled: by its merchant's
/// alias, or with the payee of card payments.
pub proof fn card_payments_are_labeled(
    db: Db,
    parsed: ParseResultView,
    events: Seq<Event>,
    end: Db,
    report: ImportReportView,
    id: Seq<char>,
)
    requires
        is_sound(db.tables),
        db.saved is None,
        import_runs(import_start(parsed), db, events, end, Ok(report)),
        !report.duplicate,
        end.tables.txns.contains_key(id),
        end.tables.txns[id].statement_id == report.statement_id,
        contains(end.tables.txns[id].txn.merchant_norm, PAYMENT_NORM@),
    ensures
        match alias_payee(db.tables, end.tables.txns[id].txn.merchant_norm) {
            Some(payee_id) => end.tables.txns[id].payee_id == Some(payee_id),
            None => end.tables.txns[id].payee_id is Some && is_card_payment(
                end.tables,
                end.tables.txns[id].payee_id->0,
            ),
        },
{
    imported_statement_is_stored_whole(db, parsed, events, end, report);
    let ids = choose|ids: Seq<Seq<char>>|
        stores(db.tables, end.tables, parsed, report.statement_id, ids);
    if db.tables.txns.contains_key(id) {
        assert(end.tables.txns[id] == db.tables.txns[id]);
        assert(db.tables.statements.contains_key(report.statement_id));
    }
    assert(ids.contains(id));
    let i = choose|i: int| 0 <= i < ids.len() && ids[i] == id;
    let norm = parsed.txns[i].merchant_norm;
    assert(end.tables.txns[ids[i]].txn == parsed.txns[i]);
    payment_norms_are_the_payments(parsed.txns);
    assert(payment_norms(parsed.txns).contains(norm));
    assert(end.tables.aliases.contains_key(norm));
}

} // verus!
