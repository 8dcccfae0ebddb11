//! What the renewal of the merchants' keys comes to.

use crate::parse::merchant::norm;
use crate::parse::ParsedTxnView;
use crate::store::action::ActionView;
use crate::store::laws::payee::{moved, unnamed};
use crate::store::model::{adopted, is_labeled, is_shared, labels, names_all, names_shared, one_text,
    relabeled, runs, two_texts, with_aliases, with_payees, with_txns, AliasRec, Db, Event, PayeeRec,
    Tables, TxnRec};
use crate::store::open::{pair_columns, pair_in_row, pairs_of, rekey_next, rekey_start, text_columns,
    text_in_row, texts_of, RekeyStep, RekeyView};
use crate::store::rows::{row_error, value_error, Column};
use crate::store::step::{StampView, StepView};
use crate::store::value::{ReplyView, SqlView, StoreErrorView};
use vstd::prelude::*;

verus! {

/// The renewal goes from a step through events to an end.
pub open spec fn rekey_runs(
    step: RekeyStep,
    db: Db,
    events: Seq<Event>,
    end: Db,
    out: Result<(), StoreErrorView>,
) -> bool {
    runs(
        |s: RekeyView, reply: ReplyView, stamp: StampView| rekey_next(s, reply, stamp),
        step,
        db,
        events,
        end,
        out,
    )
}

/// Every label is a payee.
pub open spec fn labels_exist(t: Tables) -> bool {
    forall|id: Seq<char>| #[trigger]
        t.txns.contains_key(id) && t.txns[id].payee_id is Some ==> t.payees.contains_key(
            t.txns[id].payee_id->0,
        )
}

/// The same transactions, but for keys and labels; what was labeled is, and
/// what was not is not.
pub open spec fn same_rows(t: Tables, after: Tables) -> bool {
    &&& after.statements == t.statements
    &&& after.categories == t.categories
    &&& after.txns.dom() == t.txns.dom()
    &&& forall|id: Seq<char>| #[trigger]
        t.txns.contains_key(id) ==> {
            &&& after.txns[id].statement_id == t.txns[id].statement_id
            &&& after.txns[id].txn == (ParsedTxnView {
                merchant_norm: after.txns[id].txn.merchant_norm,
                ..t.txns[id].txn
            })
            &&& after.txns[id].payee_id is Some <==> t.txns[id].payee_id is Some
        }
}

/// The same transactions, each with the key that its merchant's name makes.
pub open spec fn is_rekeyed(t: Tables, after: Tables) -> bool {
    &&& same_rows(t, after)
    &&& forall|id: Seq<char>| #[trigger]
        t.txns.contains_key(id) ==> after.txns[id].txn.merchant_norm == norm(
            t.txns[id].txn.merchant_raw,
        )
}

/// The aliases are the labels: each names its merchant's label, and each
/// labeled merchant has one.
pub open spec fn aliases_are_labels(t: Tables) -> bool {
    &&& forall|key: Seq<char>, payee_id: Seq<char>| #[trigger]
        labels(t.txns, key, payee_id) ==> t.aliases.contains_key(key) && t.aliases[key].payee_id
            == payee_id
    &&& forall|key: Seq<char>| #[trigger]
        t.aliases.contains_key(key) ==> labels(t.txns, key, t.aliases[key].payee_id)
}

/// No two payees share a name.
pub open spec fn names_differ(payees: Map<Seq<char>, PayeeRec>) -> bool {
    forall|a: Seq<char>, b: Seq<char>|
        #![trigger payees.contains_key(a), payees.contains_key(b)]
        payees.contains_key(a) && payees.contains_key(b) && a != b ==> payees[a].name
            != payees[b].name
}

/// The payees of one table are among those of another.
pub open spec fn payees_within(t: Tables, after: Tables) -> bool {
    forall|id: Seq<char>| #[trigger]
        after.payees.contains_key(id) ==> t.payees.contains_key(id) && after.payees[id]
            == t.payees[id]
}

/// Rows of one text each read as those texts.
pub proof fn texts_read(rows: Seq<Seq<SqlView>>, which: spec_fn(Seq<char>) -> bool)
    requires
        forall|i: int|
            0 <= i < rows.len() ==> exists|a: Seq<char>| #[trigger]
                which(a) && (#[trigger] rows[i]) == one_text(a),
    ensures
        texts_of(rows) is Ok,
        texts_of(rows)->Ok_0.len() == rows.len(),
        forall|i: int|
            0 <= i < rows.len() ==> rows[i] == one_text(#[trigger] texts_of(rows)->Ok_0[i])
                && which(texts_of(rows)->Ok_0[i]),
    decreases rows.len(),
{
    if rows.len() > 0 {
        let before = rows.drop_last();
        assert forall|i: int| 0 <= i < before.len() implies exists|a: Seq<char>| #[trigger]
            which(a) && (#[trigger] before[i]) == one_text(a) by {
            assert(before[i] == rows[i]);
        }
        texts_read(before, which);
        let last = rows[rows.len() - 1];
        let a = choose|a: Seq<char>| #[trigger] which(a) && last == one_text(a);
        assert(row_error(last, text_columns(), 1) is None);
        assert(value_error(last[0], Column::Text) is None);
        assert(row_error(last, text_columns(), 0) is None);
        assert(text_in_row(last) == Ok::<Seq<char>, StoreErrorView>(a));
        let list = texts_of(rows)->Ok_0;
        assert(list == texts_of(before)->Ok_0.push(a));
        assert forall|i: int| 0 <= i < rows.len() implies rows[i] == one_text(#[trigger] list[i])
            && which(list[i]) by {
            if i < before.len() {
                assert(before[i] == rows[i]);
                assert(list[i] == texts_of(before)->Ok_0[i]);
            }
        }
    }
}

/// Rows of two texts each read as those pairs.
pub proof fn pairs_read(rows: Seq<Seq<SqlView>>)
    requires
        forall|i: int|
            0 <= i < rows.len() ==> exists|a: Seq<char>, b: Seq<char>|
                (#[trigger] rows[i]) == #[trigger] two_texts(a, b),
    ensures
        pairs_of(rows) is Ok,
        pairs_of(rows)->Ok_0.len() == rows.len(),
        forall|i: int|
            0 <= i < rows.len() ==> rows[i] == two_texts(
                (#[trigger] pairs_of(rows)->Ok_0[i]).0,
                pairs_of(rows)->Ok_0[i].1,
            ),
    decreases rows.len(),
{
    if rows.len() > 0 {
        let before = rows.drop_last();
        assert forall|i: int| 0 <= i < before.len() implies exists|a: Seq<char>, b: Seq<char>|
            (#[trigger] before[i]) == #[trigger] two_texts(a, b) by {
            assert(before[i] == rows[i]);
        }
        pairs_read(before);
        let last = rows[rows.len() - 1];
        let (a, b) = choose|a: Seq<char>, b: Seq<char>| last == #[trigger] two_texts(a, b);
        assert(row_error(last, pair_columns(), 2) is None);
        assert(value_error(last[1], Column::Text) is None);
        assert(row_error(last, pair_columns(), 1) is None);
        assert(value_error(last[0], Column::Text) is None);
        assert(row_error(last, pair_columns(), 0) is None);
        assert(pair_in_row(last) == Ok::<(Seq<char>, Seq<char>), StoreErrorView>((a, b)));
        let list = pairs_of(rows)->Ok_0;
        assert(list == pairs_of(before)->Ok_0.push((a, b)));
        assert forall|i: int| 0 <= i < rows.len() implies rows[i] == two_texts(
            (#[trigger] list[i]).0,
            list[i].1,
        ) by {
            if i < before.len() {
                assert(before[i] == rows[i]);
                assert(list[i] == pairs_of(before)->Ok_0[i]);
            }
        }
    }
}

proof fn two_texts_tell(a: Seq<char>, b: Seq<char>, c: Seq<char>, d: Seq<char>)
    requires
        two_texts(a, b) == two_texts(c, d),
    ensures
        a == c,
        b == d,
{
    assert(two_texts(a, b)[0] == SqlView::Text(a));
    assert(two_texts(a, b)[1] == SqlView::Text(b));
    assert(two_texts(c, d)[0] == SqlView::Text(c));
    assert(two_texts(c, d)[1] == SqlView::Text(d));
}

proof fn one_text_tells(a: Seq<char>, b: Seq<char>)
    requires
        one_text(a) == one_text(b),
    ensures
        a == b,
{
    assert(one_text(a)[0] == SqlView::Text(a));
    assert(one_text(b)[0] == SqlView::Text(b));
}

/// The labels after one payee's transactions became another's.
proof fn labels_moved(t: Tables, keeper: Seq<char>, extra: Seq<char>)
    requires
        keeper != extra,
    ensures
        forall|key: Seq<char>, p: Seq<char>| #[trigger]
            labels(moved(t, keeper, extra).txns, key, p) <==> (p != extra && labels(
                t.txns,
                key,
                p,
            )) || (p == keeper && labels(t.txns, key, extra)),
{
    let m = moved(t, keeper, extra).txns;
    assert forall|key: Seq<char>, p: Seq<char>| #[trigger] labels(m, key, p) <==> (p != extra
        && labels(t.txns, key, p)) || (p == keeper && labels(t.txns, key, extra)) by {
        if labels(m, key, p) {
            let id = choose|id: Seq<char>| #[trigger]
                m.contains_key(id) && m[id].txn.merchant_norm == key && m[id].payee_id == Some(p);
            assert(t.txns.contains_key(id));
        }
        if p != extra && labels(t.txns, key, p) {
            let id = choose|id: Seq<char>| #[trigger]
                t.txns.contains_key(id) && t.txns[id].txn.merchant_norm == key
                    && t.txns[id].payee_id == Some(p);
            assert(m.contains_key(id));
        }
        if p == keeper && labels(t.txns, key, extra) {
            let id = choose|id: Seq<char>| #[trigger]
                t.txns.contains_key(id) && t.txns[id].txn.merchant_norm == key
                    && t.txns[id].payee_id == Some(extra);
            assert(m.contains_key(id));
        }
    }
}

/// The transactions of a key, all with one label.
spec fn unified(t: Tables, keeper: Seq<char>, key: Seq<char>) -> Tables {
    with_txns(
        t,
        relabeled(
            t.txns,
            |x: TxnRec| x.txn.merchant_norm == key && x.payee_id is Some,
            Some(keeper),
        ),
    )
}

proof fn labels_unified(t: Tables, keeper: Seq<char>, key: Seq<char>)
    ensures
        forall|k: Seq<char>, p: Seq<char>| #[trigger]
            labels(unified(t, keeper, key).txns, k, p) ==> if k == key {
                p == keeper
            } else {
                labels(t.txns, k, p)
            },
{
    let u = unified(t, keeper, key).txns;
    assert forall|k: Seq<char>, p: Seq<char>| #[trigger] labels(u, k, p) implies if k == key {
        p == keeper
    } else {
        labels(t.txns, k, p)
    } by {
        let id = choose|id: Seq<char>| #[trigger]
            u.contains_key(id) && u[id].txn.merchant_norm == k && u[id].payee_id == Some(p);
        assert(t.txns.contains_key(id));
    }
}

/// A label on a transaction is a label of its key.
proof fn label_of_txn(txns: Map<Seq<char>, TxnRec>, id: Seq<char>)
    requires
        txns.contains_key(id),
        txns[id].payee_id is Some,
    ensures
        labels(txns, txns[id].txn.merchant_norm, txns[id].payee_id->0),
{
}

/// A label of a key is a payee.
proof fn label_is_payee(t: Tables, key: Seq<char>, p: Seq<char>)
    requires
        labels_exist(t),
        labels(t.txns, key, p),
    ensures
        t.payees.contains_key(p),
{
    let id = choose|id: Seq<char>| #[trigger]
        t.txns.contains_key(id) && t.txns[id].txn.merchant_norm == key && t.txns[id].payee_id
            == Some(p);
    assert(t.txns[id].payee_id->0 == p);
}

/// The keys that payees still share are among those to come.
spec fn shared_to_come(now: Tables, pairs: Seq<(Seq<char>, Seq<char>)>, from: nat) -> bool {
    forall|key: Seq<char>| #[trigger]
        is_shared(now.txns, key) ==> exists|j: int|
            from <= j < pairs.len() && (#[trigger] pairs[j]).0 == key
}

/// The names that payees still share are among those to come, each with a
/// payee that keeps it.
spec fn names_to_come(now: Tables, dups: Seq<(Seq<char>, Seq<char>)>, from: nat) -> bool {
    &&& forall|a: Seq<char>, b: Seq<char>|
        #![trigger now.payees.contains_key(a), now.payees.contains_key(b)]
        now.payees.contains_key(a) && now.payees.contains_key(b) && a != b && now.payees[a].name
            == now.payees[b].name ==> exists|j: int|
            from <= j < dups.len() && (#[trigger] dups[j]).0 == now.payees[a].name
    &&& forall|j: int|
        from <= j < dups.len() ==> now.payees.contains_key((#[trigger] dups[j]).1)
            && now.payees[dups[j].1].name == dups[j].0
    &&& forall|i: int, j: int|
        0 <= i < dups.len() && 0 <= j < dups.len() && i != j ==> (#[trigger] dups[i]).0 != (
        #[trigger] dups[j]).0
}

/// The other payees of the name at hand are among those to come.
spec fn extras_to_come(
    now: Tables,
    dup: (Seq<char>, Seq<char>),
    extras: Seq<Seq<char>>,
    from: nat,
) -> bool {
    &&& forall|x: Seq<char>| #[trigger]
        now.payees.contains_key(x) && now.payees[x].name == dup.0 && x != dup.1 ==> exists|j: int|
            from <= j < extras.len() && (#[trigger] extras[j]) == x
    &&& forall|j: int| 0 <= j < extras.len() ==> (#[trigger] extras[j]) != dup.1
    &&& forall|j: int|
        0 <= j < extras.len() && now.payees.contains_key(#[trigger] extras[j])
            ==> now.payees[extras[j]].name == dup.0
}

/// The tables between two payees becoming one: `extra` labels nothing any
/// more, and what its aliases named is the keeper's.
spec fn moving(now: Tables, keeper: Seq<char>, extra: Seq<char>) -> bool {
    &&& forall|key: Seq<char>, p: Seq<char>| #[trigger]
        labels(now.txns, key, p) ==> p != extra && now.aliases.contains_key(key) && (
        now.aliases[key].payee_id == p || (p == keeper && now.aliases[key].payee_id == extra))
    &&& forall|key: Seq<char>| #[trigger]
        now.aliases.contains_key(key) && now.aliases[key].payee_id != extra ==> labels(
            now.txns,
            key,
            now.aliases[key].payee_id,
        )
}

/// The tables between two payees becoming one, without the aliases of the one
/// that goes.
spec fn adopting(now: Tables, keeper: Seq<char>, extra: Seq<char>) -> bool {
    &&& forall|key: Seq<char>, p: Seq<char>| #[trigger]
        labels(now.txns, key, p) ==> p != extra && if now.aliases.contains_key(key) {
            now.aliases[key].payee_id == p
        } else {
            p == keeper
        }
    &&& forall|key: Seq<char>| #[trigger]
        now.aliases.contains_key(key) ==> labels(now.txns, key, now.aliases[key].payee_id)
}

/// What holds from the renewal of the keys on.
spec fn keyed(t: Tables, now: Tables) -> bool {
    is_rekeyed(t, now) && labels_exist(now) && payees_within(t, now)
}

/// What holds while the renewal waits for a reply.
spec fn rekey_holds(t: Tables, s: RekeyView, action: ActionView, now: Tables) -> bool {
    match s {
        RekeyView::Raws => now == t && action is RawMerchants,
        RekeyView::Norm { raws, raw } => {
            &&& raw < raws.len()
            &&& half_keyed(t, now, raws, raw as int)
            &&& action == ActionView::SetNorm {
                norm: norm(raws[raw as int]),
                raw: raws[raw as int],
            }
        },
        RekeyView::Shared => keyed(t, now) && now.payees == t.payees && action is SharedNorms,
        RekeyView::Unify { pairs, pair } => {
            &&& pair < pairs.len()
            &&& keyed(t, now)
            &&& now.payees == t.payees
            &&& shared_to_come(now, pairs, pair)
            &&& forall|j: int|
                0 <= j < pairs.len() ==> t.payees.contains_key((#[trigger] pairs[j]).1)
            &&& action == ActionView::UnifyNorm {
                keeper: pairs[pair as int].1,
                norm: pairs[pair as int].0,
            }
        },
        RekeyView::Clear => {
            &&& keyed(t, now)
            &&& forall|key: Seq<char>| !#[trigger] is_shared(now.txns, key)
            &&& action is ClearAliases
        },
        RekeyView::Rebuild => {
            &&& keyed(t, now)
            &&& forall|key: Seq<char>| !#[trigger] is_shared(now.txns, key)
            &&& now.aliases == Map::<Seq<char>, AliasRec>::empty()
            &&& action is RebuildAliases
        },
        RekeyView::Names => keyed(t, now) && aliases_are_labels(now) && action is SharedNames,
        RekeyView::Others { dups, dup } => {
            &&& dup < dups.len()
            &&& keyed(t, now)
            &&& aliases_are_labels(now)
            &&& names_to_come(now, dups, dup)
            &&& action == ActionView::OthersNamed {
                name: dups[dup as int].0,
                id: dups[dup as int].1,
            }
        },
        RekeyView::MoveTxns { dups, dup, extras, extra } => {
            &&& dup < dups.len()
            &&& extra < extras.len()
            &&& keyed(t, now)
            &&& aliases_are_labels(now)
            &&& names_to_come(now, dups, dup)
            &&& extras_to_come(now, dups[dup as int], extras, extra)
            &&& action == ActionView::MoveTxns {
                keeper: dups[dup as int].1,
                extra: extras[extra as int],
            }
        },
        RekeyView::DropAliases { dups, dup, extras, extra } => {
            &&& dup < dups.len()
            &&& extra < extras.len()
            &&& keyed(t, now)
            &&& moving(now, dups[dup as int].1, extras[extra as int])
            &&& names_to_come(now, dups, dup)
            &&& extras_to_come(now, dups[dup as int], extras, extra)
            &&& action == ActionView::DropAliasesOf { payee_id: extras[extra as int] }
        },
        RekeyView::DropPayee { dups, dup, extras, extra } => {
            &&& dup < dups.len()
            &&& extra < extras.len()
            &&& keyed(t, now)
            &&& adopting(now, dups[dup as int].1, extras[extra as int])
            &&& names_to_come(now, dups, dup)
            &&& extras_to_come(now, dups[dup as int], extras, extra)
            &&& action == ActionView::DropPayee { payee_id: extras[extra as int] }
        },
        RekeyView::Adopt { dups, dup, extras, extra } => {
            &&& dup < dups.len()
            &&& extra < extras.len()
            &&& keyed(t, now)
            &&& adopting(now, dups[dup as int].1, extras[extra as int])
            &&& names_to_come(now, dups, dup)
            &&& extras_to_come(now, dups[dup as int], extras, extra + 1)
            &&& action is AdoptAliases
            &&& action->AdoptAliases_keeper == dups[dup as int].1
        },
        RekeyView::DropUnused => {
            &&& keyed(t, now)
            &&& aliases_are_labels(now)
            &&& names_differ(now.payees)
            &&& action is DropUnusedPayees
        },
    }
}

/// The transactions of the first merchants have their new key.
spec fn half_keyed(t: Tables, now: Tables, raws: Seq<Seq<char>>, n: int) -> bool {
    &&& now.payees == t.payees
    &&& same_rows(t, now)
    &&& labels_exist(now)
    &&& forall|id: Seq<char>| #[trigger]
        t.txns.contains_key(id) && raws.take(n).contains(t.txns[id].txn.merchant_raw)
            ==> now.txns[id].txn.merchant_norm == norm(t.txns[id].txn.merchant_raw)
    &&& forall|id: Seq<char>| #[trigger]
        t.txns.contains_key(id) ==> raws.contains(t.txns[id].txn.merchant_raw)
}

/// The tables after a renewal.
pub open spec fn is_renewed(t: Tables, after: Tables) -> bool {
    &&& is_rekeyed(t, after)
    &&& aliases_are_labels(after)
    &&& payees_within(t, after)
    &&& names_differ(after.payees)
    &&& labels_exist(after)
    &&& forall|id: Seq<char>| #[trigger]
        after.payees.contains_key(id) ==> exists|x: Seq<char>| #[trigger]
            after.txns.contains_key(x) && after.txns[x].payee_id == Some(id)
}

proof fn key_next(t: Tables, now: Tables, after: Tables, raws: Seq<Seq<char>>, n: int)
    requires
        half_keyed(t, now, raws, n),
        0 <= n < raws.len(),
        after == with_txns(
            now,
            Map::new(
                |id: Seq<char>| now.txns.contains_key(id),
                |id: Seq<char>|
                    if now.txns[id].txn.merchant_raw == raws[n] {
                        TxnRec {
                            txn: ParsedTxnView {
                                merchant_norm: norm(raws[n]),
                                ..now.txns[id].txn
                            },
                            ..now.txns[id]
                        }
                    } else {
                        now.txns[id]
                    },
            ),
        ),
    ensures
        half_keyed(t, after, raws, n + 1),
        n + 1 == raws.len() ==> is_rekeyed(t, after),
{
    assert(after.txns.dom() =~= now.txns.dom());
    assert forall|id: Seq<char>| #[trigger]
        t.txns.contains_key(id) && raws.take(n + 1).contains(
            t.txns[id].txn.merchant_raw,
        ) implies after.txns[id].txn.merchant_norm == norm(t.txns[id].txn.merchant_raw) by {
        let raw = t.txns[id].txn.merchant_raw;
        assert(now.txns.contains_key(id));
        assert(now.txns[id].txn.merchant_raw == raw);
        if raw != raws[n] {
            let first = raws.take(n + 1);
            let i = choose|i: int| 0 <= i < first.len() && first[i] == raw;
            assert(raws.take(n)[i] == raw);
            assert(raws.take(n).contains(raw));
        }
    }
    assert forall|id: Seq<char>| #[trigger]
        after.txns.contains_key(id) && after.txns[id].payee_id is Some implies
        after.payees.contains_key(after.txns[id].payee_id->0) by {
        assert(now.txns.contains_key(id));
    }
    assert forall|id: Seq<char>| #[trigger] t.txns.contains_key(id) implies {
        &&& after.txns[id].statement_id == t.txns[id].statement_id
        &&& after.txns[id].txn == (ParsedTxnView {
            merchant_norm: after.txns[id].txn.merchant_norm,
            ..t.txns[id].txn
        })
        &&& after.txns[id].payee_id is Some <==> t.txns[id].payee_id is Some
    } by {
        assert(now.txns.contains_key(id));
    }
    if n + 1 == raws.len() {
        assert(raws.take(n + 1) =~= raws);
    }
}

/// A change of labels keeps the rows and their keys.
proof fn relabeled_rows(
    t: Tables,
    now: Tables,
    after: Tables,
    which: spec_fn(TxnRec) -> bool,
    p: Seq<char>,
)
    requires
        is_rekeyed(t, now),
        after.statements == now.statements,
        after.categories == now.categories,
        after.txns == relabeled(now.txns, which, Some(p)),
        forall|x: TxnRec| #[trigger] which(x) ==> x.payee_id is Some,
    ensures
        is_rekeyed(t, after),
{
    assert(after.txns.dom() =~= now.txns.dom());
    assert forall|id: Seq<char>| #[trigger] t.txns.contains_key(id) implies {
        &&& after.txns[id].statement_id == t.txns[id].statement_id
        &&& after.txns[id].txn == (ParsedTxnView {
            merchant_norm: after.txns[id].txn.merchant_norm,
            ..t.txns[id].txn
        })
        &&& after.txns[id].payee_id is Some <==> t.txns[id].payee_id is Some
        &&& after.txns[id].txn.merchant_norm == norm(t.txns[id].txn.merchant_raw)
    } by {
        assert(now.txns.contains_key(id));
        assert(which(now.txns[id]) ==> now.txns[id].payee_id is Some);
    }
}

proof fn unify_next(
    t: Tables,
    now: Tables,
    pairs: Seq<(Seq<char>, Seq<char>)>,
    pair: nat,
)
    requires
        keyed(t, now),
        now.payees == t.payees,
        pair < pairs.len(),
        shared_to_come(now, pairs, pair),
        t.payees.contains_key(pairs[pair as int].1),
    ensures
        keyed(t, unified(now, pairs[pair as int].1, pairs[pair as int].0)),
        shared_to_come(unified(now, pairs[pair as int].1, pairs[pair as int].0), pairs, pair + 1),
{
    let keeper = pairs[pair as int].1;
    let key = pairs[pair as int].0;
    let after = unified(now, keeper, key);
    let which = |x: TxnRec| x.txn.merchant_norm == key && x.payee_id is Some;
    relabeled_rows(t, now, after, which, keeper);
    labels_unified(now, keeper, key);
    assert forall|k: Seq<char>| #[trigger] is_shared(after.txns, k) implies exists|j: int|
        pair + 1 <= j < pairs.len() && (#[trigger] pairs[j]).0 == k by {
        let (a, b) = choose|a: Seq<char>, b: Seq<char>|
            a != b && #[trigger] labels(after.txns, k, a) && #[trigger] labels(after.txns, k, b);
        assert(k != key);
        assert(labels(now.txns, k, a) && labels(now.txns, k, b));
        assert(is_shared(now.txns, k));
        let j = choose|j: int| pair <= j < pairs.len() && (#[trigger] pairs[j]).0 == k;
        assert(j != pair);
    }
    assert forall|id: Seq<char>| #[trigger]
        after.txns.contains_key(id) && after.txns[id].payee_id is Some implies
        after.payees.contains_key(after.txns[id].payee_id->0) by {
        assert(now.txns.contains_key(id));
    }
}

proof fn rebuilt(t: Tables, now: Tables, after: Tables)
    requires
        keyed(t, now),
        forall|key: Seq<char>| !#[trigger] is_shared(now.txns, key),
        after == with_aliases(now, after.aliases),
        forall|key: Seq<char>| #[trigger]
            after.aliases.contains_key(key) <==> is_labeled(now.txns, key),
        forall|key: Seq<char>| #[trigger]
            after.aliases.contains_key(key) ==> labels(
                now.txns,
                key,
                after.aliases[key].payee_id,
            ),
    ensures
        keyed(t, after),
        aliases_are_labels(after),
{
    assert forall|key: Seq<char>, p: Seq<char>| #[trigger]
        labels(after.txns, key, p) implies after.aliases.contains_key(key)
        && after.aliases[key].payee_id == p by {
        assert(is_labeled(now.txns, key));
        assert(after.aliases.contains_key(key));
        let q = after.aliases[key].payee_id;
        assert(labels(now.txns, key, q));
        if p != q {
            assert(is_shared(now.txns, key));
        }
    }
}

proof fn move_next(t: Tables, now: Tables, keeper: Seq<char>, extra: Seq<char>)
    requires
        keyed(t, now),
        aliases_are_labels(now),
        keeper != extra,
        now.payees.contains_key(keeper),
    ensures
        keyed(t, moved(now, keeper, extra)),
        moving(moved(now, keeper, extra), keeper, extra),
{
    let after = moved(now, keeper, extra);
    let which = |x: TxnRec| x.payee_id == Some(extra);
    relabeled_rows(t, now, after, which, keeper);
    labels_moved(now, keeper, extra);
    assert forall|id: Seq<char>| #[trigger]
        after.txns.contains_key(id) && after.txns[id].payee_id is Some implies
        after.payees.contains_key(after.txns[id].payee_id->0) by {
        assert(now.txns.contains_key(id));
    }
    assert forall|key: Seq<char>, p: Seq<char>| #[trigger] labels(after.txns, key, p) implies p
        != extra && after.aliases.contains_key(key) && (after.aliases[key].payee_id == p || (p
        == keeper && after.aliases[key].payee_id == extra)) by {
        if p != extra && labels(now.txns, key, p) {
            assert(now.aliases.contains_key(key));
        } else {
            assert(labels(now.txns, key, extra));
            assert(now.aliases.contains_key(key));
        }
    }
    assert forall|key: Seq<char>| #[trigger]
        after.aliases.contains_key(key) && after.aliases[key].payee_id != extra implies labels(
        after.txns,
        key,
        after.aliases[key].payee_id,
    ) by {
        assert(now.aliases.contains_key(key));
        assert(labels(now.txns, key, now.aliases[key].payee_id));
    }
}

proof fn rekey_run(
    t: Tables,
    s: RekeyView,
    action: ActionView,
    db: Db,
    events: Seq<Event>,
    end: Db,
    out: Result<(), StoreErrorView>,
)
    requires
        labels_exist(t),
        rekey_holds(t, s, action, db.tables),
        rekey_runs(StepView::Run(action, s), db, events, end, out),
    ensures
        out is Ok ==> is_renewed(t, end.tables),
    decreases events.len(),
{
    let event = events[0];
    let step = rekey_next(s, event.reply, event.stamp);
    let now = db.tables;
    let after = event.after.tables;
    assert(rekey_runs(step, event.after, events.skip(1), end, out));
    if let ReplyView::Done { rows, changed } = event.reply {
        match s {
            RekeyView::Raws => {
                raws_read(t, rows);
                let raws = texts_of(rows)->Ok_0;
                if raws.len() == 0 {
                    assert(is_rekeyed(t, t)) by {
                        assert forall|id: Seq<char>| #[trigger] t.txns.contains_key(id) implies {
                            t.txns[id].txn.merchant_norm == norm(t.txns[id].txn.merchant_raw)
                        } by {
                            assert(raws.contains(t.txns[id].txn.merchant_raw));
                        }
                    }
                }
            },
            RekeyView::Norm { raws, raw } => {
                key_next(t, now, after, raws, raw as int);
            },
            RekeyView::Shared => {
                shared_read(t, now, rows);
            },
            RekeyView::Unify { pairs, pair } => {
                unify_next(t, now, pairs, pair);
                assert(after == unified(now, pairs[pair as int].1, pairs[pair as int].0));
            },
            RekeyView::Clear => {
                assert(after.txns == now.txns);
            },
            RekeyView::Rebuild => {
                rebuilt(t, now, after);
            },
            RekeyView::Names => {
                names_read(now, rows);
            },
            RekeyView::Others { dups, dup } => {
                others_read(now, dups[dup as int].0, dups[dup as int].1, rows);
                if texts_of(rows)->Ok_0.len() == 0 {
                    next_name(now, dups, dup, texts_of(rows)->Ok_0);
                }
            },
            RekeyView::MoveTxns { dups, dup, extras, extra } => {
                assert(extras[extra as int] != dups[dup as int].1);
                assert(now.payees.contains_key(dups[dup as int].1));
                move_next(t, now, dups[dup as int].1, extras[extra as int]);
                assert(after == moved(now, dups[dup as int].1, extras[extra as int]));
            },
            RekeyView::DropAliases { dups, dup, extras, extra } => {
                drop_aliases_next(now, after, dups[dup as int].1, extras[extra as int]);
            },
            RekeyView::DropPayee { dups, dup, extras, extra } => {
                drop_payee_next(t, now, after, dups, dup, extras, extra);
            },
            RekeyView::Adopt { dups, dup, extras, extra } => {
                adopt_next(
                    now,
                    after,
                    dups[dup as int].1,
                    extras[extra as int],
                    action->AdoptAliases_now,
                );
                if extra + 1 == extras.len() {
                    next_name(after, dups, dup, extras);
                }
            },
            RekeyView::DropUnused => {
                drop_unused(t, now, after);
            },
        }
        if let StepView::Run(next_action, next) = step {
            assert(rekey_holds(t, next, next_action, after));
            rekey_run(t, next, next_action, event.after, events.skip(1), end, out);
        }
    }
}

proof fn raws_read(t: Tables, rows: Seq<Seq<SqlView>>)
    requires
        labels_exist(t),
        names_all(
            rows,
            |raw: Seq<char>|
                exists|x: Seq<char>| #[trigger]
                    t.txns.contains_key(x) && t.txns[x].txn.merchant_raw == raw,
        ),
    ensures
        texts_of(rows) is Ok,
        half_keyed(t, t, texts_of(rows)->Ok_0, 0),
{
    let which = |raw: Seq<char>|
        exists|x: Seq<char>| #[trigger]
            t.txns.contains_key(x) && t.txns[x].txn.merchant_raw == raw;
    texts_read(rows, which);
    let raws = texts_of(rows)->Ok_0;
    assert forall|id: Seq<char>| #[trigger] t.txns.contains_key(id) implies raws.contains(
        t.txns[id].txn.merchant_raw,
    ) by {
        let raw = t.txns[id].txn.merchant_raw;
        assert(which(raw));
        assert(rows.contains(one_text(raw)));
        let i = choose|i: int| 0 <= i < rows.len() && rows[i] == one_text(raw);
        assert(rows[i] == one_text(raws[i]));
        one_text_tells(raw, raws[i]);
    }
}

proof fn shared_read(t: Tables, now: Tables, rows: Seq<Seq<SqlView>>)
    requires
        keyed(t, now),
        now.payees == t.payees,
        forall|key: Seq<char>| #[trigger]
            is_shared(now.txns, key) ==> exists|keeper: Seq<char>|
                labels(now.txns, key, keeper) && #[trigger] rows.contains(two_texts(key, keeper)),
        forall|i: int|
            0 <= i < rows.len() ==> exists|key: Seq<char>, keeper: Seq<char>| #[trigger]
                labels(now.txns, key, keeper) && (#[trigger] rows[i]) == two_texts(key, keeper),
    ensures
        pairs_of(rows) is Ok,
        shared_to_come(now, pairs_of(rows)->Ok_0, 0),
        forall|j: int|
            0 <= j < pairs_of(rows)->Ok_0.len() ==> t.payees.contains_key(
                (#[trigger] pairs_of(rows)->Ok_0[j]).1,
            ),
{
    assert forall|i: int| 0 <= i < rows.len() implies exists|a: Seq<char>, b: Seq<char>|
        (#[trigger] rows[i]) == #[trigger] two_texts(a, b) by {
        let (key, keeper) = choose|key: Seq<char>, keeper: Seq<char>| #[trigger]
            labels(now.txns, key, keeper) && rows[i] == two_texts(key, keeper);
        assert(rows[i] == two_texts(key, keeper));
    }
    pairs_read(rows);
    let pairs = pairs_of(rows)->Ok_0;
    assert forall|key: Seq<char>| #[trigger] is_shared(now.txns, key) implies exists|j: int|
        0 <= j < pairs.len() && (#[trigger] pairs[j]).0 == key by {
        let keeper = choose|keeper: Seq<char>|
            labels(now.txns, key, keeper) && #[trigger] rows.contains(two_texts(key, keeper));
        let j = choose|j: int| 0 <= j < rows.len() && rows[j] == two_texts(key, keeper);
        assert(rows[j] == two_texts(pairs[j].0, pairs[j].1));
        two_texts_tell(key, keeper, pairs[j].0, pairs[j].1);
    }
    assert forall|j: int| 0 <= j < pairs.len() implies t.payees.contains_key(
        (#[trigger] pairs[j]).1,
    ) by {
        assert(rows[j] == two_texts(pairs[j].0, pairs[j].1));
        let (key, keeper) = choose|key: Seq<char>, keeper: Seq<char>| #[trigger]
            labels(now.txns, key, keeper) && rows[j] == two_texts(key, keeper);
        two_texts_tell(key, keeper, pairs[j].0, pairs[j].1);
        label_is_payee(now, key, keeper);
    }
}

proof fn names_read(now: Tables, rows: Seq<Seq<SqlView>>)
    requires
        names_shared(now.payees, rows),
    ensures
        pairs_of(rows) is Ok,
        names_to_come(now, pairs_of(rows)->Ok_0, 0),
        pairs_of(rows)->Ok_0.len() == 0 ==> names_differ(now.payees),
{
    assert forall|i: int| 0 <= i < rows.len() implies exists|a: Seq<char>, b: Seq<char>|
        (#[trigger] rows[i]) == #[trigger] two_texts(a, b) by {
        let (name, keeper) = choose|name: Seq<char>, keeper: Seq<char>|
            now.payees.contains_key(keeper) && now.payees[keeper].name == name && rows[i]
                == #[trigger] two_texts(name, keeper);
        assert(rows[i] == two_texts(name, keeper));
    }
    pairs_read(rows);
    let dups = pairs_of(rows)->Ok_0;
    assert forall|a: Seq<char>, b: Seq<char>|
        #![trigger now.payees.contains_key(a), now.payees.contains_key(b)]
        now.payees.contains_key(a) && now.payees.contains_key(b) && a != b && now.payees[a].name
            == now.payees[b].name implies exists|j: int|
        0 <= j < dups.len() && (#[trigger] dups[j]).0 == now.payees[a].name by {
        let keeper = choose|keeper: Seq<char>| #[trigger]
            rows.contains(two_texts(now.payees[a].name, keeper));
        let j = choose|j: int|
            0 <= j < rows.len() && rows[j] == two_texts(now.payees[a].name, keeper);
        assert(rows[j] == two_texts(dups[j].0, dups[j].1));
        two_texts_tell(now.payees[a].name, keeper, dups[j].0, dups[j].1);
    }
    assert forall|j: int| 0 <= j < dups.len() implies now.payees.contains_key(
        (#[trigger] dups[j]).1,
    ) && now.payees[dups[j].1].name == dups[j].0 by {
        assert(rows[j] == two_texts(dups[j].0, dups[j].1));
        let (name, keeper) = choose|name: Seq<char>, keeper: Seq<char>|
            now.payees.contains_key(keeper) && now.payees[keeper].name == name && rows[j]
                == #[trigger] two_texts(name, keeper);
        two_texts_tell(name, keeper, dups[j].0, dups[j].1);
    }
    assert forall|i: int, j: int|
        0 <= i < dups.len() && 0 <= j < dups.len() && i != j implies (#[trigger] dups[i]).0 != (
    #[trigger] dups[j]).0 by {
        assert(rows[i] == two_texts(dups[i].0, dups[i].1));
        assert(rows[j] == two_texts(dups[j].0, dups[j].1));
        assert(rows[i][0] == SqlView::Text(dups[i].0));
        assert(rows[j][0] == SqlView::Text(dups[j].0));
    }
}

proof fn others_read(
    now: Tables,
    name: Seq<char>,
    id: Seq<char>,
    rows: Seq<Seq<SqlView>>,
)
    requires
        names_all(
            rows,
            |other: Seq<char>|
                now.payees.contains_key(other) && now.payees[other].name == name && other
                    != id,
        ),
    ensures
        texts_of(rows) is Ok,
        extras_to_come(now, (name, id), texts_of(rows)->Ok_0, 0),
{
    let which = |other: Seq<char>|
        now.payees.contains_key(other) && now.payees[other].name == name && other != id;
    texts_read(rows, which);
    let extras = texts_of(rows)->Ok_0;
    assert forall|x: Seq<char>| #[trigger]
        now.payees.contains_key(x) && now.payees[x].name == name && x != id implies exists|
        j: int,
    | 0 <= j < extras.len() && (#[trigger] extras[j]) == x by {
        assert(which(x));
        assert(rows.contains(one_text(x)));
        let j = choose|j: int| 0 <= j < rows.len() && rows[j] == one_text(x);
        assert(rows[j] == one_text(extras[j]));
        one_text_tells(x, extras[j]);
    }
}

/// With no other payee of the name at hand, the names to come start behind it.
proof fn next_name(
    now: Tables,
    dups: Seq<(Seq<char>, Seq<char>)>,
    dup: nat,
    extras: Seq<Seq<char>>,
)
    requires
        dup < dups.len(),
        names_to_come(now, dups, dup),
        extras_to_come(now, dups[dup as int], extras, extras.len()),
    ensures
        names_to_come(now, dups, dup + 1),
        dup + 1 == dups.len() ==> names_differ(now.payees),
{
    let here = dups[dup as int];
    assert forall|a: Seq<char>, b: Seq<char>|
        #![trigger now.payees.contains_key(a), now.payees.contains_key(b)]
        now.payees.contains_key(a) && now.payees.contains_key(b) && a != b && now.payees[a].name
            == now.payees[b].name implies exists|j: int|
        dup + 1 <= j < dups.len() && (#[trigger] dups[j]).0 == now.payees[a].name by {
        let j = choose|j: int|
            dup <= j < dups.len() && (#[trigger] dups[j]).0 == now.payees[a].name;
        if j == dup {
            assert(a == here.1);
            assert(b == here.1);
        }
    }
}

proof fn drop_aliases_next(now: Tables, after: Tables, keeper: Seq<char>, extra: Seq<char>)
    requires
        moving(now, keeper, extra),
        after == with_aliases(now, unnamed(now, extra)),
    ensures
        adopting(after, keeper, extra),
{
    assert forall|key: Seq<char>, p: Seq<char>| #[trigger] labels(after.txns, key, p) implies p
        != extra && if after.aliases.contains_key(key) {
        after.aliases[key].payee_id == p
    } else {
        p == keeper
    } by {
        assert(labels(now.txns, key, p));
    }
    assert forall|key: Seq<char>| #[trigger] after.aliases.contains_key(key) implies labels(
        after.txns,
        key,
        after.aliases[key].payee_id,
    ) by {
        assert(now.aliases.contains_key(key));
    }
}

proof fn drop_payee_next(
    t: Tables,
    now: Tables,
    after: Tables,
    dups: Seq<(Seq<char>, Seq<char>)>,
    dup: nat,
    extras: Seq<Seq<char>>,
    extra: nat,
)
    requires
        dup < dups.len(),
        extra < extras.len(),
        keyed(t, now),
        adopting(now, dups[dup as int].1, extras[extra as int]),
        names_to_come(now, dups, dup),
        extras_to_come(now, dups[dup as int], extras, extra),
        after == with_payees(now, now.payees.remove(extras[extra as int])),
    ensures
        keyed(t, after),
        adopting(after, dups[dup as int].1, extras[extra as int]),
        names_to_come(after, dups, dup),
        extras_to_come(after, dups[dup as int], extras, extra + 1),
{
    let gone = extras[extra as int];
    let here = dups[dup as int];
    assert(gone != here.1);
    assert forall|id: Seq<char>| #[trigger]
        after.txns.contains_key(id) && after.txns[id].payee_id is Some implies
        after.payees.contains_key(after.txns[id].payee_id->0) by {
        label_of_txn(now.txns, id);
        assert(now.txns.contains_key(id));
    }
    assert forall|a: Seq<char>, b: Seq<char>|
        #![trigger after.payees.contains_key(a), after.payees.contains_key(b)]
        after.payees.contains_key(a) && after.payees.contains_key(b) && a != b
            && after.payees[a].name == after.payees[b].name implies exists|j: int|
        dup <= j < dups.len() && (#[trigger] dups[j]).0 == after.payees[a].name by {
        assert(now.payees.contains_key(a) && now.payees.contains_key(b));
    }
    assert forall|j: int| dup <= j < dups.len() implies after.payees.contains_key(
        (#[trigger] dups[j]).1,
    ) && after.payees[dups[j].1].name == dups[j].0 by {
        assert(now.payees.contains_key(dups[j].1));
        if dups[j].1 == gone {
            assert(now.payees[gone].name == here.0);
            assert(dups[j].0 == here.0);
            assert(j == dup);
        }
    }
    assert forall|x: Seq<char>| #[trigger]
        after.payees.contains_key(x) && after.payees[x].name == here.0 && x
            != here.1 implies exists|j: int|
        extra + 1 <= j < extras.len() && (#[trigger] extras[j]) == x by {
        assert(now.payees.contains_key(x));
        let j = choose|j: int| extra <= j < extras.len() && (#[trigger] extras[j]) == x;
        assert(j != extra);
    }
    assert forall|j: int|
        0 <= j < extras.len() && after.payees.contains_key(
            #[trigger] extras[j],
        ) implies after.payees[extras[j]].name == here.0 by {
        assert(now.payees.contains_key(extras[j]));
    }
}

proof fn adopt_next(
    now: Tables,
    after: Tables,
    keeper: Seq<char>,
    extra: Seq<char>,
    stamp: Seq<char>,
)
    requires
        adopting(now, keeper, extra),
        after == with_aliases(now, adopted(now, keeper, stamp)),
    ensures
        aliases_are_labels(after),
{
    assert forall|key: Seq<char>, p: Seq<char>| #[trigger]
        labels(after.txns, key, p) implies after.aliases.contains_key(key)
        && after.aliases[key].payee_id == p by {
        assert(labels(now.txns, key, p));
    }
    assert forall|key: Seq<char>| #[trigger] after.aliases.contains_key(key) implies labels(
        after.txns,
        key,
        after.aliases[key].payee_id,
    ) by {}
}

proof fn drop_unused(t: Tables, now: Tables, after: Tables)
    requires
        keyed(t, now),
        aliases_are_labels(now),
        names_differ(now.payees),
        after == with_payees(
            now,
            Map::new(
                |id: Seq<char>|
                    now.payees.contains_key(id) && exists|x: Seq<char>| #[trigger]
                        now.txns.contains_key(x) && now.txns[x].payee_id == Some(id),
                |id: Seq<char>| now.payees[id],
            ),
        ),
    ensures
        is_renewed(t, after),
{
    assert forall|id: Seq<char>| #[trigger]
        after.txns.contains_key(id) && after.txns[id].payee_id is Some implies
        after.payees.contains_key(after.txns[id].payee_id->0) by {
        assert(now.txns.contains_key(id));
        assert(now.txns[id].payee_id == Some(after.txns[id].payee_id->0));
    }
    assert forall|a: Seq<char>, b: Seq<char>|
        #![trigger after.payees.contains_key(a), after.payees.contains_key(b)]
        after.payees.contains_key(a) && after.payees.contains_key(b) && a
            != b implies after.payees[a].name != after.payees[b].name by {
        assert(now.payees.contains_key(a) && now.payees.contains_key(b));
    }
}

/// The renewal gives every transaction the key that its merchant's name makes
/// and keeps what is labeled labeled. Then one key has one label, which is its
/// alias; no two payees share a name, and each has a transaction.
pub proof fn renewed_keys_have_one_label(db: Db, events: Seq<Event>, end: Db)
    requires
        labels_exist(db.tables),
        rekey_runs(rekey_start(), db, events, end, Ok(())),
    ensures
        is_renewed(db.tables, end.tables),
{
    rekey_run(
        db.tables,
        RekeyView::Raws,
        ActionView::RawMerchants,
        db,
        events,
        end,
        Ok(()),
    );
}

/// What a renewal leaves: every transaction has the key that its merchant's
/// name makes, the aliases are the labels, no two payees share a name, and each
/// payee has a transaction.
pub open spec fn is_settled(t: Tables) -> bool {
    &&& forall|id: Seq<char>| #[trigger]
        t.txns.contains_key(id) ==> t.txns[id].txn.merchant_norm == norm(
            t.txns[id].txn.merchant_raw,
        )
    &&& aliases_are_labels(t)
    &&& names_differ(t.payees)
    &&& forall|id: Seq<char>| #[trigger]
        t.payees.contains_key(id) ==> exists|x: Seq<char>| #[trigger]
            t.txns.contains_key(x) && t.txns[x].payee_id == Some(id)
}

/// The same tables, but for the times of the aliases.
pub open spec fn same_but_alias_times(t: Tables, after: Tables) -> bool {
    &&& after.categories == t.categories
    &&& after.statements == t.statements
    &&& after.payees == t.payees
    &&& after.txns == t.txns
    &&& forall|key: Seq<char>| #[trigger]
        after.aliases.contains_key(key) <==> t.aliases.contains_key(key)
    &&& forall|key: Seq<char>| #[trigger]
        after.aliases.contains_key(key) ==> after.aliases[key].payee_id == t.aliases[key].payee_id
}

/// What holds while a renewal of settled tables waits for a reply.
spec fn idle_holds(t: Tables, s: RekeyView, action: ActionView, now: Tables) -> bool {
    &&& now.categories == t.categories
    &&& now.statements == t.statements
    &&& now.payees == t.payees
    &&& now.txns == t.txns
    &&& match s {
        RekeyView::Raws => now == t && action is RawMerchants,
        RekeyView::Norm { raws, raw } => raw < raws.len() && action == (ActionView::SetNorm {
            norm: norm(raws[raw as int]),
            raw: raws[raw as int],
        }),
        RekeyView::Shared => action is SharedNorms,
        RekeyView::Unify { pairs, pair } => {
            &&& pair < pairs.len()
            &&& forall|j: int|
                0 <= j < pairs.len() ==> labels(
                    t.txns,
                    (#[trigger] pairs[j]).0,
                    pairs[j].1,
                )
            &&& action == ActionView::UnifyNorm {
                keeper: pairs[pair as int].1,
                norm: pairs[pair as int].0,
            }
        },
        RekeyView::Clear => action is ClearAliases,
        RekeyView::Rebuild => now.aliases == Map::<Seq<char>, AliasRec>::empty()
            && action is RebuildAliases,
        RekeyView::Names => same_but_alias_times(t, now) && action is SharedNames,
        RekeyView::Others { dups, dup } => {
            &&& dup < dups.len()
            &&& same_but_alias_times(t, now)
            &&& forall|j: int|
                0 <= j < dups.len() ==> t.payees.contains_key((#[trigger] dups[j]).1)
                    && t.payees[dups[j].1].name == dups[j].0
            &&& action == ActionView::OthersNamed {
                name: dups[dup as int].0,
                id: dups[dup as int].1,
            }
        },
        RekeyView::DropUnused => same_but_alias_times(t, now) && action is DropUnusedPayees,
        _ => false,
    }
}

/// Rows of pairs that labels are read as those labels.
proof fn idle_shared(t: Tables, rows: Seq<Seq<SqlView>>)
    requires
        forall|i: int|
            0 <= i < rows.len() ==> exists|norm: Seq<char>, keeper: Seq<char>| #[trigger]
                labels(t.txns, norm, keeper) && (#[trigger] rows[i]) == two_texts(norm, keeper),
    ensures
        pairs_of(rows) is Ok,
        forall|j: int|
            0 <= j < pairs_of(rows)->Ok_0.len() ==> labels(
                t.txns,
                (#[trigger] pairs_of(rows)->Ok_0[j]).0,
                pairs_of(rows)->Ok_0[j].1,
            ),
{
    assert forall|i: int| 0 <= i < rows.len() implies exists|a: Seq<char>, b: Seq<char>|
        (#[trigger] rows[i]) == #[trigger] two_texts(a, b) by {
        let (a, b) = choose|a: Seq<char>, b: Seq<char>| #[trigger]
            labels(t.txns, a, b) && rows[i] == two_texts(a, b);
        assert(rows[i] == two_texts(a, b));
    }
    pairs_read(rows);
    let pairs = pairs_of(rows)->Ok_0;
    assert forall|j: int| 0 <= j < pairs.len() implies labels(
        t.txns,
        (#[trigger] pairs[j]).0,
        pairs[j].1,
    ) by {
        let (a, b) = choose|a: Seq<char>, b: Seq<char>| #[trigger]
            labels(t.txns, a, b) && rows[j] == two_texts(a, b);
        two_texts_tell(a, b, pairs[j].0, pairs[j].1);
    }
}

/// Rows of pairs that name payees are read as those payees.
proof fn idle_names(t: Tables, rows: Seq<Seq<SqlView>>)
    requires
        names_shared(t.payees, rows),
    ensures
        pairs_of(rows) is Ok,
        forall|j: int|
            0 <= j < pairs_of(rows)->Ok_0.len() ==> t.payees.contains_key(
                (#[trigger] pairs_of(rows)->Ok_0[j]).1,
            ) && t.payees[pairs_of(rows)->Ok_0[j].1].name == pairs_of(rows)->Ok_0[j].0,
{
    assert forall|i: int| 0 <= i < rows.len() implies exists|a: Seq<char>, b: Seq<char>|
        (#[trigger] rows[i]) == #[trigger] two_texts(a, b) by {
        let (a, b) = choose|a: Seq<char>, b: Seq<char>|
            t.payees.contains_key(b) && t.payees[b].name == a && rows[i] == #[trigger] two_texts(
                a,
                b,
            );
        assert(rows[i] == two_texts(a, b));
    }
    pairs_read(rows);
    let pairs = pairs_of(rows)->Ok_0;
    assert forall|j: int| 0 <= j < pairs.len() implies t.payees.contains_key(
        (#[trigger] pairs[j]).1,
    ) && t.payees[pairs[j].1].name == pairs[j].0 by {
        let (a, b) = choose|a: Seq<char>, b: Seq<char>|
            t.payees.contains_key(b) && t.payees[b].name == a && rows[j] == #[trigger] two_texts(
                a,
                b,
            );
        two_texts_tell(a, b, pairs[j].0, pairs[j].1);
    }
}

/// No other payee has the name of one: there is none to read.
proof fn idle_others(t: Tables, name: Seq<char>, id: Seq<char>, rows: Seq<Seq<SqlView>>)
    requires
        names_differ(t.payees),
        t.payees.contains_key(id),
        t.payees[id].name == name,
        names_all(
            rows,
            |other: Seq<char>|
                t.payees.contains_key(other) && t.payees[other].name == name && other != id,
        ),
    ensures
        rows.len() == 0,
        texts_of(rows) == Ok::<Seq<Seq<char>>, StoreErrorView>(Seq::empty()),
{
    let which = |other: Seq<char>|
        t.payees.contains_key(other) && t.payees[other].name == name && other != id;
    if rows.len() > 0 {
        let first = rows[0];
        let other = choose|other: Seq<char>| #[trigger] which(other) && first == one_text(other);
        assert(which(other));
        assert(t.payees.contains_key(other) && t.payees.contains_key(id));
    }
}

/// A key with one label keeps it.
proof fn idle_unify(t: Tables, keeper: Seq<char>, key: Seq<char>)
    requires
        aliases_are_labels(t),
        labels(t.txns, key, keeper),
    ensures
        relabeled(
            t.txns,
            |x: TxnRec| x.txn.merchant_norm == key && x.payee_id is Some,
            Some(keeper),
        ) == t.txns,
{
    let which = |x: TxnRec| x.txn.merchant_norm == key && x.payee_id is Some;
    let after = relabeled(t.txns, which, Some(keeper));
    assert forall|id: Seq<char>| t.txns.contains_key(id) implies #[trigger] after[id]
        == t.txns[id] by {
        if which(t.txns[id]) {
            label_of_txn(t.txns, id);
            assert(labels(t.txns, key, t.txns[id].payee_id->0));
            assert(labels(t.txns, key, keeper));
        }
    }
    assert(after =~= t.txns);
}

proof fn idle_run(
    t: Tables,
    s: RekeyView,
    action: ActionView,
    db: Db,
    events: Seq<Event>,
    end: Db,
    out: Result<(), StoreErrorView>,
)
    requires
        is_settled(t),
        idle_holds(t, s, action, db.tables),
        rekey_runs(StepView::Run(action, s), db, events, end, out),
    ensures
        out is Ok ==> same_but_alias_times(t, end.tables),
    decreases events.len(),
{
    let event = events[0];
    let step = rekey_next(s, event.reply, event.stamp);
    let now = db.tables;
    let after = event.after.tables;
    assert(rekey_runs(step, event.after, events.skip(1), end, out));
    if let ReplyView::Done { rows, changed } = event.reply {
        match s {
            RekeyView::Raws => {},
            RekeyView::Norm { raws, raw } => {
                assert forall|id: Seq<char>| t.txns.contains_key(id) implies #[trigger] after.txns[id]
                    == t.txns[id] by {}
                assert(after.txns =~= t.txns);
            },
            RekeyView::Shared => {
                idle_shared(t, rows);
            },
            RekeyView::Unify { pairs, pair } => {
                idle_unify(t, pairs[pair as int].1, pairs[pair as int].0);
            },
            RekeyView::Clear => {},
            RekeyView::Rebuild => {
                idle_rebuilt(t, now, after);
            },
            RekeyView::Names => {
                idle_names(t, rows);
            },
            RekeyView::Others { dups, dup } => {
                idle_others(t, dups[dup as int].0, dups[dup as int].1, rows);
            },
            RekeyView::DropUnused => {
                assert(after.payees =~= t.payees);
            },
            _ => {},
        }
        if let StepView::Run(next_action, next) = step {
            assert(idle_holds(t, next, next_action, after));
            idle_run(t, next, next_action, event.after, events.skip(1), end, out);
        }
    }
}

/// Aliases that are made from the labels are the labels again.
proof fn idle_rebuilt(t: Tables, now: Tables, after: Tables)
    requires
        aliases_are_labels(t),
        now.txns == t.txns,
        forall|key: Seq<char>| #[trigger]
            after.aliases.contains_key(key) <==> is_labeled(t.txns, key),
        forall|key: Seq<char>| #[trigger]
            after.aliases.contains_key(key) ==> labels(t.txns, key, after.aliases[key].payee_id),
    ensures
        forall|key: Seq<char>| #[trigger]
            after.aliases.contains_key(key) <==> t.aliases.contains_key(key),
        forall|key: Seq<char>| #[trigger]
            after.aliases.contains_key(key) ==> after.aliases[key].payee_id
                == t.aliases[key].payee_id,
{
    assert forall|key: Seq<char>| #[trigger] after.aliases.contains_key(key)
        <==> t.aliases.contains_key(key) by {
        if t.aliases.contains_key(key) {
            assert(labels(t.txns, key, t.aliases[key].payee_id));
            assert(is_labeled(t.txns, key));
        }
        if after.aliases.contains_key(key) {
            assert(labels(t.txns, key, after.aliases[key].payee_id));
        }
    }
}

/// A second renewal changes nothing but the times of the aliases.
pub proof fn second_renewal_changes_only_alias_times(
    db: Db,
    events: Seq<Event>,
    renewed: Db,
    more_events: Seq<Event>,
    end: Db,
)
    requires
        labels_exist(db.tables),
        rekey_runs(rekey_start(), db, events, renewed, Ok(())),
        rekey_runs(rekey_start(), renewed, more_events, end, Ok(())),
    ensures
        same_but_alias_times(renewed.tables, end.tables),
{
    renewed_keys_have_one_label(db, events, renewed);
    let t = renewed.tables;
    assert forall|id: Seq<char>| #[trigger] t.txns.contains_key(id) implies
        t.txns[id].txn.merchant_norm == norm(t.txns[id].txn.merchant_raw) by {
        assert(db.tables.txns.contains_key(id));
    }
    assert(is_settled(t));
    idle_run(t, RekeyView::Raws, ActionView::RawMerchants, renewed, more_events, end, Ok(()));
}

} // verus!
