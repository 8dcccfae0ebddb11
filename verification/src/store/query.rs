//! What the queries of the store answer.
//!
//! A query lists the records that a condition holds of: each in its row, in an
//! order. Where the order leaves two records open, either may come first.

use crate::parse::Direction;
use crate::store::action::{statement_params, txn_params};
use crate::store::filter::{pattern, TxnFilterView};
use crate::store::model::{how_many, labels, Tables, TxnRec};
use crate::store::value::{text_or_null, SqlView};
use crate::text::{ascii_lower, before, text_less};
use vstd::prelude::*;

verus! {

/// A list has one item for each of some keys, in their order.
pub open spec fn lists_by<K, R>(
    list: Seq<R>,
    keys: Seq<K>,
    which: spec_fn(K) -> bool,
    item: spec_fn(K) -> R,
    upto: spec_fn(K, K) -> bool,
) -> bool {
    &&& keys.no_duplicates()
    &&& forall|k: K| #![trigger which(k)] #![trigger keys.contains(k)] which(k) <==> keys.contains(k)
    &&& list.len() == keys.len()
    &&& forall|i: int| 0 <= i < keys.len() ==> #[trigger] list[i] == item(keys[i])
    &&& forall|i: int, j: int|
        0 <= i < j < keys.len() ==> upto(#[trigger] keys[i], #[trigger] keys[j])
}

/// A list has one item for each key that a condition holds of, in an order.
pub open spec fn lists<K, R>(
    list: Seq<R>,
    which: spec_fn(K) -> bool,
    item: spec_fn(K) -> R,
    upto: spec_fn(K, K) -> bool,
) -> bool {
    exists|keys: Seq<K>| #[trigger] lists_by(list, keys, which, item, upto)
}

/// The first items of such a list, so many at most.
pub open spec fn lists_first<K, R>(
    list: Seq<R>,
    most: nat,
    which: spec_fn(K) -> bool,
    item: spec_fn(K) -> R,
    upto: spec_fn(K, K) -> bool,
) -> bool {
    exists|all: Seq<R>| #[trigger]
        lists(all, which, item, upto) && list == if all.len() <= most {
            all
        } else {
            all.take(most as int)
        }
}

/// 64 bits hold a number.
pub open spec fn is_i64(n: int) -> bool {
    i64::MIN <= n <= i64::MAX
}

/// What the transactions of these ids come to.
pub open spec fn sum_over(txns: Map<Seq<char>, TxnRec>, ids: Seq<Seq<char>>) -> int
    decreases ids.len(),
{
    if ids.len() == 0 {
        0
    } else {
        sum_over(txns, ids.drop_last()) + txns[ids.last()].txn.amount_minor
    }
}

/// What the transactions that a condition holds of come to.
pub open spec fn total(txns: Map<Seq<char>, TxnRec>, which: spec_fn(TxnRec) -> bool) -> int {
    sum_over(txns, txns.dom().filter(|id: Seq<char>| which(txns[id])).to_seq())
}

/// A transaction is of this statement, or any is meant.
pub open spec fn in_scope(x: TxnRec, statement_id: Option<Seq<char>>) -> bool {
    statement_id matches Some(id) ==> x.statement_id == id
}

/// The payee of a transaction.
pub open spec fn payee_of(t: Tables, x: TxnRec) -> Option<Seq<char>> {
    match x.payee_id {
        Some(p) => if t.payees.contains_key(p) {
            Some(p)
        } else {
            None
        },
        None => None,
    }
}

/// The category of a transaction: that of its payee.
pub open spec fn category_of(t: Tables, x: TxnRec) -> Option<Seq<char>> {
    match payee_of(t, x) {
        Some(p) => if t.categories.contains_key(t.payees[p].category_id) {
            Some(t.payees[p].category_id)
        } else {
            None
        },
        None => None,
    }
}

pub open spec fn is_statement(t: Tables) -> spec_fn(Seq<char>) -> bool {
    |id: Seq<char>| t.statements.contains_key(id)
}

pub open spec fn statement_row(t: Tables) -> spec_fn(Seq<char>) -> Seq<SqlView> {
    |id: Seq<char>| statement_params(id, t.statements[id].head, t.statements[id].imported_at)
}

/// The later period first and, of one period, the later import.
pub open spec fn latest_first(t: Tables) -> spec_fn(Seq<char>, Seq<char>) -> bool {
    |a: Seq<char>, b: Seq<char>|
        {
            let x = t.statements[a];
            let y = t.statements[b];
            text_less(y.head.period_end, x.head.period_end) || (y.head.period_end
                == x.head.period_end && !text_less(x.imported_at, y.imported_at))
        }
}

/// A category of spending that debits are of.
pub open spec fn is_spent_on(t: Tables, statement_id: Option<Seq<char>>) -> spec_fn(
    Seq<char>,
) -> bool {
    |c: Seq<char>|
        t.categories.contains_key(c) && t.categories[c].kind == "spend"@ && exists|id: Seq<char>|
            #[trigger]
            t.txns.contains_key(id) && is_spending(t, statement_id, c)(t.txns[id])
}

/// A debit of a category.
pub open spec fn is_spending(
    t: Tables,
    statement_id: Option<Seq<char>>,
    c: Seq<char>,
) -> spec_fn(TxnRec) -> bool {
    |x: TxnRec|
        in_scope(x, statement_id) && x.txn.direction is Debit && category_of(t, x) == Some(c)
}

/// What the debits of a category come to.
pub open spec fn spent_on(t: Tables, statement_id: Option<Seq<char>>, c: Seq<char>) -> int {
    total(t.txns, is_spending(t, statement_id, c))
}

pub open spec fn spend_row(t: Tables, statement_id: Option<Seq<char>>) -> spec_fn(
    Seq<char>,
) -> Seq<SqlView> {
    |c: Seq<char>|
        seq![
            SqlView::Text(c),
            SqlView::Text(t.categories[c].name),
            SqlView::Text(t.categories[c].kind),
            SqlView::Text(t.categories[c].color),
            SqlView::Integer(t.categories[c].sort),
            SqlView::Integer(spent_on(t, statement_id, c) as i64),
        ]
}

pub open spec fn most_spent_first(t: Tables, statement_id: Option<Seq<char>>) -> spec_fn(
    Seq<char>,
    Seq<char>,
) -> bool {
    |a: Seq<char>, b: Seq<char>| spent_on(t, statement_id, a) >= spent_on(t, statement_id, b)
}

/// What the debits without a label come to.
pub open spec fn unlabeled_debit(t: Tables, statement_id: Option<Seq<char>>) -> int {
    total(
        t.txns,
        |x: TxnRec| in_scope(x, statement_id) && x.payee_id is None && x.txn.direction is Debit,
    )
}

/// How many transactions have no label.
pub open spec fn unlabeled_count(t: Tables, statement_id: Option<Seq<char>>) -> nat {
    how_many(t.txns, |x: TxnRec| in_scope(x, statement_id) && x.payee_id is None)
}

/// A debit with a payee.
pub open spec fn is_payment(statement_id: Option<Seq<char>>, p: Seq<char>) -> spec_fn(
    TxnRec,
) -> bool {
    |x: TxnRec| in_scope(x, statement_id) && x.txn.direction is Debit && x.payee_id == Some(p)
}

/// A payee that has debits.
pub open spec fn is_paid(t: Tables, statement_id: Option<Seq<char>>) -> spec_fn(
    Seq<char>,
) -> bool {
    |p: Seq<char>|
        t.payees.contains_key(p) && exists|id: Seq<char>| #[trigger]
            t.txns.contains_key(id) && is_payment(statement_id, p)(t.txns[id])
}

/// What the debits with a payee come to.
pub open spec fn paid_to(t: Tables, statement_id: Option<Seq<char>>, p: Seq<char>) -> int {
    total(t.txns, is_payment(statement_id, p))
}

pub open spec fn paid_row(t: Tables, statement_id: Option<Seq<char>>) -> spec_fn(
    Seq<char>,
) -> Seq<SqlView> {
    |p: Seq<char>|
        seq![
            SqlView::Text(t.payees[p].name),
            SqlView::Integer(paid_to(t, statement_id, p) as i64),
        ]
}

pub open spec fn most_paid_first(t: Tables, statement_id: Option<Seq<char>>) -> spec_fn(
    Seq<char>,
    Seq<char>,
) -> bool {
    |a: Seq<char>, b: Seq<char>| paid_to(t, statement_id, a) >= paid_to(t, statement_id, b)
}

/// The month of a transaction, as its date starts with it.
pub open spec fn month_of(x: TxnRec) -> Seq<char> {
    if x.txn.date.len() > 7 {
        x.txn.date.take(7)
    } else {
        x.txn.date
    }
}

/// A month that has transactions.
pub open spec fn is_month(t: Tables, statement_id: Option<Seq<char>>) -> spec_fn(
    Seq<char>,
) -> bool {
    |m: Seq<char>|
        exists|id: Seq<char>| #[trigger]
            t.txns.contains_key(id) && in_scope(t.txns[id], statement_id) && month_of(t.txns[id])
                == m
}

/// What the transactions of a month come to in one direction.
pub open spec fn in_month(
    t: Tables,
    statement_id: Option<Seq<char>>,
    m: Seq<char>,
    direction: Direction,
) -> int {
    total(
        t.txns,
        |x: TxnRec|
            in_scope(x, statement_id) && month_of(x) == m && x.txn.direction == direction,
    )
}

pub open spec fn month_row(t: Tables, statement_id: Option<Seq<char>>) -> spec_fn(
    Seq<char>,
) -> Seq<SqlView> {
    |m: Seq<char>|
        seq![
            SqlView::Text(m),
            SqlView::Integer(in_month(t, statement_id, m, Direction::Debit) as i64),
            SqlView::Integer(in_month(t, statement_id, m, Direction::Credit) as i64),
        ]
}

pub open spec fn by_text() -> spec_fn(Seq<char>, Seq<char>) -> bool {
    |a: Seq<char>, b: Seq<char>| text_less(a, b)
}

/// What `LIKE` matches: `%` stands for any text and `_` for any character; the
/// case of ASCII letters does not count.
pub open spec fn like(s: Seq<char>, mask: Seq<char>) -> bool
    decreases s.len() + mask.len(),
{
    if mask.len() == 0 {
        s.len() == 0
    } else if mask[0] == '%' {
        like(s, mask.skip(1)) || (s.len() > 0 && like(s.skip(1), mask))
    } else {
        s.len() > 0 && (mask[0] == '_' || ascii_lower(mask[0]) == ascii_lower(s[0])) && like(
            s.skip(1),
            mask.skip(1),
        )
    }
}

/// A text as far as `LIKE` reads it: to its first NUL.
pub open spec fn to_nul(s: Seq<char>) -> Seq<char> {
    s.take(before(s, '\0') as int)
}

/// A text matches what was searched for.
pub open spec fn is_match(s: Seq<char>, q: Seq<char>) -> bool {
    like(to_nul(s), to_nul(pattern(q)))
}

/// A transaction that a filter picks.
pub open spec fn is_picked(t: Tables, filter: TxnFilterView) -> spec_fn(Seq<char>) -> bool {
    |id: Seq<char>|
        {
            let x = t.txns[id];
            &&& t.txns.contains_key(id)
            &&& in_scope(x, filter.statement_id)
            &&& filter.category_id matches Some(c) ==> payee_of(t, x) matches Some(p)
                && t.payees[p].category_id == c
            &&& filter.unlabeled_only ==> x.payee_id is None
            &&& filter.q matches Some(q) ==> is_match(x.txn.merchant_raw, q) || is_match(
                x.txn.merchant_norm,
                q,
            )
        }
}

/// The name of a transaction's payee.
pub open spec fn payee_name(t: Tables, x: TxnRec) -> Option<Seq<char>> {
    match payee_of(t, x) {
        Some(p) => Some(t.payees[p].name),
        None => None,
    }
}

/// The name of a transaction's category.
pub open spec fn category_name(t: Tables, x: TxnRec) -> Option<Seq<char>> {
    match category_of(t, x) {
        Some(c) => Some(t.categories[c].name),
        None => None,
    }
}

/// The colour of a transaction's category.
pub open spec fn category_color(t: Tables, x: TxnRec) -> Option<Seq<char>> {
    match category_of(t, x) {
        Some(c) => Some(t.categories[c].color),
        None => None,
    }
}

pub open spec fn txn_row(t: Tables) -> spec_fn(Seq<char>) -> Seq<SqlView> {
    |id: Seq<char>|
        {
            let x = t.txns[id];
            txn_params(id, x.statement_id, x.txn, x.payee_id) + seq![
                text_or_null(payee_name(t, x)),
                text_or_null(category_of(t, x)),
                text_or_null(category_name(t, x)),
                text_or_null(category_color(t, x)),
            ]
        }
}

/// The later date first and, of one date, the later line.
pub open spec fn last_first(t: Tables) -> spec_fn(Seq<char>, Seq<char>) -> bool {
    |a: Seq<char>, b: Seq<char>|
        {
            let x = t.txns[a].txn;
            let y = t.txns[b].txn;
            text_less(y.date, x.date) || (y.date == x.date && x.row_index >= y.row_index)
        }
}

pub open spec fn is_unlabeled(t: Tables) -> spec_fn(Seq<char>) -> bool {
    |id: Seq<char>| t.txns.contains_key(id) && t.txns[id].payee_id is None
}

pub open spec fn unlabeled_row(t: Tables) -> spec_fn(Seq<char>) -> Seq<SqlView> {
    |id: Seq<char>|
        {
            let x = t.txns[id].txn;
            seq![
                SqlView::Text(x.merchant_norm),
                SqlView::Text(x.merchant_raw),
                SqlView::Text(x.extra),
                SqlView::Text(x.date),
                SqlView::Integer(x.amount_minor),
                SqlView::Text(x.direction.text()),
            ]
        }
}

pub open spec fn is_category(t: Tables) -> spec_fn(Seq<char>) -> bool {
    |id: Seq<char>| t.categories.contains_key(id)
}

pub open spec fn category_row(t: Tables) -> spec_fn(Seq<char>) -> Seq<SqlView> {
    |id: Seq<char>|
        seq![
            SqlView::Text(id),
            SqlView::Text(t.categories[id].name),
            SqlView::Text(t.categories[id].kind),
            SqlView::Text(t.categories[id].color),
            SqlView::Integer(t.categories[id].sort),
        ]
}

pub open spec fn by_sort(t: Tables) -> spec_fn(Seq<char>, Seq<char>) -> bool {
    |a: Seq<char>, b: Seq<char>| t.categories[a].sort <= t.categories[b].sort
}

pub open spec fn is_payee(t: Tables) -> spec_fn(Seq<char>) -> bool {
    |id: Seq<char>| t.payees.contains_key(id)
}

pub open spec fn payee_row(t: Tables) -> spec_fn(Seq<char>) -> Seq<SqlView> {
    |id: Seq<char>|
        seq![
            SqlView::Text(id),
            SqlView::Text(t.payees[id].name),
            SqlView::Text(t.payees[id].category_id),
            SqlView::Text(t.payees[id].created_at),
        ]
}

pub open spec fn by_name(t: Tables) -> spec_fn(Seq<char>, Seq<char>) -> bool {
    |a: Seq<char>, b: Seq<char>| !text_less(t.payees[b].name, t.payees[a].name)
}

/// A payee's label on a merchant: the payee's id and the merchant's key.
pub open spec fn is_source(t: Tables) -> spec_fn((Seq<char>, Seq<char>)) -> bool {
    |k: (Seq<char>, Seq<char>)| labels(t.txns, k.1, k.0)
}

/// How many transactions of a merchant have a payee's label.
pub open spec fn uses_of(t: Tables, p: Seq<char>, norm: Seq<char>) -> nat {
    how_many(t.txns, |x: TxnRec| x.payee_id == Some(p) && x.txn.merchant_norm == norm)
}

/// A name under which a merchant has a payee's label.
pub open spec fn is_name_of(t: Tables, p: Seq<char>, norm: Seq<char>, raw: Seq<char>) -> bool {
    exists|id: Seq<char>| #[trigger]
        t.txns.contains_key(id) && t.txns[id].payee_id == Some(p) && t.txns[id].txn.merchant_norm
            == norm && t.txns[id].txn.merchant_raw == raw
}

/// The first of those names.
pub open spec fn first_name(t: Tables, p: Seq<char>, norm: Seq<char>) -> Seq<char> {
    choose|raw: Seq<char>| #[trigger]
        is_name_of(t, p, norm, raw) && forall|other: Seq<char>| #[trigger]
            is_name_of(t, p, norm, other) ==> !text_less(other, raw)
}

pub open spec fn source_row(t: Tables) -> spec_fn((Seq<char>, Seq<char>)) -> Seq<SqlView> {
    |k: (Seq<char>, Seq<char>)|
        seq![
            SqlView::Text(k.0),
            SqlView::Text(k.1),
            SqlView::Integer(uses_of(t, k.0, k.1) as i64),
            SqlView::Text(first_name(t, k.0, k.1)),
        ]
}

/// The merchant with more transactions first, then by key.
pub open spec fn most_used_first(t: Tables) -> spec_fn(
    (Seq<char>, Seq<char>),
    (Seq<char>, Seq<char>),
) -> bool {
    |a: (Seq<char>, Seq<char>), b: (Seq<char>, Seq<char>)|
        uses_of(t, a.0, a.1) > uses_of(t, b.0, b.1) || (uses_of(t, a.0, a.1) == uses_of(
            t,
            b.0,
            b.1,
        ) && !text_less(b.1, a.1))
}

} // verus!
