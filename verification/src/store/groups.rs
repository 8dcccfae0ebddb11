//! The inbox: unlabeled transactions, grouped by merchant.

use crate::parse::Direction;
use crate::store::rows::{check_row, integer_of, row_error, take_direction, take_integer, take_text,
    text_of, Column};
use crate::store::value::{row_views, value_views, SqlValue, SqlView, StoreError, StoreErrorView};
use crate::text::{less, same_str, text_less, text_less_total, text_less_transitive};
use vstd::prelude::*;

verus! {

/// One unlabeled transaction of a merchant.
#[derive(Debug, Clone)]
pub struct MerchantHit {
    pub date: String,
    pub amount_minor: i64,
    pub direction: Direction,
    pub extra: String,
}

#[verifier::ext_equal]
pub ghost struct MerchantHitView {
    pub date: Seq<char>,
    pub amount_minor: i64,
    pub direction: Direction,
    pub extra: Seq<char>,
}

impl View for MerchantHit {
    type V = MerchantHitView;

    open spec fn view(&self) -> MerchantHitView {
        MerchantHitView {
            date: self.date@,
            amount_minor: self.amount_minor,
            direction: self.direction,
            extra: self.extra@,
        }
    }
}

pub open spec fn hit_views(hits: Seq<MerchantHit>) -> Seq<MerchantHitView> {
    Seq::new(hits.len(), |i: int| hits[i]@)
}

/// The unlabeled transactions of one merchant, and their sums.
#[derive(Debug, Clone)]
pub struct MerchantGroup {
    pub merchant_norm: String,
    pub sample_raw: String,
    pub count: i64,
    pub debit_minor: i64,
    pub credit_minor: i64,
    pub hits: Vec<MerchantHit>,
}

#[verifier::ext_equal]
pub ghost struct MerchantGroupView {
    pub merchant_norm: Seq<char>,
    pub sample_raw: Seq<char>,
    pub count: i64,
    pub debit_minor: i64,
    pub credit_minor: i64,
    pub hits: Seq<MerchantHitView>,
}

impl View for MerchantGroup {
    type V = MerchantGroupView;

    open spec fn view(&self) -> MerchantGroupView {
        MerchantGroupView {
            merchant_norm: self.merchant_norm@,
            sample_raw: self.sample_raw@,
            count: self.count,
            debit_minor: self.debit_minor,
            credit_minor: self.credit_minor,
            hits: hit_views(self.hits@),
        }
    }
}

pub open spec fn group_views(groups: Seq<MerchantGroup>) -> Seq<MerchantGroupView> {
    Seq::new(groups.len(), |i: int| groups[i]@)
}

/// Why unlabeled transactions were not grouped.
#[derive(Debug)]
pub enum GroupStop {
    /// A row cannot be read.
    Store(StoreError),
    /// A sum or a count is too large for 64 bits.
    OutOfRange,
}

pub ghost enum GroupStopView {
    Store(StoreErrorView),
    OutOfRange,
}

impl View for GroupStop {
    type V = GroupStopView;

    open spec fn view(&self) -> GroupStopView {
        match *self {
            GroupStop::Store(e) => GroupStopView::Store(e@),
            GroupStop::OutOfRange => GroupStopView::OutOfRange,
        }
    }
}

/// An unlabeled transaction as it is read.
#[verifier::ext_equal]
pub ghost struct UnlabeledView {
    pub norm: Seq<char>,
    pub raw: Seq<char>,
    pub hit: MerchantHitView,
}

pub open spec fn unlabeled_columns() -> Seq<Column> {
    seq![
        Column::Text,
        Column::Text,
        Column::Text,
        Column::Text,
        Column::Integer,
        Column::Direction,
    ]
}

/// The unlabeled transaction that a row holds.
pub open spec fn unlabeled_of(row: Seq<SqlView>) -> Result<UnlabeledView, StoreErrorView> {
    match row_error(row, unlabeled_columns(), 0) {
        Some(e) => Err(e),
        None => Ok(
            UnlabeledView {
                norm: text_of(row[0]),
                raw: text_of(row[1]),
                hit: MerchantHitView {
                    date: text_of(row[3]),
                    amount_minor: integer_of(row[4]),
                    direction: Direction::of_text(text_of(row[5]))->0,
                    extra: text_of(row[2]),
                },
            },
        ),
    }
}

/// The transactions of one merchant, in order.
pub open spec fn hits_of(txns: Seq<UnlabeledView>, norm: Seq<char>) -> Seq<MerchantHitView>
    decreases txns.len(),
{
    if txns.len() == 0 {
        Seq::empty()
    } else if txns.last().norm == norm {
        hits_of(txns.drop_last(), norm).push(txns.last().hit)
    } else {
        hits_of(txns.drop_last(), norm)
    }
}

/// The sum of transactions in one direction.
pub open spec fn hit_total(hits: Seq<MerchantHitView>, direction: Direction) -> int
    decreases hits.len(),
{
    if hits.len() == 0 {
        0
    } else {
        hit_total(hits.drop_last(), direction) + if hits.last().direction == direction {
            hits.last().amount_minor as int
        } else {
            0
        }
    }
}

/// The first name, in the order of texts, under which a merchant appears.
pub open spec fn sample_of(txns: Seq<UnlabeledView>, norm: Seq<char>) -> Seq<char>
    decreases txns.len(),
{
    if txns.len() == 0 {
        Seq::empty()
    } else if txns.last().norm != norm {
        sample_of(txns.drop_last(), norm)
    } else if hits_of(txns.drop_last(), norm).len() == 0 || text_less(
        txns.last().raw,
        sample_of(txns.drop_last(), norm),
    ) {
        txns.last().raw
    } else {
        sample_of(txns.drop_last(), norm)
    }
}

/// The group of one merchant.
pub open spec fn group_of(txns: Seq<UnlabeledView>, norm: Seq<char>) -> MerchantGroupView {
    let hits = hits_of(txns, norm);
    MerchantGroupView {
        merchant_norm: norm,
        sample_raw: sample_of(txns, norm),
        count: hits.len() as i64,
        debit_minor: hit_total(hits, Direction::Debit) as i64,
        credit_minor: hit_total(hits, Direction::Credit) as i64,
        hits,
    }
}

/// 64 bits hold the sums and the count of one merchant.
pub open spec fn group_fits(txns: Seq<UnlabeledView>, norm: Seq<char>) -> bool {
    let hits = hits_of(txns, norm);
    &&& hits.len() <= i64::MAX
    &&& i64::MIN <= hit_total(hits, Direction::Debit) <= i64::MAX
    &&& i64::MIN <= hit_total(hits, Direction::Credit) <= i64::MAX
}

/// The transactions that rows hold, as far as 64 bits hold their sums.
pub open spec fn unlabeled_in(rows: Seq<Seq<SqlView>>) -> Result<Seq<UnlabeledView>, GroupStopView>
    decreases rows.len(),
{
    if rows.len() == 0 {
        Ok(Seq::empty())
    } else {
        match unlabeled_in(rows.drop_last()) {
            Err(stop) => Err(stop),
            Ok(txns) => match unlabeled_of(rows.last()) {
                Err(e) => Err(GroupStopView::Store(e)),
                Ok(txn) => if group_fits(txns.push(txn), txn.norm) {
                    Ok(txns.push(txn))
                } else {
                    Err(GroupStopView::OutOfRange)
                },
            },
        }
    }
}

/// The order of groups: the largest first, those of one size by merchant.
pub open spec fn comes_before(a: MerchantGroupView, b: MerchantGroupView) -> bool {
    a.count > b.count || (a.count == b.count && text_less(a.merchant_norm, b.merchant_norm))
}

/// Groups in order, no two of one merchant.
pub open spec fn in_order(groups: Seq<MerchantGroupView>) -> bool {
    forall|i: int, j: int| 0 <= i < j < groups.len() ==> comes_before(groups[i], groups[j])
}

/// The groups are those of the transactions' merchants, and each is its
/// merchant's.
pub open spec fn covers(groups: Seq<MerchantGroupView>, txns: Seq<UnlabeledView>) -> bool {
    &&& forall|i: int|
        0 <= i < groups.len() ==> #[trigger] groups[i] == group_of(txns, groups[i].merchant_norm)
            && groups[i].hits.len() > 0
    &&& forall|k: int| 0 <= k < txns.len() ==> names(groups, (#[trigger] txns[k]).norm)
}

/// One of the groups is this merchant's.
pub open spec fn names(groups: Seq<MerchantGroupView>, norm: Seq<char>) -> bool {
    exists|i: int| 0 <= i < groups.len() && (#[trigger] groups[i]).merchant_norm == norm
}

/// Groups are known by their merchants.
spec fn distinct(groups: Seq<MerchantGroupView>) -> bool {
    forall|i: int, j: int|
        0 <= i < j < groups.len() ==> groups[i].merchant_norm != groups[j].merchant_norm
}

struct Unlabeled {
    norm: String,
    raw: String,
    hit: MerchantHit,
}

impl Unlabeled {
    spec fn view(&self) -> UnlabeledView {
        UnlabeledView { norm: self.norm@, raw: self.raw@, hit: self.hit@ }
    }
}

fn unlabeled_from(row: &[SqlValue]) -> (r: Result<Unlabeled, StoreError>)
    ensures
        match r {
            Ok(txn) => unlabeled_of(value_views(row@)) == Ok::<UnlabeledView, StoreErrorView>(
                txn.view(),
            ),
            Err(e) => unlabeled_of(value_views(row@)) == Err::<UnlabeledView, StoreErrorView>(e@),
        },
{
    let columns = vec![
        Column::Text,
        Column::Text,
        Column::Text,
        Column::Text,
        Column::Integer,
        Column::Direction,
    ];
    proof {
        assert(columns@ =~= unlabeled_columns());
        assert(value_views(row@).len() == row@.len());
    }
    if let Some(e) = check_row(row, &columns) {
        return Err(e);
    }
    Ok(
        Unlabeled {
            norm: take_text(&row[0]),
            raw: take_text(&row[1]),
            hit: MerchantHit {
                date: take_text(&row[3]),
                amount_minor: take_integer(&row[4]),
                direction: take_direction(&row[5]),
                extra: take_text(&row[2]),
            },
        },
    )
}

fn place(groups: &[MerchantGroup], norm: &str) -> (r: Option<usize>)
    ensures
        match r {
            Some(at) => at < groups.len() && groups@[at as int].merchant_norm@ == norm@,
            None => forall|i: int|
                0 <= i < groups.len() ==> (#[trigger] groups@[i]).merchant_norm@ != norm@,
        },
{
    let mut i: usize = 0;
    while i < groups.len()
        invariant
            i <= groups.len(),
            forall|j: int| 0 <= j < i ==> (#[trigger] groups@[j]).merchant_norm@ != norm@,
        decreases groups.len() - i,
    {
        if same_str(groups[i].merchant_norm.as_str(), norm) {
            return Some(i);
        }
        i += 1;
    }
    None
}

/// A merchant that no group is of has no transactions.
proof fn no_group_no_hits(
    groups: Seq<MerchantGroupView>,
    txns: Seq<UnlabeledView>,
    norm: Seq<char>,
)
    requires
        covers(groups, txns),
        forall|i: int| 0 <= i < groups.len() ==> (#[trigger] groups[i]).merchant_norm != norm,
    ensures
        hits_of(txns, norm).len() == 0,
{
    assert forall|k: int| 0 <= k < txns.len() implies (#[trigger] txns[k]).norm != norm by {
        let i = choose|i: int|
            0 <= i < groups.len() && (#[trigger] groups[i]).merchant_norm == txns[k].norm;
        assert(groups[i].merchant_norm != norm);
    }
    absent_merchant(txns, norm);
}

proof fn absent_merchant(txns: Seq<UnlabeledView>, norm: Seq<char>)
    requires
        forall|k: int| 0 <= k < txns.len() ==> (#[trigger] txns[k]).norm != norm,
    ensures
        hits_of(txns, norm).len() == 0,
    decreases txns.len(),
{
    if txns.len() > 0 {
        assert(txns.last() == txns[txns.len() - 1]);
        assert forall|k: int| 0 <= k < txns.drop_last().len() implies (
        #[trigger] txns.drop_last()[k]).norm != norm by {
            assert(txns.drop_last()[k] == txns[k]);
        }
        absent_merchant(txns.drop_last(), norm);
    }
}

/// Another merchant's transaction leaves a group as it is.
proof fn other_group_stays(txns: Seq<UnlabeledView>, txn: UnlabeledView, norm: Seq<char>)
    requires
        txn.norm != norm,
    ensures
        group_of(txns.push(txn), norm) == group_of(txns, norm),
{
    assert(txns.push(txn).drop_last() =~= txns);
}

proof fn hit_total_push(hits: Seq<MerchantHitView>, hit: MerchantHitView, direction: Direction)
    ensures
        hit_total(hits.push(hit), direction) == hit_total(hits, direction)
            + if hit.direction == direction {
            hit.amount_minor as int
        } else {
            0
        },
{
    assert(hits.push(hit).drop_last() =~= hits);
}

/// Puts a transaction to its group; `false` where 64 bits do not hold the
/// group's sums any more.
fn add_hit(groups: &mut Vec<MerchantGroup>, txn: Unlabeled, Ghost(txns): Ghost<
    Seq<UnlabeledView>,
>) -> (r: bool)
    requires
        covers(group_views(old(groups)@), txns),
        distinct(group_views(old(groups)@)),
        forall|norm: Seq<char>| #[trigger] group_fits(txns, norm),
    ensures
        r == group_fits(txns.push(txn.view()), txn.view().norm),
        r ==> covers(group_views(final(groups)@), txns.push(txn.view())),
        r ==> distinct(group_views(final(groups)@)),
{
    let ghost v = txn.view();
    let ghost all = txns.push(v);
    let ghost was = group_views(groups@);
    proof {
        assert(all.drop_last() =~= txns);
        assert(all.last() == v);
        assert(hits_of(all, v.norm) =~= hits_of(txns, v.norm).push(v.hit));
        hit_total_push(hits_of(txns, v.norm), v.hit, Direction::Debit);
        hit_total_push(hits_of(txns, v.norm), v.hit, Direction::Credit);
        assert(group_fits(txns, v.norm));
    }
    match place(groups, txn.norm.as_str()) {
        Some(at) => {
            proof {
                assert(was[at as int] == group_of(txns, v.norm));
            }
            let mut group = groups.remove(at);
            let ghost rest = groups@;
            if group.count == i64::MAX {
                return false;
            }
            match txn.hit.direction {
                Direction::Debit => match group.debit_minor.checked_add(txn.hit.amount_minor) {
                    Some(sum) => {
                        group.debit_minor = sum;
                    },
                    None => {
                        return false;
                    },
                },
                Direction::Credit => match group.credit_minor.checked_add(txn.hit.amount_minor) {
                    Some(sum) => {
                        group.credit_minor = sum;
                    },
                    None => {
                        return false;
                    },
                },
            }
            group.count = group.count + 1;
            if less(txn.raw.as_str(), group.sample_raw.as_str()) {
                group.sample_raw = txn.raw;
            }
            let ghost before = group.hits@;
            group.hits.push(txn.hit);
            proof {
                assert(hit_views(group.hits@) =~= hit_views(before).push(v.hit));
                assert(group@ =~= group_of(all, v.norm));
            }
            groups.insert(at, group);
            proof {
                let now = group_views(groups@);
                assert(now =~= was.update(at as int, group@));
                assert forall|i: int| 0 <= i < now.len() implies #[trigger] now[i] == group_of(
                    all,
                    now[i].merchant_norm,
                ) && now[i].hits.len() > 0 by {
                    if i != at {
                        assert(now[i] == was[i]);
                        assert(was[i].merchant_norm != was[at as int].merchant_norm);
                        other_group_stays(txns, v, now[i].merchant_norm);
                    }
                }
                assert forall|k: int| 0 <= k < all.len() implies names(
                    now,
                    (#[trigger] all[k]).norm,
                ) by {
                    if k < txns.len() {
                        assert(all[k] == txns[k]);
                        let i = choose|i: int|
                            0 <= i < was.len() && (#[trigger] was[i]).merchant_norm
                                == txns[k].norm;
                        assert(now[i].merchant_norm == was[i].merchant_norm);
                    } else {
                        assert(now[at as int].merchant_norm == v.norm);
                    }
                }
            }
            true
        },
        None => {
            proof {
                assert forall|i: int| 0 <= i < was.len() implies (
                #[trigger] was[i]).merchant_norm != v.norm by {
                    assert(groups@[i].merchant_norm@ != v.norm);
                }
                no_group_no_hits(was, txns, v.norm);
                assert(hits_of(txns, v.norm) =~= Seq::<MerchantHitView>::empty());
            }
            let amount = txn.hit.amount_minor;
            let direction = txn.hit.direction;
            let mut hits: Vec<MerchantHit> = Vec::new();
            hits.push(txn.hit);
            let group = MerchantGroup {
                merchant_norm: txn.norm,
                sample_raw: txn.raw,
                count: 1,
                debit_minor: if direction == Direction::Debit {
                    amount
                } else {
                    0
                },
                credit_minor: if direction == Direction::Credit {
                    amount
                } else {
                    0
                },
                hits,
            };
            proof {
                assert(hit_views(hits@) =~= seq![v.hit]);
                assert(hits_of(all, v.norm) =~= seq![v.hit]);
                assert(group@ =~= group_of(all, v.norm));
            }
            groups.push(group);
            proof {
                let now = group_views(groups@);
                assert(now =~= was.push(group@));
                assert forall|i: int| 0 <= i < now.len() implies #[trigger] now[i] == group_of(
                    all,
                    now[i].merchant_norm,
                ) && now[i].hits.len() > 0 by {
                    if i < was.len() {
                        assert(now[i] == was[i]);
                        other_group_stays(txns, v, now[i].merchant_norm);
                    }
                }
                assert forall|k: int| 0 <= k < all.len() implies names(
                    now,
                    (#[trigger] all[k]).norm,
                ) by {
                    if k < txns.len() {
                        assert(all[k] == txns[k]);
                        let i = choose|i: int|
                            0 <= i < was.len() && (#[trigger] was[i]).merchant_norm
                                == txns[k].norm;
                        assert(now[i] == was[i]);
                    } else {
                        assert(now[was.len() as int].merchant_norm == v.norm);
                    }
                }
            }
            true
        },
    }
}

proof fn order_is_total(a: MerchantGroupView, b: MerchantGroupView)
    requires
        a.merchant_norm != b.merchant_norm,
    ensures
        comes_before(a, b) || comes_before(b, a),
{
    text_less_total(a.merchant_norm, b.merchant_norm);
}

proof fn order_is_transitive(a: MerchantGroupView, b: MerchantGroupView, c: MerchantGroupView)
    requires
        comes_before(a, b),
        comes_before(b, c),
    ensures
        comes_before(a, c),
{
    if a.count == b.count && b.count == c.count {
        text_less_transitive(a.merchant_norm, b.merchant_norm, c.merchant_norm);
    }
}

fn before_group(a: &MerchantGroup, b: &MerchantGroup) -> (r: bool)
    ensures
        r == comes_before(a@, b@),
{
    a.count > b.count || (a.count == b.count && less(
        a.merchant_norm.as_str(),
        b.merchant_norm.as_str(),
    ))
}

/// Puts a group to its place among groups in order.
fn insert_group(out: &mut Vec<MerchantGroup>, group: MerchantGroup)
    requires
        in_order(group_views(old(out)@)),
        forall|i: int|
            0 <= i < old(out)@.len() ==> (#[trigger] old(out)@[i]).merchant_norm@
                != group.merchant_norm@,
    ensures
        in_order(group_views(final(out)@)),
        exists|p: int|
            0 <= p <= old(out)@.len() && final(out)@ == #[trigger] old(out)@.insert(p, group),
{
    let ghost was = group_views(out@);
    let mut p: usize = 0;
    while p < out.len() && !before_group(&group, &out[p])
        invariant
            p <= out.len(),
            was == group_views(out@),
            forall|i: int| 0 <= i < p ==> !comes_before(group@, #[trigger] was[i]),
        decreases out.len() - p,
    {
        proof {
            assert(was[p as int] == out@[p as int]@);
        }
        p += 1;
    }
    proof {
        if p < out.len() {
            assert(was[p as int] == out@[p as int]@);
        }
        assert(out@.insert(p as int, group).len() == out@.len() + 1);
    }
    out.insert(p, group);
    proof {
        let now = group_views(out@);
        assert(now =~= was.insert(p as int, group@));
        assert forall|i: int, j: int| 0 <= i < j < now.len() implies comes_before(
            now[i],
            now[j],
        ) by {
            if i < p && j == p {
                assert(old(out)@[i].merchant_norm@ != group.merchant_norm@);
                assert(now[i] == was[i]);
                order_is_total(was[i], group@);
            } else if i < p && j > p {
                assert(now[i] == was[i] && now[j] == was[j - 1]);
            } else if i == p {
                assert(now[j] == was[j - 1]);
                if j - 1 > p {
                    order_is_transitive(group@, was[p as int], was[j - 1]);
                }
            } else if i > p {
                assert(now[i] == was[i - 1] && now[j] == was[j - 1]);
            } else {
                assert(now[i] == was[i] && now[j] == was[j]);
            }
        }
    }
}

/// Puts groups in order.
fn sort_groups(groups: Vec<MerchantGroup>, Ghost(txns): Ghost<Seq<UnlabeledView>>) -> (r: Vec<
    MerchantGroup,
>)
    requires
        covers(group_views(groups@), txns),
        distinct(group_views(groups@)),
    ensures
        covers(group_views(r@), txns),
        in_order(group_views(r@)),
{
    let ghost all = groups@;
    let mut left = groups;
    let mut out: Vec<MerchantGroup> = Vec::new();
    proof {
        assert(all.take(all.len() as int) =~= all);
    }
    while left.len() > 0
        invariant
            left@.len() <= all.len(),
            left@ == all.take(left@.len() as int),
            distinct(group_views(all)),
            in_order(group_views(out@)),
            forall|i: int|
                0 <= i < out@.len() ==> exists|j: int|
                    left@.len() <= j < all.len() && (#[trigger] out@[i]) == (#[trigger] all[j]),
            forall|j: int|
                left@.len() <= j < all.len() ==> exists|i: int|
                    0 <= i < out@.len() && (#[trigger] out@[i]) == (#[trigger] all[j]),
        decreases left.len(),
    {
        let ghost n = left@.len() - 1;
        let ghost was = out@;
        let group = left.pop().unwrap();
        proof {
            assert(group == all[n]);
            assert(left@ =~= all.take(n));
            assert forall|i: int| 0 <= i < out@.len() implies (
            #[trigger] out@[i]).merchant_norm@ != group.merchant_norm@ by {
                let j = choose|j: int|
                    n + 1 <= j < all.len() && out@[i] == (#[trigger] all[j]);
                assert(group_views(all)[n].merchant_norm != group_views(all)[j].merchant_norm);
            }
        }
        insert_group(&mut out, group);
        proof {
            let p = choose|p: int| 0 <= p <= was.len() && out@ == #[trigger] was.insert(p, group);
            assert forall|i: int| 0 <= i < out@.len() implies exists|j: int|
                n <= j < all.len() && (#[trigger] out@[i]) == (#[trigger] all[j]) by {
                if i == p {
                    assert(out@[i] == all[n]);
                } else {
                    let k = if i < p {
                        i
                    } else {
                        i - 1
                    };
                    assert(out@[i] == was[k]);
                    let j = choose|j: int|
                        n + 1 <= j < all.len() && was[k] == (#[trigger] all[j]);
                    assert(out@[i] == all[j]);
                }
            }
            assert forall|j: int| n <= j < all.len() implies exists|i: int|
                0 <= i < out@.len() && (#[trigger] out@[i]) == (#[trigger] all[j]) by {
                if j == n {
                    assert(out@[p] == all[n]);
                } else {
                    let k = choose|k: int|
                        0 <= k < was.len() && (#[trigger] was[k]) == all[j];
                    if k < p {
                        assert(out@[k] == all[j]);
                    } else {
                        assert(out@[k + 1] == all[j]);
                    }
                }
            }
        }
    }
    proof {
        let now = group_views(out@);
        let was = group_views(all);
        assert forall|i: int| 0 <= i < now.len() implies #[trigger] now[i] == group_of(
            txns,
            now[i].merchant_norm,
        ) && now[i].hits.len() > 0 by {
            let j = choose|j: int| 0 <= j < all.len() && out@[i] == (#[trigger] all[j]);
            assert(now[i] == was[j]);
        }
        assert forall|k: int| 0 <= k < txns.len() implies names(
                    now,
                    (#[trigger] txns[k]).norm,
                ) by {
            let j = choose|j: int|
                0 <= j < was.len() && (#[trigger] was[j]).merchant_norm == txns[k].norm;
            let i = choose|i: int| 0 <= i < out@.len() && (#[trigger] out@[i]) == all[j];
            assert(now[i] == was[j]);
        }
        assert(covers(now, txns));
    }
    out
}

proof fn unlabeled_stops(rows: Seq<Seq<SqlView>>, n: int)
    requires
        0 <= n <= rows.len(),
        unlabeled_in(rows.take(n)) is Err,
    ensures
        unlabeled_in(rows) == unlabeled_in(rows.take(n)),
    decreases rows.len() - n,
{
    if n < rows.len() {
        assert(rows.take(n + 1).drop_last() =~= rows.take(n));
        unlabeled_stops(rows, n + 1);
    } else {
        assert(rows.take(n) =~= rows);
    }
}

/// Groups the unlabeled transactions that rows hold.
pub fn unlabeled_groups(rows: &[Vec<SqlValue>]) -> (r: Result<Vec<MerchantGroup>, GroupStop>)
    ensures
        match r {
            Ok(groups) => unlabeled_in(row_views(rows@)) is Ok && in_order(
                group_views(groups@),
            ) && covers(group_views(groups@), unlabeled_in(row_views(rows@))->Ok_0),
            Err(stop) => unlabeled_in(row_views(rows@)) == Err::<
                Seq<UnlabeledView>,
                GroupStopView,
            >(stop@),
        },
{
    let ghost all = row_views(rows@);
    let ghost mut txns: Seq<UnlabeledView> = Seq::empty();
    let mut groups: Vec<MerchantGroup> = Vec::new();
    let mut i: usize = 0;
    proof {
        assert(all.take(0) =~= Seq::<Seq<SqlView>>::empty());
    }
    while i < rows.len()
        invariant
            i <= rows.len(),
            all == row_views(rows@),
            unlabeled_in(all.take(i as int)) == Ok::<Seq<UnlabeledView>, GroupStopView>(txns),
            covers(group_views(groups@), txns),
            distinct(group_views(groups@)),
            forall|norm: Seq<char>| #[trigger] group_fits(txns, norm),
        decreases rows.len() - i,
    {
        proof {
            assert(all.take(i as int + 1).drop_last() =~= all.take(i as int));
            assert(all.take(i as int + 1).last() == value_views(rows@[i as int]@));
        }
        let txn = match unlabeled_from(&rows[i]) {
            Ok(txn) => txn,
            Err(e) => {
                proof {
                    unlabeled_stops(all, i as int + 1);
                }
                return Err(GroupStop::Store(e));
            },
        };
        let ghost v = txn.view();
        if !add_hit(&mut groups, txn, Ghost(txns)) {
            proof {
                unlabeled_stops(all, i as int + 1);
            }
            return Err(GroupStop::OutOfRange);
        }
        proof {
            let now = txns.push(v);
            assert forall|norm: Seq<char>| #[trigger] group_fits(now, norm) by {
                assert(group_fits(txns, norm));
                assert(now.drop_last() =~= txns);
            }
            txns = now;
        }
        i += 1;
    }
    proof {
        assert(all.take(all.len() as int) =~= all);
    }
    Ok(sort_groups(groups, Ghost(txns)))
}

/// Two lists of groups in order that are of the same transactions are the
/// same: grouping leaves nothing open.
pub proof fn grouping_is_unique(
    a: Seq<MerchantGroupView>,
    b: Seq<MerchantGroupView>,
    txns: Seq<UnlabeledView>,
)
    requires
        in_order(a),
        in_order(b),
        covers(a, txns),
        covers(b, txns),
    ensures
        a == b,
    decreases a.len(),
{
    groups_within(a, b, txns);
    groups_within(b, a, txns);
    same_order(a, b, 0);
    same_order(b, a, 0);
    assert(a =~= b);
}

/// Each group of one list stands in the other.
proof fn groups_within(
    a: Seq<MerchantGroupView>,
    b: Seq<MerchantGroupView>,
    txns: Seq<UnlabeledView>,
)
    requires
        covers(a, txns),
        covers(b, txns),
    ensures
        forall|i: int| 0 <= i < a.len() ==> b.contains(#[trigger] a[i]),
{
    assert forall|i: int| 0 <= i < a.len() implies b.contains(#[trigger] a[i]) by {
        let norm = a[i].merchant_norm;
        assert(a[i] == group_of(txns, norm));
        let k = merchant_place(txns, norm);
        let j = choose|j: int|
            0 <= j < b.len() && (#[trigger] b[j]).merchant_norm == txns[k].norm;
        assert(b[j] == group_of(txns, norm));
    }
}

proof fn merchant_place(txns: Seq<UnlabeledView>, norm: Seq<char>) -> (k: int)
    requires
        hits_of(txns, norm).len() > 0,
    ensures
        0 <= k < txns.len(),
        txns[k].norm == norm,
    decreases txns.len(),
{
    if txns.last().norm == norm {
        txns.len() - 1
    } else {
        merchant_place(txns.drop_last(), norm)
    }
}

/// Lists in order that hold the same groups agree place by place.
proof fn same_order(a: Seq<MerchantGroupView>, b: Seq<MerchantGroupView>, n: int)
    requires
        in_order(a),
        in_order(b),
        0 <= n <= a.len(),
        forall|i: int| 0 <= i < a.len() ==> b.contains(#[trigger] a[i]),
        forall|i: int| 0 <= i < b.len() ==> a.contains(#[trigger] b[i]),
        n <= b.len(),
        forall|i: int| 0 <= i < n ==> a[i] == b[i],
    ensures
        a.len() <= b.len(),
        forall|i: int| 0 <= i < a.len() ==> a[i] == b[i],
    decreases a.len() - n,
{
    if n < a.len() {
        assert(b.contains(a[n]));
        let j = choose|j: int| 0 <= j < b.len() && b[j] == a[n];
        if j < n {
            assert(a[j] == a[n]);
            assert(comes_before(a[j], a[n]));
            text_less_total(a[n].merchant_norm, a[n].merchant_norm);
        }
        if j > n {
            assert(a.contains(b[n]));
            let k = choose|k: int| 0 <= k < a.len() && a[k] == b[n];
            assert(comes_before(b[n], b[j]));
            if k < n {
                assert(b[k] == b[n]);
                assert(comes_before(b[k], b[n]));
                text_less_total(b[n].merchant_norm, b[n].merchant_norm);
            } else if k > n {
                assert(comes_before(a[n], a[k]));
                order_is_transitive(a[n], a[k], a[n]);
                text_less_total(a[n].merchant_norm, a[n].merchant_norm);
            } else {
                text_less_total(a[n].merchant_norm, a[n].merchant_norm);
            }
        }
        same_order(a, b, n + 1);
    }
}

/// Every unlabeled transaction is in the group of its merchant, once: the
/// groups' counts add up to the number of transactions.
pub proof fn groups_count_every_transaction(
    groups: Seq<MerchantGroupView>,
    txns: Seq<UnlabeledView>,
)
    requires
        in_order(groups),
        covers(groups, txns),
    ensures
        hit_count(groups) == txns.len(),
{
    assert(distinct(groups)) by {
        assert forall|i: int, j: int| 0 <= i < j < groups.len() implies groups[i].merchant_norm
            != groups[j].merchant_norm by {
            assert(comes_before(groups[i], groups[j]));
            if groups[i].merchant_norm == groups[j].merchant_norm {
                assert(groups[i] == group_of(txns, groups[i].merchant_norm));
                assert(groups[j] == group_of(txns, groups[j].merchant_norm));
                text_less_total(groups[i].merchant_norm, groups[i].merchant_norm);
            }
        }
    }
    let norms = Seq::new(groups.len(), |i: int| groups[i].merchant_norm);
    assert forall|k: int| 0 <= k < txns.len() implies norms.contains((#[trigger] txns[k]).norm) by {
        let i = choose|i: int|
            0 <= i < groups.len() && (#[trigger] groups[i]).merchant_norm == txns[k].norm;
        assert(norms[i] == txns[k].norm);
    }
    hits_over_norms(txns, norms);
    counts_agree(groups, txns, groups.len() as int);
    assert(norms.take(norms.len() as int) =~= norms);
    assert(groups.take(groups.len() as int) =~= groups);
}

/// The number of transactions in groups.
pub open spec fn hit_count(groups: Seq<MerchantGroupView>) -> nat
    decreases groups.len(),
{
    if groups.len() == 0 {
        0
    } else {
        hit_count(groups.drop_last()) + groups.last().hits.len()
    }
}

spec fn count_over(txns: Seq<UnlabeledView>, norms: Seq<Seq<char>>) -> nat
    decreases norms.len(),
{
    if norms.len() == 0 {
        0
    } else {
        count_over(txns, norms.drop_last()) + hits_of(txns, norms.last()).len()
    }
}

proof fn counts_agree(groups: Seq<MerchantGroupView>, txns: Seq<UnlabeledView>, n: int)
    requires
        0 <= n <= groups.len(),
        covers(groups, txns),
    ensures
        hit_count(groups.take(n)) == count_over(
            txns,
            Seq::new(groups.len(), |i: int| groups[i].merchant_norm).take(n),
        ),
    decreases n,
{
    let norms = Seq::new(groups.len(), |i: int| groups[i].merchant_norm);
    if n > 0 {
        counts_agree(groups, txns, n - 1);
        assert(groups.take(n).drop_last() =~= groups.take(n - 1));
        assert(norms.take(n).drop_last() =~= norms.take(n - 1));
        assert(groups.take(n).last() == groups[n - 1]);
        assert(norms.take(n).last() == groups[n - 1].merchant_norm);
        assert(groups[n - 1] == group_of(txns, groups[n - 1].merchant_norm));
    }
}

/// Over distinct merchants that name every transaction's, each transaction
/// counts once.
proof fn hits_over_norms(txns: Seq<UnlabeledView>, norms: Seq<Seq<char>>)
    requires
        forall|i: int, j: int| 0 <= i < j < norms.len() ==> norms[i] != norms[j],
        forall|k: int| 0 <= k < txns.len() ==> norms.contains((#[trigger] txns[k]).norm),
    ensures
        count_over(txns, norms) == txns.len(),
    decreases txns.len(),
{
    if txns.len() == 0 {
        no_txns_no_count(norms);
        assert(txns =~= Seq::<UnlabeledView>::empty());
    } else {
        let rest = txns.drop_last();
        assert forall|k: int| 0 <= k < rest.len() implies norms.contains(
            (#[trigger] rest[k]).norm,
        ) by {
            assert(rest[k] == txns[k]);
        }
        hits_over_norms(rest, norms);
        assert(norms.contains(txns[txns.len() - 1].norm));
        let p = choose|p: int| 0 <= p < norms.len() && norms[p] == txns.last().norm;
        one_more(txns, norms, norms.len() as int, p);
        assert(norms.take(norms.len() as int) =~= norms);
    }
}

proof fn no_txns_no_count(norms: Seq<Seq<char>>)
    ensures
        count_over(Seq::empty(), norms) == 0,
    decreases norms.len(),
{
    if norms.len() > 0 {
        no_txns_no_count(norms.drop_last());
    }
}

proof fn one_more(txns: Seq<UnlabeledView>, norms: Seq<Seq<char>>, n: int, p: int)
    requires
        txns.len() > 0,
        0 <= n <= norms.len(),
        0 <= p < norms.len(),
        norms[p] == txns.last().norm,
        forall|i: int, j: int| 0 <= i < j < norms.len() ==> norms[i] != norms[j],
    ensures
        count_over(txns, norms.take(n)) == count_over(txns.drop_last(), norms.take(n)) + if p
            < n {
            1nat
        } else {
            0
        },
    decreases n,
{
    if n > 0 {
        one_more(txns, norms, n - 1, p);
        assert(norms.take(n).drop_last() =~= norms.take(n - 1));
        assert(norms.take(n).last() == norms[n - 1]);
        if n - 1 != p {
            assert(norms[n - 1] != norms[p]);
        }
    }
}

} // verus!
