//! Laws of the groups of transactions without a label.

use crate::parse::Direction;
use crate::store::groups::{comes_before, covers, group_fits, group_of, hit_total, hits_of, in_order,
    sample_of, MerchantGroupView, MerchantHitView, UnlabeledView};
use crate::text::{text_less, text_less_total, text_less_transitive};
use vstd::prelude::*;

verus! {

/// What the amounts of transactions come to in one direction.
pub open spec fn sum_of(hits: Seq<MerchantHitView>, direction: Direction) -> int
    decreases hits.len(),
{
    if hits.len() == 0 {
        0
    } else if hits[0].direction == direction {
        hits[0].amount_minor + sum_of(hits.skip(1), direction)
    } else {
        sum_of(hits.skip(1), direction)
    }
}

proof fn sum_of_one_more(hits: Seq<MerchantHitView>, direction: Direction)
    requires
        hits.len() > 0,
    ensures
        sum_of(hits, direction) == sum_of(hits.drop_last(), direction) + if hits.last().direction
            == direction {
            hits.last().amount_minor as int
        } else {
            0
        },
    decreases hits.len(),
{
    if hits.len() > 1 {
        sum_of_one_more(hits.skip(1), direction);
        assert(hits.skip(1).drop_last() =~= hits.drop_last().skip(1));
        assert(hits.drop_last()[0] == hits[0]);
    } else {
        assert(sum_of(hits.skip(1), direction) == 0);
        assert(sum_of(hits.drop_last(), direction) == 0);
    }
}

proof fn total_is_the_sum(hits: Seq<MerchantHitView>, direction: Direction)
    ensures
        hit_total(hits, direction) == sum_of(hits, direction),
    decreases hits.len(),
{
    if hits.len() > 0 {
        total_is_the_sum(hits.drop_last(), direction);
        sum_of_one_more(hits, direction);
    }
}

proof fn hits_are_picked(txns: Seq<UnlabeledView>, norm: Seq<char>)
    ensures
        hits_of(txns, norm) == txns.filter(|x: UnlabeledView| x.norm == norm).map_values(
            |x: UnlabeledView| x.hit,
        ),
    decreases txns.len(),
{
    reveal(Seq::filter);
    let of_norm = |x: UnlabeledView| x.norm == norm;
    let hit = |x: UnlabeledView| x.hit;
    if txns.len() > 0 {
        hits_are_picked(txns.drop_last(), norm);
    }
    assert(hits_of(txns, norm) =~= txns.filter(of_norm).map_values(hit));
}

proof fn sample_is_the_first_name(txns: Seq<UnlabeledView>, norm: Seq<char>)
    ensures
        hits_of(txns, norm).len() > 0 ==> exists|i: int|
            0 <= i < txns.len() && (#[trigger] txns[i]).norm == norm && txns[i].raw == sample_of(
                txns,
                norm,
            ),
        forall|i: int|
            0 <= i < txns.len() && (#[trigger] txns[i]).norm == norm ==> !text_less(
                txns[i].raw,
                sample_of(txns, norm),
            ) && hits_of(txns, norm).len() > 0,
    decreases txns.len(),
{
    if txns.len() > 0 {
        let init = txns.drop_last();
        let last = txns.len() - 1;
        let sample = sample_of(init, norm);
        sample_is_the_first_name(init, norm);
        if hits_of(init, norm).len() > 0 {
            let i = choose|i: int|
                0 <= i < init.len() && (#[trigger] init[i]).norm == norm && init[i].raw == sample;
            assert(txns[i].norm == norm && txns[i].raw == sample);
        }
        if txns[last].norm == norm {
            text_less_total(txns[last].raw, txns[last].raw);
            text_less_total(txns[last].raw, sample);
        }
        assert forall|i: int| 0 <= i < txns.len() && (#[trigger] txns[i]).norm
            == norm implies !text_less(txns[i].raw, sample_of(txns, norm)) && hits_of(
            txns,
            norm,
        ).len() > 0 by {
            if i < last {
                assert(init[i] == txns[i]);
                assert(!text_less(txns[i].raw, sample));
                if txns[last].norm == norm && text_less(txns[last].raw, sample) {
                    if text_less(txns[i].raw, txns[last].raw) {
                        text_less_transitive(txns[i].raw, txns[last].raw, sample);
                    }
                }
            }
        }
    }
}

/// A group has the transactions of its merchant, in their order: so many as it
/// says, with what their debits and their credits come to. It is shown under the
/// first of the names that they are written with.
pub proof fn group_tells_its_transactions(txns: Seq<UnlabeledView>, norm: Seq<char>)
    requires
        group_fits(txns, norm),
    ensures
        ({
            let group = group_of(txns, norm);
            let own = txns.filter(|x: UnlabeledView| x.norm == norm);
            &&& group.merchant_norm == norm
            &&& group.hits == own.map_values(|x: UnlabeledView| x.hit)
            &&& group.count == own.len()
            &&& group.debit_minor == sum_of(group.hits, Direction::Debit)
            &&& group.credit_minor == sum_of(group.hits, Direction::Credit)
            &&& forall|i: int|
                0 <= i < txns.len() && (#[trigger] txns[i]).norm == norm ==> !text_less(
                    txns[i].raw,
                    group.sample_raw,
                )
            &&& group.hits.len() > 0 ==> exists|i: int|
                0 <= i < txns.len() && (#[trigger] txns[i]).norm == norm && txns[i].raw
                    == group.sample_raw
        }),
{
    hits_are_picked(txns, norm);
    total_is_the_sum(hits_of(txns, norm), Direction::Debit);
    total_is_the_sum(hits_of(txns, norm), Direction::Credit);
    sample_is_the_first_name(txns, norm);
}

/// The groups with more transactions come first and, of as many, those whose
/// key comes first; no two are of one merchant.
pub proof fn groups_come_by_their_size(groups: Seq<MerchantGroupView>, i: int, j: int)
    requires
        in_order(groups),
        0 <= i < j < groups.len(),
    ensures
        groups[i].count >= groups[j].count,
        groups[i].count == groups[j].count ==> text_less(
            groups[i].merchant_norm,
            groups[j].merchant_norm,
        ) && groups[i].merchant_norm != groups[j].merchant_norm,
{
    assert(comes_before(groups[i], groups[j]));
    text_less_total(groups[i].merchant_norm, groups[j].merchant_norm);
}

/// Every transaction without a label is in the group of its merchant.
pub proof fn every_transaction_has_its_group(
    groups: Seq<MerchantGroupView>,
    txns: Seq<UnlabeledView>,
    k: int,
)
    requires
        covers(groups, txns),
        0 <= k < txns.len(),
    ensures
        exists|i: int|
            0 <= i < groups.len() && (#[trigger] groups[i]).merchant_norm == txns[k].norm
                && groups[i].hits.contains(txns[k].hit),
{
    let norm = txns[k].norm;
    let i = choose|i: int| 0 <= i < groups.len() && (#[trigger] groups[i]).merchant_norm == norm;
    assert(groups[i] == group_of(txns, groups[i].merchant_norm));
    hit_is_picked(txns, k);
}

proof fn hit_is_picked(txns: Seq<UnlabeledView>, k: int)
    requires
        0 <= k < txns.len(),
    ensures
        hits_of(txns, txns[k].norm).contains(txns[k].hit),
    decreases txns.len(),
{
    let norm = txns[k].norm;
    let init = txns.drop_last();
    let hits = hits_of(txns, norm);
    if k == txns.len() - 1 {
        assert(hits[hits.len() - 1] == txns[k].hit);
    } else {
        hit_is_picked(init, k);
        let before = hits_of(init, norm);
        let i = choose|i: int| 0 <= i < before.len() && before[i] == txns[k].hit;
        assert(hits[i] == txns[k].hit);
    }
}

} // verus!
