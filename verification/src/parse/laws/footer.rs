//! Laws of the boxes of a footer.

use crate::parse::amount::{reading, AmountReading};
use crate::parse::footer::{boxes_below, boxes_in_row, first_amount, label_key, label_keys,
    next_label, next_label_bound, with_box, with_boxes, FooterBoxes, FooterKey};
use crate::parse::merchant::folded;
use crate::text::contains;
use vstd::prelude::*;

verus! {

/// The box of a footer that a key names.
pub open spec fn box_of(boxes: FooterBoxes, key: FooterKey) -> Option<i64> {
    match key {
        FooterKey::Previous => boxes.previous,
        FooterKey::Spend => boxes.spend,
        FooterKey::Fees => boxes.fees,
        FooterKey::Payments => boxes.payments,
        FooterKey::Debt => boxes.debt,
        FooterKey::DebtUsd => boxes.debt_usd,
    }
}

/// The words by which a cell is told to be a box's label.
pub open spec fn label_words(key: FooterKey) -> Seq<char> {
    match key {
        FooterKey::Previous => "DEVREDEN BAKIYE"@,
        FooterKey::Spend => "HARCAMALARINIZ"@,
        FooterKey::Fees => "CEZA"@,
        FooterKey::Payments => "ODEMELERINIZ"@,
        FooterKey::Debt => "DONEM BORC"@,
        FooterKey::DebtUsd => "DONEM BORC"@,
    }
}

/// A cell says the words of a box's label. The debt in dollars is told from the
/// other by the currency.
pub open spec fn says(cell: Seq<char>, key: FooterKey) -> bool {
    contains(folded(cell), label_words(key)) && match key {
        FooterKey::Debt => !contains(folded(cell), "USD"@),
        FooterKey::DebtUsd => contains(folded(cell), "USD"@),
        _ => true,
    }
}

/// A cell is the label of the one box whose words it says, and of none where it
/// says none of them; where it says several, it is the label of one of these.
pub proof fn label_is_the_box_that_it_says(cell: Seq<char>, key: FooterKey)
    ensures
        says(cell, key) && (forall|other: FooterKey|
            other != key ==> !#[trigger] says(cell, other)) ==> label_key(cell) == Some(key),
        label_key(cell) == Some(key) ==> says(cell, key),
        says(cell, key) ==> label_key(cell) is Some,
{
    let others = forall|other: FooterKey| other != key ==> !#[trigger] says(cell, other);
    if others && says(cell, key) {
        if key != FooterKey::Previous {
            assert(!says(cell, FooterKey::Previous));
        }
        if key != FooterKey::Spend {
            assert(!says(cell, FooterKey::Spend));
        }
        if key != FooterKey::Fees {
            assert(!says(cell, FooterKey::Fees));
        }
        if key != FooterKey::Payments {
            assert(!says(cell, FooterKey::Payments));
        }
        assert(label_key(cell) == Some(key));
    }
}

/// Filling a box in fills that box and no other.
pub proof fn filled_box_is_the_one_named(boxes: FooterBoxes, key: FooterKey, value: i64)
    ensures
        box_of(with_box(boxes, key, value), key) == Some(value),
        forall|other: FooterKey|
            other != key ==> #[trigger] box_of(with_box(boxes, key, value), other) == box_of(
                boxes,
                other,
            ),
{
}

/// Of several amounts for one box the last stays; a box without one stays as it
/// is.
pub proof fn last_amount_of_a_box_stays(
    boxes: FooterBoxes,
    pairs: Seq<(FooterKey, i64)>,
    key: FooterKey,
)
    ensures
        (forall|i: int| 0 <= i < pairs.len() ==> (#[trigger] pairs[i]).0 != key) ==> box_of(
            with_boxes(boxes, pairs),
            key,
        ) == box_of(boxes, key),
        forall|i: int|
            0 <= i < pairs.len() && (#[trigger] pairs[i]).0 == key && (forall|j: int|
                i < j < pairs.len() ==> (#[trigger] pairs[j]).0 != key) ==> box_of(
                with_boxes(boxes, pairs),
                key,
            ) == Some(pairs[i].1),
    decreases pairs.len(),
{
    if pairs.len() > 0 {
        let init = pairs.drop_last();
        let last = pairs.len() - 1;
        last_amount_of_a_box_stays(boxes, init, key);
        filled_box_is_the_one_named(with_boxes(boxes, init), pairs[last].0, pairs[last].1);
        if forall|i: int| 0 <= i < pairs.len() ==> (#[trigger] pairs[i]).0 != key {
            assert forall|i: int| 0 <= i < init.len() implies (#[trigger] init[i]).0 != key by {
                assert(init[i] == pairs[i]);
            }
            assert(pairs[last].0 != key);
        }
        assert forall|i: int|
            0 <= i < pairs.len() && (#[trigger] pairs[i]).0 == key && (forall|j: int|
                i < j < pairs.len() ==> (#[trigger] pairs[j]).0 != key) implies box_of(
            with_boxes(boxes, pairs),
            key,
        ) == Some(pairs[i].1) by {
            if i < last {
                assert(pairs[last].0 != key);
                assert(init[i] == pairs[i]);
                assert forall|j: int| i < j < init.len() implies (#[trigger] init[j]).0 != key by {
                    assert(init[j] == pairs[j]);
                }
            }
        }
    }
}

/// An amount in a row belongs to a label before it: between the two stands
/// neither a label nor an amount.
pub open spec fn belongs(cells: Seq<Seq<char>>, label: int, at: int) -> bool {
    &&& 0 <= label < at < cells.len()
    &&& label_key(cells[label]) is Some
    &&& label_key(cells[at]) is None
    &&& reading(cells[at]) is Minor
    &&& forall|i: int|
        label < i < at ==> label_key(#[trigger] cells[i]) is None && reading(cells[i]) is Unreadable
}

proof fn no_label_before(keys: Seq<Option<FooterKey>>, from: int, i: int)
    requires
        0 <= from <= i < next_label(keys, from),
    ensures
        i < keys.len(),
        keys[i] is None,
    decreases keys.len() - from,
{
    if from < keys.len() && keys[from] is None && from < i {
        no_label_before(keys, from + 1, i);
    }
}

proof fn label_is_after(keys: Seq<Option<FooterKey>>, from: int, at: int)
    requires
        0 <= from <= at < keys.len(),
        forall|i: int| from <= i <= at ==> (#[trigger] keys[i]) is None,
    ensures
        next_label(keys, from) > at,
    decreases keys.len() - from,
{
    assert(keys[from] is None);
    if from < at {
        label_is_after(keys, from + 1, at);
    } else {
        next_label_bound(keys, from + 1);
    }
}

proof fn amount_is_first(cells: Seq<Seq<char>>, from: int, to: int, at: int)
    requires
        0 <= from <= at < to,
        reading(cells[at]) is Minor,
        forall|i: int| from <= i < at ==> reading(#[trigger] cells[i]) is Unreadable,
    ensures
        first_amount(cells, from, to) == reading(cells[at]),
    decreases to - from,
{
    if from < at {
        assert(reading(cells[from]) is Unreadable);
        amount_is_first(cells, from + 1, to, at);
    }
}

proof fn first_amount_is_at(cells: Seq<Seq<char>>, from: int, to: int) -> (at: int)
    requires
        0 <= from,
        first_amount(cells, from, to) is Minor,
    ensures
        from <= at < to,
        reading(cells[at]) == first_amount(cells, from, to),
        forall|i: int| from <= i < at ==> reading(#[trigger] cells[i]) is Unreadable,
    decreases to - from,
{
    if reading(cells[from]) == AmountReading::Unreadable {
        let at = first_amount_is_at(cells, from + 1, to);
        at
    } else {
        from
    }
}

#[verifier::rlimit(40)]
proof fn boxes_from(cells: Seq<Seq<char>>, from: int)
    requires
        0 <= from,
        boxes_in_row(cells, from) is Some,
    ensures
        forall|label: int, at: int|
            from <= label && #[trigger] belongs(cells, label, at) ==> boxes_in_row(
                cells,
                from,
            )->0.contains((label_key(cells[label])->0, reading(cells[at])->Minor_0)),
        forall|p: (FooterKey, i64)| #[trigger]
            boxes_in_row(cells, from)->0.contains(p) ==> exists|label: int, at: int|
                from <= label && #[trigger] belongs(cells, label, at) && p.0 == label_key(
                    cells[label],
                )->0 && p.1 == reading(cells[at])->Minor_0,
    decreases cells.len() - from,
{
    let pairs = boxes_in_row(cells, from)->0;
    if from < cells.len() {
        let keys = label_keys(cells);
        let rest = boxes_in_row(cells, from + 1);
        let next = next_label(keys, from + 1);
        next_label_bound(keys, from + 1);
        boxes_from(cells, from + 1);
        match label_key(cells[from]) {
            None => {},
            Some(key) => {
                let amount = first_amount(cells, from + 1, next);
                if amount is Minor {
                    let p = (key, amount->Minor_0);
                    assert(pairs =~= seq![p] + rest->0);
                    assert(pairs[0] == p);
                    assert forall|q: (FooterKey, i64)| rest->0.contains(q) implies #[trigger] pairs.contains(
                        q,
                    ) by {
                        let i = choose|i: int| 0 <= i < rest->0.len() && rest->0[i] == q;
                        assert(pairs[i + 1] == q);
                    }
                    let at = first_amount_is_at(cells, from + 1, next);
                    assert(belongs(cells, from, at)) by {
                        no_label_before(keys, from + 1, at);
                        assert forall|i: int| from < i < at implies label_key(
                            #[trigger] cells[i],
                        ) is None && reading(cells[i]) is Unreadable by {
                            no_label_before(keys, from + 1, i);
                        }
                    }
                    assert forall|q: (FooterKey, i64)| #[trigger] pairs.contains(q) implies exists|
                        label: int,
                        at: int,
                    |
                        from <= label && #[trigger] belongs(cells, label, at) && q.0 == label_key(
                            cells[label],
                        )->0 && q.1 == reading(cells[at])->Minor_0 by {
                        let i = choose|i: int| 0 <= i < pairs.len() && pairs[i] == q;
                        if i > 0 {
                            assert(rest->0[i - 1] == q);
                            assert(rest->0.contains(q));
                        } else {
                            assert(belongs(cells, from, at));
                        }
                    }
                }
                assert forall|label: int, at: int|
                    from <= label && #[trigger] belongs(cells, label, at) implies pairs.contains(
                    (label_key(cells[label])->0, reading(cells[at])->Minor_0),
                ) by {
                    if label == from {
                        assert forall|i: int| from + 1 <= i <= at implies (#[trigger] keys[i])
                            is None by {
                            if i < at {
                                assert(label_key(cells[i]) is None);
                            }
                        }
                        label_is_after(keys, from + 1, at);
                        amount_is_first(cells, from + 1, next, at);
                        assert(pairs[0] == (key, reading(cells[at])->Minor_0));
                    }
                }
            },
        }
    }
}

/// The boxes in a row are its labels, each with the amount that belongs to it.
pub proof fn boxes_in_a_row_are_its_labels_with_their_amounts(cells: Seq<Seq<char>>)
    requires
        boxes_in_row(cells, 0) is Some,
    ensures
        forall|label: int, at: int| #[trigger]
            belongs(cells, label, at) ==> boxes_in_row(cells, 0)->0.contains(
                (label_key(cells[label])->0, reading(cells[at])->Minor_0),
            ),
        forall|p: (FooterKey, i64)| #[trigger]
            boxes_in_row(cells, 0)->0.contains(p) ==> exists|label: int, at: int| #[trigger]
                belongs(cells, label, at) && p.0 == label_key(cells[label])->0 && p.1 == reading(
                    cells[at],
                )->Minor_0,
{
    boxes_from(cells, 0);
}

/// An amount stands below a label.
pub open spec fn stands_below(
    keys: Seq<Option<FooterKey>>,
    cells: Seq<Seq<char>>,
    i: int,
) -> bool {
    0 <= i < keys.len() && i < cells.len() && keys[i] is Some && reading(cells[i]) is Minor
}

proof fn boxes_below_from(keys: Seq<Option<FooterKey>>, cells: Seq<Seq<char>>, from: int)
    requires
        0 <= from,
        boxes_below(keys, cells, from) is Some,
    ensures
        forall|i: int|
            from <= i && #[trigger] stands_below(keys, cells, i) ==> boxes_below(
                keys,
                cells,
                from,
            )->0.contains((keys[i]->0, reading(cells[i])->Minor_0)),
        forall|p: (FooterKey, i64)| #[trigger]
            boxes_below(keys, cells, from)->0.contains(p) ==> exists|i: int|
                from <= i && #[trigger] stands_below(keys, cells, i) && p == (
                    keys[i]->0,
                    reading(cells[i])->Minor_0,
                ),
    decreases keys.len() - from,
{
    let pairs = boxes_below(keys, cells, from)->0;
    if from < keys.len() {
        let rest = boxes_below(keys, cells, from + 1);
        boxes_below_from(keys, cells, from + 1);
        if stands_below(keys, cells, from) {
            let p = (keys[from]->0, reading(cells[from])->Minor_0);
            assert(pairs =~= seq![p] + rest->0);
            assert(pairs[0] == p);
            assert forall|q: (FooterKey, i64)| rest->0.contains(q) implies #[trigger] pairs.contains(
                q,
            ) by {
                let i = choose|i: int| 0 <= i < rest->0.len() && rest->0[i] == q;
                assert(pairs[i + 1] == q);
            }
            assert forall|q: (FooterKey, i64)| #[trigger] pairs.contains(q) implies exists|i: int|
                from <= i && #[trigger] stands_below(keys, cells, i) && q == (
                    keys[i]->0,
                    reading(cells[i])->Minor_0,
                ) by {
                let k = choose|k: int| 0 <= k < pairs.len() && pairs[k] == q;
                if k > 0 {
                    assert(rest->0[k - 1] == q);
                    assert(rest->0.contains(q));
                } else {
                    assert(stands_below(keys, cells, from));
                }
            }
        }
    }
}

/// The boxes that a row of amounts gives are the labels above it, each with the
/// amount in its own column.
pub proof fn boxes_below_labels_are_in_their_columns(
    keys: Seq<Option<FooterKey>>,
    cells: Seq<Seq<char>>,
)
    requires
        boxes_below(keys, cells, 0) is Some,
    ensures
        forall|i: int| #[trigger]
            stands_below(keys, cells, i) ==> boxes_below(keys, cells, 0)->0.contains(
                (keys[i]->0, reading(cells[i])->Minor_0),
            ),
        forall|p: (FooterKey, i64)| #[trigger]
            boxes_below(keys, cells, 0)->0.contains(p) ==> exists|i: int| #[trigger]
                stands_below(keys, cells, i) && p == (keys[i]->0, reading(cells[i])->Minor_0),
{
    boxes_below_from(keys, cells, 0);
}

} // verus!
