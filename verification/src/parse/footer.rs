//! The boxes of a statement's footer.
//!
//! They come in two layouts: boxes whose label and amount stand in one row,
//! several of them in a row; or a row of labels and below it a row of
//! amounts, matched by the position of their cells.

use crate::parse::amount::{read_amount, reading, AmountReading};
use crate::parse::merchant::{fold_text, folded};
use crate::text::{contains, has_str, views};
use vstd::prelude::*;

verus! {

/// The boxes of a footer.
#[derive(Debug, Clone, Copy)]
pub struct FooterBoxes {
    pub previous: Option<i64>,
    pub spend: Option<i64>,
    pub fees: Option<i64>,
    pub payments: Option<i64>,
    pub debt: Option<i64>,
    pub debt_usd: Option<i64>,
}

#[derive(Debug, Clone, Copy, PartialEq, Eq, Structural)]
pub enum FooterKey {
    Previous,
    Spend,
    Fees,
    Payments,
    Debt,
    DebtUsd,
}

/// The box that a cell is the label of.
pub open spec fn label_key(cell: Seq<char>) -> Option<FooterKey> {
    let f = folded(cell);
    if contains(f, "DEVREDEN BAKIYE"@) {
        Some(FooterKey::Previous)
    } else if contains(f, "HARCAMALARINIZ"@) {
        Some(FooterKey::Spend)
    } else if contains(f, "CEZA"@) {
        Some(FooterKey::Fees)
    } else if contains(f, "ODEMELERINIZ"@) {
        Some(FooterKey::Payments)
    } else if contains(f, "DONEM BORC"@) {
        if contains(f, "USD"@) {
            Some(FooterKey::DebtUsd)
        } else {
            Some(FooterKey::Debt)
        }
    } else {
        None
    }
}

pub fn footer_key(cell: &[char]) -> (r: Option<FooterKey>)
    ensures
        r == label_key(cell@),
{
    let f = fold_text(cell);
    if has_str(&f, "DEVREDEN BAKIYE") {
        Some(FooterKey::Previous)
    } else if has_str(&f, "HARCAMALARINIZ") {
        Some(FooterKey::Spend)
    } else if has_str(&f, "CEZA") {
        Some(FooterKey::Fees)
    } else if has_str(&f, "ODEMELERINIZ") {
        Some(FooterKey::Payments)
    } else if has_str(&f, "DONEM BORC") {
        if has_str(&f, "USD") {
            Some(FooterKey::DebtUsd)
        } else {
            Some(FooterKey::Debt)
        }
    } else {
        None
    }
}

/// The labels of a row of cells, position by position.
pub open spec fn label_keys(cells: Seq<Seq<char>>) -> Seq<Option<FooterKey>> {
    Seq::new(cells.len(), |i: int| label_key(cells[i]))
}

pub fn footer_keys(cells: &[Vec<char>]) -> (r: Vec<Option<FooterKey>>)
    ensures
        r@ == label_keys(views(cells@)),
{
    let mut r: Vec<Option<FooterKey>> = Vec::new();
    let mut i: usize = 0;
    while i < cells.len()
        invariant
            i <= cells.len(),
            r@ == label_keys(views(cells@)).take(i as int),
        decreases cells.len() - i,
    {
        r.push(footer_key(&cells[i]));
        proof {
            assert(r@ =~= label_keys(views(cells@)).take(i as int + 1));
        }
        i += 1;
    }
    proof {
        assert(r@ =~= label_keys(views(cells@)));
    }
    r
}

/// The boxes with one of them filled in.
pub open spec fn with_box(boxes: FooterBoxes, key: FooterKey, value: i64) -> FooterBoxes {
    match key {
        FooterKey::Previous => FooterBoxes { previous: Some(value), ..boxes },
        FooterKey::Spend => FooterBoxes { spend: Some(value), ..boxes },
        FooterKey::Fees => FooterBoxes { fees: Some(value), ..boxes },
        FooterKey::Payments => FooterBoxes { payments: Some(value), ..boxes },
        FooterKey::Debt => FooterBoxes { debt: Some(value), ..boxes },
        FooterKey::DebtUsd => FooterBoxes { debt_usd: Some(value), ..boxes },
    }
}

pub fn apply_footer_box(boxes: &mut FooterBoxes, key: FooterKey, value: i64)
    ensures
        *final(boxes) == with_box(*old(boxes), key, value),
{
    match key {
        FooterKey::Previous => boxes.previous = Some(value),
        FooterKey::Spend => boxes.spend = Some(value),
        FooterKey::Fees => boxes.fees = Some(value),
        FooterKey::Payments => boxes.payments = Some(value),
        FooterKey::Debt => boxes.debt = Some(value),
        FooterKey::DebtUsd => boxes.debt_usd = Some(value),
    }
}

/// The first amount among the cells from `from` up to `to`; `Unreadable`
/// where there is none.
pub open spec fn first_amount(cells: Seq<Seq<char>>, from: int, to: int) -> AmountReading
    decreases to - from,
{
    if from >= to {
        AmountReading::Unreadable
    } else if reading(cells[from]) == AmountReading::Unreadable {
        first_amount(cells, from + 1, to)
    } else {
        reading(cells[from])
    }
}

pub fn find_amount(cells: &[Vec<char>], from: usize, to: usize) -> (r: AmountReading)
    requires
        from <= to <= cells.len(),
    ensures
        r == first_amount(views(cells@), from as int, to as int),
        r matches AmountReading::Minor(m, _) ==> m >= 0,
{
    let mut i = from;
    while i < to
        invariant
            from <= i <= to <= cells.len(),
            first_amount(views(cells@), from as int, to as int) == first_amount(
                views(cells@),
                i as int,
                to as int,
            ),
        decreases to - i,
    {
        match read_amount(&cells[i]) {
            AmountReading::Unreadable => {},
            found => {
                return found;
            },
        }
        i += 1;
    }
    AmountReading::Unreadable
}

/// The first label at or after `from`, or the end of the row.
pub open spec fn next_label(keys: Seq<Option<FooterKey>>, from: int) -> int
    decreases keys.len() - from,
{
    if from >= keys.len() || keys[from] is Some {
        from
    } else {
        next_label(keys, from + 1)
    }
}

pub proof fn next_label_bound(keys: Seq<Option<FooterKey>>, from: int)
    requires
        from <= keys.len(),
    ensures
        from <= next_label(keys, from) <= keys.len(),
    decreases keys.len() - from,
{
    if from < keys.len() && keys[from] is None {
        next_label_bound(keys, from + 1);
    }
}

fn find_label(keys: &[Option<FooterKey>], from: usize) -> (r: usize)
    requires
        from <= keys.len(),
    ensures
        r == next_label(keys@, from as int),
        from <= r <= keys.len(),
{
    let mut i = from;
    while i < keys.len() && keys[i].is_none()
        invariant
            from <= i <= keys.len(),
            next_label(keys@, from as int) == next_label(keys@, i as int),
        decreases keys.len() - i,
    {
        i += 1;
    }
    i
}

/// The boxes whose label and amount stand in one row, from cell `from` on: a
/// label's amount is the first one before the next label. `None` where one of
/// those amounts is out of range.
pub open spec fn boxes_in_row(cells: Seq<Seq<char>>, from: int) -> Option<Seq<(FooterKey, i64)>>
    decreases cells.len() - from,
{
    if from >= cells.len() {
        Some(Seq::empty())
    } else {
        match label_key(cells[from]) {
            None => boxes_in_row(cells, from + 1),
            Some(key) => match first_amount(
                cells,
                from + 1,
                next_label(label_keys(cells), from + 1),
            ) {
                AmountReading::OutOfRange => None,
                AmountReading::Unreadable => boxes_in_row(cells, from + 1),
                AmountReading::Minor(minor, _) => match boxes_in_row(cells, from + 1) {
                    Some(rest) => Some(seq![(key, minor)] + rest),
                    None => None,
                },
            },
        }
    }
}

pub fn footer_boxes_in_row(cells: &[Vec<char>]) -> (r: Option<Vec<(FooterKey, i64)>>)
    ensures
        match r {
            Some(pairs) => boxes_in_row(views(cells@), 0) == Some(pairs@),
            None => boxes_in_row(views(cells@), 0) is None,
        },
        r matches Some(pairs) ==> forall|i: int|
            0 <= i < pairs@.len() ==> (#[trigger] pairs@[i]).1 >= 0,
{
    let keys = footer_keys(cells);
    let mut pairs: Vec<(FooterKey, i64)> = Vec::new();
    let mut i: usize = 0;
    let ghost texts = views(cells@);
    proof {
        if let Some(rest) = boxes_in_row(texts, 0) {
            assert(pairs@ + rest =~= rest);
        }
    }
    while i < cells.len()
        invariant
            i <= cells.len(),
            texts == views(cells@),
            keys@ == label_keys(texts),
            forall|j: int| 0 <= j < pairs@.len() ==> (#[trigger] pairs@[j]).1 >= 0,
            boxes_in_row(texts, 0) == match boxes_in_row(texts, i as int) {
                Some(rest) => Some(pairs@ + rest),
                None => None::<Seq<(FooterKey, i64)>>,
            },
        decreases cells.len() - i,
    {
        if let Some(key) = keys[i] {
            let limit = find_label(&keys, i + 1);
            match find_amount(cells, i + 1, limit) {
                AmountReading::OutOfRange => {
                    return None;
                },
                AmountReading::Unreadable => {},
                AmountReading::Minor(minor, _) => {
                    let ghost before = pairs@;
                    pairs.push((key, minor));
                    proof {
                        if let Some(rest) = boxes_in_row(texts, i as int + 1) {
                            assert(before + (seq![(key, minor)] + rest) =~= pairs@ + rest);
                        }
                    }
                },
            }
        }
        i += 1;
    }
    proof {
        assert(pairs@ + Seq::<(FooterKey, i64)>::empty() =~= pairs@);
    }
    Some(pairs)
}

/// The boxes with a list of them filled in, in order.
pub open spec fn with_boxes(boxes: FooterBoxes, pairs: Seq<(FooterKey, i64)>) -> FooterBoxes
    decreases pairs.len(),
{
    if pairs.len() == 0 {
        boxes
    } else {
        with_box(with_boxes(boxes, pairs.drop_last()), pairs.last().0, pairs.last().1)
    }
}

pub fn apply_footer_boxes(boxes: &mut FooterBoxes, pairs: &[(FooterKey, i64)])
    ensures
        *final(boxes) == with_boxes(*old(boxes), pairs@),
{
    let mut i: usize = 0;
    while i < pairs.len()
        invariant
            i <= pairs.len(),
            *boxes == with_boxes(*old(boxes), pairs@.take(i as int)),
        decreases pairs.len() - i,
    {
        proof {
            assert(pairs@.take(i as int + 1).drop_last() =~= pairs@.take(i as int));
        }
        apply_footer_box(boxes, pairs[i].0, pairs[i].1);
        i += 1;
    }
    proof {
        assert(pairs@.take(pairs@.len() as int) =~= pairs@);
    }
}

/// The boxes that a row of amounts gives to the labels above it, position by
/// position, from `from` on. `None` where one of those amounts is out of
/// range.
pub open spec fn boxes_below(
    keys: Seq<Option<FooterKey>>,
    cells: Seq<Seq<char>>,
    from: int,
) -> Option<Seq<(FooterKey, i64)>>
    decreases keys.len() - from,
{
    if from >= keys.len() {
        Some(Seq::empty())
    } else if keys[from] is Some && from < cells.len() {
        match reading(cells[from]) {
            AmountReading::OutOfRange => None,
            AmountReading::Unreadable => boxes_below(keys, cells, from + 1),
            AmountReading::Minor(minor, _) => match boxes_below(keys, cells, from + 1) {
                Some(rest) => Some(seq![(keys[from]->0, minor)] + rest),
                None => None,
            },
        }
    } else {
        boxes_below(keys, cells, from + 1)
    }
}

pub fn footer_boxes_below(keys: &[Option<FooterKey>], cells: &[Vec<char>]) -> (r: Option<
    Vec<(FooterKey, i64)>,
>)
    ensures
        match r {
            Some(pairs) => boxes_below(keys@, views(cells@), 0) == Some(pairs@),
            None => boxes_below(keys@, views(cells@), 0) is None,
        },
{
    let mut pairs: Vec<(FooterKey, i64)> = Vec::new();
    let mut i: usize = 0;
    let ghost texts = views(cells@);
    proof {
        if let Some(rest) = boxes_below(keys@, texts, 0) {
            assert(pairs@ + rest =~= rest);
        }
    }
    while i < keys.len()
        invariant
            i <= keys.len(),
            texts == views(cells@),
            boxes_below(keys@, texts, 0) == match boxes_below(keys@, texts, i as int) {
                Some(rest) => Some(pairs@ + rest),
                None => None::<Seq<(FooterKey, i64)>>,
            },
        decreases keys.len() - i,
    {
        if let Some(key) = keys[i] {
            if i < cells.len() {
                match read_amount(&cells[i]) {
                    AmountReading::OutOfRange => {
                        return None;
                    },
                    AmountReading::Unreadable => {},
                    AmountReading::Minor(minor, _) => {
                        let ghost before = pairs@;
                        pairs.push((key, minor));
                        proof {
                            if let Some(rest) = boxes_below(keys@, texts, i as int + 1) {
                                assert(before + (seq![(key, minor)] + rest) =~= pairs@ + rest);
                            }
                        }
                    },
                }
            }
        }
        i += 1;
    }
    proof {
        assert(pairs@ + Seq::<(FooterKey, i64)>::empty() =~= pairs@);
    }
    Some(pairs)
}

} // verus!
