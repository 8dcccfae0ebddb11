//! Laws of the rows of a statement: its head, its cards and its transactions.

use crate::parse::{Direction, StatementHeadView, TxnKind};
use crate::parse::amount::{digits, reading, AmountReading};
use crate::parse::date::tr_date;
use crate::parse::document::{data_cells, HtmlRowView};
use crate::parse::footer::{boxes_below, boxes_in_row, first_amount, label_key, label_keys,
    with_boxes, FooterKey};
use crate::parse::merchant::{folded, norm};
use crate::parse::row::{txn_of, with_pair, StopView};
use crate::parse::statement::{row_step, spoken, with_pairs, WalkView};
use crate::text::{contains, join, trim, trim_start};
use vstd::prelude::*;

verus! {

/// The fields of a statement's head that its rows give.
pub ghost enum HeadField {
    PeriodEnd,
    NextPeriodEnd,
    DueDate,
    NextDueDate,
    MinPay,
    Available,
    CardLimit,
    Debt,
    DebtUsd,
}

/// The date in a field.
pub open spec fn date_in(head: StatementHeadView, field: HeadField) -> Option<Seq<char>> {
    match field {
        HeadField::PeriodEnd => Some(head.period_end),
        HeadField::NextPeriodEnd => head.next_period_end,
        HeadField::DueDate => head.due_date,
        HeadField::NextDueDate => head.next_due_date,
        _ => None,
    }
}

/// The amount in a field.
pub open spec fn amount_in(head: StatementHeadView, field: HeadField) -> Option<i64> {
    match field {
        HeadField::MinPay => Some(head.min_pay_minor),
        HeadField::Available => head.available_limit_minor,
        HeadField::CardLimit => head.card_limit_minor,
        HeadField::Debt => Some(head.period_debt_minor),
        HeadField::DebtUsd => Some(head.period_debt_usd_minor),
        _ => None,
    }
}

pub open spec fn is_date_field(field: HeadField) -> bool {
    field is PeriodEnd || field is NextPeriodEnd || field is DueDate || field is NextDueDate
}

/// A label speaks of a field.
pub open spec fn speaks_of(label: Seq<char>, field: HeadField) -> bool {
    let l = folded(label);
    match field {
        HeadField::PeriodEnd => contains(l, "HESAP KESIM"@) && !contains(l, "SONRAKI"@),
        HeadField::NextPeriodEnd => contains(l, "HESAP KESIM"@) && contains(l, "SONRAKI"@),
        HeadField::DueDate => contains(l, "ODEME"@) && contains(l, "TARIHI"@) && !contains(
            l,
            "SONRAKI"@,
        ),
        HeadField::NextDueDate => contains(l, "ODEME"@) && contains(l, "SONRAKI"@),
        HeadField::MinPay => contains(l, "ASGARI"@),
        HeadField::Available => contains(l, "KULLANILABILIR"@),
        HeadField::CardLimit => contains(l, "LIMIT"@) && !contains(l, "KULLANILABILIR"@),
        HeadField::Debt => contains(l, "BORC"@) && !contains(l, "USD"@),
        HeadField::DebtUsd => contains(l, "BORC"@) && contains(l, "USD"@),
    }
}

/// A label speaks of a field and of no other.
pub open spec fn speaks_only_of(label: Seq<char>, field: HeadField) -> bool {
    speaks_of(label, field) && forall|other: HeadField|
        other != field ==> !#[trigger] speaks_of(label, other)
}

/// Two heads are the same but for one field.
pub open spec fn same_but_for(a: StatementHeadView, b: StatementHeadView, field: HeadField) -> bool {
    &&& forall|other: HeadField|
        other != field ==> #[trigger] date_in(a, other) == date_in(b, other) && amount_in(a, other)
            == amount_in(b, other)
    &&& a.previous_balance_minor == b.previous_balance_minor
    &&& a.spend_minor == b.spend_minor
    &&& a.fees_minor == b.fees_minor
    &&& a.payments_minor == b.payments_minor
    &&& a.source_sha256 == b.source_sha256
}

/// A date that can be read is put in the field that its label speaks of, and in
/// no other; one that cannot changes nothing.
pub proof fn head_date_is_put_in_its_field(
    head: StatementHeadView,
    label: Seq<char>,
    value: Seq<char>,
    field: HeadField,
)
    requires
        speaks_only_of(label, field),
        is_date_field(field),
    ensures
        with_pair(head, label, value) matches Some(next) && same_but_for(head, next, field)
            && date_in(next, field) == if tr_date(value) is Some {
            tr_date(value)
        } else {
            date_in(head, field)
        },
{
    fields_spoken_of(label, field);
}

/// The label of one field is not that of the others.
proof fn fields_spoken_of(label: Seq<char>, field: HeadField)
    requires
        speaks_only_of(label, field),
    ensures
        field != HeadField::PeriodEnd ==> !speaks_of(label, HeadField::PeriodEnd),
        field != HeadField::NextPeriodEnd ==> !speaks_of(label, HeadField::NextPeriodEnd),
        field != HeadField::DueDate ==> !speaks_of(label, HeadField::DueDate),
        field != HeadField::NextDueDate ==> !speaks_of(label, HeadField::NextDueDate),
        field != HeadField::MinPay ==> !speaks_of(label, HeadField::MinPay),
        field != HeadField::Available ==> !speaks_of(label, HeadField::Available),
        field != HeadField::CardLimit ==> !speaks_of(label, HeadField::CardLimit),
        field != HeadField::Debt ==> !speaks_of(label, HeadField::Debt),
        field != HeadField::DebtUsd ==> !speaks_of(label, HeadField::DebtUsd),
{
}

/// An amount is put in the field that its label speaks of, and in no other; a
/// value that is no amount counts as none, and one that 64 bits cannot hold
/// stops the reading.
pub proof fn head_amount_is_put_in_its_field(
    head: StatementHeadView,
    label: Seq<char>,
    value: Seq<char>,
    field: HeadField,
)
    requires
        speaks_only_of(label, field),
        !is_date_field(field),
    ensures
        match (reading(value), with_pair(head, label, value)) {
            (AmountReading::Minor(minor, _), Some(next)) => same_but_for(head, next, field)
                && amount_in(next, field) == Some(minor),
            (AmountReading::Unreadable, Some(next)) => same_but_for(head, next, field)
                && amount_in(next, field) == Some(0i64),
            (AmountReading::OutOfRange, None) => true,
            _ => false,
        },
{
    fields_spoken_of(label, field);
}

/// A label that speaks of no field changes nothing.
pub proof fn other_labels_change_nothing(
    head: StatementHeadView,
    label: Seq<char>,
    value: Seq<char>,
)
    requires
        forall|field: HeadField| !#[trigger] speaks_of(label, field),
    ensures
        with_pair(head, label, value) == Some(head),
{
    assert(!speaks_of(label, HeadField::PeriodEnd));
    assert(!speaks_of(label, HeadField::NextPeriodEnd));
    assert(!speaks_of(label, HeadField::DueDate));
    assert(!speaks_of(label, HeadField::NextDueDate));
    assert(!speaks_of(label, HeadField::MinPay));
    assert(!speaks_of(label, HeadField::Available));
    assert(!speaks_of(label, HeadField::CardLimit));
    assert(!speaks_of(label, HeadField::Debt));
    assert(!speaks_of(label, HeadField::DebtUsd));
}

/// An amount in a cell that may be empty.
pub open spec fn is_optional_amount(cell: Seq<char>, minor: Option<i64>) -> bool {
    match minor {
        Some(minor) => cell.len() > 0 && (reading(cell) matches AmountReading::Minor(m, _) && m
            == minor),
        None => cell.len() == 0,
    }
}

/// The columns of a transaction's row are its date, its merchant, a note, its
/// amount, what it is in dollars and what it brings in points; an empty one of
/// the last two is none of it. Its direction is that of its amount.
pub proof fn transaction_is_read_by_its_columns(
    cells: Seq<Seq<char>>,
    tokens: Seq<char>,
    date: Seq<char>,
    card_last4: Seq<char>,
    row_index: nat,
)
    requires
        row_index <= i64::MAX,
    ensures
        txn_of(cells, tokens, date, card_last4, row_index) matches Ok(txn) ==> {
            &&& cells.len() >= 6
            &&& card_last4.len() > 0
            &&& txn.row_index == row_index
            &&& txn.date == date
            &&& txn.merchant_raw == cells[1]
            &&& txn.merchant_norm == norm(txn.merchant_raw)
            &&& txn.extra == cells[2]
            &&& txn.card_last4 == card_last4
            &&& reading(cells[3]) == AmountReading::Minor(
                txn.amount_minor,
                txn.direction == Direction::Credit,
            )
            &&& is_optional_amount(cells[4], txn.usd_minor)
            &&& is_optional_amount(
                cells[5],
                if cells[5].len() > 0 {
                    Some(txn.bankkart_lira_minor)
                } else {
                    None
                },
            )
            &&& cells[5].len() == 0 ==> txn.bankkart_lira_minor == 0
        },
        cells.len() >= 6 && card_last4.len() > 0 && reading(cells[3]) is Minor && (cells[4].len()
            == 0 || reading(cells[4]) is Minor) && (cells[5].len() == 0 || reading(cells[5])
            is Minor) ==> txn_of(cells, tokens, date, card_last4, row_index) is Ok,
{
}

/// A credit is a payment or a refund, a debit an instalment or a purchase. It is
/// a payment where its description names one, and an instalment where its note
/// or the classes of its row do.
pub proof fn kind_goes_with_the_direction(
    cells: Seq<Seq<char>>,
    tokens: Seq<char>,
    date: Seq<char>,
    card_last4: Seq<char>,
    row_index: nat,
)
    ensures
        txn_of(cells, tokens, date, card_last4, row_index) matches Ok(txn) ==> {
            let paid = contains(norm(cells[1] + " "@ + cells[2]), "SUBE-HESAPTAN ODEME"@);
            let parted = contains(tokens, "kktaksit"@) || contains(folded(cells[2]), "TAKSIT"@);
            &&& txn.kind == TxnKind::Payment <==> txn.direction == Direction::Credit && paid
            &&& txn.kind == TxnKind::Refund <==> txn.direction == Direction::Credit && !paid
            &&& txn.kind == TxnKind::Installment <==> txn.direction == Direction::Debit && parted
            &&& txn.kind == TxnKind::Pos <==> txn.direction == Direction::Debit && !parted
        },
{
}

/// The text of a row, as its words are looked for.
pub open spec fn line_of(row: HtmlRowView) -> Seq<char> {
    folded(join(data_cells(row.cells), " "@))
}

/// A row that names a card gives its last four digits to the transactions below
/// it, and changes nothing else; with fewer digits it stops the reading.
pub proof fn card_row_gives_the_last_digits(w: WalkView, row: HtmlRowView)
    requires
        contains(line_of(row), "KART NO"@),
    ensures
        ({
            let all = digits(join(data_cells(row.cells), ""@));
            match row_step(w, row) {
                Ok(next) => {
                    &&& next.card.len() == 4
                    &&& exists|before: Seq<char>| all == #[trigger] (before + next.card)
                    &&& next.head == w.head && next.boxes == w.boxes && next.txns == w.txns
                    &&& next.carried == w.carried && next.pending == w.pending
                },
                Err(stop) => all.len() < 4 && stop is Refused,
            }
        }),
{
    reveal(row_step);
    let all = digits(join(data_cells(row.cells), ""@));
    if all.len() >= 4 {
        let cut = all.len() - 4;
        assert(all.take(cut) + all.skip(cut) =~= all);
    }
}

/// A row that names the balance carried over gives it by its first amount, and
/// changes nothing else; without an amount it changes nothing.
pub proof fn carried_row_gives_the_balance(w: WalkView, row: HtmlRowView)
    requires
        contains(line_of(row), "ONCEKI AYDAN DEVIR"@),
        !contains(line_of(row), "KART NO"@),
    ensures
        ({
            let cells = data_cells(row.cells);
            match (first_amount(cells, 0, cells.len() as int), row_step(w, row)) {
                (AmountReading::Minor(minor, _), Ok(next)) => {
                    &&& next.carried == Some(minor)
                    &&& next.head == w.head && next.boxes == w.boxes && next.txns == w.txns
                    &&& next.card == w.card && next.pending == w.pending
                },
                (AmountReading::Unreadable, Ok(next)) => next == w,
                (AmountReading::OutOfRange, Err(StopView::OutOfRange)) => true,
                _ => false,
            }
        }),
{
    reveal(row_step);
}

/// A row that starts with a date, and names neither a card nor the balance
/// carried over, adds one transaction behind those that were read: of that
/// date, of the card that was named last, and counted by how many came before
/// it. It changes nothing else.
pub proof fn dated_row_adds_one_transaction(w: WalkView, row: HtmlRowView)
    requires
        !contains(line_of(row), "KART NO"@),
        !contains(line_of(row), "ONCEKI AYDAN DEVIR"@),
        data_cells(row.cells).len() > 0,
        tr_date(data_cells(row.cells)[0]) is Some,
        w.txns.len() <= i64::MAX,
    ensures
        row_step(w, row) matches Ok(next) ==> {
            &&& next.txns.len() == w.txns.len() + 1
            &&& next.txns.drop_last() == w.txns
            &&& Some(next.txns.last().date) == tr_date(data_cells(row.cells)[0])
            &&& next.txns.last().card_last4 == w.card
            &&& next.txns.last().row_index == w.txns.len()
            &&& next.txns.last().merchant_raw == data_cells(row.cells)[1]
            &&& next.head == w.head && next.boxes == w.boxes && next.card == w.card
            &&& next.carried == w.carried && next.pending == w.pending
        },
{
    reveal(row_step);
    if row_step(w, row) is Ok {
        assert(row_step(w, row)->Ok_0.txns.drop_last() =~= w.txns);
    }
}

/// Any other row changes neither the transactions nor the card nor the balance
/// carried over.
pub proof fn other_rows_keep_the_transactions(w: WalkView, row: HtmlRowView)
    requires
        !contains(line_of(row), "KART NO"@),
        !contains(line_of(row), "ONCEKI AYDAN DEVIR"@),
        data_cells(row.cells).len() == 0 || tr_date(data_cells(row.cells)[0]) is None,
    ensures
        row_step(w, row) matches Ok(next) ==> next.txns == w.txns && next.card == w.card
            && next.carried == w.carried,
{
    reveal(row_step);
}

/// A row that may belong to the footer: it names neither a card nor the balance
/// carried over, starts with no date and has no colon.
pub open spec fn is_plain_row(row: HtmlRowView) -> bool {
    let cells = data_cells(row.cells);
    &&& !contains(line_of(row), "KART NO"@)
    &&& !contains(line_of(row), "ONCEKI AYDAN DEVIR"@)
    &&& cells.len() == 0 || tr_date(cells[0]) is None
    &&& !cells.contains(seq![':'])
}

/// Boxes whose labels and amounts stand in one row are filled in by that row.
pub proof fn row_of_boxes_fills_them(w: WalkView, row: HtmlRowView)
    requires
        is_plain_row(row),
        boxes_in_row(data_cells(row.cells), 0) matches Some(pairs) && pairs.len() > 0,
    ensures
        row_step(w, row) matches Ok(next) && next.boxes == with_boxes(
            w.boxes,
            boxes_in_row(data_cells(row.cells), 0)->0,
        ) && next.pending is None && next.head == w.head && next.txns == w.txns,
{
    reveal(row_step);
}

/// A row of labels and below it a row of amounts fill the boxes in, each label
/// with the amount in its column; the head stays.
pub proof fn labels_and_the_amounts_below_fill_the_boxes(
    w: WalkView,
    labels: HtmlRowView,
    amounts: HtmlRowView,
)
    requires
        is_plain_row(labels),
        is_plain_row(amounts),
        w.pending is None,
        boxes_in_row(data_cells(labels.cells), 0) == Some(Seq::<(FooterKey, i64)>::empty()),
        boxes_in_row(data_cells(amounts.cells), 0) == Some(Seq::<(FooterKey, i64)>::empty()),
        exists|i: int|
            0 <= i < data_cells(labels.cells).len() && label_key(
                #[trigger] data_cells(labels.cells)[i],
            ) is Some,
        boxes_below(label_keys(data_cells(labels.cells)), data_cells(amounts.cells), 0) matches Some(
            pairs,
        ) && pairs.len() > 0,
    ensures
        row_step(w, labels) matches Ok(between) && between.boxes == w.boxes && (row_step(
            between,
            amounts,
        ) matches Ok(next) && next.boxes == with_boxes(
            w.boxes,
            boxes_below(label_keys(data_cells(labels.cells)), data_cells(amounts.cells), 0)->0,
        ) && next.head == w.head && next.txns == w.txns && next.pending is None),
{
    reveal(row_step);
    let cells = data_cells(labels.cells);
    let i = choose|i: int| 0 <= i < cells.len() && label_key(#[trigger] cells[i]) is Some;
    assert(label_keys(cells)[i] is Some);
}

/// A cell that a head row speaks with: neither blank nor a colon, and trimmed.
pub open spec fn is_spoken(cell: Seq<char>) -> bool {
    cell.len() > 0 && trim(cell) == cell && cell != seq![':']
}

/// A head row gives the value behind the colon to the label before it; a second
/// label in the row likewise.
pub proof fn head_row_pairs_labels_with_values(
    head: StatementHeadView,
    label: Seq<char>,
    value: Seq<char>,
    label2: Seq<char>,
    value2: Seq<char>,
)
    requires
        is_spoken(label),
        is_spoken(value),
        is_spoken(label2),
        is_spoken(value2),
    ensures
        ({
            let colon = seq![':'];
            let blank = Seq::<char>::empty();
            &&& with_pairs(head, spoken(seq![label, colon, value])) == with_pair(
                head,
                label,
                value,
            )
            &&& with_pairs(
                head,
                spoken(seq![label, colon, value, blank, label2, colon, value2]),
            ) == match with_pair(head, label, value) {
                Some(next) => with_pair(next, label2, value2),
                None => None,
            }
        }),
{
    let colon = seq![':'];
    let blank = Seq::<char>::empty();
    colon_is_trimmed();
    assert(trim(blank) =~= blank);
    let a = seq![label, colon, value];
    let none = Seq::<Seq<char>>::empty();
    assert(a.drop_last() =~= seq![label, colon]);
    assert(a.drop_last().drop_last() =~= seq![label]);
    assert(a.drop_last().drop_last().drop_last() =~= none);
    assert(spoken(none) =~= none);
    assert(spoken(seq![label]) =~= seq![label]);
    assert(spoken(seq![label, colon]) =~= seq![label]);
    assert(spoken(a) =~= seq![label, value]);
    let pair = seq![label, value];
    assert(pair.skip(2) =~= none);
    assert(pair[0] == label && pair[1] == value);
    assert forall|h: StatementHeadView| #[trigger] with_pairs(h, none) == Some(h) by {}
    let b1 = a.push(blank);
    let b2 = b1.push(label2);
    let b3 = b2.push(colon);
    let b4 = b3.push(value2);
    assert(b4 =~= seq![label, colon, value, blank, label2, colon, value2]);
    assert(b1.drop_last() =~= a && b2.drop_last() =~= b1 && b3.drop_last() =~= b2
        && b4.drop_last() =~= b3);
    assert(spoken(b1) =~= pair);
    assert(spoken(b2) =~= pair.push(label2));
    assert(spoken(b3) =~= pair.push(label2));
    let all = pair.push(label2).push(value2);
    assert(spoken(b4) =~= all);
    assert(all[0] == label && all[1] == value);
    let second = seq![label2, value2];
    assert(all.skip(2) =~= second);
    assert(second[0] == label2 && second[1] == value2);
    assert(second.skip(2) =~= none);
    one_pair(head, label, value);
    if let Some(next) = with_pair(head, label, value) {
        one_pair(next, label2, value2);
        assert(with_pairs(head, all) == with_pairs(next, second));
    }
}

proof fn one_pair(head: StatementHeadView, label: Seq<char>, value: Seq<char>)
    ensures
        with_pairs(head, seq![label, value]) == with_pair(head, label, value),
{
    let pair = seq![label, value];
    assert(pair[0] == label && pair[1] == value);
    assert(pair.skip(2).len() == 0);
    if let Some(next) = with_pair(head, label, value) {
        assert(with_pairs(next, pair.skip(2)) == Some(next));
    }
}

proof fn colon_is_trimmed()
    ensures
        trim(seq![':']) == seq![':'],
{
    let s = seq![':'];
    assert(s[0] == ':' && s.last() == ':');
    assert(trim_start(s) == s);
}

/// A row with a colon among its cells is a head row, where it names neither a
/// card nor the balance carried over and starts with no date: it changes the
/// head alone.
pub proof fn row_with_a_colon_changes_the_head_alone(w: WalkView, row: HtmlRowView)
    requires
        !contains(line_of(row), "KART NO"@),
        !contains(line_of(row), "ONCEKI AYDAN DEVIR"@),
        tr_date(data_cells(row.cells)[0]) is None,
        data_cells(row.cells).contains(seq![':']),
    ensures
        match row_step(w, row) {
            Ok(next) => {
                &&& Some(next.head) == with_pairs(w.head, spoken(data_cells(row.cells)))
                &&& next.boxes == w.boxes && next.txns == w.txns && next.card == w.card
                &&& next.carried == w.carried && next.pending == w.pending
            },
            Err(stop) => stop is OutOfRange && with_pairs(
                w.head,
                spoken(data_cells(row.cells)),
            ) is None,
        },
{
    reveal(row_step);
}

} // verus!
