//! Transaction rows and head rows.

use crate::number::{dec, dec_chars};
use crate::parse::amount::{read_amount, reading, AmountReading};
use crate::parse::date::{parse_tr_date, tr_date};
use crate::parse::merchant::{fold_text, folded, norm, norm_chars, PAYMENT_NORM};
use crate::parse::{Direction, ParseError, ParseErrorView, ParsedTxn, ParsedTxnView, StatementHead,
    StatementHeadView, TxnKind};
use crate::text::{contains, has_str, push_all, string_of, trim, trimmed, views};
use vstd::prelude::*;
use vstd::string::StringExecFns;

verus! {

/// Why the reading of a statement stops.
#[derive(Debug)]
pub enum Stop {
    /// The statement is refused.
    Refused(ParseError),
    /// An amount or a sum that 64 bits cannot hold.
    OutOfRange,
}

pub ghost enum StopView {
    Refused(ParseErrorView),
    OutOfRange,
}

impl View for Stop {
    type V = StopView;

    open spec fn view(&self) -> StopView {
        match *self {
            Stop::Refused(e) => StopView::Refused(e@),
            Stop::OutOfRange => StopView::OutOfRange,
        }
    }
}

/// The amount in a cell, and whether it is a credit.
pub open spec fn cell_amount(cell: Seq<char>) -> Result<(i64, bool), StopView> {
    match reading(cell) {
        AmountReading::Minor(minor, credit) => Ok((minor, credit)),
        AmountReading::Unreadable => Err(StopView::Refused(ParseErrorView::Amount(trim(cell)))),
        AmountReading::OutOfRange => Err(StopView::OutOfRange),
    }
}

fn amount_in(cell: &[char]) -> (r: Result<(i64, bool), Stop>)
    ensures
        match r {
            Ok((minor, credit)) => cell_amount(cell@) == Ok::<(i64, bool), StopView>(
                (minor, credit),
            ) && minor >= 0,
            Err(stop) => cell_amount(cell@) == Err::<(i64, bool), StopView>(stop@),
        },
{
    match read_amount(cell) {
        AmountReading::Minor(minor, credit) => Ok((minor, credit)),
        AmountReading::Unreadable => Err(
            Stop::Refused(ParseError::Amount(string_of(trimmed(cell)))),
        ),
        AmountReading::OutOfRange => Err(Stop::OutOfRange),
    }
}

/// The amount in a cell that may be empty.
pub open spec fn optional_amount(cell: Seq<char>) -> Result<Option<i64>, StopView> {
    if cell.len() == 0 {
        Ok(None)
    } else {
        match cell_amount(cell) {
            Ok((minor, _)) => Ok(Some(minor)),
            Err(stop) => Err(stop),
        }
    }
}

fn optional_amount_in(cell: &[char]) -> (r: Result<Option<i64>, Stop>)
    ensures
        match r {
            Ok(minor) => optional_amount(cell@) == Ok::<Option<i64>, StopView>(minor),
            Err(stop) => optional_amount(cell@) == Err::<Option<i64>, StopView>(stop@),
        },
{
    if cell.len() == 0 {
        return Ok(None);
    }
    match amount_in(cell) {
        Ok((minor, _)) => Ok(Some(minor)),
        Err(stop) => Err(stop),
    }
}

pub open spec fn structure<T>(message: Seq<char>) -> Result<T, StopView> {
    Err(StopView::Refused(ParseErrorView::Structure(message)))
}

/// What a transaction is: a credit is a payment or a refund by its
/// description, a debit an instalment or a purchase by its note or the class
/// of its row.
pub open spec fn kind_of(
    credit: bool,
    raw: Seq<char>,
    extra: Seq<char>,
    tokens: Seq<char>,
) -> TxnKind {
    if credit {
        if contains(norm(raw + " "@ + extra), PAYMENT_NORM@) {
            TxnKind::Payment
        } else {
            TxnKind::Refund
        }
    } else if contains(tokens, "kktaksit"@) || contains(folded(extra), "TAKSIT"@) {
        TxnKind::Installment
    } else {
        TxnKind::Pos
    }
}

/// The direction of an amount: its trailing plus sign, nothing else.
pub open spec fn direction_of(credit: bool) -> Direction {
    if credit {
        Direction::Credit
    } else {
        Direction::Debit
    }
}

/// The message on a transaction row with too few cells.
pub open spec fn short_row_message(row_index: nat, cells: nat) -> Seq<char> {
    "işlem satırı "@ + dec(row_index) + " en az 6 hücre bekler, "@ + dec(cells) + " buldu"@
}

/// The transaction of a row.
pub open spec fn txn_of(
    cells: Seq<Seq<char>>,
    tokens: Seq<char>,
    date: Seq<char>,
    card_last4: Seq<char>,
    row_index: nat,
) -> Result<ParsedTxnView, StopView> {
    if cells.len() < 6 {
        structure(short_row_message(row_index, cells.len()))
    } else if card_last4.len() == 0 {
        structure("KART NO satırından önce işlem geldi"@)
    } else {
        match (cell_amount(cells[3]), optional_amount(cells[4]), optional_amount(cells[5])) {
            (Err(stop), _, _) => Err(stop),
            (Ok(_), Err(stop), _) => Err(stop),
            (Ok(_), Ok(_), Err(stop)) => Err(stop),
            (Ok((minor, credit)), Ok(usd), Ok(lira)) => Ok(
                ParsedTxnView {
                    row_index: row_index as i64,
                    date,
                    merchant_raw: cells[1],
                    merchant_norm: norm(cells[1]),
                    extra: cells[2],
                    amount_minor: minor,
                    direction: direction_of(credit),
                    usd_minor: usd,
                    bankkart_lira_minor: match lira {
                        Some(lira) => lira,
                        None => 0,
                    },
                    card_last4,
                    kind: kind_of(credit, cells[1], cells[2], tokens),
                },
            ),
        }
    }
}

fn short_row(row_index: usize, cells: usize) -> (r: String)
    ensures
        r@ == short_row_message(row_index as nat, cells as nat),
{
    let mut message = String::new();
    message.append("işlem satırı ");
    let index = dec_chars(row_index as u64);
    message.append(string_of(&index).as_str());
    message.append(" en az 6 hücre bekler, ");
    let count = dec_chars(cells as u64);
    message.append(string_of(&count).as_str());
    message.append(" buldu");
    proof {
        assert(message@ =~= short_row_message(row_index as nat, cells as nat));
    }
    message
}

/// Reads the transaction of a row.
pub fn txn_from_row(
    cells: &[Vec<char>],
    row_tokens: &[char],
    date: String,
    card_last4: &[char],
    row_index: usize,
) -> (r: Result<ParsedTxn, Stop>)
    ensures
        match r {
            Ok(txn) => txn_of(
                views(cells@),
                row_tokens@,
                date@,
                card_last4@,
                row_index as nat,
            ) == Ok::<ParsedTxnView, StopView>(txn@),
            Err(stop) => txn_of(views(cells@), row_tokens@, date@, card_last4@, row_index as nat)
                == Err::<ParsedTxnView, StopView>(stop@),
        },
{
    let ghost texts = views(cells@);
    if cells.len() < 6 {
        return Err(Stop::Refused(ParseError::Structure(short_row(row_index, cells.len()))));
    }
    if card_last4.len() == 0 {
        return Err(
            Stop::Refused(
                ParseError::Structure("KART NO satırından önce işlem geldi".to_owned()),
            ),
        );
    }
    proof {
        assert(texts[1] == cells@[1]@ && texts[2] == cells@[2]@ && texts[3] == cells@[3]@
            && texts[4] == cells@[4]@ && texts[5] == cells@[5]@);
    }
    let (amount_minor, credit) = match amount_in(&cells[3]) {
        Ok(amount) => amount,
        Err(stop) => {
            return Err(stop);
        },
    };
    let usd_minor = match optional_amount_in(&cells[4]) {
        Ok(minor) => minor,
        Err(stop) => {
            return Err(stop);
        },
    };
    let bankkart_lira_minor: i64 = match optional_amount_in(&cells[5]) {
        Ok(Some(minor)) => minor,
        Ok(None) => 0,
        Err(stop) => {
            return Err(stop);
        },
    };
    let mut description = vstd::slice::slice_to_vec(&cells[1]);
    description.push(' ');
    push_all(&mut description, &cells[2]);
    proof {
        reveal_strlit(" ");
        assert(" "@ =~= seq![' ']);
        assert(description@ =~= texts[1] + " "@ + texts[2]);
    }
    let desc_norm = norm_chars(&description);
    let key = norm_chars(&cells[1]);
    let note = fold_text(&cells[2]);
    let kind = if credit {
        if has_str(&desc_norm, PAYMENT_NORM) {
            TxnKind::Payment
        } else {
            TxnKind::Refund
        }
    } else if has_str(row_tokens, "kktaksit") || has_str(&note, "TAKSIT") {
        TxnKind::Installment
    } else {
        TxnKind::Pos
    };
    Ok(
        ParsedTxn {
            row_index: row_index as i64,
            date,
            merchant_raw: string_of(&cells[1]),
            merchant_norm: string_of(&key),
            extra: string_of(&cells[2]),
            amount_minor,
            direction: if credit {
                Direction::Credit
            } else {
                Direction::Debit
            },
            usd_minor,
            bankkart_lira_minor,
            card_last4: string_of(card_last4),
            kind,
        },
    )
}

/// The amount of a head row's value; a value that is no amount counts as 0.
pub open spec fn head_amount(value: Seq<char>) -> Option<i64> {
    match reading(value) {
        AmountReading::Minor(minor, _) => Some(minor),
        AmountReading::Unreadable => Some(0),
        AmountReading::OutOfRange => None,
    }
}

/// The head with one label and its value read into it; a date that cannot be
/// read changes nothing. `None` where the value's amount is out of range.
pub open spec fn with_pair(
    head: StatementHeadView,
    label: Seq<char>,
    value: Seq<char>,
) -> Option<StatementHeadView> {
    let l = folded(label);
    let date = tr_date(value);
    let amount = head_amount(value);
    if contains(l, "SONRAKI"@) && contains(l, "HESAP KESIM"@) {
        Some(
            match date {
                Some(_) => StatementHeadView { next_period_end: date, ..head },
                None => head,
            },
        )
    } else if contains(l, "HESAP KESIM"@) {
        Some(
            match date {
                Some(iso) => StatementHeadView { period_end: iso, ..head },
                None => head,
            },
        )
    } else if contains(l, "ASGARI"@) {
        match amount {
            Some(minor) => Some(StatementHeadView { min_pay_minor: minor, ..head }),
            None => None,
        }
    } else if contains(l, "SONRAKI"@) && contains(l, "ODEME"@) {
        Some(
            match date {
                Some(_) => StatementHeadView { next_due_date: date, ..head },
                None => head,
            },
        )
    } else if contains(l, "ODEME"@) && contains(l, "TARIHI"@) {
        Some(
            match date {
                Some(_) => StatementHeadView { due_date: date, ..head },
                None => head,
            },
        )
    } else if contains(l, "KULLANILABILIR"@) {
        match amount {
            Some(minor) => Some(StatementHeadView { available_limit_minor: Some(minor), ..head }),
            None => None,
        }
    } else if contains(l, "LIMIT"@) {
        match amount {
            Some(minor) => Some(StatementHeadView { card_limit_minor: Some(minor), ..head }),
            None => None,
        }
    } else if contains(l, "USD"@) && contains(l, "BORC"@) {
        match amount {
            Some(minor) => Some(StatementHeadView { period_debt_usd_minor: minor, ..head }),
            None => None,
        }
    } else if contains(l, "BORC"@) {
        match amount {
            Some(minor) => Some(StatementHeadView { period_debt_minor: minor, ..head }),
            None => None,
        }
    } else {
        Some(head)
    }
}

fn head_amount_in(value: &[char]) -> (r: Option<i64>)
    ensures
        r == head_amount(value@),
{
    match read_amount(value) {
        AmountReading::Minor(minor, _) => Some(minor),
        AmountReading::Unreadable => Some(0),
        AmountReading::OutOfRange => None,
    }
}

/// Reads a label and its value into the head; says whether the value's amount
/// was in range.
pub fn apply_head_pair(label: &[char], value: &[char], head: &mut StatementHead) -> (r: bool)
    ensures
        match with_pair(old(head)@, label@, value@) {
            Some(next) => r && final(head)@ == next,
            None => !r && final(head)@ == old(head)@,
        },
{
    let l = fold_text(label);
    if has_str(&l, "SONRAKI") && has_str(&l, "HESAP KESIM") {
        if let Some(iso) = parse_tr_date(value) {
            head.next_period_end = Some(iso);
        }
    } else if has_str(&l, "HESAP KESIM") {
        if let Some(iso) = parse_tr_date(value) {
            head.period_end = iso;
        }
    } else if has_str(&l, "ASGARI") {
        match head_amount_in(value) {
            Some(minor) => head.min_pay_minor = minor,
            None => {
                return false;
            },
        }
    } else if has_str(&l, "SONRAKI") && has_str(&l, "ODEME") {
        if let Some(iso) = parse_tr_date(value) {
            head.next_due_date = Some(iso);
        }
    } else if has_str(&l, "ODEME") && has_str(&l, "TARIHI") {
        if let Some(iso) = parse_tr_date(value) {
            head.due_date = Some(iso);
        }
    } else if has_str(&l, "KULLANILABILIR") {
        match head_amount_in(value) {
            Some(minor) => head.available_limit_minor = Some(minor),
            None => {
                return false;
            },
        }
    } else if has_str(&l, "LIMIT") {
        match head_amount_in(value) {
            Some(minor) => head.card_limit_minor = Some(minor),
            None => {
                return false;
            },
        }
    } else if has_str(&l, "USD") && has_str(&l, "BORC") {
        match head_amount_in(value) {
            Some(minor) => head.period_debt_usd_minor = minor,
            None => {
                return false;
            },
        }
    } else if has_str(&l, "BORC") {
        match head_amount_in(value) {
            Some(minor) => head.period_debt_minor = minor,
            None => {
                return false;
            },
        }
    }
    true
}

/// The colour of a row has no part in its transaction but for the kind of a
/// debit: two rows with the same cells agree on everything else.
pub proof fn colour_never_changes_direction(
    cells: Seq<Seq<char>>,
    tokens: Seq<char>,
    other_tokens: Seq<char>,
    date: Seq<char>,
    card_last4: Seq<char>,
    row_index: nat,
)
    ensures
        match (
            txn_of(cells, tokens, date, card_last4, row_index),
            txn_of(cells, other_tokens, date, card_last4, row_index),
        ) {
            (Ok(a), Ok(b)) => a.direction == b.direction && a == (ParsedTxnView {
                kind: a.kind,
                ..b
            }) && (a.direction == Direction::Credit ==> a.kind == b.kind),
            (Err(a), Err(b)) => a == b,
            _ => false,
        },
{
}

/// A transaction is a credit exactly where its amount ends in a plus sign, and
/// a credit is a payment or a refund, a debit a purchase or an instalment.
pub proof fn direction_is_the_plus_sign(
    cells: Seq<Seq<char>>,
    tokens: Seq<char>,
    date: Seq<char>,
    card_last4: Seq<char>,
    row_index: nat,
)
    ensures
        txn_of(cells, tokens, date, card_last4, row_index) matches Ok(txn) ==> {
            &&& (txn.direction == Direction::Credit) == crate::parse::amount::is_credit(cells[3])
            &&& (txn.direction == Direction::Credit) == (txn.kind == TxnKind::Payment || txn.kind
                == TxnKind::Refund)
            &&& txn.amount_minor >= 0
        },
{
}

} // verus!
