//! A statement from its table rows: walking the rows, and holding the footer
//! against the transactions.

use crate::number::{all_digits, is_digit};
use crate::parse::amount::{digits, digits_are_digits, digits_of, AmountReading};
use crate::parse::date::{parse_tr_date, tr_date};
use crate::parse::document::{data_cells, html_document, lossy_text, open_document, row_parts,
    row_tokens, source_fingerprint, source_text, HtmlDocument, HtmlDocumentView, HtmlRow,
    HtmlRowView};
use crate::parse::footer::{apply_footer_boxes, boxes_below, boxes_in_row, find_amount, first_amount,
    footer_boxes_below, footer_boxes_in_row, footer_keys, label_keys, with_boxes, FooterBoxes,
    FooterKey};
use crate::parse::merchant::{fold_text, folded};
use crate::parse::row::{apply_head_pair, structure, txn_from_row, txn_of, with_pair, Stop,
    StopView};
use crate::parse::{txn_views, Direction, ParseError, ParseErrorView, ParseResult, ParseResultView,
    ParsedTxn, ParsedTxnView, StatementHead, StatementHeadView};
use crate::text::{contains, has_str, join, join_chars, join_strings, string_of, trim, trimmed,
    views};
use vstd::prelude::*;
use vstd::slice::slice_subrange;
use vstd::utf8::{decode_utf8, valid_utf8};
use vstd::string::StringExecFns;

verus! {

/// What has been read of a statement.
#[verifier::ext_equal]
pub ghost struct WalkView {
    pub head: StatementHeadView,
    pub boxes: FooterBoxes,
    pub txns: Seq<ParsedTxnView>,
    /// The last four digits of the card whose transactions follow.
    pub card: Seq<char>,
    /// The balance carried over, where a row names it.
    pub carried: Option<i64>,
    /// The labels of the footer row whose amounts are still to come.
    pub pending: Option<Seq<Option<FooterKey>>>,
}

struct Walk {
    head: StatementHead,
    boxes: FooterBoxes,
    txns: Vec<ParsedTxn>,
    card: Vec<char>,
    carried: Option<i64>,
    pending: Option<Vec<Option<FooterKey>>>,
}

impl Walk {
    spec fn view(&self) -> WalkView {
        WalkView {
            head: self.head@,
            boxes: self.boxes,
            txns: txn_views(self.txns@),
            card: self.card@,
            carried: self.carried,
            pending: match self.pending {
                Some(keys) => Some(keys@),
                None => None,
            },
        }
    }
}

/// The message on a card row without four digits.
pub open spec fn card_message(digits: Seq<char>) -> Seq<char> {
    "KART NO satırında son 4 hane okunamadı: \""@ + digits + "\""@
}

/// A card row names the card of the transactions below it by its last four
/// digits.
pub open spec fn card_row(w: WalkView, cells: Seq<Seq<char>>) -> Result<WalkView, StopView> {
    let all = digits(join(cells, ""@));
    if all.len() < 4 {
        structure(card_message(all))
    } else {
        Ok(WalkView { card: all.skip(all.len() - 4), ..w })
    }
}

/// The row of the balance carried over gives its first amount.
pub open spec fn carried_row(w: WalkView, cells: Seq<Seq<char>>) -> Result<WalkView, StopView> {
    match first_amount(cells, 0, cells.len() as int) {
        AmountReading::Minor(minor, _) => Ok(WalkView { carried: Some(minor), ..w }),
        AmountReading::Unreadable => Ok(w),
        AmountReading::OutOfRange => Err(StopView::OutOfRange),
    }
}

/// A row that starts with a date is a transaction.
pub open spec fn txn_row(
    w: WalkView,
    cells: Seq<Seq<char>>,
    tokens: Seq<char>,
    date: Seq<char>,
) -> Result<WalkView, StopView> {
    match txn_of(cells, tokens, date, w.card, w.txns.len()) {
        Ok(txn) => Ok(WalkView { txns: w.txns.push(txn), ..w }),
        Err(stop) => Err(stop),
    }
}

/// The cells of a head row that carry text: neither empty nor a colon.
pub open spec fn spoken(cells: Seq<Seq<char>>) -> Seq<Seq<char>>
    decreases cells.len(),
{
    if cells.len() == 0 {
        Seq::empty()
    } else {
        let cell = trim(cells.last());
        if cell.len() == 0 || cell == seq![':'] {
            spoken(cells.drop_last())
        } else {
            spoken(cells.drop_last()).push(cell)
        }
    }
}

/// The head with labels and values read into it, two by two.
pub open spec fn with_pairs(head: StatementHeadView, pairs: Seq<Seq<char>>) -> Option<
    StatementHeadView,
>
    decreases pairs.len(),
{
    if pairs.len() < 2 {
        Some(head)
    } else {
        match with_pair(head, pairs[0], pairs[1]) {
            Some(next) => with_pairs(next, pairs.skip(2)),
            None => None,
        }
    }
}

pub open spec fn head_row(w: WalkView, cells: Seq<Seq<char>>) -> Result<WalkView, StopView> {
    match with_pairs(w.head, spoken(cells)) {
        Some(head) => Ok(WalkView { head, ..w }),
        None => Err(StopView::OutOfRange),
    }
}

pub open spec fn has_label(keys: Seq<Option<FooterKey>>) -> bool {
    exists|i: int| 0 <= i < keys.len() && (#[trigger] keys[i]) is Some
}

/// A row of footer labels waits for its amounts; any other row is a head row.
pub open spec fn label_row(w: WalkView, cells: Seq<Seq<char>>) -> Result<WalkView, StopView> {
    if has_label(label_keys(cells)) {
        Ok(WalkView { pending: Some(label_keys(cells)), ..w })
    } else {
        head_row(w, cells)
    }
}

/// A row without a colon may belong to the footer: as a row of boxes, as the
/// amounts of the labels above it, or as a row of labels.
pub open spec fn footer_row(w: WalkView, cells: Seq<Seq<char>>) -> Result<WalkView, StopView> {
    match boxes_in_row(cells, 0) {
        None => Err(StopView::OutOfRange),
        Some(direct) => if direct.len() > 0 {
            Ok(WalkView { boxes: with_boxes(w.boxes, direct), pending: None, ..w })
        } else {
            match w.pending {
                None => label_row(w, cells),
                Some(keys) => match boxes_below(keys, cells, 0) {
                    None => Err(StopView::OutOfRange),
                    Some(below) => if below.len() > 0 {
                        Ok(WalkView { boxes: with_boxes(w.boxes, below), pending: None, ..w })
                    } else {
                        label_row(WalkView { pending: None, ..w }, cells)
                    },
                },
            }
        },
    }
}

/// One row read.
#[verifier::opaque]
pub open spec fn row_step(w: WalkView, row: HtmlRowView) -> Result<WalkView, StopView> {
    let cells = data_cells(row.cells);
    let line = folded(join(cells, " "@));
    if contains(line, "KART NO"@) {
        card_row(w, cells)
    } else if contains(line, "ONCEKI AYDAN DEVIR"@) {
        carried_row(w, cells)
    } else if cells.len() > 0 && tr_date(cells[0]) is Some {
        txn_row(w, cells, row_tokens(row), tr_date(cells[0])->0)
    } else if cells.contains(seq![':']) {
        head_row(w, cells)
    } else {
        footer_row(w, cells)
    }
}

/// The rows read one after the other, until one stops the reading.
pub open spec fn walked(w: WalkView, rows: Seq<HtmlRowView>) -> Result<WalkView, StopView>
    decreases rows.len(),
{
    if rows.len() == 0 {
        Ok(w)
    } else {
        match walked(w, rows.drop_last()) {
            Ok(before) => row_step(before, rows.last()),
            Err(stop) => Err(stop),
        }
    }
}

/// A statement of which nothing has been read.
pub open spec fn fresh(source_sha256: Seq<char>) -> WalkView {
    WalkView {
        head: StatementHeadView {
            period_end: Seq::empty(),
            next_period_end: None,
            due_date: None,
            next_due_date: None,
            previous_balance_minor: 0,
            spend_minor: 0,
            fees_minor: 0,
            payments_minor: 0,
            period_debt_minor: 0,
            period_debt_usd_minor: 0,
            min_pay_minor: 0,
            card_limit_minor: None,
            available_limit_minor: None,
            source_sha256,
        },
        boxes: FooterBoxes {
            previous: None,
            spend: None,
            fees: None,
            payments: None,
            debt: None,
            debt_usd: None,
        },
        txns: Seq::empty(),
        card: Seq::empty(),
        carried: None,
        pending: None,
    }
}

/// The sum of the transactions of one direction.
pub open spec fn total(txns: Seq<ParsedTxnView>, direction: Direction) -> int
    decreases txns.len(),
{
    if txns.len() == 0 {
        0
    } else {
        total(txns.drop_last(), direction) + if txns.last().direction == direction {
            txns.last().amount_minor as int
        } else {
            0
        }
    }
}

/// A number that 64 bits can hold.
pub open spec fn in_range(n: int) -> bool {
    i64::MIN <= n <= i64::MAX
}

/// No partial sum of the transactions of one direction leaves 64 bits.
pub open spec fn total_in_range(txns: Seq<ParsedTxnView>, direction: Direction) -> bool {
    forall|n: int| 0 <= n <= txns.len() ==> in_range(total(#[trigger] txns.take(n), direction))
}

pub open spec fn or_zero(minor: Option<i64>) -> i64 {
    match minor {
        Some(minor) => minor,
        None => 0,
    }
}

/// The statement, where its footer agrees with its transactions to the last
/// kuruş: the spending with the debits, the payments with the credits, and
/// previous balance + spending + fees - payments with the period debt.
pub open spec fn reconciled(
    head: StatementHeadView,
    txns: Seq<ParsedTxnView>,
    previous: i64,
    spend: i64,
    fees: i64,
    payments: i64,
    debt: i64,
) -> Result<ParseResultView, StopView> {
    let debit = total(txns, Direction::Debit);
    let credit = total(txns, Direction::Credit);
    let computed = previous + debit + fees - credit;
    if !total_in_range(txns, Direction::Debit) || !total_in_range(txns, Direction::Credit)
        || !in_range(previous + debit) || !in_range(previous + debit + fees) || !in_range(
        computed,
    ) {
        Err(StopView::OutOfRange)
    } else if debit != spend || credit != payments || computed != debt {
        Err(
            StopView::Refused(
                ParseErrorView::Reconcile {
                    previous_minor: previous,
                    sum_debit_minor: debit as i64,
                    fees_minor: fees,
                    sum_credit_minor: credit as i64,
                    computed_minor: computed as i64,
                    period_debt_minor: debt,
                },
            ),
        )
    } else {
        Ok(
            ParseResultView {
                statement: StatementHeadView {
                    previous_balance_minor: previous,
                    spend_minor: spend,
                    fees_minor: fees,
                    payments_minor: payments,
                    period_debt_minor: debt,
                    ..head
                },
                txns,
            },
        )
    }
}

/// The statement of the rows that were read: it has a closing date, and its
/// footer names spending, payments and debt and agrees with the transactions.
pub open spec fn finished(w: WalkView) -> Result<ParseResultView, StopView> {
    if w.head.period_end.len() == 0 {
        structure("Hesap Kesim Tarihi bulunamadı"@)
    } else {
        match (w.boxes.spend, w.boxes.payments, w.boxes.debt) {
            (None, _, _) => structure("dip kutusu yok: Harcamalarınız"@),
            (Some(_), None, _) => structure("dip kutusu yok: Ödemeleriniz"@),
            (Some(_), Some(_), None) => structure("dip kutusu yok: Dönem Borcu"@),
            (Some(spend), Some(payments), Some(debt)) => reconciled(
                w.head,
                w.txns,
                or_zero(
                    if w.carried is Some {
                        w.carried
                    } else {
                        w.boxes.previous
                    },
                ),
                spend,
                or_zero(w.boxes.fees),
                payments,
                debt,
            ),
        }
    }
}

/// A document is a statement of this bank by its title.
pub open spec fn is_ziraat(doc: HtmlDocumentView) -> bool {
    contains(folded(join(doc.titles, " "@)), "ZIRAAT KATILIM"@)
}

/// The statement that a document holds.
pub open spec fn statement_of(doc: HtmlDocumentView, source_sha256: Seq<char>) -> Result<
    ParseResultView,
    StopView,
> {
    if !is_ziraat(doc) {
        Err(StopView::Refused(ParseErrorView::NotZiraat))
    } else {
        match walked(fresh(source_sha256), doc.rows) {
            Ok(w) => finished(w),
            Err(stop) => Err(stop),
        }
    }
}

fn card_refusal(digits: &[char]) -> (r: Stop)
    ensures
        r@ == StopView::Refused(ParseErrorView::Structure(card_message(digits@))),
{
    let mut message = String::new();
    message.append("KART NO satırında son 4 hane okunamadı: \"");
    message.append(string_of(digits).as_str());
    message.append("\"");
    proof {
        assert(message@ =~= card_message(digits@));
    }
    Stop::Refused(ParseError::Structure(message))
}

fn spoken_cells(cells: &[Vec<char>]) -> (r: Vec<Vec<char>>)
    ensures
        views(r@) == spoken(views(cells@)),
{
    let mut r: Vec<Vec<char>> = Vec::new();
    let mut i: usize = 0;
    let ghost texts = views(cells@);
    while i < cells.len()
        invariant
            i <= cells.len(),
            texts == views(cells@),
            views(r@) == spoken(texts.take(i as int)),
        decreases cells.len() - i,
    {
        let cell = trimmed(&cells[i]);
        proof {
            assert(texts.take(i as int + 1).drop_last() =~= texts.take(i as int));
            assert(texts.take(i as int + 1).last() == cells@[i as int]@);
            if cell@.len() == 1 && cell@[0] == ':' {
                assert(cell@ =~= seq![':']);
            }
        }
        if !(cell.len() == 0 || (cell.len() == 1 && cell[0] == ':')) {
            let ghost before = r@;
            r.push(vstd::slice::slice_to_vec(cell));
            proof {
                assert(views(r@) =~= views(before).push(cell@));
            }
        }
        i += 1;
    }
    proof {
        assert(texts.take(texts.len() as int) =~= texts);
    }
    r
}

fn has_colon(cells: &[Vec<char>]) -> (r: bool)
    ensures
        r == views(cells@).contains(seq![':']),
{
    let mut i: usize = 0;
    let ghost texts = views(cells@);
    while i < cells.len()
        invariant
            i <= cells.len(),
            texts == views(cells@),
            forall|j: int| 0 <= j < i ==> texts[j] != seq![':'],
        decreases cells.len() - i,
    {
        if cells[i].len() == 1 && cells[i][0] == ':' {
            proof {
                assert(texts[i as int] =~= seq![':']);
            }
            return true;
        }
        i += 1;
    }
    false
}

fn any_label(keys: &[Option<FooterKey>]) -> (r: bool)
    ensures
        r == has_label(keys@),
{
    let mut i: usize = 0;
    while i < keys.len()
        invariant
            i <= keys.len(),
            forall|j: int| 0 <= j < i ==> (#[trigger] keys@[j]) is None,
        decreases keys.len() - i,
    {
        if keys[i].is_some() {
            proof {
                assert(keys@[i as int] is Some);
            }
            return true;
        }
        i += 1;
    }
    false
}

/// The outcome of reading a row, and the state it left.
spec fn stepped(expected: Result<WalkView, StopView>, r: Result<(), Stop>, after: WalkView) -> bool {
    match r {
        Ok(()) => expected == Ok::<WalkView, StopView>(after),
        Err(stop) => expected == Err::<WalkView, StopView>(stop@),
    }
}

impl Walk {
    fn read_head_row(&mut self, cells: &[Vec<char>]) -> (r: Result<(), Stop>)
        ensures
            stepped(head_row(old(self).view(), views(cells@)), r, final(self).view()),
    {
        let pairs = spoken_cells(cells);
        let ghost texts = views(pairs@);
        let ghost start = old(self).view();
        let mut i: usize = 0;
        proof {
            assert(texts.skip(0) =~= texts);
        }
        while pairs.len() - i >= 2
            invariant
                i <= pairs.len(),
                start == old(self).view(),
                texts == views(pairs@),
                texts == spoken(views(cells@)),
                self.view() == (WalkView { head: self.head@, ..start }),
                with_pairs(start.head, texts) == with_pairs(self.head@, texts.skip(i as int)),
            decreases pairs.len() - i,
        {
            proof {
                let rest = texts.skip(i as int);
                assert(rest[0] == pairs@[i as int]@);
                assert(rest[1] == pairs@[i as int + 1]@);
                assert(rest.skip(2) =~= texts.skip(i as int + 2));
            }
            if !apply_head_pair(&pairs[i], &pairs[i + 1], &mut self.head) {
                return Err(Stop::OutOfRange);
            }
            i += 2;
        }
        Ok(())
    }

    fn read_label_row(&mut self, cells: &[Vec<char>]) -> (r: Result<(), Stop>)
        ensures
            stepped(label_row(old(self).view(), views(cells@)), r, final(self).view()),
    {
        let keys = footer_keys(cells);
        if any_label(&keys) {
            self.pending = Some(keys);
            Ok(())
        } else {
            self.read_head_row(cells)
        }
    }

    fn read_footer_row(&mut self, cells: &[Vec<char>]) -> (r: Result<(), Stop>)
        ensures
            stepped(footer_row(old(self).view(), views(cells@)), r, final(self).view()),
    {
        let direct = match footer_boxes_in_row(cells) {
            Some(direct) => direct,
            None => {
                return Err(Stop::OutOfRange);
            },
        };
        if direct.len() > 0 {
            apply_footer_boxes(&mut self.boxes, &direct);
            self.pending = None;
            return Ok(());
        }
        match self.pending.take() {
            None => self.read_label_row(cells),
            Some(keys) => {
                let below = match footer_boxes_below(&keys, cells) {
                    Some(below) => below,
                    None => {
                        return Err(Stop::OutOfRange);
                    },
                };
                if below.len() > 0 {
                    apply_footer_boxes(&mut self.boxes, &below);
                    Ok(())
                } else {
                    self.read_label_row(cells)
                }
            },
        }
    }

    fn read_row(&mut self, row: &HtmlRow) -> (r: Result<(), Stop>)
        ensures
            stepped(row_step(old(self).view(), row@), r, final(self).view()),
    {
        proof {
            reveal(row_step);
        }
        let (cells, tokens) = row_parts(row);
        let ghost texts = views(cells@);
        let joined = join_chars(&cells, " ");
        let line = fold_text(&joined);
        if has_str(&line, "KART NO") {
            let all = join_chars(&cells, "");
            let digits = digits_of(&all);
            if digits.len() < 4 {
                return Err(card_refusal(&digits));
            }
            let last4 = slice_subrange(&digits, digits.len() - 4, digits.len());
            self.card = vstd::slice::slice_to_vec(last4);
            proof {
                assert(self.card@ =~= digits@.skip(digits@.len() - 4));
            }
            return Ok(());
        }
        if has_str(&line, "ONCEKI AYDAN DEVIR") {
            match find_amount(&cells, 0, cells.len()) {
                AmountReading::Minor(minor, _) => {
                    self.carried = Some(minor);
                },
                AmountReading::Unreadable => {},
                AmountReading::OutOfRange => {
                    return Err(Stop::OutOfRange);
                },
            }
            return Ok(());
        }
        if cells.len() > 0 {
            proof {
                assert(texts[0] == cells@[0]@);
            }
            if let Some(iso) = parse_tr_date(&cells[0]) {
                match txn_from_row(&cells, &tokens, iso, &self.card, self.txns.len()) {
                    Ok(txn) => {
                        let ghost before = self.txns@;
                        self.txns.push(txn);
                        proof {
                            assert(txn_views(self.txns@) =~= txn_views(before).push(txn@));
                        }
                        return Ok(());
                    },
                    Err(stop) => {
                        return Err(stop);
                    },
                }
            }
        }
        if has_colon(&cells) {
            self.read_head_row(&cells)
        } else {
            self.read_footer_row(&cells)
        }
    }
}

/// The sum of the transactions of one direction; `None` where a partial sum
/// leaves 64 bits.
fn sum(txns: &[ParsedTxn], direction: Direction) -> (r: Option<i64>)
    ensures
        match r {
            Some(n) => n == total(txn_views(txns@), direction) && total_in_range(
                txn_views(txns@),
                direction,
            ),
            None => !total_in_range(txn_views(txns@), direction),
        },
{
    let ghost all = txn_views(txns@);
    let mut n: i64 = 0;
    let mut i: usize = 0;
    while i < txns.len()
        invariant
            i <= txns.len(),
            all == txn_views(txns@),
            n == total(all.take(i as int), direction),
            forall|k: int|
                0 <= k <= i ==> in_range(total(#[trigger] all.take(k), direction)),
        decreases txns.len() - i,
    {
        proof {
            assert(all.take(i as int + 1).drop_last() =~= all.take(i as int));
            assert(all.take(i as int + 1).last() == txns@[i as int]@);
        }
        if txns[i].direction == direction {
            match n.checked_add(txns[i].amount_minor) {
                Some(next) => {
                    n = next;
                },
                None => {
                    proof {
                        assert(!in_range(total(all.take(i as int + 1), direction)));
                    }
                    return None;
                },
            }
        }
        i += 1;
    }
    proof {
        assert(all.take(all.len() as int) =~= all);
    }
    Some(n)
}

/// The refusal of a statement whose footer does not agree.
pub fn reconcile(
    previous_minor: i64,
    sum_debit_minor: i64,
    fees_minor: i64,
    sum_credit_minor: i64,
    period_debt_minor: i64,
) -> (r: ParseError)
    requires
        in_range(previous_minor + sum_debit_minor),
        in_range(previous_minor + sum_debit_minor + fees_minor),
        in_range(previous_minor + sum_debit_minor + fees_minor - sum_credit_minor),
    ensures
        r@ == (ParseErrorView::Reconcile {
            previous_minor,
            sum_debit_minor,
            fees_minor,
            sum_credit_minor,
            computed_minor: (previous_minor + sum_debit_minor + fees_minor
                - sum_credit_minor) as i64,
            period_debt_minor,
        }),
{
    ParseError::Reconcile {
        previous_minor,
        sum_debit_minor,
        fees_minor,
        sum_credit_minor,
        computed_minor: previous_minor + sum_debit_minor + fees_minor - sum_credit_minor,
        period_debt_minor,
    }
}

fn refuse(message: &str) -> (r: Result<ParseResult, Stop>)
    ensures
        r matches Err(stop) && stop@ == StopView::Refused(ParseErrorView::Structure(message@)),
{
    Err(Stop::Refused(ParseError::Structure(message.to_owned())))
}

fn finish(w: Walk) -> (r: Result<ParseResult, Stop>)
    ensures
        match r {
            Ok(result) => finished(w.view()) == Ok::<ParseResultView, StopView>(result@),
            Err(stop) => finished(w.view()) == Err::<ParseResultView, StopView>(stop@),
        },
{
    if w.head.period_end.as_str().is_empty() {
        return refuse("Hesap Kesim Tarihi bulunamadı");
    }
    let previous: i64 = match w.carried {
        Some(minor) => minor,
        None => match w.boxes.previous {
            Some(minor) => minor,
            None => 0,
        },
    };
    let spend: i64 = match w.boxes.spend {
        Some(minor) => minor,
        None => {
            return refuse("dip kutusu yok: Harcamalarınız");
        },
    };
    let fees: i64 = match w.boxes.fees {
        Some(minor) => minor,
        None => 0,
    };
    let payments: i64 = match w.boxes.payments {
        Some(minor) => minor,
        None => {
            return refuse("dip kutusu yok: Ödemeleriniz");
        },
    };
    let debt: i64 = match w.boxes.debt {
        Some(minor) => minor,
        None => {
            return refuse("dip kutusu yok: Dönem Borcu");
        },
    };
    let (debit, credit) = match (
        sum(&w.txns, Direction::Debit),
        sum(&w.txns, Direction::Credit),
    ) {
        (Some(debit), Some(credit)) => (debit, credit),
        _ => {
            return Err(Stop::OutOfRange);
        },
    };
    let computed: i64 = match previous.checked_add(debit) {
        Some(n) => match n.checked_add(fees) {
            Some(n) => match n.checked_sub(credit) {
                Some(n) => n,
                None => {
                    return Err(Stop::OutOfRange);
                },
            },
            None => {
                return Err(Stop::OutOfRange);
            },
        },
        None => {
            return Err(Stop::OutOfRange);
        },
    };
    if debit != spend || credit != payments || computed != debt {
        return Err(Stop::Refused(reconcile(previous, debit, fees, credit, debt)));
    }
    let mut head = w.head;
    head.previous_balance_minor = previous;
    head.spend_minor = spend;
    head.fees_minor = fees;
    head.payments_minor = payments;
    head.period_debt_minor = debt;
    Ok(ParseResult { statement: head, txns: w.txns })
}

/// Reads the statement that a document holds.
pub fn read_statement(doc: &HtmlDocument, source_sha256: String) -> (r: Result<ParseResult, Stop>)
    ensures
        match r {
            Ok(result) => statement_of(doc@, source_sha256@) == Ok::<ParseResultView, StopView>(
                result@,
            ),
            Err(stop) => statement_of(doc@, source_sha256@) == Err::<ParseResultView, StopView>(
                stop@,
            ),
        },
{
    let title = join_strings(&doc.titles, " ");
    let title = fold_text(&title);
    if !has_str(&title, "ZIRAAT KATILIM") {
        return Err(Stop::Refused(ParseError::NotZiraat));
    }
    let ghost sha = source_sha256@;
    let mut w = Walk {
        head: StatementHead {
            period_end: String::new(),
            next_period_end: None,
            due_date: None,
            next_due_date: None,
            previous_balance_minor: 0,
            spend_minor: 0,
            fees_minor: 0,
            payments_minor: 0,
            period_debt_minor: 0,
            period_debt_usd_minor: 0,
            min_pay_minor: 0,
            card_limit_minor: None,
            available_limit_minor: None,
            source_sha256,
        },
        boxes: FooterBoxes {
            previous: None,
            spend: None,
            fees: None,
            payments: None,
            debt: None,
            debt_usd: None,
        },
        txns: Vec::new(),
        card: Vec::new(),
        carried: None,
        pending: None,
    };
    let ghost rows = doc@.rows;
    proof {
        assert(w.view() =~= fresh(sha));
    }
    let mut i: usize = 0;
    while i < doc.rows.len()
        invariant
            i <= doc.rows.len(),
            rows == doc@.rows,
            sha == source_sha256@,
            is_ziraat(doc@),
            walked(fresh(sha), rows.take(i as int)) == Ok::<WalkView, StopView>(w.view()),
        decreases doc.rows.len() - i,
    {
        proof {
            assert(rows.take(i as int + 1).drop_last() =~= rows.take(i as int));
            assert(rows.take(i as int + 1).last() == doc.rows@[i as int]@);
        }
        if let Err(stop) = w.read_row(&doc.rows[i]) {
            proof {
                walk_stays_stopped(fresh(sha), rows, i as int + 1);
            }
            return Err(stop);
        }
        i += 1;
    }
    proof {
        assert(rows.take(rows.len() as int) =~= rows);
    }
    finish(w)
}

proof fn walk_stays_stopped(w: WalkView, rows: Seq<HtmlRowView>, n: int)
    requires
        0 <= n <= rows.len(),
        walked(w, rows.take(n)) is Err,
    ensures
        walked(w, rows) == walked(w, rows.take(n)),
    decreases rows.len() - n,
{
    if n < rows.len() {
        assert(rows.take(n + 1).drop_last() =~= rows.take(n));
        walk_stays_stopped(w, rows, n + 1);
    } else {
        assert(rows.take(n) =~= rows);
    }
}

/// The statement in a file's bytes.
pub open spec fn statement_in(bytes: Seq<u8>) -> Result<ParseResultView, StopView> {
    statement_of(html_document(source_text(bytes)), source_fingerprint(bytes))
}

/// Reads the statement in a file's bytes, all of whose amounts and sums 64
/// bits can hold.
pub fn parse_ziraat_html(bytes: &[u8]) -> (r: Result<ParseResult, ParseError>)
    requires
        statement_in(bytes@) != Err::<ParseResultView, StopView>(StopView::OutOfRange),
    ensures
        match r {
            Ok(result) => statement_in(bytes@) == Ok::<ParseResultView, StopView>(result@)
                && result.statement.source_sha256@.len() == 64,
            Err(e) => statement_in(bytes@) == Err::<ParseResultView, StopView>(
                StopView::Refused(e@),
            ),
        },
        valid_utf8(bytes@) ==> lossy_text(bytes@) == decode_utf8(bytes@),
{
    let (doc, fingerprint) = open_document(bytes);
    proof {
        if statement_in(bytes@) is Ok {
            statement_is_identified(bytes@);
        }
    }
    match read_statement(&doc, fingerprint) {
        Ok(result) => Ok(result),
        Err(Stop::Refused(e)) => Err(e),
        Err(Stop::OutOfRange) => vstd::pervasive::unreached(),
    }
}

/// Reads the statement in a file's bytes; `None` where an amount or a sum is
/// too large for 64 bits.
pub fn try_parse_ziraat_html(bytes: &[u8]) -> (r: Option<Result<ParseResult, ParseError>>)
    ensures
        match r {
            Some(Ok(result)) => statement_in(bytes@) == Ok::<ParseResultView, StopView>(result@),
            Some(Err(e)) => statement_in(bytes@) == Err::<ParseResultView, StopView>(
                StopView::Refused(e@),
            ),
            None => statement_in(bytes@) == Err::<ParseResultView, StopView>(
                StopView::OutOfRange,
            ),
        },
        valid_utf8(bytes@) ==> lossy_text(bytes@) == decode_utf8(bytes@),
{
    let (doc, fingerprint) = open_document(bytes);
    match read_statement(&doc, fingerprint) {
        Err(Stop::OutOfRange) => None,
        _ => Some(parse_ziraat_html(bytes)),
    }
}

/// A row of which a transaction is read.
pub open spec fn is_txn_row(row: HtmlRowView) -> bool {
    let cells = data_cells(row.cells);
    let line = folded(join(cells, " "@));
    !contains(line, "KART NO"@) && !contains(line, "ONCEKI AYDAN DEVIR"@) && cells.len() > 0
        && tr_date(cells[0]) is Some
}

/// The number of rows of which a transaction is read.
pub open spec fn txn_rows(rows: Seq<HtmlRowView>) -> nat
    decreases rows.len(),
{
    if rows.len() == 0 {
        0
    } else {
        txn_rows(rows.drop_last()) + if is_txn_row(rows.last()) {
            1nat
        } else {
            0
        }
    }
}

/// The last four digits of a card.
pub open spec fn is_last4(s: Seq<char>) -> bool {
    s.len() == 4 && all_digits(s)
}

/// The state of every walk: the transactions are numbered as they come, each
/// is on a card, and the fingerprint stays.
spec fn sound(w: WalkView, source_sha256: Seq<char>) -> bool {
    &&& w.head.source_sha256 == source_sha256
    &&& w.card.len() == 0 || is_last4(w.card)
    &&& forall|i: int|
        0 <= i < w.txns.len() ==> (#[trigger] w.txns[i]).row_index == i as i64 && is_last4(
            w.txns[i].card_last4,
        ) && w.txns[i].amount_minor >= 0
}

proof fn pairs_keep_fingerprint(head: StatementHeadView, pairs: Seq<Seq<char>>)
    ensures
        with_pairs(head, pairs) matches Some(h) ==> h.source_sha256 == head.source_sha256,
    decreases pairs.len(),
{
    if pairs.len() >= 2 {
        if let Some(next) = with_pair(head, pairs[0], pairs[1]) {
            pairs_keep_fingerprint(next, pairs.skip(2));
        }
    }
}

proof fn step_is_sound(w: WalkView, row: HtmlRowView, source_sha256: Seq<char>)
    requires
        sound(w, source_sha256),
        row_step(w, row) is Ok,
    ensures
        sound(row_step(w, row)->Ok_0, source_sha256),
        row_step(w, row)->Ok_0.txns.len() == w.txns.len() + if is_txn_row(row) {
            1nat
        } else {
            0
        },
{
    reveal(row_step);
    let cells = data_cells(row.cells);
    pairs_keep_fingerprint(w.head, spoken(cells));
    let all = digits(join(cells, ""@));
    digits_are_digits(join(cells, ""@));
    if all.len() >= 4 {
        let last4 = all.skip(all.len() - 4);
        assert forall|i: int| 0 <= i < last4.len() implies is_digit(#[trigger] last4[i]) by {
            assert(is_digit(all[i + all.len() - 4]));
        }
        assert(is_last4(last4));
    }
}

proof fn walk_is_sound(rows: Seq<HtmlRowView>, source_sha256: Seq<char>)
    requires
        walked(fresh(source_sha256), rows) is Ok,
    ensures
        sound(walked(fresh(source_sha256), rows)->Ok_0, source_sha256),
        walked(fresh(source_sha256), rows)->Ok_0.txns.len() == txn_rows(rows),
    decreases rows.len(),
{
    if rows.len() > 0 {
        walk_is_sound(rows.drop_last(), source_sha256);
        step_is_sound(
            walked(fresh(source_sha256), rows.drop_last())->Ok_0,
            rows.last(),
            source_sha256,
        );
    }
}

/// A statement that is read adds up: its spending is the sum of its debits,
/// its payments the sum of its credits, and previous balance + spending + fees
/// - payments is the period debt.
pub proof fn statement_adds_up(doc: HtmlDocumentView, source_sha256: Seq<char>)
    requires
        statement_of(doc, source_sha256) is Ok,
    ensures
        ({
            let r = statement_of(doc, source_sha256)->Ok_0;
            &&& r.statement.spend_minor == total(r.txns, Direction::Debit)
            &&& r.statement.payments_minor == total(r.txns, Direction::Credit)
            &&& r.statement.previous_balance_minor + r.statement.spend_minor
                + r.statement.fees_minor - r.statement.payments_minor
                == r.statement.period_debt_minor
        }),
{
}

/// Every transaction row of a statement is kept, equal ones too: they are
/// numbered from 0 in the order of the rows, each carries the last four digits
/// of a card, and no amount is negative.
pub proof fn every_transaction_row_is_kept(doc: HtmlDocumentView, source_sha256: Seq<char>)
    requires
        statement_of(doc, source_sha256) is Ok,
    ensures
        ({
            let r = statement_of(doc, source_sha256)->Ok_0;
            &&& r.txns.len() == txn_rows(doc.rows)
            &&& forall|i: int|
                0 <= i < r.txns.len() ==> (#[trigger] r.txns[i]).row_index == i as i64 && is_last4(
                    r.txns[i].card_last4,
                ) && r.txns[i].amount_minor >= 0
        }),
{
    walk_is_sound(doc.rows, source_sha256);
}

/// A statement that is read has a closing date and carries the fingerprint of
/// its source.
pub proof fn statement_is_identified(bytes: Seq<u8>)
    requires
        statement_in(bytes) is Ok,
    ensures
        statement_in(bytes)->Ok_0.statement.source_sha256 == source_fingerprint(bytes),
        statement_in(bytes)->Ok_0.statement.period_end.len() > 0,
{
    walk_is_sound(html_document(source_text(bytes)).rows, source_fingerprint(bytes));
}

/// The refusal over a footer names numbers that do not agree: they are those of
/// the transactions, and they do not make up the debt or the footer's own sums.
pub proof fn refused_footer_does_not_agree(
    head: StatementHeadView,
    txns: Seq<ParsedTxnView>,
    previous: i64,
    spend: i64,
    fees: i64,
    payments: i64,
    debt: i64,
)
    ensures
        match reconciled(head, txns, previous, spend, fees, payments, debt) {
            Ok(_) => total(txns, Direction::Debit) == spend && total(txns, Direction::Credit)
                == payments && previous + spend + fees - payments == debt,
            Err(
                StopView::Refused(
                    ParseErrorView::Reconcile {
                        previous_minor,
                        sum_debit_minor,
                        fees_minor,
                        sum_credit_minor,
                        computed_minor,
                        period_debt_minor,
                    },
                ),
            ) => {
                &&& sum_debit_minor == total(txns, Direction::Debit)
                &&& sum_credit_minor == total(txns, Direction::Credit)
                &&& computed_minor == previous_minor + sum_debit_minor + fees_minor
                    - sum_credit_minor
                &&& sum_debit_minor != spend || sum_credit_minor != payments || computed_minor
                    != period_debt_minor
            },
            Err(_) => true,
        },
{
    assert(txns.take(txns.len() as int) =~= txns);
}

} // verus!
