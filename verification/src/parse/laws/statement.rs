//! Laws of whole statements: which are read, with what in them, and which are
//! refused.

use crate::parse::{Direction, ParseErrorView, ParseResultView, ParsedTxnView};
use crate::parse::document::{HtmlDocumentView, HtmlRowView};
use crate::parse::merchant::folded;
use crate::parse::row::StopView;
use crate::parse::statement::{finished, fresh, is_ziraat, row_step, statement_of, total,
    total_in_range, walked, WalkView};
use crate::text::{contains, join};
use vstd::prelude::*;

verus! {

/// What transactions of one direction come to.
pub open spec fn sum_of(txns: Seq<ParsedTxnView>, direction: Direction) -> int
    decreases txns.len(),
{
    if txns.len() == 0 {
        0
    } else if txns[0].direction == direction {
        txns[0].amount_minor + sum_of(txns.skip(1), direction)
    } else {
        sum_of(txns.skip(1), direction)
    }
}

proof fn sum_of_one_more(txns: Seq<ParsedTxnView>, direction: Direction)
    requires
        txns.len() > 0,
    ensures
        sum_of(txns, direction) == sum_of(txns.drop_last(), direction) + if txns.last().direction
            == direction {
            txns.last().amount_minor as int
        } else {
            0
        },
    decreases txns.len(),
{
    if txns.len() > 1 {
        sum_of_one_more(txns.skip(1), direction);
        assert(txns.skip(1).drop_last() =~= txns.drop_last().skip(1));
        assert(txns.drop_last()[0] == txns[0]);
    } else {
        assert(sum_of(txns.skip(1), direction) == 0);
        assert(sum_of(txns.drop_last(), direction) == 0);
    }
}

proof fn total_is_the_sum_of(txns: Seq<ParsedTxnView>, direction: Direction)
    ensures
        total(txns, direction) == sum_of(txns, direction),
    decreases txns.len(),
{
    if txns.len() > 0 {
        total_is_the_sum_of(txns.drop_last(), direction);
        sum_of_one_more(txns, direction);
    }
}

/// 64 bits hold a number.
pub open spec fn fits(n: int) -> bool {
    -0x8000_0000_0000_0000 <= n <= 0x7fff_ffff_ffff_ffff
}

/// 64 bits hold what any first transactions of one direction come to.
pub open spec fn sums_fit(txns: Seq<ParsedTxnView>, direction: Direction) -> bool {
    forall|n: int| 0 <= n <= txns.len() ==> fits(sum_of(#[trigger] txns.take(n), direction))
}

proof fn totals_fit(txns: Seq<ParsedTxnView>, direction: Direction)
    ensures
        total_in_range(txns, direction) <==> sums_fit(txns, direction),
{
    assert forall|n: int| 0 <= n <= txns.len() implies total(#[trigger] txns.take(n), direction)
        == sum_of(txns.take(n), direction) by {
        total_is_the_sum_of(txns.take(n), direction);
    }
}

/// The balance that a statement starts from: the one carried over, else that
/// of its box, else none.
pub open spec fn starts_from(w: WalkView) -> int {
    match (w.carried, w.boxes.previous) {
        (Some(minor), _) => minor as int,
        (None, Some(minor)) => minor as int,
        (None, None) => 0,
    }
}

/// The fees of a statement: those of its box, or none where it has no such
/// box.
pub open spec fn fees_of(w: WalkView) -> int {
    match w.boxes.fees {
        Some(minor) => minor as int,
        None => 0,
    }
}

/// Nothing that a statement is made of is missing.
pub open spec fn is_complete(w: WalkView) -> bool {
    w.head.period_end.len() > 0 && w.boxes.spend is Some && w.boxes.payments is Some
        && w.boxes.debt is Some
}

/// What a statement starts from, with its debits and fees, less its credits.
pub open spec fn comes_to(w: WalkView) -> int {
    starts_from(w) + sum_of(w.txns, Direction::Debit) + fees_of(w) - sum_of(
        w.txns,
        Direction::Credit,
    )
}

/// 64 bits hold the sums of a statement.
pub open spec fn is_small_enough(w: WalkView) -> bool {
    let debits = sum_of(w.txns, Direction::Debit);
    sums_fit(w.txns, Direction::Debit) && sums_fit(w.txns, Direction::Credit) && fits(
        starts_from(w) + debits,
    ) && fits(starts_from(w) + debits + fees_of(w)) && fits(comes_to(w))
}

/// The footer of a statement agrees with its transactions to the last kuruş.
pub open spec fn adds_up(w: WalkView) -> bool {
    &&& w.boxes.spend == Some(sum_of(w.txns, Direction::Debit) as i64)
    &&& w.boxes.payments == Some(sum_of(w.txns, Direction::Credit) as i64)
    &&& w.boxes.debt == Some(comes_to(w) as i64)
}

proof fn sums_are_totals(w: WalkView)
    ensures
        total(w.txns, Direction::Debit) == sum_of(w.txns, Direction::Debit),
        total(w.txns, Direction::Credit) == sum_of(w.txns, Direction::Credit),
        total_in_range(w.txns, Direction::Debit) <==> sums_fit(w.txns, Direction::Debit),
        total_in_range(w.txns, Direction::Credit) <==> sums_fit(w.txns, Direction::Credit),
        sums_fit(w.txns, Direction::Debit) ==> fits(sum_of(w.txns, Direction::Debit)),
        sums_fit(w.txns, Direction::Credit) ==> fits(sum_of(w.txns, Direction::Credit)),
{
    total_is_the_sum_of(w.txns, Direction::Debit);
    total_is_the_sum_of(w.txns, Direction::Credit);
    totals_fit(w.txns, Direction::Debit);
    totals_fit(w.txns, Direction::Credit);
    assert(w.txns.take(w.txns.len() as int) =~= w.txns);
}

/// A statement whose rows were read is accepted exactly where nothing is
/// missing, 64 bits hold its sums and its footer agrees with its transactions.
/// It then has the transactions that were read, its fees are the amount of the
/// fee box, and its other sums are those of the other boxes.
pub proof fn statement_that_adds_up_is_read(w: WalkView)
    ensures
        finished(w) is Ok <==> is_complete(w) && is_small_enough(w) && adds_up(w),
        finished(w) matches Ok(read) ==> {
            &&& read.txns == w.txns
            &&& read.statement.period_end == w.head.period_end
            &&& read.statement.next_period_end == w.head.next_period_end
            &&& read.statement.due_date == w.head.due_date
            &&& read.statement.next_due_date == w.head.next_due_date
            &&& read.statement.previous_balance_minor == starts_from(w)
            &&& Some(read.statement.spend_minor) == w.boxes.spend
            &&& read.statement.fees_minor == fees_of(w)
            &&& Some(read.statement.payments_minor) == w.boxes.payments
            &&& Some(read.statement.period_debt_minor) == w.boxes.debt
            &&& read.statement.period_debt_usd_minor == w.head.period_debt_usd_minor
            &&& read.statement.min_pay_minor == w.head.min_pay_minor
            &&& read.statement.card_limit_minor == w.head.card_limit_minor
            &&& read.statement.available_limit_minor == w.head.available_limit_minor
            &&& read.statement.source_sha256 == w.head.source_sha256
        },
{
    sums_are_totals(w);
}

/// The sums of a statement that was read are those of its transactions, and
/// they lead from the balance before it to its debt.
pub proof fn read_statement_balances(w: WalkView, read: ParseResultView)
    requires
        finished(w) == Ok::<ParseResultView, StopView>(read),
    ensures
        read.statement.spend_minor == sum_of(read.txns, Direction::Debit),
        read.statement.payments_minor == sum_of(read.txns, Direction::Credit),
        read.statement.previous_balance_minor + read.statement.spend_minor
            + read.statement.fees_minor - read.statement.payments_minor
            == read.statement.period_debt_minor,
{
    sums_are_totals(w);
}

/// A statement whose footer does not agree with its transactions is refused,
/// and the refusal names what was added up and the debt that it was held
/// against.
pub proof fn statement_that_does_not_add_up_is_refused(w: WalkView)
    requires
        is_complete(w),
        is_small_enough(w),
        !adds_up(w),
    ensures
        finished(w) matches Err(StopView::Refused(ParseErrorView::Reconcile {
            previous_minor,
            sum_debit_minor,
            fees_minor,
            sum_credit_minor,
            computed_minor,
            period_debt_minor,
        })) && {
            &&& previous_minor == starts_from(w)
            &&& sum_debit_minor == sum_of(w.txns, Direction::Debit)
            &&& fees_minor == fees_of(w)
            &&& sum_credit_minor == sum_of(w.txns, Direction::Credit)
            &&& computed_minor == previous_minor + sum_debit_minor + fees_minor - sum_credit_minor
            &&& Some(period_debt_minor) == w.boxes.debt
        },
{
    sums_are_totals(w);
}

/// A statement with something missing is refused for it: for its closing date
/// before its boxes, and for its spending before its payments and these before
/// its debt.
pub proof fn statement_with_something_missing_is_refused(w: WalkView)
    requires
        !is_complete(w),
    ensures
        finished(w) == Err::<ParseResultView, StopView>(
            StopView::Refused(
                ParseErrorView::Structure(
                    if w.head.period_end.len() == 0 {
                        "Hesap Kesim Tarihi bulunamadı"@
                    } else if w.boxes.spend is None {
                        "dip kutusu yok: Harcamalarınız"@
                    } else if w.boxes.payments is None {
                        "dip kutusu yok: Ödemeleriniz"@
                    } else {
                        "dip kutusu yok: Dönem Borcu"@
                    },
                ),
            ),
        ),
{
}

/// A document of the bank whose rows can all be read, and whose boxes are there
/// and agree with its transactions, is a statement; its fees are the amount of
/// the fee box, and no fees where none was read.
pub proof fn document_that_adds_up_is_read(
    doc: HtmlDocumentView,
    source_sha256: Seq<char>,
    w: WalkView,
)
    requires
        is_ziraat(doc),
        walked(fresh(source_sha256), doc.rows) == Ok::<WalkView, StopView>(w),
        is_complete(w),
        is_small_enough(w),
        adds_up(w),
    ensures
        statement_of(doc, source_sha256) matches Ok(read) && read.txns == w.txns
            && read.statement.fees_minor == fees_of(w)
            && read.statement.previous_balance_minor == starts_from(w)
            && read.statement.spend_minor == sum_of(w.txns, Direction::Debit)
            && read.statement.payments_minor == sum_of(w.txns, Direction::Credit)
            && read.statement.period_debt_minor == comes_to(w),
{
    statement_that_adds_up_is_read(w);
    sums_are_totals(w);
}

/// The debt of a statement grows with its fees: of two that were read and
/// differ in the fee box and the debt box alone, the debts differ by as much as
/// the fees.
pub proof fn fees_add_to_the_debt(a: WalkView, b: WalkView)
    requires
        finished(a) is Ok,
        finished(b) is Ok,
        a.txns == b.txns,
        a.carried == b.carried,
        a.boxes.previous == b.boxes.previous,
    ensures
        finished(a)->Ok_0.statement.period_debt_minor
            - finished(b)->Ok_0.statement.period_debt_minor == fees_of(a) - fees_of(b),
{
    statement_that_adds_up_is_read(a);
    statement_that_adds_up_is_read(b);
    sums_are_totals(a);
    sums_are_totals(b);
}

/// A document whose title names the bank, however it is written, is one of its
/// statements; any other is refused as none.
pub proof fn bank_is_told_by_the_title(doc: HtmlDocumentView, source_sha256: Seq<char>)
    ensures
        contains(folded(join(doc.titles, " "@)), "ZIRAAT KATILIM"@) <==> statement_of(
            doc,
            source_sha256,
        ) != Err::<ParseResultView, StopView>(StopView::Refused(ParseErrorView::NotZiraat)),
{
    if is_ziraat(doc) {
        rows_never_refuse_the_bank(fresh(source_sha256), doc.rows);
    }
}

proof fn rows_never_refuse_the_bank(w: WalkView, rows: Seq<HtmlRowView>)
    ensures
        walked(w, rows) != Err::<WalkView, StopView>(StopView::Refused(ParseErrorView::NotZiraat)),
    decreases rows.len(),
{
    if rows.len() > 0 {
        rows_never_refuse_the_bank(w, rows.drop_last());
        reveal(row_step);
    }
}

} // verus!
