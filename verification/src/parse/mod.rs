//! Reading a Ziraat Katılım credit card statement.
//!
//! A statement is the bank's printed HTML. Its images are taken out, what is
//! left is fingerprinted and cut into table rows, and the rows are read into
//! a [`StatementHead`] and its [`ParsedTxn`]s.
//!
//! Two rules hold everywhere:
//! - A transaction's direction is the plus sign at the end of its amount,
//!   never the colour of its row.
//! - The statement's footer (previous balance + spending + fees - payments =
//!   period debt) has to agree with the transactions to the last kuruş; a
//!   statement whose footer does not is refused.

pub mod amount;
pub mod date;
pub mod document;
pub mod footer;
pub mod images;
pub mod laws;
pub mod merchant;
pub mod row;
pub mod statement;

pub use amount::parse_tr_amount;
pub use merchant::{merchant_norm, merchant_stem_display, PAYMENT_NORM};
pub use statement::{parse_ziraat_html, try_parse_ziraat_html};

use crate::number::{append_int, int_text};
use crate::text::same_str;
use vstd::prelude::*;
use vstd::string::StringExecFns;

verus! {

/// Which way the money of a transaction goes.
#[derive(Debug, Clone, Copy, PartialEq, Eq, Structural)]
pub enum Direction {
    Debit,
    Credit,
}

impl Direction {
    /// The word that a direction is stored as.
    pub open spec fn text(self) -> Seq<char> {
        match self {
            Direction::Debit => "debit"@,
            Direction::Credit => "credit"@,
        }
    }

    /// The direction that a stored word stands for.
    pub open spec fn of_text(s: Seq<char>) -> Option<Direction> {
        if s == "debit"@ {
            Some(Direction::Debit)
        } else if s == "credit"@ {
            Some(Direction::Credit)
        } else {
            None
        }
    }

    pub fn as_str(self) -> (r: &'static str)
        ensures
            r@ == self.text(),
    {
        match self {
            Direction::Debit => "debit",
            Direction::Credit => "credit",
        }
    }

    /// Reads the word back from the `txn.direction` column.
    pub fn from_db(s: &str) -> (r: Option<Direction>)
        ensures
            r == Direction::of_text(s@),
    {
        if same_str(s, "debit") {
            Some(Direction::Debit)
        } else if same_str(s, "credit") {
            Some(Direction::Credit)
        } else {
            None
        }
    }
}

/// A stored direction reads back as the direction it was.
pub proof fn direction_reads_back(d: Direction)
    ensures
        Direction::of_text(d.text()) == Some(d),
{
    reveal_strlit("debit");
    reveal_strlit("credit");
    assert("debit"@.len() != "credit"@.len());
}

/// What a transaction is.
#[derive(Debug, Clone, Copy, PartialEq, Eq, Structural)]
pub enum TxnKind {
    Pos,
    Installment,
    Payment,
    Refund,
}

impl TxnKind {
    /// The word that a kind is stored as.
    pub open spec fn text(self) -> Seq<char> {
        match self {
            TxnKind::Pos => "pos"@,
            TxnKind::Installment => "installment"@,
            TxnKind::Payment => "payment"@,
            TxnKind::Refund => "refund"@,
        }
    }

    /// The kind that a stored word stands for.
    pub open spec fn of_text(s: Seq<char>) -> Option<TxnKind> {
        if s == "pos"@ {
            Some(TxnKind::Pos)
        } else if s == "installment"@ {
            Some(TxnKind::Installment)
        } else if s == "payment"@ {
            Some(TxnKind::Payment)
        } else if s == "refund"@ {
            Some(TxnKind::Refund)
        } else {
            None
        }
    }

    pub fn as_str(self) -> (r: &'static str)
        ensures
            r@ == self.text(),
    {
        match self {
            TxnKind::Pos => "pos",
            TxnKind::Installment => "installment",
            TxnKind::Payment => "payment",
            TxnKind::Refund => "refund",
        }
    }

    /// Reads the word back from the `txn.kind` column.
    pub fn from_db(s: &str) -> (r: Option<TxnKind>)
        ensures
            r == TxnKind::of_text(s@),
    {
        if same_str(s, "pos") {
            Some(TxnKind::Pos)
        } else if same_str(s, "installment") {
            Some(TxnKind::Installment)
        } else if same_str(s, "payment") {
            Some(TxnKind::Payment)
        } else if same_str(s, "refund") {
            Some(TxnKind::Refund)
        } else {
            None
        }
    }
}

/// A stored kind reads back as the kind it was.
pub proof fn kind_reads_back(k: TxnKind)
    ensures
        TxnKind::of_text(k.text()) == Some(k),
{
    reveal_strlit("pos");
    reveal_strlit("installment");
    reveal_strlit("payment");
    reveal_strlit("refund");
    assert("pos"@.len() == 3 && "installment"@.len() == 11 && "payment"@.len() == 7
        && "refund"@.len() == 6);
}

/// The text of an optional string.
pub open spec fn opt_text(s: Option<String>) -> Option<Seq<char>> {
    match s {
        Some(s) => Some(s@),
        None => None,
    }
}

/// A statement: its head and its transactions.
#[derive(Debug, Clone)]
pub struct ParseResult {
    pub statement: StatementHead,
    pub txns: Vec<ParsedTxn>,
}

#[verifier::ext_equal]
pub ghost struct ParseResultView {
    pub statement: StatementHeadView,
    pub txns: Seq<ParsedTxnView>,
}

impl View for ParseResult {
    type V = ParseResultView;

    open spec fn view(&self) -> ParseResultView {
        ParseResultView { statement: self.statement@, txns: txn_views(self.txns@) }
    }
}

pub open spec fn txn_views(txns: Seq<ParsedTxn>) -> Seq<ParsedTxnView> {
    Seq::new(txns.len(), |i: int| txns[i]@)
}

/// What a statement says beside its transactions.
#[derive(Debug, Clone)]
pub struct StatementHead {
    pub period_end: String,
    pub next_period_end: Option<String>,
    pub due_date: Option<String>,
    pub next_due_date: Option<String>,
    pub previous_balance_minor: i64,
    pub spend_minor: i64,
    pub fees_minor: i64,
    pub payments_minor: i64,
    pub period_debt_minor: i64,
    pub period_debt_usd_minor: i64,
    pub min_pay_minor: i64,
    pub card_limit_minor: Option<i64>,
    pub available_limit_minor: Option<i64>,
    pub source_sha256: String,
}

#[verifier::ext_equal]
pub ghost struct StatementHeadView {
    pub period_end: Seq<char>,
    pub next_period_end: Option<Seq<char>>,
    pub due_date: Option<Seq<char>>,
    pub next_due_date: Option<Seq<char>>,
    pub previous_balance_minor: i64,
    pub spend_minor: i64,
    pub fees_minor: i64,
    pub payments_minor: i64,
    pub period_debt_minor: i64,
    pub period_debt_usd_minor: i64,
    pub min_pay_minor: i64,
    pub card_limit_minor: Option<i64>,
    pub available_limit_minor: Option<i64>,
    pub source_sha256: Seq<char>,
}

impl View for StatementHead {
    type V = StatementHeadView;

    open spec fn view(&self) -> StatementHeadView {
        StatementHeadView {
            period_end: self.period_end@,
            next_period_end: opt_text(self.next_period_end),
            due_date: opt_text(self.due_date),
            next_due_date: opt_text(self.next_due_date),
            previous_balance_minor: self.previous_balance_minor,
            spend_minor: self.spend_minor,
            fees_minor: self.fees_minor,
            payments_minor: self.payments_minor,
            period_debt_minor: self.period_debt_minor,
            period_debt_usd_minor: self.period_debt_usd_minor,
            min_pay_minor: self.min_pay_minor,
            card_limit_minor: self.card_limit_minor,
            available_limit_minor: self.available_limit_minor,
            source_sha256: self.source_sha256@,
        }
    }
}

/// One transaction of a statement.
#[derive(Debug, Clone)]
pub struct ParsedTxn {
    pub row_index: i64,
    pub date: String,
    pub merchant_raw: String,
    pub merchant_norm: String,
    pub extra: String,
    pub amount_minor: i64,
    pub direction: Direction,
    pub usd_minor: Option<i64>,
    pub bankkart_lira_minor: i64,
    pub card_last4: String,
    pub kind: TxnKind,
}

#[verifier::ext_equal]
pub ghost struct ParsedTxnView {
    pub row_index: i64,
    pub date: Seq<char>,
    pub merchant_raw: Seq<char>,
    pub merchant_norm: Seq<char>,
    pub extra: Seq<char>,
    pub amount_minor: i64,
    pub direction: Direction,
    pub usd_minor: Option<i64>,
    pub bankkart_lira_minor: i64,
    pub card_last4: Seq<char>,
    pub kind: TxnKind,
}

impl View for ParsedTxn {
    type V = ParsedTxnView;

    open spec fn view(&self) -> ParsedTxnView {
        ParsedTxnView {
            row_index: self.row_index,
            date: self.date@,
            merchant_raw: self.merchant_raw@,
            merchant_norm: self.merchant_norm@,
            extra: self.extra@,
            amount_minor: self.amount_minor,
            direction: self.direction,
            usd_minor: self.usd_minor,
            bankkart_lira_minor: self.bankkart_lira_minor,
            card_last4: self.card_last4@,
            kind: self.kind,
        }
    }
}

/// Why a statement was not read.
#[derive(Debug)]
pub enum ParseError {
    NotZiraat,
    Structure(String),
    Amount(String),
    Reconcile {
        previous_minor: i64,
        sum_debit_minor: i64,
        fees_minor: i64,
        sum_credit_minor: i64,
        computed_minor: i64,
        period_debt_minor: i64,
    },
}

pub ghost enum ParseErrorView {
    NotZiraat,
    Structure(Seq<char>),
    Amount(Seq<char>),
    Reconcile {
        previous_minor: i64,
        sum_debit_minor: i64,
        fees_minor: i64,
        sum_credit_minor: i64,
        computed_minor: i64,
        period_debt_minor: i64,
    },
}

impl View for ParseError {
    type V = ParseErrorView;

    open spec fn view(&self) -> ParseErrorView {
        match *self {
            ParseError::NotZiraat => ParseErrorView::NotZiraat,
            ParseError::Structure(s) => ParseErrorView::Structure(s@),
            ParseError::Amount(s) => ParseErrorView::Amount(s@),
            ParseError::Reconcile {
                previous_minor,
                sum_debit_minor,
                fees_minor,
                sum_credit_minor,
                computed_minor,
                period_debt_minor,
            } => ParseErrorView::Reconcile {
                previous_minor,
                sum_debit_minor,
                fees_minor,
                sum_credit_minor,
                computed_minor,
                period_debt_minor,
            },
        }
    }
}

/// What the `Debug` form of a text is: the text in quotation marks, with the
/// characters escaped that Rust escapes.
pub uninterp spec fn debug_form(s: Seq<char>) -> Seq<char>;

/// `str`'s `Debug` through `format!`: a function of the text alone. Which
/// characters it escapes is left unsaid.
#[verifier::external_body]
fn debug_text(s: &str) -> (r: String)
    ensures
        r@ == debug_form(s@),
{
    format!("{s:?}")
}

/// What a refusal says.
pub open spec fn refusal_text(e: ParseErrorView) -> Seq<char> {
    match e {
        ParseErrorView::NotZiraat => "dosya bir Ziraat Katılım ekstresi değil"@,
        ParseErrorView::Structure(what) => "ekstre yapısı bozuk: "@ + what,
        ParseErrorView::Amount(what) => "tutar okunamadı: "@ + debug_form(what),
        ParseErrorView::Reconcile {
            previous_minor,
            sum_debit_minor,
            fees_minor,
            sum_credit_minor,
            computed_minor,
            period_debt_minor,
        } => "dip özeti tutmuyor: önceki "@ + int_text(previous_minor as int) + " + harcama "@
            + int_text(sum_debit_minor as int) + " + ceza "@ + int_text(fees_minor as int)
            + " − ödeme "@ + int_text(sum_credit_minor as int) + " = "@ + int_text(
            computed_minor as int,
        ) + ", ekstre ise dönem borcunu "@ + int_text(period_debt_minor as int) + " yazıyor"@,
    }
}

impl ParseError {
    /// The refusal in words.
    pub fn message(&self) -> (r: String)
        ensures
            r@ == refusal_text(self@),
    {
        let mut text = String::new();
        match self {
            ParseError::NotZiraat => {
                text.append("dosya bir Ziraat Katılım ekstresi değil");
            },
            ParseError::Structure(what) => {
                text.append("ekstre yapısı bozuk: ");
                text.append(what.as_str());
            },
            ParseError::Amount(what) => {
                text.append("tutar okunamadı: ");
                text.append(debug_text(what.as_str()).as_str());
            },
            ParseError::Reconcile {
                previous_minor,
                sum_debit_minor,
                fees_minor,
                sum_credit_minor,
                computed_minor,
                period_debt_minor,
            } => {
                text.append("dip özeti tutmuyor: önceki ");
                append_int(&mut text, *previous_minor);
                text.append(" + harcama ");
                append_int(&mut text, *sum_debit_minor);
                text.append(" + ceza ");
                append_int(&mut text, *fees_minor);
                text.append(" − ödeme ");
                append_int(&mut text, *sum_credit_minor);
                text.append(" = ");
                append_int(&mut text, *computed_minor);
                text.append(", ekstre ise dönem borcunu ");
                append_int(&mut text, *period_debt_minor);
                text.append(" yazıyor");
            },
        }
        proof {
            assert(text@ =~= refusal_text(self@));
        }
        text
    }
}

} // verus!
