//! Importing a statement.

use crate::parse::{opt_text, txn_views, ParseResult, ParseResultView, ParsedTxn, ParsedTxnView,
    StatementHead, PAYMENT_NORM};
use crate::store::action::{Action, ActionView};
use crate::store::step::{step_view, Stamp, StampView, Step, StepView};
use crate::store::value::{int_at, int_of, opt_text_at, opt_text_of, row_views, text, text_at, Reply,
    ReplyView, SqlValue, SqlView, StoreError, StoreErrorView};
use crate::text::{chars_of, contains, copy, has_str, less, same_str, text_less, text_less_total,
    text_less_transitive, views};
use vstd::prelude::*;

verus! {

/// The payee of card payments; an import labels them with it.
pub const PAYEE_CARD_PAYMENT: &'static str = "Kart ödemesi";

pub const CAT_MARKET: &'static str = "01CATMARKET000000000000000";

pub const CAT_IADE: &'static str = "01CATIADE0000000000000000";

/// The category of card payments.
pub const CAT_ODEME: &'static str = "01CATODEME000000000000000";

/// What an import did.
#[derive(Debug, Clone)]
pub struct ImportReport {
    pub statement_id: String,
    pub txn_count: usize,
    pub labeled: usize,
    pub unlabeled: usize,
    pub duplicate: bool,
}

pub ghost struct ImportReportView {
    pub statement_id: Seq<char>,
    pub txn_count: usize,
    pub labeled: usize,
    pub unlabeled: usize,
    pub duplicate: bool,
}

impl View for ImportReport {
    type V = ImportReportView;

    open spec fn view(&self) -> ImportReportView {
        ImportReportView {
            statement_id: self.statement_id@,
            txn_count: self.txn_count,
            labeled: self.labeled,
            unlabeled: self.unlabeled,
            duplicate: self.duplicate,
        }
    }
}

/// A text put to its place among texts in order, unless it stands there.
pub open spec fn with_text(list: Seq<Seq<char>>, s: Seq<char>) -> Seq<Seq<char>>
    decreases list.len(),
{
    if list.len() == 0 {
        seq![s]
    } else if list.last() == s {
        list
    } else if text_less(list.last(), s) {
        list.push(s)
    } else {
        with_text(list.drop_last(), s).push(list.last())
    }
}

/// The merchants of card payments among transactions, in order, each once.
pub open spec fn payment_norms(txns: Seq<ParsedTxnView>) -> Seq<Seq<char>>
    decreases txns.len(),
{
    if txns.len() == 0 {
        Seq::empty()
    } else if contains(txns.last().merchant_norm, PAYMENT_NORM@) {
        with_text(payment_norms(txns.drop_last()), txns.last().merchant_norm)
    } else {
        payment_norms(txns.drop_last())
    }
}

/// Texts in order, each once.
pub open spec fn strictly_ordered(list: Seq<Seq<char>>) -> bool {
    forall|i: int, j: int| 0 <= i < j < list.len() ==> text_less(list[i], list[j])
}

proof fn with_text_is_ordered(list: Seq<Seq<char>>, s: Seq<char>)
    requires
        strictly_ordered(list),
    ensures
        strictly_ordered(with_text(list, s)),
        forall|x: Seq<char>| #[trigger]
            with_text(list, s).contains(x) <==> list.contains(x) || x == s,
    decreases list.len(),
{
    let r = with_text(list, s);
    if list.len() == 0 {
        assert forall|x: Seq<char>| #[trigger] r.contains(x) <==> list.contains(x) || x == s by {
            assert(r[0] == s);
        }
    } else if list.last() == s {
        assert(list[list.len() - 1] == s);
    } else if text_less(list.last(), s) {
        assert forall|i: int, j: int| 0 <= i < j < r.len() implies text_less(r[i], r[j]) by {
            if j == list.len() && i < list.len() - 1 {
                text_less_transitive(list[i], list.last(), s);
            }
        }
        assert forall|x: Seq<char>| #[trigger] r.contains(x) <==> list.contains(x) || x == s by {
            if list.contains(x) {
                let i = choose|i: int| 0 <= i < list.len() && list[i] == x;
                assert(r[i] == x);
            }
            if x == s {
                assert(r[list.len() as int] == s);
            }
            if r.contains(x) {
                let i = choose|i: int| 0 <= i < r.len() && r[i] == x;
                if i < list.len() {
                    assert(list[i] == x);
                }
            }
        }
    } else {
        let before = list.drop_last();
        let inner = with_text(before, s);
        assert(strictly_ordered(before));
        with_text_is_ordered(before, s);
        text_less_total(list.last(), s);
        assert forall|i: int, j: int| 0 <= i < j < r.len() implies text_less(r[i], r[j]) by {
            if j == inner.len() {
                assert(inner.contains(inner[i]));
                if inner[i] != s {
                    assert(before.contains(inner[i]));
                    let k = choose|k: int| 0 <= k < before.len() && before[k] == inner[i];
                    assert(text_less(list[k], list[list.len() - 1]));
                }
            } else {
                assert(text_less(inner[i], inner[j]));
            }
        }
        assert forall|x: Seq<char>| #[trigger] r.contains(x) <==> list.contains(x) || x == s by {
            if list.contains(x) {
                let i = choose|i: int| 0 <= i < list.len() && list[i] == x;
                if i < before.len() {
                    assert(before[i] == x);
                    assert(inner.contains(x));
                    let k = choose|k: int| 0 <= k < inner.len() && inner[k] == x;
                    assert(r[k] == x);
                } else {
                    assert(r[inner.len() as int] == x);
                }
            }
            if x == s {
                assert(inner.contains(s));
                let k = choose|k: int| 0 <= k < inner.len() && inner[k] == s;
                assert(r[k] == s);
            }
            if r.contains(x) {
                let i = choose|i: int| 0 <= i < r.len() && r[i] == x;
                if i < inner.len() {
                    assert(inner[i] == x);
                    assert(inner.contains(x));
                    if before.contains(x) {
                        let k = choose|k: int| 0 <= k < before.len() && before[k] == x;
                        assert(list[k] == x);
                    }
                } else {
                    assert(list[list.len() - 1] == x);
                }
            }
        }
    }
}

/// The merchants of card payments come in order, each once, and are those of
/// the transactions whose merchant holds the words of a card payment.
pub proof fn payment_norms_are_the_payments(txns: Seq<ParsedTxnView>)
    ensures
        strictly_ordered(payment_norms(txns)),
        forall|x: Seq<char>| #[trigger]
            payment_norms(txns).contains(x) <==> contains(x, PAYMENT_NORM@) && exists|i: int|
                0 <= i < txns.len() && (#[trigger] txns[i]).merchant_norm == x,
    decreases txns.len(),
{
    if txns.len() > 0 {
        let before = txns.drop_last();
        payment_norms_are_the_payments(before);
        with_text_is_ordered(payment_norms(before), txns.last().merchant_norm);
        assert forall|x: Seq<char>| #[trigger]
            payment_norms(txns).contains(x) <==> contains(x, PAYMENT_NORM@) && exists|i: int|
                0 <= i < txns.len() && (#[trigger] txns[i]).merchant_norm == x by {
            if payment_norms(before).contains(x) {
                let i = choose|i: int|
                    0 <= i < before.len() && (#[trigger] before[i]).merchant_norm == x;
                assert(txns[i].merchant_norm == x);
            }
            if payment_norms(txns).contains(x) && !payment_norms(before).contains(x) {
                assert(txns[txns.len() - 1].merchant_norm == x);
            }
            if contains(x, PAYMENT_NORM@) && exists|i: int|
                0 <= i < txns.len() && (#[trigger] txns[i]).merchant_norm == x {
                let i = choose|i: int|
                    0 <= i < txns.len() && (#[trigger] txns[i]).merchant_norm == x;
                if i < before.len() {
                    assert(before[i].merchant_norm == x);
                    assert(payment_norms(before).contains(x));
                } else {
                    assert(x == txns.last().merchant_norm);
                }
            }
        }
    }
}

fn insert_text(list: &mut Vec<String>, s: &str)
    ensures
        views(final(list)@) == with_text(views(old(list)@), s@),
{
    let ghost all = views(list@);
    let mut n: usize = list.len();
    proof {
        assert(all.take(n as int) =~= all);
        assert(with_text(all.take(n as int), s@) + all.skip(n as int) =~= with_text(all, s@));
    }
    while n > 0
        invariant
            n <= list.len(),
            all == views(list@),
            *list == *old(list),
            with_text(all, s@) == with_text(all.take(n as int), s@) + all.skip(n as int),
        decreases n,
    {
        let ghost last = list@[n as int - 1]@;
        proof {
            assert(all.take(n as int).last() == last);
            assert(all.take(n as int).drop_last() =~= all.take(n as int - 1));
        }
        if same_str(list[n - 1].as_str(), s) {
            proof {
                assert(all.take(n as int) + all.skip(n as int) =~= all);
            }
            return;
        }
        if less(list[n - 1].as_str(), s) {
            list.insert(n, copy(s));
            proof {
                assert(views(list@) =~= all.take(n as int).push(s@) + all.skip(n as int));
            }
            return;
        }
        proof {
            let inner = with_text(all.take(n as int - 1), s@);
            assert(inner.push(last) + all.skip(n as int) =~= inner + all.skip(n as int - 1));
        }
        n -= 1;
    }
    list.insert(0, copy(s));
    proof {
        assert(all.take(0) =~= Seq::<Seq<char>>::empty());
        assert(views(list@) =~= seq![s@] + all.skip(0));
    }
}

/// Finds the merchants of card payments.
pub fn find_payment_norms(txns: &[ParsedTxn]) -> (r: Vec<String>)
    ensures
        views(r@) == payment_norms(txn_views(txns@)),
{
    let ghost all = txn_views(txns@);
    let mut norms: Vec<String> = Vec::new();
    let mut i: usize = 0;
    proof {
        assert(views(norms@) =~= Seq::<Seq<char>>::empty());
    }
    while i < txns.len()
        invariant
            i <= txns.len(),
            all == txn_views(txns@),
            views(norms@) == payment_norms(all.take(i as int)),
        decreases txns.len() - i,
    {
        proof {
            assert(all.take(i as int + 1).drop_last() =~= all.take(i as int));
            assert(all.take(i as int + 1).last() == txns@[i as int]@);
        }
        let norm = txns[i].merchant_norm.as_str();
        if has_str(&chars_of(norm), PAYMENT_NORM) {
            insert_text(&mut norms, norm);
        }
        i += 1;
    }
    proof {
        assert(all.take(all.len() as int) =~= all);
    }
    norms
}

/// Which reply an import waits for.
#[derive(Debug)]
pub enum ImportAt {
    Find,
    CountOld { statement_id: String },
    Begin { statement_id: String },
    Statement { statement_id: String },
    /// The payee of a transaction's merchant.
    Alias { statement_id: String, txn: usize },
    Txn { statement_id: String, txn: usize },
    /// The payee of card payments, for one of their merchants.
    Payee { statement_id: String, norms: Vec<String>, norm: usize },
    NewPayee { statement_id: String, norms: Vec<String>, norm: usize, payee_id: String },
    PaymentAlias { statement_id: String, norms: Vec<String>, norm: usize, payee_id: String },
    Link { statement_id: String, norms: Vec<String>, norm: usize },
    Commit { statement_id: String },
    CountNew { statement_id: String },
    /// What was written is being undone because of an error.
    Undo { error: StoreError },
}

#[allow(inconsistent_fields)]
pub ghost enum ImportAtView {
    Find,
    CountOld { statement_id: Seq<char> },
    Begin { statement_id: Seq<char> },
    Statement { statement_id: Seq<char> },
    Alias { statement_id: Seq<char>, txn: nat },
    Txn { statement_id: Seq<char>, txn: nat },
    Payee { statement_id: Seq<char>, norms: Seq<Seq<char>>, norm: nat },
    NewPayee { statement_id: Seq<char>, norms: Seq<Seq<char>>, norm: nat, payee_id: Seq<char> },
    PaymentAlias {
        statement_id: Seq<char>,
        norms: Seq<Seq<char>>,
        norm: nat,
        payee_id: Seq<char>,
    },
    Link { statement_id: Seq<char>, norms: Seq<Seq<char>>, norm: nat },
    Commit { statement_id: Seq<char> },
    CountNew { statement_id: Seq<char> },
    Undo { error: StoreErrorView },
}

impl View for ImportAt {
    type V = ImportAtView;

    open spec fn view(&self) -> ImportAtView {
        match *self {
            ImportAt::Find => ImportAtView::Find,
            ImportAt::CountOld { statement_id } => ImportAtView::CountOld {
                statement_id: statement_id@,
            },
            ImportAt::Begin { statement_id } => ImportAtView::Begin { statement_id: statement_id@ },
            ImportAt::Statement { statement_id } => ImportAtView::Statement {
                statement_id: statement_id@,
            },
            ImportAt::Alias { statement_id, txn } => ImportAtView::Alias {
                statement_id: statement_id@,
                txn: txn as nat,
            },
            ImportAt::Txn { statement_id, txn } => ImportAtView::Txn {
                statement_id: statement_id@,
                txn: txn as nat,
            },
            ImportAt::Payee { statement_id, norms, norm } => ImportAtView::Payee {
                statement_id: statement_id@,
                norms: views(norms@),
                norm: norm as nat,
            },
            ImportAt::NewPayee { statement_id, norms, norm, payee_id } => ImportAtView::NewPayee {
                statement_id: statement_id@,
                norms: views(norms@),
                norm: norm as nat,
                payee_id: payee_id@,
            },
            ImportAt::PaymentAlias { statement_id, norms, norm, payee_id } =>
                ImportAtView::PaymentAlias {
                statement_id: statement_id@,
                norms: views(norms@),
                norm: norm as nat,
                payee_id: payee_id@,
            },
            ImportAt::Link { statement_id, norms, norm } => ImportAtView::Link {
                statement_id: statement_id@,
                norms: views(norms@),
                norm: norm as nat,
            },
            ImportAt::Commit { statement_id } => ImportAtView::Commit {
                statement_id: statement_id@,
            },
            ImportAt::CountNew { statement_id } => ImportAtView::CountNew {
                statement_id: statement_id@,
            },
            ImportAt::Undo { error } => ImportAtView::Undo { error: error@ },
        }
    }
}

/// An import, on its way.
#[derive(Debug)]
pub struct Import {
    pub parsed: ParseResult,
    pub at: ImportAt,
}

pub ghost struct ImportView {
    pub parsed: ParseResultView,
    pub at: ImportAtView,
}

impl View for Import {
    type V = ImportView;

    open spec fn view(&self) -> ImportView {
        ImportView { parsed: self.parsed@, at: self.at@ }
    }
}

pub type ImportStep = StepView<ImportView, ImportReportView>;

/// An import starts by looking for a statement of the same fingerprint.
pub open spec fn import_start(parsed: ParseResultView) -> ImportStep {
    StepView::Run(
        ActionView::FindStatement { source_sha256: parsed.statement.source_sha256 },
        ImportView { parsed, at: ImportAtView::Find },
    )
}

/// The import goes on to a transaction: first to the payee of its merchant.
/// Past the last it goes on to the card payments.
pub open spec fn import_txn(
    parsed: ParseResultView,
    statement_id: Seq<char>,
    txn: nat,
) -> ImportStep {
    if txn < parsed.txns.len() {
        StepView::Run(
            ActionView::AliasOf { norm: parsed.txns[txn as int].merchant_norm },
            ImportView { parsed, at: ImportAtView::Alias { statement_id, txn } },
        )
    } else {
        import_payment(parsed, statement_id, payment_norms(parsed.txns), 0)
    }
}

/// The import goes on to a merchant of card payments; past the last it
/// commits.
pub open spec fn import_payment(
    parsed: ParseResultView,
    statement_id: Seq<char>,
    norms: Seq<Seq<char>>,
    norm: nat,
) -> ImportStep {
    if norm < norms.len() {
        StepView::Run(
            ActionView::FindPayee { name: PAYEE_CARD_PAYMENT@ },
            ImportView { parsed, at: ImportAtView::Payee { statement_id, norms, norm } },
        )
    } else {
        StepView::Run(
            ActionView::Commit,
            ImportView { parsed, at: ImportAtView::Commit { statement_id } },
        )
    }
}

/// The import writes the alias of a merchant of card payments.
pub open spec fn import_alias(
    parsed: ParseResultView,
    statement_id: Seq<char>,
    norms: Seq<Seq<char>>,
    norm: nat,
    payee_id: Seq<char>,
    now: Seq<char>,
) -> ImportStep {
    StepView::Run(
        ActionView::UpsertAlias { norm: norms[norm as int], payee_id, now },
        ImportView {
            parsed,
            at: ImportAtView::PaymentAlias { statement_id, norms, norm, payee_id },
        },
    )
}

/// The import undoes what it wrote and ends with an error.
pub open spec fn import_undo(parsed: ParseResultView, error: StoreErrorView) -> ImportStep {
    StepView::Run(
        ActionView::Rollback,
        ImportView { parsed, at: ImportAtView::Undo { error } },
    )
}

/// How many transactions a reply counts, and how many of them are labeled.
pub open spec fn counted(rows: Seq<Seq<SqlView>>) -> Result<(usize, usize), StoreErrorView> {
    if rows.len() == 0 {
        Ok((0usize, 0usize))
    } else {
        match (int_at(rows[0], 0), int_at(rows[0], 1)) {
            (Err(e), _) => Err(e),
            (Ok(_), Err(e)) => Err(e),
            (Ok(all), Ok(labeled)) => Ok((all as usize, labeled as usize)),
        }
    }
}

/// The end of an import, by a count of its transactions.
pub open spec fn import_report(
    statement_id: Seq<char>,
    rows: Seq<Seq<SqlView>>,
    duplicate: bool,
) -> ImportStep {
    match counted(rows) {
        Err(e) => StepView::Finish(Err(e)),
        Ok((txn_count, labeled)) => StepView::Finish(
            Ok(
                ImportReportView {
                    statement_id,
                    txn_count,
                    labeled,
                    unlabeled: (txn_count - labeled) as usize,
                    duplicate,
                },
            ),
        ),
    }
}

/// How an import goes on. A statement of the same fingerprint ends it with a
/// count. Otherwise the head, the transactions and the card payments' labels
/// are written in one transaction of the database, which any failure undoes.
pub open spec fn import_next(s: ImportView, reply: ReplyView, stamp: StampView) -> ImportStep {
    match reply {
        ReplyView::Failed(what) => match s.at {
            ImportAtView::Find | ImportAtView::CountOld { .. } | ImportAtView::Begin { .. }
            | ImportAtView::Commit { .. } | ImportAtView::CountNew { .. } => StepView::Finish(
                Err(StoreErrorView::Backend(what)),
            ),
            ImportAtView::Undo { error } => StepView::Finish(Err(error)),
            _ => import_undo(s.parsed, StoreErrorView::Backend(what)),
        },
        ReplyView::Done { rows, changed } => match s.at {
            ImportAtView::Find => if rows.len() == 0 {
                StepView::Run(
                    ActionView::Begin,
                    ImportView { at: ImportAtView::Begin { statement_id: stamp.id }, ..s },
                )
            } else {
                match text_at(rows[0], 0) {
                    Err(e) => StepView::Finish(Err(e)),
                    Ok(statement_id) => StepView::Run(
                        ActionView::CountLabeled { statement_id },
                        ImportView { at: ImportAtView::CountOld { statement_id }, ..s },
                    ),
                }
            },
            ImportAtView::CountOld { statement_id } => import_report(statement_id, rows, true),
            ImportAtView::Begin { statement_id } => StepView::Run(
                ActionView::InsertStatement {
                    id: statement_id,
                    head: s.parsed.statement,
                    now: stamp.now,
                },
                ImportView { at: ImportAtView::Statement { statement_id }, ..s },
            ),
            ImportAtView::Statement { statement_id } => import_txn(s.parsed, statement_id, 0),
            ImportAtView::Alias { statement_id, txn } => {
                let alias = if rows.len() == 0 {
                    Ok(None)
                } else {
                    opt_text_at(rows[0], 0)
                };
                match alias {
                    Err(e) => import_undo(s.parsed, e),
                    Ok(payee_id) => StepView::Run(
                        ActionView::InsertTxn {
                            id: stamp.id,
                            statement_id,
                            txn: s.parsed.txns[txn as int],
                            payee_id,
                        },
                        ImportView { at: ImportAtView::Txn { statement_id, txn }, ..s },
                    ),
                }
            },
            ImportAtView::Txn { statement_id, txn } => import_txn(
                s.parsed,
                statement_id,
                txn + 1,
            ),
            ImportAtView::Payee { statement_id, norms, norm } => if rows.len() == 0 {
                StepView::Run(
                    ActionView::InsertPayee {
                        id: stamp.id,
                        name: PAYEE_CARD_PAYMENT@,
                        category_id: CAT_ODEME@,
                        now: stamp.now,
                    },
                    ImportView {
                        at: ImportAtView::NewPayee {
                            statement_id,
                            norms,
                            norm,
                            payee_id: stamp.id,
                        },
                        ..s
                    },
                )
            } else {
                match text_at(rows[0], 0) {
                    Err(e) => import_undo(s.parsed, e),
                    Ok(payee_id) => import_alias(
                        s.parsed,
                        statement_id,
                        norms,
                        norm,
                        payee_id,
                        stamp.now,
                    ),
                }
            },
            ImportAtView::NewPayee { statement_id, norms, norm, payee_id } => import_alias(
                s.parsed,
                statement_id,
                norms,
                norm,
                payee_id,
                stamp.now,
            ),
            ImportAtView::PaymentAlias { statement_id, norms, norm, payee_id } => StepView::Run(
                ActionView::LinkUnlabeled { payee_id, statement_id, norm: norms[norm as int] },
                ImportView { at: ImportAtView::Link { statement_id, norms, norm }, ..s },
            ),
            ImportAtView::Link { statement_id, norms, norm } => import_payment(
                s.parsed,
                statement_id,
                norms,
                norm + 1,
            ),
            ImportAtView::Commit { statement_id } => StepView::Run(
                ActionView::CountLabeled { statement_id },
                ImportView { at: ImportAtView::CountNew { statement_id }, ..s },
            ),
            ImportAtView::CountNew { statement_id } => import_report(statement_id, rows, false),
            ImportAtView::Undo { error } => StepView::Finish(Err(error)),
        },
    }
}

/// The places that an import is at stand within its lists.
pub open spec fn import_valid(s: ImportView) -> bool {
    match s.at {
        ImportAtView::Alias { txn, .. } => txn < s.parsed.txns.len(),
        ImportAtView::Txn { txn, .. } => txn < s.parsed.txns.len(),
        ImportAtView::Payee { norms, norm, .. } => norm < norms.len(),
        ImportAtView::NewPayee { norms, norm, .. } => norm < norms.len(),
        ImportAtView::PaymentAlias { norms, norm, .. } => norm < norms.len(),
        ImportAtView::Link { norms, norm, .. } => norm < norms.len(),
        _ => true,
    }
}

/// A count of transactions is no smaller than the count of the labeled among
/// them.
pub open spec fn count_holds(s: ImportView, reply: ReplyView) -> bool {
    match (s.at, reply) {
        (ImportAtView::CountOld { .. }, ReplyView::Done { rows, .. }) => counted(
            rows,
        ) matches Ok(n) ==> n.1 <= n.0,
        (ImportAtView::CountNew { .. }, ReplyView::Done { rows, .. }) => counted(
            rows,
        ) matches Ok(n) ==> n.1 <= n.0,
        _ => true,
    }
}

fn count_labeled(rows: &[Vec<SqlValue>]) -> (r: Result<(usize, usize), StoreError>)
    ensures
        match r {
            Ok(n) => counted(row_views(rows@)) == Ok::<
                (usize, usize),
                StoreErrorView,
            >(n),
            Err(e) => counted(row_views(rows@)) == Err::<
                (usize, usize),
                StoreErrorView,
            >(e@),
        },
{
    if rows.len() == 0 {
        return Ok((0, 0));
    }
    let all = match int_of(&rows[0], 0) {
        Ok(n) => n,
        Err(e) => {
            return Err(e);
        },
    };
    match int_of(&rows[0], 1) {
        Ok(labeled) => Ok((all as usize, labeled as usize)),
        Err(e) => Err(e),
    }
}

fn report(statement_id: String, rows: &[Vec<SqlValue>], duplicate: bool) -> (r: Step<
    Import,
    ImportReport,
>)
    requires
        counted(row_views(rows@)) matches Ok(n) ==> n.1 <= n.0,
    ensures
        step_view(r) == import_report(
            statement_id@,
            row_views(rows@),
            duplicate,
        ),
{
    match count_labeled(rows) {
        Err(e) => Step::Finish(Err(e)),
        Ok((txn_count, labeled)) => Step::Finish(
            Ok(
                ImportReport {
                    statement_id,
                    txn_count,
                    labeled,
                    unlabeled: txn_count - labeled,
                    duplicate,
                },
            ),
        ),
    }
}

fn undo(parsed: ParseResult, error: StoreError) -> (r: Step<Import, ImportReport>)
    ensures
        step_view(r) == import_undo(parsed@, error@),
{
    Step::Run(Action::Rollback, Import { parsed, at: ImportAt::Undo { error } })
}

fn go_payment(parsed: ParseResult, statement_id: String, norms: Vec<String>, norm: usize) -> (r:
    Step<Import, ImportReport>)
    ensures
        step_view(r) == import_payment(parsed@, statement_id@, views(norms@), norm as nat),
{
    if norm < norms.len() {
        Step::Run(
            Action::FindPayee { name: copy(PAYEE_CARD_PAYMENT) },
            Import { parsed, at: ImportAt::Payee { statement_id, norms, norm } },
        )
    } else {
        Step::Run(Action::Commit, Import { parsed, at: ImportAt::Commit { statement_id } })
    }
}

fn go_txn(parsed: ParseResult, statement_id: String, txn: usize) -> (r: Step<Import, ImportReport>)
    ensures
        step_view(r) == import_txn(parsed@, statement_id@, txn as nat),
{
    if txn < parsed.txns.len() {
        let norm = copy(parsed.txns[txn].merchant_norm.as_str());
        Step::Run(
            Action::AliasOf { norm },
            Import { parsed, at: ImportAt::Alias { statement_id, txn } },
        )
    } else {
        let norms = find_payment_norms(&parsed.txns);
        go_payment(parsed, statement_id, norms, 0)
    }
}

fn go_alias(
    parsed: ParseResult,
    statement_id: String,
    norms: Vec<String>,
    norm: usize,
    payee_id: String,
    now: String,
) -> (r: Step<Import, ImportReport>)
    requires
        norm < norms@.len(),
    ensures
        step_view(r) == import_alias(
            parsed@,
            statement_id@,
            views(norms@),
            norm as nat,
            payee_id@,
            now@,
        ),
{
    Step::Run(
        Action::UpsertAlias {
            norm: copy(norms[norm].as_str()),
            payee_id: copy(payee_id.as_str()),
            now,
        },
        Import { parsed, at: ImportAt::PaymentAlias { statement_id, norms, norm, payee_id } },
    )
}

fn copy_opt(s: &Option<String>) -> (r: Option<String>)
    ensures
        opt_text(r) == opt_text(*s),
{
    match s {
        Some(s) => Some(copy(s.as_str())),
        None => None,
    }
}

fn copy_head(head: &StatementHead) -> (r: StatementHead)
    ensures
        r@ == head@,
{
    StatementHead {
        period_end: copy(head.period_end.as_str()),
        next_period_end: copy_opt(&head.next_period_end),
        due_date: copy_opt(&head.due_date),
        next_due_date: copy_opt(&head.next_due_date),
        previous_balance_minor: head.previous_balance_minor,
        spend_minor: head.spend_minor,
        fees_minor: head.fees_minor,
        payments_minor: head.payments_minor,
        period_debt_minor: head.period_debt_minor,
        period_debt_usd_minor: head.period_debt_usd_minor,
        min_pay_minor: head.min_pay_minor,
        card_limit_minor: head.card_limit_minor,
        available_limit_minor: head.available_limit_minor,
        source_sha256: copy(head.source_sha256.as_str()),
    }
}

fn copy_txn(txn: &ParsedTxn) -> (r: ParsedTxn)
    ensures
        r@ == txn@,
{
    ParsedTxn {
        row_index: txn.row_index,
        date: copy(txn.date.as_str()),
        merchant_raw: copy(txn.merchant_raw.as_str()),
        merchant_norm: copy(txn.merchant_norm.as_str()),
        extra: copy(txn.extra.as_str()),
        amount_minor: txn.amount_minor,
        direction: txn.direction,
        usd_minor: txn.usd_minor,
        bankkart_lira_minor: txn.bankkart_lira_minor,
        card_last4: copy(txn.card_last4.as_str()),
        kind: txn.kind,
    }
}

/// Starts the import of a statement.
pub fn import(parsed: ParseResult) -> (r: Step<Import, ImportReport>)
    ensures
        step_view(r) == import_start(parsed@),
        r matches Step::Run(_, s) ==> import_valid(s@),
{
    let source_sha256 = copy(parsed.statement.source_sha256.as_str());
    Step::Run(
        Action::FindStatement { source_sha256 },
        Import { parsed, at: ImportAt::Find },
    )
}

impl Import {
    /// Goes on with a reply.
    pub fn resume(self, reply: Reply, stamp: Stamp) -> (r: Step<Import, ImportReport>)
        requires
            import_valid(self@),
            count_holds(self@, reply@),
        ensures
            step_view(r) == import_next(self@, reply@, stamp@),
            r matches Step::Run(_, s) ==> import_valid(s@),
    {
        let Import { parsed, at } = self;
        let rows = match reply {
            Reply::Failed(what) => {
                return match at {
                    ImportAt::Find => Step::Finish(Err(StoreError::Backend(what))),
                    ImportAt::CountOld { .. } => Step::Finish(Err(StoreError::Backend(what))),
                    ImportAt::Begin { .. } => Step::Finish(Err(StoreError::Backend(what))),
                    ImportAt::Commit { .. } => Step::Finish(Err(StoreError::Backend(what))),
                    ImportAt::CountNew { .. } => Step::Finish(Err(StoreError::Backend(what))),
                    ImportAt::Undo { error } => Step::Finish(Err(error)),
                    _ => undo(parsed, StoreError::Backend(what)),
                };
            },
            Reply::Done { rows, changed } => rows,
        };
        match at {
            ImportAt::Find => if rows.len() == 0 {
                Step::Run(
                    Action::Begin,
                    Import { parsed, at: ImportAt::Begin { statement_id: stamp.id } },
                )
            } else {
                match text(&rows[0], 0) {
                    Err(e) => Step::Finish(Err(e)),
                    Ok(statement_id) => Step::Run(
                        Action::CountLabeled { statement_id: copy(statement_id.as_str()) },
                        Import { parsed, at: ImportAt::CountOld { statement_id } },
                    ),
                }
            },
            ImportAt::CountOld { statement_id } => report(statement_id, &rows, true),
            ImportAt::Begin { statement_id } => {
                let head = copy_head(&parsed.statement);
                Step::Run(
                    Action::InsertStatement {
                        id: copy(statement_id.as_str()),
                        head,
                        now: stamp.now,
                    },
                    Import { parsed, at: ImportAt::Statement { statement_id } },
                )
            },
            ImportAt::Statement { statement_id } => go_txn(parsed, statement_id, 0),
            ImportAt::Alias { statement_id, txn } => {
                let alias = if rows.len() == 0 {
                    None
                } else {
                    match opt_text_of(&rows[0], 0) {
                        Ok(alias) => alias,
                        Err(e) => {
                            return undo(parsed, e);
                        },
                    }
                };
                let row = copy_txn(&parsed.txns[txn]);
                Step::Run(
                    Action::InsertTxn {
                        id: stamp.id,
                        statement_id: copy(statement_id.as_str()),
                        txn: row,
                        payee_id: alias,
                    },
                    Import { parsed, at: ImportAt::Txn { statement_id, txn } },
                )
            },
            ImportAt::Txn { statement_id, txn } => {
                proof {
                    assert(txn < parsed.txns.len());
                }
                go_txn(parsed, statement_id, txn + 1)
            },
            ImportAt::Payee { statement_id, norms, norm } => if rows.len() == 0 {
                Step::Run(
                    Action::InsertPayee {
                        id: copy(stamp.id.as_str()),
                        name: copy(PAYEE_CARD_PAYMENT),
                        category_id: copy(CAT_ODEME),
                        now: stamp.now,
                    },
                    Import {
                        parsed,
                        at: ImportAt::NewPayee { statement_id, norms, norm, payee_id: stamp.id },
                    },
                )
            } else {
                match text(&rows[0], 0) {
                    Err(e) => undo(parsed, e),
                    Ok(payee_id) => go_alias(
                        parsed,
                        statement_id,
                        norms,
                        norm,
                        payee_id,
                        stamp.now,
                    ),
                }
            },
            ImportAt::NewPayee { statement_id, norms, norm, payee_id } => go_alias(
                parsed,
                statement_id,
                norms,
                norm,
                payee_id,
                stamp.now,
            ),
            ImportAt::PaymentAlias { statement_id, norms, norm, payee_id } => Step::Run(
                Action::LinkUnlabeled {
                    payee_id,
                    statement_id: copy(statement_id.as_str()),
                    norm: copy(norms[norm].as_str()),
                },
                Import { parsed, at: ImportAt::Link { statement_id, norms, norm } },
            ),
            ImportAt::Link { statement_id, norms, norm } => {
                proof {
                    assert(norm < norms.len());
                }
                go_payment(parsed, statement_id, norms, norm + 1)
            },
            ImportAt::Commit { statement_id } => Step::Run(
                Action::CountLabeled { statement_id: copy(statement_id.as_str()) },
                Import { parsed, at: ImportAt::CountNew { statement_id } },
            ),
            ImportAt::CountNew { statement_id } => report(statement_id, &rows, false),
            ImportAt::Undo { error } => Step::Finish(Err(error)),
        }
    }

    /// The reply can be gone on with: where it counts transactions, it counts
    /// no more labeled ones than there are.
    pub fn accepts(&self, reply: &Reply) -> (r: bool)
        ensures
            r == count_holds(self@, reply@),
    {
        let counts = match &self.at {
            ImportAt::CountOld { .. } => true,
            ImportAt::CountNew { .. } => true,
            _ => false,
        };
        match reply {
            Reply::Done { rows, .. } => if counts {
                match count_labeled(rows) {
                    Ok((all, labeled)) => labeled <= all,
                    Err(_) => true,
                }
            } else {
                true
            },
            Reply::Failed(_) => true,
        }
    }
}

} // verus!
