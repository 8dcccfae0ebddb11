//! Labeling a merchant.

use crate::store::action::{Action, ActionView};
use crate::store::step::{not_found, step_view, Stamp, StampView, Step, StepView};
use crate::store::value::{text, text_at, Reply, ReplyView, StoreError, StoreErrorView};
use crate::text::copy;
use vstd::prelude::*;

verus! {

/// What labeling a merchant did.
#[derive(Debug, Clone)]
pub struct LabelReport {
    pub payee_id: String,
    pub alias_created: bool,
    pub txns_updated: u64,
}

pub ghost struct LabelReportView {
    pub payee_id: Seq<char>,
    pub alias_created: bool,
    pub txns_updated: u64,
}

impl View for LabelReport {
    type V = LabelReportView;

    open spec fn view(&self) -> LabelReportView {
        LabelReportView {
            payee_id: self.payee_id@,
            alias_created: self.alias_created,
            txns_updated: self.txns_updated,
        }
    }
}

/// Which reply the labeling waits for.
#[derive(Debug)]
pub enum LabelAt {
    Category,
    Payee,
    NewPayee(String),
    PayeeCategory(String),
    Alias(String),
    WriteAlias(String, bool),
    Txns(String, bool),
}

pub ghost enum LabelAtView {
    Category,
    Payee,
    NewPayee(Seq<char>),
    PayeeCategory(Seq<char>),
    Alias(Seq<char>),
    WriteAlias(Seq<char>, bool),
    Txns(Seq<char>, bool),
}

impl View for LabelAt {
    type V = LabelAtView;

    open spec fn view(&self) -> LabelAtView {
        match *self {
            LabelAt::Category => LabelAtView::Category,
            LabelAt::Payee => LabelAtView::Payee,
            LabelAt::NewPayee(id) => LabelAtView::NewPayee(id@),
            LabelAt::PayeeCategory(id) => LabelAtView::PayeeCategory(id@),
            LabelAt::Alias(id) => LabelAtView::Alias(id@),
            LabelAt::WriteAlias(id, created) => LabelAtView::WriteAlias(id@, created),
            LabelAt::Txns(id, created) => LabelAtView::Txns(id@, created),
        }
    }
}

/// The labeling of a merchant, on its way.
#[derive(Debug)]
pub struct Label {
    pub merchant_norm: String,
    pub payee_name: String,
    pub category_id: String,
    pub at: LabelAt,
}

pub ghost struct LabelView {
    pub merchant_norm: Seq<char>,
    pub payee_name: Seq<char>,
    pub category_id: Seq<char>,
    pub at: LabelAtView,
}

impl View for Label {
    type V = LabelView;

    open spec fn view(&self) -> LabelView {
        LabelView {
            merchant_norm: self.merchant_norm@,
            payee_name: self.payee_name@,
            category_id: self.category_id@,
            at: self.at@,
        }
    }
}

/// The labeling of a merchant starts by looking for the category.
pub open spec fn label_start(
    merchant_norm: Seq<char>,
    payee_name: Seq<char>,
    category_id: Seq<char>,
) -> StepView<LabelView, LabelReportView> {
    StepView::Run(
        ActionView::FindCategory { id: category_id },
        LabelView { merchant_norm, payee_name, category_id, at: LabelAtView::Category },
    )
}

/// How the labeling goes on: without the category it stops; it finds or makes
/// the payee, sets its category, writes the alias and moves the transactions.
/// A statement that fails stops it.
pub open spec fn label_next(s: LabelView, reply: ReplyView, stamp: StampView) -> StepView<
    LabelView,
    LabelReportView,
> {
    match reply {
        ReplyView::Failed(what) => StepView::Finish(Err(StoreErrorView::Backend(what))),
        ReplyView::Done { rows, changed } => match s.at {
            LabelAtView::Category => if rows.len() == 0 {
                StepView::Finish(Err(StoreErrorView::NotFound("kategori "@ + s.category_id)))
            } else {
                StepView::Run(
                    ActionView::FindPayee { name: s.payee_name },
                    LabelView { at: LabelAtView::Payee, ..s },
                )
            },
            LabelAtView::Payee => if rows.len() == 0 {
                StepView::Run(
                    ActionView::InsertPayee {
                        id: stamp.id,
                        name: s.payee_name,
                        category_id: s.category_id,
                        now: stamp.now,
                    },
                    LabelView { at: LabelAtView::NewPayee(stamp.id), ..s },
                )
            } else {
                match text_at(rows[0], 0) {
                    Err(e) => StepView::Finish(Err(e)),
                    Ok(id) => StepView::Run(
                        ActionView::SetPayeeCategory { category_id: s.category_id, payee_id: id },
                        LabelView { at: LabelAtView::PayeeCategory(id), ..s },
                    ),
                }
            },
            LabelAtView::NewPayee(id) => StepView::Run(
                ActionView::SetPayeeCategory { category_id: s.category_id, payee_id: id },
                LabelView { at: LabelAtView::PayeeCategory(id), ..s },
            ),
            LabelAtView::PayeeCategory(id) => StepView::Run(
                ActionView::AliasOf { norm: s.merchant_norm },
                LabelView { at: LabelAtView::Alias(id), ..s },
            ),
            LabelAtView::Alias(id) => if rows.len() == 0 {
                StepView::Run(
                    ActionView::InsertAlias {
                        norm: s.merchant_norm,
                        payee_id: id,
                        now: stamp.now,
                    },
                    LabelView { at: LabelAtView::WriteAlias(id, true), ..s },
                )
            } else {
                StepView::Run(
                    ActionView::UpdateAlias { payee_id: id, norm: s.merchant_norm },
                    LabelView { at: LabelAtView::WriteAlias(id, false), ..s },
                )
            },
            LabelAtView::WriteAlias(id, created) => StepView::Run(
                ActionView::LabelTxns { payee_id: id, norm: s.merchant_norm },
                LabelView { at: LabelAtView::Txns(id, created), ..s },
            ),
            LabelAtView::Txns(id, created) => StepView::Finish(
                Ok(
                    LabelReportView {
                        payee_id: id,
                        alias_created: created,
                        txns_updated: changed,
                    },
                ),
            ),
        },
    }
}

/// Starts labeling a merchant: its transactions, those to come too, go to the
/// payee of this name, in this category.
pub fn label(merchant_norm: &str, payee_name: &str, category_id: &str) -> (r: Step<
    Label,
    LabelReport,
>)
    ensures
        step_view(r) == label_start(merchant_norm@, payee_name@, category_id@),
{
    Step::Run(
        Action::FindCategory { id: copy(category_id) },
        Label {
            merchant_norm: copy(merchant_norm),
            payee_name: copy(payee_name),
            category_id: copy(category_id),
            at: LabelAt::Category,
        },
    )
}

impl Label {
    /// Goes on with a reply.
    pub fn resume(self, reply: Reply, stamp: Stamp) -> (r: Step<Label, LabelReport>)
        ensures
            step_view(r) == label_next(self@, reply@, stamp@),
    {
        let (rows, changed) = match reply {
            Reply::Failed(what) => {
                return Step::Finish(Err(StoreError::Backend(what)));
            },
            Reply::Done { rows, changed } => (rows, changed),
        };
        let Label { merchant_norm, payee_name, category_id, at } = self;
        let (action, next) = match at {
            LabelAt::Category => {
                if rows.len() == 0 {
                    return Step::Finish(Err(not_found("kategori ", category_id.as_str())));
                }
                (Action::FindPayee { name: copy(payee_name.as_str()) }, LabelAt::Payee)
            },
            LabelAt::Payee => if rows.len() == 0 {
                (
                    Action::InsertPayee {
                        id: copy(stamp.id.as_str()),
                        name: copy(payee_name.as_str()),
                        category_id: copy(category_id.as_str()),
                        now: stamp.now,
                    },
                    LabelAt::NewPayee(stamp.id),
                )
            } else {
                match text(&rows[0], 0) {
                    Err(e) => {
                        return Step::Finish(Err(e));
                    },
                    Ok(id) => (
                        Action::SetPayeeCategory {
                            category_id: copy(category_id.as_str()),
                            payee_id: copy(id.as_str()),
                        },
                        LabelAt::PayeeCategory(id),
                    ),
                }
            },
            LabelAt::NewPayee(id) => (
                Action::SetPayeeCategory {
                    category_id: copy(category_id.as_str()),
                    payee_id: copy(id.as_str()),
                },
                LabelAt::PayeeCategory(id),
            ),
            LabelAt::PayeeCategory(id) => (
                Action::AliasOf { norm: copy(merchant_norm.as_str()) },
                LabelAt::Alias(id),
            ),
            LabelAt::Alias(id) => if rows.len() == 0 {
                (
                    Action::InsertAlias {
                        norm: copy(merchant_norm.as_str()),
                        payee_id: copy(id.as_str()),
                        now: stamp.now,
                    },
                    LabelAt::WriteAlias(id, true),
                )
            } else {
                (
                    Action::UpdateAlias {
                        payee_id: copy(id.as_str()),
                        norm: copy(merchant_norm.as_str()),
                    },
                    LabelAt::WriteAlias(id, false),
                )
            },
            LabelAt::WriteAlias(id, created) => (
                Action::LabelTxns {
                    payee_id: copy(id.as_str()),
                    norm: copy(merchant_norm.as_str()),
                },
                LabelAt::Txns(id, created),
            ),
            LabelAt::Txns(id, created) => {
                return Step::Finish(
                    Ok(
                        LabelReport {
                            payee_id: id,
                            alias_created: created,
                            txns_updated: changed,
                        },
                    ),
                );
            },
        };
        Step::Run(action, Label { merchant_norm, payee_name, category_id, at: next })
    }
}

} // verus!
