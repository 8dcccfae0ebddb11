//! Changing and removing payees.

use crate::parse::opt_text;
use crate::store::action::{Action, ActionView};
use crate::store::step::{not_found, step_view, Stamp, StampView, Step, StepView};
use crate::store::value::{int_at, int_of, text, text_at, Reply, ReplyView, StoreError,
    StoreErrorView};
use crate::text::{chars_of, copy, string_of, trim, trimmed};
use vstd::prelude::*;

verus! {

/// The error on a payee that is not there.
pub open spec fn no_payee(payee_id: Seq<char>) -> StoreErrorView {
    StoreErrorView::NotFound("payee "@ + payee_id)
}

/// Which reply a change of a payee waits for.
#[derive(Debug)]
pub enum UpdateAt {
    Other { name: String },
    Rename,
    MoveTxns { keeper: String },
    DropAliases { keeper: String },
    DropPayee { keeper: String },
    Adopt { keeper: String },
    KeeperCategory,
    Category { category_id: String },
    PayeeCategory,
}

pub ghost enum UpdateAtView {
    Other { name: Seq<char> },
    Rename,
    MoveTxns { keeper: Seq<char> },
    DropAliases { keeper: Seq<char> },
    DropPayee { keeper: Seq<char> },
    Adopt { keeper: Seq<char> },
    KeeperCategory,
    Category { category_id: Seq<char> },
    PayeeCategory,
}

impl View for UpdateAt {
    type V = UpdateAtView;

    open spec fn view(&self) -> UpdateAtView {
        match *self {
            UpdateAt::Other { name } => UpdateAtView::Other {
                name: name@,
            },
            UpdateAt::Rename => UpdateAtView::Rename,
            UpdateAt::MoveTxns { keeper } => UpdateAtView::MoveTxns {
                keeper: keeper@,
            },
            UpdateAt::DropAliases { keeper } => UpdateAtView::DropAliases {
                keeper: keeper@,
            },
            UpdateAt::DropPayee { keeper } => UpdateAtView::DropPayee {
                keeper: keeper@,
            },
            UpdateAt::Adopt { keeper } => UpdateAtView::Adopt {
                keeper: keeper@,
            },
            UpdateAt::KeeperCategory => UpdateAtView::KeeperCategory,
            UpdateAt::Category { category_id } => UpdateAtView::Category {
                category_id: category_id@,
            },
            UpdateAt::PayeeCategory => UpdateAtView::PayeeCategory,
        }
    }
}

/// A change of a payee, on its way.
#[derive(Debug)]
pub struct UpdatePayee {
    pub payee_id: String,
    pub category_id: Option<String>,
    pub at: UpdateAt,
}

pub ghost struct UpdatePayeeView {
    pub payee_id: Seq<char>,
    pub category_id: Option<Seq<char>>,
    pub at: UpdateAtView,
}

impl View for UpdatePayee {
    type V = UpdatePayeeView;

    open spec fn view(&self) -> UpdatePayeeView {
        UpdatePayeeView {
            payee_id: self.payee_id@,
            category_id: opt_text(self.category_id),
            at: self.at@,
        }
    }
}

pub type UpdateStep = StepView<UpdatePayeeView, ()>;

/// The change goes on to the category, where one is to be set.
pub open spec fn update_category(payee_id: Seq<char>, category_id: Option<Seq<char>>) -> UpdateStep {
    match category_id {
        Some(id) => StepView::Run(
            ActionView::FindCategory { id },
            UpdatePayeeView {
                payee_id,
                category_id,
                at: UpdateAtView::Category { category_id: id },
            },
        ),
        None => StepView::Finish(Ok(())),
    }
}

/// A change of a payee starts with its name, where one is to be set: by
/// looking for another payee of that name. A blank name is refused.
pub open spec fn update_start(
    payee_id: Seq<char>,
    name: Option<Seq<char>>,
    category_id: Option<Seq<char>>,
) -> UpdateStep {
    match name {
        Some(name) => if trim(name).len() == 0 {
            StepView::Finish(Err(StoreErrorView::NotFound("payee adı boş"@)))
        } else {
            StepView::Run(
                ActionView::OtherNamed { name: trim(name), id: payee_id },
                UpdatePayeeView {
                    payee_id,
                    category_id,
                    at: UpdateAtView::Other { name: trim(name) },
                },
            )
        },
        None => update_category(payee_id, category_id),
    }
}

/// How a change goes on. A payee that has the name already takes the changed
/// one's transactions and merchants over, and the changed one is removed;
/// otherwise it is renamed. Then the category is set.
pub open spec fn update_next(
    s: UpdatePayeeView,
    reply: ReplyView,
    stamp: StampView,
) -> UpdateStep {
    match reply {
        ReplyView::Failed(what) => StepView::Finish(Err(StoreErrorView::Backend(what))),
        ReplyView::Done { rows, changed } => match s.at {
            UpdateAtView::Other { name } => if rows.len() == 0 {
                StepView::Run(
                    ActionView::SetPayeeName { name, payee_id: s.payee_id },
                    UpdatePayeeView { at: UpdateAtView::Rename, ..s },
                )
            } else {
                match text_at(rows[0], 0) {
                    Err(e) => StepView::Finish(Err(e)),
                    Ok(keeper) => StepView::Run(
                        ActionView::MoveTxns { keeper, extra: s.payee_id },
                        UpdatePayeeView { at: UpdateAtView::MoveTxns { keeper }, ..s },
                    ),
                }
            },
            UpdateAtView::MoveTxns { keeper } => StepView::Run(
                ActionView::DropAliasesOf { payee_id: s.payee_id },
                UpdatePayeeView { at: UpdateAtView::DropAliases { keeper }, ..s },
            ),
            UpdateAtView::DropAliases { keeper } => StepView::Run(
                ActionView::DropPayee { payee_id: s.payee_id },
                UpdatePayeeView { at: UpdateAtView::DropPayee { keeper }, ..s },
            ),
            UpdateAtView::DropPayee { keeper } => StepView::Run(
                ActionView::AdoptAliases { keeper, now: stamp.now },
                UpdatePayeeView { at: UpdateAtView::Adopt { keeper }, ..s },
            ),
            UpdateAtView::Adopt { keeper } => match s.category_id {
                Some(category_id) => StepView::Run(
                    ActionView::SetPayeeCategory { category_id, payee_id: keeper },
                    UpdatePayeeView { at: UpdateAtView::KeeperCategory, ..s },
                ),
                None => StepView::Finish(Ok(())),
            },
            UpdateAtView::KeeperCategory => StepView::Finish(Ok(())),
            UpdateAtView::Rename => if changed == 0 {
                StepView::Finish(Err(no_payee(s.payee_id)))
            } else {
                update_category(s.payee_id, s.category_id)
            },
            UpdateAtView::Category { category_id } => if rows.len() == 0 {
                StepView::Finish(Err(StoreErrorView::NotFound("kategori "@ + category_id)))
            } else {
                StepView::Run(
                    ActionView::SetPayeeCategory { category_id, payee_id: s.payee_id },
                    UpdatePayeeView { at: UpdateAtView::PayeeCategory, ..s },
                )
            },
            UpdateAtView::PayeeCategory => if changed == 0 {
                StepView::Finish(Err(no_payee(s.payee_id)))
            } else {
                StepView::Finish(Ok(()))
            },
        },
    }
}

fn go_category(payee_id: String, category_id: Option<String>) -> (r: Step<UpdatePayee, ()>)
    ensures
        step_view(r) == update_category(payee_id@, opt_text(category_id)),
{
    match category_id {
        Some(id) => {
            let action = Action::FindCategory { id: copy(id.as_str()) };
            let wanted = copy(id.as_str());
            Step::Run(
                action,
                UpdatePayee {
                    payee_id,
                    category_id: Some(id),
                    at: UpdateAt::Category { category_id: wanted },
                },
            )
        },
        None => Step::Finish(Ok(())),
    }
}

/// Starts a change of a payee's name, its category, or both.
pub fn update_payee(payee_id: &str, name: Option<&str>, category_id: Option<&str>) -> (r: Step<
    UpdatePayee,
    (),
>)
    ensures
        step_view(r) == update_start(
            payee_id@,
            match name {
                Some(name) => Some(name@),
                None => None,
            },
            match category_id {
                Some(id) => Some(id@),
                None => None,
            },
        ),
{
    let category_id = match category_id {
        Some(id) => Some(copy(id)),
        None => None,
    };
    match name {
        Some(name) => {
            let chars = chars_of(name);
            let bare = trimmed(&chars);
            if bare.len() == 0 {
                return Step::Finish(Err(StoreError::NotFound(copy("payee adı boş"))));
            }
            let name = string_of(bare);
            Step::Run(
                Action::OtherNamed { name: copy(name.as_str()), id: copy(payee_id) },
                UpdatePayee { payee_id: copy(payee_id), category_id, at: UpdateAt::Other { name } },
            )
        },
        None => go_category(copy(payee_id), category_id),
    }
}

/// Starts a change of a payee's category.
pub fn set_payee_category(payee_id: &str, category_id: &str) -> (r: Step<UpdatePayee, ()>)
    ensures
        step_view(r) == update_start(payee_id@, None, Some(category_id@)),
{
    update_payee(payee_id, None, Some(category_id))
}

impl UpdatePayee {
    /// Goes on with a reply.
    pub fn resume(self, reply: Reply, stamp: Stamp) -> (r: Step<UpdatePayee, ()>)
        ensures
            step_view(r) == update_next(self@, reply@, stamp@),
    {
        let (rows, changed) = match reply {
            Reply::Failed(what) => {
                return Step::Finish(Err(StoreError::Backend(what)));
            },
            Reply::Done { rows, changed } => (rows, changed),
        };
        let UpdatePayee { payee_id, category_id, at } = self;
        let (action, next) = match at {
            UpdateAt::Other { name } => if rows.len() == 0 {
                (
                    Action::SetPayeeName { name, payee_id: copy(payee_id.as_str()) },
                    UpdateAt::Rename,
                )
            } else {
                match text(&rows[0], 0) {
                    Err(e) => {
                        return Step::Finish(Err(e));
                    },
                    Ok(keeper) => (
                        Action::MoveTxns {
                            keeper: copy(keeper.as_str()),
                            extra: copy(payee_id.as_str()),
                        },
                        UpdateAt::MoveTxns { keeper },
                    ),
                }
            },
            UpdateAt::MoveTxns { keeper } => (
                Action::DropAliasesOf { payee_id: copy(payee_id.as_str()) },
                UpdateAt::DropAliases { keeper },
            ),
            UpdateAt::DropAliases { keeper } => (
                Action::DropPayee { payee_id: copy(payee_id.as_str()) },
                UpdateAt::DropPayee { keeper },
            ),
            UpdateAt::DropPayee { keeper } => (
                Action::AdoptAliases { keeper: copy(keeper.as_str()), now: stamp.now },
                UpdateAt::Adopt { keeper },
            ),
            UpdateAt::Adopt { keeper } => match &category_id {
                Some(id) => (
                    Action::SetPayeeCategory { category_id: copy(id.as_str()), payee_id: keeper },
                    UpdateAt::KeeperCategory,
                ),
                None => {
                    return Step::Finish(Ok(()));
                },
            },
            UpdateAt::KeeperCategory => {
                return Step::Finish(Ok(()));
            },
            UpdateAt::Rename => {
                if changed == 0 {
                    return Step::Finish(Err(not_found("payee ", payee_id.as_str())));
                }
                return go_category(payee_id, category_id);
            },
            UpdateAt::Category { category_id: wanted } => {
                if rows.len() == 0 {
                    return Step::Finish(Err(not_found("kategori ", wanted.as_str())));
                }
                (
                    Action::SetPayeeCategory {
                        category_id: wanted,
                        payee_id: copy(payee_id.as_str()),
                    },
                    UpdateAt::PayeeCategory,
                )
            },
            UpdateAt::PayeeCategory => {
                if changed == 0 {
                    return Step::Finish(Err(not_found("payee ", payee_id.as_str())));
                }
                return Step::Finish(Ok(()));
            },
        };
        Step::Run(action, UpdatePayee { payee_id, category_id, at: next })
    }
}

/// Which reply the removal of a payee waits for.
#[derive(Debug, Clone, Copy, PartialEq, Eq, Structural)]
pub enum ClearAt {
    Txns,
    Aliases,
    Payee,
}

/// The removal of a payee, on its way.
#[derive(Debug)]
pub struct ClearPayee {
    pub payee_id: String,
    pub at: ClearAt,
}

pub ghost struct ClearPayeeView {
    pub payee_id: Seq<char>,
    pub at: ClearAt,
}

impl View for ClearPayee {
    type V = ClearPayeeView;

    open spec fn view(&self) -> ClearPayeeView {
        ClearPayeeView { payee_id: self.payee_id@, at: self.at }
    }
}

/// The removal of a payee starts by taking its label off its transactions.
pub open spec fn clear_start(payee_id: Seq<char>) -> StepView<ClearPayeeView, ()> {
    StepView::Run(
        ActionView::UnlabelPayee { payee_id },
        ClearPayeeView { payee_id, at: ClearAt::Txns },
    )
}

/// How the removal goes on: to the merchants' aliases, then to the payee.
pub open spec fn clear_next(s: ClearPayeeView, reply: ReplyView) -> StepView<ClearPayeeView, ()> {
    match reply {
        ReplyView::Failed(what) => StepView::Finish(Err(StoreErrorView::Backend(what))),
        ReplyView::Done { rows, changed } => match s.at {
            ClearAt::Txns => StepView::Run(
                ActionView::DropAliasesOf { payee_id: s.payee_id },
                ClearPayeeView { at: ClearAt::Aliases, ..s },
            ),
            ClearAt::Aliases => StepView::Run(
                ActionView::DropPayee { payee_id: s.payee_id },
                ClearPayeeView { at: ClearAt::Payee, ..s },
            ),
            ClearAt::Payee => if changed == 0 {
                StepView::Finish(Err(no_payee(s.payee_id)))
            } else {
                StepView::Finish(Ok(()))
            },
        },
    }
}

/// Starts the removal of a payee: its transactions go back to the inbox.
pub fn clear_payee(payee_id: &str) -> (r: Step<ClearPayee, ()>)
    ensures
        step_view(r) == clear_start(payee_id@),
{
    Step::Run(
        Action::UnlabelPayee { payee_id: copy(payee_id) },
        ClearPayee { payee_id: copy(payee_id), at: ClearAt::Txns },
    )
}

impl ClearPayee {
    /// Goes on with a reply.
    pub fn resume(self, reply: Reply) -> (r: Step<ClearPayee, ()>)
        ensures
            step_view(r) == clear_next(self@, reply@),
    {
        let changed = match reply {
            Reply::Failed(what) => {
                return Step::Finish(Err(StoreError::Backend(what)));
            },
            Reply::Done { rows, changed } => changed,
        };
        let ClearPayee { payee_id, at } = self;
        match at {
            ClearAt::Txns => Step::Run(
                Action::DropAliasesOf { payee_id: copy(payee_id.as_str()) },
                ClearPayee { payee_id, at: ClearAt::Aliases },
            ),
            ClearAt::Aliases => Step::Run(
                Action::DropPayee { payee_id: copy(payee_id.as_str()) },
                ClearPayee { payee_id, at: ClearAt::Payee },
            ),
            ClearAt::Payee => if changed == 0 {
                Step::Finish(Err(not_found("payee ", payee_id.as_str())))
            } else {
                Step::Finish(Ok(()))
            },
        }
    }
}

/// Which reply the removal of a payee's merchant waits for.
#[derive(Debug, Clone, Copy, PartialEq, Eq, Structural)]
pub enum SourceAt {
    Txns,
    Alias,
    Count,
    Aliases,
    Payee,
}

/// The removal of a payee's merchant, on its way.
#[derive(Debug)]
pub struct ClearSource {
    pub payee_id: String,
    pub merchant_norm: String,
    pub at: SourceAt,
}

pub ghost struct ClearSourceView {
    pub payee_id: Seq<char>,
    pub merchant_norm: Seq<char>,
    pub at: SourceAt,
}

impl View for ClearSource {
    type V = ClearSourceView;

    open spec fn view(&self) -> ClearSourceView {
        ClearSourceView {
            payee_id: self.payee_id@,
            merchant_norm: self.merchant_norm@,
            at: self.at,
        }
    }
}

/// The removal of a payee's merchant starts by taking the label off the
/// merchant's transactions.
pub open spec fn source_start(payee_id: Seq<char>, merchant_norm: Seq<char>) -> StepView<
    ClearSourceView,
    (),
> {
    StepView::Run(
        ActionView::UnlabelSource { payee_id, norm: merchant_norm },
        ClearSourceView { payee_id, merchant_norm, at: SourceAt::Txns },
    )
}

/// How the removal goes on: to the merchant's alias, and where the payee has
/// no transactions left, to the payee and its other aliases.
pub open spec fn source_next(s: ClearSourceView, reply: ReplyView) -> StepView<
    ClearSourceView,
    (),
> {
    match reply {
        ReplyView::Failed(what) => StepView::Finish(Err(StoreErrorView::Backend(what))),
        ReplyView::Done { rows, changed } => match s.at {
            SourceAt::Txns => StepView::Run(
                ActionView::DropAlias { payee_id: s.payee_id, norm: s.merchant_norm },
                ClearSourceView { at: SourceAt::Alias, ..s },
            ),
            SourceAt::Alias => StepView::Run(
                ActionView::CountTxnsOf { payee_id: s.payee_id },
                ClearSourceView { at: SourceAt::Count, ..s },
            ),
            SourceAt::Count => {
                let left = if rows.len() == 0 {
                    Ok(0i64)
                } else {
                    int_at(rows[0], 0)
                };
                match left {
                    Err(e) => StepView::Finish(Err(e)),
                    Ok(n) => if n == 0 {
                        StepView::Run(
                            ActionView::DropAliasesOf { payee_id: s.payee_id },
                            ClearSourceView { at: SourceAt::Aliases, ..s },
                        )
                    } else {
                        StepView::Finish(Ok(()))
                    },
                }
            },
            SourceAt::Aliases => StepView::Run(
                ActionView::DropPayee { payee_id: s.payee_id },
                ClearSourceView { at: SourceAt::Payee, ..s },
            ),
            SourceAt::Payee => StepView::Finish(Ok(())),
        },
    }
}

/// Starts the removal of one merchant from a payee.
pub fn clear_source(payee_id: &str, merchant_norm: &str) -> (r: Step<ClearSource, ()>)
    ensures
        step_view(r) == source_start(payee_id@, merchant_norm@),
{
    Step::Run(
        Action::UnlabelSource { payee_id: copy(payee_id), norm: copy(merchant_norm) },
        ClearSource {
            payee_id: copy(payee_id),
            merchant_norm: copy(merchant_norm),
            at: SourceAt::Txns,
        },
    )
}

impl ClearSource {
    /// Goes on with a reply.
    pub fn resume(self, reply: Reply) -> (r: Step<ClearSource, ()>)
        ensures
            step_view(r) == source_next(self@, reply@),
    {
        let rows = match reply {
            Reply::Failed(what) => {
                return Step::Finish(Err(StoreError::Backend(what)));
            },
            Reply::Done { rows, changed } => rows,
        };
        let ClearSource { payee_id, merchant_norm, at } = self;
        let (action, next) = match at {
            SourceAt::Txns => (
                Action::DropAlias {
                    payee_id: copy(payee_id.as_str()),
                    norm: copy(merchant_norm.as_str()),
                },
                SourceAt::Alias,
            ),
            SourceAt::Alias => (
                Action::CountTxnsOf { payee_id: copy(payee_id.as_str()) },
                SourceAt::Count,
            ),
            SourceAt::Count => {
                let left: i64 = if rows.len() == 0 {
                    0
                } else {
                    match int_of(&rows[0], 0) {
                        Ok(n) => n,
                        Err(e) => {
                            return Step::Finish(Err(e));
                        },
                    }
                };
                if left != 0 {
                    return Step::Finish(Ok(()));
                }
                (Action::DropAliasesOf { payee_id: copy(payee_id.as_str()) }, SourceAt::Aliases)
            },
            SourceAt::Aliases => (
                Action::DropPayee { payee_id: copy(payee_id.as_str()) },
                SourceAt::Payee,
            ),
            SourceAt::Payee => {
                return Step::Finish(Ok(()));
            },
        };
        Step::Run(action, ClearSource { payee_id, merchant_norm, at: next })
    }
}

} // verus!
