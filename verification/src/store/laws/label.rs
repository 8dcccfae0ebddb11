//! What labeling a merchant comes to.

use crate::store::action::ActionView;
use crate::store::label::{label_next, label_start, LabelAtView, LabelReportView, LabelView};
use crate::store::model::{how_many, one_text, relabeled, runs, with_aliases, with_payees, Db, Event,
    Tables, TxnRec};
use crate::store::step::{StampView, StepView};
use crate::store::value::{text_at, ReplyView, StoreErrorView};
use vstd::prelude::*;

verus! {

/// A labeling goes from a step through events to an end.
pub open spec fn label_runs(
    step: StepView<LabelView, LabelReportView>,
    db: Db,
    events: Seq<Event>,
    end: Db,
    out: Result<LabelReportView, StoreErrorView>,
) -> bool {
    runs(
        |s: LabelView, reply: ReplyView, stamp: StampView| label_next(s, reply, stamp),
        step,
        db,
        events,
        end,
        out,
    )
}

/// A payee has this name.
pub open spec fn has_payee(t: Tables, name: Seq<char>) -> bool {
    exists|id: Seq<char>| #[trigger] t.payees.contains_key(id) && t.payees[id].name == name
}

/// A payee of the name is used where there is one, and a new one where there
/// is none.
pub open spec fn is_payee_for(t: Tables, name: Seq<char>, id: Seq<char>) -> bool {
    if has_payee(t, name) {
        t.payees.contains_key(id) && t.payees[id].name == name
    } else {
        !t.payees.contains_key(id)
    }
}

/// The tables after a merchant was labeled: the payee of the name, a new one
/// where there is none, has the category; the alias is the merchant's, all the
/// merchant's transactions carry the label, and nothing else is another.
pub open spec fn is_labeled_as(
    t: Tables,
    after: Tables,
    norm: Seq<char>,
    name: Seq<char>,
    category_id: Seq<char>,
    report: LabelReportView,
) -> bool {
    let id = report.payee_id;
    &&& t.categories.contains_key(category_id)
    &&& after.categories == t.categories
    &&& after.statements == t.statements
    &&& is_payee_for(t, name, id)
    &&& after.payees.contains_key(id)
    &&& after.payees[id].name == name
    &&& after.payees[id].category_id == category_id
    &&& t.payees.contains_key(id) ==> after.payees[id].created_at == t.payees[id].created_at
    &&& forall|other: Seq<char>|
        other != id ==> (#[trigger] after.payees.contains_key(other) <==> t.payees.contains_key(
            other,
        ))
    &&& forall|other: Seq<char>| #[trigger]
        t.payees.contains_key(other) && other != id ==> after.payees[other] == t.payees[other]
    &&& after.aliases.contains_key(norm)
    &&& after.aliases[norm].payee_id == id
    &&& t.aliases.contains_key(norm) ==> after.aliases[norm].created_at
        == t.aliases[norm].created_at
    &&& after.aliases.remove(norm) == t.aliases.remove(norm)
    &&& report.alias_created == !t.aliases.contains_key(norm)
    &&& after.txns == relabeled(t.txns, |x: TxnRec| x.txn.merchant_norm == norm, Some(id))
    &&& report.txns_updated == how_many(t.txns, |x: TxnRec| x.txn.merchant_norm == norm)
}

/// What holds of the tables while a labeling waits for a reply.
spec fn label_holds(t: Tables, s: LabelView, action: ActionView, now: Tables) -> bool {
    let has = |id: Seq<char>|
        {
            &&& now == with_payees(t, now.payees)
            &&& is_payee_for(t, s.payee_name, id)
            &&& now.payees.contains_key(id)
            &&& now.payees[id].name == s.payee_name
            &&& t.payees.contains_key(id) ==> now.payees[id].created_at == t.payees[id].created_at
            &&& forall|other: Seq<char>|
                other != id ==> (#[trigger] now.payees.contains_key(other)
                    <==> t.payees.contains_key(other))
            &&& forall|other: Seq<char>| #[trigger]
                t.payees.contains_key(other) && other != id ==> now.payees[other]
                    == t.payees[other]
        };
    match s.at {
        LabelAtView::Category => now == t && action == (ActionView::FindCategory {
            id: s.category_id,
        }),
        LabelAtView::Payee => {
            &&& t.categories.contains_key(s.category_id)
            &&& now == t
            &&& action == ActionView::FindPayee { name: s.payee_name }
        },
        LabelAtView::NewPayee(id) => {
            &&& t.categories.contains_key(s.category_id)
            &&& !has_payee(t, s.payee_name)
            &&& now == t
            &&& action is InsertPayee
            &&& action->InsertPayee_id == id
            &&& action->InsertPayee_name == s.payee_name
        },
        LabelAtView::PayeeCategory(id) => {
            &&& t.categories.contains_key(s.category_id)
            &&& has(id)
            &&& action == ActionView::SetPayeeCategory {
                category_id: s.category_id,
                payee_id: id,
            }
        },
        LabelAtView::Alias(id) => {
            &&& t.categories.contains_key(s.category_id)
            &&& has(id)
            &&& now.payees[id].category_id == s.category_id
            &&& action == ActionView::AliasOf { norm: s.merchant_norm }
        },
        LabelAtView::WriteAlias(id, created) => {
            &&& t.categories.contains_key(s.category_id)
            &&& has(id)
            &&& now.payees[id].category_id == s.category_id
            &&& created == !t.aliases.contains_key(s.merchant_norm)
            &&& if created {
                action is InsertAlias && action->InsertAlias_norm == s.merchant_norm
                    && action->InsertAlias_payee_id == id
            } else {
                action == ActionView::UpdateAlias { payee_id: id, norm: s.merchant_norm }
            }
        },
        LabelAtView::Txns(id, created) => {
            &&& t.categories.contains_key(s.category_id)
            &&& now == with_aliases(with_payees(t, now.payees), now.aliases)
            &&& is_payee_for(t, s.payee_name, id)
            &&& now.payees.contains_key(id)
            &&& now.payees[id].name == s.payee_name
            &&& t.payees.contains_key(id) ==> now.payees[id].created_at == t.payees[id].created_at
            &&& now.payees[id].category_id == s.category_id
            &&& forall|other: Seq<char>|
                other != id ==> (#[trigger] now.payees.contains_key(other)
                    <==> t.payees.contains_key(other))
            &&& forall|other: Seq<char>| #[trigger]
                t.payees.contains_key(other) && other != id ==> now.payees[other]
                    == t.payees[other]
            &&& created == !t.aliases.contains_key(s.merchant_norm)
            &&& now.aliases.contains_key(s.merchant_norm)
            &&& now.aliases[s.merchant_norm].payee_id == id
            &&& t.aliases.contains_key(s.merchant_norm)
                ==> now.aliases[s.merchant_norm].created_at
                == t.aliases[s.merchant_norm].created_at
            &&& now.aliases.remove(s.merchant_norm) == t.aliases.remove(s.merchant_norm)
            &&& action == ActionView::LabelTxns { payee_id: id, norm: s.merchant_norm }
        },
    }
}

proof fn label_run(
    t: Tables,
    s: LabelView,
    action: ActionView,
    db: Db,
    events: Seq<Event>,
    end: Db,
    out: Result<LabelReportView, StoreErrorView>,
)
    requires
        label_holds(t, s, action, db.tables),
        label_runs(StepView::Run(action, s), db, events, end, out),
    ensures
        end.saved == db.saved,
        out matches Ok(report) ==> is_labeled_as(
            t,
            end.tables,
            s.merchant_norm,
            s.payee_name,
            s.category_id,
            report,
        ),
        !t.categories.contains_key(s.category_id) ==> out is Err && end.tables == t,
    decreases events.len(),
{
    let event = events[0];
    let step = label_next(s, event.reply, event.stamp);
    let rest = events.skip(1);
    let now = event.after.tables;
    assert(label_runs(step, event.after, rest, end, out));
    match event.reply {
        ReplyView::Failed(_) => {},
        ReplyView::Done { rows, changed } => {
            match s.at {
                LabelAtView::Payee => {
                    if rows.len() > 0 {
                        let id = choose|id: Seq<char>|
                            #![trigger one_text(id)]
                            t.payees.contains_key(id) && t.payees[id].name == s.payee_name
                                && rows[0] == one_text(id);
                        assert(text_at(rows[0], 0) == Ok::<Seq<char>, StoreErrorView>(id));
                    } else {
                        let named = |id: Seq<char>|
                            t.payees.contains_key(id) && t.payees[id].name == s.payee_name;
                        assert forall|id: Seq<char>| #[trigger]
                            t.payees.contains_key(id) implies t.payees[id].name
                            != s.payee_name by {
                            assert(!named(id));
                        }
                    }
                },
                LabelAtView::WriteAlias(id, created) => {
                    assert(now.aliases.remove(s.merchant_norm) =~= t.aliases.remove(
                        s.merchant_norm,
                    ));
                },
                _ => {},
            }
            if let StepView::Run(next_action, next) = step {
                assert(label_holds(t, next, next_action, now));
                label_run(t, next, next_action, event.after, rest, end, out);
            }
        },
    }
}

/// Labeling a merchant moves all its transactions, labeled ones too, to the
/// payee of the name, which is then in the category; it makes the payee where
/// there is none, and writes the alias by which later imports find it. Nothing
/// else changes.
pub proof fn label_reaches_every_transaction(
    db: Db,
    norm: Seq<char>,
    name: Seq<char>,
    category_id: Seq<char>,
    events: Seq<Event>,
    end: Db,
    report: LabelReportView,
)
    requires
        label_runs(label_start(norm, name, category_id), db, events, end, Ok(report)),
    ensures
        is_labeled_as(db.tables, end.tables, norm, name, category_id, report),
{
    let s = LabelView {
        merchant_norm: norm,
        payee_name: name,
        category_id,
        at: LabelAtView::Category,
    };
    label_run(
        db.tables,
        s,
        ActionView::FindCategory { id: category_id },
        db,
        events,
        end,
        Ok(report),
    );
}

/// A label in a category that is not there is refused, and nothing changes.
pub proof fn label_in_no_category_changes_nothing(
    db: Db,
    norm: Seq<char>,
    name: Seq<char>,
    category_id: Seq<char>,
    events: Seq<Event>,
    end: Db,
    out: Result<LabelReportView, StoreErrorView>,
)
    requires
        !db.tables.categories.contains_key(category_id),
        label_runs(label_start(norm, name, category_id), db, events, end, out),
    ensures
        out is Err,
        end == db,
{
    let s = LabelView {
        merchant_norm: norm,
        payee_name: name,
        category_id,
        at: LabelAtView::Category,
    };
    label_run(db.tables, s, ActionView::FindCategory { id: category_id }, db, events, end, out);
}

/// Labeling starts and ends no transaction of the database.
pub proof fn label_keeps_transaction(
    db: Db,
    norm: Seq<char>,
    name: Seq<char>,
    category_id: Seq<char>,
    events: Seq<Event>,
    end: Db,
    out: Result<LabelReportView, StoreErrorView>,
)
    requires
        label_runs(label_start(norm, name, category_id), db, events, end, out),
    ensures
        end.saved == db.saved,
{
    let s = LabelView {
        merchant_norm: norm,
        payee_name: name,
        category_id,
        at: LabelAtView::Category,
    };
    label_run(db.tables, s, ActionView::FindCategory { id: category_id }, db, events, end, out);
}

} // verus!
