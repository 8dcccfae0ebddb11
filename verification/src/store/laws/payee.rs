//! What changing and removing payees comes to.

use crate::store::action::ActionView;
use crate::store::model::{adopted, aliases_without, how_many, labels, one_number, one_text,
    relabeled, runs, with_aliases, with_payees, with_txns, AliasRec, Db, Event, PayeeRec, Tables,
    TxnRec};
use crate::store::payee::{clear_next, clear_start, source_next, source_start, update_next,
    update_start, ClearAt, ClearPayeeView, ClearSourceView, SourceAt, UpdateAtView, UpdatePayeeView,
    UpdateStep};
use crate::store::step::{StampView, StepView};
use crate::store::value::{int_at, text_at, ReplyView, StoreErrorView};
use crate::text::trim;
use vstd::prelude::*;

verus! {

/// The removal of a payee goes from a step through events to an end.
pub open spec fn clear_runs(
    step: StepView<ClearPayeeView, ()>,
    db: Db,
    events: Seq<Event>,
    end: Db,
    out: Result<(), StoreErrorView>,
) -> bool {
    runs(
        |s: ClearPayeeView, reply: ReplyView, stamp: StampView| clear_next(s, reply),
        step,
        db,
        events,
        end,
        out,
    )
}

/// The transactions without a payee's label.
pub open spec fn unlabeled(t: Tables, payee_id: Seq<char>) -> Map<Seq<char>, TxnRec> {
    relabeled(t.txns, |x: TxnRec| x.payee_id == Some(payee_id), None)
}

/// The aliases that do not name a payee.
pub open spec fn unnamed(t: Tables, payee_id: Seq<char>) -> Map<Seq<char>, AliasRec> {
    aliases_without(t.aliases, |norm: Seq<char>, a: AliasRec| a.payee_id == payee_id)
}

spec fn clear_holds(t: Tables, s: ClearPayeeView, action: ActionView, now: Tables) -> bool {
    let payee_id = s.payee_id;
    match s.at {
        ClearAt::Txns => now == t && action == (ActionView::UnlabelPayee { payee_id }),
        ClearAt::Aliases => now == with_txns(t, unlabeled(t, payee_id)) && action == (
        ActionView::DropAliasesOf { payee_id }),
        ClearAt::Payee => now == with_aliases(
            with_txns(t, unlabeled(t, payee_id)),
            unnamed(t, payee_id),
        ) && action == (ActionView::DropPayee { payee_id }),
    }
}

proof fn clear_run(
    t: Tables,
    s: ClearPayeeView,
    action: ActionView,
    db: Db,
    events: Seq<Event>,
    end: Db,
    out: Result<(), StoreErrorView>,
)
    requires
        clear_holds(t, s, action, db.tables),
        clear_runs(StepView::Run(action, s), db, events, end, out),
    ensures
        out is Ok ==> t.payees.contains_key(s.payee_id) && end.tables == with_payees(
            with_aliases(with_txns(t, unlabeled(t, s.payee_id)), unnamed(t, s.payee_id)),
            t.payees.remove(s.payee_id),
        ),
    decreases events.len(),
{
    let event = events[0];
    let step = clear_next(s, event.reply);
    assert(clear_runs(step, event.after, events.skip(1), end, out));
    if event.reply is Done {
        if let StepView::Run(next_action, next) = step {
            assert(clear_holds(t, next, next_action, event.after.tables));
            clear_run(t, next, next_action, event.after, events.skip(1), end, out);
        }
    }
}

/// Removing a payee sends all its transactions back to the inbox and removes
/// its aliases; transactions and aliases of others stay. A payee that is not
/// there cannot be removed.
pub proof fn cleared_payee_leaves_nothing_behind(
    db: Db,
    payee_id: Seq<char>,
    events: Seq<Event>,
    end: Db,
)
    requires
        clear_runs(clear_start(payee_id), db, events, end, Ok(())),
    ensures
        db.tables.payees.contains_key(payee_id),
        end.tables.payees == db.tables.payees.remove(payee_id),
        end.tables.statements == db.tables.statements,
        end.tables.categories == db.tables.categories,
        end.tables.txns.dom() == db.tables.txns.dom(),
        forall|id: Seq<char>| #[trigger]
            end.tables.txns.contains_key(id) ==> {
                let was = db.tables.txns[id];
                end.tables.txns[id] == if was.payee_id == Some(payee_id) {
                    TxnRec { payee_id: None, ..was }
                } else {
                    was
                }
            },
        forall|norm: Seq<char>| #[trigger]
            end.tables.aliases.contains_key(norm) <==> db.tables.aliases.contains_key(norm)
                && db.tables.aliases[norm].payee_id != payee_id,
        forall|norm: Seq<char>| #[trigger]
            end.tables.aliases.contains_key(norm) ==> end.tables.aliases[norm]
                == db.tables.aliases[norm],
{
    clear_run(
        db.tables,
        ClearPayeeView { payee_id, at: ClearAt::Txns },
        ActionView::UnlabelPayee { payee_id },
        db,
        events,
        end,
        Ok(()),
    );
    assert(end.tables.txns.dom() =~= db.tables.txns.dom());
}

/// The removal of a payee's merchant goes from a step through events to an
/// end.
pub open spec fn source_runs(
    step: StepView<ClearSourceView, ()>,
    db: Db,
    events: Seq<Event>,
    end: Db,
    out: Result<(), StoreErrorView>,
) -> bool {
    runs(
        |s: ClearSourceView, reply: ReplyView, stamp: StampView| source_next(s, reply),
        step,
        db,
        events,
        end,
        out,
    )
}

/// The transactions without a payee's label on one merchant.
pub open spec fn source_unlabeled(t: Tables, payee_id: Seq<char>, norm: Seq<char>) -> Map<
    Seq<char>,
    TxnRec,
> {
    relabeled(
        t.txns,
        |x: TxnRec| x.payee_id == Some(payee_id) && x.txn.merchant_norm == norm,
        None,
    )
}

/// The aliases without that of one merchant for a payee.
pub open spec fn source_unnamed(t: Tables, payee_id: Seq<char>, norm: Seq<char>) -> Map<
    Seq<char>,
    AliasRec,
> {
    aliases_without(
        t.aliases,
        |key: Seq<char>, a: AliasRec| a.payee_id == payee_id && key == norm,
    )
}

/// The tables without a merchant's label.
pub open spec fn without_source(t: Tables, payee_id: Seq<char>, norm: Seq<char>) -> Tables {
    with_aliases(
        with_txns(t, source_unlabeled(t, payee_id, norm)),
        source_unnamed(t, payee_id, norm),
    )
}

/// How many transactions a payee has.
pub open spec fn txns_of(t: Tables, payee_id: Seq<char>) -> nat {
    how_many(t.txns, |x: TxnRec| x.payee_id == Some(payee_id))
}

spec fn source_holds(t: Tables, s: ClearSourceView, action: ActionView, now: Tables) -> bool {
    let payee_id = s.payee_id;
    let norm = s.merchant_norm;
    let cut = without_source(t, payee_id, norm);
    match s.at {
        SourceAt::Txns => now == t && action == (ActionView::UnlabelSource { payee_id, norm }),
        SourceAt::Alias => now == with_txns(t, source_unlabeled(t, payee_id, norm)) && action == (
        ActionView::DropAlias { payee_id, norm }),
        SourceAt::Count => now == cut && action == (ActionView::CountTxnsOf { payee_id }),
        SourceAt::Aliases => now == cut && txns_of(cut, payee_id) == 0 && action == (
        ActionView::DropAliasesOf { payee_id }),
        SourceAt::Payee => now == with_aliases(cut, unnamed(cut, payee_id)) && txns_of(
            cut,
            payee_id,
        ) == 0 && action == (ActionView::DropPayee { payee_id }),
    }
}

proof fn source_run(
    t: Tables,
    s: ClearSourceView,
    action: ActionView,
    db: Db,
    events: Seq<Event>,
    end: Db,
    out: Result<(), StoreErrorView>,
)
    requires
        source_holds(t, s, action, db.tables),
        source_runs(StepView::Run(action, s), db, events, end, out),
    ensures
        out is Ok ==> {
            let cut = without_source(t, s.payee_id, s.merchant_norm);
            end.tables == if txns_of(cut, s.payee_id) == 0 {
                with_payees(
                    with_aliases(cut, unnamed(cut, s.payee_id)),
                    t.payees.remove(s.payee_id),
                )
            } else {
                cut
            }
        },
    decreases events.len(),
{
    let event = events[0];
    let step = source_next(s, event.reply);
    let cut = without_source(t, s.payee_id, s.merchant_norm);
    assert(source_runs(step, event.after, events.skip(1), end, out));
    if let ReplyView::Done { rows, changed } = event.reply {
        if s.at == SourceAt::Count {
            let n = choose|n: i64|
                rows[0] == #[trigger] one_number(n) && n == how_many(
                    cut.txns,
                    |x: TxnRec| x.payee_id == Some(s.payee_id),
                );
            assert(int_at(rows[0], 0) == Ok::<i64, StoreErrorView>(n));
            assert(n == txns_of(cut, s.payee_id));
        }
        if s.at == SourceAt::Alias {
            assert(event.after.tables.aliases =~= cut.aliases);
            assert(event.after.tables =~= cut);
        }
        if s.at == SourceAt::Aliases {
            assert(event.after.tables.aliases =~= unnamed(cut, s.payee_id));
        }
        if s.at == SourceAt::Txns {
            assert(event.after.tables.txns =~= source_unlabeled(t, s.payee_id, s.merchant_norm));
        }
        if let StepView::Run(next_action, next) = step {
            assert(source_holds(t, next, next_action, event.after.tables));
            source_run(t, next, next_action, event.after, events.skip(1), end, out);
        }
    }
}

/// Removing a merchant from a payee sends the merchant's transactions back to
/// the inbox and removes its alias. A payee left without transactions goes
/// too, with all its aliases; one that has some left stays.
pub proof fn cleared_source_leaves_the_rest(
    db: Db,
    payee_id: Seq<char>,
    norm: Seq<char>,
    events: Seq<Event>,
    end: Db,
)
    requires
        source_runs(source_start(payee_id, norm), db, events, end, Ok(())),
    ensures
        end.tables.statements == db.tables.statements,
        end.tables.categories == db.tables.categories,
        end.tables.txns == source_unlabeled(db.tables, payee_id, norm),
        !(end.tables.aliases.contains_key(norm) && end.tables.aliases[norm].payee_id == payee_id),
        txns_of(end.tables, payee_id) == 0 ==> end.tables.payees == db.tables.payees.remove(
            payee_id,
        ) && forall|key: Seq<char>| #[trigger]
            end.tables.aliases.contains_key(key) ==> end.tables.aliases[key].payee_id != payee_id,
        txns_of(end.tables, payee_id) > 0 ==> end.tables.payees == db.tables.payees
            && end.tables.aliases == source_unnamed(db.tables, payee_id, norm),
        forall|key: Seq<char>| #[trigger]
            db.tables.aliases.contains_key(key) && db.tables.aliases[key].payee_id != payee_id
                ==> end.tables.aliases.contains_key(key) && end.tables.aliases[key]
                == db.tables.aliases[key],
{
    source_run(
        db.tables,
        ClearSourceView { payee_id, merchant_norm: norm, at: SourceAt::Txns },
        ActionView::UnlabelSource { payee_id, norm },
        db,
        events,
        end,
        Ok(()),
    );
}

/// A change of a payee goes from a step through events to an end.
pub open spec fn update_runs(
    step: UpdateStep,
    db: Db,
    events: Seq<Event>,
    end: Db,
    out: Result<(), StoreErrorView>,
) -> bool {
    runs(
        |s: UpdatePayeeView, reply: ReplyView, stamp: StampView| update_next(s, reply, stamp),
        step,
        db,
        events,
        end,
        out,
    )
}

/// A payee other than this one has the name.
pub open spec fn is_named(t: Tables, other: Seq<char>, name: Seq<char>, payee_id: Seq<char>) -> bool {
    t.payees.contains_key(other) && t.payees[other].name == name && other != payee_id
}

/// The payees with another category for one of them, where one is given.
pub open spec fn recategorized(
    payees: Map<Seq<char>, PayeeRec>,
    payee_id: Seq<char>,
    category_id: Option<Seq<char>>,
) -> Map<Seq<char>, PayeeRec> {
    match category_id {
        Some(category_id) => if payees.contains_key(payee_id) {
            payees.insert(payee_id, PayeeRec { category_id, ..payees[payee_id] })
        } else {
            payees
        },
        None => payees,
    }
}

/// One payee's transactions are another's.
pub open spec fn moved(t: Tables, keeper: Seq<char>, extra: Seq<char>) -> Tables {
    with_txns(t, relabeled(t.txns, |x: TxnRec| x.payee_id == Some(extra), Some(keeper)))
}

/// A payee takes another's place: it has the other's transactions, the other
/// and its aliases are gone, and its merchants without an alias get one.
pub open spec fn merged(t: Tables, keeper: Seq<char>, extra: Seq<char>, now: Seq<char>) -> Tables {
    let without = with_payees(
        with_aliases(moved(t, keeper, extra), unnamed(t, extra)),
        t.payees.remove(extra),
    );
    with_aliases(without, adopted(without, keeper, now))
}

/// The tables after a change of a payee.
pub open spec fn is_updated(
    t: Tables,
    after: Tables,
    payee_id: Seq<char>,
    name: Option<Seq<char>>,
    category_id: Option<Seq<char>>,
) -> bool {
    match name {
        Some(name) => {
            let bare = trim(name);
            &&& bare.len() > 0
            &&& if exists|other: Seq<char>| is_named(t, other, bare, payee_id) {
                exists|keeper: Seq<char>, now: Seq<char>| #[trigger]
                    is_named(t, keeper, bare, payee_id) && after == #[trigger] joined(
                        t,
                        keeper,
                        payee_id,
                        now,
                        category_id,
                    )
            } else {
                &&& t.payees.contains_key(payee_id)
                &&& category_id matches Some(id) ==> t.categories.contains_key(id)
                &&& after == with_payees(
                    t,
                    recategorized(
                        t.payees.insert(payee_id, PayeeRec { name: bare, ..t.payees[payee_id] }),
                        payee_id,
                        category_id,
                    ),
                )
            }
        },
        None => {
            &&& category_id matches Some(id) ==> t.categories.contains_key(id)
                && t.payees.contains_key(payee_id)
            &&& after == with_payees(t, recategorized(t.payees, payee_id, category_id))
        },
    }
}

/// A payee takes another's place, and a category where one is given.
pub open spec fn joined(
    t: Tables,
    keeper: Seq<char>,
    extra: Seq<char>,
    now: Seq<char>,
    category_id: Option<Seq<char>>,
) -> Tables {
    let m = merged(t, keeper, extra, now);
    with_payees(m, recategorized(m.payees, keeper, category_id))
}

spec fn update_holds(
    t: Tables,
    name: Option<Seq<char>>,
    s: UpdatePayeeView,
    action: ActionView,
    db: Db,
) -> bool {
    let now = db.tables;
    let id = s.payee_id;
    let bare = trim(name->0);
    let taken = exists|other: Seq<char>| is_named(t, other, bare, id);
    let renamed = with_payees(
        t,
        t.payees.insert(id, PayeeRec { name: bare, ..t.payees[id] }),
    );
    let base = if name is Some {
        renamed
    } else {
        t
    };
    match s.at {
        UpdateAtView::Other { name: wanted } => {
            &&& name is Some
            &&& wanted == bare
            &&& bare.len() > 0
            &&& now == t
            &&& action == ActionView::OtherNamed { name: bare, id }
        },
        UpdateAtView::Rename => {
            &&& name is Some
            &&& bare.len() > 0
            &&& !taken
            &&& now == t
            &&& action == ActionView::SetPayeeName { name: bare, payee_id: id }
        },
        UpdateAtView::MoveTxns { keeper } => {
            &&& name is Some
            &&& bare.len() > 0
            &&& is_named(t, keeper, bare, id)
            &&& now == t
            &&& action == ActionView::MoveTxns { keeper, extra: id }
        },
        UpdateAtView::DropAliases { keeper } => {
            &&& name is Some
            &&& bare.len() > 0
            &&& is_named(t, keeper, bare, id)
            &&& now == moved(t, keeper, id)
            &&& action == ActionView::DropAliasesOf { payee_id: id }
        },
        UpdateAtView::DropPayee { keeper } => {
            &&& name is Some
            &&& bare.len() > 0
            &&& is_named(t, keeper, bare, id)
            &&& now == with_aliases(moved(t, keeper, id), unnamed(t, id))
            &&& action == ActionView::DropPayee { payee_id: id }
        },
        UpdateAtView::Adopt { keeper } => {
            &&& name is Some
            &&& bare.len() > 0
            &&& is_named(t, keeper, bare, id)
            &&& now == with_payees(
                with_aliases(moved(t, keeper, id), unnamed(t, id)),
                t.payees.remove(id),
            )
            &&& action is AdoptAliases
            &&& action->AdoptAliases_keeper == keeper
        },
        UpdateAtView::KeeperCategory => {
            &&& name is Some
            &&& bare.len() > 0
            &&& s.category_id is Some
            &&& action is SetPayeeCategory
            &&& action->SetPayeeCategory_category_id == s.category_id->0
            &&& is_named(t, action->SetPayeeCategory_payee_id, bare, id)
            &&& exists|stamp: Seq<char>|
                now == #[trigger] merged(t, action->SetPayeeCategory_payee_id, id, stamp)
        },
        UpdateAtView::Category { category_id } => {
            &&& s.category_id == Some(category_id)
            &&& name is Some ==> bare.len() > 0 && !taken && t.payees.contains_key(id)
            &&& now == base
            &&& action == ActionView::FindCategory { id: category_id }
        },
        UpdateAtView::PayeeCategory => {
            &&& s.category_id is Some
            &&& name is Some ==> bare.len() > 0 && !taken && t.payees.contains_key(id)
            &&& t.categories.contains_key(s.category_id->0)
            &&& now == base
            &&& action == ActionView::SetPayeeCategory {
                category_id: s.category_id->0,
                payee_id: id,
            }
        },
    }
}

proof fn update_run(
    t: Tables,
    name: Option<Seq<char>>,
    s: UpdatePayeeView,
    action: ActionView,
    db: Db,
    events: Seq<Event>,
    end: Db,
    out: Result<(), StoreErrorView>,
)
    requires
        update_holds(t, name, s, action, db),
        update_runs(StepView::Run(action, s), db, events, end, out),
    ensures
        out is Ok ==> is_updated(t, end.tables, s.payee_id, name, s.category_id),
    decreases events.len(),
{
    let event = events[0];
    let step = update_next(s, event.reply, event.stamp);
    let after = event.after.tables;
    let id = s.payee_id;
    let bare = trim(name->0);
    assert(update_runs(step, event.after, events.skip(1), end, out));
    if let ReplyView::Done { rows, changed } = event.reply {
        match s.at {
            UpdateAtView::Other { name: wanted } => {
                if rows.len() > 0 {
                    let other = choose|other: Seq<char>|
                        #![trigger one_text(other)]
                        t.payees.contains_key(other) && t.payees[other].name == bare && other
                            != id && rows[0] == one_text(other);
                    assert(text_at(rows[0], 0) == Ok::<Seq<char>, StoreErrorView>(other));
                } else {
                    let which = |other: Seq<char>|
                        t.payees.contains_key(other) && t.payees[other].name == bare && other
                            != id;
                    assert forall|other: Seq<char>| !is_named(t, other, bare, id) by {
                        assert(!which(other));
                    }
                }
            },
            UpdateAtView::Rename => {
                if changed != 0 {
                    assert(after == with_payees(
                        t,
                        t.payees.insert(id, PayeeRec { name: bare, ..t.payees[id] }),
                    ));
                }
            },
            UpdateAtView::DropAliases { keeper } => {
                assert(unnamed(moved(t, keeper, id), id) == unnamed(t, id));
            },
            UpdateAtView::Adopt { keeper } => {
                assert(after == merged(t, keeper, id, action->AdoptAliases_now));
                if s.category_id is None {
                    assert(after == joined(
                        t,
                        keeper,
                        id,
                        action->AdoptAliases_now,
                        s.category_id,
                    ));
                }
            },
            UpdateAtView::KeeperCategory => {
                let keeper = action->SetPayeeCategory_payee_id;
                let stamp = choose|stamp: Seq<char>|
                    db.tables == #[trigger] merged(t, keeper, id, stamp);
                assert(after == joined(t, keeper, id, stamp, s.category_id));
            },
            _ => {},
        }
        if let StepView::Run(next_action, next) = step {
            assert(update_holds(t, name, next, next_action, event.after));
            update_run(t, name, next, next_action, event.after, events.skip(1), end, out);
        }
    }
}

/// A payee that gets a name which another has is taken over by that one:
/// transactions, merchants and category. Otherwise it is renamed, and its
/// category set. A blank name, a category that is not there and a payee that
/// is not there are refused.
pub proof fn updated_payee_has_name_and_category(
    db: Db,
    payee_id: Seq<char>,
    name: Option<Seq<char>>,
    category_id: Option<Seq<char>>,
    events: Seq<Event>,
    end: Db,
)
    requires
        update_runs(update_start(payee_id, name, category_id), db, events, end, Ok(())),
    ensures
        is_updated(db.tables, end.tables, payee_id, name, category_id),
{
    let step = update_start(payee_id, name, category_id);
    match step {
        StepView::Run(action, s) => {
            update_run(db.tables, name, s, action, db, events, end, Ok(()));
        },
        StepView::Finish(_) => {
            assert(with_payees(db.tables, db.tables.payees) == db.tables);
        },
    }
}

/// A blank name is refused, and nothing changes.
pub proof fn blank_name_changes_nothing(
    db: Db,
    payee_id: Seq<char>,
    name: Seq<char>,
    category_id: Option<Seq<char>>,
    events: Seq<Event>,
    end: Db,
    out: Result<(), StoreErrorView>,
)
    requires
        trim(name).len() == 0,
        update_runs(update_start(payee_id, Some(name), category_id), db, events, end, out),
    ensures
        out == Err::<(), StoreErrorView>(StoreErrorView::NotFound("payee adı boş"@)),
        end == db,
{
}

/// A payee that gets a name of its own has that name, without the white space
/// around it, and the category where one is given; transactions, aliases and
/// other payees stay.
pub proof fn free_name_renames_the_payee(
    db: Db,
    payee_id: Seq<char>,
    name: Seq<char>,
    category_id: Option<Seq<char>>,
    events: Seq<Event>,
    end: Db,
)
    requires
        forall|other: Seq<char>| !#[trigger] is_named(db.tables, other, trim(name), payee_id),
        update_runs(update_start(payee_id, Some(name), category_id), db, events, end, Ok(())),
    ensures
        db.tables.payees.contains_key(payee_id),
        end.tables == with_payees(
            db.tables,
            db.tables.payees.insert(
                payee_id,
                PayeeRec {
                    name: trim(name),
                    category_id: match category_id {
                        Some(category_id) => category_id,
                        None => db.tables.payees[payee_id].category_id,
                    },
                    created_at: db.tables.payees[payee_id].created_at,
                },
            ),
        ),
{
    updated_payee_has_name_and_category(db, payee_id, Some(name), category_id, events, end);
    assert(end.tables.payees =~= db.tables.payees.insert(
        payee_id,
        end.tables.payees[payee_id],
    ));
}

/// A payee that gets the name of another is gone: the other has its
/// transactions, its own stay its own, and the other's merchants have an alias.
pub proof fn taken_name_joins_the_payees(
    db: Db,
    payee_id: Seq<char>,
    name: Seq<char>,
    category_id: Option<Seq<char>>,
    events: Seq<Event>,
    end: Db,
    other: Seq<char>,
) -> (keeper: Seq<char>)
    requires
        is_named(db.tables, other, trim(name), payee_id),
        update_runs(update_start(payee_id, Some(name), category_id), db, events, end, Ok(())),
    ensures
        is_named(db.tables, keeper, trim(name), payee_id),
        end.tables.statements == db.tables.statements,
        end.tables.categories == db.tables.categories,
        end.tables.payees.dom() == db.tables.payees.dom().remove(payee_id),
        end.tables.payees[keeper] == (PayeeRec {
            category_id: match category_id {
                Some(category_id) => category_id,
                None => db.tables.payees[keeper].category_id,
            },
            ..db.tables.payees[keeper]
        }),
        forall|id: Seq<char>| #[trigger]
            end.tables.payees.contains_key(id) && id != keeper ==> end.tables.payees[id]
                == db.tables.payees[id],
        end.tables.txns == relabeled(
            db.tables.txns,
            |x: TxnRec| x.payee_id == Some(payee_id),
            Some(keeper),
        ),
        forall|norm: Seq<char>| #[trigger]
            end.tables.aliases.contains_key(norm) ==> end.tables.aliases[norm].payee_id
                != payee_id,
        forall|norm: Seq<char>| #[trigger]
            labels(end.tables.txns, norm, keeper) ==> end.tables.aliases.contains_key(norm),
{
    updated_payee_has_name_and_category(db, payee_id, Some(name), category_id, events, end);
    let bare = trim(name);
    let t = db.tables;
    let (keeper, now) = choose|keeper: Seq<char>, now: Seq<char>| #[trigger]
        is_named(t, keeper, bare, payee_id) && end.tables == #[trigger] joined(
            t,
            keeper,
            payee_id,
            now,
            category_id,
        );
    assert(end.tables.payees.dom() =~= t.payees.dom().remove(payee_id));
    keeper
}

/// A payee that was taken over labels nothing any more, and each merchant of
/// the one that took it over has an alias.
pub proof fn merged_payee_is_gone(
    t: Tables,
    keeper: Seq<char>,
    extra: Seq<char>,
    now: Seq<char>,
    id: Seq<char>,
)
    requires
        keeper != extra,
        t.txns.contains_key(id),
    ensures
        !merged(t, keeper, extra, now).payees.contains_key(extra),
        merged(t, keeper, extra, now).txns.contains_key(id),
        merged(t, keeper, extra, now).txns[id].payee_id != Some(extra),
        merged(t, keeper, extra, now).txns[id].payee_id == Some(keeper) ==> merged(
            t,
            keeper,
            extra,
            now,
        ).aliases.contains_key(t.txns[id].txn.merchant_norm),
{
    let m = merged(t, keeper, extra, now);
    if m.txns[id].payee_id == Some(keeper) {
        assert(m.txns.contains_key(id));
        assert(labels(m.txns, t.txns[id].txn.merchant_norm, keeper));
    }
}

} // verus!
