//! When the operations of the store succeed: where the database answers every
//! statement, and what they were asked about is there.

use crate::parse::ParseResultView;
use crate::store::action::ActionView;
use crate::store::import::{import_next, import_start, ImportAtView, ImportReportView, ImportView};
use crate::store::label::{label_next, label_start, LabelAtView, LabelReportView, LabelView};
use crate::store::laws::import::import_runs;
use crate::store::laws::label::label_runs;
use crate::store::laws::migrate::migrate_runs;
use crate::store::laws::payee::{clear_runs, source_runs, update_runs};
use crate::store::laws::rekey::{pairs_read, rekey_runs, texts_read};
use crate::store::model::{answers, labels, one_number, one_text, two_numbers, two_texts, Db, Event};
use crate::store::open::{migrate_next, migrate_start, pairs_of, rekey_next, rekey_start, texts_of,
    MigrateView, RekeyView};
use crate::store::payee::{clear_next, clear_start, source_next, source_start, update_next,
    update_start, ClearAt, ClearPayeeView, ClearSourceView, SourceAt, UpdateAtView,
    UpdatePayeeView};
use crate::store::step::StepView;
use crate::store::value::{ReplyView, SqlView, StoreErrorView};
use crate::text::trim;
use vstd::prelude::*;

verus! {

/// The database answered every statement.
pub open spec fn all_done(events: Seq<Event>) -> bool {
    forall|i: int| 0 <= i < events.len() ==> (#[trigger] events[i]).reply is Done
}

proof fn rest_is_done(events: Seq<Event>)
    requires
        events.len() > 0,
    ensures
        all_done(events) <==> events[0].reply is Done && all_done(events.skip(1)),
{
    let rest = events.skip(1);
    if all_done(events) {
        assert forall|i: int| 0 <= i < rest.len() implies (#[trigger] rest[i]).reply is Done by {
            assert(rest[i] == events[i + 1]);
        }
    }
    if events[0].reply is Done && all_done(rest) {
        assert forall|i: int| 0 <= i < events.len() implies (#[trigger] events[i]).reply is Done by {
            if i > 0 {
                assert(rest[i - 1] == events[i]);
            }
        }
    }
}

/// The statement that an import has asked, as far as its answer is read.
spec fn import_asked(s: ImportView, action: ActionView) -> bool {
    match s.at {
        ImportAtView::Find => action is FindStatement,
        ImportAtView::CountOld { .. } => action is CountLabeled,
        ImportAtView::CountNew { .. } => action is CountLabeled,
        ImportAtView::Alias { .. } => action is AliasOf,
        ImportAtView::Payee { .. } => action is FindPayee,
        ImportAtView::Undo { .. } => false,
        ImportAtView::Begin { .. } => action is Begin,
        ImportAtView::Commit { .. } => action is Commit,
        _ => true,
    }
}

proof fn import_comes_through(
    s: ImportView,
    action: ActionView,
    db: Db,
    events: Seq<Event>,
    end: Db,
    out: Result<ImportReportView, StoreErrorView>,
)
    requires
        import_asked(s, action),
        import_runs(StepView::Run(action, s), db, events, end, out),
    ensures
        all_done(events) ==> out is Ok,
    decreases events.len(),
{
    rest_is_done(events);
    let event = events[0];
    if event.reply is Done {
        let rows = event.reply->rows;
        let next = import_next(s, event.reply, event.stamp);
        assert(import_runs(next, event.after, events.skip(1), end, out));
        assert(answers(db, action, event.reply, event.after));
        if rows.len() > 0 {
            match s.at {
                ImportAtView::Find | ImportAtView::Payee { .. } => {
                    let id = choose|id: Seq<char>| rows[0] == #[trigger] one_text(id);
                    assert(rows[0] == one_text(id));
                    assert(rows[0][0] == SqlView::Text(id));
                },
                ImportAtView::Alias { .. } => {
                    let norm = action->AliasOf_norm;
                    let id = db.tables.aliases[norm].payee_id;
                    assert(rows[0] == one_text(id));
                    assert(rows[0][0] == SqlView::Text(id));
                },
                _ => {},
            }
        }
        match s.at {
            ImportAtView::CountOld { .. } | ImportAtView::CountNew { .. } => {
                let (all, labeled) = choose|all: i64, labeled: i64|
                    rows[0] == #[trigger] two_numbers(all, labeled);
                assert(rows[0][0] == SqlView::Integer(all) && rows[0][1] == SqlView::Integer(
                    labeled,
                ));
            },
            _ => {},
        }
        if let StepView::Run(action2, s2) = next {
            import_comes_through(s2, action2, event.after, events.skip(1), end, out);
        }
    }
}

/// An import succeeds where the database answers every statement.
pub proof fn import_succeeds_where_the_database_answers(
    db: Db,
    parsed: ParseResultView,
    events: Seq<Event>,
    end: Db,
    out: Result<ImportReportView, StoreErrorView>,
)
    requires
        import_runs(import_start(parsed), db, events, end, out),
        all_done(events),
    ensures
        out is Ok,
{
    if let StepView::Run(action, s) = import_start(parsed) {
        import_comes_through(s, action, db, events, end, out);
    }
}

spec fn label_asked(s: LabelView, action: ActionView) -> bool {
    match s.at {
        LabelAtView::Category => action == (ActionView::FindCategory { id: s.category_id }),
        LabelAtView::Payee => action is FindPayee,
        _ => !(action is Begin || action is Commit || action is Rollback),
    }
}

proof fn label_comes_through(
    s: LabelView,
    action: ActionView,
    db: Db,
    events: Seq<Event>,
    end: Db,
    out: Result<LabelReportView, StoreErrorView>,
)
    requires
        label_asked(s, action),
        label_runs(StepView::Run(action, s), db, events, end, out),
    ensures
        all_done(events) ==> if s.at is Category && !db.tables.categories.contains_key(
            s.category_id,
        ) {
            out == Err::<LabelReportView, StoreErrorView>(
                StoreErrorView::NotFound("kategori "@ + s.category_id),
            )
        } else {
            out is Ok
        },
        out is Ok ==> all_done(events),
    decreases events.len(),
{
    rest_is_done(events);
    let event = events[0];
    let next = label_next(s, event.reply, event.stamp);
    assert(label_runs(next, event.after, events.skip(1), end, out));
    if event.reply is Done {
        let rows = event.reply->rows;
        assert(answers(db, action, event.reply, event.after));
        if rows.len() > 0 && s.at is Payee {
            let id = choose|id: Seq<char>| rows[0] == #[trigger] one_text(id);
            assert(rows[0] == one_text(id));
            assert(rows[0][0] == SqlView::Text(id));
        }
        if let StepView::Run(action2, s2) = next {
            label_comes_through(s2, action2, event.after, events.skip(1), end, out);
        }
    }
}

/// A label is given where the database answers every statement and the category
/// is there; where it is not, that is what the refusal says. A label is given
/// only where every statement was answered.
pub proof fn label_is_given_where_its_category_is_there(
    db: Db,
    merchant_norm: Seq<char>,
    payee_name: Seq<char>,
    category_id: Seq<char>,
    events: Seq<Event>,
    end: Db,
    out: Result<LabelReportView, StoreErrorView>,
)
    requires
        label_runs(label_start(merchant_norm, payee_name, category_id), db, events, end, out),
    ensures
        all_done(events) && db.tables.categories.contains_key(category_id) ==> out is Ok,
        all_done(events) && !db.tables.categories.contains_key(category_id) ==> out == Err::<
            LabelReportView,
            StoreErrorView,
        >(StoreErrorView::NotFound("kategori "@ + category_id)),
        out is Ok ==> all_done(events),
{
    if let StepView::Run(action, s) = label_start(merchant_norm, payee_name, category_id) {
        label_comes_through(s, action, db, events, end, out);
    }
}

spec fn clear_asked(s: ClearPayeeView, action: ActionView) -> bool {
    match s.at {
        ClearAt::Txns => action == (ActionView::UnlabelPayee { payee_id: s.payee_id }),
        ClearAt::Aliases => action == (ActionView::DropAliasesOf { payee_id: s.payee_id }),
        ClearAt::Payee => action == (ActionView::DropPayee { payee_id: s.payee_id }),
    }
}

proof fn clear_comes_through(
    s: ClearPayeeView,
    action: ActionView,
    db: Db,
    events: Seq<Event>,
    end: Db,
    out: Result<(), StoreErrorView>,
)
    requires
        clear_asked(s, action),
        clear_runs(StepView::Run(action, s), db, events, end, out),
    ensures
        all_done(events) ==> if db.tables.payees.contains_key(s.payee_id) {
            out is Ok
        } else {
            out == Err::<(), StoreErrorView>(StoreErrorView::NotFound("payee "@ + s.payee_id))
        },
        out is Ok ==> all_done(events),
    decreases events.len(),
{
    rest_is_done(events);
    let event = events[0];
    let next = clear_next(s, event.reply);
    assert(clear_runs(next, event.after, events.skip(1), end, out));
    if event.reply is Done {
        assert(answers(db, action, event.reply, event.after));
        if let StepView::Run(action2, s2) = next {
            clear_comes_through(s2, action2, event.after, events.skip(1), end, out);
        }
    }
}

/// A payee is removed where the database answers every statement and the payee
/// is there; where it is not, that is what the refusal says.
pub proof fn payee_is_removed_where_it_is_there(
    db: Db,
    payee_id: Seq<char>,
    events: Seq<Event>,
    end: Db,
    out: Result<(), StoreErrorView>,
)
    requires
        clear_runs(clear_start(payee_id), db, events, end, out),
    ensures
        all_done(events) && db.tables.payees.contains_key(payee_id) ==> out is Ok,
        all_done(events) && !db.tables.payees.contains_key(payee_id) ==> out == Err::<
            (),
            StoreErrorView,
        >(StoreErrorView::NotFound("payee "@ + payee_id)),
        out is Ok ==> all_done(events),
{
    if let StepView::Run(action, s) = clear_start(payee_id) {
        clear_comes_through(s, action, db, events, end, out);
    }
}

spec fn source_asked(s: ClearSourceView, action: ActionView) -> bool {
    match s.at {
        SourceAt::Count => action is CountTxnsOf,
        _ => true,
    }
}

proof fn source_comes_through(
    s: ClearSourceView,
    action: ActionView,
    db: Db,
    events: Seq<Event>,
    end: Db,
    out: Result<(), StoreErrorView>,
)
    requires
        source_asked(s, action),
        source_runs(StepView::Run(action, s), db, events, end, out),
    ensures
        all_done(events) <==> out is Ok,
    decreases events.len(),
{
    rest_is_done(events);
    let event = events[0];
    let next = source_next(s, event.reply);
    assert(source_runs(next, event.after, events.skip(1), end, out));
    if event.reply is Done {
        let rows = event.reply->rows;
        assert(answers(db, action, event.reply, event.after));
        if s.at is Count {
            let n = choose|n: i64| rows[0] == #[trigger] one_number(n);
            assert(rows[0][0] == SqlView::Integer(n));
        }
        if let StepView::Run(action2, s2) = next {
            source_comes_through(s2, action2, event.after, events.skip(1), end, out);
        }
    }
}

/// A merchant is taken from a payee exactly where the database answers every
/// statement.
pub proof fn source_is_removed_where_the_database_answers(
    db: Db,
    payee_id: Seq<char>,
    merchant_norm: Seq<char>,
    events: Seq<Event>,
    end: Db,
    out: Result<(), StoreErrorView>,
)
    requires
        source_runs(source_start(payee_id, merchant_norm), db, events, end, out),
    ensures
        all_done(events) <==> out is Ok,
{
    if let StepView::Run(action, s) = source_start(payee_id, merchant_norm) {
        source_comes_through(s, action, db, events, end, out);
    }
}

spec fn update_asked(s: UpdatePayeeView, action: ActionView) -> bool {
    match s.at {
        UpdateAtView::Other { .. } => action is OtherNamed,
        UpdateAtView::Rename => action is SetPayeeName && action->SetPayeeName_payee_id
            == s.payee_id,
        UpdateAtView::Category { category_id } => action == (ActionView::FindCategory {
            id: category_id,
        }) && s.category_id == Some(category_id),
        UpdateAtView::PayeeCategory => action is SetPayeeCategory
            && action->SetPayeeCategory_payee_id == s.payee_id,
        _ => true,
    }
}

/// What an update has to find, from where it is.
spec fn update_finds(s: UpdatePayeeView, db: Db) -> bool {
    match s.at {
        UpdateAtView::Other { .. } | UpdateAtView::Rename | UpdateAtView::Category { .. } =>
            db.tables.payees.contains_key(s.payee_id) && (s.category_id matches Some(c)
                ==> db.tables.categories.contains_key(c)),
        UpdateAtView::PayeeCategory => db.tables.payees.contains_key(s.payee_id),
        _ => true,
    }
}

proof fn update_comes_through(
    s: UpdatePayeeView,
    action: ActionView,
    db: Db,
    events: Seq<Event>,
    end: Db,
    out: Result<(), StoreErrorView>,
)
    requires
        update_asked(s, action),
        update_runs(StepView::Run(action, s), db, events, end, out),
    ensures
        all_done(events) && update_finds(s, db) ==> out is Ok,
        out is Ok ==> all_done(events),
    decreases events.len(),
{
    rest_is_done(events);
    let event = events[0];
    let next = update_next(s, event.reply, event.stamp);
    assert(update_runs(next, event.after, events.skip(1), end, out));
    if event.reply is Done {
        let rows = event.reply->rows;
        assert(answers(db, action, event.reply, event.after));
        if s.at is Other && rows.len() > 0 {
            let id = choose|id: Seq<char>| rows[0] == #[trigger] one_text(id);
            assert(rows[0] == one_text(id));
            assert(rows[0][0] == SqlView::Text(id));
        }
        if let StepView::Run(action2, s2) = next {
            update_comes_through(s2, action2, event.after, events.skip(1), end, out);
        }
    }
}

/// A payee is updated where the database answers every statement, the name is
/// not blank, and the payee and the category that is asked for are there. It is
/// updated only where every statement was answered.
pub proof fn payee_is_updated_where_all_is_there(
    db: Db,
    payee_id: Seq<char>,
    name: Option<Seq<char>>,
    category_id: Option<Seq<char>>,
    events: Seq<Event>,
    end: Db,
    out: Result<(), StoreErrorView>,
)
    requires
        update_runs(update_start(payee_id, name, category_id), db, events, end, out),
    ensures
        all_done(events) && db.tables.payees.contains_key(payee_id) && (name matches Some(name)
            ==> trim(name).len() > 0) && (category_id matches Some(c)
            ==> db.tables.categories.contains_key(c)) ==> out is Ok,
        out is Ok ==> all_done(events),
{
    if let StepView::Run(action, s) = update_start(payee_id, name, category_id) {
        update_comes_through(s, action, db, events, end, out);
    }
}

spec fn rekey_asked(s: RekeyView, action: ActionView) -> bool {
    match s {
        RekeyView::Raws => action is RawMerchants,
        RekeyView::Shared => action is SharedNorms,
        RekeyView::Names => action is SharedNames,
        RekeyView::Others { .. } => action is OthersNamed,
        _ => true,
    }
}

/// The rows that a renewal of keys reads can be read.
proof fn rekey_rows_are_read(
    s: RekeyView,
    action: ActionView,
    db: Db,
    rows: Seq<Seq<SqlView>>,
    changed: u64,
    after: Db,
)
    requires
        rekey_asked(s, action),
        answers(db, action, ReplyView::Done { rows, changed }, after),
    ensures
        s is Raws || s is Others ==> texts_of(rows) is Ok,
        s is Shared || s is Names ==> pairs_of(rows) is Ok,
{
    let t = db.tables;
    match s {
        RekeyView::Raws => {
            texts_read(
                rows,
                |raw: Seq<char>|
                    exists|x: Seq<char>| #[trigger]
                        t.txns.contains_key(x) && t.txns[x].txn.merchant_raw == raw,
            );
        },
        RekeyView::Others { .. } => {
            let name = action->OthersNamed_name;
            let id = action->OthersNamed_id;
            texts_read(
                rows,
                |other: Seq<char>|
                    t.payees.contains_key(other) && t.payees[other].name == name && other != id,
            );
        },
        RekeyView::Shared => {
            assert forall|i: int| 0 <= i < rows.len() implies exists|a: Seq<char>, b: Seq<char>|
                (#[trigger] rows[i]) == #[trigger] two_texts(a, b) by {
                let (norm, keeper) = choose|norm: Seq<char>, keeper: Seq<char>| #[trigger]
                    labels(t.txns, norm, keeper) && rows[i] == two_texts(norm, keeper);
                assert(rows[i] == two_texts(norm, keeper));
            }
            pairs_read(rows);
        },
        RekeyView::Names => {
            assert forall|i: int| 0 <= i < rows.len() implies exists|a: Seq<char>, b: Seq<char>|
                (#[trigger] rows[i]) == #[trigger] two_texts(a, b) by {}
            pairs_read(rows);
        },
        _ => {},
    }
}

proof fn rekey_comes_through(
    s: RekeyView,
    action: ActionView,
    db: Db,
    events: Seq<Event>,
    end: Db,
    out: Result<(), StoreErrorView>,
)
    requires
        rekey_asked(s, action),
        rekey_runs(StepView::Run(action, s), db, events, end, out),
    ensures
        all_done(events) <==> out is Ok,
    decreases events.len(),
{
    rest_is_done(events);
    let event = events[0];
    let next = rekey_next(s, event.reply, event.stamp);
    assert(rekey_runs(next, event.after, events.skip(1), end, out));
    if event.reply is Done {
        rekey_rows_are_read(
            s,
            action,
            db,
            event.reply->rows,
            event.reply->changed,
            event.after,
        );
        if let StepView::Run(action2, s2) = next {
            rekey_comes_through(s2, action2, event.after, events.skip(1), end, out);
        }
    }
}

/// The keys of the merchants are renewed exactly where the database answers
/// every statement.
pub proof fn keys_are_renewed_where_the_database_answers(
    db: Db,
    events: Seq<Event>,
    end: Db,
    out: Result<(), StoreErrorView>,
)
    requires
        rekey_runs(rekey_start(), db, events, end, out),
    ensures
        all_done(events) <==> out is Ok,
{
    if let StepView::Run(action, s) = rekey_start() {
        rekey_comes_through(s, action, db, events, end, out);
    }
}

/// A database without tables gets the schema, in a transaction of its own, where
/// the database answers every statement; it is not accepted before that is over.
pub proof fn empty_database_gets_the_schema(
    db: Db,
    events: Seq<Event>,
    end: Db,
    out: Result<(), StoreErrorView>,
)
    requires
        migrate_runs(migrate_start(), db, events, end, out),
        events[0].reply matches ReplyView::Done { rows, .. } && rows.len() > 0 && rows[0]
            == one_number(0),
    ensures
        all_done(events) ==> out is Ok,
        out is Ok ==> all_done(events) && events.len() == 4,
{
    let first = events[0];
    rest_is_done(events);
    assert(one_number(0)[0] == SqlView::Integer(0));
    assert(migrate_runs(
        StepView::Run(ActionView::Begin, MigrateView::Begin),
        first.after,
        events.skip(1),
        end,
        out,
    ));
    migrate_comes_through(MigrateView::Begin, ActionView::Begin, first.after, events.skip(1), end, out);
}

/// How many statements are left of the making of a schema.
spec fn left(s: MigrateView) -> nat {
    match s {
        MigrateView::Begin => 3,
        MigrateView::Install => 2,
        _ => 1,
    }
}

proof fn migrate_comes_through(
    s: MigrateView,
    action: ActionView,
    db: Db,
    events: Seq<Event>,
    end: Db,
    out: Result<(), StoreErrorView>,
)
    requires
        s is Begin || s is Install || s is Commit || s is Undo,
        migrate_runs(StepView::Run(action, s), db, events, end, out),
    ensures
        s !is Undo && all_done(events) ==> out is Ok,
        out is Ok ==> s !is Undo && all_done(events) && events.len() == left(s),
    decreases events.len(),
{
    rest_is_done(events);
    let event = events[0];
    let next = migrate_next(s, event.reply);
    assert(migrate_runs(next, event.after, events.skip(1), end, out));
    if let StepView::Run(action2, s2) = next {
        migrate_comes_through(s2, action2, event.after, events.skip(1), end, out);
    }
}

} // verus!
