//! What the check of the schema comes to.

use crate::store::model::{runs, Db, Event};
use crate::store::open::{migrate_next, migrate_start, MigrateView};
use crate::store::schema::{difference, fingerprint_of};
use crate::store::step::{StampView, StepView};
use crate::store::value::{int_at, ReplyView, StoreErrorView};
use vstd::prelude::*;

verus! {

/// The check of the schema goes from a step through events to an end.
pub open spec fn migrate_runs(
    step: StepView<MigrateView, ()>,
    db: Db,
    events: Seq<Event>,
    end: Db,
    out: Result<(), StoreErrorView>,
) -> bool {
    runs(
        |s: MigrateView, reply: ReplyView, stamp: StampView| migrate_next(s, reply),
        step,
        db,
        events,
        end,
        out,
    )
}

/// A reply counts tables, and there are some.
pub open spec fn counts_tables(reply: ReplyView) -> bool {
    &&& reply matches ReplyView::Done { rows, .. }
    &&& rows.len() > 0
    &&& int_at(rows[0], 0) matches Ok(n)
    &&& n != 0
}

/// A reply gives the rows of a schema of this fingerprint.
pub open spec fn gives_schema(reply: ReplyView, fingerprint: Seq<char>) -> bool {
    &&& reply matches ReplyView::Done { rows, .. }
    &&& fingerprint_of(rows) == Ok::<Seq<char>, StoreErrorView>(fingerprint)
}

/// A database that has tables is only read: it is accepted where its
/// fingerprint is the declared one, and refused with the difference where it
/// is not.
pub proof fn filled_database_is_only_read(
    db: Db,
    events: Seq<Event>,
    end: Db,
    out: Result<(), StoreErrorView>,
    have: Seq<char>,
    want: Seq<char>,
)
    requires
        migrate_runs(migrate_start(), db, events, end, out),
        events.len() >= 3,
        counts_tables(events[0].reply),
        gives_schema(events[1].reply, have),
        gives_schema(events[2].reply, want),
    ensures
        end == db,
        out == if have == want {
            Ok::<(), StoreErrorView>(())
        } else {
            Err(StoreErrorView::SchemaDiff(difference(have, want)))
        },
{
    let first = events[0];
    let second = events[1];
    let third = events[2];
    let after_first = migrate_next(MigrateView::Count, first.reply);
    assert(migrate_runs(after_first, first.after, events.skip(1), end, out));
    assert(events.skip(1)[0] == second);
    let after_second = migrate_next(MigrateView::Have, second.reply);
    assert(migrate_runs(after_second, second.after, events.skip(1).skip(1), end, out));
    assert(events.skip(1).skip(1)[0] == third);
    let after_third = migrate_next(MigrateView::Want { have }, third.reply);
    assert(migrate_runs(after_third, third.after, events.skip(1).skip(1).skip(1), end, out));
}

} // verus!
