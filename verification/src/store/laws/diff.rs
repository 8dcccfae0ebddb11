//! What holds of the report on how two schemas differ.

use crate::store::schema::{any_lower, change_lines, changed_lines, difference, extra_lines,
    missing_lines, object_line, object_named, objects_in, SchemaObjectView};
use crate::text::join;
use vstd::prelude::*;

verus! {

/// The objects of one schema whose kind and name another does not have.
pub open spec fn gone(objs: Seq<SchemaObjectView>, others: Seq<SchemaObjectView>) -> Seq<
    SchemaObjectView,
>
    decreases objs.len(),
{
    if objs.len() == 0 {
        Seq::empty()
    } else {
        let obj = objs.last();
        if object_named(others, obj.kind, obj.name, 0) is None {
            gone(objs.drop_last(), others).push(obj)
        } else {
            gone(objs.drop_last(), others)
        }
    }
}

/// A line on each object.
pub open spec fn lines_on(mark: Seq<char>, objs: Seq<SchemaObjectView>, what: Seq<char>) -> Seq<
    Seq<char>,
> {
    Seq::new(objs.len(), |i: int| object_line(mark, objs[i], what))
}

/// What one report tells as removed, the reversed report tells as added.
pub proof fn removals_are_the_additions_of_the_reverse(
    old: Seq<SchemaObjectView>,
    new: Seq<SchemaObjectView>,
)
    ensures
        missing_lines(old, new) == lines_on("- "@, gone(old, new), " (kaldırılmış)"@),
        extra_lines(new, old) == lines_on("+ "@, gone(old, new), " (eklenmiş)"@),
    decreases old.len(),
{
    if old.len() > 0 {
        removals_are_the_additions_of_the_reverse(old.drop_last(), new);
        let fewer = gone(old.drop_last(), new);
        let obj = old.last();
        assert(lines_on("- "@, fewer.push(obj), " (kaldırılmış)"@) =~= lines_on(
            "- "@,
            fewer,
            " (kaldırılmış)"@,
        ).push(object_line("- "@, obj, " (kaldırılmış)"@)));
        assert(lines_on("+ "@, fewer.push(obj), " (eklenmiş)"@) =~= lines_on(
            "+ "@,
            fewer,
            " (eklenmiş)"@,
        ).push(object_line("+ "@, obj, " (eklenmiş)"@)));
    }
}

/// The objects that two schemas have with different SQL texts, each as it is in
/// the one and in the other.
pub open spec fn changed(old: Seq<SchemaObjectView>, new: Seq<SchemaObjectView>) -> Seq<
    (SchemaObjectView, SchemaObjectView),
>
    decreases old.len(),
{
    if old.len() == 0 {
        Seq::empty()
    } else {
        let obj = old.last();
        let fewer = changed(old.drop_last(), new);
        match object_named(new, obj.kind, obj.name, 0) {
            Some(other) => if other.sql != obj.sql {
                fewer.push((obj, other))
            } else {
                fewer
            },
            None => fewer,
        }
    }
}

/// The lines on changed objects.
pub open spec fn lines_on_changes(pairs: Seq<(SchemaObjectView, SchemaObjectView)>) -> Seq<
    Seq<char>,
>
    decreases pairs.len(),
{
    if pairs.len() == 0 {
        Seq::empty()
    } else {
        lines_on_changes(pairs.drop_last()) + change_lines(pairs.last().0, pairs.last().1, any_lower())
    }
}

/// The report has the lines on the changed objects, one after the other.
pub proof fn changed_objects_are_reported(
    old: Seq<SchemaObjectView>,
    new: Seq<SchemaObjectView>,
)
    ensures
        changed_lines(old, new, any_lower()) == lines_on_changes(changed(old, new)),
    decreases old.len(),
{
    if old.len() > 0 {
        changed_objects_are_reported(old.drop_last(), new);
        let fewer = changed(old.drop_last(), new);
        let obj = old.last();
        if let Some(other) = object_named(new, obj.kind, obj.name, 0) {
            assert(fewer.push((obj, other)).drop_last() =~= fewer);
        }
    }
}

/// No two objects of a schema have one kind and name.
pub open spec fn objects_differ(objs: Seq<SchemaObjectView>) -> bool {
    forall|i: int, j: int|
        0 <= i < objs.len() && 0 <= j < objs.len() && (#[trigger] objs[i]).kind == (
        #[trigger] objs[j]).kind && objs[i].name == objs[j].name ==> i == j
}

proof fn named_is_there(
    objs: Seq<SchemaObjectView>,
    kind: Seq<char>,
    name: Seq<char>,
    from: int,
)
    requires
        0 <= from,
    ensures
        match object_named(objs, kind, name, from) {
            Some(obj) => objs.contains(obj) && obj.kind == kind && obj.name == name,
            None => forall|i: int|
                from <= i < objs.len() ==> !((#[trigger] objs[i]).kind == kind && objs[i].name
                    == name),
        },
    decreases objs.len() - from,
{
    if from < objs.len() && !(objs[from].kind == kind && objs[from].name == name) {
        named_is_there(objs, kind, name, from + 1);
    }
}

proof fn there_is_named(objs: Seq<SchemaObjectView>, obj: SchemaObjectView)
    requires
        objects_differ(objs),
        objs.contains(obj),
    ensures
        object_named(objs, obj.kind, obj.name, 0) == Some(obj),
{
    named_is_there(objs, obj.kind, obj.name, 0);
    let at = choose|i: int| 0 <= i < objs.len() && objs[i] == obj;
    match object_named(objs, obj.kind, obj.name, 0) {
        Some(other) => {
            let i = choose|i: int| 0 <= i < objs.len() && objs[i] == other;
            assert(objs[i].kind == objs[at].kind);
        },
        None => {
            assert(objs[at].kind == obj.kind);
        },
    }
}

proof fn changed_holds(
    old: Seq<SchemaObjectView>,
    new: Seq<SchemaObjectView>,
    obj: SchemaObjectView,
    other: SchemaObjectView,
)
    ensures
        changed(old, new).contains((obj, other)) <==> old.contains(obj) && other.sql != obj.sql
            && object_named(new, obj.kind, obj.name, 0) == Some(other),
    decreases old.len(),
{
    if old.len() > 0 {
        let fewer = old.drop_last();
        let last = old.last();
        changed_holds(fewer, new, obj, other);
        assert(old =~= fewer.push(last));
        assert(old.contains(obj) <==> fewer.contains(obj) || obj == last) by {
            if fewer.contains(obj) {
                let i = choose|i: int| 0 <= i < fewer.len() && fewer[i] == obj;
                assert(old[i] == obj);
            }
            if obj == last {
                assert(old[old.len() - 1] == obj);
            }
            if old.contains(obj) && obj != last {
                let i = choose|i: int| 0 <= i < old.len() && old[i] == obj;
                assert(fewer[i] == obj);
            }
        }
        let pairs = changed(fewer, new);
        match object_named(new, last.kind, last.name, 0) {
            Some(x) => if x.sql != last.sql {
                let all = pairs.push((last, x));
                assert(all.contains((obj, other)) <==> pairs.contains((obj, other)) || (obj, other)
                    == (last, x)) by {
                    if pairs.contains((obj, other)) {
                        let i = choose|i: int| 0 <= i < pairs.len() && pairs[i] == (obj, other);
                        assert(all[i] == (obj, other));
                    }
                    assert(all[pairs.len() as int] == (last, x));
                    if all.contains((obj, other)) && (obj, other) != (last, x) {
                        let i = choose|i: int| 0 <= i < all.len() && all[i] == (obj, other);
                        assert(pairs[i] == (obj, other));
                    }
                }
            },
            None => {},
        }
    }
}

/// The reversed report tells the same objects as changed, each the other way
/// round.
pub proof fn changes_are_those_of_the_reverse(
    old: Seq<SchemaObjectView>,
    new: Seq<SchemaObjectView>,
    obj: SchemaObjectView,
    other: SchemaObjectView,
)
    requires
        objects_differ(old),
        objects_differ(new),
    ensures
        changed(old, new).contains((obj, other)) <==> changed(new, old).contains((other, obj)),
{
    changed_holds(old, new, obj, other);
    changed_holds(new, old, other, obj);
    named_is_there(new, obj.kind, obj.name, 0);
    named_is_there(old, other.kind, other.name, 0);
    if old.contains(obj) {
        there_is_named(old, obj);
    }
    if new.contains(other) {
        there_is_named(new, other);
    }
}

proof fn gone_holds(
    objs: Seq<SchemaObjectView>,
    others: Seq<SchemaObjectView>,
)
    ensures
        gone(objs, others).len() == 0 <==> forall|i: int|
            0 <= i < objs.len() ==> object_named(
                others,
                (#[trigger] objs[i]).kind,
                objs[i].name,
                0,
            ) is Some,
    decreases objs.len(),
{
    if objs.len() > 0 {
        let fewer = objs.drop_last();
        gone_holds(fewer, others);
        assert forall|i: int| 0 <= i < fewer.len() implies fewer[i] == #[trigger] objs[i] by {}
        assert(objs[objs.len() - 1] == objs.last());
        if gone(fewer, others).len() == 0 {
            if object_named(others, objs.last().kind, objs.last().name, 0) is Some {
                assert forall|i: int| 0 <= i < objs.len() implies object_named(
                    others,
                    (#[trigger] objs[i]).kind,
                    objs[i].name,
                    0,
                ) is Some by {
                    if i < fewer.len() {
                        assert(object_named(others, fewer[i].kind, fewer[i].name, 0) is Some);
                    }
                }
            }
        } else {
            let i = choose|i: int|
                0 <= i < fewer.len() && object_named(
                    others,
                    (#[trigger] fewer[i]).kind,
                    fewer[i].name,
                    0,
                ) is None;
            assert(objs[i] == fewer[i]);
        }
    }
}

proof fn change_lines_are_some(pairs: Seq<(SchemaObjectView, SchemaObjectView)>)
    ensures
        lines_on_changes(pairs).len() == 0 <==> pairs.len() == 0,
        pairs.len() > 0 ==> lines_on_changes(pairs)[0] == object_line(
            "~ "@,
            pairs[0].0,
            " (değişmiş)"@,
        ),
    decreases pairs.len(),
{
    if pairs.len() > 0 {
        change_lines_are_some(pairs.drop_last());
        assert(change_lines(pairs.last().0, pairs.last().1, any_lower())[0] == object_line(
            "~ "@,
            pairs.last().0,
            " (değişmiş)"@,
        ));
    }
}

proof fn join_starts(lines: Seq<Seq<char>>, sep: Seq<char>)
    requires
        lines.len() > 0,
        lines[0].len() > 0,
    ensures
        join(lines, sep).len() > 0,
        join(lines, sep)[0] == lines[0][0],
    decreases lines.len(),
{
    if lines.len() > 1 {
        join_starts(lines.drop_last(), sep);
    }
}

/// Two schemas have the same objects with the same SQL texts.
pub open spec fn same_objects(old: Seq<SchemaObjectView>, new: Seq<SchemaObjectView>) -> bool {
    forall|obj: SchemaObjectView| #[trigger] old.contains(obj) <==> #[trigger] new.contains(obj)
}

proof fn same_objects_have_no_lines(old: Seq<SchemaObjectView>, new: Seq<SchemaObjectView>)
    requires
        objects_differ(old),
        objects_differ(new),
    ensures
        same_objects(old, new) <==> gone(old, new).len() == 0 && gone(new, old).len() == 0
            && changed(old, new).len() == 0,
{
    gone_holds(old, new);
    gone_holds(new, old);
    if same_objects(old, new) {
        assert forall|i: int| 0 <= i < old.len() implies object_named(
            new,
            (#[trigger] old[i]).kind,
            old[i].name,
            0,
        ) is Some by {
            assert(old.contains(old[i]));
            there_is_named(new, old[i]);
        }
        assert forall|i: int| 0 <= i < new.len() implies object_named(
            old,
            (#[trigger] new[i]).kind,
            new[i].name,
            0,
        ) is Some by {
            assert(new.contains(new[i]));
            there_is_named(old, new[i]);
        }
        if changed(old, new).len() > 0 {
            let (obj, other) = changed(old, new)[0];
            assert(changed(old, new).contains((obj, other)));
            changed_holds(old, new, obj, other);
            there_is_named(new, obj);
        }
    } else if gone(old, new).len() == 0 && gone(new, old).len() == 0 && changed(old, new).len()
        == 0 {
        let obj = choose|obj: SchemaObjectView|
            (#[trigger] old.contains(obj)) != (#[trigger] new.contains(obj));
        if old.contains(obj) {
            let i = choose|i: int| 0 <= i < old.len() && old[i] == obj;
            named_is_there(new, old[i].kind, old[i].name, 0);
            let other = object_named(new, obj.kind, obj.name, 0)->0;
            changed_holds(old, new, obj, other);
            assert(other =~= obj);
        } else {
            let i = choose|i: int| 0 <= i < new.len() && new[i] == obj;
            named_is_there(old, new[i].kind, new[i].name, 0);
            let other = object_named(old, obj.kind, obj.name, 0)->0;
            there_is_named(new, obj);
            changed_holds(old, new, other, obj);
            assert(other =~= obj);
        }
    }
}

/// The report says that two schemas differ in looks alone exactly where they
/// have the same objects with the same SQL texts.
pub proof fn schemas_differ_in_looks_alone_where_they_have_the_same_objects(
    old: Seq<char>,
    new: Seq<char>,
)
    requires
        objects_differ(objects_in(old)),
        objects_differ(objects_in(new)),
    ensures
        difference(old, new) == "şemalar yalnızca kozmetik normalleştirme düzeyinde ayrışıyor"@
            <==> same_objects(objects_in(old), objects_in(new)),
{
    reveal_strlit("şemalar yalnızca kozmetik normalleştirme düzeyinde ayrışıyor");
    reveal_strlit("- ");
    reveal_strlit("+ ");
    reveal_strlit("~ ");
    let was = objects_in(old);
    let is = objects_in(new);
    same_objects_have_no_lines(was, is);
    removals_are_the_additions_of_the_reverse(was, is);
    removals_are_the_additions_of_the_reverse(is, was);
    changed_objects_are_reported(was, is);
    change_lines_are_some(changed(was, is));
    let lines = missing_lines(was, is) + extra_lines(was, is) + changed_lines(was, is, any_lower());
    if lines.len() > 0 {
        if missing_lines(was, is).len() > 0 {
            assert(lines[0] == missing_lines(was, is)[0]);
            assert(lines[0][0] == '-');
        } else if extra_lines(was, is).len() > 0 {
            assert(lines[0] == extra_lines(was, is)[0]);
            assert(lines[0][0] == '+');
        } else {
            assert(lines[0] == changed_lines(was, is, any_lower())[0]);
            assert(lines[0][0] == '~');
        }
        join_starts(lines, "\n"@);
    }
}

} // verus!
