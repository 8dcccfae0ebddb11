//! Laws of schemas: their fingerprints, their statements and their columns.

use crate::parse::laws::merchant::{split_at_a_separator, split_of_one_piece};
use crate::store::schema::{column_by, columns_from, creates_index, creates_table, fingerprint_of,
    first_at, index_statements, is_name_char, last_place, name_at, names_beyond, normal, object_in,
    objects_in, objects_of_lines, schema_line, table_statement, without_return, SchemaObjectView};
use crate::store::value::{SqlView, StoreErrorView};
use crate::text::{ascii_lower, before, before_bound, is_white, lower_text, occurs_at, split, trim,
    trim_start};
use vstd::prelude::*;

verus! {

/// The row of the schema table on an object.
pub open spec fn schema_row(obj: SchemaObjectView) -> Seq<SqlView> {
    seq![SqlView::Text(obj.kind), SqlView::Text(obj.name), SqlView::Text(obj.sql)]
}

/// An object as a fingerprint has it: with the normal form of its SQL text.
pub open spec fn in_normal_form(obj: SchemaObjectView) -> SchemaObjectView {
    SchemaObjectView { sql: normal(obj.sql), ..obj }
}

/// A line can hold an object: neither a bar nor a line feed stands in its kind
/// and name, and no line feed in its SQL text, which does not end in a carriage
/// return.
pub open spec fn fits_a_line(obj: SchemaObjectView) -> bool {
    &&& !obj.kind.contains('|') && !obj.kind.contains('\n')
    &&& !obj.name.contains('|') && !obj.name.contains('\n')
    &&& !normal(obj.sql).contains('\n')
    &&& normal(obj.sql).len() > 0 ==> normal(obj.sql).last() != '\r'
}

proof fn bar_behind(a: Seq<char>, b: Seq<char>)
    requires
        !a.contains('|'),
    ensures
        before(a + seq!['|'] + b, '|') == a.len(),
{
    let s = a + seq!['|'] + b;
    before_bound(s, '|');
    let n = before(s, '|') as int;
    assert(s[a.len() as int] == '|');
    if n < a.len() {
        assert(a[n] == '|');
        assert(a.contains(a[n]));
    }
}

/// The line of an object, without the line feed behind it.
spec fn line_on(obj: SchemaObjectView) -> Seq<char> {
    obj.kind + seq!['|'] + (obj.name + seq!['|'] + normal(obj.sql))
}

proof fn line_names_its_object(obj: SchemaObjectView)
    requires
        fits_a_line(obj),
    ensures
        schema_line(schema_row(obj)) == Ok::<Seq<char>, StoreErrorView>(
            line_on(obj) + seq!['\n'],
        ),
        object_in(line_on(obj)) == Some(in_normal_form(obj)),
        !line_on(obj).contains('\n'),
        without_return(line_on(obj)) == line_on(obj),
{
    let line = line_on(obj);
    let rest = obj.name + seq!['|'] + normal(obj.sql);
    reveal_strlit("|");
    reveal_strlit("\n");
    assert("|"@ =~= seq!['|']);
    assert("\n"@ =~= seq!['\n']);
    assert(obj.kind + "|"@ + obj.name + "|"@ + normal(obj.sql) + "\n"@ =~= line + seq!['\n']);
    bar_behind(obj.kind, rest);
    bar_behind(obj.name, normal(obj.sql));
    assert(line.take(obj.kind.len() as int) =~= obj.kind);
    assert(line.skip(obj.kind.len() as int + 1) =~= rest);
    assert(rest.take(obj.name.len() as int) =~= obj.name);
    assert(rest.skip(obj.name.len() as int + 1) =~= normal(obj.sql));
    if line.contains('\n') {
        let i = choose|i: int| 0 <= i < line.len() && line[i] == '\n';
        let k = obj.kind.len() as int;
        let m = obj.name.len() as int;
        if i < k {
            assert(obj.kind.contains(obj.kind[i]));
        } else if k < i < k + 1 + m {
            assert(obj.name.contains(obj.name[i - k - 1]));
        } else if i > k + 1 + m {
            assert(normal(obj.sql).contains(normal(obj.sql)[i - k - m - 2]));
        }
    }
    if normal(obj.sql).len() == 0 {
        assert(line.last() == '|');
    } else {
        assert(line.last() == normal(obj.sql).last());
    }
}

proof fn fingerprint_from_the_front(rows: Seq<Seq<SqlView>>, line: Seq<char>)
    requires
        rows.len() > 0,
        schema_line(rows[0]) == Ok::<Seq<char>, StoreErrorView>(line),
        fingerprint_of(rows.skip(1)) is Ok,
    ensures
        fingerprint_of(rows) == Ok::<Seq<char>, StoreErrorView>(
            line + fingerprint_of(rows.skip(1))->Ok_0,
        ),
    decreases rows.len(),
{
    let rest = rows.skip(1);
    if rows.len() == 1 {
        assert(rows.drop_last().len() == 0);
        assert(fingerprint_of(rows.drop_last()) == Ok::<Seq<char>, StoreErrorView>(Seq::empty()));
        assert(rows.last() == rows[0]);
        assert(Seq::<char>::empty() + line =~= line + Seq::<char>::empty());
    } else {
        let init = rows.drop_last();
        assert(init.skip(1) =~= rest.drop_last());
        assert(init[0] == rows[0]);
        assert(rest.last() == rows.last());
        fingerprint_from_the_front(init, line);
        let text = fingerprint_of(rest.drop_last())->Ok_0;
        let last = schema_line(rows.last())->Ok_0;
        assert(line + text + last =~= line + (text + last));
    }
}

/// The objects of a schema are read back from its fingerprint, each with the
/// normal form of its SQL text, in their order.
pub proof fn fingerprint_names_its_objects(objs: Seq<SchemaObjectView>)
    requires
        forall|i: int| 0 <= i < objs.len() ==> fits_a_line(#[trigger] objs[i]),
    ensures
        ({
            let rows = Seq::new(objs.len(), |i: int| schema_row(objs[i]));
            fingerprint_of(rows) matches Ok(text) && objects_in(text) == Seq::new(
                objs.len(),
                |i: int| in_normal_form(objs[i]),
            )
        }),
    decreases objs.len(),
{
    let rows = Seq::new(objs.len(), |i: int| schema_row(objs[i]));
    let read = Seq::new(objs.len(), |i: int| in_normal_form(objs[i]));
    if objs.len() == 0 {
        let none = Seq::<char>::empty();
        before_bound(none, '\n');
        before_bound(none, '|');
        let lines = split(none, '\n');
        assert(lines =~= seq![none]);
        assert(lines[0] == none);
        assert(lines.skip(1).len() == 0);
        assert(objects_of_lines(lines.skip(1)) =~= read);
        assert(objects_in(none) =~= read);
    } else {
        let rest = objs.skip(1);
        assert forall|i: int| 0 <= i < rest.len() implies fits_a_line(#[trigger] rest[i]) by {
            assert(rest[i] == objs[i + 1]);
        }
        fingerprint_names_its_objects(rest);
        let more = Seq::new(rest.len(), |i: int| schema_row(rest[i]));
        assert(rows.skip(1) =~= more);
        assert(rows[0] == schema_row(objs[0]));
        line_names_its_object(objs[0]);
        let line = line_on(objs[0]);
        fingerprint_from_the_front(rows, line + seq!['\n']);
        let text = fingerprint_of(more)->Ok_0;
        let all = line + seq!['\n'] + text;
        split_at_a_separator(line, text, '\n');
        split_of_one_piece(line, '\n');
        let lines = split(all, '\n');
        assert(lines == seq![line] + split(text, '\n'));
        assert(lines[0] == line);
        assert(lines.skip(1) =~= split(text, '\n'));
        before_bound(text, '\n');
        assert(split(text, '\n').len() > 0);
        assert(objects_of_lines(lines) == seq![in_normal_form(objs[0])] + objects_in(text));
        assert(read =~= seq![in_normal_form(objs[0])] + objects_in(text));
    }
}

/// The statement that is found for a table is the first one that creates it,
/// trimmed; where none does, none is found.
pub proof fn first_table_statement_is_found(list: Seq<Seq<char>>, table: Seq<char>, from: int)
    requires
        0 <= from <= list.len(),
    ensures
        match table_statement(list, table, from) {
            Some(found) => exists|i: int|
                from <= i < list.len() && creates_table(#[trigger] list[i], table) && found == trim(
                    list[i],
                ) && forall|j: int| from <= j < i ==> !creates_table(#[trigger] list[j], table),
            None => forall|i: int|
                from <= i < list.len() ==> !creates_table(#[trigger] list[i], table),
        },
    decreases list.len() - from,
{
    if from < list.len() {
        if creates_table(list[from], table) {
            assert(creates_table(list[from], table) && trim(list[from]) == table_statement(
                list,
                table,
                from,
            )->0);
        } else {
            first_table_statement_is_found(list, table, from + 1);
        }
    }
}

/// The statements that are found for a table's indexes are all that create one
/// on it, trimmed, in their order.
pub proof fn index_statements_are_all_found(list: Seq<Seq<char>>, table: Seq<char>)
    ensures
        index_statements(list, table) == list.filter(
            |s: Seq<char>| creates_index(s, table),
        ).map_values(|s: Seq<char>| trim(s)),
    decreases list.len(),
{
    reveal(Seq::filter);
    let creates = |s: Seq<char>| creates_index(s, table);
    let cut = |s: Seq<char>| trim(s);
    if list.len() > 0 {
        index_statements_are_all_found(list.drop_last(), table);
    }
    assert(index_statements(list, table) =~= list.filter(creates).map_values(cut));
}

/// The names beyond another list are those of the list that the other does not
/// hold, in their order.
pub proof fn names_beyond_are_not_in_the_other(names: Seq<Seq<char>>, others: Seq<Seq<char>>)
    ensures
        names_beyond(names, others) == names.filter(|n: Seq<char>| !others.contains(n)),
    decreases names.len(),
{
    reveal(Seq::filter);
    if names.len() > 0 {
        names_beyond_are_not_in_the_other(names.drop_last(), others);
    }
    assert(names_beyond(names, others) =~= names.filter(|n: Seq<char>| !others.contains(n)));
}

/// Neither a comma nor a bracket stands in a text.
pub open spec fn is_plain(s: Seq<char>) -> bool {
    forall|i: int| 0 <= i < s.len() ==> #[trigger] s[i] != ',' && s[i] != '(' && s[i] != ')'
}

proof fn plain_text_is_read(
    s: Seq<char>,
    rest: Seq<char>,
    cur: Seq<char>,
    depth: int,
    lower: spec_fn(Seq<char>) -> Seq<char>,
)
    requires
        forall|i: int|
            0 <= i < s.len() ==> (#[trigger] s[i] != ',' || depth > 0) && s[i] != '(' && s[i] != ')',
    ensures
        columns_from(s + rest, cur, depth, lower) == columns_from(rest, cur + s, depth, lower),
    decreases s.len(),
{
    if s.len() == 0 {
        assert(s + rest =~= rest);
        assert(cur + s =~= cur);
    } else {
        let t = s.skip(1);
        assert forall|i: int| 0 <= i < t.len() implies (#[trigger] t[i] != ',' || depth > 0) && t[i]
            != '(' && t[i] != ')' by {
            assert(t[i] == s[i + 1]);
        }
        assert((s + rest)[0] == s[0]);
        assert((s + rest).skip(1) =~= t + rest);
        plain_text_is_read(t, rest, cur.push(s[0]), depth, lower);
        assert(cur.push(s[0]) + t =~= cur + s);
    }
}

/// A definition in a table's body names its column, before those that follow the
/// comma behind it; commas within its brackets do not count, and a constraint
/// names none.
pub proof fn definition_names_its_column(
    start: Seq<char>,
    inner: Seq<char>,
    end: Seq<char>,
    rest: Seq<char>,
    lower: spec_fn(Seq<char>) -> Seq<char>,
)
    requires
        is_plain(start),
        is_plain(end),
        forall|i: int| 0 <= i < inner.len() ==> #[trigger] inner[i] != '(' && inner[i] != ')',
    ensures
        ({
            let item = start + seq!['('] + inner + seq![')'] + end;
            let named = match column_by(item, lower) {
                Some(name) => seq![name],
                None => Seq::empty(),
            };
            &&& columns_from(item, Seq::empty(), 0, lower) == named
            &&& columns_from(item + seq![','] + rest, Seq::empty(), 0, lower) == named
                + columns_from(rest, Seq::empty(), 0, lower)
        }),
        ({
            let named = match column_by(start, lower) {
                Some(name) => seq![name],
                None => Seq::empty(),
            };
            &&& columns_from(start, Seq::empty(), 0, lower) == named
            &&& columns_from(start + seq![','] + rest, Seq::empty(), 0, lower) == named
                + columns_from(rest, Seq::empty(), 0, lower)
        }),
{
    let none = Seq::<char>::empty();
    let item = start + seq!['('] + inner + seq![')'] + end;
    let comma = seq![','] + rest;
    assert(comma[0] == ',');
    assert(comma.skip(1) =~= rest);
    let named = columns_from(none, item, 0, lower);
    assert(named =~= match column_by(item, lower) {
        Some(name) => seq![name],
        None => none_named(),
    });
    bracketed_text_is_read(start, inner, end, none, lower);
    assert(item + none =~= item);
    bracketed_text_is_read(start, inner, end, comma, lower);
    assert(item + comma =~= item + seq![','] + rest);
    assert(columns_from(comma, item, 0, lower) =~= named + columns_from(rest, none, 0, lower));
    plain_text_is_read(start, none, none, 0, lower);
    assert(start + none =~= start && none + start =~= start);
    plain_text_is_read(start, comma, none, 0, lower);
    assert(start + comma =~= start + seq![','] + rest);
    let named2 = columns_from(none, start, 0, lower);
    assert(columns_from(comma, start, 0, lower) =~= named2 + columns_from(rest, none, 0, lower));
}

spec fn none_named() -> Seq<Seq<char>> {
    Seq::empty()
}

proof fn bracketed_text_is_read(
    start: Seq<char>,
    inner: Seq<char>,
    end: Seq<char>,
    rest: Seq<char>,
    lower: spec_fn(Seq<char>) -> Seq<char>,
)
    requires
        is_plain(start),
        is_plain(end),
        forall|i: int| 0 <= i < inner.len() ==> #[trigger] inner[i] != '(' && inner[i] != ')',
    ensures
        ({
            let item = start + seq!['('] + inner + seq![')'] + end;
            columns_from(item + rest, Seq::empty(), 0, lower) == columns_from(rest, item, 0, lower)
        }),
{
    let none = Seq::<char>::empty();
    let item = start + seq!['('] + inner + seq![')'] + end;
    let r3 = end + rest;
    let r2 = seq![')'] + r3;
    let r1 = seq!['('] + (inner + r2);
    assert(item + rest =~= start + r1);
    plain_text_is_read(start, r1, none, 0, lower);
    assert(none + start =~= start);
    assert(r1[0] == '(');
    assert(r1.skip(1) =~= inner + r2);
    let c1 = start.push('(');
    plain_text_is_read(inner, r2, c1, 1, lower);
    assert(r2[0] == ')');
    assert(r2.skip(1) =~= r3);
    let c2 = (c1 + inner).push(')');
    plain_text_is_read(end, rest, c2, 0, lower);
    assert(c2 + end =~= item);
}

/// Where a part of a text is found is the first place at which it stands.
pub proof fn part_is_found_at_its_first_place(s: Seq<char>, part: Seq<char>, from: int)
    requires
        0 <= from,
    ensures
        match first_at(s, part, from) {
            Some(at) => from <= at && occurs_at(s, part, at) && forall|i: int|
                from <= i < at ==> !#[trigger] occurs_at(s, part, i),
            None => forall|i: int| from <= i ==> !#[trigger] occurs_at(s, part, i),
        },
    decreases s.len() + 1 - from,
{
    if from + part.len() <= s.len() && !occurs_at(s, part, from) {
        part_is_found_at_its_first_place(s, part, from + 1);
    }
}

/// The last place of a character is one behind which it does not stand.
pub proof fn last_place_is_the_last(s: Seq<char>, c: char)
    ensures
        match last_place(s, c) {
            Some(at) => 0 <= at < s.len() && s[at] == c && forall|i: int|
                at < i < s.len() ==> #[trigger] s[i] != c,
            None => !s.contains(c),
        },
    decreases s.len(),
{
    if s.len() > 0 {
        let init = s.drop_last();
        last_place_is_the_last(init, c);
        if s.last() != c {
            if s.contains(c) {
                let i = choose|i: int| 0 <= i < s.len() && s[i] == c;
                assert(init[i] == c);
                assert(init.contains(c));
            }
            assert forall|i: int| 0 <= i < init.len() implies #[trigger] s[i] == init[i] by {}
        }
    }
}

/// A bare name.
pub open spec fn is_name(s: Seq<char>) -> bool {
    s.len() > 0 && forall|i: int| 0 <= i < s.len() ==> is_name_char(#[trigger] s[i])
}

proof fn name_is_read(name: Seq<char>, rest: Seq<char>)
    requires
        forall|i: int| 0 <= i < name.len() ==> is_name_char(#[trigger] name[i]),
        rest.len() > 0 ==> !is_name_char(rest[0]),
    ensures
        name_at(name + rest) == name,
    decreases name.len(),
{
    if name.len() == 0 {
        assert(name + rest =~= rest);
        assert(name_at(rest) =~= name);
    } else {
        let t = name.skip(1);
        assert forall|i: int| 0 <= i < t.len() implies is_name_char(#[trigger] t[i]) by {
            assert(t[i] == name[i + 1]);
        }
        name_is_read(t, rest);
        assert((name + rest)[0] == name[0]);
        assert((name + rest).skip(1) =~= t + rest);
        assert(seq![name[0]] + t =~= name);
    }
}

proof fn lower_name_is_a_name(name: Seq<char>)
    requires
        is_name(name),
    ensures
        is_name(lower_text(name)),
{
    assert forall|i: int| 0 <= i < name.len() implies is_name_char(
        #[trigger] lower_text(name)[i],
    ) by {
        assert(is_name_char(name[i]));
        if 'A' <= name[i] <= 'Z' {
            let small = (name[i] as u32 + 32) as char;
            assert('a' <= small <= 'z');
        }
    }
}

/// A statement that creates a table, in letters of any case, creates the one of
/// that name and no other; the case of the name does not count.
pub proof fn table_statement_creates_its_table(
    word: Seq<char>,
    name: Seq<char>,
    rest: Seq<char>,
    table: Seq<char>,
)
    requires
        lower_text(word) == "create table "@,
        is_name(name),
        rest.len() > 0,
        rest[0] == ' ' || rest[0] == '(',
        !is_white(rest.last()),
    ensures
        creates_table(word + name + rest, table) <==> lower_text(name) == lower_text(table),
{
    reveal_strlit("create table ");
    let s = word + name + rest;
    let low = lower_text(s);
    assert(lower_text(word).len() == word.len());
    assert(word.len() == 13);
    assert(lower_text(word)[0] == 'c');
    assert(!is_white(s[0])) by {
        assert(s[0] == word[0]);
        assert(ascii_lower(word[0]) == 'c');
    }
    assert(s.last() == rest.last());
    assert(trim_start(s) == s);
    assert(trim(s) == s);
    assert(low =~= lower_text(word) + (lower_text(name) + lower_text(rest)));
    let tail = lower_text(name) + lower_text(rest);
    assert(low.subrange(0, 13) =~= "create table "@);
    assert(low.skip(13) =~= tail);
    lower_name_is_a_name(name);
    assert(is_name_char(lower_text(name)[0]));
    assert(tail[0] == lower_text(name)[0]);
    assert(trim_start(tail) == tail);
    assert(lower_text(rest)[0] == rest[0]);
    name_is_read(lower_text(name), lower_text(rest));
    lower_twice(name);
}

proof fn lower_twice(s: Seq<char>)
    ensures
        lower_text(lower_text(s)) == lower_text(s),
{
    assert forall|i: int| 0 <= i < s.len() implies ascii_lower(ascii_lower(#[trigger] s[i]))
        == ascii_lower(s[i]) by {
        if 'A' <= s[i] <= 'Z' {
            let small = (s[i] as u32 + 32) as char;
            assert('a' <= small <= 'z');
        }
    }
    assert(lower_text(lower_text(s)) =~= lower_text(s));
}

/// A statement that creates an index, in letters of any case, creates it on the
/// table that it names and on no other.
pub proof fn index_statement_is_on_its_table(
    word: Seq<char>,
    index: Seq<char>,
    on: Seq<char>,
    name: Seq<char>,
    rest: Seq<char>,
    table: Seq<char>,
)
    requires
        lower_text(word) == "create index "@,
        is_name(index),
        lower_text(on) == " on "@,
        is_name(name),
        rest.len() > 0,
        rest[0] == ' ' || rest[0] == '(',
        !is_white(rest.last()),
    ensures
        creates_index(word + index + on + name + rest, table) <==> lower_text(name) == lower_text(
            table,
        ),
{
    reveal_strlit("create index ");
    reveal_strlit(" on ");
    let s = word + index + on + name + rest;
    let low = lower_text(s);
    assert(lower_text(word).len() == word.len());
    assert(word.len() == 13);
    assert(lower_text(word)[0] == 'c');
    assert(!is_white(s[0])) by {
        assert(s[0] == word[0]);
        assert(ascii_lower(word[0]) == 'c');
    }
    assert(s.last() == rest.last());
    assert(trim_start(s) == s);
    assert(trim(s) == s);
    let li = lower_text(index);
    let ln = lower_text(name);
    let lr = lower_text(rest);
    let tail = li + " on "@ + (ln + lr);
    assert(low =~= lower_text(word) + tail);
    assert(low.subrange(0, 13) =~= "create index "@);
    assert(low.skip(13) =~= tail);
    lower_name_is_a_name(index);
    lower_name_is_a_name(name);
    assert(is_name_char(li[0]));
    assert(tail[0] == li[0]);
    assert(trim_start(tail) == tail);
    part_is_found_at_its_first_place(tail, " on "@, 0);
    let at = li.len() as int;
    assert(tail.subrange(at, at + 4) =~= " on "@);
    assert(occurs_at(tail, " on "@, at));
    let found = first_at(tail, " on "@, 0)->0;
    if found < at {
        assert(occurs_at(tail, " on "@, found));
        assert(tail.subrange(found, found + 4)[0] == tail[found]);
        assert(tail[found] == ' ');
        assert(tail[found] == li[found]);
        assert(is_name_char(li[found]));
    }
    assert(found == at);
    assert(tail.skip(at + 4) =~= ln + lr);
    assert(is_name_char(ln[0]));
    assert((ln + lr)[0] == ln[0]);
    assert(trim_start(ln + lr) == ln + lr);
    assert(lr[0] == rest[0]);
    name_is_read(ln, lr);
    lower_twice(name);
}

} // verus!
