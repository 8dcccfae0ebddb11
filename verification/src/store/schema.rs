//! The declared schema, and the fingerprint by which a database is held
//! against it.
//!
//! SQLite keeps a `CREATE` statement with its comments and its spacing, so two
//! schemas of one meaning would differ in looks alone. The fingerprint leaves
//! out what does not change the meaning.

use crate::store::lexer::{next_piece, piece_kind, piece_len, piece_len_bound, Piece};
use crate::store::value::{opt_text_at, opt_text_of, outcome, row_views, text, text_at, value_views,
    SqlValue, SqlView, StoreError, StoreErrorView};
use crate::text::{before, before_bound, chars_of, find, is_white, join, join_chars, join_strings,
    lower_chars, lower_text, occurs, occurs_at, push_all, same, same_str, split, split_on,
    split_words, string_of, trim, trim_start, trimmed, trimmed_start, views, white, word_len_bound,
    words};
use vstd::prelude::*;
use vstd::slice::slice_subrange;
use vstd::string::StringExecFns;

verus! {

/// The statements of SQL text, cut at its semicolons: `cur` is what has been
/// read of the first. A semicolon in a string or a comment cuts nothing; a
/// block comment counts as a space.
pub open spec fn statements_from(s: Seq<char>, cur: Seq<char>) -> Seq<Seq<char>>
    decreases s.len(),
{
    if s.len() == 0 {
        if trim(cur).len() == 0 {
            Seq::empty()
        } else {
            seq![cur]
        }
    } else {
        proof {
            piece_len_bound(s);
        }
        let rest = s.skip(piece_len(s) as int);
        match piece_kind(s) {
            Piece::BlockComment => statements_from(rest, cur.push(' ')),
            Piece::Plain => if s[0] == ';' {
                seq![cur] + statements_from(rest, Seq::empty())
            } else {
                statements_from(rest, cur.push(s[0]))
            },
            _ => statements_from(rest, cur + s.take(piece_len(s) as int)),
        }
    }
}

/// The statements of SQL text.
pub open spec fn statements(s: Seq<char>) -> Seq<Seq<char>> {
    statements_from(s, Seq::empty())
}

/// Cuts SQL text into its statements.
pub fn split_statements(sql: &[char]) -> (r: Vec<Vec<char>>)
    ensures
        views(r@) == statements(sql@),
{
    let mut out: Vec<Vec<char>> = Vec::new();
    let mut cur: Vec<char> = Vec::new();
    let mut i: usize = 0;
    proof {
        assert(sql@.skip(0) =~= sql@);
        assert(cur@ =~= Seq::<char>::empty());
        assert(views(out@) + statements(sql@) =~= statements(sql@));
    }
    while i < sql.len()
        invariant
            i <= sql.len(),
            statements(sql@) == views(out@) + statements_from(sql@.skip(i as int), cur@),
        decreases sql.len() - i,
    {
        let ghost rest = sql@.skip(i as int);
        let ghost done = views(out@);
        let ghost read = cur@;
        let (kind, end) = next_piece(sql, i);
        proof {
            assert(rest.skip(end - i) =~= sql@.skip(end as int));
            assert(rest.take(end - i) =~= sql@.subrange(i as int, end as int));
        }
        match kind {
            Piece::BlockComment => {
                cur.push(' ');
            },
            Piece::Plain => {
                if sql[i] == ';' {
                    out.push(cur);
                    cur = Vec::new();
                    proof {
                        let later = statements_from(sql@.skip(end as int), Seq::empty());
                        assert(cur@ =~= Seq::<char>::empty());
                        assert(views(out@) =~= done.push(read));
                        assert(done + (seq![read] + later) =~= views(out@) + later);
                    }
                } else {
                    cur.push(sql[i]);
                }
            },
            _ => {
                push_all(&mut cur, slice_subrange(sql, i, end));
            },
        }
        i = end;
    }
    let ghost done = views(out@);
    if trimmed(&cur).len() > 0 {
        out.push(cur);
        proof {
            assert(views(out@) =~= done + seq![cur@]);
        }
    } else {
        proof {
            assert(done + Seq::<Seq<char>>::empty() =~= done);
        }
    }
    out
}

/// A character of a bare SQL name.
pub open spec fn is_name_char(c: char) -> bool {
    c == '_' || '0' <= c <= '9' || 'a' <= c <= 'z' || 'A' <= c <= 'Z'
}

/// The bare name that a text starts with.
pub open spec fn name_at(s: Seq<char>) -> Seq<char>
    decreases s.len(),
{
    if s.len() == 0 || !is_name_char(s[0]) {
        Seq::empty()
    } else {
        seq![s[0]] + name_at(s.skip(1))
    }
}

fn leading_name(s: &[char]) -> (r: Vec<char>)
    ensures
        r@ == name_at(s@),
{
    let mut name: Vec<char> = Vec::new();
    let mut i: usize = 0;
    proof {
        assert(s@.skip(0) =~= s@);
        assert(name@ + name_at(s@) =~= name_at(s@));
    }
    while i < s.len()
        invariant
            i <= s.len(),
            name_at(s@) == name@ + name_at(s@.skip(i as int)),
        decreases s.len() - i,
    {
        let c = s[i];
        let ghost rest = s@.skip(i as int);
        let ghost read = name@;
        if !(c == '_' || ('0' <= c && c <= '9') || ('a' <= c && c <= 'z') || ('A' <= c && c
            <= 'Z')) {
            proof {
                assert(read + Seq::<char>::empty() =~= read);
            }
            return name;
        }
        name.push(c);
        i += 1;
        proof {
            assert(rest.skip(1) =~= s@.skip(i as int));
            assert(read + (seq![c] + name_at(s@.skip(i as int))) =~= name@ + name_at(
                s@.skip(i as int),
            ));
        }
    }
    proof {
        assert(name@ + Seq::<char>::empty() =~= name@);
    }
    name
}

/// What stands behind `start`, where the text starts with it.
pub open spec fn behind(s: Seq<char>, start: Seq<char>) -> Option<Seq<char>> {
    if occurs_at(s, start, 0) {
        Some(s.skip(start.len() as int))
    } else {
        None
    }
}

fn strip_start<'a>(s: &'a [char], start: &str) -> (r: Option<&'a [char]>)
    ensures
        match r {
            Some(rest) => behind(s@, start@) == Some(rest@),
            None => behind(s@, start@) is None,
        },
{
    let mark = chars_of(start);
    if occurs(s, &mark, 0) {
        let rest = slice_subrange(s, mark.len(), s.len());
        proof {
            assert(rest@ =~= s@.skip(mark@.len() as int));
        }
        Some(rest)
    } else {
        None
    }
}

/// A statement creates the table of this name.
pub open spec fn creates_table(statement: Seq<char>, table: Seq<char>) -> bool {
    match behind(lower_text(trim(statement)), "create table "@) {
        Some(rest) => lower_text(name_at(trim_start(rest))) == lower_text(table),
        None => false,
    }
}

/// The first statement, from one on, that creates the table of this name.
pub open spec fn table_statement(list: Seq<Seq<char>>, table: Seq<char>, from: int) -> Option<
    Seq<char>,
>
    decreases list.len() - from,
{
    if from < 0 || from >= list.len() {
        None
    } else if creates_table(list[from], table) {
        Some(trim(list[from]))
    } else {
        table_statement(list, table, from + 1)
    }
}

/// The `CREATE TABLE` statement of one table of a schema.
pub fn table_ddl(declared: &str, table: &str) -> (r: Option<String>)
    ensures
        match r {
            Some(ddl) => table_statement(statements(declared@), table@, 0) == Some(ddl@),
            None => table_statement(statements(declared@), table@, 0) is None,
        },
{
    let text = chars_of(declared);
    let list = split_statements(&text);
    let wanted = lower_chars(&chars_of(table));
    let ghost texts = views(list@);
    let mut i: usize = 0;
    while i < list.len()
        invariant
            i <= list.len(),
            texts == views(list@),
            texts == statements(declared@),
            wanted@ == lower_text(table@),
            table_statement(texts, table@, 0) == table_statement(texts, table@, i as int),
        decreases list.len() - i,
    {
        let statement = trimmed(&list[i]);
        let lowered = lower_chars(statement);
        if let Some(rest) = strip_start(&lowered, "create table ") {
            let name = leading_name(trimmed_start(rest));
            if same(&lower_chars(&name), &wanted) {
                return Some(string_of(statement));
            }
        }
        i += 1;
    }
    None
}

/// Where `part` first occurs in a text, from a place on.
pub open spec fn first_at(s: Seq<char>, part: Seq<char>, from: int) -> Option<int>
    decreases s.len() + 1 - from,
{
    if from < 0 || from + part.len() > s.len() {
        None
    } else if occurs_at(s, part, from) {
        Some(from)
    } else {
        first_at(s, part, from + 1)
    }
}

fn find_first(s: &[char], part: &str) -> (r: Option<usize>)
    ensures
        match r {
            Some(at) => first_at(s@, part@, 0) == Some(at as int) && at + part@.len() <= s.len(),
            None => first_at(s@, part@, 0) is None,
        },
{
    let mark = chars_of(part);
    let mut i: usize = 0;
    while mark.len() <= s.len() - i
        invariant
            i <= s.len(),
            mark@ == part@,
            first_at(s@, part@, 0) == first_at(s@, part@, i as int),
        decreases s.len() - i,
    {
        if occurs(s, &mark, i) {
            return Some(i);
        }
        if i == s.len() {
            proof {
                assert(first_at(s@, part@, i as int + 1) is None);
            }
            return None;
        }
        i += 1;
    }
    None
}

/// A statement creates an index on the table of this name.
pub open spec fn creates_index(statement: Seq<char>, table: Seq<char>) -> bool {
    match behind(lower_text(trim(statement)), "create index "@) {
        Some(rest) => {
            let rest = trim_start(rest);
            match first_at(rest, " on "@, 0) {
                Some(at) => lower_text(name_at(trim_start(rest.skip(at + 4)))) == lower_text(
                    table,
                ),
                None => false,
            }
        },
        None => false,
    }
}

/// The statements of a list that create an index on the table of this name.
pub open spec fn index_statements(list: Seq<Seq<char>>, table: Seq<char>) -> Seq<Seq<char>>
    decreases list.len(),
{
    if list.len() == 0 {
        Seq::empty()
    } else if creates_index(list.last(), table) {
        index_statements(list.drop_last(), table).push(trim(list.last()))
    } else {
        index_statements(list.drop_last(), table)
    }
}

fn makes_index(statement: &[char], table: &[char]) -> (r: bool)
    ensures
        r == creates_index(statement@, table@),
{
    let lowered = lower_chars(trimmed(statement));
    let rest = match strip_start(&lowered, "create index ") {
        Some(rest) => trimmed_start(rest),
        None => {
            return false;
        },
    };
    proof {
        reveal_strlit(" on ");
        assert(" on "@.len() == 4);
    }
    match find_first(rest, " on ") {
        Some(at) => {
            let after = slice_subrange(rest, at + 4, rest.len());
            proof {
                assert(after@ =~= rest@.skip(at as int + 4));
            }
            let name = leading_name(trimmed_start(after));
            same(&lower_chars(&name), &lower_chars(table))
        },
        None => false,
    }
}

/// The `CREATE INDEX` statements on one table of a schema.
pub fn index_ddls(declared: &str, table: &str) -> (r: Vec<String>)
    ensures
        views(r@) == index_statements(statements(declared@), table@),
{
    let text = chars_of(declared);
    let list = split_statements(&text);
    let table = chars_of(table);
    let ghost texts = views(list@);
    let mut out: Vec<String> = Vec::new();
    let mut i: usize = 0;
    while i < list.len()
        invariant
            i <= list.len(),
            texts == views(list@),
            views(out@) == index_statements(texts.take(i as int), table@),
        decreases list.len() - i,
    {
        let ghost done = out@;
        proof {
            assert(texts.take(i as int + 1).drop_last() =~= texts.take(i as int));
            assert(texts.take(i as int + 1).last() == list@[i as int]@);
        }
        if makes_index(&list[i], &table) {
            let ddl = string_of(trimmed(&list[i]));
            out.push(ddl);
            proof {
                assert(views(out@) =~= views(done).push(trim(list@[i as int]@)));
            }
        }
        i += 1;
    }
    proof {
        assert(texts.take(texts.len() as int) =~= texts);
    }
    out
}

/// The tokens without the sequence `IF NOT EXISTS`, whatever its case.
pub open spec fn without_if_not_exists(tokens: Seq<Seq<char>>) -> Seq<Seq<char>>
    decreases tokens.len(),
{
    if tokens.len() == 0 {
        Seq::empty()
    } else if tokens.len() > 2 && lower_text(tokens[0]) == "if"@ && lower_text(tokens[1])
        == "not"@ && lower_text(tokens[2]) == "exists"@ {
        without_if_not_exists(tokens.skip(3))
    } else {
        seq![tokens[0]] + without_if_not_exists(tokens.skip(1))
    }
}

/// SQL text without `IF NOT EXISTS`.
pub open spec fn unconditional(sql: Seq<char>) -> Seq<char> {
    join(without_if_not_exists(split(sql, ' ')), " "@)
}

fn is_word(token: &[char], word: &str) -> (r: bool)
    ensures
        r == (lower_text(token@) == word@),
{
    same(&lower_chars(token), &chars_of(word))
}

fn drop_if_not_exists(tokens: &[Vec<char>]) -> (r: Vec<Vec<char>>)
    ensures
        views(r@) == without_if_not_exists(views(tokens@)),
{
    let ghost texts = views(tokens@);
    let mut out: Vec<Vec<char>> = Vec::new();
    let mut i: usize = 0;
    proof {
        assert(texts.skip(0) =~= texts);
        assert(views(out@) + without_if_not_exists(texts) =~= without_if_not_exists(texts));
    }
    while i < tokens.len()
        invariant
            i <= tokens.len(),
            texts == views(tokens@),
            without_if_not_exists(texts) == views(out@) + without_if_not_exists(
                texts.skip(i as int),
            ),
        decreases tokens.len() - i,
    {
        let ghost rest = texts.skip(i as int);
        let ghost done = views(out@);
        proof {
            assert(rest[0] == tokens@[i as int]@);
            assert(rest.skip(1) =~= texts.skip(i as int + 1));
            if rest.len() > 2 {
                assert(rest[1] == tokens@[i as int + 1]@);
                assert(rest[2] == tokens@[i as int + 2]@);
                assert(rest.skip(3) =~= texts.skip(i as int + 3));
            }
        }
        if tokens.len() - i > 2 && is_word(&tokens[i], "if") && is_word(&tokens[i + 1], "not")
            && is_word(&tokens[i + 2], "exists") {
            i += 3;
        } else {
            out.push(vstd::slice::slice_to_vec(&tokens[i]));
            proof {
                let later = without_if_not_exists(texts.skip(i as int + 1));
                assert(views(out@) =~= done.push(rest[0]));
                assert(done + (seq![rest[0]] + later) =~= views(out@) + later);
            }
            i += 1;
        }
    }
    proof {
        assert(views(out@) + Seq::<Seq<char>>::empty() =~= views(out@));
    }
    out
}

/// Takes `IF NOT EXISTS` out of SQL text whose tokens stand one space apart.
pub fn remove_if_not_exists(sql: &[char]) -> (r: Vec<char>)
    ensures
        r@ == unconditional(sql@),
{
    join_chars(&drop_if_not_exists(&split_on(sql, ' ')), " ")
}

/// A token, if anything of it has been read.
pub open spec fn token(cur: Seq<char>) -> Seq<Seq<char>> {
    if cur.len() == 0 {
        Seq::empty()
    } else {
        seq![cur]
    }
}

/// The tokens of SQL text: `cur` is what has been read of the first. Spacing
/// and comments stand between tokens; a string is part of one, whatever is in
/// it.
pub open spec fn tokens_from(s: Seq<char>, cur: Seq<char>) -> Seq<Seq<char>>
    decreases s.len(),
{
    if s.len() == 0 {
        token(cur)
    } else {
        proof {
            piece_len_bound(s);
        }
        let rest = s.skip(piece_len(s) as int);
        match piece_kind(s) {
            Piece::Quoted => tokens_from(rest, cur + s.take(piece_len(s) as int)),
            Piece::Plain => if is_white(s[0]) {
                token(cur) + tokens_from(rest, Seq::empty())
            } else {
                tokens_from(rest, cur.push(s[0]))
            },
            _ => token(cur) + tokens_from(rest, Seq::empty()),
        }
    }
}

/// SQL text without what does not change its meaning: one space for any
/// spacing, and neither comments nor `IF NOT EXISTS`. What is in strings stays.
pub open spec fn normal(sql: Seq<char>) -> Seq<char> {
    join(without_if_not_exists(tokens_from(sql, Seq::empty())), " "@)
}

/// Takes out of SQL text what does not change its meaning.
pub fn normalize_schema(sql: &str) -> (r: Vec<char>)
    ensures
        r@ == normal(sql@),
{
    let text = chars_of(sql);
    let mut tokens: Vec<Vec<char>> = Vec::new();
    let mut cur: Vec<char> = Vec::new();
    let mut i: usize = 0;
    proof {
        assert(text@.skip(0) =~= text@);
        assert(cur@ =~= Seq::<char>::empty());
        assert(views(tokens@) + tokens_from(text@, cur@) =~= tokens_from(text@, cur@));
    }
    while i < text.len()
        invariant
            i <= text.len(),
            tokens_from(text@, Seq::empty()) == views(tokens@) + tokens_from(
                text@.skip(i as int),
                cur@,
            ),
        decreases text.len() - i,
    {
        let ghost rest = text@.skip(i as int);
        let ghost done = views(tokens@);
        let ghost read = cur@;
        let (kind, end) = next_piece(&text, i);
        proof {
            assert(rest.skip(end - i) =~= text@.skip(end as int));
            assert(rest.take(end - i) =~= text@.subrange(i as int, end as int));
        }
        let gap = match kind {
            Piece::Quoted => false,
            Piece::Plain => white(text[i]),
            _ => true,
        };
        if gap {
            if cur.len() > 0 {
                tokens.push(cur);
                cur = Vec::new();
            }
            proof {
                let later = tokens_from(text@.skip(end as int), Seq::empty());
                assert(cur@ =~= Seq::<char>::empty());
                assert(views(tokens@) =~= done + token(read));
                assert(done + (token(read) + later) =~= views(tokens@) + later);
            }
        } else {
            push_all(&mut cur, slice_subrange(&text, i, end));
            proof {
                if kind is Plain {
                    assert(read + text@.subrange(i as int, end as int) =~= read.push(rest[0]));
                }
            }
        }
        i = end;
    }
    let ghost done = views(tokens@);
    let ghost read = cur@;
    if cur.len() > 0 {
        tokens.push(cur);
    }
    proof {
        assert(views(tokens@) =~= done + token(read));
    }
    join_chars(&drop_if_not_exists(&tokens), " ")
}

/// One object of a schema: what it is, its name, and its normal SQL text.
#[derive(Debug, Clone)]
pub struct SchemaObject {
    pub kind: String,
    pub name: String,
    pub sql: String,
}

#[verifier::ext_equal]
pub ghost struct SchemaObjectView {
    pub kind: Seq<char>,
    pub name: Seq<char>,
    pub sql: Seq<char>,
}

impl View for SchemaObject {
    type V = SchemaObjectView;

    open spec fn view(&self) -> SchemaObjectView {
        SchemaObjectView { kind: self.kind@, name: self.name@, sql: self.sql@ }
    }
}

pub open spec fn object_views(objs: Seq<SchemaObject>) -> Seq<SchemaObjectView> {
    Seq::new(objs.len(), |i: int| objs[i]@)
}

/// The object that a line of a fingerprint names: kind, name and SQL text
/// between bars. A line without a bar names none.
pub open spec fn object_in(line: Seq<char>) -> Option<SchemaObjectView> {
    let bar = before(line, '|') as int;
    if bar >= line.len() {
        None
    } else {
        let rest = line.skip(bar + 1);
        let second = before(rest, '|') as int;
        Some(
            SchemaObjectView {
                kind: line.take(bar),
                name: rest.take(second),
                sql: if second >= rest.len() {
                    Seq::empty()
                } else {
                    rest.skip(second + 1)
                },
            },
        )
    }
}

/// A line without the carriage return before its line feed.
pub open spec fn without_return(line: Seq<char>) -> Seq<char> {
    if line.len() > 0 && line.last() == '\r' {
        line.drop_last()
    } else {
        line
    }
}

/// The objects that lines name, all but the last of which end in a line feed.
pub open spec fn objects_of_lines(lines: Seq<Seq<char>>) -> Seq<SchemaObjectView>
    decreases lines.len(),
{
    if lines.len() == 0 {
        Seq::empty()
    } else {
        let line = if lines.len() == 1 {
            lines[0]
        } else {
            without_return(lines[0])
        };
        match object_in(line) {
            Some(obj) => seq![obj] + objects_of_lines(lines.skip(1)),
            None => objects_of_lines(lines.skip(1)),
        }
    }
}

/// The objects that a fingerprint names, one to a line.
pub open spec fn objects_in(fingerprint: Seq<char>) -> Seq<SchemaObjectView> {
    objects_of_lines(split(fingerprint, '\n'))
}

fn read_object(line: &[char]) -> (r: Option<SchemaObject>)
    ensures
        match r {
            Some(obj) => object_in(line@) == Some(obj@),
            None => object_in(line@) is None,
        },
{
    let bar = find(line, '|');
    if bar >= line.len() {
        return None;
    }
    let kind = slice_subrange(line, 0, bar);
    let rest = slice_subrange(line, bar + 1, line.len());
    let second = find(rest, '|');
    let name = slice_subrange(rest, 0, second);
    proof {
        assert(kind@ =~= line@.take(bar as int));
        assert(rest@ =~= line@.skip(bar as int + 1));
        assert(name@ =~= rest@.take(second as int));
    }
    let sql = if second >= rest.len() {
        String::new()
    } else {
        let text = slice_subrange(rest, second + 1, rest.len());
        proof {
            assert(text@ =~= rest@.skip(second as int + 1));
        }
        string_of(text)
    };
    Some(SchemaObject { kind: string_of(kind), name: string_of(name), sql })
}

/// Reads the objects that a fingerprint names.
pub fn parse_objects(fingerprint: &str) -> (r: Vec<SchemaObject>)
    ensures
        object_views(r@) == objects_in(fingerprint@),
{
    let text = chars_of(fingerprint);
    let lines = split_on(&text, '\n');
    let ghost texts = views(lines@);
    let mut out: Vec<SchemaObject> = Vec::new();
    let mut i: usize = 0;
    proof {
        assert(texts.skip(0) =~= texts);
        assert(object_views(out@) + objects_of_lines(texts) =~= objects_of_lines(texts));
    }
    while i < lines.len()
        invariant
            i <= lines.len(),
            texts == views(lines@),
            objects_of_lines(texts) == object_views(out@) + objects_of_lines(texts.skip(i as int)),
        decreases lines.len() - i,
    {
        let ghost rest = texts.skip(i as int);
        let ghost done = object_views(out@);
        proof {
            assert(rest[0] == lines@[i as int]@);
            assert(rest.skip(1) =~= texts.skip(i as int + 1));
        }
        let n = lines[i].len();
        let line = if lines.len() - i > 1 && n > 0 && lines[i][n - 1] == '\r' {
            let cut = slice_subrange(&lines[i], 0, n - 1);
            proof {
                assert(cut@ =~= without_return(rest[0]));
            }
            cut
        } else {
            let whole = slice_subrange(&lines[i], 0, n);
            proof {
                assert(whole@ =~= rest[0]);
            }
            whole
        };
        if let Some(obj) = read_object(line) {
            out.push(obj);
            proof {
                let later = objects_of_lines(texts.skip(i as int + 1));
                assert(object_views(out@) =~= done.push(obj@));
                assert(done + (seq![obj@] + later) =~= object_views(out@) + later);
            }
        }
        i += 1;
    }
    proof {
        assert(object_views(out@) + Seq::<SchemaObjectView>::empty() =~= object_views(out@));
    }
    out
}

/// What `str::to_lowercase` makes of a text.
pub uninterp spec fn lowercase(s: Seq<char>) -> Seq<char>;

/// `str::to_lowercase`: a function of the text alone, and of ASCII text the
/// text with its letters in lower case. Other letters are left unsaid.
#[verifier::external_body]
fn to_lower(s: &str) -> (r: String)
    ensures
        r@ == lowercase(s@),
        is_ascii_text(s@) ==> r@ == lower_text(s@),
{
    s.to_lowercase()
}

/// A text of ASCII characters.
pub open spec fn is_ascii_text(s: Seq<char>) -> bool {
    forall|i: int| 0 <= i < s.len() ==> #[trigger] s[i] < '\u{80}'
}

/// The lower case of a word, whatever its letters.
pub open spec fn any_lower() -> spec_fn(Seq<char>) -> Seq<char> {
    |word: Seq<char>| lowercase(word)
}

/// The lower case of a word of ASCII letters.
pub open spec fn plain_lower() -> spec_fn(Seq<char>) -> Seq<char> {
    |word: Seq<char>| lower_text(word)
}

/// A definition in a `CREATE TABLE` body that starts with this word, in lower
/// case, is a constraint of the whole table, with or without a space before
/// its bracket.
pub open spec fn is_constraint(first: Seq<char>) -> bool {
    let key = first.take(before(first, '(') as int);
    key == "constraint"@ || key == "primary"@ || key == "unique"@ || key == "check"@ || key
        == "foreign"@
}

/// The column that a definition in a `CREATE TABLE` body names: its first
/// word in lower case. A constraint of the whole table names none.
pub open spec fn column_by(item: Seq<char>, lower: spec_fn(Seq<char>) -> Seq<char>) -> Option<
    Seq<char>,
> {
    if words(item).len() == 0 || is_constraint(lower(words(item)[0])) {
        None
    } else {
        Some(lower(words(item)[0]))
    }
}

/// The column that a definition names.
pub open spec fn column_in(item: Seq<char>) -> Option<Seq<char>> {
    column_by(item, any_lower())
}

/// Whether a definition that starts with this word, in lower case, is a
/// constraint.
pub fn starts_constraint(first: &str) -> (r: bool)
    ensures
        r == is_constraint(first@),
{
    let chars = chars_of(first);
    let key = slice_subrange(&chars, 0, find(&chars, '('));
    proof {
        assert(key@ =~= first@.take(before(first@, '(') as int));
    }
    same(key, &chars_of("constraint")) || same(key, &chars_of("primary")) || same(
        key,
        &chars_of("unique"),
    ) || same(key, &chars_of("check")) || same(key, &chars_of("foreign"))
}

/// Reads the column that a definition names.
pub fn first_identifier(item: &[char]) -> (r: Option<String>)
    ensures
        match r {
            Some(name) => column_in(item@) == Some(name@),
            None => column_in(item@) is None,
        },
        words(item@).len() > 0 && is_ascii_text(words(item@)[0]) ==> column_in(item@) == column_by(
            item@,
            plain_lower(),
        ),
{
    let list = split_words(item);
    if list.len() == 0 {
        return None;
    }
    proof {
        assert(words(item@)[0] == list@[0]@);
    }
    let first = to_lower(string_of(&list[0]).as_str());
    if starts_constraint(first.as_str()) {
        None
    } else {
        Some(first)
    }
}

/// The columns that a `CREATE TABLE` body names, cut at the commas outside its
/// brackets: `cur` is what has been read of a definition, `depth` how many
/// brackets are open.
pub open spec fn columns_from(
    body: Seq<char>,
    cur: Seq<char>,
    depth: int,
    lower: spec_fn(Seq<char>) -> Seq<char>,
) -> Seq<Seq<char>>
    decreases body.len(),
{
    if body.len() == 0 {
        match column_by(cur, lower) {
            Some(name) => seq![name],
            None => Seq::empty(),
        }
    } else {
        let c = body[0];
        let rest = body.skip(1);
        if c == ',' && depth == 0 {
            match column_by(cur, lower) {
                Some(name) => seq![name] + columns_from(rest, Seq::empty(), depth, lower),
                None => columns_from(rest, Seq::empty(), depth, lower),
            }
        } else {
            columns_from(
                rest,
                cur.push(c),
                if c == '(' {
                    depth + 1
                } else if c == ')' {
                    depth - 1
                } else {
                    depth
                },
                lower,
            )
        }
    }
}

/// Where a character last stands in a text.
pub open spec fn last_place(s: Seq<char>, c: char) -> Option<int>
    decreases s.len(),
{
    if s.len() == 0 {
        None
    } else if s.last() == c {
        Some(s.len() - 1)
    } else {
        last_place(s.drop_last(), c)
    }
}

fn find_last(s: &[char], c: char) -> (r: Option<usize>)
    ensures
        match r {
            Some(at) => last_place(s@, c) == Some(at as int) && at < s.len(),
            None => last_place(s@, c) is None,
        },
{
    let mut n: usize = s.len();
    proof {
        assert(s@.take(s@.len() as int) =~= s@);
    }
    while n > 0
        invariant
            n <= s.len(),
            last_place(s@, c) == last_place(s@.take(n as int), c),
        decreases n,
    {
        proof {
            assert(s@.take(n as int).last() == s@[n as int - 1]);
            assert(s@.take(n as int).drop_last() =~= s@.take(n as int - 1));
        }
        if s[n - 1] == c {
            return Some(n - 1);
        }
        n -= 1;
    }
    None
}

/// The columns that a normal `CREATE TABLE` statement names.
pub open spec fn columns_of(sql: Seq<char>) -> Seq<Seq<char>> {
    columns_by(sql, any_lower())
}

/// The columns that a normal `CREATE TABLE` statement names: those of what
/// stands between its first `(` and its last `)`.
pub open spec fn columns_by(sql: Seq<char>, lower: spec_fn(Seq<char>) -> Seq<char>) -> Seq<
    Seq<char>,
> {
    match behind(sql, "CREATE TABLE "@) {
        None => Seq::empty(),
        Some(rest) => {
            let body = unconditional(rest);
            let start = before(body, '(') as int;
            match last_place(body, ')') {
                Some(end) => if start < end {
                    columns_from(body.subrange(start + 1, end), Seq::empty(), 0, lower)
                } else {
                    Seq::empty()
                },
                None => Seq::empty(),
            }
        },
    }
}

/// Reads the columns that a normal `CREATE TABLE` statement names.
pub fn extract_column_names(sql: &[char]) -> (r: Vec<String>)
    ensures
        views(r@) == columns_of(sql@),
        is_ascii_text(sql@) ==> columns_of(sql@) == columns_by(sql@, plain_lower()),
{
    let mut cols: Vec<String> = Vec::new();
    proof {
        assert(views(cols@) =~= Seq::<Seq<char>>::empty());
    }
    let body = match strip_start(sql, "CREATE TABLE ") {
        Some(rest) => remove_if_not_exists(rest),
        None => {
            return cols;
        },
    };
    let start = find(&body, '(');
    let end = match find_last(&body, ')') {
        Some(end) => end,
        None => {
            return cols;
        },
    };
    if start >= end {
        return cols;
    }
    let inner = slice_subrange(&body, start + 1, end);
    let ghost whole = inner@;
    let ghost any = columns_from(whole, Seq::empty(), 0, any_lower());
    let ghost plain = columns_from(whole, Seq::empty(), 0, plain_lower());
    proof {
        if is_ascii_text(sql@) {
            rest_is_ascii(sql@, "CREATE TABLE "@);
            unconditional_is_ascii(sql@.skip("CREATE TABLE "@.len() as int));
        }
    }
    let ghost ascii = is_ascii_text(sql@);
    let mut cur: Vec<char> = Vec::new();
    let mut depth: i128 = 0;
    let mut i: usize = 0;
    proof {
        assert(whole.skip(0) =~= whole);
        assert(cur@ =~= Seq::<char>::empty());
        assert(views(cols@) + any =~= any);
        assert(views(cols@) + plain =~= plain);
    }
    while i < inner.len()
        invariant
            i <= inner.len(),
            whole == inner@,
            -i <= depth <= i,
            ascii ==> is_ascii_text(whole) && is_ascii_text(cur@),
            any == views(cols@) + columns_from(
                whole.skip(i as int),
                cur@,
                depth as int,
                any_lower(),
            ),
            ascii ==> plain == views(cols@) + columns_from(
                whole.skip(i as int),
                cur@,
                depth as int,
                plain_lower(),
            ),
        decreases inner.len() - i,
    {
        let c = inner[i];
        let ghost done = views(cols@);
        proof {
            assert(whole.skip(i as int).skip(1) =~= whole.skip(i as int + 1));
        }
        if c == ',' && depth == 0 {
            proof {
                if ascii {
                    first_word_is_ascii(cur@);
                }
            }
            if let Some(name) = first_identifier(&cur) {
                cols.push(name);
                proof {
                    let rest = whole.skip(i as int + 1);
                    let later = columns_from(rest, Seq::empty(), 0, any_lower());
                    let plain_later = columns_from(rest, Seq::empty(), 0, plain_lower());
                    assert(views(cols@) =~= done.push(name@));
                    assert(done + (seq![name@] + later) =~= views(cols@) + later);
                    assert(done + (seq![name@] + plain_later) =~= views(cols@) + plain_later);
                }
            }
            cur = Vec::new();
            proof {
                assert(cur@ =~= Seq::<char>::empty());
            }
        } else {
            if c == '(' {
                depth += 1;
            } else if c == ')' {
                depth -= 1;
            }
            cur.push(c);
        }
        i += 1;
    }
    let ghost done = views(cols@);
    proof {
        if ascii {
            first_word_is_ascii(cur@);
        }
    }
    match first_identifier(&cur) {
        Some(name) => {
            cols.push(name);
            proof {
                assert(views(cols@) =~= done + seq![name@]);
            }
        },
        None => {
            proof {
                assert(done + Seq::<Seq<char>>::empty() =~= done);
            }
        },
    }
    cols
}

proof fn first_word_is_ascii(s: Seq<char>)
    requires
        is_ascii_text(s),
    ensures
        words(s).len() > 0 ==> is_ascii_text(words(s)[0]),
        words(s).len() == 0 ==> column_by(s, any_lower()) == column_by(s, plain_lower()),
    decreases s.len(),
{
    if s.len() > 0 {
        if is_white(s[0]) {
            assert forall|i: int| 0 <= i < s.skip(1).len() implies #[trigger] s.skip(1)[i]
                < '\u{80}' by {
                assert(s.skip(1)[i] == s[i + 1]);
            }
            first_word_is_ascii(s.skip(1));
        } else {
            word_len_bound(s);
        }
    }
}

proof fn rest_is_ascii(s: Seq<char>, start: Seq<char>)
    requires
        is_ascii_text(s),
        behind(s, start) is Some,
    ensures
        is_ascii_text(s.skip(start.len() as int)),
{
    let rest = s.skip(start.len() as int);
    assert forall|i: int| 0 <= i < rest.len() implies #[trigger] rest[i] < '\u{80}' by {
        assert(rest[i] == s[i + start.len()]);
    }
}

spec fn are_ascii_texts(list: Seq<Seq<char>>) -> bool {
    forall|i: int| 0 <= i < list.len() ==> is_ascii_text(#[trigger] list[i])
}

proof fn split_is_ascii(s: Seq<char>, c: char)
    requires
        is_ascii_text(s),
    ensures
        are_ascii_texts(split(s, c)),
    decreases s.len(),
{
    before_bound(s, c);
    let n = before(s, c) as int;
    if n < s.len() {
        let rest = s.skip(n + 1);
        assert forall|i: int| 0 <= i < rest.len() implies #[trigger] rest[i] < '\u{80}' by {
            assert(rest[i] == s[i + n + 1]);
        }
        split_is_ascii(rest, c);
    }
    assert(is_ascii_text(s.take(n)));
}

proof fn fewer_are_ascii(list: Seq<Seq<char>>)
    requires
        are_ascii_texts(list),
    ensures
        are_ascii_texts(without_if_not_exists(list)),
    decreases list.len(),
{
    if list.len() > 0 {
        assert(are_ascii_texts(list.skip(1)));
        fewer_are_ascii(list.skip(1));
        if list.len() > 2 {
            assert(are_ascii_texts(list.skip(3)));
            fewer_are_ascii(list.skip(3));
        }
    }
}

proof fn join_is_ascii(list: Seq<Seq<char>>, sep: Seq<char>)
    requires
        are_ascii_texts(list),
        is_ascii_text(sep),
    ensures
        is_ascii_text(join(list, sep)),
    decreases list.len(),
{
    if list.len() == 1 {
        assert(is_ascii_text(list[0]));
    } else if list.len() > 1 {
        assert(are_ascii_texts(list.drop_last()));
        join_is_ascii(list.drop_last(), sep);
        assert(is_ascii_text(list[list.len() - 1]));
    }
}

proof fn unconditional_is_ascii(s: Seq<char>)
    requires
        is_ascii_text(s),
    ensures
        is_ascii_text(unconditional(s)),
{
    reveal_strlit(" ");
    split_is_ascii(s, ' ');
    fewer_are_ascii(split(s, ' '));
    join_is_ascii(without_if_not_exists(split(s, ' ')), " "@);
}

/// The first object of this kind and name, from one on.
pub open spec fn object_named(
    objs: Seq<SchemaObjectView>,
    kind: Seq<char>,
    name: Seq<char>,
    from: int,
) -> Option<SchemaObjectView>
    decreases objs.len() - from,
{
    if from < 0 || from >= objs.len() {
        None
    } else if objs[from].kind == kind && objs[from].name == name {
        Some(objs[from])
    } else {
        object_named(objs, kind, name, from + 1)
    }
}

/// The names of one list that another does not hold.
pub open spec fn names_beyond(names: Seq<Seq<char>>, others: Seq<Seq<char>>) -> Seq<Seq<char>>
    decreases names.len(),
{
    if names.len() == 0 {
        Seq::empty()
    } else if others.contains(names.last()) {
        names_beyond(names.drop_last(), others)
    } else {
        names_beyond(names.drop_last(), others).push(names.last())
    }
}

/// A line on one object: a mark, its kind and name, and what became of it.
pub open spec fn object_line(mark: Seq<char>, obj: SchemaObjectView, what: Seq<char>) -> Seq<char> {
    mark + obj.kind + " "@ + obj.name + what
}

/// The lines on the objects that are gone, in order.
pub open spec fn missing_lines(old: Seq<SchemaObjectView>, new: Seq<SchemaObjectView>) -> Seq<
    Seq<char>,
>
    decreases old.len(),
{
    if old.len() == 0 {
        Seq::empty()
    } else {
        let obj = old.last();
        let lines = missing_lines(old.drop_last(), new);
        if object_named(new, obj.kind, obj.name, 0) is None {
            lines.push(object_line("- "@, obj, " (kaldırılmış)"@))
        } else {
            lines
        }
    }
}

/// The lines on the objects that are new, in order.
pub open spec fn extra_lines(old: Seq<SchemaObjectView>, new: Seq<SchemaObjectView>) -> Seq<
    Seq<char>,
>
    decreases new.len(),
{
    if new.len() == 0 {
        Seq::empty()
    } else {
        let obj = new.last();
        let lines = extra_lines(old, new.drop_last());
        if object_named(old, obj.kind, obj.name, 0) is None {
            lines.push(object_line("+ "@, obj, " (eklenmiş)"@))
        } else {
            lines
        }
    }
}

/// A line on columns, where there are any.
pub open spec fn column_line(what: Seq<char>, names: Seq<Seq<char>>) -> Seq<Seq<char>> {
    if names.len() == 0 {
        Seq::empty()
    } else {
        seq![what + join(names, ", "@)]
    }
}

/// The lines on an object whose SQL text is another: of a table, the columns
/// that came and went too.
pub open spec fn change_lines(
    old: SchemaObjectView,
    new: SchemaObjectView,
    lower: spec_fn(Seq<char>) -> Seq<char>,
) -> Seq<Seq<char>> {
    let head = seq![object_line("~ "@, old, " (değişmiş)"@)];
    if old.kind == "table"@ {
        let was = columns_by(old.sql, lower);
        let is = columns_by(new.sql, lower);
        head + column_line("    eklenen sütunlar: "@, names_beyond(is, was)) + column_line(
            "    silinen sütunlar: "@,
            names_beyond(was, is),
        )
    } else {
        head
    }
}

/// The lines on the objects whose SQL text is another, in order.
pub open spec fn changed_lines(
    old: Seq<SchemaObjectView>,
    new: Seq<SchemaObjectView>,
    lower: spec_fn(Seq<char>) -> Seq<char>,
) -> Seq<Seq<char>>
    decreases old.len(),
{
    if old.len() == 0 {
        Seq::empty()
    } else {
        let obj = old.last();
        let lines = changed_lines(old.drop_last(), new, lower);
        match object_named(new, obj.kind, obj.name, 0) {
            Some(other) => if other.sql != obj.sql {
                lines + change_lines(obj, other, lower)
            } else {
                lines
            },
            None => lines,
        }
    }
}

/// How two fingerprints differ, in words.
pub open spec fn difference(old: Seq<char>, new: Seq<char>) -> Seq<char> {
    difference_by(old, new, any_lower())
}

/// How two fingerprints differ, in words; columns are told by their lower
/// case.
pub open spec fn difference_by(
    old: Seq<char>,
    new: Seq<char>,
    lower: spec_fn(Seq<char>) -> Seq<char>,
) -> Seq<char> {
    let was = objects_in(old);
    let is = objects_in(new);
    let lines = missing_lines(was, is) + extra_lines(was, is) + changed_lines(was, is, lower);
    if lines.len() == 0 {
        "şemalar yalnızca kozmetik normalleştirme düzeyinde ayrışıyor"@
    } else {
        join(lines, "\n"@)
    }
}

/// The SQL texts of objects are ASCII.
pub open spec fn have_ascii_sql(objs: Seq<SchemaObjectView>) -> bool {
    forall|i: int| 0 <= i < objs.len() ==> is_ascii_text((#[trigger] objs[i]).sql)
}

fn named(objs: &[SchemaObject], kind: &str, name: &str) -> (r: Option<usize>)
    ensures
        match r {
            Some(at) => at < objs.len() && object_named(
                object_views(objs@),
                kind@,
                name@,
                0,
            ) == Some(objs@[at as int]@),
            None => object_named(object_views(objs@), kind@, name@, 0) is None,
        },
{
    let ghost all = object_views(objs@);
    let mut i: usize = 0;
    while i < objs.len()
        invariant
            i <= objs.len(),
            all == object_views(objs@),
            object_named(all, kind@, name@, 0) == object_named(all, kind@, name@, i as int),
        decreases objs.len() - i,
    {
        proof {
            assert(all[i as int] == objs@[i as int]@);
        }
        if same_str(objs[i].kind.as_str(), kind) && same_str(objs[i].name.as_str(), name) {
            return Some(i);
        }
        i += 1;
    }
    None
}

fn holds(names: &[String], name: &str) -> (r: bool)
    ensures
        r == views(names@).contains(name@),
{
    let mut i: usize = 0;
    while i < names.len()
        invariant
            i <= names.len(),
            forall|j: int| 0 <= j < i ==> (#[trigger] views(names@)[j]) != name@,
        decreases names.len() - i,
    {
        if same_str(names[i].as_str(), name) {
            proof {
                assert(views(names@)[i as int] == name@);
            }
            return true;
        }
        i += 1;
    }
    false
}

fn beyond(names: &[String], others: &[String]) -> (r: Vec<String>)
    ensures
        views(r@) == names_beyond(views(names@), views(others@)),
{
    let ghost all = views(names@);
    let mut out: Vec<String> = Vec::new();
    let mut i: usize = 0;
    while i < names.len()
        invariant
            i <= names.len(),
            all == views(names@),
            views(out@) == names_beyond(all.take(i as int), views(others@)),
        decreases names.len() - i,
    {
        let ghost done = out@;
        proof {
            assert(all.take(i as int + 1).drop_last() =~= all.take(i as int));
            assert(all.take(i as int + 1).last() == names@[i as int]@);
        }
        if !holds(others, names[i].as_str()) {
            out.push(names[i].as_str().to_owned());
            proof {
                assert(views(out@) =~= views(done).push(names@[i as int]@));
            }
        }
        i += 1;
    }
    proof {
        assert(all.take(all.len() as int) =~= all);
    }
    out
}

fn push_object_line(lines: &mut Vec<String>, mark: &str, obj: &SchemaObject, what: &str)
    ensures
        views(final(lines)@) == views(old(lines)@).push(object_line(mark@, obj@, what@)),
{
    let mut line = String::new();
    line.append(mark);
    line.append(obj.kind.as_str());
    line.append(" ");
    line.append(obj.name.as_str());
    line.append(what);
    proof {
        assert(line@ =~= object_line(mark@, obj@, what@));
    }
    lines.push(line);
    proof {
        assert(views(lines@) =~= views(old(lines)@).push(object_line(mark@, obj@, what@)));
    }
}

fn push_column_line(lines: &mut Vec<String>, what: &str, names: &[String])
    ensures
        views(final(lines)@) == views(old(lines)@) + column_line(what@, views(names@)),
{
    if names.len() > 0 {
        let list = join_strings(names, ", ");
        let mut line = String::new();
        line.append(what);
        line.append(string_of(&list).as_str());
        lines.push(line);
        proof {
            assert(line@ =~= what@ + join(views(names@), ", "@));
            assert(views(lines@) =~= views(old(lines)@) + seq![line@]);
        }
    } else {
        proof {
            assert(views(lines@) + Seq::<Seq<char>>::empty() =~= views(lines@));
        }
    }
}

fn push_change(lines: &mut Vec<String>, was: &SchemaObject, is: &SchemaObject)
    ensures
        views(final(lines)@) == views(old(lines)@) + change_lines(was@, is@, any_lower()),
        is_ascii_text(was@.sql) && is_ascii_text(is@.sql) ==> change_lines(was@, is@, any_lower())
            == change_lines(was@, is@, plain_lower()),
{
    let ghost start = views(lines@);
    push_object_line(lines, "~ ", was, " (değişmiş)");
    proof {
        assert(views(lines@) =~= start + seq![object_line("~ "@, was@, " (değişmiş)"@)]);
    }
    if same_str(was.kind.as_str(), "table") {
        let old_cols = extract_column_names(&chars_of(was.sql.as_str()));
        let new_cols = extract_column_names(&chars_of(is.sql.as_str()));
        let added = beyond(&new_cols, &old_cols);
        let removed = beyond(&old_cols, &new_cols);
        push_column_line(lines, "    eklenen sütunlar: ", &added);
        push_column_line(lines, "    silinen sütunlar: ", &removed);
        proof {
            assert(views(lines@) =~= start + change_lines(was@, is@, any_lower()));
        }
    }
}

/// Tells in words how two fingerprints differ.
pub fn diff_report(old: &str, new: &str) -> (r: String)
    ensures
        r@ == difference(old@, new@),
        have_ascii_sql(objects_in(old@)) && have_ascii_sql(objects_in(new@)) ==> difference(
            old@,
            new@,
        ) == difference_by(old@, new@, plain_lower()),
{
    let old_objs = parse_objects(old);
    let new_objs = parse_objects(new);
    let ghost was = object_views(old_objs@);
    let ghost is = object_views(new_objs@);
    let mut lines: Vec<String> = Vec::new();
    let mut i: usize = 0;
    while i < old_objs.len()
        invariant
            i <= old_objs.len(),
            was == object_views(old_objs@),
            is == object_views(new_objs@),
            views(lines@) == missing_lines(was.take(i as int), is),
        decreases old_objs.len() - i,
    {
        let obj = &old_objs[i];
        proof {
            assert(was.take(i as int + 1).drop_last() =~= was.take(i as int));
            assert(was.take(i as int + 1).last() == obj@);
        }
        if named(&new_objs, obj.kind.as_str(), obj.name.as_str()).is_none() {
            push_object_line(&mut lines, "- ", obj, " (kaldırılmış)");
        }
        i += 1;
    }
    let ghost missing = views(lines@);
    let mut i: usize = 0;
    proof {
        assert(was.take(was.len() as int) =~= was);
        assert(is.take(0) =~= Seq::<SchemaObjectView>::empty());
        assert(views(lines@) =~= missing + extra_lines(was, is.take(0)));
    }
    while i < new_objs.len()
        invariant
            i <= new_objs.len(),
            was == object_views(old_objs@),
            is == object_views(new_objs@),
            views(lines@) == missing + extra_lines(was, is.take(i as int)),
        decreases new_objs.len() - i,
    {
        let obj = &new_objs[i];
        let ghost done = extra_lines(was, is.take(i as int));
        proof {
            assert(is.take(i as int + 1).drop_last() =~= is.take(i as int));
            assert(is.take(i as int + 1).last() == obj@);
        }
        if named(&old_objs, obj.kind.as_str(), obj.name.as_str()).is_none() {
            push_object_line(&mut lines, "+ ", obj, " (eklenmiş)");
            proof {
                let line = object_line("+ "@, obj@, " (eklenmiş)"@);
                assert((missing + done).push(line) =~= missing + done.push(line));
            }
        }
        i += 1;
    }
    let ghost extra = views(lines@);
    let mut i: usize = 0;
    proof {
        assert(is.take(is.len() as int) =~= is);
        assert(was.take(0) =~= Seq::<SchemaObjectView>::empty());
        assert(views(lines@) =~= extra + changed_lines(was.take(0), is, any_lower()));
    }
    let ghost ascii = have_ascii_sql(was) && have_ascii_sql(is);
    while i < old_objs.len()
        invariant
            i <= old_objs.len(),
            was == object_views(old_objs@),
            is == object_views(new_objs@),
            ascii ==> have_ascii_sql(was) && have_ascii_sql(is),
            ascii ==> changed_lines(was.take(i as int), is, any_lower()) == changed_lines(
                was.take(i as int),
                is,
                plain_lower(),
            ),
            views(lines@) == extra + changed_lines(was.take(i as int), is, any_lower()),
        decreases old_objs.len() - i,
    {
        let obj = &old_objs[i];
        let ghost done = changed_lines(was.take(i as int), is, any_lower());
        proof {
            assert(was.take(i as int + 1).drop_last() =~= was.take(i as int));
            assert(was.take(i as int + 1).last() == obj@);
        }
        if let Some(at) = named(&new_objs, obj.kind.as_str(), obj.name.as_str()) {
            if !same_str(new_objs[at].sql.as_str(), obj.sql.as_str()) {
                push_change(&mut lines, obj, &new_objs[at]);
                proof {
                    assert(was[i as int] == obj@);
                    assert(is[at as int] == new_objs@[at as int]@);
                    let more = change_lines(obj@, new_objs@[at as int]@, any_lower());
                    assert((extra + done) + more =~= extra + (done + more));
                }
            }
        }
        i += 1;
    }
    proof {
        assert(was.take(was.len() as int) =~= was);
    }
    if lines.len() == 0 {
        "şemalar yalnızca kozmetik normalleştirme düzeyinde ayrışıyor".to_owned()
    } else {
        let text = join_strings(&lines, "\n");
        string_of(&text)
    }
}

/// The line of a fingerprint on a row of the schema table.
pub open spec fn schema_line(row: Seq<SqlView>) -> Result<Seq<char>, StoreErrorView> {
    match (text_at(row, 0), text_at(row, 1), opt_text_at(row, 2)) {
        (Err(e), _, _) => Err(e),
        (Ok(_), Err(e), _) => Err(e),
        (Ok(_), Ok(_), Err(e)) => Err(e),
        (Ok(kind), Ok(name), Ok(sql)) => Ok(
            kind + "|"@ + name + "|"@ + (match sql {
                Some(sql) => normal(sql),
                None => Seq::empty(),
            }) + "\n"@,
        ),
    }
}

/// The fingerprint of a schema: a line for each of its objects.
pub open spec fn fingerprint_of(rows: Seq<Seq<SqlView>>) -> Result<Seq<char>, StoreErrorView>
    decreases rows.len(),
{
    if rows.len() == 0 {
        Ok(Seq::empty())
    } else {
        match fingerprint_of(rows.drop_last()) {
            Err(e) => Err(e),
            Ok(text) => match schema_line(rows.last()) {
                Err(e) => Err(e),
                Ok(line) => Ok(text + line),
            },
        }
    }
}

proof fn fingerprint_stays_unread(rows: Seq<Seq<SqlView>>, n: int)
    requires
        0 <= n <= rows.len(),
        fingerprint_of(rows.take(n)) is Err,
    ensures
        fingerprint_of(rows) == fingerprint_of(rows.take(n)),
    decreases rows.len() - n,
{
    if n < rows.len() {
        assert(rows.take(n + 1).drop_last() =~= rows.take(n));
        fingerprint_stays_unread(rows, n + 1);
    } else {
        assert(rows.take(n) =~= rows);
    }
}

fn line_of(row: &[SqlValue]) -> (r: Result<String, StoreError>)
    ensures
        outcome(r) == schema_line(value_views(row@)),
{
    let kind = match text(row, 0) {
        Ok(kind) => kind,
        Err(e) => {
            return Err(e);
        },
    };
    let name = match text(row, 1) {
        Ok(name) => name,
        Err(e) => {
            return Err(e);
        },
    };
    let sql = match opt_text_of(row, 2) {
        Ok(sql) => sql,
        Err(e) => {
            return Err(e);
        },
    };
    let mut line = String::new();
    line.append(kind.as_str());
    line.append("|");
    line.append(name.as_str());
    line.append("|");
    if let Some(sql) = &sql {
        line.append(string_of(&normalize_schema(sql.as_str())).as_str());
    }
    line.append("\n");
    proof {
        assert(Ok::<Seq<char>, StoreErrorView>(line@) == schema_line(value_views(row@))) by {
            let shown = match sql {
                Some(sql) => normal(sql@),
                None => Seq::empty(),
            };
            assert(line@ =~= kind@ + "|"@ + name@ + "|"@ + shown + "\n"@);
        }
    }
    Ok(line)
}

/// The fingerprint of a database, from the rows of its schema table.
pub fn fingerprint(rows: &[Vec<SqlValue>]) -> (r: Result<String, StoreError>)
    ensures
        outcome(r) == fingerprint_of(row_views(rows@)),
{
    let ghost all = row_views(rows@);
    let mut out = String::new();
    let mut i: usize = 0;
    proof {
        assert(all.take(0) =~= Seq::<Seq<SqlView>>::empty());
        assert(out@ =~= Seq::<char>::empty());
    }
    while i < rows.len()
        invariant
            i <= rows.len(),
            all == row_views(rows@),
            fingerprint_of(all.take(i as int)) == Ok::<Seq<char>, StoreErrorView>(out@),
        decreases rows.len() - i,
    {
        proof {
            assert(all.take(i as int + 1).drop_last() =~= all.take(i as int));
            assert(all.take(i as int + 1).last() == value_views(rows@[i as int]@));
        }
        match line_of(&rows[i]) {
            Ok(line) => {
                out.append(line.as_str());
            },
            Err(e) => {
                proof {
                    fingerprint_stays_unread(all, i as int + 1);
                }
                return Err(e);
            },
        }
        i += 1;
    }
    proof {
        assert(all.take(all.len() as int) =~= all);
    }
    Ok(out)
}

} // verus!
