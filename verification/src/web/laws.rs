//! What holds of the pages and of what is written in them.

use crate::number::int_text;
use crate::parse::StatementHeadView;
use crate::parse::laws::merchant::{split_at_a_separator, split_of_one_piece};
use crate::parse::laws::statement::{is_complete, is_small_enough, statement_that_adds_up_is_read,
    statement_that_does_not_add_up_is_refused};
use crate::parse::row::StopView;
use crate::parse::statement::{finished, WalkView};
use crate::store::dashboard::DashboardView;
use crate::store::filter::TxnFilterView;
use crate::store::import::ImportReportView;
use crate::store::rows::{CategoryView, StatementRowView};
use crate::text::{before, before_bound, contains, occurs_at, split, trim};
use crate::web::cli::{code_of, import_args_from, import_args_in, import_line_of, statement_line_of,
    Ending, ImportArgsView};
use crate::web::forms::{problem_of, problem_text, recon_row, ImportProblemView, RECON_START};
use crate::web::markup::{bar_len, escaped, escaped_char, top_of, BarView};
use crate::web::money::{grouped, money};
use crate::web::pages::{amount_bar, category_bars_of, filter_in, first_id, month_bar,
    period_choices, picked, spend_bars};
use crate::web::url::{encoded, encoded_byte, is_unreserved, url_text_reads_back, value_from,
    value_in};
use vstd::prelude::*;
use vstd::utf8::encode_utf8;

verus! {

/// A pair of a query: a key and its value as it is sent.
pub open spec fn pair(key: Seq<char>, value: Seq<char>) -> Seq<char> {
    key + seq!['='] + encoded(encode_utf8(value))
}

proof fn encoded_has_no_separator(bytes: Seq<u8>)
    ensures
        !encoded(bytes).contains('&'),
    decreases bytes.len(),
{
    if bytes.len() > 0 {
        encoded_has_no_separator(bytes.skip(1));
        let first = encoded_byte(bytes[0]);
        let rest = encoded(bytes.skip(1));
        let s = first + rest;
        if s.contains('&') {
            let i = choose|i: int| 0 <= i < s.len() && s[i] == '&';
            if i < first.len() {
                assert(first[i] == '&');
                let b = bytes[0];
                if is_unreserved(b) {
                    assert(b as char == '&');
                    assert(b == 38);
                } else {
                    assert(0 <= b as int / 16 < 16 && 0 <= b as int % 16 < 16);
                }
                assert(false);
            } else {
                assert(rest[i - first.len()] == '&');
                assert(rest.contains('&'));
            }
        }
    }
}

proof fn equals_sign_of_a_pair(key: Seq<char>, text: Seq<char>)
    requires
        !key.contains('='),
    ensures
        before(key + seq!['='] + text, '=') == key.len(),
{
    let s = key + seq!['='] + text;
    before_bound(s, '=');
    let n = before(s, '=') as int;
    assert(s[key.len() as int] == '=');
    if n < key.len() {
        assert(key[n] == '=');
        assert(key.contains(key[n]));
    }
}

proof fn value_from_behind(first: Seq<char>, rest: Seq<Seq<char>>, key: Seq<char>, from: int)
    requires
        0 <= from,
    ensures
        value_from(seq![first] + rest, key, from + 1) == value_from(rest, key, from),
    decreases rest.len() - from,
{
    let all = seq![first] + rest;
    if from < rest.len() {
        assert(all[from + 1] == rest[from]);
        value_from_behind(first, rest, key, from + 1);
    }
}

/// The value of a key is the one that was sent with it, where its pair stands
/// first, whatever follows.
pub proof fn first_pair_of_a_key_gives_its_value(
    key: Seq<char>,
    value: Seq<char>,
    rest: Seq<char>,
)
    requires
        !key.contains('='),
        !key.contains('&'),
    ensures
        value_in(pair(key, value), key) == Some(value),
        value_in(pair(key, value) + seq!['&'] + rest, key) == Some(value),
{
    let p = pair(key, value);
    let text = encoded(encode_utf8(value));
    pair_is_one_piece(key, value);
    split_of_one_piece(p, '&');
    split_at_a_separator(p, rest, '&');
    equals_sign_of_a_pair(key, text);
    assert(p.take(key.len() as int) =~= key);
    assert(p.skip(key.len() as int + 1) =~= text);
    url_text_reads_back(value);
    let all = split(p + seq!['&'] + rest, '&');
    assert(all[0] == p);
    assert(split(p, '&')[0] == p);
}

proof fn pair_is_one_piece(key: Seq<char>, value: Seq<char>)
    requires
        !key.contains('&'),
    ensures
        !pair(key, value).contains('&'),
{
    let text = encoded(encode_utf8(value));
    let p = pair(key, value);
    encoded_has_no_separator(encode_utf8(value));
    if p.contains('&') {
        let i = choose|i: int| 0 <= i < p.len() && p[i] == '&';
        if i < key.len() {
            assert(key.contains(key[i]));
        } else if i > key.len() {
            assert(text.contains(text[i - key.len() - 1]));
        }
    }
}

/// A pair of another key does not count.
pub proof fn pairs_of_other_keys_do_not_count(
    other: Seq<char>,
    value: Seq<char>,
    key: Seq<char>,
    rest: Seq<char>,
)
    requires
        !other.contains('='),
        !other.contains('&'),
        other != key,
    ensures
        value_in(pair(other, value) + seq!['&'] + rest, key) == value_in(rest, key),
        value_in(pair(other, value), key) is None,
{
    let p = pair(other, value);
    let text = encoded(encode_utf8(value));
    pair_is_one_piece(other, value);
    split_of_one_piece(p, '&');
    split_at_a_separator(p, rest, '&');
    equals_sign_of_a_pair(other, text);
    assert(p.take(other.len() as int) =~= other);
    let all = seq![p] + split(rest, '&');
    assert(all[0] == p);
    value_from_behind(p, split(rest, '&'), key, 0);
    assert(value_from(all, key, 0) == value_from(all, key, 1));
    let one = seq![p];
    assert(one[0] == p);
    assert(value_from(one, key, 1) is None);
}

/// A filter that is sent is the filter that is read: the period, the category,
/// that only what has no label is meant, and the text that is searched for.
pub proof fn sent_filter_is_read(
    statement_id: Seq<char>,
    category_id: Seq<char>,
    mark: Seq<char>,
    q: Seq<char>,
)
    requires
        statement_id.len() > 0,
        category_id.len() > 0,
        trim(q).len() > 0,
    ensures
        ({
            let and = seq!['&'];
            let d = pair(seq!['d'], statement_id);
            let k = pair(seq!['k'], category_id);
            let u = pair(seq!['u'], mark);
            let s = pair(seq!['q'], q);
            let nothing = TxnFilterView {
                statement_id: None,
                category_id: None,
                unlabeled_only: false,
                q: None,
            };
            &&& filter_in(d) == (TxnFilterView { statement_id: Some(statement_id), ..nothing })
            &&& filter_in(k) == (TxnFilterView { category_id: Some(category_id), ..nothing })
            &&& filter_in(u) == (TxnFilterView { unlabeled_only: true, ..nothing })
            &&& filter_in(s) == (TxnFilterView { q: Some(trim(q)), ..nothing })
            &&& filter_in(d + and + (k + and + (u + and + s))) == (TxnFilterView {
                statement_id: Some(statement_id),
                category_id: Some(category_id),
                unlabeled_only: true,
                q: Some(trim(q)),
            })
        }),
{
    reveal_strlit("d");
    reveal_strlit("k");
    reveal_strlit("u");
    reveal_strlit("q");
    let and = seq!['&'];
    let kd = seq!['d'];
    let kk = seq!['k'];
    let ku = seq!['u'];
    let kq = seq!['q'];
    assert("d"@ =~= kd && "k"@ =~= kk && "u"@ =~= ku && "q"@ =~= kq);
    assert(kd[0] == 'd' && kk[0] == 'k' && ku[0] == 'u' && kq[0] == 'q');
    assert(kd != kk && kd != ku && kd != kq && kk != ku && kk != kq && ku != kq);
    let d = pair(kd, statement_id);
    let k = pair(kk, category_id);
    let u = pair(ku, mark);
    let s = pair(kq, q);
    let r2 = u + and + s;
    let r1 = k + and + r2;
    first_pair_of_a_key_gives_its_value(kd, statement_id, r1);
    first_pair_of_a_key_gives_its_value(kk, category_id, r2);
    first_pair_of_a_key_gives_its_value(ku, mark, s);
    first_pair_of_a_key_gives_its_value(kq, q, s);
    pairs_of_other_keys_do_not_count(kd, statement_id, kk, r1);
    pairs_of_other_keys_do_not_count(kd, statement_id, ku, r1);
    pairs_of_other_keys_do_not_count(kd, statement_id, kq, r1);
    pairs_of_other_keys_do_not_count(kk, category_id, kd, r2);
    pairs_of_other_keys_do_not_count(kk, category_id, ku, r2);
    pairs_of_other_keys_do_not_count(kk, category_id, kq, r2);
    pairs_of_other_keys_do_not_count(ku, mark, kd, s);
    pairs_of_other_keys_do_not_count(ku, mark, kk, s);
    pairs_of_other_keys_do_not_count(ku, mark, kq, s);
    pairs_of_other_keys_do_not_count(kq, q, kd, s);
    pairs_of_other_keys_do_not_count(kq, q, kk, s);
    pairs_of_other_keys_do_not_count(kq, q, ku, s);
}

/// The period that is shown is a stored one or all of them: the one that was
/// asked for where it is stored, all where that was asked for by an empty
/// value, and the first of the list in any other case.
pub proof fn shown_period_is_stored(statements: Seq<StatementRowView>, query: Seq<char>)
    ensures
        picked(statements, query) matches Some(id) ==> exists|i: int|
            0 <= i < statements.len() && (#[trigger] statements[i]).id == id,
        value_in(query, "d"@) == Some(Seq::<char>::empty()) ==> picked(statements, query) is None,
        value_in(query, "d"@) matches Some(id) ==> id.len() > 0 && (exists|i: int|
            0 <= i < statements.len() && (#[trigger] statements[i]).id == id) ==> picked(
            statements,
            query,
        ) == Some(id),
        value_in(query, "d"@) is None && statements.len() > 0 ==> picked(statements, query) == Some(
            statements[0].id,
        ),
        picked(statements, query) is None ==> statements.len() == 0 || value_in(query, "d"@)
            == Some(Seq::<char>::empty()),
{
    if value_in(query, "d"@) is Some {
        let id = value_in(query, "d"@)->0;
        if id.len() == 0 {
            assert(id =~= Seq::<char>::empty());
        }
    }
    if statements.len() > 0 {
        assert(statements[0].id == first_id(statements)->0);
    }
}

/// Of the periods to choose from, with ids that are not empty and differ, the
/// one that is shown is marked and no other; all of them is the first choice.
pub proof fn shown_period_is_marked(
    statements: Seq<StatementRowView>,
    shown: Option<Seq<char>>,
    i: int,
)
    requires
        0 <= i < statements.len(),
    ensures
        period_choices(statements, shown).len() == statements.len() + 1,
        period_choices(statements, shown)[0].selected <==> shown is None,
        period_choices(statements, shown)[i + 1].value == statements[i].id,
        period_choices(statements, shown)[i + 1].selected <==> shown == Some(statements[i].id),
{
}

/// How a browser reads a text: an entity stands for its character.
pub open spec fn read_by_a_browser(s: Seq<char>) -> Seq<char>
    decreases s.len(),
{
    if s.len() == 0 {
        s
    } else if occurs_at(s, seq!['&', 'a', 'm', 'p', ';'], 0) {
        seq!['&'] + read_by_a_browser(s.skip(5))
    } else if occurs_at(s, seq!['&', 'l', 't', ';'], 0) {
        seq!['<'] + read_by_a_browser(s.skip(4))
    } else if occurs_at(s, seq!['&', 'g', 't', ';'], 0) {
        seq!['>'] + read_by_a_browser(s.skip(4))
    } else if occurs_at(s, seq!['&', 'q', 'u', 'o', 't', ';'], 0) {
        seq!['"'] + read_by_a_browser(s.skip(6))
    } else {
        seq![s[0]] + read_by_a_browser(s.skip(1))
    }
}

proof fn escaped_from_the_front(c: char, s: Seq<char>)
    ensures
        escaped(seq![c] + s) == escaped_char(c) + escaped(s),
    decreases s.len(),
{
    let all = seq![c] + s;
    if s.len() == 0 {
        assert(all.drop_last() =~= s);
        assert(all.last() == c);
        assert(Seq::<char>::empty() + escaped_char(c) =~= escaped_char(c) + Seq::<char>::empty());
    } else {
        escaped_from_the_front(c, s.drop_last());
        assert(all.drop_last() =~= seq![c] + s.drop_last());
        assert(all.last() == s.last());
        assert(escaped_char(c) + escaped(s.drop_last()) + escaped_char(s.last())
            =~= escaped_char(c) + (escaped(s.drop_last()) + escaped_char(s.last())));
    }
}

/// An escaped text is read by a browser as the text.
pub proof fn escaped_text_is_read_as_the_text(s: Seq<char>)
    ensures
        read_by_a_browser(escaped(s)) == s,
    decreases s.len(),
{
    if s.len() == 0 {
        assert(escaped(s) =~= s);
    } else {
        let c = s[0];
        let rest = s.skip(1);
        assert(s =~= seq![c] + rest);
        escaped_from_the_front(c, rest);
        escaped_text_is_read_as_the_text(rest);
        let tail = escaped(rest);
        let t = escaped(s);
        reveal_strlit("&amp;");
        reveal_strlit("&lt;");
        reveal_strlit("&gt;");
        reveal_strlit("&quot;");
        let amp = seq!['&', 'a', 'm', 'p', ';'];
        let lt = seq!['&', 'l', 't', ';'];
        let gt = seq!['&', 'g', 't', ';'];
        let quot = seq!['&', 'q', 'u', 'o', 't', ';'];
        assert("&amp;"@ =~= amp && "&lt;"@ =~= lt && "&gt;"@ =~= gt && "&quot;"@ =~= quot);
        entities_differ(t);
        if c == '&' {
            assert(t.subrange(0, 5) =~= amp);
            assert(t.skip(5) =~= tail);
        } else if c == '<' {
            assert(t.subrange(0, 4) =~= lt);
            assert(t.skip(4) =~= tail);
        } else if c == '>' {
            assert(t.subrange(0, 4) =~= gt);
            assert(t.skip(4) =~= tail);
        } else if c == '"' {
            assert(t.subrange(0, 6) =~= quot);
            assert(t.skip(6) =~= tail);
        } else {
            assert(t[0] == c);
            assert(t.skip(1) =~= tail);
        }
    }
}

/// An entity at the front of a text is told by its letters.
proof fn entities_differ(t: Seq<char>)
    ensures
        occurs_at(t, seq!['&', 'a', 'm', 'p', ';'], 0) ==> t[0] == '&' && t[1] == 'a',
        occurs_at(t, seq!['&', 'l', 't', ';'], 0) ==> t[0] == '&' && t[1] == 'l',
        occurs_at(t, seq!['&', 'g', 't', ';'], 0) ==> t[0] == '&' && t[1] == 'g',
        occurs_at(t, seq!['&', 'q', 'u', 'o', 't', ';'], 0) ==> t[0] == '&' && t[1] == 'q',
{
    let amp = seq!['&', 'a', 'm', 'p', ';'];
    let lt = seq!['&', 'l', 't', ';'];
    let gt = seq!['&', 'g', 't', ';'];
    let quot = seq!['&', 'q', 'u', 'o', 't', ';'];
    if occurs_at(t, amp, 0) {
        assert(t.subrange(0, 5)[0] == t[0] && t.subrange(0, 5)[1] == t[1]);
    }
    if occurs_at(t, lt, 0) {
        assert(t.subrange(0, 4)[0] == t[0] && t.subrange(0, 4)[1] == t[1]);
    }
    if occurs_at(t, gt, 0) {
        assert(t.subrange(0, 4)[0] == t[0] && t.subrange(0, 4)[1] == t[1]);
    }
    if occurs_at(t, quot, 0) {
        assert(t.subrange(0, 6)[0] == t[0] && t.subrange(0, 6)[1] == t[1]);
    }
}

/// The bars of a chart are drawn against the largest of their amounts.
pub proof fn chart_is_drawn_against_its_largest_amount(bars: Seq<BarView>)
    ensures
        top_of(bars) >= 1,
        forall|i: int| 0 <= i < bars.len() ==> (#[trigger] bars[i]).minor <= top_of(bars),
        top_of(bars) == 1 || exists|i: int|
            0 <= i < bars.len() && (#[trigger] bars[i]).minor == top_of(bars),
    decreases bars.len(),
{
    if bars.len() > 0 {
        let init = bars.drop_last();
        chart_is_drawn_against_its_largest_amount(init);
        assert forall|i: int| 0 <= i < bars.len() implies (#[trigger] bars[i]).minor <= top_of(
            bars,
        ) by {
            if i < init.len() {
                assert(init[i] == bars[i]);
            }
        }
        if bars.last().minor > top_of(init) {
            assert(bars[bars.len() - 1].minor == top_of(bars));
        } else if top_of(init) != 1 {
            let i = choose|i: int| 0 <= i < init.len() && (#[trigger] init[i]).minor == top_of(init);
            assert(bars[i].minor == top_of(bars));
        }
    }
}

/// A bar is as long as its share of the largest amount, and never so short that
/// it cannot be seen: the largest fills the chart, and a larger amount has no
/// shorter bar.
pub proof fn bars_are_as_long_as_their_share(a: int, b: int, full: int, top: int)
    requires
        top > 0,
        full >= 2,
        a <= b,
    ensures
        bar_len(top, full, top) == full,
        bar_len(a, full, top) >= 2,
        bar_len(a, full, top) <= bar_len(b, full, top),
        a > 0 && bar_len(a, full, top) > 2 ==> bar_len(a, full, top) * top <= a * full < (bar_len(
            a,
            full,
            top,
        ) + 1) * top,
{
    assert(top * full / top == full) by (nonlinear_arith)
        requires
            top > 0,
    ;
    assert(a * full <= b * full) by (nonlinear_arith)
        requires
            a <= b,
            full >= 2,
    ;
    let x = a * full;
    let y = b * full;
    vstd::arithmetic::div_mod::lemma_div_is_ordered(x, y, top);
    vstd::arithmetic::div_mod::lemma_fundamental_div_mod(x, top);
    let q = x / top;
    assert(q * top <= x < (q + 1) * top) by (nonlinear_arith)
        requires
            x == top * q + x % top,
            0 <= x % top < top,
    ;
}

/// In grouped digits a dot stands in every fourth place from the end, and
/// nowhere else.
pub proof fn dots_part_groups_of_three(s: Seq<char>)
    requires
        forall|i: int| 0 <= i < s.len() ==> '0' <= #[trigger] s[i] <= '9',
    ensures
        s.len() > 0 ==> grouped(s).len() == s.len() + (s.len() - 1) / 3,
        forall|i: int|
            0 <= i < grouped(s).len() ==> (#[trigger] grouped(s)[i] == '.' <==> (grouped(s).len()
                - i) % 4 == 0),
    decreases s.len(),
{
    if s.len() > 0 {
        let rest = s.skip(1);
        assert forall|i: int| 0 <= i < rest.len() implies '0' <= #[trigger] rest[i] <= '9' by {
            assert(rest[i] == s[i + 1]);
        }
        dots_part_groups_of_three(rest);
        let g = grouped(s);
        let r = grouped(rest);
        let n = s.len() as int;
        assert('0' <= s[0] <= '9');
        if n > 1 {
            assert(r.len() == n - 1 + (n - 2) / 3);
            if (n - 1) % 3 == 0 {
                assert(g =~= seq![s[0], '.'] + r);
                assert((n - 2) / 3 + 1 == (n - 1) / 3);
                let k = (n - 1) / 3;
                assert(n - 1 == 3 * k);
                assert(r.len() == 4 * k - 1);
                assert forall|i: int| 0 <= i < g.len() implies (#[trigger] g[i] == '.' <==> (
                g.len() - i) % 4 == 0) by {
                    if i >= 2 {
                        assert(g[i] == r[i - 2]);
                        assert(g.len() - i == r.len() - (i - 2));
                    } else if i == 1 {
                        assert(g.len() - 1 == 4 * k);
                    } else {
                        assert(g[0] == s[0]);
                        assert(g.len() == 4 * k + 1);
                    }
                }
            } else {
                assert(g =~= seq![s[0]] + r);
                assert((n - 2) / 3 == (n - 1) / 3);
                let k = (n - 1) / 3;
                assert(g.len() == n + k);
                assert(n + k == 4 * k + 1 + (n - 1) % 3);
                assert forall|i: int| 0 <= i < g.len() implies (#[trigger] g[i] == '.' <==> (
                g.len() - i) % 4 == 0) by {
                    if i >= 1 {
                        assert(g[i] == r[i - 1]);
                        assert(g.len() - i == r.len() - (i - 1));
                    } else {
                        assert(g[0] == s[0]);
                        assert((4 * k + 1 + (n - 1) % 3) % 4 != 0);
                    }
                }
            }
        } else {
            assert(rest =~= Seq::<char>::empty());
            assert(r =~= Seq::<char>::empty());
            assert(g =~= seq![s[0]]);
        }
    }
}

/// A negative amount is written as the amount with a minus sign before it.
pub proof fn negative_money_has_a_minus_sign(minor: int)
    requires
        minor > 0,
    ensures
        money(-minor) == seq!['-'] + money(minor),
{
    assert(money(-minor) =~= seq!['-'] + money(minor));
}

/// Arguments that are none of the options are paths, in their order.
proof fn paths_are_read(args: Seq<Seq<char>>, from: int, read: ImportArgsView)
    requires
        0 <= from <= args.len(),
        forall|i: int| from <= i < args.len() ==> #[trigger] args[i] != "--user"@,
    ensures
        import_args_from(args, from, read) == Some(
            ImportArgsView { user: read.user, paths: read.paths + args.skip(from) },
        ),
    decreases args.len() - from,
{
    if from < args.len() {
        assert(args[from] != "--user"@);
        let next = ImportArgsView { paths: read.paths.push(args[from]), ..read };
        paths_are_read(args, from + 1, next);
        assert(next.paths + args.skip(from + 1) =~= read.paths + args.skip(from));
    } else {
        assert(read.paths + args.skip(from) =~= read.paths);
    }
}

/// An option among paths: what stands before it, and what behind it.
proof fn option_is_read(args: Seq<Seq<char>>, from: int, at: int, read: ImportArgsView)
    requires
        0 <= from <= at,
        at + 1 < args.len(),
        args[at] == "--user"@,
        forall|i: int| from <= i < at ==> #[trigger] args[i] != "--user"@,
        forall|i: int| at + 2 <= i < args.len() ==> #[trigger] args[i] != "--user"@,
    ensures
        import_args_from(args, from, read) == Some(
            ImportArgsView {
                user: Some(args[at + 1]),
                paths: read.paths + args.subrange(from, at) + args.skip(at + 2),
            },
        ),
    decreases at - from,
{
    if from < at {
        assert(args[from] != "--user"@);
        let next = ImportArgsView { paths: read.paths.push(args[from]), ..read };
        option_is_read(args, from + 1, at, next);
        assert(next.paths + args.subrange(from + 1, at) =~= read.paths + args.subrange(from, at));
    } else {
        let next = ImportArgsView { user: Some(args[at + 1]), ..read };
        paths_are_read(args, at + 2, next);
        assert(read.paths + args.subrange(at, at) =~= read.paths);
    }
}

/// The user is the argument behind the option, wherever the option stands among
/// the paths; the file is the first path. Without a path the file is asked for.
pub proof fn import_arguments_are_read(before: Seq<Seq<char>>, user: Seq<char>, after: Seq<Seq<char>>)
    requires
        forall|i: int| 0 <= i < before.len() ==> #[trigger] before[i] != "--user"@,
        forall|i: int| 0 <= i < after.len() ==> #[trigger] after[i] != "--user"@,
    ensures
        import_args_in(before + seq!["--user"@, user] + after) == if (before + after).len() > 0 {
            Ok::<(Seq<char>, Seq<char>), Seq<char>>((user, (before + after)[0]))
        } else {
            Err("ekstre dosyası gerekli"@)
        },
{
    let args = before + seq!["--user"@, user] + after;
    let at = before.len() as int;
    assert(args[at] == "--user"@);
    assert(args[at + 1] == user);
    assert forall|i: int| 0 <= i < at implies #[trigger] args[i] != "--user"@ by {
        assert(args[i] == before[i]);
    }
    assert forall|i: int| at + 2 <= i < args.len() implies #[trigger] args[i] != "--user"@ by {
        assert(args[i] == after[i - at - 2]);
    }
    let none = ImportArgsView { user: None, paths: Seq::empty() };
    option_is_read(args, 0, at, none);
    assert(args.subrange(0, at) =~= before);
    assert(args.skip(at + 2) =~= after);
    assert(none.paths + before + after =~= before + after);
}

/// Without the option, and with nothing behind it, there is no import.
pub proof fn import_needs_a_user(paths: Seq<Seq<char>>)
    requires
        forall|i: int| 0 <= i < paths.len() ==> #[trigger] paths[i] != "--user"@,
    ensures
        import_args_in(paths) is Err,
        import_args_in(paths.push("--user"@)) is Err,
{
    let none = ImportArgsView { user: None, paths: Seq::empty() };
    paths_are_read(paths, 0, none);
    dangling_option(paths.push("--user"@), 0, none);
}

proof fn dangling_option(args: Seq<Seq<char>>, from: int, read: ImportArgsView)
    requires
        0 <= from < args.len(),
        args.last() == "--user"@,
        forall|i: int| from <= i < args.len() - 1 ==> #[trigger] args[i] != "--user"@,
    ensures
        import_args_from(args, from, read) is None,
    decreases args.len() - from,
{
    if from < args.len() - 1 {
        assert(args[from] != "--user"@);
        dangling_option(
            args,
            from + 1,
            ImportArgsView { paths: read.paths.push(args[from]), ..read },
        );
    }
}

/// The problem that a refused statement is shown with adds up: the balance
/// before it, its spending and fees, less its credits, are what was computed;
/// and that is held against the debt that the statement names.
pub proof fn shown_problem_adds_up(w: WalkView)
    requires
        is_complete(w),
        is_small_enough(w),
        finished(w) is Err,
    ensures
        finished(w) matches Err(StopView::Refused(e)) && (problem_of(
            e,
        ) matches ImportProblemView::Reconcile { previous, spend, fees, credits, computed, stated }
            && previous + spend + fees - credits == computed && Some(stated) == w.boxes.debt),
{
    statement_that_adds_up_is_read(w);
    statement_that_does_not_add_up_is_refused(w);
}

/// A text stands in what it is a part of.
proof fn part_is_contained(a: Seq<char>, part: Seq<char>, b: Seq<char>)
    ensures
        contains(a + part + b, part),
{
    let s = a + part + b;
    assert(s.subrange(a.len() as int, a.len() as int + part.len()) =~= part);
    assert(occurs_at(s, part, a.len() as int));
}

proof fn contained_at_the_end(a: Seq<char>, s: Seq<char>, part: Seq<char>)
    requires
        contains(s, part),
    ensures
        contains(a + s, part),
{
    let at = choose|at: int| occurs_at(s, part, at);
    let t = a + s;
    assert(t.subrange(a.len() + at, a.len() + at + part.len()) =~= s.subrange(
        at,
        at + part.len(),
    ));
    assert(occurs_at(t, part, a.len() + at));
}

proof fn contained_in_more(s: Seq<char>, b: Seq<char>, part: Seq<char>)
    requires
        contains(s, part),
    ensures
        contains(s + b, part),
{
    let at = choose|at: int| occurs_at(s, part, at);
    assert((s + b).subrange(at, at + part.len()) =~= s.subrange(at, at + part.len()));
    assert(occurs_at(s + b, part, at));
}

/// A line of a table: a label and an amount.
pub open spec fn table_line(label: Seq<char>, minor: i64) -> Seq<char> {
    label + "</td><td class=\"num\">"@ + money(minor as int)
}

proof fn line_in_a_row(label: Seq<char>, minor: i64)
    ensures
        contains(recon_row(label, minor), table_line(label, minor)),
{
    part_is_contained("<tr><td>"@, table_line(label, minor), "</td></tr>"@);
    assert("<tr><td>"@ + table_line(label, minor) + "</td></tr>"@ =~= recon_row(label, minor));
}

/// A refused statement is shown with each of its sums behind its own label.
pub proof fn shown_problem_names_its_sums(
    previous: i64,
    spend: i64,
    fees: i64,
    credits: i64,
    computed: i64,
    stated: i64,
)
    ensures
        ({
            let text = problem_text(
                ImportProblemView::Reconcile { previous, spend, fees, credits, computed, stated },
            );
            &&& contains(text, table_line("Önceki bakiye (ÖNCEKİ AYDAN DEVİR)"@, previous))
            &&& contains(text, table_line("+ Harcamalarınız"@, spend))
            &&& contains(text, table_line("+ Ceza ücret ve kesintiler"@, fees))
            &&& contains(text, table_line("− Ödemeleriniz"@, credits))
            &&& contains(text, table_line("= Hesaplanan dönem borcu"@, computed))
            &&& contains(text, table_line("Ekstrenin yazdığı dönem borcu"@, stated))
        }),
{
    let start = "<div class=\"banner banner-problem\">"@;
    let end = "</div>"@;
    let r0 = RECON_START@;
    let r1 = recon_row("Önceki bakiye (ÖNCEKİ AYDAN DEVİR)"@, previous);
    let r2 = recon_row("+ Harcamalarınız"@, spend);
    let r3 = recon_row("+ Ceza ücret ve kesintiler"@, fees);
    let r4 = recon_row("− Ödemeleriniz"@, credits);
    let r5 = recon_row("= Hesaplanan dönem borcu"@, computed);
    let r6 = recon_row("Ekstrenin yazdığı dönem borcu"@, stated);
    let r7 = "</tbody></table>"@;
    let a1 = r0 + r1;
    let a2 = a1 + r2;
    let a3 = a2 + r3;
    let a4 = a3 + r4;
    let a5 = a4 + r5;
    let a6 = a5 + r6;
    let a7 = a6 + r7;
    let a8 = start + a7;
    let l1 = table_line("Önceki bakiye (ÖNCEKİ AYDAN DEVİR)"@, previous);
    line_in_a_row("Önceki bakiye (ÖNCEKİ AYDAN DEVİR)"@, previous);
    contained_at_the_end(r0, r1, l1);
    contained_in_more(a1, r2, l1);
    contained_in_more(a2, r3, l1);
    contained_in_more(a3, r4, l1);
    contained_in_more(a4, r5, l1);
    contained_in_more(a5, r6, l1);
    contained_in_more(a6, r7, l1);
    contained_at_the_end(start, a7, l1);
    contained_in_more(a8, end, l1);
    let l2 = table_line("+ Harcamalarınız"@, spend);
    line_in_a_row("+ Harcamalarınız"@, spend);
    contained_at_the_end(a1, r2, l2);
    contained_in_more(a2, r3, l2);
    contained_in_more(a3, r4, l2);
    contained_in_more(a4, r5, l2);
    contained_in_more(a5, r6, l2);
    contained_in_more(a6, r7, l2);
    contained_at_the_end(start, a7, l2);
    contained_in_more(a8, end, l2);
    let l3 = table_line("+ Ceza ücret ve kesintiler"@, fees);
    line_in_a_row("+ Ceza ücret ve kesintiler"@, fees);
    contained_at_the_end(a2, r3, l3);
    contained_in_more(a3, r4, l3);
    contained_in_more(a4, r5, l3);
    contained_in_more(a5, r6, l3);
    contained_in_more(a6, r7, l3);
    contained_at_the_end(start, a7, l3);
    contained_in_more(a8, end, l3);
    let l4 = table_line("− Ödemeleriniz"@, credits);
    line_in_a_row("− Ödemeleriniz"@, credits);
    contained_at_the_end(a3, r4, l4);
    contained_in_more(a4, r5, l4);
    contained_in_more(a5, r6, l4);
    contained_in_more(a6, r7, l4);
    contained_at_the_end(start, a7, l4);
    contained_in_more(a8, end, l4);
    let l5 = table_line("= Hesaplanan dönem borcu"@, computed);
    line_in_a_row("= Hesaplanan dönem borcu"@, computed);
    contained_at_the_end(a4, r5, l5);
    contained_in_more(a5, r6, l5);
    contained_in_more(a6, r7, l5);
    contained_at_the_end(start, a7, l5);
    contained_in_more(a8, end, l5);
    let l6 = table_line("Ekstrenin yazdığı dönem borcu"@, stated);
    line_in_a_row("Ekstrenin yazdığı dönem borcu"@, stated);
    contained_at_the_end(a5, r6, l6);
    contained_in_more(a6, r7, l6);
    contained_at_the_end(start, a7, l6);
    contained_in_more(a8, end, l6);
}

/// The line on a statement names its closing date, its debt and the least that
/// has to be paid, each behind its words.
pub proof fn statement_line_names_its_sums(head: StatementHeadView)
    ensures
        contains(statement_line_of(head), "dönem sonu "@ + head.period_end),
        contains(
            statement_line_of(head),
            "dönem borcu "@ + money(head.period_debt_minor as int),
        ),
        contains(
            statement_line_of(head),
            "asgari ödeme "@ + money(head.min_pay_minor as int),
        ),
{
    let debt = money(head.period_debt_minor as int);
    let least = money(head.min_pay_minor as int);
    let a = "ekstre   dönem sonu "@;
    let b = " · dönem borcu "@;
    let c = " · asgari ödeme "@;
    words_of_a_statement();
    let l1 = a + head.period_end;
    let l2 = l1 + b;
    let l3 = l2 + debt;
    let l4 = l3 + c;
    count_behind_a_word(Seq::empty(), "ekstre   "@, "dönem sonu "@, head.period_end);
    assert(Seq::<char>::empty() + a + head.period_end =~= l1);
    contained_in_more(l1, b, "dönem sonu "@ + head.period_end);
    contained_in_more(l2, debt, "dönem sonu "@ + head.period_end);
    contained_in_more(l3, c, "dönem sonu "@ + head.period_end);
    contained_in_more(l4, least, "dönem sonu "@ + head.period_end);
    count_behind_a_word(l1, " · "@, "dönem borcu "@, debt);
    contained_in_more(l3, c, "dönem borcu "@ + debt);
    contained_in_more(l4, least, "dönem borcu "@ + debt);
    count_behind_a_word(l3, " · "@, "asgari ödeme "@, least);
}

/// The words around the sums of a statement.
proof fn words_of_a_statement()
    ensures
        "ekstre   dönem sonu "@ == "ekstre   "@ + "dönem sonu "@,
        " · dönem borcu "@ == " · "@ + "dönem borcu "@,
        " · asgari ödeme "@ == " · "@ + "asgari ödeme "@,
{
    reveal_strlit("ekstre   dönem sonu ");
    reveal_strlit("ekstre   ");
    reveal_strlit("dönem sonu ");
    reveal_strlit(" · ");
    reveal_strlit(" · dönem borcu ");
    reveal_strlit("dönem borcu ");
    reveal_strlit(" · asgari ödeme ");
    reveal_strlit("asgari ödeme ");
    assert("ekstre   dönem sonu "@ =~= "ekstre   "@ + "dönem sonu "@);
    assert(" · dönem borcu "@ =~= " · "@ + "dönem borcu "@);
    assert(" · asgari ödeme "@ =~= " · "@ + "asgari ödeme "@);
}

/// The bars of a dashboard's categories are those that something was spent on,
/// in their order, each with its category's name and colour and its own amount.
pub proof fn category_bars_are_what_was_spent(spend: Seq<(CategoryView, i64)>)
    ensures
        spend_bars(spend) == spend.filter(|x: (CategoryView, i64)| x.1 > 0).map_values(
            |x: (CategoryView, i64)| amount_bar(x.0.name, x.1, x.0.color),
        ),
    decreases spend.len(),
{
    let positive = |x: (CategoryView, i64)| x.1 > 0;
    let bar = |x: (CategoryView, i64)| amount_bar(x.0.name, x.1, x.0.color);
    reveal(Seq::filter);
    if spend.len() > 0 {
        category_bars_are_what_was_spent(spend.drop_last());
        assert(spend_bars(spend) =~= spend.filter(positive).map_values(bar));
    } else {
        assert(spend_bars(spend) =~= spend.filter(positive).map_values(bar));
    }
}

/// A bar for an amount shows that amount.
pub proof fn amount_bar_shows_its_amount(label: Seq<char>, minor: i64, color: Seq<char>)
    ensures
        amount_bar(label, minor, color).minor == minor,
        amount_bar(label, minor, color).text == money(minor as int),
        amount_bar(label, minor, color).label == label,
        amount_bar(label, minor, color).color == color,
        contains(amount_bar(label, minor, color).title, money(minor as int)),
        contains(amount_bar(label, minor, color).title, label),
{
    let amount = money(minor as int);
    part_is_contained(label + " · "@, amount, Seq::empty());
    assert(label + " · "@ + amount + Seq::<char>::empty() =~= label + " · "@ + amount);
    part_is_contained(Seq::empty(), label, " · "@ + amount);
    assert(Seq::<char>::empty() + label + (" · "@ + amount) =~= label + " · "@ + amount);
}

/// The words around the counts of an import.
proof fn words_of_an_import()
    ensures
        " işlem · etiketli "@ == " işlem"@ + " · etiketli "@,
        " işlem · etiketli "@ == " işlem ·"@ + " etiketli "@,
        " · etiketsiz "@ == " · "@ + "etiketsiz "@,
        " işlem), yeni kayıt yazılmadı"@ == " işlem"@ + "), yeni kayıt yazılmadı"@,
{
    reveal_strlit(" işlem");
    reveal_strlit(" işlem · etiketli ");
    reveal_strlit(" · etiketli ");
    reveal_strlit(" işlem ·");
    reveal_strlit(" etiketli ");
    reveal_strlit(" · etiketsiz ");
    reveal_strlit(" · ");
    reveal_strlit("etiketsiz ");
    reveal_strlit(" işlem), yeni kayıt yazılmadı");
    reveal_strlit("), yeni kayıt yazılmadı");
    assert(" işlem · etiketli "@ =~= " işlem"@ + " · etiketli "@);
    assert(" işlem · etiketli "@ =~= " işlem ·"@ + " etiketli "@);
    assert(" · etiketsiz "@ =~= " · "@ + "etiketsiz "@);
    assert(" işlem), yeni kayıt yazılmadı"@ =~= " işlem"@ + "), yeni kayıt yazılmadı"@);
}

/// A text and the start of what stands behind it.
proof fn count_before_a_word(a: Seq<char>, n: Seq<char>, w: Seq<char>, v: Seq<char>)
    ensures
        contains(a + n + (w + v), n + w),
{
    let t = a + n + (w + v);
    let part = n + w;
    let at = a.len() as int;
    assert(t.subrange(at, at + part.len()) =~= part);
    assert(occurs_at(t, part, at));
}

/// A text and the end of what stands before it.
proof fn count_behind_a_word(a: Seq<char>, v: Seq<char>, w: Seq<char>, n: Seq<char>)
    ensures
        contains(a + (v + w) + n, w + n),
{
    let t = a + (v + w) + n;
    let part = w + n;
    let at = a.len() as int + v.len() as int;
    assert(t.subrange(at, at + part.len()) =~= part);
    assert(occurs_at(t, part, at));
}

/// The line on an import that stored a statement names how many transactions it
/// has, and how many of them have a label and how many have none; that on one
/// which was stored already names how many it has.
pub proof fn import_line_names_its_counts(report: ImportReportView)
    ensures
        contains(import_line_of(report), int_text(report.txn_count as int) + " işlem"@),
        !report.duplicate ==> contains(
            import_line_of(report),
            " etiketli "@ + int_text(report.labeled as int),
        ),
        !report.duplicate ==> contains(
            import_line_of(report),
            "etiketsiz "@ + int_text(report.unlabeled as int),
        ),
{
    let n = int_text(report.txn_count as int);
    let a = int_text(report.labeled as int);
    let b = int_text(report.unlabeled as int);
    words_of_an_import();
    if report.duplicate {
        count_before_a_word(
            "kopya    bu ekstre zaten yüklü ("@,
            n,
            " işlem"@,
            "), yeni kayıt yazılmadı"@,
        );
    } else {
        let start = "aktarıldı  "@;
        let mid = " işlem · etiketli "@;
        let mid2 = " · etiketsiz "@;
        let l1 = start + n + mid;
        let l2 = l1 + a;
        let l3 = l2 + mid2;
        count_before_a_word(start, n, " işlem"@, " · etiketli "@);
        contained_in_more(l1, a, n + " işlem"@);
        contained_in_more(l2, mid2, n + " işlem"@);
        contained_in_more(l3, b, n + " işlem"@);
        count_behind_a_word(start + n, " işlem ·"@, " etiketli "@, a);
        contained_in_more(l2, mid2, " etiketli "@ + a);
        contained_in_more(l3, b, " etiketli "@ + a);
        count_behind_a_word(l2, " · "@, "etiketsiz "@, b);
    }
}

/// A month's bar is as high as what was spent in it, and names what was spent
/// and what was paid.
pub proof fn month_bar_shows_what_was_spent(month: (Seq<char>, i64, i64))
    ensures
        month_bar(month).label == month.0,
        month_bar(month).minor == month.1,
        month_bar(month).text == money(month.1 as int),
        contains(month_bar(month).title, "harcama "@ + money(month.1 as int)),
        contains(month_bar(month).title, "ödeme "@ + money(month.2 as int)),
{
    let a = " · harcama "@;
    let b = " · ödeme "@;
    let spent = money(month.1 as int);
    let paid = money(month.2 as int);
    words_of_a_month();
    let l1 = month.0 + a;
    let l2 = l1 + spent;
    let l3 = l2 + b;
    count_behind_a_word(month.0, " · "@, "harcama "@, spent);
    contained_in_more(l2, b, "harcama "@ + spent);
    contained_in_more(l3, paid, "harcama "@ + spent);
    count_behind_a_word(l2, " · "@, "ödeme "@, paid);
}

/// The words around the sums of a month.
proof fn words_of_a_month()
    ensures
        " · harcama "@ == " · "@ + "harcama "@,
        " · ödeme "@ == " · "@ + "ödeme "@,
{
    reveal_strlit(" · ");
    reveal_strlit(" · harcama ");
    reveal_strlit(" · ödeme ");
    reveal_strlit("harcama ");
    reveal_strlit("ödeme ");
    assert(" · harcama "@ =~= " · "@ + "harcama "@);
    assert(" · ödeme "@ =~= " · "@ + "ödeme "@);
}

/// The bars of the categories end with one for what has no label, where there is
/// any, and have no other beside those that something was spent on.
pub proof fn what_has_no_label_has_its_bar(dash: DashboardView)
    ensures
        dash.unlabeled_debit_minor > 0 ==> category_bars_of(dash).drop_last() == spend_bars(
            dash.spend_by_category,
        ) && category_bars_of(dash).last().minor == dash.unlabeled_debit_minor,
        dash.unlabeled_debit_minor <= 0 ==> category_bars_of(dash) == spend_bars(
            dash.spend_by_category,
        ),
{
    if dash.unlabeled_debit_minor > 0 {
        assert(category_bars_of(dash).drop_last() =~= spend_bars(dash.spend_by_category));
    }
}

/// A character that is sent as it is.
pub open spec fn is_sent_as_it_is(c: char) -> bool {
    ||| 'A' <= c <= 'Z'
    ||| 'a' <= c <= 'z'
    ||| '0' <= c <= '9'
    ||| c == '-' || c == '_' || c == '.' || c == '~'
}

/// What is sent in an address is letters, digits and a few marks that stand for
/// themselves, and percent signs.
pub proof fn sent_text_is_plain(bytes: Seq<u8>)
    ensures
        forall|i: int|
            0 <= i < encoded(bytes).len() ==> is_sent_as_it_is(#[trigger] encoded(bytes)[i])
                || encoded(bytes)[i] == '%',
    decreases bytes.len(),
{
    if bytes.len() > 0 {
        sent_text_is_plain(bytes.skip(1));
        let first = encoded_byte(bytes[0]);
        let rest = encoded(bytes.skip(1));
        let b = bytes[0];
        assert(0 <= b as int / 16 < 16 && 0 <= b as int % 16 < 16);
        assert forall|i: int| 0 <= i < (first + rest).len() implies is_sent_as_it_is(
            #[trigger] (first + rest)[i],
        ) || (first + rest)[i] == '%' by {
            if i < first.len() {
                assert((first + rest)[i] == first[i]);
            } else {
                assert((first + rest)[i] == rest[i - first.len()]);
            }
        }
    }
}

/// Plain characters are sent as they are.
pub proof fn plain_text_is_sent_as_it_is(s: Seq<char>)
    requires
        forall|i: int| 0 <= i < s.len() ==> is_sent_as_it_is(#[trigger] s[i]),
    ensures
        encoded(Seq::new(s.len(), |i: int| s[i] as u8)) == s,
    decreases s.len(),
{
    let bytes = Seq::new(s.len(), |i: int| s[i] as u8);
    if s.len() > 0 {
        let t = s.skip(1);
        assert forall|i: int| 0 <= i < t.len() implies is_sent_as_it_is(#[trigger] t[i]) by {
            assert(t[i] == s[i + 1]);
        }
        plain_text_is_sent_as_it_is(t);
        assert(bytes.skip(1) =~= Seq::new(t.len(), |i: int| t[i] as u8));
        assert(is_sent_as_it_is(s[0]));
        assert(bytes[0] == s[0] as u8);
        assert(is_unreserved(bytes[0]));
        assert(bytes[0] as char == s[0]);
        assert(seq![s[0]] + t =~= s);
    } else {
        assert(encoded(bytes) =~= s);
    }
}

/// A command ends with no failure exactly where it was carried out.
pub proof fn only_what_was_done_ends_well(ending: Ending)
    ensures
        code_of(ending) == 0 <==> ending is Done,
{
}

} // verus!
