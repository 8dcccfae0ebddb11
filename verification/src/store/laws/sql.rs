//! What holds of SQL text that is cut into statements, and of its normal form.

use crate::store::lexer::{block_closes, block_len, gap_piece_goes_on, line_closes, line_len,
    line_len_alone, line_len_bound, parts_from, piece_goes_on, piece_kind, piece_len,
    piece_len_bound, quote_closes, quoted_len, quoted_len_alone, quoted_len_bound, whole_piece,
    whole_pieces, Piece};
use crate::store::schema::{normal, statements, statements_from, token, tokens_from,
    without_if_not_exists};
use crate::text::{is_white, join, lower_text, trim};
use vstd::prelude::*;

verus! {

/// A text of white space.
pub open spec fn is_blank(s: Seq<char>) -> bool {
    trim(s).len() == 0
}

/// SQL text with one space for each block comment.
pub open spec fn spaced(s: Seq<char>) -> Seq<char>
    decreases s.len(),
{
    if s.len() == 0 {
        Seq::empty()
    } else {
        proof {
            piece_len_bound(s);
        }
        let n = piece_len(s) as int;
        if piece_kind(s) is BlockComment {
            " "@ + spaced(s.skip(n))
        } else {
            s.take(n) + spaced(s.skip(n))
        }
    }
}

/// What may stand behind the last statement: white space, after a semicolon
/// where there is a statement.
pub open spec fn ends(list: Seq<Seq<char>>, rest: Seq<char>) -> bool {
    if list.len() == 0 {
        is_blank(rest)
    } else {
        rest.len() == 0 || (rest[0] == ';' && is_blank(rest.skip(1)))
    }
}

proof fn join_from_front(first: Seq<char>, list: Seq<Seq<char>>, sep: Seq<char>)
    requires
        list.len() > 0,
    ensures
        join(seq![first] + list, sep) == first + sep + join(list, sep),
    decreases list.len(),
{
    let all = seq![first] + list;
    assert(all.last() == list.last());
    if list.len() == 1 {
        assert(all.drop_last() =~= seq![first]);
        assert(join(all.drop_last(), sep) == first);
    } else {
        join_from_front(first, list.drop_last(), sep);
        assert(all.drop_last() =~= seq![first] + list.drop_last());
        assert(first + sep + join(list.drop_last(), sep) + sep + list.last() =~= first + sep + (
        join(list.drop_last(), sep) + sep + list.last()));
    }
}

proof fn joins_back(s: Seq<char>, cur: Seq<char>) -> (rest: Seq<char>)
    ensures
        ends(statements_from(s, cur), rest),
        join(statements_from(s, cur), ";"@) + rest == cur + spaced(s),
    decreases s.len(),
{
    reveal_strlit(";");
    reveal_strlit(" ");
    let list = statements_from(s, cur);
    if s.len() == 0 {
        assert(cur + spaced(s) =~= cur);
        if is_blank(cur) {
            assert(join(list, ";"@) + cur =~= cur);
            cur
        } else {
            assert(list.len() == 1 && list[0] == cur);
            assert(cur + Seq::<char>::empty() =~= cur);
            Seq::empty()
        }
    } else {
        piece_len_bound(s);
        let n = piece_len(s) as int;
        let later = s.skip(n);
        let none = Seq::<char>::empty();
        if piece_kind(s) is Plain && s[0] == ';' {
            let rest = joins_back(later, none);
            let next = statements_from(later, none);
            assert(none + spaced(later) =~= spaced(later));
            assert(s.take(n) =~= ";"@);
            if next.len() == 0 {
                assert(list =~= seq![cur]);
                assert(join(next, ";"@) + rest =~= rest);
                assert((";"@ + rest).skip(1) =~= rest);
                assert(cur + (";"@ + rest) =~= cur + (s.take(n) + spaced(later)));
                ";"@ + rest
            } else {
                join_from_front(cur, next, ";"@);
                assert(cur + ";"@ + join(next, ";"@) + rest =~= cur + (";"@ + (join(next, ";"@)
                    + rest)));
                rest
            }
        } else {
            let part = if piece_kind(s) is BlockComment {
                " "@
            } else {
                s.take(n)
            };
            assert(piece_kind(s) is Plain ==> cur.push(s[0]) =~= cur + part);
            assert(piece_kind(s) is BlockComment ==> cur.push(' ') =~= cur + part);
            let rest = joins_back(later, cur + part);
            assert(cur + part + spaced(later) =~= cur + (part + spaced(later)));
            rest
        }
    }
}

/// The statements of SQL text, with a semicolon between any two of them, are the
/// text again, with a space for each block comment; behind them stands at most
/// a semicolon and white space.
pub proof fn statements_join_to_the_text(s: Seq<char>)
    ensures
        exists|rest: Seq<char>|
            ends(statements(s), rest) && #[trigger] (join(statements(s), ";"@) + rest) == spaced(
                s,
            ),
{
    let rest = joins_back(s, Seq::empty());
    assert(Seq::<char>::empty() + spaced(s) =~= spaced(s));
    assert(ends(statements(s), rest) && join(statements(s), ";"@) + rest == spaced(s));
}

/// No block comment stands in SQL text.
pub open spec fn without_blocks(s: Seq<char>) -> bool
    decreases s.len(),
{
    s.len() == 0 || {
        proof {
            piece_len_bound(s);
        }
        !(piece_kind(s) is BlockComment) && without_blocks(s.skip(piece_len(s) as int))
    }
}

/// SQL text without block comments is what its statements join to.
pub proof fn text_without_blocks_is_not_spaced(s: Seq<char>)
    requires
        without_blocks(s),
    ensures
        spaced(s) == s,
    decreases s.len(),
{
    if s.len() > 0 {
        piece_len_bound(s);
        let n = piece_len(s) as int;
        text_without_blocks_is_not_spaced(s.skip(n));
        assert(s.take(n) + s.skip(n) =~= s);
    }
}

/// A semicolon stands in SQL text outside its strings and comments.
pub open spec fn has_cut(s: Seq<char>) -> bool
    decreases s.len(),
{
    s.len() > 0 && {
        proof {
            piece_len_bound(s);
        }
        (piece_kind(s) is Plain && s[0] == ';') || has_cut(s.skip(piece_len(s) as int))
    }
}

/// The first statement of a text, from its front.
spec fn first_statement(s: Seq<char>) -> Seq<char>
    decreases s.len(),
{
    if s.len() == 0 {
        Seq::empty()
    } else {
        proof {
            piece_len_bound(s);
        }
        let n = piece_len(s) as int;
        if piece_kind(s) is BlockComment {
            " "@ + first_statement(s.skip(n))
        } else if piece_kind(s) is Plain && s[0] == ';' {
            Seq::empty()
        } else {
            s.take(n) + first_statement(s.skip(n))
        }
    }
}

proof fn first_statement_starts(s: Seq<char>)
    ensures
        first_statement(s).len() > 0 ==> s.len() > 0 && (first_statement(s)[0] == s[0]
            || first_statement(s)[0] == ' '),
{
    reveal_strlit(" ");
    if s.len() > 0 {
        piece_len_bound(s);
    }
}

/// A piece of a text that is not cut is the same piece where the text goes on
/// otherwise, but with the same character or a space.
proof fn piece_stays(s: Seq<char>, later: Seq<char>)
    requires
        s.len() > 0,
        !(piece_kind(s) is BlockComment),
        later.len() > 0 ==> piece_len(s) < s.len() && (later[0] == s[piece_len(s) as int]
            || later[0] == ' '),
    ensures
        piece_kind(s.take(piece_len(s) as int) + later) == piece_kind(s),
        piece_len(s.take(piece_len(s) as int) + later) == piece_len(s),
{
    piece_len_bound(s);
    let n = piece_len(s) as int;
    let all = s.take(n) + later;
    assert(all[0] == s[0]);
    match piece_kind(s) {
        Piece::Quoted => {
            let body = s.skip(1);
            assert(s[n] == body[n - 1] || n == s.len());
            quoted_len_bound(body);
            if later.len() > 0 {
                quoted_len_alone(body, Seq::empty());
            }
            quoted_len_alone(body, later);
            assert(all.skip(1) =~= body.take(n - 1) + later);
        },
        Piece::LineComment => {
            let body = s.skip(2);
            line_len_bound(body);
            line_len_alone(body, later);
            assert(all[1] == s[1]);
            assert(all.skip(2) =~= body.take(n - 2) + later);
        },
        _ => {
            assert(all.len() > 1 ==> all[1] == later[0]);
        },
    }
}

proof fn first_statement_is_not_cut(s: Seq<char>)
    ensures
        !has_cut(first_statement(s)),
    decreases s.len(),
{
    reveal_strlit(" ");
    if s.len() > 0 {
        piece_len_bound(s);
        let n = piece_len(s) as int;
        let first = first_statement(s);
        let rest = first_statement(s.skip(n));
        first_statement_is_not_cut(s.skip(n));
        first_statement_starts(s.skip(n));
        if piece_kind(s) is BlockComment {
            assert(first.skip(1) =~= rest);
        } else if !(piece_kind(s) is Plain && s[0] == ';') {
            piece_stays(s, rest);
            assert(first.skip(n) =~= rest);
        }
    }
}

/// The statements behind the first.
proof fn statements_from_front(s: Seq<char>, cur: Seq<char>)
    ensures
        forall|i: int|
            0 <= i < statements_from(s, cur).len() ==> (#[trigger] statements_from(s, cur)[i]
                == cur + first_statement(s) || !has_cut(statements_from(s, cur)[i])),
    decreases s.len(),
{
    reveal_strlit(" ");
    let list = statements_from(s, cur);
    if s.len() == 0 {
        assert(cur + first_statement(s) =~= cur);
    } else {
        piece_len_bound(s);
        let n = piece_len(s) as int;
        let later = s.skip(n);
        let none = Seq::<char>::empty();
        if piece_kind(s) is Plain && s[0] == ';' {
            statements_from_front(later, none);
            first_statement_is_not_cut(later);
            assert(none + first_statement(later) =~= first_statement(later));
            assert(cur + first_statement(s) =~= cur);
            let next = statements_from(later, none);
            assert forall|i: int| 0 <= i < list.len() implies (#[trigger] list[i] == cur
                + first_statement(s) || !has_cut(list[i])) by {
                if i > 0 {
                    assert(list[i] == next[i - 1]);
                }
            }
        } else {
            let part = if piece_kind(s) is BlockComment {
                " "@
            } else {
                s.take(n)
            };
            assert(piece_kind(s) is Plain ==> cur.push(s[0]) =~= cur + part);
            assert(piece_kind(s) is BlockComment ==> cur.push(' ') =~= cur + part);
            statements_from_front(later, cur + part);
            assert(list == statements_from(later, cur + part));
            assert(first_statement(s) == part + first_statement(later));
            assert(cur + part + first_statement(later) =~= cur + (part + first_statement(later)));
        }
    }
}

/// No statement of SQL text holds a semicolon outside its strings and comments.
pub proof fn statements_are_not_cut(s: Seq<char>, i: int)
    requires
        0 <= i < statements(s).len(),
    ensures
        !has_cut(statements(s)[i]),
{
    statements_from_front(s, Seq::empty());
    first_statement_is_not_cut(s);
    assert(Seq::<char>::empty() + first_statement(s) =~= first_statement(s));
}

/// What has been read of the last token at the end of a text.
spec fn left_open(s: Seq<char>, cur: Seq<char>) -> Seq<char>
    decreases s.len(),
{
    if s.len() == 0 {
        cur
    } else {
        proof {
            piece_len_bound(s);
        }
        let rest = s.skip(piece_len(s) as int);
        match piece_kind(s) {
            Piece::Quoted => left_open(rest, cur + s.take(piece_len(s) as int)),
            Piece::Plain => if is_white(s[0]) {
                left_open(rest, Seq::empty())
            } else {
                left_open(rest, cur.push(s[0]))
            },
            _ => left_open(rest, Seq::empty()),
        }
    }
}

/// The tokens that are over at the end of a text.
spec fn over(s: Seq<char>, cur: Seq<char>) -> Seq<Seq<char>>
    decreases s.len(),
{
    if s.len() == 0 {
        Seq::empty()
    } else {
        proof {
            piece_len_bound(s);
        }
        let rest = s.skip(piece_len(s) as int);
        match piece_kind(s) {
            Piece::Quoted => over(rest, cur + s.take(piece_len(s) as int)),
            Piece::Plain => if is_white(s[0]) {
                token(cur) + over(rest, Seq::empty())
            } else {
                over(rest, cur.push(s[0]))
            },
            _ => token(cur) + over(rest, Seq::empty()),
        }
    }
}

/// The tokens of a text that goes on behind whole pieces.
proof fn tokens_go_on(s: Seq<char>, later: Seq<char>, cur: Seq<char>)
    requires
        whole_pieces(s),
        parts_from(s, later),
    ensures
        tokens_from(s + later, cur) == over(s, cur) + tokens_from(later, left_open(s, cur)),
    decreases s.len(),
{
    if s.len() == 0 {
        assert(s + later =~= later);
        assert(over(s, cur) + tokens_from(later, cur) =~= tokens_from(later, cur));
    } else {
        piece_len_bound(s);
        piece_goes_on(s, later);
        let n = piece_len(s) as int;
        let all = s + later;
        assert(all.skip(n) =~= s.skip(n) + later);
        assert(all.take(n) =~= s.take(n));
        let next = match piece_kind(s) {
            Piece::Quoted => cur + s.take(n),
            Piece::Plain => if is_white(s[0]) {
                Seq::empty()
            } else {
                cur.push(s[0])
            },
            _ => Seq::empty(),
        };
        tokens_go_on(s.skip(n), later, next);
        let rest = tokens_from(later, left_open(s.skip(n), next));
        assert(token(cur) + (over(s.skip(n), next) + rest) =~= token(cur) + over(s.skip(n), next)
            + rest);
    }
}

/// Spacing and comments, whole: nothing that is left in normal SQL text.
pub open spec fn is_gap(s: Seq<char>) -> bool
    decreases s.len(),
{
    s.len() == 0 || {
        proof {
            piece_len_bound(s);
        }
        &&& whole_piece(s)
        &&& piece_kind(s) is LineComment || piece_kind(s) is BlockComment || is_white(s[0])
        &&& is_gap(s.skip(piece_len(s) as int))
    }
}

proof fn gap_ends_token(gap: Seq<char>, later: Seq<char>, cur: Seq<char>)
    requires
        is_gap(gap),
        gap.len() > 0,
    ensures
        tokens_from(gap + later, cur) == token(cur) + tokens_from(later, Seq::empty()),
    decreases gap.len(),
{
    piece_len_bound(gap);
    let n = piece_len(gap) as int;
    let rest = gap.skip(n);
    let none = Seq::<char>::empty();
    gap_piece_goes_on(gap, later);
    assert((gap + later).skip(n) =~= rest + later);
    if rest.len() == 0 {
        assert(rest + later =~= later);
    } else {
        gap_ends_token(rest, later, none);
        assert(token(none) + tokens_from(later, none) =~= tokens_from(later, none));
    }
}

/// How SQL text is spaced and what its comments say does not change its normal
/// form: behind whole pieces, one gap is as good as another.
pub proof fn gaps_are_alike(
    start: Seq<char>,
    gap: Seq<char>,
    other_gap: Seq<char>,
    end: Seq<char>,
)
    requires
        whole_pieces(start),
        is_gap(gap),
        is_gap(other_gap),
        gap.len() > 0,
        other_gap.len() > 0,
        parts_from(start, gap),
        parts_from(start, other_gap),
    ensures
        normal(start + gap + end) == normal(start + other_gap + end),
{
    let none = Seq::<char>::empty();
    assert(start + gap + end =~= start + (gap + end));
    assert(start + other_gap + end =~= start + (other_gap + end));
    tokens_go_on(start, gap + end, none);
    tokens_go_on(start, other_gap + end, none);
    gap_ends_token(gap, end, left_open(start, none));
    gap_ends_token(other_gap, end, left_open(start, none));
}

/// Gaps at either end of SQL text do not change its normal form.
pub proof fn gaps_at_the_ends_do_not_count(gap: Seq<char>, s: Seq<char>, end_gap: Seq<char>)
    requires
        is_gap(gap),
        is_gap(end_gap),
        end_gap.len() > 0 ==> whole_pieces(s) && parts_from(s, end_gap),
    ensures
        normal(gap + s + end_gap) == normal(s),
{
    let none = Seq::<char>::empty();
    assert(gap + s + end_gap =~= gap + (s + end_gap));
    if gap.len() > 0 {
        gap_ends_token(gap, s + end_gap, none);
        assert(token(none) + tokens_from(s + end_gap, none) =~= tokens_from(s + end_gap, none));
    } else {
        assert(gap + (s + end_gap) =~= s + end_gap);
    }
    if end_gap.len() > 0 {
        tokens_go_on(s, end_gap, none);
        gap_ends_token(end_gap, none, left_open(s, none));
        assert(end_gap + none =~= end_gap);
        assert(token(left_open(s, none)) + tokens_from(none, none) =~= token(left_open(s, none)));
        tokens_end(s, none);
    } else {
        assert(s + end_gap =~= s);
    }
}

proof fn tokens_end(s: Seq<char>, cur: Seq<char>)
    ensures
        tokens_from(s, cur) == over(s, cur) + token(left_open(s, cur)),
    decreases s.len(),
{
    if s.len() == 0 {
        assert(over(s, cur) + token(cur) =~= token(cur));
    } else {
        piece_len_bound(s);
        let n = piece_len(s) as int;
        let next = match piece_kind(s) {
            Piece::Quoted => cur + s.take(n),
            Piece::Plain => if is_white(s[0]) {
                Seq::empty()
            } else {
                cur.push(s[0])
            },
            _ => Seq::empty(),
        };
        tokens_end(s.skip(n), next);
        let rest = token(left_open(s.skip(n), next));
        assert(token(cur) + (over(s.skip(n), next) + rest) =~= token(cur) + over(s.skip(n), next)
            + rest);
    }
}

/// A quoted string of a text is not closed.
pub open spec fn leaves_quote_open(s: Seq<char>) -> bool
    decreases s.len(),
{
    s.len() > 0 && {
        proof {
            piece_len_bound(s);
        }
        (piece_kind(s) is Quoted && !whole_piece(s)) || leaves_quote_open(
            s.skip(piece_len(s) as int),
        )
    }
}

proof fn white_space_has_no_tokens(space: Seq<char>, cur: Seq<char>)
    requires
        forall|i: int| 0 <= i < space.len() ==> is_white(#[trigger] space[i]),
    ensures
        tokens_from(space, cur) == token(cur),
    decreases space.len(),
{
    if space.len() > 0 {
        assert(is_white(space[0]));
        white_space_has_no_tokens(space.skip(1), Seq::empty());
        assert(token(cur) + token(Seq::empty()) =~= token(cur));
    }
}

proof fn open_line_goes_on(s: Seq<char>, later: Seq<char>)
    requires
        !line_closes(s),
    ensures
        line_len(s) == s.len(),
        line_len(s + later) >= s.len(),
    decreases s.len(),
{
    if s.len() > 0 {
        open_line_goes_on(s.skip(1), later);
        assert((s + later).skip(1) =~= s.skip(1) + later);
    }
}

proof fn open_block_goes_on(s: Seq<char>, later: Seq<char>)
    requires
        !block_closes(s),
        later.len() > 0 ==> later[0] != '/',
    ensures
        block_len(s) == s.len(),
        block_len(s + later) >= s.len(),
    decreases s.len(),
{
    if s.len() > 0 {
        let all = s + later;
        open_block_goes_on(s.skip(1), later);
        assert(all.skip(1) =~= s.skip(1) + later);
        assert(s.len() > 1 ==> all[1] == s[1]);
        assert(s.len() == 1 && later.len() > 0 ==> all[1] == later[0]);
    }
}

proof fn tokens_before_white_space(s: Seq<char>, space: Seq<char>, cur: Seq<char>)
    requires
        forall|i: int| 0 <= i < space.len() ==> is_white(#[trigger] space[i]),
        space.len() > 0,
        !leaves_quote_open(s),
    ensures
        tokens_from(s + space, cur) == tokens_from(s, cur),
    decreases s.len(),
{
    let all = s + space;
    assert(is_white(space[0]));
    if s.len() == 0 {
        assert(all =~= space);
        white_space_has_no_tokens(space, cur);
    } else {
        piece_len_bound(s);
        piece_len_bound(all);
        let n = piece_len(s) as int;
        if whole_piece(s) {
            piece_goes_on(s, space);
            assert(all.skip(n) =~= s.skip(n) + space);
            assert(all.take(n) =~= s.take(n));
            let next = match piece_kind(s) {
                Piece::Quoted => cur + s.take(n),
                Piece::Plain => if is_white(s[0]) {
                    Seq::empty()
                } else {
                    cur.push(s[0])
                },
                _ => Seq::empty(),
            };
            tokens_before_white_space(s.skip(n), space, next);
        } else {
            assert(all[0] == s[0] && all[1] == s[1]);
            assert(all.skip(2) =~= s.skip(2) + space);
            assert(piece_kind(all) == piece_kind(s));
            if piece_kind(s) is LineComment {
                open_line_goes_on(s.skip(2), space);
            } else {
                open_block_goes_on(s.skip(2), space);
            }
            let m = piece_len(all) as int;
            let rest = all.skip(m);
            assert forall|i: int| 0 <= i < rest.len() implies is_white(#[trigger] rest[i]) by {
                assert(rest[i] == space[m + i - s.len()]);
            }
            white_space_has_no_tokens(rest, Seq::empty());
            assert(s.skip(n) =~= Seq::<char>::empty());
            assert(tokens_from(all, cur) == token(cur) + tokens_from(rest, Seq::empty()));
            assert(tokens_from(s, cur) == token(cur) + tokens_from(s.skip(n), Seq::empty()));
        }
    }
}

/// White space at the end of SQL text does not change its normal form, unless
/// the text leaves a string open.
pub proof fn white_space_at_the_end_does_not_count(s: Seq<char>, space: Seq<char>)
    requires
        forall|i: int| 0 <= i < space.len() ==> is_white(#[trigger] space[i]),
        !leaves_quote_open(s),
    ensures
        normal(s + space) == normal(s),
{
    if space.len() > 0 {
        tokens_before_white_space(s, space, Seq::empty());
    } else {
        assert(s + space =~= s);
    }
}

/// SQL text without a gap, of whole pieces but perhaps the last.
spec fn is_solid(s: Seq<char>, whole: bool) -> bool
    decreases s.len(),
{
    s.len() == 0 || {
        proof {
            piece_len_bound(s);
        }
        &&& piece_kind(s) is Quoted || (piece_kind(s) is Plain && !is_white(s[0]))
        &&& whole ==> whole_piece(s)
        &&& is_solid(s.skip(piece_len(s) as int), whole)
    }
}

/// What can be the tokens of a text.
spec fn are_tokens(list: Seq<Seq<char>>) -> bool {
    &&& forall|i: int| 0 <= i < list.len() ==> is_solid(#[trigger] list[i], false) && list[i].len()
        > 0
    &&& forall|i: int| 0 <= i < list.len() - 1 ==> is_solid(#[trigger] list[i], true)
}

/// What of a text belongs to its first token, and what comes behind it.
spec fn first_token(s: Seq<char>) -> (Seq<char>, Seq<char>)
    decreases s.len(),
{
    if s.len() == 0 {
        (Seq::empty(), Seq::empty())
    } else {
        proof {
            piece_len_bound(s);
        }
        let n = piece_len(s) as int;
        if piece_kind(s) is Quoted || (piece_kind(s) is Plain && !is_white(s[0])) {
            (s.take(n) + first_token(s.skip(n)).0, first_token(s.skip(n)).1)
        } else {
            (Seq::empty(), s)
        }
    }
}

proof fn quote_is_whole(s: Seq<char>, later: Seq<char>)
    requires
        quoted_len(s) < s.len(),
        later.len() > 0 ==> later[0] != '\'',
    ensures
        quote_closes(s.take(quoted_len(s) as int) + later),
    decreases s.len(),
{
    quoted_len_bound(s);
    let n = quoted_len(s) as int;
    let all = s.take(n) + later;
    if s[0] != '\'' {
        quote_is_whole(s.skip(1), later);
        assert(all.skip(1) =~= s.skip(1).take(n - 1) + later);
    } else if s.len() > 1 && s[1] == '\'' {
        quote_is_whole(s.skip(2), later);
        quoted_len_bound(s.skip(2));
        assert(all.skip(2) =~= s.skip(2).take(n - 2) + later);
    } else {
        assert(all.len() > 1 ==> all[1] == later[0]);
    }
}

proof fn first_token_is_solid(s: Seq<char>)
    ensures
        is_solid(first_token(s).0, false),
        first_token(s).1.len() > 0 ==> is_solid(first_token(s).0, true),
        first_token(s).0.len() > 0 ==> s.len() > 0 && first_token(s).0[0] == s[0],
        first_token(s).0.len() + first_token(s).1.len() == s.len(),
    decreases s.len(),
{
    if s.len() > 0 {
        piece_len_bound(s);
        let n = piece_len(s) as int;
        if piece_kind(s) is Quoted || (piece_kind(s) is Plain && !is_white(s[0])) {
            let rest = first_token(s.skip(n)).0;
            first_token_is_solid(s.skip(n));
            piece_stays(s, rest);
            let all = s.take(n) + rest;
            assert(all.skip(n) =~= rest);
            if piece_kind(s) is Quoted && n < s.len() {
                quoted_len_alone(s.skip(1), Seq::empty());
                assert(s.skip(1)[n - 1] == s.skip(n)[0]);
                quote_is_whole(s.skip(1), rest);
                assert(all.skip(1) =~= s.skip(1).take(n - 1) + rest);
            }
        }
    }
}

proof fn tokens_from_front(s: Seq<char>, cur: Seq<char>)
    ensures
        tokens_from(s, cur) == token(cur + first_token(s).0) + tokens_from(
            first_token(s).1,
            Seq::empty(),
        ),
    decreases s.len(),
{
    let none = Seq::<char>::empty();
    if s.len() == 0 {
        assert(cur + none =~= cur);
        assert(token(cur) + token(none) =~= token(cur));
    } else {
        piece_len_bound(s);
        let n = piece_len(s) as int;
        if piece_kind(s) is Quoted || (piece_kind(s) is Plain && !is_white(s[0])) {
            assert(piece_kind(s) is Plain ==> cur.push(s[0]) =~= cur + s.take(n));
            tokens_from_front(s.skip(n), cur + s.take(n));
            assert(cur + s.take(n) + first_token(s.skip(n)).0 =~= cur + first_token(s).0);
        } else {
            assert(cur + none =~= cur);
            let rest = tokens_from(s.skip(n), none);
            assert(token(none) + rest =~= rest);
        }
    }
}

proof fn tokens_are_tokens(s: Seq<char>)
    ensures
        are_tokens(tokens_from(s, Seq::empty())),
    decreases s.len(),
{
    let none = Seq::<char>::empty();
    if s.len() > 0 {
        tokens_from_front(s, none);
        first_token_is_solid(s);
        let (first, behind) = first_token(s);
        assert(none + first =~= first);
        let list = tokens_from(s, none);
        if first.len() == 0 {
            piece_len_bound(s);
            let n = piece_len(s) as int;
            tokens_are_tokens(s.skip(n));
            assert(token(none) + tokens_from(s.skip(n), none) =~= tokens_from(s.skip(n), none));
        } else {
            tokens_are_tokens(behind);
            let rest = tokens_from(behind, none);
            assert forall|i: int| 0 <= i < list.len() implies is_solid(#[trigger] list[i], false)
                && list[i].len() > 0 by {
                if i > 0 {
                    assert(list[i] == rest[i - 1]);
                }
            }
            assert forall|i: int| 0 <= i < list.len() - 1 implies is_solid(
                #[trigger] list[i],
                true,
            ) by {
                if i > 0 {
                    assert(list[i] == rest[i - 1]);
                } else {
                    assert(behind.len() > 0);
                }
            }
        }
    }
}

proof fn fewer_tokens_are_tokens(list: Seq<Seq<char>>)
    requires
        are_tokens(list),
    ensures
        are_tokens(without_if_not_exists(list)),
        without_if_not_exists(list).len() <= list.len(),
    decreases list.len(),
{
    if list.len() > 0 {
        let out = without_if_not_exists(list);
        if list.len() > 2 {
            fewer_tokens_are_tokens(list.skip(3));
        }
        fewer_tokens_are_tokens(list.skip(1));
        let rest = without_if_not_exists(list.skip(1));
        if out == seq![list[0]] + rest {
            assert forall|i: int| 0 <= i < out.len() implies is_solid(#[trigger] out[i], false)
                && out[i].len() > 0 by {
                if i > 0 {
                    assert(out[i] == rest[i - 1]);
                }
            }
            assert forall|i: int| 0 <= i < out.len() - 1 implies is_solid(
                #[trigger] out[i],
                true,
            ) by {
                if i > 0 {
                    assert(out[i] == rest[i - 1]);
                } else {
                    assert(out[0] == list[0]);
                }
            }
        }
    }
}

proof fn solid_stays_open(s: Seq<char>, cur: Seq<char>)
    requires
        is_solid(s, false),
    ensures
        over(s, cur) == Seq::<Seq<char>>::empty(),
        left_open(s, cur) == cur + s,
    decreases s.len(),
{
    if s.len() == 0 {
        assert(cur + s =~= cur);
    } else {
        piece_len_bound(s);
        let n = piece_len(s) as int;
        assert(piece_kind(s) is Plain ==> cur.push(s[0]) =~= cur + s.take(n));
        solid_stays_open(s.skip(n), cur + s.take(n));
        assert(cur + s.take(n) + s.skip(n) =~= cur + s);
    }
}

proof fn solid_is_whole(s: Seq<char>)
    requires
        is_solid(s, true),
    ensures
        is_solid(s, false),
        whole_pieces(s),
    decreases s.len(),
{
    if s.len() > 0 {
        piece_len_bound(s);
        solid_is_whole(s.skip(piece_len(s) as int));
    }
}

proof fn joined_tokens_are_read_back(list: Seq<Seq<char>>)
    requires
        are_tokens(list),
    ensures
        tokens_from(join(list, " "@), Seq::empty()) == list,
    decreases list.len(),
{
    reveal_strlit(" ");
    let none = Seq::<char>::empty();
    if list.len() == 0 {
    } else if list.len() == 1 {
        let first = list[0];
        assert(is_solid(first, false));
        tokens_end(first, none);
        solid_stays_open(first, none);
        assert(none + first =~= first);
        assert(Seq::<Seq<char>>::empty() + token(first) =~= list);
    } else {
        let first = list[0];
        let rest = list.skip(1);
        assert(list =~= seq![first] + rest);
        join_from_front(first, rest, " "@);
        let later = " "@ + join(rest, " "@);
        assert(first + " "@ + join(rest, " "@) =~= first + later);
        assert(is_solid(first, true) && first.len() > 0);
        solid_is_whole(first);
        tokens_go_on(first, later, none);
        solid_stays_open(first, none);
        assert(none + first =~= first);
        assert(is_gap(" "@.skip(1)));
        gap_ends_token(" "@, join(rest, " "@), first);
        joined_tokens_are_read_back(rest);
        assert(Seq::<Seq<char>>::empty() + (token(first) + rest) =~= list);
    }
}

/// The tokens that are left of SQL text in its normal form.
pub open spec fn normal_tokens(s: Seq<char>) -> Seq<Seq<char>> {
    without_if_not_exists(tokens_from(s, Seq::empty()))
}

/// The normal form of SQL text has the tokens that were left of the text.
pub proof fn normal_form_keeps_its_tokens(s: Seq<char>)
    ensures
        tokens_from(normal(s), Seq::empty()) == normal_tokens(s),
{
    tokens_are_tokens(s);
    fewer_tokens_are_tokens(tokens_from(s, Seq::empty()));
    joined_tokens_are_read_back(normal_tokens(s));
}

/// The normal form of SQL text is its own normal form, where taking out
/// `IF NOT EXISTS` does not make another one of what stood around it.
pub proof fn normal_form_is_its_own(s: Seq<char>)
    requires
        without_if_not_exists(normal_tokens(s)) == normal_tokens(s),
    ensures
        normal(normal(s)) == normal(s),
{
    normal_form_keeps_its_tokens(s);
}

proof fn nothing_to_take_out(list: Seq<Seq<char>>)
    requires
        forall|i: int| 0 <= i < list.len() ==> lower_text(#[trigger] list[i]) != "exists"@,
    ensures
        without_if_not_exists(list) == list,
    decreases list.len(),
{
    if list.len() > 0 {
        let rest = list.skip(1);
        assert forall|i: int| 0 <= i < rest.len() implies lower_text(#[trigger] rest[i])
            != "exists"@ by {
            assert(rest[i] == list[i + 1]);
        }
        nothing_to_take_out(rest);
        assert(seq![list[0]] + rest =~= list);
    }
}

/// The normal form of SQL text without the word `EXISTS` is its own normal
/// form.
pub proof fn normal_form_without_conditions_is_its_own(s: Seq<char>)
    requires
        forall|i: int|
            0 <= i < tokens_from(s, Seq::empty()).len() ==> lower_text(
                #[trigger] tokens_from(s, Seq::empty())[i],
            ) != "exists"@,
    ensures
        normal(normal(s)) == normal(s),
{
    nothing_to_take_out(tokens_from(s, Seq::empty()));
    normal_form_is_its_own(s);
}

/// Outside its strings SQL text holds no comment, no white space but a space,
/// no two spaces in a row and none at its end; nor does it start with one
/// where it stands behind a space.
pub open spec fn is_tidy(s: Seq<char>, behind_space: bool) -> bool
    decreases s.len(),
{
    if s.len() == 0 {
        !behind_space
    } else {
        proof {
            piece_len_bound(s);
        }
        let rest = s.skip(piece_len(s) as int);
        match piece_kind(s) {
            Piece::Quoted => is_tidy(rest, false),
            Piece::Plain => if is_white(s[0]) {
                s[0] == ' ' && !behind_space && is_tidy(rest, true)
            } else {
                is_tidy(rest, false)
            },
            _ => false,
        }
    }
}

proof fn solid_text_is_tidy(s: Seq<char>, behind_space: bool)
    requires
        is_solid(s, false),
        s.len() > 0 || !behind_space,
    ensures
        is_tidy(s, behind_space),
    decreases s.len(),
{
    if s.len() > 0 {
        piece_len_bound(s);
        solid_text_is_tidy(s.skip(piece_len(s) as int), false);
    }
}

proof fn solid_text_goes_on(s: Seq<char>, later: Seq<char>, behind_space: bool)
    requires
        is_solid(s, true),
        s.len() > 0 || !behind_space,
        parts_from(s, later),
        is_tidy(later, false),
    ensures
        is_tidy(s + later, behind_space),
    decreases s.len(),
{
    if s.len() == 0 {
        assert(s + later =~= later);
    } else {
        piece_len_bound(s);
        let n = piece_len(s) as int;
        piece_goes_on(s, later);
        assert((s + later).skip(n) =~= s.skip(n) + later);
        solid_text_goes_on(s.skip(n), later, false);
    }
}

proof fn joined_tokens_are_tidy(list: Seq<Seq<char>>)
    requires
        are_tokens(list),
        list.len() > 0,
    ensures
        is_tidy(join(list, " "@), true),
    decreases list.len(),
{
    reveal_strlit(" ");
    let first = list[0];
    assert(is_solid(first, false) && first.len() > 0);
    if list.len() == 1 {
        solid_text_is_tidy(first, true);
    } else {
        let rest = list.skip(1);
        assert(list =~= seq![first] + rest);
        join_from_front(first, rest, " "@);
        joined_tokens_are_tidy(rest);
        let later = " "@ + join(rest, " "@);
        assert(first + " "@ + join(rest, " "@) =~= first + later);
        assert(later.skip(1) =~= join(rest, " "@));
        assert(is_solid(first, true));
        solid_text_goes_on(first, later, true);
    }
}

/// The normal form of SQL text neither starts nor ends with white space and,
/// outside its strings, holds no comment and no two spaces in a row.
pub proof fn normal_form_is_tidy(s: Seq<char>)
    ensures
        normal(s).len() == 0 || is_tidy(normal(s), true),
{
    tokens_are_tokens(s);
    fewer_tokens_are_tokens(tokens_from(s, Seq::empty()));
    if normal_tokens(s).len() > 0 {
        joined_tokens_are_tidy(normal_tokens(s));
    }
}

/// Parts of SQL text, each with the gap behind it.
pub open spec fn with_gaps(parts: Seq<Seq<char>>, gaps: Seq<Seq<char>>) -> Seq<char>
    decreases parts.len(),
{
    if parts.len() == 0 {
        Seq::empty()
    } else {
        parts[0] + (gaps[0] + with_gaps(parts.skip(1), gaps.skip(1)))
    }
}

/// Between any two parts stands a gap, and behind the last there may be one. A
/// part that a gap stands behind is of whole pieces, and none of them runs on
/// into the gap.
pub open spec fn are_gaps_of(parts: Seq<Seq<char>>, gaps: Seq<Seq<char>>) -> bool {
    &&& gaps.len() == parts.len()
    &&& forall|i: int| 0 <= i < gaps.len() ==> is_gap(#[trigger] gaps[i])
    &&& forall|i: int| 0 <= i < gaps.len() - 1 ==> (#[trigger] gaps[i]).len() > 0
    &&& forall|i: int|
        0 <= i < gaps.len() && (#[trigger] gaps[i]).len() > 0 ==> whole_pieces(parts[i])
            && parts_from(parts[i], gaps[i])
}

/// The tokens of parts that gaps stand between.
spec fn tokens_of_parts(parts: Seq<Seq<char>>) -> Seq<Seq<char>>
    decreases parts.len(),
{
    if parts.len() == 0 {
        Seq::empty()
    } else {
        tokens_from(parts[0], Seq::empty()) + tokens_of_parts(parts.skip(1))
    }
}

proof fn gaps_make_the_tokens(parts: Seq<Seq<char>>, gaps: Seq<Seq<char>>)
    requires
        are_gaps_of(parts, gaps),
    ensures
        tokens_from(with_gaps(parts, gaps), Seq::empty()) == tokens_of_parts(parts),
    decreases parts.len(),
{
    let none = Seq::<char>::empty();
    if parts.len() > 0 {
        let part = parts[0];
        let gap = gaps[0];
        let rest_parts = parts.skip(1);
        let rest_gaps = gaps.skip(1);
        let rest = with_gaps(rest_parts, rest_gaps);
        assert(are_gaps_of(rest_parts, rest_gaps)) by {
            assert forall|i: int| 0 <= i < rest_gaps.len() implies #[trigger] rest_gaps[i]
                == gaps[i + 1] && rest_parts[i] == parts[i + 1] by {}
        }
        gaps_make_the_tokens(rest_parts, rest_gaps);
        tokens_end(part, none);
        if gap.len() > 0 {
            assert((gap + rest)[0] == gap[0]);
            tokens_go_on(part, gap + rest, none);
            gap_ends_token(gap, rest, left_open(part, none));
            assert(over(part, none) + (token(left_open(part, none)) + tokens_from(rest, none))
                =~= over(part, none) + token(left_open(part, none)) + tokens_from(rest, none));
        } else {
            assert(rest_parts.len() == 0);
            assert(part + (gap + rest) =~= part);
            assert(tokens_from(part, none) + Seq::<Seq<char>>::empty() =~= tokens_from(
                part,
                none,
            ));
        }
    }
}

/// SQL texts that differ only in their gaps have one normal form: any gaps
/// between the same parts may stand for others, and gaps at either end may come
/// and go. The normal form is tidy and, where no condition is left in it, its
/// own normal form.
pub proof fn texts_that_differ_in_gaps_have_one_normal_form(
    start: Seq<char>,
    other_start: Seq<char>,
    parts: Seq<Seq<char>>,
    gaps: Seq<Seq<char>>,
    other_gaps: Seq<Seq<char>>,
)
    requires
        is_gap(start),
        is_gap(other_start),
        are_gaps_of(parts, gaps),
        are_gaps_of(parts, other_gaps),
    ensures
        ({
            let a = start + with_gaps(parts, gaps);
            let b = other_start + with_gaps(parts, other_gaps);
            &&& normal(a) == normal(b)
            &&& normal(a).len() == 0 || is_tidy(normal(a), true)
            &&& without_if_not_exists(normal_tokens(a)) == normal_tokens(a) ==> normal(normal(a))
                == normal(a)
        }),
{
    let none = Seq::<char>::empty();
    let a = with_gaps(parts, gaps);
    let b = with_gaps(parts, other_gaps);
    gaps_make_the_tokens(parts, gaps);
    gaps_make_the_tokens(parts, other_gaps);
    assert(start + a + none =~= start + a);
    assert(other_start + b + none =~= other_start + b);
    gaps_at_the_ends_do_not_count(start, a, none);
    gaps_at_the_ends_do_not_count(other_start, b, none);
    normal_form_is_tidy(start + a);
    if without_if_not_exists(normal_tokens(start + a)) == normal_tokens(start + a) {
        normal_form_is_its_own(start + a);
    }
}

} // verus!
