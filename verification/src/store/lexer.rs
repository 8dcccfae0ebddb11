//! SQL text cut into quoted strings, comments and single characters.

use crate::text::is_white;
use vstd::prelude::*;

verus! {

/// What a piece of SQL text is.
#[derive(Debug, Clone, Copy, PartialEq, Eq, Structural)]
pub enum Piece {
    /// A string in single quotes; a doubled quote stands within it.
    Quoted,
    /// A comment from `--` to the end of its line.
    LineComment,
    /// A comment from `/*` to `*/`.
    BlockComment,
    /// Any other character.
    Plain,
}

/// How long a quoted string is after its opening quote; one that never closes
/// goes on to the end.
pub open spec fn quoted_len(s: Seq<char>) -> nat
    decreases s.len(),
{
    if s.len() == 0 {
        0
    } else if s[0] != '\'' {
        1 + quoted_len(s.skip(1))
    } else if s.len() > 1 && s[1] == '\'' {
        2 + quoted_len(s.skip(2))
    } else {
        1
    }
}

/// How long the rest of a line is, with the line feed that ends it.
pub open spec fn line_len(s: Seq<char>) -> nat
    decreases s.len(),
{
    if s.len() == 0 {
        0
    } else if s[0] == '\n' {
        1
    } else {
        1 + line_len(s.skip(1))
    }
}

/// How long a block comment is after its opening mark, with its closing mark;
/// one that never closes goes on to the end.
pub open spec fn block_len(s: Seq<char>) -> nat
    decreases s.len(),
{
    if s.len() == 0 {
        0
    } else if s.len() > 1 && s[0] == '*' && s[1] == '/' {
        2
    } else {
        1 + block_len(s.skip(1))
    }
}

/// The piece that a text starts with.
pub open spec fn piece_kind(s: Seq<char>) -> Piece {
    if s[0] == '\'' {
        Piece::Quoted
    } else if s.len() > 1 && s[0] == '-' && s[1] == '-' {
        Piece::LineComment
    } else if s.len() > 1 && s[0] == '/' && s[1] == '*' {
        Piece::BlockComment
    } else {
        Piece::Plain
    }
}

/// How long the piece is that a text starts with.
pub open spec fn piece_len(s: Seq<char>) -> nat {
    match piece_kind(s) {
        Piece::Quoted => 1 + quoted_len(s.skip(1)),
        Piece::LineComment => 2 + line_len(s.skip(2)),
        Piece::BlockComment => 2 + block_len(s.skip(2)),
        Piece::Plain => 1,
    }
}

pub proof fn quoted_len_bound(s: Seq<char>)
    ensures
        quoted_len(s) <= s.len(),
    decreases s.len(),
{
    if s.len() > 0 {
        if s[0] != '\'' {
            quoted_len_bound(s.skip(1));
        } else if s.len() > 1 && s[1] == '\'' {
            quoted_len_bound(s.skip(2));
        }
    }
}

pub proof fn line_len_bound(s: Seq<char>)
    ensures
        line_len(s) <= s.len(),
    decreases s.len(),
{
    if s.len() > 0 {
        line_len_bound(s.skip(1));
    }
}

pub proof fn block_len_bound(s: Seq<char>)
    ensures
        block_len(s) <= s.len(),
    decreases s.len(),
{
    if s.len() > 0 {
        block_len_bound(s.skip(1));
    }
}

pub proof fn piece_len_bound(s: Seq<char>)
    requires
        s.len() > 0,
    ensures
        0 < piece_len(s) <= s.len(),
{
    quoted_len_bound(s.skip(1));
    if s.len() > 1 {
        line_len_bound(s.skip(2));
        block_len_bound(s.skip(2));
    }
}

/// A quoted string closes, as far as it is given after its opening quote.
pub open spec fn quote_closes(s: Seq<char>) -> bool
    decreases s.len(),
{
    if s.len() == 0 {
        false
    } else if s[0] != '\'' {
        quote_closes(s.skip(1))
    } else if s.len() > 1 && s[1] == '\'' {
        quote_closes(s.skip(2))
    } else {
        true
    }
}

/// A line ends, as far as it is given.
pub open spec fn line_closes(s: Seq<char>) -> bool
    decreases s.len(),
{
    s.len() > 0 && (s[0] == '\n' || line_closes(s.skip(1)))
}

/// A block comment closes, as far as it is given after its opening mark.
pub open spec fn block_closes(s: Seq<char>) -> bool
    decreases s.len(),
{
    s.len() > 1 && ((s[0] == '*' && s[1] == '/') || block_closes(s.skip(1)))
}

/// The piece that a text starts with is given whole.
pub open spec fn whole_piece(s: Seq<char>) -> bool {
    match piece_kind(s) {
        Piece::Quoted => quote_closes(s.skip(1)),
        Piece::LineComment => line_closes(s.skip(2)),
        Piece::BlockComment => block_closes(s.skip(2)),
        Piece::Plain => true,
    }
}

/// A text is made of whole pieces.
pub open spec fn whole_pieces(s: Seq<char>) -> bool
    decreases s.len(),
{
    s.len() == 0 || {
        proof {
            piece_len_bound(s);
        }
        whole_piece(s) && whole_pieces(s.skip(piece_len(s) as int))
    }
}

proof fn quoted_len_stays(s: Seq<char>, later: Seq<char>)
    requires
        quote_closes(s),
        later.len() > 0,
        later[0] != '\'',
    ensures
        quoted_len(s + later) == quoted_len(s),
    decreases s.len(),
{
    let all = s + later;
    if s[0] != '\'' {
        quoted_len_stays(s.skip(1), later);
        assert(all.skip(1) =~= s.skip(1) + later);
    } else if s.len() > 1 && s[1] == '\'' {
        quoted_len_stays(s.skip(2), later);
        assert(all.skip(2) =~= s.skip(2) + later);
    } else {
        assert(s.len() > 1 ==> all[1] == s[1]);
        assert(s.len() == 1 ==> all[1] == later[0]);
    }
}

proof fn line_len_stays(s: Seq<char>, later: Seq<char>)
    requires
        line_closes(s),
    ensures
        line_len(s + later) == line_len(s),
    decreases s.len(),
{
    if s[0] != '\n' {
        line_len_stays(s.skip(1), later);
        assert((s + later).skip(1) =~= s.skip(1) + later);
    }
}

proof fn block_len_stays(s: Seq<char>, later: Seq<char>)
    requires
        block_closes(s),
    ensures
        block_len(s + later) == block_len(s),
    decreases s.len(),
{
    assert((s + later)[1] == s[1]);
    if !(s[0] == '*' && s[1] == '/') {
        block_len_stays(s.skip(1), later);
        assert((s + later).skip(1) =~= s.skip(1) + later);
    }
}

/// No piece of a text runs on into what comes behind it.
pub open spec fn parts_from(s: Seq<char>, later: Seq<char>) -> bool {
    later.len() > 0 && later[0] != '\'' && later[0] != '*' && !(s.len() > 0 && s.last() == '-'
        && later[0] == '-')
}

/// A whole piece is the same piece where the text goes on with another.
pub proof fn piece_goes_on(s: Seq<char>, later: Seq<char>)
    requires
        s.len() > 0,
        whole_piece(s),
        parts_from(s, later),
    ensures
        piece_kind(s + later) == piece_kind(s),
        piece_len(s + later) == piece_len(s),
{
    let all = s + later;
    assert(all[0] == s[0]);
    assert(s.len() > 1 ==> all[1] == s[1]);
    assert(s.len() == 1 ==> all[1] == later[0]);
    match piece_kind(s) {
        Piece::Quoted => {
            quoted_len_stays(s.skip(1), later);
            assert(all.skip(1) =~= s.skip(1) + later);
        },
        Piece::LineComment => {
            line_len_stays(s.skip(2), later);
            assert(all.skip(2) =~= s.skip(2) + later);
        },
        Piece::BlockComment => {
            block_len_stays(s.skip(2), later);
            assert(all.skip(2) =~= s.skip(2) + later);
        },
        Piece::Plain => {},
    }
}

/// A whole comment or a space is the same piece whatever comes behind the text.
pub proof fn gap_piece_goes_on(s: Seq<char>, later: Seq<char>)
    requires
        s.len() > 0,
        whole_piece(s),
        piece_kind(s) is LineComment || piece_kind(s) is BlockComment || is_white(s[0]),
    ensures
        piece_kind(s + later) == piece_kind(s),
        piece_len(s + later) == piece_len(s),
        (s + later)[0] == s[0],
{
    let all = s + later;
    match piece_kind(s) {
        Piece::LineComment => {
            line_len_stays(s.skip(2), later);
            assert(all.skip(2) =~= s.skip(2) + later);
        },
        Piece::BlockComment => {
            block_len_stays(s.skip(2), later);
            assert(all.skip(2) =~= s.skip(2) + later);
        },
        _ => {},
    }
}

/// A quoted string is as long without what comes behind it, or with other text
/// that does not start with a quote.
pub proof fn quoted_len_alone(s: Seq<char>, later: Seq<char>)
    requires
        later.len() > 0 ==> later[0] != '\'' && quoted_len(s) < s.len(),
    ensures
        quoted_len(s.take(quoted_len(s) as int) + later) == quoted_len(s),
        quoted_len(s) < s.len() ==> s[quoted_len(s) as int] != '\'',
    decreases s.len(),
{
    quoted_len_bound(s);
    let n = quoted_len(s) as int;
    let all = s.take(n) + later;
    if s.len() > 0 {
        if s[0] != '\'' {
            quoted_len_alone(s.skip(1), later);
            assert(all.skip(1) =~= s.skip(1).take(n - 1) + later);
        } else if s.len() > 1 && s[1] == '\'' {
            quoted_len_alone(s.skip(2), later);
            quoted_len_bound(s.skip(2));
            assert(all.skip(2) =~= s.skip(2).take(n - 2) + later);
        } else {
            assert(all.len() > 1 ==> all[1] == later[0]);
        }
    } else {
        assert(all =~= s);
    }
}

/// A line is as long without what comes behind it, or with other text.
pub proof fn line_len_alone(s: Seq<char>, later: Seq<char>)
    requires
        later.len() > 0 ==> line_len(s) < s.len(),
    ensures
        line_len(s.take(line_len(s) as int) + later) == line_len(s),
    decreases s.len(),
{
    line_len_bound(s);
    let n = line_len(s) as int;
    let all = s.take(n) + later;
    if s.len() > 0 {
        if s[0] != '\n' {
            line_len_alone(s.skip(1), later);
            assert(all.skip(1) =~= s.skip(1).take(n - 1) + later);
        }
    } else {
        assert(all =~= s);
    }
}

fn quoted_end(s: &[char], from: usize) -> (r: usize)
    requires
        from <= s.len(),
    ensures
        r == from + quoted_len(s@.skip(from as int)),
        r <= s.len(),
{
    let mut i: usize = from;
    proof {
        quoted_len_bound(s@.skip(from as int));
    }
    while i < s.len()
        invariant
            from <= i <= s.len(),
            from + quoted_len(s@.skip(from as int)) == i + quoted_len(s@.skip(i as int)),
        decreases s.len() - i,
    {
        proof {
            let rest = s@.skip(i as int);
            assert(rest.skip(1) =~= s@.skip(i as int + 1));
            if rest.len() > 1 {
                assert(rest[1] == s@[i as int + 1]);
                assert(rest.skip(2) =~= s@.skip(i as int + 2));
            }
        }
        if s[i] != '\'' {
            i += 1;
        } else if s.len() - i > 1 && s[i + 1] == '\'' {
            i += 2;
        } else {
            return i + 1;
        }
    }
    i
}

fn line_end(s: &[char], from: usize) -> (r: usize)
    requires
        from <= s.len(),
    ensures
        r == from + line_len(s@.skip(from as int)),
        r <= s.len(),
{
    let mut i: usize = from;
    while i < s.len()
        invariant
            from <= i <= s.len(),
            from + line_len(s@.skip(from as int)) == i + line_len(s@.skip(i as int)),
        decreases s.len() - i,
    {
        proof {
            assert(s@.skip(i as int).skip(1) =~= s@.skip(i as int + 1));
        }
        if s[i] == '\n' {
            return i + 1;
        }
        i += 1;
    }
    i
}

fn block_end(s: &[char], from: usize) -> (r: usize)
    requires
        from <= s.len(),
    ensures
        r == from + block_len(s@.skip(from as int)),
        r <= s.len(),
{
    let mut i: usize = from;
    while i < s.len()
        invariant
            from <= i <= s.len(),
            from + block_len(s@.skip(from as int)) == i + block_len(s@.skip(i as int)),
        decreases s.len() - i,
    {
        proof {
            let rest = s@.skip(i as int);
            assert(rest.skip(1) =~= s@.skip(i as int + 1));
            if rest.len() > 1 {
                assert(rest[1] == s@[i as int + 1]);
            }
        }
        if s.len() - i > 1 && s[i] == '*' && s[i + 1] == '/' {
            return i + 2;
        }
        i += 1;
    }
    i
}

/// The piece that starts at a place of a text, and where it ends.
pub fn next_piece(s: &[char], from: usize) -> (r: (Piece, usize))
    requires
        from < s.len(),
    ensures
        r.0 == piece_kind(s@.skip(from as int)),
        r.1 == from + piece_len(s@.skip(from as int)),
        from < r.1 <= s.len(),
{
    proof {
        let rest = s@.skip(from as int);
        assert(rest.skip(1) =~= s@.skip(from as int + 1));
        if rest.len() > 1 {
            assert(rest[1] == s@[from as int + 1]);
            assert(rest.skip(2) =~= s@.skip(from as int + 2));
        }
    }
    if s[from] == '\'' {
        (Piece::Quoted, quoted_end(s, from + 1))
    } else if s.len() - from > 1 && s[from] == '-' && s[from + 1] == '-' {
        (Piece::LineComment, line_end(s, from + 2))
    } else if s.len() - from > 1 && s[from] == '/' && s[from + 1] == '*' {
        (Piece::BlockComment, block_end(s, from + 2))
    } else {
        (Piece::Plain, from + 1)
    }
}

} // verus!
