//! What holds of texts and numbers.

use crate::number::{all_digits, dec, dec_digits, dec_value_of_dec, int_text, is_digit, signed_value,
    unsigned_value};
use crate::text::{before, before_bound, is_white, join, lower_text, split, text_less, trim,
    trim_end, trim_start, word_len, word_len_bound, words};
use vstd::prelude::*;

verus! {

/// A whole number is read back from its notation.
pub proof fn whole_number_reads_back(n: int)
    ensures
        signed_value(int_text(n)) == Some(n),
        n >= 0 ==> unsigned_value(int_text(n)) == Some(n as nat),
{
    let m = if n < 0 {
        (-n) as nat
    } else {
        n as nat
    };
    let s = dec(m);
    dec_digits(m);
    dec_value_of_dec(m);
    assert(is_digit(s[0]));
    assert(all_digits(s));
    if n < 0 {
        let t = seq!['-'] + s;
        assert(t.skip(1) =~= s);
        assert(t[0] == '-');
    }
}

/// The first character in which two texts differ decides which comes first.
pub proof fn first_difference_decides(start: Seq<char>, x: char, a: Seq<char>, y: char, b: Seq<char>)
    requires
        x < y,
    ensures
        text_less(start + seq![x] + a, start + seq![y] + b),
        !text_less(start + seq![y] + b, start + seq![x] + a),
    decreases start.len(),
{
    let s = start + seq![x] + a;
    let t = start + seq![y] + b;
    if start.len() == 0 {
        assert(s[0] == x && t[0] == y);
    } else {
        first_difference_decides(start.skip(1), x, a, y, b);
        assert(s[0] == start[0] && t[0] == start[0]);
        assert(s.skip(1) =~= start.skip(1) + seq![x] + a);
        assert(t.skip(1) =~= start.skip(1) + seq![y] + b);
    }
}

/// A text comes before a longer one that starts with it.
pub proof fn shorter_text_comes_first(a: Seq<char>, b: Seq<char>)
    requires
        b.len() > 0,
    ensures
        text_less(a, a + b),
        !text_less(a + b, a),
    decreases a.len(),
{
    if a.len() == 0 {
        assert(a + b =~= b);
    } else {
        shorter_text_comes_first(a.skip(1), b);
        assert((a + b)[0] == a[0]);
        assert((a + b).skip(1) =~= a.skip(1) + b);
    }
}

proof fn join_from_the_front(first: Seq<char>, rest: Seq<Seq<char>>, sep: Seq<char>)
    requires
        rest.len() > 0,
    ensures
        join(seq![first] + rest, sep) == first + sep + join(rest, sep),
    decreases rest.len(),
{
    let all = seq![first] + rest;
    assert(all.last() == rest.last());
    assert(all.drop_last() =~= seq![first] + rest.drop_last());
    if rest.len() == 1 {
        assert(all.drop_last() =~= seq![first]);
        assert(join(all.drop_last(), sep) == first);
    } else {
        join_from_the_front(first, rest.drop_last(), sep);
        assert(first + sep + join(rest.drop_last(), sep) + sep + rest.last() =~= first + sep + (
        join(rest.drop_last(), sep) + sep + rest.last()));
    }
}

/// The pieces of a text hold no separator, and joined by it they are the text.
pub proof fn pieces_join_to_the_text(s: Seq<char>, c: char)
    ensures
        split(s, c).len() > 0,
        join(split(s, c), seq![c]) == s,
        forall|i: int| 0 <= i < split(s, c).len() ==> !(#[trigger] split(s, c)[i]).contains(c),
    decreases s.len(),
{
    before_bound(s, c);
    let n = before(s, c) as int;
    if n >= s.len() {
        assert(split(s, c) =~= seq![s]);
        assert(split(s, c)[0] == s);
    } else {
        let first = s.take(n);
        let rest = s.skip(n + 1);
        pieces_join_to_the_text(rest, c);
        join_from_the_front(first, split(rest, c), seq![c]);
        assert(first + seq![c] + rest =~= s);
        let all = seq![first] + split(rest, c);
        assert forall|i: int| 0 <= i < all.len() implies !(#[trigger] all[i]).contains(c) by {
            if i == 0 {
                if first.contains(c) {
                    let j = choose|j: int| 0 <= j < first.len() && first[j] == c;
                    assert(s[j] == c);
                }
            } else {
                assert(all[i] == split(rest, c)[i - 1]);
            }
        }
    }
}

/// A text is all white space.
pub open spec fn is_blank(s: Seq<char>) -> bool {
    forall|i: int| 0 <= i < s.len() ==> is_white(#[trigger] s[i])
}

proof fn start_is_cut(s: Seq<char>) -> (a: Seq<char>)
    ensures
        is_blank(a),
        s == a + trim_start(s),
        trim_start(s).len() > 0 ==> !is_white(trim_start(s)[0]),
    decreases s.len(),
{
    if s.len() > 0 && is_white(s[0]) {
        let rest = start_is_cut(s.skip(1));
        let a = seq![s[0]] + rest;
        let t = trim_start(s.skip(1));
        assert(s.skip(1) == rest + t);
        assert(seq![s[0]] + s.skip(1) =~= s);
        assert(seq![s[0]] + (rest + t) =~= a + t);
        assert forall|i: int| 0 <= i < a.len() implies is_white(#[trigger] a[i]) by {
            if i > 0 {
                assert(a[i] == rest[i - 1]);
            }
        }
        a
    } else {
        let a = Seq::<char>::empty();
        assert(s =~= a + s);
        a
    }
}

proof fn end_is_cut(s: Seq<char>) -> (b: Seq<char>)
    ensures
        is_blank(b),
        s == trim_end(s) + b,
        trim_end(s).len() > 0 ==> !is_white(trim_end(s).last()),
        trim_end(s).len() > 0 ==> trim_end(s)[0] == s[0],
    decreases s.len(),
{
    if s.len() > 0 && is_white(s.last()) {
        let rest = end_is_cut(s.drop_last());
        let b = rest.push(s.last());
        let t = trim_end(s.drop_last());
        assert(s.drop_last() == t + rest);
        assert(s.drop_last().push(s.last()) =~= s);
        assert((t + rest).push(s.last()) =~= t + b);
        assert forall|i: int| 0 <= i < b.len() implies is_white(#[trigger] b[i]) by {
            if i < rest.len() {
                assert(b[i] == rest[i]);
            }
        }
        b
    } else {
        let b = Seq::<char>::empty();
        assert(s =~= s + b);
        b
    }
}

/// A trimmed text is the text without the white space at its two ends, and
/// has lost nothing else.
pub proof fn trimmed_text_lost_only_white_space(s: Seq<char>)
    ensures
        exists|a: Seq<char>, b: Seq<char>|
            is_blank(a) && is_blank(b) && s == #[trigger] (a + trim(s) + b),
        trim(s).len() > 0 ==> !is_white(trim(s)[0]) && !is_white(trim(s).last()),
{
    let a = start_is_cut(s);
    let b = end_is_cut(trim_start(s));
    assert(a + (trim(s) + b) =~= a + trim(s) + b);
}

/// A text without its white space.
pub open spec fn solid(s: Seq<char>) -> Seq<char>
    decreases s.len(),
{
    if s.len() == 0 {
        s
    } else if is_white(s[0]) {
        solid(s.skip(1))
    } else {
        seq![s[0]] + solid(s.skip(1))
    }
}

proof fn solid_word(w: Seq<char>, rest: Seq<char>)
    requires
        forall|i: int| 0 <= i < w.len() ==> !is_white(#[trigger] w[i]),
    ensures
        solid(w + rest) == w + solid(rest),
    decreases w.len(),
{
    if w.len() == 0 {
        assert(w + rest =~= rest);
        assert(w + solid(rest) =~= solid(rest));
    } else {
        let t = w.skip(1);
        assert forall|i: int| 0 <= i < t.len() implies !is_white(#[trigger] t[i]) by {
            assert(t[i] == w[i + 1]);
        }
        solid_word(t, rest);
        assert((w + rest).skip(1) =~= t + rest);
        assert((w + rest)[0] == w[0]);
        assert(seq![w[0]] + (t + solid(rest)) =~= w + solid(rest));
    }
}

/// Texts one behind the other.
pub open spec fn together(list: Seq<Seq<char>>) -> Seq<char>
    decreases list.len(),
{
    if list.len() == 0 {
        Seq::empty()
    } else {
        list[0] + together(list.skip(1))
    }
}

/// The words of a text hold every character of it but the white space, in their
/// order.
pub proof fn words_hold_all_but_white_space(s: Seq<char>)
    ensures
        together(words(s)) == solid(s),
    decreases s.len(),
{
    if s.len() == 0 {
        assert(together(words(s)) =~= solid(s));
    } else if is_white(s[0]) {
        words_hold_all_but_white_space(s.skip(1));
    } else {
        word_len_bound(s);
        let n = word_len(s) as int;
        let word = s.take(n);
        let rest = s.skip(n);
        words_hold_all_but_white_space(rest);
        assert forall|i: int| 0 <= i < word.len() implies !is_white(#[trigger] word[i]) by {}
        solid_word(word, rest);
        assert(word + rest =~= s);
        let all = words(s);
        assert(all =~= seq![word] + words(rest));
        assert(all.skip(1) =~= words(rest));
        assert(all[0] == word);
    }
}

/// Lower case keeps every character but the capital ASCII letters, which become
/// the small ones.
pub proof fn lower_case_changes_capitals_alone(s: Seq<char>, i: int)
    requires
        0 <= i < s.len(),
    ensures
        lower_text(s).len() == s.len(),
        'A' <= s[i] <= 'Z' ==> lower_text(s)[i] as u32 == s[i] as u32 + 32,
        !('A' <= s[i] <= 'Z') ==> lower_text(s)[i] == s[i],
{
    if 'A' <= s[i] <= 'Z' {
        let small = (s[i] as u32 + 32) as char;
        assert(small as u32 == s[i] as u32 + 32);
    }
}

} // verus!
