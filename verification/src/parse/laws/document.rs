//! Laws of a statement's bytes and of the cells of its rows.

use crate::parse::document::{data_cells, hex, one_spaced, HtmlCellView};
use crate::parse::images::{payload_len, starts_ci, stripped, tag_len};
use crate::parse::laws::merchant::{words_are_words, words_of_a_word, words_of_both};
use crate::text::{ascii_lower, is_white, join, words};
use vstd::prelude::*;

verus! {

/// The word `<img`, in letters of any case.
pub open spec fn is_image_word(s: Seq<char>) -> bool {
    s.len() == 4 && s[0] == '<' && (s[1] == 'i' || s[1] == 'I') && (s[2] == 'm' || s[2] == 'M') && (
    s[3] == 'g' || s[3] == 'G')
}

/// Neither a quote nor a closing bracket stands in a text.
pub open spec fn is_plain_markup(s: Seq<char>) -> bool {
    forall|i: int| 0 <= i < s.len() ==> #[trigger] s[i] != '>' && s[i] != '"' && s[i] != '\''
}

proof fn plain_markup_goes_on(s: Seq<char>, rest: Seq<char>)
    requires
        is_plain_markup(s),
    ensures
        tag_len(s + rest, None) == s.len() + tag_len(rest, None),
    decreases s.len(),
{
    if s.len() == 0 {
        assert(s + rest =~= rest);
    } else {
        let t = s.skip(1);
        assert forall|i: int| 0 <= i < t.len() implies #[trigger] t[i] != '>' && t[i] != '"' && t[i]
            != '\'' by {
            assert(t[i] == s[i + 1]);
        }
        plain_markup_goes_on(t, rest);
        assert((s + rest).skip(1) =~= t + rest);
        assert((s + rest)[0] == s[0]);
    }
}

proof fn quoted_text_goes_on(s: Seq<char>, q: char, rest: Seq<char>)
    requires
        !s.contains(q),
    ensures
        tag_len(s + seq![q] + rest, Some(q)) == s.len() + 1 + tag_len(rest, None),
    decreases s.len(),
{
    let all = s + seq![q] + rest;
    if s.len() == 0 {
        assert(all[0] == q);
        assert(all.skip(1) =~= rest);
    } else {
        let t = s.skip(1);
        assert(s.contains(s[0]));
        assert(!t.contains(q)) by {
            if t.contains(q) {
                let i = choose|i: int| 0 <= i < t.len() && t[i] == q;
                assert(s[i + 1] == q);
            }
        }
        quoted_text_goes_on(t, q, rest);
        assert(all.skip(1) =~= t + seq![q] + rest);
        assert(all[0] == s[0]);
    }
}

proof fn image_word_starts_a_tag(word: Seq<char>, rest: Seq<char>)
    requires
        is_image_word(word),
    ensures
        starts_ci(word + rest, "<img"@),
        is_plain_markup(word),
{
    reveal_strlit("<img");
    let s = word + rest;
    assert(s[0] == word[0] && s[1] == word[1] && s[2] == word[2] && s[3] == word[3]);
    assert(('I' as u32 + 32) as char == 'i');
    assert(('M' as u32 + 32) as char == 'm');
    assert(('G' as u32 + 32) as char == 'g');
    assert forall|i: int| 0 <= i < 4 implies ascii_lower(#[trigger] s[i]) == "<img"@[i] by {}
}

/// An image's tag is taken out, up to the bracket that closes it; one within the
/// quotes of an attribute does not.
pub proof fn image_tag_is_taken_out(
    word: Seq<char>,
    before: Seq<char>,
    quote: char,
    value: Seq<char>,
    after: Seq<char>,
    rest: Seq<char>,
)
    requires
        is_image_word(word),
        is_plain_markup(before),
        is_plain_markup(after),
        quote == '"' || quote == '\'',
        !value.contains(quote),
    ensures
        stripped(word + before + seq!['>'] + rest) == stripped(rest),
        stripped(
            word + before + seq![quote] + value + seq![quote] + after + seq!['>'] + rest,
        ) == stripped(rest),
{
    let close = seq!['>'];
    let q = seq![quote];
    let s = word + before + close + rest;
    let tail = before + close + rest;
    assert(s =~= word + tail);
    image_word_starts_a_tag(word, tail);
    plain_markup_goes_on(word, tail);
    plain_markup_goes_on(before, close + rest);
    assert(tail =~= before + (close + rest));
    assert((close + rest)[0] == '>');
    assert(tag_len(close + rest, None) == 1);
    let n = (word.len() + before.len() + 1) as int;
    assert(s.skip(n) =~= rest);
    let t = word + before + q + value + q + after + close + rest;
    let t1 = before + q + value + q + after + close + rest;
    let t2 = q + value + q + after + close + rest;
    let t3 = value + q + (after + close + rest);
    let t4 = after + close + rest;
    assert(t =~= word + t1);
    image_word_starts_a_tag(word, t1);
    plain_markup_goes_on(word, t1);
    assert(t1 =~= before + t2);
    plain_markup_goes_on(before, t2);
    assert(t2[0] == quote);
    assert(t2.skip(1) =~= t3);
    quoted_text_goes_on(value, quote, t4);
    assert(t4 =~= after + (close + rest));
    plain_markup_goes_on(after, close + rest);
    let m = (word.len() + before.len() + 1 + value.len() + 1 + after.len() + 1) as int;
    assert(tag_len(t, None) == m);
    assert(t.skip(m) =~= rest);
}

/// The data of an image is taken out, up to the quote, the bracket or the tag
/// that ends it, which stays.
pub proof fn image_data_is_taken_out(data: Seq<char>, rest: Seq<char>)
    requires
        starts_ci(data, "data:image"@),
        forall|i: int|
            0 <= i < data.len() ==> #[trigger] data[i] != '"' && data[i] != '\'' && data[i] != ')'
                && data[i] != '<',
        rest.len() > 0 ==> rest[0] == '"' || rest[0] == '\'' || rest[0] == ')' || rest[0] == '<',
    ensures
        stripped(data + rest) == stripped(rest),
{
    reveal_strlit("data:image");
    reveal_strlit("<img");
    let s = data + rest;
    data_goes_on(data, rest);
    assert(s[0] == data[0]);
    assert(ascii_lower(data[0]) == 'd');
    assert(starts_ci(s, "data:image"@)) by {
        assert forall|i: int| 0 <= i < 10 implies ascii_lower(#[trigger] s[i]) == "data:image"@[i] by {
            assert(s[i] == data[i]);
        }
    }
    assert(!starts_ci(s, "<img"@)) by {
        if starts_ci(s, "<img"@) {
            assert(ascii_lower(s[0]) == '<');
        }
    }
    assert(s.skip(data.len() as int) =~= rest);
}

proof fn data_goes_on(data: Seq<char>, rest: Seq<char>)
    requires
        forall|i: int|
            0 <= i < data.len() ==> #[trigger] data[i] != '"' && data[i] != '\'' && data[i] != ')'
                && data[i] != '<',
        rest.len() > 0 ==> rest[0] == '"' || rest[0] == '\'' || rest[0] == ')' || rest[0] == '<',
    ensures
        payload_len(data + rest) == data.len(),
    decreases data.len(),
{
    if data.len() == 0 {
        assert(data + rest =~= rest);
    } else {
        let t = data.skip(1);
        assert forall|i: int| 0 <= i < t.len() implies #[trigger] t[i] != '"' && t[i] != '\''
            && t[i] != ')' && t[i] != '<' by {
            assert(t[i] == data[i + 1]);
        }
        data_goes_on(t, rest);
        assert((data + rest).skip(1) =~= t + rest);
        assert((data + rest)[0] == data[0]);
    }
}

/// The cells of a row are those of its own that no row is nested in, in their
/// order, each with single spaces between its words.
pub proof fn cells_of_a_row_are_its_own(cells: Seq<HtmlCellView>)
    ensures
        data_cells(cells) == cells.filter(
            |c: HtmlCellView| c.own && !c.nested,
        ).map_values(|c: HtmlCellView| one_spaced(c.text)),
    decreases cells.len(),
{
    reveal(Seq::filter);
    let own = |c: HtmlCellView| c.own && !c.nested;
    let text = |c: HtmlCellView| one_spaced(c.text);
    if cells.len() > 0 {
        cells_of_a_row_are_its_own(cells.drop_last());
    }
    assert(data_cells(cells) =~= cells.filter(own).map_values(text));
}

proof fn words_of_joined(list: Seq<Seq<char>>)
    requires
        forall|i: int|
            0 <= i < list.len() ==> (#[trigger] list[i]).len() > 0 && forall|j: int|
                0 <= j < list[i].len() ==> !is_white(#[trigger] list[i][j]),
    ensures
        words(join(list, " "@)) == list,
    decreases list.len(),
{
    reveal_strlit(" ");
    assert(" "@ =~= seq![' ']);
    if list.len() == 0 {
        assert(words(join(list, " "@)) =~= list);
    } else if list.len() == 1 {
        words_of_a_word(list[0]);
        assert(seq![list[0]] =~= list);
    } else {
        let init = list.drop_last();
        let last = list.last();
        assert(last == list[list.len() - 1]);
        assert forall|i: int| 0 <= i < init.len() implies (#[trigger] init[i]).len() > 0 && forall|
            j: int,
        |
            0 <= j < init[i].len() ==> !is_white(#[trigger] init[i][j]) by {
            assert(init[i] == list[i]);
        }
        words_of_joined(init);
        let tail = " "@ + last;
        words_of_both(join(init, " "@), tail);
        assert(tail.skip(1) =~= last);
        words_of_a_word(last);
        assert(words(tail) == seq![last]);
        assert(join(init, " "@) + " "@ + last =~= join(init, " "@) + tail);
        assert(init + seq![last] =~= list);
    }
}

/// A cell's text has the words of what was printed, and spacing it twice spaces
/// it no further.
pub proof fn spaced_text_keeps_its_words(s: Seq<char>)
    ensures
        words(one_spaced(s)) == words(s),
        one_spaced(one_spaced(s)) == one_spaced(s),
{
    assert forall|i: int| 0 <= i < words(s).len() implies (#[trigger] words(s)[i]).len() > 0
        && forall|j: int| 0 <= j < words(s)[i].len() ==> !is_white(#[trigger] words(s)[i][j]) by {
        words_are_words(s, i);
    }
    words_of_joined(words(s));
}

/// The value of a hexadecimal digit.
pub open spec fn hex_value(c: char) -> int {
    if '0' <= c <= '9' {
        c as int - '0' as int
    } else {
        c as int - 'a' as int + 10
    }
}

/// The hexadecimal notation of bytes has two digits for each, the higher first.
pub proof fn hex_reads_back(bytes: Seq<u8>, i: int)
    requires
        0 <= i < bytes.len(),
    ensures
        hex(bytes).len() == 2 * bytes.len(),
        hex_value(hex(bytes)[2 * i]) * 16 + hex_value(hex(bytes)[2 * i + 1]) == bytes[i],
{
    let b = bytes[i] as int;
    assert(0 <= b / 16 < 16 && 0 <= b % 16 < 16);
    assert((2 * i) / 2 == i && (2 * i + 1) / 2 == i);
}

} // verus!
