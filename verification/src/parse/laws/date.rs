//! Laws of printed dates.

use crate::number::{all_digits, dec, dec_value, digit_char, digit_value, is_digit, unsigned_value,
    zero_padded};
use crate::parse::date::{days_in_month, tr_date};
use crate::parse::laws::merchant::{split_at_a_separator, split_of_one_piece};
use crate::text::{is_white, split, trim, trim_end, trim_start};
use vstd::prelude::*;

verus! {

proof fn padded_push(s: Seq<char>, d: char, width: nat)
    requires
        width > 0,
    ensures
        zero_padded(s.push(d), width) == zero_padded(s, (width - 1) as nat).push(d),
    decreases width - s.len(),
{
    if s.len() + 1 < width {
        let more = seq!['0'] + s;
        padded_push(more, d, width);
        assert(more.push(d) =~= seq!['0'] + s.push(d));
    }
}

/// Digits are the padded notation of the number that they stand for.
proof fn digits_are_their_number(s: Seq<char>)
    requires
        s.len() > 0,
        all_digits(s),
    ensures
        zero_padded(dec(dec_value(s)), s.len()) == s,
    decreases s.len(),
{
    let init = s.drop_last();
    let d = s.last();
    let last = s.len() - 1;
    assert(is_digit(s[last]));
    assert(digit_char(digit_value(d)) == d);
    let v = dec_value(init);
    assert(dec_value(s) == v * 10 + digit_value(d));
    assert(s =~= init.push(d));
    if s.len() == 1 {
        assert(init =~= Seq::<char>::empty());
        assert(v == 0);
        assert(dec(digit_value(d)) =~= s);
    } else {
        assert forall|i: int| 0 <= i < init.len() implies is_digit(#[trigger] init[i]) by {
            assert(init[i] == s[i]);
        }
        digits_are_their_number(init);
        if v == 0 {
            let none = Seq::<char>::empty();
            assert(dec(dec_value(s)) =~= none.push(d));
            padded_push(none, d, s.len());
            assert(zero_padded(none, init.len()) == zero_padded(seq!['0'] + none, init.len()));
            assert(seq!['0'] + none =~= dec(0));
        } else {
            let n = dec_value(s);
            assert(n >= 10 && n / 10 == v && n % 10 == digit_value(d));
            assert(dec(n) == dec(v).push(d));
            padded_push(dec(v), d, s.len());
        }
    }
}

proof fn solid_text_is_trimmed(s: Seq<char>)
    requires
        s.len() > 0,
        !is_white(s[0]),
        !is_white(s.last()),
    ensures
        trim(s) == s,
{
    assert(trim_start(s) == s);
    assert(trim_end(s) == s);
}

/// A date as the bank prints it: two digits, two digits and four digits, with
/// dots between them.
pub open spec fn is_printed_date(s: Seq<char>) -> bool {
    &&& s.len() == 10
    &&& s[2] == '.' && s[5] == '.'
    &&& forall|i: int| 0 <= i < 10 && i != 2 && i != 5 ==> '0' <= #[trigger] s[i] <= '9'
}

/// The number of two digits.
pub open spec fn number_at(s: Seq<char>, i: int) -> int {
    (s[i] as int - '0' as int) * 10 + (s[i + 1] as int - '0' as int)
}

/// How long a month is: they go 31, 30 in turn to July and again from August,
/// but for February.
pub open spec fn month_len(year: int, month: int) -> int {
    if month == 2 {
        if year % 400 == 0 || (year % 4 == 0 && year % 100 != 0) {
            29
        } else {
            28
        }
    } else {
        30 + (month + month / 8) % 2
    }
}

/// A printed date of the calendar is turned round: year, month, day. One that
/// the calendar does not have is no date.
pub proof fn printed_date_is_turned_round(s: Seq<char>)
    requires
        is_printed_date(s),
    ensures
        ({
            let day = number_at(s, 0);
            let month = number_at(s, 3);
            let year = number_at(s, 6) * 100 + number_at(s, 8);
            tr_date(s) == if 1 <= month <= 12 && 1 <= day <= month_len(year, month) {
                Some(s.subrange(6, 10) + seq!['-'] + s.subrange(3, 5) + seq!['-'] + s.subrange(0, 2))
            } else {
                None::<Seq<char>>
            }
        }),
{
    let d = s.subrange(0, 2);
    let m = s.subrange(3, 5);
    let y = s.subrange(6, 10);
    let dot = seq!['.'];
    assert('0' <= s[0] <= '9' && '0' <= s[1] <= '9' && '0' <= s[3] <= '9' && '0' <= s[4] <= '9'
        && '0' <= s[6] <= '9' && '0' <= s[7] <= '9' && '0' <= s[8] <= '9' && '0' <= s[9] <= '9');
    assert(all_digits(d)) by {
        assert(d[0] == s[0] && d[1] == s[1]);
    }
    assert(all_digits(m)) by {
        assert(m[0] == s[3] && m[1] == s[4]);
    }
    assert(all_digits(y)) by {
        assert(y[0] == s[6] && y[1] == s[7] && y[2] == s[8] && y[3] == s[9]);
    }
    assert(s =~= d + dot + (m + dot + y));
    assert(s.last() == s[9]);
    solid_text_is_trimmed(s);
    solid_text_is_trimmed(d);
    solid_text_is_trimmed(m);
    solid_text_is_trimmed(y);
    no_dot(d);
    no_dot(m);
    no_dot(y);
    split_at_a_separator(d, m + dot + y, '.');
    split_at_a_separator(m, y, '.');
    split_of_one_piece(d, '.');
    split_of_one_piece(m, '.');
    split_of_one_piece(y, '.');
    assert(seq![d] + (seq![m] + seq![y]) =~= seq![d, m, y]);
    assert(split(s, '.') == seq![d, m, y]);
    two_digit_value(d);
    two_digit_value(m);
    let day = number_at(s, 0);
    let month = number_at(s, 3);
    let year = number_at(s, 6) * 100 + number_at(s, 8);
    let head = y.drop_last().drop_last();
    assert(head =~= seq![y[0], y[1]]);
    two_digit_value(head);
    assert(dec_value(y) == year) by {
        assert(dec_value(y) == dec_value(y.drop_last()) * 10 + digit_value(y[3]));
        assert(dec_value(y.drop_last()) == dec_value(head) * 10 + digit_value(y[2]));
    }
    assert(month_len(year, month) == days_in_month(year, month) || !(1 <= month <= 12));
    digits_are_their_number(d);
    digits_are_their_number(m);
    digits_are_their_number(y);
    assert(is_digit(d[0]) && is_digit(m[0]) && is_digit(y[0]));
    assert(unsigned_value(d) == Some(dec_value(d)));
    assert(unsigned_value(m) == Some(dec_value(m)));
    assert(unsigned_value(y) == Some(dec_value(y)));
}

proof fn no_dot(s: Seq<char>)
    requires
        all_digits(s),
    ensures
        !s.contains('.'),
{
    if s.contains('.') {
        let i = choose|i: int| 0 <= i < s.len() && s[i] == '.';
        assert(is_digit(s[i]));
    }
}

proof fn two_digit_value(s: Seq<char>)
    requires
        s.len() == 2,
        all_digits(s),
    ensures
        dec_value(s) == digit_value(s[0]) * 10 + digit_value(s[1]),
{
    assert(s.drop_last() =~= seq![s[0]]);
    assert(s.drop_last().drop_last() =~= Seq::<char>::empty());
    assert(dec_value(s.drop_last().drop_last()) == 0);
    assert(dec_value(s.drop_last()) == digit_value(s[0]));
}

/// White space around a date does not count.
pub proof fn white_space_around_a_date_does_not_count(s: Seq<char>, c: char)
    requires
        is_white(c),
    ensures
        tr_date(seq![c] + s) == tr_date(s),
        tr_date(s.push(c)) == tr_date(s),
{
    let t = seq![c] + s;
    assert(t.skip(1) =~= s);
    assert(trim(t) == trim(s));
    assert(trim(s.push(c)) == trim(s)) by {
        trim_end_of_one_more(s, c);
    }
}

proof fn trim_end_of_one_more(s: Seq<char>, c: char)
    requires
        is_white(c),
    ensures
        trim(s.push(c)) == trim(s),
    decreases s.len(),
{
    if s.len() == 0 {
        assert(s.push(c).skip(1) =~= s);
    } else if is_white(s[0]) {
        trim_end_of_one_more(s.skip(1), c);
        assert(s.push(c).skip(1) =~= s.skip(1).push(c));
    } else {
        assert(s.push(c).drop_last() =~= s);
    }
}

} // verus!
