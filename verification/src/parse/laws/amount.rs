//! Laws of printed amounts.

use crate::number::{dec_value, digit_value, is_digit};
use crate::parse::amount::{bare, digits, fraction_digits, hundredths, is_credit, reading, squeeze,
    unsigned_part, whole_digits, without_end, AmountReading};
use crate::text::{before, before_bound, is_white};
use vstd::prelude::*;

verus! {

proof fn squeeze_of_both(a: Seq<char>, b: Seq<char>)
    ensures
        squeeze(a + b) == squeeze(a) + squeeze(b),
    decreases b.len(),
{
    if b.len() == 0 {
        assert(a + b =~= a);
        assert(squeeze(a) + squeeze(b) =~= squeeze(a));
    } else {
        squeeze_of_both(a, b.drop_last());
        assert((a + b).drop_last() =~= a + b.drop_last());
        assert((a + b).last() == b.last());
        assert(squeeze(a + b) =~= squeeze(a) + squeeze(b));
    }
}

proof fn squeeze_of_one(c: char)
    ensures
        squeeze(seq![c]) == if is_white(c) {
            Seq::empty()
        } else {
            seq![c]
        },
{
    reveal_with_fuel(squeeze, 2);
    assert(seq![c].drop_last() =~= Seq::<char>::empty());
    assert(squeeze(seq![c]) =~= if is_white(c) {
        Seq::empty()
    } else {
        seq![c]
    });
}

proof fn squeeze_keeps(s: Seq<char>, c: char)
    ensures
        !is_white(c) ==> (squeeze(s).contains(c) <==> s.contains(c)),
    decreases s.len(),
{
    if s.len() > 0 && !is_white(c) {
        let init = s.drop_last();
        squeeze_keeps(init, c);
        assert(s =~= init.push(s.last()));
        if s.contains(c) && s.last() != c {
            let i = choose|i: int| 0 <= i < s.len() && s[i] == c;
            assert(init[i] == c);
            let j = choose|j: int| 0 <= j < squeeze(init).len() && squeeze(init)[j] == c;
            assert(squeeze(s)[j] == c);
        } else if s.contains(c) {
            assert(squeeze(s).last() == c);
            assert(squeeze(s)[squeeze(s).len() - 1] == c);
        }
        if squeeze(s).contains(c) {
            let i = choose|i: int| 0 <= i < squeeze(s).len() && squeeze(s)[i] == c;
            if i < squeeze(init).len() {
                assert(squeeze(init)[i] == c);
                let j = choose|j: int| 0 <= j < init.len() && init[j] == c;
                assert(s[j] == c);
            } else {
                assert(s[s.len() - 1] == c);
            }
        }
    }
}

/// White space in an amount's text does not count, wherever it stands.
pub proof fn white_space_in_an_amount_does_not_count(a: Seq<char>, c: char, b: Seq<char>)
    requires
        is_white(c),
    ensures
        reading(a + seq![c] + b) == reading(a + b),
{
    squeeze_of_both(a + seq![c], b);
    squeeze_of_both(a, seq![c]);
    squeeze_of_both(a, b);
    squeeze_of_one(c);
    assert(squeeze(a + seq![c] + b) =~= squeeze(a + b));
}

/// A text ends in a digit or the plus sign of a credit.
pub open spec fn ends_in_a_number(s: Seq<char>) -> bool {
    s.len() > 0 && ('0' <= s.last() <= '9' || s.last() == '+')
}

proof fn squeezed_end(s: Seq<char>)
    requires
        ends_in_a_number(s),
    ensures
        squeeze(s).len() > 0,
        squeeze(s).last() == s.last(),
        bare(s) == squeeze(s),
{
    let q = squeeze(s);
    assert(q.last() == s.last());
    no_currency(q);
}

/// A text that ends in a number has no currency behind it.
proof fn no_currency(q: Seq<char>)
    requires
        ends_in_a_number(q),
    ensures
        without_end(q, seq!['T', 'L']) == q,
        without_end(q, seq!['₺']) == q,
{
    let tl = seq!['T', 'L'];
    let sign = seq!['₺'];
    if q.len() >= 2 {
        assert(q.skip(q.len() - 2)[1] == q.last());
        assert(tl[1] == 'L');
        assert(q.skip(q.len() - 2) != tl);
    }
    assert(q.skip(q.len() - 1)[0] == q.last());
    assert(sign[0] == '₺');
    assert(q.skip(q.len() - 1) != sign);
}

/// The currency behind an amount does not count.
pub proof fn currency_behind_an_amount_does_not_count(s: Seq<char>)
    requires
        ends_in_a_number(s),
    ensures
        reading(s + seq!['T', 'L']) == reading(s),
        reading(s + seq![' ', 'T', 'L']) == reading(s),
        reading(s + seq!['₺']) == reading(s),
        reading(s + seq!['₺', 'T', 'L']) == reading(s),
{
    squeezed_end(s);
    let q = squeeze(s);
    let tl = seq!['T', 'L'];
    let sign = seq!['₺'];
    no_currency(q);
    squeeze_of_one('T');
    squeeze_of_one('L');
    squeeze_of_one('₺');
    squeeze_of_one(' ');
    squeeze_of_both(seq!['T'], seq!['L']);
    assert(seq!['T'] + seq!['L'] =~= tl);
    squeeze_of_both(s, tl);
    squeeze_of_both(s, sign);
    assert((q + tl).skip(q.len() as int) =~= tl);
    assert((q + tl).take(q.len() as int) =~= q);
    assert(bare(s + tl) == q);
    assert((q + sign).skip(q.len() as int) =~= sign);
    assert((q + sign).take(q.len() as int) =~= q);
    assert((q + sign).skip(q.len() - 1)[1] == '₺');
    assert(tl[1] == 'L');
    assert(without_end(q + sign, tl) == q + sign) by {
        assert((q + sign).skip((q + sign).len() - 2)[1] == '₺');
    }
    assert(bare(s + sign) == q);
    squeeze_of_both(s + seq![' '], tl);
    squeeze_of_both(s, seq![' ']);
    assert(s + seq![' ', 'T', 'L'] =~= s + seq![' '] + tl);
    assert(squeeze(s) + Seq::<char>::empty() =~= q);
    assert(bare(s + seq![' ', 'T', 'L']) == q);
    squeeze_of_both(s + sign, tl);
    assert(s + seq!['₺', 'T', 'L'] =~= s + sign + tl);
    assert((q + sign + tl).skip((q + sign).len() as int) =~= tl);
    assert((q + sign + tl).take((q + sign).len() as int) =~= q + sign);
    assert(bare(s + seq!['₺', 'T', 'L']) == q);
}

/// A plus sign behind an amount makes it a credit of as much; without one it is
/// a debit.
pub proof fn plus_sign_makes_a_credit(s: Seq<char>)
    requires
        s.len() > 0,
        '0' <= s.last() <= '9',
    ensures
        reading(s.push('+')) == match reading(s) {
            AmountReading::Minor(minor, _) => AmountReading::Minor(minor, true),
            other => other,
        },
        reading(s) matches AmountReading::Minor(_, credit) ==> !credit,
{
    squeezed_end(s);
    let q = squeeze(s);
    squeeze_of_both(s, seq!['+']);
    squeeze_of_one('+');
    assert(s.push('+') =~= s + seq!['+']);
    squeezed_end(s.push('+'));
    let p = q + seq!['+'];
    assert(bare(s.push('+')) == p);
    assert(p.drop_last() =~= q);
    assert(p.contains('-') <==> q.contains('-')) by {
        if p.contains('-') {
            let i = choose|i: int| 0 <= i < p.len() && p[i] == '-';
            assert(q[i] == '-');
        }
        if q.contains('-') {
            let i = choose|i: int| 0 <= i < q.len() && q[i] == '-';
            assert(p[i] == '-');
        }
    }
}

/// A text with a minus sign is no amount.
pub proof fn minus_sign_makes_no_amount(s: Seq<char>)
    requires
        s.contains('-'),
    ensures
        reading(s) == AmountReading::Unreadable,
{
    squeeze_keeps(s, '-');
    let q = squeeze(s);
    let tl = seq!['T', 'L'];
    let sign = seq!['₺'];
    ends_without_minus(q, tl);
    ends_without_minus(without_end(q, tl), sign);
}

proof fn ends_without_minus(q: Seq<char>, end: Seq<char>)
    requires
        q.contains('-'),
        !end.contains('-'),
    ensures
        without_end(q, end).contains('-'),
{
    let i = choose|i: int| 0 <= i < q.len() && q[i] == '-';
    if q.len() >= end.len() && q.skip(q.len() - end.len()) == end {
        let cut = q.len() - end.len();
        if i >= cut {
            assert(q.skip(cut)[i - cut] == '-');
            assert(end.contains('-'));
        }
        assert(q.take(cut)[i] == '-');
    }
}

proof fn digits_of_both(a: Seq<char>, b: Seq<char>)
    ensures
        digits(a + b) == digits(a) + digits(b),
    decreases b.len(),
{
    if b.len() == 0 {
        assert(a + b =~= a);
        assert(digits(a) + digits(b) =~= digits(a));
    } else {
        digits_of_both(a, b.drop_last());
        assert((a + b).drop_last() =~= a + b.drop_last());
        assert((a + b).last() == b.last());
        assert(digits(a + b) =~= digits(a) + digits(b));
    }
}

/// The first comma of two texts and something between them that is none.
proof fn comma_between(a: Seq<char>, d: Seq<char>, b: Seq<char>)
    requires
        !d.contains(','),
    ensures
        ({
            let s = a + d + b;
            let t = a + b;
            let n = before(s, ',') as int;
            let m = before(t, ',') as int;
            if m < a.len() {
                n == m
            } else {
                n == m + d.len()
            }
        }),
{
    let s = a + d + b;
    let t = a + b;
    before_bound(s, ',');
    before_bound(t, ',');
    let n = before(s, ',') as int;
    let m = before(t, ',') as int;
    if m < a.len() {
        assert(s[m] == t[m]);
        if n < m {
            assert(t[n] == s[n]);
        }
    } else {
        assert forall|i: int| 0 <= i < m + d.len() && i < s.len() implies s[i] != ',' by {
            if i < a.len() {
                assert(t[i] == s[i]);
            } else if i < a.len() + d.len() {
                assert(s[i] == d[i - a.len()]);
                assert(d.contains(d[i - a.len()]));
            } else {
                assert(t[i - d.len()] == s[i]);
            }
        }
        if m < t.len() {
            assert(s[m + d.len()] == t[m]);
        }
    }
}

/// The digits before and behind the first comma, with a dot more and without.
proof fn dot_in_a_number(x: Seq<char>, y2: Seq<char>)
    ensures
        ({
            let u = x + seq!['.'] + y2;
            let v = x + y2;
            let n = before(u, ',') as int;
            let m = before(v, ',') as int;
            &&& digits(u.take(n)) == digits(v.take(m))
            &&& n < u.len() <==> m < v.len()
            &&& m < v.len() ==> digits(u.skip(n + 1)) == digits(v.skip(m + 1))
        }),
{
    let dot = seq!['.'];
    let u = x + dot + y2;
    let v = x + y2;
    assert(!dot.contains(','));
    comma_between(x, dot, y2);
    before_bound(u, ',');
    before_bound(v, ',');
    let n = before(u, ',') as int;
    let m = before(v, ',') as int;
    assert(digits(dot) =~= Seq::<char>::empty()) by {
        reveal_with_fuel(digits, 2);
        assert(dot.drop_last() =~= Seq::<char>::empty());
    }
    if m < x.len() {
        assert(u.take(n) =~= v.take(m));
        if m < v.len() {
            let left = x.skip(m + 1);
            assert(u.skip(n + 1) =~= left + dot + y2);
            assert(v.skip(m + 1) =~= left + y2);
            digits_of_both(left + dot, y2);
            digits_of_both(left, dot);
            digits_of_both(left, y2);
            assert(digits(left) + Seq::<char>::empty() =~= digits(left));
        }
    } else {
        let k = m - x.len();
        let right = y2.take(k);
        assert(u.take(n) =~= x + dot + right);
        assert(v.take(m) =~= x + right);
        digits_of_both(x + dot, right);
        digits_of_both(x, dot);
        digits_of_both(x, right);
        assert(digits(x) + Seq::<char>::empty() =~= digits(x));
        if m < v.len() {
            assert(u.skip(n + 1) =~= v.skip(m + 1));
        }
    }
}

/// The dots between the digits of an amount do not count.
pub proof fn dots_in_an_amount_do_not_count(a: Seq<char>, b: Seq<char>)
    requires
        ends_in_a_number(b),
    ensures
        reading(a + seq!['.'] + b) == reading(a + b),
{
    let dot = seq!['.'];
    let s = a + dot + b;
    let t = a + b;
    assert(s.last() == b.last() && t.last() == b.last());
    squeezed_end(s);
    squeezed_end(t);
    squeeze_of_both(a + dot, b);
    squeeze_of_both(a, dot);
    squeeze_of_both(a, b);
    squeeze_of_one('.');
    squeezed_end(b);
    let x = squeeze(a);
    let y = squeeze(b);
    assert(bare(s) == x + dot + y);
    assert(bare(t) == x + y);
    let y2 = unsigned_part(y);
    assert(unsigned_part(bare(s)) =~= x + dot + y2);
    assert(unsigned_part(bare(t)) =~= x + y2);
    dot_in_a_number(x, y2);
    assert(whole_digits(s) == whole_digits(t));
    assert(fraction_digits(s) == fraction_digits(t));
    assert(bare(s).contains('-') <==> bare(t).contains('-')) by {
        let p = bare(s);
        let q = bare(t);
        if p.contains('-') {
            let i = choose|i: int| 0 <= i < p.len() && p[i] == '-';
            if i < x.len() {
                assert(q[i] == '-');
            } else {
                assert(q[i - 1] == '-');
            }
        }
        if q.contains('-') {
            let i = choose|i: int| 0 <= i < q.len() && q[i] == '-';
            if i < x.len() {
                assert(p[i] == '-');
            } else {
                assert(p[i + 1] == '-');
            }
        }
    }
    assert(is_credit(s) == is_credit(t));
}

/// The digits of a text of digits.
proof fn digits_stay(s: Seq<char>)
    requires
        forall|i: int| 0 <= i < s.len() ==> is_digit(#[trigger] s[i]),
    ensures
        digits(s) == s,
        squeeze(s) == s,
    decreases s.len(),
{
    if s.len() > 0 {
        let init = s.drop_last();
        assert forall|i: int| 0 <= i < init.len() implies is_digit(#[trigger] init[i]) by {
            assert(init[i] == s[i]);
        }
        digits_stay(init);
        assert(is_digit(s[s.len() - 1]));
        assert(s =~= init.push(s.last()));
    }
}

/// Digits, a comma and digits are so many liras and kuruş: the first two digits
/// behind the comma count, and where one is missing it is a zero.
pub proof fn liras_and_kurus_are_read(whole: Seq<char>, fraction: Seq<char>)
    requires
        whole.len() > 0,
        forall|i: int| 0 <= i < whole.len() ==> is_digit(#[trigger] whole[i]),
        forall|i: int| 0 <= i < fraction.len() ==> is_digit(#[trigger] fraction[i]),
        dec_value(whole) * 100 + 99 <= i64::MAX,
    ensures
        reading(whole + seq![','] + fraction + seq!['0', '0']) == AmountReading::Minor(
            (dec_value(whole) * 100 + dec_value((fraction + seq!['0', '0']).take(2))) as i64,
            false,
        ),
        reading(whole) == AmountReading::Minor((dec_value(whole) * 100) as i64, false),
        fraction.len() > 0 ==> reading(whole + seq![','] + fraction) == reading(
            whole + seq![','] + fraction + seq!['0', '0'],
        ),
{
    let zeros = seq!['0', '0'];
    let f = fraction + zeros;
    assert forall|i: int| 0 <= i < f.len() implies is_digit(#[trigger] f[i]) by {}
    assert(whole + seq![','] + fraction + zeros =~= whole + seq![','] + f);
    plain_amount(whole, f);
    let two = f.take(2);
    assert(two.drop_last() =~= seq![f[0]]);
    assert(two.drop_last().drop_last() =~= Seq::<char>::empty());
    assert(dec_value(two.drop_last().drop_last()) == 0);
    assert(dec_value(two.drop_last()) == digit_value(f[0]));
    assert(dec_value(two) == digit_value(f[0]) * 10 + digit_value(f[1]));
    assert(is_digit(f[0]) && is_digit(f[1]));
    assert(hundredths(f) <= 99);
    digits_stay(whole);
    let last = whole.len() - 1;
    assert(is_digit(whole[last]));
    squeezed_end(whole);
    no_comma(whole);
    assert(whole.take(whole.len() as int) =~= whole);
    assert(!whole.contains('-')) by {
        if whole.contains('-') {
            let i = choose|i: int| 0 <= i < whole.len() && whole[i] == '-';
            assert(is_digit(whole[i]));
        }
    }
    assert(dec_value(whole) <= dec_value(whole) * 100);
    if fraction.len() > 0 {
        plain_amount(whole, fraction);
        assert(hundredths(fraction) == hundredths(f)) by {
            assert(f[0] == fraction[0]);
            if fraction.len() > 1 {
                assert(f[1] == fraction[1]);
            } else {
                assert(f[1] == '0');
            }
        }
    }
}

proof fn no_comma(s: Seq<char>)
    requires
        forall|i: int| 0 <= i < s.len() ==> is_digit(#[trigger] s[i]),
    ensures
        before(s, ',') == s.len(),
{
    before_bound(s, ',');
    if before(s, ',') < s.len() {
        assert(is_digit(s[before(s, ',') as int]));
    }
}

proof fn plain_amount(whole: Seq<char>, fraction: Seq<char>)
    requires
        whole.len() > 0,
        fraction.len() > 0,
        forall|i: int| 0 <= i < whole.len() ==> is_digit(#[trigger] whole[i]),
        forall|i: int| 0 <= i < fraction.len() ==> is_digit(#[trigger] fraction[i]),
    ensures
        whole_digits(whole + seq![','] + fraction) == whole,
        fraction_digits(whole + seq![','] + fraction) == fraction,
        !is_credit(whole + seq![','] + fraction),
        !bare(whole + seq![','] + fraction).contains('-'),
{
    let s = whole + seq![','] + fraction;
    let last = fraction.len() - 1;
    assert(is_digit(fraction[last]));
    assert(s.last() == fraction[last]);
    squeezed_end(s);
    squeeze_of_both(whole + seq![','], fraction);
    squeeze_of_both(whole, seq![',']);
    squeeze_of_one(',');
    digits_stay(whole);
    digits_stay(fraction);
    assert(bare(s) == s);
    before_bound(s, ',');
    let at = whole.len() as int;
    assert(s[at] == ',');
    assert(before(s, ',') == at) by {
        let b = before(s, ',') as int;
        if b < at {
            assert(is_digit(whole[b]));
            assert(s[b] == whole[b]);
        }
    }
    assert(s.take(at) =~= whole);
    assert(s.skip(at + 1) =~= fraction);
    if s.contains('-') {
        let i = choose|i: int| 0 <= i < s.len() && s[i] == '-';
        if i < at {
            assert(is_digit(whole[i]));
        } else if i > at {
            assert(is_digit(fraction[i - at - 1]));
        }
    }
}

/// An amount that 64 bits cannot hold is never read as another.
pub proof fn too_large_an_amount_is_not_read(whole: Seq<char>, fraction: Seq<char>)
    requires
        whole.len() > 0,
        fraction.len() > 0,
        forall|i: int| 0 <= i < whole.len() ==> is_digit(#[trigger] whole[i]),
        forall|i: int| 0 <= i < fraction.len() ==> is_digit(#[trigger] fraction[i]),
        dec_value(whole) * 100 > i64::MAX,
    ensures
        !(reading(whole + seq![','] + fraction) is Minor),
{
    plain_amount(whole, fraction);
}

} // verus!
