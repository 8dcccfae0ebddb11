//! Amounts as the bank prints them: `1.234,56`, `1.234,56+`, `18.619,06 TL`.

use crate::number::{all_digits, dec_value, digit, digit_value, is_digit, read_digits};
use crate::parse::ParseError;
use crate::text::{before, before_bound, chars_of, find, is_white, string_of, trim, trimmed, white};
use vstd::prelude::*;
use vstd::slice::slice_subrange;

verus! {

/// The characters of a text that are not white space.
pub open spec fn squeeze(s: Seq<char>) -> Seq<char>
    decreases s.len(),
{
    if s.len() == 0 {
        s
    } else if is_white(s.last()) {
        squeeze(s.drop_last())
    } else {
        squeeze(s.drop_last()).push(s.last())
    }
}

fn squeezed(s: &[char]) -> (r: Vec<char>)
    ensures
        r@ == squeeze(s@),
{
    let mut r: Vec<char> = Vec::new();
    let mut i: usize = 0;
    while i < s.len()
        invariant
            i <= s.len(),
            r@ == squeeze(s@.take(i as int)),
        decreases s.len() - i,
    {
        proof {
            assert(s@.take(i as int + 1).drop_last() =~= s@.take(i as int));
        }
        if !white(s[i]) {
            r.push(s[i]);
        }
        i += 1;
    }
    proof {
        assert(s@.take(s@.len() as int) =~= s@);
    }
    r
}

/// The digits of a text.
pub open spec fn digits(s: Seq<char>) -> Seq<char>
    decreases s.len(),
{
    if s.len() == 0 {
        s
    } else if is_digit(s.last()) {
        digits(s.drop_last()).push(s.last())
    } else {
        digits(s.drop_last())
    }
}

pub fn digits_of(s: &[char]) -> (r: Vec<char>)
    ensures
        r@ == digits(s@),
        all_digits(r@),
{
    let mut r: Vec<char> = Vec::new();
    let mut i: usize = 0;
    while i < s.len()
        invariant
            i <= s.len(),
            r@ == digits(s@.take(i as int)),
            all_digits(r@),
        decreases s.len() - i,
    {
        proof {
            assert(s@.take(i as int + 1).drop_last() =~= s@.take(i as int));
        }
        if digit(s[i]) {
            r.push(s[i]);
        }
        i += 1;
    }
    proof {
        assert(s@.take(s@.len() as int) =~= s@);
    }
    r
}

pub proof fn digits_are_digits(s: Seq<char>)
    ensures
        all_digits(digits(s)),
    decreases s.len(),
{
    if s.len() > 0 {
        digits_are_digits(s.drop_last());
    }
}

/// The text without `end`, where it ends in it.
pub open spec fn without_end(s: Seq<char>, end: Seq<char>) -> Seq<char> {
    if s.len() >= end.len() && s.skip(s.len() - end.len()) == end {
        s.take(s.len() - end.len())
    } else {
        s
    }
}

/// An amount's text without white space and without the currency after it.
pub open spec fn bare(s: Seq<char>) -> Seq<char> {
    without_end(without_end(squeeze(s), seq!['T', 'L']), seq!['₺'])
}

/// The hundredths that the digits after the comma stand for.
pub open spec fn hundredths(fraction: Seq<char>) -> nat {
    if fraction.len() == 0 {
        0
    } else if fraction.len() == 1 {
        digit_value(fraction[0]) * 10
    } else {
        digit_value(fraction[0]) * 10 + digit_value(fraction[1])
    }
}

/// What the text of an amount says.
#[derive(Debug, Clone, Copy, PartialEq, Eq)]
pub enum AmountReading {
    /// An amount in kuruş, and whether it is a credit.
    Minor(i64, bool),
    /// The text is no amount.
    Unreadable,
    /// An amount that 64 bits cannot hold in kuruş.
    OutOfRange,
}

/// An amount's digits, before and after the first comma, without the trailing
/// plus sign.
pub open spec fn unsigned_part(s: Seq<char>) -> Seq<char> {
    if s.len() > 0 && s.last() == '+' {
        s.drop_last()
    } else {
        s
    }
}

/// The whole liras of an amount's text: its digits before the first comma.
pub open spec fn whole_digits(s: Seq<char>) -> Seq<char> {
    let number = unsigned_part(bare(s));
    digits(number.take(before(number, ',') as int))
}

/// The digits of an amount's text after the first comma.
pub open spec fn fraction_digits(s: Seq<char>) -> Seq<char> {
    let number = unsigned_part(bare(s));
    let at = before(number, ',') as int;
    if at < number.len() {
        digits(number.skip(at + 1))
    } else {
        Seq::empty()
    }
}

/// Whether an amount's text ends in the plus sign of a credit.
pub open spec fn is_credit(s: Seq<char>) -> bool {
    bare(s).len() > 0 && bare(s).last() == '+'
}

/// Whether a text is an amount: it has no minus sign, and its digits before
/// the comma are a number that 64 bits can hold.
pub open spec fn is_amount(s: Seq<char>) -> bool {
    &&& !bare(s).contains('-')
    &&& whole_digits(s).len() > 0
    &&& dec_value(whole_digits(s)) <= i64::MAX
}

/// An amount's text in kuruş.
pub open spec fn amount_minor(s: Seq<char>) -> nat {
    dec_value(whole_digits(s)) * 100 + hundredths(fraction_digits(s))
}

pub open spec fn reading(s: Seq<char>) -> AmountReading {
    if !is_amount(s) {
        AmountReading::Unreadable
    } else if amount_minor(s) > i64::MAX {
        AmountReading::OutOfRange
    } else {
        AmountReading::Minor(amount_minor(s) as i64, is_credit(s))
    }
}

fn dropped_end<'a>(s: &'a [char], end: &[char]) -> (r: &'a [char])
    ensures
        r@ == without_end(s@, end@),
{
    if s.len() >= end.len() {
        let cut = s.len() - end.len();
        let tail = slice_subrange(s, cut, s.len());
        proof {
            assert(tail@ =~= s@.skip(cut as int));
            assert(s@.subrange(0, cut as int) =~= s@.take(cut as int));
        }
        if crate::text::same(tail, end) {
            return slice_subrange(s, 0, cut);
        }
    }
    s
}

/// Reads an amount.
pub fn read_amount(s: &[char]) -> (r: AmountReading)
    ensures
        r == reading(s@),
        r matches AmountReading::Minor(m, _) ==> m >= 0,
{
    let squeezed = squeezed(s);
    let currency: [char; 2] = ['T', 'L'];
    let sign: [char; 1] = ['₺'];
    let bare = dropped_end(dropped_end(&squeezed, &currency), &sign);
    proof {
        assert(currency@ =~= seq!['T', 'L']);
        assert(sign@ =~= seq!['₺']);
        assert(bare@ == crate::parse::amount::bare(s@));
        before_bound(bare@, '-');
    }
    if find(bare, '-') < bare.len() {
        return AmountReading::Unreadable;
    }
    let credit = bare.len() > 0 && bare[bare.len() - 1] == '+';
    let number = if credit {
        slice_subrange(bare, 0, bare.len() - 1)
    } else {
        bare
    };
    let comma = find(number, ',');
    let whole = digits_of(slice_subrange(number, 0, comma));
    proof {
        assert(credit ==> number@ =~= bare@.drop_last());
        assert(number@ == unsigned_part(bare@));
        assert(number@.subrange(0, comma as int) =~= number@.take(comma as int));
        assert(whole@ == whole_digits(s@));
    }
    if whole.len() == 0 {
        return AmountReading::Unreadable;
    }
    let lira = match read_digits(&whole, i64::MAX as u64) {
        Some(lira) => lira,
        None => {
            return AmountReading::Unreadable;
        },
    };
    let fraction: Vec<char> = if comma < number.len() {
        digits_of(slice_subrange(number, comma + 1, number.len()))
    } else {
        Vec::new()
    };
    proof {
        if comma < number.len() {
            assert(number@.subrange(comma as int + 1, number@.len() as int) =~= number@.skip(
                comma as int + 1,
            ));
        }
        assert(fraction@ =~= fraction_digits(s@));
        assert(all_digits(fraction@));
    }
    let kurus: u64 = if fraction.len() == 0 {
        0
    } else if fraction.len() == 1 {
        (fraction[0] as u64 - 48) * 10
    } else {
        (fraction[0] as u64 - 48) * 10 + (fraction[1] as u64 - 48)
    };
    let minor: u128 = lira as u128 * 100 + kurus as u128;
    if minor > i64::MAX as u128 {
        return AmountReading::OutOfRange;
    }
    AmountReading::Minor(minor as i64, credit)
}

/// Reads an amount in kuruş, and whether it is a credit.
pub fn parse_tr_amount(s: &str) -> (r: Result<(i64, bool), ParseError>)
    requires
        reading(s@) != AmountReading::OutOfRange,
    ensures
        match r {
            Ok((minor, credit)) => is_amount(s@) && minor == amount_minor(s@) && credit
                == is_credit(s@),
            Err(e) => !is_amount(s@) && e@ == crate::parse::ParseErrorView::Amount(trim(s@)),
        },
{
    let chars = chars_of(s);
    match read_amount(&chars) {
        AmountReading::Minor(minor, credit) => Ok((minor, credit)),
        AmountReading::Unreadable => Err(ParseError::Amount(string_of(trimmed(&chars)))),
        AmountReading::OutOfRange => vstd::pervasive::unreached(),
    }
}

} // verus!
