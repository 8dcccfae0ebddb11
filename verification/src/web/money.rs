//! Amounts on the screen.

use crate::number::{all_digits, dec, dec_chars, dec_digits, dec_value_of_dec, digit_char, is_digit,
    magnitude, pad_zeros, zero_padded};
use crate::parse::amount::{amount_minor, bare, digits, fraction_digits, hundredths, reading,
    squeeze, unsigned_part, whole_digits, without_end, AmountReading};
use crate::parse::Direction;
use crate::store::rows::TxnRow;
use crate::text::{before, before_bound, chars_of, is_white, push_all, string_of};
use vstd::prelude::*;

verus! {

/// Digits with a dot before each group of three, counted from the end.
pub open spec fn grouped(s: Seq<char>) -> Seq<char>
    decreases s.len(),
{
    if s.len() == 0 {
        s
    } else if s.len() > 1 && (s.len() - 1) % 3 == 0 {
        seq![s[0], '.'] + grouped(s.skip(1))
    } else {
        seq![s[0]] + grouped(s.skip(1))
    }
}

/// The magnitude of an amount.
pub open spec fn abs(minor: int) -> nat {
    if minor < 0 {
        (-minor) as nat
    } else {
        minor as nat
    }
}

/// An amount in kuruş as liras: `1.234,56 TL`.
pub open spec fn money(minor: int) -> Seq<char> {
    (if minor < 0 {
        seq!['-']
    } else {
        Seq::<char>::empty()
    }) + grouped(dec(abs(minor) / 100)) + seq![','] + zero_padded(dec(abs(minor) % 100), 2) + seq![
        ' ',
        'T',
        'L',
    ]
}

fn push_grouped(out: &mut Vec<char>, digits: &[char])
    ensures
        final(out)@ == old(out)@ + grouped(digits@),
{
    let ghost all = digits@;
    let ghost start = out@;
    let mut i: usize = 0;
    proof {
        assert(all.skip(0) =~= all);
    }
    while i < digits.len()
        invariant
            i <= digits.len(),
            all == digits@,
            start + grouped(all) == out@ + grouped(all.skip(i as int)),
        decreases digits.len() - i,
    {
        let ghost rest = all.skip(i as int);
        let ghost done = out@;
        out.push(digits[i]);
        let left = digits.len() - i - 1;
        if left > 0 && left % 3 == 0 {
            out.push('.');
        }
        proof {
            assert(rest.skip(1) =~= all.skip(i as int + 1));
            assert(done + grouped(rest) =~= out@ + grouped(all.skip(i as int + 1)));
        }
        i += 1;
    }
    proof {
        assert(out@ =~= out@ + grouped(all.skip(i as int)));
    }
}

/// Writes an amount in kuruş as liras.
pub fn tr_money(minor: i64) -> (r: String)
    ensures
        r@ == money(minor as int),
{
    let mut out: Vec<char> = Vec::new();
    if minor < 0 {
        out.push('-');
    }
    let ghost sign = out@;
    let m = magnitude(minor);
    let whole = dec_chars(m / 100);
    push_grouped(&mut out, &whole);
    out.push(',');
    let fraction = pad_zeros(dec_chars(m % 100), 2);
    push_all(&mut out, &fraction);
    out.push(' ');
    out.push('T');
    out.push('L');
    proof {
        assert(out@ =~= sign + grouped(whole@) + seq![','] + fraction@ + seq![' ', 'T', 'L']);
        assert(out@ =~= money(minor as int));
    }
    string_of(&out)
}

/// An amount of a transaction: a credit has a plus sign in front.
pub open spec fn signed_money(minor: int, direction: Direction) -> Seq<char> {
    if direction == Direction::Credit {
        seq!['+'] + money(minor)
    } else {
        money(minor)
    }
}

/// Writes the amount of a transaction.
pub fn amount_text(t: &TxnRow) -> (r: String)
    ensures
        r@ == signed_money(t.amount_minor as int, t.direction),
{
    let base = tr_money(t.amount_minor);
    if t.direction == Direction::Credit {
        let mut out: Vec<char> = Vec::new();
        out.push('+');
        push_all(&mut out, &chars_of(base.as_str()));
        proof {
            assert(out@ =~= seq!['+'] + base@);
        }
        string_of(&out)
    } else {
        base
    }
}

/// The class of an amount: a credit stands out.
pub fn amount_class(direction: Direction) -> (r: Option<&'static str>)
    ensures
        match r {
            Some(class) => class@ == if direction == Direction::Credit {
                "num credit"@
            } else {
                "num"@
            },
            None => false,
        },
{
    if direction == Direction::Credit {
        Some("num credit")
    } else {
        Some("num")
    }
}

proof fn squeeze_push(s: Seq<char>, c: char)
    requires
        !is_white(c),
    ensures
        squeeze(s.push(c)) == squeeze(s).push(c),
{
    assert(s.push(c).drop_last() =~= s);
}

/// Text without white space stays as it is.
proof fn squeeze_solid(s: Seq<char>)
    requires
        forall|i: int| 0 <= i < s.len() ==> !is_white(#[trigger] s[i]),
    ensures
        squeeze(s) == s,
    decreases s.len(),
{
    if s.len() > 0 {
        let t = s.drop_last();
        assert forall|i: int| 0 <= i < t.len() implies !is_white(#[trigger] t[i]) by {
            assert(t[i] == s[i]);
        }
        squeeze_solid(t);
        assert(s =~= t.push(s.last()));
        assert(!is_white(s[s.len() - 1]));
    }
}

/// What stands in grouped digits.
proof fn grouped_chars(s: Seq<char>)
    requires
        all_digits(s),
    ensures
        forall|i: int|
            0 <= i < grouped(s).len() ==> is_digit(#[trigger] grouped(s)[i]) || grouped(s)[i]
                == '.',
    decreases s.len(),
{
    if s.len() > 0 {
        let rest = s.skip(1);
        assert(all_digits(rest)) by {
            assert forall|i: int| 0 <= i < rest.len() implies is_digit(#[trigger] rest[i]) by {
                assert(rest[i] == s[i + 1]);
            }
        }
        grouped_chars(rest);
        assert forall|i: int| 0 <= i < grouped(s).len() implies is_digit(
            #[trigger] grouped(s)[i],
        ) || grouped(s)[i] == '.' by {
            if s.len() > 1 && (s.len() - 1) % 3 == 0 {
                if i >= 2 {
                    assert(grouped(s)[i] == grouped(rest)[i - 2]);
                }
            } else if i >= 1 {
                assert(grouped(s)[i] == grouped(rest)[i - 1]);
            }
            assert(is_digit(s[0]));
        }
    }
}

proof fn digits_concat(a: Seq<char>, b: Seq<char>)
    ensures
        digits(a + b) == digits(a) + digits(b),
    decreases b.len(),
{
    if b.len() == 0 {
        assert(a + b =~= a);
        assert(digits(a) + digits(b) =~= digits(a));
    } else {
        digits_concat(a, b.drop_last());
        assert((a + b).drop_last() =~= a + b.drop_last());
        assert((a + b).last() == b.last());
        assert(digits(a + b) =~= digits(a) + digits(b));
    }
}

proof fn digits_of_digits(s: Seq<char>)
    requires
        all_digits(s),
    ensures
        digits(s) == s,
    decreases s.len(),
{
    if s.len() > 0 {
        let t = s.drop_last();
        assert(all_digits(t)) by {
            assert forall|i: int| 0 <= i < t.len() implies is_digit(#[trigger] t[i]) by {
                assert(t[i] == s[i]);
            }
        }
        digits_of_digits(t);
        assert(is_digit(s[s.len() - 1]));
        assert(s =~= t.push(s.last()));
    }
}

/// The digits of grouped digits are the digits.
proof fn digits_of_grouped(s: Seq<char>)
    requires
        all_digits(s),
    ensures
        digits(grouped(s)) == s,
    decreases s.len(),
{
    if s.len() == 0 {
        assert(digits(s) =~= s);
    } else {
        let rest = s.skip(1);
        assert(all_digits(rest)) by {
            assert forall|i: int| 0 <= i < rest.len() implies is_digit(#[trigger] rest[i]) by {
                assert(rest[i] == s[i + 1]);
            }
        }
        digits_of_grouped(rest);
        assert(is_digit(s[0]));
        let head = if s.len() > 1 && (s.len() - 1) % 3 == 0 {
            seq![s[0], '.']
        } else {
            seq![s[0]]
        };
        digits_concat(head, grouped(rest));
        assert(digits(head) =~= seq![s[0]]) by {
            let one = seq![s[0]];
            assert(all_digits(one));
            digits_of_digits(one);
            if s.len() > 1 && (s.len() - 1) % 3 == 0 {
                assert(head.drop_last() =~= one);
                assert(head.last() == '.');
            }
        }
        assert(s =~= seq![s[0]] + rest);
    }
}

/// Two digits of a number below a hundred.
proof fn two_digits(n: nat)
    requires
        n < 100,
    ensures
        zero_padded(dec(n), 2).len() == 2,
        all_digits(zero_padded(dec(n), 2)),
        hundredths(zero_padded(dec(n), 2)) == n,
{
    if n < 10 {
        let padded = seq!['0'] + dec(n);
        assert(zero_padded(dec(n), 2) == zero_padded(padded, 2));
        assert(padded =~= seq!['0', digit_char(n)]);
        assert(all_digits(padded));
    } else {
        assert(dec(n / 10) =~= seq![digit_char(n / 10)]);
        assert(dec(n) =~= seq![digit_char(n / 10), digit_char(n % 10)]);
        assert(all_digits(dec(n)));
    }
}

/// An amount that is not negative and is written as liras is read back from
/// what is written.
pub proof fn money_reads_back(minor: int)
    requires
        0 <= minor <= i64::MAX,
    ensures
        reading(money(minor)) == AmountReading::Minor(minor as i64, false),
{
    let n = minor as nat;
    let whole = dec(n / 100);
    let fraction = zero_padded(dec(n % 100), 2);
    dec_digits(n / 100);
    assert(all_digits(whole));
    two_digits(n % 100);
    grouped_chars(whole);
    digits_of_grouped(whole);
    digits_of_digits(fraction);
    dec_value_of_dec(n / 100);
    let number = grouped(whole) + seq![','] + fraction;
    let s = money(minor);
    assert(s =~= number.push(' ').push('T').push('L'));
    assert forall|i: int| 0 <= i < number.len() implies !is_white(#[trigger] number[i])
        && number[i] != '-' && number[i] != '+' by {
        if i < grouped(whole).len() {
            assert(number[i] == grouped(whole)[i]);
        } else if i > grouped(whole).len() {
            assert(number[i] == fraction[i - grouped(whole).len() - 1]);
            assert(is_digit(fraction[i - grouped(whole).len() - 1]));
        }
    }
    squeeze_solid(number);
    assert(squeeze(number.push(' ')) == number) by {
        assert(number.push(' ').drop_last() =~= number);
    }
    squeeze_push(number.push(' '), 'T');
    squeeze_push(number.push(' ').push('T'), 'L');
    let squeezed = number.push('T').push('L');
    assert(squeeze(s) == squeezed);
    assert(squeezed.skip(squeezed.len() - 2) =~= seq!['T', 'L']);
    assert(squeezed.take(squeezed.len() - 2) =~= number);
    assert(without_end(squeezed, seq!['T', 'L']) == number);
    assert(is_digit(fraction[1]));
    assert(number.last() == fraction[1]);
    assert(number.skip(number.len() - 1)[0] == number.last());
    assert(number.skip(number.len() - 1) != seq!['₺']) by {
        assert(seq!['₺'][0] == '₺');
    }
    assert(bare(s) == number);
    assert(unsigned_part(number) == number);
    before_bound(number, ',');
    let at = grouped(whole).len() as int;
    assert(number[at] == ',');
    assert(before(number, ',') == at) by {
        let b = before(number, ',') as int;
        if b < at {
            assert(number[b] == grouped(whole)[b]);
        }
    }
    assert(number.take(at) =~= grouped(whole));
    assert(number.skip(at + 1) =~= fraction);
    assert(whole_digits(s) == whole);
    assert(fraction_digits(s) == fraction);
    assert(!bare(s).contains('-'));
    assert(amount_minor(s) == n);
}

} // verus!
