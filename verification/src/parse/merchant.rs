//! Merchant names: the key they are matched by, and the form they are shown in.

use crate::number::{digit, is_digit};
use crate::text::{chars_of, is_white, join, join_chars, same, split, split_on, split_words,
    string_of, views, word_len, word_len_bound, words};
use vstd::prelude::*;

verus! {

/// The merchant key of a card payment.
pub const PAYMENT_NORM: &'static str = "SUBE-HESAPTAN ODEME";

/// What `char::to_uppercase` gives first for a character.
pub uninterp spec fn first_uppercase(c: char) -> char;

/// `char::to_uppercase`: the first character of the mapping, which is a
/// function of the character alone. Nothing more is claimed of it.
#[verifier::external_body]
fn uppercase_first(c: char) -> (r: char)
    ensures
        r == first_uppercase(c),
{
    c.to_uppercase().next().unwrap_or(c)
}

/// An ASCII letter in upper case; another character as it is.
pub open spec fn ascii_upper(c: char) -> char {
    if 'a' <= c <= 'z' {
        (c as u32 - 32) as char
    } else {
        c
    }
}

/// Upper case for matching: the Turkish letters lose their marks, so that
/// the four forms of `i` are one letter.
pub open spec fn fold(c: char) -> char {
    if c == 'İ' || c == 'ı' || c == 'i' || c == 'I' {
        'I'
    } else if c == 'ş' || c == 'Ş' {
        'S'
    } else if c == 'ğ' || c == 'Ğ' {
        'G'
    } else if c == 'ü' || c == 'Ü' {
        'U'
    } else if c == 'ö' || c == 'Ö' {
        'O'
    } else if c == 'ç' || c == 'Ç' {
        'C'
    } else if c == 'â' || c == 'Â' {
        'A'
    } else if (c as u32) < 128 {
        ascii_upper(c)
    } else {
        first_uppercase(c)
    }
}

pub fn fold_char(c: char) -> (r: char)
    ensures
        r == fold(c),
{
    match c {
        'İ' | 'ı' | 'i' | 'I' => 'I',
        'ş' | 'Ş' => 'S',
        'ğ' | 'Ğ' => 'G',
        'ü' | 'Ü' => 'U',
        'ö' | 'Ö' => 'O',
        'ç' | 'Ç' => 'C',
        'â' | 'Â' => 'A',
        other => {
            if (other as u32) < 128 {
                if 'a' <= other && other <= 'z' {
                    (other as u8 - 32) as char
                } else {
                    other
                }
            } else {
                uppercase_first(other)
            }
        },
    }
}

/// A text folded character by character.
pub open spec fn folded(s: Seq<char>) -> Seq<char> {
    Seq::new(s.len(), |i: int| fold(s[i]))
}

/// Folds a text for matching.
pub fn fold_text(s: &[char]) -> (r: Vec<char>)
    ensures
        r@ == folded(s@),
{
    let mut r: Vec<char> = Vec::new();
    let mut i: usize = 0;
    while i < s.len()
        invariant
            i <= s.len(),
            r@ == folded(s@.take(i as int)),
        decreases s.len() - i,
    {
        r.push(fold_char(s[i]));
        proof {
            assert(r@ =~= folded(s@.take(i as int + 1)));
        }
        i += 1;
    }
    proof {
        assert(s@.take(s@.len() as int) =~= s@);
    }
    r
}

/// The cities that a merchant's key does not end in.
pub open spec fn is_city(token: Seq<char>) -> bool {
    ||| token == "KAYSERI"@
    ||| token == "KAYSER"@
    ||| token == "ISTANBUL"@
    ||| token == "ANKARA"@
    ||| token == "IZMIR"@
    ||| token == "ERZINCAN"@
    ||| token == "BURSA"@
    ||| token == "ANTALYA"@
    ||| token == "SAN"@
    ||| token == "FRANCISCO"@
    ||| token == "SINGAPORE"@
}

/// Whether a token is the given word.
fn is(token: &[char], word: &str) -> (r: bool)
    ensures
        r == (token@ == word@),
{
    let word = chars_of(word);
    same(token, &word)
}

fn city(token: &[char]) -> (r: bool)
    ensures
        r == is_city(token@),
{
    is(token, "KAYSERI") || is(token, "KAYSER") || is(token, "ISTANBUL") || is(token, "ANKARA")
        || is(token, "IZMIR") || is(token, "ERZINCAN") || is(token, "BURSA")
        || is(token, "ANTALYA") || is(token, "SAN") || is(token, "FRANCISCO")
        || is(token, "SINGAPORE")
}

/// The currencies that a foreign amount is printed with.
pub open spec fn is_currency(token: Seq<char>) -> bool {
    ||| token == "USD"@
    ||| token == "EUR"@
    ||| token == "GBP"@
    ||| token == "TRY"@
    ||| token == "TL"@
    ||| token == "CHF"@
    ||| token == "usd"@
    ||| token == "eur"@
    ||| token == "gbp"@
    ||| token == "try"@
    ||| token == "tl"@
    ||| token == "chf"@
}

pub fn is_fx_ccy(tok: &[char]) -> (r: bool)
    ensures
        r == is_currency(tok@),
{
    is(tok, "USD") || is(tok, "EUR") || is(tok, "GBP") || is(tok, "TRY") || is(tok, "TL") || is(
        tok,
        "CHF",
    ) || is(tok, "usd") || is(tok, "eur") || is(tok, "gbp") || is(tok, "try") || is(tok, "tl")
        || is(tok, "chf")
}

/// Decimal points and commas.
pub open spec fn is_separator(c: char) -> bool {
    c == '.' || c == ','
}

/// How many decimal points and commas a text holds.
pub open spec fn separators(s: Seq<char>) -> nat
    decreases s.len(),
{
    if s.len() == 0 {
        0
    } else {
        separators(s.drop_last()) + if is_separator(s.last()) {
            1nat
        } else {
            0nat
        }
    }
}

/// The number of a foreign amount: digits with at most one decimal point or
/// comma among them, and at least one digit.
pub open spec fn is_foreign_amount(s: Seq<char>) -> bool {
    &&& forall|i: int| 0 <= i < s.len() ==> is_digit(#[trigger] s[i]) || is_separator(s[i])
    &&& separators(s) <= 1
    &&& exists|i: int| 0 <= i < s.len() && is_digit(#[trigger] s[i])
}

proof fn separators_grow(s: Seq<char>, n: int)
    requires
        0 <= n <= s.len(),
    ensures
        separators(s.take(n)) <= separators(s),
    decreases s.len() - n,
{
    if n < s.len() {
        separators_grow(s, n + 1);
        assert(s.take(n + 1).drop_last() =~= s.take(n));
    } else {
        assert(s.take(n) =~= s);
    }
}

pub fn is_fx_amount(tok: &[char]) -> (r: bool)
    ensures
        r == is_foreign_amount(tok@),
{
    let mut saw_digit = false;
    let mut seps: u8 = 0;
    let mut i: usize = 0;
    while i < tok.len()
        invariant
            i <= tok.len(),
            seps <= 1,
            seps == separators(tok@.take(i as int)),
            saw_digit == exists|j: int| 0 <= j < i && is_digit(#[trigger] tok@[j]),
            forall|j: int|
                0 <= j < i ==> is_digit(#[trigger] tok@[j]) || is_separator(tok@[j]),
        decreases tok.len() - i,
    {
        let c = tok[i];
        proof {
            assert(tok@.take(i as int + 1).drop_last() =~= tok@.take(i as int));
            separators_grow(tok@, i as int + 1);
        }
        if digit(c) {
            proof {
                assert(is_digit(tok@[i as int]));
            }
            saw_digit = true;
        } else if c == '.' || c == ',' {
            if seps == 1 {
                return false;
            }
            seps = seps + 1;
        } else {
            proof {
                assert(!is_digit(tok@[i as int]) && !is_separator(tok@[i as int]));
            }
            return false;
        }
        i += 1;
    }
    proof {
        assert(tok@.take(tok@.len() as int) =~= tok@);
    }
    saw_digit
}

/// The tokens without the cities at their end; the first token stays.
pub open spec fn without_cities(tokens: Seq<Seq<char>>) -> Seq<Seq<char>>
    decreases tokens.len(),
{
    if tokens.len() > 1 && is_city(tokens.last()) {
        without_cities(tokens.drop_last())
    } else {
        tokens
    }
}

/// The tokens without the foreign amounts (currency, number) at their end.
pub open spec fn without_foreign_amounts(tokens: Seq<Seq<char>>) -> Seq<Seq<char>>
    decreases tokens.len(),
{
    if tokens.len() > 1 && is_foreign_amount(tokens.last()) && is_currency(
        tokens[tokens.len() - 2],
    ) {
        without_foreign_amounts(tokens.take(tokens.len() - 2))
    } else {
        tokens
    }
}

fn strip_cities(tokens: &mut Vec<Vec<char>>)
    ensures
        views(final(tokens)@) == without_cities(views(old(tokens)@)),
{
    while tokens.len() > 1 && city(&tokens[tokens.len() - 1])
        invariant
            without_cities(views(old(tokens)@)) == without_cities(views(tokens@)),
        ensures
            views(tokens@) == without_cities(views(old(tokens)@)),
        decreases tokens.len(),
    {
        let ghost all = views(tokens@);
        tokens.pop();
        proof {
            assert(views(tokens@) =~= all.drop_last());
        }
    }
}

pub fn strip_fx_tokens(tokens: &mut Vec<Vec<char>>)
    ensures
        views(final(tokens)@) == without_foreign_amounts(views(old(tokens)@)),
{
    while tokens.len() > 1 && is_fx_amount(&tokens[tokens.len() - 1]) && is_fx_ccy(
        &tokens[tokens.len() - 2],
    )
        invariant
            without_foreign_amounts(views(old(tokens)@)) == without_foreign_amounts(
                views(tokens@),
            ),
        ensures
            views(tokens@) == without_foreign_amounts(views(old(tokens)@)),
        decreases tokens.len(),
    {
        let ghost all = views(tokens@);
        tokens.pop();
        tokens.pop();
        proof {
            assert(views(tokens@) =~= all.take(all.len() - 2));
        }
    }
}

/// The key that a merchant is matched by: its words in folded upper case,
/// without the cities and then the foreign amounts at their end.
pub open spec fn norm(raw: Seq<char>) -> Seq<char> {
    join(
        without_foreign_amounts(without_cities(split(folded(join(words(raw), " "@)), ' '))),
        " "@,
    )
}

pub fn norm_chars(raw: &[char]) -> (r: Vec<char>)
    ensures
        r@ == norm(raw@),
{
    let words = split_words(raw);
    let line = join_chars(&words, " ");
    let line = fold_text(&line);
    let mut tokens = split_on(&line, ' ');
    strip_cities(&mut tokens);
    strip_fx_tokens(&mut tokens);
    join_chars(&tokens, " ")
}

/// The key that a merchant is matched by.
pub fn merchant_norm(raw: &str) -> (r: String)
    ensures
        r@ == norm(raw@),
{
    let raw = chars_of(raw);
    let norm = norm_chars(&raw);
    string_of(&norm)
}

/// The form that a merchant is shown in: its words as printed, without the
/// foreign amounts at their end.
pub open spec fn stem(raw: Seq<char>) -> Seq<char> {
    join(without_foreign_amounts(words(raw)), " "@)
}

/// The form that a merchant is shown in.
pub fn merchant_stem_display(raw: &str) -> (r: String)
    ensures
        r@ == stem(raw@),
{
    let raw = chars_of(raw);
    let mut tokens = split_words(&raw);
    strip_fx_tokens(&mut tokens);
    let line = join_chars(&tokens, " ");
    string_of(&line)
}

/// Each text of a list folded.
pub open spec fn folded_each(list: Seq<Seq<char>>) -> Seq<Seq<char>> {
    Seq::new(list.len(), |i: int| folded(list[i]))
}

proof fn join_folds(list: Seq<Seq<char>>)
    ensures
        folded(join(list, " "@)) == join(folded_each(list), " "@),
    decreases list.len(),
{
    reveal_strlit(" ");
    if list.len() > 1 {
        join_folds(list.drop_last());
        assert(folded_each(list).drop_last() =~= folded_each(list.drop_last()));
        assert(folded(join(list.drop_last(), " "@) + " "@ + list.last()) =~= folded(
            join(list.drop_last(), " "@),
        ) + " "@ + folded(list.last()));
    } else if list.len() == 0 {
        assert(folded(join(list, " "@)) =~= Seq::<char>::empty());
    }
}

/// Names that differ only in how their words are spaced, or in what folding
/// takes away (case and the marks of Turkish letters), have one key.
pub proof fn names_of_the_same_folded_words_have_one_key(a: Seq<char>, b: Seq<char>)
    requires
        folded_each(words(a)) == folded_each(words(b)),
    ensures
        norm(a) == norm(b),
{
    join_folds(words(a));
    join_folds(words(b));
}

/// Folding neither takes a character from white space nor to it.
pub open spec fn keeps_white(c: char) -> bool {
    is_white(fold(c)) == is_white(c)
}

/// Folding a character twice folds it no further, and keeps it as white as it
/// is.
pub open spec fn is_settled(c: char) -> bool {
    fold(fold(c)) == fold(c) && keeps_white(c)
}

/// An ASCII character, or a Turkish letter that folding knows by itself.
pub open spec fn is_known_letter(c: char) -> bool {
    ||| (c as u32) < 128
    ||| c == 'İ' || c == 'ı'
    ||| c == 'ş' || c == 'Ş'
    ||| c == 'ğ' || c == 'Ğ'
    ||| c == 'ü' || c == 'Ü'
    ||| c == 'ö' || c == 'Ö'
    ||| c == 'ç' || c == 'Ç'
    ||| c == 'â' || c == 'Â'
}

pub proof fn known_letters_are_settled(c: char)
    requires
        is_known_letter(c),
    ensures
        is_settled(c),
{
    if 'a' <= c <= 'z' {
        let upper = (c as u32 - 32) as char;
        assert('A' <= upper <= 'Z');
    }
}

proof fn folded_word_len(s: Seq<char>)
    requires
        forall|i: int| 0 <= i < s.len() ==> keeps_white(#[trigger] s[i]),
    ensures
        word_len(folded(s)) == word_len(s),
    decreases s.len(),
{
    if s.len() > 0 {
        assert(keeps_white(s[0]));
        folded_word_len(s.skip(1));
        assert(folded(s).skip(1) =~= folded(s.skip(1)));
    }
}

proof fn folded_words(s: Seq<char>)
    requires
        forall|i: int| 0 <= i < s.len() ==> keeps_white(#[trigger] s[i]),
    ensures
        words(folded(s)) == folded_each(words(s)),
    decreases s.len(),
{
    let f = folded(s);
    if s.len() == 0 {
        assert(f =~= s);
        assert(folded_each(words(s)) =~= words(f));
    } else {
        assert(keeps_white(s[0]));
        if is_white(s[0]) {
            folded_words(s.skip(1));
            assert(f.skip(1) =~= folded(s.skip(1)));
        } else {
            word_len_bound(s);
            folded_word_len(s);
            let n = word_len(s) as int;
            folded_words(s.skip(n));
            assert(f.skip(n) =~= folded(s.skip(n)));
            assert(f.take(n) =~= folded(s.take(n)));
            let rest = words(s.skip(n));
            assert(folded_each(seq![s.take(n)] + rest) =~= seq![f.take(n)] + folded_each(rest));
        }
    }
}

/// Names whose folded texts have the same words have one key.
pub proof fn names_that_fold_to_the_same_words_have_one_key(a: Seq<char>, b: Seq<char>)
    requires
        forall|i: int| 0 <= i < a.len() ==> is_known_letter(#[trigger] a[i]) || keeps_white(a[i]),
        forall|i: int| 0 <= i < b.len() ==> is_known_letter(#[trigger] b[i]) || keeps_white(b[i]),
        words(folded(a)) == words(folded(b)),
    ensures
        norm(a) == norm(b),
{
    assert forall|i: int| 0 <= i < a.len() implies keeps_white(#[trigger] a[i]) by {
        if is_known_letter(a[i]) {
            known_letters_are_settled(a[i]);
        }
    }
    assert forall|i: int| 0 <= i < b.len() implies keeps_white(#[trigger] b[i]) by {
        if is_known_letter(b[i]) {
            known_letters_are_settled(b[i]);
        }
    }
    folded_words(a);
    folded_words(b);
    names_of_the_same_folded_words_have_one_key(a, b);
}

/// A folded name has the key of the name.
pub proof fn folded_name_has_the_same_key(raw: Seq<char>)
    requires
        forall|i: int|
            0 <= i < raw.len() ==> is_known_letter(#[trigger] raw[i]) || is_settled(raw[i]),
    ensures
        norm(folded(raw)) == norm(raw),
{
    let f = folded(raw);
    assert forall|i: int| 0 <= i < raw.len() implies is_settled(#[trigger] raw[i]) by {
        if is_known_letter(raw[i]) {
            known_letters_are_settled(raw[i]);
        }
    }
    assert forall|i: int| 0 <= i < f.len() implies keeps_white(#[trigger] f[i]) by {
        assert(is_settled(raw[i]));
    }
    assert forall|i: int| 0 <= i < raw.len() implies keeps_white(#[trigger] raw[i]) by {
        assert(is_settled(raw[i]));
    }
    assert forall|i: int| 0 <= i < raw.len() implies fold(#[trigger] f[i]) == f[i] by {
        assert(is_settled(raw[i]));
    }
    assert(folded(f) =~= f);
    folded_words(f);
    folded_words(raw);
    names_of_the_same_folded_words_have_one_key(f, raw);
}

} // verus!
