//! Laws of merchant names.

use crate::number::is_digit;
use crate::parse::merchant::{fold, folded, folded_each, is_city, is_currency, is_foreign_amount,
    is_known_letter, is_separator, keeps_white, known_letters_are_settled, norm, separators, stem,
    without_cities, without_foreign_amounts};
use crate::text::{before, before_bound, is_white, join, split, word_len, word_len_bound, words};
use vstd::prelude::*;

verus! {

/// The places whose names the bank prints behind a merchant's.
pub open spec fn places() -> Seq<Seq<char>> {
    seq![
        "KAYSERI"@,
        "KAYSER"@,
        "ISTANBUL"@,
        "ANKARA"@,
        "IZMIR"@,
        "ERZINCAN"@,
        "BURSA"@,
        "ANTALYA"@,
        "SAN"@,
        "FRANCISCO"@,
        "SINGAPORE"@,
    ]
}

/// The currencies that the bank prints before a foreign amount, in upper case.
pub open spec fn currencies() -> Seq<Seq<char>> {
    seq!["USD"@, "EUR"@, "GBP"@, "TRY"@, "TL"@, "CHF"@]
}

/// A currency in lower case.
pub open spec fn small_currencies() -> Seq<Seq<char>> {
    seq!["usd"@, "eur"@, "gbp"@, "try"@, "tl"@, "chf"@]
}

/// A number as the bank prints foreign amounts: digits, with one decimal point
/// or comma at most.
pub open spec fn is_printed_number(s: Seq<char>) -> bool {
    &&& forall|i: int| 0 <= i < s.len() ==> '0' <= #[trigger] s[i] <= '9' || s[i] == '.' || s[i] == ','
    &&& forall|i: int, j: int|
        0 <= i < j < s.len() ==> '0' <= #[trigger] s[i] <= '9' || '0' <= #[trigger] s[j] <= '9'
    &&& exists|i: int| 0 <= i < s.len() && '0' <= #[trigger] s[i] <= '9'
}

proof fn places_are_cities(token: Seq<char>)
    ensures
        places().contains(token) <==> is_city(token),
{
    let all = places();
    assert(all[0] == "KAYSERI"@ && all[1] == "KAYSER"@ && all[2] == "ISTANBUL"@ && all[3]
        == "ANKARA"@ && all[4] == "IZMIR"@ && all[5] == "ERZINCAN"@ && all[6] == "BURSA"@ && all[7]
        == "ANTALYA"@ && all[8] == "SAN"@ && all[9] == "FRANCISCO"@ && all[10] == "SINGAPORE"@);
    if is_city(token) {
        assert(exists|i: int| 0 <= i < all.len() && all[i] == token);
    }
}

proof fn currencies_are_known(token: Seq<char>)
    ensures
        currencies().contains(token) || small_currencies().contains(token) <==> is_currency(token),
{
    let a = currencies();
    let b = small_currencies();
    assert(a[0] == "USD"@ && a[1] == "EUR"@ && a[2] == "GBP"@ && a[3] == "TRY"@ && a[4] == "TL"@
        && a[5] == "CHF"@);
    assert(b[0] == "usd"@ && b[1] == "eur"@ && b[2] == "gbp"@ && b[3] == "try"@ && b[4] == "tl"@
        && b[5] == "chf"@);
    if is_currency(token) {
        assert((exists|i: int| 0 <= i < a.len() && a[i] == token) || (exists|i: int|
            0 <= i < b.len() && b[i] == token));
    }
}

/// One separator at most is one that no other follows.
proof fn few_separators(s: Seq<char>)
    ensures
        separators(s) <= 1 <==> forall|i: int, j: int|
            0 <= i < j < s.len() ==> !(is_separator(#[trigger] s[i]) && is_separator(
                #[trigger] s[j],
            )),
        separators(s) == 0 <==> forall|i: int| 0 <= i < s.len() ==> !is_separator(#[trigger] s[i]),
    decreases s.len(),
{
    if s.len() > 0 {
        let init = s.drop_last();
        few_separators(init);
        assert forall|i: int| 0 <= i < init.len() implies #[trigger] init[i] == s[i] by {}
        if separators(s) <= 1 {
            assert forall|i: int, j: int| 0 <= i < j < s.len() implies !(is_separator(
                #[trigger] s[i],
            ) && is_separator(#[trigger] s[j])) by {
                assert(init[i] == s[i]);
                if j < s.len() - 1 {
                    assert(init[j] == s[j]);
                }
            }
        } else if separators(init) > 1 {
            let (i, j) = choose|i: int, j: int|
                0 <= i < j < init.len() && is_separator(#[trigger] init[i]) && is_separator(
                    #[trigger] init[j],
                );
            assert(is_separator(s[i]) && is_separator(s[j]));
        } else {
            let i = choose|i: int| 0 <= i < init.len() && is_separator(#[trigger] init[i]);
            let last = s.len() - 1;
            assert(is_separator(s[i]) && is_separator(s[last]));
        }
        if separators(s) == 0 {
            assert forall|i: int| 0 <= i < s.len() implies !is_separator(#[trigger] s[i]) by {
                if i < s.len() - 1 {
                    assert(init[i] == s[i]);
                }
            }
        } else if separators(init) > 0 {
            let i = choose|i: int| 0 <= i < init.len() && is_separator(#[trigger] init[i]);
            assert(is_separator(s[i]));
        } else {
            let last = s.len() - 1;
            assert(is_separator(s[last]));
        }
    }
}

proof fn printed_numbers_are_amounts(s: Seq<char>)
    ensures
        is_printed_number(s) <==> is_foreign_amount(s),
{
    few_separators(s);
    if is_printed_number(s) {
        assert forall|i: int| 0 <= i < s.len() implies is_digit(#[trigger] s[i]) || is_separator(
            s[i],
        ) by {}
        assert forall|i: int, j: int| 0 <= i < j < s.len() implies !(is_separator(#[trigger] s[i])
            && is_separator(#[trigger] s[j])) by {}
        let i = choose|i: int| 0 <= i < s.len() && '0' <= #[trigger] s[i] <= '9';
        assert(is_digit(s[i]));
    }
    if is_foreign_amount(s) {
        assert forall|i: int| 0 <= i < s.len() implies '0' <= #[trigger] s[i] <= '9' || s[i] == '.'
            || s[i] == ',' by {
            assert(is_digit(s[i]) || is_separator(s[i]));
        }
        assert forall|i: int, j: int| 0 <= i < j < s.len() implies '0' <= #[trigger] s[i] <= '9'
            || '0' <= #[trigger] s[j] <= '9' by {
            assert(is_digit(s[i]) || is_separator(s[i]));
            assert(is_digit(s[j]) || is_separator(s[j]));
        }
        let i = choose|i: int| 0 <= i < s.len() && is_digit(#[trigger] s[i]);
        assert('0' <= s[i] <= '9');
    }
}

proof fn before_behind(a: Seq<char>, b: Seq<char>, c: char)
    ensures
        before(a + seq![c] + b, c) == before(a, c),
    decreases a.len(),
{
    let s = a + seq![c] + b;
    if a.len() == 0 {
        assert(s[0] == c);
    } else if a[0] != c {
        before_behind(a.skip(1), b, c);
        assert(s.skip(1) =~= a.skip(1) + seq![c] + b);
    }
}

/// A text is cut at a separator into what its two sides are cut into.
pub proof fn split_at_a_separator(a: Seq<char>, b: Seq<char>, c: char)
    ensures
        split(a + seq![c] + b, c) == split(a, c) + split(b, c),
    decreases a.len(),
{
    let s = a + seq![c] + b;
    before_behind(a, b, c);
    before_bound(a, c);
    let n = before(a, c) as int;
    if n >= a.len() {
        assert(s.take(n) =~= a);
        assert(s.skip(n + 1) =~= b);
    } else {
        split_at_a_separator(a.skip(n + 1), b, c);
        assert(s.take(n) =~= a.take(n));
        assert(s.skip(n + 1) =~= a.skip(n + 1) + seq![c] + b);
        let first = seq![a.take(n)];
        assert(first + (split(a.skip(n + 1), c) + split(b, c)) =~= (first + split(a.skip(n + 1), c))
            + split(b, c));
    }
}

/// A text without the separator is one piece.
pub proof fn split_of_one_piece(a: Seq<char>, c: char)
    requires
        !a.contains(c),
    ensures
        split(a, c) == seq![a],
{
    before_bound(a, c);
}

/// Joined pieces without the separator are cut into the pieces again.
pub proof fn split_of_joined(list: Seq<Seq<char>>)
    requires
        list.len() > 0,
        forall|i: int| 0 <= i < list.len() ==> !(#[trigger] list[i]).contains(' '),
    ensures
        split(join(list, " "@), ' ') == list,
    decreases list.len(),
{
    reveal_strlit(" ");
    assert(" "@ =~= seq![' ']);
    if list.len() == 1 {
        split_of_one_piece(list[0], ' ');
        assert(seq![list[0]] =~= list);
    } else {
        let init = list.drop_last();
        assert forall|i: int| 0 <= i < init.len() implies !(#[trigger] init[i]).contains(' ') by {
            assert(init[i] == list[i]);
        }
        split_of_joined(init);
        let last = list.last();
        assert(last == list[list.len() - 1]);
        split_of_one_piece(last, ' ');
        split_at_a_separator(join(init, " "@), last, ' ');
        assert(init + seq![last] =~= list);
    }
}

proof fn word_len_before_white(s: Seq<char>, t: Seq<char>)
    requires
        t.len() > 0 ==> is_white(t[0]),
    ensures
        word_len(s + t) == word_len(s),
    decreases s.len(),
{
    if s.len() == 0 {
        assert(s + t =~= t);
    } else {
        assert((s + t)[0] == s[0]);
        if !is_white(s[0]) {
            word_len_before_white(s.skip(1), t);
            assert((s + t).skip(1) =~= s.skip(1) + t);
        }
    }
}

/// The words of a text and of one that white space parts from it.
pub proof fn words_of_both(a: Seq<char>, b: Seq<char>)
    requires
        b.len() > 0 ==> is_white(b[0]),
    ensures
        words(a + b) == words(a) + words(b),
    decreases a.len(),
{
    let s = a + b;
    if a.len() == 0 {
        assert(s =~= b);
        assert(words(a) + words(b) =~= words(b));
    } else {
        assert(s[0] == a[0]);
        if is_white(a[0]) {
            words_of_both(a.skip(1), b);
            assert(s.skip(1) =~= a.skip(1) + b);
        } else {
            word_len_bound(a);
            word_len_before_white(a, b);
            let n = word_len(a) as int;
            words_of_both(a.skip(n), b);
            assert(s.take(n) =~= a.take(n));
            assert(s.skip(n) =~= a.skip(n) + b);
            assert(seq![a.take(n)] + (words(a.skip(n)) + words(b)) =~= (seq![a.take(n)] + words(
                a.skip(n),
            )) + words(b));
        }
    }
}

/// A word alone.
pub proof fn words_of_a_word(w: Seq<char>)
    requires
        w.len() > 0,
        forall|i: int| 0 <= i < w.len() ==> !is_white(#[trigger] w[i]),
    ensures
        words(w) == seq![w],
{
    word_len_bound(w);
    let n = word_len(w) as int;
    if n < w.len() {
        assert(is_white(w[n]));
    }
    assert(w.take(n) =~= w);
    assert(words(w.skip(n)) =~= Seq::<Seq<char>>::empty());
    assert(words(w) =~= seq![w]);
}

/// The words of a text are not empty and have no white space.
pub proof fn words_are_words(s: Seq<char>, i: int)
    requires
        0 <= i < words(s).len(),
    ensures
        words(s)[i].len() > 0,
        forall|j: int| 0 <= j < words(s)[i].len() ==> !is_white(#[trigger] words(s)[i][j]),
    decreases s.len(),
{
    if s.len() > 0 {
        if is_white(s[0]) {
            words_are_words(s.skip(1), i);
        } else {
            word_len_bound(s);
            let n = word_len(s) as int;
            let rest = words(s.skip(n));
            assert(words(s) =~= seq![s.take(n)] + rest);
            if i == 0 {
                assert(words(s)[0] == s.take(n));
            } else {
                words_are_words(s.skip(n), i - 1);
                assert(words(s)[i] == rest[i - 1]);
            }
        }
    }
}

/// A word of letters that folding knows.
pub open spec fn is_plain_word(w: Seq<char>) -> bool {
    w.len() > 0 && forall|i: int|
        0 <= i < w.len() ==> is_known_letter(#[trigger] w[i]) && !is_white(w[i])
}

/// The tokens of a name's key before its end is cut off.
pub open spec fn tokens(raw: Seq<char>) -> Seq<Seq<char>> {
    split(folded(join(words(raw), " "@)), ' ')
}

proof fn some_token(raw: Seq<char>)
    ensures
        tokens(raw).len() > 0,
{
    let s = folded(join(words(raw), " "@));
    before_bound(s, ' ');
}

/// A word behind a name is one token more.
proof fn token_behind(raw: Seq<char>, w: Seq<char>)
    requires
        words(raw).len() > 0,
        is_plain_word(w),
    ensures
        tokens(raw + " "@ + w) == tokens(raw).push(folded(w)),
        words(raw + " "@ + w) == words(raw).push(w),
{
    reveal_strlit(" ");
    assert(" "@ =~= seq![' ']);
    let tail = " "@ + w;
    words_of_both(raw, tail);
    assert(tail.skip(1) =~= w);
    words_of_a_word(w);
    assert(words(tail) == words(w));
    assert(raw + " "@ + w =~= raw + tail);
    let all = words(raw).push(w);
    assert(words(raw) + seq![w] =~= all);
    assert(all.drop_last() =~= words(raw));
    let line = join(words(raw), " "@);
    assert(join(all, " "@) == line + " "@ + w);
    assert(folded(line + " "@ + w) =~= folded(line) + seq![' '] + folded(w));
    let f = folded(w);
    assert(!f.contains(' ')) by {
        if f.contains(' ') {
            let i = choose|i: int| 0 <= i < f.len() && f[i] == ' ';
            known_letters_are_settled(w[i]);
            assert(keeps_white(w[i]));
        }
    }
    split_at_a_separator(folded(line), f, ' ');
    split_of_one_piece(f, ' ');
    assert(tokens(raw) + seq![f] =~= tokens(raw).push(f));
}

/// The name of a place behind a merchant's, however it is written, changes no
/// key.
pub proof fn place_behind_a_name_changes_no_key(raw: Seq<char>, place: Seq<char>)
    requires
        words(raw).len() > 0,
        is_plain_word(place),
        places().contains(folded(place)),
    ensures
        norm(raw + " "@ + place) == norm(raw),
{
    token_behind(raw, place);
    some_token(raw);
    places_are_cities(folded(place));
    let all = tokens(raw).push(folded(place));
    assert(all.drop_last() =~= tokens(raw));
    assert(all.last() == folded(place));
}

/// A foreign amount behind a merchant's name changes no key, where the name
/// does not end in a place's.
pub proof fn foreign_amount_behind_a_name_changes_no_key(
    raw: Seq<char>,
    currency: Seq<char>,
    number: Seq<char>,
)
    requires
        words(raw).len() > 0,
        is_plain_word(currency),
        currencies().contains(folded(currency)),
        is_printed_number(number),
        forall|i: int|
            0 <= i < raw.len() ==> is_known_letter(#[trigger] raw[i]) || keeps_white(raw[i]),
        words(raw).len() == 1 || !places().contains(folded(words(raw).last())),
    ensures
        norm(raw + " "@ + currency + " "@ + number) == norm(raw),
{
    tokens_are_folded_words(raw);
    places_are_cities(folded(words(raw).last()));
    let with_currency = raw + " "@ + currency;
    token_behind(raw, currency);
    assert forall|i: int| 0 <= i < number.len() implies is_known_letter(#[trigger] number[i])
        && !is_white(number[i]) by {}
    assert(is_plain_word(number));
    token_behind(with_currency, number);
    assert(folded(number) =~= number) by {
        assert forall|i: int| 0 <= i < number.len() implies fold(#[trigger] number[i])
            == number[i] by {}
    }
    currencies_are_known(folded(currency));
    printed_numbers_are_amounts(number);
    some_token(raw);
    let all = tokens(raw).push(folded(currency)).push(number);
    assert(!is_city(number)) by {
        numbers_are_no_places(number);
    }
    assert(without_cities(all) == all);
    assert(all.take(all.len() - 2) =~= tokens(raw));
    assert(all[all.len() - 2] == folded(currency));
}

proof fn numbers_are_no_places(number: Seq<char>)
    requires
        is_printed_number(number),
    ensures
        !is_city(number),
{
    reveal_strlit("KAYSERI");
    reveal_strlit("KAYSER");
    reveal_strlit("ISTANBUL");
    reveal_strlit("ANKARA");
    reveal_strlit("IZMIR");
    reveal_strlit("ERZINCAN");
    reveal_strlit("BURSA");
    reveal_strlit("ANTALYA");
    reveal_strlit("SAN");
    reveal_strlit("FRANCISCO");
    reveal_strlit("SINGAPORE");
    if is_city(number) {
        assert('0' <= number[0] <= '9' || number[0] == '.' || number[0] == ',');
    }
}

/// The tokens from one position to another are places.
pub open spec fn are_places(tokens: Seq<Seq<char>>, from: int, to: int) -> bool {
    forall|i: int| from <= i < to ==> places().contains(#[trigger] tokens[i])
}

/// The tokens from one position to another are foreign amounts: a currency and
/// a number, one after the other.
pub open spec fn are_foreign_amounts(tokens: Seq<Seq<char>>, from: int, to: int) -> bool {
    &&& (to - from) % 2 == 0
    &&& forall|i: int|
        from <= i < to ==> if (i - from) % 2 == 0 {
            currencies().contains(#[trigger] tokens[i]) || small_currencies().contains(tokens[i])
        } else {
            is_printed_number(tokens[i])
        }
}

/// A position behind a foreign amount.
pub open spec fn ends_in_a_foreign_amount(tokens: Seq<Seq<char>>, n: int) -> bool {
    n > 1 && is_printed_number(tokens[n - 1]) && (currencies().contains(tokens[n - 2])
        || small_currencies().contains(tokens[n - 2]))
}

/// Where the cities at the end of tokens start.
proof fn cities_end_at(tokens: Seq<Seq<char>>) -> (n: int)
    ensures
        0 <= n <= tokens.len(),
        tokens.len() > 0 ==> n > 0,
        without_cities(tokens) == tokens.take(n),
        are_places(tokens, n, tokens.len() as int),
        n <= 1 || !places().contains(tokens[n - 1]),
    decreases tokens.len(),
{
    if tokens.len() > 1 && is_city(tokens.last()) {
        let init = tokens.drop_last();
        let n = cities_end_at(init);
        assert(init.take(n) =~= tokens.take(n));
        assert forall|i: int| n <= i < tokens.len() implies places().contains(
            #[trigger] tokens[i],
        ) by {
            if i < init.len() {
                assert(init[i] == tokens[i]);
            } else {
                places_are_cities(tokens[i]);
            }
        }
        if n > 1 {
            assert(init[n - 1] == tokens[n - 1]);
        }
        n
    } else {
        assert(tokens.take(tokens.len() as int) =~= tokens);
        if tokens.len() > 0 {
            places_are_cities(tokens.last());
        }
        tokens.len() as int
    }
}

proof fn amounts_end_at(tokens: Seq<Seq<char>>) -> (n: int)
    ensures
        0 <= n <= tokens.len(),
        without_foreign_amounts(tokens) == tokens.take(n),
        are_foreign_amounts(tokens, n, tokens.len() as int),
        !ends_in_a_foreign_amount(tokens, n),
    decreases tokens.len(),
{
    let len = tokens.len() as int;
    if len > 1 {
        printed_numbers_are_amounts(tokens[len - 1]);
        currencies_are_known(tokens[len - 2]);
    }
    if len > 1 && is_foreign_amount(tokens.last()) && is_currency(tokens[len - 2]) {
        let init = tokens.take(len - 2);
        let n = amounts_end_at(init);
        assert(init.take(n) =~= tokens.take(n));
        assert forall|i: int| n <= i < len implies if (i - n) % 2 == 0 {
            currencies().contains(#[trigger] tokens[i]) || small_currencies().contains(tokens[i])
        } else {
            is_printed_number(tokens[i])
        } by {
            if i < len - 2 {
                assert(init[i] == tokens[i]);
            }
        }
        if n > 1 {
            assert(init[n - 1] == tokens[n - 1] && init[n - 2] == tokens[n - 2]);
        }
        n
    } else {
        assert(tokens.take(len) =~= tokens);
        len
    }
}

/// The key of a name is its folded words without their end. What is cut off is
/// the names of places and, before these, foreign amounts; and no more of
/// either could be cut off, but for a first word that names a place.
pub proof fn key_is_the_name_without_its_end(raw: Seq<char>)
    requires
        words(raw).len() > 0,
        forall|i: int|
            0 <= i < raw.len() ==> is_known_letter(#[trigger] raw[i]) || keeps_white(raw[i]),
    ensures
        ({
            let all = folded_each(words(raw));
            exists|m: int, n: int|
                0 <= m <= n <= all.len() && 0 < n && norm(raw) == #[trigger] join(
                    all.take(m),
                    " "@,
                ) && #[trigger] are_places(all, n, all.len() as int) && (n == 1
                    || !places().contains(all[n - 1])) && are_foreign_amounts(all, m, n)
                    && !ends_in_a_foreign_amount(all, m)
        }),
{
    let all = folded_each(words(raw));
    tokens_are_folded_words(raw);
    let n = cities_end_at(all);
    let kept = all.take(n);
    let m = amounts_end_at(kept);
    assert(kept.take(m) =~= all.take(m));
    assert forall|i: int| m <= i < n implies if (i - m) % 2 == 0 {
        currencies().contains(#[trigger] all[i]) || small_currencies().contains(all[i])
    } else {
        is_printed_number(all[i])
    } by {
        assert(kept[i] == all[i]);
    }
    if m > 1 {
        assert(kept[m - 1] == all[m - 1] && kept[m - 2] == all[m - 2]);
    }
    assert(norm(raw) == join(all.take(m), " "@));
    assert(are_places(all, n, all.len() as int));
}

proof fn tokens_are_folded_words(raw: Seq<char>)
    requires
        words(raw).len() > 0,
        forall|i: int|
            0 <= i < raw.len() ==> is_known_letter(#[trigger] raw[i]) || keeps_white(raw[i]),
    ensures
        tokens(raw) == folded_each(words(raw)),
{
    let all = folded_each(words(raw));
    joined_words_fold(words(raw));
    assert forall|i: int| 0 <= i < all.len() implies !(#[trigger] all[i]).contains(' ') by {
        words_are_words(raw, i);
        if all[i].contains(' ') {
            let j = choose|j: int| 0 <= j < all[i].len() && all[i][j] == ' ';
            let c = words(raw)[i][j];
            assert(!is_white(c));
            letter_of_the_text(raw, i, j);
            if is_known_letter(c) {
                known_letters_are_settled(c);
            }
            assert(keeps_white(c));
        }
    }
    split_of_joined(all);
}

proof fn joined_words_fold(list: Seq<Seq<char>>)
    ensures
        folded(join(list, " "@)) == join(folded_each(list), " "@),
    decreases list.len(),
{
    reveal_strlit(" ");
    if list.len() > 1 {
        joined_words_fold(list.drop_last());
        assert(folded_each(list).drop_last() =~= folded_each(list.drop_last()));
        assert(folded(join(list.drop_last(), " "@) + " "@ + list.last()) =~= folded(
            join(list.drop_last(), " "@),
        ) + " "@ + folded(list.last()));
    } else if list.len() == 0 {
        assert(folded(join(list, " "@)) =~= Seq::<char>::empty());
    }
}

/// A character of a word stands in the text.
proof fn letter_of_the_text(s: Seq<char>, i: int, j: int)
    requires
        0 <= i < words(s).len(),
        0 <= j < words(s)[i].len(),
    ensures
        exists|k: int| 0 <= k < s.len() && s[k] == words(s)[i][j],
    decreases s.len(),
{
    if s.len() > 0 {
        if is_white(s[0]) {
            letter_of_the_text(s.skip(1), i, j);
            let k = choose|k: int| 0 <= k < s.skip(1).len() && s.skip(1)[k] == words(s)[i][j];
            assert(s[k + 1] == words(s)[i][j]);
        } else {
            word_len_bound(s);
            let n = word_len(s) as int;
            let rest = words(s.skip(n));
            assert(words(s) =~= seq![s.take(n)] + rest);
            if i == 0 {
                assert(s[j] == words(s)[i][j]);
            } else {
                assert(words(s)[i] == rest[i - 1]);
                letter_of_the_text(s.skip(n), i - 1, j);
                let k = choose|k: int|
                    0 <= k < s.skip(n).len() && s.skip(n)[k] == words(s)[i][j];
                assert(s[k + n] == words(s)[i][j]);
            }
        }
    }
}

/// The form that a name is shown in is its words as they are printed, without
/// the foreign amounts at their end; places stay.
pub proof fn shown_form_is_the_name_without_foreign_amounts(raw: Seq<char>)
    ensures
        ({
            let all = words(raw);
            exists|m: int|
                0 <= m <= all.len() && stem(raw) == #[trigger] join(all.take(m), " "@)
                    && are_foreign_amounts(all, m, all.len() as int) && !ends_in_a_foreign_amount(
                    all,
                    m,
                )
        }),
{
    let m = amounts_end_at(words(raw));
    assert(stem(raw) == join(words(raw).take(m), " "@));
}

/// Folding puts ASCII letters in upper case and keeps the other ASCII
/// characters; a Turkish letter becomes the plain letter under its mark, in
/// upper case.
pub proof fn folding_keeps_the_letter(c: char)
    ensures
        'a' <= c <= 'z' ==> fold(c) as u32 == c as u32 - 32,
        (c as u32) < 128 && !('a' <= c <= 'z') ==> fold(c) == c,
        c == 'ı' || c == 'İ' ==> fold(c) == fold('i'),
        c == 'ş' || c == 'Ş' ==> fold(c) == fold('s'),
        c == 'ğ' || c == 'Ğ' ==> fold(c) == fold('g'),
        c == 'ü' || c == 'Ü' ==> fold(c) == fold('u'),
        c == 'ö' || c == 'Ö' ==> fold(c) == fold('o'),
        c == 'ç' || c == 'Ç' ==> fold(c) == fold('c'),
        c == 'â' || c == 'Â' ==> fold(c) == fold('a'),
{
    if 'a' <= c <= 'z' {
        let upper = (c as u32 - 32) as char;
        assert(upper as u32 == c as u32 - 32);
    }
    assert((115u32 - 32) as char == 'S');
    assert((103u32 - 32) as char == 'G');
    assert((117u32 - 32) as char == 'U');
    assert((111u32 - 32) as char == 'O');
    assert((99u32 - 32) as char == 'C');
    assert((97u32 - 32) as char == 'A');
}

} // verus!
