//! Values in URLs.

use crate::text::{before, chars_of, find, same, split, split_on, string_of, views};
use vstd::prelude::*;
use vstd::slice::slice_subrange;
use vstd::utf8::{decode_utf8, encode_utf8, encode_utf8_decode_utf8, encode_utf8_valid_utf8,
    is_ascii_chars, is_ascii_chars_encode_utf8, valid_utf8};

verus! {

/// A byte that stands for itself in a URL.
pub open spec fn is_unreserved(b: u8) -> bool {
    65 <= b <= 90 || 97 <= b <= 122 || 48 <= b <= 57 || b == 45 || b == 95 || b == 46 || b == 126
}

/// The hexadecimal digit of a number below sixteen, in upper case.
pub open spec fn hex_upper(n: int) -> char {
    if n < 10 {
        (48 + n) as char
    } else {
        (55 + n) as char
    }
}

/// A byte as a URL has it.
pub open spec fn encoded_byte(b: u8) -> Seq<char> {
    if is_unreserved(b) {
        seq![b as char]
    } else {
        seq!['%', hex_upper(b as int / 16), hex_upper(b as int % 16)]
    }
}

/// Bytes as a URL has them.
pub open spec fn encoded(bytes: Seq<u8>) -> Seq<char>
    decreases bytes.len(),
{
    if bytes.len() == 0 {
        Seq::empty()
    } else {
        encoded_byte(bytes[0]) + encoded(bytes.skip(1))
    }
}

fn upper_digit(n: u8) -> (r: char)
    requires
        n < 16,
    ensures
        r == hex_upper(n as int),
{
    if n < 10 {
        (48 + n) as char
    } else {
        (55 + n) as char
    }
}

/// A text as a URL has it.
pub fn urlencoded(raw: &str) -> (r: String)
    ensures
        r@ == encoded(encode_utf8(raw@)),
{
    let bytes = raw.as_bytes();
    let ghost all = bytes@;
    let mut out: Vec<char> = Vec::new();
    let mut i: usize = 0;
    proof {
        assert(all.skip(0) =~= all);
        assert(out@ + encoded(all) =~= encoded(all));
    }
    while i < bytes.len()
        invariant
            i <= bytes.len(),
            all == bytes@,
            encoded(all) == out@ + encoded(all.skip(i as int)),
        decreases bytes.len() - i,
    {
        let b = bytes[i];
        let ghost done = out@;
        if (65 <= b && b <= 90) || (97 <= b && b <= 122) || (48 <= b && b <= 57) || b == 45 || b
            == 95 || b == 46 || b == 126 {
            out.push(b as char);
        } else {
            out.push('%');
            out.push(upper_digit(b / 16));
            out.push(upper_digit(b % 16));
        }
        proof {
            assert(all.skip(i as int).skip(1) =~= all.skip(i as int + 1));
            assert(out@ =~= done + encoded_byte(b));
            assert(done + (encoded_byte(b) + encoded(all.skip(i as int + 1))) =~= out@ + encoded(
                all.skip(i as int + 1),
            ));
        }
        i += 1;
    }
    proof {
        assert(out@ + Seq::<char>::empty() =~= out@);
    }
    string_of(&out)
}

/// The number of a hexadecimal digit.
pub open spec fn hex_digit_value(b: u8) -> Option<int> {
    if 48 <= b <= 57 {
        Some(b - 48)
    } else if 65 <= b <= 70 {
        Some(b - 55)
    } else if 97 <= b <= 102 {
        Some(b - 87)
    } else {
        None
    }
}

/// The byte that two hexadecimal digits stand for; a plus sign may stand for
/// the first.
pub open spec fn hex_pair(a: u8, b: u8) -> Option<u8> {
    match (hex_digit_value(a), hex_digit_value(b)) {
        (Some(hi), Some(lo)) => Some((hi * 16 + lo) as u8),
        (None, Some(lo)) => if a == 43 {
            Some(lo as u8)
        } else {
            None
        },
        _ => None,
    }
}

/// The bytes that a URL's bytes stand for: a plus sign is a space, a percent
/// sign with two hexadecimal digits is a byte, anything else is itself.
pub open spec fn decoded(bytes: Seq<u8>) -> Seq<u8>
    decreases bytes.len(),
{
    if bytes.len() == 0 {
        Seq::empty()
    } else if bytes[0] == 43 {
        seq![32u8] + decoded(bytes.skip(1))
    } else if bytes[0] == 37 && bytes.len() > 2 && hex_pair(bytes[1], bytes[2]) is Some {
        seq![hex_pair(bytes[1], bytes[2])->0] + decoded(bytes.skip(3))
    } else {
        seq![bytes[0]] + decoded(bytes.skip(1))
    }
}

/// The text that a URL's text stands for; none where its bytes are not UTF-8.
pub open spec fn url_text(raw: Seq<char>) -> Seq<char> {
    let bytes = decoded(encode_utf8(raw));
    if valid_utf8(bytes) {
        decode_utf8(bytes)
    } else {
        Seq::empty()
    }
}

fn digit_number(b: u8) -> (r: Option<u8>)
    ensures
        match r {
            Some(n) => n < 16 && hex_digit_value(b) == Some(n as int),
            None => hex_digit_value(b) is None,
        },
{
    if 48 <= b && b <= 57 {
        Some(b - 48)
    } else if 65 <= b && b <= 70 {
        Some(b - 55)
    } else if 97 <= b && b <= 102 {
        Some(b - 87)
    } else {
        None
    }
}

fn pair_number(a: u8, b: u8) -> (r: Option<u8>)
    ensures
        r == hex_pair(a, b),
{
    match (digit_number(a), digit_number(b)) {
        (Some(hi), Some(lo)) => Some(hi * 16 + lo),
        (None, Some(lo)) => if a == 43 {
            Some(lo)
        } else {
            None
        },
        _ => None,
    }
}

/// `String::from_utf8`: the text of bytes that are UTF-8, and none of others.
#[verifier::external_body]
fn from_utf8(bytes: Vec<u8>) -> (r: Option<String>)
    ensures
        match r {
            Some(text) => valid_utf8(bytes@) && text@ == decode_utf8(bytes@),
            None => !valid_utf8(bytes@),
        },
{
    String::from_utf8(bytes).ok()
}

/// Reads a text from a URL.
pub fn urldecode(raw: &str) -> (r: String)
    ensures
        r@ == url_text(raw@),
{
    let bytes = raw.as_bytes();
    let ghost all = bytes@;
    let mut out: Vec<u8> = Vec::new();
    let mut i: usize = 0;
    proof {
        assert(all.skip(0) =~= all);
        assert(out@ + decoded(all) =~= decoded(all));
    }
    while i < bytes.len()
        invariant
            i <= bytes.len(),
            all == bytes@,
            decoded(all) == out@ + decoded(all.skip(i as int)),
        decreases bytes.len() - i,
    {
        let b = bytes[i];
        let ghost done = out@;
        let ghost rest = all.skip(i as int);
        let pair = if b == 37 && bytes.len() - i > 2 {
            pair_number(bytes[i + 1], bytes[i + 2])
        } else {
            None
        };
        proof {
            assert(rest.skip(1) =~= all.skip(i as int + 1));
            if rest.len() > 2 {
                assert(rest[1] == all[i as int + 1] && rest[2] == all[i as int + 2]);
                assert(rest.skip(3) =~= all.skip(i as int + 3));
            }
        }
        if b == 43 {
            out.push(32);
            proof {
                assert(done + (seq![32u8] + decoded(rest.skip(1))) =~= out@ + decoded(
                    rest.skip(1),
                ));
            }
            i += 1;
        } else if let Some(byte) = pair {
            out.push(byte);
            proof {
                assert(done + (seq![byte] + decoded(rest.skip(3))) =~= out@ + decoded(
                    rest.skip(3),
                ));
            }
            i += 3;
        } else {
            out.push(b);
            proof {
                assert(done + (seq![b] + decoded(rest.skip(1))) =~= out@ + decoded(rest.skip(1)));
            }
            i += 1;
        }
    }
    proof {
        assert(out@ + Seq::<u8>::empty() =~= out@);
    }
    match from_utf8(out) {
        Some(text) => text,
        None => String::new(),
    }
}

/// The bytes of text that is ASCII.
spec fn ascii_bytes(s: Seq<char>) -> Seq<u8> {
    Seq::new(s.len(), |i: int| s[i] as u8)
}

proof fn encoded_is_ascii(bytes: Seq<u8>)
    ensures
        is_ascii_chars(encoded(bytes)),
    decreases bytes.len(),
{
    if bytes.len() > 0 {
        encoded_is_ascii(bytes.skip(1));
        assert(is_ascii_chars(encoded_byte(bytes[0])));
        let whole = encoded(bytes);
        let first = encoded_byte(bytes[0]);
        assert forall|i: int| 0 <= i < whole.len() implies '\0' <= #[trigger] whole[i]
            <= '\u{7f}' by {
            if i < first.len() {
                assert(whole[i] == first[i]);
            } else {
                assert(whole[i] == encoded(bytes.skip(1))[i - first.len()]);
            }
        }
    }
}

proof fn decoding_undoes_encoding(bytes: Seq<u8>)
    ensures
        decoded(ascii_bytes(encoded(bytes))) == bytes,
    decreases bytes.len(),
{
    let whole = ascii_bytes(encoded(bytes));
    if bytes.len() > 0 {
        let b = bytes[0];
        let later = encoded(bytes.skip(1));
        decoding_undoes_encoding(bytes.skip(1));
        if is_unreserved(b) {
            assert(whole[0] == b);
            assert(whole.skip(1) =~= ascii_bytes(later));
        } else {
            assert(whole[0] == 37u8);
            assert(encoded(bytes)[1] == hex_upper(b as int / 16));
            assert(encoded(bytes)[2] == hex_upper(b as int % 16));
            assert(hex_digit_value(whole[1]) == Some(b as int / 16));
            assert(hex_digit_value(whole[2]) == Some(b as int % 16));
            assert(hex_pair(whole[1], whole[2]) == Some(b));
            assert(whole.skip(3) =~= ascii_bytes(later));
        }
        assert(bytes =~= seq![b] + bytes.skip(1));
    } else {
        assert(bytes =~= Seq::<u8>::empty());
    }
}

/// A text that is put into a URL is read back from it.
pub proof fn url_text_reads_back(s: Seq<char>)
    ensures
        url_text(encoded(encode_utf8(s))) == s,
{
    let bytes = encode_utf8(s);
    let text = encoded(bytes);
    encoded_is_ascii(bytes);
    is_ascii_chars_encode_utf8(text);
    assert(encode_utf8(text) =~= ascii_bytes(text));
    decoding_undoes_encoding(bytes);
    encode_utf8_valid_utf8(s);
    encode_utf8_decode_utf8(s);
}

/// The value of a key among pairs, from one on: the first pair of that key
/// counts, and what holds no `=` is no pair.
pub open spec fn value_from(pairs: Seq<Seq<char>>, key: Seq<char>, from: int) -> Option<Seq<char>>
    decreases pairs.len() - from,
{
    if from < 0 || from >= pairs.len() {
        None
    } else {
        let pair = pairs[from];
        let at = before(pair, '=') as int;
        if at < pair.len() && pair.take(at) == key {
            Some(url_text(pair.skip(at + 1)))
        } else {
            value_from(pairs, key, from + 1)
        }
    }
}

/// The value of a key in a query.
pub open spec fn value_in(query: Seq<char>, key: Seq<char>) -> Option<Seq<char>> {
    value_from(split(query, '&'), key, 0)
}

/// Reads the value of a key from a query.
pub fn query_value(query: &str, key: &str) -> (r: Option<String>)
    ensures
        match r {
            Some(value) => value_in(query@, key@) == Some(value@),
            None => value_in(query@, key@) is None,
        },
{
    let text = chars_of(query);
    let wanted = chars_of(key);
    let pairs = split_on(&text, '&');
    let ghost all = views(pairs@);
    let mut i: usize = 0;
    while i < pairs.len()
        invariant
            i <= pairs.len(),
            all == views(pairs@),
            all == split(query@, '&'),
            wanted@ == key@,
            value_in(query@, key@) == value_from(all, key@, i as int),
        decreases pairs.len() - i,
    {
        let pair = &pairs[i];
        let at = find(pair, '=');
        proof {
            assert(all[i as int] == pair@);
        }
        if at < pair.len() {
            let name = slice_subrange(pair, 0, at);
            proof {
                assert(name@ =~= pair@.take(at as int));
            }
            if same(name, &wanted) {
                let value = slice_subrange(pair, at + 1, pair.len());
                proof {
                    assert(value@ =~= pair@.skip(at as int + 1));
                }
                return Some(urldecode(string_of(value).as_str()));
            }
        }
        i += 1;
    }
    None
}

} // verus!
