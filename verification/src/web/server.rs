//! What the server checks before it starts, and where it sends strangers.

use crate::number::{dec_chars, int_text};
use crate::parse::document::{hex, hex_sha256, sha256};
use crate::text::{chars_of, copy, occurs, occurs_at, same_str, string_of};
use crate::web::url::{encoded, url_text, url_text_reads_back, urlencoded};
use vstd::prelude::*;
use vstd::string::StringExecFns;
use vstd::utf8::encode_utf8;

verus! {

/// The place that a request asked for: its path, and its query where it has
/// one.
pub open spec fn place(path: Seq<char>, query: Option<Seq<char>>) -> Seq<char> {
    match query {
        Some(query) => path + "?"@ + query,
        None => path,
    }
}

/// Where a request without a session goes: to sign in, and from there back to
/// the place that it asked for.
pub fn login_target(path: &str, query: Option<&str>) -> (r: String)
    ensures
        r@ == "/auth/login?next="@ + encoded(
            encode_utf8(
                place(
                    path@,
                    match query {
                        Some(query) => Some(query@),
                        None => None,
                    },
                ),
            ),
        ),
{
    let mut target = copy(path);
    if let Some(query) = query {
        target.append("?");
        target.append(query);
    }
    let mut url = copy("/auth/login?next=");
    url.append(urlencoded(target.as_str()).as_str());
    url
}

/// Signing in leads back to the place that was asked for.
pub proof fn login_leads_back(path: Seq<char>, query: Option<Seq<char>>)
    ensures
        url_text(encoded(encode_utf8(place(path, query)))) == place(path, query),
{
    url_text_reads_back(place(path, query));
}

/// The length of the key that seals sessions, in bytes.
pub const KEY_BYTES: usize = 32;

/// What is wrong with a key file: its length.
pub fn key_problem(path: &str, bytes: &[u8]) -> (r: Option<String>)
    ensures
        match r {
            None => bytes@.len() == KEY_BYTES,
            Some(problem) => bytes@.len() != KEY_BYTES && problem@ == path@ + " "@ + int_text(
                bytes@.len() as int,
            ) + " bayt taşıyor; anahtar 32 bayttır"@,
        },
{
    if bytes.len() == KEY_BYTES {
        return None;
    }
    let mut problem = copy(path);
    problem.append(" ");
    let digits = dec_chars(bytes.len() as u64);
    problem.append(string_of(&digits).as_str());
    problem.append(" bayt taşıyor; anahtar 32 bayttır");
    Some(problem)
}

/// `rand::rng` and `fill_bytes`: 32 bytes. Which ones is up to chance; where
/// the system gives no randomness, it panics.
#[verifier::external_body]
fn random_key() -> (r: [u8; 32]) {
    let mut key = [0u8; 32];
    rand::Rng::fill_bytes(&mut rand::rng(), &mut key);
    key
}

/// A new key to seal sessions with.
pub fn new_key() -> (r: [u8; 32])
    ensures
        r@.len() == KEY_BYTES,
{
    random_key()
}

/// The name of the stylesheet among the assets.
pub open spec fn is_stylesheet_name(name: Seq<char>) -> bool {
    occurs_at(name, "main-"@, 0) && occurs_at(name, ".css"@, name.len() - ".css"@.len())
}

/// Whether an asset is the stylesheet, by its name.
pub fn is_stylesheet(name: &str) -> (r: bool)
    ensures
        r == is_stylesheet_name(name@),
{
    let chars = chars_of(name);
    let start = chars_of("main-");
    let end = chars_of(".css");
    chars.len() >= end.len() && occurs(&chars, &start, 0) && occurs(
        &chars,
        &end,
        chars.len() - end.len(),
    )
}

/// Where the stylesheet stands among assets of these names.
pub fn find_stylesheet(names: &[String]) -> (r: Option<usize>)
    ensures
        match r {
            Some(i) => i < names@.len() && is_stylesheet_name(names@[i as int]@) && forall|j: int|
                0 <= j < i ==> !is_stylesheet_name((#[trigger] names@[j])@),
            None => forall|j: int|
                0 <= j < names@.len() ==> !is_stylesheet_name((#[trigger] names@[j])@),
        },
{
    let mut i: usize = 0;
    while i < names.len()
        invariant
            i <= names.len(),
            forall|j: int| 0 <= j < i ==> !is_stylesheet_name((#[trigger] names@[j])@),
        decreases names.len() - i,
    {
        if is_stylesheet(names[i].as_str()) {
            return Some(i);
        }
        i += 1;
    }
    None
}

/// The fingerprint of a stylesheet.
pub open spec fn style_fingerprint(bytes: Seq<u8>) -> Seq<char> {
    "sha256:"@ + hex(sha256(bytes))
}

/// Computes the fingerprint of a stylesheet.
pub fn fingerprint(bytes: &[u8]) -> (r: String)
    ensures
        r@ == style_fingerprint(bytes@),
{
    let mut print = copy("sha256:");
    print.append(hex_sha256(bytes).as_str());
    print
}

/// Holds the stylesheet of a bundle against the fingerprint that the program
/// was built with: the line to print, or why the server does not start.
pub fn stylesheet_guard(dir: &str, name: &str, bytes: &[u8], expected: &str) -> (r: Result<
    String,
    String,
>)
    ensures
        match r {
            Ok(line) => style_fingerprint(bytes@) == expected@ && line@ == "assets   stil "@
                + name@ + " ("@ + style_fingerprint(bytes@) + ")"@,
            Err(problem) => style_fingerprint(bytes@) != expected@ && problem@ == "asset paketi "@
                + dir@ + " başka bir derlemeye ait: stil "@ + name@ + " "@ + style_fingerprint(
                bytes@,
            ) + ", ikili "@ + expected@
                + " ile derlendi; `topcoat asset bundle -p budget-web` çalıştırıp yeniden başlatın"@,
        },
{
    let actual = fingerprint(bytes);
    if !same_str(actual.as_str(), expected) {
        let mut problem = copy("asset paketi ");
        problem.append(dir);
        problem.append(" başka bir derlemeye ait: stil ");
        problem.append(name);
        problem.append(" ");
        problem.append(actual.as_str());
        problem.append(", ikili ");
        problem.append(expected);
        problem.append(
            " ile derlendi; `topcoat asset bundle -p budget-web` çalıştırıp yeniden başlatın",
        );
        return Err(problem);
    }
    let mut line = copy("assets   stil ");
    line.append(name);
    line.append(" (");
    line.append(actual.as_str());
    line.append(")");
    Ok(line)
}

/// Why the server does not start with a bundle that has no stylesheet.
pub fn no_stylesheet(dir: &str) -> (r: String)
    ensures
        r@ == "asset paketi "@ + dir@ + " stil sayfası taşımıyor"@,
{
    let mut problem = copy("asset paketi ");
    problem.append(dir);
    problem.append(" stil sayfası taşımıyor");
    problem
}

} // verus!
