//! A statement's HTML as its titles and its table rows.

use crate::parse::images::{strip_image_chars, stripped};
use crate::text::{chars_of, join, join_chars, lower_chars, lower_text, push_all, split_words,
    string_of, views, words};
use scraper::{Html, Selector};
use vstd::prelude::*;
use vstd::string::StrSliceExecFns;
use vstd::utf8::{decode_utf8, encode_utf8, valid_utf8};

verus! {

/// What `String::from_utf8_lossy` makes of a sequence of bytes.
pub uninterp spec fn lossy_text(bytes: Seq<u8>) -> Seq<char>;

/// `String::from_utf8_lossy`: its text is a function of the bytes, and the
/// text itself where the bytes are UTF-8. What stands in place of bytes that
/// are not UTF-8 is left unsaid.
#[verifier::external_body]
fn decode_lossy(bytes: &[u8]) -> (r: String)
    ensures
        r@ == lossy_text(bytes@),
        valid_utf8(bytes@) ==> r@ == decode_utf8(bytes@),
{
    String::from_utf8_lossy(bytes).into_owned()
}

/// The SHA-256 digest of a sequence of bytes.
pub uninterp spec fn sha256(bytes: Seq<u8>) -> Seq<u8>;

/// `sha2::Sha256::digest`: its 32 bytes are a function of the bytes alone.
#[verifier::external_body]
fn sha256_digest(bytes: &[u8]) -> (r: Vec<u8>)
    ensures
        r@ == sha256(bytes@),
        r@.len() == 32,
{
    <sha2::Sha256 as sha2::Digest>::digest(bytes).to_vec()
}

/// The hexadecimal digit of a number below sixteen, in lower case.
pub open spec fn hex_char(n: int) -> char {
    if n < 10 {
        (48 + n) as char
    } else {
        (87 + n) as char
    }
}

/// Bytes in hexadecimal notation, two lower case digits each.
pub open spec fn hex(bytes: Seq<u8>) -> Seq<char> {
    Seq::new(
        bytes.len() * 2,
        |i: int|
            if i % 2 == 0 {
                hex_char(bytes[i / 2] as int / 16)
            } else {
                hex_char(bytes[i / 2] as int % 16)
            },
    )
}

fn hex_digit(n: u8) -> (r: char)
    requires
        n < 16,
    ensures
        r == hex_char(n as int),
{
    if n < 10 {
        (48 + n) as char
    } else {
        (87 + n) as char
    }
}

/// Writes bytes in hexadecimal notation.
pub fn hex_text(bytes: &[u8]) -> (r: String)
    ensures
        r@ == hex(bytes@),
{
    let mut r = String::new();
    let mut i: usize = 0;
    while i < bytes.len()
        invariant
            i <= bytes.len(),
            r@ == hex(bytes@.take(i as int)),
        decreases bytes.len() - i,
    {
        r.push(hex_digit(bytes[i] / 16));
        r.push(hex_digit(bytes[i] % 16));
        proof {
            assert(r@ =~= hex(bytes@.take(i as int + 1)));
        }
        i += 1;
    }
    proof {
        assert(bytes@.take(bytes@.len() as int) =~= bytes@);
    }
    r
}

/// The SHA-256 digest of bytes in hexadecimal notation.
pub fn hex_sha256(bytes: &[u8]) -> (r: String)
    ensures
        r@ == hex(sha256(bytes@)),
        r@.len() == 64,
{
    let digest = sha256_digest(bytes);
    hex_text(&digest)
}

/// Hexadecimal notation holds digits and the letters `a` to `f` only.
pub proof fn hex_is_lower_case(bytes: Seq<u8>)
    ensures
        forall|i: int|
            0 <= i < hex(bytes).len() ==> '0' <= #[trigger] hex(bytes)[i] <= '9' || 'a' <= hex(
                bytes,
            )[i] <= 'f',
{
}

/// A `td` element below a row: its class, whether a table row is nested in it,
/// whether it is the row's own and not one of a row nested in it, its text.
#[derive(Debug, Clone)]
pub struct HtmlCell {
    pub class: Option<String>,
    pub nested: bool,
    pub own: bool,
    pub text: String,
}

/// A `tr` element: its class and the cells below it.
#[derive(Debug, Clone)]
pub struct HtmlRow {
    pub class: Option<String>,
    pub cells: Vec<HtmlCell>,
}

/// An HTML document: the texts of its `title` elements and its `tr` elements.
#[derive(Debug, Clone)]
pub struct HtmlDocument {
    pub titles: Vec<String>,
    pub rows: Vec<HtmlRow>,
}

pub ghost struct HtmlCellView {
    pub class: Option<Seq<char>>,
    pub nested: bool,
    pub own: bool,
    pub text: Seq<char>,
}

pub ghost struct HtmlRowView {
    pub class: Option<Seq<char>>,
    pub cells: Seq<HtmlCellView>,
}

pub ghost struct HtmlDocumentView {
    pub titles: Seq<Seq<char>>,
    pub rows: Seq<HtmlRowView>,
}

impl View for HtmlCell {
    type V = HtmlCellView;

    open spec fn view(&self) -> HtmlCellView {
        HtmlCellView {
            class: crate::parse::opt_text(self.class),
            nested: self.nested,
            own: self.own,
            text: self.text@,
        }
    }
}

impl View for HtmlRow {
    type V = HtmlRowView;

    open spec fn view(&self) -> HtmlRowView {
        HtmlRowView {
            class: crate::parse::opt_text(self.class),
            cells: Seq::new(self.cells@.len(), |i: int| self.cells@[i]@),
        }
    }
}

impl View for HtmlDocument {
    type V = HtmlDocumentView;

    open spec fn view(&self) -> HtmlDocumentView {
        HtmlDocumentView {
            titles: views(self.titles@),
            rows: Seq::new(self.rows@.len(), |i: int| self.rows@[i]@),
        }
    }
}

/// The document that scraper reads from an HTML text.
pub uninterp spec fn html_document(text: Seq<char>) -> HtmlDocumentView;

/// `scraper::Html::parse_document`, with the `title` and `tr` elements that
/// `select` finds in it and the `td` elements that it finds below each row. A
/// cell is the row's own where it does not match `:scope tr td` with the row as
/// the scope: no other `tr` stands between the two. All this is a function of
/// the text alone; nothing more is claimed of it.
#[verifier::external_body]
fn read_html(text: &str) -> (r: HtmlDocument)
    ensures
        r@ == html_document(text@),
{
    let doc = Html::parse_document(text);
    let [title, tr, td, inner] =
        ["title", "tr", "td", ":scope tr td"].map(|s| Selector::parse(s).unwrap());
    HtmlDocument {
        titles: doc.select(&title).map(|t| t.text().collect()).collect(),
        rows: doc.select(&tr).map(|r| HtmlRow {
            class: r.attr("class").map(String::from),
            cells: r.select(&td).map(|d| HtmlCell {
                class: d.attr("class").map(String::from),
                nested: d.select(&tr).next().is_some(),
                own: !inner.matches_with_scope(&d, Some(r)),
                text: d.text().collect()
            }).collect()
        }).collect()
    }
}

/// The bytes of a statement without its images: those that its fingerprint
/// covers.
pub open spec fn source_text(bytes: Seq<u8>) -> Seq<char> {
    stripped(lossy_text(bytes))
}

/// The fingerprint of a statement.
pub open spec fn source_fingerprint(bytes: Seq<u8>) -> Seq<char> {
    hex(sha256(encode_utf8(source_text(bytes))))
}

/// Takes the images out of a statement's bytes.
pub fn strip_images(bytes: &[u8]) -> (r: Vec<u8>)
    ensures
        r@ == encode_utf8(source_text(bytes@)),
        valid_utf8(bytes@) ==> lossy_text(bytes@) == decode_utf8(bytes@),
{
    let text = strip_images_text(bytes);
    text.as_str().as_bytes_vec()
}

fn strip_images_text(bytes: &[u8]) -> (r: String)
    ensures
        r@ == source_text(bytes@),
        valid_utf8(bytes@) ==> lossy_text(bytes@) == decode_utf8(bytes@),
{
    let text = decode_lossy(bytes);
    let chars = chars_of(&text);
    let kept = strip_image_chars(&chars);
    string_of(&kept)
}

/// Reads a statement's bytes: its document, and its fingerprint.
pub fn open_document(bytes: &[u8]) -> (r: (HtmlDocument, String))
    ensures
        r.0@ == html_document(source_text(bytes@)),
        r.1@ == source_fingerprint(bytes@),
        r.1@.len() == 64,
        valid_utf8(bytes@) ==> lossy_text(bytes@) == decode_utf8(bytes@),
{
    let text = strip_images_text(bytes);
    let fingerprint = hex_sha256(text.as_str().as_bytes());
    (read_html(&text), fingerprint)
}

/// A text with single spaces between its words.
pub open spec fn one_spaced(s: Seq<char>) -> Seq<char> {
    join(words(s), " "@)
}

pub fn cell_text(s: &str) -> (r: Vec<char>)
    ensures
        r@ == one_spaced(s@),
{
    let chars = chars_of(s);
    let words = split_words(&chars);
    join_chars(&words, " ")
}

/// A cell is data of its row: it is the row's own, and no row is nested in it.
/// A cell that a row is nested in is layout, and the cells of that row are its
/// own.
pub open spec fn is_data(cell: HtmlCellView) -> bool {
    cell.own && !cell.nested
}

/// The texts of a row's data cells.
pub open spec fn data_cells(cells: Seq<HtmlCellView>) -> Seq<Seq<char>>
    decreases cells.len(),
{
    if cells.len() == 0 {
        Seq::empty()
    } else if is_data(cells.last()) {
        data_cells(cells.drop_last()).push(one_spaced(cells.last().text))
    } else {
        data_cells(cells.drop_last())
    }
}

/// A class attribute; an absent one is empty.
pub open spec fn class_of(class: Option<Seq<char>>) -> Seq<char> {
    match class {
        Some(class) => class,
        None => Seq::empty(),
    }
}

/// The classes of a row's data cells.
pub open spec fn data_classes(cells: Seq<HtmlCellView>) -> Seq<Seq<char>>
    decreases cells.len(),
{
    if cells.len() == 0 {
        Seq::empty()
    } else if is_data(cells.last()) {
        data_classes(cells.drop_last()).push(class_of(cells.last().class))
    } else {
        data_classes(cells.drop_last())
    }
}

/// The classes of a row and of its data cells, in lower case, with single
/// spaces between them.
pub open spec fn row_tokens(row: HtmlRowView) -> Seq<char> {
    one_spaced(
        lower_text(class_of(row.class) + " "@ + join(data_classes(row.cells), " "@)),
    )
}

fn class_chars(class: &Option<String>) -> (r: Vec<char>)
    ensures
        r@ == class_of(crate::parse::opt_text(*class)),
{
    match class {
        Some(class) => chars_of(class),
        None => Vec::new(),
    }
}

/// The texts of a row's data cells, and the classes of the row.
pub fn row_parts(row: &HtmlRow) -> (r: (Vec<Vec<char>>, Vec<char>))
    ensures
        views(r.0@) == data_cells(row@.cells),
        r.1@ == row_tokens(row@),
{
    let mut cells: Vec<Vec<char>> = Vec::new();
    let mut classes: Vec<Vec<char>> = Vec::new();
    let mut i: usize = 0;
    let ghost all = row@.cells;
    while i < row.cells.len()
        invariant
            i <= row.cells.len(),
            all == row@.cells,
            views(cells@) == data_cells(all.take(i as int)),
            views(classes@) == data_classes(all.take(i as int)),
        decreases row.cells.len() - i,
    {
        let cell = &row.cells[i];
        proof {
            assert(all.take(i as int + 1).drop_last() =~= all.take(i as int));
            assert(all.take(i as int + 1).last() == cell@);
        }
        if cell.own && !cell.nested {
            let ghost cells_before = cells@;
            let ghost classes_before = classes@;
            cells.push(cell_text(&cell.text));
            classes.push(class_chars(&cell.class));
            proof {
                assert(views(cells@) =~= views(cells_before).push(one_spaced(cell@.text)));
                assert(views(classes@) =~= views(classes_before).push(class_of(cell@.class)));
            }
        }
        i += 1;
    }
    proof {
        assert(all.take(all.len() as int) =~= all);
    }
    let mut line = class_chars(&row.class);
    let space = chars_of(" ");
    push_all(&mut line, &space);
    let joined = join_chars(&classes, " ");
    push_all(&mut line, &joined);
    let lowered = lower_chars(&line);
    let words = split_words(&lowered);
    (cells, join_chars(&words, " "))
}

} // verus!
