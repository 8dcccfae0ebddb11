//! The parts that a statement is read with.

use budget::parse::amount::{read_amount, AmountReading};
use budget::parse::date::parse_tr_date;
use budget::parse::document::{hex_sha256, hex_text, strip_images};
use budget::parse::footer::{footer_boxes_in_row, footer_key, FooterKey};
use budget::parse::merchant::{fold_char, fold_text, is_fx_amount, is_fx_ccy};
use budget::parse::{
    merchant_norm, merchant_stem_display, parse_tr_amount, parse_ziraat_html,
    try_parse_ziraat_html, Direction, ParseError, TxnKind, PAYMENT_NORM,
};

fn chars(s: &str) -> Vec<char> {
    s.chars().collect()
}

fn cells(list: &[&str]) -> Vec<Vec<char>> {
    list.iter().map(|s| chars(s)).collect()
}

/// A statement with these rows behind its title.
fn page(rows: &str) -> String {
    format!("<html><head><title>Ziraat Katılım</title></head><body><table>{rows}</table></body></html>")
}

const HEAD: &str = "<tr><td>Hesap Kesim Tarihi</td><td>:</td><td>05.09.2026</td></tr>";

fn refusal(rows: &str) -> String {
    match parse_ziraat_html(page(rows).as_bytes()) {
        Err(e) => e.message(),
        Ok(parsed) => panic!("a broken statement was read: {parsed:?}"),
    }
}

#[test]
fn amounts_with_few_and_many_digits() {
    assert_eq!(parse_tr_amount("5").unwrap(), (500, false));
    assert_eq!(parse_tr_amount("5,5").unwrap(), (550, false));
    assert_eq!(parse_tr_amount("1.234,567").unwrap(), (123_456, false));
    assert_eq!(parse_tr_amount(" 12,00 ₺ ").unwrap(), (1_200, false));
    assert_eq!(parse_tr_amount("7\u{a0}000,10+").unwrap(), (700_010, true));
    assert_eq!(parse_tr_amount("12,00₺TL").unwrap(), (1_200, false));
}

#[test]
fn amounts_that_are_refused() {
    for text in ["", "-5,00", ",50", "TL", "99999999999999999999"] {
        match parse_tr_amount(text) {
            Err(ParseError::Amount(s)) => assert_eq!(s, text),
            other => panic!("{text:?} was read: {other:?}"),
        }
    }
    assert_eq!(
        parse_tr_amount(" a\"b ").unwrap_err().message(),
        "tutar okunamadı: \"a\\\"b\""
    );
}

#[test]
fn amount_beyond_the_largest() {
    assert!(matches!(
        read_amount(&chars("92.233.720.368.547.758,07")),
        AmountReading::Minor(i64::MAX, false)
    ));
    assert!(matches!(
        read_amount(&chars("92.233.720.368.547.758,08")),
        AmountReading::OutOfRange
    ));
}

#[test]
fn dates_of_the_calendar() {
    assert_eq!(parse_tr_date(&chars("29.02.2024")).as_deref(), Some("2024-02-29"));
    assert_eq!(parse_tr_date(&chars(" 1. 1 .2026 ")).as_deref(), Some("2026-01-01"));
    assert_eq!(parse_tr_date(&chars("01.01.26")).as_deref(), Some("0026-01-01"));
    for text in
        ["29.02.2023", "31.04.2026", "0.1.2026", "1.13.2026", "1.1", "1.1.2026.1", "a.b.c", ""]
    {
        assert_eq!(parse_tr_date(&chars(text)), None, "{text}");
    }
}

#[test]
fn names_are_folded() {
    assert_eq!(fold_char('ı'), 'I');
    assert_eq!(fold_char('â'), 'A');
    assert_eq!(fold_char('ñ'), 'Ñ');
    assert_eq!(fold_char('ß'), 'S');
    assert_eq!(merchant_norm("çiğköfte  dükkanı izmir"), "CIGKOFTE DUKKANI");
    assert_eq!(merchant_norm("şube-hesaptan ödeme"), PAYMENT_NORM);
    assert_eq!(merchant_norm(""), "");
}

/// Spacing, case and the marks of Turkish letters do not change a key.
#[test]
fn names_that_look_alike_have_one_key() {
    let names = ["Çiğ Köfte İzmir", " çiğ\tköfte  IZMIR ", "CIG KOFTE ızmır"];
    for name in names {
        assert_eq!(merchant_norm(name), "CIG KOFTE");
        let letters: Vec<char> = name.chars().collect();
        let folded: String = fold_text(&letters).into_iter().collect();
        assert_eq!(merchant_norm(&folded), "CIG KOFTE");
    }
}

#[test]
fn foreign_amounts_are_dropped() {
    assert_eq!(merchant_norm("hosting.dev plan usd 18.00"), "HOSTING.DEV PLAN");
    assert_eq!(merchant_norm("A EUR 1,50 USD 2"), "A");
    assert_eq!(merchant_norm("USD 18.00"), "");
    assert_eq!(merchant_norm("18.00"), "18.00");
    assert_eq!(merchant_norm("A USD 1.2.3"), "A USD 1.2.3");
    assert_eq!(merchant_stem_display(" Foo  bar USD 18.00"), "Foo bar");
    assert_eq!(merchant_stem_display("Foo 18.00"), "Foo 18.00");
    assert!(is_fx_ccy(&chars("chf")) && !is_fx_ccy(&chars("Usd")));
    assert!(is_fx_amount(&chars("1,")) && !is_fx_amount(&chars(".")));
}

#[test]
fn images_are_taken_out() {
    assert_eq!(strip_images(b"<p><IMG alt='a>b' src=x>y</p>"), b"<p>y</p>");
    assert_eq!(strip_images(b"url(data:image/png;base64,AA) \"DATA:IMAGE/x\"!"), b"url() \"\"!");
    assert_eq!(strip_images(b"<img never closes"), b"");
    assert_eq!(strip_images(b"a\xff"), "a\u{fffd}".as_bytes());
}

#[test]
fn digests_in_hexadecimal() {
    assert_eq!(hex_text(&[0, 15, 16, 255]), "000f10ff");
    assert_eq!(
        hex_sha256(b"abc"),
        "ba7816bf8f01cfea414140de5dae2223b00361a396177a9cb410ff61f20015ad"
    );
}

/// Statements that differ in their images alone have one fingerprint.
#[test]
fn images_do_not_change_the_fingerprint() {
    let rows = format!(
        "{HEAD}<tr><td>Harcamalarınız</td><td>0,00</td><td>Ödemeleriniz</td><td>0,00</td>\
         <td>Dönem Borcu</td><td>0,00</td></tr>"
    );
    let plain = parse_ziraat_html(page(&rows).as_bytes()).unwrap();
    let with_image = page(&format!("{rows}<img src='x'>"));
    let other = parse_ziraat_html(with_image.as_bytes()).unwrap();
    assert_eq!(plain.statement.source_sha256, other.statement.source_sha256);
    assert!(plain.txns.is_empty());
    assert_eq!(plain.statement.period_debt_minor, 0);
}

#[test]
fn footer_labels() {
    assert_eq!(footer_key(&chars("Devreden bakiye")), Some(FooterKey::Previous));
    assert_eq!(footer_key(&chars("HARCAMALARINIZ")), Some(FooterKey::Spend));
    assert_eq!(footer_key(&chars("Ceza")), Some(FooterKey::Fees));
    assert_eq!(footer_key(&chars("Ödemeleriniz")), Some(FooterKey::Payments));
    assert_eq!(footer_key(&chars("Dönem Borcu")), Some(FooterKey::Debt));
    assert_eq!(footer_key(&chars("Dönem Borcu (USD)")), Some(FooterKey::DebtUsd));
    assert_eq!(footer_key(&chars("1,00")), None);
    assert_eq!(
        footer_boxes_in_row(&cells(&["Ceza", "x", "1,00", "2,00", "Dönem Borcu", "Ödemeleriniz", "3"])),
        Some(vec![(FooterKey::Fees, 100), (FooterKey::Payments, 300)])
    );
}

#[test]
fn words_of_the_store() {
    for d in [Direction::Debit, Direction::Credit] {
        assert_eq!(Direction::from_db(d.as_str()), Some(d));
    }
    for k in [TxnKind::Pos, TxnKind::Installment, TxnKind::Payment, TxnKind::Refund] {
        assert_eq!(TxnKind::from_db(k.as_str()), Some(k));
    }
    assert_eq!(Direction::from_db("Debit"), None);
    assert_eq!(TxnKind::from_db(""), None);
    assert_eq!(TxnKind::Installment.as_str(), "installment");
}

#[test]
fn broken_statements_are_refused() {
    assert_eq!(
        parse_ziraat_html(b"<title>x</title>").unwrap_err().message(),
        "dosya bir Ziraat Katılım ekstresi değil"
    );
    assert_eq!(refusal(""), "ekstre yapısı bozuk: Hesap Kesim Tarihi bulunamadı");
    assert_eq!(refusal(HEAD), "ekstre yapısı bozuk: dip kutusu yok: Harcamalarınız");
    let spend = format!("{HEAD}<tr><td>Harcamalarınız</td><td>0,00</td></tr>");
    assert_eq!(refusal(&spend), "ekstre yapısı bozuk: dip kutusu yok: Ödemeleriniz");
    let paid = format!("{spend}<tr><td>Ödemeleriniz</td><td>0,00</td></tr>");
    assert_eq!(refusal(&paid), "ekstre yapısı bozuk: dip kutusu yok: Dönem Borcu");
    let owed = format!("{paid}<tr><td>Dönem Borcu</td><td>0,01</td></tr>");
    assert_eq!(
        refusal(&owed),
        "dip özeti tutmuyor: önceki 0 + harcama 0 + ceza 0 − ödeme 0 = 0, ekstre ise dönem \
         borcunu 1 yazıyor"
    );
}

#[test]
fn broken_rows_are_refused() {
    assert_eq!(
        refusal("<tr><td>KART NO 12*</td></tr>"),
        "ekstre yapısı bozuk: KART NO satırında son 4 hane okunamadı: \"12\""
    );
    assert_eq!(
        refusal("<tr><td>01.01.2026</td><td>A</td></tr>"),
        "ekstre yapısı bozuk: işlem satırı 0 en az 6 hücre bekler, 2 buldu"
    );
    let row = |tl: &str, usd: &str, lira: &str| {
        format!(
            "<tr><td>01.01.2026</td><td>A</td><td></td><td>{tl}</td><td>{usd}</td><td>{lira}</td></tr>"
        )
    };
    assert_eq!(
        refusal(&row("1,00", "", "")),
        "ekstre yapısı bozuk: KART NO satırından önce işlem geldi"
    );
    let card = "<tr><td>KART NO 1234</td></tr>";
    assert_eq!(refusal(&format!("{card}{}", row("x", "", ""))), "tutar okunamadı: \"x\"");
    assert_eq!(refusal(&format!("{card}{}", row("1", "y", ""))), "tutar okunamadı: \"y\"");
    assert_eq!(refusal(&format!("{card}{}", row("1", "", "z"))), "tutar okunamadı: \"z\"");
}

#[test]
fn columns_of_a_transaction() {
    let rows = format!(
        "{HEAD}<tr><td>Kart No 1234 5678</td></tr>\
         <tr><td class='KKTaksit'>01.08.2026</td><td>Dükkan</td><td>not</td><td>10,00</td>\
         <td>1,50</td><td>0,25</td></tr>\
         <tr><td>Harcamalarınız</td><td>10,00</td></tr><tr><td>Ödemeleriniz</td><td>0,00</td></tr>\
         <tr><td>Dönem Borcu</td><td>10,00</td></tr>"
    );
    let parsed = parse_ziraat_html(page(&rows).as_bytes()).unwrap();
    let t = &parsed.txns[0];
    assert_eq!(t.kind, TxnKind::Installment);
    assert_eq!(t.usd_minor, Some(150));
    assert_eq!(t.bankkart_lira_minor, 25);
    assert_eq!(t.card_last4, "5678");
    assert_eq!(t.date, "2026-08-01");
    assert_eq!(t.merchant_raw, "Dükkan");
    assert_eq!(t.merchant_norm, "DUKKAN");
    assert_eq!(t.extra, "not");
}

/// Amounts whose sum takes more than 64 bits.
#[test]
fn sums_beyond_the_largest() {
    let row = "<tr><td>01.01.2026</td><td>A</td><td></td><td>92.233.720.368.547.758,07</td><td></td><td></td></tr>";
    let rows = format!(
        "{HEAD}<tr><td>KART NO 1234</td></tr>{row}{row}\
         <tr><td>Harcamalarınız</td><td>1,00</td></tr><tr><td>Ödemeleriniz</td><td>0,00</td></tr>\
         <tr><td>Dönem Borcu</td><td>10,00</td></tr>"
    );
    assert!(try_parse_ziraat_html(page(&rows).as_bytes()).is_none());
    assert!(try_parse_ziraat_html(page(HEAD).as_bytes()).is_some());
}

/// A cell that holds a table is layout; the rows of that table are read once.
#[test]
fn nested_rows_are_read_once() {
    let page = b"<title>Ziraat Katilim</title><table><tr><td>Hesap Kesim<td>:<td>05.09.2026\
        <tr><td>KART NO<td>0001<tr><td><table><tr><td>01.09.2026<td>A<td><td>10,00<td><td>\
        </table><tr><td>Harcamalariniz<td>10,00<tr><td>Odemeleriniz<td>0,00\
        <tr><td>Donem Borcu<td>10,00</table>";
    let parsed = parse_ziraat_html(page).expect("the statement is read");
    assert_eq!(parsed.txns.len(), 1);
    assert_eq!(parsed.txns[0].amount_minor, 1_000);
    assert_eq!(parsed.statement.spend_minor, 1_000);
    assert_eq!(parsed.statement.period_debt_minor, 1_000);
}

/// Cells beside a nested table stay with their own row.
#[test]
fn cells_beside_a_nested_table() {
    let rows = format!(
        "{HEAD}<tr><td>KART NO 1234</td></tr>\
         <tr><td>01.08.2026</td><td>A</td><td></td><td>10,00</td><td></td><td></td>\
         <td><table><tr><td>02.08.2026</td><td>B</td><td></td><td>5,00</td><td></td><td></td>\
         </tr></table></td></tr>\
         <tr><td>Harcamalarınız</td><td>15,00</td></tr><tr><td>Ödemeleriniz</td><td>0,00</td></tr>\
         <tr><td>Dönem Borcu</td><td>15,00</td></tr>"
    );
    let parsed = parse_ziraat_html(page(&rows).as_bytes()).unwrap();
    let amounts: Vec<i64> = parsed.txns.iter().map(|t| t.amount_minor).collect();
    assert_eq!(amounts, vec![1_000, 500]);
}
