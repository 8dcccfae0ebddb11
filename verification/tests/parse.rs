//! Reading statements.

use budget::parse::{
    merchant_norm, parse_tr_amount, parse_ziraat_html, Direction, ParseError, TxnKind,
};

/// Two cards, a balance carried over, a payment, a refund, instalments and a
/// purchase abroad; the footer comes as one box per row.
const FIXTURE: &str = r#"<!DOCTYPE html>
<html>
<head>
<meta charset="utf-8">
<title>Ziraat Katılım Bankası - Kredi Kartı Ekstresi</title>
<style>.logo { background: url(data:image/png;base64,AAAA); }</style>
</head>
<body>
<img src="data:image/png;base64,iVBORw0KGgo=" alt="a > b">
<table>
<tr><td>
<table class="ozet">
    <tr><td>Hesap Kesim Tarihi</td><td>:</td><td>05.09.2026</td><td></td><td>Sonraki Hesap Kesim Tarihi</td><td>:</td><td>05.10.2026</td></tr>
    <tr><td>Son Ödeme Tarihi</td><td>:</td><td>25.09.2026</td><td></td><td>Sonraki Son Ödeme Tarihi</td><td>:</td><td>25.10.2026</td></tr>
    <tr><td>Dönem Borcu (TL)</td><td>:</td><td>3.845,56 TL</td></tr>
    <tr><td>Dönem Borcu (USD)</td><td>:</td><td>0,00</td></tr>
    <tr><td>Asgari Ödeme Tutarı</td><td>:</td><td>500,00 TL</td></tr>
    <tr><td>Kart Limiti</td><td>:</td><td>5.000,00 TL</td><td></td><td>Kullanılabilir Limit</td><td>:</td><td>4.615,44 TL</td></tr>
</table>
</td></tr>
<tr><td>
<table class="islem">
    <tr><td>İşlem Tarihi</td><td>İşlem</td><td>Açıklama</td><td>Tutar (TL)</td><td>Tutar (USD)</td><td>Bankkart Lira</td></tr>
    <tr class="kart"><td>KART NO : 5400 61** **** 0001</td></tr>
    <tr class="kkgri"><td></td><td>ÖNCEKİ AYDAN DEVİR</td><td></td><td>1.000,00</td><td></td><td></td></tr>
    <tr class="kkbeyaz"><td>10.08.2026</td><td>MARKET ORNEK V020 KAYSERİ</td><td></td><td>250,00</td><td></td><td>1,25</td></tr>
    <tr class="kkgri"><td>11.08.2026</td><td>KAHVE ORNEK ANKARA</td><td></td><td>99,00</td><td></td><td></td></tr>
    <tr class="kkbeyaz"><td>12.08.2026</td><td>ELEKTRONIK ORNEK ISTANBUL</td><td>3 TAKSIT LI ORNEK</td><td>1.734,56</td><td></td><td></td></tr>
    <tr class="kkgri"><td>15.08.2026</td><td>ŞUBE-HESAPTAN ÖDEME</td><td></td><td>1.000,00+</td><td></td><td></td></tr>
    <tr class="kkbeyaz"><td>16.08.2026</td><td>IADE ORNEK IZMIR</td><td></td><td>50,00+</td><td></td><td></td></tr>
    <tr class="kkred"><td>17.08.2026</td><td>YABANCI ORNEK SAN FRANCISCO USD 12.00</td><td></td><td>12,00</td><td></td><td></td></tr>
    <tr class="kktaksit"><td>18.08.2026</td><td>ORNEK TAKSIT MAGZA</td><td></td><td>750,00</td><td></td><td></td></tr>
    <tr class="kktaksit"><td>18.08.2026</td><td>ORNEK TAKSIT MAGZA</td><td></td><td>750,00</td><td></td><td></td></tr>
    <tr class="kart"><td>KART NO : 5400 61** **** 0002</td></tr>
    <tr class="kkbeyaz"><td>01.09.2026</td><td>ECZANE ORNEK BURSA</td><td></td><td>200,00</td><td></td><td></td></tr>
    <tr class="kkgri"><td>02.09.2026</td><td>KITAP ORNEK ANTALYA</td><td></td><td>100,00</td><td></td><td></td></tr>
</table>
</td></tr>
<tr><td>
<table class="dip">
  <tr><td>Devreden Bakiye</td><td>1.000,00</td></tr>
  <tr><td>Harcamalarınız</td><td>3.895,56</td></tr>
  <tr><td>Ceza Ücret ve Kesintiler</td><td>0,00</td></tr>
  <tr><td>Ödemeleriniz</td><td>1.050,00</td></tr>
  <tr><td>Dönem Borcu</td><td>3.845,56</td></tr>
</table>
</td></tr>
</table>
</body>
</html>
"#;

/// The footer comes as a row of labels over a row of amounts and signs.
const FIXTURE9: &str = r#"<!DOCTYPE html>
<html>
<head><meta charset="utf-8"><title>ZİRAAT KATILIM EKSTRE</title></head>
<body>
<table>
<tr><td>Hesap Kesim Tarihi</td><td>:</td><td>05.08.2026</td></tr>
<tr><td>Son Ödeme Tarihi</td><td>:</td><td>25.08.2026</td></tr>
<tr><td>Dönem Borcu</td><td>:</td><td>10.200,50</td></tr>
<tr><td>Dönem Borcu USD</td><td>:</td><td>0,00</td></tr>
<tr><td>Asgari Ödeme Tutarı</td><td>:</td><td>850,00</td></tr>
<tr><td>Kart Limiti</td><td>:</td><td>15.000,00</td></tr>
<tr><td>Kullanılabilir Limit</td><td>:</td><td>4.570,00</td></tr>
<tr><td>KART NO</td><td>5400 61** **** 0001</td></tr>
<tr><td>10.07.2026</td><td>MARKET ORNEK</td><td></td><td>8.000,00</td><td></td><td></td></tr>
<tr><td>11.07.2026</td><td>KITAP ORNEK</td><td></td><td>930,50</td><td></td><td></td></tr>
<tr><td>12.07.2026</td><td>ŞUBE-HESAPTAN ÖDEME</td><td></td><td>1.230,00+</td><td></td><td></td></tr>
<tr><td>Devreden Bakiye</td><td></td><td>Harcamalarınız</td><td></td><td>Ceza Ücret ve Kesintiler</td><td></td><td>Ödemeleriniz</td><td></td><td>Dönem Borcu</td></tr>
<tr><td>2.500,00</td><td>+</td><td>8.930,50</td><td>+</td><td>0,00</td><td>-</td><td>1.230,00</td><td>=</td><td>10.200,50</td></tr>
</table>
</body>
</html>
"#;

#[test]
fn parses_whole_statement() {
    let parsed = parse_ziraat_html(FIXTURE.as_bytes()).expect("the statement is read");
    let s = &parsed.statement;
    assert_eq!(s.period_end, "2026-09-05");
    assert_eq!(s.next_period_end.as_deref(), Some("2026-10-05"));
    assert_eq!(s.due_date.as_deref(), Some("2026-09-25"));
    assert_eq!(s.next_due_date.as_deref(), Some("2026-10-25"));
    assert_eq!(s.previous_balance_minor, 100_000);
    assert_eq!(s.spend_minor, 389_556);
    assert_eq!(s.fees_minor, 0);
    assert_eq!(s.payments_minor, 105_000);
    assert_eq!(s.period_debt_minor, 384_556);
    assert_eq!(s.period_debt_usd_minor, 0);
    assert_eq!(s.min_pay_minor, 50_000);
    assert_eq!(s.card_limit_minor, Some(500_000));
    assert_eq!(s.available_limit_minor, Some(461_544));
    // The digest of the bytes without images, in hexadecimal digits.
    assert_eq!(s.source_sha256.len(), 64);
    assert!(s
        .source_sha256
        .bytes()
        .all(|b| b.is_ascii_digit() || (b'a'..=b'f').contains(&b)));

    assert_eq!(parsed.txns.len(), 10);
    for (i, t) in parsed.txns.iter().enumerate() {
        assert_eq!(t.row_index, i as i64, "the rows are numbered from zero without gaps");
    }

    let p = &parsed.txns[3];
    assert_eq!(p.kind, TxnKind::Payment, "a payment from an account");
    assert_eq!(p.direction, Direction::Credit);
    assert_eq!(p.amount_minor, 100_000);
    assert_eq!(parsed.txns[4].kind, TxnKind::Refund);
    assert_eq!(parsed.txns[4].amount_minor, 5_000);
    assert_eq!(parsed.txns[2].kind, TxnKind::Installment);
    assert_eq!(parsed.txns[2].extra, "3 TAKSIT LI ORNEK");
    // The colour of a row says nothing of its direction.
    let fx = &parsed.txns[5];
    assert_eq!(fx.kind, TxnKind::Pos);
    assert_eq!(fx.direction, Direction::Debit);
    assert_eq!(fx.amount_minor, 1_200);
    assert_eq!(fx.usd_minor, None);
    assert!(fx.merchant_raw.contains("USD 12.00"));
}

#[test]
fn binds_txns_to_preceding_card() {
    let parsed = parse_ziraat_html(FIXTURE.as_bytes()).expect("the statement is read");
    for t in &parsed.txns[..8] {
        assert_eq!(t.card_last4, "0001");
    }
    for t in &parsed.txns[8..] {
        assert_eq!(t.card_last4, "0002");
    }
}

#[test]
fn keeps_both_identical_installment_rows() {
    let parsed = parse_ziraat_html(FIXTURE.as_bytes()).expect("the statement is read");
    let norm = merchant_norm("ORNEK TAKSIT MAGZA");
    let dups: Vec<_> = parsed
        .txns
        .iter()
        .filter(|t| t.merchant_norm == norm)
        .collect();
    assert_eq!(dups.len(), 2, "both rows are kept");
    assert_ne!(dups[0].row_index, dups[1].row_index);
    for t in &dups {
        assert_eq!(t.kind, TxnKind::Installment);
        assert_eq!(t.amount_minor, 75_000);
        assert_eq!(t.direction, Direction::Debit);
    }
}

#[test]
fn reconcile_mismatch_refuses_with_numbers() {
    // The spending in the footer is off by one hundredth.
    let broken = FIXTURE.replace("3.895,56", "3.895,57");
    assert_ne!(broken, FIXTURE);
    match parse_ziraat_html(broken.as_bytes()) {
        Err(ParseError::Reconcile {
            previous_minor,
            sum_debit_minor,
            fees_minor,
            sum_credit_minor,
            period_debt_minor,
            ..
        }) => {
            assert_eq!(previous_minor, 100_000);
            assert_eq!(sum_debit_minor, 389_556);
            assert_eq!(fees_minor, 0);
            assert_eq!(sum_credit_minor, 105_000);
            assert_eq!(period_debt_minor, 384_556);
        }
        other => panic!("a footer that does not agree was read: {other:?}"),
    }
}

#[test]
fn amount_parser_cases() {
    assert_eq!(parse_tr_amount("1.234,56").unwrap(), (123_456, false));
    assert_eq!(parse_tr_amount("1.234,56+").unwrap(), (123_456, true));
    assert_eq!(parse_tr_amount("0,00").unwrap(), (0, false));
    assert_eq!(parse_tr_amount("18.619,06 TL").unwrap(), (1_861_906, false));
    assert!(parse_tr_amount("abc").is_err());
}

#[test]
fn norm_folds_turkish_and_strips_trailing_city() {
    assert_eq!(
        merchant_norm("BIM V020 30 AGUSTOS KAYSERİ"),
        merchant_norm("BIM V020 30 AGUSTOS KAYSERI")
    );
    assert_eq!(
        merchant_norm("BIM V020 30 AGUSTOS KAYSERI"),
        "BIM V020 30 AGUSTOS"
    );
    // A name that is all city is kept.
    assert_eq!(merchant_norm("KAYSERI"), "KAYSERI");
    assert_eq!(merchant_norm("A  B\tC"), "A B C");
}

#[test]
fn refuses_non_ziraat_file() {
    let other = b"<html><head><title>Baska Bank Ekstre</title></head><body></body></html>";
    assert!(matches!(
        parse_ziraat_html(other),
        Err(ParseError::NotZiraat)
    ));
}

#[test]
fn parses_nine_cell_split_footer() {
    let parsed = parse_ziraat_html(FIXTURE9.as_bytes()).expect("the statement is read");
    let s = &parsed.statement;
    assert_eq!(s.period_end, "2026-08-05");
    assert_eq!(s.due_date.as_deref(), Some("2026-08-25"));
    assert_eq!(s.previous_balance_minor, 250_000);
    assert_eq!(s.spend_minor, 893_050);
    assert_eq!(s.fees_minor, 0);
    assert_eq!(s.payments_minor, 123_000);
    assert_eq!(s.period_debt_minor, 1_020_050);
    assert_eq!(s.period_debt_usd_minor, 0);
    assert_eq!(s.min_pay_minor, 85_000);
    assert_eq!(s.card_limit_minor, Some(1_500_000));
    assert_eq!(s.available_limit_minor, Some(457_000));

    // The transactions add up to the footer.
    let debit: i64 = parsed
        .txns
        .iter()
        .filter(|t| t.direction == Direction::Debit)
        .map(|t| t.amount_minor)
        .sum();
    let credit: i64 = parsed
        .txns
        .iter()
        .filter(|t| t.direction == Direction::Credit)
        .map(|t| t.amount_minor)
        .sum();
    assert_eq!(debit, 893_050);
    assert_eq!(credit, 123_000);
    assert_eq!(parsed.txns.len(), 3);
    assert!(parsed.txns.iter().all(|t| t.card_last4 == "0001"));
    let pay = &parsed.txns[2];
    assert_eq!(pay.kind, TxnKind::Payment);
    assert_eq!(pay.direction, Direction::Credit);
}

#[test]
fn footer_multi_boxes_in_single_row() {
    // All five boxes in one row of ten cells.
    let merged = FIXTURE.replace("</tr>\n  <tr><td>", "<td>");
    assert_ne!(merged, FIXTURE);
    let parsed = parse_ziraat_html(merged.as_bytes()).expect("the statement is read");
    let s = &parsed.statement;
    assert_eq!(s.previous_balance_minor, 100_000);
    assert_eq!(s.spend_minor, 389_556);
    assert_eq!(s.fees_minor, 0);
    assert_eq!(s.payments_minor, 105_000);
    assert_eq!(s.period_debt_minor, 384_556);
}
