//! The store on a real database: imports, labels, and what the pages read.

use budget::parse::{merchant_norm, parse_ziraat_html, ParseResult, TxnKind};
use budget::store::action::{Action, Mode};
use budget::store::dashboard::dashboard;
use budget::store::groups::unlabeled_groups;
use budget::store::import::{find_payment_norms, import};
use budget::store::label::label;
use budget::store::open::{migrate, pragmas, rekey_merchants};
use budget::store::payee::{clear_payee, clear_source, set_payee_category, update_payee};
use budget::store::payees::{payee_rows, payees};
use budget::store::rows::{categories, list_txns, statements};
use budget::store::schema::fingerprint;
use budget::store::step::{stamp, stamp_of, Step};
use budget::store::value::{int_of, opt_int_of, opt_text_of, text, Reply, SqlValue};
use budget::store::{
    Category, Dashboard, ImportReport, LabelReport, MerchantGroup, PayeeRow, StatementRow,
    StoreError, TxnFilter, TxnRow, CAT_IADE, CAT_MARKET, CAT_ODEME, PAYEE_CARD_PAYMENT,
};

const FIXTURE: &str = r#"<!DOCTYPE html>
<html>
<head>
<meta charset="utf-8">
<title>Ziraat Katılım Bankası - Kredi Kartı Ekstresi</title>
<style>.logo { background: url(data:image/png;base64,AAAA); }</style>
</head>
<body>
<img src="data:image/png;base64,iVBORw0KGgo=" alt="a > b">
<table>
<tr><td>
<table class="ozet">
    <tr><td>Hesap Kesim Tarihi</td><td>:</td><td>05.09.2026</td><td></td><td>Sonraki Hesap Kesim Tarihi</td><td>:</td><td>05.10.2026</td></tr>
    <tr><td>Son Ödeme Tarihi</td><td>:</td><td>25.09.2026</td><td></td><td>Sonraki Son Ödeme Tarihi</td><td>:</td><td>25.10.2026</td></tr>
    <tr><td>Dönem Borcu (TL)</td><td>:</td><td>3.845,56 TL</td></tr>
    <tr><td>Dönem Borcu (USD)</td><td>:</td><td>0,00</td></tr>
    <tr><td>Asgari Ödeme Tutarı</td><td>:</td><td>500,00 TL</td></tr>
    <tr><td>Kart Limiti</td><td>:</td><td>5.000,00 TL</td><td></td><td>Kullanılabilir Limit</td><td>:</td><td>4.615,44 TL</td></tr>
</table>
</td></tr>
<tr><td>
<table class="islem">
    <tr><td>İşlem Tarihi</td><td>İşlem</td><td>Açıklama</td><td>Tutar (TL)</td><td>Tutar (USD)</td><td>Bankkart Lira</td></tr>
    <tr class="kart"><td>KART NO : 5400 61** **** 0001</td></tr>
    <tr class="kkgri"><td></td><td>ÖNCEKİ AYDAN DEVİR</td><td></td><td>1.000,00</td><td></td><td></td></tr>
    <tr class="kkbeyaz"><td>10.08.2026</td><td>MARKET ORNEK V020 KAYSERİ</td><td></td><td>250,00</td><td></td><td>1,25</td></tr>
    <tr class="kkgri"><td>11.08.2026</td><td>KAHVE ORNEK ANKARA</td><td></td><td>99,00</td><td></td><td></td></tr>
    <tr class="kkbeyaz"><td>12.08.2026</td><td>ELEKTRONIK ORNEK ISTANBUL</td><td>3 TAKSIT LI ORNEK</td><td>1.734,56</td><td></td><td></td></tr>
    <tr class="kkgri"><td>15.08.2026</td><td>ŞUBE-HESAPTAN ÖDEME</td><td></td><td>1.000,00+</td><td></td><td></td></tr>
    <tr class="kkbeyaz"><td>16.08.2026</td><td>IADE ORNEK IZMIR</td><td></td><td>50,00+</td><td></td><td></td></tr>
    <tr class="kkred"><td>17.08.2026</td><td>YABANCI ORNEK SAN FRANCISCO USD 12.00</td><td></td><td>12,00</td><td></td><td></td></tr>
    <tr class="kktaksit"><td>18.08.2026</td><td>ORNEK TAKSIT MAGZA</td><td></td><td>750,00</td><td></td><td></td></tr>
    <tr class="kktaksit"><td>18.08.2026</td><td>ORNEK TAKSIT MAGZA</td><td></td><td>750,00</td><td></td><td></td></tr>
    <tr class="kart"><td>KART NO : 5400 61** **** 0002</td></tr>
    <tr class="kkbeyaz"><td>01.09.2026</td><td>ECZANE ORNEK BURSA</td><td></td><td>200,00</td><td></td><td></td></tr>
    <tr class="kkgri"><td>02.09.2026</td><td>KITAP ORNEK ANTALYA</td><td></td><td>100,00</td><td></td><td></td></tr>
</table>
</td></tr>
<tr><td>
<table class="dip">
  <tr><td>Devreden Bakiye</td><td>1.000,00</td></tr>
  <tr><td>Harcamalarınız</td><td>3.895,56</td></tr>
  <tr><td>Ceza Ücret ve Kesintiler</td><td>0,00</td></tr>
  <tr><td>Ödemeleriniz</td><td>1.050,00</td></tr>
  <tr><td>Dönem Borcu</td><td>3.845,56</td></tr>
</table>
</td></tr>
</table>
</body>
</html>
"#;

/// Another statement: the same merchants, other amounts.
fn fixture_v2() -> Vec<u8> {
    FIXTURE
        .replace("99,00", "105,00")
        .replace("3.895,56", "3.901,56")
        .replace("3.845,56", "3.851,56")
        .into_bytes()
}

fn read(bytes: &[u8]) -> ParseResult {
    parse_ziraat_html(bytes).expect("the statement is read")
}

fn to_turso(value: SqlValue) -> turso::Value {
    match value {
        SqlValue::Null => turso::Value::Null,
        SqlValue::Integer(n) => turso::Value::Integer(n),
        SqlValue::Text(s) => turso::Value::Text(s),
        SqlValue::Other => panic!("the store writes no such value"),
    }
}

fn from_turso(value: turso::Value) -> SqlValue {
    match value {
        turso::Value::Null => SqlValue::Null,
        turso::Value::Integer(n) => SqlValue::Integer(n),
        turso::Value::Text(s) => SqlValue::Text(s),
        _ => SqlValue::Other,
    }
}

/// A database in memory.
struct Store {
    runtime: tokio::runtime::Runtime,
    conn: turso::Connection,
    _db: turso::Database,
}

impl Store {
    fn bare() -> Store {
        let runtime = tokio::runtime::Builder::new_current_thread().build().unwrap();
        let (db, conn) = runtime.block_on(async {
            let db = turso::Builder::new_local(":memory:").build().await.unwrap();
            let conn = db.connect().unwrap();
            (db, conn)
        });
        Store { runtime, conn, _db: db }
    }

    fn open() -> Store {
        let store = Store::bare();
        store.start().expect("a new database is opened");
        store
    }

    /// What is done whenever a database is opened.
    fn start(&self) -> Result<(), StoreError> {
        for action in pragmas() {
            self.run(&action);
        }
        self.drive(migrate(), |state, reply| state.resume(reply))?;
        self.drive(rekey_merchants(), |state, reply| state.resume(reply, stamp().unwrap()))
    }

    async fn select(
        conn: &turso::Connection,
        action: &Action,
        all: bool,
    ) -> Result<Vec<Vec<SqlValue>>, turso::Error> {
        let params: Vec<turso::Value> = action.params().into_iter().map(to_turso).collect();
        let mut rows = conn.query(action.sql(), turso::params_from_iter(params)).await?;
        let mut out: Vec<Vec<SqlValue>> = Vec::new();
        while let Some(row) = rows.next().await? {
            let mut values: Vec<SqlValue> = Vec::new();
            for i in 0..row.column_count() {
                values.push(from_turso(row.get_value(i)?));
            }
            out.push(values);
            if !all {
                break;
            }
        }
        Ok(out)
    }

    async fn perform(&self, action: &Action) -> Result<Reply, turso::Error> {
        let none: Vec<Vec<SqlValue>> = Vec::new();
        match action.mode() {
            Mode::Execute => {
                let params: Vec<turso::Value> = action.params().into_iter().map(to_turso).collect();
                let changed =
                    self.conn.execute(action.sql(), turso::params_from_iter(params)).await?;
                Ok(Reply::Done { rows: none, changed })
            }
            Mode::FirstRow => {
                let rows = Store::select(&self.conn, action, false).await?;
                Ok(Reply::Done { rows, changed: 0 })
            }
            Mode::AllRows => {
                let rows = Store::select(&self.conn, action, true).await?;
                Ok(Reply::Done { rows, changed: 0 })
            }
            Mode::Batch => {
                self.conn.execute_batch(action.sql()).await?;
                Ok(Reply::Done { rows: none, changed: 0 })
            }
            Mode::Declared => {
                let db = turso::Builder::new_local(":memory:").build().await?;
                let conn = db.connect()?;
                conn.execute_batch(Action::InstallSchema.sql()).await?;
                let rows = Store::select(&conn, action, true).await?;
                Ok(Reply::Done { rows, changed: 0 })
            }
        }
    }

    fn run(&self, action: &Action) -> Reply {
        match self.runtime.block_on(self.perform(action)) {
            Ok(reply) => reply,
            Err(err) => Reply::Failed(err.to_string()),
        }
    }

    fn rows(&self, action: &Action) -> Vec<Vec<SqlValue>> {
        match self.run(action) {
            Reply::Done { rows, .. } => rows,
            Reply::Failed(what) => panic!("{what}"),
        }
    }

    fn sql(&self, sql: &str) {
        self.runtime.block_on(self.conn.execute(sql, ())).expect("the statement runs");
    }

    fn drive<S, R>(
        &self,
        start: Step<S, R>,
        resume: impl Fn(S, Reply) -> Step<S, R>,
    ) -> Result<R, StoreError> {
        let mut step = start;
        loop {
            match step {
                Step::Finish(outcome) => return outcome,
                Step::Run(action, state) => {
                    let reply = self.run(&action);
                    step = resume(state, reply);
                }
            }
        }
    }

    fn import(&self, parsed: ParseResult) -> Result<ImportReport, StoreError> {
        self.drive(import(parsed), |state, reply| {
            assert!(state.accepts(&reply));
            state.resume(reply, stamp().unwrap())
        })
    }

    fn label(&self, norm: &str, name: &str, category: &str) -> Result<LabelReport, StoreError> {
        self.drive(label(norm, name, category), |state, reply| {
            state.resume(reply, stamp().unwrap())
        })
    }

    fn update_payee(
        &self,
        id: &str,
        name: Option<&str>,
        category: Option<&str>,
    ) -> Result<(), StoreError> {
        self.drive(update_payee(id, name, category), |state, reply| {
            state.resume(reply, stamp().unwrap())
        })
    }

    fn set_payee_category(&self, id: &str, category: &str) -> Result<(), StoreError> {
        self.drive(set_payee_category(id, category), |state, reply| {
            state.resume(reply, stamp().unwrap())
        })
    }

    fn clear_payee(&self, id: &str) -> Result<(), StoreError> {
        self.drive(clear_payee(id), |state, reply| state.resume(reply))
    }

    fn clear_source(&self, id: &str, norm: &str) -> Result<(), StoreError> {
        self.drive(clear_source(id, norm), |state, reply| state.resume(reply))
    }

    fn dashboard(&self, statement: Option<&str>) -> Result<Dashboard, StoreError> {
        self.drive(dashboard(statement), |state, reply| state.resume(reply))
    }

    fn statements(&self) -> Vec<StatementRow> {
        statements(&self.rows(&Action::ListStatements)).expect("statements")
    }

    fn list_txns(&self, filter: TxnFilter) -> Vec<TxnRow> {
        list_txns(&self.rows(&Action::ListTxns { filter })).expect("transactions")
    }

    fn categories(&self) -> Vec<Category> {
        categories(&self.rows(&Action::ListCategories)).expect("categories")
    }

    fn unlabeled_groups(&self) -> Vec<MerchantGroup> {
        unlabeled_groups(&self.rows(&Action::UnlabeledTxns)).expect("groups")
    }

    fn payees(&self) -> Vec<PayeeRow> {
        let list = payee_rows(&self.rows(&Action::ListPayees)).expect("payees");
        payees(list, &self.rows(&Action::PayeeSources)).expect("sources")
    }
}

#[test]
fn imports_statement_with_counts_and_payment_autolabel() {
    let store = Store::open();
    let report = store
        .import(read(FIXTURE.as_bytes()))
        .expect("import");
    assert!(!report.duplicate);
    assert_eq!(report.txn_count, 10);
    assert_eq!(report.labeled, 1, "only the payment has a label");
    assert_eq!(report.unlabeled, 9);

    let statements = store.statements();
    assert_eq!(statements.len(), 1);
    assert_eq!(statements[0].period_debt_minor, 384_556);
    assert_eq!(statements[0].previous_balance_minor, 100_000);

    let txns = store
        .list_txns(TxnFilter::default());
    assert_eq!(txns.len(), 10);
    let payment = txns
        .iter()
        .find(|t| t.kind == TxnKind::Payment)
        .expect("the payment");
    assert_eq!(payment.payee_name.as_deref(), Some("Kart ödemesi"));
    assert_eq!(payment.category_id.as_deref(), Some(CAT_ODEME));
}

#[test]
fn duplicate_sha_is_reported_and_not_reinserted() {
    let store = Store::open();
    let first = store
        .import(read(FIXTURE.as_bytes()))
        .expect("first import");
    assert!(!first.duplicate);

    let second = store
        .import(read(FIXTURE.as_bytes()))
        .expect("second import");
    assert!(second.duplicate);
    assert_eq!(second.txn_count, 10, "the transactions that are there");
    assert_eq!(second.statement_id, first.statement_id);

    assert_eq!(store.statements().len(), 1);
    assert_eq!(store.list_txns(TxnFilter::default()).len(), 10);
}

#[test]
fn label_persists_and_relinks_later_imports() {
    let store = Store::open();
    store
        .import(read(FIXTURE.as_bytes()))
        .expect("first import");

    let norm = merchant_norm("KAHVE ORNEK ANKARA");
    let report = store
        .label(&norm, "Kahve Dükkanı", CAT_MARKET)
        .expect("label");
    assert!(report.alias_created);
    assert_eq!(report.txns_updated, 1);

    // Another statement: the merchant comes labeled.
    let second = store
        .import(read(&fixture_v2()))
        .expect("second import");
    assert!(!second.duplicate);
    assert_eq!(second.labeled, 2, "the payment and the coffee");

    let rows = store
        .list_txns(TxnFilter {
            statement_id: Some(second.statement_id.clone()),
            q: Some("KAHVE".into()),
            ..TxnFilter::default()
        });
    assert_eq!(rows.len(), 1);
    assert_eq!(rows[0].payee_id.as_deref(), Some(report.payee_id.as_str()));

    // Labeling again reaches the transactions of both.
    let relabel = store
        .label(&norm, "Kahve Dükkanı", CAT_IADE)
        .expect("label again");
    assert!(!relabel.alias_created);
    assert_eq!(relabel.txns_updated, 2);
}

#[test]
fn dashboard_unlabeled_groups_and_seed_categories() {
    let store = Store::open();

    let cats = store.categories();
    assert_eq!(cats.len(), 14);
    assert_eq!(cats[0].id, CAT_MARKET, "the categories come sorted");
    assert!(cats.iter().any(|c| c.id == CAT_IADE));

    store
        .import(read(FIXTURE.as_bytes()))
        .expect("import");

    let groups = store.unlabeled_groups();
    let market_norm = merchant_norm("MARKET ORNEK V020 KAYSERİ");
    let market = groups
        .iter()
        .find(|g| g.merchant_norm == market_norm)
        .expect("the market");
    assert_eq!(market.count, 1);
    assert_eq!(market.debit_minor, 25_000);
    assert_eq!(market.credit_minor, 0);

    let dash = store.dashboard(None).expect("dashboard");
    assert!(dash.statement.is_some());
    assert_eq!(dash.unlabeled_count, 9);
    assert_eq!(dash.unlabeled_debit_minor, 389_556);
    assert!(dash.spend_by_category.is_empty());
    assert_eq!(dash.monthly.len(), 2, "August and September");
    assert_eq!(dash.monthly[0], ("2026-08".to_string(), 359_556, 105_000));
    assert_eq!(dash.monthly[1], ("2026-09".to_string(), 30_000, 0));

    store
        .label(&market_norm, "Ornek Market", CAT_MARKET)
        .expect("label the market");
    let dash = store.dashboard(None).expect("dashboard");
    assert_eq!(dash.unlabeled_count, 8);
    assert_eq!(dash.spend_by_category.len(), 1);
    assert_eq!(dash.spend_by_category[0].0.id, CAT_MARKET);
    assert_eq!(dash.spend_by_category[0].1, 25_000);
    assert_eq!(dash.top_payees, vec![("Ornek Market".to_string(), 25_000)]);
}

/// The import of a known statement changes no table.
#[test]
fn known_statement_changes_nothing() {
    let store = Store::open();
    store.import(read(FIXTURE.as_bytes())).expect("first import");
    let before = format!("{:?}", store.list_txns(TxnFilter::default()));
    let report = store.import(read(FIXTURE.as_bytes())).expect("second import");
    assert!(report.duplicate);
    assert_eq!(report.labeled, 1);
    assert_eq!(report.unlabeled, 9);
    assert_eq!(format!("{:?}", store.list_txns(TxnFilter::default())), before);
}

/// An import that fails on the way leaves nothing behind.
#[test]
fn failed_import_leaves_nothing() {
    let store = Store::open();
    let mut parsed = read(FIXTURE.as_bytes());
    parsed.txns[9].row_index = 0;
    assert!(matches!(store.import(parsed), Err(StoreError::Backend(_))));
    assert!(store.statements().is_empty());
    assert!(store.list_txns(TxnFilter::default()).is_empty());
}

/// A statement comes back as it was read.
#[test]
fn stored_statement_is_the_one_read() {
    let store = Store::open();
    let parsed = read(FIXTURE.as_bytes());
    let report = store.import(read(FIXTURE.as_bytes())).expect("import");
    let kept = &store.statements()[0];
    assert_eq!(kept.id, report.statement_id);
    assert_eq!(kept.source_sha256, parsed.statement.source_sha256);
    assert_eq!(kept.next_due_date, parsed.statement.next_due_date);
    assert_eq!(kept.available_limit_minor, parsed.statement.available_limit_minor);
    let mut txns = store.list_txns(TxnFilter::default());
    txns.sort_by_key(|t| t.row_index);
    assert_eq!(txns.len(), parsed.txns.len());
    for (kept, read) in txns.iter().zip(parsed.txns.iter()) {
        assert_eq!(kept.merchant_raw, read.merchant_raw);
        assert_eq!(kept.merchant_norm, read.merchant_norm);
        assert_eq!(kept.amount_minor, read.amount_minor);
        assert_eq!(kept.direction, read.direction);
        assert_eq!(kept.kind, read.kind);
        assert_eq!(kept.date, read.date);
    }
}

#[test]
fn label_needs_a_category() {
    let store = Store::open();
    store.import(read(FIXTURE.as_bytes())).expect("import");
    match store.label("KAHVE ORNEK", "Kahve", "none") {
        Err(StoreError::NotFound(what)) => assert_eq!(what, "kategori none"),
        other => panic!("labeled in no category: {other:?}"),
    }
    assert_eq!(store.dashboard(None).unwrap().unlabeled_count, 9);
    assert!(store.payees().iter().all(|p| p.name == PAYEE_CARD_PAYMENT));
}

#[test]
fn payee_is_renamed_and_moved() {
    let store = Store::open();
    store.import(read(FIXTURE.as_bytes())).expect("import");
    let id = store.label("KAHVE ORNEK", "Kahve", CAT_MARKET).unwrap().payee_id;
    store.update_payee(&id, Some("  Kahveci "), Some(CAT_IADE)).expect("update");
    let payee = store.payees().into_iter().find(|p| p.id == id).expect("the payee");
    assert_eq!(payee.name, "Kahveci");
    assert_eq!(payee.category_id, CAT_IADE);
    assert_eq!(payee.sources.len(), 1);
    assert_eq!(payee.sources[0].merchant_norm, "KAHVE ORNEK");
    assert_eq!(payee.sources[0].display, "KAHVE ORNEK ANKARA");
    assert_eq!(payee.sources[0].count, 1);

    store.set_payee_category(&id, CAT_MARKET).expect("category");
    assert!(matches!(
        store.set_payee_category(&id, "none"),
        Err(StoreError::NotFound(what)) if what == "kategori none"
    ));
    assert!(matches!(
        store.set_payee_category("none", CAT_MARKET),
        Err(StoreError::NotFound(what)) if what == "payee none"
    ));
    assert!(matches!(
        store.update_payee(&id, Some("  "), None),
        Err(StoreError::NotFound(what)) if what == "payee adı boş"
    ));
}

/// A payee that takes the name of another becomes the other.
#[test]
fn payees_of_one_name_become_one() {
    let store = Store::open();
    store.import(read(FIXTURE.as_bytes())).expect("import");
    let coffee = store.label("KAHVE ORNEK", "Kahve", CAT_MARKET).unwrap().payee_id;
    let books = store.label("KITAP ORNEK", "Kitap", CAT_MARKET).unwrap().payee_id;
    store.update_payee(&books, Some("Kahve"), None).expect("update");
    let list = store.payees();
    assert!(list.iter().all(|p| p.id != books));
    let kept = list.iter().find(|p| p.id == coffee).expect("the payee that stays");
    assert_eq!(kept.sources.len(), 2);

    // Later imports follow.
    let second = store.import(read(&fixture_v2())).expect("second import");
    assert_eq!(second.labeled, 3);
}

#[test]
fn cleared_payee_goes_back_to_the_inbox() {
    let store = Store::open();
    store.import(read(FIXTURE.as_bytes())).expect("import");
    let id = store.label("KAHVE ORNEK", "Kahve", CAT_MARKET).unwrap().payee_id;
    assert_eq!(store.dashboard(None).unwrap().unlabeled_count, 8);
    store.clear_payee(&id).expect("clear");
    assert_eq!(store.dashboard(None).unwrap().unlabeled_count, 9);
    assert!(store.payees().iter().all(|p| p.id != id));
    assert!(matches!(
        store.clear_payee(&id),
        Err(StoreError::NotFound(what)) if what == format!("payee {id}")
    ));
    // The label is gone for later imports too.
    assert_eq!(store.import(read(&fixture_v2())).unwrap().labeled, 1);
}

#[test]
fn cleared_source_leaves_the_other_sources() {
    let store = Store::open();
    store.import(read(FIXTURE.as_bytes())).expect("import");
    let id = store.label("KAHVE ORNEK", "Kahve", CAT_MARKET).unwrap().payee_id;
    assert_eq!(store.label("KITAP ORNEK", "Kahve", CAT_MARKET).unwrap().payee_id, id);
    store.clear_source(&id, "KAHVE ORNEK").expect("clear");
    let payee = store.payees().into_iter().find(|p| p.id == id).expect("the payee");
    assert_eq!(payee.sources.len(), 1);
    assert_eq!(payee.sources[0].merchant_norm, "KITAP ORNEK");
    // The last source takes the payee with it.
    store.clear_source(&id, "KITAP ORNEK").expect("clear");
    assert!(store.payees().iter().all(|p| p.id != id));
}

#[test]
fn transactions_are_filtered() {
    let store = Store::open();
    let report = store.import(read(FIXTURE.as_bytes())).expect("import");
    let all = TxnFilter::default;
    assert_eq!(store.list_txns(TxnFilter { unlabeled_only: true, ..all() }).len(), 9);
    assert_eq!(
        store.list_txns(TxnFilter { category_id: Some(CAT_ODEME.to_string()), ..all() }).len(),
        1
    );
    assert_eq!(store.list_txns(TxnFilter { q: Some("TAKSIT".to_string()), ..all() }).len(), 2);
    assert_eq!(
        store.list_txns(TxnFilter { statement_id: Some("none".to_string()), ..all() }).len(),
        0
    );
    let both = TxnFilter {
        statement_id: Some(report.statement_id),
        unlabeled_only: true,
        q: Some("ORNEK".to_string()),
        ..all()
    };
    assert_eq!(store.list_txns(both).len(), 9);
}

#[test]
fn dashboard_of_one_statement() {
    let store = Store::open();
    let report = store.import(read(FIXTURE.as_bytes())).expect("import");
    store.import(read(&fixture_v2())).expect("second import");
    let one = store.dashboard(Some(&report.statement_id)).expect("dashboard");
    assert_eq!(one.statement.map(|s| s.id), Some(report.statement_id));
    assert_eq!(one.unlabeled_debit_minor, 389_556);
    let all = store.dashboard(None).expect("dashboard");
    assert_eq!(all.unlabeled_debit_minor, 389_556 + 390_156);
    assert!(matches!(
        store.dashboard(Some("none")),
        Err(StoreError::NotFound(what)) if what == "ekstre none"
    ));
}

/// A database that carries the declared schema is opened again as it is.
#[test]
fn filled_database_opens_again() {
    let store = Store::open();
    store.import(read(FIXTURE.as_bytes())).expect("import");
    store.label("KAHVE ORNEK", "Kahve", CAT_MARKET).expect("label");
    let before = format!("{:?}", store.list_txns(TxnFilter::default()));
    store.start().expect("the database is opened again");
    assert_eq!(format!("{:?}", store.list_txns(TxnFilter::default())), before);
    assert_eq!(
        fingerprint(&store.rows(&Action::ReadSchema)).unwrap(),
        fingerprint(&store.rows(&Action::ReadDeclaredSchema)).unwrap()
    );
}

#[test]
fn other_schema_is_refused() {
    let store = Store::bare();
    store.sql("CREATE TABLE category (id TEXT PRIMARY KEY, extra TEXT)");
    match store.start() {
        Err(StoreError::SchemaDiff(diff)) => {
            assert!(diff.contains("txn"), "{diff}");
            assert!(diff.contains("extra"), "{diff}");
        }
        other => panic!("another schema was opened: {other:?}"),
    }
}

/// The tables as they are filled elsewhere, with one category alone.
const FILLED: &str = r#"
CREATE TABLE category (
    id    TEXT PRIMARY KEY,
    name  TEXT NOT NULL UNIQUE,
    kind  TEXT NOT NULL,
    color TEXT NOT NULL,
    sort  INTEGER NOT NULL
);
CREATE TABLE payee (
    id          TEXT PRIMARY KEY,
    name        TEXT NOT NULL,
    category_id TEXT NOT NULL REFERENCES category(id),
    created_at  TEXT NOT NULL
);
CREATE TABLE payee_alias (
    merchant_norm TEXT PRIMARY KEY,
    payee_id      TEXT NOT NULL REFERENCES payee(id),
    created_at    TEXT NOT NULL
);
CREATE TABLE statement (
    id                      TEXT PRIMARY KEY,
    source_sha256           TEXT NOT NULL UNIQUE,
    period_end              TEXT NOT NULL,
    next_period_end         TEXT,
    due_date                TEXT,
    next_due_date           TEXT,
    previous_balance_minor  INTEGER NOT NULL,
    spend_minor             INTEGER NOT NULL,
    fees_minor              INTEGER NOT NULL,
    payments_minor          INTEGER NOT NULL,
    period_debt_minor       INTEGER NOT NULL,
    period_debt_usd_minor   INTEGER NOT NULL DEFAULT 0,
    min_pay_minor           INTEGER NOT NULL DEFAULT 0,
    card_limit_minor        INTEGER,
    available_limit_minor   INTEGER,
    imported_at             TEXT NOT NULL
);
CREATE TABLE txn (
    id                  TEXT PRIMARY KEY,
    statement_id        TEXT NOT NULL REFERENCES statement(id),
    row_index           INTEGER NOT NULL,
    date                TEXT NOT NULL,
    merchant_raw        TEXT NOT NULL,
    merchant_norm       TEXT NOT NULL,
    extra               TEXT NOT NULL DEFAULT '',
    amount_minor        INTEGER NOT NULL,
    direction           TEXT NOT NULL,
    usd_minor           INTEGER,
    bankkart_lira_minor INTEGER NOT NULL DEFAULT 0,
    card_last4          TEXT NOT NULL,
    kind                TEXT NOT NULL,
    payee_id            TEXT REFERENCES payee(id),
    UNIQUE(statement_id, row_index)
);
CREATE INDEX txn_norm ON txn(merchant_norm);
CREATE INDEX txn_date ON txn(date);
CREATE INDEX txn_payee ON txn(payee_id);
INSERT OR IGNORE INTO category (id, name, kind, color, sort) VALUES
    ('01CATODEME000000000000000', 'Kart ödemesi', 'transfer', '#cbd5e1', 210);
"#;

/// A database that was filled elsewhere is opened with its rows.
#[test]
fn tables_filled_elsewhere_are_opened() {
    let store = Store::bare();
    store.runtime.block_on(store.conn.execute_batch(FILLED)).expect("the tables");
    store.sql("INSERT INTO payee VALUES ('01PAYTEST0000000000000000', 'Kart ödemesi', '01CATODEME000000000000000', 'x')");
    store.sql("INSERT INTO payee_alias VALUES ('SUBE-HESAPTAN ODEME', '01PAYTEST0000000000000000', 'x')");
    store.sql("INSERT INTO statement VALUES ('01STTEST00000000000000000', 'deadbeef', '2026-08-31', NULL, NULL, NULL, 100000, 6140494, 0, 3322073, 4680327, 0, 0, NULL, NULL, 'x')");
    store.sql("INSERT INTO txn VALUES ('01TXTEST00000000000000001', '01STTEST00000000000000000', 0, '2026-08-10', 'MARKET ORNEK V020 KAYSERI', 'MARKET ORNEK V020 KAYSERI', '', 25000, 'debit', NULL, 0, '5578', 'pos', NULL)");
    store.sql("INSERT INTO txn VALUES ('01TXTEST00000000000000002', '01STTEST00000000000000000', 1, '2026-09-01', 'ŞUBE-HESAPTAN ÖDEME', 'SUBE-HESAPTAN ODEME', '', 1861906, 'credit', NULL, 0, '5578', 'payment', '01PAYTEST0000000000000000')");
    store.start().expect("the database is opened");

    assert_eq!(
        fingerprint(&store.rows(&Action::ReadSchema)).unwrap(),
        fingerprint(&store.rows(&Action::ReadDeclaredSchema)).unwrap()
    );
    let statements = store.statements();
    assert_eq!(statements.len(), 1);
    assert_eq!(statements[0].id, "01STTEST00000000000000000");
    let payees = store.payees();
    assert_eq!(payees.len(), 1);
    assert_eq!(payees[0].id, "01PAYTEST0000000000000000");
    let groups = store.unlabeled_groups();
    assert_eq!(groups.len(), 1, "only the purchase has no label");
    assert_eq!(groups[0].count, 1);
    assert_eq!(store.list_txns(TxnFilter::default()).len(), 2);
}

/// A second import of a statement reports the first, with the labels that its
/// transactions have by then.
#[test]
fn second_import_counts_the_labels() {
    let store = Store::open();
    let first = store.import(read(FIXTURE.as_bytes())).expect("first import");
    assert_eq!((first.labeled, first.unlabeled), (1, 9));
    store.label("KAHVE ORNEK", "Kahve", CAT_MARKET).expect("label");
    let other = store.import(read(&fixture_v2())).expect("another statement");
    assert!(!other.duplicate);
    let again = store.import(read(FIXTURE.as_bytes())).expect("second import");
    assert!(again.duplicate);
    assert_eq!(again.statement_id, first.statement_id);
    assert_eq!((again.txn_count, again.labeled, again.unlabeled), (10, 2, 8));
}

/// A second renewal of the keys changes nothing but the times of the aliases.
#[test]
fn second_renewal_changes_nothing_else() {
    let store = Store::open();
    store.import(read(FIXTURE.as_bytes())).expect("import");
    store.label("KAHVE ORNEK", "Kahve", CAT_MARKET).expect("label");
    store.label("KITAP ORNEK", "Kitap", CAT_IADE).expect("label");
    store.start().expect("first renewal");
    let tables = |store: &Store| {
        format!(
            "{:?} {:?} {:?} {:?}",
            store.list_txns(TxnFilter::default()),
            store.payees(),
            store.statements(),
            store.categories()
        )
    };
    let alias = |store: &Store, norm: &str| {
        text(&store.rows(&Action::AliasOf { norm: norm.to_string() })[0], 0).unwrap()
    };
    let before = tables(&store);
    let coffee = alias(&store, "KAHVE ORNEK");
    store.start().expect("second renewal");
    assert_eq!(tables(&store), before);
    assert_eq!(alias(&store, "KAHVE ORNEK"), coffee);
}

/// A label under a name that a payee has goes to that payee.
#[test]
fn payee_of_the_name_is_used_again() {
    let store = Store::open();
    store.import(read(FIXTURE.as_bytes())).expect("import");
    let first = store.label("KAHVE ORNEK", "Kahve", CAT_MARKET).expect("label");
    let second = store.label("KITAP ORNEK", "Kahve", CAT_IADE).expect("label");
    assert_eq!(second.payee_id, first.payee_id);
    let named: Vec<PayeeRow> = store.payees().into_iter().filter(|p| p.name == "Kahve").collect();
    assert_eq!(named.len(), 1);
    assert_eq!(named[0].category_id, CAT_IADE);
    assert_eq!(named[0].sources.len(), 2);
    store.import(read(&fixture_v2())).expect("another statement");
    let payments = store.payees().into_iter().filter(|p| p.name == PAYEE_CARD_PAYMENT).count();
    assert_eq!(payments, 1, "card payments keep their payee");
}

/// A search does not count the case of ASCII letters; `_` stands for any
/// character and `%` for any text.
#[test]
fn searches() {
    let store = Store::open();
    store.import(read(FIXTURE.as_bytes())).expect("import");
    let found = |q: &str| {
        store.list_txns(TxnFilter { q: Some(q.to_string()), ..TxnFilter::default() }).len()
    };
    assert_eq!(found("kahve ornek"), 1);
    assert_eq!(found("KAHVE__RNEK"), 1);
    assert_eq!(found("k%ornek ankara"), 1);
    assert_eq!(found("şube"), 0);
    assert_eq!(found("ŞUBE"), 1);
    assert_eq!(found("sube"), 1);
    assert_eq!(found(""), 10);
}

/// The dashboard is what the tables come to.
#[test]
fn dashboard_sums() {
    let store = Store::open();
    let report = store.import(read(FIXTURE.as_bytes())).expect("import");
    store.label("KAHVE ORNEK", "Kahve", CAT_MARKET).expect("label");
    store.label("MARKET ORNEK V020", "Market", CAT_MARKET).expect("label");
    let d = store.dashboard(Some(&report.statement_id)).expect("dashboard");
    let spend: Vec<(String, i64)> =
        d.spend_by_category.iter().map(|(c, n)| (c.id.clone(), *n)).collect();
    assert_eq!(spend, vec![(CAT_MARKET.to_string(), 34_900)]);
    assert_eq!(d.unlabeled_debit_minor, 389_556 - 34_900);
    assert_eq!(d.unlabeled_count, 7);
    assert_eq!(
        d.top_payees,
        vec![("Market".to_string(), 25_000), ("Kahve".to_string(), 9_900)]
    );
    assert_eq!(
        d.monthly,
        vec![("2026-08".to_string(), 359_556, 105_000), ("2026-09".to_string(), 30_000, 0)]
    );
}

/// Keys of an earlier form are renewed, and what then falls together gets one
/// payee.
#[test]
fn opening_renews_the_keys() {
    let store = Store::open();
    store.import(read(FIXTURE.as_bytes())).expect("import");
    let coffee = store.label("KAHVE ORNEK", "Kahve", CAT_MARKET).unwrap().payee_id;
    store.sql("UPDATE txn SET merchant_norm = 'KAHVE ORNEK USD 12.00' WHERE merchant_norm = 'KAHVE ORNEK'");
    store.start().expect("the database is opened again");
    let rows = store.list_txns(TxnFilter { q: Some("KAHVE".to_string()), ..TxnFilter::default() });
    assert_eq!(rows.len(), 1);
    assert_eq!(rows[0].merchant_norm, "KAHVE ORNEK");
    assert_eq!(rows[0].payee_id.as_deref(), Some(coffee.as_str()));
    assert_eq!(store.import(read(&fixture_v2())).unwrap().labeled, 2);
}

/// The keys of card payments come sorted, each once.
#[test]
fn keys_of_card_payments() {
    let mut parsed = read(FIXTURE.as_bytes());
    assert_eq!(find_payment_norms(&parsed.txns), vec!["SUBE-HESAPTAN ODEME"]);
    parsed.txns[0].merchant_norm = "X SUBE-HESAPTAN ODEME".to_string();
    parsed.txns[1].merchant_norm = "A SUBE-HESAPTAN ODEME Z".to_string();
    parsed.txns[9].merchant_norm = "X SUBE-HESAPTAN ODEME".to_string();
    assert_eq!(
        find_payment_norms(&parsed.txns),
        vec!["A SUBE-HESAPTAN ODEME Z", "SUBE-HESAPTAN ODEME", "X SUBE-HESAPTAN ODEME"]
    );
    assert!(find_payment_norms(&[]).is_empty());
}

#[test]
fn columns_of_a_row() {
    let row = vec![SqlValue::Text("x".to_string()), SqlValue::Integer(7), SqlValue::Null];
    assert_eq!(text(&row, 0).unwrap(), "x");
    assert_eq!(opt_text_of(&row, 0).unwrap().as_deref(), Some("x"));
    assert_eq!(opt_text_of(&row, 2).unwrap(), None);
    assert_eq!(int_of(&row, 1).unwrap(), 7);
    assert_eq!(opt_int_of(&row, 1).unwrap(), Some(7));
    assert_eq!(opt_int_of(&row, 2).unwrap(), None);
    assert!(text(&row, 1).is_err());
    assert!(int_of(&row, 2).is_err());
    assert!(opt_int_of(&row, 3).is_err());
}

/// What the library says of a value that does not fit is what the database's
/// own reading says.
#[test]
fn conversion_errors_are_those_of_the_database() {
    let store = Store::bare();
    let said = store.runtime.block_on(async {
        let mut rows = store.conn.query("SELECT 'x', NULL, 1", ()).await.unwrap();
        let row = rows.next().await.unwrap().unwrap();
        [
            row.get::<i64>(0).unwrap_err().to_string(),
            row.get::<i64>(1).unwrap_err().to_string(),
            row.get::<String>(2).unwrap_err().to_string(),
            row.get::<String>(3).unwrap_err().to_string(),
        ]
    });
    let row = vec![SqlValue::Text("x".to_string()), SqlValue::Null, SqlValue::Integer(1)];
    let ours = [
        int_of(&row, 0).unwrap_err().message(),
        int_of(&row, 1).unwrap_err().message(),
        text(&row, 2).unwrap_err().message(),
        text(&row, 3).unwrap_err().message(),
    ];
    for (said, ours) in said.iter().zip(ours.iter()) {
        assert_eq!(&format!("turso: {said}"), ours);
    }
}

#[test]
fn stamps_have_an_id_and_a_time() {
    let one = stamp().expect("a time");
    let other = stamp().expect("a time");
    assert_ne!(one.id, other.id);
    assert_eq!(one.id.len(), 26);
    assert_eq!(&one.now[4..5], "-");
    assert_eq!(&one.now[10..11], "T");
    assert!(one.now.ends_with('Z'));
    assert!(one.now.len() == 20 || (22..=30).contains(&one.now.len()));

    let made = stamp_of(Some("t".to_string()), "i".to_string()).expect("a stamp");
    assert_eq!((made.id.as_str(), made.now.as_str()), ("i", "t"));
    assert!(stamp_of(None, "i".to_string()).is_none());
}
