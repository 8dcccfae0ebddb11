//! The pages, the settings and the command line.

use budget::parse::{parse_tr_amount, Direction, ParseError, StatementHead};
use budget::store::dashboard::Dashboard;
use budget::store::groups::unlabeled_groups;
use budget::store::import::ImportReport;
use budget::store::value::SqlValue;
use budget::store::{Category, MerchantGroup, StatementRow, StoreError};
use budget::web::cli::{
    command, exit_code, import_args, import_line, statement_line, Command, Ending, USAGE,
};
use budget::web::config::{
    default_database, default_listen, default_storage, missing_client, Config, OidcConfig,
    DEFAULTS, PATH,
};
use budget::web::forms::{
    category_target, import_banner, import_problem, import_target, inbox_banner, label_name,
    label_target, problem_banner, ImportProblem, Upload, IMPORT_LIMIT,
};
use budget::web::markup::{can_draw, esc, svg_bars, Bar};
use budget::web::money::{amount_class, tr_money};
use budget::web::pages::{
    category_bars, category_options, group_amounts, month_bars, nav_class, payee_bars,
    period_options, pick_statement, statement_options, txn_filter, unlabeled_total, Nav,
};
use budget::web::server::{
    find_stylesheet, is_stylesheet, key_problem, login_target, new_key, no_stylesheet,
    stylesheet_guard,
};
use budget::web::url::{query_value, urldecode, urlencoded};

fn args(list: &[&str]) -> Vec<String> {
    list.iter().map(|s| s.to_string()).collect()
}

fn statement(id: &str, period_end: &str, debt: i64) -> StatementRow {
    StatementRow {
        id: id.to_string(),
        source_sha256: String::new(),
        period_end: period_end.to_string(),
        next_period_end: None,
        due_date: None,
        next_due_date: None,
        previous_balance_minor: 0,
        spend_minor: 0,
        fees_minor: 0,
        payments_minor: 0,
        period_debt_minor: debt,
        period_debt_usd_minor: 0,
        min_pay_minor: 0,
        card_limit_minor: None,
        available_limit_minor: None,
        imported_at: String::new(),
    }
}

fn category(id: &str, name: &str, color: &str) -> Category {
    Category {
        id: id.to_string(),
        name: name.to_string(),
        kind: "spend".to_string(),
        color: color.to_string(),
        sort: 1,
    }
}

fn group(count: i64) -> MerchantGroup {
    MerchantGroup {
        merchant_norm: "A".to_string(),
        sample_raw: "a".to_string(),
        count,
        debit_minor: 1_250,
        credit_minor: 5,
        hits: Vec::new(),
    }
}

fn bar(label: &str, minor: i64) -> Bar {
    Bar {
        label: label.to_string(),
        minor,
        text: "t".to_string(),
        title: "T".to_string(),
        color: "#fff".to_string(),
    }
}

#[test]
fn money_in_lira() {
    assert_eq!(tr_money(0), "0,00 TL");
    assert_eq!(tr_money(5), "0,05 TL");
    assert_eq!(tr_money(-123_456), "-1.234,56 TL");
    assert_eq!(tr_money(123_456_789), "1.234.567,89 TL");
    assert_eq!(tr_money(i64::MIN), "-92.233.720.368.547.758,08 TL");
    assert_eq!(amount_class(Direction::Credit), Some("num credit"));
    assert_eq!(amount_class(Direction::Debit), Some("num"));
}

/// What is shown is what the bank would print.
#[test]
fn money_is_read_back() {
    for minor in [0, 7, 99, 100, 123_456, 1_020_050, i64::MAX] {
        assert_eq!(parse_tr_amount(&tr_money(minor)).unwrap(), (minor, false));
    }
}

#[test]
fn urls_and_back() {
    assert_eq!(urlencoded("/a b?ç=1"), "%2Fa%20b%3F%C3%A7%3D1");
    for text in ["", "plain-_.~", "ığüşöç İ%+&=", "a/b?c=d e"] {
        assert_eq!(urldecode(&urlencoded(text)), text);
    }
    assert_eq!(urldecode("a+b%20c"), "a b c");
    assert_eq!(urldecode("100%"), "100%");
    assert_eq!(urldecode("%zz%4"), "%zz%4");
    assert_eq!(urldecode("%ff"), "");
}

#[test]
fn values_of_a_query() {
    assert_eq!(query_value("a=1&b=x+y&a=2", "a").as_deref(), Some("1"));
    assert_eq!(query_value("a=1&b=x+y", "b").as_deref(), Some("x y"));
    assert_eq!(query_value("a&b=1=2", "a"), None);
    assert_eq!(query_value("a&b=1=2", "b").as_deref(), Some("1=2"));
    assert_eq!(query_value("", ""), None);
}

#[test]
fn markup_is_escaped() {
    assert_eq!(esc("<a href=\"x\">&'"), "&lt;a href=&quot;x&quot;&gt;&amp;'");
}

#[test]
fn charts_of_bars() {
    assert_eq!(svg_bars(&[], false), "");
    assert_eq!(
        svg_bars(&[bar("a<", 10), bar("b", 5)], false),
        "<svg class=\"chart\" preserveAspectRatio=\"xMinYMin meet\" role=\"img\"> viewBox=\"0 0 640 52\">\
         <g><title>T</title><text class=\"chart-label\" x=\"0\" y=\"17\">a&lt;</text>\
         <rect x=\"176\" y=\"5\" width=\"350\" height=\"16\" rx=\"4\" fill=\"#fff\"></rect>\
         <text class=\"chart-value\" x=\"638\" y=\"17\" text-anchor=\"end\">t</text></g>\
         <g><title>T</title><text class=\"chart-label\" x=\"0\" y=\"43\">b</text>\
         <rect x=\"176\" y=\"31\" width=\"175\" height=\"16\" rx=\"4\" fill=\"#fff\"></rect>\
         <text class=\"chart-value\" x=\"638\" y=\"43\" text-anchor=\"end\">t</text></g></svg>"
    );
    assert_eq!(
        svg_bars(&[bar("a", 0)], true),
        "<svg class=\"chart\" preserveAspectRatio=\"xMinYMin meet\" role=\"img\"> viewBox=\"0 0 56 170\">\
         <g><title>T</title><rect x=\"15\" y=\"138\" width=\"26\" height=\"2\" rx=\"4\" fill=\"#fff\"></rect>\
         <text class=\"chart-value\" x=\"28\" y=\"133\" text-anchor=\"middle\">t</text>\
         <text class=\"chart-label\" x=\"28\" y=\"158\" text-anchor=\"middle\">a</text></g></svg>"
    );
    assert!(can_draw(&[bar("a", 10)], false));
    assert!(!can_draw(&[bar("a", i64::MAX)], false));
}

#[test]
fn pages_of_the_menu() {
    assert_eq!(nav_class(Nav::Home, Nav::Home), Some("active"));
    assert_eq!(nav_class(Nav::Home, Nav::Txns), None);
    assert_eq!(unlabeled_total(&[group(2), group(3)]), Some(5));
    assert_eq!(unlabeled_total(&[group(i64::MAX), group(1)]), None);
    assert_eq!(group_amounts(&group(1)), "harcama 12,50 TL · iade 0,05 TL");
}

#[test]
fn period_of_the_dashboard() {
    let list = [statement("s2", "2026-09-05", 384_556), statement("s1", "2026-08-05", 100)];
    assert_eq!(pick_statement(&list, "d=s1").as_deref(), Some("s1"));
    assert_eq!(pick_statement(&list, "d=none").as_deref(), Some("s2"));
    assert_eq!(pick_statement(&list, "").as_deref(), Some("s2"));
    // The empty value measures the whole history.
    let all = pick_statement(&list, "d=");
    assert_eq!(all, None);
    let options = period_options(&list, &all);
    assert!(options[0].selected && options[0].value.is_empty());
    assert!(options[1..].iter().all(|o| !o.selected));
    assert_eq!(pick_statement(&[], "d=s1"), None);

    let options = period_options(&list, &Some("s1".to_string()));
    assert_eq!(options.len(), 3);
    assert_eq!(options[0].value, "");
    assert_eq!(options[0].text, "Tüm dönemler (tüm geçmiş)");
    assert!(!options[0].selected);
    assert_eq!(options[1].text, "Dönem 2026-09-05 · borç 3.845,56 TL");
    assert!(!options[1].selected);
    assert_eq!(options[2].value, "s1");
    assert!(options[2].selected);
    assert!(period_options(&list, &None)[0].selected);
}

#[test]
fn bars_of_the_dashboard() {
    let dash = Dashboard {
        statement: None,
        spend_by_category: vec![
            (category("a", "Market", "#111"), 500),
            (category("b", "Boş", "#222"), 0),
        ],
        unlabeled_debit_minor: 250,
        unlabeled_count: 1,
        top_payees: vec![("Kahve".to_string(), 100)],
        monthly: vec![("2026-08".to_string(), 300, 200)],
    };
    let bars = category_bars(&dash);
    assert_eq!(bars.len(), 2);
    assert_eq!(bars[0].title, "Market · 5,00 TL");
    assert_eq!(bars[0].color, "#111");
    assert_eq!(bars[1].label, "Etiketsiz");
    assert_eq!(bars[1].minor, 250);
    assert_eq!(bars[1].color, "#64748b");
    let months = month_bars(&dash);
    assert_eq!(months[0].title, "2026-08 · harcama 3,00 TL · ödeme 2,00 TL");
    assert_eq!(months[0].minor, 300);
    assert_eq!(payee_bars(&dash)[0].title, "Kahve · 1,00 TL");
}

#[test]
fn filter_of_a_query() {
    let f = txn_filter("d=s1&k=&q=+kahve+&u=1");
    assert_eq!(f.statement_id.as_deref(), Some("s1"));
    assert_eq!(f.category_id, None);
    assert_eq!(f.q.as_deref(), Some("kahve"));
    assert!(f.unlabeled_only);
    let none = txn_filter("q=++");
    assert_eq!(none.q, None);
    assert!(!none.unlabeled_only);

    let statements = [statement("s1", "2026-08-05", 100)];
    let options = statement_options(&statements, &f.statement_id);
    assert_eq!(options[0].text, "Dönem 2026-08-05");
    assert!(options[0].selected);
    let options = category_options(&[category("a", "Market", "#111")], &f.category_id);
    assert_eq!(options[0].text, "Market");
    assert!(!options[0].selected);
}

#[test]
fn banners_of_problems() {
    assert_eq!(
        problem_banner(&ImportProblem::NoFile),
        "<div class=\"banner banner-problem\">Dosya seçilmedi.</div>"
    );
    assert_eq!(
        problem_banner(&ImportProblem::Upload),
        "<div class=\"banner banner-problem\">Yükleme okunamadı ya da 8 MB sınırını aştı.</div>"
    );
    assert_eq!(
        problem_banner(&import_problem(&ParseError::Structure("<x>".to_string()))),
        "<div class=\"banner banner-problem\">Ekstre çözülemedi: ekstre yapısı bozuk: &lt;x&gt;</div>"
    );
    let problem = import_problem(&ParseError::Reconcile {
        previous_minor: 100,
        sum_debit_minor: 200,
        fees_minor: 0,
        sum_credit_minor: 50,
        computed_minor: 250,
        period_debt_minor: 251,
    });
    assert_eq!(
        problem_banner(&problem),
        "<div class=\"banner banner-problem\">Uzlaşma tutmuyor — ekstrenin dip özeti işlem \
         satırlarıyla uyuşmuyor. Hiçbir kayıt yazılmadı.<table class=\"recon num\"><tbody>\
         <tr><td>Önceki bakiye (ÖNCEKİ AYDAN DEVİR)</td><td class=\"num\">1,00 TL</td></tr>\
         <tr><td>+ Harcamalarınız</td><td class=\"num\">2,00 TL</td></tr>\
         <tr><td>+ Ceza ücret ve kesintiler</td><td class=\"num\">0,00 TL</td></tr>\
         <tr><td>− Ödemeleriniz</td><td class=\"num\">0,50 TL</td></tr>\
         <tr><td>= Hesaplanan dönem borcu</td><td class=\"num\">2,50 TL</td></tr>\
         <tr><td>Ekstrenin yazdığı dönem borcu</td><td class=\"num\">2,51 TL</td></tr>\
         </tbody></table></div>"
    );
    assert!(import_banner("dupe").contains("zaten yüklü"));
    assert!(import_banner("new").contains("Ekstre yüklendi."));
    assert!(inbox_banner("isim").contains("Payee adı boş olamaz."));
    assert!(inbox_banner("depo").contains("Etiket depoya yazılamadı."));
}

#[test]
fn uploads_in_chunks() {
    let mut upload = Upload::new();
    assert!(!upload.begin(false));
    assert!(upload.begin(true));
    assert!(upload.take(b"ab"));
    assert!(upload.take(b"c"));
    upload.end();
    assert_eq!(upload.finish().unwrap(), b"abc");
    assert!(matches!(Upload::new().finish(), Err(ImportProblem::NoFile)));

    let mut large = Upload::new();
    large.begin(true);
    assert!(large.take(&vec![0u8; IMPORT_LIMIT]));
    assert!(!large.take(&[0u8]));
}

/// Of two files the last one counts.
#[test]
fn last_file_of_an_upload() {
    let mut upload = Upload::new();
    for text in ["first", "second"] {
        upload.begin(true);
        assert!(upload.take(text.as_bytes()));
        upload.end();
    }
    assert_eq!(upload.finish().unwrap(), b"second");
}

#[test]
fn targets_of_forms() {
    assert_eq!(import_target(Some(true)), "/import?ok=dupe");
    assert_eq!(import_target(Some(false)), "/import?ok=new");
    assert_eq!(import_target(None), "/import?error=depo");
    assert_eq!(label_name(" Kahve ").as_deref(), Some("Kahve"));
    assert_eq!(label_name(" \t"), None);
    assert_eq!(label_target(false, false), "/inbox?error=isim");
    assert_eq!(label_target(true, true), "/inbox");
    assert_eq!(label_target(true, false), "/inbox?error=depo");
    assert_eq!(category_target(true), "/payees");
    assert_eq!(category_target(false), "/payees?error=depo");
}

#[test]
fn settings_are_reported() {
    let mut config = Config {
        database: default_database(),
        storage: default_storage(),
        listen: default_listen(),
        oidc: OidcConfig::default(),
    };
    assert_eq!(
        config.report(),
        vec![
            "config   config/budget.toml",
            "database budget.db",
            "storage  storage",
            "listen   127.0.0.1:7656",
            "oidc     http://127.0.0.1:7650 · client_id boş",
        ]
    );
    assert_eq!(
        missing_client(&config).expect("no client")[2],
        "  im-web create-client budget http://127.0.0.1:7656/auth/callback"
    );
    config.oidc.client_id = "id".to_string();
    assert!(missing_client(&config).is_none());
    assert_eq!(config.report()[4], "oidc     http://127.0.0.1:7650 · client_id ayarlı");
    assert_eq!(PATH, "config/budget.toml");
}

/// The lines on the settings do not depend on the secrets.
#[test]
fn secrets_are_not_reported() {
    let config = |secret: &str| Config {
        database: default_database(),
        storage: default_storage(),
        listen: default_listen(),
        oidc: OidcConfig {
            client_id: "id".to_string(),
            client_secret: secret.to_string(),
            ..OidcConfig::default()
        },
    };
    assert_eq!(config("one").report(), config("two").report());
}

/// The settings that are written first are the ones that hold without a file.
#[test]
fn written_settings_are_the_defaults() {
    let table: toml::Table = DEFAULTS.parse().expect("the settings are read");
    let text = |table: &toml::Table, key: &str| {
        table.get(key).and_then(|v| v.as_str()).expect("a text").to_string()
    };
    assert_eq!(text(&table, "database"), default_database());
    assert_eq!(text(&table, "storage"), default_storage());
    assert_eq!(text(&table, "listen"), default_listen());
    let oidc = table.get("oidc").and_then(|v| v.as_table()).expect("a table");
    let defaults = OidcConfig::default();
    assert_eq!(text(oidc, "issuer"), defaults.issuer);
    assert_eq!(text(oidc, "client_id"), defaults.client_id);
    assert_eq!(text(oidc, "client_secret"), defaults.client_secret);
    assert_eq!(text(oidc, "redirect_uri"), defaults.redirect_uri);
}

#[test]
fn strangers_go_to_sign_in() {
    assert_eq!(login_target("/txns", Some("u=1")), "/auth/login?next=%2Ftxns%3Fu%3D1");
    assert_eq!(login_target("/", None), "/auth/login?next=%2F");
    let next = query_value("next=%2Ftxns%3Fu%3D1", "next");
    assert_eq!(next.as_deref(), Some("/txns?u=1"));
}

#[test]
fn keys_have_32_bytes() {
    assert_eq!(key_problem("budget.key", &[0u8; 32]), None);
    assert_eq!(
        key_problem("budget.key", &[0u8; 31]).as_deref(),
        Some("budget.key 31 bayt taşıyor; anahtar 32 bayttır")
    );
    assert_ne!(new_key(), new_key());
    assert_ne!(new_key(), [0u8; 32]);
}

#[test]
fn stylesheets_are_held_against_the_program() {
    assert!(is_stylesheet("main-1a2b.css"));
    assert!(!is_stylesheet("main.css"));
    assert!(!is_stylesheet("main-1a2b.js"));
    assert_eq!(find_stylesheet(&args(&["a.js", "main-1.css", "main-2.css"])), Some(1));
    assert_eq!(find_stylesheet(&args(&["a.js"])), None);
    let print = "sha256:ba7816bf8f01cfea414140de5dae2223b00361a396177a9cb410ff61f20015ad";
    assert_eq!(
        stylesheet_guard("assets", "main-1.css", b"abc", print),
        Ok(format!("assets   stil main-1.css ({print})"))
    );
    assert_eq!(
        stylesheet_guard("assets", "main-1.css", b"abc", "sha256:0"),
        Err(format!(
            "asset paketi assets başka bir derlemeye ait: stil main-1.css {print}, ikili sha256:0 \
             ile derlendi; `topcoat asset bundle -p budget-web` çalıştırıp yeniden başlatın"
        ))
    );
    assert_eq!(no_stylesheet("assets"), "asset paketi assets stil sayfası taşımıyor");
}

#[test]
fn commands() {
    assert_eq!(command(&args(&[])), Command::Serve);
    assert_eq!(command(&args(&["-h"])), Command::Help);
    assert_eq!(command(&args(&["--help", "import"])), Command::Help);
    assert_eq!(command(&args(&["help"])), Command::Help);
    assert_eq!(command(&args(&["import"])), Command::Import);
    assert_eq!(command(&args(&["export"])), Command::Unknown);
    assert!(USAGE.contains("budget-web import --user <sub> <DOSYA>"));
}

#[test]
fn exit_codes() {
    assert_eq!(exit_code(Ending::Done), 0);
    assert_eq!(exit_code(Ending::StoreFailed), 1);
    for refused in [
        Ending::UnknownCommand,
        Ending::BadArguments,
        Ending::BadConfig,
        Ending::UnreadableFile,
        Ending::BadStatement,
    ] {
        assert_eq!(exit_code(refused), 2);
    }
}

#[test]
fn arguments_of_an_import() {
    let both = Ok(("u".to_string(), "f".to_string()));
    assert_eq!(import_args(&args(&["--user", "u", "f"])), both);
    assert_eq!(import_args(&args(&["f", "--user", "x", "--user", "u", "g"])), both);
    assert_eq!(import_args(&args(&["f", "--user"])), Err("--user bir değer ister"));
    assert_eq!(
        import_args(&args(&["f"])),
        Err("--user <sub> zorunlu — veri kişilere ayrıldı")
    );
    assert_eq!(import_args(&args(&["--user", "u"])), Err("ekstre dosyası gerekli"));
}

#[test]
fn lines_of_an_import() {
    let head = StatementHead {
        period_end: "2026-09-05".to_string(),
        next_period_end: None,
        due_date: None,
        next_due_date: None,
        previous_balance_minor: 0,
        spend_minor: 0,
        fees_minor: 0,
        payments_minor: 0,
        period_debt_minor: 384_556,
        period_debt_usd_minor: 0,
        min_pay_minor: 50_000,
        card_limit_minor: None,
        available_limit_minor: None,
        source_sha256: String::new(),
    };
    assert_eq!(
        statement_line(&head),
        "ekstre   dönem sonu 2026-09-05 · dönem borcu 3.845,56 TL · asgari ödeme 500,00 TL"
    );
    let mut report = ImportReport {
        statement_id: "s".to_string(),
        txn_count: 10,
        labeled: 1,
        unlabeled: 9,
        duplicate: false,
    };
    assert_eq!(import_line(&report), "aktarıldı  10 işlem · etiketli 1 · etiketsiz 9");
    report.duplicate = true;
    assert_eq!(
        import_line(&report),
        "kopya    bu ekstre zaten yüklü (10 işlem), yeni kayıt yazılmadı"
    );
}

#[test]
fn groups_of_unlabeled_rows() {
    let text = |s: &str| SqlValue::Text(s.to_string());
    let row = |norm: &str, raw: &str, minor: i64, direction: &str| {
        vec![
            text(norm),
            text(raw),
            text(""),
            text("2026-08-01"),
            SqlValue::Integer(minor),
            text(direction),
        ]
    };
    let rows = vec![
        row("B", "b1", 10, "debit"),
        row("A", "a2", 20, "debit"),
        row("C", "c", 5, "debit"),
        row("A", "a1", 7, "credit"),
    ];
    let groups = unlabeled_groups(&rows).unwrap();
    let keys: Vec<&str> = groups.iter().map(|g| g.merchant_norm.as_str()).collect();
    assert_eq!(keys, vec!["A", "B", "C"]);
    assert_eq!(groups[0].sample_raw, "a1");
    assert_eq!((groups[0].debit_minor, groups[0].credit_minor, groups[0].count), (20, 7, 2));
    assert_eq!(groups[0].hits.len(), 2);
    assert_eq!(groups[0].hits[1].direction, Direction::Credit);
    assert!(unlabeled_groups(&[row("A", "a", 1, "up")]).is_err());
}

#[test]
fn errors_in_words() {
    assert_eq!(StoreError::Backend("x".to_string()).message(), "turso: x");
    assert_eq!(StoreError::NotFound("x".to_string()).message(), "bulunamadı: x");
    assert_eq!(StoreError::Io("x".to_string()).message(), "io: x");
    assert_eq!(
        StoreError::SchemaDiff("x".to_string()).message(),
        "veritabanı şeması bildirilenle uyuşmuyor — başlatma reddedildi; fark:\nx"
    );
}
