//! Schemas and the reports on them.

use budget::store::migrations::schema_sql;
use budget::store::schema::{
    diff_report, extract_column_names, fingerprint, first_identifier, index_ddls,
    normalize_schema, parse_objects, remove_if_not_exists, split_statements, starts_constraint,
    table_ddl,
};
use budget::store::value::SqlValue;

fn chars(s: &str) -> Vec<char> {
    s.chars().collect()
}

fn normal(sql: &str) -> String {
    normalize_schema(sql).into_iter().collect()
}

fn statements(sql: &str) -> Vec<String> {
    split_statements(&chars(sql)).into_iter().map(|s| s.into_iter().collect()).collect()
}

#[test]
fn statements_end_at_semicolons() {
    assert_eq!(statements("a;b"), vec!["a", "b"]);
    assert_eq!(statements("a 'x;''y' ; -- c;d\n e;  "), vec!["a 'x;''y' ", " -- c;d\n e"]);
    assert_eq!(statements("a /* ; */ b"), vec!["a   b"]);
    assert!(statements(" \n").is_empty());
}

#[test]
fn cosmetic_differences_are_taken_out() {
    assert_eq!(
        normal("CREATE TABLE  t (\n  a INT, -- note\n  b /* x */ TEXT )"),
        "CREATE TABLE t ( a INT, b TEXT )"
    );
    assert_eq!(normal("create table if Not exists t (a)"), "create table t (a)");
    assert_eq!(normal("  a  "), "a");
}

/// Strings keep all that they hold.
#[test]
fn strings_are_kept() {
    assert_eq!(normal("a  DEFAULT  'x  --  y'"), "a DEFAULT 'x  --  y'");
    assert_eq!(normal("a DEFAULT ' IF NOT EXISTS ' , b"), "a DEFAULT ' IF NOT EXISTS ' , b");
    assert_eq!(normal("'it''s'  b"), "'it''s' b");
}

#[test]
fn conditions_are_removed() {
    let removed: String =
        remove_if_not_exists(&chars("a IF NOT EXISTS b if not")).into_iter().collect();
    assert_eq!(removed, "a b if not");
}

#[test]
fn definitions_of_a_table() {
    let sql = schema_sql();
    let table = table_ddl(&sql, "Payee").expect("the table");
    assert!(table.starts_with("CREATE TABLE payee ("), "{table}");
    assert!(table.ends_with(')'));
    assert_eq!(table_ddl(&sql, "none"), None);
    assert_eq!(
        index_ddls(&sql, "txn"),
        vec![
            "CREATE INDEX txn_norm ON txn(merchant_norm)",
            "CREATE INDEX txn_date ON txn(date)",
            "CREATE INDEX txn_payee ON txn(payee_id)",
        ]
    );
    assert!(index_ddls(&sql, "payee").is_empty());
}

#[test]
fn columns_of_a_table() {
    assert_eq!(
        extract_column_names(&chars(
            "CREATE TABLE t ( A INT, b NUMERIC(1, 2), PRIMARY KEY (a), unique (b), CHECK (1) )"
        )),
        vec!["a", "b"]
    );
    assert!(extract_column_names(&chars("CREATE INDEX i ON t(a)")).is_empty());
    assert!(extract_column_names(&chars("CREATE TABLE t")).is_empty());
    assert_eq!(first_identifier(&chars("  Ad TEXT")).as_deref(), Some("ad"));
    assert_eq!(first_identifier(&chars("ÇÖZÜM TEXT")).as_deref(), Some("çözüm"));
    assert_eq!(first_identifier(&chars(" foreign key")), None);
    assert_eq!(first_identifier(&chars("UNIQUE(a, b)")), None);
    let txn = normalize_schema(&table_ddl(&schema_sql(), "txn").unwrap());
    let names = extract_column_names(&txn);
    assert_eq!(names.len(), 14);
    assert_eq!(names[13], "payee_id");
}

#[test]
fn objects_of_a_fingerprint() {
    let objs = parse_objects("table|t|a|b\n\nindex|i\nnothing\n");
    assert_eq!(objs.len(), 2);
    assert_eq!((objs[0].kind.as_str(), objs[0].name.as_str(), objs[0].sql.as_str()), ("table", "t", "a|b"));
    assert_eq!((objs[1].kind.as_str(), objs[1].name.as_str(), objs[1].sql.as_str()), ("index", "i", ""));
}

#[test]
fn differences_are_told() {
    let old = "index|i|x\ntable|t|CREATE TABLE t ( a INT, b INT )\n";
    let new = "table|t|CREATE TABLE t ( a INT, c INT )\ntable|u|y\n";
    assert_eq!(
        diff_report(old, new),
        "- index i (kaldırılmış)\n+ table u (eklenmiş)\n~ table t (değişmiş)\n    \
         eklenen sütunlar: c\n    silinen sütunlar: b"
    );
    assert_eq!(
        diff_report(old, old),
        "şemalar yalnızca kozmetik normalleştirme düzeyinde ayrışıyor"
    );
}

#[test]
fn fingerprints_of_rows() {
    let text = |s: &str| SqlValue::Text(s.to_string());
    let rows = vec![
        vec![text("index"), text("i"), SqlValue::Null],
        vec![text("table"), text("t"), text("CREATE  TABLE t (a)")],
    ];
    assert_eq!(fingerprint(&rows).unwrap(), "index|i|\ntable|t|CREATE TABLE t (a)\n");
    let short = vec![vec![text("table")]];
    assert!(fingerprint(&short).is_err());
}

#[test]
fn statements_join_to_the_text() {
    let sql = "a 'x;y'; -- n;m\n b ;c; \n";
    let parts = statements(sql);
    assert_eq!(parts.join(";") + "; \n", sql);
    assert_eq!(parts, vec!["a 'x;y'", " -- n;m\n b ", "c"]);
}

#[test]
fn normal_form_is_its_own() {
    let once = normal("CREATE  TABLE if not exists t ( -- n\n a TEXT DEFAULT 'x  y' )");
    assert_eq!(once, "CREATE TABLE t ( a TEXT DEFAULT 'x  y' )");
    assert_eq!(normal(&once), once);
    assert_eq!(normal(" /* c */ a b -- d\n\n"), normal("a b"));
    assert_eq!(normal("a -- open \n"), normal("a -- open"));
}

/// Taking out one condition may make another.
#[test]
fn conditions_can_fall_together() {
    let once = normal("a IF IF NOT EXISTS NOT EXISTS b");
    assert_eq!(once, "a IF NOT EXISTS b");
    assert_eq!(normal(&once), "a b");
}

#[test]
fn reports_the_other_way_round() {
    let a = "table|t|CREATE TABLE t (x, y)\ntable|u|CREATE TABLE u (p)\n";
    let b = "table|t|CREATE TABLE t (x, z)\nindex|i|CREATE INDEX i ON t(x)\n";
    let there = diff_report(a, b);
    let back = diff_report(b, a);
    assert!(there.contains("- table u (kaldırılmış)") && back.contains("+ table u (eklenmiş)"));
    assert!(there.contains("+ index i (eklenmiş)") && back.contains("- index i (kaldırılmış)"));
    assert!(there.contains("~ table t (değişmiş)") && back.contains("~ table t (değişmiş)"));
    assert_eq!(
        diff_report(a, a),
        "şemalar yalnızca kozmetik normalleştirme düzeyinde ayrışıyor"
    );
}

#[test]
fn columns_are_told_in_lower_case() {
    let sql = chars("CREATE TABLE t (Id TEXT, NAME TEXT, UNIQUE(Id), Check (NAME != ''))");
    assert_eq!(extract_column_names(&sql), vec!["id", "name"]);
    assert!(starts_constraint("unique(id)") && starts_constraint("check"));
    assert!(!starts_constraint("uniquely") && !starts_constraint("UNIQUE"));
}

/// Any gaps may stand between the same parts.
#[test]
fn gaps_may_stand_for_others() {
    let one = normal("a (b, 'x  y') c");
    assert_eq!(normal(" -- n\na /* m */ (b,\n\t'x  y')-- o\n c /* end */"), one);
    assert_eq!(one, "a (b, 'x  y') c");
}
