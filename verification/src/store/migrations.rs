//! The declared schema.

use vstd::prelude::*;
use vstd::string::StringExecFns;

verus! {

/// The tables, their indexes and the categories that a new database starts
/// with.
///
/// The code knows the categories of groceries, refunds and card payments by
/// their ids. The others are this project's own choice: nothing depends on
/// their ids, names, colours or order.
pub const INIT: &'static str =
    "CREATE TABLE category (
    id    TEXT PRIMARY KEY,
    name  TEXT NOT NULL UNIQUE,
    kind  TEXT NOT NULL,
    color TEXT NOT NULL,
    sort  INTEGER NOT NULL
);
CREATE TABLE payee (
    id          TEXT PRIMARY KEY,
    name        TEXT NOT NULL,
    category_id TEXT NOT NULL REFERENCES category(id),
    created_at  TEXT NOT NULL
);
CREATE TABLE payee_alias (
    merchant_norm TEXT PRIMARY KEY,
    payee_id      TEXT NOT NULL REFERENCES payee(id),
    created_at    TEXT NOT NULL
);
CREATE TABLE statement (
    id                      TEXT PRIMARY KEY,
    source_sha256           TEXT NOT NULL UNIQUE,
    period_end              TEXT NOT NULL,
    next_period_end         TEXT,
    due_date                TEXT,
    next_due_date           TEXT,
    previous_balance_minor  INTEGER NOT NULL,
    spend_minor             INTEGER NOT NULL,
    fees_minor              INTEGER NOT NULL,
    payments_minor          INTEGER NOT NULL,
    period_debt_minor       INTEGER NOT NULL,
    period_debt_usd_minor   INTEGER NOT NULL DEFAULT 0,
    min_pay_minor           INTEGER NOT NULL DEFAULT 0,
    card_limit_minor        INTEGER,
    available_limit_minor   INTEGER,
    imported_at             TEXT NOT NULL
);
CREATE TABLE txn (
    id                  TEXT PRIMARY KEY,
    statement_id        TEXT NOT NULL REFERENCES statement(id),
    row_index           INTEGER NOT NULL,
    date                TEXT NOT NULL,
    merchant_raw        TEXT NOT NULL,
    merchant_norm       TEXT NOT NULL,
    extra               TEXT NOT NULL DEFAULT '',
    amount_minor        INTEGER NOT NULL,
    direction           TEXT NOT NULL,
    usd_minor           INTEGER,
    bankkart_lira_minor INTEGER NOT NULL DEFAULT 0,
    card_last4          TEXT NOT NULL,
    kind                TEXT NOT NULL,
    payee_id            TEXT REFERENCES payee(id),
    UNIQUE(statement_id, row_index)
);
CREATE INDEX txn_norm ON txn(merchant_norm);
CREATE INDEX txn_date ON txn(date);
CREATE INDEX txn_payee ON txn(payee_id);
INSERT OR IGNORE INTO category (id, name, kind, color, sort) VALUES
    ('01CATMARKET000000000000000', 'Market', 'spend', '#34d399', 10),
    ('01CATYEMEK0000000000000000', 'Yeme içme', 'spend', '#fbbf24', 20),
    ('01CATULASIM000000000000000', 'Ulaşım', 'spend', '#38bdf8', 30),
    ('01CATAKARYAKIT000000000000', 'Akaryakıt', 'spend', '#f97316', 40),
    ('01CATFATURA000000000000000', 'Faturalar', 'spend', '#a78bfa', 50),
    ('01CATABONELIK0000000000000', 'Abonelikler', 'spend', '#818cf8', 60),
    ('01CATGIYIM0000000000000000', 'Giyim', 'spend', '#f472b6', 70),
    ('01CATSAGLIK000000000000000', 'Sağlık', 'spend', '#f87171', 80),
    ('01CATEGITIM000000000000000', 'Eğitim', 'spend', '#22d3ee', 90),
    ('01CATEV0000000000000000000', 'Ev', 'spend', '#a3e635', 100),
    ('01CATEGLENCE00000000000000', 'Eğlence', 'spend', '#e879f9', 110),
    ('01CATDIGER0000000000000000', 'Diğer', 'spend', '#94a3b8', 120),
    ('01CATIADE0000000000000000', 'İade', 'refund', '#5eead4', 200),
    ('01CATODEME000000000000000', 'Kart ödemesi', 'transfer', '#cbd5e1', 210);
";

/// The declared schema: every migration, in order, each with a line feed
/// behind it.
pub open spec fn declared_schema() -> Seq<char> {
    INIT@ + "\n"@
}

/// The declared schema as SQL text.
pub fn schema_sql() -> (r: String)
    ensures
        r@ == declared_schema(),
{
    let mut sql = String::new();
    sql.append(INIT);
    sql.append("\n");
    proof {
        assert(sql@ =~= declared_schema());
    }
    sql
}

} // verus!
