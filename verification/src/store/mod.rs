//! The store.
//!
//! The database runs elsewhere. An operation on it is a machine: it hands out
//! an [`action::Action`], takes the database's [`value::Reply`], and goes on
//! until it is done. Each machine's `resume` has its next step as a spec
//! function, and [`laws`] proves what whole runs do to the tables of
//! [`model`]. What only reads is a function from the rows that came back.
//!
//! Labels are what the store is for. A label ties a merchant's key to a payee:
//! every transaction with that key goes to the payee, and so does every one
//! that is imported later.

pub mod action;
pub mod dashboard;
pub mod filter;
pub mod groups;
pub mod import;
pub mod label;
pub mod lang;
pub mod laws;
pub mod lexer;
pub mod migrations;
pub mod model;
pub mod open;
pub mod payee;
pub mod payees;
pub mod query;
pub mod rows;
pub mod schema;
pub mod step;
pub mod value;

pub use dashboard::Dashboard;
pub use filter::TxnFilter;
pub use groups::{MerchantGroup, MerchantHit};
pub use import::{ImportReport, CAT_IADE, CAT_MARKET, CAT_ODEME, PAYEE_CARD_PAYMENT};
pub use label::LabelReport;
pub use payees::{PayeeRow, PayeeSource};
pub use rows::{Category, StatementRow, TxnRow};
pub use value::StoreError;
