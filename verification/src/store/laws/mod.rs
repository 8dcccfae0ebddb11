//! What the operations of the store come to, on a database that does what its
//! statements say; and what holds of SQL text and of the reports on schemas.

pub mod diff;
pub mod groups;
pub mod import;
pub mod label;
pub mod meaning;
pub mod meaning_groups;
pub mod meaning_reads;
pub mod migrate;
pub mod outcome;
pub mod payee;
pub mod reads;
pub mod rekey;
pub mod rows;
pub mod schema;
pub mod spoken;
pub mod sql;
