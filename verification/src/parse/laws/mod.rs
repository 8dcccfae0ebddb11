//! What holds of the reading of statements as a whole.

pub mod amount;
pub mod date;
pub mod document;
pub mod footer;
pub mod merchant;
pub mod row;
pub mod statement;
