//! Tracking the spending on Ziraat Katılım credit cards.
//!
//! - [`parse`] reads the bank's printed statements.
//! - [`store`] decides what is asked of the database and makes sense of its
//!   answers: importing statements, labelling merchants, and the views of the
//!   pages. The laws on what the database then holds are in [`store::laws`].
//! - [`web`] is what the pages, the settings and the command line compute.
//! - [`text`] and [`number`] are the ground that they stand on; what holds of
//!   these is in [`laws`].

pub mod laws;
pub mod number;
pub mod parse;
pub mod store;
pub mod text;
pub mod web;
