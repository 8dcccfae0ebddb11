//! What the pages, the settings and the command line compute.

pub mod cli;
pub mod config;
pub mod forms;
pub mod laws;
pub mod markup;
pub mod money;
pub mod pages;
pub mod server;
pub mod url;
