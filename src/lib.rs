//! Configuration as code for a chat server: a desired layout of categories and
//! channels is reconciled against what the server holds, by creating what is
//! missing and updating what is there, never deleting.
pub mod command;
pub mod diff;
pub mod error;
pub mod laws;
pub mod observed;
pub mod reconcile;
pub mod settings;
