//! Mailbox-filtering engine: rules (conditions, exceptions, actions) are
//! evaluated against parsed mail messages, and a scan cursor keeps a sweep
//! over a mailbox consistent while actions remove messages from the
//! sequence-number space.

pub mod action;
pub mod account;
pub mod condition;
pub mod config;
pub mod cursor;
pub mod engine;
pub mod error;
pub mod mail;
pub mod rule;
pub mod session;
pub mod text;
