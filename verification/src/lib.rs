//! Finds mentions of C++ standardisation papers in chat messages and looks
//! them up in an in-memory catalog that is replaced as a whole on every
//! refresh.
//!
//! - [`implicit_search_request_parser`] reads mentions such as `[P1488R2]`
//!   from free text; [`implicit_search_request_laws`] states what holds of
//!   it on every input.
//! - [`storage`] holds the catalog and searches it; [`storage_laws`] states
//!   what holds of the searches.
//! - [`messages`] and [`commands`] decide what the bot answers.
//! - [`fetch_database`] decides when the catalog is fetched anew and when a
//!   fetched catalog is put in place.
//! - [`utils`] renders papers for the chat, [`parameters`] reads the
//!   settings, [`pattern`] compiles and runs regular expressions, and
//!   [`text`] and [`error`] hold what the others share.
//!
//! The library does no input or output. Its caller fetches the catalog,
//! receives the messages and sends the replies.

pub mod commands;
pub mod error;
pub mod fetch_database;
pub mod implicit_search_request_laws;
pub mod implicit_search_request_parser;
pub mod messages;
pub mod parameters;
pub mod pattern;
pub mod storage;
pub mod storage_laws;
pub mod text;
pub mod utils;
