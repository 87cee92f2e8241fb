//! Parsing and encoding of database connection strings (`key=value;...`),
//! in the ADO.NET dialect and in the ODBC dialect.
//!
//! [`parse`] turns a connection string into a [`KeyMap`] from lower-cased
//! keys to values; [`append_key_value`] writes one pair back in its escaped
//! form. [`EFConnStr`] and [`MsSqlConnStr`] read typed values out of a parsed
//! string.
pub mod conn;
pub mod encode;
pub mod error;
pub mod keymap;
pub mod laws;
pub mod parse;
pub mod scanner;
pub mod text;

pub use conn::{classify_bool, parse_bool, EFConnStr, MsSqlConnStr};
pub use encode::{append_key_value, odbc_needs_braces, quote_odbc_value_match, quote_value_match};
pub use error::{Error, ErrorView};
pub use keymap::KeyMap;
pub use laws::{lemma_ado_round_trip, lemma_append_separator, plain_key};
pub use parse::parse;
pub use scanner::{parse_key_value, Flow, ScanView, Scanner, State};
