//! Front end of a linter for the Monkey C scripting language.
//!
//! The crate turns raw source text into a stream of positioned tokens
//! (`lexer`), then into variable-declaration statements (`parser`),
//! collecting structured diagnostics instead of stopping at the first
//! malformed token. Both passes are specified against mathematical
//! models of the scan and of the parser's state machine, and verified
//! against those models.

pub mod ast;
pub mod laws;
pub mod lexer;
pub mod parse_error;
pub mod parser;
pub mod text;
pub mod tokens;
