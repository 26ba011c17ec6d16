//! The structured, non-fatal diagnostic the parser accumulates: enough
//! position and length metadata to render a source-level caret, plus a
//! fully formatted message and a shorter headline.

use vstd::prelude::*;

verus! {

/// The mathematical image of an [`MCParseError`].
pub ghost struct ParseErrV {
    pub row: int,
    pub column: int,
    pub literal_len: int,
    pub full_msg: Seq<char>,
    pub msg: Seq<char>,
}

/// One syntactic diagnostic: the 1-based row and column of the offending
/// token, the length of its literal (for underlining), a message that
/// includes the file identifier and position, and a headline without
/// them.
#[derive(Debug)]
pub struct MCParseError {
    pub at: (u64, u64),
    pub literal_len: usize,
    pub full_msg: String,
    pub msg: String,
}

impl View for MCParseError {
    type V = ParseErrV;

    open spec fn view(&self) -> ParseErrV {
        ParseErrV {
            row: self.at.0 as int,
            column: self.at.1 as int,
            literal_len: self.literal_len as int,
            full_msg: self.full_msg@,
            msg: self.msg@,
        }
    }
}

} // verus!
