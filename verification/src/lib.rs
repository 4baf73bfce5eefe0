//! The semantic core of a language server for SATySFi: syntax trees, symbol tables and
//! the queries that an editor asks at a cursor.

use vstd::prelude::*;
use vstd::string::*;

pub mod completion;
pub mod definition;
pub mod diagnostics;
pub mod documents;
pub mod hover;
pub mod parser;
pub mod position;
pub mod search;
pub mod text;
pub mod util;

verus! {

/// The version of this library.
pub fn version() -> (version: String)
    ensures
        version@ == "0.1.0"@,
{
    String::from_str("0.1.0")
}

} // verus!
