//! A source file: where it came from and what it holds.

use vstd::prelude::*;

verus! {

/// The text of one source file and the path it was read from.
#[derive(Clone, Debug, PartialEq, Eq)]
pub struct SourceFile {
    pub path: String,
    pub contents: String,
}

} // verus!
