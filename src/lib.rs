//! Running fixed system utilities and reducing what they print to a single
//! token: the last whitespace-separated word of their standard output, or the
//! sentinel `"unknown"` when there is none.
use vstd::prelude::*;

pub mod commands;
pub mod output;
pub mod token;

verus! {

} // verus!
