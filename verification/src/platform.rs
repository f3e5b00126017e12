//! The platforms whose defaults differ.

use vstd::prelude::*;

verus! {

/// Where the program runs. Which tool answers a question, and what it is
/// called, differs from one to the next.
#[derive(Debug, Clone, Copy, PartialEq, Eq, Structural)]
pub enum Platform {
    Linux,
    MacOs,
    Windows,
    /// Any other Unix.
    Other,
}

} // verus!
