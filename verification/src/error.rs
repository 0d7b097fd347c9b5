//! Error values of the library.

use vstd::prelude::*;

verus! {

/// What went wrong while building or evaluating an orbital quantity.
#[derive(Debug, Clone)]
pub enum OrbitalError {
    InvalidQuantumNumbers { reason: String },
    InvalidParameter { name: &'static str, reason: String },
    Numerical(String),
}

/// What went wrong while reading the text inputs of the command-line tools.
#[derive(Debug, Clone)]
pub enum InputError {
    /// An orbital state name that no table knows.
    UnknownState { name: String },
    /// A table row with the wrong number of fields; `line_index` counts
    /// lines from zero.
    BadRow { line_index: usize },
}

} // verus!
