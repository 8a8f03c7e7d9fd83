//! The errors that the cipher operations report.
use vstd::prelude::*;

verus! {

/// What can go wrong in a call.
#[derive(Debug, Clone, Copy, PartialEq, Eq)]
pub enum ChachaPolyError {
    /// The caller broke a precondition of the call; the text says which.
    ApiMisuse(&'static str),
}

impl ChachaPolyError {
    /// The text that says what was wrong with the call.
    pub fn message(&self) -> (text: &'static str)
        ensures
            *self == ChachaPolyError::ApiMisuse(text),
    {
        match self {
            ChachaPolyError::ApiMisuse(text) => text,
        }
    }
}

/// What can go wrong when a key is generated.
#[derive(Debug, PartialEq, Eq)]
pub enum KeyGenError<E> {
    /// The caller broke a precondition of the call; the text says which.
    ApiMisuse(&'static str),
    /// The random source failed; this is its error, handed on as it came.
    Rng(E),
}

} // verus!
