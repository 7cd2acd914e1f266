//! The error type of signature generation.

use vstd::prelude::*;

verus! {

/// Error returned when signature generation or decoding fails.
#[derive(Debug, Clone)]
pub struct SignatureError {
    message: String,
}

impl SignatureError {
    /// The error's message.
    pub closed spec fn message(&self) -> Seq<char> {
        self.message@
    }

    /// Creates an error that carries `message`.
    pub fn new(message: String) -> (r: Self)
        ensures
            r.message() == message@,
    {
        Self { message }
    }

    /// The text the error displays: its message.
    pub fn to_string(&self) -> (r: String)
        ensures
            r@ == self.message(),
    {
        self.message.clone()
    }
}

} // verus!
