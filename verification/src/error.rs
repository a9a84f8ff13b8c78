//! The library's error.

use vstd::prelude::*;

verus! {

/// A failure of the renderer, with a message for whoever reports it.
#[derive(Debug, Clone)]
pub struct ExpenseError {
    message: String,
}

impl View for ExpenseError {
    type V = Seq<char>;

    /// The error's message.
    closed spec fn view(&self) -> Seq<char> {
        self.message@
    }
}

impl ExpenseError {
    /// An error that says `m`.
    pub fn new(m: &str) -> (error: ExpenseError)
        ensures
            error@ == m@,
    {
        ExpenseError { message: String::from_str(m) }
    }

    /// The error's message.
    pub fn to_string(&self) -> (message: String)
        ensures
            message@ == self@,
    {
        self.message.clone()
    }
}

} // verus!
