//! The one error type of the library: a refusal and its text.
use vstd::prelude::*;

verus! {

/// A refused request. Its view is the text shown to the operator.
#[derive(Debug, PartialEq, Eq)]
pub struct Error {
    message: String,
}

impl View for Error {
    type V = Seq<char>;

    closed spec fn view(&self) -> Seq<char> {
        self.message@
    }
}

impl Error {
    pub fn new(message: String) -> (error: Error)
        ensures
            error@ == message@,
    {
        Error { message }
    }

    /// A refusal with a fixed text.
    pub fn fixed(message: &str) -> (error: Error)
        ensures
            error@ == message@,
    {
        Error { message: message.to_owned() }
    }

    /// The text of the refusal.
    pub fn to_string(&self) -> (text: String)
        ensures
            text@ == self@,
    {
        self.message.clone()
    }
}

/// What a result refuses with: nothing where it succeeds.
pub open spec fn refusal<T>(result: Result<T, Error>) -> Option<Seq<char>> {
    match result {
        Ok(_) => None,
        Err(error) => Some(error@),
    }
}

/// The first of two refusals in order.
pub open spec fn first_refusal(
    first: Option<Seq<char>>,
    second: Option<Seq<char>>,
) -> Option<Seq<char>> {
    if first is Some {
        first
    } else {
        second
    }
}

/// Refuse with a text where a condition fails.
pub open spec fn refuse_unless(condition: bool, text: Seq<char>) -> Option<Seq<char>> {
    if condition {
        None
    } else {
        Some(text)
    }
}

} // verus!
