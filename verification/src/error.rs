//! The error that ends a command.

use crate::text::{concat2, concat3};
use vstd::prelude::*;

verus! {

/// The reason why a command failed, as it is shown to the user.
#[derive(Debug, PartialEq, Eq)]
pub struct Error(pub String);

impl View for Error {
    type V = Seq<char>;

    open spec fn view(&self) -> Seq<char> {
        self.0@
    }
}

impl Error {
    /// The reason as text.
    pub fn message(&self) -> (message: &str)
        ensures
            message@ == self@,
    {
        self.0.as_str()
    }

    /// An error whose text is made of two parts.
    pub(crate) fn with(a: &str, b: &str) -> (error: Error)
        ensures
            error@ == a@ + b@,
    {
        Error(concat2(a, b))
    }

    /// An error whose text is made of three parts.
    pub(crate) fn of(a: &str, b: &str, c: &str) -> (error: Error)
        ensures
            error@ == a@ + b@ + c@,
    {
        Error(concat3(a, b, c))
    }
}

} // verus!
