//! An error that is nothing but its message.

use vstd::prelude::*;
use vstd::std_specs::convert::FromSpecImpl;

verus! {

/// An error that carries a message and nothing else.
#[derive(Debug, PartialEq, Eq)]
pub struct StringError(pub String);

impl View for StringError {
    type V = Seq<char>;

    open spec fn view(&self) -> Seq<char> {
        self.0@
    }
}

impl StringError {
    /// The message.
    pub fn message(&self) -> (text: &str)
        ensures
            text@ == self@,
    {
        self.0.as_str()
    }
}

impl<'a> From<&'a str> for StringError {
    fn from(value: &'a str) -> (error: Self)
        ensures
            error@ == value@,
    {
        StringError(String::from_str(value))
    }
}

impl<'a> FromSpecImpl<&'a str> for StringError {
    open spec fn obeys_from_spec() -> bool {
        false
    }

    open spec fn from_spec(value: &'a str) -> Self {
        arbitrary()
    }
}

} // verus!
