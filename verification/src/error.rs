//! The failure value of the language tools: a message.

use crate::text::join;
use vstd::prelude::*;
use vstd::std_specs::convert::IntoSpec;

verus! {

/// A failure, carried as its message.
#[derive(Debug)]
pub struct XenoError {
    pub message: String,
}

impl XenoError {
    /// A failure with the message that `msg` converts into.
    pub fn new<T: Into<String>>(msg: T) -> (error: XenoError)
        ensures
            call_ensures(T::into, (msg,), error.message),
            T::obeys_into_spec() ==> error.message == msg.into_spec(),
    {
        XenoError { message: msg.into() }
    }

    /// The failure as a line of text: `Error: ` and the message.
    pub fn to_text(&self) -> (text: String)
        ensures
            text@ == "Error: "@ + self.message@,
    {
        join("Error: ", self.message.as_str())
    }
}

} // verus!
