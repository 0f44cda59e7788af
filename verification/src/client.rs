//! The command-line client.

use vstd::prelude::*;

use crate::text;

pub mod admin;
pub mod config;
pub mod shot;
pub mod tunnel;

verus! {

/// Why the client failed, in words.
#[derive(Debug)]
pub struct ClientError(pub String);

impl View for ClientError {
    type V = Seq<char>;

    open spec fn view(&self) -> Seq<char> {
        self.0@
    }
}

/// What was being done, and why it failed.
pub open spec fn in_context(what: Seq<char>, why: Seq<char>) -> Seq<char> {
    what + ": "@ + why
}

impl ClientError {
    /// An error with a message.
    pub fn new(message: &str) -> (r: Self)
        ensures
            r@ == message@,
    {
        ClientError(text::owned(message))
    }

    /// An error with what was being done, and why it failed.
    pub fn context(what: &str, why: &str) -> (r: Self)
        ensures
            r@ == in_context(what@, why@),
    {
        ClientError(text::cat3(what, ": ", why))
    }
}

} // verus!
