//! The ways in which reading a card can end without an identity record.

use vstd::prelude::*;

verus! {

/// What went wrong inside, where the fault lies neither with an absent card
/// nor with an unreadable one.
#[derive(Clone, Copy, Debug, PartialEq, Eq, Structural)]
pub enum Fault {
    /// The middleware module could not be found or loaded.
    ModuleLoad,
    /// The middleware refused to initialize.
    Initialization,
    /// A label or a text value of the card is not UTF-8, or a photo is too
    /// large to be written as text.
    Decode,
    /// The middleware failed in the middle of a request.
    Middleware,
    /// The middleware's answers came in an order that the protocol does not
    /// know.
    Protocol,
}

/// Why a request ended without an identity record.
#[derive(Clone, Copy, Debug, PartialEq, Eq, Structural)]
pub enum EidError {
    /// No slot holds a token: no card is inserted.
    NoTokenPresent,
    /// A token is present, but no session could be opened on it.
    InvalidToken,
    /// Any other failure.
    InternalError(Fault),
}

impl EidError {
    /// What the user is told.
    pub open spec fn spec_message(self) -> Seq<char> {
        match self {
            EidError::NoTokenPresent => "no eID inserted"@,
            EidError::InvalidToken => "invalid eID or eID not correctly inserted"@,
            EidError::InternalError(_) => "internal error"@,
        }
    }

    /// What the user is told.
    pub fn message(self) -> (text: &'static str)
        ensures
            text@ == self.spec_message(),
    {
        match self {
            EidError::NoTokenPresent => "no eID inserted",
            EidError::InvalidToken => "invalid eID or eID not correctly inserted",
            EidError::InternalError(_) => "internal error",
        }
    }
}

/// The messages tell the failures apart: two failures with the same message
/// are the same failure, or both are internal.
pub proof fn law_messages_tell_failures_apart(a: EidError, b: EidError)
    requires
        a.spec_message() == b.spec_message(),
    ensures
        a == b || (a is InternalError && b is InternalError),
{
    reveal_strlit("no eID inserted");
    reveal_strlit("invalid eID or eID not correctly inserted");
    reveal_strlit("internal error");
    assert("no eID inserted"@.len() == 15);
    assert("invalid eID or eID not correctly inserted"@.len() == 41);
    assert("internal error"@.len() == 14);
}

} // verus!
