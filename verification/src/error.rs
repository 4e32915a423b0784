//! The failures that end a session.

use vstd::prelude::*;

verus! {

/// Why a session cannot go on. A word whose synthesis fails is no such
/// reason: it is played as a tone.
#[derive(Clone, Copy, Debug, PartialEq, Eq, Structural)]
pub enum Error {
    /// No backend offered a voice, so there is nothing to select from.
    EmptyRegistry,
    /// The speech server could not bind its port.
    BindFailed,
    /// The speech server stopped printing before it said that it was up.
    ServerStopped,
    /// The text has so many characters that the ids of its words would not
    /// fit in `usize`.
    TextTooLong,
}

impl Error {
    /// A sentence for the user.
    pub fn message(&self) -> (s: String)
        ensures
            s@ == match *self {
                Error::EmptyRegistry => "registry build: no voice is available"@,
                Error::BindFailed => "registry build: the speech server failed to bind"@,
                Error::ServerStopped =>
                    "registry build: the speech server stopped before it was up"@,
                Error::TextTooLong => "scan: the text is too long"@,
            },
    {
        match self {
            Error::EmptyRegistry => String::from_str("registry build: no voice is available"),
            Error::BindFailed => String::from_str(
                "registry build: the speech server failed to bind",
            ),
            Error::ServerStopped => String::from_str(
                "registry build: the speech server stopped before it was up",
            ),
            Error::TextTooLong => String::from_str("scan: the text is too long"),
        }
    }
}

} // verus!
