//! The library's errors.
use vstd::prelude::*;

verus! {

/// What can go wrong in a session.
#[derive(Debug, Clone, Copy, PartialEq, Eq, Structural)]
pub enum Error {
    /// The server cannot be reached, or the handshake failed.
    Transport,
    /// The outgoing queue was torn down.
    ChannelClosed,
    /// A line lacks a field that its command needs.
    Protocol,
    /// A frame is not valid UTF-8 text.
    Decode,
    /// The login answer could not be read, or holds no assertion.
    Login,
}

pub type Result<T> = core::result::Result<T, Error>;

impl Error {
    /// A short description of the error.
    pub fn description(&self) -> (r: &'static str)
        ensures
            r@ == (match self {
                Error::Transport => "cannot reach the server"@,
                Error::ChannelClosed => "the outgoing queue is closed"@,
                Error::Protocol => "malformed line"@,
                Error::Decode => "frame is not valid UTF-8"@,
                Error::Login => "login failed"@,
            }),
    {
        match self {
            Error::Transport => "cannot reach the server",
            Error::ChannelClosed => "the outgoing queue is closed",
            Error::Protocol => "malformed line",
            Error::Decode => "frame is not valid UTF-8",
            Error::Login => "login failed",
        }
    }
}

} // verus!
