//! The failures that the handshake and the persistence layer report.

use vstd::prelude::*;

verus! {

/// Every way in which creating, storing or reading back a session can fail.
#[derive(Debug, Clone, Copy, PartialEq, Eq, Structural)]
pub enum SessionError {
    /// No account is currently authenticated.
    IdentityUnavailable,
    /// The browser could not be opened on the approval page.
    BrowserLaunchFailed,
    /// No local port could be bound for the callback endpoint.
    EndpointBindFailed,
    /// The approval URL, or a policy in it, could not be encoded.
    EncodingError,
    /// A callback request carried a body that is no session.
    MalformedCallback,
    /// The callback endpoint went away before it delivered a session.
    ChannelClosed,
    /// No session is stored for the account and chain.
    SessionNotFound,
    /// The stored session could not be decoded.
    DeserializationError,
    /// The session could not be written.
    PersistenceWriteFailed,
}

impl SessionError {
    /// The text shown to the user for each failure.
    pub open spec fn text(self) -> Seq<char> {
        match self {
            SessionError::IdentityUnavailable => "no authenticated account: log in first"@,
            SessionError::BrowserLaunchFailed => "the browser could not be opened on the approval page"@,
            SessionError::EndpointBindFailed => "no local port could be bound for the callback endpoint"@,
            SessionError::EncodingError => "the approval URL could not be encoded"@,
            SessionError::MalformedCallback => "the callback body is not a session"@,
            SessionError::ChannelClosed => "the callback endpoint closed before a session arrived"@,
            SessionError::SessionNotFound => "no session is stored for this account and chain"@,
            SessionError::DeserializationError => "the stored session could not be decoded"@,
            SessionError::PersistenceWriteFailed => "the session could not be written"@,
        }
    }

    /// Whether the failure ends the handshake. A malformed callback is
    /// answered and forgotten; every other failure is final.
    pub open spec fn is_terminal(self) -> bool {
        self != SessionError::MalformedCallback
    }

    /// Says which stage failed, in words for the user.
    pub fn message(&self) -> (r: &'static str)
        ensures
            r@ == self.text(),
    {
        match self {
            SessionError::IdentityUnavailable => "no authenticated account: log in first",
            SessionError::BrowserLaunchFailed => "the browser could not be opened on the approval page",
            SessionError::EndpointBindFailed => "no local port could be bound for the callback endpoint",
            SessionError::EncodingError => "the approval URL could not be encoded",
            SessionError::MalformedCallback => "the callback body is not a session",
            SessionError::ChannelClosed => "the callback endpoint closed before a session arrived",
            SessionError::SessionNotFound => "no session is stored for this account and chain",
            SessionError::DeserializationError => "the stored session could not be decoded",
            SessionError::PersistenceWriteFailed => "the session could not be written",
        }
    }

    /// Tells a malformed callback, after which the handshake goes on waiting,
    /// from the failures that end it.
    pub fn aborts_handshake(&self) -> (r: bool)
        ensures
            r == self.is_terminal(),
    {
        match self {
            SessionError::MalformedCallback => false,
            _ => true,
        }
    }
}

} // verus!
