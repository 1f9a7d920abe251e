//! The failures that the hub reports.

use vstd::prelude::*;

verus! {

/// A failure of one operation of the hub. None of them is fatal: the hub
/// stays serviceable for every other client.
#[derive(Clone, Copy, Debug, PartialEq, Eq, Structural)]
pub enum HubError {
    /// A registration met an identity that is already in use.
    DuplicateIdentity,
    /// The operation named an identity that is not registered.
    UnknownClient,
    /// A payload was sent to a connection whose channel is closed.
    ChannelClosed,
    /// The transport of an active session failed.
    TransportError,
}

impl HubError {
    /// A short description of the failure.
    pub fn describe(&self) -> (text: &'static str)
        ensures
            text@ == match *self {
                HubError::DuplicateIdentity => "identity already registered"@,
                HubError::UnknownClient => "client not registered"@,
                HubError::ChannelClosed => "channel closed"@,
                HubError::TransportError => "transport error"@,
            },
    {
        match self {
            HubError::DuplicateIdentity => "identity already registered",
            HubError::UnknownClient => "client not registered",
            HubError::ChannelClosed => "channel closed",
            HubError::TransportError => "transport error",
        }
    }
}

} // verus!
