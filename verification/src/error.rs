//! Why a session refuses.

use vstd::prelude::*;

verus! {

/// Why the session refused.
#[derive(Clone, Copy, PartialEq, Eq, Debug, Structural)]
pub enum SessionError {
    /// Something was asked of a player, or of the session, before the
    /// handshake was complete.
    NotSynchronized,
    /// The match has run further ahead of the confirmed frames than the
    /// prediction window allows. The session cannot go on.
    PredictionThreshold,
    /// A request, an event or a parameter does not fit: a frame that is not
    /// the current one was to be saved, a frame that the history does not
    /// hold was to be loaded, inputs were missing or came out of order, a
    /// player does not exist.
    InvalidRequest,
    /// The player that an event names is gone already.
    PlayerDisconnected,
}

impl SessionError {
    /// A sentence for the log.
    pub fn message(&self) -> (text: &'static str)
        ensures
            text@ == (match *self {
                SessionError::NotSynchronized => "the session is not synchronized yet"@,
                SessionError::PredictionThreshold => "the prediction window is used up"@,
                SessionError::InvalidRequest => "the request does not fit the session"@,
                SessionError::PlayerDisconnected => "the player is disconnected"@,
            }),
    {
        match self {
            SessionError::NotSynchronized => "the session is not synchronized yet",
            SessionError::PredictionThreshold => "the prediction window is used up",
            SessionError::InvalidRequest => "the request does not fit the session",
            SessionError::PlayerDisconnected => "the player is disconnected",
        }
    }
}

} // verus!
