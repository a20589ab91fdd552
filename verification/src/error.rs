//! The errors of the agreement engine.

use vstd::prelude::*;
use vstd::string::*;

verus! {

/// What can go wrong while a replica takes part in the protocol.
///
/// The variants that stand for a failure outside the engine carry the text
/// of that failure.
#[derive(Debug, PartialEq, Eq)]
pub enum ConsensusError {
    /// A structured text could not be read or written.
    SerdeJsonError(String),
    /// The sequence number lies outside the window.
    SequenceNotAllowed(),
    /// The view is not the one the window is in.
    ViewNotAllowed(),
    /// The window was in use by another task.
    MutexError(),
    /// The peer answered a call with an error status.
    RPCError(String),
    /// The connection to a peer failed.
    TransportError(String),
    /// An address could not be parsed.
    ParseAddrError(String),
    /// The message carries no payload of a known kind.
    NoSuchMessageType(),
}

impl ConsensusError {
    /// The text of this error.
    pub open spec fn text(self) -> Seq<char> {
        match self {
            ConsensusError::SerdeJsonError(detail) => "serde_json err: "@ + detail@,
            ConsensusError::SequenceNotAllowed() => "seq is not allowed"@,
            ConsensusError::ViewNotAllowed() => "view is not allowed"@,
            ConsensusError::MutexError() => "mutex lock err"@,
            ConsensusError::RPCError(detail) => "status is :"@ + detail@,
            ConsensusError::TransportError(detail) => "tonic transport err is :"@ + detail@,
            ConsensusError::ParseAddrError(detail) => "parse addr err is :"@ + detail@,
            ConsensusError::NoSuchMessageType() => "no such message type"@,
        }
    }

    /// Renders this error as text.
    pub fn to_string(&self) -> (text: String)
        ensures
            text@ == self.text(),
    {
        match self {
            ConsensusError::SerdeJsonError(detail) => String::from_str("serde_json err: ").concat(
                detail.as_str(),
            ),
            ConsensusError::SequenceNotAllowed() => String::from_str("seq is not allowed"),
            ConsensusError::ViewNotAllowed() => String::from_str("view is not allowed"),
            ConsensusError::MutexError() => String::from_str("mutex lock err"),
            ConsensusError::RPCError(detail) => String::from_str("status is :").concat(
                detail.as_str(),
            ),
            ConsensusError::TransportError(detail) => String::from_str(
                "tonic transport err is :",
            ).concat(detail.as_str()),
            ConsensusError::ParseAddrError(detail) => String::from_str(
                "parse addr err is :",
            ).concat(detail.as_str()),
            ConsensusError::NoSuchMessageType() => String::from_str("no such message type"),
        }
    }
}

} // verus!
