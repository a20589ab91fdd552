//! The inbound boundary: what a replica answers to whoever hands it a
//! message, and the sizes its pipeline is built with.

use vstd::prelude::*;
use vstd::string::*;
use crate::error::ConsensusError;
use crate::message::MessageResponse;

verus! {

/// The number of messages, and of events, that may wait in the pipeline
/// before the one who adds another has to wait.
pub const CHANNEL_CAPACITY: usize = 1024;

/// The number of records of the voting window of a replica.
pub const WINDOW_CAPACITY: usize = 10;

/// Whether a message that comes in while the voting window is in use by
/// another task is dropped, rather than kept waiting for the window.
pub const DROP_WHEN_BUSY: bool = true;

/// The text of the reply to a message that was taken in.
pub open spec fn success_text() -> Seq<char> {
    "success"@
}

/// The reply to a message, given how taking it in went: `success`, or the
/// text of the error.
///
/// Taking a message in means no more than queueing it for the voting
/// window: the reply does not say whether the window accepted it.
pub fn acknowledge(taken: &Result<(), ConsensusError>) -> (reply: MessageResponse)
    ensures
        reply@ == match taken {
            Ok(_) => success_text(),
            Err(e) => e.text(),
        },
{
    match taken {
        Ok(_) => MessageResponse { message: String::from_str("success") },
        Err(err) => MessageResponse { message: err.to_string() },
    }
}

} // verus!
