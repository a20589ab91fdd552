//! Events: what the voting window asks the rest of the replica to do.
//!
//! A broadcast event carries the message of the next phase, derived from
//! the message that caused it; a commit event carries the message whose
//! sequence number is ready to be committed.

use vstd::prelude::*;
use crate::client::{reaches_all_others, recipients};
use crate::members::Membership;
use crate::message::{
    Commit, Message, MessageView, Payload, PayloadView, PrePrepare, Prepare, unsigned_vote,
};

verus! {

/// The kind of an event.
#[derive(Debug, Clone, Copy, PartialEq, Eq, Structural)]
pub enum EventType {
    Broadcast,
    Commit,
    Commited,
}

/// An event: a message and what is to be done with it.
#[derive(Debug, PartialEq, Eq)]
pub struct Event {
    pub msg: Message,
    pub event_type: EventType,
}

/// The view of an [`Event`].
pub struct EventView {
    pub msg: MessageView,
    pub event_type: EventType,
}

impl View for Event {
    type V = EventView;

    open spec fn view(&self) -> EventView {
        EventView { msg: self.msg@, event_type: self.event_type }
    }
}

/// The payload of the phase that follows `payload`: a request becomes a
/// pre-prepare, a pre-prepare a prepare, a prepare a commit, each with the
/// same bytes and no signature. Nothing follows a commit or an absent
/// payload.
pub open spec fn next_phase(payload: Option<PayloadView>) -> Option<PayloadView> {
    match payload {
        Some(PayloadView::Request(bytes)) => Some(PayloadView::PrePrepare(unsigned_vote(bytes))),
        Some(PayloadView::PrePrepare(vote)) => Some(
            PayloadView::Prepare(unsigned_vote(vote.payload)),
        ),
        Some(PayloadView::Prepare(vote)) => Some(PayloadView::Commit(unsigned_vote(vote.payload))),
        Some(PayloadView::Commit(_)) => None,
        None => None,
    }
}

/// The message that replica `node_id` sends on after `m`: the same view and
/// sequence number, `node_id` as the sender, an empty digest, and the
/// payload of the next phase.
pub open spec fn derived_message(node_id: u64, m: MessageView) -> MessageView {
    MessageView {
        view: m.view,
        seq: m.seq,
        id: node_id,
        digest: Seq::empty(),
        payload: next_phase(m.payload),
    }
}

/// The broadcast event that replica `node_id` raises on `m`.
pub open spec fn broadcast_of(node_id: u64, m: MessageView) -> EventView {
    EventView { msg: derived_message(node_id, m), event_type: EventType::Broadcast }
}

/// The commit event raised on `m`.
pub open spec fn commit_of(m: MessageView) -> EventView {
    EventView { msg: m, event_type: EventType::Commit }
}

impl Event {
    /// Builds the broadcast event that carries the message derived from `m`
    /// for replica `node_id`.
    pub fn new_broadcast(node_id: u64, m: Message) -> (event: Self)
        ensures
            event@ == broadcast_of(node_id, m@),
    {
        let msg = match m.payload {
            Some(Payload::Request(request)) => Some(
                Payload::PrePrepare(PrePrepare { payload: request.payload, signature: Vec::new() }),
            ),
            Some(Payload::PrePrepare(pre_prepare)) => Some(
                Payload::Prepare(Prepare { payload: pre_prepare.payload, signature: Vec::new() }),
            ),
            Some(Payload::Prepare(prepare)) => Some(
                Payload::Commit(Commit { payload: prepare.payload, signature: Vec::new() }),
            ),
            _ => None,
        };

        Self {
            msg: Message { view: m.view, seq: m.seq, id: node_id, digest: String::new(), payload: msg },
            event_type: EventType::Broadcast,
        }
    }

    /// Builds the commit event that carries `msg` unchanged.
    pub fn new_commit(msg: Message) -> (event: Self)
        ensures
            event@ == commit_of(msg@),
    {
        Self { msg, event_type: EventType::Commit }
    }
}

/// What the caller of [`EventHandler::handle`] is to do next.
#[derive(Debug)]
pub enum Effect {
    /// Send `msg` to each of `peers`, given by id and address.
    Send { peers: Vec<(usize, String)>, msg: Message },
    /// Sequence number `seq` of view `view` was committed just now.
    Commited { view: u64, seq: u64 },
    /// The commit of `seq` does not follow `commited_seq` and was dropped.
    Wait { view: u64, seq: u64, commited_seq: u64 },
    /// Nothing.
    Nothing,
}

/// The commit cursor after `event` was handled at cursor `commited_seq`:
/// one more if `event` commits the sequence number that follows the
/// cursor, and the same otherwise.
pub open spec fn cursor_after(commited_seq: nat, event: EventView) -> nat {
    if event.event_type == EventType::Commit && event.msg.seq == commited_seq + 1 {
        commited_seq + 1
    } else {
        commited_seq
    }
}

/// The end of the pipeline: it turns a broadcast event into the list of
/// sends to make, and applies commit events to the commit cursor in
/// order and without gaps.
#[derive(Debug)]
pub struct EventHandler {
    commited_seq: u64,
}

impl View for EventHandler {
    type V = nat;

    /// The commit cursor: the highest sequence number committed so far.
    closed spec fn view(&self) -> nat {
        self.commited_seq as nat
    }
}

impl EventHandler {
    /// A pipeline that has committed nothing.
    pub fn new() -> (handler: Self)
        ensures
            handler@ == 0,
    {
        Self { commited_seq: 0 }
    }

    /// The commit cursor.
    pub fn commited_seq(&self) -> (cursor: u64)
        ensures
            cursor == self@,
    {
        self.commited_seq
    }

    /// Handles one event for the replica that `members` describes.
    ///
    /// A broadcast event leaves the cursor alone and has its message sent
    /// to every peer but the replica itself. A commit event for the
    /// sequence number that follows the cursor moves the cursor there; any
    /// other commit event is dropped.
    pub fn handle<T: Membership>(&mut self, members: &T, event: Event) -> (effect: Effect)
        ensures
            final(self)@ == cursor_after(old(self)@, event@),
            match effect {
                Effect::Send { peers, msg } => {
                    &&& event@.event_type == EventType::Broadcast
                    &&& msg@ == event@.msg
                    &&& reaches_all_others(peers@, members.identity(), members.peer_table())
                },
                Effect::Commited { view, seq } => {
                    &&& event@.event_type == EventType::Commit
                    &&& seq == old(self)@ + 1
                    &&& seq == event@.msg.seq
                    &&& view == event@.msg.view
                },
                Effect::Wait { view, seq, commited_seq } => {
                    &&& event@.event_type == EventType::Commit
                    &&& seq != old(self)@ + 1
                    &&& seq == event@.msg.seq
                    &&& view == event@.msg.view
                    &&& commited_seq == old(self)@
                },
                Effect::Nothing => event@.event_type == EventType::Commited,
            },
    {
        match event.event_type {
            EventType::Broadcast => {
                let list = members.members();
                let peers = recipients(members.local_id(), &list);
                Effect::Send { peers, msg: event.msg }
            },
            EventType::Commit => {
                if self.commited_seq < u64::MAX && event.msg.seq == self.commited_seq + 1 {
                    self.commited_seq = self.commited_seq + 1;
                    Effect::Commited { view: event.msg.view, seq: event.msg.seq }
                } else {
                    Effect::Wait {
                        view: event.msg.view,
                        seq: event.msg.seq,
                        commited_seq: self.commited_seq,
                    }
                }
            },
            EventType::Commited => Effect::Nothing,
        }
    }
}

/// The commit cursor moves only by one, and only on the commit event of
/// the sequence number that follows it; any other event leaves it where
/// it is.
pub proof fn lemma_cursor_steps_by_one(commited_seq: nat, event: EventView)
    ensures
        cursor_after(commited_seq, event) == commited_seq || cursor_after(commited_seq, event)
            == commited_seq + 1,
        cursor_after(commited_seq, event) == commited_seq + 1 <==> event.event_type
            == EventType::Commit && event.msg.seq == commited_seq + 1,
        event.msg.seq != commited_seq + 1 ==> cursor_after(commited_seq, event) == commited_seq,
{
}

} // verus!
