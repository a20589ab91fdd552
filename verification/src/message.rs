//! Protocol messages and their mathematical views.
//!
//! A message names the view and the sequence number it is about and the
//! replica that sent it, and carries one payload: a client request or a
//! vote of one of the three phases. Contracts speak of messages through
//! [`MessageView`], in which byte vectors are sequences of bytes.

use vstd::prelude::*;

verus! {

/// A client request: an opaque payload to be ordered.
#[derive(Debug, PartialEq, Eq)]
pub struct Request {
    pub payload: Vec<u8>,
}

/// The leader's proposal of a request for one sequence number.
#[derive(Debug, PartialEq, Eq)]
pub struct PrePrepare {
    pub payload: Vec<u8>,
    pub signature: Vec<u8>,
}

/// A replica's vote that it accepted the proposal.
#[derive(Debug, PartialEq, Eq)]
pub struct Prepare {
    pub payload: Vec<u8>,
    pub signature: Vec<u8>,
}

/// A replica's vote that the proposal is prepared.
#[derive(Debug, PartialEq, Eq)]
pub struct Commit {
    pub payload: Vec<u8>,
    pub signature: Vec<u8>,
}

/// The payload of a message: exactly one of the four kinds.
#[derive(Debug, PartialEq, Eq)]
pub enum Payload {
    Request(Request),
    PrePrepare(PrePrepare),
    Prepare(Prepare),
    Commit(Commit),
}

/// One protocol message.
#[derive(Debug, PartialEq, Eq)]
pub struct Message {
    pub view: u64,
    pub seq: u64,
    pub id: u64,
    pub digest: String,
    pub payload: Option<Payload>,
}

/// The reply a replica gives to whoever handed it a message.
#[derive(Debug, PartialEq, Eq)]
pub struct MessageResponse {
    pub message: String,
}

/// What a vote of any phase carries.
pub struct Vote {
    pub payload: Seq<u8>,
    pub signature: Seq<u8>,
}

/// The view of a [`Payload`].
pub enum PayloadView {
    Request(Seq<u8>),
    PrePrepare(Vote),
    Prepare(Vote),
    Commit(Vote),
}

/// The view of a [`Message`].
pub struct MessageView {
    pub view: u64,
    pub seq: u64,
    pub id: u64,
    pub digest: Seq<char>,
    pub payload: Option<PayloadView>,
}

/// A vote with the given payload and no signature.
pub open spec fn unsigned_vote(payload: Seq<u8>) -> Vote {
    Vote { payload, signature: Seq::empty() }
}

impl View for Request {
    type V = Seq<u8>;

    open spec fn view(&self) -> Seq<u8> {
        self.payload@
    }
}

impl View for PrePrepare {
    type V = Vote;

    open spec fn view(&self) -> Vote {
        Vote { payload: self.payload@, signature: self.signature@ }
    }
}

impl View for Prepare {
    type V = Vote;

    open spec fn view(&self) -> Vote {
        Vote { payload: self.payload@, signature: self.signature@ }
    }
}

impl View for Commit {
    type V = Vote;

    open spec fn view(&self) -> Vote {
        Vote { payload: self.payload@, signature: self.signature@ }
    }
}

impl View for Payload {
    type V = PayloadView;

    open spec fn view(&self) -> PayloadView {
        match self {
            Payload::Request(r) => PayloadView::Request(r@),
            Payload::PrePrepare(p) => PayloadView::PrePrepare(p@),
            Payload::Prepare(p) => PayloadView::Prepare(p@),
            Payload::Commit(c) => PayloadView::Commit(c@),
        }
    }
}

/// The view of an optional payload.
pub open spec fn payload_view(payload: Option<Payload>) -> Option<PayloadView> {
    match payload {
        Some(p) => Some(p@),
        None => None,
    }
}

impl View for Message {
    type V = MessageView;

    open spec fn view(&self) -> MessageView {
        MessageView {
            view: self.view,
            seq: self.seq,
            id: self.id,
            digest: self.digest@,
            payload: payload_view(self.payload),
        }
    }
}

impl View for MessageResponse {
    type V = Seq<char>;

    open spec fn view(&self) -> Seq<char> {
        self.message@
    }
}

impl Clone for Request {
    fn clone(&self) -> (copy: Self)
        ensures
            copy@ == self@,
    {
        Request { payload: self.payload.clone() }
    }
}

impl Clone for PrePrepare {
    fn clone(&self) -> (copy: Self)
        ensures
            copy@ == self@,
    {
        PrePrepare { payload: self.payload.clone(), signature: self.signature.clone() }
    }
}

impl Clone for Prepare {
    fn clone(&self) -> (copy: Self)
        ensures
            copy@ == self@,
    {
        Prepare { payload: self.payload.clone(), signature: self.signature.clone() }
    }
}

impl Clone for Commit {
    fn clone(&self) -> (copy: Self)
        ensures
            copy@ == self@,
    {
        Commit { payload: self.payload.clone(), signature: self.signature.clone() }
    }
}

impl Clone for Payload {
    fn clone(&self) -> (copy: Self)
        ensures
            copy@ == self@,
    {
        match self {
            Payload::Request(r) => Payload::Request(r.clone()),
            Payload::PrePrepare(p) => Payload::PrePrepare(p.clone()),
            Payload::Prepare(p) => Payload::Prepare(p.clone()),
            Payload::Commit(c) => Payload::Commit(c.clone()),
        }
    }
}

impl Clone for Message {
    fn clone(&self) -> (copy: Self)
        ensures
            copy@ == self@,
    {
        let payload = match &self.payload {
            Some(p) => Some(p.clone()),
            None => None,
        };
        Message {
            view: self.view,
            seq: self.seq,
            id: self.id,
            digest: self.digest.clone(),
            payload,
        }
    }
}

} // verus!
