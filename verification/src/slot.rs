//! The voting record of one sequence number.
//!
//! A record holds the votes of each of the three phases by the id of the
//! replica that sent them. The first vote of a sender in a phase stays;
//! what the same sender sends later in that phase is not counted.

use std::collections::HashMap;
use vstd::prelude::*;
use crate::message::{Commit, MessageView, PayloadView, PrePrepare, Prepare, Vote, unsigned_vote};

verus! {

broadcast use vstd::std_specs::hash::group_hash_axioms;

/// The number of votes a phase needs among `members` replicas: two thirds
/// of them, rounded down.
pub open spec fn quorum_threshold(members: nat) -> nat {
    members * 2 / 3
}

/// The view of a voting record: the votes of each phase, by the id of the
/// replica that sent them.
pub struct SlotView {
    pub pre_prepare: Map<u64, Vote>,
    pub prepare: Map<u64, Vote>,
    pub commit: Map<u64, Vote>,
}

impl SlotView {
    /// The record without any vote.
    pub open spec fn empty() -> SlotView {
        SlotView { pre_prepare: Map::empty(), prepare: Map::empty(), commit: Map::empty() }
    }

    /// Whether the maps of this record are finite.
    pub open spec fn finite(self) -> bool {
        &&& self.pre_prepare.dom().finite()
        &&& self.prepare.dom().finite()
        &&& self.commit.dom().finite()
    }

    /// The number of replicas that sent a prepare vote.
    pub open spec fn counts_prepare(self) -> nat {
        self.prepare.len()
    }

    /// The number of replicas that sent a commit vote.
    pub open spec fn counts_commit(self) -> nat {
        self.commit.len()
    }

    /// Whether some replica's proposal is recorded.
    pub open spec fn is_pre_prepared(self) -> bool {
        !self.pre_prepare.is_empty()
    }

    /// Whether a proposal is recorded and `quorum` replicas sent a prepare
    /// vote.
    pub open spec fn is_prepared(self, quorum: nat) -> bool {
        self.is_pre_prepared() && self.counts_prepare() >= quorum
    }

    /// Whether the record is prepared and `quorum` replicas sent a commit
    /// vote.
    pub open spec fn is_commited(self, quorum: nat) -> bool {
        self.is_prepared(quorum) && self.counts_commit() >= quorum
    }

    /// The record after a proposal of `sender` arrived: the first one of
    /// each sender stays.
    pub open spec fn with_pre_prepare(self, sender: u64, vote: Vote) -> SlotView {
        if self.pre_prepare.contains_key(sender) {
            self
        } else {
            SlotView { pre_prepare: self.pre_prepare.insert(sender, vote), ..self }
        }
    }

    /// The record after a prepare vote of `sender` arrived: the first one of
    /// each sender stays.
    pub open spec fn with_prepare(self, sender: u64, vote: Vote) -> SlotView {
        if self.prepare.contains_key(sender) {
            self
        } else {
            SlotView { prepare: self.prepare.insert(sender, vote), ..self }
        }
    }

    /// The record after a commit vote of `sender` arrived: the first one of
    /// each sender stays.
    pub open spec fn with_commit(self, sender: u64, vote: Vote) -> SlotView {
        if self.commit.contains_key(sender) {
            self
        } else {
            SlotView { commit: self.commit.insert(sender, vote), ..self }
        }
    }

    /// The record after `m` was recorded in it by replica `local_id`, which
    /// leads or does not.
    ///
    /// A request counts only with the leader, as the leader's own proposal:
    /// it is recorded under `local_id`, whoever sent the request. A
    /// proposal counts only while the record holds none, of any sender. A
    /// vote counts under the id of the replica that sent it.
    pub open spec fn record(self, leader: bool, local_id: u64, m: MessageView) -> SlotView {
        match m.payload {
            Some(PayloadView::Request(bytes)) => if leader {
                self.with_pre_prepare(local_id, unsigned_vote(bytes))
            } else {
                self
            },
            Some(PayloadView::PrePrepare(vote)) => if self.is_pre_prepared() {
                self
            } else {
                self.with_pre_prepare(m.id, vote)
            },
            Some(PayloadView::Prepare(vote)) => self.with_prepare(m.id, vote),
            Some(PayloadView::Commit(vote)) => self.with_commit(m.id, vote),
            None => self,
        }
    }
}

/// The view of a vote that may be absent.
pub open spec fn vote_view<V: View<V = Vote>>(vote: Option<&V>) -> Option<Vote> {
    match vote {
        Some(v) => Some(v@),
        None => None,
    }
}

/// The voting record of one sequence number.
#[derive(Debug)]
pub(crate) struct SeqMessage {
    pre_prepare: HashMap<u64, PrePrepare>,
    prepare: HashMap<u64, Prepare>,
    commit: HashMap<u64, Commit>,
}

impl View for SeqMessage {
    type V = SlotView;

    closed spec fn view(&self) -> SlotView {
        SlotView {
            pre_prepare: self.pre_prepare@.map_values(|v: PrePrepare| v@),
            prepare: self.prepare@.map_values(|v: Prepare| v@),
            commit: self.commit@.map_values(|v: Commit| v@),
        }
    }
}

impl SeqMessage {
    pub(crate) fn new() -> (slot: Self)
        ensures
            slot@ == SlotView::empty(),
    {
        let slot = SeqMessage {
            pre_prepare: HashMap::new(),
            prepare: HashMap::new(),
            commit: HashMap::new(),
        };
        assert(slot@.pre_prepare =~= Map::empty());
        assert(slot@.prepare =~= Map::empty());
        assert(slot@.commit =~= Map::empty());
        slot
    }

    pub(crate) proof fn lemma_finite(&self)
        ensures
            self@.finite(),
    {
        assert(self@.pre_prepare.dom() =~= self.pre_prepare@.dom());
        assert(self@.prepare.dom() =~= self.prepare@.dom());
        assert(self@.commit.dom() =~= self.commit@.dom());
    }

    pub(crate) fn record_pre_prepare(&mut self, sender: u64, vote: PrePrepare)
        ensures
            final(self)@ == old(self)@.with_pre_prepare(sender, vote@),
    {
        if !self.pre_prepare.contains_key(&sender) {
            self.pre_prepare.insert(sender, vote);
            assert(self@.pre_prepare =~= old(self)@.pre_prepare.insert(sender, vote@));
        }
    }

    pub(crate) fn record_prepare(&mut self, sender: u64, vote: Prepare)
        ensures
            final(self)@ == old(self)@.with_prepare(sender, vote@),
    {
        if !self.prepare.contains_key(&sender) {
            self.prepare.insert(sender, vote);
            assert(self@.prepare =~= old(self)@.prepare.insert(sender, vote@));
        }
    }

    pub(crate) fn record_commit(&mut self, sender: u64, vote: Commit)
        ensures
            final(self)@ == old(self)@.with_commit(sender, vote@),
    {
        if !self.commit.contains_key(&sender) {
            self.commit.insert(sender, vote);
            assert(self@.commit =~= old(self)@.commit.insert(sender, vote@));
        }
    }

    pub(crate) fn is_pre_prepared(&self) -> (b: bool)
        ensures
            b == self@.is_pre_prepared(),
    {
        assert(self@.pre_prepare.dom() =~= self.pre_prepare@.dom());
        !self.pre_prepare.is_empty()
    }

    pub(crate) fn pre_prepare_from(&self, sender: u64) -> (vote: Option<&PrePrepare>)
        ensures
            vote_view(vote) == self@.pre_prepare.get(sender),
    {
        self.pre_prepare.get(&sender)
    }

    pub(crate) fn prepare_from(&self, sender: u64) -> (vote: Option<&Prepare>)
        ensures
            vote_view(vote) == self@.prepare.get(sender),
    {
        self.prepare.get(&sender)
    }

    pub(crate) fn commit_from(&self, sender: u64) -> (vote: Option<&Commit>)
        ensures
            vote_view(vote) == self@.commit.get(sender),
    {
        self.commit.get(&sender)
    }

    pub(crate) fn counts_prepare(&self) -> (n: usize)
        ensures
            n == self@.counts_prepare(),
    {
        assert(self@.prepare.dom() =~= self.prepare@.dom());
        self.prepare.len()
    }

    pub(crate) fn counts_commit(&self) -> (n: usize)
        ensures
            n == self@.counts_commit(),
    {
        assert(self@.commit.dom() =~= self.commit@.dom());
        self.commit.len()
    }
}

/// A vote of a sender is counted once: a second prepare vote, or commit
/// vote, of the same sender leaves the record as the first one left it,
/// and a vote adds one to the count of its phase if the sender had none
/// recorded and nothing otherwise.
pub proof fn lemma_vote_counted_once(slot: SlotView, sender: u64, first: Vote, second: Vote)
    requires
        slot.finite(),
    ensures
        ({
            let prepared = slot.with_prepare(sender, first);
            &&& prepared.finite()
            &&& prepared.with_prepare(sender, second) == prepared
            &&& slot.prepare.contains_key(sender) ==> prepared.counts_prepare()
                == slot.counts_prepare()
            &&& !slot.prepare.contains_key(sender) ==> prepared.counts_prepare()
                == slot.counts_prepare() + 1
        }),
        ({
            let commited = slot.with_commit(sender, first);
            &&& commited.finite()
            &&& commited.with_commit(sender, second) == commited
            &&& slot.commit.contains_key(sender) ==> commited.counts_commit()
                == slot.counts_commit()
            &&& !slot.commit.contains_key(sender) ==> commited.counts_commit()
                == slot.counts_commit() + 1
        }),
{
}

/// What a record holds stays in it: a vote that is recorded is there, the
/// same, after any message was recorded, and no count of votes goes down.
pub proof fn lemma_votes_stay(
    slot: SlotView,
    leader: bool,
    local_id: u64,
    m: MessageView,
    sender: u64,
)
    requires
        slot.finite(),
    ensures
        ({
            let after = slot.record(leader, local_id, m);
            &&& after.finite()
            &&& slot.pre_prepare.contains_key(sender) ==> after.pre_prepare.contains_key(sender)
                && after.pre_prepare[sender] == slot.pre_prepare[sender]
            &&& slot.prepare.contains_key(sender) ==> after.prepare.contains_key(sender)
                && after.prepare[sender] == slot.prepare[sender]
            &&& slot.commit.contains_key(sender) ==> after.commit.contains_key(sender)
                && after.commit[sender] == slot.commit[sender]
            &&& slot.is_pre_prepared() ==> after.is_pre_prepared()
            &&& after.counts_prepare() >= slot.counts_prepare()
            &&& after.counts_commit() >= slot.counts_commit()
        }),
{
}

} // verus!
