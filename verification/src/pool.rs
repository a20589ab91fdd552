//! The voting window: one voting record per sequence number.
//!
//! The window holds `capacity` records and admits a message only for a
//! sequence number above its stable checkpoint and less than `capacity`
//! above it, in the view the window is in. An admitted message is recorded
//! as a vote of its phase, once per sender, and the window answers with the
//! event that the vote gives rise to, if any.

use vstd::prelude::*;
use crate::error::ConsensusError;
use crate::event::{Event, EventView, broadcast_of, commit_of};
use crate::members::Membership;
use crate::message::{
    Commit, Message, MessageView, Payload, PayloadView, PrePrepare, Prepare, Vote, unsigned_vote,
};
use crate::slot::{SeqMessage, SlotView, lemma_votes_stay, quorum_threshold, vote_view};

verus! {

broadcast use vstd::std_specs::hash::group_hash_axioms;

/// The view of the voting window.
pub struct PoolView {
    /// The view the window is in.
    pub view: u64,
    /// The low watermark: sequence numbers up to it are not admitted.
    pub stable_checkpoint: u64,
    /// The number of records.
    pub capacity: nat,
    /// The place in `queue` of the record just above the checkpoint.
    pub start: nat,
    /// The records.
    pub queue: Seq<SlotView>,
}

impl PoolView {
    /// What holds of every window: it has `capacity` records, and `start`
    /// is the place of one of them.
    pub open spec fn wf(self) -> bool {
        &&& self.queue.len() == self.capacity
        &&& self.start < self.capacity || (self.start == 0 && self.capacity == 0)
    }

    /// The window as it is created with `capacity` records: in view 1, with
    /// nothing checkpointed and no vote recorded.
    pub open spec fn initial(capacity: nat) -> PoolView {
        PoolView {
            view: 1,
            stable_checkpoint: 0,
            capacity,
            start: 0,
            queue: Seq::new(capacity, |i: int| SlotView::empty()),
        }
    }

    /// Whether `seq` lies in the window: above the checkpoint and less than
    /// `capacity` above it.
    pub open spec fn in_window(self, seq: u64) -> bool {
        self.stable_checkpoint < seq < self.stable_checkpoint + self.capacity
    }

    /// Whether a message of view `view` for sequence number `seq` is
    /// admitted.
    pub open spec fn admits(self, view: u64, seq: u64) -> bool {
        self.in_window(seq) && view == self.view
    }

    /// The place in `queue` of the record of `seq`.
    pub open spec fn index_in_queue(self, seq: u64) -> int {
        (seq - self.stable_checkpoint + self.start) % (self.capacity as int)
    }

    /// The record of `seq`.
    pub open spec fn slot(self, seq: u64) -> SlotView {
        self.queue[self.index_in_queue(seq)]
    }

    /// The window after replica `local_id`, which leads or does not, handed
    /// it `m`: unchanged unless `m` is admitted, and then with `m` recorded
    /// in the record of its sequence number.
    pub open spec fn after(self, leader: bool, local_id: u64, m: MessageView) -> PoolView {
        if self.admits(m.view, m.seq) {
            PoolView {
                queue: self.queue.update(
                    self.index_in_queue(m.seq),
                    self.slot(m.seq).record(leader, local_id, m),
                ),
                ..self
            }
        } else {
            self
        }
    }

    /// What the window answers when replica `local_id`, which leads or does
    /// not, hands it `m` while a phase needs `quorum` votes.
    ///
    /// A sequence number outside the window is refused first, then a view
    /// other than the window's, then a message without payload. A request
    /// is sent on as a proposal by the leader alone. A proposal is sent on
    /// as a prepare vote if it is the first for its sequence number. A
    /// prepare vote is sent on as a commit vote if, with it counted, the
    /// record is prepared. A commit vote raises the commit event if, with
    /// it counted, the record is commited.
    pub open spec fn outcome(self, leader: bool, local_id: u64, quorum: nat, m: MessageView)
        -> Result<Option<EventView>, ConsensusError> {
        if !self.in_window(m.seq) {
            Err(ConsensusError::SequenceNotAllowed())
        } else if m.view != self.view {
            Err(ConsensusError::ViewNotAllowed())
        } else {
            let before = self.slot(m.seq);
            let recorded = before.record(leader, local_id, m);
            match m.payload {
                Some(PayloadView::Request(_)) => if leader {
                    Ok(Some(broadcast_of(local_id, m)))
                } else {
                    Ok(None)
                },
                Some(PayloadView::PrePrepare(_)) => if before.is_pre_prepared() {
                    Ok(None)
                } else {
                    Ok(Some(broadcast_of(local_id, m)))
                },
                Some(PayloadView::Prepare(_)) => if recorded.is_prepared(quorum) {
                    Ok(Some(broadcast_of(local_id, m)))
                } else {
                    Ok(None)
                },
                Some(PayloadView::Commit(_)) => if recorded.is_commited(quorum) {
                    Ok(Some(commit_of(m)))
                } else {
                    Ok(None)
                },
                None => Err(ConsensusError::NoSuchMessageType()),
            }
        }
    }
}

/// The view of what [`Pool::add`] returns.
pub open spec fn outcome_view(result: Result<Option<Event>, ConsensusError>) -> Result<
    Option<EventView>,
    ConsensusError,
> {
    match result {
        Ok(Some(event)) => Ok(Some(event@)),
        Ok(None) => Ok(None),
        Err(e) => Err(e),
    }
}

/// The voting window of one replica.
#[derive(Debug)]
pub struct Pool {
    view: u64,
    stable_checkpoint: u64,
    capacity: usize,
    queue: Vec<SeqMessage>,
    start: usize,
}

impl View for Pool {
    type V = PoolView;

    closed spec fn view(&self) -> PoolView {
        PoolView {
            view: self.view,
            stable_checkpoint: self.stable_checkpoint,
            capacity: self.capacity as nat,
            start: self.start as nat,
            queue: self.queue@.map_values(|s: SeqMessage| s@),
        }
    }
}

impl Pool {
    #[verifier::type_invariant]
    spec fn inv(self) -> bool {
        self@.wf()
    }

    /// Tells the caller what holds of every window: calling this costs
    /// nothing and leaves the caller knowing that the window is well
    /// formed, which the laws of the window ask for.
    pub fn well_formed(&self)
        ensures
            self@.wf(),
    {
        proof {
            use_type_invariant(self);
        }
    }

    /// Every record of a window holds finitely many votes.
    pub proof fn lemma_finite(&self)
        ensures
            forall|i: int| 0 <= i < self@.queue.len() ==> (#[trigger] self@.queue[i]).finite(),
    {
        assert forall|i: int| 0 <= i < self@.queue.len() implies (#[trigger] self@.queue[i]).finite(
        ) by {
            self.queue@[i].lemma_finite();
        }
    }

    /// A window of `capacity` records, in view 1, with nothing checkpointed
    /// and no vote recorded.
    pub fn new(capacity: usize) -> (pool: Self)
        ensures
            pool@ == PoolView::initial(capacity as nat),
            pool@.wf(),
    {
        let mut b: Vec<SeqMessage> = Vec::new();
        let mut i: usize = 0;
        while i < capacity
            invariant
                i <= capacity,
                b@.len() == i,
                forall|j: int| 0 <= j < i ==> (#[trigger] b@[j])@ == SlotView::empty(),
            decreases capacity - i,
        {
            b.push(SeqMessage::new());
            i = i + 1;
        }
        let pool = Pool { view: 1, stable_checkpoint: 0, capacity, queue: b, start: 0 };
        assert(pool@.queue =~= PoolView::initial(capacity as nat).queue);
        pool
    }

    /// Whether a message of view `view` for sequence number `seq` is
    /// admitted: `seq` lies in the window and `view` is the window's view.
    pub fn view_seq_check(&self, view: u64, seq: u64) -> (admitted: bool)
        ensures
            admitted == self@.admits(view, seq),
            admitted == (self@.stable_checkpoint < seq < self@.stable_checkpoint + self@.capacity
                && view == self@.view),
    {
        if seq <= self.stable_checkpoint || seq - self.stable_checkpoint >= self.capacity as u64 {
            return false;
        }
        if view != self.view {
            return false;
        }
        true
    }

    /// Whether `m` is admitted, whatever it carries.
    pub fn admits(&self, m: &Message) -> (admitted: bool)
        ensures
            admitted == self@.admits(m@.view, m@.seq),
    {
        self.view_seq_check(m.view, m.seq)
    }

    /// The place in the window of the record of `seq`.
    pub fn index_in_queue(&self, seq: u64) -> (index: usize)
        requires
            self@.in_window(seq),
        ensures
            self@.wf(),
            index == self@.index_in_queue(seq),
            index < self@.capacity,
    {
        proof {
            use_type_invariant(self);
        }
        let offset: usize = (seq - self.stable_checkpoint) as usize;
        let room: usize = self.capacity - self.start;
        if offset >= room {
            proof {
                vstd::arithmetic::div_mod::lemma_mod_add_multiples_vanish(
                    offset - room,
                    self.capacity as int,
                );
                vstd::arithmetic::div_mod::lemma_small_mod(
                    (offset - room) as nat,
                    self.capacity as nat,
                );
            }
            offset - room
        } else {
            proof {
                vstd::arithmetic::div_mod::lemma_small_mod(
                    (offset + self.start) as nat,
                    self.capacity as nat,
                );
            }
            offset + self.start
        }
    }

    /// The number of votes a phase needs, from the number of peers that
    /// `member` knows now.
    pub fn bft_node_num<T: Membership>(&self, member: &T) -> (quorum: usize)
        ensures
            quorum == quorum_threshold(member.peer_table().len()),
    {
        let list = member.members();
        assert(member.peer_table().dom() =~= list@.dom());
        let n: usize = list.len();
        let thirds: usize = n / 3;
        let rest: usize = n % 3;
        assert(n * 2 / 3 == 2 * thirds + (2 * rest) / 3) by (nonlinear_arith)
            requires
                thirds == n / 3,
                rest == n % 3,
        ;
        2 * thirds + (2 * rest) / 3
    }

    /// Whether the record at `index` holds a proposal.
    pub fn is_pre_prepared(&self, index: usize) -> (b: bool)
        requires
            index < self@.capacity,
        ensures
            self@.wf(),
            b == self@.queue[index as int].is_pre_prepared(),
    {
        proof {
            use_type_invariant(self);
        }
        self.queue[index].is_pre_prepared()
    }

    /// Whether the record at `index` is prepared: it holds a proposal, and
    /// the replicas that sent a prepare vote are as many as a phase needs
    /// among the peers that `member` knows now.
    pub fn is_prepared<T: Membership>(&self, index: usize, member: &T) -> (b: bool)
        requires
            index < self@.capacity,
        ensures
            self@.wf(),
            b == self@.queue[index as int].is_prepared(
                quorum_threshold(member.peer_table().len()),
            ),
            b == (self@.queue[index as int].is_pre_prepared()
                && self@.queue[index as int].counts_prepare() >= member.peer_table().len() * 2
                / 3),
    {
        self.is_pre_prepared(index) && self.counts_prepare(index) >= self.bft_node_num(member)
    }

    /// Whether the record at `index` is commited: it is prepared, and the
    /// replicas that sent a commit vote are as many as a phase needs among
    /// the peers that `member` knows now.
    pub fn is_commited<T: Membership>(&self, index: usize, member: &T) -> (b: bool)
        requires
            index < self@.capacity,
        ensures
            self@.wf(),
            b == self@.queue[index as int].is_commited(
                quorum_threshold(member.peer_table().len()),
            ),
            b == (self@.queue[index as int].is_prepared(
                quorum_threshold(member.peer_table().len()),
            ) && self@.queue[index as int].counts_commit() >= member.peer_table().len() * 2 / 3),
    {
        self.is_prepared(index, member) && self.counts_commit(index) >= self.bft_node_num(member)
    }

    /// The number of replicas whose prepare vote the record at `index`
    /// holds.
    pub fn counts_prepare(&self, index: usize) -> (n: usize)
        requires
            index < self@.capacity,
        ensures
            self@.wf(),
            n == self@.queue[index as int].counts_prepare(),
    {
        proof {
            use_type_invariant(self);
        }
        self.queue[index].counts_prepare()
    }

    /// The number of replicas whose commit vote the record at `index`
    /// holds.
    pub fn counts_commit(&self, index: usize) -> (n: usize)
        requires
            index < self@.capacity,
        ensures
            self@.wf(),
            n == self@.queue[index as int].counts_commit(),
    {
        proof {
            use_type_invariant(self);
        }
        self.queue[index].counts_commit()
    }

    /// The proposal of `sender` that the record at `index` holds, if any.
    pub fn pre_prepare_from(&self, index: usize, sender: u64) -> (vote: Option<&PrePrepare>)
        requires
            index < self@.capacity,
        ensures
            vote_view(vote) == self@.queue[index as int].pre_prepare.get(sender),
    {
        proof {
            use_type_invariant(self);
        }
        self.queue[index].pre_prepare_from(sender)
    }

    /// The prepare vote of `sender` that the record at `index` holds, if
    /// any.
    pub fn prepare_from(&self, index: usize, sender: u64) -> (vote: Option<&Prepare>)
        requires
            index < self@.capacity,
        ensures
            vote_view(vote) == self@.queue[index as int].prepare.get(sender),
    {
        proof {
            use_type_invariant(self);
        }
        self.queue[index].prepare_from(sender)
    }

    /// The commit vote of `sender` that the record at `index` holds, if
    /// any.
    pub fn commit_from(&self, index: usize, sender: u64) -> (vote: Option<&Commit>)
        requires
            index < self@.capacity,
        ensures
            vote_view(vote) == self@.queue[index as int].commit.get(sender),
    {
        proof {
            use_type_invariant(self);
        }
        self.queue[index].commit_from(sender)
    }

    /// The view the window is in.
    pub fn current_view(&self) -> (view: u64)
        ensures
            view == self@.view,
    {
        self.view
    }

    /// The low watermark of the window.
    pub fn stable_checkpoint(&self) -> (checkpoint: u64)
        ensures
            checkpoint == self@.stable_checkpoint,
    {
        self.stable_checkpoint
    }

    /// The number of records of the window.
    pub fn capacity(&self) -> (capacity: usize)
        ensures
            self@.wf(),
            capacity == self@.capacity,
    {
        proof {
            use_type_invariant(self);
        }
        self.capacity
    }

    /// Hands `m` to the window on behalf of the replica that `member`
    /// describes.
    ///
    /// The window changes as [`PoolView::after`] says and the answer is the
    /// one that [`PoolView::outcome`] gives: the event to raise, nothing,
    /// or the reason why `m` was refused.
    pub fn add<T: Membership>(&mut self, member: &T, m: Message) -> (result: Result<
        Option<Event>,
        ConsensusError,
    >)
        ensures
            old(self)@.wf(),
            final(self)@.wf(),
            final(self)@ == old(self)@.after(member.leading(), member.identity() as u64, m@),
            outcome_view(result) == old(self)@.outcome(
                member.leading(),
                member.identity() as u64,
                quorum_threshold(member.peer_table().len()),
                m@,
            ),
    {
        proof {
            use_type_invariant(&*self);
        }
        if m.seq <= self.stable_checkpoint || m.seq - self.stable_checkpoint
            >= self.capacity as u64 {
            return Err(ConsensusError::SequenceNotAllowed());
        }
        if m.view != self.view {
            return Err(ConsensusError::ViewNotAllowed());
        }
        let index: usize = self.index_in_queue(m.seq);
        let local_id: u64 = member.local_id() as u64;
        let ghost before = self@.queue[index as int];

        match &m.payload {
            Some(Payload::Request(request)) => {
                if member.is_leader() {
                    let pre_prepare = PrePrepare {
                        payload: request.payload.clone(),
                        signature: Vec::new(),
                    };
                    self.queue[index].record_pre_prepare(local_id, pre_prepare);
                    assert(self@.queue =~= old(self)@.queue.update(
                        index as int,
                        before.record(true, local_id, m@),
                    ));
                    Ok(Some(Event::new_broadcast(local_id, m)))
                } else {
                    assert(self@.queue =~= old(self)@.queue.update(index as int, before));
                    Ok(None)
                }
            },
            Some(Payload::PrePrepare(pre_prepare)) => {
                if !self.is_pre_prepared(index) {
                    self.queue[index].record_pre_prepare(m.id, pre_prepare.clone());
                    assert(self@.queue =~= old(self)@.queue.update(
                        index as int,
                        before.record(member.leading(), local_id, m@),
                    ));
                    Ok(Some(Event::new_broadcast(local_id, m)))
                } else {
                    assert(self@.queue =~= old(self)@.queue.update(index as int, before));
                    Ok(None)
                }
            },
            Some(Payload::Prepare(prepare)) => {
                self.queue[index].record_prepare(m.id, prepare.clone());
                assert(self@.queue =~= old(self)@.queue.update(
                    index as int,
                    before.record(member.leading(), local_id, m@),
                ));
                if self.is_prepared(index, member) {
                    Ok(Some(Event::new_broadcast(local_id, m)))
                } else {
                    Ok(None)
                }
            },
            Some(Payload::Commit(commit)) => {
                self.queue[index].record_commit(m.id, commit.clone());
                assert(self@.queue =~= old(self)@.queue.update(
                    index as int,
                    before.record(member.leading(), local_id, m@),
                ));
                if self.is_commited(index, member) {
                    Ok(Some(Event::new_commit(m)))
                } else {
                    Ok(None)
                }
            },
            None => {
                assert(self@.queue =~= old(self)@.queue.update(index as int, before));
                Err(ConsensusError::NoSuchMessageType())
            },
        }
    }
}

/// The front of the pipeline: it owns the voting window and hands it the
/// messages that come in, one at a time.
#[derive(Debug)]
pub struct RequestHandler {
    message_pool: Pool,
}

impl View for RequestHandler {
    type V = PoolView;

    closed spec fn view(&self) -> PoolView {
        self.message_pool@
    }
}

impl RequestHandler {
    /// A handler whose window has `capacity` records, is in view 1 and
    /// holds no vote.
    pub fn new(capacity: usize) -> (handler: Self)
        ensures
            handler@ == PoolView::initial(capacity as nat),
            handler@.wf(),
    {
        Self { message_pool: Pool::new(capacity) }
    }

    /// The window.
    pub fn pool(&self) -> (pool: &Pool)
        ensures
            pool@ == self@,
            self@.wf(),
    {
        self.message_pool.well_formed();
        &self.message_pool
    }

    /// Hands `message` to the window on behalf of the replica that
    /// `member` describes, and returns the window's answer.
    pub fn handle<T: Membership>(&mut self, member: &T, message: Message) -> (result: Result<
        Option<Event>,
        ConsensusError,
    >)
        ensures
            final(self)@.wf(),
            final(self)@ == old(self)@.after(
                member.leading(),
                member.identity() as u64,
                message@,
            ),
            outcome_view(result) == old(self)@.outcome(
                member.leading(),
                member.identity() as u64,
                quorum_threshold(member.peer_table().len()),
                message@,
            ),
    {
        self.message_pool.add(member, message)
    }
}

/// The place of a sequence number of the window is the place of one of the
/// window's records.
pub proof fn lemma_index_in_queue(pool: PoolView, seq: u64)
    requires
        pool.wf(),
        pool.in_window(seq),
    ensures
        0 <= pool.index_in_queue(seq) < pool.capacity,
{
    vstd::arithmetic::div_mod::lemma_mod_bound(
        seq - pool.stable_checkpoint + pool.start,
        pool.capacity as int,
    );
}

/// An admitted message changes the record of its sequence number, as
/// [`SlotView::record`] says, and no other; the window stays well formed.
pub proof fn lemma_after_admitted(pool: PoolView, leader: bool, local_id: u64, m: MessageView)
    requires
        pool.wf(),
        pool.admits(m.view, m.seq),
    ensures
        pool.after(leader, local_id, m).wf(),
        pool.after(leader, local_id, m).slot(m.seq) == pool.slot(m.seq).record(
            leader,
            local_id,
            m,
        ),
        forall|i: int|
            0 <= i < pool.capacity && i != pool.index_in_queue(m.seq) ==> pool.after(
                leader,
                local_id,
                m,
            ).queue[i] == pool.queue[i],
{
    lemma_index_in_queue(pool, m.seq);
}

/// Admission is decided by the sequence number and the view alone,
/// whatever the message carries: a message is admitted if and only if its
/// sequence number lies above the checkpoint and less than the capacity
/// above it and its view is the window's. A message that is not admitted
/// leaves the window as it is and is answered with the reason; an admitted
/// one is never answered with either of these reasons.
pub proof fn lemma_admission(
    pool: PoolView,
    leader: bool,
    local_id: u64,
    quorum: nat,
    m: MessageView,
)
    ensures
        pool.admits(m.view, m.seq) <==> pool.stable_checkpoint < m.seq < pool.stable_checkpoint
            + pool.capacity && m.view == pool.view,
        !pool.admits(m.view, m.seq) ==> pool.after(leader, local_id, m) == pool,
        !pool.in_window(m.seq) <==> pool.outcome(leader, local_id, quorum, m) == Err::<
            Option<EventView>,
            ConsensusError,
        >(ConsensusError::SequenceNotAllowed()),
        pool.in_window(m.seq) && m.view != pool.view <==> pool.outcome(leader, local_id, quorum, m)
            == Err::<Option<EventView>, ConsensusError>(ConsensusError::ViewNotAllowed()),
{
}

/// The window keeps what it recorded: whatever message it is handed, a
/// vote that a record holds is there, the same, afterwards, and no count
/// of votes goes down.
pub proof fn lemma_window_keeps_votes(
    pool: PoolView,
    leader: bool,
    local_id: u64,
    m: MessageView,
    i: int,
    sender: u64,
)
    requires
        pool.wf(),
        0 <= i < pool.capacity,
        pool.queue[i].finite(),
    ensures
        ({
            let before = pool.queue[i];
            let after = pool.after(leader, local_id, m).queue[i];
            &&& after.finite()
            &&& before.pre_prepare.contains_key(sender) ==> after.pre_prepare.contains_key(sender)
                && after.pre_prepare[sender] == before.pre_prepare[sender]
            &&& before.prepare.contains_key(sender) ==> after.prepare.contains_key(sender)
                && after.prepare[sender] == before.prepare[sender]
            &&& before.commit.contains_key(sender) ==> after.commit.contains_key(sender)
                && after.commit[sender] == before.commit[sender]
            &&& before.is_pre_prepared() ==> after.is_pre_prepared()
            &&& after.counts_prepare() >= before.counts_prepare()
            &&& after.counts_commit() >= before.counts_commit()
        }),
{
    if pool.admits(m.view, m.seq) {
        lemma_after_admitted(pool, leader, local_id, m);
        if i == pool.index_in_queue(m.seq) {
            lemma_votes_stay(pool.queue[i], leader, local_id, m, sender);
        }
    }
}

/// Handing the window the same message twice leaves it as the first time
/// left it: no vote is counted twice.
pub proof fn lemma_add_twice(pool: PoolView, leader: bool, local_id: u64, m: MessageView)
    requires
        pool.wf(),
    ensures
        pool.after(leader, local_id, m).after(leader, local_id, m) == pool.after(
            leader,
            local_id,
            m,
        ),
{
    if pool.admits(m.view, m.seq) {
        lemma_after_admitted(pool, leader, local_id, m);
        let once = pool.after(leader, local_id, m);
        let slot = pool.slot(m.seq);
        assert(once.admits(m.view, m.seq));
        assert(slot.record(leader, local_id, m).record(leader, local_id, m) == slot.record(
            leader,
            local_id,
            m,
        )) by {
            match m.payload {
                Some(PayloadView::PrePrepare(vote)) => {
                    if !slot.is_pre_prepared() {
                        assert(slot.with_pre_prepare(m.id, vote).pre_prepare.contains_key(m.id));
                    }
                },
                _ => {},
            }
        }
        assert(once.after(leader, local_id, m).queue =~= once.queue);
    }
}

/// The number of votes a phase needs among `members` replicas is two
/// thirds of them, rounded down. An admitted prepare vote is sent on as a
/// commit vote exactly when, with it counted, the record holds a proposal
/// and prepare votes of that many senders; an admitted commit vote raises
/// the commit event exactly when, with it counted, the record is prepared
/// and holds commit votes of that many senders.
pub proof fn lemma_phase_transitions(
    pool: PoolView,
    leader: bool,
    local_id: u64,
    members: nat,
    m: MessageView,
)
    requires
        pool.wf(),
        pool.admits(m.view, m.seq),
    ensures
        quorum_threshold(members) == members * 2 / 3,
        m.payload matches Some(PayloadView::Prepare(_)) ==> {
            let slot = pool.after(leader, local_id, m).slot(m.seq);
            let prepared = slot.is_pre_prepared() && slot.counts_prepare() >= quorum_threshold(
                members,
            );
            &&& slot.is_prepared(quorum_threshold(members)) == prepared
            &&& pool.outcome(leader, local_id, quorum_threshold(members), m) == if prepared {
                Ok::<Option<EventView>, ConsensusError>(Some(broadcast_of(local_id, m)))
            } else {
                Ok(None)
            }
        },
        m.payload matches Some(PayloadView::Commit(_)) ==> {
            let slot = pool.after(leader, local_id, m).slot(m.seq);
            let commited = slot.is_prepared(quorum_threshold(members)) && slot.counts_commit()
                >= quorum_threshold(members);
            &&& slot.is_commited(quorum_threshold(members)) == commited
            &&& pool.outcome(leader, local_id, quorum_threshold(members), m) == if commited {
                Ok::<Option<EventView>, ConsensusError>(Some(commit_of(m)))
            } else {
                Ok(None)
            }
        },
{
    lemma_after_admitted(pool, leader, local_id, m);
}

/// The leader records an admitted request as its own proposal: afterwards
/// the record holds, under the leader's id, the request's bytes without a
/// signature, unless it held a proposal under that id before, which then
/// stays; every proposal that the record held keeps its value; and the
/// request is sent on as that proposal, with the leader as its sender. A
/// replica that does not lead records nothing and sends nothing on.
pub proof fn lemma_request_by_leader(
    pool: PoolView,
    leader: bool,
    local_id: u64,
    quorum: nat,
    m: MessageView,
)
    requires
        pool.wf(),
        pool.admits(m.view, m.seq),
        m.payload is Some,
        m.payload->0 is Request,
    ensures
        ({
            let bytes = m.payload->0->Request_0;
            let before = pool.slot(m.seq).pre_prepare;
            let after = pool.after(leader, local_id, m).slot(m.seq).pre_prepare;
            &&& leader ==> {
                &&& after.contains_key(local_id)
                &&& after[local_id] == if before.contains_key(local_id) {
                    before[local_id]
                } else {
                    unsigned_vote(bytes)
                }
                &&& forall|sender: u64|
                    before.contains_key(sender) ==> #[trigger] after.contains_key(sender)
                        && after[sender] == before[sender]
                &&& forall|sender: u64|
                    #[trigger] after.contains_key(sender) ==> before.contains_key(sender) || sender
                        == local_id
                &&& pool.outcome(leader, local_id, quorum, m) == Ok::<
                    Option<EventView>,
                    ConsensusError,
                >(Some(broadcast_of(local_id, m)))
                &&& broadcast_of(local_id, m).msg.id == local_id
                &&& broadcast_of(local_id, m).msg.payload == Some(
                    PayloadView::PrePrepare(unsigned_vote(bytes)),
                )
            }
            &&& !leader ==> {
                &&& after == before
                &&& pool.outcome(leader, local_id, quorum, m) == Ok::<
                    Option<EventView>,
                    ConsensusError,
                >(None)
            }
        }),
{
    lemma_after_admitted(pool, leader, local_id, m);
}

/// A proposal for a sequence number whose record holds one already, of
/// whatever sender, changes nothing and is not sent on.
pub proof fn lemma_pre_prepare_ignored(
    pool: PoolView,
    leader: bool,
    local_id: u64,
    quorum: nat,
    m: MessageView,
)
    requires
        pool.wf(),
        pool.admits(m.view, m.seq),
        pool.slot(m.seq).is_pre_prepared(),
        m.payload is Some,
        m.payload->0 is PrePrepare,
    ensures
        pool.after(leader, local_id, m) == pool,
        pool.outcome(leader, local_id, quorum, m) == Ok::<Option<EventView>, ConsensusError>(None),
{
    lemma_index_in_queue(pool, m.seq);
    assert(pool.after(leader, local_id, m).queue =~= pool.queue);
}

/// The first proposal for a sequence number stays: once the record holds
/// the proposal `first`, a proposal `second` for the same view and
/// sequence number, of whatever sender, changes nothing and is not sent
/// on.
pub proof fn lemma_second_pre_prepare_ignored(
    pool: PoolView,
    leader: bool,
    local_id: u64,
    quorum: nat,
    first: MessageView,
    second: MessageView,
)
    requires
        pool.wf(),
        pool.admits(first.view, first.seq),
        !pool.slot(first.seq).is_pre_prepared(),
        first.payload is Some,
        first.payload->0 is PrePrepare,
        second.payload is Some,
        second.payload->0 is PrePrepare,
        second.view == first.view,
        second.seq == first.seq,
    ensures
        ({
            let once = pool.after(leader, local_id, first);
            &&& once.slot(first.seq).pre_prepare == Map::<u64, Vote>::empty().insert(
                first.id,
                first.payload->0->PrePrepare_0,
            )
            &&& once.after(leader, local_id, second) == once
            &&& once.outcome(leader, local_id, quorum, second) == Ok::<
                Option<EventView>,
                ConsensusError,
            >(None)
        }),
{
    lemma_after_admitted(pool, leader, local_id, first);
    let once = pool.after(leader, local_id, first);
    let slot = pool.slot(first.seq);
    let vote = first.payload->0->PrePrepare_0;
    assert(slot.pre_prepare =~= Map::<u64, Vote>::empty());
    assert(slot.with_pre_prepare(first.id, vote).pre_prepare.contains_key(first.id));
    assert(once.slot(first.seq).is_pre_prepared());
    lemma_pre_prepare_ignored(once, leader, local_id, quorum, second);
}

} // verus!
