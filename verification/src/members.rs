//! Membership: who this replica is, whether it leads, and who its peers are.

use std::collections::HashMap;
use vstd::prelude::*;

verus! {

broadcast use vstd::std_specs::hash::group_hash_axioms;

/// The peer table as a map from a peer's id to the characters of its
/// address.
pub open spec fn addresses(list: Map<usize, String>) -> Map<usize, Seq<char>> {
    list.map_values(|addr: String| addr@)
}

/// What the voting window and the event pipeline need to know of the set
/// of replicas.
///
/// Leadership can be taken and never given up. The peer table changes by
/// adding a peer that is absent and by removing one that is present.
pub trait Membership {
    /// Whether this replica is the leader.
    spec fn leading(&self) -> bool;

    /// The id of this replica.
    spec fn identity(&self) -> usize;

    /// The peer table: the address of each known replica, by id.
    spec fn peer_table(&self) -> Map<usize, Seq<char>>;

    /// Whether this replica is the leader now.
    fn is_leader(&self) -> (leader: bool)
        ensures
            leader == self.leading(),
    ;

    /// Makes this replica the leader; where it already is, nothing changes.
    fn become_leader(&mut self)
        ensures
            final(self).leading(),
            final(self).identity() == old(self).identity(),
            final(self).peer_table() == old(self).peer_table(),
    ;

    /// The id of this replica.
    fn local_id(&self) -> (id: usize)
        ensures
            id == self.identity(),
    ;

    /// A copy of the whole peer table as it is now.
    fn members(&self) -> (list: HashMap<usize, String>)
        ensures
            addresses(list@) == self.peer_table(),
    ;

    /// Adds peer `id` at `addr` unless the table already has an entry for
    /// `id`, which then stays as it is.
    fn add_node(&mut self, id: usize, addr: String)
        ensures
            final(self).peer_table() == if old(self).peer_table().contains_key(id) {
                old(self).peer_table()
            } else {
                old(self).peer_table().insert(id, addr@)
            },
            final(self).leading() == old(self).leading(),
            final(self).identity() == old(self).identity(),
    ;

    /// Removes peer `id` if the table has it.
    fn delete_node(&mut self, id: usize)
        ensures
            final(self).peer_table() == old(self).peer_table().remove(id),
            final(self).leading() == old(self).leading(),
            final(self).identity() == old(self).identity(),
    ;
}

/// The membership of one replica, held in memory.
#[derive(Debug)]
pub struct Members {
    id: usize,
    is_leader: bool,
    list: HashMap<usize, String>,
}

/// The view of [`Members`].
pub struct MembersView {
    pub id: usize,
    pub is_leader: bool,
    pub list: Map<usize, Seq<char>>,
}

impl MembersView {
    /// The membership after leadership was taken.
    pub open spec fn become_leader(self) -> MembersView {
        MembersView { is_leader: true, ..self }
    }

    /// The membership after an attempt to add peer `id` at `addr`.
    pub open spec fn add_node(self, id: usize, addr: Seq<char>) -> MembersView {
        if self.list.contains_key(id) {
            self
        } else {
            MembersView { list: self.list.insert(id, addr), ..self }
        }
    }

    /// The membership after peer `id` was removed.
    pub open spec fn delete_node(self, id: usize) -> MembersView {
        MembersView { list: self.list.remove(id), ..self }
    }
}

impl View for Members {
    type V = MembersView;

    closed spec fn view(&self) -> MembersView {
        MembersView { id: self.id, is_leader: self.is_leader, list: addresses(self.list@) }
    }
}

impl Members {
    /// The membership of replica `id` with a copy of `list` as its peer
    /// table.
    pub fn new(id: usize, is_leader: bool, list: &HashMap<usize, String>) -> (members: Self)
        ensures
            members@ == (MembersView { id, is_leader, list: addresses(list@) }),
    {
        Self { id, is_leader, list: list.clone() }
    }
}

impl Membership for Members {
    open spec fn leading(&self) -> bool {
        self@.is_leader
    }

    open spec fn identity(&self) -> usize {
        self@.id
    }

    open spec fn peer_table(&self) -> Map<usize, Seq<char>> {
        self@.list
    }

    fn is_leader(&self) -> (leader: bool) {
        self.is_leader
    }

    fn become_leader(&mut self)
        ensures
            final(self)@ == old(self)@.become_leader(),
    {
        if !self.is_leader {
            self.is_leader = true;
        }
    }

    fn local_id(&self) -> (id: usize) {
        self.id
    }

    fn members(&self) -> (list: HashMap<usize, String>) {
        self.list.clone()
    }

    fn add_node(&mut self, id: usize, addr: String)
        ensures
            final(self)@ == old(self)@.add_node(id, addr@),
    {
        if !self.list.contains_key(&id) {
            self.list.insert(id, addr);
            assert(addresses(self.list@) =~= addresses(old(self).list@).insert(id, addr@));
        }
    }

    fn delete_node(&mut self, id: usize)
        ensures
            final(self)@ == old(self)@.delete_node(id),
    {
        if self.list.contains_key(&id) {
            self.list.remove(&id);
        }
        assert(addresses(self.list@) =~= addresses(old(self).list@).remove(id));
    }
}

/// Taking leadership from the state without it gives leadership, and taking
/// it again changes nothing.
pub proof fn lemma_become_leader_twice(m: MembersView)
    requires
        !m.is_leader,
    ensures
        m.become_leader().is_leader,
        m.become_leader().become_leader() == m.become_leader(),
{
}

} // verus!
