//! Whom a broadcast goes to.

use std::collections::HashMap;
use vstd::prelude::*;
use vstd::std_specs::iter::IteratorSpec;
use crate::members::addresses;

verus! {

broadcast use vstd::std_specs::hash::group_hash_axioms;

/// The ids of a list of peers, in the order of the list.
pub open spec fn ids(peers: Seq<(usize, String)>) -> Seq<usize> {
    peers.map_values(|peer: (usize, String)| peer.0)
}

/// The key of entry `j` of a walk over the table.
spec fn key_at(entries: Seq<(&usize, &String)>, j: int) -> usize {
    *entries[j].0
}

/// Whether `id` is the key of one of the first `upto` entries of a walk.
spec fn seen(entries: Seq<(&usize, &String)>, upto: int, id: usize) -> bool {
    exists|j: int| 0 <= j < upto && #[trigger] key_at(entries, j) == id
}

/// Two entries of a walk never share a key: they would share the value
/// too, and the walk visits no entry twice.
proof fn lemma_keys_differ(list: Map<usize, String>, entries: Seq<(&usize, &String)>, a: int, b: int)
    requires
        entries.no_duplicates(),
        forall|j: int|
            0 <= j < entries.len() ==> list[#[trigger] key_at(entries, j)] == *entries[j].1,
        0 <= a < entries.len(),
        0 <= b < entries.len(),
        a != b,
    ensures
        key_at(entries, a) != key_at(entries, b),
{
    if key_at(entries, a) == key_at(entries, b) {
        assert(*entries[a].1 == *entries[b].1);
        assert(entries[a] == entries[b]);
    }
}

/// Whether `peers` lists the replicas that a broadcast of replica `local`
/// goes to when the peer table is `table`: every id of the table but
/// `local`, each once and with its address, in any order.
pub open spec fn reaches_all_others(
    peers: Seq<(usize, String)>,
    local: usize,
    table: Map<usize, Seq<char>>,
) -> bool {
    &&& ids(peers).no_duplicates()
    &&& ids(peers).to_set() == table.dom().remove(local)
    &&& forall|i: int| 0 <= i < peers.len() ==> (#[trigger] peers[i]).1@ == table[peers[i].0]
}

/// The peers that a broadcast of replica `local` goes to: each entry of
/// `list` but the one of `local` itself, once, in no particular order.
pub fn recipients(local: usize, list: &HashMap<usize, String>) -> (peers: Vec<(usize, String)>)
    ensures
        reaches_all_others(peers@, local, addresses(list@)),
{
    let mut peers: Vec<(usize, String)> = Vec::new();
    for entry in it: list.iter()
        invariant
            it.seq() == list.iter().remaining(),
            it.seq().no_duplicates(),
            forall|i: int|
                0 <= i < peers@.len() ==> {
                    &&& seen(it.seq(), it.index(), (#[trigger] peers@[i]).0)
                    &&& peers@[i].0 != local
                    &&& peers@[i].1@ == list@[peers@[i].0]@
                },
            forall|j: int|
                0 <= j < it.index() && #[trigger] key_at(it.seq(), j) != local ==> exists|i: int|
                    0 <= i < peers@.len() && (#[trigger] peers@[i]).0 == key_at(it.seq(), j),
            forall|i: int, k: int|
                0 <= i < k < peers@.len() ==> (#[trigger] peers@[i]).0 != (#[trigger] peers@[k]).0,
    {
        let (id, addr) = entry;
        let ghost here = it.index();
        let ghost before = peers@;
        assert(key_at(it.seq(), here) == *id);
        if *id != local {
            proof {
                // The id is new to the list: all that is listed came from
                // earlier entries.
                assert forall|i: int| 0 <= i < before.len() implies (#[trigger] before[i]).0
                    != *id by {
                    assert(seen(it.seq(), here, before[i].0));
                    let j = choose|j: int|
                        0 <= j < here && #[trigger] key_at(it.seq(), j) == before[i].0;
                    lemma_keys_differ(list@, it.seq(), j, here);
                }
            }
            peers.push((*id, addr.clone()));
            assert(peers@[before.len() as int].0 == key_at(it.seq(), here));
            assert forall|j: int|
                0 <= j <= here && #[trigger] key_at(it.seq(), j) != local implies exists|i: int|
                0 <= i < peers@.len() && (#[trigger] peers@[i]).0 == key_at(it.seq(), j) by {
                if j < here {
                    let i = choose|i: int|
                        0 <= i < before.len() && (#[trigger] before[i]).0 == key_at(it.seq(), j);
                    assert(peers@[i].0 == key_at(it.seq(), j));
                } else {
                    assert(peers@[before.len() as int].0 == key_at(it.seq(), j));
                }
            }
        }
    }
    proof {
        // The walk has visited every entry of the table.
        let entries = list.iter().remaining();
        assert forall|i: int, k: int| 0 <= i < k < ids(peers@).len() implies ids(peers@)[i] != ids(
            peers@,
        )[k] by {
            assert(peers@[i].0 != peers@[k].0);
        }
        assert forall|id: usize| ids(peers@).to_set().contains(id) <==> list@.dom().remove(
            local,
        ).contains(id) by {
            if ids(peers@).to_set().contains(id) {
                let i = choose|i: int| 0 <= i < ids(peers@).len() && ids(peers@)[i] == id;
                assert(peers@[i].0 == id);
                assert(seen(entries, entries.len() as int, peers@[i].0));
            }
            if list@.dom().remove(local).contains(id) {
                assert(list@.contains_key(id));
                assert(entries.contains((&id, &list@[id])));
                let j = choose|j: int| 0 <= j < entries.len() && entries[j] == (&id, &list@[id]);
                assert(key_at(entries, j) == id);
                let i = choose|i: int| 0 <= i < peers@.len() && (#[trigger] peers@[i]).0 == id;
                assert(ids(peers@)[i] == id);
            }
        }
        assert(addresses(list@).dom() =~= list@.dom());
        assert(ids(peers@).to_set() =~= addresses(list@).dom().remove(local));
    }
    peers
}

} // verus!
