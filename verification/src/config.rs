//! The configuration a replica starts from, and the membership it yields.
//!
//! The peers are configured as pairs of the peer's id, written in decimal,
//! and its address.

use std::collections::HashMap;
use vstd::prelude::*;
use vstd::string::*;
use crate::members::{Members, MembersView, addresses};

verus! {

broadcast use vstd::std_specs::hash::group_hash_axioms;

/// The whole configuration.
#[derive(Debug, PartialEq, Eq)]
pub struct Conf {
    pub server: Server,
    pub log: Log,
    pub node: Node,
}

/// Where the replica listens.
#[derive(Debug, PartialEq, Eq)]
pub struct Server {
    pub listen_addr: String,
}

/// How much the replica logs.
#[derive(Debug, PartialEq, Eq)]
pub struct Log {
    pub level: String,
}

/// Who the replica is and whom it knows.
#[derive(Debug, PartialEq, Eq)]
pub struct Node {
    pub id: usize,
    pub is_leader: bool,
    /// The peers: the id of each, in decimal, and its address. A
    /// configuration file writes no id text twice ([`Node::wf`]). Where
    /// two entries still denote the same id, the later one counts.
    pub members: Vec<(String, String)>,
}

/// Whether `c` is one of the digits `0` to `9`.
pub open spec fn is_digit(c: char) -> bool {
    '0' <= c <= '9'
}

/// Whether `digits` holds nothing but digits.
pub open spec fn all_digits(digits: Seq<char>) -> bool {
    forall|i: int| 0 <= i < digits.len() ==> is_digit(#[trigger] digits[i])
}

/// The number that `digits` is the decimal notation of.
pub open spec fn decimal_value(digits: Seq<char>) -> nat
    decreases digits.len(),
{
    if digits.len() == 0 {
        0
    } else {
        decimal_value(digits.drop_last()) * 10 + (digits.last() as u32 - '0' as u32) as nat
    }
}

/// The text without the plus sign that it may begin with.
pub open spec fn unsigned_part(text: Seq<char>) -> Seq<char> {
    if text.len() > 0 && text[0] == '+' {
        text.subrange(1, text.len() as int)
    } else {
        text
    }
}

/// The id that `text` denotes: `text` is one or more digits, with or
/// without a plus sign before them, and their value is an id. Any other
/// text denotes none.
pub open spec fn parsed_id(text: Seq<char>) -> Option<usize> {
    let digits = unsigned_part(text);
    if digits.len() > 0 && all_digits(digits) && decimal_value(digits) <= usize::MAX {
        Some(decimal_value(digits) as usize)
    } else {
        None
    }
}

/// The peer table that `entries` denote, if every id among them can be
/// read.
pub open spec fn peer_table_of(entries: Seq<(String, String)>) -> Option<Map<usize, Seq<char>>>
    decreases entries.len(),
{
    if entries.len() == 0 {
        Some(Map::empty())
    } else {
        match (peer_table_of(entries.drop_last()), parsed_id(entries.last().0@)) {
            (Some(table), Some(id)) => Some(table.insert(id, entries.last().1@)),
            _ => None,
        }
    }
}

/// The value of the first `n` digits is at most the value of all of them.
proof fn lemma_decimal_value_grows(digits: Seq<char>, n: int)
    requires
        0 <= n <= digits.len(),
        all_digits(digits),
    ensures
        decimal_value(digits.take(n)) <= decimal_value(digits),
    decreases digits.len() - n,
{
    if n == digits.len() {
        assert(digits.take(n) =~= digits);
    } else {
        lemma_decimal_value_grows(digits.drop_last(), n);
        assert(digits.drop_last().take(n) =~= digits.take(n));
        assert(is_digit(digits.last()));
    }
}

const PLUS: u8 = 43;

const ZERO: u8 = 48;

const NINE: u8 = 57;

/// Reads an id written in decimal.
pub fn parse_id(text: &str) -> (id: Option<usize>)
    ensures
        id == parsed_id(text@),
{
    let ghost digits = unsigned_part(text@);
    if !text.is_ascii() {
        proof {
            // A character beyond the ASCII range is neither a digit nor the
            // sign, so it is among the digits and is none.
            let i = choose|i: int|
                0 <= i < text@.len() && !('\0' <= #[trigger] text@[i] <= '\u{7f}');
            if text@[0] == '+' {
                assert(digits[i - 1] == text@[i]);
            } else {
                assert(digits[i] == text@[i]);
            }
        }
        return None;
    }
    proof {
        is_ascii_spec_bytes(text);
    }
    let n: usize = text.as_bytes().len();
    let start: usize = if n > 0 && text.get_ascii(0) == PLUS {
        1
    } else {
        0
    };
    if start == n {
        return None;
    }
    let mut value: usize = 0;
    let mut i: usize = start;
    while i < n
        invariant
            start <= i <= n,
            n == text@.len(),
            text.is_ascii(),
            digits == unsigned_part(text@),
            digits.len() == n - start,
            forall|k: int| 0 <= k < digits.len() ==> digits[k] == text@[k + start],
            all_digits(digits.take(i - start)),
            value == decimal_value(digits.take(i - start)),
        decreases n - i,
    {
        let b: u8 = text.get_ascii(i);
        let ghost seen = digits.take(i - start);
        let ghost more = digits.take(i + 1 - start);
        proof {
            assert(more.drop_last() =~= seen);
            assert(more.last() == text@[i as int]);
        }
        if b < ZERO || b > NINE {
            proof {
                assert(!is_digit(digits[i - start]));
            }
            return None;
        }
        let digit: usize = (b - ZERO) as usize;
        let next = match value.checked_mul(10) {
            Some(tens) => tens.checked_add(digit),
            None => None,
        };
        match next {
            Some(next) => {
                value = next;
            },
            None => {
                proof {
                    // The digits read so far are already worth too much.
                    if all_digits(digits) {
                        lemma_decimal_value_grows(digits, i + 1 - start);
                    }
                }
                return None;
            },
        }
        i = i + 1;
    }
    proof {
        assert(digits.take(n - start) =~= digits);
    }
    Some(value)
}

impl Node {
    /// What holds of the peers of every node that was read from a
    /// configuration file: no two of them are written with the same id
    /// text.
    pub open spec fn wf(&self) -> bool {
        forall|i: int, j: int|
            0 <= i < j < self.members@.len() ==> (#[trigger] self.members@[i]).0@
                != (#[trigger] self.members@[j]).0@
    }

    /// Whether no two peers are written with the same id text.
    pub fn has_distinct_keys(&self) -> (distinct: bool)
        ensures
            distinct == self.wf(),
    {
        let n: usize = self.members.len();
        let mut j: usize = 0;
        while j < n
            invariant
                j <= n,
                n == self.members@.len(),
                forall|a: int, b: int|
                    0 <= a < b < j ==> (#[trigger] self.members@[a]).0@
                        != (#[trigger] self.members@[b]).0@,
            decreases n - j,
        {
            let mut i: usize = 0;
            while i < j
                invariant
                    i <= j < n,
                    n == self.members@.len(),
                    forall|a: int|
                        0 <= a < i ==> (#[trigger] self.members@[a]).0@ != self.members@[j as int].0@,
                decreases j - i,
            {
                if self.members[i].0 == self.members[j].0 {
                    return false;
                }
                i = i + 1;
            }
            j = j + 1;
        }
        true
    }

    /// The peer table: the address of each configured peer by its id, or
    /// nothing if one of the ids cannot be read.
    pub fn id_list(&self) -> (list: Option<HashMap<usize, String>>)
        ensures
            match list {
                Some(list) => peer_table_of(self.members@) == Some(addresses(list@)),
                None => peer_table_of(self.members@) is None,
            },
    {
        let mut list: HashMap<usize, String> = HashMap::new();
        let mut i: usize = 0;
        assert(self.members@.take(0) =~= Seq::empty());
        assert(addresses(list@) =~= Map::empty());
        while i < self.members.len()
            invariant
                i <= self.members@.len(),
                peer_table_of(self.members@.take(i as int)) == Some(addresses(list@)),
            decreases self.members@.len() - i,
        {
            let ghost seen = self.members@.take(i as int);
            let ghost more = self.members@.take(i + 1);
            proof {
                assert(more.drop_last() =~= seen);
                assert(more.last() == self.members@[i as int]);
            }
            let entry = &self.members[i];
            match parse_id(entry.0.as_str()) {
                Some(id) => {
                    let ghost before = list@;
                    list.insert(id, entry.1.clone());
                    assert(addresses(list@) =~= addresses(before).insert(id, entry.1@));
                },
                None => {
                    proof {
                        lemma_unreadable_prefix(self.members@, i + 1);
                    }
                    return None;
                },
            }
            i = i + 1;
        }
        assert(self.members@.take(i as int) =~= self.members@);
        Some(list)
    }
}

/// Where the first `n` entries cannot be read, neither can all of them.
proof fn lemma_unreadable_prefix(entries: Seq<(String, String)>, n: int)
    requires
        0 <= n <= entries.len(),
        peer_table_of(entries.take(n)) is None,
    ensures
        peer_table_of(entries) is None,
    decreases entries.len() - n,
{
    if n == entries.len() {
        assert(entries.take(n) =~= entries);
    } else {
        assert(entries.drop_last().take(n) =~= entries.take(n));
        lemma_unreadable_prefix(entries.drop_last(), n);
    }
}

impl Conf {
    /// The membership this configuration describes, or nothing if the id
    /// of one of the peers cannot be read.
    pub fn membership(&self) -> (members: Option<Members>)
        ensures
            match members {
                Some(members) => peer_table_of(self.node.members@) == Some(members@.list)
                    && members@.id == self.node.id && members@.is_leader == self.node.is_leader,
                None => peer_table_of(self.node.members@) is None,
            },
    {
        match self.node.id_list() {
            Some(list) => Some(Members::new(self.node.id, self.node.is_leader, &list)),
            None => None,
        }
    }
}

} // verus!
