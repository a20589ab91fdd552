use pbft::config::{parse_id, Conf, Log, Node, Server};
use pbft::members::Membership;
use std::collections::HashMap;

fn conf(id: usize, is_leader: bool, members: &[(&str, &str)]) -> Conf {
    Conf {
        server: Server { listen_addr: String::from("127.0.0.1:8080") },
        log: Log { level: String::from("info") },
        node: Node {
            id,
            is_leader,
            members: members.iter().map(|(k, v)| (String::from(*k), String::from(*v))).collect(),
        },
    }
}

#[test]
fn id_in_decimal_is_read() {
    assert_eq!(parse_id("0"), Some(0));
    assert_eq!(parse_id("7"), Some(7));
    assert_eq!(parse_id("12"), Some(12));
    assert_eq!(parse_id("4096"), Some(4096));
    assert_eq!(parse_id("007"), Some(7));
    assert_eq!(parse_id("+7"), Some(7));
    assert_eq!(parse_id("+0"), Some(0));
}

#[test]
fn largest_id_is_read_and_next_is_not() {
    let largest = usize::MAX.to_string();
    assert_eq!(parse_id(&largest), Some(usize::MAX));
    assert_eq!(parse_id(&format!("000{}", largest)), Some(usize::MAX));
    assert_eq!(parse_id(&format!("{}0", largest)), None);
    assert_eq!(parse_id("340282366920938463463374607431768211456"), None);
    let mut next = largest.into_bytes();
    let last = next.len() - 1;
    next[last] += 1;
    assert_eq!(parse_id(&String::from_utf8(next).unwrap()), None);
}

#[test]
fn text_that_is_no_id_is_not_read() {
    for text in ["", "+", "-", "-1", "++1", "+-1", " 1", "1 ", "1a", "a", "1_000", "0x10", "1.0", "１", "1é"] {
        assert_eq!(parse_id(text), None);
    }
}

#[test]
fn ids_are_read_as_the_standard_library_reads_them() {
    let texts = [
        "", "+", "-", "0", "00", "+00", "9", "10", "+10", "-10", "18446744073709551615",
        "18446744073709551616", "99999999999999999999", "4294967295", "4294967296", "12x", "x12",
        "1 2", "\u{661}", "+", "+ 1",
    ];
    for text in texts {
        assert_eq!(parse_id(text), text.parse::<usize>().ok());
    }
}

#[test]
fn peer_table_is_read_from_entries() {
    let conf = conf(1, false, &[("0", "a"), ("1", "b"), ("2", "c")]);
    let mut expected = HashMap::new();
    expected.insert(0usize, String::from("a"));
    expected.insert(1usize, String::from("b"));
    expected.insert(2usize, String::from("c"));
    assert_eq!(conf.node.id_list(), Some(expected));
}

#[test]
fn later_entry_for_same_id_counts() {
    let conf = conf(1, false, &[("1", "a"), ("+1", "b"), ("01", "c")]);
    let mut expected = HashMap::new();
    expected.insert(1usize, String::from("c"));
    assert_eq!(conf.node.id_list(), Some(expected));
}

#[test]
fn distinct_id_texts_are_recognised() {
    assert!(conf(1, false, &[]).node.has_distinct_keys());
    assert!(conf(1, false, &[("0", "a")]).node.has_distinct_keys());
    assert!(conf(1, false, &[("0", "a"), ("1", "a"), ("2", "a")]).node.has_distinct_keys());
    assert!(conf(1, false, &[("1", "a"), ("+1", "b"), ("01", "c")]).node.has_distinct_keys());
    assert!(!conf(1, false, &[("1", "a"), ("1", "b")]).node.has_distinct_keys());
    assert!(!conf(1, false, &[("0", "a"), ("1", "b"), ("0", "a")]).node.has_distinct_keys());
    assert!(!conf(1, false, &[("0", "a"), ("x", "b"), ("2", "c"), ("x", "d")]).node.has_distinct_keys());
}

#[test]
fn peer_table_without_entries_is_empty() {
    assert_eq!(conf(1, false, &[]).node.id_list(), Some(HashMap::new()));
}

#[test]
fn unreadable_id_gives_no_peer_table() {
    assert_eq!(conf(1, false, &[("0", "a"), ("one", "b")]).node.id_list(), None);
    assert_eq!(conf(1, false, &[("", "a"), ("1", "b")]).node.id_list(), None);
    assert!(conf(1, false, &[("0", "a"), ("one", "b")]).membership().is_none());
}

#[test]
fn membership_comes_from_configuration() {
    let me = conf(2, true, &[("0", "a"), ("2", "c")]).membership().unwrap();
    assert_eq!(me.local_id(), 2);
    assert!(me.is_leader());
    let mut expected = HashMap::new();
    expected.insert(0usize, String::from("a"));
    expected.insert(2usize, String::from("c"));
    assert_eq!(me.members(), expected);
    let other = conf(0, false, &[]).membership().unwrap();
    assert_eq!(other.local_id(), 0);
    assert!(!other.is_leader());
    assert_eq!(other.members(), HashMap::new());
}
