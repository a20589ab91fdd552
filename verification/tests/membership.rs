use pbft::error::ConsensusError;
use pbft::members::{Members, Membership};
use pbft::server::{acknowledge, CHANNEL_CAPACITY, DROP_WHEN_BUSY, WINDOW_CAPACITY};
use std::collections::HashMap;

fn two_peers() -> HashMap<usize, String> {
    let mut list = HashMap::new();
    list.insert(0, String::from("a"));
    list.insert(1, String::from("b"));
    list
}

#[test]
fn become_leader_twice() {
    let mut me = Members::new(0, false, &two_peers());
    assert!(!me.is_leader());
    me.become_leader();
    assert!(me.is_leader());
    me.become_leader();
    assert!(me.is_leader());
    assert_eq!(me.local_id(), 0);
    assert_eq!(me.members(), two_peers());
}

#[test]
fn leader_stays_leader() {
    let mut me = Members::new(3, true, &two_peers());
    assert!(me.is_leader());
    me.become_leader();
    assert!(me.is_leader());
    assert_eq!(me.local_id(), 3);
}

#[test]
fn members_is_a_copy() {
    let source = two_peers();
    let mut me = Members::new(0, false, &source);
    let mut snapshot = me.members();
    assert_eq!(snapshot, source);
    snapshot.insert(7, String::from("x"));
    assert_eq!(me.members(), source);
    me.add_node(8, String::from("y"));
    assert_eq!(source.len(), 2);
    assert_eq!(snapshot.len(), 3);
    assert_eq!(me.members().len(), 3);
}

#[test]
fn add_node_adds_absent_peer() {
    let mut me = Members::new(0, false, &two_peers());
    me.add_node(2, String::from("c"));
    let mut expected = two_peers();
    expected.insert(2, String::from("c"));
    assert_eq!(me.members(), expected);
}

#[test]
fn add_node_keeps_present_peer() {
    let mut me = Members::new(0, false, &two_peers());
    me.add_node(1, String::from("other"));
    assert_eq!(me.members(), two_peers());
}

#[test]
fn delete_node_removes_present_peer() {
    let mut me = Members::new(0, false, &two_peers());
    me.delete_node(1);
    let mut expected = HashMap::new();
    expected.insert(0, String::from("a"));
    assert_eq!(me.members(), expected);
    me.delete_node(0);
    assert_eq!(me.members(), HashMap::new());
}

#[test]
fn delete_node_ignores_absent_peer() {
    let mut me = Members::new(0, false, &two_peers());
    me.delete_node(5);
    assert_eq!(me.members(), two_peers());
    assert!(!me.is_leader());
    assert_eq!(me.local_id(), 0);
}

#[test]
fn error_texts() {
    assert_eq!(ConsensusError::SequenceNotAllowed().to_string(), "seq is not allowed");
    assert_eq!(ConsensusError::ViewNotAllowed().to_string(), "view is not allowed");
    assert_eq!(ConsensusError::MutexError().to_string(), "mutex lock err");
    assert_eq!(ConsensusError::NoSuchMessageType().to_string(), "no such message type");
    assert_eq!(
        ConsensusError::SerdeJsonError(String::from("eof")).to_string(),
        "serde_json err: eof"
    );
    assert_eq!(ConsensusError::RPCError(String::from("gone")).to_string(), "status is :gone");
    assert_eq!(
        ConsensusError::TransportError(String::from("refused")).to_string(),
        "tonic transport err is :refused"
    );
    assert_eq!(
        ConsensusError::ParseAddrError(String::from("bad")).to_string(),
        "parse addr err is :bad"
    );
}

#[test]
fn acknowledgment_is_success_when_taken() {
    assert_eq!(acknowledge(&Ok(())).message, "success");
}

#[test]
fn acknowledgment_is_error_text_otherwise() {
    assert_eq!(acknowledge(&Err(ConsensusError::MutexError())).message, "mutex lock err");
    assert_eq!(
        acknowledge(&Err(ConsensusError::RPCError(String::from("down")))).message,
        "status is :down"
    );
}

#[test]
fn pipeline_sizes() {
    assert_eq!(CHANNEL_CAPACITY, 1024);
    assert_eq!(WINDOW_CAPACITY, 10);
    assert!(DROP_WHEN_BUSY);
}
