use pbft::client::recipients;
use pbft::event::{Effect, Event, EventHandler, EventType};
use pbft::members::Members;
use pbft::message::{Commit, Message, Payload, PrePrepare, Prepare, Request};
use std::collections::HashMap;

fn peers(n: usize) -> HashMap<usize, String> {
    let mut list = HashMap::new();
    for id in 0..n {
        list.insert(id, format!("http://127.0.0.1:{}", 8080 + id));
    }
    list
}

fn carrying(view: u64, seq: u64, id: u64, digest: &str, payload: Option<Payload>) -> Message {
    Message { view, seq, id, digest: String::from(digest), payload }
}

fn commit_event(view: u64, seq: u64) -> Event {
    Event::new_commit(carrying(
        view,
        seq,
        2,
        "",
        Some(Payload::Commit(Commit { payload: vec![1], signature: vec![] })),
    ))
}

#[test]
fn broadcast_of_request_carries_proposal() {
    let m = carrying(3, 7, 9, "d", Some(Payload::Request(Request { payload: vec![1, 2, 3] })));
    let event = Event::new_broadcast(4, m);
    assert_eq!(event.event_type, EventType::Broadcast);
    assert_eq!(
        event.msg,
        carrying(
            3,
            7,
            4,
            "",
            Some(Payload::PrePrepare(PrePrepare { payload: vec![1, 2, 3], signature: vec![] }))
        )
    );
}

#[test]
fn broadcast_of_proposal_carries_prepare_without_signature() {
    let m = carrying(
        3,
        7,
        9,
        "d",
        Some(Payload::PrePrepare(PrePrepare { payload: vec![1, 2, 3], signature: vec![8, 8] })),
    );
    let event = Event::new_broadcast(4, m);
    assert_eq!(event.event_type, EventType::Broadcast);
    assert_eq!(
        event.msg,
        carrying(
            3,
            7,
            4,
            "",
            Some(Payload::Prepare(Prepare { payload: vec![1, 2, 3], signature: vec![] }))
        )
    );
}

#[test]
fn broadcast_of_prepare_carries_commit_without_signature() {
    let m = carrying(
        3,
        7,
        9,
        "d",
        Some(Payload::Prepare(Prepare { payload: vec![1, 2, 3], signature: vec![8, 8] })),
    );
    let event = Event::new_broadcast(4, m);
    assert_eq!(event.event_type, EventType::Broadcast);
    assert_eq!(
        event.msg,
        carrying(
            3,
            7,
            4,
            "",
            Some(Payload::Commit(Commit { payload: vec![1, 2, 3], signature: vec![] }))
        )
    );
}

#[test]
fn broadcast_of_commit_carries_no_payload() {
    let m = carrying(
        3,
        7,
        9,
        "d",
        Some(Payload::Commit(Commit { payload: vec![1, 2, 3], signature: vec![8, 8] })),
    );
    let event = Event::new_broadcast(4, m);
    assert_eq!(event.event_type, EventType::Broadcast);
    assert_eq!(event.msg, carrying(3, 7, 4, "", None));
}

#[test]
fn broadcast_of_nothing_carries_no_payload() {
    let event = Event::new_broadcast(4, carrying(3, 7, 9, "d", None));
    assert_eq!(event.msg, carrying(3, 7, 4, "", None));
}

#[test]
fn commit_event_keeps_message() {
    let m = carrying(
        3,
        7,
        9,
        "d",
        Some(Payload::Commit(Commit { payload: vec![1, 2, 3], signature: vec![8] })),
    );
    let event = Event::new_commit(m.clone());
    assert_eq!(event.event_type, EventType::Commit);
    assert_eq!(event.msg, m);
}

#[test]
fn clone_of_message_equals_it() {
    let kinds = [
        Some(Payload::Request(Request { payload: vec![1] })),
        Some(Payload::PrePrepare(PrePrepare { payload: vec![2], signature: vec![3] })),
        Some(Payload::Prepare(Prepare { payload: vec![4], signature: vec![5] })),
        Some(Payload::Commit(Commit { payload: vec![6], signature: vec![7] })),
        None,
    ];
    for payload in kinds {
        let m = carrying(1, 2, 3, "digest", payload);
        assert_eq!(m.clone(), m);
    }
}

#[test]
fn cursor_starts_at_zero() {
    assert_eq!(EventHandler::new().commited_seq(), 0);
}

#[test]
fn commit_of_next_sequence_moves_cursor_by_one() {
    let me = Members::new(0, false, &peers(4));
    let mut handler = EventHandler::new();
    match handler.handle(&me, commit_event(1, 1)) {
        Effect::Commited { view, seq } => {
            assert_eq!(view, 1);
            assert_eq!(seq, 1);
        }
        other => panic!("{:?}", other),
    }
    assert_eq!(handler.commited_seq(), 1);
    match handler.handle(&me, commit_event(1, 2)) {
        Effect::Commited { view, seq } => {
            assert_eq!(view, 1);
            assert_eq!(seq, 2);
        }
        other => panic!("{:?}", other),
    }
    assert_eq!(handler.commited_seq(), 2);
}

#[test]
fn commit_out_of_order_leaves_cursor() {
    let me = Members::new(0, false, &peers(4));
    let mut handler = EventHandler::new();
    for seq in [0u64, 2, 3, u64::MAX] {
        match handler.handle(&me, commit_event(1, seq)) {
            Effect::Wait { view, seq: dropped, commited_seq } => {
                assert_eq!(view, 1);
                assert_eq!(dropped, seq);
                assert_eq!(commited_seq, 0);
            }
            other => panic!("{:?}", other),
        }
        assert_eq!(handler.commited_seq(), 0);
    }
    handler.handle(&me, commit_event(1, 1));
    assert_eq!(handler.commited_seq(), 1);
    match handler.handle(&me, commit_event(1, 1)) {
        Effect::Wait { seq, commited_seq, .. } => {
            assert_eq!(seq, 1);
            assert_eq!(commited_seq, 1);
        }
        other => panic!("{:?}", other),
    }
    assert_eq!(handler.commited_seq(), 1);
}

#[test]
fn dropped_commit_is_not_kept_for_later() {
    let me = Members::new(0, false, &peers(4));
    let mut handler = EventHandler::new();
    handler.handle(&me, commit_event(1, 2));
    handler.handle(&me, commit_event(1, 1));
    assert_eq!(handler.commited_seq(), 1);
}

#[test]
fn commited_event_does_nothing() {
    let me = Members::new(0, false, &peers(4));
    let mut handler = EventHandler::new();
    let event = Event { msg: carrying(1, 1, 0, "", None), event_type: EventType::Commited };
    assert!(matches!(handler.handle(&me, event), Effect::Nothing));
    assert_eq!(handler.commited_seq(), 0);
}

#[test]
fn broadcast_goes_to_every_peer_but_oneself() {
    let me = Members::new(2, false, &peers(4));
    let mut handler = EventHandler::new();
    let m = carrying(1, 1, 0, "", Some(Payload::Request(Request { payload: vec![7] })));
    let event = Event::new_broadcast(2, m);
    let expected = carrying(
        1,
        1,
        2,
        "",
        Some(Payload::PrePrepare(PrePrepare { payload: vec![7], signature: vec![] })),
    );
    match handler.handle(&me, event) {
        Effect::Send { mut peers, msg } => {
            peers.sort();
            assert_eq!(
                peers,
                vec![
                    (0, String::from("http://127.0.0.1:8080")),
                    (1, String::from("http://127.0.0.1:8081")),
                    (3, String::from("http://127.0.0.1:8083")),
                ]
            );
            assert_eq!(msg, expected);
        }
        other => panic!("{:?}", other),
    }
    assert_eq!(handler.commited_seq(), 0);
}

#[test]
fn recipients_leave_out_local_replica() {
    let mut found = recipients(0, &peers(3));
    found.sort();
    assert_eq!(
        found,
        vec![(1, String::from("http://127.0.0.1:8081")), (2, String::from("http://127.0.0.1:8082"))]
    );
}

#[test]
fn recipients_of_stranger_are_all_peers() {
    let mut found = recipients(9, &peers(2));
    found.sort();
    assert_eq!(
        found,
        vec![(0, String::from("http://127.0.0.1:8080")), (1, String::from("http://127.0.0.1:8081"))]
    );
}

#[test]
fn recipients_of_lonely_replica_are_none() {
    assert_eq!(recipients(0, &peers(1)), vec![]);
    assert_eq!(recipients(0, &peers(0)), vec![]);
}
