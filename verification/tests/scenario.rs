use pbft::event::{Effect, Event, EventHandler, EventType};
use pbft::members::Members;
use pbft::message::{Commit, Message, Payload, PrePrepare, Prepare, Request};
use pbft::pool::RequestHandler;
use std::collections::HashMap;

struct Replica {
    members: Members,
    requests: RequestHandler,
    events: EventHandler,
}

fn replicas() -> Vec<Replica> {
    let mut list = HashMap::new();
    for id in 0..4usize {
        list.insert(id, format!("http://127.0.0.1:{}", 8080 + id));
    }
    (0..4usize)
        .map(|id| Replica {
            members: Members::new(id, id == 0, &list),
            requests: RequestHandler::new(10),
            events: EventHandler::new(),
        })
        .collect()
}

fn deliver(replica: &mut Replica, m: Message) -> Option<Event> {
    replica.requests.handle(&replica.members, m).unwrap()
}

fn sends(replica: &mut Replica, event: Event) -> (Vec<usize>, Message) {
    match replica.events.handle(&replica.members, event) {
        Effect::Send { peers, msg } => {
            let mut ids: Vec<usize> = peers.into_iter().map(|(id, _)| id).collect();
            ids.sort();
            (ids, msg)
        }
        other => panic!("{:?}", other),
    }
}

#[test]
fn four_replicas_commit_first_request() {
    let mut nodes = replicas();
    let op = vec![42u8];
    let request = Message {
        view: 1,
        seq: 1,
        id: 0,
        digest: String::new(),
        payload: Some(Payload::Request(Request { payload: op.clone() })),
    };

    let raised = deliver(&mut nodes[0], request).unwrap();
    assert_eq!(raised.event_type, EventType::Broadcast);
    assert!(nodes[0].requests.pool().is_pre_prepared(1));
    let (to, proposal) = sends(&mut nodes[0], raised);
    assert_eq!(to, vec![1, 2, 3]);
    assert_eq!(
        proposal,
        Message {
            view: 1,
            seq: 1,
            id: 0,
            digest: String::new(),
            payload: Some(Payload::PrePrepare(PrePrepare { payload: op.clone(), signature: vec![] })),
        }
    );

    let mut prepares = Vec::new();
    for id in 1..4usize {
        let raised = deliver(&mut nodes[id], proposal.clone()).unwrap();
        assert_eq!(raised.event_type, EventType::Broadcast);
        let (to, vote) = sends(&mut nodes[id], raised);
        let others: Vec<usize> = (0..4).filter(|other| *other != id).collect();
        assert_eq!(to, others);
        assert_eq!(
            vote,
            Message {
                view: 1,
                seq: 1,
                id: id as u64,
                digest: String::new(),
                payload: Some(Payload::Prepare(Prepare { payload: op.clone(), signature: vec![] })),
            }
        );
        prepares.push((id, to, vote));
    }

    let mut commits = Vec::new();
    for (from, to, vote) in prepares {
        for id in to {
            let before = nodes[id].requests.pool().counts_prepare(1);
            let raised = deliver(&mut nodes[id], vote.clone());
            let after = nodes[id].requests.pool().counts_prepare(1);
            assert_eq!(after, before + 1);
            assert_eq!(raised.is_some(), after >= 2);
            if let Some(event) = raised {
                assert_eq!(event.event_type, EventType::Broadcast);
                let (to, vote) = sends(&mut nodes[id], event);
                assert_eq!(
                    vote,
                    Message {
                        view: 1,
                        seq: 1,
                        id: id as u64,
                        digest: String::new(),
                        payload: Some(Payload::Commit(Commit {
                            payload: op.clone(),
                            signature: vec![]
                        })),
                    }
                );
                commits.push((id, to, vote));
            }
        }
        assert_ne!(from, 0);
    }
    for id in 0..4 {
        assert!(nodes[id].requests.pool().is_prepared(1, &nodes[id].members));
    }

    let mut commited = [0usize; 4];
    for (_from, to, vote) in commits {
        for id in to {
            let raised = deliver(&mut nodes[id], vote.clone());
            let votes = nodes[id].requests.pool().counts_commit(1);
            assert_eq!(raised.is_some(), votes >= 2);
            if let Some(event) = raised {
                assert_eq!(event.event_type, EventType::Commit);
                assert_eq!(event.msg, vote);
                let node = &mut nodes[id];
                let cursor = node.events.commited_seq();
                match node.events.handle(&node.members, event) {
                    Effect::Commited { view, seq } => {
                        assert_eq!(cursor, 0);
                        assert_eq!((view, seq), (1, 1));
                        commited[id] += 1;
                    }
                    Effect::Wait { seq, commited_seq, .. } => {
                        assert_eq!(cursor, 1);
                        assert_eq!((seq, commited_seq), (1, 1));
                    }
                    other => panic!("{:?}", other),
                }
            }
        }
    }
    for id in 0..4 {
        assert_eq!(commited[id], 1);
        assert_eq!(nodes[id].events.commited_seq(), 1);
        assert!(nodes[id].requests.pool().is_commited(1, &nodes[id].members));
    }
}
