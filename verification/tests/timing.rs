//! How long a node waits, and what the end of a wait brings.

use almost_raft::election::{
    get_current_timeout, raft_election, unsigned_subtract, Action, ElectionRun, Event,
    RaftElectionState,
};
use almost_raft::{Message, Node, NodeState};

struct Peer {
    id: String,
}

impl Node for Peer {
    type NodeIdType = String;
    type NodeType = Peer;

    fn node_id(&self) -> &String {
        &self.id
    }
}

fn run(peers: usize) -> ElectionRun<Peer> {
    let peers = (0..peers)
        .map(|i| Peer {
            id: format!("peer-{}", i),
        })
        .collect();
    ElectionRun::new(RaftElectionState::init_fixed_timeout(
        "self".to_string(),
        5000,
        1000,
        20,
        peers,
        0,
    ))
}

fn leader(peers: usize) -> ElectionRun<Peer> {
    let mut run = run(peers);
    raft_election(&mut run, Event::TimedOut);
    while run.state().node_state() == NodeState::Candidate {
        let term = run.state().term();
        turn(&mut run, Message::RequestVoteResponse { term, vote: true }, 0);
    }
    run
}

/// A turn in which a message comes after `elapsed`.
fn turn(run: &mut ElectionRun<Peer>, message: Message<Peer>, elapsed: u64) {
    raft_election(run, Event::Woken { elapsed });
    raft_election(run, Event::Received(Some(message)));
    raft_election(run, Event::Handled { elapsed });
}

fn heartbeat(term: usize) -> Message<Peer> {
    Message::HeartBeat {
        leader_node_id: "peer-0".to_string(),
        term,
    }
}

fn answer() -> Message<Peer> {
    Message::RequestVoteResponse {
        term: 0,
        vote: false,
    }
}

#[test]
fn a_subtraction_stops_at_zero() {
    assert_eq!(unsigned_subtract(7u64, 3u64), 4);
    assert_eq!(unsigned_subtract(3u64, 3u64), 0);
    assert_eq!(unsigned_subtract(3u64, 7u64), 0);
    assert_eq!(unsigned_subtract(u64::MAX, 0), u64::MAX);
    assert_eq!(unsigned_subtract(0, u64::MAX), 0);
    assert_eq!(unsigned_subtract(1u128 << 70, 1), (1u128 << 70) - 1);
    assert_eq!(unsigned_subtract(1, 1u128 << 70), 0);
}

#[test]
fn a_leader_waits_for_its_heartbeats() {
    assert_eq!(get_current_timeout(1000, 5000, true), 1000);
    assert_eq!(get_current_timeout(1000, 5000, false), 5000);
    assert_eq!(get_current_timeout(u64::MAX, 5000, true), u64::MAX);
}

#[test]
fn a_follower_waits_out_its_election_timeout() {
    let mut run = run(2);
    assert_eq!(run.current_timeout(), 5000);
    turn(&mut run, answer(), 1200);
    assert_eq!(run.current_timeout(), 3800);
    turn(&mut run, answer(), 800);
    assert_eq!(run.current_timeout(), 3000);
    turn(&mut run, answer(), 4000);
    assert_eq!(run.current_timeout(), 0);
    raft_election(&mut run, Event::TimedOut);
    assert_eq!(run.current_timeout(), 5000);
    assert_eq!(run.state().node_state(), NodeState::Candidate);
}

#[test]
fn a_heartbeat_restores_the_election_timeout() {
    let mut run = run(2);
    turn(&mut run, answer(), 1200);
    turn(&mut run, heartbeat(3), 1000);
    assert_eq!(run.current_timeout(), 5000);
    // though it is of a past term
    turn(&mut run, answer(), 1200);
    turn(&mut run, heartbeat(2), 1000);
    assert_eq!(run.current_timeout(), 5000);
    assert_eq!(run.state().term(), 3);
    // the next message is none
    turn(&mut run, answer(), 100);
    assert_eq!(run.current_timeout(), 4900);
}

#[test]
fn a_node_that_hears_its_leader_never_campaigns() {
    let mut run = run(2);
    for _i in 0..10 {
        turn(&mut run, heartbeat(1), 900);
        raft_election(&mut run, Event::TimedOut);
    }
    assert_eq!(run.state().node_state(), NodeState::Follower);
    assert_eq!(run.state().term(), 1);
    raft_election(&mut run, Event::TimedOut);
    assert_eq!(run.state().node_state(), NodeState::Candidate);
}

#[test]
fn an_undisturbed_leader_keeps_its_interval() {
    let mut run = leader(2);
    for _i in 0..3 {
        let actions = raft_election(&mut run, Event::Woken { elapsed: 1000 });
        assert!(matches!(
            &actions[..],
            [Action::SendAll { envelopes, within: 20 }] if envelopes.len() == 2
        ));
        assert!(raft_election(&mut run, Event::TimedOut).is_empty());
        assert_eq!(run.current_timeout(), 1000);
    }
    assert_eq!(run.state().node_state(), NodeState::Leader);
    assert_eq!(run.state().term(), 1);
}

#[test]
fn heartbeats_are_sent_when_they_are_due() {
    let mut run = leader(2);
    raft_election(&mut run, Event::Woken { elapsed: 1000 });
    assert_eq!(
        raft_election(&mut run, Event::Woken { elapsed: 999 }).len(),
        0
    );
    let mut run = leader(2);
    raft_election(&mut run, Event::Woken { elapsed: 1000 });
    assert_eq!(
        raft_election(&mut run, Event::Woken { elapsed: 1001 }).len(),
        1
    );
}

#[test]
fn messages_leave_the_interval_alone() {
    let peers = (1..5)
        .map(|i| Peer {
            id: i.to_string(),
        })
        .collect();
    let state = RaftElectionState::init_fixed_timeout("A".to_string(), 60, 20, 2, peers, 3);
    let mut run = ElectionRun::new(state);
    // at 60: requests, two votes, and the first round of heartbeats
    assert_eq!(run.current_timeout(), 60);
    raft_election(&mut run, Event::Woken { elapsed: 60 });
    assert_eq!(raft_election(&mut run, Event::TimedOut).len(), 4);
    let vote = || Message::RequestVoteResponse {
        term: 1,
        vote: true,
    };
    turn(&mut run, vote(), 0);
    raft_election(&mut run, Event::Woken { elapsed: 0 });
    let actions = raft_election(&mut run, Event::Received(Some(vote())));
    assert!(matches!(&actions[1], Action::SendAll { envelopes, .. } if envelopes.len() == 4));
    raft_election(&mut run, Event::Handled { elapsed: 0 });
    assert_eq!(run.current_timeout(), 20);
    // at 70: another node
    let node = Peer {
        id: "5".to_string(),
    };
    turn(&mut run, Message::ControlAddNode(node), 10);
    assert_eq!(run.current_timeout(), 10);
    // at 80: the second round
    let actions = raft_election(&mut run, Event::Woken { elapsed: 10 });
    assert!(matches!(&actions[..], [Action::SendAll { envelopes, .. }] if envelopes.len() == 5));
    raft_election(&mut run, Event::TimedOut);
    assert_eq!(run.current_timeout(), 20);
}

#[test]
fn an_election_starts_the_interval_anew() {
    let mut run = leader(2);
    turn(&mut run, answer(), 700);
    assert_eq!(run.current_timeout(), 300);
    // it follows another leader for a while, and is elected again
    turn(&mut run, heartbeat(1), 0);
    assert_eq!(run.state().node_state(), NodeState::Follower);
    raft_election(&mut run, Event::TimedOut);
    raft_election(&mut run, Event::TimedOut);
    turn(
        &mut run,
        Message::RequestVoteResponse {
            term: 2,
            vote: true,
        },
        0,
    );
    assert_eq!(run.state().node_state(), NodeState::Leader);
    assert_eq!(run.current_timeout(), 1000);
}

#[test]
fn others_send_no_heartbeats() {
    let mut run = run(2);
    assert!(raft_election(&mut run, Event::Woken { elapsed: 5000 }).is_empty());
    assert_eq!(run.current_timeout(), 5000);
    assert_eq!(raft_election(&mut run, Event::TimedOut).len(), 2);
    assert!(raft_election(&mut run, Event::Woken { elapsed: 5000 }).is_empty());
}

#[test]
fn a_removed_node_takes_no_part() {
    let mut run = run(2);
    turn(&mut run, answer(), 1200);
    let itself = Peer {
        id: "self".to_string(),
    };
    turn(&mut run, Message::ControlRemoveNode(itself), 3);
    assert_eq!(run.state().node_state(), NodeState::Terminating);
    // the election goes on, without it
    for term in 1..4 {
        assert_eq!(run.current_timeout(), 5000);
        assert!(raft_election(&mut run, Event::Woken { elapsed: 5000 }).is_empty());
        assert!(raft_election(&mut run, Event::TimedOut).is_empty());
        let request = Message::RequestVote {
            requester_node_id: "peer-1".to_string(),
            term,
        };
        assert!(raft_election(&mut run, Event::Received(Some(request))).is_empty());
        assert!(raft_election(&mut run, Event::Received(Some(heartbeat(term)))).is_empty());
        assert!(raft_election(&mut run, Event::Handled { elapsed: 1 }).is_empty());
    }
    assert_eq!(run.state().node_state(), NodeState::Terminating);
    assert_eq!(run.state().term(), 0);
    assert_eq!(*run.state().leader_node(), None);
}

#[test]
fn terms_only_grow() {
    let mut run = run(2);
    let mut last = 0;
    for term in [3, 1, 4, 1, 5, 9, 2, 6] {
        turn(&mut run, heartbeat(term), 1);
        assert!(run.state().term() >= last);
        last = run.state().term();
        turn(
            &mut run,
            Message::RequestVote {
                requester_node_id: "peer-1".to_string(),
                term: term + 1,
            },
            1,
        );
        assert!(run.state().term() >= last);
        last = run.state().term();
    }
    assert_eq!(last, 10);
}
