//! What a node makes of single messages and timeouts.

use almost_raft::election::{
    be_a_leader, do_leader_stuff, handle_add_node, handle_after_timeout, handle_heartbeat,
    handle_message, handle_remove_node, handle_request_vote, handle_vote_response,
    send_heartbeat, send_vote, Action, RaftElectionState,
};
use almost_raft::{Identifier, Message, Node, NodeState};

#[derive(Debug, Clone, PartialEq)]
struct Peer {
    id: u64,
}

impl Node for Peer {
    type NodeIdType = u64;
    type NodeType = Peer;

    fn node_id(&self) -> &u64 {
        &self.id
    }
}

/// Node 7 with the given peers, that starts elections with `min_node` of them.
fn node(peers: &[u64], min_node: usize) -> RaftElectionState<Peer> {
    let peers = peers.iter().map(|id| Peer { id: *id }).collect();
    RaftElectionState::init_fixed_timeout(7, 5000, 1000, 20, peers, min_node)
}

/// Node 7 with the given peers, standing for election in term 1.
fn candidate(peers: &[u64]) -> RaftElectionState<Peer> {
    let mut state = node(peers, 0);
    handle_after_timeout(&mut state);
    assert_eq!(state.node_state(), NodeState::Candidate);
    state
}

fn ids(state: &RaftElectionState<Peer>) -> Vec<u64> {
    state.peers().iter().map(|peer| peer.id).collect()
}

/// Peers and message of each vote request, all with the time for a message
fn requests(actions: &[Action<Peer>]) -> Vec<(usize, u64, usize)> {
    actions
        .iter()
        .filter_map(|action| match action {
            Action::Send { envelope, within: 20 } => match envelope.message {
                Message::RequestVote {
                    requester_node_id,
                    term,
                } => Some((envelope.peer, requester_node_id, term)),
                _ => None,
            },
            _ => None,
        })
        .collect()
}

/// Peers and message of each answer to a vote request, all with the time for a message
fn answers(actions: &[Action<Peer>]) -> Vec<(usize, usize, bool)> {
    actions
        .iter()
        .filter_map(|action| match action {
            Action::Send { envelope, within: 20 } => match envelope.message {
                Message::RequestVoteResponse { term, vote } => Some((envelope.peer, term, vote)),
                _ => None,
            },
            _ => None,
        })
        .collect()
}

/// Leaders that are announced, and the time for that
fn announced(actions: &[Action<Peer>]) -> Vec<(u64, u64)> {
    actions
        .iter()
        .filter_map(|action| match action {
            Action::Notify {
                message: Message::ControlLeaderChanged(leader),
                within,
            } => Some((*leader, *within)),
            _ => None,
        })
        .collect()
}

/// Peers, sender and term of each heartbeat of a round, and the time for the round
fn heartbeats(action: &Action<Peer>) -> (Vec<(usize, u64, usize)>, u64) {
    match action {
        Action::SendAll { envelopes, within } => (
            envelopes
                .iter()
                .map(|envelope| match envelope.message {
                    Message::HeartBeat {
                        leader_node_id,
                        term,
                    } => (envelope.peer, leader_node_id, term),
                    _ => panic!("not a heartbeat"),
                })
                .collect(),
            *within,
        ),
        _ => panic!("not a round of messages"),
    }
}

#[test]
fn init_draws_a_timeout_of_the_range() {
    let mut drawn = vec![];
    for _i in 0..200 {
        let (state, capacity) =
            RaftElectionState::<Peer>::init(7, 1_000_000, 1000, 20, vec![], 5, 3);
        assert_eq!(capacity, 10);
        assert!(1_000_000 <= state.election_timeout());
        assert!(state.election_timeout() < 2_000_000);
        drawn.push(state.election_timeout());
    }
    assert!(drawn.iter().any(|timeout| *timeout != drawn[0]));
    assert!(drawn.iter().any(|timeout| *timeout != 1_000_000));
}

#[test]
fn init_with_the_smallest_timeout_leaves_no_choice() {
    let (state, capacity) = RaftElectionState::<Peer>::init(7, 1, 1000, 20, vec![], 1, 0);
    assert_eq!(state.election_timeout(), 1);
    assert_eq!(capacity, 2);
}

#[test]
fn init_makes_a_follower_without_leader() {
    let (state, _) =
        RaftElectionState::init(7, 5000, 1000, 20, vec![Peer { id: 1 }, Peer { id: 2 }], 5, 3);
    assert_eq!(*state.self_id(), 7);
    assert_eq!(state.node_state(), NodeState::Follower);
    assert_eq!(state.term(), 0);
    assert_eq!(state.votes(), 0);
    assert_eq!(*state.leader_node(), None);
    assert_eq!(state.heartbeat_interval(), 1000);
    assert_eq!(ids(&state), vec![1, 2]);
    assert!(!state.campaigns());
}

#[test]
fn identifiers_compare_and_copy() {
    let id = "node".to_string();
    assert!(id.same_as(&"node".to_string()));
    assert!(!id.same_as(&"edon".to_string()));
    assert_eq!(id.duplicate(), "node");
    assert!(3u64.same_as(&3));
    assert!(!3u64.same_as(&4));
    assert_eq!(3u64.duplicate(), 3);
}

#[test]
fn too_few_nodes_start_no_election() {
    let mut state = node(&[1, 2], 3);
    assert!(!state.campaigns());
    let actions = handle_after_timeout(&mut state);
    assert!(actions.is_empty());
    assert_eq!(state.node_state(), NodeState::Follower);
    assert_eq!(state.term(), 0);
    handle_add_node(&mut state, Peer { id: 3 });
    assert!(state.campaigns());
    assert_eq!(handle_after_timeout(&mut state).len(), 3);
    assert_eq!(state.node_state(), NodeState::Candidate);
}

#[test]
fn a_timeout_asks_every_peer_for_its_vote() {
    let mut state = node(&[4, 5, 6], 3);
    let actions = handle_after_timeout(&mut state);
    assert_eq!(actions.len(), 3);
    assert_eq!(requests(&actions), vec![(0, 7, 1), (1, 7, 1), (2, 7, 1)]);
    assert_eq!(state.term(), 1);
    assert_eq!(state.votes(), 1);
    assert_eq!(*state.leader_node(), None);
}

#[test]
fn a_candidate_starts_anew_in_the_next_term() {
    let mut state = candidate(&[1, 2, 3, 4]);
    handle_vote_response(&mut state, 1, true);
    assert_eq!(state.votes(), 2);
    let actions = handle_after_timeout(&mut state);
    assert_eq!(
        requests(&actions),
        vec![(0, 7, 2), (1, 7, 2), (2, 7, 2), (3, 7, 2)]
    );
    assert_eq!((state.term(), state.votes()), (2, 1));
    // votes of the first term are worth nothing now
    assert!(handle_vote_response(&mut state, 1, true).is_empty());
    assert_eq!(state.votes(), 1);
}

#[test]
fn a_node_alone_elects_itself() {
    let mut state = node(&[], 0);
    let actions = handle_after_timeout(&mut state);
    assert_eq!(actions.len(), 1);
    assert_eq!(announced(&actions), vec![(7, 20)]);
    assert_eq!(state.node_state(), NodeState::Leader);
    assert_eq!(*state.leader_node(), Some(7));
    assert_eq!((state.term(), state.votes()), (1, 1));
}

#[test]
fn the_vote_that_makes_a_majority_makes_the_leader() {
    // 5 nodes, 3 votes
    let mut state = candidate(&[1, 2, 3, 4]);
    assert!(handle_vote_response(&mut state, 1, true).is_empty());
    assert_eq!(state.node_state(), NodeState::Candidate);
    let actions = handle_vote_response(&mut state, 1, true);
    assert_eq!(state.node_state(), NodeState::Leader);
    assert_eq!(state.votes(), 3);
    assert_eq!(*state.leader_node(), Some(7));
    // announced first, then the heartbeats
    assert_eq!(actions.len(), 2);
    assert_eq!(announced(&actions[..1]), vec![(7, 20)]);
    assert_eq!(
        heartbeats(&actions[1]),
        (vec![(0, 7, 1), (1, 7, 1), (2, 7, 1), (3, 7, 1)], 20)
    );
    // one more vote changes nothing
    assert!(handle_vote_response(&mut state, 1, true).is_empty());
    assert_eq!(state.votes(), 3);
}

#[test]
fn half_of_the_votes_is_no_majority() {
    // 4 nodes, 2 votes
    let mut state = candidate(&[1, 2, 3]);
    assert!(handle_vote_response(&mut state, 1, true).is_empty());
    assert_eq!(state.node_state(), NodeState::Candidate);
    handle_vote_response(&mut state, 1, true);
    assert_eq!(state.node_state(), NodeState::Leader);
}

#[test]
fn only_votes_for_the_election_count() {
    let mut state = candidate(&[1, 2]);
    assert!(handle_vote_response(&mut state, 1, false).is_empty());
    assert!(handle_vote_response(&mut state, 0, true).is_empty());
    assert!(handle_vote_response(&mut state, 2, true).is_empty());
    assert_eq!(state.votes(), 1);
    let mut follower = node(&[1, 2], 0);
    assert!(handle_vote_response(&mut follower, 0, true).is_empty());
    assert_eq!(follower.votes(), 0);
}

#[test]
fn be_a_leader_announces_and_sends_heartbeats() {
    let mut state = node(&[1, 2], 0);
    let actions = be_a_leader(&mut state);
    assert_eq!(state.node_state(), NodeState::Leader);
    assert_eq!(*state.leader_node(), Some(7));
    assert_eq!(announced(&actions), vec![(7, 20)]);
    assert_eq!(heartbeats(&actions[1]), (vec![(0, 7, 0), (1, 7, 0)], 20));
}

#[test]
fn heartbeats_go_to_every_peer() {
    let state = candidate(&[4, 4, 9]);
    let envelopes = send_heartbeat(&state);
    assert_eq!(envelopes.len(), 3);
    assert_eq!(
        heartbeats(&do_leader_stuff(&state)),
        (vec![(0, 7, 1), (1, 7, 1), (2, 7, 1)], 20)
    );
}

#[test]
fn a_vote_goes_to_the_first_peer_of_that_name() {
    let mut state = node(&[4, 5, 5], 0);
    let actions = handle_request_vote(&mut state, 5, 3);
    assert_eq!(answers(&actions), vec![(1, 3, true)]);
    assert_eq!(state.term(), 3);
    assert_eq!(state.node_state(), NodeState::Follower);
    assert_eq!(answers(&send_vote(&state, &4)), vec![(0, 3, true)]);
    assert!(send_vote(&state, &6).is_empty());
}

#[test]
fn a_node_votes_once_in_a_term() {
    let mut state = node(&[1, 2], 0);
    assert_eq!(handle_request_vote(&mut state, 1, 1).len(), 1);
    assert!(handle_request_vote(&mut state, 2, 1).is_empty());
    assert!(handle_request_vote(&mut state, 1, 1).is_empty());
    assert!(handle_request_vote(&mut state, 2, 0).is_empty());
    assert_eq!(state.term(), 1);
    assert_eq!(
        answers(&handle_request_vote(&mut state, 2, 2)),
        vec![(1, 2, true)]
    );
}

#[test]
fn a_vote_for_a_stranger_is_spent_all_the_same() {
    let mut state = node(&[1, 2], 0);
    assert!(handle_request_vote(&mut state, 9, 1).is_empty());
    assert_eq!(state.term(), 1);
    assert!(handle_request_vote(&mut state, 1, 1).is_empty());
}

#[test]
fn a_first_vote_may_be_given_in_the_current_term() {
    let mut state = node(&[1], 0);
    assert_eq!(
        answers(&handle_request_vote(&mut state, 1, 0)),
        vec![(0, 0, true)]
    );
}

#[test]
fn a_candidate_votes_for_nobody_else() {
    let mut state = candidate(&[1, 2]);
    assert!(handle_request_vote(&mut state, 1, 1).is_empty());
    assert!(handle_request_vote(&mut state, 1, 5).is_empty());
    assert_eq!(state.term(), 1);
}

#[test]
fn a_leader_that_never_voted_votes_for_a_rival() {
    let mut state = candidate(&[1, 2]);
    handle_vote_response(&mut state, 1, true);
    assert_eq!(state.node_state(), NodeState::Leader);
    assert_eq!(
        answers(&handle_request_vote(&mut state, 2, 1)),
        vec![(1, 1, true)]
    );
    assert_eq!(state.node_state(), NodeState::Leader);
}

#[test]
fn a_heartbeat_makes_a_follower() {
    let mut state = node(&[1, 2], 0);
    let actions = handle_heartbeat(&mut state, 2, 4);
    assert_eq!(actions.len(), 1);
    assert_eq!(announced(&actions), vec![(2, 20)]);
    assert_eq!(state.term(), 4);
    assert_eq!(*state.leader_node(), Some(2));
    // said once, it is known
    assert!(handle_heartbeat(&mut state, 2, 4).is_empty());
    assert!(handle_heartbeat(&mut state, 2, 5).is_empty());
    assert_eq!(state.term(), 5);
    assert_eq!(announced(&handle_heartbeat(&mut state, 1, 6)), vec![(1, 20)]);
    // and no vote is left in that term
    assert!(handle_request_vote(&mut state, 2, 6).is_empty());
}

#[test]
fn a_heartbeat_of_a_past_term_is_ignored() {
    let mut state = node(&[1, 2], 0);
    handle_heartbeat(&mut state, 2, 4);
    assert!(handle_heartbeat(&mut state, 1, 3).is_empty());
    assert_eq!(*state.leader_node(), Some(2));
    assert_eq!(state.term(), 4);
    let mut state = candidate(&[1, 2]);
    assert!(handle_heartbeat(&mut state, 1, 0).is_empty());
    assert_eq!(state.node_state(), NodeState::Candidate);
    handle_vote_response(&mut state, 1, true);
    assert!(handle_heartbeat(&mut state, 1, 0).is_empty());
    assert_eq!(state.node_state(), NodeState::Leader);
}

#[test]
fn candidates_and_leaders_give_way() {
    let mut state = candidate(&[1, 2]);
    assert_eq!(announced(&handle_heartbeat(&mut state, 2, 1)), vec![(2, 20)]);
    assert_eq!(state.node_state(), NodeState::Follower);
    let mut state = candidate(&[1, 2]);
    handle_vote_response(&mut state, 1, true);
    assert_eq!(announced(&handle_heartbeat(&mut state, 2, 1)), vec![(2, 20)]);
    assert_eq!(state.node_state(), NodeState::Follower);
    assert_eq!(*state.leader_node(), Some(2));
}

#[test]
fn every_change_of_leadership_is_announced() {
    let mut state = node(&[], 0);
    assert_eq!(announced(&handle_heartbeat(&mut state, 2, 0)), vec![(2, 20)]);
    assert!(handle_after_timeout(&mut state).is_empty());
    assert_eq!(announced(&handle_after_timeout(&mut state)), vec![(7, 20)]);
    assert_eq!(state.node_state(), NodeState::Leader);
    assert_eq!(*state.leader_node(), Some(7));
    // the leader of before is back
    assert_eq!(announced(&handle_heartbeat(&mut state, 2, 1)), vec![(2, 20)]);
    assert_eq!(state.node_state(), NodeState::Follower);
    assert_eq!(*state.leader_node(), Some(2));
    assert_eq!(state.term(), 1);
}

#[test]
fn a_heartbeat_puts_the_election_off_by_one_timeout() {
    let mut state = node(&[1, 2], 0);
    handle_heartbeat(&mut state, 2, 1);
    assert!(!state.campaigns());
    assert!(handle_after_timeout(&mut state).is_empty());
    assert_eq!(state.node_state(), NodeState::Follower);
    assert_eq!(state.term(), 1);
    assert!(state.campaigns());
    assert_eq!(requests(&handle_after_timeout(&mut state)).len(), 2);
    assert_eq!(state.term(), 2);
}

#[test]
fn a_timeout_leaves_a_leader_alone() {
    let mut state = candidate(&[1, 2]);
    handle_vote_response(&mut state, 1, true);
    assert!(handle_after_timeout(&mut state).is_empty());
    assert_eq!(state.node_state(), NodeState::Leader);
    assert_eq!(state.term(), 1);
}

#[test]
fn a_removal_takes_the_first_of_that_name() {
    let mut state = node(&[1, 2, 3, 2], 0);
    handle_remove_node(&mut state, Peer { id: 2 });
    assert_eq!(ids(&state), vec![1, 3, 2]);
    handle_remove_node(&mut state, Peer { id: 9 });
    assert_eq!(ids(&state), vec![1, 3, 2]);
    assert_eq!(state.node_state(), NodeState::Follower);
}

#[test]
fn a_removal_undoes_an_addition() {
    let mut state = node(&[1, 2], 0);
    handle_add_node(&mut state, Peer { id: 3 });
    assert_eq!(ids(&state), vec![1, 2, 3]);
    handle_remove_node(&mut state, Peer { id: 3 });
    assert_eq!(ids(&state), vec![1, 2]);
}

#[test]
fn a_node_that_removes_itself_terminates() {
    let mut state = node(&[1, 7], 0);
    handle_remove_node(&mut state, Peer { id: 7 });
    assert_eq!(state.node_state(), NodeState::Terminating);
    assert_eq!(ids(&state), vec![1]);
    // it starts no election, and heartbeats of whatever term leave it as it is
    assert!(handle_after_timeout(&mut state).is_empty());
    assert_eq!(state.node_state(), NodeState::Terminating);
    assert_eq!(announced(&handle_heartbeat(&mut state, 1, 0)), vec![(1, 20)]);
    assert_eq!(state.node_state(), NodeState::Terminating);
}

#[test]
fn votes_of_a_terminating_node_still_decide() {
    let mut state = candidate(&[1, 2, 3, 4]);
    handle_vote_response(&mut state, 1, true);
    handle_remove_node(&mut state, Peer { id: 7 });
    for id in [1, 2, 3] {
        handle_remove_node(&mut state, Peer { id });
    }
    assert_eq!(announced(&handle_after_timeout(&mut state)), vec![(7, 20)]);
    assert_eq!(state.node_state(), NodeState::Leader);
    assert_eq!(*state.leader_node(), Some(7));
    assert_eq!(state.term(), 1);
}

#[test]
fn every_message_finds_its_handler() {
    let mut state = candidate(&[1, 2]);
    let (heartbeat, actions) =
        handle_message(&mut state, Some(Message::RequestVote { requester_node_id: 1, term: 9 }));
    assert!(!heartbeat && actions.is_empty());
    let (heartbeat, actions) =
        handle_message(&mut state, Some(Message::ControlAddNode(Peer { id: 3 })));
    assert!(!heartbeat && actions.is_empty());
    assert_eq!(ids(&state), vec![1, 2, 3]);
    let (heartbeat, actions) =
        handle_message(&mut state, Some(Message::ControlRemoveNode(Peer { id: 3 })));
    assert!(!heartbeat && actions.is_empty());
    assert_eq!(ids(&state), vec![1, 2]);
    let (heartbeat, actions) =
        handle_message(&mut state, Some(Message::ControlLeaderChanged(1)));
    assert!(!heartbeat && actions.is_empty());
    assert_eq!(*state.leader_node(), None);
    let (heartbeat, actions) = handle_message(&mut state, None);
    assert!(!heartbeat && actions.is_empty());
    assert_eq!(state.node_state(), NodeState::Candidate);
    let (heartbeat, actions) =
        handle_message(&mut state, Some(Message::RequestVoteResponse { term: 1, vote: true }));
    assert!(!heartbeat);
    assert_eq!(announced(&actions), vec![(7, 20)]);
    // a heartbeat is one though it is not followed
    let (heartbeat, actions) =
        handle_message(&mut state, Some(Message::HeartBeat { leader_node_id: 1, term: 0 }));
    assert!(heartbeat && actions.is_empty());
    let (heartbeat, actions) =
        handle_message(&mut state, Some(Message::HeartBeat { leader_node_id: 1, term: 1 }));
    assert!(heartbeat);
    assert_eq!(announced(&actions), vec![(1, 20)]);
    let (heartbeat, actions) =
        handle_message(&mut state, Some(Message::RequestVote { requester_node_id: 2, term: 2 }));
    assert!(!heartbeat);
    assert_eq!(answers(&actions), vec![(1, 2, true)]);
}

#[test]
fn a_granted_vote_is_counted() {
    let mut asking = candidate(&[1, 2]);
    let peers = vec![Peer { id: 2 }, Peer { id: 7 }];
    let mut asked = RaftElectionState::init_fixed_timeout(1, 5000, 1000, 20, peers, 0);
    let actions = handle_request_vote(&mut asked, *asking.self_id(), asking.term());
    let answer = answers(&actions);
    assert_eq!(answer, vec![(1, 1, true)]);
    assert_eq!(asked.peers()[answer[0].0].id, *asking.self_id());
    handle_vote_response(&mut asking, answer[0].1, answer[0].2);
    assert_eq!(asking.votes(), 2);
    assert_eq!(asking.node_state(), NodeState::Leader);
}

#[test]
fn one_of_two_candidates_wins_the_term() {
    let (mut first, mut second) = (candidate(&[2, 3]), candidate(&[2, 3]));
    let peers = vec![Peer { id: 7 }, Peer { id: 2 }];
    let mut third = RaftElectionState::init_fixed_timeout(3, 5000, 1000, 20, peers, 0);
    for (state, rival) in [(&mut first, 2), (&mut second, 7)] {
        assert!(handle_request_vote(state, rival, 1).is_empty());
    }
    assert_eq!(answers(&handle_request_vote(&mut third, 7, 1)).len(), 1);
    assert!(handle_request_vote(&mut third, 2, 1).is_empty());
    handle_vote_response(&mut first, 1, true);
    assert_eq!(first.node_state(), NodeState::Leader);
    assert_eq!(second.node_state(), NodeState::Candidate);
}
