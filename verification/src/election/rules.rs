//! What each message, timeout and wait brings about, said of the fields of the state alone,
//! and how what one node sends is taken by another.

use vstd::prelude::*;

use super::action::{Action, ActionView, Envelope};
use super::model::ElectionView;
use super::run::{Event, RunView};
use crate::{Message, Node, NodeState};

verus! {

/// A vote counts for a candidate of that very term, and for nobody else. The candidate leads
/// as soon as twice its votes are more than the peers and itself, and stays a candidate
/// until then. Nothing but its votes, its part and its leader is touched.
pub proof fn law_more_than_half_of_the_votes_lead<T: Node>(
    state: ElectionView<T>,
    term: usize,
    vote: bool,
)
    ensures
        ({
            let next = state.answered(term as nat, vote);
            let counts = vote && term == state.term && state.node_state == NodeState::Candidate;
            &&& next.votes == state.votes + if counts { 1int } else { 0int }
            &&& counts && 2 * (state.votes + 1) > state.peers.len() + 1 ==> next.node_state
                == NodeState::Leader && next.leader_node == Some(state.self_id)
            &&& counts && 2 * (state.votes + 1) <= state.peers.len() + 1 ==> next.node_state
                == NodeState::Candidate && next.leader_node == state.leader_node
            &&& !counts ==> next == state
            &&& next == (ElectionView {
                votes: next.votes,
                node_state: next.node_state,
                leader_node: next.leader_node,
                ..state
            })
            &&& state.received(Some(Message::RequestVoteResponse { term, vote })) == next
        }),
{
}

/// A candidate that becomes leader by a vote announces itself and then sends a round of
/// heartbeats: to each peer one, in its own name and of its term. No other vote brings
/// anything about.
pub proof fn law_deciding_vote_is_acted_on<T: Node>(
    state: ElectionView<T>,
    term: usize,
    vote: bool,
    i: int,
)
    requires
        state.peers.len() <= usize::MAX,
    ensures
        ({
            let actions = state.answer_actions(term as nat, vote);
            let decides = vote && term == state.term && state.node_state == NodeState::Candidate
                && 2 * (state.votes + 1) > state.peers.len() + 1;
            &&& decides ==> {
                &&& actions.len() == 2
                &&& actions[0] == (ActionView::Notify::<T> {
                    message: Message::ControlLeaderChanged(state.self_id),
                    within: state.message_timeout,
                })
                &&& actions[1] matches ActionView::SendAll { envelopes, within }
                &&& within == state.message_timeout
                &&& envelopes.len() == state.peers.len()
                &&& 0 <= i < state.peers.len() ==> {
                    &&& envelopes[i].peer == i
                    &&& envelopes[i].message == (Message::<T::NodeType, T::NodeIdType>::HeartBeat {
                        leader_node_id: state.self_id,
                        term,
                    })
                }
            }
            &&& !decides ==> actions.len() == 0
            &&& state.message_actions(Some(Message::RequestVoteResponse { term, vote }))
                == actions
        }),
{
}

/// A node that is made leader leads in its own name, announces that, and sends heartbeats;
/// nothing else of it changes.
pub proof fn law_elected_node_leads<T: Node>(state: ElectionView<T>)
    ensures
        state.elected() == (ElectionView {
            node_state: NodeState::Leader,
            leader_node: Some(state.self_id),
            ..state
        }),
        state.elected_actions().len() == 2,
        state.elected_actions()[0] == (ActionView::Notify::<T> {
            message: Message::ControlLeaderChanged(state.self_id),
            within: state.message_timeout,
        }),
        state.elected_actions()[1] == state.heartbeat_round(),
{
}

/// A message for every peer is one envelope for each of them, in their order.
pub proof fn law_every_peer_is_written_to<T: Node>(
    state: ElectionView<T>,
    message: Message<T::NodeType, T::NodeIdType>,
    i: int,
)
    requires
        state.peers.len() <= usize::MAX,
    ensures
        state.to_every_peer(message).len() == state.peers.len(),
        0 <= i < state.peers.len() ==> {
            &&& state.to_every_peer(message)[i].peer == i
            &&& state.to_every_peer(message)[i].message == message
        },
{
}

/// A round of heartbeats holds one for each peer, in the name and of the term of the node
/// that sends it, and is given up when a message is.
pub proof fn law_round_holds_own_term<T: Node>(state: ElectionView<T>, i: int)
    requires
        state.term <= usize::MAX,
        state.peers.len() <= usize::MAX,
    ensures
        state.heartbeat_round() matches ActionView::SendAll { envelopes, within } && {
            &&& within == state.message_timeout
            &&& envelopes.len() == state.peers.len()
            &&& 0 <= i < state.peers.len() ==> {
                &&& envelopes[i].peer == i
                &&& envelopes[i].message matches Message::HeartBeat { leader_node_id, term }
                &&& leader_node_id == state.self_id
                &&& term == state.term
            }
        },
{
}

/// What a leader sends in a round is followed by every node of the same or an earlier term
/// that takes part: it becomes a follower of the sender, in the sender's term.
pub proof fn law_round_is_followed<T: Node>(
    leader: ElectionView<T>,
    node: ElectionView<T>,
    i: int,
)
    requires
        leader.term <= usize::MAX,
        leader.peers.len() <= usize::MAX,
        0 <= i < leader.peers.len(),
        node.term <= leader.term,
        node.node_state != NodeState::Terminating,
    ensures
        leader.heartbeat_round() matches ActionView::SendAll { envelopes, .. } && {
            &&& envelopes[i].message matches Message::HeartBeat { leader_node_id, term }
            &&& {
                let next = node.received(Some(Message::HeartBeat { leader_node_id, term }));
                &&& next.node_state == NodeState::Follower
                &&& next.term == leader.term
                &&& next.has_leader
                &&& next.leader_node matches Some(known)
                &&& known@ == leader.self_id@
            }
        },
{
}

/// A timeout makes a node stand for election if, and only if, it has `min_node` peers,
/// heard of no leader, and neither leads nor was removed. It then stands in the next term
/// with its own vote. Alone, it leads at once.
pub proof fn law_timeout_starts_next_term<T: Node>(state: ElectionView<T>)
    ensures
        ({
            let next = state.timed_out();
            let stands = state.peers.len() >= state.min_node && !state.has_leader && (
            state.node_state == NodeState::Follower || state.node_state == NodeState::Candidate);
            &&& state.campaigns() == stands
            &&& stands ==> {
                &&& next.term == state.term + 1
                &&& next.votes == 1
                &&& state.peers.len() == 0 ==> next.node_state == NodeState::Leader
                    && next.leader_node == Some(state.self_id)
                &&& state.peers.len() > 0 ==> next.node_state == NodeState::Candidate
                    && next.leader_node == state.leader_node
                &&& next == (ElectionView {
                    term: next.term,
                    votes: next.votes,
                    node_state: next.node_state,
                    leader_node: next.leader_node,
                    ..state
                })
            }
            &&& !stands ==> next.term == state.term && next.votes == state.votes
        }),
{
}

/// A timeout of a node that does not stand for election takes the leader from it, unless it
/// leads itself; with too few peers it does nothing. A node that was removed leads by a
/// timeout if it holds more than half of the votes.
pub proof fn law_other_timeouts<T: Node>(state: ElectionView<T>)
    requires
        state.peers.len() < state.min_node || state.has_leader || state.node_state
            == NodeState::Leader || state.node_state == NodeState::Terminating,
    ensures
        ({
            let next = state.timed_out();
            let actions = state.timeout_actions();
            let enough = state.peers.len() >= state.min_node;
            let wins = enough && !state.has_leader && state.node_state == NodeState::Terminating
                && 2 * state.votes > state.peers.len() + 1;
            &&& !enough ==> next == state
            &&& enough && !wins ==> next == (ElectionView {
                has_leader: state.node_state == NodeState::Leader,
                ..state
            })
            &&& wins ==> next == (ElectionView {
                node_state: NodeState::Leader,
                leader_node: Some(state.self_id),
                ..state
            })
            &&& wins ==> actions == seq![
                ActionView::Notify::<T> {
                    message: Message::ControlLeaderChanged(state.self_id),
                    within: state.message_timeout,
                },
            ]
            &&& !wins ==> actions.len() == 0
        }),
{
}

/// A node that stands for election asks each peer, in their order, for its vote, in its own
/// name and in the term that it stands in after the timeout. Alone, it announces itself.
pub proof fn law_requests_name_the_new_term<T: Node>(state: ElectionView<T>, i: int)
    requires
        state.peers.len() >= state.min_node,
        !state.has_leader,
        state.node_state == NodeState::Follower || state.node_state == NodeState::Candidate,
        state.term < usize::MAX,
        state.peers.len() <= usize::MAX,
    ensures
        ({
            let actions = state.timeout_actions();
            &&& state.peers.len() > 0 ==> actions.len() == state.peers.len()
            &&& 0 <= i < state.peers.len() ==> {
                &&& actions[i] matches ActionView::Send { envelope, within }
                &&& within == state.message_timeout
                &&& envelope.peer == i
                &&& envelope.message matches Message::RequestVote { requester_node_id, term }
                &&& requester_node_id == state.self_id
                &&& term == state.timed_out().term
            }
            &&& state.peers.len() == 0 ==> actions == seq![
                ActionView::Notify::<T> {
                    message: Message::ControlLeaderChanged(state.self_id),
                    within: state.message_timeout,
                },
            ]
        }),
{
}

/// A vote request is granted for every later term, and for the own term as long as there is
/// a vote left in it, unless the node is a candidate. To grant it is to move to that term
/// without a vote left; to refuse it is to change nothing.
pub proof fn law_later_terms_get_the_vote<T: Node>(
    state: ElectionView<T>,
    requester: T::NodeIdType,
    term: usize,
)
    ensures
        ({
            let next = state.asked_for_vote(term as nat);
            let candidate = state.node_state == NodeState::Candidate;
            &&& !candidate && term > state.term ==> next.term == term && next.voted_for_term
            &&& !candidate && term == state.term ==> next.term == term && next.voted_for_term
            &&& candidate || term < state.term ==> next == state
            &&& next == (ElectionView {
                term: next.term,
                voted_for_term: next.voted_for_term,
                ..state
            })
            &&& state.received(
                Some(Message::RequestVote { requester_node_id: requester, term }),
            ) == next
        }),
{
}

/// A granted vote is sent to the first peer of the identifier that asks, if there is one,
/// and says the term that was asked for. Nothing is sent where nothing is granted.
pub proof fn law_granted_vote_is_sent<T: Node>(
    state: ElectionView<T>,
    requester: T::NodeIdType,
    term: usize,
    k: int,
)
    requires
        state.peers.len() <= usize::MAX,
    ensures
        ({
            let actions = state.vote_request_actions(requester, term as nat);
            let granted = state.node_state != NodeState::Candidate && (term > state.term || (term
                == state.term && !state.voted_for_term));
            let first = 0 <= k < state.peers.len() && state.peers[k].id() == requester@ && (
            forall|j: int| 0 <= j < k ==> (#[trigger] state.peers[j]).id() != requester@);
            let stranger = forall|j: int|
                0 <= j < state.peers.len() ==> (#[trigger] state.peers[j]).id() != requester@;
            &&& granted && first ==> actions == seq![
                ActionView::Send::<T> {
                    envelope: Envelope {
                        peer: k as usize,
                        message: Message::RequestVoteResponse { term, vote: true },
                    },
                    within: state.message_timeout,
                },
            ]
            &&& granted && stranger ==> actions.len() == 0
            &&& !granted ==> actions.len() == 0
            &&& state.message_actions(
                Some(Message::RequestVote { requester_node_id: requester, term }),
            ) == actions
        }),
{
    let asked = state.asked_for_vote(term as nat);
    if asked.is_first_peer(requester@, k) {
        asked.lemma_first_peer(requester@, k);
    }
}

/// A vote of a node goes to the first peer of that identifier, and says the term that the
/// node is in; a stranger is sent none.
pub proof fn law_vote_names_own_term<T: Node>(
    state: ElectionView<T>,
    requester: T::NodeIdType,
    k: int,
)
    requires
        state.term <= usize::MAX,
        state.peers.len() <= usize::MAX,
    ensures
        0 <= k < state.peers.len() && state.peers[k].id() == requester@ && (forall|j: int|
            0 <= j < k ==> (#[trigger] state.peers[j]).id() != requester@) ==> {
            let actions = state.vote_for(requester@);
            &&& actions.len() == 1
            &&& actions[0] matches ActionView::Send { envelope, within }
            &&& within == state.message_timeout
            &&& envelope.peer == k
            &&& envelope.message matches Message::RequestVoteResponse { term, vote }
            &&& term == state.term
            &&& vote
        },
        (forall|j: int|
            0 <= j < state.peers.len() ==> (#[trigger] state.peers[j]).id() != requester@)
            ==> state.vote_for(requester@).len() == 0,
{
    if state.is_first_peer(requester@, k) {
        state.lemma_first_peer(requester@, k);
    }
}

/// What a node asks for when it stands for election, its peers can give, and it counts: a
/// peer that is no candidate and of no later term than the node was, answers the request
/// that is sent to it by a vote to the node, which has one vote more by that answer.
pub proof fn law_request_is_granted_and_counted<T: Node>(
    node: ElectionView<T>,
    voter: ElectionView<T>,
    i: int,
    k: int,
)
    requires
        node.peers.len() >= node.min_node,
        !node.has_leader,
        node.node_state == NodeState::Follower || node.node_state == NodeState::Candidate,
        node.term < usize::MAX,
        0 <= i < node.peers.len() <= usize::MAX,
        voter.node_state != NodeState::Candidate,
        voter.term <= node.term,
        0 <= k < voter.peers.len() <= usize::MAX,
        voter.peers[k].id() == node.self_id@,
        forall|j: int| 0 <= j < k ==> (#[trigger] voter.peers[j]).id() != node.self_id@,
    ensures
        node.timeout_actions()[i] matches ActionView::Send { envelope: request, .. } && {
            &&& request.message matches Message::RequestVote { requester_node_id, term }
            &&& {
                let answers = voter.message_actions(
                    Some(Message::RequestVote { requester_node_id, term }),
                );
                &&& answers.len() == 1
                &&& answers[0] matches ActionView::Send { envelope: answer, .. }
                &&& answer.peer == k
                &&& answer.message matches Message::RequestVoteResponse { term, vote }
                &&& node.timed_out().received(
                    Some(Message::RequestVoteResponse { term, vote }),
                ).votes == 2
            }
        },
{
    law_requests_name_the_new_term(node, i);
    law_granted_vote_is_sent(voter, node.self_id, (node.term + 1) as usize, k);
}

/// A heartbeat of the own term or a later one makes every node that takes part a follower in
/// that term, which has a leader and no vote left. One of an earlier term changes nothing.
pub proof fn law_heartbeat_is_obeyed<T: Node>(
    state: ElectionView<T>,
    leader: T::NodeIdType,
    term: usize,
)
    ensures
        ({
            let next = state.heard(leader, term as nat);
            let removed = state.node_state == NodeState::Terminating;
            &&& removed || term >= state.term ==> {
                &&& next.term == term
                &&& next.voted_for_term
                &&& next.has_leader
                &&& next.leader_node matches Some(known)
                &&& known@ == leader@
                &&& next.node_state == if removed {
                    NodeState::Terminating
                } else {
                    NodeState::Follower
                }
                &&& next == (ElectionView {
                    term: next.term,
                    voted_for_term: true,
                    has_leader: true,
                    leader_node: next.leader_node,
                    node_state: next.node_state,
                    ..state
                })
            }
            &&& !removed && term < state.term ==> next == state
            &&& state.received(Some(Message::HeartBeat { leader_node_id: leader, term })) == next
        }),
{
}

/// The sender of a heartbeat is announced if, and only if, the node follows it and did not
/// take it for the leader before.
pub proof fn law_only_new_leaders_are_announced<T: Node>(
    state: ElectionView<T>,
    leader: T::NodeIdType,
    term: usize,
)
    ensures
        ({
            let actions = state.heartbeat_actions(leader, term as nat);
            let next = state.heard(leader, term as nat);
            let obeyed = state.node_state == NodeState::Terminating || term >= state.term;
            let known = match state.leader_node {
                Some(known) => known@ == leader@,
                None => false,
            };
            &&& obeyed && !known ==> next.leader_node == Some(leader) && actions == seq![
                ActionView::Notify::<T> {
                    message: Message::ControlLeaderChanged(leader),
                    within: state.message_timeout,
                },
            ]
            &&& !obeyed || known ==> next.leader_node == state.leader_node && actions.len() == 0
            &&& state.message_actions(Some(Message::HeartBeat { leader_node_id: leader, term }))
                == actions
        }),
{
}

/// A node that is added is the last of the peers; nothing else changes.
pub proof fn law_added_node_comes_last<T: Node>(state: ElectionView<T>, node: T, i: int)
    ensures
        ({
            let next = state.with_peer(node);
            &&& next.peers.len() == state.peers.len() + 1
            &&& next.peers[state.peers.len() as int] == node
            &&& 0 <= i < state.peers.len() ==> next.peers[i] == state.peers[i]
            &&& next == (ElectionView { peers: next.peers, ..state })
            &&& state.received(Some(Message::ControlAddNode(node))) == next
        }),
{
}

/// A removal takes out the first peer of that identifier, at `k`, and no other: those before
/// it stay where they are, those behind it move up. Without such a peer none is taken out.
pub proof fn law_removal_takes_the_first<T: Node>(
    state: ElectionView<T>,
    node: T,
    k: int,
    i: int,
)
    ensures
        ({
            let next = state.without_peer(node);
            let first = 0 <= k < state.peers.len() && state.peers[k].id() == node.id() && (
            forall|j: int| 0 <= j < k ==> (#[trigger] state.peers[j]).id() != node.id());
            let stranger = forall|j: int|
                0 <= j < state.peers.len() ==> (#[trigger] state.peers[j]).id() != node.id();
            &&& first ==> {
                &&& next.peers.len() == state.peers.len() - 1
                &&& 0 <= i < k ==> next.peers[i] == state.peers[i]
                &&& k <= i < next.peers.len() ==> next.peers[i] == state.peers[i + 1]
            }
            &&& stranger ==> next.peers == state.peers
            &&& next == (ElectionView { peers: next.peers, node_state: next.node_state, ..state })
            &&& next.node_state == if node.id() == state.self_id@ {
                NodeState::Terminating
            } else {
                state.node_state
            }
            &&& state.received(Some(Message::ControlRemoveNode(node))) == next
        }),
{
    if state.is_first_peer(node.id(), k) {
        state.lemma_first_peer(node.id(), k);
    }
}

/// After a removal the peers of every other identifier are all still there, in their order,
/// and of the removed identifier there is one peer fewer, if there was any.
pub proof fn law_removal_spares_the_others<T: Node>(state: ElectionView<T>, node: T)
    ensures
        ({
            let next = state.without_peer(node);
            let other = |peer: T| peer.id() != node.id();
            let same = |peer: T| peer.id() == node.id();
            &&& next.peers.filter(other) == state.peers.filter(other)
            &&& state.peers.filter(same).len() > 0 ==> next.peers.filter(same).len()
                == state.peers.filter(same).len() - 1
            &&& state.peers.filter(same).len() == 0 ==> next.peers == state.peers
        }),
{
    let id = node.id();
    let peers = state.peers;
    let other = |peer: T| peer.id() != id;
    let same = |peer: T| peer.id() == id;
    if state.has_peer(id) {
        super::laws::lemma_some_first_peer(state, id);
        let k = state.first_peer(id);
        let (front, back) = (peers.take(k), peers.skip(k + 1));
        let taken = seq![peers[k]];
        assert(peers =~= front + taken + back);
        assert(peers.remove(k) =~= front + back);
        assert forall|pred: spec_fn(T) -> bool| #![trigger taken.filter(pred)]
            taken.filter(pred) == if pred(peers[k]) {
                taken
            } else {
                Seq::empty()
            } by {
            reveal(Seq::filter);
            assert(taken.drop_last() =~= Seq::empty());
            assert(Seq::<T>::empty().filter(pred) =~= Seq::empty());
            assert(taken.filter(pred) =~= if pred(peers[k]) {
                taken
            } else {
                Seq::empty()
            });
        }
        Seq::filter_distributes_over_add(front + taken, back, other);
        Seq::filter_distributes_over_add(front, taken, other);
        Seq::filter_distributes_over_add(front, back, other);
        Seq::filter_distributes_over_add(front + taken, back, same);
        Seq::filter_distributes_over_add(front, taken, same);
        Seq::filter_distributes_over_add(front, back, same);
        assert(taken.filter(other) == Seq::<T>::empty());
        assert(taken.filter(same) == taken);
        assert(peers.filter(other) =~= peers.remove(k).filter(other));
    } else {
        peers.lemma_all_neg_filter_empty(same);
    }
}

/// No other message asks for anything, and without a change of the peers none changes
/// anything.
pub proof fn law_other_messages_ask_nothing<T: Node>(
    state: ElectionView<T>,
    node: T,
    leader: T::NodeIdType,
)
    ensures
        state.received(None) == state,
        state.message_actions(None).len() == 0,
        state.received(Some(Message::ControlLeaderChanged(leader))) == state,
        state.message_actions(Some(Message::ControlLeaderChanged(leader))).len() == 0,
        state.message_actions(Some(Message::ControlAddNode(node))).len() == 0,
        state.message_actions(Some(Message::ControlRemoveNode(node))).len() == 0,
{
}

/// A node starts as a follower in term zero, without votes, leader or a vote given, and with
/// the settings that it is given.
pub proof fn law_node_starts_as_follower<T: Node>(
    self_id: T::NodeIdType,
    election_timeout: u64,
    heartbeat_interval: u64,
    message_timeout: u64,
    peers: Seq<T>,
    min_node: nat,
)
    ensures
        ({
            let state = ElectionView::initial(
                self_id,
                election_timeout,
                heartbeat_interval,
                message_timeout,
                peers,
                min_node,
            );
            let run = RunView::started(state);
            &&& state.node_state == NodeState::Follower
            &&& state.term == 0 && state.votes == 0
            &&& !state.voted_for_term && !state.has_leader
            &&& state.leader_node == None::<T::NodeIdType>
            &&& state.self_id == self_id
            &&& state.peers == peers
            &&& state.min_node == min_node
            &&& state.election_timeout == election_timeout
            &&& state.heartbeat_interval == heartbeat_interval
            &&& state.message_timeout == message_timeout
            &&& run.wait() == election_timeout
        }),
{
}

/// An election that is started has the whole of both times before it.
pub proof fn law_election_starts_with_full_times<T: Node>(state: ElectionView<T>)
    ensures
        RunView::started(state).state == state,
        RunView::started(state).remaining_election_timeout == state.election_timeout,
        RunView::started(state).remaining_heartbeat_interval == state.heartbeat_interval,
        !RunView::started(state).heartbeat,
{
}

/// A leader waits for its next heartbeats, a node that was removed for an election timeout,
/// and any other for what is left of that.
pub proof fn law_each_part_has_its_wait<T: Node>(run: RunView<T>)
    ensures
        run.state.node_state == NodeState::Leader ==> run.wait()
            == run.remaining_heartbeat_interval,
        run.state.node_state == NodeState::Terminating ==> run.wait()
            == run.state.election_timeout,
        run.state.node_state == NodeState::Follower || run.state.node_state
            == NodeState::Candidate ==> run.wait() == run.remaining_election_timeout,
{
}

/// A leader that has waited out its interval sends one heartbeat to each peer, in its own
/// name and of its term, and has the whole interval before it. If it was woken earlier, that
/// much less is left of the interval. Nobody else does anything when it wakes.
pub proof fn law_heartbeats_come_in_time<T: Node>(run: RunView<T>, elapsed: u64, i: int)
    requires
        run.state.term <= usize::MAX,
        run.state.peers.len() <= usize::MAX,
    ensures
        ({
            let next = run.next(Event::Woken { elapsed });
            let actions = run.actions(Event::Woken { elapsed });
            let leads = run.state.node_state == NodeState::Leader;
            &&& leads && elapsed >= run.remaining_heartbeat_interval ==> {
                &&& next.remaining_heartbeat_interval == run.state.heartbeat_interval
                &&& actions.len() == 1
                &&& actions[0] matches ActionView::SendAll { envelopes, within }
                &&& within == run.state.message_timeout
                &&& envelopes.len() == run.state.peers.len()
                &&& 0 <= i < run.state.peers.len() ==> {
                    &&& envelopes[i].peer == i
                    &&& envelopes[i].message matches Message::HeartBeat { leader_node_id, term }
                    &&& leader_node_id == run.state.self_id
                    &&& term == run.state.term
                }
            }
            &&& leads && elapsed < run.remaining_heartbeat_interval
                ==> next.remaining_heartbeat_interval + elapsed
                == run.remaining_heartbeat_interval && actions.len() == 0
            &&& !leads ==> next == run && actions.len() == 0
            &&& next == (RunView {
                remaining_heartbeat_interval: next.remaining_heartbeat_interval,
                ..run
            })
        }),
{
}

/// A message is handled by the node and does not touch the election timeout. It restarts the
/// heartbeat interval if, and only if, it makes the node leader.
pub proof fn law_message_reaches_the_node<T: Node>(
    run: RunView<T>,
    message: Option<Message<T, T::NodeIdType>>,
)
    requires
        run.state.node_state != NodeState::Terminating,
    ensures
        ({
            let event = Event::Received(message);
            let next = run.next(event);
            let elected = run.state.node_state != NodeState::Leader && next.state.node_state
                == NodeState::Leader;
            &&& next.state == run.state.received(message)
            &&& run.actions(event) == run.state.message_actions(message)
            &&& next.heartbeat == match message {
                Some(Message::HeartBeat { .. }) => true,
                _ => false,
            }
            &&& next.remaining_election_timeout == run.remaining_election_timeout
            &&& elected ==> next.remaining_heartbeat_interval == run.state.heartbeat_interval
            &&& !elected ==> next.remaining_heartbeat_interval
                == run.remaining_heartbeat_interval
        }),
{
}

/// When a message was handled, the time that this took is gone from the election timeout,
/// unless it was a heartbeat: then the whole of it is there again.
pub proof fn law_only_heartbeats_restore_the_timeout<T: Node>(run: RunView<T>, elapsed: u64)
    requires
        run.state.node_state != NodeState::Terminating,
    ensures
        ({
            let next = run.next(Event::Handled { elapsed });
            &&& run.heartbeat ==> next.remaining_election_timeout == run.state.election_timeout
            &&& !run.heartbeat && elapsed <= run.remaining_election_timeout
                ==> next.remaining_election_timeout + elapsed == run.remaining_election_timeout
            &&& !run.heartbeat && elapsed > run.remaining_election_timeout
                ==> next.remaining_election_timeout == 0
            &&& next == (RunView {
                remaining_election_timeout: next.remaining_election_timeout,
                ..run
            })
            &&& run.actions(Event::Handled { elapsed }).len() == 0
        }),
{
}

/// A timeout is handled by the node, which then has the whole election timeout before it.
pub proof fn law_timeout_reaches_the_node<T: Node>(run: RunView<T>)
    requires
        run.state.node_state != NodeState::Terminating,
    ensures
        run.next(Event::TimedOut) == (RunView {
            state: run.state.timed_out(),
            remaining_election_timeout: run.state.election_timeout,
            ..run
        }),
        run.actions(Event::TimedOut) == run.state.timeout_actions(),
{
}

/// Whatever is reported of a node that was removed, it stays as it is and does nothing.
pub proof fn law_removed_node_is_left_alone<T: Node>(run: RunView<T>, event: Event<T>)
    requires
        run.state.node_state == NodeState::Terminating,
    ensures
        run.next(event) == run,
        run.actions(event).len() == 0,
{
}

/// The mathematical value of an action holds all that the action does.
pub proof fn law_action_is_its_value<T: Node>(action: Action<T>)
    ensures
        match action {
            Action::Send { envelope, within } => action.deep_view() == (ActionView::Send {
                envelope,
                within,
            }),
            Action::SendAll { envelopes, within } => action.deep_view() == (ActionView::SendAll {
                envelopes: envelopes@,
                within,
            }),
            Action::Notify { message, within } => action.deep_view() == (ActionView::Notify {
                message,
                within,
            }),
        },
{
}

/// Where a node follows a leader and that leader fails, two timeouts are enough: the node
/// stands for election in the term after that of the leader, and asks every peer in it.
pub proof fn law_failed_leader_is_replaced<T: Node>(
    state: ElectionView<T>,
    leader: T::NodeIdType,
    term: usize,
    i: int,
)
    requires
        state.node_state != NodeState::Terminating,
        state.term <= term < usize::MAX,
        state.min_node <= state.peers.len() <= usize::MAX,
        0 <= i < state.peers.len(),
    ensures
        ({
            let follows = state.received(
                Some(Message::HeartBeat { leader_node_id: leader, term }),
            );
            let doubts = follows.timed_out();
            let stands = doubts.timed_out();
            &&& follows.timeout_actions().len() == 0
            &&& doubts.node_state == NodeState::Follower
            &&& stands.node_state == NodeState::Candidate
            &&& stands.term == term + 1
            &&& doubts.timeout_actions().len() == state.peers.len()
            &&& doubts.timeout_actions()[i] matches ActionView::Send { envelope, .. }
            &&& envelope.peer == i
            &&& envelope.message matches Message::RequestVote { requester_node_id, term: asked }
            &&& requester_node_id == state.self_id
            &&& asked == term + 1
        }),
{
}

/// A node that stands for election leads after so many votes of its term that, with its own,
/// they are more than half of the cluster, and not after fewer. This holds of every number
/// of peers.
pub proof fn law_election_takes_half_of_the_cluster<T: Node>(
    state: ElectionView<T>,
    answers: nat,
)
    requires
        state.peers.len() >= state.min_node,
        !state.has_leader,
        state.node_state == NodeState::Follower || state.node_state == NodeState::Candidate,
        state.peers.len() > 0,
    ensures
        ({
            let after = super::laws::after_votes(state.timed_out(), answers);
            &&& 2 * (1 + answers) > state.peers.len() + 1 ==> after.node_state
                == NodeState::Leader
            &&& 2 * (1 + answers) <= state.peers.len() + 1 ==> after.node_state
                == NodeState::Candidate && after.votes == 1 + answers
        }),
{
    super::laws::law_majority_of_votes_wins(state.timed_out(), answers);
}

} // verus!
