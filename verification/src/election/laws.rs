//! What holds of elections as a whole: of one step, whatever the event, and of every
//! sequence of events.

use vstd::prelude::*;

use super::action::{ActionView, Envelope};
use super::model::ElectionView;
use super::run::{Event, RunView};
use crate::{Message, Node, NodeState};

verus! {

/// One more event is one more step.
pub(crate) proof fn lemma_at_step<T: Node>(run: RunView<T>, events: Seq<Event<T>>, i: int)
    requires
        0 <= i < events.len(),
    ensures
        run.at(events, i + 1) == run.at(events, i).next(events[i]),
{
    assert(events.take(i + 1).drop_last() =~= events.take(i));
    assert(events.take(i + 1).last() == events[i]);
}

/// The term of a node never decreases.
pub proof fn law_term_never_decreases<T: Node>(
    run: RunView<T>,
    events: Seq<Event<T>>,
    i: int,
    j: int,
)
    requires
        0 <= i <= j <= events.len(),
    ensures
        run.at(events, i).state.term <= run.at(events, j).state.term,
    decreases j - i,
{
    if i < j {
        law_term_never_decreases(run, events, i, j - 1);
        lemma_at_step(run, events, j - 1);
    }
}

/// Once a node may not vote in its term any more, it may only vote in later ones.
proof fn lemma_voted_stays<T: Node>(run: RunView<T>, events: Seq<Event<T>>, i: int, j: int)
    requires
        0 <= i <= j <= events.len(),
        run.at(events, i).state.voted_for_term,
    ensures
        run.at(events, j).state.voted_for_term,
    decreases j - i,
{
    if i < j {
        lemma_voted_stays(run, events, i, j - 1);
        lemma_at_step(run, events, j - 1);
    }
}

/// A node gives its vote to another at most once in a term, and never in an earlier term
/// than before.
pub proof fn law_one_vote_per_term<T: Node>(
    run: RunView<T>,
    events: Seq<Event<T>>,
    i: int,
    j: int,
    first: <T::NodeIdType as View>::V,
    first_term: nat,
    second: <T::NodeIdType as View>::V,
    second_term: nat,
)
    requires
        0 <= i < j < events.len(),
        events[i] is Received && run.at(events, i).backs(events[i], first, first_term),
        events[j] is Received && run.at(events, j).backs(events[j], second, second_term),
    ensures
        first_term < second_term,
{
    lemma_at_step(run, events, i);
    lemma_voted_stays(run, events, i + 1, j);
    law_term_never_decreases(run, events, i + 1, j);
}

/// A node that stood for election in `term` does not take up the part of a follower
/// without giving up its vote.
proof fn lemma_candidacy_stays<T: Node>(
    run: RunView<T>,
    events: Seq<Event<T>>,
    i: int,
    j: int,
    term: nat,
)
    requires
        0 <= i < j <= events.len(),
        events[i] is TimedOut && run.at(events, i).state.campaigns(),
        term == run.at(events, i).state.term + 1,
    ensures
        ({
            let state = run.at(events, j).state;
            &&& state.term >= term
            &&& state.term > term || state.voted_for_term || !(state.node_state is Follower)
        }),
    decreases j - i,
{
    lemma_at_step(run, events, j - 1);
    if i + 1 < j {
        lemma_candidacy_stays(run, events, i, j - 1, term);
    }
}

/// A node votes for at most one candidate in a term, its own candidacy included. Left out
/// is the one case in which it does otherwise: a leader that was elected before it ever
/// voted for another may vote for a rival in the term that it leads.
pub proof fn law_one_candidate_per_term<T: Node>(
    run: RunView<T>,
    events: Seq<Event<T>>,
    i: int,
    j: int,
    first: <T::NodeIdType as View>::V,
    first_term: nat,
    second: <T::NodeIdType as View>::V,
    second_term: nat,
)
    requires
        0 <= i < j < events.len(),
        run.at(events, i).backs(events[i], first, first_term),
        run.at(events, j).backs(events[j], second, second_term),
        !(events[i] is TimedOut && run.at(events, j).state.node_state is Leader && first_term
            == second_term),
    ensures
        first_term < second_term,
{
    lemma_at_step(run, events, i);
    law_term_never_decreases(run, events, i + 1, j);
    if events[i] is TimedOut {
        lemma_candidacy_stays(run, events, i, j, first_term);
    } else {
        lemma_voted_stays(run, events, i + 1, j);
    }
}

/// A node that becomes leader holds the votes of more than half of the cluster.
pub proof fn law_leader_has_majority<T: Node>(run: RunView<T>, event: Event<T>)
    requires
        !(run.state.node_state is Leader),
        run.next(event).state.node_state is Leader,
    ensures
        run.next(event).state.is_majority(run.next(event).state.votes),
{
}

/// A node that becomes leader announces itself, though it led before.
pub proof fn law_elected_leader_is_announced<T: Node>(run: RunView<T>, event: Event<T>)
    requires
        !(run.state.node_state is Leader),
        run.next(event).state.node_state is Leader,
    ensures
        run.actions(event).contains(run.state.announcement(run.state.self_id)),
{
    let actions = run.actions(event);
    assert(actions.contains(actions[0]));
    assert(actions.contains(actions.last()));
}

/// Two majorities of one cluster have a voter in common.
pub proof fn law_majorities_overlap<T: Node>(state: ElectionView<T>, first: nat, second: nat)
    requires
        state.is_majority(first),
        state.is_majority(second),
    ensures
        first + second > state.peers.len() + 1,
{
}

/// A node that leads takes itself for the leader: no event changes that, and it holds of
/// every node that does not lead from the start.
pub proof fn law_leader_knows_itself<T: Node>(run: RunView<T>, events: Seq<Event<T>>, i: int)
    requires
        run.state.leads_knowingly(),
        0 <= i <= events.len(),
    ensures
        run.at(events, i).state.leads_knowingly(),
    decreases i,
{
    if i > 0 {
        law_leader_knows_itself(run, events, i - 1);
        lemma_at_step(run, events, i - 1);
    } else {
        assert(events.take(0) =~= Seq::empty());
    }
}

/// If another node than before leads the cluster, as far as the node knows, then it is
/// announced.
pub proof fn law_new_leader_is_announced<T: Node>(run: RunView<T>, event: Event<T>)
    requires
        run.state.leads_knowingly(),
    ensures
        match run.next(event).leader() {
            Some(leader) => {
                ||| run.leader() matches Some(known) && known@ == leader@
                ||| run.actions(event).contains(run.state.announcement(leader))
            },
            None => true,
        },
{
    let actions = run.actions(event);
    if actions.len() > 0 {
        assert(actions.contains(actions[0]));
        assert(actions.contains(actions.last()));
    }
}

/// Nothing is announced but a leader that the node did not know of, or this node when it
/// becomes leader.
pub proof fn law_announcements_are_true<T: Node>(run: RunView<T>, event: Event<T>, i: int)
    requires
        0 <= i < run.actions(event).len(),
        run.actions(event)[i] is Notify,
    ensures
        ({
            let next = run.next(event);
            ||| {
                &&& run.actions(event)[i] == run.state.announcement(run.state.self_id)
                &&& !(run.state.node_state is Leader) && next.state.node_state is Leader
            }
            ||| {
                &&& next.state.leader_node matches Some(leader)
                &&& run.actions(event)[i] == run.state.announcement(leader)
                &&& !run.state.knows_leader(leader)
            }
        }),
{
}

/// The settings of an election stay as they were made, and the peers are changed by control
/// messages only.
pub proof fn law_settings_stay<T: Node>(run: RunView<T>, event: Event<T>)
    ensures
        ({
            let next = run.next(event).state;
            &&& next.self_id == run.state.self_id
            &&& next.election_timeout == run.state.election_timeout
            &&& next.heartbeat_interval == run.state.heartbeat_interval
            &&& next.message_timeout == run.state.message_timeout
            &&& next.min_node == run.state.min_node
            &&& next.peers == run.state.peers || event matches Event::Received(
                Some(Message::ControlAddNode(_)),
            ) || event matches Event::Received(Some(Message::ControlRemoveNode(_)))
        }),
{
}

/// As long as there are not enough nodes, no election is started: timeouts do nothing, and
/// a node that follows neither stands for election nor leads.
pub proof fn law_election_waits_for_nodes<T: Node>(
    run: RunView<T>,
    events: Seq<Event<T>>,
    i: int,
)
    requires
        run.state.node_state is Follower,
        0 <= i <= events.len(),
        forall|j: int| 0 <= j <= i ==> !(#[trigger] run.at(events, j)).state.enough_nodes(),
    ensures
        ({
            let now = run.at(events, i);
            &&& now.state.node_state is Follower || now.state.node_state is Terminating
            &&& now.next(Event::TimedOut).state == now.state
            &&& now.actions(Event::TimedOut) == Seq::<ActionView<T>>::empty()
        }),
    decreases i,
{
    if i > 0 {
        law_election_waits_for_nodes(run, events, i - 1);
        lemma_at_step(run, events, i - 1);
    } else {
        assert(events.take(0) =~= Seq::empty());
    }
}

/// A heartbeat that the node follows keeps it from standing for election at the first
/// timeout after it. So a node that hears of its leader between any two timeouts never
/// does.
pub proof fn law_heartbeat_defers_election<T: Node>(
    run: RunView<T>,
    events: Seq<Event<T>>,
    i: int,
    j: int,
)
    requires
        0 <= i < j <= events.len(),
        run.at(events, i).follows(events[i]),
        forall|k: int| i < k < j ==> !(#[trigger] events[k] is TimedOut),
    ensures
        !run.at(events, j).state.campaigns(),
        run.at(events, j).state.has_leader,
    decreases j - i,
{
    lemma_at_step(run, events, j - 1);
    if i + 1 < j {
        law_heartbeat_defers_election(run, events, i, j - 1);
    }
}

/// A node that has enough peers and hears of no leader stands for election at the second
/// timeout, if not at the first.
pub proof fn law_silence_starts_election<T: Node>(state: ElectionView<T>)
    requires
        state.node_state is Follower || state.node_state is Candidate,
        state.enough_nodes(),
    ensures
        state.campaigns() || state.timed_out().campaigns(),
{
}

/// A heartbeat of a term that is not over makes the receiver a follower of its sender,
/// without a vote left in that term.
pub proof fn law_heartbeat_is_followed<T: Node>(leader: ElectionView<T>, node: ElectionView<T>)
    requires
        leader.term >= node.term,
        leader.term <= usize::MAX,
        !(node.node_state is Terminating),
    ensures
        ({
            let next = node.received(
                Some(
                    Message::HeartBeat {
                        leader_node_id: leader.self_id,
                        term: leader.term as usize,
                    },
                ),
            );
            &&& next.node_state is Follower
            &&& next.has_leader
            &&& next.term == leader.term
            &&& next.knows_leader(leader.self_id)
            &&& !next.grants_vote(leader.term)
        }),
{
}

/// A heartbeat that is heard again changes nothing and is not announced again.
pub proof fn law_repeated_heartbeat_changes_nothing<T: Node>(
    state: ElectionView<T>,
    leader: T::NodeIdType,
    term: nat,
)
    requires
        state.accepts_heartbeat(term),
    ensures
        state.heard(leader, term).heard(leader, term) == state.heard(leader, term),
        state.heard(leader, term).heartbeat_actions(leader, term) == Seq::<
            ActionView<T>,
        >::empty(),
{
}

/// A vote request and the answer to it fit together: a node that grants the vote and knows
/// the candidate sends it, to the candidate, an answer that the candidate counts.
pub proof fn law_granted_vote_is_counted<T: Node>(
    candidate: ElectionView<T>,
    voter: ElectionView<T>,
)
    requires
        candidate.node_state is Candidate,
        candidate.term <= usize::MAX,
        voter.grants_vote(candidate.term),
        voter.has_peer(candidate.self_id@),
        voter.peers.len() <= usize::MAX,
    ensures
        ({
            let answer: Message<T::NodeType, T::NodeIdType> = Message::RequestVoteResponse {
                term: candidate.term as usize,
                vote: true,
            };
            let to = voter.first_peer(candidate.self_id@);
            &&& voter.message_actions(
                Some(
                    Message::RequestVote {
                        requester_node_id: candidate.self_id,
                        term: candidate.term as usize,
                    },
                ),
            ) == seq![ActionView::Send {
                    envelope: Envelope::<T> { peer: to as usize, message: answer },
                    within: voter.message_timeout,
                }]
            &&& 0 <= to < voter.peers.len()
            &&& voter.peers[to].id() == candidate.self_id@
            &&& candidate.received(
                Some(Message::RequestVoteResponse { term: candidate.term as usize, vote: true }),
            ).votes == candidate.votes + 1
        }),
{
    let id = candidate.self_id@;
    lemma_some_first_peer(voter, id);
    voter.asked_for_vote(candidate.term).lemma_first_peer(id, voter.first_peer(id));
}

/// Where there is a peer of an identifier, there is a first one.
pub(crate) proof fn lemma_some_first_peer<T: Node>(
    state: ElectionView<T>,
    id: <T::NodeIdType as View>::V,
)
    requires
        state.has_peer(id),
    ensures
        state.is_first_peer(id, state.first_peer(id)),
{
    let i = choose|i: int| 0 <= i < state.peers.len() && (#[trigger] state.peers[i]).id() == id;
    lemma_first_peer_up_to(state, id, i);
}

proof fn lemma_first_peer_up_to<T: Node>(
    state: ElectionView<T>,
    id: <T::NodeIdType as View>::V,
    i: int,
)
    requires
        0 <= i < state.peers.len(),
        state.peers[i].id() == id,
    ensures
        exists|j: int| state.is_first_peer(id, j),
    decreases i,
{
    if !state.is_first_peer(id, i) {
        let j = choose|j: int| 0 <= j < i && (#[trigger] state.peers[j]).id() == id;
        lemma_first_peer_up_to(state, id, j);
    }
}

/// `answers` votes for a candidate, one after the other.
pub open spec fn after_votes<T: Node>(state: ElectionView<T>, answers: nat) -> ElectionView<T>
    decreases answers,
{
    if answers == 0 {
        state
    } else {
        let before = after_votes(state, (answers - 1) as nat);
        before.answered(state.term, true)
    }
}

/// A candidate becomes leader with the vote that makes a majority of those that it has:
/// not earlier, and no vote after that changes it.
pub proof fn law_majority_of_votes_wins<T: Node>(state: ElectionView<T>, answers: nat)
    requires
        state.node_state is Candidate,
        !state.is_majority(state.votes),
    ensures
        after_votes(state, answers).node_state == if state.is_majority(state.votes + answers) {
            NodeState::Leader
        } else {
            NodeState::Candidate
        },
        !state.is_majority(state.votes + answers) ==> after_votes(state, answers).votes
            == state.votes + answers,
        after_votes(state, answers).peers == state.peers,
        after_votes(state, answers).term == state.term,
    decreases answers,
{
    if answers > 0 {
        law_majority_of_votes_wins(state, (answers - 1) as nat);
    }
}

/// A candidate that does not win in time starts anew in the next term, with its own vote
/// and a request to every peer. Votes of the old term do not count any more.
pub proof fn law_election_restarts_in_next_term<T: Node>(state: ElectionView<T>, vote: bool)
    requires
        state.node_state is Candidate,
        state.enough_nodes(),
        !state.has_leader,
        state.peers.len() > 0,
    ensures
        ({
            let next = state.timed_out();
            &&& next.node_state is Candidate
            &&& next.term == state.term + 1
            &&& next.votes == 1
            &&& state.timeout_actions() == state.vote_requests(next.term)
            &&& state.timeout_actions().len() == state.peers.len()
            &&& !next.counts_vote(state.term, vote)
        }),
{
}

/// To remove a node that was just added leaves the state as it was.
pub proof fn law_remove_undoes_add<T: Node>(state: ElectionView<T>, node: T)
    requires
        !state.has_peer(node.id()),
        node.id() != state.self_id@,
    ensures
        state.with_peer(node).without_peer(node) == state,
{
    let added = state.with_peer(node);
    let last = state.peers.len() as int;
    assert(added.peers[last] == node);
    assert forall|j: int| 0 <= j < last implies (#[trigger] added.peers[j]).id() != node.id() by {
        assert(state.peers[j].id() != node.id());
    }
    added.lemma_first_peer(node.id(), last);
    assert(added.without_peer(node).peers =~= state.peers);
}

/// A node that was told to remove itself takes no part in the election any more: whatever is
/// reported of it, it stays as it is and does nothing.
pub proof fn law_removed_node_takes_no_part<T: Node>(
    run: RunView<T>,
    node: T,
    events: Seq<Event<T>>,
    event: Event<T>,
)
    requires
        node.id() == run.state.self_id@,
    ensures
        ({
            let removed = run.next(Event::Received(Some(Message::ControlRemoveNode(node))));
            &&& removed.state.node_state is Terminating
            &&& removed.after(events) == removed
            &&& removed.after(events).actions(event) == Seq::<ActionView<T>>::empty()
        }),
    decreases events.len(),
{
    if events.len() > 0 {
        law_removed_node_takes_no_part(run, node, events.drop_last(), event);
    }
}

/// No node waits longer for its leader than its election timeout, and a heartbeat gives it
/// the whole of that time again.
pub proof fn law_election_timeout_bounds_wait<T: Node>(
    state: ElectionView<T>,
    events: Seq<Event<T>>,
    i: int,
)
    requires
        0 <= i <= events.len(),
    ensures
        ({
            let now = RunView::started(state).at(events, i);
            &&& now.state.election_timeout == state.election_timeout
            &&& now.remaining_election_timeout <= state.election_timeout
            &&& !(now.state.node_state is Leader) ==> now.wait() <= state.election_timeout
            &&& forall|leader_node_id: T::NodeIdType, term: usize, elapsed: u64|
                !(now.state.node_state is Terminating) ==> now.next(
                    Event::Received(Some(Message::HeartBeat { leader_node_id, term })),
                ).next(Event::Handled { elapsed }).remaining_election_timeout
                    == state.election_timeout
        }),
    decreases i,
{
    if i > 0 {
        law_election_timeout_bounds_wait(state, events, i - 1);
        lemma_at_step(RunView::started(state), events, i - 1);
    } else {
        assert(events.take(0) =~= Seq::empty());
    }
}

/// A leader that nobody disturbs sends heartbeats to all peers each time its heartbeat
/// interval is over, and goes on leading.
pub proof fn law_leader_keeps_interval<T: Node>(run: RunView<T>, elapsed: u64)
    requires
        run.state.node_state is Leader,
        elapsed >= run.wait(),
    ensures
        ({
            let woken = run.next(Event::Woken { elapsed });
            let next = woken.next(Event::TimedOut);
            &&& run.actions(Event::Woken { elapsed }) == seq![run.state.heartbeat_round()]
            &&& woken.actions(Event::TimedOut) == Seq::<ActionView<T>>::empty()
            &&& next.state.node_state is Leader
            &&& next.state.term == run.state.term
            &&& next.wait() == run.state.heartbeat_interval
        }),
{
}

/// Messages neither delay the heartbeats of a leader nor hasten them: a leader that a
/// message wakes, and that leads on, waits for what is left of its interval.
pub proof fn law_messages_leave_interval<T: Node>(
    run: RunView<T>,
    message: Option<Message<T, T::NodeIdType>>,
    elapsed: u64,
    handled: u64,
)
    requires
        run.state.node_state is Leader,
        elapsed < run.wait(),
    ensures
        ({
            let next = run.next(Event::Woken { elapsed }).next(Event::Received(message)).next(
                Event::Handled { elapsed: handled },
            );
            &&& run.actions(Event::Woken { elapsed }) == Seq::<ActionView<T>>::empty()
            &&& next.state.node_state is Leader ==> next.wait() == run.wait() - elapsed
        }),
{
}

/// A node that is voted leader sends a round of heartbeats at once, and waits for one
/// interval before the next.
pub proof fn law_election_starts_interval<T: Node>(
    run: RunView<T>,
    message: Option<Message<T, T::NodeIdType>>,
    handled: u64,
)
    requires
        !(run.state.node_state is Leader),
        run.next(Event::Received(message)).state.node_state is Leader,
    ensures
        ({
            let next = run.next(Event::Received(message));
            &&& run.actions(Event::Received(message)).contains(next.state.heartbeat_round())
            &&& next.next(Event::Handled { elapsed: handled }).wait()
                == run.state.heartbeat_interval
        }),
{
    let actions = run.actions(Event::Received(message));
    assert(actions.contains(actions.last()));
}

/// No leader waits longer than its heartbeat interval before it sends heartbeats.
pub proof fn law_leader_waits_one_interval<T: Node>(
    state: ElectionView<T>,
    events: Seq<Event<T>>,
    i: int,
)
    requires
        0 <= i <= events.len(),
    ensures
        ({
            let now = RunView::started(state).at(events, i);
            &&& now.state.heartbeat_interval == state.heartbeat_interval
            &&& now.remaining_heartbeat_interval <= state.heartbeat_interval
            &&& now.state.node_state is Leader ==> now.wait() <= state.heartbeat_interval
        }),
    decreases i,
{
    if i > 0 {
        law_leader_waits_one_interval(state, events, i - 1);
        lemma_at_step(RunView::started(state), events, i - 1);
    } else {
        assert(events.take(0) =~= Seq::empty());
    }
}

} // verus!
