use rand::Rng;
use vstd::prelude::*;

use super::action::{Action, ActionView, Envelope};
use super::model::ElectionView;
use crate::{Identifier, Message, Node, NodeState};

verus! {

/// Current state of the Raft
#[derive(Debug)]
pub struct RaftElectionState<T: Node> {
    self_id: T::NodeIdType,
    election_timeout: u64,
    node_state: NodeState,
    votes: usize,
    term: usize,
    peers: Vec<T>,
    voted_for_term: bool,
    has_leader: bool,
    leader_node: Option<T::NodeIdType>,
    heartbeat_interval: u64,
    message_timeout: u64,
    /// minimum nodes needed before starting election, excluding self
    /// if a cluster require minimum 3 nodes, set `min_node=2`, this node & 2 other peers
    min_node: usize,
}

impl<T: Node> View for RaftElectionState<T> {
    type V = ElectionView<T>;

    closed spec fn view(&self) -> ElectionView<T> {
        ElectionView {
            self_id: self.self_id,
            election_timeout: self.election_timeout,
            node_state: self.node_state,
            votes: self.votes as nat,
            term: self.term as nat,
            peers: self.peers@,
            voted_for_term: self.voted_for_term,
            has_leader: self.has_leader,
            leader_node: self.leader_node,
            heartbeat_interval: self.heartbeat_interval,
            message_timeout: self.message_timeout,
            min_node: self.min_node as nat,
        }
    }
}

/// A random number of the range from `low` up to, not including, `high`. It is drawn by
/// `gen_range` of the generator that `rand::thread_rng` hands out; taken on trust is that
/// the number lies in the range. Which number of the range comes is left to chance.
#[verifier::external_body]
fn gen_range(low: u64, high: u64) -> (number: u64)
    requires
        low < high,
    ensures
        low <= number < high,
{
    rand::thread_rng().gen_range(low..high)
}

impl<T: Node> RaftElectionState<T> {
    /// What holds of every state: a candidate has room for one more vote.
    pub closed spec fn wf(self) -> bool {
        self.node_state is Candidate ==> self.votes <= usize::MAX / 2 + 1
    }

    /// Initiate Raft election. This method doesn't start the election.
    /// # Arguments
    /// * `self_id` - Identifier of this node
    /// * `election_timeout` - Time between the elections if no heartbeat is received. Will use a
    ///   randomized value in range `[election_timeout..election_timeout*2]`
    /// * `heartbeat_interval` - Interval between heartbeat message
    /// * `message_timeout` - Timout before treating message sending as failure
    /// * `peers` - other nodes
    /// * `max_node` - Maximum number of allowed node in the cluster, by which the channel for
    ///   incoming control messages is measured
    /// * `min_node` - Minimum node required. Election will not start until number of node reach `min_node`
    ///
    /// # Returns
    /// Tuple - the initialized `RaftElectionState` & the number of messages that the channel
    /// for incoming control messages has room for
    pub fn init(
        self_id: T::NodeIdType,
        election_timeout: u64,
        heartbeat_interval: u64,
        message_timeout: u64,
        peers: Vec<T>,
        max_node: usize,
        min_node: usize,
    ) -> (initialized: (Self, usize))
        requires
            0 < election_timeout <= u64::MAX / 2,
            0 < max_node <= usize::MAX / 2,
        ensures
            initialized.0.wf(),
            election_timeout <= initialized.0@.election_timeout < 2 * election_timeout,
            initialized.0@ == ElectionView::initial(
                self_id,
                initialized.0@.election_timeout,
                heartbeat_interval,
                message_timeout,
                peers@,
                min_node as nat,
            ),
            initialized.1 == 2 * max_node,
    {
        let timeout = gen_range(election_timeout, election_timeout * 2);
        let state = Self::init_fixed_timeout(
            self_id,
            timeout,
            heartbeat_interval,
            message_timeout,
            peers,
            min_node,
        );
        (state, max_node * 2)
    }

    /// Initiate Raft election with a given election timeout, otherwise as
    /// [`init`](RaftElectionState::init) does.
    pub fn init_fixed_timeout(
        self_id: T::NodeIdType,
        timeout: u64,
        heartbeat_interval: u64,
        message_timeout: u64,
        peers: Vec<T>,
        min_node: usize,
    ) -> (state: Self)
        ensures
            state.wf(),
            state@ == ElectionView::initial(
                self_id,
                timeout,
                heartbeat_interval,
                message_timeout,
                peers@,
                min_node as nat,
            ),
    {
        RaftElectionState {
            self_id,
            election_timeout: timeout,
            node_state: NodeState::Follower,
            votes: 0,
            term: 0,
            peers,
            voted_for_term: false,
            has_leader: false,
            leader_node: None,
            heartbeat_interval,
            message_timeout,
            min_node,
        }
    }

    /// Identifier of this node.
    pub fn self_id(&self) -> (self_id: &T::NodeIdType)
        ensures
            *self_id == self@.self_id,
    {
        &self.self_id
    }

    /// Part that the node plays.
    pub fn node_state(&self) -> (node_state: NodeState)
        ensures
            node_state == self@.node_state,
    {
        self.node_state
    }

    /// Latest term that the node knows of.
    pub fn term(&self) -> (term: usize)
        ensures
            term == self@.term,
    {
        self.term
    }

    /// Votes gathered in the current election.
    pub fn votes(&self) -> (votes: usize)
        ensures
            votes == self@.votes,
    {
        self.votes
    }

    /// The other nodes of the cluster.
    pub fn peers(&self) -> (peers: &Vec<T>)
        ensures
            peers@ == self@.peers,
    {
        &self.peers
    }

    /// The leader that was last announced.
    pub fn leader_node(&self) -> (leader_node: &Option<T::NodeIdType>)
        ensures
            *leader_node == self@.leader_node,
    {
        &self.leader_node
    }

    /// Time without a heartbeat after which the node stops waiting for its leader.
    pub fn election_timeout(&self) -> (election_timeout: u64)
        ensures
            election_timeout == self@.election_timeout,
    {
        self.election_timeout
    }

    /// Time between two rounds of heartbeats.
    pub fn heartbeat_interval(&self) -> (heartbeat_interval: u64)
        ensures
            heartbeat_interval == self@.heartbeat_interval,
    {
        self.heartbeat_interval
    }

    /// Whether a timeout makes the node stand for election.
    pub fn campaigns(&self) -> (campaigns: bool)
        ensures
            campaigns == self@.campaigns(),
    {
        self.peers.len() >= self.min_node && !self.has_leader && matches!(
            self.node_state,
            NodeState::Follower | NodeState::Candidate
        )
    }

    /// Whether so many votes are more than half of the cluster.
    fn is_majority(&self, votes: usize) -> (majority: bool)
        ensures
            majority == self@.is_majority(votes as nat),
    {
        let peers = self.peers.len();
        votes > peers / 2 + peers % 2
    }

    /// Position of the first peer of that identifier, if there is one.
    fn position(&self, id: &T::NodeIdType) -> (position: Option<usize>)
        ensures
            match position {
                Some(i) => self@.is_first_peer(id@, i as int),
                None => !self@.has_peer(id@),
            },
    {
        let mut i: usize = 0;
        while i < self.peers.len()
            invariant
                i <= self.peers.len(),
                forall|j: int| 0 <= j < i ==> (#[trigger] self@.peers[j]).id() != id@,
            decreases self.peers.len() - i,
        {
            if self.peers[i].node_id().same_as(id) {
                return Some(i);
            }
            i = i + 1;
        }
        None
    }
}

/// The messages of one round of heartbeats, one for each peer.
pub fn send_heartbeat<T: Node>(state: &RaftElectionState<T>) -> (envelopes: Vec<Envelope<T>>)
    ensures
        envelopes@ == state@.to_every_peer(
            Message::HeartBeat { leader_node_id: state@.self_id, term: state@.term as usize },
        ),
{
    let mut envelopes: Vec<Envelope<T>> = Vec::new();
    let mut i: usize = 0;
    while i < state.peers.len()
        invariant
            i <= state.peers.len(),
            envelopes@.len() == i,
            forall|j: int|
                0 <= j < i ==> #[trigger] envelopes@[j] == (Envelope::<T> {
                    peer: j as usize,
                    message: Message::HeartBeat {
                        leader_node_id: state.self_id,
                        term: state.term,
                    },
                }),
        decreases state.peers.len() - i,
    {
        let message = Message::HeartBeat {
            leader_node_id: state.self_id.duplicate(),
            term: state.term,
        };
        envelopes.push(Envelope { peer: i, message });
        i = i + 1;
    }
    envelopes
}

/// What a leader does whenever its heartbeat interval is over.
pub fn do_leader_stuff<T: Node>(state: &RaftElectionState<T>) -> (action: Action<T>)
    ensures
        action.deep_view() == state@.heartbeat_round(),
{
    Action::SendAll { envelopes: send_heartbeat(state), within: state.message_timeout }
}

/// Makes the node the leader that it was voted to be.
pub fn be_a_leader<T: Node>(state: &mut RaftElectionState<T>) -> (actions: Vec<Action<T>>)
    ensures
        final(state).wf(),
        final(state)@ == old(state)@.elected(),
        actions.deep_view() == old(state)@.elected_actions(),
{
    state.node_state = NodeState::Leader;
    state.leader_node = Some(state.self_id.duplicate());
    let mut actions: Vec<Action<T>> = Vec::new();
    actions.push(
        Action::Notify {
            message: Message::ControlLeaderChanged(state.self_id.duplicate()),
            within: state.message_timeout,
        },
    );
    actions.push(do_leader_stuff(state));
    assert(actions.deep_view() =~= old(state)@.elected_actions());
    actions
}

/// What the node does when its timeout is over and no message came.
pub fn handle_after_timeout<T: Node>(state: &mut RaftElectionState<T>) -> (actions: Vec<
    Action<T>,
>)
    requires
        old(state).wf(),
        old(state)@.campaigns() ==> old(state)@.term < usize::MAX,
    ensures
        final(state).wf(),
        final(state)@ == old(state)@.timed_out(),
        actions.deep_view() == old(state)@.timeout_actions(),
{
    let mut actions: Vec<Action<T>> = Vec::new();
    // don't start election there isn't enough nodes.
    if state.peers.len() < state.min_node {
        assert(actions.deep_view() =~= old(state)@.timeout_actions());
        return actions;
    }
    if state.has_leader || state.node_state == NodeState::Leader {
        // a heartbeat sets the flag again; without one until the next timeout, there is
        // no leader any more
        state.has_leader = state.node_state == NodeState::Leader;
        assert(actions.deep_view() =~= old(state)@.timeout_actions());
        return actions;
    }
    // has no leader or initializing the raft system
    // promote to Candidate
    // if candidate, just restart the voting process.
    if matches!(state.node_state, NodeState::Follower | NodeState::Candidate) {
        state.term = state.term + 1;
        state.node_state = NodeState::Candidate;
        // self vote
        state.votes = 1;
        // ask peers to vote
        let mut i: usize = 0;
        while i < state.peers.len()
            invariant
                i <= state.peers.len(),
                actions@.len() == i,
                forall|j: int|
                    0 <= j < i ==> (#[trigger] actions@[j]).deep_view() == (ActionView::Send {
                        envelope: Envelope::<T> {
                            peer: j as usize,
                            message: Message::RequestVote {
                                requester_node_id: state.self_id,
                                term: state.term,
                            },
                        },
                        within: state.message_timeout,
                    }),
            decreases state.peers.len() - i,
        {
            let message = Message::RequestVote {
                requester_node_id: state.self_id.duplicate(),
                term: state.term,
            };
            actions.push(
                Action::Send {
                    envelope: Envelope { peer: i, message },
                    within: state.message_timeout,
                },
            );
            i = i + 1;
        }
        assert(actions.deep_view() =~= old(state)@.vote_requests(old(state)@.term + 1));
    }
    let ghost requests = actions.deep_view();
    if state.is_majority(state.votes) {
        state.node_state = NodeState::Leader;
        state.leader_node = Some(state.self_id.duplicate());
        actions.push(
            Action::Notify {
                message: Message::ControlLeaderChanged(state.self_id.duplicate()),
                within: state.message_timeout,
            },
        );
        assert(actions.deep_view() =~= requests.push(old(state)@.announcement(old(state)@.self_id)));
    }
    assert(actions.deep_view() =~= old(state)@.timeout_actions());
    actions
}

/// What the node does with a message. The flag says whether it was a heartbeat, be it one
/// that the node follows or not.
pub fn handle_message<T: Node>(
    state: &mut RaftElectionState<T>,
    msg: Option<Message<T, T::NodeIdType>>,
) -> (handled: (bool, Vec<Action<T>>))
    requires
        old(state).wf(),
    ensures
        final(state).wf(),
        final(state)@ == old(state)@.received(msg),
        handled.0 == (msg matches Some(Message::HeartBeat { .. })),
        handled.1.deep_view() == old(state)@.message_actions(msg),
{
    let mut heartbeat = false;
    let mut actions: Vec<Action<T>> = Vec::new();
    assert(actions.deep_view() =~= Seq::empty());
    if let Some(msg) = msg {
        match msg {
            Message::HeartBeat { leader_node_id, term } => {
                actions = handle_heartbeat(state, leader_node_id, term);
                heartbeat = true;
            },
            Message::RequestVote { requester_node_id, term } => {
                actions = handle_request_vote(state, requester_node_id, term);
            },
            Message::RequestVoteResponse { term, vote } => {
                actions = handle_vote_response(state, term, vote);
            },
            Message::ControlAddNode(node) => {
                handle_add_node(state, node);
            },
            Message::ControlRemoveNode(node) => {
                handle_remove_node(state, node);
            },
            Message::ControlLeaderChanged(_) => {},
        }
    }
    (heartbeat, actions)
}

/// Takes a node out of the peers. If it is this node, that ends its part in the election.
pub fn handle_remove_node<T: Node>(state: &mut RaftElectionState<T>, node: T)
    requires
        old(state).wf(),
    ensures
        final(state).wf(),
        final(state)@ == old(state)@.without_peer(node),
{
    if node.node_id().same_as(&state.self_id) {
        state.node_state = NodeState::Terminating;
    }
    if let Some(found_at) = state.position(node.node_id()) {
        proof {
            old(state)@.lemma_first_peer(node.id(), found_at as int);
        }
        state.peers.remove(found_at);
    }
}

/// Adds a node to the peers.
pub fn handle_add_node<T: Node>(state: &mut RaftElectionState<T>, node: T)
    requires
        old(state).wf(),
    ensures
        final(state).wf(),
        final(state)@ == old(state)@.with_peer(node),
{
    state.peers.push(node);
}

/// Counts a vote, if it is one for the election that the node stands in.
pub fn handle_vote_response<T: Node>(
    state: &mut RaftElectionState<T>,
    term: usize,
    vote: bool,
) -> (actions: Vec<Action<T>>)
    requires
        old(state).wf(),
    ensures
        final(state).wf(),
        final(state)@ == old(state)@.answered(term as nat, vote),
        actions.deep_view() == old(state)@.answer_actions(term as nat, vote),
{
    let actions: Vec<Action<T>> = Vec::new();
    assert(actions.deep_view() =~= Seq::empty());
    if term != state.term || !matches!(state.node_state, NodeState::Candidate) || !vote {
        // reject vote
        return actions;
    }
    state.votes = state.votes + 1;
    if state.is_majority(state.votes) {
        // yay,I won
        return be_a_leader(state);
    }
    assert(2 * state.votes <= state.peers.len() + 1);
    actions
}

/// Follows the leader that sent a heartbeat, unless its term is over.
pub fn handle_heartbeat<T: Node>(
    state: &mut RaftElectionState<T>,
    leader_node_id: T::NodeIdType,
    term: usize,
) -> (actions: Vec<Action<T>>)
    requires
        old(state).wf(),
    ensures
        final(state).wf(),
        final(state)@ == old(state)@.heard(leader_node_id, term as nat),
        actions.deep_view() == old(state)@.heartbeat_actions(leader_node_id, term as nat),
{
    let mut actions: Vec<Action<T>> = Vec::new();
    assert(actions.deep_view() =~= Seq::empty());
    if state.term > term && matches!(state.node_state, NodeState::Follower) {
        return actions;
    }
    if matches!(state.node_state, NodeState::Leader | NodeState::Candidate) {
        // if a leader/candidate receives heartbeat
        if term >= state.term {
            state.node_state = NodeState::Follower;
        } else {
            return actions;
        }
    }
    state.voted_for_term = true;
    state.term = term;
    state.has_leader = true;
    if let Some(current_leader_node) = &state.leader_node {
        if current_leader_node.same_as(&leader_node_id) {
            // leader hasn't changed
            return actions;
        }
    }
    state.leader_node = Some(leader_node_id.duplicate());
    actions.push(
        Action::Notify {
            message: Message::ControlLeaderChanged(leader_node_id),
            within: state.message_timeout,
        },
    );
    assert(actions.deep_view() =~= seq![old(state)@.announcement(leader_node_id)]);
    actions
}

/// Votes for the node that asks, unless this node is a candidate, knows of a later term or
/// may not vote in that term any more.
pub fn handle_request_vote<T: Node>(
    state: &mut RaftElectionState<T>,
    requester_node_id: T::NodeIdType,
    term: usize,
) -> (actions: Vec<Action<T>>)
    requires
        old(state).wf(),
    ensures
        final(state).wf(),
        final(state)@ == old(state)@.asked_for_vote(term as nat),
        actions.deep_view() == old(state)@.vote_request_actions(requester_node_id, term as nat),
{
    let actions: Vec<Action<T>> = Vec::new();
    assert(actions.deep_view() =~= Seq::empty());
    if matches!(state.node_state, NodeState::Candidate) {
        // already a candidate node, don't vote
        return actions;
    }
    if state.term > term {
        // term is not high enough
        return actions;
    } else if state.term == term && state.voted_for_term {
        // already voted for the term
        return actions;
    }
    state.term = term;
    state.voted_for_term = true;
    send_vote(state, &requester_node_id)
}

/// The vote of this node for another, if that one is among the peers.
pub fn send_vote<T: Node>(
    state: &RaftElectionState<T>,
    requester_node_id: &T::NodeIdType,
) -> (actions: Vec<Action<T>>)
    ensures
        actions.deep_view() == state@.vote_for(requester_node_id@),
{
    let mut actions: Vec<Action<T>> = Vec::new();
    if let Some(peer) = state.position(requester_node_id) {
        proof {
            state@.lemma_first_peer(requester_node_id@, peer as int);
        }
        let message = Message::RequestVoteResponse { vote: true, term: state.term };
        actions.push(
            Action::Send { envelope: Envelope { peer, message }, within: state.message_timeout },
        );
    }
    assert(actions.deep_view() =~= state@.vote_for(requester_node_id@));
    actions
}

} // verus!
