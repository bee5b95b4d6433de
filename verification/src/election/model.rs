use vstd::prelude::*;

use super::action::{ActionView, Envelope};
use crate::{Message, Node, NodeState};

verus! {

/// The mathematical value of a
/// [`RaftElectionState`](crate::election::RaftElectionState): what one node knows.
#[verifier::ext_equal]
pub struct ElectionView<T: Node> {
    /// Identifier of this node
    pub self_id: T::NodeIdType,
    /// Time without a heartbeat after which the node stops waiting for its leader
    pub election_timeout: u64,
    /// Part that the node plays
    pub node_state: NodeState,
    /// Votes gathered in the current election, its own among them
    pub votes: nat,
    /// Latest term that the node knows of
    pub term: nat,
    /// The other nodes of the cluster
    pub peers: Seq<T>,
    /// Whether the node may not vote in its term any more
    pub voted_for_term: bool,
    /// Whether a leader was heard of since the last timeout
    pub has_leader: bool,
    /// The leader that was last announced
    pub leader_node: Option<T::NodeIdType>,
    /// Time between two rounds of heartbeats
    pub heartbeat_interval: u64,
    /// Time after which a message counts as lost
    pub message_timeout: u64,
    /// Number of peers without which no election is started
    pub min_node: nat,
}

impl<T: Node> ElectionView<T> {
    /// The state in which a node joins: a follower that has not voted and knows no leader.
    pub open spec fn initial(
        self_id: T::NodeIdType,
        election_timeout: u64,
        heartbeat_interval: u64,
        message_timeout: u64,
        peers: Seq<T>,
        min_node: nat,
    ) -> Self {
        ElectionView {
            self_id,
            election_timeout,
            node_state: NodeState::Follower,
            votes: 0,
            term: 0,
            peers,
            voted_for_term: false,
            has_leader: false,
            leader_node: None,
            heartbeat_interval,
            message_timeout,
            min_node,
        }
    }
}

/// Peers
impl<T: Node> ElectionView<T> {
    /// `i` is the position of the first peer of that identifier.
    pub open spec fn is_first_peer(self, id: <T::NodeIdType as View>::V, i: int) -> bool {
        &&& 0 <= i < self.peers.len()
        &&& self.peers[i].id() == id
        &&& forall|j: int| 0 <= j < i ==> (#[trigger] self.peers[j]).id() != id
    }

    /// Some peer has that identifier.
    pub open spec fn has_peer(self, id: <T::NodeIdType as View>::V) -> bool {
        exists|i: int| 0 <= i < self.peers.len() && (#[trigger] self.peers[i]).id() == id
    }

    /// Position of the first peer of that identifier.
    pub open spec fn first_peer(self, id: <T::NodeIdType as View>::V) -> int {
        choose|i: int| self.is_first_peer(id, i)
    }

    /// There is only one first peer of an identifier.
    pub proof fn lemma_first_peer(self, id: <T::NodeIdType as View>::V, i: int)
        requires
            self.is_first_peer(id, i),
        ensures
            self.has_peer(id),
            self.first_peer(id) == i,
    {
        let first = self.first_peer(id);
        assert(self.is_first_peer(id, first));
        if first < i {
            assert(self.peers[first].id() != id);
        } else if i < first {
            assert(self.peers[i].id() != id);
        }
    }

    /// The same message for every peer, in the order of the peers.
    pub open spec fn to_every_peer(
        self,
        message: Message<T::NodeType, T::NodeIdType>,
    ) -> Seq<Envelope<T>> {
        Seq::new(self.peers.len(), |i: int| Envelope { peer: i as usize, message })
    }

    /// The state after `node` joined.
    pub open spec fn with_peer(self, node: T) -> Self {
        ElectionView { peers: self.peers.push(node), ..self }
    }

    /// The state after `node` was taken out: the first peer of its identifier is gone,
    /// and a node that is itself taken out terminates.
    pub open spec fn without_peer(self, node: T) -> Self {
        ElectionView {
            node_state: if node.id() == self.self_id@ {
                NodeState::Terminating
            } else {
                self.node_state
            },
            peers: if self.has_peer(node.id()) {
                self.peers.remove(self.first_peer(node.id()))
            } else {
                self.peers
            },
            ..self
        }
    }
}

/// Winning
impl<T: Node> ElectionView<T> {
    /// So many votes are more than half of the cluster, this node included.
    pub open spec fn is_majority(self, votes: nat) -> bool {
        2 * votes > self.peers.len() + 1
    }

    /// The notice that `leader` leads from now on.
    pub open spec fn announcement(self, leader: T::NodeIdType) -> ActionView<T> {
        ActionView::Notify {
            message: Message::ControlLeaderChanged(leader),
            within: self.message_timeout,
        }
    }

    /// A round of heartbeats of this node.
    pub open spec fn heartbeat_round(self) -> ActionView<T> {
        ActionView::SendAll {
            envelopes: self.to_every_peer(
                Message::HeartBeat { leader_node_id: self.self_id, term: self.term as usize },
            ),
            within: self.message_timeout,
        }
    }

    /// A node that leads takes itself for the leader.
    pub open spec fn leads_knowingly(self) -> bool {
        self.node_state is Leader ==> self.leader_node == Some(self.self_id)
    }

    /// The state after the node was voted leader.
    pub open spec fn elected(self) -> Self {
        ElectionView {
            node_state: NodeState::Leader,
            leader_node: Some(self.self_id),
            ..self
        }
    }

    /// What a node does that was voted leader.
    pub open spec fn elected_actions(self) -> Seq<ActionView<T>> {
        seq![self.announcement(self.self_id), self.heartbeat_round()]
    }
}

/// Timeouts
impl<T: Node> ElectionView<T> {
    /// There are enough nodes for an election.
    pub open spec fn enough_nodes(self) -> bool {
        self.peers.len() >= self.min_node
    }

    /// A timeout makes the node stand for election.
    pub open spec fn campaigns(self) -> bool {
        &&& self.enough_nodes()
        &&& !self.has_leader
        &&& self.node_state is Follower || self.node_state is Candidate
    }

    /// A timeout makes the node leader though it does not stand for election: it is being
    /// removed and holds the votes of an election that it has not won.
    pub open spec fn wins_while_terminating(self) -> bool {
        &&& self.enough_nodes()
        &&& !self.has_leader
        &&& self.node_state is Terminating
        &&& self.is_majority(self.votes)
    }

    /// The state after a timeout.
    pub open spec fn timed_out(self) -> Self {
        if self.campaigns() {
            ElectionView {
                term: self.term + 1,
                votes: 1,
                node_state: if self.is_majority(1) {
                    NodeState::Leader
                } else {
                    NodeState::Candidate
                },
                leader_node: if self.is_majority(1) {
                    Some(self.self_id)
                } else {
                    self.leader_node
                },
                ..self
            }
        } else if self.wins_while_terminating() {
            self.elected()
        } else if self.enough_nodes() {
            ElectionView { has_leader: self.node_state is Leader, ..self }
        } else {
            self
        }
    }

    /// The vote requests of a node that stands for election in `term`.
    pub open spec fn vote_requests(self, term: nat) -> Seq<ActionView<T>> {
        self.to_every_peer(
            Message::RequestVote { requester_node_id: self.self_id, term: term as usize },
        ).map_values(
            |envelope: Envelope<T>| ActionView::Send { envelope, within: self.message_timeout },
        )
    }

    /// What the node does on a timeout.
    pub open spec fn timeout_actions(self) -> Seq<ActionView<T>> {
        let requests = if self.campaigns() {
            self.vote_requests(self.term + 1)
        } else {
            Seq::empty()
        };
        if self.campaigns() && self.is_majority(1) || self.wins_while_terminating() {
            requests.push(self.announcement(self.self_id))
        } else {
            requests
        }
    }
}

/// Heartbeats
impl<T: Node> ElectionView<T> {
    /// The node follows a leader of that term.
    pub open spec fn accepts_heartbeat(self, term: nat) -> bool {
        term >= self.term || self.node_state is Terminating
    }

    /// `leader` is the leader that was last announced.
    pub open spec fn knows_leader(self, leader: T::NodeIdType) -> bool {
        self.leader_node matches Some(known) && known@ == leader@
    }

    /// The state after a heartbeat.
    pub open spec fn heard(self, leader: T::NodeIdType, term: nat) -> Self {
        if self.accepts_heartbeat(term) {
            ElectionView {
                node_state: if self.node_state is Terminating {
                    NodeState::Terminating
                } else {
                    NodeState::Follower
                },
                voted_for_term: true,
                term,
                has_leader: true,
                leader_node: if self.knows_leader(leader) {
                    self.leader_node
                } else {
                    Some(leader)
                },
                ..self
            }
        } else {
            self
        }
    }

    /// What the node does on a heartbeat.
    pub open spec fn heartbeat_actions(self, leader: T::NodeIdType, term: nat) -> Seq<
        ActionView<T>,
    > {
        if self.accepts_heartbeat(term) && !self.knows_leader(leader) {
            seq![self.announcement(leader)]
        } else {
            Seq::empty()
        }
    }
}

/// Votes
impl<T: Node> ElectionView<T> {
    /// The node votes for a candidate of that term.
    pub open spec fn grants_vote(self, term: nat) -> bool {
        &&& !(self.node_state is Candidate)
        &&& term > self.term || (term == self.term && !self.voted_for_term)
    }

    /// The state after a vote request.
    pub open spec fn asked_for_vote(self, term: nat) -> Self {
        if self.grants_vote(term) {
            ElectionView { term, voted_for_term: true, ..self }
        } else {
            self
        }
    }

    /// The vote of this node, sent to the first peer of that identifier.
    pub open spec fn vote_for(self, id: <T::NodeIdType as View>::V) -> Seq<ActionView<T>> {
        if self.has_peer(id) {
            seq![
                ActionView::Send {
                    envelope: Envelope {
                        peer: self.first_peer(id) as usize,
                        message: Message::RequestVoteResponse {
                            term: self.term as usize,
                            vote: true,
                        },
                    },
                    within: self.message_timeout,
                },
            ]
        } else {
            Seq::empty()
        }
    }

    /// What the node does on a vote request.
    pub open spec fn vote_request_actions(self, requester: T::NodeIdType, term: nat) -> Seq<
        ActionView<T>,
    > {
        if self.grants_vote(term) {
            self.asked_for_vote(term).vote_for(requester@)
        } else {
            Seq::empty()
        }
    }

    /// The node counts that vote.
    pub open spec fn counts_vote(self, term: nat, vote: bool) -> bool {
        vote && term == self.term && self.node_state is Candidate
    }

    /// The state after a vote was counted, whether or not it decides the election.
    pub open spec fn with_vote(self) -> Self {
        ElectionView { votes: self.votes + 1, ..self }
    }

    /// The state after the response to a vote request.
    pub open spec fn answered(self, term: nat, vote: bool) -> Self {
        if !self.counts_vote(term, vote) {
            self
        } else if self.is_majority(self.votes + 1) {
            self.with_vote().elected()
        } else {
            self.with_vote()
        }
    }

    /// What the node does on the response to a vote request.
    pub open spec fn answer_actions(self, term: nat, vote: bool) -> Seq<ActionView<T>> {
        if self.counts_vote(term, vote) && self.is_majority(self.votes + 1) {
            self.elected_actions()
        } else {
            Seq::empty()
        }
    }
}

/// Messages of every kind
impl<T: Node> ElectionView<T> {
    /// The state after a message. `None` stands for a closed channel.
    pub open spec fn received(self, message: Option<Message<T, T::NodeIdType>>) -> Self {
        match message {
            Some(Message::HeartBeat { leader_node_id, term }) => self.heard(
                leader_node_id,
                term as nat,
            ),
            Some(Message::RequestVote { requester_node_id, term }) => self.asked_for_vote(
                term as nat,
            ),
            Some(Message::RequestVoteResponse { term, vote }) => self.answered(term as nat, vote),
            Some(Message::ControlAddNode(node)) => self.with_peer(node),
            Some(Message::ControlRemoveNode(node)) => self.without_peer(node),
            Some(Message::ControlLeaderChanged(_)) => self,
            None => self,
        }
    }

    /// What the node does on a message.
    pub open spec fn message_actions(self, message: Option<Message<T, T::NodeIdType>>) -> Seq<
        ActionView<T>,
    > {
        match message {
            Some(Message::HeartBeat { leader_node_id, term }) => self.heartbeat_actions(
                leader_node_id,
                term as nat,
            ),
            Some(Message::RequestVote { requester_node_id, term }) => self.vote_request_actions(
                requester_node_id,
                term as nat,
            ),
            Some(Message::RequestVoteResponse { term, vote }) => self.answer_actions(
                term as nat,
                vote,
            ),
            _ => Seq::empty(),
        }
    }
}

} // verus!
