//! Leader election after the manner of Raft, for a given list of nodes.
//!
//! The crate decides; it neither sends, receives nor waits. A program that drives an
//! election builds a [`RaftElectionState`](crate::election::RaftElectionState), wraps it
//! in an [`ElectionRun`](crate::election::ElectionRun) and reports what happens to it, one
//! [`Event`](crate::election::Event) at a time, to
//! [`raft_election`](crate::election::raft_election). What comes back is the list of
//! [`Action`](crate::election::Action)s to carry out.
//!
//! An election starts when nothing was heard of a leader for a whole election timeout and
//! at least `min_node` other nodes are known. The node that gathers the votes of more than
//! half of the cluster leads it, and says so by heartbeats.

use vstd::prelude::*;

/// handles election process
pub mod election;

verus! {

/// States of the node
#[derive(Debug, Clone, Copy, PartialEq, Eq, Structural)]
pub enum NodeState {
    /// Initial or the normal state of the node
    Follower,
    /// Node is holding an election and calling for votes
    Candidate,
    /// Node won the election with majority votes and became leader
    Leader,
    /// Node was removed from the cluster and takes part in no further election
    Terminating,
}

/// What an election asks of the type that identifies nodes: identifiers can be compared
/// and copied. Two identifiers name the same node when their views are equal.
pub trait Identifier: View + Sized {
    /// Whether both identifiers name the same node.
    fn same_as(&self, other: &Self) -> (same: bool)
        ensures
            same == (self@ == other@),
    ;

    /// A copy of the identifier.
    fn duplicate(&self) -> (copy: Self)
        ensures
            copy == *self,
    ;
}

impl Identifier for String {
    fn same_as(&self, other: &Self) -> (same: bool) {
        *self == *other
    }

    fn duplicate(&self) -> (copy: Self) {
        self.clone()
    }
}

impl Identifier for u64 {
    fn same_as(&self, other: &Self) -> (same: bool) {
        *self == *other
    }

    fn duplicate(&self) -> (copy: Self) {
        *self
    }
}

/// A Cluster node
pub trait Node: Sized {
    /// type of the node identifier
    type NodeIdType: Identifier;

    /// concrete node type
    type NodeType;

    /// The identifier as contracts speak of it. It belongs to the node for good; an
    /// implementation says here which one `node_id` hands out.
    open spec fn id(&self) -> <Self::NodeIdType as View>::V {
        arbitrary()
    }

    /// unique node identifier
    fn node_id(&self) -> (node_id: &Self::NodeIdType)
        ensures
            node_id@ == self.id(),
    ;
}

/// Messages to communicate with Raft
#[derive(Debug)]
pub enum Message<T, I = String> {
    /// Asking for vote from other nodes for term
    RequestVote {
        /// Sender node id
        requester_node_id: I,
        /// Term to be voted for
        term: usize,
    },
    /// Message in response to `Message::RequestVote`
    RequestVoteResponse {
        /// Term of the vote
        term: usize,
        /// Whether the vote was given
        vote: bool,
    },
    /// Heartbeat message
    HeartBeat {
        /// Node that leads the cluster
        leader_node_id: I,
        /// Term that it leads in
        term: usize,
    },
    /// Add a new node
    ControlAddNode(T),
    /// Remove an existing node
    ControlRemoveNode(T),
    /// A leader has been elected or change of existing one
    ControlLeaderChanged(I),
}

} // verus!
