//! What holds of a whole cluster: in a term, at most one node is elected.

use vstd::prelude::*;
use vstd::set_lib::{
    lemma_int_range, lemma_len_subset, lemma_map_size, lemma_set_disjoint_lens, set_int_range,
};

use super::laws::{
    law_one_candidate_per_term, law_settings_stay, law_term_never_decreases, lemma_at_step,
};
use super::run::{Event, RunView};
use crate::{Message, Node};

verus! {

/// The part of one node in an election: how it started, and all that happened to it.
pub struct Member<T: Node> {
    /// The node when it started
    pub start: RunView<T>,
    /// What happened to it since
    pub events: Seq<Event<T>>,
}

impl<T: Node> Member<T> {
    /// The node after the first `n` events.
    pub open spec fn at(self, n: int) -> RunView<T> {
        self.start.at(self.events, n)
    }

    /// The identifier of the node.
    pub open spec fn id(self) -> <T::NodeIdType as View>::V {
        self.start.state.self_id@
    }

    /// The node started as a follower.
    pub open spec fn valid(self) -> bool {
        self.start.state.node_state is Follower
    }

    /// The node votes for that candidate at event `i`.
    pub open spec fn backs_at(
        self,
        i: int,
        candidate: <T::NodeIdType as View>::V,
        term: nat,
    ) -> bool {
        0 <= i < self.events.len() && self.at(i).backs(self.events[i], candidate, term)
    }

    /// The node votes for that candidate.
    pub open spec fn backs(self, candidate: <T::NodeIdType as View>::V, term: nat) -> bool {
        exists|i: int| self.backs_at(i, candidate, term)
    }

    /// The node does not vote for a rival in the term that it leads.
    pub open spec fn keeps_its_vote(self, term: nat) -> bool {
        forall|i: int, candidate: <T::NodeIdType as View>::V| #[trigger]
            self.backs_at(i, candidate, term) && self.events[i] is Received
                ==> !(self.at(i).state.node_state is Leader && self.at(i).state.term == term)
    }

    /// Event `i` is an answer by which the node is given a vote.
    pub open spec fn is_given_vote_at(self, i: int, term: nat) -> bool {
        0 <= i < self.events.len() && (self.events[i] matches Event::Received(
            Some(Message::RequestVoteResponse { term: given, vote }),
        ) && vote && given == term)
    }

    /// Event `i` is a vote that the node counts.
    pub open spec fn counts_at(self, i: int, term: nat) -> bool {
        self.is_given_vote_at(i, term) && self.at(i).state.counts_vote(term, true)
    }

    /// The votes of that term that the node counted among its first `n` events.
    pub open spec fn counted(self, n: int, term: nat) -> Set<int> {
        set_int_range(0, n).filter(|i: int| self.counts_at(i, term))
    }

    /// Event `n` makes the node leader.
    pub open spec fn elected_at(self, n: int, term: nat) -> bool {
        &&& 0 <= n < self.events.len()
        &&& !(self.at(n).state.node_state is Leader)
        &&& self.at(n + 1).state.node_state is Leader
        &&& self.at(n + 1).state.term == term
    }
}

/// The members that vote for that candidate.
pub open spec fn backers<T: Node>(
    cluster: Seq<Member<T>>,
    candidate: <T::NodeIdType as View>::V,
    term: nat,
) -> Set<int> {
    set_int_range(0, cluster.len() as int).filter(
        |k: int| cluster[k].backs(candidate, term),
    )
}

/// Votes are neither forged nor delivered twice: `origin` tells for every vote that a
/// member is given, which member gave it to that one and when.
pub open spec fn votes_are_genuine<T: Node>(
    cluster: Seq<Member<T>>,
    origin: spec_fn(int, int) -> (int, int),
    term: nat,
) -> bool {
    &&& forall|c: int, i: int| #![trigger cluster[c].is_given_vote_at(i, term)]
        0 <= c < cluster.len() && cluster[c].is_given_vote_at(i, term) ==> {
            let (k, j) = origin(c, i);
            &&& 0 <= k < cluster.len()
            &&& cluster[k].backs_at(j, cluster[c].id(), term)
            &&& cluster[k].events[j] is Received
        }
    &&& forall|c: int, i: int, d: int, j: int| #![trigger origin(c, i), origin(d, j)]
        0 <= c < cluster.len() && 0 <= d < cluster.len() && cluster[c].is_given_vote_at(i, term)
            && cluster[d].is_given_vote_at(j, term) && origin(c, i) == origin(d, j) ==> c == d
            && i == j
}

proof fn lemma_id_stays<T: Node>(member: Member<T>, n: int)
    requires
        0 <= n <= member.events.len(),
    ensures
        member.at(n).state.self_id == member.start.state.self_id,
    decreases n,
{
    if n > 0 {
        lemma_id_stays(member, n - 1);
        lemma_at_step(member.start, member.events, n - 1);
        law_settings_stay(member.at(n - 1), member.events[n - 1]);
    } else {
        assert(member.events.take(0) =~= Seq::empty());
    }
}

/// A candidate stood for election in its term, and has, besides its own vote, those that
/// it counted.
pub proof fn law_candidate_votes<T: Node>(member: Member<T>, n: int)
    requires
        member.valid(),
        0 <= n <= member.events.len(),
        member.at(n).state.node_state is Candidate,
    ensures
        ({
            let state = member.at(n).state;
            &&& state.votes == 1 + member.counted(n, state.term).len()
            &&& exists|m: int|
                m < n && member.events[m] is TimedOut && #[trigger] member.backs_at(
                    m,
                    member.id(),
                    state.term,
                )
        }),
    decreases n,
{
    if n == 0 {
        assert(member.events.take(0) =~= Seq::empty());
    } else {
        let before = member.at(n - 1);
        let event = member.events[n - 1];
        let term = member.at(n).state.term;
        lemma_at_step(member.start, member.events, n - 1);
        lemma_id_stays(member, n - 1);
        lemma_int_range(0, n - 1);
        if event is TimedOut && before.state.campaigns() {
            assert(member.backs_at(n - 1, member.id(), term));
            assert forall|i: int| !member.counted(n, term).contains(i) by {
                if member.counted(n, term).contains(i) {
                    law_term_never_decreases(member.start, member.events, i, n - 1);
                }
            }
            assert(member.counted(n, term) =~= Set::empty());
        } else {
            law_candidate_votes(member, n - 1);
            if member.counts_at(n - 1, term) {
                assert(member.counted(n, term) =~= member.counted(n - 1, term).insert(n - 1));
            } else {
                assert(member.counted(n, term) =~= member.counted(n - 1, term));
            }
        }
    }
}

/// Nodes that keep their vote vote for one candidate in a term.
proof fn lemma_one_backed_candidate<T: Node>(
    member: Member<T>,
    i: int,
    first: <T::NodeIdType as View>::V,
    j: int,
    second: <T::NodeIdType as View>::V,
    term: nat,
)
    requires
        member.valid(),
        member.keeps_its_vote(term),
        member.backs_at(i, first, term),
        member.backs_at(j, second, term),
    ensures
        i == j,
        first == second,
{
    let (start, events) = (member.start, member.events);
    if i < j {
        lemma_at_step(start, events, i);
        law_term_never_decreases(start, events, i + 1, j);
        law_one_candidate_per_term(start, events, i, j, first, term, second, term);
    } else if j < i {
        lemma_at_step(start, events, j);
        law_term_never_decreases(start, events, j + 1, i);
        law_one_candidate_per_term(start, events, j, i, second, term, first, term);
    }
}

/// A node that is elected has the votes of more than half of the cluster.
pub proof fn law_elected_by_majority<T: Node>(
    cluster: Seq<Member<T>>,
    origin: spec_fn(int, int) -> (int, int),
    term: nat,
    c: int,
    n: int,
)
    requires
        forall|k: int|
            0 <= k < cluster.len() ==> (#[trigger] cluster[k]).valid()
                && cluster[k].keeps_its_vote(term),
        votes_are_genuine(cluster, origin, term),
        0 <= c < cluster.len(),
        cluster[c].elected_at(n, term),
        cluster[c].at(n).state.peers.len() + 1 >= cluster.len(),
    ensures
        2 * backers(cluster, cluster[c].id(), term).len() > cluster.len(),
{
    let member = cluster[c];
    let id = member.id();
    let before = member.at(n);
    let event = member.events[n];
    lemma_at_step(member.start, member.events, n);
    lemma_id_stays(member, n);
    lemma_int_range(0, n);
    lemma_int_range(0, n + 1);
    lemma_int_range(0, cluster.len() as int);
    let all = backers(cluster, id, term);
    let counted = member.counted(n + 1, term);
    // the votes that it counted, its own aside
    let m = if event is TimedOut {
        assert(member.backs_at(n, id, term));
        n
    } else {
        law_candidate_votes(member, n);
        assert(counted =~= member.counted(n, term).insert(n));
        choose|m: int|
            m < n && member.events[m] is TimedOut && #[trigger] member.backs_at(m, id, term)
    };
    assert(member.backs_at(m, id, term) && member.events[m] is TimedOut);
    assert(2 * (1 + counted.len()) > cluster.len());
    // the members that gave them
    let giver = |i: int| origin(c, i).0;
    let givers = counted.map(giver);
    assert forall|i: int, j: int|
        counted.contains(i) && counted.contains(j) && #[trigger] giver(i) == #[trigger] giver(
            j,
        ) implies i == j by {
        assert(member.is_given_vote_at(i, term) && member.is_given_vote_at(j, term));
        let (k, at_i) = origin(c, i);
        let (_, at_j) = origin(c, j);
        lemma_one_backed_candidate(cluster[k], at_i, id, at_j, id, term);
    }
    lemma_map_size(counted, givers, giver);
    assert forall|k: int| givers.contains(k) implies #[trigger] all.contains(k) && k != c by {
        let i = choose|i: int| counted.contains(i) && giver(i) == k;
        assert(member.is_given_vote_at(i, term));
        assert(cluster[k].backs_at(origin(c, i).1, id, term));
        if k == c {
            lemma_one_backed_candidate(member, m, id, origin(c, i).1, id, term);
        }
    }
    assert(all.contains(c));
    lemma_len_subset(givers.insert(c), all);
}

/// In a term, at most one node of a cluster is elected.
///
/// The members know at least each other, `votes_are_genuine` says what is asked of the
/// network, and no two members share an identifier. Left out is the one case in which two
/// nodes can be elected: a leader votes for a rival in the term that it leads.
pub proof fn law_one_leader_per_term<T: Node>(
    cluster: Seq<Member<T>>,
    origin: spec_fn(int, int) -> (int, int),
    term: nat,
    c: int,
    n: int,
    d: int,
    m: int,
)
    requires
        forall|k: int|
            0 <= k < cluster.len() ==> (#[trigger] cluster[k]).valid()
                && cluster[k].keeps_its_vote(term),
        forall|k: int, l: int|
            0 <= k < cluster.len() && 0 <= l < cluster.len() && (#[trigger] cluster[k]).id() == (
            #[trigger] cluster[l]).id() ==> k == l,
        votes_are_genuine(cluster, origin, term),
        0 <= c < cluster.len(),
        cluster[c].elected_at(n, term),
        cluster[c].at(n).state.peers.len() + 1 >= cluster.len(),
        0 <= d < cluster.len(),
        cluster[d].elected_at(m, term),
        cluster[d].at(m).state.peers.len() + 1 >= cluster.len(),
    ensures
        c == d,
{
    law_elected_by_majority(cluster, origin, term, c, n);
    law_elected_by_majority(cluster, origin, term, d, m);
    if c != d {
        let first = backers(cluster, cluster[c].id(), term);
        let second = backers(cluster, cluster[d].id(), term);
        lemma_int_range(0, cluster.len() as int);
        assert forall|k: int| !(first.contains(k) && second.contains(k)) by {
            if first.contains(k) && second.contains(k) {
                let i = choose|i: int| cluster[k].backs_at(i, cluster[c].id(), term);
                let j = choose|j: int| cluster[k].backs_at(j, cluster[d].id(), term);
                lemma_one_backed_candidate(
                    cluster[k],
                    i,
                    cluster[c].id(),
                    j,
                    cluster[d].id(),
                    term,
                );
            }
        }
        lemma_set_disjoint_lens(first, second);
        lemma_len_subset(first + second, set_int_range(0, cluster.len() as int));
    }
}

} // verus!
