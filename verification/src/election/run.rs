use vstd::prelude::*;

use super::action::{Action, ActionView};
use super::model::ElectionView;
use super::state::{
    do_leader_stuff, handle_after_timeout, handle_message, RaftElectionState,
};
use super::timing::{get_current_timeout, unsigned_subtract};
use crate::{Message, Node, NodeState};

verus! {

/// An election on its way: the state of the node and what is left of its timeouts.
///
/// The driver takes it through turns. In each turn it waits for a message, no longer than
/// [`current_timeout`](ElectionRun::current_timeout) says, and then reports, by
/// [`raft_election`], how long that took (`Woken`) and what came of it: a message
/// (`Received`, and `Handled` once the actions are carried out) or nothing (`TimedOut`).
pub struct ElectionRun<T: Node> {
    state: RaftElectionState<T>,
    remaining_election_timeout: u64,
    remaining_heartbeat_interval: u64,
    heartbeat: bool,
}

/// The mathematical value of an [`ElectionRun`].
#[verifier::ext_equal]
pub struct RunView<T: Node> {
    /// State of the node
    pub state: ElectionView<T>,
    /// What is left of the election timeout
    pub remaining_election_timeout: u64,
    /// What is left of the heartbeat interval
    pub remaining_heartbeat_interval: u64,
    /// Whether the last message was a heartbeat
    pub heartbeat: bool,
}

/// What a driver reports. Times are in milliseconds.
pub enum Event<T: Node> {
    /// The wait is over.
    Woken {
        /// Time since the wait began
        elapsed: u64,
    },
    /// A message came, or, if it is `None`, no message can come any more.
    Received(Option<Message<T, T::NodeIdType>>),
    /// What the message asked for was carried out.
    Handled {
        /// Time since the wait began
        elapsed: u64,
    },
    /// No message came.
    TimedOut,
}

impl<T: Node> RunView<T> {
    /// What is left of `time` when `elapsed` has gone by.
    pub open spec fn left_of(time: u64, elapsed: u64) -> u64 {
        if elapsed <= time {
            (time - elapsed) as u64
        } else {
            0
        }
    }

    /// An election that has just been started.
    pub open spec fn started(state: ElectionView<T>) -> Self {
        RunView {
            state,
            remaining_election_timeout: state.election_timeout,
            remaining_heartbeat_interval: state.heartbeat_interval,
            heartbeat: false,
        }
    }

    /// How long to wait for the next message.
    pub open spec fn wait(self) -> u64 {
        match self.state.node_state {
            NodeState::Terminating => self.state.election_timeout,
            NodeState::Leader => self.remaining_heartbeat_interval,
            _ => self.remaining_election_timeout,
        }
    }

    /// The next heartbeats are due when a leader has waited so long.
    pub open spec fn heartbeats_due(self, elapsed: u64) -> bool {
        self.state.node_state is Leader && elapsed >= self.remaining_heartbeat_interval
    }

    /// That event makes a node leader by the votes of others.
    pub open spec fn wins_vote(self, event: Event<T>) -> bool {
        &&& !(self.state.node_state is Leader)
        &&& event matches Event::Received(message)
        &&& self.state.received(message).node_state is Leader
    }

    /// The election after an event. Nothing happens any more to a node that was removed.
    pub open spec fn next(self, event: Event<T>) -> Self {
        if self.state.node_state is Terminating {
            self
        } else {
            self.step(event)
        }
    }

    /// What is to be done on an event. Nothing is asked of a node that was removed.
    pub open spec fn actions(self, event: Event<T>) -> Seq<ActionView<T>> {
        if self.state.node_state is Terminating {
            Seq::empty()
        } else {
            self.step_actions(event)
        }
    }

    /// The election after an event, of a node that takes part in it.
    pub open spec fn step(self, event: Event<T>) -> Self {
        match event {
            Event::Woken { elapsed } => RunView {
                remaining_heartbeat_interval: if self.heartbeats_due(elapsed) {
                    self.state.heartbeat_interval
                } else if self.state.node_state is Leader {
                    Self::left_of(self.remaining_heartbeat_interval, elapsed)
                } else {
                    self.remaining_heartbeat_interval
                },
                ..self
            },
            Event::Received(message) => RunView {
                state: self.state.received(message),
                remaining_heartbeat_interval: if self.wins_vote(event) {
                    self.state.heartbeat_interval
                } else {
                    self.remaining_heartbeat_interval
                },
                heartbeat: message matches Some(Message::HeartBeat { .. }),
                ..self
            },
            Event::Handled { elapsed } => RunView {
                remaining_election_timeout: if self.heartbeat {
                    self.state.election_timeout
                } else {
                    Self::left_of(self.remaining_election_timeout, elapsed)
                },
                ..self
            },
            Event::TimedOut => RunView {
                state: self.state.timed_out(),
                remaining_election_timeout: self.state.election_timeout,
                ..self
            },
        }
    }

    /// What is to be done on an event, by a node that takes part in the election.
    pub open spec fn step_actions(self, event: Event<T>) -> Seq<ActionView<T>> {
        match event {
            Event::Woken { elapsed } => if self.heartbeats_due(elapsed) {
                seq![self.state.heartbeat_round()]
            } else {
                Seq::empty()
            },
            Event::Received(message) => self.state.message_actions(message),
            Event::Handled { .. } => Seq::empty(),
            Event::TimedOut => self.state.timeout_actions(),
        }
    }
}

/// Whole elections
impl<T: Node> RunView<T> {
    /// The election after a sequence of events.
    pub open spec fn after(self, events: Seq<Event<T>>) -> Self
        decreases events.len(),
    {
        if events.len() == 0 {
            self
        } else {
            self.after(events.drop_last()).next(events.last())
        }
    }

    /// The election after the first `n` of those events.
    pub open spec fn at(self, events: Seq<Event<T>>, n: int) -> Self {
        self.after(events.take(n))
    }

    /// On that event the node votes for a candidate of that term, be it another one
    /// or itself.
    pub open spec fn backs(
        self,
        event: Event<T>,
        candidate: <T::NodeIdType as View>::V,
        term: nat,
    ) -> bool {
        match event {
            Event::Received(Some(Message::RequestVote { requester_node_id, term: asked })) => {
                &&& !(self.state.node_state is Terminating)
                &&& self.state.grants_vote(asked as nat)
                &&& requester_node_id@ == candidate
                &&& asked == term
            },
            Event::TimedOut => {
                &&& self.state.campaigns()
                &&& self.state.self_id@ == candidate
                &&& self.state.term + 1 == term
            },
            _ => false,
        }
    }

    /// The event is a heartbeat that the node follows.
    pub open spec fn follows(self, event: Event<T>) -> bool {
        event matches Event::Received(Some(Message::HeartBeat { term, .. }))
            && self.state.accepts_heartbeat(term as nat) && !(self.state.node_state is Terminating)
    }

    /// Who leads the cluster, as far as the node knows.
    pub open spec fn leader(self) -> Option<T::NodeIdType> {
        match self.state.node_state {
            NodeState::Leader => Some(self.state.self_id),
            NodeState::Terminating => None,
            _ => self.state.leader_node,
        }
    }
}

impl<T: Node> View for ElectionRun<T> {
    type V = RunView<T>;

    closed spec fn view(&self) -> RunView<T> {
        RunView {
            state: self.state@,
            remaining_election_timeout: self.remaining_election_timeout,
            remaining_heartbeat_interval: self.remaining_heartbeat_interval,
            heartbeat: self.heartbeat,
        }
    }
}

impl<T: Node> ElectionRun<T> {
    /// What holds of every election on its way: its state is well-formed.
    pub closed spec fn wf(self) -> bool {
        self.state.wf()
    }

    /// Starts the election process.
    pub fn new(state: RaftElectionState<T>) -> (run: Self)
        requires
            state.wf(),
        ensures
            run.wf(),
            run@ == RunView::started(state@),
    {
        let remaining_election_timeout = state.election_timeout();
        let remaining_heartbeat_interval = state.heartbeat_interval();
        ElectionRun {
            state,
            remaining_election_timeout,
            remaining_heartbeat_interval,
            heartbeat: false,
        }
    }

    /// State of the node.
    pub fn state(&self) -> (state: &RaftElectionState<T>)
        ensures
            state@ == self@.state,
            self.wf() ==> state.wf(),
    {
        &self.state
    }

    /// How long to wait for the next message. There is always a next wait: an election has
    /// no end.
    pub fn current_timeout(&self) -> (timeout: u64)
        ensures
            timeout == self@.wait(),
    {
        let node_state = self.state.node_state();
        if matches!(node_state, NodeState::Terminating) {
            return self.state.election_timeout();
        }
        get_current_timeout(
            self.remaining_heartbeat_interval,
            self.remaining_election_timeout,
            matches!(node_state, NodeState::Leader),
        )
    }
}

/// Takes the election one event further. The actions are to be carried out in their order,
/// before the next event.
///
/// A leader sends heartbeats when it is elected and then once in each heartbeat interval,
/// whatever messages come in between. A node that was removed stays as it is, and nothing is
/// asked of it any more.
pub fn raft_election<T: Node>(run: &mut ElectionRun<T>, event: Event<T>) -> (actions: Vec<
    Action<T>,
>)
    requires
        old(run).wf(),
        event is TimedOut && old(run)@.state.campaigns() ==> old(run)@.state.term < usize::MAX,
    ensures
        final(run).wf(),
        final(run)@ == old(run)@.next(event),
        actions.deep_view() == old(run)@.actions(event),
{
    let mut actions: Vec<Action<T>> = Vec::new();
    assert(actions.deep_view() =~= Seq::empty());
    let node_state = run.state.node_state();
    if matches!(node_state, NodeState::Terminating) {
        return actions;
    }
    match event {
        Event::Woken { elapsed } => {
            if node_state == NodeState::Leader {
                // this block can be reached for two reasons
                // 1. heartbeat timeout => send heartbeat
                // 2. got a message from outside => recalculate remaining time
                // leader will never get election timeout
                if elapsed >= run.remaining_heartbeat_interval {
                    actions.push(do_leader_stuff(&run.state));
                    run.remaining_heartbeat_interval = run.state.heartbeat_interval();
                } else {
                    run.remaining_heartbeat_interval =
                    unsigned_subtract(run.remaining_heartbeat_interval, elapsed);
                }
            }
        },
        Event::Received(message) => {
            let (heartbeat, asked) = handle_message(&mut run.state, message);
            run.heartbeat = heartbeat;
            if node_state != NodeState::Leader && run.state.node_state() == NodeState::Leader {
                // a round of heartbeats is sent right now
                run.remaining_heartbeat_interval = run.state.heartbeat_interval();
            }
            actions = asked;
        },
        Event::Handled { elapsed } => {
            if run.heartbeat {
                // as long as node is receiving heartbeat, it'll never start election
                run.remaining_election_timeout = run.state.election_timeout();
            } else {
                run.remaining_election_timeout =
                unsigned_subtract(run.remaining_election_timeout, elapsed);
            }
        },
        Event::TimedOut => {
            actions = handle_after_timeout(&mut run.state);
            run.remaining_election_timeout = run.state.election_timeout();
        },
    }
    assert(event is Woken ==> actions.deep_view() =~= old(run)@.actions(event));
    actions
}

} // verus!
