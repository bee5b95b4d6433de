//! The election of a leader: the state of one node, what it makes of each message and
//! timeout, and the turns in which a driver takes it through an election.

mod action;
pub mod cluster;
pub mod laws;
mod model;
mod run;
pub mod rules;
mod state;
mod timing;

pub use action::{Action, ActionView, Envelope};
pub use model::ElectionView;
pub use run::{raft_election, ElectionRun, Event, RunView};
pub use state::{
    be_a_leader, do_leader_stuff, handle_add_node, handle_after_timeout, handle_heartbeat,
    handle_message, handle_remove_node, handle_request_vote, handle_vote_response,
    send_heartbeat, send_vote, RaftElectionState,
};
pub use timing::{get_current_timeout, unsigned_subtract};
