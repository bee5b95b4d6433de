use vstd::prelude::*;

use crate::{Message, Node};

verus! {

/// A message together with the peer that it is meant for.
pub struct Envelope<T: Node> {
    /// Position of the receiver in the list of peers
    pub peer: usize,
    /// What to send to it
    pub message: Message<T::NodeType, T::NodeIdType>,
}

/// Something that the driver of an election carries out. Times are in milliseconds.
pub enum Action<T: Node> {
    /// Send one message to one peer, and go on when it is sent or given up.
    Send {
        /// The message
        envelope: Envelope<T>,
        /// Time after which it counts as lost
        within: u64,
    },
    /// Send several messages side by side, and give up what is not sent in time.
    SendAll {
        /// The messages
        envelopes: Vec<Envelope<T>>,
        /// Time for all of them together
        within: u64,
    },
    /// Hand a message to whoever started the election, unless that takes too long.
    Notify {
        /// The message
        message: Message<T, T::NodeIdType>,
        /// Time to hand it over
        within: u64,
    },
}

/// The mathematical value of an [`Action`].
#[verifier::ext_equal]
pub enum ActionView<T: Node> {
    /// See [`Action::Send`].
    Send {
        /// The message
        envelope: Envelope<T>,
        /// Time after which it counts as lost
        within: u64,
    },
    /// See [`Action::SendAll`].
    SendAll {
        /// The messages
        envelopes: Seq<Envelope<T>>,
        /// Time for all of them together
        within: u64,
    },
    /// See [`Action::Notify`].
    Notify {
        /// The message
        message: Message<T, T::NodeIdType>,
        /// Time to hand it over
        within: u64,
    },
}

impl<T: Node> DeepView for Action<T> {
    type V = ActionView<T>;

    open spec fn deep_view(&self) -> ActionView<T> {
        match *self {
            Action::Send { envelope, within } => ActionView::Send { envelope, within },
            Action::SendAll { envelopes, within } => ActionView::SendAll {
                envelopes: envelopes@,
                within,
            },
            Action::Notify { message, within } => ActionView::Notify { message, within },
        }
    }
}

} // verus!
