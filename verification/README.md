# almost-raft

Leader election after the manner of Raft, and nothing but the election. Each decision of a
node is a Rust function whose contract is proved with Verus; the messages, the clock and the
channels are left to the program that drives it.

## Layout

- `src/lib.rs`: `NodeState`, `Node`, `Identifier` and `Message`
- `src/election/model.rs`: what a node knows, and what each message and timeout makes of it
- `src/election/state.rs`: `RaftElectionState` and the functions that handle messages and
  timeouts, each proved to do what the model says
- `src/election/timing.rs`, `src/election/run.rs`: timeouts, and `raft_election`, which takes
  an election from event to event
- `src/election/laws.rs`: what holds of one node in every election
- `src/election/cluster.rs`: what holds of a cluster; above all, that one node at most is
  elected in a term
- `app/`: a driver on tokio, with mpsc channels and messages for serde

## Usage

First step is to implement `trait Node`, and, for the driver, to say how a message reaches
the node:

```rust
#[derive(Debug, Clone)]
struct NodeMPSC {
    id: String,
    sender: Sender<Message<NodeMPSC>>,
}

impl Node for NodeMPSC {
    type NodeIdType = String;
    type NodeType = NodeMPSC;

    fn node_id(&self) -> &String {
        &self.id
    }
}

#[async_trait]
impl ClusterNode for NodeMPSC {
    async fn send_message(&self, msg: Message<NodeMPSC>) {
        let _ = self.sender.send(msg).await;
    }
}
```

To initiate and start an election:

```rust
let (heartbeat_interval, message_timeout, timeout, max_node, min_node) =
    (1000, 20, 5000, 5, 3);
let (tx, mut from_raft) = mpsc::channel(10);
let (state, tx_to_raft) = RaftElectionState::init(
    self_id,
    timeout,
    heartbeat_interval,
    message_timeout,
    nodes,
    tx,
    max_node,
    min_node,
);
tokio::spawn(raft_election(state));
```

The election waits as long as there are fewer than `min_node` other nodes. Nodes come and go
by `Message::ControlAddNode` and `Message::ControlRemoveNode`, sent over `tx_to_raft`; a new
leader is announced over `from_raft`.
