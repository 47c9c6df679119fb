use vstd::prelude::*;

verus! {


/// What a `read_ok` reply carries: the messages a broadcast node has seen (each once), a counter's value, or
/// a log's entries.
#[derive(Debug, Clone, PartialEq, Eq)]
pub enum ReadRPC {
    Broadcast { messages: Vec<u32> },
    Gcounter { value: u64 },
    Kafka { value: Vec<u64> },
}

/// The compare-and-swap requests sent to the key-value services: on a counter (or committed
/// offset), or on a whole log.
#[derive(Debug, Clone, PartialEq, Eq)]
pub enum CasRPC {
    Gcounter { key: String, from: u64, to: u64, create_if_not_exists: bool },
    Kafka { key: String, from: Vec<u64>, to: Vec<u64>, create_if_not_exists: bool },
}

/// The body of a message: its own id, the id of the request it answers, and its payload.
#[derive(Debug, Clone, PartialEq, Eq)]
pub struct Body {
    pub msg_id: Option<u64>,
    pub in_reply_to: Option<u64>,
    pub payload: Payload,
}

/// Every kind of message a node sends or receives. A JSON object keyed by strings is held as a
/// list of (key, value) pairs, in the order in which it was read.
#[derive(Debug, Clone, PartialEq, Eq)]
pub enum Payload {
    Init { node_id: String, node_ids: Vec<String> },
    InitOk,
    Echo { echo: String },
    EchoOk { echo: String },
    Generate,
    GenerateOk { id: u64 },
    Broadcast { message: u32 },
    BroadcastOk,
    BroadcastBatch { messages: Vec<u32> },
    BroadcastBatchOk,
    Read { key: Option<String> },
    ReadOk { result: ReadRPC },
    Topology { topology: Vec<(String, Vec<String>)> },
    TopologyOk,
    Add { delta: u32 },
    AddOk,
    Cas { data: CasRPC },
    CasOk,
    Error { code: u32, text: String },
    Send { key: String, msg: u64 },
    SendOk { offset: u64 },
    Poll { offsets: Vec<(String, u64)> },
    PollOk { msgs: Vec<(String, Vec<Vec<u64>>)> },
    CommitOffsets { offsets: Vec<(String, u64)> },
    CommitOffsetsOk,
    ListCommittedOffsets { keys: Vec<String> },
    ListCommittedOffsetsOk { offsets: Vec<(String, u64)> },
}

} // verus!
