use vstd::prelude::*;

use crate::body::Payload;
use crate::ids::{compose_id, spec_compose_id};
use crate::transport::SendData;
use crate::workload::WorkloadError;

verus! {

/// A node that hands out unique ids: its own number in the high half, a counter in the low half.
pub struct WorkloadGenerate {
    node_id: u32,
    last_message_id: u32,
}

impl WorkloadGenerate {
    pub closed spec fn node_id(self) -> u32 {
        self.node_id
    }

    pub closed spec fn last_message_id(self) -> u32 {
        self.last_message_id
    }

    pub fn new() -> (w: Self)
        ensures
            w.node_id() == 0,
            w.last_message_id() == 0,
    {
        WorkloadGenerate { node_id: 0, last_message_id: 0 }
    }

    pub fn counter_exhausted(&self) -> (b: bool)
        ensures
            b == (self.last_message_id() == u32::MAX),
    {
        self.last_message_id == u32::MAX
    }

    /// Records the node's number.
    pub fn init(&mut self, node_id: u32, _node: String)
        ensures
            final(self).node_id() == node_id,
            final(self).last_message_id() == old(self).last_message_id(),
    {
        self.node_id = node_id;
    }

    /// The next id: the counter goes up by one first.
    pub fn generate(&mut self) -> (id: u64)
        requires
            old(self).last_message_id() < u32::MAX,
        ensures
            final(self).node_id() == old(self).node_id(),
            final(self).last_message_id() == old(self).last_message_id() + 1,
            id == spec_compose_id(old(self).node_id(), final(self).last_message_id()),
    {
        self.last_message_id = self.last_message_id + 1;
        compose_id(self.node_id, self.last_message_id)
    }

    /// The reply to a request: a `generate` gets a fresh id.
    pub fn handle(&mut self, payload: Payload, dest: String, msg_id: Option<u64>) -> (res: Result<
        SendData,
        WorkloadError,
    >)
        requires
            payload is Generate ==> old(self).last_message_id() < u32::MAX,
        ensures
            final(self).node_id() == old(self).node_id(),
            match payload {
                Payload::Generate => {
                    &&& final(self).last_message_id() == old(self).last_message_id() + 1
                    &&& res == Ok::<SendData, WorkloadError>(
                        SendData {
                            payload: Payload::GenerateOk {
                                id: spec_compose_id(
                                    old(self).node_id(),
                                    final(self).last_message_id(),
                                ) as u64,
                            },
                            dest,
                            in_reply_to: msg_id,
                        },
                    )
                },
                _ => {
                    &&& final(self).last_message_id() == old(self).last_message_id()
                    &&& res == Err::<SendData, WorkloadError>(WorkloadError::Unsupported)
                },
            },
    {
        match payload {
            Payload::Generate => {
                let id = self.generate();
                Ok(SendData { payload: Payload::GenerateOk { id }, dest, in_reply_to: msg_id })
            },
            _ => Err(WorkloadError::Unsupported),
        }
    }
}

/// Two `generate` requests served by one node get different ids, and the later one is larger.
pub proof fn lemma_generated_ids_increase(node_id: u32, earlier: u32, later: u32)
    requires
        earlier < later,
    ensures
        spec_compose_id(node_id, earlier) < spec_compose_id(node_id, later),
{
}

impl Default for WorkloadGenerate {
    fn default() -> (w: Self)
        ensures
            w.node_id() == 0,
            w.last_message_id() == 0,
    {
        WorkloadGenerate::new()
    }
}

} // verus!
