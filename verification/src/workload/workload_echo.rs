use vstd::prelude::*;

use crate::body::Payload;
use crate::transport::SendData;
use crate::workload::WorkloadError;

verus! {

/// A node that answers each `echo` with the same text.
pub struct WorkloadEcho {}

impl WorkloadEcho {
    pub fn new() -> (w: Self) {
        WorkloadEcho {  }
    }

    /// The reply to a request: an `echo` gets an `echo_ok` with the same text, back to its sender.
    pub fn handle(&mut self, payload: Payload, dest: String, msg_id: Option<u64>) -> (res: Result<
        SendData,
        WorkloadError,
    >)
        ensures
            match payload {
                Payload::Echo { echo } => res == Ok::<SendData, WorkloadError>(
                    SendData { payload: Payload::EchoOk { echo }, dest, in_reply_to: msg_id },
                ),
                _ => res == Err::<SendData, WorkloadError>(WorkloadError::Unsupported),
            },
    {
        match payload {
            Payload::Echo { echo } => Ok(
                SendData { payload: Payload::EchoOk { echo }, dest, in_reply_to: msg_id },
            ),
            _ => Err(WorkloadError::Unsupported),
        }
    }
}

impl Default for WorkloadEcho {
    fn default() -> Self {
        WorkloadEcho::new()
    }
}

} // verus!
