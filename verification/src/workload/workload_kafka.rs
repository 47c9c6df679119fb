use vstd::prelude::*;

use crate::body::{CasRPC, Payload, ReadRPC};
use crate::transport::SendData;
use crate::workload::kv::{
    cas_outcome, counter_cas_call, counter_from_reply, is_counter_cas_call, is_log_cas_call,
    is_read_call, log_cas_call, log_from_reply, prefixed, read_call, spec_cas_outcome,
    spec_counter_from_reply, spec_log_read, CasOutcome, KvError, KvStep, RpcCall,
};
use crate::workload::kafka_request::{
    AppendRequest, CommitRequest, KafkaRequest, ListRequest, PollRequest,
};
use crate::workload::WorkloadError;

verus! {

/// The service that holds the logs and the committed offsets.
pub open spec fn log_service() -> Seq<char> {
    "lin-kv"@
}

/// The key under which the log `key` is stored.
pub open spec fn log_key(key: Seq<char>) -> Seq<char> {
    "value_"@ + key
}

/// The key under which the committed offset of the log `key` is stored.
pub open spec fn offset_key(key: Seq<char>) -> Seq<char> {
    "offset_"@ + key
}

/// The entries of a log from `offset` on, each as its offset followed by its message.
pub open spec fn spec_poll_entries(items: Seq<u64>, offset: u64) -> Seq<Seq<u64>> {
    Seq::new(
        if offset < items.len() {
            (items.len() - offset) as nat
        } else {
            0
        },
        |i: int| seq![(offset + i) as u64, items[offset + i]],
    )
}

pub fn poll_entries(items: &Vec<u64>, offset: u64) -> (entries: Vec<Vec<u64>>)
    ensures
        entries@.map_values(|e: Vec<u64>| e@) == spec_poll_entries(items@, offset),
{
    let mut entries: Vec<Vec<u64>> = Vec::new();
    if offset < items.len() as u64 {
        let mut k: usize = offset as usize;
        while k < items.len()
            invariant
                offset <= k <= items.len(),
                entries.len() == k - offset,
                forall|i: int|
                    0 <= i < entries.len() ==> (#[trigger] entries@[i])@ == seq![
                        (offset + i) as u64,
                        items@[offset + i],
                    ],
            decreases items.len() - k,
        {
            let entry: Vec<u64> = vec![k as u64, items[k]];
            entries.push(entry);
            k = k + 1;
        }
    }
    assert(entries@.map_values(|e: Vec<u64>| e@) =~= spec_poll_entries(items@, offset));
    entries
}

/// A log node: the logs and their committed offsets live in the linearizable key-value service.
/// Appends are taken only once the node knows who it is.
pub struct WorkloadKafka {
    initialized: bool,
}

impl WorkloadKafka {
    pub closed spec fn is_initialized(self) -> bool {
        self.initialized
    }

    pub fn new() -> (w: Self)
        ensures
            !w.is_initialized(),
    {
        WorkloadKafka { initialized: false }
    }

    /// Readies the node to take appends.
    pub fn init(&mut self, _node_id: u32, _node: String)
        ensures
            final(self).is_initialized(),
    {
        self.initialized = true;
    }

    /// The request to carry out for `payload`, from `dest`, as message `msg_id`. An append that
    /// comes before the node is initialized is dropped: nothing is done and nothing is answered.
    pub fn handle(&self, payload: Payload, dest: String, msg_id: Option<u64>) -> (res: Result<
        Option<KafkaRequest>,
        WorkloadError,
    >)
        ensures
            match payload {
                Payload::Send { key, msg } => if self.is_initialized() {
                    &&& res matches Ok(Some(KafkaRequest::Send(r)))
                    &&& r.append().key() == key@
                    &&& r.append().value() == msg
                    &&& r.append().read_entries() is None
                    &&& r.offset() is None
                    &&& r.dest() == dest
                    &&& r.msg_id() == msg_id
                } else {
                    res matches Ok(None)
                },
                Payload::Poll { offsets } => {
                    &&& res matches Ok(Some(KafkaRequest::Poll(r)))
                    &&& r.wf()
                    &&& r.offsets() == offsets@
                    &&& r.logs() == Seq::<Seq<u64>>::empty()
                    &&& r.dest() == dest
                    &&& r.msg_id() == msg_id
                },
                Payload::CommitOffsets { offsets } => {
                    &&& res matches Ok(Some(KafkaRequest::Commit(r)))
                    &&& r.wf()
                    &&& r.offsets() == offsets@
                    &&& r.committed() == Seq::<u64>::empty()
                    &&& r.commits_next_key()
                    &&& r.current() matches Some(c) ==> c.phase() == CommitPhase::Reading
                    &&& r.dest() == dest
                    &&& r.msg_id() == msg_id
                },
                Payload::ListCommittedOffsets { keys } => {
                    &&& res matches Ok(Some(KafkaRequest::List(r)))
                    &&& r.wf()
                    &&& r.keys() == keys@
                    &&& r.read() == Seq::<u64>::empty()
                    &&& r.dest() == dest
                    &&& r.msg_id() == msg_id
                },
                _ => res matches Err(WorkloadError::Unsupported),
            },
    {
        match payload {
            Payload::Send { key, msg } => if self.initialized {
                Ok(Some(KafkaRequest::Send(AppendRequest::new(key, msg, dest, msg_id))))
            } else {
                Ok(None)
            },
            Payload::Poll { offsets } => Ok(
                Some(KafkaRequest::Poll(PollRequest::new(offsets, dest, msg_id))),
            ),
            Payload::CommitOffsets { offsets } => Ok(
                Some(KafkaRequest::Commit(CommitRequest::new(offsets, dest, msg_id))),
            ),
            Payload::ListCommittedOffsets { keys } => Ok(
                Some(KafkaRequest::List(ListRequest::new(keys, dest, msg_id))),
            ),
            _ => Err(WorkloadError::Unsupported),
        }
    }

    /// The request that reads the log `key`.
    pub fn log_read_call(key: &str) -> (call: RpcCall)
        ensures
            is_read_call(call, log_service(), log_key(key@)),
    {
        read_call("lin-kv", prefixed("value_", key))
    }

    /// The request that reads the committed offset of the log `key`.
    pub fn offset_read_call(key: &str) -> (call: RpcCall)
        ensures
            is_read_call(call, log_service(), offset_key(key@)),
    {
        read_call("lin-kv", prefixed("offset_", key))
    }

    pub fn send_ok(offset: u64, dest: String, msg_id: Option<u64>) -> (reply: SendData)
        ensures
            reply == (SendData { payload: Payload::SendOk { offset }, dest, in_reply_to: msg_id }),
    {
        SendData { payload: Payload::SendOk { offset }, dest, in_reply_to: msg_id }
    }

    pub fn poll_ok(msgs: Vec<(String, Vec<Vec<u64>>)>, dest: String, msg_id: Option<u64>) -> (reply:
        SendData)
        ensures
            reply == (SendData { payload: Payload::PollOk { msgs }, dest, in_reply_to: msg_id }),
    {
        SendData { payload: Payload::PollOk { msgs }, dest, in_reply_to: msg_id }
    }

    pub fn commit_offsets_ok(dest: String, msg_id: Option<u64>) -> (reply: SendData)
        ensures
            reply == (SendData { payload: Payload::CommitOffsetsOk, dest, in_reply_to: msg_id }),
    {
        SendData { payload: Payload::CommitOffsetsOk, dest, in_reply_to: msg_id }
    }

    pub fn list_committed_offsets_ok(
        offsets: Vec<(String, u64)>,
        dest: String,
        msg_id: Option<u64>,
    ) -> (reply: SendData)
        ensures
            reply == (SendData {
                payload: Payload::ListCommittedOffsetsOk { offsets },
                dest,
                in_reply_to: msg_id,
            }),
    {
        SendData { payload: Payload::ListCommittedOffsetsOk { offsets }, dest, in_reply_to: msg_id }
    }
}

/// Where an append stands: about to read the log, or about to swap it from the entries read.
pub enum AppendPhase {
    Reading,
    Swapping { from: Vec<u64> },
}

/// Appends `value` to the log `key`: read the log, then swap it from the entries read to those
/// entries followed by `value`; where another node changed it meanwhile, read it again. The
/// message's offset is the length of the log it was appended to.
pub struct LogAppend {
    key: String,
    value: u64,
    phase: AppendPhase,
}

/// What an append does with `reply`: a log read lets it go on to the swap; a swap that went
/// through ends it, with the length of the log it swapped from as the message's offset; a swap
/// that met another value sends it back to reading.
pub open spec fn spec_append_step(op: LogAppend, reply: Payload) -> KvStep<u64> {
    match op.read_entries() {
        None => match spec_log_read(reply) {
            Ok(_) => KvStep::Continue,
            Err(e) => KvStep::Failed(e),
        },
        Some(from) => match spec_cas_outcome(reply) {
            CasOutcome::Swapped => KvStep::Done(from.len() as u64),
            CasOutcome::Conflict => KvStep::Continue,
            CasOutcome::Failed(e) => KvStep::Failed(e),
            CasOutcome::Unexpected => KvStep::Unexpected,
        },
    }
}

/// The entries an append holds as read after `reply`.
pub open spec fn spec_append_next(op: LogAppend, reply: Payload) -> Option<Seq<u64>> {
    match op.read_entries() {
        None => match spec_log_read(reply) {
            Ok(log) => Some(log),
            Err(_) => None,
        },
        Some(from) => match spec_cas_outcome(reply) {
            CasOutcome::Conflict => None,
            _ => Some(from),
        },
    }
}

impl LogAppend {
    pub closed spec fn key(self) -> Seq<char> {
        self.key@
    }

    pub closed spec fn value(self) -> u64 {
        self.value
    }

    /// The entries read, once the log has been read; `None` while it is to be read.
    pub closed spec fn read_entries(self) -> Option<Seq<u64>> {
        match self.phase {
            AppendPhase::Reading => None,
            AppendPhase::Swapping { from } => Some(from@),
        }
    }

    pub fn new(key: String, value: u64) -> (op: Self)
        ensures
            op.key() == key@,
            op.value() == value,
            op.read_entries() is None,
    {
        LogAppend { key, value, phase: AppendPhase::Reading }
    }

    /// `call` is the request an append sends next: a read of the log, or, once the log has been
    /// read, a swap from the entries read to those entries followed by the message.
    pub open spec fn is_request(self, call: RpcCall) -> bool {
        match self.read_entries() {
            None => is_read_call(call, log_service(), log_key(self.key())),
            Some(from) => is_log_cas_call(
                call,
                log_service(),
                log_key(self.key()),
                from,
                from.push(self.value()),
            ),
        }
    }

    /// The request to send next.
    pub fn request(&self) -> (call: RpcCall)
        ensures
            self.is_request(call),
    {
        let key = prefixed("value_", self.key.as_str());
        match &self.phase {
            AppendPhase::Reading => read_call("lin-kv", key),
            AppendPhase::Swapping { from } => {
                let mut to: Vec<u64> = from.clone();
                assert(to@ =~= from@);
                to.push(self.value);
                log_cas_call("lin-kv", key, from.clone(), to)
            },
        }
    }

    /// Takes in the reply to the last request; the result, once done, is the message's offset.
    pub fn on_reply(&mut self, reply: Payload) -> (step: KvStep<u64>)
        ensures
            final(self).key() == old(self).key(),
            final(self).value() == old(self).value(),
            step == spec_append_step(*old(self), reply),
            final(self).read_entries() == spec_append_next(*old(self), reply),
    {
        match &self.phase {
            AppendPhase::Reading => {
                let res = log_from_reply(reply);
                match res {
                    Ok(entries) => {
                        self.phase = AppendPhase::Swapping { from: entries };
                        KvStep::Continue
                    },
                    Err(e) => KvStep::Failed(e),
                }
            },
            AppendPhase::Swapping { from } => match cas_outcome(&reply) {
                CasOutcome::Swapped => KvStep::Done(from.len() as u64),
                CasOutcome::Conflict => {
                    self.phase = AppendPhase::Reading;
                    KvStep::Continue
                },
                CasOutcome::Failed(e) => KvStep::Failed(e),
                CasOutcome::Unexpected => KvStep::Unexpected,
            },
        }
    }
}

/// Where a commit stands: about to read the committed offset, or about to swap it from the
/// offset read.
#[derive(Debug, Clone, Copy, PartialEq, Eq)]
pub enum CommitPhase {
    Reading,
    Swapping { from: u64 },
}

/// Raises the committed offset of the log `key` to `value`: read it; where it is already at
/// least `value`, leave it; else swap it from the offset read to `value`, reading again where
/// another node changed it meanwhile. A committed offset never goes down.
pub struct OffsetCommit {
    key: String,
    value: u64,
    phase: CommitPhase,
}

/// What a commit does with `reply`: a read that finds the offset at least `value` ends it with
/// the offset read, a lower one lets it go on to the swap; a swap that went through ends it with
/// `value`; a swap that met another value sends it back to reading.
pub open spec fn spec_commit_step(op: OffsetCommit, reply: Payload) -> KvStep<u64> {
    match op.phase() {
        CommitPhase::Reading => match spec_counter_from_reply(reply) {
            Ok(offset) => if offset >= op.value() {
                KvStep::Done(offset)
            } else {
                KvStep::Continue
            },
            Err(e) => KvStep::Failed(e),
        },
        CommitPhase::Swapping { .. } => match spec_cas_outcome(reply) {
            CasOutcome::Swapped => KvStep::Done(op.value()),
            CasOutcome::Conflict => KvStep::Continue,
            CasOutcome::Failed(e) => KvStep::Failed(e),
            CasOutcome::Unexpected => KvStep::Unexpected,
        },
    }
}

/// Where a commit stands after `reply`.
pub open spec fn spec_commit_next_phase(op: OffsetCommit, reply: Payload) -> CommitPhase {
    match op.phase() {
        CommitPhase::Reading => match spec_counter_from_reply(reply) {
            Ok(offset) => if offset >= op.value() {
                CommitPhase::Reading
            } else {
                CommitPhase::Swapping { from: offset }
            },
            Err(_) => CommitPhase::Reading,
        },
        CommitPhase::Swapping { from } => match spec_cas_outcome(reply) {
            CasOutcome::Conflict => CommitPhase::Reading,
            _ => CommitPhase::Swapping { from },
        },
    }
}

impl OffsetCommit {
    pub closed spec fn key(self) -> Seq<char> {
        self.key@
    }

    pub closed spec fn value(self) -> u64 {
        self.value
    }

    pub closed spec fn phase(self) -> CommitPhase {
        self.phase
    }

    /// A swap is only ever made upward.
    pub closed spec fn wf(self) -> bool {
        self.phase matches CommitPhase::Swapping { from } ==> from < self.value
    }

    pub fn new(key: String, value: u64) -> (op: Self)
        ensures
            op.wf(),
            op.key() == key@,
            op.value() == value,
            op.phase() == CommitPhase::Reading,
    {
        OffsetCommit { key, value, phase: CommitPhase::Reading }
    }

    /// `call` is the request a commit sends next: a read of the committed offset, or, once it
    /// has been read and found lower, a swap from the offset read to `value`.
    pub open spec fn is_request(self, call: RpcCall) -> bool {
        match self.phase() {
            CommitPhase::Reading => is_read_call(call, log_service(), offset_key(self.key())),
            CommitPhase::Swapping { from } => is_counter_cas_call(
                call,
                log_service(),
                offset_key(self.key()),
                from,
                self.value(),
            ),
        }
    }

    /// The request to send next.
    pub fn request(&self) -> (call: RpcCall)
        ensures
            self.is_request(call),
    {
        let key = prefixed("offset_", self.key.as_str());
        match self.phase {
            CommitPhase::Reading => read_call("lin-kv", key),
            CommitPhase::Swapping { from } => counter_cas_call("lin-kv", key, from, self.value),
        }
    }

    /// Takes in the reply to the last request; the result, once done, is the committed offset,
    /// which is never below `value`.
    pub fn on_reply(&mut self, reply: Payload) -> (step: KvStep<u64>)
        requires
            old(self).wf(),
        ensures
            final(self).wf(),
            final(self).key() == old(self).key(),
            final(self).value() == old(self).value(),
            step == spec_commit_step(*old(self), reply),
            final(self).phase() == spec_commit_next_phase(*old(self), reply),
            step matches KvStep::Done(offset) ==> offset >= old(self).value(),
    {
        match self.phase {
            CommitPhase::Reading => match counter_from_reply(reply) {
                Ok(offset) => {
                    if offset >= self.value {
                        KvStep::Done(offset)
                    } else {
                        self.phase = CommitPhase::Swapping { from: offset };
                        KvStep::Continue
                    }
                },
                Err(e) => KvStep::Failed(e),
            },
            CommitPhase::Swapping { .. } => match cas_outcome(&reply) {
                CasOutcome::Swapped => KvStep::Done(self.value),
                CasOutcome::Conflict => {
                    self.phase = CommitPhase::Reading;
                    KvStep::Continue
                },
                CasOutcome::Failed(e) => KvStep::Failed(e),
                CasOutcome::Unexpected => KvStep::Unexpected,
            },
        }
    }
}

/// A message appended to a log sits at the offset that the append answers (the length of the
/// log it was appended to): a poll from that offset gives that message first, at that offset,
/// and the entries before it are left as they were.
pub proof fn lemma_appended_message_polled_at_offset(log: Seq<u64>, msg: u64)
    requires
        log.len() < u64::MAX,
    ensures
        ({
            let offset = log.len() as u64;
            let polled = spec_poll_entries(log.push(msg), offset);
            &&& polled.len() == 1
            &&& polled[0] == seq![offset, msg]
            &&& log.push(msg).take(log.len() as int) == log
        }),
{
    assert(log.push(msg).take(log.len() as int) =~= log);
}

/// A poll from offset 0 gives every entry of the log, each at its own offset.
pub proof fn lemma_poll_from_start_gives_whole_log(log: Seq<u64>)
    requires
        log.len() <= u64::MAX,
    ensures
        spec_poll_entries(log, 0).len() == log.len(),
        forall|i: int|
            0 <= i < log.len() ==> #[trigger] spec_poll_entries(log, 0)[i] == seq![i as u64, log[i]],
{
}

/// A poll from an offset within the log starts at that offset: one entry for each message from
/// there to the end, each the message's own offset followed by the message; from an offset at
/// or past the end, a poll gives nothing.
pub proof fn lemma_poll_starts_at_offset(log: Seq<u64>, offset: u64)
    requires
        log.len() <= u64::MAX,
    ensures
        offset < log.len() ==> {
            &&& spec_poll_entries(log, offset).len() == log.len() - offset
            &&& forall|i: int|
                0 <= i < log.len() - offset ==> #[trigger] spec_poll_entries(log, offset)[i]
                    == seq![(offset + i) as u64, log[offset + i]]
        },
        offset >= log.len() ==> spec_poll_entries(log, offset).len() == 0,
{
}

/// A poll from an offset gives what a poll from the start gives, less the entries before the
/// offset.
pub proof fn lemma_poll_is_suffix_of_whole_log(log: Seq<u64>, offset: u64)
    requires
        log.len() <= u64::MAX,
    ensures
        offset < log.len() ==> spec_poll_entries(log, offset) == spec_poll_entries(log, 0).subrange(
            offset as int,
            log.len() as int,
        ),
{
    if offset < log.len() {
        assert(spec_poll_entries(log, offset) =~= spec_poll_entries(log, 0).subrange(
            offset as int,
            log.len() as int,
        ));
    }
}

/// An append first reads the log `"value_" + key` from `lin-kv`; the log read becomes the one
/// it swaps from.
pub proof fn lemma_append_swaps_from_log_read(op: LogAppend, call: RpcCall, reply: Payload)
    requires
        op.read_entries() is None,
        op.is_request(call),
    ensures
        call.dest@ == "lin-kv"@,
        call.payload matches Payload::Read { key: Some(k) } && k@ == "value_"@ + op.key(),
        spec_log_read(reply) matches Ok(log) ==> spec_append_step(op, reply) == KvStep::<u64>::Continue
            && spec_append_next(op, reply) == Some(log),
        spec_log_read(reply) matches Err(e) ==> spec_append_step(op, reply) == KvStep::<u64>::Failed(e),
{
}

/// The swap an append sends keeps the log read whole and puts the message right after it, and
/// the offset the append answers, once the swap goes through, is where the message now sits.
pub proof fn lemma_append_offset_locates_message(op: LogAppend, call: RpcCall)
    requires
        op.read_entries() is Some,
        op.is_request(call),
    ensures
        call.dest@ == "lin-kv"@,
        call.payload matches Payload::Cas {
            data: CasRPC::Kafka { key, from, to, create_if_not_exists },
        } && {
            let read = op.read_entries()->0;
            &&& key@ == "value_"@ + op.key()
            &&& create_if_not_exists
            &&& from@ == read
            &&& to@.len() == read.len() + 1
            &&& to@.take(read.len() as int) == read
            &&& to@[read.len() as int] == op.value()
            &&& spec_append_step(op, Payload::CasOk) == KvStep::Done(read.len() as u64)
        },
{
    let read = op.read_entries()->0;
    assert(read.push(op.value()).take(read.len() as int) =~= read);
}

/// A swap that meets another value sends an append back to reading the log; only a swap that
/// goes through ends it.
pub proof fn lemma_append_done_only_after_swap(op: LogAppend, reply: Payload)
    ensures
        spec_append_step(op, reply) is Done ==> op.read_entries() is Some && reply is CasOk,
        op.read_entries() is Some && spec_cas_outcome(reply) == CasOutcome::Conflict ==> spec_append_step(
            op,
            reply,
        ) == KvStep::<u64>::Continue && spec_append_next(op, reply) is None,
{
}

/// A commit never lowers a committed offset: where it swaps, it swaps upward from the offset it
/// read to the one asked for, and the offset it ends with is at least the one asked for.
pub proof fn lemma_commit_only_raises(op: OffsetCommit, call: RpcCall, reply: Payload)
    requires
        op.wf(),
        op.is_request(call),
    ensures
        call.dest@ == "lin-kv"@,
        spec_commit_step(op, reply) matches KvStep::Done(offset) ==> offset >= op.value(),
        match op.phase() {
            CommitPhase::Reading => {
                &&& call.payload matches Payload::Read { key: Some(k) }
                &&& k@ == "offset_"@ + op.key()
                &&& match spec_counter_from_reply(reply) {
                    Ok(read) => if read >= op.value() {
                        spec_commit_step(op, reply) == KvStep::Done(read)
                    } else {
                        &&& spec_commit_step(op, reply) == KvStep::<u64>::Continue
                        &&& spec_commit_next_phase(op, reply) == (CommitPhase::Swapping { from: read })
                    },
                    Err(e) => spec_commit_step(op, reply) == KvStep::<u64>::Failed(e),
                }
            },
            CommitPhase::Swapping { from } => {
                &&& from < op.value()
                &&& call.payload matches Payload::Cas {
                    data: CasRPC::Gcounter { key, from: f, to: t, create_if_not_exists: c },
                }
                &&& key@ == "offset_"@ + op.key()
                &&& f == from
                &&& t == op.value()
                &&& c
                &&& match reply {
                    Payload::Error { code, .. } => code == 22 ==> {
                        &&& spec_commit_step(op, reply) == KvStep::<u64>::Continue
                        &&& spec_commit_next_phase(op, reply) == CommitPhase::Reading
                    },
                    _ => true,
                }
            },
        },
{
}

impl Default for WorkloadKafka {
    fn default() -> (w: Self)
        ensures
            !w.is_initialized(),
    {
        WorkloadKafka::new()
    }
}

} // verus!
