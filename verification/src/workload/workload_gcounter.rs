use vstd::prelude::*;

use crate::body::{CasRPC, Payload, ReadRPC};
use crate::transport::SendData;
use crate::workload::kv::{
    cas_outcome, counter_cas_call, counter_from_reply, is_counter_cas_call, is_read_call, read_call,
    spec_cas_outcome, spec_counter_from_reply, CasOutcome, KvError, KvStep, RpcCall,
};
use crate::workload::WorkloadError;

verus! {

/// The service that holds the shared counter.
pub open spec fn counter_service() -> Seq<char> {
    "seq-kv"@
}

/// The key of the shared counter.
pub open spec fn counter_key() -> Seq<char> {
    "g-counter"@
}

/// A grow-only counter node: the counter lives in the sequential key-value service. Additions
/// are taken only once the node knows who it is.
pub struct WorkloadGcounter {
    initialized: bool,
}

/// A request to a counter node, from its arrival to its answer. `request` says what to ask the
/// key-value service next (nothing, once the answer is ready); `on_reply` takes in the service's
/// reply; `finish` gives the answer once nothing is left to ask. A request that fails is not
/// answered.
pub enum CounterRequest {
    Add(AddRequest),
    Read(ReadRequest),
}

impl WorkloadGcounter {
    pub closed spec fn is_initialized(self) -> bool {
        self.initialized
    }

    pub fn new() -> (w: Self)
        ensures
            !w.is_initialized(),
    {
        WorkloadGcounter { initialized: false }
    }

    /// Readies the node to take additions.
    pub fn init(&mut self, _node_id: u32, _node: String)
        ensures
            final(self).is_initialized(),
    {
        self.initialized = true;
    }

    /// The request to carry out for `payload`, from `dest`, as message `msg_id`. An addition
    /// that comes before the node is initialized is dropped: nothing is done and nothing is
    /// answered.
    pub fn handle(&self, payload: Payload, dest: String, msg_id: Option<u64>) -> (res: Result<
        Option<CounterRequest>,
        WorkloadError,
    >)
        ensures
            match payload {
                Payload::Add { delta } => if self.is_initialized() {
                    &&& res matches Ok(Some(CounterRequest::Add(r)))
                    &&& r.wf()
                    &&& r.add().delta() == delta
                    &&& r.add().phase() == AddPhase::Reading
                    &&& !r.is_complete()
                    &&& r.dest() == dest
                    &&& r.msg_id() == msg_id
                } else {
                    res matches Ok(None)
                },
                Payload::Read { .. } => {
                    &&& res matches Ok(Some(CounterRequest::Read(r)))
                    &&& r.wf()
                    &&& r.read_op().sync() matches Some(add) && add.phase() == AddPhase::Reading
                        && add.delta() == 0
                    &&& r.value() is None
                    &&& r.dest() == dest
                    &&& r.msg_id() == msg_id
                },
                _ => res matches Err(WorkloadError::Unsupported),
            },
    {
        match payload {
            Payload::Add { delta } => if self.initialized {
                Ok(Some(CounterRequest::Add(AddRequest::new(delta, dest, msg_id))))
            } else {
                Ok(None)
            },
            Payload::Read { .. } => Ok(Some(CounterRequest::Read(ReadRequest::new(dest, msg_id)))),
            _ => Err(WorkloadError::Unsupported),
        }
    }

    /// The request that reads the counter.
    pub fn read_call() -> (call: RpcCall)
        ensures
            is_read_call(call, counter_service(), counter_key()),
    {
        read_call("seq-kv", "g-counter".to_owned())
    }

    /// The answer to an `add`, once the addition is done.
    pub fn add_ok(dest: String, msg_id: Option<u64>) -> (reply: SendData)
        ensures
            reply == (SendData { payload: Payload::AddOk, dest, in_reply_to: msg_id }),
    {
        SendData { payload: Payload::AddOk, dest, in_reply_to: msg_id }
    }

    /// The answer to a `read`: the counter's value.
    pub fn read_ok(value: u64, dest: String, msg_id: Option<u64>) -> (reply: SendData)
        ensures
            reply == (SendData {
                payload: Payload::ReadOk { result: ReadRPC::Gcounter { value } },
                dest,
                in_reply_to: msg_id,
            }),
    {
        SendData {
            payload: Payload::ReadOk { result: ReadRPC::Gcounter { value } },
            dest,
            in_reply_to: msg_id,
        }
    }
}

/// Where an addition stands: about to read the counter, or about to swap it from the value read.
#[derive(Debug, Clone, Copy, PartialEq, Eq)]
pub enum AddPhase {
    Reading,
    Swapping { from: u64 },
}

/// Adds `delta` to the shared counter: read it, then swap it from the value read to that value
/// plus `delta`; where another node changed it meanwhile, read it again.
pub struct CounterAdd {
    delta: u32,
    phase: AddPhase,
}

/// What an addition does with `reply`.
pub open spec fn spec_add_step(add: CounterAdd, reply: Payload) -> KvStep<()> {
    match add.phase() {
        AddPhase::Reading => match spec_counter_from_reply(reply) {
            Ok(value) => if value + add.delta() <= u32::MAX {
                KvStep::Continue
            } else {
                KvStep::Failed(KvError::Overflow)
            },
            Err(e) => KvStep::Failed(e),
        },
        AddPhase::Swapping { .. } => match spec_cas_outcome(reply) {
            CasOutcome::Swapped => KvStep::Done(()),
            CasOutcome::Conflict => KvStep::Continue,
            CasOutcome::Failed(e) => KvStep::Failed(e),
            CasOutcome::Unexpected => KvStep::Unexpected,
        },
    }
}

/// Where an addition stands after `reply`.
pub open spec fn spec_add_next_phase(add: CounterAdd, reply: Payload) -> AddPhase {
    match add.phase() {
            AddPhase::Reading => match spec_counter_from_reply(reply) {
                Ok(value) => if value + add.delta() <= u32::MAX {
                    AddPhase::Swapping { from: value }
                } else {
                    AddPhase::Reading
                },
                Err(_) => AddPhase::Reading,
            },
            AddPhase::Swapping { from } => match spec_cas_outcome(reply) {
                CasOutcome::Conflict => AddPhase::Reading,
                _ => AddPhase::Swapping { from },
            },
    }
}

impl CounterAdd {
    pub closed spec fn delta(self) -> u32 {
        self.delta
    }

    pub closed spec fn phase(self) -> AddPhase {
        self.phase
    }

    /// A swap never takes the counter past `u32::MAX`, the range of a counter's value.
    pub closed spec fn wf(self) -> bool {
        self.phase matches AddPhase::Swapping { from } ==> from + self.delta <= u32::MAX
    }

    pub fn new(delta: u32) -> (op: Self)
        ensures
            op.wf(),
            op.delta() == delta,
            op.phase() == AddPhase::Reading,
    {
        CounterAdd { delta, phase: AddPhase::Reading }
    }

    /// `call` is the request an addition sends next: a read of the counter, or, once it has been
    /// read, a swap from the value read to that value plus `delta`.
    pub open spec fn is_request(self, call: RpcCall) -> bool {
        match self.phase() {
            AddPhase::Reading => is_read_call(call, counter_service(), counter_key()),
            AddPhase::Swapping { from } => is_counter_cas_call(
                call,
                counter_service(),
                counter_key(),
                from,
                (from + self.delta()) as u64,
            ),
        }
    }

    /// The request to send next.
    pub fn request(&self) -> (call: RpcCall)
        requires
            self.wf(),
        ensures
            self.is_request(call),
    {
        match self.phase {
            AddPhase::Reading => read_call("seq-kv", "g-counter".to_owned()),
            AddPhase::Swapping { from } => counter_cas_call(
                "seq-kv",
                "g-counter".to_owned(),
                from,
                from + self.delta as u64,
            ),
        }
    }

    /// Takes in the reply to the last request.
    pub fn on_reply(&mut self, reply: Payload) -> (step: KvStep<()>)
        requires
            old(self).wf(),
        ensures
            final(self).wf(),
            final(self).delta() == old(self).delta(),
            step == spec_add_step(*old(self), reply),
            final(self).phase() == spec_add_next_phase(*old(self), reply),
            match old(self).phase() {
                AddPhase::Reading => match spec_counter_from_reply(reply) {
                    Ok(value) => if value + old(self).delta() <= u32::MAX {
                        step == KvStep::<()>::Continue && final(self).phase()
                            == AddPhase::Swapping { from: value }
                    } else {
                        step == KvStep::<()>::Failed(KvError::Overflow) && final(self).phase()
                            == old(self).phase()
                    },
                    Err(e) => step == KvStep::<()>::Failed(e) && final(self).phase() == old(self).phase(),
                },
                AddPhase::Swapping { .. } => match spec_cas_outcome(reply) {
                    CasOutcome::Swapped => step == KvStep::Done(()) && final(self).phase() == old(self).phase(),
                    CasOutcome::Conflict => step == KvStep::<()>::Continue && final(self).phase()
                        == AddPhase::Reading,
                    CasOutcome::Failed(e) => step == KvStep::<()>::Failed(e) && final(self).phase()
                        == old(self).phase(),
                    CasOutcome::Unexpected => step == KvStep::<()>::Unexpected && final(self).phase() == old(self).phase(),
                },
            },
    {
        match self.phase {
            AddPhase::Reading => match counter_from_reply(reply) {
                Ok(value) => {
                    if value <= u32::MAX as u64 - self.delta as u64 {
                        self.phase = AddPhase::Swapping { from: value };
                        KvStep::Continue
                    } else {
                        KvStep::Failed(KvError::Overflow)
                    }
                },
                Err(e) => KvStep::Failed(e),
            },
            AddPhase::Swapping { .. } => match cas_outcome(&reply) {
                CasOutcome::Swapped => KvStep::Done(()),
                CasOutcome::Conflict => {
                    self.phase = AddPhase::Reading;
                    KvStep::Continue
                },
                CasOutcome::Failed(e) => KvStep::Failed(e),
                CasOutcome::Unexpected => KvStep::Unexpected,
            },
        }
    }
}

/// Reads the counter as a `read` request wants it: first an addition of 0 (which makes this
/// node's view of the sequential store catch up; its outcome does not matter, unless the store
/// answers outside the protocol), then a read.
pub struct CounterRead {
    sync: Option<CounterAdd>,
}

/// What a read does with `reply`: while the addition of 0 is under way, it goes on whatever the
/// addition's outcome (unless the store answers outside the protocol); then the value read ends
/// it.
pub open spec fn spec_read_step(op: CounterRead, reply: Payload) -> KvStep<u64> {
    match op.sync() {
        Some(add) => match spec_add_step(add, reply) {
            KvStep::Unexpected => KvStep::Unexpected,
            _ => KvStep::Continue,
        },
        None => match spec_counter_from_reply(reply) {
            Ok(value) => KvStep::Done(value),
            Err(e) => KvStep::Failed(e),
        },
    }
}

/// `next` is where a read stands after `op` took in `reply`: the addition of 0 goes on until it
/// ends, in any way, and the read itself follows it.
pub open spec fn spec_read_next(op: CounterRead, reply: Payload, next: CounterRead) -> bool {
    match op.sync() {
        Some(add) => match spec_add_step(add, reply) {
            KvStep::Continue => next.sync() matches Some(n) && n.delta() == 0 && n.phase()
                == spec_add_next_phase(add, reply),
            KvStep::Unexpected => next.sync() matches Some(n) && n.delta() == 0 && n.phase()
                == spec_add_next_phase(add, reply),
            _ => next.sync() is None,
        },
        None => next.sync() is None,
    }
}

impl CounterRead {
    /// The addition of 0 still under way; `None` once the read itself is under way.
    pub closed spec fn sync(self) -> Option<CounterAdd> {
        self.sync
    }

    pub closed spec fn wf(self) -> bool {
        self.sync matches Some(add) ==> add.wf() && add.delta() == 0
    }

    pub fn new() -> (op: Self)
        ensures
            op.wf(),
            op.sync() matches Some(add) && add.phase() == AddPhase::Reading,
    {
        CounterRead { sync: Some(CounterAdd::new(0)) }
    }

    /// `call` is the request a read sends next: the addition of 0's, then a read of the counter.
    pub open spec fn is_request(self, call: RpcCall) -> bool {
        match self.sync() {
            Some(add) => match add.phase() {
                AddPhase::Reading => is_read_call(call, counter_service(), counter_key()),
                AddPhase::Swapping { from } => is_counter_cas_call(
                    call,
                    counter_service(),
                    counter_key(),
                    from,
                    from,
                ),
            },
            None => is_read_call(call, counter_service(), counter_key()),
        }
    }

    /// The request to send next.
    pub fn request(&self) -> (call: RpcCall)
        requires
            self.wf(),
        ensures
            self.is_request(call),
    {
        match &self.sync {
            Some(add) => add.request(),
            None => WorkloadGcounter::read_call(),
        }
    }

    /// Takes in the reply to the last request; the result, once done, is the counter's value.
    pub fn on_reply(&mut self, reply: Payload) -> (step: KvStep<u64>)
        requires
            old(self).wf(),
        ensures
            final(self).wf(),
            step == spec_read_step(*old(self), reply),
            spec_read_next(*old(self), reply, *final(self)),
    {
        match &mut self.sync {
            Some(add) => {
                let ghost before = *add;
                let step = add.on_reply(reply);
                proof {
                    assert(spec_add_step(before, reply) == step);
                }
                match step {
                    KvStep::Continue => KvStep::Continue,
                    KvStep::Unexpected => KvStep::Unexpected,
                    _ => {
                        self.sync = None;
                        KvStep::Continue
                    },
                }
            },
            None => match counter_from_reply(reply) {
                Ok(value) => KvStep::Done(value),
                Err(e) => KvStep::Failed(e),
            },
        }
    }
}

/// An `add`: add the delta to the counter, then answer `add_ok`.
pub struct AddRequest {
    op: CounterAdd,
    done: bool,
    dest: String,
    msg_id: Option<u64>,
}

impl AddRequest {
    pub closed spec fn add(self) -> CounterAdd {
        self.op
    }

    /// Whether a swap has added the delta.
    pub closed spec fn is_complete(self) -> bool {
        self.done
    }

    pub closed spec fn dest(self) -> String {
        self.dest
    }

    pub closed spec fn msg_id(self) -> Option<u64> {
        self.msg_id
    }

    pub closed spec fn wf(self) -> bool {
        self.op.wf()
    }

    pub fn new(delta: u32, dest: String, msg_id: Option<u64>) -> (r: Self)
        ensures
            r.wf(),
            r.add().delta() == delta,
            r.add().phase() == AddPhase::Reading,
            !r.is_complete(),
            r.dest() == dest,
            r.msg_id() == msg_id,
    {
        AddRequest { op: CounterAdd::new(delta), done: false, dest, msg_id }
    }

    /// What to ask next: the addition's next request, until the delta is added.
    pub fn request(&self) -> (call: Option<RpcCall>)
        requires
            self.wf(),
        ensures
            match call {
                Some(c) => !self.is_complete() && self.add().is_request(c),
                None => self.is_complete(),
            },
    {
        if self.done {
            None
        } else {
            Some(self.op.request())
        }
    }

    /// Takes in the reply to the last request. It is done exactly when a swap went through.
    pub fn on_reply(&mut self, reply: Payload) -> (step: KvStep<()>)
        requires
            old(self).wf(),
            !old(self).is_complete(),
        ensures
            final(self).wf(),
            final(self).add().delta() == old(self).add().delta(),
            final(self).add().phase() == spec_add_next_phase(old(self).add(), reply),
            final(self).dest() == old(self).dest(),
            final(self).msg_id() == old(self).msg_id(),
            step == spec_add_step(old(self).add(), reply),
            final(self).is_complete() == (step is Done),
    {
        let step = self.op.on_reply(reply);
        match step {
            KvStep::Done(_) => {
                self.done = true;
            },
            _ => {},
        }
        step
    }

    /// The answer, once the delta is added: `add_ok`.
    pub fn finish(self) -> (reply: SendData)
        requires
            self.is_complete(),
        ensures
            reply == (SendData { payload: Payload::AddOk, dest: self.dest(), in_reply_to: self.msg_id() }),
    {
        WorkloadGcounter::add_ok(self.dest, self.msg_id)
    }
}

/// A `read`: read the counter as `CounterRead` does, then answer with the value read.
pub struct ReadRequest {
    op: CounterRead,
    value: Option<u64>,
    dest: String,
    msg_id: Option<u64>,
}

impl ReadRequest {
    pub closed spec fn read_op(self) -> CounterRead {
        self.op
    }

    /// The value read, once the read is done.
    pub closed spec fn value(self) -> Option<u64> {
        self.value
    }

    pub closed spec fn dest(self) -> String {
        self.dest
    }

    pub closed spec fn msg_id(self) -> Option<u64> {
        self.msg_id
    }

    pub closed spec fn wf(self) -> bool {
        self.op.wf()
    }

    pub open spec fn is_complete(self) -> bool {
        self.value() is Some
    }

    pub fn new(dest: String, msg_id: Option<u64>) -> (r: Self)
        ensures
            r.wf(),
            r.read_op().sync() matches Some(add) && add.phase() == AddPhase::Reading
                        && add.delta() == 0,
            r.value() is None,
            r.dest() == dest,
            r.msg_id() == msg_id,
    {
        ReadRequest { op: CounterRead::new(), value: None, dest, msg_id }
    }

    /// What to ask next: the read's next request, until the value is read.
    pub fn request(&self) -> (call: Option<RpcCall>)
        requires
            self.wf(),
        ensures
            match call {
                Some(c) => !self.is_complete() && self.read_op().is_request(c),
                None => self.is_complete(),
            },
    {
        match self.value {
            Some(_) => None,
            None => Some(self.op.request()),
        }
    }

    /// Takes in the reply to the last request. It is done once the counter has been read after
    /// the addition of 0.
    pub fn on_reply(&mut self, reply: Payload) -> (step: KvStep<()>)
        requires
            old(self).wf(),
            !old(self).is_complete(),
        ensures
            final(self).wf(),
            spec_read_next(old(self).read_op(), reply, final(self).read_op()),
            final(self).dest() == old(self).dest(),
            final(self).msg_id() == old(self).msg_id(),
            match spec_read_step(old(self).read_op(), reply) {
                KvStep::Done(value) => step == KvStep::Done(()) && final(self).value() == Some(
                    value,
                ),
                KvStep::Continue => step == KvStep::<()>::Continue && final(self).value() is None,
                KvStep::Failed(e) => step == KvStep::<()>::Failed(e) && final(self).value() is None,
                KvStep::Unexpected => step == KvStep::<()>::Unexpected && final(self).value() is None,
            },
    {
        match self.op.on_reply(reply) {
            KvStep::Done(value) => {
                self.value = Some(value);
                KvStep::Done(())
            },
            KvStep::Continue => KvStep::Continue,
            KvStep::Failed(e) => KvStep::Failed(e),
            KvStep::Unexpected => KvStep::Unexpected,
        }
    }

    /// The answer: `read_ok` with the value read.
    pub fn finish(self) -> (reply: SendData)
        requires
            self.is_complete(),
        ensures
            reply == (SendData {
                payload: Payload::ReadOk { result: ReadRPC::Gcounter { value: self.value()->0 } },
                dest: self.dest(),
                in_reply_to: self.msg_id(),
            }),
    {
        let value = match self.value {
            Some(v) => v,
            None => 0,
        };
        WorkloadGcounter::read_ok(value, self.dest, self.msg_id)
    }
}

/// While the addition of 0 is under way, no reply fails a read: it goes on to the read itself
/// whatever the addition's outcome, and stops only where the store answers a swap outside the
/// protocol.
pub proof fn lemma_read_never_fails_while_syncing(op: CounterRead, reply: Payload)
    requires
        op.wf(),
        op.sync() is Some,
    ensures
        spec_read_step(op, reply) == KvStep::<u64>::Continue || (spec_read_step(op, reply)
            == KvStep::<u64>::Unexpected && op.sync()->0.phase() is Swapping && !(reply is CasOk)
            && !(reply is Error)),
{
}

/// Where the counter does not exist yet, a read's addition of 0 swaps it from 0 to 0 (creating
/// it), and the read answers what it then reads, 0 where it still does not exist.
pub proof fn lemma_read_of_missing_counter(
    op: CounterRead,
    reply: Payload,
    next: CounterRead,
    call: RpcCall,
)
    requires
        op.wf(),
        op.sync() matches Some(add) && add.phase() == AddPhase::Reading,
        reply matches Payload::Error { code, .. } && code == 20,
        spec_read_next(op, reply, next),
        next.is_request(call),
    ensures
        spec_read_step(op, reply) == KvStep::<u64>::Continue,
        call.dest@ == "seq-kv"@,
        call.payload matches Payload::Cas {
            data: CasRPC::Gcounter { key, from, to, create_if_not_exists },
        } && key@ == "g-counter"@ && from == 0 && to == 0 && create_if_not_exists,
{
}

/// Once the addition of 0 is over, a read answers the value it reads, 0 where the counter does
/// not exist.
pub proof fn lemma_read_answers_value_read(op: CounterRead, reply: Payload, value: u64)
    requires
        op.sync() is None,
    ensures
        reply == (Payload::ReadOk { result: ReadRPC::Gcounter { value } }) ==> spec_read_step(op, reply)
            == KvStep::Done(value),
        reply matches Payload::Error { code, .. } && code == 20 ==> spec_read_step(op, reply)
            == KvStep::Done(0u64),
{
}

/// An addition swaps the counter from the value it read to that value plus `delta`, and is done
/// only once such a swap goes through.
pub proof fn lemma_add_swaps_in_delta(add: CounterAdd, call: RpcCall, reply: Payload)
    requires
        add.wf(),
        add.is_request(call),
    ensures
        call.dest@ == "seq-kv"@,
        spec_add_step(add, reply) is Done <==> (add.phase() is Swapping && reply is CasOk),
        match add.phase() {
            AddPhase::Reading => {
                &&& call.payload matches Payload::Read { key: Some(k) }
                &&& k@ == "g-counter"@
                &&& match spec_counter_from_reply(reply) {
                    Ok(read) => if read + add.delta() <= u32::MAX {
                        &&& spec_add_step(add, reply) == KvStep::<()>::Continue
                        &&& spec_add_next_phase(add, reply) == (AddPhase::Swapping { from: read })
                    } else {
                        spec_add_step(add, reply) == KvStep::<()>::Failed(KvError::Overflow)
                    },
                    Err(e) => spec_add_step(add, reply) == KvStep::<()>::Failed(e),
                }
            },
            AddPhase::Swapping { from } => {
                &&& call.payload matches Payload::Cas {
                    data: CasRPC::Gcounter { key, from: f, to: t, create_if_not_exists: c },
                }
                &&& key@ == "g-counter"@
                &&& f == from
                &&& t == from + add.delta()
                &&& c
                &&& match reply {
                    Payload::Error { code, .. } => code == 22 ==> {
                        &&& spec_add_step(add, reply) == KvStep::<()>::Continue
                        &&& spec_add_next_phase(add, reply) == AddPhase::Reading
                    },
                    _ => true,
                }
            },
        },
{
}

impl Default for WorkloadGcounter {
    fn default() -> (w: Self)
        ensures
            !w.is_initialized(),
    {
        WorkloadGcounter::new()
    }
}

} // verus!
