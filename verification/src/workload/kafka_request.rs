use vstd::prelude::*;

use crate::body::Payload;
use crate::transport::SendData;
use crate::workload::kv::{
    counter_from_reply, is_read_call, log_from_reply, spec_counter_from_reply, spec_log_read,
    KvStep, RpcCall,
};
use crate::workload::workload_kafka::{
    log_key, log_service, offset_key, poll_entries, spec_append_next, spec_append_step,
    spec_commit_next_phase, spec_commit_step, spec_poll_entries, CommitPhase, LogAppend,
    OffsetCommit, WorkloadKafka,
};

verus! {

/// A request to a log node, from its arrival to its answer. `request` says what to ask the
/// key-value service next (nothing, once the answer is ready); `on_reply` takes in the service's
/// reply; `finish` gives the answer once nothing is left to ask. A request that fails is not
/// answered.
pub enum KafkaRequest {
    Send(AppendRequest),
    Poll(PollRequest),
    Commit(CommitRequest),
    List(ListRequest),
}

/// A `send`: append the message to its log, then answer with the offset it got.
pub struct AppendRequest {
    op: LogAppend,
    offset: Option<u64>,
    dest: String,
    msg_id: Option<u64>,
}

impl AppendRequest {
    pub closed spec fn append(self) -> LogAppend {
        self.op
    }

    /// The offset the message got, once it is appended.
    pub closed spec fn offset(self) -> Option<u64> {
        self.offset
    }

    pub closed spec fn dest(self) -> String {
        self.dest
    }

    pub closed spec fn msg_id(self) -> Option<u64> {
        self.msg_id
    }

    pub open spec fn is_complete(self) -> bool {
        self.offset() is Some
    }

    pub fn new(key: String, msg: u64, dest: String, msg_id: Option<u64>) -> (r: Self)
        ensures
            r.append().key() == key@,
            r.append().value() == msg,
            r.append().read_entries() is None,
            r.offset() is None,
            r.dest() == dest,
            r.msg_id() == msg_id,
    {
        AppendRequest { op: LogAppend::new(key, msg), offset: None, dest, msg_id }
    }

    /// What to ask next: the append's next request, until the message is appended.
    pub fn request(&self) -> (call: Option<RpcCall>)
        ensures
            match call {
                Some(c) => !self.is_complete() && self.append().is_request(c),
                None => self.is_complete(),
            },
    {
        match self.offset {
            Some(_) => None,
            None => Some(self.op.request()),
        }
    }

    /// Takes in the reply to the last request. It is done once a swap has appended the message.
    pub fn on_reply(&mut self, reply: Payload) -> (step: KvStep<()>)
        requires
            !old(self).is_complete(),
        ensures
            final(self).append().key() == old(self).append().key(),
            final(self).append().value() == old(self).append().value(),
            final(self).append().read_entries() == spec_append_next(old(self).append(), reply),
            final(self).dest() == old(self).dest(),
            final(self).msg_id() == old(self).msg_id(),
            match spec_append_step(old(self).append(), reply) {
                KvStep::Done(offset) => step == KvStep::Done(()) && final(self).offset() == Some(
                    offset,
                ),
                KvStep::Continue => step == KvStep::<()>::Continue && final(self).offset() is None,
                KvStep::Failed(e) => step == KvStep::<()>::Failed(e) && final(self).offset() is None,
                KvStep::Unexpected => step == KvStep::<()>::Unexpected && final(self).offset() is None,
            },
    {
        match self.op.on_reply(reply) {
            KvStep::Done(offset) => {
                self.offset = Some(offset);
                KvStep::Done(())
            },
            KvStep::Continue => KvStep::Continue,
            KvStep::Failed(e) => KvStep::Failed(e),
            KvStep::Unexpected => KvStep::Unexpected,
        }
    }

    /// The answer: `send_ok` with the offset the message got.
    pub fn finish(self) -> (reply: SendData)
        requires
            self.is_complete(),
        ensures
            reply == (SendData {
                payload: Payload::SendOk { offset: self.offset()->0 },
                dest: self.dest(),
                in_reply_to: self.msg_id(),
            }),
    {
        let offset = match self.offset {
            Some(o) => o,
            None => 0,
        };
        WorkloadKafka::send_ok(offset, self.dest, self.msg_id)
    }
}

/// `msgs` answers a poll of `offsets` over the logs `logs`: for each key, in order, the key and
/// the entries of its log from its offset on.
pub open spec fn is_poll_answer(
    msgs: Seq<(String, Vec<Vec<u64>>)>,
    offsets: Seq<(String, u64)>,
    logs: Seq<Seq<u64>>,
) -> bool {
    &&& msgs.len() == offsets.len()
    &&& logs.len() == offsets.len()
    &&& forall|i: int|
        0 <= i < msgs.len() ==> (#[trigger] msgs[i]).0@ == offsets[i].0@ && msgs[i].1@.map_values(
            |e: Vec<u64>| e@,
        ) == spec_poll_entries(logs[i], offsets[i].1)
}

/// A `poll`: read the log of each key in turn, then answer with the entries of each from its
/// offset on.
pub struct PollRequest {
    offsets: Vec<(String, u64)>,
    msgs: Vec<(String, Vec<Vec<u64>>)>,
    logs: Ghost<Seq<Seq<u64>>>,
    dest: String,
    msg_id: Option<u64>,
}

impl PollRequest {
    pub closed spec fn offsets(self) -> Seq<(String, u64)> {
        self.offsets@
    }

    /// The logs read so far, one for each of the first keys.
    pub closed spec fn logs(self) -> Seq<Seq<u64>> {
        self.logs@
    }

    pub closed spec fn dest(self) -> String {
        self.dest
    }

    pub closed spec fn msg_id(self) -> Option<u64> {
        self.msg_id
    }

    pub closed spec fn wf(self) -> bool {
        &&& self.logs@.len() <= self.offsets@.len()
        &&& is_poll_answer(self.msgs@, self.offsets@.take(self.logs@.len() as int), self.logs@)
    }

    pub open spec fn is_complete(self) -> bool {
        self.logs().len() == self.offsets().len()
    }

    pub fn new(offsets: Vec<(String, u64)>, dest: String, msg_id: Option<u64>) -> (r: Self)
        ensures
            r.wf(),
            r.offsets() == offsets@,
            r.logs() == Seq::<Seq<u64>>::empty(),
            r.dest() == dest,
            r.msg_id() == msg_id,
    {
        PollRequest { offsets, msgs: Vec::new(), logs: Ghost(Seq::empty()), dest, msg_id }
    }

    /// What to ask next: a read of the log of the first key not read yet.
    pub fn request(&self) -> (call: Option<RpcCall>)
        requires
            self.wf(),
        ensures
            match call {
                Some(c) => !self.is_complete() && is_read_call(
                    c,
                    log_service(),
                    log_key(self.offsets()[self.logs().len() as int].0@),
                ),
                None => self.is_complete(),
            },
    {
        let i = self.msgs.len();
        if i < self.offsets.len() {
            Some(WorkloadKafka::log_read_call(self.offsets[i].0.as_str()))
        } else {
            None
        }
    }

    /// Takes in the reply to the read of the next key's log. It is done once every key's log
    /// has been read; a reply that gives no log fails it.
    pub fn on_reply(&mut self, reply: Payload) -> (step: KvStep<()>)
        requires
            old(self).wf(),
            !old(self).is_complete(),
        ensures
            final(self).wf(),
            final(self).offsets() == old(self).offsets(),
            final(self).dest() == old(self).dest(),
            final(self).msg_id() == old(self).msg_id(),
            match spec_log_read(reply) {
                Ok(log) => {
                    &&& final(self).logs() == old(self).logs().push(log)
                    &&& step == if final(self).is_complete() {
                        KvStep::Done(())
                    } else {
                        KvStep::<()>::Continue
                    }
                },
                Err(e) => final(self).logs() == old(self).logs() && step == KvStep::<()>::Failed(e),
            },
    {
        let i = self.msgs.len();
        match log_from_reply(reply) {
            Ok(items) => {
                let offset = self.offsets[i].1;
                let entries = poll_entries(&items, offset);
                let key = self.offsets[i].0.clone();
                let ghost old_msgs = self.msgs@;
                self.msgs.push((key, entries));
                self.logs = Ghost(self.logs@.push(items@));
                proof {
                    let offsets = self.offsets@;
                    let n = self.logs@.len() as int;
                    assert(offsets.take(n).len() == n);
                    assert forall|j: int| 0 <= j < n implies (#[trigger] self.msgs@[j]).0@
                        == offsets.take(n)[j].0@ && self.msgs@[j].1@.map_values(
                        |e: Vec<u64>| e@,
                    ) == spec_poll_entries(self.logs@[j], offsets.take(n)[j].1) by {
                        if j < n - 1 {
                            assert(self.msgs@[j] == old_msgs[j]);
                            assert(offsets.take(n)[j] == offsets.take(n - 1)[j]);
                        }
                    }
                }
                if self.msgs.len() < self.offsets.len() {
                    KvStep::Continue
                } else {
                    KvStep::Done(())
                }
            },
            Err(e) => KvStep::Failed(e),
        }
    }

    /// The answer: `poll_ok` with, for each key in order, its entries from its offset on.
    pub fn finish(self) -> (reply: SendData)
        requires
            self.wf(),
            self.is_complete(),
        ensures
            reply.dest == self.dest(),
            reply.in_reply_to == self.msg_id(),
            reply.payload matches Payload::PollOk { msgs } && is_poll_answer(
                msgs@,
                self.offsets(),
                self.logs(),
            ),
    {
        assert(self.offsets@.take(self.logs@.len() as int) =~= self.offsets@);
        WorkloadKafka::poll_ok(self.msgs, self.dest, self.msg_id)
    }
}

/// A `commit_offsets`: raise the committed offset of each key in turn to at least the one given,
/// then answer.
pub struct CommitRequest {
    offsets: Vec<(String, u64)>,
    done: usize,
    current: Option<OffsetCommit>,
    committed: Ghost<Seq<u64>>,
    dest: String,
    msg_id: Option<u64>,
}

impl CommitRequest {
    pub closed spec fn offsets(self) -> Seq<(String, u64)> {
        self.offsets@
    }

    /// The committed offsets that the commits of the first keys ended with.
    pub closed spec fn committed(self) -> Seq<u64> {
        self.committed@
    }

    /// The commit under way, for the first key not committed yet.
    pub closed spec fn current(self) -> Option<OffsetCommit> {
        self.current
    }

    pub closed spec fn dest(self) -> String {
        self.dest
    }

    pub closed spec fn msg_id(self) -> Option<u64> {
        self.msg_id
    }

    /// A commit is under way exactly while a key is left, and it is the one of that key; each
    /// key committed has an offset at least the one asked for.
    pub closed spec fn wf(self) -> bool {
        &&& self.done == self.committed@.len()
        &&& self.done <= self.offsets@.len()
        &&& (self.done < self.offsets@.len()) == (self.current is Some)
        &&& self.current matches Some(c) ==> {
            &&& c.wf()
            &&& c.key() == self.offsets@[self.done as int].0@
            &&& c.value() == self.offsets@[self.done as int].1
        }
        &&& forall|i: int|
            0 <= i < self.done ==> #[trigger] self.committed@[i] >= self.offsets@[i].1
    }

    pub open spec fn is_complete(self) -> bool {
        self.committed().len() == self.offsets().len()
    }

    /// While a key is left, the commit under way is the one of the first key not committed yet,
    /// to its offset; none is under way once every key is committed.
    pub open spec fn commits_next_key(self) -> bool {
        if self.is_complete() {
            self.current() is None
        } else {
            &&& self.current() matches Some(c)
            &&& c.wf()
            &&& c.key() == self.offsets()[self.committed().len() as int].0@
            &&& c.value() == self.offsets()[self.committed().len() as int].1
        }
    }

    /// A well-formed commit request commits the next key.
    pub proof fn lemma_commits_next_key(self)
        requires
            self.wf(),
        ensures
            self.committed().len() <= self.offsets().len(),
            self.commits_next_key(),
    {
    }

    /// Each key committed has an offset at least the one asked for.
    pub proof fn lemma_committed_at_least_asked(self)
        requires
            self.wf(),
        ensures
            self.committed().len() <= self.offsets().len(),
            forall|i: int|
                0 <= i < self.committed().len() ==> #[trigger] self.committed()[i]
                    >= self.offsets()[i].1,
    {
    }

    /// A fresh commit for the key at `i`.
    fn commit_at(offsets: &Vec<(String, u64)>, i: usize) -> (c: Option<OffsetCommit>)
        ensures
            if i < offsets.len() {
                &&& c matches Some(op)
                &&& op.wf()
                &&& op.key() == offsets@[i as int].0@
                &&& op.value() == offsets@[i as int].1
                &&& op.phase() == CommitPhase::Reading
            } else {
                c is None
            },
    {
        if i < offsets.len() {
            Some(OffsetCommit::new(offsets[i].0.clone(), offsets[i].1))
        } else {
            None
        }
    }

    pub fn new(offsets: Vec<(String, u64)>, dest: String, msg_id: Option<u64>) -> (r: Self)
        ensures
            r.wf(),
            r.offsets() == offsets@,
            r.committed() == Seq::<u64>::empty(),
            r.commits_next_key(),
            r.current() matches Some(c) ==> c.phase() == CommitPhase::Reading,
            r.dest() == dest,
            r.msg_id() == msg_id,
    {
        let current = CommitRequest::commit_at(&offsets, 0);
        CommitRequest { offsets, done: 0, current, committed: Ghost(Seq::empty()), dest, msg_id }
    }

    /// What to ask next: the next request of the commit under way.
    pub fn request(&self) -> (call: Option<RpcCall>)
        requires
            self.wf(),
        ensures
            match call {
                Some(c) => !self.is_complete() && self.current()->0.is_request(c),
                None => self.is_complete(),
            },
    {
        match &self.current {
            Some(op) => Some(op.request()),
            None => None,
        }
    }

    /// Takes in the reply to the last request of the commit under way. Once that commit is done
    /// the next key's begins; the request is done once every key is committed.
    pub fn on_reply(&mut self, reply: Payload) -> (step: KvStep<()>)
        requires
            old(self).wf(),
            !old(self).is_complete(),
        ensures
            final(self).wf(),
            final(self).commits_next_key(),
            final(self).offsets() == old(self).offsets(),
            final(self).dest() == old(self).dest(),
            final(self).msg_id() == old(self).msg_id(),
            match spec_commit_step(old(self).current()->0, reply) {
                KvStep::Done(offset) => {
                    &&& final(self).committed() == old(self).committed().push(offset)
                    &&& final(self).current() matches Some(c) ==> c.phase()
                        == CommitPhase::Reading
                    &&& step == if final(self).is_complete() {
                        KvStep::Done(())
                    } else {
                        KvStep::<()>::Continue
                    }
                },
                KvStep::Continue => {
                    &&& final(self).committed() == old(self).committed()
                    &&& final(self).current() matches Some(c) && c.phase()
                        == spec_commit_next_phase(old(self).current()->0, reply)
                    &&& step == KvStep::<()>::Continue
                },
                KvStep::Failed(e) => final(self).committed() == old(self).committed() && step
                    == KvStep::<()>::Failed(e),
                KvStep::Unexpected => final(self).committed() == old(self).committed() && step
                    == KvStep::<()>::Unexpected,
            },
    {
        assert(self.done < self.offsets.len());
        let mut op = match self.current.take() {
            Some(op) => op,
            None => OffsetCommit::new(String::new(), 0),
        };
        let step = op.on_reply(reply);
        match step {
            KvStep::Done(offset) => {
                self.done = self.done + 1;
                self.committed = Ghost(self.committed@.push(offset));
                self.current = CommitRequest::commit_at(&self.offsets, self.done);
                if self.done < self.offsets.len() {
                    KvStep::Continue
                } else {
                    KvStep::Done(())
                }
            },
            KvStep::Continue => {
                self.current = Some(op);
                KvStep::Continue
            },
            KvStep::Failed(e) => {
                self.current = Some(op);
                KvStep::Failed(e)
            },
            KvStep::Unexpected => {
                self.current = Some(op);
                KvStep::Unexpected
            },
        }
    }

    /// The answer, once every key is committed: `commit_offsets_ok`.
    pub fn finish(self) -> (reply: SendData)
        requires
            self.is_complete(),
        ensures
            reply == (SendData {
                payload: Payload::CommitOffsetsOk,
                dest: self.dest(),
                in_reply_to: self.msg_id(),
            }),
    {
        WorkloadKafka::commit_offsets_ok(self.dest, self.msg_id)
    }
}

/// `offsets` answers a listing of `keys` with the committed offsets `read`: each key, in order,
/// with the offset read for it.
pub open spec fn is_list_answer(
    offsets: Seq<(String, u64)>,
    keys: Seq<String>,
    read: Seq<u64>,
) -> bool {
    &&& offsets.len() == keys.len()
    &&& read.len() == keys.len()
    &&& forall|i: int|
        0 <= i < offsets.len() ==> (#[trigger] offsets[i]).0@ == keys[i]@ && offsets[i].1 == read[i]
}

/// A `list_committed_offsets`: read the committed offset of each key in turn, then answer with
/// them.
pub struct ListRequest {
    keys: Vec<String>,
    offsets: Vec<(String, u64)>,
    dest: String,
    msg_id: Option<u64>,
}

impl ListRequest {
    pub closed spec fn keys(self) -> Seq<String> {
        self.keys@
    }

    /// The committed offsets read so far, one for each of the first keys.
    pub closed spec fn read(self) -> Seq<u64> {
        self.offsets@.map_values(|p: (String, u64)| p.1)
    }

    pub closed spec fn dest(self) -> String {
        self.dest
    }

    pub closed spec fn msg_id(self) -> Option<u64> {
        self.msg_id
    }

    pub closed spec fn wf(self) -> bool {
        &&& self.offsets@.len() <= self.keys@.len()
        &&& forall|i: int|
            0 <= i < self.offsets@.len() ==> (#[trigger] self.offsets@[i]).0@ == self.keys@[i]@
    }

    pub open spec fn is_complete(self) -> bool {
        self.read().len() == self.keys().len()
    }

    pub fn new(keys: Vec<String>, dest: String, msg_id: Option<u64>) -> (r: Self)
        ensures
            r.wf(),
            r.keys() == keys@,
            r.read() == Seq::<u64>::empty(),
            r.dest() == dest,
            r.msg_id() == msg_id,
    {
        let r = ListRequest { keys, offsets: Vec::new(), dest, msg_id };
        assert(r.read() =~= Seq::<u64>::empty());
        r
    }

    /// What to ask next: a read of the committed offset of the first key not read yet.
    pub fn request(&self) -> (call: Option<RpcCall>)
        requires
            self.wf(),
        ensures
            match call {
                Some(c) => !self.is_complete() && is_read_call(
                    c,
                    log_service(),
                    offset_key(self.keys()[self.read().len() as int]@),
                ),
                None => self.is_complete(),
            },
    {
        let i = self.offsets.len();
        if i < self.keys.len() {
            Some(WorkloadKafka::offset_read_call(self.keys[i].as_str()))
        } else {
            None
        }
    }

    /// Takes in the reply to the read of the next key's committed offset. It is done once every
    /// key's offset has been read; a reply that gives no offset fails it.
    pub fn on_reply(&mut self, reply: Payload) -> (step: KvStep<()>)
        requires
            old(self).wf(),
            !old(self).is_complete(),
        ensures
            final(self).wf(),
            final(self).keys() == old(self).keys(),
            final(self).dest() == old(self).dest(),
            final(self).msg_id() == old(self).msg_id(),
            match spec_counter_from_reply(reply) {
                Ok(offset) => {
                    &&& final(self).read() == old(self).read().push(offset)
                    &&& step == if final(self).is_complete() {
                        KvStep::Done(())
                    } else {
                        KvStep::<()>::Continue
                    }
                },
                Err(e) => final(self).read() == old(self).read() && step == KvStep::<()>::Failed(e),
            },
    {
        let i = self.offsets.len();
        match counter_from_reply(reply) {
            Ok(offset) => {
                let key = self.keys[i].clone();
                self.offsets.push((key, offset));
                assert(self.read() =~= old(self).read().push(offset));
                if self.offsets.len() < self.keys.len() {
                    KvStep::Continue
                } else {
                    KvStep::Done(())
                }
            },
            Err(e) => KvStep::Failed(e),
        }
    }

    /// The answer: `list_committed_offsets_ok` with each key and the committed offset read for
    /// it.
    pub fn finish(self) -> (reply: SendData)
        requires
            self.wf(),
            self.is_complete(),
        ensures
            reply.dest == self.dest(),
            reply.in_reply_to == self.msg_id(),
            reply.payload matches Payload::ListCommittedOffsetsOk { offsets } && is_list_answer(
                offsets@,
                self.keys(),
                self.read(),
            ),
    {
        WorkloadKafka::list_committed_offsets_ok(self.offsets, self.dest, self.msg_id)
    }
}

/// A poll's answer holds, for each requested key in order, that key and the messages of its log
/// from the requested offset on, each with its own offset.
pub proof fn lemma_poll_answer_per_key(
    msgs: Seq<(String, Vec<Vec<u64>>)>,
    offsets: Seq<(String, u64)>,
    logs: Seq<Seq<u64>>,
)
    requires
        is_poll_answer(msgs, offsets, logs),
    ensures
        msgs.len() == offsets.len(),
        forall|i: int|
            0 <= i < msgs.len() ==> {
                let offset = offsets[i].1;
                let log = logs[i];
                &&& (#[trigger] msgs[i]).0@ == offsets[i].0@
                &&& msgs[i].1@.len() == if offset < log.len() {
                    log.len() - offset
                } else {
                    0
                }
                &&& forall|j: int|
                    0 <= j < msgs[i].1@.len() ==> (#[trigger] msgs[i].1@[j])@ == seq![
                        (offset + j) as u64,
                        log[offset + j],
                    ]
            },
{
    assert forall|i: int| 0 <= i < msgs.len() implies (#[trigger] msgs[i]).1@.len() == (if offsets[
        i].1 < logs[i].len() {
        logs[i].len() - offsets[i].1
    } else {
        0
    }) && forall|j: int|
        0 <= j < msgs[i].1@.len() ==> (#[trigger] msgs[i].1@[j])@ == seq![
            (offsets[i].1 + j) as u64,
            logs[i][offsets[i].1 + j],
        ] by {
        let e = msgs[i].1@.map_values(|v: Vec<u64>| v@);
        assert(e == spec_poll_entries(logs[i], offsets[i].1));
        assert(e.len() == msgs[i].1@.len());
        assert forall|j: int| 0 <= j < msgs[i].1@.len() implies (#[trigger] msgs[i].1@[j])@ == seq![
            (offsets[i].1 + j) as u64,
            logs[i][offsets[i].1 + j],
        ] by {
            assert(e[j] == msgs[i].1@[j]@);
        }
    }
}

/// A listing's answer holds each requested key, in order, with the committed offset read for it.
pub proof fn lemma_list_answer_per_key(
    offsets: Seq<(String, u64)>,
    keys: Seq<String>,
    read: Seq<u64>,
)
    requires
        is_list_answer(offsets, keys, read),
    ensures
        offsets.len() == keys.len(),
        forall|i: int|
            0 <= i < keys.len() ==> (#[trigger] offsets[i]).0@ == keys[i]@ && offsets[i].1 == read[i],
{
}

} // verus!
