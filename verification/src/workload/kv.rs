use vstd::prelude::*;
use vstd::string::StringExecFns;

use crate::body::{CasRPC, Payload, ReadRPC};

verus! {

/// Why a request to a key-value service failed.
#[derive(Debug, Clone, Copy, PartialEq, Eq)]
pub enum KvError {
    /// The service answered with an error other than "key does not exist" or "precondition
    /// failed".
    Service { code: u32 },
    /// The service answered with a message that is not an answer to a read.
    UnexpectedReply,
    /// The new counter value would pass `u32::MAX`, the range of a counter's value.
    Overflow,
}

/// A request for a key-value service.
pub struct RpcCall {
    pub dest: String,
    pub payload: Payload,
}

/// What an operation does after a reply: ask again (`request` says what), finish, or fail. A
/// reply that the protocol rules out altogether is `Unexpected`.
#[derive(Debug, Clone, Copy, PartialEq, Eq)]
pub enum KvStep<T> {
    Continue,
    Done(T),
    Failed(KvError),
    Unexpected,
}

/// What the answer to a compare-and-swap says.
#[derive(Debug, Clone, Copy, PartialEq, Eq)]
pub enum CasOutcome {
    /// The value was swapped.
    Swapped,
    /// The value was not the expected one (error 22): read it again and retry.
    Conflict,
    /// Any other error.
    Failed(KvError),
    /// Not an answer to a compare-and-swap.
    Unexpected,
}

/// The error code for a key the service does not hold.
pub open spec fn key_does_not_exist() -> u32 {
    20
}

/// The error code for a compare-and-swap whose expected value did not match.
pub open spec fn precondition_failed() -> u32 {
    22
}

/// The counter a read reply gives: the value read, or 0 where the key does not exist.
pub open spec fn spec_counter_from_reply(reply: Payload) -> Result<u64, KvError> {
    match reply {
        Payload::ReadOk { result: ReadRPC::Gcounter { value } } => Ok(value),
        Payload::Error { code, .. } => if code == key_does_not_exist() {
            Ok(0)
        } else {
            Err(KvError::Service { code })
        },
        _ => Err(KvError::UnexpectedReply),
    }
}

pub fn counter_from_reply(reply: Payload) -> (res: Result<u64, KvError>)
    ensures
        res == spec_counter_from_reply(reply),
{
    match reply {
        Payload::ReadOk { result: ReadRPC::Gcounter { value } } => Ok(value),
        Payload::Error { code, .. } => if code == 20 {
            Ok(0)
        } else {
            Err(KvError::Service { code })
        },
        _ => Err(KvError::UnexpectedReply),
    }
}

/// The log a read reply gives: the entries read, or none where the key does not exist.
pub open spec fn spec_log_read(reply: Payload) -> Result<Seq<u64>, KvError> {
    match reply {
        Payload::ReadOk { result: ReadRPC::Kafka { value } } => Ok(value@),
        Payload::Error { code, .. } => if code == key_does_not_exist() {
            Ok(Seq::<u64>::empty())
        } else {
            Err(KvError::Service { code })
        },
        _ => Err(KvError::UnexpectedReply),
    }
}

pub fn log_from_reply(reply: Payload) -> (res: Result<Vec<u64>, KvError>)
    ensures
        match res {
            Ok(entries) => spec_log_read(reply) == Ok::<Seq<u64>, KvError>(entries@),
            Err(e) => spec_log_read(reply) == Err::<Seq<u64>, KvError>(e),
        },
{
    match reply {
        Payload::ReadOk { result: ReadRPC::Kafka { value } } => Ok(value),
        Payload::Error { code, .. } => if code == 20 {
            Ok(Vec::new())
        } else {
            Err(KvError::Service { code })
        },
        _ => Err(KvError::UnexpectedReply),
    }
}

pub open spec fn spec_cas_outcome(reply: Payload) -> CasOutcome {
    match reply {
        Payload::CasOk => CasOutcome::Swapped,
        Payload::Error { code, .. } => if code == precondition_failed() {
            CasOutcome::Conflict
        } else {
            CasOutcome::Failed(KvError::Service { code })
        },
        _ => CasOutcome::Unexpected,
    }
}

pub fn cas_outcome(reply: &Payload) -> (res: CasOutcome)
    ensures
        res == spec_cas_outcome(*reply),
{
    match reply {
        Payload::CasOk => CasOutcome::Swapped,
        Payload::Error { code, .. } => if *code == 22 {
            CasOutcome::Conflict
        } else {
            CasOutcome::Failed(KvError::Service { code: *code })
        },
        _ => CasOutcome::Unexpected,
    }
}

/// `call` reads `key` from `service`.
pub open spec fn is_read_call(call: RpcCall, service: Seq<char>, key: Seq<char>) -> bool {
    &&& call.dest@ == service
    &&& call.payload matches Payload::Read { key: Some(k) }
    &&& k@ == key
}

/// `call` swaps the counter `key` of `service` from `from` to `to`, creating it if need be.
pub open spec fn is_counter_cas_call(
    call: RpcCall,
    service: Seq<char>,
    key: Seq<char>,
    from: u64,
    to: u64,
) -> bool {
    &&& call.dest@ == service
    &&& call.payload matches Payload::Cas {
        data: CasRPC::Gcounter { key: k, from: f, to: t, create_if_not_exists: c },
    }
    &&& k@ == key
    &&& f == from
    &&& t == to
    &&& c
}

/// `call` swaps the log `key` of `service` from `from` to `to`, creating it if need be.
pub open spec fn is_log_cas_call(
    call: RpcCall,
    service: Seq<char>,
    key: Seq<char>,
    from: Seq<u64>,
    to: Seq<u64>,
) -> bool {
    &&& call.dest@ == service
    &&& call.payload matches Payload::Cas {
        data: CasRPC::Kafka { key: k, from: f, to: t, create_if_not_exists: c },
    }
    &&& k@ == key
    &&& f@ == from
    &&& t@ == to
    &&& c
}

/// A read of a key the service does not hold gives an empty log and a counter of 0; a read the
/// service answers gives what it holds; any other error is passed on, and a reply that is not
/// an answer to a read is refused.
pub proof fn lemma_read_replies(reply: Payload)
    ensures
        match reply {
            Payload::ReadOk { result: ReadRPC::Gcounter { value } } => spec_counter_from_reply(reply)
                == Ok::<u64, KvError>(value) && spec_log_read(reply) == Err::<Seq<u64>, KvError>(
                KvError::UnexpectedReply,
            ),
            Payload::ReadOk { result: ReadRPC::Kafka { value } } => spec_log_read(reply) == Ok::<
                Seq<u64>,
                KvError,
            >(value@) && spec_counter_from_reply(reply) == Err::<u64, KvError>(
                KvError::UnexpectedReply,
            ),
            Payload::Error { code, .. } => if code == 20 {
                spec_counter_from_reply(reply) == Ok::<u64, KvError>(0) && spec_log_read(reply)
                    == Ok::<Seq<u64>, KvError>(Seq::empty())
            } else {
                spec_counter_from_reply(reply) == Err::<u64, KvError>(KvError::Service { code })
                    && spec_log_read(reply) == Err::<Seq<u64>, KvError>(KvError::Service { code })
            },
            _ => spec_counter_from_reply(reply) == Err::<u64, KvError>(KvError::UnexpectedReply)
                && spec_log_read(reply) == Err::<Seq<u64>, KvError>(KvError::UnexpectedReply),
        },
{
}

/// A swap answered `cas_ok` went through; error 22 means the value was not the one expected;
/// any other error is passed on, and any other reply is outside the protocol.
pub proof fn lemma_swap_replies(reply: Payload)
    ensures
        (spec_cas_outcome(reply) == CasOutcome::Swapped) == (reply is CasOk),
        (spec_cas_outcome(reply) == CasOutcome::Conflict) == (reply matches Payload::Error { code, .. }
            && code == 22),
        match reply {
            Payload::Error { code, .. } => code != 22 ==> spec_cas_outcome(reply)
                == CasOutcome::Failed(KvError::Service { code }),
            _ => true,
        },
        !(reply is CasOk) && !(reply is Error) ==> spec_cas_outcome(reply) == CasOutcome::Unexpected,
{
}

/// A read of `key` from `service`.
pub fn read_call(service: &str, key: String) -> (call: RpcCall)
    ensures
        is_read_call(call, service@, key@),
{
    RpcCall { dest: service.to_owned(), payload: Payload::Read { key: Some(key) } }
}

/// A compare-and-swap of the counter `key` of `service` from `from` to `to`.
pub fn counter_cas_call(service: &str, key: String, from: u64, to: u64) -> (call: RpcCall)
    ensures
        is_counter_cas_call(call, service@, key@, from, to),
{
    RpcCall {
        dest: service.to_owned(),
        payload: Payload::Cas {
            data: CasRPC::Gcounter { key, from, to, create_if_not_exists: true },
        },
    }
}

/// A compare-and-swap of the log `key` of `service` from `from` to `to`.
pub fn log_cas_call(service: &str, key: String, from: Vec<u64>, to: Vec<u64>) -> (call: RpcCall)
    ensures
        is_log_cas_call(call, service@, key@, from@, to@),
{
    RpcCall {
        dest: service.to_owned(),
        payload: Payload::Cas { data: CasRPC::Kafka { key, from, to, create_if_not_exists: true } },
    }
}

/// `prefix` followed by `key`.
pub fn prefixed(prefix: &str, key: &str) -> (s: String)
    ensures
        s@ == prefix@ + key@,
{
    let mut s = prefix.to_owned();
    s.append(key);
    s
}

} // verus!
