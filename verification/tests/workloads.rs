use gossip_glomers::body::{CasRPC, Payload, ReadRPC};
use gossip_glomers::transport::SendData;
use gossip_glomers::workload::kv::{cas_outcome, counter_from_reply, log_from_reply, prefixed, CasOutcome, KvError, KvStep};
use gossip_glomers::workload::workload_broadcast::{gossip_candidates, gossip_target_count, isqrt, topology_size, WorkloadBroadcast};
use gossip_glomers::workload::workload_echo::WorkloadEcho;
use gossip_glomers::workload::workload_gcounter::{CounterAdd, CounterRead, CounterRequest, WorkloadGcounter};
use gossip_glomers::workload::workload_generate::WorkloadGenerate;
use gossip_glomers::workload::kafka_request::KafkaRequest;
use gossip_glomers::workload::workload_kafka::{poll_entries, LogAppend, OffsetCommit, WorkloadKafka};
use gossip_glomers::workload::WorkloadError;

fn s(x: &str) -> String {
    x.to_string()
}

fn err(code: u32) -> Payload {
    Payload::Error { code, text: s("error") }
}

#[test]
fn echo_answers_with_same_text() {
    let mut w = WorkloadEcho::new();
    let r = w.handle(Payload::Echo { echo: s("hello") }, s("c1"), Some(3)).unwrap();
    assert_eq!(r, SendData { payload: Payload::EchoOk { echo: s("hello") }, dest: s("c1"), in_reply_to: Some(3) });
    assert_eq!(w.handle(Payload::Generate, s("c1"), Some(4)), Err(WorkloadError::Unsupported));
}

#[test]
fn generate_gives_increasing_unique_ids() {
    let mut w = WorkloadGenerate::new();
    w.init(2, s("n2"));
    let a = w.handle(Payload::Generate, s("c1"), Some(1)).unwrap();
    let b = w.handle(Payload::Generate, s("c1"), Some(2)).unwrap();
    assert_eq!(a.payload, Payload::GenerateOk { id: (2u64 << 32) + 1 });
    assert_eq!(b.payload, Payload::GenerateOk { id: (2u64 << 32) + 2 });
    assert_eq!(b.in_reply_to, Some(2));
    assert_eq!(w.handle(Payload::Echo { echo: s("x") }, s("c1"), None), Err(WorkloadError::Unsupported));
    assert_eq!(w.generate(), (2u64 << 32) + 3);
    assert!(!w.counter_exhausted());
}

#[test]
fn isqrt_values() {
    assert_eq!(isqrt(0), 0);
    assert_eq!(isqrt(1), 1);
    assert_eq!(isqrt(3), 1);
    assert_eq!(isqrt(4), 2);
    assert_eq!(isqrt(10), 3);
    assert_eq!(isqrt(50), 7);
    assert_eq!(isqrt(u64::MAX as u128), 4294967295);
    for n in 0u128..200 {
        let r = isqrt(n);
        assert!(r * r <= n && n < (r + 1) * (r + 1));
    }
}

#[test]
fn gossip_target_counts() {
    assert_eq!(gossip_target_count(0), 0);
    assert_eq!(gossip_target_count(1), 1);
    assert_eq!(gossip_target_count(2), 2);
    assert_eq!(gossip_target_count(5), 3);
    assert_eq!(gossip_target_count(25), 7);
}

#[test]
fn candidates_exclude_self() {
    let topology = vec![(s("n1"), vec![s("n2")]), (s("n2"), vec![s("n1")]), (s("n3"), vec![])];
    assert_eq!(gossip_candidates(&topology, &s("n2")), vec![s("n1"), s("n3")]);
    assert_eq!(gossip_candidates(&topology, &s("n9")), vec![s("n1"), s("n2"), s("n3")]);
}

#[test]
fn topology_size_counts_each_node_once() {
    let topology = vec![(s("n1"), vec![]), (s("n3"), vec![]), (s("n1"), vec![]), (s("n2"), vec![])];
    assert_eq!(topology_size(&topology), 3);
    assert_eq!(topology_size(&vec![]), 0);
}

#[test]
fn candidates_are_each_named_once() {
    let topology = vec![(s("n1"), vec![]), (s("n3"), vec![]), (s("n1"), vec![]), (s("n2"), vec![])];
    assert_eq!(gossip_candidates(&topology, &s("n2")), vec![s("n1"), s("n3")]);
}

fn read_messages(w: &mut WorkloadBroadcast) -> Vec<u32> {
    match w.handle(Payload::Read { key: None }, s("c9"), Some(100)).unwrap().unwrap().payload {
        Payload::ReadOk { result: ReadRPC::Broadcast { messages } } => {
            let mut m = messages;
            m.sort();
            m
        }
        other => panic!("unexpected {:?}", other),
    }
}

#[test]
fn broadcast_keeps_every_message() {
    let mut w = WorkloadBroadcast::new();
    w.init(1, s("n1"));
    let r = w.handle(Payload::Broadcast { message: 5 }, s("c1"), Some(1)).unwrap().unwrap();
    assert_eq!(r, SendData { payload: Payload::BroadcastOk, dest: s("c1"), in_reply_to: Some(1) });
    w.handle(Payload::Broadcast { message: 5 }, s("c2"), Some(2)).unwrap();
    let r = w.handle(Payload::BroadcastBatch { messages: vec![7, 3, 7] }, s("n2"), Some(3)).unwrap().unwrap();
    assert_eq!(r.payload, Payload::BroadcastBatchOk);
    assert_eq!(read_messages(&mut w), vec![3, 5, 7]);
    assert_eq!(w.handle(Payload::BroadcastBatchOk, s("n2"), None), Ok(None));
    assert_eq!(w.handle(Payload::Generate, s("c1"), None), Err(WorkloadError::Unsupported));
}

#[test]
fn topology_picks_distinct_targets() {
    let mut w = WorkloadBroadcast::new();
    w.init(1, s("n1"));
    let topology: Vec<(String, Vec<String>)> =
        (1..=5).map(|i| (format!("n{}", i), vec![])).collect();
    let r = w.handle(Payload::Topology { topology }, s("c1"), Some(1)).unwrap().unwrap();
    assert_eq!(r.payload, Payload::TopologyOk);
    // Five nodes: isqrt(10) = 3 targets, drawn from the four other nodes.
    w.handle(Payload::Broadcast { message: 1 }, s("c1"), Some(2)).unwrap();
    let batches = w.gossip();
    assert_eq!(batches.len(), 3);
    let mut names: Vec<String> = batches.iter().map(|b| b.0.clone()).collect();
    for (dest, batch) in &batches {
        assert_ne!(dest, "n1");
        assert_eq!(batch, &vec![1]);
    }
    names.sort();
    names.dedup();
    assert_eq!(names.len(), 3);
}

#[test]
fn gossip_skips_the_origin_and_clears() {
    let mut w = WorkloadBroadcast::new();
    w.init(1, s("n1"));
    let topology = vec![(s("n1"), vec![]), (s("n2"), vec![])];
    w.handle(Payload::Topology { topology }, s("c1"), Some(1)).unwrap();
    // Two nodes: isqrt(4) = 2 targets, but only n2 is another node.
    w.handle(Payload::BroadcastBatch { messages: vec![10, 11] }, s("n2"), Some(2)).unwrap();
    w.handle(Payload::Broadcast { message: 12 }, s("c1"), Some(3)).unwrap();
    let batches = w.gossip();
    assert_eq!(batches.len(), 1);
    assert_eq!(batches[0].0, "n2");
    assert_eq!(batches[0].1, vec![12]);
    assert!(w.gossip().is_empty());
    assert_eq!(read_messages(&mut w), vec![10, 11, 12]);
}

#[test]
fn kv_replies_are_read() {
    assert_eq!(counter_from_reply(Payload::ReadOk { result: ReadRPC::Gcounter { value: 9 } }), Ok(9));
    assert_eq!(counter_from_reply(err(20)), Ok(0));
    assert_eq!(counter_from_reply(err(11)), Err(KvError::Service { code: 11 }));
    assert_eq!(counter_from_reply(Payload::CasOk), Err(KvError::UnexpectedReply));
    assert_eq!(log_from_reply(Payload::ReadOk { result: ReadRPC::Kafka { value: vec![4, 5] } }), Ok(vec![4, 5]));
    assert_eq!(log_from_reply(err(20)), Ok(vec![]));
    assert_eq!(log_from_reply(err(13)), Err(KvError::Service { code: 13 }));
    assert_eq!(cas_outcome(&Payload::CasOk), CasOutcome::Swapped);
    assert_eq!(cas_outcome(&err(22)), CasOutcome::Conflict);
    assert_eq!(cas_outcome(&err(20)), CasOutcome::Failed(KvError::Service { code: 20 }));
    assert_eq!(cas_outcome(&Payload::AddOk), CasOutcome::Unexpected);
    assert_eq!(prefixed("value_", "k1"), "value_k1");
}

#[test]
fn counter_add_reads_then_swaps() {
    let mut add = CounterAdd::new(5);
    let call = add.request();
    assert_eq!(call.dest, "seq-kv");
    assert_eq!(call.payload, Payload::Read { key: Some(s("g-counter")) });
    assert_eq!(add.on_reply(Payload::ReadOk { result: ReadRPC::Gcounter { value: 10 } }), KvStep::Continue);
    let call = add.request();
    assert_eq!(
        call.payload,
        Payload::Cas { data: CasRPC::Gcounter { key: s("g-counter"), from: 10, to: 15, create_if_not_exists: true } }
    );
    assert_eq!(add.on_reply(err(22)), KvStep::Continue);
    assert_eq!(add.request().payload, Payload::Read { key: Some(s("g-counter")) });
    assert_eq!(add.on_reply(err(20)), KvStep::Continue);
    assert_eq!(
        add.request().payload,
        Payload::Cas { data: CasRPC::Gcounter { key: s("g-counter"), from: 0, to: 5, create_if_not_exists: true } }
    );
    assert_eq!(add.on_reply(Payload::CasOk), KvStep::Done(()));
}

#[test]
fn counter_add_failures() {
    let mut add = CounterAdd::new(1);
    assert_eq!(add.on_reply(err(11)), KvStep::Failed(KvError::Service { code: 11 }));
    assert_eq!(add.on_reply(Payload::ReadOk { result: ReadRPC::Gcounter { value: u64::MAX } }), KvStep::Failed(KvError::Overflow));
    assert_eq!(add.on_reply(Payload::ReadOk { result: ReadRPC::Gcounter { value: 1 } }), KvStep::Continue);
    assert_eq!(add.on_reply(Payload::AddOk), KvStep::Unexpected);
    assert_eq!(add.on_reply(err(30)), KvStep::Failed(KvError::Service { code: 30 }));
}

#[test]
fn counter_add_stays_in_counter_range() {
    let mut add = CounterAdd::new(1);
    assert_eq!(add.on_reply(Payload::ReadOk { result: ReadRPC::Gcounter { value: 4294967295 } }), KvStep::Failed(KvError::Overflow));
    assert_eq!(add.on_reply(Payload::ReadOk { result: ReadRPC::Gcounter { value: 4294967294 } }), KvStep::Continue);
    assert_eq!(
        add.request().payload,
        Payload::Cas { data: CasRPC::Gcounter { key: s("g-counter"), from: 4294967294, to: 4294967295, create_if_not_exists: true } }
    );
}

#[test]
fn default_nodes_drop_early_writes() {
    let g = WorkloadGcounter::default();
    assert!(matches!(g.handle(Payload::Add { delta: 1 }, s("c"), Some(1)), Ok(None)));
    let k = WorkloadKafka::default();
    assert!(matches!(k.handle(Payload::Send { key: s("k"), msg: 1 }, s("c"), Some(1)), Ok(None)));
}

#[test]
fn counter_read_adds_zero_first() {
    let mut r = CounterRead::new();
    assert_eq!(r.request().payload, Payload::Read { key: Some(s("g-counter")) });
    assert_eq!(r.on_reply(Payload::ReadOk { result: ReadRPC::Gcounter { value: 4 } }), KvStep::Continue);
    assert_eq!(
        r.request().payload,
        Payload::Cas { data: CasRPC::Gcounter { key: s("g-counter"), from: 4, to: 4, create_if_not_exists: true } }
    );
    // The outcome of the addition does not matter.
    assert_eq!(r.on_reply(err(11)), KvStep::Continue);
    assert_eq!(r.request().payload, Payload::Read { key: Some(s("g-counter")) });
    assert_eq!(r.on_reply(Payload::ReadOk { result: ReadRPC::Gcounter { value: 6 } }), KvStep::Done(6));
}

#[test]
fn gcounter_requests() {
    let mut w = WorkloadGcounter::new();
    // An addition before init is dropped.
    assert!(matches!(w.handle(Payload::Add { delta: 3 }, s("c1"), Some(1)), Ok(None)));
    w.init(1, s("n1"));
    assert!(matches!(w.handle(Payload::Add { delta: 3 }, s("c1"), Some(2)), Ok(Some(CounterRequest::Add(_)))));
    assert!(matches!(w.handle(Payload::Read { key: None }, s("c1"), Some(3)), Ok(Some(CounterRequest::Read(_)))));
    assert!(matches!(w.handle(Payload::Generate, s("c1"), None), Err(WorkloadError::Unsupported)));
    assert_eq!(WorkloadGcounter::add_ok(s("c1"), Some(2)).payload, Payload::AddOk);
    assert_eq!(
        WorkloadGcounter::read_ok(7, s("c1"), Some(2)).payload,
        Payload::ReadOk { result: ReadRPC::Gcounter { value: 7 } }
    );
}

#[test]
fn gcounter_add_answers_after_swap() {
    let mut w = WorkloadGcounter::new();
    w.init(1, s("n1"));
    let mut r = match w.handle(Payload::Add { delta: 4 }, s("c1"), Some(8)) {
        Ok(Some(CounterRequest::Add(r))) => r,
        _ => panic!("expected an addition"),
    };
    assert_eq!(r.request().unwrap().payload, Payload::Read { key: Some(s("g-counter")) });
    assert_eq!(r.on_reply(Payload::ReadOk { result: ReadRPC::Gcounter { value: 2 } }), KvStep::Continue);
    assert!(r.request().is_some());
    assert_eq!(r.on_reply(err(22)), KvStep::Continue);
    assert_eq!(r.on_reply(err(20)), KvStep::Continue);
    assert_eq!(
        r.request().unwrap().payload,
        Payload::Cas { data: CasRPC::Gcounter { key: s("g-counter"), from: 0, to: 4, create_if_not_exists: true } }
    );
    assert_eq!(r.on_reply(Payload::CasOk), KvStep::Done(()));
    assert!(r.request().is_none());
    assert_eq!(r.finish(), SendData { payload: Payload::AddOk, dest: s("c1"), in_reply_to: Some(8) });
}

#[test]
fn gcounter_add_failure_is_not_answered() {
    let mut w = WorkloadGcounter::new();
    w.init(1, s("n1"));
    let mut r = match w.handle(Payload::Add { delta: 4 }, s("c1"), Some(8)) {
        Ok(Some(CounterRequest::Add(r))) => r,
        _ => panic!("expected an addition"),
    };
    assert_eq!(r.on_reply(err(11)), KvStep::Failed(KvError::Service { code: 11 }));
    assert!(r.request().is_some());
}

#[test]
fn gcounter_read_answers_final_read() {
    let w = WorkloadGcounter::new();
    let mut r = match w.handle(Payload::Read { key: None }, s("c2"), Some(5)) {
        Ok(Some(CounterRequest::Read(r))) => r,
        _ => panic!("expected a read"),
    };
    assert_eq!(r.on_reply(Payload::ReadOk { result: ReadRPC::Gcounter { value: 4 } }), KvStep::Continue);
    assert_eq!(
        r.request().unwrap().payload,
        Payload::Cas { data: CasRPC::Gcounter { key: s("g-counter"), from: 4, to: 4, create_if_not_exists: true } }
    );
    // A conflict makes the addition of 0 read again.
    assert_eq!(r.on_reply(err(22)), KvStep::Continue);
    assert_eq!(r.request().unwrap().payload, Payload::Read { key: Some(s("g-counter")) });
    assert_eq!(r.on_reply(Payload::ReadOk { result: ReadRPC::Gcounter { value: 5 } }), KvStep::Continue);
    assert_eq!(
        r.request().unwrap().payload,
        Payload::Cas { data: CasRPC::Gcounter { key: s("g-counter"), from: 5, to: 5, create_if_not_exists: true } }
    );
    assert_eq!(r.on_reply(Payload::CasOk), KvStep::Continue);
    assert_eq!(r.request().unwrap().payload, Payload::Read { key: Some(s("g-counter")) });
    assert_eq!(r.on_reply(Payload::ReadOk { result: ReadRPC::Gcounter { value: 9 } }), KvStep::Done(()));
    assert!(r.request().is_none());
    assert_eq!(
        r.finish(),
        SendData { payload: Payload::ReadOk { result: ReadRPC::Gcounter { value: 9 } }, dest: s("c2"), in_reply_to: Some(5) }
    );
}

#[test]
fn gcounter_read_failure_is_not_answered() {
    let w = WorkloadGcounter::new();
    let mut r = match w.handle(Payload::Read { key: None }, s("c2"), Some(5)) {
        Ok(Some(CounterRequest::Read(r))) => r,
        _ => panic!("expected a read"),
    };
    assert_eq!(r.on_reply(err(11)), KvStep::Continue);
    assert_eq!(r.on_reply(err(11)), KvStep::Failed(KvError::Service { code: 11 }));
    assert!(r.request().is_some());
}

#[test]
fn poll_entries_from_offset() {
    let items = vec![10, 20, 30];
    assert_eq!(poll_entries(&items, 0), vec![vec![0, 10], vec![1, 20], vec![2, 30]]);
    assert_eq!(poll_entries(&items, 2), vec![vec![2, 30]]);
    assert!(poll_entries(&items, 3).is_empty());
    assert!(poll_entries(&items, 99).is_empty());
}

#[test]
fn log_append_gives_offset() {
    let mut op = LogAppend::new(s("k1"), 42);
    let call = op.request();
    assert_eq!(call.dest, "lin-kv");
    assert_eq!(call.payload, Payload::Read { key: Some(s("value_k1")) });
    assert_eq!(op.on_reply(Payload::ReadOk { result: ReadRPC::Kafka { value: vec![1, 2] } }), KvStep::Continue);
    assert_eq!(
        op.request().payload,
        Payload::Cas {
            data: CasRPC::Kafka { key: s("value_k1"), from: vec![1, 2], to: vec![1, 2, 42], create_if_not_exists: true }
        }
    );
    assert_eq!(op.on_reply(err(22)), KvStep::Continue);
    assert_eq!(op.on_reply(err(20)), KvStep::Continue);
    assert_eq!(
        op.request().payload,
        Payload::Cas { data: CasRPC::Kafka { key: s("value_k1"), from: vec![], to: vec![42], create_if_not_exists: true } }
    );
    assert_eq!(op.on_reply(Payload::CasOk), KvStep::Done(0));
}

#[test]
fn log_append_failures() {
    let mut op = LogAppend::new(s("k"), 1);
    assert_eq!(op.on_reply(Payload::ReadOk { result: ReadRPC::Gcounter { value: 1 } }), KvStep::Failed(KvError::UnexpectedReply));
    assert_eq!(op.on_reply(err(14)), KvStep::Failed(KvError::Service { code: 14 }));
    assert_eq!(op.on_reply(err(20)), KvStep::Continue);
    assert_eq!(op.on_reply(Payload::SendOk { offset: 1 }), KvStep::Unexpected);
}

#[test]
fn commit_never_lowers_offset() {
    let mut op = OffsetCommit::new(s("k1"), 5);
    assert_eq!(op.request().payload, Payload::Read { key: Some(s("offset_k1")) });
    assert_eq!(op.on_reply(Payload::ReadOk { result: ReadRPC::Gcounter { value: 8 } }), KvStep::Done(8));

    let mut op = OffsetCommit::new(s("k1"), 5);
    assert_eq!(op.on_reply(err(20)), KvStep::Continue);
    assert_eq!(
        op.request().payload,
        Payload::Cas { data: CasRPC::Gcounter { key: s("offset_k1"), from: 0, to: 5, create_if_not_exists: true } }
    );
    assert_eq!(op.on_reply(err(22)), KvStep::Continue);
    assert_eq!(op.on_reply(Payload::ReadOk { result: ReadRPC::Gcounter { value: 3 } }), KvStep::Continue);
    assert_eq!(op.on_reply(Payload::CasOk), KvStep::Done(5));
}

#[test]
fn kafka_requests() {
    let mut w = WorkloadKafka::new();
    // An append before init is dropped.
    assert!(matches!(w.handle(Payload::Send { key: s("k"), msg: 3 }, s("c"), Some(1)), Ok(None)));
    w.init(1, s("n1"));
    assert!(matches!(w.handle(Payload::Send { key: s("k"), msg: 3 }, s("c"), Some(1)), Ok(Some(KafkaRequest::Send(_)))));
    assert!(matches!(w.handle(Payload::Poll { offsets: vec![(s("k"), 1)] }, s("c"), Some(2)), Ok(Some(KafkaRequest::Poll(_)))));
    assert!(matches!(w.handle(Payload::CommitOffsets { offsets: vec![] }, s("c"), Some(3)), Ok(Some(KafkaRequest::Commit(_)))));
    assert!(matches!(
        w.handle(Payload::ListCommittedOffsets { keys: vec![s("k")] }, s("c"), Some(4)),
        Ok(Some(KafkaRequest::List(_)))
    ));
    assert!(matches!(w.handle(Payload::Generate, s("c"), None), Err(WorkloadError::Unsupported)));
    assert_eq!(WorkloadKafka::log_read_call("k").payload, Payload::Read { key: Some(s("value_k")) });
    assert_eq!(WorkloadKafka::offset_read_call("k").payload, Payload::Read { key: Some(s("offset_k")) });
    assert_eq!(WorkloadKafka::send_ok(4, s("c"), Some(1)).payload, Payload::SendOk { offset: 4 });
    assert_eq!(WorkloadKafka::commit_offsets_ok(s("c"), Some(1)).payload, Payload::CommitOffsetsOk);
}

#[test]
fn kafka_send_answers_with_offset() {
    let mut w = WorkloadKafka::new();
    w.init(1, s("n1"));
    let mut r = match w.handle(Payload::Send { key: s("k1"), msg: 42 }, s("c1"), Some(7)) {
        Ok(Some(KafkaRequest::Send(r))) => r,
        _ => panic!("expected an append"),
    };
    assert_eq!(r.request().unwrap().payload, Payload::Read { key: Some(s("value_k1")) });
    assert_eq!(r.on_reply(Payload::ReadOk { result: ReadRPC::Kafka { value: vec![5, 6, 7] } }), KvStep::Continue);
    assert_eq!(
        r.request().unwrap().payload,
        Payload::Cas {
            data: CasRPC::Kafka { key: s("value_k1"), from: vec![5, 6, 7], to: vec![5, 6, 7, 42], create_if_not_exists: true }
        }
    );
    assert_eq!(r.on_reply(Payload::CasOk), KvStep::Done(()));
    assert!(r.request().is_none());
    assert_eq!(r.finish(), SendData { payload: Payload::SendOk { offset: 3 }, dest: s("c1"), in_reply_to: Some(7) });
}

#[test]
fn kafka_poll_answers_entries_from_offset() {
    let w = WorkloadKafka::new();
    let offsets = vec![(s("k1"), 1), (s("k2"), 0)];
    let mut r = match w.handle(Payload::Poll { offsets }, s("c1"), Some(4)) {
        Ok(Some(KafkaRequest::Poll(r))) => r,
        _ => panic!("expected a poll"),
    };
    let call = r.request().unwrap();
    assert_eq!(call.dest, "lin-kv");
    assert_eq!(call.payload, Payload::Read { key: Some(s("value_k1")) });
    assert_eq!(r.on_reply(Payload::ReadOk { result: ReadRPC::Kafka { value: vec![10, 20, 30] } }), KvStep::Continue);
    assert_eq!(r.request().unwrap().payload, Payload::Read { key: Some(s("value_k2")) });
    assert_eq!(r.on_reply(err(20)), KvStep::Done(()));
    assert!(r.request().is_none());
    assert_eq!(
        r.finish(),
        SendData {
            payload: Payload::PollOk { msgs: vec![(s("k1"), vec![vec![1, 20], vec![2, 30]]), (s("k2"), vec![])] },
            dest: s("c1"),
            in_reply_to: Some(4),
        }
    );
}

#[test]
fn kafka_poll_failure_is_not_answered() {
    let w = WorkloadKafka::new();
    let mut r = match w.handle(Payload::Poll { offsets: vec![(s("k1"), 0)] }, s("c1"), Some(4)) {
        Ok(Some(KafkaRequest::Poll(r))) => r,
        _ => panic!("expected a poll"),
    };
    assert_eq!(r.on_reply(err(13)), KvStep::Failed(KvError::Service { code: 13 }));
    assert_eq!(r.on_reply(Payload::CasOk), KvStep::Failed(KvError::UnexpectedReply));
    assert!(r.request().is_some());
}

#[test]
fn kafka_commit_answers_after_every_key() {
    let w = WorkloadKafka::new();
    let offsets = vec![(s("a"), 3), (s("b"), 5)];
    let mut r = match w.handle(Payload::CommitOffsets { offsets }, s("c1"), Some(9)) {
        Ok(Some(KafkaRequest::Commit(r))) => r,
        _ => panic!("expected a commit"),
    };
    assert_eq!(r.request().unwrap().payload, Payload::Read { key: Some(s("offset_a")) });
    // Already at 4: nothing to swap.
    assert_eq!(r.on_reply(Payload::ReadOk { result: ReadRPC::Gcounter { value: 4 } }), KvStep::Continue);
    assert_eq!(r.request().unwrap().payload, Payload::Read { key: Some(s("offset_b")) });
    assert_eq!(r.on_reply(err(20)), KvStep::Continue);
    assert_eq!(
        r.request().unwrap().payload,
        Payload::Cas { data: CasRPC::Gcounter { key: s("offset_b"), from: 0, to: 5, create_if_not_exists: true } }
    );
    assert_eq!(r.on_reply(Payload::CasOk), KvStep::Done(()));
    assert!(r.request().is_none());
    assert_eq!(r.finish(), SendData { payload: Payload::CommitOffsetsOk, dest: s("c1"), in_reply_to: Some(9) });
}

#[test]
fn kafka_commit_of_nothing_answers_at_once() {
    let w = WorkloadKafka::new();
    let r = match w.handle(Payload::CommitOffsets { offsets: vec![] }, s("c1"), Some(9)) {
        Ok(Some(KafkaRequest::Commit(r))) => r,
        _ => panic!("expected a commit"),
    };
    assert!(r.request().is_none());
    assert_eq!(r.finish(), SendData { payload: Payload::CommitOffsetsOk, dest: s("c1"), in_reply_to: Some(9) });
}

#[test]
fn kafka_commit_failure_is_not_answered() {
    let w = WorkloadKafka::new();
    let mut r = match w.handle(Payload::CommitOffsets { offsets: vec![(s("a"), 3)] }, s("c1"), Some(9)) {
        Ok(Some(KafkaRequest::Commit(r))) => r,
        _ => panic!("expected a commit"),
    };
    assert_eq!(r.on_reply(err(20)), KvStep::Continue);
    assert_eq!(r.on_reply(err(30)), KvStep::Failed(KvError::Service { code: 30 }));
    assert!(r.request().is_some());
}

#[test]
fn kafka_list_answers_committed_offsets() {
    let w = WorkloadKafka::new();
    let mut r = match w.handle(Payload::ListCommittedOffsets { keys: vec![s("a"), s("b")] }, s("c3"), Some(2)) {
        Ok(Some(KafkaRequest::List(r))) => r,
        _ => panic!("expected a listing"),
    };
    assert_eq!(r.request().unwrap().payload, Payload::Read { key: Some(s("offset_a")) });
    assert_eq!(r.on_reply(Payload::ReadOk { result: ReadRPC::Gcounter { value: 6 } }), KvStep::Continue);
    assert_eq!(r.request().unwrap().payload, Payload::Read { key: Some(s("offset_b")) });
    assert_eq!(r.on_reply(err(20)), KvStep::Done(()));
    assert!(r.request().is_none());
    assert_eq!(
        r.finish(),
        SendData {
            payload: Payload::ListCommittedOffsetsOk { offsets: vec![(s("a"), 6), (s("b"), 0)] },
            dest: s("c3"),
            in_reply_to: Some(2),
        }
    );
}

#[test]
fn kafka_list_failure_is_not_answered() {
    let w = WorkloadKafka::new();
    let mut r = match w.handle(Payload::ListCommittedOffsets { keys: vec![s("a")] }, s("c3"), Some(2)) {
        Ok(Some(KafkaRequest::List(r))) => r,
        _ => panic!("expected a listing"),
    };
    assert_eq!(r.on_reply(err(14)), KvStep::Failed(KvError::Service { code: 14 }));
    assert!(r.request().is_some());
}
