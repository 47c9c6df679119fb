use gossip_glomers::body::{Body, CasRPC, Payload, ReadRPC};
use gossip_glomers::ids::compose_id;
use gossip_glomers::message::Message;
use gossip_glomers::node::{parse_node_id, parse_u32, route_message, NodeCommand};
use gossip_glomers::transport::{Incoming, RPCData, SendData, Transport, TransportPayload};

fn msg(src: &str, dest: &str, msg_id: Option<u64>, in_reply_to: Option<u64>, payload: Payload) -> Message {
    Message {
        src: src.to_string(),
        dest: dest.to_string(),
        body: Body { msg_id, in_reply_to, payload },
    }
}

#[test]
fn reply_swaps_endpoints() {
    let m = msg("c1", "n1", Some(1), None, Payload::Echo { echo: "hi".to_string() });
    let body = Body { msg_id: Some(7), in_reply_to: Some(1), payload: Payload::EchoOk { echo: "hi".to_string() } };
    let r = m.reply(body.clone());
    assert_eq!(r.src, "n1");
    assert_eq!(r.dest, "c1");
    assert_eq!(r.body, body);
    let rr = r.reply(Body { msg_id: None, in_reply_to: None, payload: Payload::InitOk });
    assert_eq!(rr.src, "c1");
    assert_eq!(rr.dest, "n1");
}

#[test]
fn ids_put_node_in_high_half() {
    assert_eq!(compose_id(0, 1), 1);
    assert_eq!(compose_id(3, 5), (3u64 << 32) + 5);
    assert_eq!(compose_id(u32::MAX, u32::MAX), u64::MAX);
}

#[test]
fn parse_u32_reads_decimal() {
    assert_eq!(parse_u32("0"), Some(0));
    assert_eq!(parse_u32("42"), Some(42));
    assert_eq!(parse_u32("+42"), Some(42));
    assert_eq!(parse_u32("007"), Some(7));
    assert_eq!(parse_u32("4294967295"), Some(u32::MAX));
    assert_eq!(parse_u32("4294967296"), None);
    assert_eq!(parse_u32("99999999999999999999"), None);
    assert_eq!(parse_u32(""), None);
    assert_eq!(parse_u32("+"), None);
    assert_eq!(parse_u32("-1"), None);
    assert_eq!(parse_u32("1a"), None);
    for s in ["0", "17", "+5", "", "+", "-3", "12x", "4294967295", "4294967296"] {
        assert_eq!(parse_u32(s), s.parse::<u32>().ok());
    }
}

#[test]
fn node_names_give_numbers() {
    assert_eq!(parse_node_id("n0"), Some(0));
    assert_eq!(parse_node_id("n3"), Some(3));
    assert_eq!(parse_node_id("n12"), Some(12));
    assert_eq!(parse_node_id("c7"), Some(7));
    assert_eq!(parse_node_id("n"), None);
    assert_eq!(parse_node_id(""), None);
    assert_eq!(parse_node_id("node"), None);
}

#[test]
fn init_is_answered_and_names_the_node() {
    let m = msg(
        "c0",
        "n2",
        Some(9),
        None,
        Payload::Init { node_id: "n2".to_string(), node_ids: vec!["n1".to_string(), "n2".to_string()] },
    );
    match route_message(m) {
        NodeCommand::Init { node, node_id, reply } => {
            assert_eq!(node, "n2");
            assert_eq!(node_id, 2);
            assert_eq!(reply, SendData { payload: Payload::InitOk, dest: "c0".to_string(), in_reply_to: Some(9) });
        }
        _ => panic!("expected an init"),
    }
}

#[test]
fn init_with_bad_name_is_refused() {
    let m = msg("c0", "x", Some(1), None, Payload::Init { node_id: "nx".to_string(), node_ids: vec![] });
    assert!(matches!(route_message(m), NodeCommand::BadNodeName));
}

#[test]
fn other_requests_go_to_the_workload() {
    let m = msg("c3", "n1", Some(4), None, Payload::Generate);
    match route_message(m) {
        NodeCommand::Handle { payload, dest, msg_id } => {
            assert_eq!(payload, Payload::Generate);
            assert_eq!(dest, "c3");
            assert_eq!(msg_id, Some(4));
        }
        _ => panic!("expected a request for the workload"),
    }
}

#[test]
fn transport_numbers_its_messages() {
    let mut t: Transport<u8> = Transport::new();
    assert!(!t.initialized());
    t.init("n3".to_string(), 3);
    assert!(t.initialized());
    let a = t.send(SendData { payload: Payload::InitOk, dest: "c1".to_string(), in_reply_to: Some(5) });
    let b = t.send(SendData { payload: Payload::BroadcastOk, dest: "c2".to_string(), in_reply_to: None });
    assert_eq!(a.src, "n3");
    assert_eq!(a.dest, "c1");
    assert_eq!(a.body.msg_id, Some((3u64 << 32) + 1));
    assert_eq!(a.body.in_reply_to, Some(5));
    assert_eq!(b.body.msg_id, Some((3u64 << 32) + 2));
    assert!(b.body.msg_id > a.body.msg_id);
}

#[test]
fn reply_reaches_its_request_once() {
    let mut t: Transport<&'static str> = Transport::new();
    assert!(t.handle(TransportPayload::Init("n1".to_string(), 1)).is_none());
    let request = t
        .handle(TransportPayload::RPC(RPCData {
            payload: Payload::Read { key: Some("k".to_string()) },
            dest: "lin-kv".to_string(),
            reply_tx: "waiter",
        }))
        .unwrap();
    assert!(request.retry);
    let request = request.message;
    let id = request.body.msg_id.unwrap();
    assert_eq!(id, (1u64 << 32) + 1);
    assert!(t.should_retry(&request));
    let reply = msg("lin-kv", "n1", Some(77), Some(id), Payload::CasOk);
    match t.on_input(reply.clone()) {
        Incoming::Reply(handle, m) => {
            assert_eq!(handle, "waiter");
            assert_eq!(m, reply);
        }
        _ => panic!("the reply should reach the request"),
    }
    assert!(!t.should_retry(&request));
    assert!(matches!(t.on_input(reply), Incoming::Dropped));
}

#[test]
fn requests_go_to_the_node() {
    let mut t: Transport<u8> = Transport::new();
    let m = msg("c1", "n1", Some(3), None, Payload::Generate);
    match t.on_input(m.clone()) {
        Incoming::ToNode(got) => assert_eq!(got, m),
        _ => panic!("a request goes to the node"),
    }
    let stray = msg("n2", "n1", Some(3), Some(99), Payload::BroadcastBatchOk);
    assert!(matches!(t.on_input(stray), Incoming::Dropped));
}

#[test]
fn send_is_not_retried() {
    let mut t: Transport<u8> = Transport::new();
    t.init("n1".to_string(), 1);
    let m = t.send(SendData { payload: Payload::AddOk, dest: "c1".to_string(), in_reply_to: Some(1) });
    assert!(!t.should_retry(&m));
    assert!(!t.counter_exhausted());
    let out = t
        .handle(TransportPayload::Send(SendData { payload: Payload::TopologyOk, dest: "c2".to_string(), in_reply_to: Some(2) }))
        .unwrap();
    assert!(!out.retry);
    assert_eq!(out.message.body.msg_id, Some((1u64 << 32) + 2));
    assert_eq!(out.message.dest, "c2");
}

#[test]
fn body_values_compare() {
    let a = Payload::Cas {
        data: CasRPC::Gcounter { key: "g-counter".to_string(), from: 1, to: 2, create_if_not_exists: true },
    };
    assert_eq!(a.clone(), a);
    let r = Payload::ReadOk { result: ReadRPC::Kafka { value: vec![1, 2] } };
    assert_ne!(r, Payload::ReadOk { result: ReadRPC::Gcounter { value: 1 } });
}
