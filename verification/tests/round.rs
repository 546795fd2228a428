//! Both ends together: what a near end asks, answered by a session.
use serde_json::Value;
use std::time::Duration;
use transport_aws_kinesis::{
    ceiling, Arrived, Call, Client, Event, KinesisTransport, Next, Position, Reply, Session,
    TransportError, SHARD,
};

fn reported(message: &str, retryable: bool) -> TransportError {
    TransportError::Reported { message: message.to_string(), retryable }
}

/// The host and port of an HTTP endpoint.
fn authority(endpoint: &str) -> Result<String, TransportError> {
    match endpoint.strip_prefix("http://") {
        Some(host) => Ok(host.to_string()),
        None => Err(TransportError::Permanent(format!("{endpoint} is not an HTTP URL"))),
    }
}

/// Carry a call to the session, and its answer back.
fn carry(session: &mut Session, call: Call) -> (Event, Result<Value, TransportError>) {
    let verified = if call.signer == *session.signer() {
        Ok(())
    } else {
        Err(reported("the signature does not match", false))
    };
    let (event, reply) = session.answer(verified, Ok(call.document), Some(call.action));
    let reply = match reply {
        Reply::Answered(document) => Ok(document),
        Reply::Refused { status, kind, message } => {
            Err(reported(&format!("{status} {kind}: {message}"), false))
        }
    };
    (event, reply)
}

fn send(
    near: &KinesisTransport,
    session: &mut Session,
    events: &mut Vec<Event>,
    target: &str,
    bytes: &[u8],
) -> Result<(), TransportError> {
    let call = near.send(authority(near.endpoint()), target, bytes)?;
    let (event, reply) = carry(session, call);
    events.push(event);
    KinesisTransport::sent(reply)
}

fn receive(
    near: &mut KinesisTransport,
    session: &mut Session,
    events: &mut Vec<Event>,
) -> Result<Vec<Arrived>, TransportError> {
    let mut next = near.receive(authority(near.endpoint()));
    loop {
        match next {
            Next::Ask(receiving, call) => {
                let (event, reply) = carry(session, call);
                events.push(event);
                next = near.resume(receiving, reply);
            }
            Next::Done(result) => return result,
        }
    }
}

fn node(endpoint: &str, secret: &str) -> KinesisTransport {
    KinesisTransport::new(endpoint, "eu-north-1", "orders")
        .with_credentials("AKID", secret)
        .keyed_by("probe")
        .timing_out_after(Duration::from_secs(2))
}

#[test]
fn what_is_put_to_a_session_is_read_back_in_order_and_the_place_moves_on() {
    let mut near = node("http://127.0.0.1:4566", "secret");
    let mut session = near.session();
    let mut events = Vec::new();
    send(&near, &mut session, &mut events, "", b"UNA:+.? '").expect("its own stream");
    send(&near, &mut session, &mut events, "orders", &[0, 0xff, b'\r', b'\n']).expect("a stream");
    let arrived = receive(&mut near, &mut session, &mut events).expect("received");
    assert_eq!(arrived.len(), 2);
    assert_eq!(arrived[0].bytes, b"UNA:+.? '");
    assert_eq!(arrived[1].bytes, [0, 0xff, b'\r', b'\n']);
    assert!(arrived[0].origin_uri.starts_with("kinesis://orders/shardId-000000000000/"));
    assert!(
        receive(&mut near, &mut session, &mut events).expect("received").is_empty(),
        "nothing new"
    );
    send(&near, &mut session, &mut events, "", b"").expect("an empty record");
    let later = receive(&mut near, &mut session, &mut events).expect("received");
    assert_eq!(later.len(), 1, "only what came after");
    assert!(later[0].bytes.is_empty());
    assert_eq!(
        near.position().as_deref(),
        Some(later[0].origin_uri.rsplit('/').next().unwrap_or_default())
    );
    assert_eq!(session.records("orders").len(), 3, "a shard is read, not consumed");
    assert_eq!(events.len(), 9);
    assert_eq!(
        events[0],
        Event::Put(Arrived::new(arrived[0].origin_uri.clone(), b"UNA:+.? '".to_vec()))
    );
    assert!(matches!(&events[2], Event::Iterated { kind, .. } if kind == "TRIM_HORIZON"));
    assert!(matches!(&events[4], Event::Iterated { kind, .. } if kind == "AFTER_SEQUENCE_NUMBER"));
    assert!(matches!(events[5], Event::Read { count: 0, .. }));
    assert!(matches!(events[8], Event::Read { count: 1, .. }));
}

#[test]
fn a_wrong_secret_is_refused_with_kinesiss_own_status_and_exception() {
    let mut session = node("http://x", "secret").session();
    let mut events = Vec::new();
    let failure = send(
        &node("http://127.0.0.1:4566", "wrong"),
        &mut session,
        &mut events,
        "",
        b"x",
    )
    .expect_err("refused");
    assert!(failure.message().contains("403 InvalidSignatureException"), "{failure:?}");
    assert_eq!(failure.retryable(), Some(false));
    assert_eq!(events, vec![Event::Refused("InvalidSignatureException".to_string())]);
}

#[test]
fn a_stream_is_not_claimed_and_an_unreachable_endpoint_is_retryable() {
    let mut near = node("http://127.0.0.1:1", "secret").on_shard("shardId-000000000001");
    assert_eq!(near.name(), "aws-kinesis");
    assert!(near.directions().receives && near.directions().sends);
    let Next::Ask(receiving, call) = near.receive(authority(near.endpoint())) else {
        panic!("a call was due");
    };
    assert_eq!(call.document["ShardId"], "shardId-000000000001");
    let Next::Done(Err(failure)) = near.resume(receiving, Err(reported("connect refused", true)))
    else {
        panic!("nothing listening");
    };
    assert_eq!(failure.retryable(), Some(true));
    assert_eq!(failure, reported("connect refused", true));
    assert_eq!(near.position(), None);
    let other = node("kinesis.local", "s");
    let failure = other.send(authority(other.endpoint()), "", b"x").expect_err("no scheme");
    assert_eq!(failure.retryable(), Some(false));
}

#[test]
fn what_kinesis_does_not_carry_is_refused_before_the_wire_with_the_reason() {
    let near = node("http://127.0.0.1:1", "secret");
    let over = vec![b'x'; ceiling() + 1];
    let failure = near.send(authority(near.endpoint()), "", &over).expect_err("over the ceiling");
    assert_eq!(failure.retryable(), Some(false));
    assert!(failure.message().contains("1048576"), "{failure:?}");
    assert_eq!(
        failure,
        TransportError::Permanent(
            "1048577 bytes is over the 1048576 one Kinesis record carries".to_string()
        )
    );
}

/// A round on loopback: the session the transport stands up takes what a near
/// end aimed at it sends.
fn round(kinesis: &KinesisTransport, payload: &[u8]) -> Result<Arrived, String> {
    let mut session = kinesis.session();
    let near = kinesis.aimed_at("127.0.0.1:4566");
    let call = match near.send(authority(near.endpoint()), "", payload) {
        Ok(call) => call,
        Err(failure) => return Err(format!("send failed: {}", failure.message())),
    };
    let (event, reply) = carry(&mut session, call);
    KinesisTransport::sent(reply).expect("sent");
    Ok(event.into_put().expect("a put"))
}

/// The payloads a record must carry whole, and one at the brim.
fn edge_payloads() -> Vec<(&'static str, Vec<u8>)> {
    vec![
        ("empty", Vec::new()),
        ("one byte", vec![0x2a]),
        ("every byte", (0..=255).collect()),
        ("nul run", vec![0; 512]),
        ("high bytes", vec![0xff; 512]),
        ("crlf storm", b"\r\n".repeat(400)),
        ("the brim", vec![b'k'; ceiling()]),
    ]
}

#[test]
fn a_loopback_round_puts_one_record_and_takes_it_at_the_session() {
    let kinesis = KinesisTransport::loopback(Duration::from_secs(2));
    let arrived = round(&kinesis, b"UNA:+.? '").expect("round");
    assert_eq!(arrived.bytes, b"UNA:+.? '");
    assert!(
        arrived.origin_uri.starts_with("kinesis://orders/shardId-000000000000/"),
        "{}",
        arrived.origin_uri
    );
    assert_eq!(kinesis.name(), "aws-kinesis");
    assert!(
        kinesis.send(authority(kinesis.endpoint()), "", &[0, 0xff]).is_ok(),
        "bytes are bytes"
    );
}

#[test]
fn the_loopback_returns_the_edge_payloads_whole_and_refuses_over_the_brim() {
    let kinesis = KinesisTransport::loopback(Duration::from_secs(2));
    assert_eq!(kinesis.ceiling(), Some(1024 * 1024));
    for (name, payload) in edge_payloads() {
        let arrived = round(&kinesis, &payload).expect(name);
        assert_eq!(arrived.bytes, payload, "{name}");
    }
    let over = vec![b'k'; ceiling() + 1];
    let failure = round(&kinesis, &over).expect_err("over the brim");
    assert!(failure.starts_with("send failed:"), "{failure}");
    assert!(failure.contains("1048576"), "{failure}");
}

#[test]
fn the_three_calls_reach_a_session_and_come_back_shaped_as_kinesis_shapes_them() {
    let mut session = Session::new("eu-north-1", "AKID", "secret")
        .with_stream("orders")
        .timing_out_after(Duration::from_secs(2));
    let endpoint = "http://127.0.0.1:4566";
    let client = Client::new(endpoint, authority(endpoint), "eu-north-1", "AKID", "secret")
        .expect("endpoint")
        .timing_out_after(Duration::from_secs(2));
    let mut events = Vec::new();
    let mut ask = |call: Call| {
        let (event, reply) = carry(&mut session, call);
        events.push(event);
        reply
    };
    let (shard, first) =
        Client::put_record_reply(ask(client.put_record("orders", "k1", b"UNA:+.? '")))
            .expect("put");
    assert_eq!(shard, SHARD);
    Client::put_record_reply(ask(client.put_record("orders", "k2", &[0, 0xff, b'\n'])))
        .expect("put");
    let iterator = Client::shard_iterator_reply(ask(client.shard_iterator(
        "orders",
        &shard,
        Position::Oldest,
    )))
    .expect("iterator");
    let (records, next) =
        Client::get_records_reply(ask(client.get_records(&iterator, 10))).expect("records");
    assert_eq!(records.len(), 2);
    assert_eq!(records[0].sequence_number, first);
    assert_eq!(records[0].partition_key, "k1");
    assert_eq!(records[0].data, b"UNA:+.? '");
    assert_eq!(records[1].data, [0, 0xff, b'\n']);
    let iterator = Client::shard_iterator_reply(ask(client.shard_iterator(
        "orders",
        &shard,
        Position::After(&first),
    )))
    .expect("iterator");
    let (records, _) =
        Client::get_records_reply(ask(client.get_records(&iterator, 10))).expect("records");
    assert_eq!(records.len(), 1, "after the first");
    assert!(next.is_some(), "the shard stays open");
    let missing = Client::shard_iterator_reply(ask(client.shard_iterator(
        "invoices",
        &shard,
        Position::Oldest,
    )))
    .expect_err("no such stream");
    assert!(missing.message().contains("400 ResourceNotFoundException"), "{missing:?}");
    assert_eq!(missing.retryable(), Some(false));
    assert_eq!(session.records("orders").len(), 2);
    assert!(matches!(&events[2], Event::Iterated { kind, .. } if kind == "TRIM_HORIZON"));
    assert!(matches!(&events[3], Event::Read { count: 2, .. }));
    assert_eq!(events[6], Event::Refused("ResourceNotFoundException".to_string()));
}

#[test]
fn a_receive_hands_on_every_record_page_by_page() {
    let mut near = node("http://h", "secret");
    let mut session = near.session();
    let mut events = Vec::new();
    for n in 0..20_003u32 {
        send(&near, &mut session, &mut events, "", &n.to_be_bytes()).expect("sent");
    }
    events.clear();
    let arrived = receive(&mut near, &mut session, &mut events).expect("received");
    assert_eq!(arrived.len(), 20_003);
    for (n, stream) in arrived.iter().enumerate() {
        assert_eq!(stream.bytes, (n as u32).to_be_bytes());
    }
    assert_eq!(
        arrived[20_002].origin_uri,
        "kinesis://orders/shardId-000000000000/000000000000000020003"
    );
    assert_eq!(near.position().as_deref(), Some("000000000000000020003"));
    let orders = || "orders".to_string();
    assert_eq!(
        events,
        vec![
            Event::Iterated { stream: orders(), kind: "TRIM_HORIZON".to_string() },
            Event::Read { stream: orders(), count: 10_000 },
            Event::Read { stream: orders(), count: 10_000 },
            Event::Read { stream: orders(), count: 3 },
        ]
    );
    assert!(receive(&mut near, &mut session, &mut events).expect("received").is_empty());
    assert_eq!(session.records("orders").len(), 20_003);
}

#[test]
fn a_failure_behind_a_full_page_hands_on_nothing_and_keeps_the_place() {
    let mut near = node("http://h", "secret");
    let mut session = near.session();
    let mut events = Vec::new();
    for _ in 0..10_000u32 {
        send(&near, &mut session, &mut events, "", b"x").expect("sent");
    }
    let Next::Ask(receiving, call) = near.receive(Ok("h".to_string())) else {
        panic!("a call was due");
    };
    let (_, reply) = carry(&mut session, call);
    let Next::Ask(receiving, call) = near.resume(receiving, reply) else {
        panic!("a call was due");
    };
    let (_, reply) = carry(&mut session, call);
    let Next::Ask(receiving, call) = near.resume(receiving, reply) else {
        panic!("a further page was due");
    };
    assert_eq!(call.document["ShardIterator"], "orders/10000");
    let Next::Done(Err(failure)) = near.resume(receiving, Err(reported("reset", true))) else {
        panic!("a failure was due");
    };
    assert_eq!(failure, reported("reset", true));
    assert_eq!(near.position(), None);
    let arrived = receive(&mut near, &mut session, &mut events).expect("received");
    assert_eq!(arrived.len(), 10_000);
}

#[test]
fn a_full_page_of_a_closed_shard_is_the_last() {
    let mut near = node("http://h", "secret");
    let Next::Ask(receiving, _) = near.receive(Ok("h".to_string())) else {
        panic!("a call was due");
    };
    let iterator: Value = serde_json::from_str(r#"{"ShardIterator":"i"}"#).expect("json");
    let Next::Ask(receiving, _) = near.resume(receiving, Ok(iterator)) else {
        panic!("a call was due");
    };
    let items = vec![r#"{"SequenceNumber":"7","Data":"eA=="}"#; 10_000].join(",");
    let page: Value =
        serde_json::from_str(&format!(r#"{{"Records":[{items}],"NextShardIterator":null}}"#))
            .expect("json");
    let Next::Done(Ok(arrived)) = near.resume(receiving, Ok(page)) else {
        panic!("the records were due");
    };
    assert_eq!(arrived.len(), 10_000);
    assert_eq!(near.position().as_deref(), Some("7"));
}

#[test]
fn a_failed_receive_leaves_the_place_where_it_was() {
    let mut near = node("http://h", "secret");
    let mut session = near.session();
    let mut events = Vec::new();
    send(&near, &mut session, &mut events, "", b"one").expect("sent");
    receive(&mut near, &mut session, &mut events).expect("received");
    let place = near.position();
    assert_eq!(place.as_deref(), Some("000000000000000000001"));
    let Next::Ask(receiving, call) = near.receive(Ok("h".to_string())) else {
        panic!("a call was due");
    };
    assert_eq!(call.document["StartingSequenceNumber"], "000000000000000000001");
    let (_, reply) = carry(&mut session, call);
    let Next::Ask(receiving, call) = near.resume(receiving, reply) else {
        panic!("a call was due");
    };
    assert_eq!(call.action, "GetRecords");
    assert_eq!(call.document["Limit"], 10_000);
    let spoilt: Value = serde_json::from_str(
        r#"{"Records":[{"SequenceNumber":"2","Data":"eA=="},{"Data":"eA"}]}"#,
    )
    .expect("json");
    let Next::Done(Err(failure)) = near.resume(receiving, Ok(spoilt)) else {
        panic!("a failure was due");
    };
    assert_eq!(
        failure,
        TransportError::Protocol(
            "a record whose Data is not base64: Invalid padding".to_string()
        )
    );
    assert_eq!(near.position(), place);
    let Next::Done(Err(failure)) = near.receive(Err(reported("no scheme", false))) else {
        panic!("a failure was due");
    };
    assert_eq!(failure, reported("no scheme", false));
}

#[test]
fn a_call_says_where_it_goes_and_as_whom() {
    let near = node("http://host:80", "secret");
    let call = near.send(Ok("host:80".to_string()), "invoices", b"a<b").expect("sent");
    assert_eq!(call.endpoint, "http://host:80");
    assert_eq!(call.host, "host:80");
    assert_eq!(call.timeout, Some(Duration::from_secs(2)));
    assert_eq!(call.action, "PutRecord");
    assert_eq!(
        call.document.to_string(),
        r#"{"Data":"YTxi","PartitionKey":"probe","StreamName":"invoices"}"#
    );
    assert_eq!(call.signer.service, "kinesis");
    assert_eq!(call.signer.region, "eu-north-1");
    assert_eq!(call.signer.access_key, "AKID");
    assert_eq!(call.signer.secret_key, "secret");
    let aimed = near.on_shard("shardId-000000000007").aimed_at("10.0.0.1:9");
    assert_eq!(aimed.endpoint(), "http://10.0.0.1:9");
    let Next::Ask(_, call) = aimed.receive(Ok("10.0.0.1:9".to_string())) else {
        panic!("a call was due");
    };
    assert_eq!(call.document["ShardId"], SHARD);
    assert_eq!(call.timeout, Some(Duration::from_secs(2)));
    let plain = KinesisTransport::new("http://h", "r", "s");
    let call = plain.send(Ok("h".to_string()), "", b"").expect("sent");
    assert_eq!(call.document["PartitionKey"], "xmip");
    assert_eq!(call.document["Data"], "");
    assert_eq!(call.timeout, None);
    assert_eq!(plain.session().timeout(), None);
}
