//! The session, the client and the numerals, one request or value at a time.
use serde_json::Value;
use transport_aws_kinesis::client::{record, record_from};
use transport_aws_kinesis::document::{field, text};
use transport_aws_kinesis::session::{item, iterator, origin, origin_on};
use transport_aws_kinesis::text::{
    decimal_text, parse_index, split_at_last_slash, zero_filled_text,
};
use transport_aws_kinesis::{
    ceiling, Arrived, Client, Event, Held, Position, Record, Reply, Session, TransportError,
    MAX_RECORDS, SHARD,
};

fn document(text: &str) -> Value {
    serde_json::from_str(text).expect("json")
}

fn ask(session: &mut Session, action: &str, body: &str) -> (Event, Reply) {
    session.answer(Ok(()), Ok(document(body)), Some(action))
}

fn body(reply: &Reply) -> String {
    match reply {
        Reply::Answered(document) => document.to_string(),
        Reply::Refused { .. } => panic!("{reply:?}"),
    }
}

fn exception(reply: &Reply) -> (u16, &str, &str) {
    match reply {
        Reply::Refused { status, kind, message } => (*status, kind.as_str(), message.as_str()),
        Reply::Answered(_) => panic!("{reply:?}"),
    }
}

#[test]
fn a_session_answers_in_kinesiss_shapes_and_refuses_a_bad_signature() {
    let mut session = Session::new("r", "AKID", "secret").with_stream("orders");
    let put = r#"{ "StreamName": "orders", "PartitionKey": "k", "Data": "YTxi" }"#;
    let (event, response) = ask(&mut session, "PutRecord", put);
    assert_eq!(response.status(), 200);
    assert!(body(&response).contains("\"ShardId\":\"shardId-000000000000\""));
    let origin = origin("orders", "000000000000000000001");
    assert_eq!(event, Event::Put(Arrived::new(origin.clone(), b"a<b".to_vec())));
    let iterate = format!(
        r#"{{ "StreamName": "orders", "ShardId": "{SHARD}", "ShardIteratorType": "TRIM_HORIZON" }}"#
    );
    let (_, response) = ask(&mut session, "GetShardIterator", &iterate);
    assert!(body(&response).contains("\"ShardIterator\":\"orders/0\""));
    let read = r#"{ "ShardIterator": "orders/0", "Limit": 10 }"#;
    let (event, response) = ask(&mut session, "GetRecords", read);
    assert!(body(&response).contains("\"Data\":\"YTxi\""));
    assert!(body(&response).contains("\"NextShardIterator\":\"orders/1\""));
    assert!(matches!(event, Event::Read { count: 1, .. }));
    let read = r#"{ "ShardIterator": "orders/1" }"#;
    let (event, _) = ask(&mut session, "GetRecords", read);
    assert!(matches!(event, Event::Read { count: 0, .. }));
    let read = r#"{ "ShardIterator": "invoices/0" }"#;
    let (event, _) = ask(&mut session, "GetRecords", read);
    assert_eq!(event, Event::Refused("InvalidArgumentException".to_string()));
    let latest = format!(
        r#"{{ "StreamName": "orders", "ShardId": "{SHARD}", "ShardIteratorType": "LATEST" }}"#
    );
    let (_, response) = ask(&mut session, "GetShardIterator", &latest);
    assert!(body(&response).contains("\"orders/1\""));
    let (_, response) = ask(&mut session, "ListStreams", "{}");
    assert_eq!(response.status(), 400);
    let wrong = TransportError::Permanent("the signature does not match".to_string());
    let (event, response) = session.answer(Err(wrong), Ok(document(put)), Some("PutRecord"));
    assert_eq!(event, Event::Refused("InvalidSignatureException".to_string()));
    assert_eq!(response.status(), 403);
    assert_eq!(session.records("orders").len(), 1);
    assert!(session.records("invoices").is_empty());
}

#[test]
fn what_is_not_an_endpoint_is_refused_and_nobody_listening_is_retryable() {
    let no_scheme = TransportError::Permanent("kinesis.local is not an HTTP URL".to_string());
    assert!(Client::new("kinesis.local", Err(no_scheme), "r", "a", "s").is_err());
    let client = Client::new("http://127.0.0.1:1", Ok("127.0.0.1:1".to_string()), "r", "a", "s")
        .expect("endpoint");
    let call = client.put_record("s", "k", b"x");
    assert_eq!(call.endpoint, "http://127.0.0.1:1");
    let nobody = TransportError::Reported { message: "refused".to_string(), retryable: true };
    assert_eq!(
        Client::put_record_reply(Err(nobody)).expect_err("nobody").retryable(),
        Some(true)
    );
    assert_eq!(Position::Latest.kind(), "LATEST");
    let failure = record(&document(r#"{ "Data": "not base64!" }"#)).expect_err("not base64");
    assert_eq!(failure.retryable(), None);
}

#[test]
fn positions_ask_in_kinesiss_words() {
    assert_eq!(Position::Oldest.kind(), "TRIM_HORIZON");
    assert_eq!(Position::After("7").kind(), "AFTER_SEQUENCE_NUMBER");
    let client = Client::new("http://h", Ok("h".to_string()), "r", "a", "s").expect("endpoint");
    assert_eq!(
        client.shard_iterator("orders", SHARD, Position::After("7")).document.to_string(),
        r#"{"ShardId":"shardId-000000000000","ShardIteratorType":"AFTER_SEQUENCE_NUMBER","StartingSequenceNumber":"7","StreamName":"orders"}"#
    );
    assert_eq!(
        client.shard_iterator("orders", SHARD, Position::Latest).document.to_string(),
        r#"{"ShardId":"shardId-000000000000","ShardIteratorType":"LATEST","StreamName":"orders"}"#
    );
    assert_eq!(
        client.get_records("orders/3", MAX_RECORDS).document.to_string(),
        r#"{"Limit":10000,"ShardIterator":"orders/3"}"#
    );
}

#[test]
fn every_refusal_says_which_and_changes_nothing() {
    let mut session = Session::new("r", "AKID", "secret").with_stream("orders");
    ask(
        &mut session,
        "PutRecord",
        r#"{"StreamName":"orders","PartitionKey":"k","Data":"eA=="}"#,
    );
    let cases: Vec<(&str, &str, (u16, &str, &str))> = vec![
        (
            "PutRecord",
            r#"{"StreamName":"none","Data":"eA"}"#,
            (400, "SerializationException", "Data that is not base64"),
        ),
        (
            "PutRecord",
            r#"{"StreamName":"none","Data":"eA=="}"#,
            (400, "ResourceNotFoundException", "no such stream"),
        ),
        (
            "GetShardIterator",
            r#"{"StreamName":"none","ShardId":"x","ShardIteratorType":"x"}"#,
            (400, "ResourceNotFoundException", "no such stream"),
        ),
        (
            "GetShardIterator",
            r#"{"StreamName":"orders","ShardId":"x","ShardIteratorType":"x"}"#,
            (400, "ResourceNotFoundException", "no such shard"),
        ),
        (
            "GetShardIterator",
            r#"{"StreamName":"orders","ShardId":"shardId-000000000000","ShardIteratorType":"AFTER_SEQUENCE_NUMBER","StartingSequenceNumber":"1"}"#,
            (400, "InvalidArgumentException", "no such sequence"),
        ),
        (
            "GetShardIterator",
            r#"{"StreamName":"orders","ShardId":"shardId-000000000000","ShardIteratorType":"AT_TIMESTAMP"}"#,
            (400, "InvalidArgumentException", "an iterator type not served"),
        ),
        (
            "GetRecords",
            r#"{"ShardIterator":"orders"}"#,
            (400, "InvalidArgumentException", "an iterator not handed out"),
        ),
        (
            "GetRecords",
            r#"{"ShardIterator":"orders/-1"}"#,
            (400, "InvalidArgumentException", "an iterator not handed out"),
        ),
        (
            "GetRecords",
            r#"{"ShardIterator":7}"#,
            (400, "InvalidArgumentException", "an iterator not handed out"),
        ),
        ("putrecord", "{}", (400, "UnknownOperationException", "not one of the three calls")),
    ];
    for (action, request, expected) in cases {
        let (event, reply) = ask(&mut session, action, request);
        assert_eq!(exception(&reply), expected, "{action} {request}");
        assert_eq!(event, Event::Refused(expected.1.to_string()));
        assert_eq!(reply.status(), expected.0);
    }
    let (_, reply) = session.answer(Ok(()), Ok(document("{}")), None);
    assert_eq!(exception(&reply).1, "UnknownOperationException");
    let garbled = TransportError::Protocol("a body that is not JSON".to_string());
    let (_, reply) = session.answer(Ok(()), Err(garbled), Some("PutRecord"));
    assert_eq!(
        exception(&reply),
        (400, "SerializationException", "a body that is not JSON")
    );
    let wrong = TransportError::Permanent("no".to_string());
    let garbled = TransportError::Permanent("garbled".to_string());
    let (_, reply) = session.answer(Err(wrong), Err(garbled), None);
    assert_eq!(exception(&reply), (403, "InvalidSignatureException", "no"));
    assert_eq!(
        session.records("orders").to_vec(),
        vec![Held {
            sequence_number: "000000000000000000001".to_string(),
            partition_key: "k".to_string(),
            data: b"x".to_vec(),
        }]
    );
    let put = document(r#"{"StreamName":"orders","Data":""}"#);
    let told = session.try_answer(Ok(()), Ok(put), Some("PutRecord"));
    let (event, reply) = told.expect("a number left");
    assert_eq!(
        event,
        Event::Put(Arrived::new(origin("orders", "000000000000000000002"), Vec::new()))
    );
    assert_eq!(
        body(&reply),
        r#"{"SequenceNumber":"000000000000000000002","ShardId":"shardId-000000000000"}"#
    );
}

#[test]
fn numbers_are_one_counter_across_the_streams_of_a_session() {
    let mut session = Session::new("r", "AKID", "secret")
        .with_stream("a")
        .with_stream("b/c")
        .with_stream("a");
    for stream in ["a", "b/c", "a"] {
        let (_, reply) = ask(
            &mut session,
            "PutRecord",
            &format!(r#"{{"StreamName":"{stream}","Data":""}}"#),
        );
        assert_eq!(reply.status(), 200);
    }
    let numbers: Vec<&str> =
        session.records("a").iter().map(|held| held.sequence_number.as_str()).collect();
    assert_eq!(numbers, ["000000000000000000001", "000000000000000000003"]);
    assert_eq!(session.records("b/c")[0].sequence_number, "000000000000000000002");
    let mut session = session.with_stream("a");
    assert_eq!(session.records("a").len(), 2);
    let (event, reply) = ask(&mut session, "GetRecords", r#"{"ShardIterator":"b/c/0"}"#);
    assert_eq!(event, Event::Read { stream: "b/c".to_string(), count: 1 });
    assert_eq!(
        body(&reply),
        r#"{"MillisBehindLatest":0,"NextShardIterator":"b/c/1","Records":[{"Data":"","PartitionKey":"","SequenceNumber":"000000000000000000002"}]}"#
    );
}

#[test]
fn reading_goes_on_with_the_iterator_of_the_answer() {
    let mut session = Session::new("r", "AKID", "secret").with_stream("s");
    for data in ["AA==", "AQ==", "Ag==", "Aw=="] {
        ask(&mut session, "PutRecord", &format!(r#"{{"StreamName":"s","Data":"{data}"}}"#));
    }
    let mut taken: Vec<Vec<u8>> = Vec::new();
    let mut at = "s/0".to_string();
    for expected in [3usize, 1, 0] {
        let (_, reply) = ask(
            &mut session,
            "GetRecords",
            &format!(r#"{{"ShardIterator":"{at}","Limit":3}}"#),
        );
        let Reply::Answered(answer) = reply else {
            panic!("refused");
        };
        let (records, next) = Client::get_records_reply(Ok(answer)).expect("records");
        assert_eq!(records.len(), expected);
        taken.extend(records.into_iter().map(|record| record.data));
        at = next.expect("open");
    }
    assert_eq!(taken, [[0], [1], [2], [3]]);
    assert_eq!(at, "s/4");
    let (event, reply) = ask(&mut session, "GetRecords", r#"{"ShardIterator":"s/+9","Limit":-1}"#);
    assert_eq!(event, Event::Read { stream: "s".to_string(), count: 0 });
    assert!(body(&reply).contains(r#""NextShardIterator":"s/9""#));
    let (event, _) = ask(&mut session, "GetRecords", r#"{"ShardIterator":"s/1","Limit":0}"#);
    assert_eq!(event, Event::Read { stream: "s".to_string(), count: 0 });
    let largest = format!(r#"{{"ShardIterator":"s/{}","Limit":{}}}"#, usize::MAX, u64::MAX);
    let (event, _) = ask(&mut session, "GetRecords", &largest);
    assert_eq!(event, Event::Read { stream: "s".to_string(), count: 0 });
}

#[test]
fn an_answer_without_its_members_reads_as_nothing() {
    let (shard, number) = Client::put_record_reply(Ok(document("{}"))).expect("put");
    assert_eq!((shard.as_str(), number.as_str()), ("", ""));
    let iterator = Client::shard_iterator_reply(Ok(document("[1]"))).expect("iterator");
    assert_eq!(iterator, "");
    let answer = document(r#"{"Records":"none","NextShardIterator":null}"#);
    assert_eq!(Client::get_records_reply(Ok(answer)).expect("records"), (Vec::new(), None));
    assert_eq!(
        record(&document(r#"{"SequenceNumber":"7","PartitionKey":"k","Data":"YTxi"}"#)),
        Ok(Record {
            sequence_number: "7".to_string(),
            partition_key: "k".to_string(),
            data: b"a<b".to_vec(),
        })
    );
    assert_eq!(
        record(&document(r#"{"Data":"YT!i"}"#)),
        Err(TransportError::Protocol(
            "a record whose Data is not base64: Invalid symbol 33, offset 2.".to_string()
        ))
    );
    assert_eq!(field(&document(r#"{"a":"b","c":3}"#), "a"), "b");
    assert_eq!(text(&document(r#"{"a":"b","c":3}"#), "c"), "");
}

#[test]
fn only_a_put_is_a_put() {
    let arrived = Arrived::new("kinesis://s/x/1".to_string(), vec![1]);
    assert_eq!(Event::Put(arrived.clone()).into_put(), Ok(arrived));
    let read = Event::Read { stream: "s".to_string(), count: 3 };
    assert_eq!(read.clone().into_put(), Err(read));
}

#[test]
fn numerals_and_iterators() {
    assert_eq!(ceiling(), 1_048_576);
    assert_eq!(decimal_text(0), "0");
    assert_eq!(decimal_text(u64::MAX), "18446744073709551615");
    assert_eq!(zero_filled_text(1, 21), "000000000000000000001");
    assert_eq!(zero_filled_text(u64::MAX, 21), "018446744073709551615");
    assert_eq!(zero_filled_text(1234, 2), "1234");
    assert!(zero_filled_text(9, 21) < zero_filled_text(10, 21));
    for written in ["", "+", "-", "+-1", "1 ", " 1", "1_0", "٣", "0x1", "99999999999999999999999"]
    {
        assert_eq!(parse_index(written), None, "{written}");
        assert!(written.parse::<usize>().is_err());
    }
    for written in ["0", "+7", "007", "0000000000000000000000000042", "65535"] {
        assert_eq!(parse_index(written), written.parse::<usize>().ok(), "{written}");
    }
    assert_eq!(parse_index(&usize::MAX.to_string()), Some(usize::MAX));
    for written in ["", "a", "/", "a/b/c", "å/ß", "a/"] {
        assert_eq!(split_at_last_slash(written), written.rsplit_once('/'), "{written}");
    }
    assert_eq!(iterator("a/b", 12), "a/b/12");
    assert_eq!(origin("s", "1"), "kinesis://s/shardId-000000000000/1");
    assert_eq!(origin_on("s", "t", "1"), "kinesis://s/t/1");
}

#[test]
fn records_are_built_around_their_base64() {
    let client = Client::new("http://h", Ok("h".to_string()), "r", "a", "s").expect("endpoint");
    assert_eq!(
        client.put_encoded("orders", "k", "YTxi").document,
        client.put_record("orders", "k", b"a<b").document
    );
    let held = Held {
        sequence_number: "1".to_string(),
        partition_key: "k".to_string(),
        data: b"a<b".to_vec(),
    };
    let listed = item(&held, "YTxi");
    assert_eq!(
        listed.to_string(),
        r#"{"Data":"YTxi","PartitionKey":"k","SequenceNumber":"1"}"#
    );
    assert_eq!(
        record_from(&listed, Ok(vec![7])),
        Ok(Record {
            sequence_number: "1".to_string(),
            partition_key: "k".to_string(),
            data: vec![7],
        })
    );
    assert_eq!(
        record_from(&listed, Err("why".to_string())),
        Err(TransportError::Protocol("a record whose Data is not base64: why".to_string()))
    );
    let mut session = Session::new("r", "a", "s").with_stream("orders");
    let put = document(r#"{"StreamName":"orders","PartitionKey":"k","Data":"ignored"}"#);
    let (event, _) = session.put_decoded(&put, Ok(vec![7, 8]));
    assert_eq!(
        event,
        Event::Put(Arrived::new(origin("orders", "000000000000000000001"), vec![7, 8]))
    );
    let (event, _) = session.put_decoded(&put, Err("why".to_string()));
    assert_eq!(event, Event::Refused("SerializationException".to_string()));
    assert_eq!(session.records("orders").len(), 1);
}
