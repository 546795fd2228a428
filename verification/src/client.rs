//! The near side: the three calls a Location makes, each one JSON document
//! under an action, and what is read from the answer.
//!
//! The endpoint is the service, and every request is a `POST` to `/` naming
//! its action. A stream is read a shard at a time through an iterator: ask
//! for one at a position, take records with it, continue with the one the
//! answer hands back. A [`Call`] says what is to be sent where and signed as
//! whom; the caller carries it out and hands the reply back.
use crate::document::{
    as_list, as_text, at, empty_object, field, json, list_of, member, put_member, text, text_of,
    text_value, unsigned_value, Json,
};
use crate::encoding::{base64_bytes, base64_text, carried, decode, decoded_view, encodable, encode};
use crate::error::{ErrorView, TransportError};
use serde_json::Value;
use std::time::Duration;
use vstd::prelude::*;

verus! {

/// The most one `GetRecords` hands back.
pub const MAX_RECORDS: u16 = 10_000;

/// One record as it came off a shard.
#[derive(Clone, Debug, PartialEq, Eq)]
pub struct Record {
    pub sequence_number: String,
    pub partition_key: String,
    pub data: Vec<u8>,
}

/// A record, on either side.
pub struct RecordView {
    pub sequence_number: Seq<char>,
    pub partition_key: Seq<char>,
    pub data: Seq<u8>,
}

impl View for Record {
    type V = RecordView;

    open spec fn view(&self) -> RecordView {
        RecordView {
            sequence_number: self.sequence_number@,
            partition_key: self.partition_key@,
            data: self.data@,
        }
    }
}

/// Where a shard is read from, in Kinesis's own words.
#[derive(Clone, Copy, Debug, PartialEq, Eq)]
pub enum Position<'a> {
    /// The oldest record still held: `TRIM_HORIZON`.
    Oldest,
    /// The record after this sequence number: `AFTER_SEQUENCE_NUMBER`.
    After(&'a str),
    /// Only what arrives from now on: `LATEST`.
    Latest,
}

pub enum PositionView {
    Oldest,
    After(Seq<char>),
    Latest,
}

impl<'a> View for Position<'a> {
    type V = PositionView;

    open spec fn view(&self) -> PositionView {
        match self {
            Position::Oldest => PositionView::Oldest,
            Position::After(sequence_number) => PositionView::After(sequence_number@),
            Position::Latest => PositionView::Latest,
        }
    }
}

impl PositionView {
    pub open spec fn kind(self) -> Seq<char> {
        match self {
            PositionView::Oldest => "TRIM_HORIZON"@,
            PositionView::After(_) => "AFTER_SEQUENCE_NUMBER"@,
            PositionView::Latest => "LATEST"@,
        }
    }
}

impl<'a> Position<'a> {
    /// The `ShardIteratorType` this position asks for.
    #[must_use]
    pub fn kind(self) -> (kind: &'static str)
        ensures
            kind@ == self@.kind(),
    {
        match self {
            Position::Oldest => "TRIM_HORIZON",
            Position::After(_) => "AFTER_SEQUENCE_NUMBER",
            Position::Latest => "LATEST",
        }
    }
}

/// What a request is signed with: the service and region it is scoped to, and
/// the credential.
#[derive(Clone, Debug, PartialEq, Eq)]
pub struct Signer {
    pub service: String,
    pub region: String,
    pub access_key: String,
    pub secret_key: String,
}

pub struct SignerView {
    pub service: Seq<char>,
    pub region: Seq<char>,
    pub access_key: Seq<char>,
    pub secret_key: Seq<char>,
}

impl View for Signer {
    type V = SignerView;

    open spec fn view(&self) -> SignerView {
        SignerView {
            service: self.service@,
            region: self.region@,
            access_key: self.access_key@,
            secret_key: self.secret_key@,
        }
    }
}

/// The signer of requests to Kinesis in `region`.
pub open spec fn kinesis_signer(
    region: Seq<char>,
    access_key: Seq<char>,
    secret_key: Seq<char>,
) -> SignerView {
    SignerView { service: "kinesis"@, region, access_key, secret_key }
}

impl Signer {
    pub fn new(service: &str, region: &str, access_key: &str, secret_key: &str) -> (signer: Signer)
        ensures
            signer@ == (SignerView {
                service: service@,
                region: region@,
                access_key: access_key@,
                secret_key: secret_key@,
            }),
    {
        Signer {
            service: service.to_owned(),
            region: region.to_owned(),
            access_key: access_key.to_owned(),
            secret_key: secret_key.to_owned(),
        }
    }

    fn copied(&self) -> (signer: Signer)
        ensures
            signer@ == self@,
    {
        Signer::new(
            self.service.as_str(),
            self.region.as_str(),
            self.access_key.as_str(),
            self.secret_key.as_str(),
        )
    }
}

/// One call to make: `document` under `action`, with `host` as its `Host`
/// header, signed by `signer`, over a connection to `endpoint` that is given
/// up after `timeout`.
#[derive(Debug)]
pub struct Call {
    pub endpoint: String,
    pub host: String,
    pub signer: Signer,
    pub timeout: Option<Duration>,
    pub action: &'static str,
    pub document: Value,
}

pub struct CallView {
    pub endpoint: Seq<char>,
    pub host: Seq<char>,
    pub signer: SignerView,
    pub timeout: Option<Duration>,
    pub action: Seq<char>,
    pub document: Json,
}

impl View for Call {
    type V = CallView;

    open spec fn view(&self) -> CallView {
        CallView {
            endpoint: self.endpoint@,
            host: self.host@,
            signer: self.signer@,
            timeout: self.timeout,
            action: self.action@,
            document: json(self.document),
        }
    }
}

/// What a `PutRecord` asks: a record of this text on `stream` under
/// `partition_key`.
pub open spec fn put_text_document(
    stream: Seq<char>,
    partition_key: Seq<char>,
    data: Seq<char>,
) -> Json {
    Json::Object(
        map![
            "StreamName"@ => Json::Text(stream),
            "PartitionKey"@ => Json::Text(partition_key),
            "Data"@ => Json::Text(data),
        ],
    )
}

/// What a `PutRecord` asks of `bytes`: their base64 as its record.
pub open spec fn put_document(
    stream: Seq<char>,
    partition_key: Seq<char>,
    bytes: Seq<u8>,
) -> Json {
    put_text_document(stream, partition_key, base64_text(bytes))
}

/// What a `GetShardIterator` asks: `shard` of `stream` from `position`.
pub open spec fn iterator_document(
    stream: Seq<char>,
    shard: Seq<char>,
    position: PositionView,
) -> Json {
    let members = map![
        "StreamName"@ => Json::Text(stream),
        "ShardId"@ => Json::Text(shard),
        "ShardIteratorType"@ => Json::Text(position.kind()),
    ];
    match position {
        PositionView::After(sequence_number) => Json::Object(
            members.insert("StartingSequenceNumber"@, Json::Text(sequence_number)),
        ),
        _ => Json::Object(members),
    }
}

/// What a `GetRecords` asks: up to `limit` records from `iterator`.
pub open spec fn records_document(iterator: Seq<char>, limit: u64) -> Json {
    Json::Object(
        map![
            "ShardIterator"@ => Json::Text(iterator),
            "Limit"@ => Json::Unsigned(limit),
        ],
    )
}

/// The record that one item of a `GetRecords` answer holds, its data having
/// decoded to `data`.
pub open spec fn record_with(item: Json, data: Result<Seq<u8>, Seq<char>>) -> Result<
    RecordView,
    ErrorView,
> {
    match data {
        Ok(data) => Ok(
            RecordView {
                sequence_number: text_of(item, "SequenceNumber"@),
                partition_key: text_of(item, "PartitionKey"@),
                data,
            },
        ),
        Err(why) => Err(ErrorView::Protocol("a record whose Data is not base64: "@ + why)),
    }
}

/// The record that one item of a `GetRecords` answer holds.
pub open spec fn record_of(item: Json) -> Result<RecordView, ErrorView> {
    record_with(item, base64_bytes(text_of(item, "Data"@)))
}

/// The records of every item in order, or the failure of the first that
/// holds none.
pub open spec fn records_of(items: Seq<Json>) -> Result<Seq<RecordView>, ErrorView>
    decreases items.len(),
{
    if items.len() == 0 {
        Ok(Seq::empty())
    } else {
        match records_of(items.drop_last()) {
            Ok(records) => match record_of(items.last()) {
                Ok(record) => Ok(records.push(record)),
                Err(failure) => Err(failure),
            },
            Err(failure) => Err(failure),
        }
    }
}

/// The items of a `GetRecords` answer, none where it has no list of them.
pub open spec fn items_of(answer: Json) -> Seq<Json> {
    match member(answer, "Records"@) {
        Json::List(items) => items,
        _ => Seq::empty(),
    }
}

/// The iterator a `GetRecords` answer goes on with, where it has one.
pub open spec fn next_of(answer: Json) -> Option<Seq<char>> {
    match member(answer, "NextShardIterator"@) {
        Json::Text(iterator) => Some(iterator),
        _ => None,
    }
}

pub open spec fn views(records: Seq<Record>) -> Seq<RecordView> {
    Seq::new(records.len(), |i: int| records[i]@)
}

/// Speaks to one Kinesis endpoint as one credential.
pub struct Client {
    endpoint: String,
    host: String,
    signer: Signer,
    timeout: Option<Duration>,
}

pub struct ClientView {
    pub endpoint: Seq<char>,
    pub host: Seq<char>,
    pub signer: SignerView,
    pub timeout: Option<Duration>,
}

impl View for Client {
    type V = ClientView;

    closed spec fn view(&self) -> ClientView {
        ClientView {
            endpoint: self.endpoint@,
            host: self.host@,
            signer: self.signer@,
            timeout: self.timeout,
        }
    }
}

impl ClientView {
    /// The call of this client that puts `document` under `action`.
    pub open spec fn call(self, action: Seq<char>, document: Json) -> CallView {
        CallView {
            endpoint: self.endpoint,
            host: self.host,
            signer: self.signer,
            timeout: self.timeout,
            action,
            document,
        }
    }
}

impl Client {
    /// Speak to the Kinesis endpoint at `endpoint` — `http://host:port` or
    /// `https://host:port` — in `region`, signing as `access_key`.
    /// `authority` is the host and port of the endpoint, or why it has none.
    ///
    /// # Errors
    /// Where `endpoint` is not an HTTP URL.
    pub fn new(
        endpoint: &str,
        authority: Result<String, TransportError>,
        region: &str,
        access_key: &str,
        secret_key: &str,
    ) -> (client: Result<Client, TransportError>)
        ensures
            match authority {
                Ok(host) => client matches Ok(client) && client@ == (ClientView {
                    endpoint: endpoint@,
                    host: host@,
                    signer: kinesis_signer(region@, access_key@, secret_key@),
                    timeout: None,
                }),
                Err(failure) => client matches Err(failed) && failed == failure,
            },
    {
        match authority {
            Ok(host) => Ok(
                Client {
                    endpoint: endpoint.to_owned(),
                    host,
                    signer: Signer::new("kinesis", region, access_key, secret_key),
                    timeout: None,
                },
            ),
            Err(failure) => Err(failure),
        }
    }

    /// Give up on an endpoint that stops answering after `timeout`.
    #[must_use]
    pub fn timing_out_after(self, timeout: Duration) -> (client: Client)
        ensures
            client@ == (ClientView { timeout: Some(timeout), ..self@ }),
    {
        Client { timeout: Some(timeout), ..self }
    }

    /// The call that puts `bytes` as one record on `stream` under
    /// `partition_key`. What it carries decodes to the same bytes.
    pub fn put_record(&self, stream: &str, partition_key: &str, bytes: &[u8]) -> (call: Call)
        requires
            encodable(bytes@.len()),
        ensures
            call@ == self@.call("PutRecord"@, put_document(stream@, partition_key@, bytes@)),
            carried(bytes@),
    {
        self.put_encoded(stream, partition_key, encode(bytes).as_str())
    }

    /// The call that puts the record whose base64 is `data` on `stream` under
    /// `partition_key`.
    pub fn put_encoded(&self, stream: &str, partition_key: &str, data: &str) -> (call: Call)
        ensures
            call@ == self@.call("PutRecord"@, put_text_document(stream@, partition_key@, data@)),
    {
        let mut document = empty_object();
        put_member(&mut document, "StreamName", text_value(stream));
        put_member(&mut document, "PartitionKey", text_value(partition_key));
        put_member(&mut document, "Data", text_value(data));
        self.call("PutRecord", document)
    }

    /// The shard and the sequence number that a record landed at, from the
    /// reply to [`Client::put_record`].
    ///
    /// # Errors
    /// Where the endpoint refused or could not be reached.
    pub fn put_record_reply(reply: Result<Value, TransportError>) -> (landed: Result<
        (String, String),
        TransportError,
    >)
        ensures
            match reply {
                Ok(answer) => landed matches Ok((shard, sequence_number)) && shard@ == text_of(
                    json(answer),
                    "ShardId"@,
                ) && sequence_number@ == text_of(json(answer), "SequenceNumber"@),
                Err(failure) => landed matches Err(failed) && failed == failure,
            },
    {
        match reply {
            Ok(answer) => Ok((text(&answer, "ShardId"), text(&answer, "SequenceNumber"))),
            Err(failure) => Err(failure),
        }
    }

    /// The call that asks for an iterator over `shard` of `stream`, from
    /// `position`.
    pub fn shard_iterator(&self, stream: &str, shard: &str, position: Position<'_>) -> (call: Call)
        ensures
            call@ == self@.call(
                "GetShardIterator"@,
                iterator_document(stream@, shard@, position@),
            ),
    {
        let mut document = empty_object();
        put_member(&mut document, "StreamName", text_value(stream));
        put_member(&mut document, "ShardId", text_value(shard));
        put_member(&mut document, "ShardIteratorType", text_value(position.kind()));
        if let Position::After(sequence_number) = position {
            put_member(&mut document, "StartingSequenceNumber", text_value(sequence_number));
        }
        self.call("GetShardIterator", document)
    }

    /// The iterator, from the reply to [`Client::shard_iterator`].
    ///
    /// # Errors
    /// Where there is no such stream or shard, or the endpoint refused or
    /// could not be reached.
    pub fn shard_iterator_reply(reply: Result<Value, TransportError>) -> (iterator: Result<
        String,
        TransportError,
    >)
        ensures
            match reply {
                Ok(answer) => iterator matches Ok(iterator) && iterator@ == text_of(
                    json(answer),
                    "ShardIterator"@,
                ),
                Err(failure) => iterator matches Err(failed) && failed == failure,
            },
    {
        match reply {
            Ok(answer) => Ok(text(&answer, "ShardIterator")),
            Err(failure) => Err(failure),
        }
    }

    /// The call that takes up to `limit` records from `iterator`.
    pub fn get_records(&self, iterator: &str, limit: u16) -> (call: Call)
        ensures
            call@ == self@.call("GetRecords"@, records_document(iterator@, limit as u64)),
    {
        let mut document = empty_object();
        put_member(&mut document, "ShardIterator", text_value(iterator));
        put_member(&mut document, "Limit", unsigned_value(limit as u64));
        self.call("GetRecords", document)
    }

    /// The records, and the iterator to continue with — `None` where the
    /// shard is closed — from the reply to [`Client::get_records`].
    ///
    /// # Errors
    /// Where the iterator is spent, or the endpoint refused, could not be
    /// reached, or answered with records that are not base64.
    pub fn get_records_reply(reply: Result<Value, TransportError>) -> (taken: Result<
        (Vec<Record>, Option<String>),
        TransportError,
    >)
        ensures
            match reply {
                Ok(answer) => match records_of(items_of(json(answer))) {
                    Ok(records) => {
                        &&& taken matches Ok((found, next))
                        &&& views(found@) == records
                        &&& match next {
                            Some(next) => next_of(json(answer)) == Some(next@),
                            None => next_of(json(answer)) is None,
                        }
                    },
                    Err(failure) => taken matches Err(failed) && failed@ == failure,
                },
                Err(failure) => taken matches Err(failed) && failed == failure,
            },
    {
        let answer = match reply {
            Ok(answer) => answer,
            Err(failure) => {
                return Err(failure);
            },
        };
        let mut records: Vec<Record> = Vec::new();
        let ghost listed = items_of(json(answer));
        if let Some(items) = as_list(at(&answer, "Records")) {
            let mut i: usize = 0;
            assert(listed.take(0) =~= Seq::empty());
            assert(views(records@) =~= Seq::empty());
            while i < items.len()
                invariant
                    reply matches Ok(given) && given == answer,
                    i <= items.len(),
                    listed == list_of(items@),
                    listed == items_of(json(answer)),
                    records_of(listed.take(i as int)) matches Ok(found) && found == views(
                        records@,
                    ),
                decreases items.len() - i,
            {
                assert(listed.take(i + 1).drop_last() =~= listed.take(i as int));
                assert(listed.take(i + 1).last() == json(items[i as int]));
                match record(&items[i]) {
                    Ok(found) => {
                        let ghost before = records@;
                        records.push(found);
                        assert(views(records@) =~= views(before).push(found@));
                    },
                    Err(failure) => {
                        proof {
                            lemma_first_failure(listed, i + 1);
                        }
                        return Err(failure);
                    },
                }
                i = i + 1;
            }
            assert(listed.take(i as int) =~= listed);
        } else {
            assert(views(records@) =~= Seq::empty());
        }
        let next = match as_text(at(&answer, "NextShardIterator")) {
            Some(next) => Some(next.to_owned()),
            None => None,
        };
        Ok((records, next))
    }

    fn call(&self, action: &'static str, document: Value) -> (call: Call)
        ensures
            call@ == self@.call(action@, json(document)),
    {
        Call {
            endpoint: self.endpoint.as_str().to_owned(),
            host: self.host.as_str().to_owned(),
            signer: self.signer.copied(),
            timeout: self.timeout,
            action,
            document,
        }
    }
}

/// A failure among the first items is the failure of them all.
proof fn lemma_first_failure(items: Seq<Json>, n: int)
    requires
        0 <= n <= items.len(),
        records_of(items.take(n)) is Err,
    ensures
        records_of(items) == records_of(items.take(n)),
    decreases items.len() - n,
{
    if n == items.len() {
        assert(items.take(n) =~= items);
    } else {
        assert(items.take(n + 1).drop_last() =~= items.take(n));
        lemma_first_failure(items, n + 1);
    }
}

/// The record that one item of a `GetRecords` answer holds.
///
/// # Errors
/// Where its data is not base64.
pub fn record(item: &Value) -> (record: Result<Record, TransportError>)
    ensures
        match record_of(json(*item)) {
            Ok(held) => record matches Ok(found) && found@ == held,
            Err(failure) => record matches Err(failed) && failed@ == failure,
        },
{
    record_from(item, decode(field(item, "Data")))
}

/// The record that one item of a `GetRecords` answer holds, its data having
/// decoded to `data`.
///
/// # Errors
/// Where it did not decode.
pub fn record_from(item: &Value, data: Result<Vec<u8>, String>) -> (record: Result<
    Record,
    TransportError,
>)
    ensures
        match record_with(json(*item), decoded_view(data)) {
            Ok(held) => record matches Ok(found) && found@ == held,
            Err(failure) => record matches Err(failed) && failed@ == failure,
        },
{
    match data {
        Ok(data) => Ok(
            Record {
                sequence_number: text(item, "SequenceNumber"),
                partition_key: text(item, "PartitionKey"),
                data,
            },
        ),
        Err(why) => {
            let mut message = "a record whose Data is not base64: ".to_owned();
            message.append(why.as_str());
            Err(TransportError::Protocol(message))
        },
    }
}

} // verus!
