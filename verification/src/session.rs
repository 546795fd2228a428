//! The far end: enough of Kinesis to answer one Location, and what a test
//! or the playground puts on loopback.
//!
//! Not Kinesis. One session holds the streams it was told of, each one
//! shard of records in memory, refuses every request that does not verify
//! against its one credential, and answers the three calls with the shapes
//! Kinesis answers them — the shard and sequence number, the iterator, the
//! records with the iterator to continue on, the exception with its type. A
//! sequence number is one counter across the session; an iterator is the
//! stream and an index into it, in the clear, because nothing here needs to
//! hide it.
use crate::client::{kinesis_signer, RecordView, Signer, SignerView};
use crate::document::{
    as_unsigned, at, empty_object, field, json, list_of, list_value, member, put_member,
    text_of, text_value, unsigned_value, Json,
};
use crate::encoding::{base64_bytes, base64_text, carried, decode, decoded_view, encodable, encode};
use crate::error::{Arrived, ArrivedView, ErrorView, TransportError};
use crate::text::{
    decimal, decimal_text, lemma_zero_filled, parse_index, parsed_index, split_at_last_slash,
    split_last, value, zero_filled, zero_filled_text,
};
use crate::SHARD;
use serde_json::Value;
use std::time::Duration;
use vstd::prelude::*;

verus! {

/// What the client did, as [`Session::answer`] reports it.
#[derive(Clone, Debug, PartialEq, Eq)]
pub enum Event {
    /// The client put a record; here is the Stream, its origin the stream,
    /// shard and sequence number it landed at.
    Put(Arrived),
    /// The client asked for an iterator over `stream` of this kind.
    Iterated { stream: String, kind: String },
    /// The client read `count` records from `stream`.
    Read { stream: String, count: usize },
    /// The client was answered with this exception.
    Refused(String),
}

pub enum EventView {
    Put(ArrivedView),
    Iterated { stream: Seq<char>, kind: Seq<char> },
    Read { stream: Seq<char>, count: nat },
    Refused(Seq<char>),
}

impl View for Event {
    type V = EventView;

    open spec fn view(&self) -> EventView {
        match self {
            Event::Put(arrived) => EventView::Put(arrived@),
            Event::Iterated { stream, kind } => EventView::Iterated {
                stream: stream@,
                kind: kind@,
            },
            Event::Read { stream, count } => EventView::Read {
                stream: stream@,
                count: *count as nat,
            },
            Event::Refused(kind) => EventView::Refused(kind@),
        }
    }
}

impl Event {
    /// The Stream that was put, where the client put one; otherwise the event
    /// itself.
    pub fn into_put(self) -> (put: Result<Arrived, Event>)
        ensures
            match self {
                Event::Put(arrived) => put matches Ok(found) && found == arrived,
                _ => put matches Err(event) && event == self,
            },
    {
        match self {
            Event::Put(arrived) => Ok(arrived),
            other => Err(other),
        }
    }
}

/// What a request is answered: a document, or an exception.
#[derive(Debug)]
pub enum Reply {
    Answered(Value),
    Refused { status: u16, kind: String, message: String },
}

pub enum ReplyView {
    Answered(Json),
    Refused { status: u16, kind: Seq<char>, message: Seq<char> },
}

impl View for Reply {
    type V = ReplyView;

    open spec fn view(&self) -> ReplyView {
        match self {
            Reply::Answered(document) => ReplyView::Answered(json(*document)),
            Reply::Refused { status, kind, message } => ReplyView::Refused {
                status: *status,
                kind: kind@,
                message: message@,
            },
        }
    }
}

impl ReplyView {
    pub open spec fn status(self) -> u16 {
        match self {
            ReplyView::Answered(_) => 200,
            ReplyView::Refused { status, .. } => status,
        }
    }
}

impl Reply {
    /// The HTTP status the reply goes out under.
    pub fn status(&self) -> (status: u16)
        ensures
            status == self@.status(),
    {
        match self {
            Reply::Answered(_) => 200,
            Reply::Refused { status, .. } => *status,
        }
    }
}

/// One record held.
#[derive(Clone, Debug, PartialEq, Eq)]
pub struct Held {
    pub sequence_number: String,
    pub partition_key: String,
    pub data: Vec<u8>,
}

impl View for Held {
    type V = RecordView;

    open spec fn view(&self) -> RecordView {
        RecordView {
            sequence_number: self.sequence_number@,
            partition_key: self.partition_key@,
            data: self.data@,
        }
    }
}

pub open spec fn held_views(held: Seq<Held>) -> Seq<RecordView> {
    Seq::new(held.len(), |i: int| held[i]@)
}

/// The sequence number of the `n`th record that a session takes.
pub open spec fn sequence_number(n: nat) -> Seq<char> {
    zero_filled(n, 21)
}

/// The record at `number` of `shard` of `stream`, as an origin says it.
pub open spec fn origin_uri(stream: Seq<char>, shard: Seq<char>, number: Seq<char>) -> Seq<char> {
    "kinesis://"@ + stream + "/"@ + shard + "/"@ + number
}

/// The iterator that goes on at index `at` of `stream`.
pub open spec fn iterator_text(stream: Seq<char>, at: nat) -> Seq<char> {
    stream + "/"@ + decimal(at)
}

/// The first record with this sequence number stands at `i`.
pub open spec fn first_at(held: Seq<RecordView>, number: Seq<char>, i: int) -> bool {
    &&& 0 <= i < held.len()
    &&& held[i].sequence_number == number
    &&& forall|j: int| 0 <= j < i ==> (#[trigger] held[j]).sequence_number != number
}

/// Where reading begins, by the kind of iterator asked for, or why nowhere.
pub open spec fn start_of(held: Seq<RecordView>, kind: Seq<char>, after: Seq<char>) -> Result<
    nat,
    Seq<char>,
> {
    if kind == "TRIM_HORIZON"@ {
        Ok(0)
    } else if kind == "LATEST"@ {
        Ok(held.len())
    } else if kind == "AFTER_SEQUENCE_NUMBER"@ {
        if exists|i: int| first_at(held, after, i) {
            Ok(((choose|i: int| first_at(held, after, i)) + 1) as nat)
        } else {
            Err("no such sequence"@)
        }
    } else {
        Err("an iterator type not served"@)
    }
}

/// The records from index `at` on, `limit` of them at most.
pub open spec fn window(held: Seq<RecordView>, at: nat, limit: Option<u64>) -> Seq<RecordView> {
    let rest = if at <= held.len() {
        held.skip(at as int)
    } else {
        Seq::empty()
    };
    match limit {
        Some(n) => if n < rest.len() {
            rest.take(n as int)
        } else {
            rest
        },
        None => rest,
    }
}

/// The `Limit` that a document sets, where it sets one.
pub open spec fn limit_of(document: Json) -> Option<u64> {
    match member(document, "Limit"@) {
        Json::Unsigned(n) => Some(n),
        _ => None,
    }
}

/// A record as a `GetRecords` answer lists it, its data written as `data`.
pub open spec fn item_with(record: RecordView, data: Seq<char>) -> Json {
    Json::Object(
        map![
            "SequenceNumber"@ => Json::Text(record.sequence_number),
            "PartitionKey"@ => Json::Text(record.partition_key),
            "Data"@ => Json::Text(data),
        ],
    )
}

/// A record as a `GetRecords` answer lists it.
pub open spec fn item_of(record: RecordView) -> Json {
    item_with(record, base64_text(record.data))
}

pub open spec fn items_for(records: Seq<RecordView>) -> Seq<Json> {
    Seq::new(records.len(), |i: int| item_of(records[i]))
}

/// What a `PutRecord` is answered.
pub open spec fn put_answer(number: Seq<char>) -> Json {
    Json::Object(map!["ShardId"@ => Json::Text(SHARD@), "SequenceNumber"@ => Json::Text(number)])
}

/// What a `GetShardIterator` is answered.
pub open spec fn iterator_answer(iterator: Seq<char>) -> Json {
    Json::Object(map!["ShardIterator"@ => Json::Text(iterator)])
}

/// What a `GetRecords` is answered.
pub open spec fn records_answer(records: Seq<RecordView>, next: Seq<char>) -> Json {
    Json::Object(
        map![
            "Records"@ => Json::List(items_for(records)),
            "NextShardIterator"@ => Json::Text(next),
            "MillisBehindLatest"@ => Json::Unsigned(0),
        ],
    )
}

/// What a session makes of a request: how it stands after, what it reports,
/// and what it answers.
pub struct Outcome {
    pub session: SessionView,
    pub event: EventView,
    pub reply: ReplyView,
}

/// What a session holds: its streams by name, each a shard of records in the
/// order they came, and the number its next record gets.
pub struct SessionView {
    pub signer: SignerView,
    pub streams: Map<Seq<char>, Seq<RecordView>>,
    pub next: nat,
    pub timeout: Option<Duration>,
}

impl SessionView {
    pub open spec fn holds(self, stream: Seq<char>, i: int) -> bool {
        self.streams.contains_key(stream) && 0 <= i < self.streams[stream].len()
    }

    /// The number that the sequence number of a record writes.
    pub open spec fn number(self, stream: Seq<char>, i: int) -> nat {
        value(self.streams[stream][i].sequence_number)
    }

    /// Every record bears a number the counter has given out, and data that
    /// can go out again; numbers rise along each shard, and no two records of
    /// the session share one.
    pub open spec fn wf(self) -> bool {
        &&& 1 <= self.next <= u64::MAX
        &&& forall|stream: Seq<char>, i: int|
            #![trigger self.streams[stream][i]]
            self.holds(stream, i) ==> {
                &&& 1 <= self.number(stream, i) < self.next
                &&& self.streams[stream][i].sequence_number == sequence_number(
                    self.number(stream, i),
                )
                &&& encodable(self.streams[stream][i].data.len())
            }
        &&& forall|stream: Seq<char>, i: int, j: int|
            #![trigger self.streams[stream][i], self.streams[stream][j]]
            self.holds(stream, i) && self.holds(stream, j) && i < j ==> self.number(stream, i)
                < self.number(stream, j)
        &&& forall|a: Seq<char>, i: int, b: Seq<char>, j: int|
            #![trigger self.streams[a][i], self.streams[b][j]]
            self.holds(a, i) && self.holds(b, j) && self.streams[a][i].sequence_number
                == self.streams[b][j].sequence_number ==> a == b && i == j
    }

    /// The data of every record goes out as it came in.
    pub open spec fn faithful(self) -> bool {
        forall|stream: Seq<char>, i: int|
            #![trigger self.streams[stream][i]]
            self.holds(stream, i) ==> carried(self.streams[stream][i].data)
    }

    /// The session as it was, the request answered with an exception.
    pub open spec fn refusing(self, status: u16, kind: Seq<char>, message: Seq<char>) -> Outcome {
        Outcome {
            session: self,
            event: EventView::Refused(kind),
            reply: ReplyView::Refused { status, kind, message },
        }
    }

    /// What a `PutRecord` comes to.
    pub open spec fn put(self, document: Json) -> Outcome {
        self.put_decoded(document, base64_bytes(text_of(document, "Data"@)))
    }

    /// What a `PutRecord` comes to whose data decoded to `data`.
    pub open spec fn put_decoded(
        self,
        document: Json,
        data: Result<Seq<u8>, Seq<char>>,
    ) -> Outcome {
        let stream = text_of(document, "StreamName"@);
        match data {
            Err(_) => self.refusing(400, "SerializationException"@, "Data that is not base64"@),
            Ok(data) => if !self.streams.contains_key(stream) {
                self.refusing(400, "ResourceNotFoundException"@, "no such stream"@)
            } else {
                let number = sequence_number(self.next);
                let record = RecordView {
                    sequence_number: number,
                    partition_key: text_of(document, "PartitionKey"@),
                    data,
                };
                Outcome {
                    session: SessionView {
                        streams: self.streams.insert(stream, self.streams[stream].push(record)),
                        next: self.next + 1,
                        ..self
                    },
                    event: EventView::Put(
                        ArrivedView { origin_uri: origin_uri(stream, SHARD@, number), bytes: data },
                    ),
                    reply: ReplyView::Answered(put_answer(number)),
                }
            },
        }
    }

    /// What a `GetShardIterator` comes to.
    pub open spec fn iterate(self, document: Json) -> Outcome {
        let stream = text_of(document, "StreamName"@);
        let kind = text_of(document, "ShardIteratorType"@);
        if !self.streams.contains_key(stream) {
            self.refusing(400, "ResourceNotFoundException"@, "no such stream"@)
        } else if text_of(document, "ShardId"@) != SHARD@ {
            self.refusing(400, "ResourceNotFoundException"@, "no such shard"@)
        } else {
            match start_of(
                self.streams[stream],
                kind,
                text_of(document, "StartingSequenceNumber"@),
            ) {
                Ok(start) => Outcome {
                    session: self,
                    event: EventView::Iterated { stream, kind },
                    reply: ReplyView::Answered(iterator_answer(iterator_text(stream, start))),
                },
                Err(why) => self.refusing(400, "InvalidArgumentException"@, why),
            }
        }
    }

    /// What a `GetRecords` comes to.
    pub open spec fn read(self, document: Json) -> Outcome {
        let not_ours = self.refusing(
            400,
            "InvalidArgumentException"@,
            "an iterator not handed out"@,
        );
        match split_last(text_of(document, "ShardIterator"@)) {
            Some((stream, index)) => match parsed_index(index) {
                Some(at) => if self.streams.contains_key(stream) {
                    let taken = window(self.streams[stream], at as nat, limit_of(document));
                    Outcome {
                        session: self,
                        event: EventView::Read { stream, count: taken.len() },
                        reply: ReplyView::Answered(
                            records_answer(taken, iterator_text(stream, at as nat + taken.len())),
                        ),
                    }
                } else {
                    not_ours
                },
                None => not_ours,
            },
            None => not_ours,
        }
    }

    /// What a request comes to, by whether its signature verified, the
    /// document it carries and the action it names.
    pub open spec fn answer(
        self,
        verified: Result<(), ErrorView>,
        document: Result<Json, ErrorView>,
        action: Option<Seq<char>>,
    ) -> Outcome {
        match (verified, document) {
            (Err(failure), _) => self.refusing(
                403,
                "InvalidSignatureException"@,
                failure.message(),
            ),
            (Ok(_), Err(failure)) => self.refusing(
                400,
                "SerializationException"@,
                failure.message(),
            ),
            (Ok(_), Ok(document)) => if action == Some("PutRecord"@) {
                self.put(document)
            } else if action == Some("GetShardIterator"@) {
                self.iterate(document)
            } else if action == Some("GetRecords"@) {
                self.read(document)
            } else {
                self.refusing(
                    400,
                    "UnknownOperationException"@,
                    "not one of the three calls"@,
                )
            },
        }
    }
}

/// One stream: its name, and its one shard.
struct Shelf {
    name: String,
    held: Vec<Held>,
}

/// The far end of one credential.
pub struct Session {
    signer: Signer,
    shelves: Vec<Shelf>,
    next: u64,
    timeout: Option<Duration>,
}

spec fn named(shelves: Seq<Shelf>, name: Seq<char>) -> bool {
    exists|i: int| 0 <= i < shelves.len() && (#[trigger] shelves[i]).name@ == name
}

spec fn shelf_at(shelves: Seq<Shelf>, name: Seq<char>) -> int {
    choose|i: int| 0 <= i < shelves.len() && (#[trigger] shelves[i]).name@ == name
}

spec fn streams_of(shelves: Seq<Shelf>) -> Map<Seq<char>, Seq<RecordView>> {
    Map::new(
        |name: Seq<char>| named(shelves, name),
        |name: Seq<char>| held_views(shelves[shelf_at(shelves, name)].held@),
    )
}

spec fn distinct(shelves: Seq<Shelf>) -> bool {
    forall|i: int, j: int|
        #![trigger shelves[i], shelves[j]]
        0 <= i < shelves.len() && 0 <= j < shelves.len() && shelves[i].name@ == shelves[j].name@
            ==> i == j
}

impl View for Session {
    type V = SessionView;

    closed spec fn view(&self) -> SessionView {
        SessionView {
            signer: self.signer@,
            streams: streams_of(self.shelves@),
            next: self.next as nat,
            timeout: self.timeout,
        }
    }
}

impl Session {
    /// No two streams share a name.
    pub closed spec fn named_once(self) -> bool {
        distinct(self.shelves@)
    }

    /// Streams are told apart by name, and what they hold is well formed.
    pub open spec fn wf(self) -> bool {
        self.named_once() && self@.wf()
    }

    /// Answer requests signed in `region` as `access_key` with `secret_key`.
    #[must_use]
    pub fn new(region: &str, access_key: &str, secret_key: &str) -> (session: Session)
        ensures
            session.wf(),
            session@.faithful(),
            session@ == (SessionView {
                signer: kinesis_signer(region@, access_key@, secret_key@),
                streams: Map::empty(),
                next: 1,
                timeout: None,
            }),
    {
        let session = Session {
            signer: Signer::new("kinesis", region, access_key, secret_key),
            shelves: Vec::new(),
            next: 1,
            timeout: None,
        };
        assert(session@.streams =~= Map::empty());
        session
    }

    /// Hold a stream called `name`, one shard, empty where it is new.
    #[must_use]
    pub fn with_stream(self, name: &str) -> (session: Session)
        requires
            self.wf(),
        ensures
            session.wf(),
            self@.faithful() ==> session@.faithful(),
            session@ == (SessionView {
                streams: if self@.streams.contains_key(name@) {
                    self@.streams
                } else {
                    self@.streams.insert(name@, Seq::empty())
                },
                ..self@
            }),
    {
        match self.find(name) {
            Some(_) => self,
            None => {
                let ghost before = self.shelves@;
                let mut shelves = self.shelves;
                shelves.push(Shelf { name: name.to_owned(), held: Vec::new() });
                let session = Session { shelves, ..self };
                proof {
                    assert(held_views(shelves@.last().held@) =~= Seq::empty());
                    assert(shelves@.drop_last() =~= before);
                    lemma_added(before, shelves@);
                }
                session
            },
        }
    }

    /// Give up on a client that stops mid-request after `timeout`.
    #[must_use]
    pub fn timing_out_after(self, timeout: Duration) -> (session: Session)
        requires
            self.wf(),
        ensures
            session.wf(),
            self@.faithful() ==> session@.faithful(),
            session@ == (SessionView { timeout: Some(timeout), ..self@ }),
    {
        Session { timeout: Some(timeout), ..self }
    }

    /// Every record on `stream`, in order.
    #[must_use]
    pub fn records(&self, stream: &str) -> (records: &[Held])
        requires
            self.wf(),
        ensures
            held_views(records@) == if self@.streams.contains_key(stream@) {
                self@.streams[stream@]
            } else {
                Seq::empty()
            },
    {
        match self.find(stream) {
            Some(k) => self.shelves[k].held.as_slice(),
            None => {
                let none: &[Held] = &[];
                assert(held_views(none@) =~= Seq::empty());
                none
            },
        }
    }

    /// What requests to this session are signed with.
    pub fn signer(&self) -> (signer: &Signer)
        ensures
            signer@ == self@.signer,
    {
        &self.signer
    }

    /// How long a client may stop mid-request, where that is limited.
    pub fn timeout(&self) -> (timeout: Option<Duration>)
        ensures
            timeout == self@.timeout,
    {
        self.timeout
    }

    /// Answer one request, and say what it was. `verified` is whether the
    /// request's signature is this session's, `document` what its body
    /// parsed to, `action` what it names, where it names one.
    pub fn answer(
        &mut self,
        verified: Result<(), TransportError>,
        document: Result<Value, TransportError>,
        action: Option<&str>,
    ) -> (told: (Event, Reply))
        requires
            old(self).wf(),
            old(self)@.next < u64::MAX || !(old(self)@.answer(
                unit_view(verified),
                document_view(document),
                action_view(action),
            ).event is Put),
        ensures
            final(self).wf(),
            old(self)@.faithful() ==> final(self)@.faithful(),
            ({
                let outcome = old(self)@.answer(
                    unit_view(verified),
                    document_view(document),
                    action_view(action),
                );
                &&& final(self)@ == outcome.session
                &&& told.0@ == outcome.event
                &&& told.1@ == outcome.reply
            }),
    {
        if let Err(failure) = verified {
            return refused(403, "InvalidSignatureException", failure.message());
        }
        let document = match document {
            Ok(document) => document,
            Err(failure) => {
                return refused(400, "SerializationException", failure.message());
            },
        };
        if let Some(action) = action {
            let action: String = action.to_owned();
            if action == "PutRecord".to_owned() {
                return self.put(&document);
            }
            if action == "GetShardIterator".to_owned() {
                return self.iterate(&document);
            }
            if action == "GetRecords".to_owned() {
                return self.read(&document);
            }
        }
        refused(400, "UnknownOperationException", "not one of the three calls")
    }

    /// Answer one request as [`Session::answer`] does, unless it is a put that
    /// would be taken when the counter has no number left: then nothing
    /// happens, and there is no answer.
    pub fn try_answer(
        &mut self,
        verified: Result<(), TransportError>,
        document: Result<Value, TransportError>,
        action: Option<&str>,
    ) -> (told: Option<(Event, Reply)>)
        requires
            old(self).wf(),
        ensures
            final(self).wf(),
            old(self)@.faithful() ==> final(self)@.faithful(),
            ({
                let outcome = old(self)@.answer(
                    unit_view(verified),
                    document_view(document),
                    action_view(action),
                );
                if old(self)@.next == u64::MAX && outcome.event is Put {
                    &&& told is None
                    &&& final(self)@ == old(self)@
                } else {
                    &&& told matches Some((event, reply))
                    &&& final(self)@ == outcome.session
                    &&& event@ == outcome.event
                    &&& reply@ == outcome.reply
                }
            }),
    {
        if self.next == u64::MAX {
            if let (Ok(_), Ok(document), Some(action)) = (&verified, &document, action) {
                let action: String = action.to_owned();
                if action == "PutRecord".to_owned() && decode(field(document, "Data")).is_ok()
                    && self.find(field(document, "StreamName")).is_some() {
                    return None;
                }
            }
        }
        Some(self.answer(verified, document, action))
    }

    /// Take one record, where its data is base64 and its stream is held.
    pub fn put(&mut self, document: &Value) -> (told: (Event, Reply))
        requires
            old(self).wf(),
            old(self)@.next < u64::MAX || !(old(self)@.put(json(*document)).event is Put),
        ensures
            final(self).wf(),
            old(self)@.faithful() ==> final(self)@.faithful(),
            final(self)@ == old(self)@.put(json(*document)).session,
            told.0@ == old(self)@.put(json(*document)).event,
            told.1@ == old(self)@.put(json(*document)).reply,
    {
        self.put_decoded(document, decode(field(document, "Data")))
    }

    /// Take one record, its data having decoded to `data`, where it did and
    /// its stream is held.
    pub fn put_decoded(&mut self, document: &Value, data: Result<Vec<u8>, String>) -> (told: (
        Event,
        Reply,
    ))
        requires
            old(self).wf(),
            old(self)@.next < u64::MAX || !(old(self)@.put_decoded(
                json(*document),
                decoded_view(data),
            ).event is Put),
            data matches Ok(bytes) ==> encodable(bytes@.len()),
        ensures
            final(self).wf(),
            old(self)@.faithful() && (data matches Ok(bytes) ==> carried(bytes@))
                ==> final(self)@.faithful(),
            ({
                let outcome = old(self)@.put_decoded(json(*document), decoded_view(data));
                &&& final(self)@ == outcome.session
                &&& told.0@ == outcome.event
                &&& told.1@ == outcome.reply
            }),
    {
        let stream = field(document, "StreamName");
        let data = match data {
            Ok(data) => data,
            Err(_) => {
                return refused(400, "SerializationException", "Data that is not base64");
            },
        };
        let k = match self.find(stream) {
            Some(k) => k,
            None => {
                return refused(400, "ResourceNotFoundException", "no such stream");
            },
        };
        let number = zero_filled_text(self.next, 21);
        let ghost before = self.shelves@;
        let ghost session = self@;
        let kept = data.clone();
        assert(kept@ =~= data@);
        let record = Held {
            sequence_number: number.clone(),
            partition_key: field(document, "PartitionKey").to_owned(),
            data: kept,
        };
        self.next = self.next + 1;
        self.shelves[k].held.push(record);
        proof {
            lemma_pushed(before, self.shelves@, k as int, record);
            lemma_put_wf(session, json(*document), Ok(data@));
        }
        let mut answer = empty_object();
        put_member(&mut answer, "ShardId", text_value(SHARD));
        put_member(&mut answer, "SequenceNumber", text_value(number.as_str()));
        (Event::Put(Arrived::new(origin(stream, number.as_str()), data)), Reply::Answered(answer))
    }

    /// Hand out an iterator over the shard of a stream that is held.
    pub fn iterate(&self, document: &Value) -> (told: (Event, Reply))
        requires
            self.wf(),
        ensures
            told.0@ == self@.iterate(json(*document)).event,
            told.1@ == self@.iterate(json(*document)).reply,
    {
        let stream = field(document, "StreamName");
        let kind: String = field(document, "ShardIteratorType").to_owned();
        let k = match self.find(stream) {
            Some(k) => k,
            None => {
                return refused(400, "ResourceNotFoundException", "no such stream");
            },
        };
        if field(document, "ShardId").to_owned() != SHARD.to_owned() {
            return refused(400, "ResourceNotFoundException", "no such shard");
        }
        let held = &self.shelves[k].held;
        let start: usize = if kind == "TRIM_HORIZON".to_owned() {
            0
        } else if kind == "LATEST".to_owned() {
            held.len()
        } else if kind == "AFTER_SEQUENCE_NUMBER".to_owned() {
            match position_of(held, field(document, "StartingSequenceNumber")) {
                Some(i) => i + 1,
                None => {
                    return refused(400, "InvalidArgumentException", "no such sequence");
                },
            }
        } else {
            return refused(400, "InvalidArgumentException", "an iterator type not served");
        };
        let mut answer = empty_object();
        put_member(&mut answer, "ShardIterator", text_value(iterator(stream, start).as_str()));
        (Event::Iterated { stream: stream.to_owned(), kind }, Reply::Answered(answer))
    }

    /// Hand back the records an iterator goes on with.
    pub fn read(&self, document: &Value) -> (told: (Event, Reply))
        requires
            self.wf(),
        ensures
            told.0@ == self@.read(json(*document)).event,
            told.1@ == self@.read(json(*document)).reply,
    {
        let (stream, index) = match split_at_last_slash(field(document, "ShardIterator")) {
            Some(parts) => parts,
            None => {
                return refused(400, "InvalidArgumentException", "an iterator not handed out");
            },
        };
        let (k, start): (usize, usize) = match (self.find(stream), parse_index(index)) {
            (Some(k), Some(start)) => (k, start),
            _ => {
                return refused(400, "InvalidArgumentException", "an iterator not handed out");
            },
        };
        let held = &self.shelves[k].held;
        let rest: usize = if start <= held.len() {
            held.len() - start
        } else {
            0
        };
        let count: usize = match as_unsigned(at(document, "Limit")) {
            Some(limit) => if limit < rest as u64 {
                limit as usize
            } else {
                rest
            },
            None => rest,
        };
        let ghost taken = window(held_views(held@), start as nat, limit_of(json(*document)));
        assert(taken.len() == count);
        let mut items: Vec<Value> = Vec::new();
        let mut i: usize = 0;
        while i < count
            invariant
                i <= count,
                count > 0 ==> start + count <= held.len(),
                items.len() == i,
                taken.len() == count,
                self.wf(),
                self@.streams.contains_key(stream@),
                self@.streams[stream@] == held_views(held@),
                forall|j: int| 0 <= j < count ==> #[trigger] taken[j] == held[start + j]@,
                forall|j: int| 0 <= j < i ==> json(#[trigger] items[j]) == item_of(taken[j]),
            decreases count - i,
        {
            let record = &held[start + i];
            assert(self@.streams[stream@][start + i] == record@);
            assert(taken[i as int] == record@);
            items.push(item(record, encode(record.data.as_slice()).as_str()));
            i = i + 1;
        }
        assert(list_of(items@) =~= items_for(taken));
        let mut answer = empty_object();
        put_member(&mut answer, "Records", list_value(items));
        put_member(
            &mut answer,
            "NextShardIterator",
            text_value(iterator(stream, start + count).as_str()),
        );
        put_member(&mut answer, "MillisBehindLatest", unsigned_value(0));
        (Event::Read { stream: stream.to_owned(), count }, Reply::Answered(answer))
    }

    fn find(&self, name: &str) -> (found: Option<usize>)
        requires
            distinct(self.shelves@),
        ensures
            match found {
                Some(i) => {
                    &&& i < self.shelves.len()
                    &&& self.shelves[i as int].name@ == name@
                    &&& self@.streams.contains_key(name@)
                    &&& self@.streams[name@] == held_views(self.shelves[i as int].held@)
                },
                None => !self@.streams.contains_key(name@),
            },
    {
        let sought: String = name.to_owned();
        let mut i: usize = 0;
        while i < self.shelves.len()
            invariant
                i <= self.shelves.len(),
                sought@ == name@,
                distinct(self.shelves@),
                forall|j: int| 0 <= j < i ==> (#[trigger] self.shelves[j]).name@ != name@,
            decreases self.shelves.len() - i,
        {
            if self.shelves[i].name == sought {
                assert(self.shelves@[i as int].name@ == name@);
                return Some(i);
            }
            i = i + 1;
        }
        None
    }
}

/// No stream holds more records than a `Vec` does.
pub proof fn lemma_held_fits(session: Session, stream: Seq<char>)
    requires
        session@.streams.contains_key(stream),
    ensures
        session@.streams[stream].len() <= usize::MAX,
{
    let held = session.shelves[shelf_at(session.shelves@, stream)].held;
    assert(held_views(held@).len() == held.len());
}

/// A shelf under a new name adds its stream and changes no other.
proof fn lemma_added(before: Seq<Shelf>, after: Seq<Shelf>)
    requires
        after.len() == before.len() + 1,
        after.drop_last() == before,
        distinct(before),
        !named(before, after.last().name@),
    ensures
        distinct(after),
        streams_of(after) == streams_of(before).insert(
            after.last().name@,
            held_views(after.last().held@),
        ),
{
    assert forall|i: int| 0 <= i < before.len() implies before[i] == #[trigger] after[i] by {
        assert(after.drop_last()[i] == after[i]);
    }
    assert(after[before.len() as int] == after.last());
    assert(streams_of(after) =~= streams_of(before).insert(
        after.last().name@,
        held_views(after.last().held@),
    )) by {
        assert forall|name: Seq<char>|
            named(after, name) == (named(before, name) || name == after.last().name@) by {
            if named(before, name) {
                let i = shelf_at(before, name);
                assert(after[i].name@ == name);
            }
        }
        assert forall|name: Seq<char>| named(before, name) implies shelf_at(after, name)
            == shelf_at(before, name) by {
            let i = shelf_at(before, name);
            assert(before[i].name@ == name);
            assert(after[i].name@ == name);
        }
    }
}

pub open spec fn unit_view(result: Result<(), TransportError>) -> Result<(), ErrorView> {
    match result {
        Ok(_) => Ok(()),
        Err(failure) => Err(failure@),
    }
}

pub open spec fn document_view(result: Result<Value, TransportError>) -> Result<Json, ErrorView> {
    match result {
        Ok(document) => Ok(json(document)),
        Err(failure) => Err(failure@),
    }
}

pub open spec fn action_view(action: Option<&str>) -> Option<Seq<char>> {
    match action {
        Some(action) => Some(action@),
        None => None,
    }
}

/// A record as a `GetRecords` answer lists it, `data` being its base64.
pub fn item(record: &Held, data: &str) -> (item: Value)
    ensures
        json(item) == item_with(record@, data@),
{
    let mut item = empty_object();
    put_member(&mut item, "SequenceNumber", text_value(record.sequence_number.as_str()));
    put_member(&mut item, "PartitionKey", text_value(record.partition_key.as_str()));
    put_member(&mut item, "Data", text_value(data));
    item
}

/// The index of the first record with this sequence number.
fn position_of(held: &Vec<Held>, number: &str) -> (found: Option<usize>)
    ensures
        match found {
            Some(i) => i < held.len() && first_at(held_views(held@), number@, i as int),
            None => forall|i: int| !first_at(held_views(held@), number@, i),
        },
{
    let sought: String = number.to_owned();
    let mut i: usize = 0;
    while i < held.len()
        invariant
            i <= held.len(),
            sought@ == number@,
            forall|j: int|
                0 <= j < i ==> (#[trigger] held_views(held@)[j]).sequence_number != number@,
        decreases held.len() - i,
    {
        if held[i].sequence_number == sought {
            return Some(i);
        }
        i = i + 1;
    }
    None
}

/// One more record on a shelf is one more on its stream, and no other.
proof fn lemma_pushed(before: Seq<Shelf>, after: Seq<Shelf>, k: int, record: Held)
    requires
        distinct(before),
        0 <= k < before.len() == after.len(),
        after[k].name@ == before[k].name@,
        after[k].held@ == before[k].held@.push(record),
        forall|i: int| 0 <= i < before.len() && i != k ==> after[i] == #[trigger] before[i],
    ensures
        distinct(after),
        streams_of(after) == streams_of(before).insert(
            before[k].name@,
            held_views(before[k].held@).push(record@),
        ),
{
    let name = before[k].name@;
    assert forall|i: int| 0 <= i < before.len() implies (#[trigger] after[i]).name@
        == before[i].name@ by {}
    assert(held_views(after[k].held@) =~= held_views(before[k].held@).push(record@));
    assert(streams_of(after) =~= streams_of(before).insert(
        name,
        held_views(before[k].held@).push(record@),
    )) by {
        assert forall|other: Seq<char>| named(after, other) == named(before, other) by {
            if named(before, other) {
                assert(after[shelf_at(before, other)].name@ == other);
            }
            if named(after, other) {
                assert(before[shelf_at(after, other)].name@ == other);
            }
        }
        assert forall|other: Seq<char>| named(before, other) implies shelf_at(after, other)
            == shelf_at(before, other) by {
            let i = shelf_at(before, other);
            assert(before[i].name@ == other);
            assert(after[i].name@ == other);
        }
    }
}

/// Taking a record keeps the session well formed, and faithful where its data
/// goes to base64 and back.
pub proof fn lemma_put_wf(
    session: SessionView,
    document: Json,
    data: Result<Seq<u8>, Seq<char>>,
)
    requires
        session.wf(),
        session.next < u64::MAX || !(session.put_decoded(document, data).event is Put),
        data matches Ok(bytes) ==> encodable(bytes.len()),
    ensures
        session.put_decoded(document, data).session.wf(),
        session.faithful() && (data matches Ok(bytes) ==> carried(bytes)) ==> session.put_decoded(
            document,
            data,
        ).session.faithful(),
{
    let after = session.put_decoded(document, data).session;
    let stream = text_of(document, "StreamName"@);
    if after != session {
        let n = session.next;
        let last = session.streams[stream].len();
        lemma_zero_filled(n, 21);
        assert(after.streams[stream][last as int].sequence_number == sequence_number(n));
        assert forall|name: Seq<char>, i: int| after.holds(name, i) implies {
            ||| session.holds(name, i) && after.streams[name][i] == session.streams[name][i]
            ||| name == stream && i == last && after.number(name, i) == n
        } by {}
    }
}

/// The record at `number` on `stream`, as an origin says it.
#[must_use]
pub fn origin(stream: &str, number: &str) -> (uri: String)
    ensures
        uri@ == origin_uri(stream@, SHARD@, number@),
{
    origin_on(stream, SHARD, number)
}

/// The record at `number` of `shard` of `stream`, as an origin says it.
pub fn origin_on(stream: &str, shard: &str, number: &str) -> (uri: String)
    ensures
        uri@ == origin_uri(stream@, shard@, number@),
{
    let mut uri = "kinesis://".to_owned();
    uri.append(stream);
    uri.append("/");
    uri.append(shard);
    uri.append("/");
    uri.append(number);
    uri
}

/// The iterator that goes on at index `at` of `stream`.
pub fn iterator(stream: &str, at: usize) -> (iterator: String)
    ensures
        iterator@ == iterator_text(stream@, at as nat),
{
    let mut iterator = stream.to_owned();
    iterator.append("/");
    iterator.append(decimal_text(at as u64).as_str());
    iterator
}

fn refused(status: u16, kind: &str, message: &str) -> (told: (Event, Reply))
    ensures
        told.0@ == EventView::Refused(kind@),
        told.1@ == (ReplyView::Refused { status, kind: kind@, message: message@ }),
{
    (
        Event::Refused(kind.to_owned()),
        Reply::Refused { status, kind: kind.to_owned(), message: message.to_owned() },
    )
}

} // verus!
