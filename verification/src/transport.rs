//! A Location on one shard of one stream: it reads its shard on from where it
//! last stopped, and puts a Stream as one record.
//!
//! A shard is read, never consumed — Kinesis keeps records for its retention
//! period whoever has read them — so the transport keeps its own place, the
//! last sequence number it handed on, and asks for the records after it next
//! time. The origin URI is `kinesis://stream/shard/sequence`. A send target
//! is a stream name, or empty for this transport's own.
use crate::client::{
    items_of, iterator_document, next_of, kinesis_signer, put_document, records_document, records_of,
    Call, CallView, Client, ClientView, Position, PositionView, Record, RecordView, views,
    MAX_RECORDS,
};
use crate::document::{text_of, Json};
use crate::encoding::carried;
use crate::error::{Arrived, ArrivedView, ErrorView, TransportError};
use crate::session::{document_view, origin_on, origin_uri, Session, SessionView};
use crate::text::{decimal, decimal_text};
use crate::{ceiling, SHARD};
use serde_json::Value;
use std::time::Duration;
use vstd::prelude::*;

verus! {

/// Which ways a transport carries Streams.
#[derive(Clone, Copy, Debug, PartialEq, Eq)]
pub struct Directions {
    pub receives: bool,
    pub sends: bool,
}

/// A shard of a Kinesis data stream, as a Location sees it.
#[derive(Clone)]
pub struct KinesisTransport {
    endpoint: String,
    region: String,
    stream: String,
    shard: String,
    access_key: String,
    secret_key: String,
    partition_key: String,
    position: Option<String>,
    timeout: Option<Duration>,
}

pub struct TransportView {
    pub endpoint: Seq<char>,
    pub region: Seq<char>,
    pub stream: Seq<char>,
    pub shard: Seq<char>,
    pub access_key: Seq<char>,
    pub secret_key: Seq<char>,
    pub partition_key: Seq<char>,
    pub position: Option<Seq<char>>,
    pub timeout: Option<Duration>,
}

impl View for KinesisTransport {
    type V = TransportView;

    closed spec fn view(&self) -> TransportView {
        TransportView {
            endpoint: self.endpoint@,
            region: self.region@,
            stream: self.stream@,
            shard: self.shard@,
            access_key: self.access_key@,
            secret_key: self.secret_key@,
            partition_key: self.partition_key@,
            position: match self.position {
                Some(number) => Some(number@),
                None => None,
            },
            timeout: self.timeout,
        }
    }
}

/// Where a receive stands while a call is out: what it waits for.
pub enum Receiving {
    /// For an iterator, to read on with through this client.
    Iterator(Client),
    /// For a page of records, through this client; here are those of the
    /// pages before.
    Records(Client, Vec<Record>),
}

pub enum ReceivingView {
    Iterator(ClientView),
    Records(ClientView, Seq<RecordView>),
}

impl View for Receiving {
    type V = ReceivingView;

    open spec fn view(&self) -> ReceivingView {
        match self {
            Receiving::Iterator(client) => ReceivingView::Iterator(client@),
            Receiving::Records(client, records) => ReceivingView::Records(
                client@,
                views(records@),
            ),
        }
    }
}

/// What a receive does next: make a call and resume with its reply, or end.
pub enum Next {
    Ask(Receiving, Call),
    Done(Result<Vec<Arrived>, TransportError>),
}

pub enum NextView {
    Ask(ReceivingView, CallView),
    Done(Result<Seq<ArrivedView>, ErrorView>),
}

impl View for Next {
    type V = NextView;

    open spec fn view(&self) -> NextView {
        match self {
            Next::Ask(receiving, call) => NextView::Ask(receiving@, call@),
            Next::Done(Ok(arrived)) => NextView::Done(Ok(arrived_views(arrived@))),
            Next::Done(Err(failure)) => NextView::Done(Err(failure@)),
        }
    }
}

pub open spec fn arrived_views(arrived: Seq<Arrived>) -> Seq<ArrivedView> {
    Seq::new(arrived.len(), |i: int| arrived[i]@)
}

/// A receive that has taken `records` and asks for the page at `iterator`.
pub open spec fn reading(
    client: ClientView,
    records: Seq<RecordView>,
    iterator: Seq<char>,
) -> NextView {
    NextView::Ask(
        ReceivingView::Records(client, records),
        client.call("GetRecords"@, records_document(iterator, MAX_RECORDS as u64)),
    )
}

/// What the authority of an endpoint comes to, in characters.
pub open spec fn authority_view(authority: Result<String, TransportError>) -> Result<
    Seq<char>,
    ErrorView,
> {
    match authority {
        Ok(host) => Ok(host@),
        Err(failure) => Err(failure@),
    }
}

impl TransportView {
    /// The client this transport speaks through, its endpoint's authority
    /// being `host`.
    pub open spec fn client(self, host: Seq<char>) -> ClientView {
        ClientView {
            endpoint: self.endpoint,
            host,
            signer: kinesis_signer(self.region, self.access_key, self.secret_key),
            timeout: self.timeout,
        }
    }

    /// The stream that `target` names, this transport's own where it is empty.
    pub open spec fn resolve(self, target: Seq<char>) -> Seq<char> {
        if target.len() == 0 {
            self.stream
        } else {
            target
        }
    }

    /// Where the shard is read from next.
    pub open spec fn from(self) -> PositionView {
        match self.position {
            Some(number) => PositionView::After(number),
            None => PositionView::Oldest,
        }
    }

    /// What `record` is handed on as.
    pub open spec fn arrival(self, record: RecordView) -> ArrivedView {
        ArrivedView {
            origin_uri: origin_uri(self.stream, self.shard, record.sequence_number),
            bytes: record.data,
        }
    }

    pub open spec fn arrivals(self, records: Seq<RecordView>) -> Seq<ArrivedView> {
        Seq::new(records.len(), |i: int| self.arrival(records[i]))
    }

    /// This transport once it has handed `records` on.
    pub open spec fn past(self, records: Seq<RecordView>) -> TransportView {
        if records.len() == 0 {
            self
        } else {
            TransportView { position: Some(records.last().sequence_number), ..self }
        }
    }

    /// How a receive begins.
    pub open spec fn receive(self, authority: Result<Seq<char>, ErrorView>) -> NextView {
        match authority {
            Ok(host) => NextView::Ask(
                ReceivingView::Iterator(self.client(host)),
                self.client(host).call(
                    "GetShardIterator"@,
                    iterator_document(self.stream, self.shard, self.from()),
                ),
            ),
            Err(failure) => NextView::Done(Err(failure)),
        }
    }

    /// How a receive goes on, and how the transport stands then.
    pub open spec fn resume(
        self,
        receiving: ReceivingView,
        reply: Result<Json, ErrorView>,
    ) -> (TransportView, NextView) {
        match (receiving, reply) {
            (_, Err(failure)) => (self, NextView::Done(Err(failure))),
            (ReceivingView::Iterator(client), Ok(answer)) => (
                self,
                reading(client, Seq::empty(), text_of(answer, "ShardIterator"@)),
            ),
            (ReceivingView::Records(client, before), Ok(answer)) => match records_of(
                items_of(answer),
            ) {
                Ok(page) => if page.len() >= MAX_RECORDS && next_of(answer) is Some {
                    (self, reading(client, before + page, next_of(answer)->Some_0))
                } else {
                    (
                        self.past(before + page),
                        NextView::Done(Ok(self.arrivals(before + page))),
                    )
                },
                Err(failure) => (self, NextView::Done(Err(failure))),
            },
        }
    }

    /// Why a record of `len` bytes is not sent.
    pub open spec fn over_the_ceiling(len: nat) -> ErrorView {
        ErrorView::Permanent(
            decimal(len) + " bytes is over the "@ + decimal(1024 * 1024)
                + " one Kinesis record carries"@,
        )
    }

    /// What sending `bytes` to `target` comes to: the call to make, or why
    /// none is made.
    pub open spec fn send(
        self,
        authority: Result<Seq<char>, ErrorView>,
        target: Seq<char>,
        bytes: Seq<u8>,
    ) -> Result<CallView, ErrorView> {
        if bytes.len() > 1024 * 1024 {
            Err(TransportView::over_the_ceiling(bytes.len()))
        } else {
            match authority {
                Ok(host) => Ok(
                    self.client(host).call(
                        "PutRecord"@,
                        put_document(self.resolve(target), self.partition_key, bytes),
                    ),
                ),
                Err(failure) => Err(failure),
            }
        }
    }

    /// A near end at `address` with the credentials, stream, partition key
    /// and timeout of this one, on the first shard, from the beginning.
    pub open spec fn aimed_at(self, address: Seq<char>) -> TransportView {
        TransportView { endpoint: "http://"@ + address, shard: SHARD@, position: None, ..self }
    }
}

impl KinesisTransport {
    /// Speak to the Kinesis endpoint at `endpoint` — `https://kinesis.
    /// <region>.amazonaws.com` in the cloud, `http://host:port` for a
    /// stand-in — in `region`, about `stream`, on its first shard.
    #[must_use]
    pub fn new(endpoint: &str, region: &str, stream: &str) -> (transport: KinesisTransport)
        ensures
            transport@ == (TransportView {
                endpoint: endpoint@,
                region: region@,
                stream: stream@,
                shard: SHARD@,
                access_key: Seq::empty(),
                secret_key: Seq::empty(),
                partition_key: "xmip"@,
                position: None,
                timeout: None,
            }),
    {
        KinesisTransport {
            endpoint: endpoint.to_owned(),
            region: region.to_owned(),
            stream: stream.to_owned(),
            shard: SHARD.to_owned(),
            access_key: String::new(),
            secret_key: String::new(),
            partition_key: "xmip".to_owned(),
            position: None,
            timeout: None,
        }
    }

    /// Sign as this access key.
    #[must_use]
    pub fn with_credentials(self, access_key: &str, secret_key: &str) -> (transport:
        KinesisTransport)
        ensures
            transport@ == (TransportView {
                access_key: access_key@,
                secret_key: secret_key@,
                ..self@
            }),
    {
        KinesisTransport {
            access_key: access_key.to_owned(),
            secret_key: secret_key.to_owned(),
            ..self
        }
    }

    /// Read this shard rather than the first.
    #[must_use]
    pub fn on_shard(self, shard: &str) -> (transport: KinesisTransport)
        ensures
            transport@ == (TransportView { shard: shard@, ..self@ }),
    {
        KinesisTransport { shard: shard.to_owned(), ..self }
    }

    /// Put records under this partition key — what decides their shard.
    #[must_use]
    pub fn keyed_by(self, partition_key: &str) -> (transport: KinesisTransport)
        ensures
            transport@ == (TransportView { partition_key: partition_key@, ..self@ }),
    {
        KinesisTransport { partition_key: partition_key.to_owned(), ..self }
    }

    /// Give up on an endpoint that stops answering after `timeout`.
    #[must_use]
    pub fn timing_out_after(self, timeout: Duration) -> (transport: KinesisTransport)
        ensures
            transport@ == (TransportView { timeout: Some(timeout), ..self@ }),
    {
        KinesisTransport { timeout: Some(timeout), ..self }
    }

    /// The client this transport speaks through; `authority` is the host and
    /// port of its endpoint, or why it has none.
    ///
    /// # Errors
    /// Where the endpoint is not an HTTP URL.
    pub fn client(&self, authority: Result<String, TransportError>) -> (client: Result<
        Client,
        TransportError,
    >)
        ensures
            match authority {
                Ok(host) => client matches Ok(found) && found@ == self@.client(host@),
                Err(failure) => client matches Err(failed) && failed == failure,
            },
    {
        match Client::new(
            self.endpoint.as_str(),
            authority,
            self.region.as_str(),
            self.access_key.as_str(),
            self.secret_key.as_str(),
        ) {
            Ok(client) => match self.timeout {
                Some(timeout) => Ok(client.timing_out_after(timeout)),
                None => Ok(client),
            },
            Err(failure) => Err(failure),
        }
    }

    /// A far end that holds this transport's credentials and its stream,
    /// for a test or the playground to run on loopback.
    #[must_use]
    pub fn session(&self) -> (session: Session)
        ensures
            session.wf(),
            session@.faithful(),
            session@ == (SessionView {
                signer: kinesis_signer(self@.region, self@.access_key, self@.secret_key),
                streams: map![self@.stream => Seq::empty()],
                next: 1,
                timeout: self@.timeout,
            }),
    {
        let session = Session::new(
            self.region.as_str(),
            self.access_key.as_str(),
            self.secret_key.as_str(),
        ).with_stream(self.stream.as_str());
        match self.timeout {
            Some(timeout) => session.timing_out_after(timeout),
            None => session,
        }
    }

    /// The sequence number this transport last handed on, where it has.
    pub fn position(&self) -> (position: Option<String>)
        ensures
            match position {
                Some(number) => self@.position == Some(number@),
                None => self@.position is None,
            },
    {
        match &self.position {
            Some(number) => Some(number.clone()),
            None => None,
        }
    }

    /// The endpoint this transport speaks to.
    pub fn endpoint(&self) -> (endpoint: &str)
        ensures
            endpoint@ == self@.endpoint,
    {
        self.endpoint.as_str()
    }

    /// The stream a target names, or this transport's own where it names
    /// none.
    pub fn resolve<'a>(&'a self, target: &'a str) -> (stream: &'a str)
        ensures
            stream@ == self@.resolve(target@),
    {
        if target.is_empty() {
            self.stream.as_str()
        } else {
            target
        }
    }

    /// What this technology is called.
    pub fn name(&self) -> (name: &'static str)
        ensures
            name@ == "aws-kinesis"@,
    {
        "aws-kinesis"
    }

    /// A stream is both read and put to.
    pub fn directions(&self) -> (directions: Directions)
        ensures
            directions.receives && directions.sends,
    {
        Directions { receives: true, sends: true }
    }

    /// Begin to receive: every record after the last one handed on, the
    /// oldest held where none has been.
    pub fn receive(&self, authority: Result<String, TransportError>) -> (next: Next)
        ensures
            next@ == self@.receive(authority_view(authority)),
    {
        let client = match self.client(authority) {
            Ok(client) => client,
            Err(failure) => {
                return Next::Done(Err(failure));
            },
        };
        let from = match &self.position {
            Some(number) => Position::After(number.as_str()),
            None => Position::Oldest,
        };
        let call = client.shard_iterator(self.stream.as_str(), self.shard.as_str(), from);
        Next::Ask(Receiving::Iterator(client), call)
    }

    /// Go on receiving with the reply to the call that was asked for. Behind
    /// a full page the next is asked for, with the iterator the answer hands
    /// back. Once the last page is there all the records are handed on, and
    /// the place moves behind the last of them; a failure leaves it where it
    /// was, and hands on nothing.
    pub fn resume(&mut self, receiving: Receiving, reply: Result<Value, TransportError>) -> (next:
        Next)
        ensures
            (final(self)@, next@) == old(self)@.resume(receiving@, document_view(reply)),
    {
        match receiving {
            Receiving::Iterator(client) => match Client::shard_iterator_reply(reply) {
                Ok(iterator) => {
                    let call = client.get_records(iterator.as_str(), MAX_RECORDS);
                    let records: Vec<Record> = Vec::new();
                    assert(views(records@) =~= Seq::empty());
                    Next::Ask(Receiving::Records(client, records), call)
                },
                Err(failure) => Next::Done(Err(failure)),
            },
            Receiving::Records(client, before) => match Client::get_records_reply(reply) {
                Ok((page, next)) => {
                    let mut page = page;
                    let mut records = before;
                    let full: bool = page.len() >= MAX_RECORDS as usize;
                    assert(views(before@ + page@) =~= views(before@) + views(page@));
                    records.append(&mut page);
                    match next {
                        Some(iterator) if full => {
                            let call = client.get_records(iterator.as_str(), MAX_RECORDS);
                            Next::Ask(Receiving::Records(client, records), call)
                        },
                        _ => Next::Done(Ok(self.hand_on(records))),
                    }
                },
                Err(failure) => Next::Done(Err(failure)),
            },
        }
    }

    /// Hand `records` on, and remember the last of them.
    fn hand_on(&mut self, records: Vec<Record>) -> (arrived: Vec<Arrived>)
        ensures
            final(self)@ == old(self)@.past(views(records@)),
            arrived_views(arrived@) == old(self)@.arrivals(views(records@)),
    {
        let mut arrived: Vec<Arrived> = Vec::with_capacity(records.len());
        assert(arrived_views(arrived@) =~= old(self)@.arrivals(views(records@).take(0)));
        for record in it: records
            invariant
                it.seq() == records@,
                self@ == old(self)@.past(views(records@).take(it.index() as int)),
                arrived_views(arrived@) == old(self)@.arrivals(
                    views(records@).take(it.index() as int),
                ),
        {
            let ghost i = it.index() as int;
            let ghost before = arrived@;
            let uri = origin_on(
                self.stream.as_str(),
                self.shard.as_str(),
                record.sequence_number.as_str(),
            );
            self.position = Some(record.sequence_number.clone());
            arrived.push(Arrived::new(uri, record.data));
            proof {
                let taken = views(records@).take(i + 1);
                assert(taken =~= views(records@).take(i).push(record@));
                assert(arrived_views(arrived@) =~= arrived_views(before).push(
                    old(self)@.arrival(record@),
                ));
                assert(arrived_views(arrived@) =~= old(self)@.arrivals(taken));
            }
        }
        assert(views(records@).take(records@.len() as int) =~= views(records@));
        arrived
    }

    /// Send `bytes` to `target` as one record: the call that puts it. What
    /// it carries decodes to the same bytes.
    ///
    /// # Errors
    /// Where the bytes are more than one record carries, or the endpoint is
    /// not an HTTP URL.
    pub fn send(
        &self,
        authority: Result<String, TransportError>,
        target: &str,
        bytes: &[u8],
    ) -> (call: Result<Call, TransportError>)
        ensures
            match self@.send(authority_view(authority), target@, bytes@) {
                Ok(sent) => call matches Ok(call) && call@ == sent && carried(bytes@),
                Err(failure) => call matches Err(failed) && failed@ == failure,
            },
    {
        if bytes.len() > ceiling() {
            let mut message = decimal_text(bytes.len() as u64);
            message.append(" bytes is over the ");
            message.append(decimal_text(ceiling() as u64).as_str());
            message.append(" one Kinesis record carries");
            return Err(TransportError::Permanent(message));
        }
        match self.client(authority) {
            Ok(client) => Ok(
                client.put_record(self.resolve(target), self.partition_key.as_str(), bytes),
            ),
            Err(failure) => Err(failure),
        }
    }

    /// Whether a record was sent, by the reply to the call that puts it.
    ///
    /// # Errors
    /// Where the endpoint refused or could not be reached.
    pub fn sent(reply: Result<Value, TransportError>) -> (sent: Result<(), TransportError>)
        ensures
            match reply {
                Ok(_) => sent is Ok,
                Err(failure) => sent matches Err(failed) && failed == failure,
            },
    {
        match Client::put_record_reply(reply) {
            Ok(_) => Ok(()),
            Err(failure) => Err(failure),
        }
    }

    /// Both ends on this machine: the session stands in for Kinesis on an
    /// ephemeral local port, one stream and one credential, `timeout` on both
    /// sides.
    #[must_use]
    pub fn loopback(timeout: Duration) -> (transport: KinesisTransport)
        ensures
            transport@ == (TransportView {
                endpoint: "http://127.0.0.1:0"@,
                region: "eu-north-1"@,
                stream: "orders"@,
                shard: SHARD@,
                access_key: "AKID"@,
                secret_key: "secret"@,
                partition_key: "loopback"@,
                position: None,
                timeout: Some(timeout),
            }),
    {
        KinesisTransport::new("http://127.0.0.1:0", "eu-north-1", "orders").with_credentials(
            "AKID",
            "secret",
        ).keyed_by("loopback").timing_out_after(timeout)
    }

    /// A fresh near end aimed at the session at `address`, with this
    /// transport's credentials, stream and partition key.
    #[must_use]
    pub fn aimed_at(&self, address: &str) -> (near: KinesisTransport)
        ensures
            near@ == self@.aimed_at(address@),
    {
        let mut endpoint = "http://".to_owned();
        endpoint.append(address);
        let near = KinesisTransport::new(
            endpoint.as_str(),
            self.region.as_str(),
            self.stream.as_str(),
        ).with_credentials(self.access_key.as_str(), self.secret_key.as_str()).keyed_by(
            self.partition_key.as_str(),
        );
        match self.timeout {
            Some(timeout) => near.timing_out_after(timeout),
            None => near,
        }
    }

    /// The most one record carries.
    pub fn ceiling(&self) -> (ceiling: Option<usize>)
        ensures
            ceiling == Some(1_048_576usize),
    {
        Some(ceiling())
    }
}

} // verus!
