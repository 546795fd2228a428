//! What a session answers, refuses and keeps, member by member.
use crate::client::{RecordView, Signer};
use crate::document::{json, text_of, Json};
use crate::encoding::{base64_bytes, base64_text};
use crate::error::{Arrived, TransportError};
use crate::laws::calls::{lemma_reads, reads, says};
use crate::laws::lemma_words;
use crate::session::{
    first_at, held_views, item, item_of, items_for, lemma_held_fits, limit_of, sequence_number,
    start_of, window, Event, EventView, Held, Reply, ReplyView, Session,
};
use crate::text::{
    decimal, decimal_text, lemma_index_round_trip, lemma_split_last_of_join, parse_index,
    parsed_index, split_last, zero_filled_text,
};
use serde_json::Value;
use std::time::Duration;
use vstd::prelude::*;

verus! {

/// The request was refused with this status, kind and message, and was told
/// of as refused for that kind.
pub open spec fn refuses(
    told: (Event, Reply),
    status: u16,
    kind: Seq<char>,
    message: Seq<char>,
) -> bool {
    &&& told.0 matches Event::Refused(why) && why@ == kind
    &&& told.1 matches Reply::Refused { status: found, kind: named, message: said } && found
        == status && named@ == kind && said@ == message
}

proof fn lemma_refused(told: (Event, Reply), status: u16, kind: Seq<char>, message: Seq<char>)
    requires
        told.0@ == EventView::Refused(kind),
        told.1@ == (ReplyView::Refused { status, kind, message }),
    ensures
        refuses(told, status, kind, message),
{
    assert(told.0@ is Refused);
    assert(told.1@ is Refused);
    assert(told.0 is Refused);
    assert(told.1 is Refused);
}

/// The text that goes with a failure.
pub open spec fn said_of(failure: TransportError) -> Seq<char> {
    match failure {
        TransportError::Permanent(said) => said@,
        TransportError::Protocol(said) => said@,
        TransportError::Reported { message, .. } => message@,
    }
}

/// What does not verify is refused with what was wrong, whatever it asks,
/// and changes nothing.
pub proof fn law_what_does_not_verify_is_refused(
    session: &mut Session,
    failure: TransportError,
    document: Result<Value, TransportError>,
    action: Option<&str>,
    told: (Event, Reply),
)
    requires
        call_ensures(
            Session::answer,
            (session, Err::<(), TransportError>(failure), document, action),
            told,
        ),
    ensures
        refuses(told, 403, "InvalidSignatureException"@, said_of(failure)),
        final(session)@ == old(session)@,
{
    lemma_refused(told, 403, "InvalidSignatureException"@, said_of(failure));
}

/// What verifies and is no document is refused with what was wrong, whatever
/// it asks, and changes nothing.
pub proof fn law_what_is_no_document_is_refused(
    session: &mut Session,
    failure: TransportError,
    action: Option<&str>,
    told: (Event, Reply),
)
    requires
        call_ensures(
            Session::answer,
            (
                session,
                Ok::<(), TransportError>(()),
                Err::<Value, TransportError>(failure),
                action,
            ),
            told,
        ),
    ensures
        refuses(told, 400, "SerializationException"@, said_of(failure)),
        final(session)@ == old(session)@,
{
    lemma_refused(told, 400, "SerializationException"@, said_of(failure));
}

/// Any action but the three, and none at all, is refused and changes
/// nothing.
pub proof fn law_only_three_calls_are_answered(
    session: &mut Session,
    document: Value,
    action: Option<&str>,
    told: (Event, Reply),
)
    requires
        action matches Some(named) ==> named@ != "PutRecord"@ && named@ != "GetShardIterator"@
            && named@ != "GetRecords"@,
        call_ensures(
            Session::answer,
            (
                session,
                Ok::<(), TransportError>(()),
                Ok::<Value, TransportError>(document),
                action,
            ),
            told,
        ),
    ensures
        refuses(told, 400, "UnknownOperationException"@, "not one of the three calls"@),
        final(session)@ == old(session)@,
{
    lemma_refused(told, 400, "UnknownOperationException"@, "not one of the three calls"@);
}

/// A request is answered as the call that it names answers, at the session
/// as it stands; only a put changes it.
pub proof fn law_a_call_is_answered_by_its_name(
    session: &mut Session,
    twin: &mut Session,
    document: Value,
    action: &str,
    told: (Event, Reply),
    put: (Event, Reply),
    before: Session,
    iterated: (Event, Reply),
    read: (Event, Reply),
)
    requires
        old(twin)@ == old(session)@,
        before@ == old(session)@,
        call_ensures(
            Session::answer,
            (
                session,
                Ok::<(), TransportError>(()),
                Ok::<Value, TransportError>(document),
                Some(action),
            ),
            told,
        ),
        call_ensures(Session::put, (twin, &document), put),
        call_ensures(Session::iterate, (&before, &document), iterated),
        call_ensures(Session::read, (&before, &document), read),
    ensures
        action@ == "PutRecord"@ ==> told.0@ == put.0@ && told.1@ == put.1@ && final(session)@
            == final(twin)@,
        action@ == "GetShardIterator"@ ==> told.0@ == iterated.0@ && told.1@ == iterated.1@
            && final(session)@ == old(session)@,
        action@ == "GetRecords"@ ==> told.0@ == read.0@ && told.1@ == read.1@ && final(session)@
            == old(session)@,
{
    lemma_words();
}

/// A session that has numbers left answers a try as it answers.
pub proof fn law_a_try_is_answered_alike(
    session: &mut Session,
    twin: &mut Session,
    verified: Result<(), TransportError>,
    document: Result<Value, TransportError>,
    action: Option<&str>,
    tried: Option<(Event, Reply)>,
    told: (Event, Reply),
)
    requires
        old(twin)@ == old(session)@,
        call_ensures(Session::try_answer, (session, verified, document, action), tried),
        call_ensures(Session::answer, (twin, verified, document, action), told),
    ensures
        old(session)@.next < u64::MAX || !(told.0 is Put) ==> (tried matches Some((event, reply))
            && event@ == told.0@ && reply@ == told.1@ && final(session)@ == final(twin)@),
        old(session)@.next == u64::MAX && told.0 is Put ==> tried is None && final(session)@
            == old(session)@,
{
    assert(told.0@ is Put <==> told.0 is Put);
}

/// What a put does at a session that holds its stream, once its data is
/// there: one record more, last on that stream, with the session's next
/// number, filled up to 21 digits, the key and the bytes. Nothing else
/// changes but that the next number is one higher. The answer names the shard
/// and the number, and the record arrived from there.
pub open spec fn put_is_kept(
    before: Session,
    after: Session,
    stream: Seq<char>,
    key: Seq<char>,
    bytes: Seq<u8>,
    number: Seq<char>,
    told: (Event, Reply),
) -> bool {
    &&& after@.streams.dom() == before@.streams.dom()
    &&& forall|other: Seq<char>|
        #[trigger] before@.streams.contains_key(other) && other != stream
            ==> after@.streams[other] == before@.streams[other]
    &&& after@.streams[stream].len() == before@.streams[stream].len() + 1
    &&& after@.streams[stream].drop_last() == before@.streams[stream]
    &&& after@.streams[stream].last().sequence_number == number
    &&& after@.streams[stream].last().partition_key == key
    &&& after@.streams[stream].last().data == bytes
    &&& after@.next == before@.next + 1
    &&& after@.signer == before@.signer
    &&& after@.timeout == before@.timeout
    &&& told.0 matches Event::Put(arrived) && arrived.bytes@ == bytes && arrived.origin_uri@
        == "kinesis://"@ + stream + "/"@ + "shardId-000000000000"@ + "/"@ + number
    &&& told.1 matches Reply::Answered(answer) && says(
        json(answer),
        "ShardId"@,
        "shardId-000000000000"@,
    ) && says(json(answer), "SequenceNumber"@, number) && json(answer)->Object_0.dom() == set![
        "ShardId"@,
        "SequenceNumber"@,
    ]
}

/// A put to a stream that the session holds is kept, with the bytes that its
/// data decodes to.
pub proof fn law_a_put_is_kept(
    session: &mut Session,
    document: &Value,
    stream: Seq<char>,
    key: Seq<char>,
    data: Seq<char>,
    bytes: Seq<u8>,
    next: u64,
    number: String,
    told: (Event, Reply),
)
    requires
        reads(json(*document), "StreamName"@, stream),
        reads(json(*document), "PartitionKey"@, key),
        reads(json(*document), "Data"@, data),
        base64_bytes(data) == Ok::<Seq<u8>, Seq<char>>(bytes),
        old(session)@.streams.contains_key(stream),
        next == old(session)@.next,
        call_ensures(zero_filled_text, (next, 21usize), number),
        call_ensures(Session::put, (session, document), told),
    ensures
        put_is_kept(
            *old(session),
            *final(session),
            stream,
            key,
            bytes,
            number@,
            told,
        ),
{
    lemma_words();
    lemma_reads(json(*document), "StreamName"@, stream);
    lemma_reads(json(*document), "PartitionKey"@, key);
    lemma_reads(json(*document), "Data"@, data);
    lemma_kept(*old(session), *final(session), json(*document), bytes, told);
    assert(number@ == sequence_number(next as nat));
}

proof fn lemma_kept(
    before: Session,
    after: Session,
    document: Json,
    bytes: Seq<u8>,
    told: (Event, Reply),
)
    requires
        before@.streams.contains_key(text_of(document, "StreamName"@)),
        after@ == before@.put_decoded(document, Ok(bytes)).session,
        told.0@ == before@.put_decoded(document, Ok(bytes)).event,
        told.1@ == before@.put_decoded(document, Ok(bytes)).reply,
    ensures
        put_is_kept(
            before,
            after,
            text_of(document, "StreamName"@),
            text_of(document, "PartitionKey"@),
            bytes,
            sequence_number(before@.next),
            told,
        ),
{
    lemma_words();
    let stream = text_of(document, "StreamName"@);
    assert(told.0@ is Put);
    assert(told.0 is Put);
    assert(told.1@ is Answered);
    assert(told.1 is Answered);
    let answer = told.1->Answered_0;
    assert(json(answer) == told.1@->Answered_0);
    assert(json(answer)->Object_0.dom() =~= set!["ShardId"@, "SequenceNumber"@]);
    assert(after@.streams.dom() =~= before@.streams.dom());
    assert(after@.streams[stream].drop_last() =~= before@.streams[stream]);
}

/// A put whose data is given is kept with that data.
pub proof fn law_a_decoded_put_is_kept(
    session: &mut Session,
    document: &Value,
    stream: Seq<char>,
    key: Seq<char>,
    bytes: Vec<u8>,
    next: u64,
    number: String,
    told: (Event, Reply),
)
    requires
        reads(json(*document), "StreamName"@, stream),
        reads(json(*document), "PartitionKey"@, key),
        old(session)@.streams.contains_key(stream),
        next == old(session)@.next,
        call_ensures(zero_filled_text, (next, 21usize), number),
        call_ensures(
            Session::put_decoded,
            (session, document, Ok::<Vec<u8>, String>(bytes)),
            told,
        ),
    ensures
        put_is_kept(
            *old(session),
            *final(session),
            stream,
            key,
            bytes@,
            number@,
            told,
        ),
{
    lemma_words();
    lemma_reads(json(*document), "StreamName"@, stream);
    lemma_reads(json(*document), "PartitionKey"@, key);
    lemma_kept(*old(session), *final(session), json(*document), bytes@, told);
    assert(number@ == sequence_number(next as nat));
}

/// A put whose data is not base64 is refused for that, whatever its stream;
/// one to a stream that the session does not hold is refused for that.
/// Neither changes anything.
pub proof fn law_a_put_that_is_refused(
    session: &mut Session,
    document: &Value,
    stream: Seq<char>,
    data: Seq<char>,
    told: (Event, Reply),
)
    requires
        reads(json(*document), "StreamName"@, stream),
        reads(json(*document), "Data"@, data),
        base64_bytes(data) is Err || !old(session)@.streams.contains_key(stream),
        call_ensures(Session::put, (session, document), told),
    ensures
        base64_bytes(data) is Err ==> refuses(
            told,
            400,
            "SerializationException"@,
            "Data that is not base64"@,
        ),
        base64_bytes(data) is Ok ==> refuses(
            told,
            400,
            "ResourceNotFoundException"@,
            "no such stream"@,
        ),
        final(session)@ == old(session)@,
{
    lemma_reads(json(*document), "StreamName"@, stream);
    lemma_reads(json(*document), "Data"@, data);
    if base64_bytes(data) is Err {
        lemma_refused(told, 400, "SerializationException"@, "Data that is not base64"@);
    } else {
        lemma_refused(told, 400, "ResourceNotFoundException"@, "no such stream"@);
    }
}

/// The same holds where the data, or that there is none, is given.
pub proof fn law_a_decoded_put_that_is_refused(
    session: &mut Session,
    document: &Value,
    stream: Seq<char>,
    data: Result<Vec<u8>, String>,
    told: (Event, Reply),
)
    requires
        reads(json(*document), "StreamName"@, stream),
        data is Err || !old(session)@.streams.contains_key(stream),
        call_ensures(Session::put_decoded, (session, document, data), told),
    ensures
        data is Err ==> refuses(
            told,
            400,
            "SerializationException"@,
            "Data that is not base64"@,
        ),
        data is Ok ==> refuses(told, 400, "ResourceNotFoundException"@, "no such stream"@),
        final(session)@ == old(session)@,
{
    lemma_reads(json(*document), "StreamName"@, stream);
    if data is Err {
        lemma_refused(told, 400, "SerializationException"@, "Data that is not base64"@);
    } else {
        lemma_refused(told, 400, "ResourceNotFoundException"@, "no such stream"@);
    }
}

/// The session was asked for an iterator over this stream and shard, of this
/// kind, behind this number.
pub open spec fn asks_iterator(
    document: Json,
    stream: Seq<char>,
    shard: Seq<char>,
    kind: Seq<char>,
    after: Seq<char>,
) -> bool {
    &&& reads(document, "StreamName"@, stream)
    &&& reads(document, "ShardId"@, shard)
    &&& reads(document, "ShardIteratorType"@, kind)
    &&& reads(document, "StartingSequenceNumber"@, after)
}

/// The session handed out the iterator `stream/index`, and nothing else.
pub open spec fn hands_out(
    told: (Event, Reply),
    stream: Seq<char>,
    kind: Seq<char>,
    index: Seq<char>,
) -> bool {
    &&& told.0 matches Event::Iterated { stream: over, kind: of } && over@ == stream && of@ == kind
    &&& told.1 matches Reply::Answered(answer) && says(
        json(answer),
        "ShardIterator"@,
        stream + seq!['/'] + index,
    ) && json(answer)->Object_0.dom() == set!["ShardIterator"@]
}

proof fn lemma_asks(
    document: Json,
    stream: Seq<char>,
    shard: Seq<char>,
    kind: Seq<char>,
    after: Seq<char>,
)
    requires
        asks_iterator(document, stream, shard, kind, after),
    ensures
        text_of(document, "StreamName"@) == stream,
        text_of(document, "ShardId"@) == shard,
        text_of(document, "ShardIteratorType"@) == kind,
        text_of(document, "StartingSequenceNumber"@) == after,
{
    lemma_reads(document, "StreamName"@, stream);
    lemma_reads(document, "ShardId"@, shard);
    lemma_reads(document, "ShardIteratorType"@, kind);
    lemma_reads(document, "StartingSequenceNumber"@, after);
}

proof fn lemma_handed_out(session: Session, document: Json, at: nat, told: (Event, Reply))
    requires
        told.0@ == session@.iterate(document).event,
        told.1@ == session@.iterate(document).reply,
        session@.streams.contains_key(text_of(document, "StreamName"@)),
        text_of(document, "ShardId"@) == "shardId-000000000000"@,
        start_of(
            session@.streams[text_of(document, "StreamName"@)],
            text_of(document, "ShardIteratorType"@),
            text_of(document, "StartingSequenceNumber"@),
        ) == Ok::<nat, Seq<char>>(at),
    ensures
        hands_out(
            told,
            text_of(document, "StreamName"@),
            text_of(document, "ShardIteratorType"@),
            decimal(at),
        ),
{
    lemma_words();
    assert(told.0@ is Iterated);
    assert(told.0 is Iterated);
    assert(told.1@ is Answered);
    assert(told.1 is Answered);
    let answer = told.1->Answered_0;
    assert(json(answer) == told.1@->Answered_0);
    assert(json(answer)->Object_0.dom() =~= set!["ShardIterator"@]);
}

/// From the beginning, an iterator begins at index zero.
pub proof fn law_the_oldest_begins_at_zero(
    session: Session,
    document: &Value,
    stream: Seq<char>,
    after: Seq<char>,
    index: String,
    told: (Event, Reply),
)
    requires
        asks_iterator(
            json(*document),
            stream,
            "shardId-000000000000"@,
            "TRIM_HORIZON"@,
            after,
        ),
        session@.streams.contains_key(stream),
        call_ensures(decimal_text, (0u64,), index),
        call_ensures(Session::iterate, (&session, document), told),
    ensures
        hands_out(told, stream, "TRIM_HORIZON"@, index@),
{
    lemma_asks(json(*document), stream, "shardId-000000000000"@, "TRIM_HORIZON"@, after);
    lemma_handed_out(session, json(*document), 0, told);
}

/// From now on, an iterator begins at the number of records that the stream
/// holds.
pub proof fn law_the_latest_begins_at_the_end(
    session: Session,
    document: &Value,
    stream: Seq<char>,
    after: Seq<char>,
    held: u64,
    index: String,
    told: (Event, Reply),
)
    requires
        asks_iterator(json(*document), stream, "shardId-000000000000"@, "LATEST"@, after),
        session@.streams.contains_key(stream),
        held == session@.streams[stream].len(),
        call_ensures(decimal_text, (held,), index),
        call_ensures(Session::iterate, (&session, document), told),
    ensures
        hands_out(told, stream, "LATEST"@, index@),
{
    lemma_words();
    lemma_asks(json(*document), stream, "shardId-000000000000"@, "LATEST"@, after);
    lemma_handed_out(session, json(*document), held as nat, told);
}

/// Behind a number that the stream holds, an iterator begins at the place
/// after the first record with that number.
pub proof fn law_after_begins_at_the_next_place(
    session: Session,
    document: &Value,
    stream: Seq<char>,
    after: Seq<char>,
    i: int,
    place: u64,
    index: String,
    told: (Event, Reply),
)
    requires
        asks_iterator(
            json(*document),
            stream,
            "shardId-000000000000"@,
            "AFTER_SEQUENCE_NUMBER"@,
            after,
        ),
        session@.streams.contains_key(stream),
        0 <= i < session@.streams[stream].len(),
        session@.streams[stream][i].sequence_number == after,
        forall|j: int|
            0 <= j < i ==> (#[trigger] session@.streams[stream][j]).sequence_number != after,
        place == i + 1,
        call_ensures(decimal_text, (place,), index),
        call_ensures(Session::iterate, (&session, document), told),
    ensures
        hands_out(told, stream, "AFTER_SEQUENCE_NUMBER"@, index@),
{
    lemma_words();
    lemma_asks(
        json(*document),
        stream,
        "shardId-000000000000"@,
        "AFTER_SEQUENCE_NUMBER"@,
        after,
    );
    let held = session@.streams[stream];
    assert(first_at(held, after, i));
    let found = choose|k: int| first_at(held, after, k);
    assert(first_at(held, after, found));
    assert(found == i) by {
        if found < i {
            assert(held[found].sequence_number != after);
        } else if i < found {
            assert(held[i].sequence_number != after);
        }
    }
    lemma_handed_out(session, json(*document), place as nat, told);
}

/// No iterator is handed out over a stream that the session does not hold,
/// on another shard than the first, behind a number that the stream does not
/// hold, or of another kind than the three, in that order.
pub proof fn law_an_iterator_that_is_refused(
    session: Session,
    document: &Value,
    stream: Seq<char>,
    shard: Seq<char>,
    kind: Seq<char>,
    after: Seq<char>,
    told: (Event, Reply),
)
    requires
        asks_iterator(json(*document), stream, shard, kind, after),
        call_ensures(Session::iterate, (&session, document), told),
    ensures
        !session@.streams.contains_key(stream) ==> refuses(
            told,
            400,
            "ResourceNotFoundException"@,
            "no such stream"@,
        ),
        session@.streams.contains_key(stream) && shard != "shardId-000000000000"@ ==> refuses(
            told,
            400,
            "ResourceNotFoundException"@,
            "no such shard"@,
        ),
        session@.streams.contains_key(stream) && shard == "shardId-000000000000"@ && kind
            == "AFTER_SEQUENCE_NUMBER"@ && (forall|i: int|
            0 <= i < session@.streams[stream].len() ==> (
            #[trigger] session@.streams[stream][i]).sequence_number != after) ==> refuses(
            told,
            400,
            "InvalidArgumentException"@,
            "no such sequence"@,
        ),
        session@.streams.contains_key(stream) && shard == "shardId-000000000000"@ && kind
            != "AFTER_SEQUENCE_NUMBER"@ && kind != "TRIM_HORIZON"@ && kind != "LATEST"@ ==> refuses(
            told,
            400,
            "InvalidArgumentException"@,
            "an iterator type not served"@,
        ),
{
    lemma_words();
    lemma_asks(json(*document), stream, shard, kind, after);
    if !session@.streams.contains_key(stream) {
        lemma_refused(told, 400, "ResourceNotFoundException"@, "no such stream"@);
    } else if shard != "shardId-000000000000"@ {
        lemma_refused(told, 400, "ResourceNotFoundException"@, "no such shard"@);
    } else if kind == "AFTER_SEQUENCE_NUMBER"@ {
        if forall|i: int|
            0 <= i < session@.streams[stream].len() ==> (
            #[trigger] session@.streams[stream][i]).sequence_number != after {
            assert forall|i: int| !first_at(session@.streams[stream], after, i) by {
                if 0 <= i < session@.streams[stream].len() {
                    assert(session@.streams[stream][i].sequence_number != after);
                }
            }
            lemma_refused(told, 400, "InvalidArgumentException"@, "no such sequence"@);
        }
    } else if kind != "TRIM_HORIZON"@ && kind != "LATEST"@ {
        lemma_refused(told, 400, "InvalidArgumentException"@, "an iterator type not served"@);
    }
}

/// `item` shows the number, the key and the base64 of the bytes of `record`,
/// and nothing else.
pub open spec fn shows(item: Json, record: RecordView) -> bool {
    &&& says(item, "SequenceNumber"@, record.sequence_number)
    &&& says(item, "PartitionKey"@, record.partition_key)
    &&& says(item, "Data"@, base64_text(record.data))
    &&& item->Object_0.dom() == set!["SequenceNumber"@, "PartitionKey"@, "Data"@]
}

/// The session listed these records, in this order and no others, and
/// `stream/index` as the iterator to go on with.
pub open spec fn lists(
    told: (Event, Reply),
    stream: Seq<char>,
    records: Seq<RecordView>,
    index: Seq<char>,
) -> bool {
    &&& told.0 matches Event::Read { stream: over, count } && over@ == stream && count
        == records.len()
    &&& told.1 matches Reply::Answered(answer) && {
        &&& json(answer) matches Json::Object(members) && {
            &&& members.dom() == set!["Records"@, "NextShardIterator"@, "MillisBehindLatest"@]
            &&& members["NextShardIterator"@] == Json::Text(stream + seq!['/'] + index)
            &&& members["MillisBehindLatest"@] == Json::Unsigned(0)
            &&& members["Records"@] matches Json::List(items) && {
                &&& items.len() == records.len()
                &&& forall|i: int|
                    0 <= i < items.len() ==> shows(#[trigger] items[i], records[i])
            }
        }
    }
}

/// The session was asked for the records at the iterator `stream/index`.
pub open spec fn asks_records(document: Json, stream: Seq<char>, index: Seq<char>) -> bool {
    &&& reads(document, "ShardIterator"@, stream + seq!['/'] + index)
    &&& !index.contains('/')
}

/// `document` says to list no more than `limit` records.
pub open spec fn limited(document: Json, limit: u64) -> bool {
    document matches Json::Object(members) && members.contains_key("Limit"@) && members["Limit"@]
        == Json::Unsigned(limit)
}

proof fn lemma_asked_at(document: Json, stream: Seq<char>, index: Seq<char>)
    requires
        asks_records(document, stream, index),
    ensures
        split_last(text_of(document, "ShardIterator"@)) == Some((stream, index)),
{
    lemma_reads(document, "ShardIterator"@, stream + seq!['/'] + index);
    lemma_split_last_of_join(stream, index);
    assert(stream.push('/') + index =~= stream + seq!['/'] + index);
}

proof fn lemma_limit(document: Json, limit: u64)
    ensures
        limited(document, limit) ==> limit_of(document) == Some(limit),
        (forall|n: u64| !limited(document, n)) ==> limit_of(document) is None,
{
    if limit_of(document) is Some {
        assert(limited(document, limit_of(document)->Some_0));
    }
}

proof fn lemma_listed(
    session: Session,
    document: Json,
    stream: Seq<char>,
    index: Seq<char>,
    at: usize,
    records: Seq<RecordView>,
    told: (Event, Reply),
)
    requires
        asks_records(document, stream, index),
        parsed_index(index) == Some(at),
        session@.streams.contains_key(stream),
        window(session@.streams[stream], at as nat, limit_of(document)) == records,
        told.0@ == session@.read(document).event,
        told.1@ == session@.read(document).reply,
    ensures
        lists(told, stream, records, decimal(at as nat + records.len())),
{
    lemma_words();
    lemma_asked_at(document, stream, index);
    assert(told.0@ is Read);
    assert(told.0 is Read);
    assert(told.1@ is Answered);
    assert(told.1 is Answered);
    let answer = told.1->Answered_0;
    assert(json(answer) == told.1@->Answered_0);
    assert(json(answer)->Object_0.dom() =~= set![
        "Records"@,
        "NextShardIterator"@,
        "MillisBehindLatest"@,
    ]);
    let items = items_for(records);
    assert forall|i: int| 0 <= i < items.len() implies shows(#[trigger] items[i], records[i]) by {
        assert(items[i] == item_of(records[i]));
        assert(items[i]->Object_0.dom() =~= set!["SequenceNumber"@, "PartitionKey"@, "Data"@]);
    }
}

/// Where no limit is said, or what is said is no whole number, all the
/// records from the iterator's index to the end of the stream are listed, and
/// the iterator to go on with is at the end.
pub proof fn law_without_a_limit_all_is_listed(
    session: Session,
    document: &Value,
    stream: Seq<char>,
    index: &str,
    at: usize,
    end: u64,
    onward: String,
    told: (Event, Reply),
)
    requires
        asks_records(json(*document), stream, index@),
        call_ensures(parse_index, (index,), Some(at)),
        forall|limit: u64| !limited(json(*document), limit),
        session@.streams.contains_key(stream),
        at <= session@.streams[stream].len(),
        end == session@.streams[stream].len(),
        call_ensures(decimal_text, (end,), onward),
        call_ensures(Session::read, (&session, document), told),
    ensures
        lists(
            told,
            stream,
            session@.streams[stream].subrange(at as int, end as int),
            onward@,
        ),
{
    let held = session@.streams[stream];
    let records = held.subrange(at as int, end as int);
    lemma_limit(json(*document), 0);
    assert(held.skip(at as int) =~= records);
    lemma_listed(session, json(*document), stream, index@, at, records, told);
}

/// Where a limit is said, that many records are listed from the iterator's
/// index, all to the end where there are fewer, and the iterator to go on
/// with is behind the last of them.
pub proof fn law_a_limit_lists_that_many(
    session: Session,
    document: &Value,
    stream: Seq<char>,
    index: &str,
    at: usize,
    limit: u64,
    count: int,
    end: u64,
    onward: String,
    told: (Event, Reply),
)
    requires
        asks_records(json(*document), stream, index@),
        call_ensures(parse_index, (index,), Some(at)),
        limited(json(*document), limit),
        session@.streams.contains_key(stream),
        at <= session@.streams[stream].len(),
        0 <= count <= limit,
        at + count <= session@.streams[stream].len(),
        count == limit || at + count == session@.streams[stream].len(),
        end == at + count,
        call_ensures(decimal_text, (end,), onward),
        call_ensures(Session::read, (&session, document), told),
    ensures
        lists(
            told,
            stream,
            session@.streams[stream].subrange(at as int, end as int),
            onward@,
        ),
{
    let held = session@.streams[stream];
    let records = held.subrange(at as int, end as int);
    lemma_limit(json(*document), limit);
    assert(held.skip(at as int).take(count) =~= records);
    assert(window(held, at as nat, Some(limit)) =~= records);
    lemma_listed(session, json(*document), stream, index@, at, records, told);
}

/// Behind the end of a stream nothing is listed, and the iterator to go on
/// with is at the same index.
pub proof fn law_behind_the_end_nothing_is_listed(
    session: Session,
    document: &Value,
    stream: Seq<char>,
    index: &str,
    at: usize,
    onward: String,
    told: (Event, Reply),
)
    requires
        asks_records(json(*document), stream, index@),
        call_ensures(parse_index, (index,), Some(at)),
        session@.streams.contains_key(stream),
        at >= session@.streams[stream].len(),
        call_ensures(decimal_text, (at as u64,), onward),
        call_ensures(Session::read, (&session, document), told),
    ensures
        lists(told, stream, Seq::empty(), onward@),
{
    let held = session@.streams[stream];
    let none = Seq::<RecordView>::empty();
    if limit_of(json(*document)) is Some {
        lemma_limit(json(*document), limit_of(json(*document))->Some_0);
    }
    if at == held.len() {
        assert(held.skip(at as int) =~= none);
    }
    assert(window(held, at as nat, limit_of(json(*document))) =~= none);
    lemma_listed(session, json(*document), stream, index@, at, none, told);
}

/// An iterator without a slash, whose index is none, or over a stream that
/// the session does not hold was not handed out, and is refused.
pub proof fn law_an_iterator_not_handed_out_is_refused(
    session: Session,
    document: &Value,
    stream: Seq<char>,
    index: &str,
    iterator: Seq<char>,
    parsed: Option<usize>,
    told: (Event, Reply),
)
    requires
        reads(json(*document), "ShardIterator"@, iterator),
        !iterator.contains('/') || {
            &&& iterator == stream + seq!['/'] + index@
            &&& !index@.contains('/')
            &&& call_ensures(parse_index, (index,), parsed)
            &&& parsed is None || !session@.streams.contains_key(stream)
        },
        call_ensures(Session::read, (&session, document), told),
    ensures
        refuses(told, 400, "InvalidArgumentException"@, "an iterator not handed out"@),
{
    let d = json(*document);
    lemma_reads(d, "ShardIterator"@, iterator);
    if iterator.contains('/') {
        lemma_asked_at(d, stream, index@);
    } else {
        lemma_no_slash(iterator);
    }
    lemma_refused(told, 400, "InvalidArgumentException"@, "an iterator not handed out"@);
}

proof fn lemma_no_slash(text: Seq<char>)
    requires
        !text.contains('/'),
    ensures
        split_last(text) is None,
    decreases text.len(),
{
    if text.len() > 0 {
        assert(text[text.len() - 1] == text.last());
        let less = text.drop_last();
        assert forall|i: int| 0 <= i < less.len() implies less[i] != '/' by {
            assert(less[i] == text[i]);
        }
        lemma_no_slash(less);
    }
}

/// An iterator asked for from now on, read with no limit, lists exactly the
/// records that came to its stream since, in order: none at the session that
/// handed it out.
pub proof fn law_the_latest_lists_what_comes_since(
    session: Session,
    later: Session,
    asking: &Value,
    stream: Seq<char>,
    after: Seq<char>,
    given: (Event, Reply),
    since: Seq<RecordView>,
    reading: &Value,
    told: (Event, Reply),
)
    requires
        asks_iterator(json(*asking), stream, "shardId-000000000000"@, "LATEST"@, after),
        session@.streams.contains_key(stream),
        call_ensures(Session::iterate, (&session, asking), given),
        later@.streams.contains_key(stream),
        later@.streams[stream] == session@.streams[stream] + since,
        given.1 matches Reply::Answered(answer) ==> forall|iterator: Seq<char>|
            says(json(answer), "ShardIterator"@, iterator) ==> says(
                json(*reading),
                "ShardIterator"@,
                iterator,
            ),
        forall|limit: u64| !limited(json(*reading), limit),
        call_ensures(Session::read, (&later, reading), told),
    ensures
        given.1 is Answered,
        told.0 matches Event::Read { stream: over, count } && over@ == stream && count
            == since.len(),
        told.1 matches Reply::Answered(answer) && {
            &&& json(answer) matches Json::Object(members) && members.contains_key("Records"@)
            &&& json(answer)->Object_0["Records"@] matches Json::List(items) && {
                &&& items.len() == since.len()
                &&& forall|i: int| 0 <= i < items.len() ==> shows(#[trigger] items[i], since[i])
            }
        },
{
    lemma_words();
    let held = session@.streams[stream].len();
    lemma_asks(json(*asking), stream, "shardId-000000000000"@, "LATEST"@, after);
    lemma_handed_out(session, json(*asking), held, given);
    let iterator = stream + seq!['/'] + decimal(held);
    assert(says(json(given.1->Answered_0), "ShardIterator"@, iterator));
    lemma_held_fits(session, stream);
    lemma_index_round_trip(held as usize);
    lemma_limit(json(*reading), 0);
    assert(later@.streams[stream].skip(held as int) =~= since);
    lemma_listed(later, json(*reading), stream, decimal(held), held as usize, since, told);
}

/// Puts to a stream, one after the other, while a session goes from the first
/// state to the last: the i-th keeps `bytes[i]` under `keys[i]`.
pub open spec fn puts_one_by_one(
    sessions: Seq<Session>,
    stream: Seq<char>,
    keys: Seq<Seq<char>>,
    bytes: Seq<Seq<u8>>,
    numbers: Seq<Seq<char>>,
    tolds: Seq<(Event, Reply)>,
) -> bool {
    &&& sessions.len() == bytes.len() + 1
    &&& keys.len() == bytes.len()
    &&& numbers.len() == bytes.len()
    &&& tolds.len() == bytes.len()
    &&& forall|i: int|
        0 <= i < bytes.len() ==> put_is_kept(
            sessions[i],
            #[trigger] sessions[i + 1],
            stream,
            keys[i],
            bytes[i],
            numbers[i],
            tolds[i],
        )
}

/// An iterator asked for from now on lists, read with no limit after any
/// number of puts to its stream, one item for each put, in the order of the
/// puts, with the number, the key and the bytes that were put; none before
/// the first put.
pub proof fn law_the_latest_lists_the_puts_since(
    sessions: Seq<Session>,
    first: Session,
    last: Session,
    stream: Seq<char>,
    keys: Seq<Seq<char>>,
    bytes: Seq<Seq<u8>>,
    numbers: Seq<Seq<char>>,
    tolds: Seq<(Event, Reply)>,
    asking: &Value,
    after: Seq<char>,
    given: (Event, Reply),
    reading: &Value,
    told: (Event, Reply),
)
    requires
        puts_one_by_one(sessions, stream, keys, bytes, numbers, tolds),
        first == sessions.first(),
        last == sessions.last(),
        first@.streams.contains_key(stream),
        asks_iterator(json(*asking), stream, "shardId-000000000000"@, "LATEST"@, after),
        call_ensures(Session::iterate, (&first, asking), given),
        given.1 matches Reply::Answered(answer) ==> forall|iterator: Seq<char>|
            says(json(answer), "ShardIterator"@, iterator) ==> says(
                json(*reading),
                "ShardIterator"@,
                iterator,
            ),
        forall|limit: u64| !limited(json(*reading), limit),
        call_ensures(Session::read, (&last, reading), told),
    ensures
        given.1 is Answered,
        told.1 matches Reply::Answered(answer) && {
            &&& json(answer) matches Json::Object(members) && members.contains_key("Records"@)
            &&& json(answer)->Object_0["Records"@] matches Json::List(items) && {
                &&& items.len() == bytes.len()
                &&& forall|i: int|
                    0 <= i < items.len() ==> says(
                        #[trigger] items[i],
                        "SequenceNumber"@,
                        numbers[i],
                    ) && says(items[i], "PartitionKey"@, keys[i]) && says(
                        items[i],
                        "Data"@,
                        base64_text(bytes[i]),
                    )
            }
        },
{
    let since = Seq::new(
        bytes.len(),
        |i: int|
            RecordView { sequence_number: numbers[i], partition_key: keys[i], data: bytes[i] },
    );
    lemma_puts(sessions, stream, keys, bytes, numbers, tolds, since, bytes.len() as int);
    assert(since.take(bytes.len() as int) =~= since);
    law_the_latest_lists_what_comes_since(
        first,
        last,
        asking,
        stream,
        after,
        given,
        since,
        reading,
        told,
    );
}

proof fn lemma_puts(
    sessions: Seq<Session>,
    stream: Seq<char>,
    keys: Seq<Seq<char>>,
    bytes: Seq<Seq<u8>>,
    numbers: Seq<Seq<char>>,
    tolds: Seq<(Event, Reply)>,
    since: Seq<RecordView>,
    n: int,
)
    requires
        puts_one_by_one(sessions, stream, keys, bytes, numbers, tolds),
        sessions[0]@.streams.contains_key(stream),
        since.len() == bytes.len(),
        forall|i: int|
            0 <= i < since.len() ==> #[trigger] since[i] == (RecordView {
                sequence_number: numbers[i],
                partition_key: keys[i],
                data: bytes[i],
            }),
        0 <= n <= bytes.len(),
    ensures
        sessions[n]@.streams.contains_key(stream),
        sessions[n]@.streams[stream] == sessions[0]@.streams[stream] + since.take(n),
    decreases n,
{
    let start = sessions[0]@.streams[stream];
    if n == 0 {
        assert(start + since.take(0) =~= start);
    } else {
        lemma_puts(sessions, stream, keys, bytes, numbers, tolds, since, n - 1);
        assert(put_is_kept(
            sessions[n - 1],
            sessions[n - 1 + 1],
            stream,
            keys[n - 1],
            bytes[n - 1],
            numbers[n - 1],
            tolds[n - 1],
        ));
        let held = sessions[n]@.streams[stream];
        assert(sessions[n]@.streams.dom().contains(stream));
        assert(held =~= held.drop_last().push(held.last()));
        assert(since.take(n) =~= since.take(n - 1).push(since[n - 1]));
        assert(held =~= start + since.take(n));
    }
}

/// A record put after such an iterator was handed out is what is listed with
/// it, alone.
pub proof fn law_the_latest_lists_the_next_put(
    session: &mut Session,
    before: Session,
    later: Session,
    asking: &Value,
    stream: Seq<char>,
    after: Seq<char>,
    given: (Event, Reply),
    putting: &Value,
    key: Seq<char>,
    data: Seq<char>,
    bytes: Seq<u8>,
    put: (Event, Reply),
    reading: &Value,
    told: (Event, Reply),
)
    requires
        before == *old(session),
        later == *final(session),
        asks_iterator(json(*asking), stream, "shardId-000000000000"@, "LATEST"@, after),
        before@.streams.contains_key(stream),
        call_ensures(Session::iterate, (&before, asking), given),
        reads(json(*putting), "StreamName"@, stream),
        reads(json(*putting), "PartitionKey"@, key),
        reads(json(*putting), "Data"@, data),
        base64_bytes(data) == Ok::<Seq<u8>, Seq<char>>(bytes),
        call_ensures(Session::put, (session, putting), put),
        given.1 matches Reply::Answered(answer) ==> forall|iterator: Seq<char>|
            says(json(answer), "ShardIterator"@, iterator) ==> says(
                json(*reading),
                "ShardIterator"@,
                iterator,
            ),
        forall|limit: u64| !limited(json(*reading), limit),
        call_ensures(Session::read, (&later, reading), told),
    ensures
        told.1 matches Reply::Answered(answer) && {
            &&& json(answer) matches Json::Object(members) && members.contains_key("Records"@)
            &&& json(answer)->Object_0["Records"@] matches Json::List(items) && {
                &&& items.len() == 1
                &&& says(items[0], "PartitionKey"@, key)
                &&& says(items[0], "Data"@, base64_text(bytes))
            }
        },
{
    lemma_reads(json(*putting), "StreamName"@, stream);
    lemma_reads(json(*putting), "PartitionKey"@, key);
    lemma_reads(json(*putting), "Data"@, data);
    lemma_kept(before, later, json(*putting), bytes, put);
    let since = seq![later@.streams[stream].last()];
    assert(later@.streams[stream] =~= before@.streams[stream] + since);
    law_the_latest_lists_what_comes_since(
        before,
        later,
        asking,
        stream,
        after,
        given,
        since,
        reading,
        told,
    );
}

/// An item shows the record it is made of, and the data given for it.
pub proof fn law_an_item_shows_its_record(record: &Held, data: &str, made: Value)
    requires
        call_ensures(item, (record, data), made),
    ensures
        says(json(made), "SequenceNumber"@, record.sequence_number@),
        says(json(made), "PartitionKey"@, record.partition_key@),
        says(json(made), "Data"@, data@),
        json(made)->Object_0.dom() == set!["SequenceNumber"@, "PartitionKey"@, "Data"@],
{
    lemma_words();
    assert(json(made)->Object_0.dom() =~= set!["SequenceNumber"@, "PartitionKey"@, "Data"@]);
}

/// A new session holds no stream, verifies for Kinesis in its region with its
/// keys, and begins to count at one.
pub proof fn law_a_new_session_is_empty(
    region: &str,
    access_key: &str,
    secret_key: &str,
    session: Session,
    stream: &str,
    records: &[Held],
    signer: &Signer,
    timeout: Option<Duration>,
)
    requires
        call_ensures(Session::new, (region, access_key, secret_key), session),
        call_ensures(Session::records, (&session, stream), records),
        call_ensures(Session::signer, (&session,), signer),
        call_ensures(Session::timeout, (&session,), timeout),
    ensures
        session@.streams.dom() == Set::<Seq<char>>::empty(),
        session@.next == 1,
        records@.len() == 0,
        signer.service@ == "kinesis"@,
        signer.region@ == region@,
        signer.access_key@ == access_key@,
        signer.secret_key@ == secret_key@,
        timeout is None,
{
    assert(session@.streams.dom() =~= Set::<Seq<char>>::empty());
    assert(held_views(records@).len() == records@.len());
}

/// A session told of a stream holds it, empty where it was not held before,
/// and what it held is as it was.
pub proof fn law_a_session_holds_what_it_is_told_of(
    session: Session,
    name: &str,
    told: Session,
)
    requires
        call_ensures(Session::with_stream, (session, name), told),
    ensures
        told@.streams.dom() == session@.streams.dom().insert(name@),
        forall|stream: Seq<char>|
            #[trigger] session@.streams.contains_key(stream) ==> told@.streams[stream]
                == session@.streams[stream],
        !session@.streams.contains_key(name@) ==> told@.streams[name@].len() == 0,
        told@.next == session@.next,
        told@.signer == session@.signer,
        told@.timeout == session@.timeout,
{
    assert(told@.streams.dom() =~= session@.streams.dom().insert(name@));
}

/// A timeout changes how long a session waits, and nothing else.
pub proof fn law_a_session_gives_up_after_its_timeout(
    session: Session,
    timeout: Duration,
    hasty: Session,
    found: Option<Duration>,
)
    requires
        call_ensures(Session::timing_out_after, (session, timeout), hasty),
        call_ensures(Session::timeout, (&hasty,), found),
    ensures
        found == Some(timeout),
        hasty@.streams == session@.streams,
        hasty@.next == session@.next,
        hasty@.signer == session@.signer,
{
}

/// The records of a stream are those that the session holds there, in order;
/// there are none of a stream that it does not hold.
pub proof fn law_the_records_of_a_stream(session: Session, stream: &str, records: &[Held])
    requires
        call_ensures(Session::records, (&session, stream), records),
    ensures
        !session@.streams.contains_key(stream@) ==> records@.len() == 0,
        session@.streams.contains_key(stream@) ==> {
            &&& records@.len() == session@.streams[stream@].len()
            &&& forall|i: int|
                0 <= i < records@.len() ==> {
                    &&& (#[trigger] records@[i]).sequence_number@
                        == session@.streams[stream@][i].sequence_number
                    &&& records@[i].partition_key@ == session@.streams[stream@][i].partition_key
                    &&& records@[i].data@ == session@.streams[stream@][i].data
                }
        },
{
    let seen = held_views(records@);
    assert(seen.len() == records@.len());
    assert forall|i: int| 0 <= i < records@.len() implies records@[i]@ == #[trigger] seen[i] by {}
    if session@.streams.contains_key(stream@) {
        assert forall|i: int| 0 <= i < records@.len() implies {
            &&& (#[trigger] records@[i]).sequence_number@
                == session@.streams[stream@][i].sequence_number
            &&& records@[i].partition_key@ == session@.streams[stream@][i].partition_key
            &&& records@[i].data@ == session@.streams[stream@][i].data
        } by {
            assert(seen[i] == records@[i]@);
        }
    }
}

/// An answer has status 200, a refusal its own.
pub proof fn law_a_reply_has_its_status(reply: Reply, status: u16)
    requires
        call_ensures(Reply::status, (&reply,), status),
    ensures
        reply is Answered ==> status == 200,
        reply matches Reply::Refused { status: own, .. } ==> status == own,
{
}

/// What was put is what arrived; any other event is handed back.
pub proof fn law_only_a_put_arrives(event: Event, put: Result<Arrived, Event>)
    requires
        call_ensures(Event::into_put, (event,), put),
    ensures
        event matches Event::Put(arrived) ==> put == Ok::<Arrived, Event>(arrived),
        !(event is Put) ==> put == Err::<Arrived, Event>(event),
{
}

} // verus!
