//! What a transport asks, sends and hands on, in the characters that go over
//! the wire.
use crate::client::{items_of, next_of, record_of, records_of, views, Call, Client, Record};
use crate::document::{json, text_of, Json};
use crate::encoding::{base64_bytes, base64_text};
use crate::error::TransportError;
use crate::laws::calls::{lacks, lemma_all_records, lemma_text_of, reads, same_way, says};
use crate::laws::lemma_words;
use crate::laws::text::law_origins_tell_shards_apart;
use crate::session::{Event, Reply, Session};
use crate::text::decimal_text;
use crate::transport::{arrived_views, Directions, KinesisTransport, Next, Receiving};
use crate::ceiling;
use serde_json::Value;
use std::time::Duration;
use vstd::prelude::*;

verus! {

/// The two transports differ at most in their place.
pub open spec fn same_but_for_the_place(one: KinesisTransport, other: KinesisTransport) -> bool {
    &&& one@.endpoint == other@.endpoint
    &&& one@.region == other@.region
    &&& one@.stream == other@.stream
    &&& one@.shard == other@.shard
    &&& one@.access_key == other@.access_key
    &&& one@.secret_key == other@.secret_key
    &&& one@.partition_key == other@.partition_key
    &&& one@.timeout == other@.timeout
}

/// The call goes where this transport is aimed, signed with its credential.
pub open spec fn goes_the_way_of(call: Call, transport: KinesisTransport, host: Seq<char>) -> bool {
    &&& call.endpoint@ == transport@.endpoint
    &&& call.host@ == host
    &&& call.signer.service@ == "kinesis"@
    &&& call.signer.region@ == transport@.region
    &&& call.signer.access_key@ == transport@.access_key
    &&& call.signer.secret_key@ == transport@.secret_key
    &&& call.timeout == transport@.timeout
}

/// Every receive asks for an iterator over the stream and the shard that the
/// transport is on, whatever its place: from the oldest record where it has
/// none, else from behind the number it last handed on. The client it goes on
/// with asks the same way.
pub proof fn law_a_receive_asks_about_its_own_shard(
    transport: KinesisTransport,
    host: String,
    next: Next,
    client: Client,
    call: Call,
    iterator: &str,
    limit: u16,
    other: Call,
)
    requires
        call_ensures(
            KinesisTransport::receive,
            (&transport, Ok::<String, TransportError>(host)),
            next,
        ),
        next matches Next::Ask(Receiving::Iterator(with), asked) ==> with == client && asked
            == call,
        call_ensures(Client::get_records, (&client, iterator, limit), other),
    ensures
        next matches Next::Ask(Receiving::Iterator(_), _),
        goes_the_way_of(call, transport, host@),
        goes_the_way_of(other, transport, host@),
        call.action@ == "GetShardIterator"@,
        says(json(call.document), "StreamName"@, transport@.stream),
        says(json(call.document), "ShardId"@, transport@.shard),
        match transport@.position {
            Some(number) => {
                &&& says(json(call.document), "ShardIteratorType"@, "AFTER_SEQUENCE_NUMBER"@)
                &&& says(json(call.document), "StartingSequenceNumber"@, number)
            },
            None => {
                &&& says(json(call.document), "ShardIteratorType"@, "TRIM_HORIZON"@)
                &&& lacks(json(call.document), "StartingSequenceNumber"@)
            },
        },
{
    lemma_words();
    assert(next@ is Ask);
    assert(next is Ask);
}

/// Without an authority a receive ends at once, with that failure.
pub proof fn law_no_authority_no_receive(
    transport: KinesisTransport,
    failure: TransportError,
    next: Next,
)
    requires
        call_ensures(
            KinesisTransport::receive,
            (&transport, Err::<String, TransportError>(failure)),
            next,
        ),
    ensures
        next matches Next::Done(Err(failed)) && failed@ == failure@,
{
}

/// Going on with a receive moves a transport's place at most: it stays on
/// its stream and its shard, and its next receive asks about them.
pub proof fn law_a_transport_stays_on_its_shard(
    transport: &mut KinesisTransport,
    receiving: Receiving,
    reply: Result<Value, TransportError>,
    next: Next,
    later: KinesisTransport,
    host: String,
    again: Next,
    call: Call,
)
    requires
        call_ensures(KinesisTransport::resume, (transport, receiving, reply), next),
        later == *final(transport),
        call_ensures(
            KinesisTransport::receive,
            (&later, Ok::<String, TransportError>(host)),
            again,
        ),
        again matches Next::Ask(_, asked) ==> asked == call,
    ensures
        same_but_for_the_place(later, *old(transport)),
        again is Ask,
        says(json(call.document), "StreamName"@, old(transport)@.stream),
        says(json(call.document), "ShardId"@, old(transport)@.shard),
        !(next matches Next::Done(Ok(_))) ==> later@.position == old(transport)@.position,
{
    lemma_words();
    assert(again@ is Ask);
    assert(again is Ask);
}

/// Once the iterator is there, the records are asked for with it, ten
/// thousand at a time and none taken yet, the way the client asks.
pub proof fn law_the_iterator_is_read_with(
    transport: &mut KinesisTransport,
    client: Client,
    answer: Value,
    iterator: Seq<char>,
    next: Next,
    text: &str,
    limit: u16,
    before: Call,
    after: Call,
)
    requires
        reads(json(answer), "ShardIterator"@, iterator),
        call_ensures(
            KinesisTransport::resume,
            (transport, Receiving::Iterator(client), Ok::<Value, TransportError>(answer)),
            next,
        ),
        call_ensures(Client::get_records, (&client, text, limit), before),
        next matches Next::Ask(Receiving::Records(with, _), _) ==> call_ensures(
            Client::get_records,
            (&with, text, limit),
            after,
        ),
    ensures
        next matches Next::Ask(Receiving::Records(_, taken), call) && {
            &&& taken.len() == 0
            &&& call.action@ == "GetRecords"@
            &&& says(json(call.document), "ShardIterator"@, iterator)
            &&& json(call.document)->Object_0["Limit"@] == Json::Unsigned(10_000)
            &&& json(call.document)->Object_0.dom() == set!["ShardIterator"@, "Limit"@]
            &&& same_way(call, before)
            &&& same_way(after, before)
        },
        final(transport)@ == old(transport)@,
{
    lemma_words();
    lemma_text_of(json(answer), "ShardIterator"@);
    assert(next@ is Ask);
    assert(next is Ask);
    assert(next@->Ask_0 is Records);
    assert(next->Ask_0 is Records);
    let taken = next->Ask_0->Records_1;
    assert(views(taken@).len() == taken.len());
    let call = next->Ask_1;
    assert(call@ == next@->Ask_1);
    assert(json(call.document)->Object_0.dom() =~= set!["ShardIterator"@, "Limit"@]);
}

/// `answer` lists these items.
pub open spec fn listed(answer: Value, items: Seq<Json>) -> bool {
    json(answer) matches Json::Object(members) && members.contains_key("Records"@)
        && members["Records"@] == Json::List(items)
}

/// The items of a page, none where it lists none, each of which holds a
/// record.
pub open spec fn page_of(answer: Value, items: Seq<Json>) -> bool {
    &&& listed(answer, items) || items.len() == 0 && forall|other: Seq<Json>|
        !listed(answer, other)
    &&& forall|i: int|
        0 <= i < items.len() ==> exists|data: Seq<char>|
            reads(#[trigger] items[i], "Data"@, data) && base64_bytes(data) is Ok
}

proof fn lemma_page(answer: Value, items: Seq<Json>)
    requires
        page_of(answer, items),
    ensures
        items_of(json(answer)) == items,
        forall|i: int| 0 <= i < items.len() ==> record_of(#[trigger] items[i]) is Ok,
        records_of(items) is Ok,
        records_of(items)->Ok_0.len() == items.len(),
        forall|i: int|
            0 <= i < items.len() ==> record_of(#[trigger] items[i])->Ok_0
                == records_of(items)->Ok_0[i],
{
    if !listed(answer, items) {
        assert(!listed(answer, items_of(json(answer))));
        assert(items_of(json(answer)) =~= items);
    }
    assert forall|i: int| 0 <= i < items.len() implies record_of(#[trigger] items[i]) is Ok by {
        lemma_text_of(items[i], "Data"@);
    }
    lemma_all_records(items);
}

/// Behind a full page that says how to go on, the next page is asked for
/// with the iterator it says, the way the client asks. Nothing is handed on
/// yet: the records of the page join those taken before, in order.
pub proof fn law_a_full_page_is_followed(
    transport: &mut KinesisTransport,
    client: Client,
    before: Vec<Record>,
    answer: Value,
    items: Seq<Json>,
    iterator: Seq<char>,
    next: Next,
    text: &str,
    limit: u16,
    one: Call,
    other: Call,
)
    requires
        page_of(answer, items),
        items.len() >= 10_000,
        says(json(answer), "NextShardIterator"@, iterator),
        call_ensures(
            KinesisTransport::resume,
            (transport, Receiving::Records(client, before), Ok::<Value, TransportError>(answer)),
            next,
        ),
        call_ensures(Client::get_records, (&client, text, limit), one),
        next matches Next::Ask(Receiving::Records(with, _), _) ==> call_ensures(
            Client::get_records,
            (&with, text, limit),
            other,
        ),
    ensures
        final(transport)@ == old(transport)@,
        next matches Next::Ask(Receiving::Records(_, taken), call) && {
            &&& call.action@ == "GetRecords"@
            &&& says(json(call.document), "ShardIterator"@, iterator)
            &&& json(call.document)->Object_0["Limit"@] == Json::Unsigned(10_000)
            &&& same_way(call, one)
            &&& same_way(other, one)
            &&& taken.len() == before.len() + items.len()
            &&& forall|i: int|
                0 <= i < before.len() ==> (#[trigger] taken[i])@ == before[i]@
            &&& forall|i: int, number: Seq<char>|
                0 <= i < items.len() && #[trigger] reads(items[i], "SequenceNumber"@, number)
                    ==> taken[before.len() + i].sequence_number@ == number
            &&& forall|i: int, data: Seq<char>|
                0 <= i < items.len() && #[trigger] reads(items[i], "Data"@, data)
                    ==> base64_bytes(data) == Ok::<Seq<u8>, Seq<char>>(
                    taken[before.len() + i].data@,
                )
        },
{
    lemma_words();
    lemma_page(answer, items);
    assert(next@ is Ask);
    assert(next is Ask);
    assert(next@->Ask_0 is Records);
    assert(next->Ask_0 is Records);
    let taken = next->Ask_0->Records_1;
    let page = records_of(items)->Ok_0;
    assert(views(taken@) == views(before@) + page);
    assert(views(taken@).len() == taken.len());
    let call = next->Ask_1;
    assert(call@ == next@->Ask_1);
    assert forall|i: int| 0 <= i < before.len() implies (#[trigger] taken[i])@ == before[i]@ by {
        assert(views(taken@)[i] == views(before@)[i]);
    }
    assert forall|i: int, number: Seq<char>|
        0 <= i < items.len() && #[trigger] reads(
            items[i],
            "SequenceNumber"@,
            number,
        ) implies taken[before.len() + i].sequence_number@ == number by {
        lemma_text_of(items[i], "SequenceNumber"@);
        assert(views(taken@)[before.len() + i] == page[i]);
        assert(record_of(items[i])->Ok_0 == page[i]);
    }
    assert forall|i: int, data: Seq<char>|
        0 <= i < items.len() && #[trigger] reads(items[i], "Data"@, data) implies base64_bytes(data)
        == Ok::<Seq<u8>, Seq<char>>(taken[before.len() + i].data@) by {
        lemma_text_of(items[i], "Data"@);
        assert(views(taken@)[before.len() + i] == page[i]);
        assert(record_of(items[i])->Ok_0 == page[i]);
    }
}

/// Where a page is not full, or says no way to go on, the receive is done:
/// all the records taken are handed on, those of the page last. Each has the
/// origin `kinesis://stream/shard/number`, of the stream and the shard that
/// the transport reads and the record's own number, and the record's bytes.
/// The place moves behind the last of them.
pub proof fn law_what_is_handed_on_names_its_shard(
    transport: &mut KinesisTransport,
    client: Client,
    before: Vec<Record>,
    answer: Value,
    items: Seq<Json>,
    next: Next,
)
    requires
        page_of(answer, items),
        items.len() < 10_000 || forall|iterator: Seq<char>|
            !says(json(answer), "NextShardIterator"@, iterator),
        call_ensures(
            KinesisTransport::resume,
            (transport, Receiving::Records(client, before), Ok::<Value, TransportError>(answer)),
            next,
        ),
    ensures
        next matches Next::Done(Ok(arrived)) && {
            &&& arrived.len() == before.len() + items.len()
            &&& forall|i: int|
                0 <= i < before.len() ==> (#[trigger] arrived[i]).origin_uri@ == "kinesis://"@
                    + old(transport)@.stream + "/"@ + old(transport)@.shard + "/"@
                    + before[i].sequence_number@ && arrived[i].bytes@ == before[i].data@
            &&& forall|i: int, number: Seq<char>|
                0 <= i < items.len() && #[trigger] reads(items[i], "SequenceNumber"@, number)
                    ==> arrived[before.len() + i].origin_uri@ == "kinesis://"@
                    + old(transport)@.stream + "/"@ + old(transport)@.shard + "/"@ + number
            &&& forall|i: int, data: Seq<char>|
                0 <= i < items.len() && #[trigger] reads(items[i], "Data"@, data)
                    ==> base64_bytes(data) == Ok::<Seq<u8>, Seq<char>>(
                    arrived[before.len() + i].bytes@,
                )
            &&& arrived.len() == 0 ==> final(transport)@.position == old(transport)@.position
            &&& arrived.len() > 0 ==> final(transport)@.position is Some && arrived@.last().origin_uri@
                == "kinesis://"@ + old(transport)@.stream + "/"@ + old(transport)@.shard + "/"@
                + final(transport)@.position->Some_0
        },
        items.len() > 0 ==> forall|number: Seq<char>|
            reads(items.last(), "SequenceNumber"@, number) ==> final(transport)@.position == Some(
                number,
            ),
        items.len() == 0 && before.len() > 0 ==> final(transport)@.position == Some(
            before@.last().sequence_number@,
        ),
{
    lemma_words();
    lemma_page(answer, items);
    if next_of(json(answer)) is Some {
        assert(says(
            json(answer),
            "NextShardIterator"@,
            next_of(json(answer))->Some_0,
        ));
    }
    assert(next@ is Done && next@->Done_0 is Ok);
    assert(next is Done && next->Done_0 is Ok);
    let arrived = next->Done_0->Ok_0;
    let page = records_of(items)->Ok_0;
    let all = views(before@) + page;
    assert(arrived_views(arrived@) == old(transport)@.arrivals(all));
    assert(arrived_views(arrived@).len() == arrived.len());
    assert forall|i: int| 0 <= i < all.len() implies (#[trigger] arrived[i])@
        == old(transport)@.arrival(all[i]) by {
        assert(arrived_views(arrived@)[i] == arrived[i]@);
    }
    assert forall|i: int| 0 <= i < before.len() implies (#[trigger] arrived[i]).origin_uri@
        == "kinesis://"@ + old(transport)@.stream + "/"@ + old(transport)@.shard + "/"@
        + before[i].sequence_number@ && arrived[i].bytes@ == before[i].data@ by {
        assert(all[i] == before[i]@);
        assert(arrived[i]@ == old(transport)@.arrival(all[i]));
    }
    assert forall|i: int, number: Seq<char>|
        0 <= i < items.len() && #[trigger] reads(
            items[i],
            "SequenceNumber"@,
            number,
        ) implies arrived[before.len() + i].origin_uri@ == "kinesis://"@ + old(transport)@.stream
        + "/"@ + old(transport)@.shard + "/"@ + number by {
        lemma_text_of(items[i], "SequenceNumber"@);
        assert(all[before.len() + i] == page[i]);
        assert(record_of(items[i])->Ok_0 == page[i]);
        assert(arrived[before.len() + i]@ == old(transport)@.arrival(all[before.len() + i]));
    }
    assert forall|i: int, data: Seq<char>|
        0 <= i < items.len() && #[trigger] reads(items[i], "Data"@, data) implies base64_bytes(data)
        == Ok::<Seq<u8>, Seq<char>>(arrived[before.len() + i].bytes@) by {
        lemma_text_of(items[i], "Data"@);
        assert(all[before.len() + i] == page[i]);
        assert(record_of(items[i])->Ok_0 == page[i]);
        assert(arrived[before.len() + i]@ == old(transport)@.arrival(all[before.len() + i]));
    }
    if arrived.len() > 0 {
        let last = arrived.len() - 1;
        assert(arrived[last]@ == old(transport)@.arrival(all[last]));
    }
    if items.len() > 0 {
        lemma_text_of(items.last(), "SequenceNumber"@);
        assert(record_of(items[items.len() - 1])->Ok_0 == page[items.len() - 1]);
        assert(all.last() == page[items.len() - 1]);
    } else if before.len() > 0 {
        assert(all.last() == views(before@).last());
    }
}

/// A failed call ends the receive with that failure and nothing handed on,
/// and the place stays where it was.
pub proof fn law_a_failed_receive_hands_on_nothing(
    transport: &mut KinesisTransport,
    receiving: Receiving,
    failure: TransportError,
    next: Next,
)
    requires
        call_ensures(
            KinesisTransport::resume,
            (transport, receiving, Err::<Value, TransportError>(failure)),
            next,
        ),
    ensures
        next matches Next::Done(Err(failed)) && failed@ == failure@,
        final(transport)@ == old(transport)@,
{
    assert(next@ is Done && next@->Done_0 is Err);
    assert(next is Done && next->Done_0 is Err);
}

/// A page one of whose items does not decode ends the receive with the
/// failure that a client finds in it and nothing handed on, and the place
/// stays where it was.
pub proof fn law_a_bad_page_hands_on_nothing(
    transport: &mut KinesisTransport,
    client: Client,
    before: Vec<Record>,
    answer: Value,
    items: Seq<Json>,
    bad: int,
    data: Seq<char>,
    read: Result<(Vec<Record>, Option<String>), TransportError>,
    next: Next,
)
    requires
        json(answer) matches Json::Object(members) && members.contains_key("Records"@)
            && members["Records"@] == Json::List(items),
        0 <= bad < items.len(),
        reads(items[bad], "Data"@, data),
        base64_bytes(data) is Err,
        call_ensures(
            Client::get_records_reply,
            (Ok::<Value, TransportError>(answer),),
            read,
        ),
        call_ensures(
            KinesisTransport::resume,
            (transport, Receiving::Records(client, before), Ok::<Value, TransportError>(answer)),
            next,
        ),
    ensures
        next matches Next::Done(Err(failed)) && read matches Err(failure) && failed@ == failure@,
        final(transport)@ == old(transport)@,
{
    assert(items_of(json(answer)) == items);
    lemma_text_of(items[bad], "Data"@);
    lemma_bad_item(items, bad);
    assert(next@ is Done && next@->Done_0 is Err);
    assert(next is Done && next->Done_0 is Err);
}

proof fn lemma_bad_item(items: Seq<Json>, bad: int)
    requires
        0 <= bad < items.len(),
        record_of(items[bad]) is Err,
    ensures
        records_of(items) is Err,
    decreases items.len(),
{
    if bad < items.len() - 1 {
        assert(items.drop_last()[bad] == items[bad]);
        lemma_bad_item(items.drop_last(), bad);
    } else {
        assert(items.last() == items[bad]);
    }
}

/// Two transports on different shards of one stream never hand on the same
/// origin for records of the same number.
pub proof fn law_shards_hand_on_different_origins(
    one: &mut KinesisTransport,
    other: &mut KinesisTransport,
    client: Client,
    before: Vec<Record>,
    answer: Value,
    first: Next,
    second: Next,
    i: int,
)
    requires
        old(one)@.stream == old(other)@.stream,
        old(one)@.shard != old(other)@.shard,
        call_ensures(
            KinesisTransport::resume,
            (one, Receiving::Records(client, before), Ok::<Value, TransportError>(answer)),
            first,
        ),
        call_ensures(
            KinesisTransport::resume,
            (other, Receiving::Records(client, before), Ok::<Value, TransportError>(answer)),
            second,
        ),
        first matches Next::Done(Ok(arrived)) && 0 <= i < arrived.len(),
    ensures
        second matches Next::Done(Ok(arrived)) && i < arrived.len() && arrived[i].origin_uri@
            != first->Done_0->Ok_0[i].origin_uri@,
{
    assert(first@ is Done && first@->Done_0 is Ok);
    assert(second@ is Done && second@->Done_0 is Ok);
    assert(second is Done && second->Done_0 is Ok);
    let a = first->Done_0->Ok_0;
    let b = second->Done_0->Ok_0;
    assert(arrived_views(a@).len() == a.len());
    assert(arrived_views(b@).len() == b.len());
    assert(arrived_views(a@)[i] == a[i]@);
    assert(arrived_views(b@)[i] == b[i]@);
    let page = records_of(items_of(json(answer)))->Ok_0;
    let record = (views(before@) + page)[i];
    assert(a[i]@ == old(one)@.arrival(record));
    assert(b[i]@ == old(other)@.arrival(record));
    law_origins_tell_shards_apart(
        old(one)@.stream,
        record.sequence_number,
        old(one)@.shard,
        old(other)@.shard,
    );
}

/// A record is put to the stream that the target names, whatever the
/// transport's own is called; to the transport's own where the target is
/// empty. It goes under the transport's key, carries the bytes, and goes the
/// transport's way.
pub proof fn law_a_send_goes_to_its_target(
    transport: KinesisTransport,
    host: String,
    target: &str,
    bytes: &[u8],
    sent: Result<Call, TransportError>,
)
    requires
        call_ensures(
            KinesisTransport::send,
            (&transport, Ok::<String, TransportError>(host), target, bytes),
            sent,
        ),
        bytes@.len() <= 1_048_576,
    ensures
        sent is Ok,
        goes_the_way_of(sent->Ok_0, transport, host@),
        sent->Ok_0.action@ == "PutRecord"@,
        target@.len() > 0 ==> says(json(sent->Ok_0.document), "StreamName"@, target@),
        target@.len() == 0 ==> says(
            json(sent->Ok_0.document),
            "StreamName"@,
            transport@.stream,
        ),
        says(json(sent->Ok_0.document), "PartitionKey"@, transport@.partition_key),
        says(json(sent->Ok_0.document), "Data"@, base64_text(bytes@)),
        base64_bytes(base64_text(bytes@)) == Ok::<Seq<u8>, Seq<char>>(bytes@),
        json(sent->Ok_0.document)->Object_0.dom() == set![
            "StreamName"@,
            "PartitionKey"@,
            "Data"@,
        ],
{
    lemma_words();
    let call = sent->Ok_0;
    assert(json(call.document)->Object_0.dom() =~= set!["StreamName"@, "PartitionKey"@, "Data"@]);
}

/// A target is the stream it names; an empty one is the stream that the
/// transport receives from.
pub proof fn law_a_target_is_the_stream_it_names(
    transport: KinesisTransport,
    target: &str,
    stream: &str,
    host: String,
    next: Next,
)
    requires
        call_ensures(KinesisTransport::resolve, (&transport, target), stream),
        call_ensures(
            KinesisTransport::receive,
            (&transport, Ok::<String, TransportError>(host)),
            next,
        ),
    ensures
        target@.len() > 0 ==> stream@ == target@,
        target@.len() == 0 ==> (next matches Next::Ask(_, call) && says(
            json(call.document),
            "StreamName"@,
            stream@,
        )),
{
    lemma_words();
    assert(next@ is Ask);
    assert(next is Ask);
}

/// At a session that holds the stream a record is sent to, the record comes
/// last on that stream, with the bytes and the key it was sent with, and no
/// other stream changes.
pub proof fn law_what_is_sent_lands_on_its_target(
    transport: KinesisTransport,
    host: String,
    target: &str,
    bytes: &[u8],
    sent: Result<Call, TransportError>,
    session: &mut Session,
    document: Value,
    action: &str,
    told: (Event, Reply),
    landing: Seq<char>,
)
    requires
        call_ensures(
            KinesisTransport::send,
            (&transport, Ok::<String, TransportError>(host), target, bytes),
            sent,
        ),
        bytes@.len() <= 1_048_576,
        sent matches Ok(call) ==> json(document) == json(call.document) && action@ == call.action@,
        target@.len() > 0 ==> landing == target@,
        target@.len() == 0 ==> landing == transport@.stream,
        old(session)@.streams.contains_key(landing),
        call_ensures(
            Session::answer,
            (
                session,
                Ok::<(), TransportError>(()),
                Ok::<Value, TransportError>(document),
                Some(action),
            ),
            told,
        ),
    ensures
        final(session)@.streams.dom() == old(session)@.streams.dom(),
        final(session)@.streams[landing].len() == old(session)@.streams[landing].len() + 1,
        final(session)@.streams[landing].drop_last() == old(session)@.streams[landing],
        final(session)@.streams[landing].last().data == bytes@,
        final(session)@.streams[landing].last().partition_key == transport@.partition_key,
        forall|other: Seq<char>|
            #[trigger] old(session)@.streams.contains_key(other) && other != landing
                ==> final(session)@.streams[other] == old(session)@.streams[other],
        told.0 matches Event::Put(arrived) && arrived.bytes@ == bytes@,
        told.1 is Answered,
{
    lemma_words();
    law_a_send_goes_to_its_target(transport, host, target, bytes, sent);
    let d = json(document);
    lemma_text_of(d, "StreamName"@);
    lemma_text_of(d, "PartitionKey"@);
    lemma_text_of(d, "Data"@);
    assert(text_of(d, "StreamName"@) == landing);
    assert(told.0@ is Put);
    assert(told.0 is Put);
    assert(told.1@ is Answered);
    assert(final(session)@.streams.dom() =~= old(session)@.streams.dom());
    assert(final(session)@.streams[landing].drop_last() =~= old(session)@.streams[landing]);
}

/// More than one record carries is not sent, whatever the authority; the
/// failure is for good, and says how many bytes there were and how many a
/// record carries.
pub proof fn law_too_much_is_not_sent(
    transport: KinesisTransport,
    authority: Result<String, TransportError>,
    target: &str,
    bytes: &[u8],
    sent: Result<Call, TransportError>,
    count: u64,
    size: String,
    limit: String,
)
    requires
        call_ensures(KinesisTransport::send, (&transport, authority, target, bytes), sent),
        bytes@.len() > 1_048_576,
        count == bytes@.len(),
        call_ensures(decimal_text, (count,), size),
        call_ensures(decimal_text, (1_048_576u64,), limit),
    ensures
        sent matches Err(TransportError::Permanent(message)) && message@ == size@
            + " bytes is over the "@ + limit@ + " one Kinesis record carries"@,
{
    assert(1024 * 1024 == 1_048_576);
}

/// Without an authority nothing is sent, and the failure is that one.
pub proof fn law_no_authority_no_send(
    transport: KinesisTransport,
    failure: TransportError,
    target: &str,
    bytes: &[u8],
    sent: Result<Call, TransportError>,
)
    requires
        call_ensures(
            KinesisTransport::send,
            (&transport, Err::<String, TransportError>(failure), target, bytes),
            sent,
        ),
        bytes@.len() <= 1_048_576,
    ensures
        sent matches Err(failed) && failed@ == failure@,
{
}

/// A record was sent where the call was answered, and only there.
pub proof fn law_what_is_answered_was_sent(
    reply: Result<Value, TransportError>,
    sent: Result<(), TransportError>,
)
    requires
        call_ensures(KinesisTransport::sent, (reply,), sent),
    ensures
        sent is Ok <==> reply is Ok,
        reply matches Err(failure) ==> sent == Err::<(), TransportError>(failure),
{
}

/// A new transport is on the first shard, from the beginning, with no
/// credential and no timeout, and keys its records `xmip`.
pub proof fn law_a_new_transport_begins_at_the_first_shard(
    endpoint: &str,
    region: &str,
    stream: &str,
    transport: KinesisTransport,
)
    requires
        call_ensures(KinesisTransport::new, (endpoint, region, stream), transport),
    ensures
        transport@.endpoint == endpoint@,
        transport@.region == region@,
        transport@.stream == stream@,
        transport@.shard == "shardId-000000000000"@,
        transport@.access_key.len() == 0,
        transport@.secret_key.len() == 0,
        transport@.partition_key == "xmip"@,
        transport@.position is None,
        transport@.timeout is None,
{
}

/// A credential changes who signs, and nothing else.
pub proof fn law_a_credential_changes_who_signs(
    transport: KinesisTransport,
    access_key: &str,
    secret_key: &str,
    signing: KinesisTransport,
)
    requires
        call_ensures(
            KinesisTransport::with_credentials,
            (transport, access_key, secret_key),
            signing,
        ),
    ensures
        signing@.access_key == access_key@,
        signing@.secret_key == secret_key@,
        signing@.endpoint == transport@.endpoint,
        signing@.region == transport@.region,
        signing@.stream == transport@.stream,
        signing@.shard == transport@.shard,
        signing@.partition_key == transport@.partition_key,
        signing@.position == transport@.position,
        signing@.timeout == transport@.timeout,
{
}

/// Another shard changes what a receive asks about, and nothing else.
pub proof fn law_a_shard_changes_what_is_read(
    transport: KinesisTransport,
    shard: &str,
    moved: KinesisTransport,
    host: String,
    next: Next,
)
    requires
        call_ensures(KinesisTransport::on_shard, (transport, shard), moved),
        call_ensures(
            KinesisTransport::receive,
            (&moved, Ok::<String, TransportError>(host)),
            next,
        ),
    ensures
        next matches Next::Ask(_, call) && says(json(call.document), "ShardId"@, shard@) && says(
            json(call.document),
            "StreamName"@,
            transport@.stream,
        ),
        moved@.shard == shard@,
        moved@.endpoint == transport@.endpoint,
        moved@.region == transport@.region,
        moved@.stream == transport@.stream,
        moved@.access_key == transport@.access_key,
        moved@.secret_key == transport@.secret_key,
        moved@.partition_key == transport@.partition_key,
        moved@.position == transport@.position,
        moved@.timeout == transport@.timeout,
{
    lemma_words();
    assert(next@ is Ask);
    assert(next is Ask);
}

/// A key changes what records are put under, and nothing else.
pub proof fn law_a_key_changes_what_records_are_put_under(
    transport: KinesisTransport,
    key: &str,
    keyed: KinesisTransport,
)
    requires
        call_ensures(KinesisTransport::keyed_by, (transport, key), keyed),
    ensures
        keyed@.partition_key == key@,
        keyed@.endpoint == transport@.endpoint,
        keyed@.region == transport@.region,
        keyed@.stream == transport@.stream,
        keyed@.shard == transport@.shard,
        keyed@.access_key == transport@.access_key,
        keyed@.secret_key == transport@.secret_key,
        keyed@.position == transport@.position,
        keyed@.timeout == transport@.timeout,
{
}

/// A timeout changes how long an answer is waited for, and nothing else.
pub proof fn law_a_timeout_changes_how_long_is_waited(
    transport: KinesisTransport,
    timeout: Duration,
    hasty: KinesisTransport,
)
    requires
        call_ensures(KinesisTransport::timing_out_after, (transport, timeout), hasty),
    ensures
        hasty@.timeout == Some(timeout),
        hasty@.endpoint == transport@.endpoint,
        hasty@.region == transport@.region,
        hasty@.stream == transport@.stream,
        hasty@.shard == transport@.shard,
        hasty@.access_key == transport@.access_key,
        hasty@.secret_key == transport@.secret_key,
        hasty@.partition_key == transport@.partition_key,
        hasty@.position == transport@.position,
{
}

/// A transport says its endpoint and its place, is called `aws-kinesis`, goes
/// both ways and carries a megabyte.
pub proof fn law_a_transport_says_what_it_is(
    transport: KinesisTransport,
    endpoint: &str,
    position: Option<String>,
    name: &'static str,
    directions: Directions,
    most: Option<usize>,
    bytes: usize,
)
    requires
        call_ensures(ceiling, (), bytes),
        call_ensures(KinesisTransport::endpoint, (&transport,), endpoint),
        call_ensures(KinesisTransport::position, (&transport,), position),
        call_ensures(KinesisTransport::name, (&transport,), name),
        call_ensures(KinesisTransport::directions, (&transport,), directions),
        call_ensures(KinesisTransport::ceiling, (&transport,), most),
    ensures
        endpoint@ == transport@.endpoint,
        position is Some <==> transport@.position is Some,
        position matches Some(number) ==> transport@.position->Some_0 == number@,
        name@ == "aws-kinesis"@,
        directions.receives,
        directions.sends,
        most == Some(1_048_576usize),
        bytes == 1_048_576,
{
}

/// The client of a transport asks the way the transport does, and there is
/// one wherever there is an authority.
pub proof fn law_the_client_goes_the_way_of_its_transport(
    transport: KinesisTransport,
    host: String,
    failure: TransportError,
    made: Result<Client, TransportError>,
    failed: Result<Client, TransportError>,
    client: Client,
    iterator: &str,
    limit: u16,
    call: Call,
)
    requires
        call_ensures(
            KinesisTransport::client,
            (&transport, Ok::<String, TransportError>(host)),
            made,
        ),
        call_ensures(
            KinesisTransport::client,
            (&transport, Err::<String, TransportError>(failure)),
            failed,
        ),
        made matches Ok(found) ==> found == client,
        call_ensures(Client::get_records, (&client, iterator, limit), call),
    ensures
        made is Ok,
        goes_the_way_of(call, transport, host@),
        failed == Err::<Client, TransportError>(failure),
{
}

/// A loopback stands on an ephemeral local port, on one stream and one
/// credential, and gives up after its timeout.
pub proof fn law_a_loopback_is_local(timeout: Duration, transport: KinesisTransport)
    requires
        call_ensures(KinesisTransport::loopback, (timeout,), transport),
    ensures
        transport@.endpoint == "http://127.0.0.1:0"@,
        transport@.region == "eu-north-1"@,
        transport@.stream == "orders"@,
        transport@.shard == "shardId-000000000000"@,
        transport@.access_key == "AKID"@,
        transport@.secret_key == "secret"@,
        transport@.partition_key == "loopback"@,
        transport@.position is None,
        transport@.timeout == Some(timeout),
{
}

/// A near end goes to the address it is aimed at and is otherwise made as the
/// transport was, on the first shard and from the beginning.
pub proof fn law_a_near_end_goes_to_its_address(
    transport: KinesisTransport,
    address: &str,
    near: KinesisTransport,
)
    requires
        call_ensures(KinesisTransport::aimed_at, (&transport, address), near),
    ensures
        near@.endpoint == "http://"@ + address@,
        near@.shard == "shardId-000000000000"@,
        near@.position is None,
        near@.region == transport@.region,
        near@.stream == transport@.stream,
        near@.access_key == transport@.access_key,
        near@.secret_key == transport@.secret_key,
        near@.partition_key == transport@.partition_key,
        near@.timeout == transport@.timeout,
{
}

/// The far end of a transport holds its stream, empty, and nothing else; it
/// verifies what the transport signs, and gives up when the transport does.
pub proof fn law_the_far_end_holds_the_stream(
    transport: KinesisTransport,
    session: Session,
    host: String,
    next: Next,
)
    requires
        call_ensures(KinesisTransport::session, (&transport,), session),
        call_ensures(
            KinesisTransport::receive,
            (&transport, Ok::<String, TransportError>(host)),
            next,
        ),
    ensures
        session@.streams.dom() == set![transport@.stream],
        session@.streams[transport@.stream].len() == 0,
        session@.next == 1,
        session@.timeout == transport@.timeout,
        next matches Next::Ask(_, call) && call.signer@ == session@.signer,
{
    assert(session@.streams.dom() =~= set![transport@.stream]);
    assert(next@ is Ask);
    assert(next is Ask);
}

} // verus!
