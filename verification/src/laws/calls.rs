//! What a client asks, and what it reads from a reply, member by member.
use crate::client::{
    items_of, record, record_from, record_of, records_of, views, Call, Client, Position, Record,
    Signer,
};
use crate::document::{json, text_of, Json};
use crate::encoding::{base64_bytes, base64_text};
use crate::error::{Arrived, TransportError};
use crate::laws::lemma_words;
use crate::MAX_RECORDS;
use serde_json::Value;
use std::time::Duration;
use vstd::prelude::*;

verus! {

/// `document` is an object with a member of this name and text.
pub open spec fn says(document: Json, name: Seq<char>, text: Seq<char>) -> bool {
    document matches Json::Object(members) && members.contains_key(name) && members[name]
        == Json::Text(text)
}

/// `document` is an object without a member of this name.
pub open spec fn lacks(document: Json, name: Seq<char>) -> bool {
    document matches Json::Object(members) && !members.contains_key(name)
}

/// `document` says `text` under this name, or says nothing there and `text`
/// is empty.
pub open spec fn reads(document: Json, name: Seq<char>, text: Seq<char>) -> bool {
    says(document, name, text) || text.len() == 0 && forall|other: Seq<char>|
        !says(document, name, other)
}

/// Text is found as it reads.
pub proof fn lemma_reads(document: Json, name: Seq<char>, text: Seq<char>)
    requires
        reads(document, name, text),
    ensures
        text_of(document, name) == text,
{
    lemma_text_of(document, name);
}

/// The two calls go to one endpoint, under one host, signed alike, and are
/// given up after one time.
pub open spec fn same_way(one: Call, other: Call) -> bool {
    &&& one.endpoint@ == other.endpoint@
    &&& one.host@ == other.host@
    &&& one.signer.service@ == other.signer.service@
    &&& one.signer.region@ == other.signer.region@
    &&& one.signer.access_key@ == other.signer.access_key@
    &&& one.signer.secret_key@ == other.signer.secret_key@
    &&& one.timeout == other.timeout
}

/// The most one call asks for is ten thousand records.
pub proof fn law_a_page_is_ten_thousand()
    ensures
        MAX_RECORDS == 10_000,
{
}

/// The oldest record is asked for as `TRIM_HORIZON`, what arrives from now on
/// as `LATEST`, and what follows a number as `AFTER_SEQUENCE_NUMBER`.
pub proof fn law_a_position_asks_in_its_own_word(position: Position, kind: &'static str)
    requires
        call_ensures(Position::kind, (position,), kind),
    ensures
        match position {
            Position::Oldest => kind@ == "TRIM_HORIZON"@,
            Position::Latest => kind@ == "LATEST"@,
            Position::After(_) => kind@ == "AFTER_SEQUENCE_NUMBER"@,
        },
{
}

/// A signer is what it is given.
pub proof fn law_a_signer_is_what_it_is_given(
    service: &str,
    region: &str,
    access_key: &str,
    secret_key: &str,
    signer: Signer,
)
    requires
        call_ensures(Signer::new, (service, region, access_key, secret_key), signer),
    ensures
        signer.service@ == service@,
        signer.region@ == region@,
        signer.access_key@ == access_key@,
        signer.secret_key@ == secret_key@,
{
}

/// What a client asks goes to the endpoint, host and region it was made for,
/// signed for Kinesis with its keys, and waits without end.
pub proof fn law_a_call_goes_where_its_client_was_aimed(
    endpoint: &str,
    host: String,
    region: &str,
    access_key: &str,
    secret_key: &str,
    made: Result<Client, TransportError>,
    client: Client,
    iterator: &str,
    limit: u16,
    call: Call,
)
    requires
        call_ensures(
            Client::new,
            (endpoint, Ok::<String, TransportError>(host), region, access_key, secret_key),
            made,
        ),
        made is Ok ==> client == made->Ok_0,
        call_ensures(Client::get_records, (&client, iterator, limit), call),
    ensures
        made is Ok,
        call.endpoint@ == endpoint@,
        call.host@ == host@,
        call.signer.service@ == "kinesis"@,
        call.signer.region@ == region@,
        call.signer.access_key@ == access_key@,
        call.signer.secret_key@ == secret_key@,
        call.timeout is None,
{
}

/// Without an authority there is no client, and the failure is that of the
/// authority.
pub proof fn law_no_authority_no_client(
    endpoint: &str,
    failure: TransportError,
    region: &str,
    access_key: &str,
    secret_key: &str,
    made: Result<Client, TransportError>,
)
    requires
        call_ensures(
            Client::new,
            (endpoint, Err::<String, TransportError>(failure), region, access_key, secret_key),
            made,
        ),
    ensures
        made matches Err(failed) && failed == failure,
{
}

/// A timeout changes what is asked in nothing but the timeout.
pub proof fn law_a_client_gives_up_after_its_timeout(
    client: Client,
    timeout: Duration,
    hasty: Client,
    iterator: &str,
    limit: u16,
    before: Call,
    after: Call,
)
    requires
        call_ensures(Client::timing_out_after, (client, timeout), hasty),
        call_ensures(Client::get_records, (&client, iterator, limit), before),
        call_ensures(Client::get_records, (&hasty, iterator, limit), after),
    ensures
        after.timeout == Some(timeout),
        same_way(after, Call { timeout: Some(timeout), ..before }),
        after.action@ == before.action@,
        json(after.document) == json(before.document),
{
}

/// Whatever one client asks goes one way.
pub proof fn law_all_calls_of_a_client_go_one_way(
    client: Client,
    stream: &str,
    key: &str,
    data: &str,
    bytes: &[u8],
    shard: &str,
    position: Position,
    iterator: &str,
    limit: u16,
    encoded: Call,
    put: Call,
    iterate: Call,
    read: Call,
)
    requires
        call_ensures(Client::put_encoded, (&client, stream, key, data), encoded),
        call_ensures(Client::put_record, (&client, stream, key, bytes), put),
        call_ensures(Client::shard_iterator, (&client, stream, shard, position), iterate),
        call_ensures(Client::get_records, (&client, iterator, limit), read),
    ensures
        same_way(encoded, put),
        same_way(put, iterate),
        same_way(iterate, read),
        encoded.action@ == "PutRecord"@,
        put.action@ == "PutRecord"@,
        iterate.action@ == "GetShardIterator"@,
        read.action@ == "GetRecords"@,
{
}

/// Putting a record names its stream, its partition key and its data, and
/// nothing else.
pub proof fn law_a_put_names_stream_key_and_data(
    client: Client,
    stream: &str,
    key: &str,
    data: &str,
    call: Call,
)
    requires
        call_ensures(Client::put_encoded, (&client, stream, key, data), call),
    ensures
        says(json(call.document), "StreamName"@, stream@),
        says(json(call.document), "PartitionKey"@, key@),
        says(json(call.document), "Data"@, data@),
        json(call.document)->Object_0.dom() == set!["StreamName"@, "PartitionKey"@, "Data"@],
{
    lemma_words();
    assert(json(call.document)->Object_0.dom() =~= set![
        "StreamName"@,
        "PartitionKey"@,
        "Data"@,
    ]);
}

/// Putting bytes puts their base64, which decodes to those bytes.
pub proof fn law_a_put_carries_its_bytes(
    client: Client,
    stream: &str,
    key: &str,
    bytes: &[u8],
    call: Call,
)
    requires
        call_ensures(Client::put_record, (&client, stream, key, bytes), call),
    ensures
        says(json(call.document), "StreamName"@, stream@),
        says(json(call.document), "PartitionKey"@, key@),
        says(json(call.document), "Data"@, base64_text(bytes@)),
        base64_bytes(base64_text(bytes@)) matches Ok(back) && back == bytes@,
        json(call.document)->Object_0.dom() == set!["StreamName"@, "PartitionKey"@, "Data"@],
{
    lemma_words();
    assert(json(call.document)->Object_0.dom() =~= set![
        "StreamName"@,
        "PartitionKey"@,
        "Data"@,
    ]);
}

/// Asking for an iterator names the stream and the shard that are asked
/// about, whatever the position, and the position's kind; the number to begin
/// behind is named where there is one, and only there.
pub proof fn law_an_iterator_is_asked_of_the_shard_given(
    client: Client,
    stream: &str,
    shard: &str,
    position: Position,
    call: Call,
)
    requires
        call_ensures(Client::shard_iterator, (&client, stream, shard, position), call),
    ensures
        says(json(call.document), "StreamName"@, stream@),
        says(json(call.document), "ShardId"@, shard@),
        match position {
            Position::Oldest => {
                &&& says(json(call.document), "ShardIteratorType"@, "TRIM_HORIZON"@)
                &&& lacks(json(call.document), "StartingSequenceNumber"@)
            },
            Position::Latest => {
                &&& says(json(call.document), "ShardIteratorType"@, "LATEST"@)
                &&& lacks(json(call.document), "StartingSequenceNumber"@)
            },
            Position::After(number) => {
                &&& says(json(call.document), "ShardIteratorType"@, "AFTER_SEQUENCE_NUMBER"@)
                &&& says(json(call.document), "StartingSequenceNumber"@, number@)
            },
        },
        json(call.document)->Object_0.dom().subset_of(
            set!["StreamName"@, "ShardId"@, "ShardIteratorType"@, "StartingSequenceNumber"@],
        ),
{
    lemma_words();
}

/// Asking for records names the iterator and the limit, and nothing else.
pub proof fn law_records_are_asked_of_the_iterator_given(
    client: Client,
    iterator: &str,
    limit: u16,
    call: Call,
)
    requires
        call_ensures(Client::get_records, (&client, iterator, limit), call),
    ensures
        says(json(call.document), "ShardIterator"@, iterator@),
        json(call.document)->Object_0.dom() == set!["ShardIterator"@, "Limit"@],
        json(call.document)->Object_0["Limit"@] == Json::Unsigned(limit as u64),
{
    lemma_words();
    assert(json(call.document)->Object_0.dom() =~= set!["ShardIterator"@, "Limit"@]);
}

/// A put landed at the shard and the number that the answer says, and an
/// iterator is the one that it says; each is empty where it says none.
pub proof fn law_a_reply_says_shard_number_and_iterator(
    answer: Value,
    landed: Result<(String, String), TransportError>,
    iterator: Result<String, TransportError>,
)
    requires
        call_ensures(
            Client::put_record_reply,
            (Ok::<Value, TransportError>(answer),),
            landed,
        ),
        call_ensures(
            Client::shard_iterator_reply,
            (Ok::<Value, TransportError>(answer),),
            iterator,
        ),
    ensures
        landed is Ok,
        iterator is Ok,
        reads(json(answer), "ShardId"@, landed->Ok_0.0@),
        reads(json(answer), "SequenceNumber"@, landed->Ok_0.1@),
        reads(json(answer), "ShardIterator"@, iterator->Ok_0@),
{
    lemma_text_of(json(answer), "ShardId"@);
    lemma_text_of(json(answer), "SequenceNumber"@);
    lemma_text_of(json(answer), "ShardIterator"@);
}

/// Text is found where it is said, and nowhere else.
pub proof fn lemma_text_of(document: Json, name: Seq<char>)
    ensures
        forall|text: Seq<char>| says(document, name, text) ==> text_of(document, name) == text,
        says(document, name, text_of(document, name)) || text_of(document, name).len() == 0,
        (forall|text: Seq<char>| !says(document, name, text)) ==> text_of(document, name)
            == Seq::<char>::empty(),
        forall|text: Seq<char>| reads(document, name, text) ==> text_of(document, name) == text,
        reads(document, name, text_of(document, name)),
{
    if text_of(document, name).len() > 0 {
        assert(says(document, name, text_of(document, name)));
    }
    if document is Object && document->Object_0.contains_key(name)
        && document->Object_0[name] is Text {
        assert(says(document, name, document->Object_0[name]->Text_0));
    }
    assert forall|text: Seq<char>| reads(document, name, text) implies text_of(document, name)
        == text by {
        if text.len() == 0 {
            assert(text =~= Seq::<char>::empty());
        }
    }
}

/// A failure of a call is the failure of what was asked.
pub proof fn law_a_failed_call_fails_alike(
    failure: TransportError,
    landed: Result<(String, String), TransportError>,
    iterator: Result<String, TransportError>,
    taken: Result<(Vec<Record>, Option<String>), TransportError>,
)
    requires
        call_ensures(
            Client::put_record_reply,
            (Err::<Value, TransportError>(failure),),
            landed,
        ),
        call_ensures(
            Client::shard_iterator_reply,
            (Err::<Value, TransportError>(failure),),
            iterator,
        ),
        call_ensures(
            Client::get_records_reply,
            (Err::<Value, TransportError>(failure),),
            taken,
        ),
    ensures
        landed matches Err(failed) && failed == failure,
        iterator matches Err(failed) && failed == failure,
        taken matches Err(failed) && failed == failure,
{
}

/// A record has the number and the key its item says, empty where it says
/// none, and the bytes that the data it says, or none, decodes to.
pub proof fn law_a_record_is_what_its_item_says(
    item: &Value,
    bytes: Seq<u8>,
    data: Seq<char>,
    found: Result<Record, TransportError>,
)
    requires
        reads(json(*item), "Data"@, data),
        base64_bytes(data) matches Ok(b) && b == bytes,
        call_ensures(record, (item,), found),
    ensures
        found is Ok,
        found->Ok_0.data@ == bytes,
        forall|number: Seq<char>|
            reads(json(*item), "SequenceNumber"@, number) ==> found->Ok_0.sequence_number@
                == number,
        forall|key: Seq<char>|
            reads(json(*item), "PartitionKey"@, key) ==> found->Ok_0.partition_key@ == key,
{
    lemma_reads(json(*item), "Data"@, data);
    lemma_text_of(json(*item), "SequenceNumber"@);
    lemma_text_of(json(*item), "PartitionKey"@);
}

/// An item whose data does not decode is no record, and the failure ends in
/// what the decoder says.
pub proof fn law_what_is_not_base64_is_no_record(
    item: &Value,
    data: Seq<char>,
    found: Result<Record, TransportError>,
)
    requires
        reads(json(*item), "Data"@, data),
        base64_bytes(data) is Err,
        call_ensures(record, (item,), found),
    ensures
        found matches Err(TransportError::Protocol(message)) && message@
            == "a record whose Data is not base64: "@ + base64_bytes(data)->Err_0,
{
    lemma_text_of(json(*item), "Data"@);
}

/// A record is built of its item and of whatever its data decoded to.
pub proof fn law_a_record_takes_the_bytes_given(
    item: &Value,
    bytes: Vec<u8>,
    why: String,
    found: Result<Record, TransportError>,
    failed: Result<Record, TransportError>,
)
    requires
        call_ensures(record_from, (item, Ok::<Vec<u8>, String>(bytes)), found),
        call_ensures(record_from, (item, Err::<Vec<u8>, String>(why)), failed),
    ensures
        found is Ok,
        found->Ok_0.data@ == bytes@,
        forall|number: Seq<char>|
            reads(json(*item), "SequenceNumber"@, number) ==> found->Ok_0.sequence_number@
                == number,
        forall|key: Seq<char>|
            reads(json(*item), "PartitionKey"@, key) ==> found->Ok_0.partition_key@ == key,
        failed matches Err(TransportError::Protocol(message)) && message@
            == "a record whose Data is not base64: "@ + why@,
{
    lemma_text_of(json(*item), "SequenceNumber"@);
    lemma_text_of(json(*item), "PartitionKey"@);
}

/// An answer whose items all decode gives as many records, each that of the
/// item at its place; where the answer lists none, there are none.
pub proof fn law_every_item_is_a_record_in_its_place(
    answer: Value,
    items: Seq<Json>,
    taken: Result<(Vec<Record>, Option<String>), TransportError>,
)
    requires
        json(answer) matches Json::Object(members) && members.contains_key("Records"@)
            && members["Records"@] == Json::List(items),
        forall|i: int|
            0 <= i < items.len() ==> exists|data: Seq<char>|
                reads(#[trigger] items[i], "Data"@, data) && base64_bytes(data) is Ok,
        call_ensures(
            Client::get_records_reply,
            (Ok::<Value, TransportError>(answer),),
            taken,
        ),
    ensures
        taken is Ok,
        taken->Ok_0.0.len() == items.len(),
        forall|i: int, data: Seq<char>|
            0 <= i < items.len() && #[trigger] reads(items[i], "Data"@, data) ==> (base64_bytes(
                data,
            ) matches Ok(bytes) ==> taken->Ok_0.0[i].data@ == bytes),
        forall|i: int, number: Seq<char>|
            0 <= i < items.len() && #[trigger] reads(items[i], "SequenceNumber"@, number)
                ==> taken->Ok_0.0[i].sequence_number@ == number,
        forall|i: int, key: Seq<char>|
            0 <= i < items.len() && #[trigger] reads(items[i], "PartitionKey"@, key)
                ==> taken->Ok_0.0[i].partition_key@ == key,
{
    assert(items_of(json(answer)) == items);
    assert forall|i: int| 0 <= i < items.len() implies record_of(#[trigger] items[i]) is Ok by {
        lemma_text_of(items[i], "Data"@);
    }
    lemma_all_records(items);
    let found = taken->Ok_0.0;
    assert forall|i: int| 0 <= i < items.len() implies record_of(#[trigger] items[i])->Ok_0
        == found[i]@ by {
        assert(views(found@)[i] == found[i]@);
    }
    assert forall|i: int, data: Seq<char>|
        0 <= i < items.len() && #[trigger] reads(items[i], "Data"@, data) implies (base64_bytes(
        data,
    ) matches Ok(bytes) ==> found[i].data@ == bytes) by {
        lemma_text_of(items[i], "Data"@);
        assert(record_of(items[i])->Ok_0 == found[i]@);
    }
    assert forall|i: int, number: Seq<char>|
        0 <= i < items.len() && #[trigger] reads(
            items[i],
            "SequenceNumber"@,
            number,
        ) implies found[i].sequence_number@ == number by {
        lemma_text_of(items[i], "SequenceNumber"@);
        assert(record_of(items[i])->Ok_0 == found[i]@);
    }
    assert forall|i: int, key: Seq<char>|
        0 <= i < items.len() && #[trigger] reads(
            items[i],
            "PartitionKey"@,
            key,
        ) implies found[i].partition_key@ == key by {
        lemma_text_of(items[i], "PartitionKey"@);
        assert(record_of(items[i])->Ok_0 == found[i]@);
    }
}

/// Items that each hold a record hold them all, each in its place.
pub proof fn lemma_all_records(items: Seq<Json>)
    requires
        forall|i: int| 0 <= i < items.len() ==> record_of(#[trigger] items[i]) is Ok,
    ensures
        records_of(items) is Ok,
        records_of(items)->Ok_0.len() == items.len(),
        forall|i: int|
            0 <= i < items.len() ==> record_of(#[trigger] items[i])->Ok_0
                == records_of(items)->Ok_0[i],
    decreases items.len(),
{
    if items.len() > 0 {
        let less = items.drop_last();
        assert forall|i: int| 0 <= i < less.len() implies record_of(#[trigger] less[i]) is Ok by {
            assert(less[i] == items[i]);
        }
        lemma_all_records(less);
        assert(items[items.len() - 1] == items.last());
        assert forall|i: int| 0 <= i < items.len() implies record_of(#[trigger] items[i])->Ok_0
            == records_of(items)->Ok_0[i] by {
            if i < less.len() {
                assert(less[i] == items[i]);
            }
        }
    }
}

/// One item that does not decode fails the whole answer, and the first such
/// item says how.
pub proof fn law_the_first_bad_item_fails_the_answer(
    answer: Value,
    items: Seq<Json>,
    bad: int,
    data: Seq<char>,
    taken: Result<(Vec<Record>, Option<String>), TransportError>,
)
    requires
        json(answer) matches Json::Object(members) && members.contains_key("Records"@)
            && members["Records"@] == Json::List(items),
        0 <= bad < items.len(),
        reads(items[bad], "Data"@, data),
        base64_bytes(data) is Err,
        forall|i: int|
            0 <= i < bad ==> exists|text: Seq<char>|
                reads(#[trigger] items[i], "Data"@, text) && base64_bytes(text) is Ok,
        call_ensures(
            Client::get_records_reply,
            (Ok::<Value, TransportError>(answer),),
            taken,
        ),
    ensures
        taken matches Err(TransportError::Protocol(message)) && message@
            == "a record whose Data is not base64: "@ + base64_bytes(data)->Err_0,
{
    assert(items_of(json(answer)) == items);
    let good = items.take(bad);
    assert forall|i: int| 0 <= i < good.len() implies record_of(#[trigger] good[i]) is Ok by {
        assert(good[i] == items[i]);
        lemma_text_of(items[i], "Data"@);
    }
    lemma_all_records(good);
    lemma_text_of(items[bad], "Data"@);
    let upto = items.take(bad + 1);
    assert(upto.drop_last() =~= good);
    assert(upto.last() == items[bad]);
    lemma_failure_stays(items, bad + 1);
}

proof fn lemma_failure_stays(items: Seq<Json>, n: int)
    requires
        0 <= n <= items.len(),
        records_of(items.take(n)) is Err,
    ensures
        records_of(items) == records_of(items.take(n)),
    decreases items.len() - n,
{
    if n == items.len() {
        assert(items.take(n) =~= items);
    } else {
        assert(items.take(n + 1).drop_last() =~= items.take(n));
        lemma_failure_stays(items, n + 1);
    }
}

/// An answer that lists nothing gives no records; the iterator to continue
/// with is the one it says, and none where it says none.
pub proof fn law_an_answer_says_how_to_go_on(
    answer: Value,
    taken: Result<(Vec<Record>, Option<String>), TransportError>,
)
    requires
        call_ensures(
            Client::get_records_reply,
            (Ok::<Value, TransportError>(answer),),
            taken,
        ),
    ensures
        !(json(answer) matches Json::Object(members) && members.contains_key("Records"@)
            && members["Records"@] is List) ==> taken is Ok && taken->Ok_0.0.len() == 0,
        taken is Ok ==> forall|next: Seq<char>|
            says(json(answer), "NextShardIterator"@, next) ==> taken->Ok_0.1 is Some
                && taken->Ok_0.1->Some_0@ == next,
        taken is Ok && (forall|next: Seq<char>| !says(json(answer), "NextShardIterator"@, next))
            ==> taken->Ok_0.1 is None,
{
    if taken is Ok {
        assert(views(taken->Ok_0.0@).len() == taken->Ok_0.0.len());
        if taken->Ok_0.1 is Some {
            assert(says(json(answer), "NextShardIterator"@, taken->Ok_0.1->Some_0@));
        }
    }
}

/// What went wrong is what was said of it; asking again helps where that was
/// reported, never where it is ruled out.
pub proof fn law_a_failure_says_what_it_is(
    failure: TransportError,
    message: &str,
    retryable: Option<bool>,
)
    requires
        call_ensures(TransportError::message, (&failure,), message),
        call_ensures(TransportError::retryable, (&failure,), retryable),
    ensures
        match failure {
            TransportError::Permanent(said) => message@ == said@ && retryable == Some(false),
            TransportError::Protocol(said) => message@ == said@ && retryable is None,
            TransportError::Reported { message: said, retryable: again } => message@ == said@
                && retryable == Some(again),
        },
{
}

/// What arrives is what was handed over.
pub proof fn law_an_arrival_keeps_its_parts(origin_uri: String, bytes: Vec<u8>, arrived: Arrived)
    requires
        call_ensures(Arrived::new, (origin_uri, bytes), arrived),
    ensures
        arrived.origin_uri@ == origin_uri@,
        arrived.bytes@ == bytes@,
{
}

} // verus!
