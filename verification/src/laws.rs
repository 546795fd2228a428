//! What holds between the two ends, and across calls.
pub mod calls;
pub mod session;
pub mod text;
pub mod transport;

use crate::client::{
    items_of, iterator_document, next_of, put_document, record_of, records_document, records_of,
    CallView, ClientView, RecordView, MAX_RECORDS,
};
use crate::document::{text_of, Json};
use crate::encoding::{base64_text, carried};
use crate::error::{ArrivedView, ErrorView};
use crate::session::{
    first_at, item_of, items_for, iterator_answer, iterator_text, lemma_put_wf, limit_of,
    origin_uri, put_answer, records_answer, sequence_number, start_of, window, EventView,
    Outcome, ReplyView, SessionView,
};
use crate::text::{
    decimal, lemma_digits_sort, lemma_index_round_trip, lemma_split_last_of_join,
    lemma_u64_digits, lemma_zero_filled, parsed_index, sorts_before, split_last,
};
use crate::transport::{reading, NextView, ReceivingView, TransportView};
use crate::SHARD;
use vstd::prelude::*;

verus! {

/// What `session` makes of `call`, signed with its own credential.
pub open spec fn answered(session: SessionView, call: CallView) -> Outcome {
    session.answer(Ok(()), Ok(call.document), Some(call.action))
}

/// The document a request was answered with.
pub open spec fn answer_in(outcome: Outcome) -> Json {
    outcome.reply->Answered_0
}

/// How long the words are that documents and actions are made of.
pub proof fn lemma_words()
    ensures
        "Data"@.len() == 4,
        "Limit"@.len() == 5,
        "ShardId"@.len() == 7,
        "Records"@.len() == 7,
        "StreamName"@.len() == 10,
        "PartitionKey"@.len() == 12,
        "ShardIterator"@.len() == 13,
        "SequenceNumber"@.len() == 14,
        "ShardIteratorType"@.len() == 17,
        "NextShardIterator"@.len() == 17,
        "MillisBehindLatest"@.len() == 18,
        "StartingSequenceNumber"@.len() == 22,
        "PutRecord"@.len() == 9,
        "GetRecords"@.len() == 10,
        "GetShardIterator"@.len() == 16,
        "LATEST"@.len() == 6,
        "TRIM_HORIZON"@.len() == 12,
        "AFTER_SEQUENCE_NUMBER"@.len() == 21,
        "/"@ == seq!['/'],
{
    reveal_strlit("Data");
    reveal_strlit("Limit");
    reveal_strlit("ShardId");
    reveal_strlit("Records");
    reveal_strlit("StreamName");
    reveal_strlit("PartitionKey");
    reveal_strlit("ShardIterator");
    reveal_strlit("SequenceNumber");
    reveal_strlit("ShardIteratorType");
    reveal_strlit("NextShardIterator");
    reveal_strlit("MillisBehindLatest");
    reveal_strlit("StartingSequenceNumber");
    reveal_strlit("PutRecord");
    reveal_strlit("GetRecords");
    reveal_strlit("GetShardIterator");
    reveal_strlit("LATEST");
    reveal_strlit("TRIM_HORIZON");
    reveal_strlit("AFTER_SEQUENCE_NUMBER");
    reveal_strlit("/");
    assert("/"@ =~= seq!['/']);
}

/// A request whose signature does not verify is answered with that, whatever
/// else it holds, and changes nothing.
pub proof fn law_unsigned_is_refused(
    session: SessionView,
    failure: ErrorView,
    document: Result<Json, ErrorView>,
    action: Option<Seq<char>>,
)
    ensures
        session.answer(Err(failure), document, action) == session.refusing(
            403,
            "InvalidSignatureException"@,
            failure.message(),
        ),
{
}

/// `after` is `before` with one record more, at the end of `stream`.
pub open spec fn grew(
    before: SessionView,
    after: SessionView,
    stream: Seq<char>,
    record: RecordView,
) -> bool {
    &&& before.streams.contains_key(stream)
    &&& record.sequence_number == sequence_number(before.next)
    &&& after == SessionView {
        streams: before.streams.insert(stream, before.streams[stream].push(record)),
        next: before.next + 1,
        ..before
    }
}

/// Only a record that is taken changes a session, and by that record alone,
/// at the end of one stream: a session is read, never consumed, no request
/// removes or alters what is held, and a refused one leaves all as it was.
/// What is refused is answered with the exception it is reported as.
pub proof fn law_only_a_put_changes_a_session(
    session: SessionView,
    verified: Result<(), ErrorView>,
    document: Result<Json, ErrorView>,
    action: Option<Seq<char>>,
)
    ensures
        ({
            let outcome = session.answer(verified, document, action);
            &&& !(outcome.event is Put) ==> outcome.session == session
            &&& outcome.event matches EventView::Put(arrived) ==> exists|
                stream: Seq<char>,
                record: RecordView,
            | #[trigger]
                grew(session, outcome.session, stream, record) && arrived == (ArrivedView {
                    origin_uri: origin_uri(stream, SHARD@, record.sequence_number),
                    bytes: record.data,
                })
            &&& outcome.event is Refused <==> outcome.reply is Refused
            &&& outcome.reply is Refused ==> outcome.event == EventView::Refused(
                outcome.reply->kind,
            )
            &&& forall|stream: Seq<char>, i: int| #[trigger]
                session.holds(stream, i) ==> outcome.session.holds(stream, i)
                    && outcome.session.streams[stream][i] == session.streams[stream][i]
        }),
{
    let outcome = session.answer(verified, document, action);
    if outcome.event is Put {
        let asked = document->Ok_0;
        let stream = text_of(asked, "StreamName"@);
        let record = RecordView {
            sequence_number: sequence_number(session.next),
            partition_key: text_of(asked, "PartitionKey"@),
            data: outcome.event->Put_0.bytes,
        };
        assert(grew(session, outcome.session, stream, record));
    }
}

/// A record put on a stream that is held is taken there, at the end, with the
/// session's next number and its bytes as they were; no other stream changes.
pub proof fn law_a_put_is_taken(
    session: SessionView,
    stream: Seq<char>,
    partition_key: Seq<char>,
    bytes: Seq<u8>,
)
    requires
        session.streams.contains_key(stream),
        carried(bytes),
    ensures
        ({
            let outcome = session.answer(
                Ok(()),
                Ok(put_document(stream, partition_key, bytes)),
                Some("PutRecord"@),
            );
            let number = sequence_number(session.next);
            &&& outcome.session == SessionView {
                streams: session.streams.insert(
                    stream,
                    session.streams[stream].push(
                        RecordView { sequence_number: number, partition_key, data: bytes },
                    ),
                ),
                next: session.next + 1,
                ..session
            }
            &&& outcome.event == EventView::Put(
                ArrivedView { origin_uri: origin_uri(stream, SHARD@, number), bytes },
            )
            &&& outcome.reply == ReplyView::Answered(put_answer(number))
            &&& text_of(answer_in(outcome), "ShardId"@) == SHARD@
            &&& text_of(answer_in(outcome), "SequenceNumber"@) == number
        }),
{
    lemma_words();
}

/// What is sent to a stream that the session holds arrives there whole, its
/// origin the one under which a receive from that shard hands it on.
pub proof fn law_what_is_sent_arrives(
    transport: TransportView,
    session: SessionView,
    host: Seq<char>,
    target: Seq<char>,
    bytes: Seq<u8>,
)
    requires
        bytes.len() <= 1024 * 1024,
        carried(bytes),
        session.streams.contains_key(transport.resolve(target)),
    ensures
        transport.send(Ok(host), target, bytes) matches Ok(call) && {
            let outcome = answered(session, call);
            let stream = transport.resolve(target);
            &&& outcome.event matches EventView::Put(arrived)
            &&& arrived.bytes == bytes
            &&& outcome.session.streams[stream].drop_last() == session.streams[stream]
            &&& outcome.session.streams[stream].last().data == bytes
            &&& outcome.session.streams[stream].last().partition_key == transport.partition_key
            &&& transport.stream == stream && transport.shard == SHARD@ ==> arrived
                == transport.arrival(outcome.session.streams[stream].last())
        },
{
    let stream = transport.resolve(target);
    law_a_put_is_taken(session, stream, transport.partition_key, bytes);
    let record = RecordView {
        sequence_number: sequence_number(session.next),
        partition_key: transport.partition_key,
        data: bytes,
    };
    assert(session.streams[stream].push(record).drop_last() =~= session.streams[stream]);
}

/// The session that a transport stands up, and a near end aimed at it: what
/// is sent without a target arrives whole, as the first record of the
/// transport's stream.
pub proof fn law_loopback_round(
    transport: TransportView,
    session: SessionView,
    address: Seq<char>,
    host: Seq<char>,
    bytes: Seq<u8>,
)
    requires
        session.streams == map![transport.stream => Seq::<RecordView>::empty()],
        session.next == 1,
        bytes.len() <= 1024 * 1024,
        carried(bytes),
    ensures
        transport.aimed_at(address).send(Ok(host), Seq::empty(), bytes) matches Ok(call)
            && answered(session, call).event == EventView::Put(
            ArrivedView {
                origin_uri: origin_uri(transport.stream, SHARD@, sequence_number(1)),
                bytes,
            },
        ),
{
    law_a_put_is_taken(session, transport.stream, transport.partition_key, bytes);
}

/// More than one record carries is refused before anything else is looked at.
pub proof fn law_over_the_ceiling_is_refused(
    transport: TransportView,
    authority: Result<Seq<char>, ErrorView>,
    target: Seq<char>,
    bytes: Seq<u8>,
)
    ensures
        bytes.len() > 1024 * 1024 ==> transport.send(authority, target, bytes) == Err::<
            CallView,
            ErrorView,
        >(TransportView::over_the_ceiling(bytes.len())),
        bytes.len() <= 1024 * 1024 && authority is Ok ==> transport.send(
            authority,
            target,
            bytes,
        ) is Ok,
{
}

/// An iterator leads back to the stream and the index it was made of,
/// whatever the stream is called.
pub proof fn law_iterator_round_trip(stream: Seq<char>, at: usize)
    ensures
        split_last(iterator_text(stream, at as nat)) == Some((stream, decimal(at as nat))),
        parsed_index(decimal(at as nat)) == Some(at),
{
    lemma_words();
    lemma_index_round_trip(at);
    lemma_split_last_of_join(stream, decimal(at as nat));
    assert(stream + "/"@ =~= stream.push('/'));
}

/// A client reads from an answer the very records that it was made of.
pub proof fn law_records_come_back(records: Seq<RecordView>, next: Seq<char>)
    requires
        forall|i: int| 0 <= i < records.len() ==> carried((#[trigger] records[i]).data),
    ensures
        records_of(items_of(records_answer(records, next))) == Ok::<Seq<RecordView>, ErrorView>(
            records,
        ),
        next_of(records_answer(records, next)) == Some(next),
{
    lemma_words();
    assert(items_of(records_answer(records, next)) == items_for(records));
    lemma_items_read(records);
}

proof fn lemma_items_read(records: Seq<RecordView>)
    requires
        forall|i: int| 0 <= i < records.len() ==> carried((#[trigger] records[i]).data),
    ensures
        records_of(items_for(records)) == Ok::<Seq<RecordView>, ErrorView>(records),
    decreases records.len(),
{
    lemma_words();
    if records.len() == 0 {
        assert(records =~= Seq::empty());
    } else {
        assert forall|i: int| 0 <= i < records.drop_last().len() implies carried(
            (#[trigger] records.drop_last()[i]).data,
        ) by {
            assert(carried(records[i].data));
        }
        lemma_items_read(records.drop_last());
        assert(items_for(records).drop_last() =~= items_for(records.drop_last()));
        assert(carried(records[records.len() - 1].data));
        assert(record_of(item_of(records.last())) == Ok::<RecordView, ErrorView>(records.last()));
        assert(records.drop_last().push(records.last()) =~= records);
    }
}

/// Reading on with the iterator that an answer hands back gives what follows:
/// the two readings together list what one of both lengths lists, and lead on
/// to where it leads.
pub proof fn law_reading_goes_on(
    session: SessionView,
    stream: Seq<char>,
    at: usize,
    first: u64,
    second: u64,
)
    requires
        session.streams.contains_key(stream),
        session.streams[stream].len() <= usize::MAX,
        first + second <= u64::MAX,
    ensures
        ({
            let from = iterator_text(stream, at as nat);
            let one = session.read(records_document(from, first));
            let two = session.read(records_document(next_of(answer_in(one))->Some_0, second));
            let both = session.read(records_document(from, (first + second) as u64));
            &&& one.reply is Answered
            &&& next_of(answer_in(one)) is Some
            &&& two.reply is Answered
            &&& both.reply is Answered
            &&& items_of(answer_in(both)) == items_for(
                window(session.streams[stream], at as nat, Some((first + second) as u64)),
            )
            &&& items_of(answer_in(one)) + items_of(answer_in(two)) == items_of(answer_in(both))
            &&& next_of(answer_in(two)) == next_of(answer_in(both))
        }),
{
    let held = session.streams[stream];
    let taken = window(held, at as nat, Some(first));
    let further = (at + taken.len()) as usize;
    let rest = window(held, further as nat, Some(second));
    let all = window(held, at as nat, Some((first + second) as u64));
    lemma_read_at(session, stream, at, first);
    lemma_read_at(session, stream, further, second);
    lemma_read_at(session, stream, at, (first + second) as u64);
    assert(items_for(taken) + items_for(rest) =~= items_for(all));
    assert(taken.len() + rest.len() == all.len());
}

proof fn lemma_read_at(session: SessionView, stream: Seq<char>, at: usize, limit: u64)
    requires
        session.streams.contains_key(stream),
    ensures
        ({
            let taken = window(session.streams[stream], at as nat, Some(limit));
            let next = iterator_text(stream, at as nat + taken.len());
            let outcome = session.read(
                records_document(iterator_text(stream, at as nat), limit),
            );
            &&& outcome.reply == ReplyView::Answered(records_answer(taken, next))
            &&& outcome.session == session
            &&& items_of(records_answer(taken, next)) == items_for(taken)
            &&& next_of(records_answer(taken, next)) == Some(next)
        }),
{
    lemma_words();
    law_iterator_round_trip(stream, at);
    let asked = records_document(iterator_text(stream, at as nat), limit);
    assert(text_of(asked, "ShardIterator"@) == iterator_text(stream, at as nat));
    assert(limit_of(asked) == Some(limit));
}

/// An iterator after a record that is held begins at the record behind it.
pub proof fn law_after_begins_behind(session: SessionView, stream: Seq<char>, i: int)
    requires
        session.wf(),
        session.holds(stream, i),
    ensures
        start_of(
            session.streams[stream],
            "AFTER_SEQUENCE_NUMBER"@,
            session.streams[stream][i].sequence_number,
        ) == Ok::<nat, Seq<char>>((i + 1) as nat),
{
    lemma_words();
    let held = session.streams[stream];
    let number = held[i].sequence_number;
    assert forall|j: int| 0 <= j < held.len() && (#[trigger] held[j]).sequence_number
        == number implies j == i by {
        assert(session.holds(stream, j));
        assert(session.streams[stream][j] == held[j]);
        assert(session.streams[stream][i] == held[i]);
    }
    assert(first_at(held, number, i));
}

/// The numbers of a session are all of one width, tell its records apart, and
/// sort as the records came.
pub proof fn law_numbers_sort_as_they_are_given(n: nat, m: nat)
    requires
        n < m <= u64::MAX,
    ensures
        sequence_number(n).len() == 21,
        sequence_number(m).len() == 21,
        sequence_number(n) != sequence_number(m),
        sorts_before(sequence_number(n), sequence_number(m)),
{
    lemma_u64_digits(n);
    lemma_u64_digits(m);
    lemma_zero_filled(n, 21);
    lemma_zero_filled(m, 21);
    lemma_digits_sort(sequence_number(n), sequence_number(m));
}

/// Along a shard sequence numbers sort as the records stand.
pub proof fn law_a_shard_is_in_order(session: SessionView, stream: Seq<char>, i: int, j: int)
    requires
        session.wf(),
        session.holds(stream, i),
        session.holds(stream, j),
        i < j,
    ensures
        sorts_before(
            session.streams[stream][i].sequence_number,
            session.streams[stream][j].sequence_number,
        ),
{
    assert(session.streams[stream][i] == session.streams[stream][i]);
    assert(session.streams[stream][j] == session.streams[stream][j]);
    law_numbers_sort_as_they_are_given(session.number(stream, i), session.number(stream, j));
}

/// `transport` has handed on the first `k` records of its stream in
/// `session`, and no more.
pub open spec fn stands_at(transport: TransportView, session: SessionView, k: int) -> bool {
    &&& session.wf()
    &&& session.faithful()
    &&& transport.shard == SHARD@
    &&& session.streams.contains_key(transport.stream)
    &&& session.streams[transport.stream].len() <= usize::MAX
    &&& 0 <= k <= session.streams[transport.stream].len()
    &&& match transport.position {
        Some(number) => k > 0 && number == session.streams[transport.stream][k
            - 1].sequence_number,
        None => k == 0,
    }
}

/// What a receive comes to once `session` has answered up to `calls` of its
/// calls: the transport, the session, and what is next.
pub open spec fn carry_on(
    transport: TransportView,
    session: SessionView,
    next: NextView,
    calls: nat,
) -> (TransportView, SessionView, NextView)
    decreases calls,
{
    match next {
        NextView::Ask(receiving, call) => if calls == 0 {
            (transport, session, next)
        } else {
            let outcome = answered(session, call);
            match outcome.reply {
                ReplyView::Answered(answer) => {
                    let (moved, then) = transport.resume(receiving, Ok(answer));
                    carry_on(moved, outcome.session, then, (calls - 1) as nat)
                },
                ReplyView::Refused { .. } => (transport, session, next),
            }
        },
        NextView::Done(_) => (transport, session, next),
    }
}

/// A receive from `session`, up to `calls` of its calls answered there.
pub open spec fn received(
    transport: TransportView,
    session: SessionView,
    host: Seq<char>,
    calls: nat,
) -> (TransportView, SessionView, NextView) {
    carry_on(transport, session, transport.receive(Ok(host)), calls)
}

/// How many calls a receive of `unread` records makes: one for the iterator,
/// one for every full page, and one for the page behind those.
pub open spec fn calls_for(unread: nat) -> nat {
    2 + unread / MAX_RECORDS as nat
}

/// A receive first asks for an iterator at its place, is given the one that
/// begins behind the last record handed on, and reads on from there.
pub proof fn law_a_receive_asks_at_its_place(
    transport: TransportView,
    session: SessionView,
    host: Seq<char>,
    k: int,
)
    requires
        stands_at(transport, session, k),
    ensures
        ({
            let client = transport.client(host);
            let iterator = iterator_text(transport.stream, k as nat);
            &&& transport.receive(Ok(host)) matches NextView::Ask(receiving, call)
            &&& answered(session, call) == (Outcome {
                session,
                event: EventView::Iterated {
                    stream: transport.stream,
                    kind: transport.from().kind(),
                },
                reply: ReplyView::Answered(iterator_answer(iterator)),
            })
            &&& transport.resume(receiving, Ok(iterator_answer(iterator))) == (
                transport,
                reading(client, Seq::empty(), iterator),
            )
        }),
{
    lemma_words();
    let stream = transport.stream;
    let held = session.streams[stream];
    let from = transport.from();
    let asked_for = iterator_document(stream, SHARD@, from);
    if transport.position is Some {
        assert(session.holds(stream, k - 1));
        law_after_begins_behind(session, stream, k - 1);
        assert(text_of(asked_for, "StartingSequenceNumber"@) == held[k - 1].sequence_number);
    }
    assert(text_of(asked_for, "StreamName"@) == stream);
    assert(text_of(asked_for, "ShardId"@) == SHARD@);
    assert(text_of(asked_for, "ShardIteratorType"@) == from.kind());
    let iterator = iterator_text(stream, k as nat);
    assert(text_of(iterator_answer(iterator), "ShardIterator"@) == iterator);
}

/// A receive that has taken the records from `k` to `j` takes the rest, page
/// by page.
proof fn lemma_pages(
    transport: TransportView,
    session: SessionView,
    client: ClientView,
    k: int,
    j: int,
    calls: nat,
)
    requires
        stands_at(transport, session, k),
        k <= j <= session.streams[transport.stream].len(),
    ensures
        ({
            let held = session.streams[transport.stream];
            let next = reading(
                client,
                held.subrange(k, j),
                iterator_text(transport.stream, j as nat),
            );
            let (moved, after, then) = carry_on(transport, session, next, calls);
            &&& after == session
            &&& if calls >= 1 + (held.len() - j) / MAX_RECORDS as int {
                &&& moved == transport.past(held.skip(k))
                &&& then == NextView::Done(Ok(transport.arrivals(held.skip(k))))
            } else {
                &&& moved == transport
                &&& then is Ask
            }
        }),
    decreases calls,
{
    let stream = transport.stream;
    let held = session.streams[stream];
    let before = held.subrange(k, j);
    reveal_with_fuel(carry_on, 2);
    if calls > 0 {
        lemma_words();
        lemma_read_at(session, stream, j as usize, MAX_RECORDS as u64);
        let page = window(held, j as nat, Some(MAX_RECORDS as u64));
        let further = j + page.len();
        assert forall|i: int| 0 <= i < page.len() implies carried((#[trigger] page[i]).data) by {
            assert(session.holds(stream, j + i));
            assert(session.streams[stream][j + i] == page[i]);
        }
        let answer = records_answer(page, iterator_text(stream, further as nat));
        law_records_come_back(page, iterator_text(stream, further as nat));
        let next = reading(client, before, iterator_text(stream, j as nat));
        assert(answered(session, next->Ask_1).reply == ReplyView::Answered(answer));
        if held.len() - j >= MAX_RECORDS {
            assert(before + page =~= held.subrange(k, further));
            lemma_pages(transport, session, client, k, further, (calls - 1) as nat);
        } else {
            assert(before + page =~= held.skip(k));
        }
    }
}

/// A receive hands on every record of its shard that it has not handed on
/// yet, however many, in order, with their bytes as they were put, and the
/// place moves behind the last. Until its last page is there it hands on
/// nothing and the place stays. The session is as it was, either way.
pub proof fn law_a_receive_hands_on_what_is_new(
    transport: TransportView,
    session: SessionView,
    host: Seq<char>,
    k: int,
    calls: nat,
)
    requires
        stands_at(transport, session, k),
    ensures
        ({
            let held = session.streams[transport.stream];
            let (moved, after, next) = received(transport, session, host, calls);
            &&& after == session
            &&& if calls >= calls_for((held.len() - k) as nat) {
                &&& moved == transport.past(held.skip(k))
                &&& next == NextView::Done(Ok(transport.arrivals(held.skip(k))))
                &&& stands_at(moved, session, held.len() as int)
            } else {
                &&& moved == transport
                &&& next is Ask
            }
        }),
{
    let held = session.streams[transport.stream];
    law_a_receive_asks_at_its_place(transport, session, host, k);
    if calls > 0 {
        assert(held.subrange(k, k) =~= Seq::empty());
        lemma_pages(
            transport,
            session,
            transport.client(host),
            k,
            k,
            (calls - 1) as nat,
        );
        if held.skip(k).len() > 0 {
            assert(held.skip(k).last() == held.last());
        }
    }
}

/// One receive of many: the session it meets, how many of its calls are
/// answered there, and what the next of them fails with, where it makes more.
pub struct Round {
    pub session: SessionView,
    pub calls: nat,
    pub failure: ErrorView,
}

/// The transport after a round, and what the round handed on.
pub open spec fn after_round(transport: TransportView, round: Round, host: Seq<char>) -> (
    TransportView,
    Seq<ArrivedView>,
) {
    let (moved, _, next) = received(transport, round.session, host, round.calls);
    match next {
        NextView::Done(Ok(arrived)) => (moved, arrived),
        NextView::Done(Err(_)) => (moved, Seq::empty()),
        NextView::Ask(receiving, _) => (
            moved.resume(receiving, Err(round.failure)).0,
            Seq::empty(),
        ),
    }
}

/// The transport after all of `rounds`, and what they handed on together.
pub open spec fn after_rounds(transport: TransportView, rounds: Seq<Round>, host: Seq<char>) -> (
    TransportView,
    Seq<ArrivedView>,
)
    decreases rounds.len(),
{
    if rounds.len() == 0 {
        (transport, Seq::empty())
    } else {
        let (before, arrived) = after_rounds(transport, rounds.drop_last(), host);
        let (after, more) = after_round(before, rounds.last(), host);
        (after, arrived + more)
    }
}

/// Every round meets a session that holds `stream`, with at least what it
/// held a round before, in the same order.
pub open spec fn goes_on(rounds: Seq<Round>, stream: Seq<char>) -> bool {
    &&& forall|i: int|
        0 <= i < rounds.len() ==> {
            &&& (#[trigger] rounds[i]).session.wf()
            &&& rounds[i].session.faithful()
            &&& rounds[i].session.streams.contains_key(stream)
            &&& rounds[i].session.streams[stream].len() <= usize::MAX
        }
    &&& forall|i: int, j: int|
        #![trigger rounds[i], rounds[j]]
        0 <= i && j == i + 1 && j < rounds.len()
            ==> rounds[i].session.streams[stream].is_prefix_of(rounds[j].session.streams[stream])
}

/// Any number of receives, with anything put between them and any of them
/// failing at any call: together they hand on the records of the shard from
/// where the first began, each once and in order, none left out; and all
/// there are, where the last of them does not fail.
pub proof fn law_the_place_moves_on(
    transport: TransportView,
    rounds: Seq<Round>,
    host: Seq<char>,
    k: int,
)
    requires
        rounds.len() > 0,
        goes_on(rounds, transport.stream),
        stands_at(transport, rounds[0].session, k),
    ensures
        ({
            let (after, arrived) = after_rounds(transport, rounds, host);
            let held = rounds.last().session.streams[transport.stream];
            &&& k + arrived.len() <= held.len()
            &&& arrived == transport.arrivals(held.subrange(k, k + arrived.len()))
            &&& after == (TransportView { position: after.position, ..transport })
            &&& stands_at(after, rounds.last().session, k + arrived.len())
            &&& rounds.last().calls >= calls_for(held.len()) ==> k + arrived.len() == held.len()
        }),
    decreases rounds.len(),
{
    let stream = transport.stream;
    let earlier = rounds.drop_last();
    let round = rounds.last();
    let session = round.session;
    let held = session.streams[stream];
    let (before, arrived) = after_rounds(transport, earlier, host);
    let n = k + arrived.len();
    assert(rounds[rounds.len() - 1] == round);
    if earlier.len() > 0 {
        assert forall|i: int| 0 <= i < earlier.len() implies earlier[i] == #[trigger] rounds[i] by {
        }
        assert(goes_on(earlier, stream));
        law_the_place_moves_on(transport, earlier, host, k);
        let until = earlier.last().session.streams[stream];
        assert(rounds[earlier.len() - 1] == earlier.last());
        assert(until.is_prefix_of(held));
        assert forall|i: int| 0 <= i < until.len() implies until[i] == held[i] by {}
        assert(until.subrange(k, n) =~= held.subrange(k, n));
        assert(stands_at(before, session, n)) by {
            if before.position is Some {
                assert(until[n - 1] == held[n - 1]);
            }
        }
    } else {
        assert(arrived =~= Seq::empty());
        assert(transport.arrivals(held.subrange(k, k)) =~= Seq::empty());
    }
    law_a_receive_hands_on_what_is_new(before, session, host, n, round.calls);
    let (after, more) = after_round(before, round, host);
    if round.calls >= calls_for((held.len() - n) as nat) {
        assert(arrived + more =~= transport.arrivals(held.subrange(k, held.len() as int)));
    } else {
        assert(arrived + more =~= arrived);
    }
}

/// The session after each of `payloads` was sent to it, in order, without a
/// target.
pub open spec fn after_sending(
    transport: TransportView,
    session: SessionView,
    host: Seq<char>,
    payloads: Seq<Seq<u8>>,
) -> SessionView
    decreases payloads.len(),
{
    if payloads.len() == 0 {
        session
    } else {
        let before = after_sending(transport, session, host, payloads.drop_last());
        answered(before, transport.send(Ok(host), Seq::empty(), payloads.last())->Ok_0).session
    }
}

/// Every payload is one that a record carries.
pub open spec fn sendable(payloads: Seq<Seq<u8>>) -> bool {
    forall|i: int|
        0 <= i < payloads.len() ==> (#[trigger] payloads[i]).len() <= 1024 * 1024 && carried(
            payloads[i],
        )
}

proof fn lemma_after_sending(
    transport: TransportView,
    session: SessionView,
    host: Seq<char>,
    payloads: Seq<Seq<u8>>,
)
    requires
        session.wf(),
        session.faithful(),
        session.streams.contains_key(transport.stream),
        session.next + payloads.len() <= u64::MAX,
        sendable(payloads),
    ensures
        ({
            let after = after_sending(transport, session, host, payloads);
            let held = session.streams[transport.stream];
            let now = after.streams[transport.stream];
            &&& after.wf()
            &&& after.faithful()
            &&& after.next == session.next + payloads.len()
            &&& after.streams.contains_key(transport.stream)
            &&& now.len() == held.len() + payloads.len()
            &&& held.is_prefix_of(now)
            &&& forall|i: int|
                0 <= i < payloads.len() ==> now[held.len() + i].data == #[trigger] payloads[i]
        }),
    decreases payloads.len(),
{
    if payloads.len() > 0 {
        let less = payloads.drop_last();
        let bytes = payloads.last();
        assert(sendable(less)) by {
            assert forall|i: int| 0 <= i < less.len() implies (#[trigger] less[i]).len() <= 1024
                * 1024 && carried(less[i]) by {
                assert(payloads[i] == less[i]);
            }
        }
        lemma_after_sending(transport, session, host, less);
        let before = after_sending(transport, session, host, less);
        let stream = transport.stream;
        assert(payloads[payloads.len() - 1] == bytes);
        law_a_put_is_taken(before, stream, transport.partition_key, bytes);
        let document = put_document(stream, transport.partition_key, bytes);
        assert(text_of(document, "Data"@) == base64_text(bytes)) by {
            lemma_words();
        }
        lemma_put_wf(before, document, Ok(bytes));
        let held = session.streams[stream];
        let now = after_sending(transport, session, host, payloads).streams[stream];
        assert forall|i: int| 0 <= i < payloads.len() implies now[held.len() + i].data
            == #[trigger] payloads[i] by {
            if i < less.len() {
                assert(less[i] == payloads[i]);
            }
        }
    }
}

/// What is put is read back: a transport that has handed on all there was
/// hands on next, in order and with their bytes as they were, exactly the
/// payloads sent since, however many; and then nothing, until more is sent.
pub proof fn law_what_is_put_is_read_back(
    transport: TransportView,
    session: SessionView,
    host: Seq<char>,
    payloads: Seq<Seq<u8>>,
    calls: nat,
)
    requires
        stands_at(transport, session, session.streams[transport.stream].len() as int),
        session.next + payloads.len() <= u64::MAX,
        session.streams[transport.stream].len() + payloads.len() <= usize::MAX,
        sendable(payloads),
        calls >= calls_for(payloads.len()),
    ensures
        ({
            let sent = after_sending(transport, session, host, payloads);
            let (moved, after, next) = received(transport, sent, host, calls);
            &&& next matches NextView::Done(Ok(arrived))
            &&& arrived.len() == payloads.len()
            &&& forall|i: int|
                0 <= i < payloads.len() ==> (#[trigger] arrived[i]).bytes == payloads[i]
            &&& after == sent
            &&& received(moved, sent, host, calls) == (
                moved,
                sent,
                NextView::Done(Ok(Seq::<ArrivedView>::empty())),
            )
        }),
{
    lemma_after_sending(transport, session, host, payloads);
    let k = session.streams[transport.stream].len() as int;
    let sent = after_sending(transport, session, host, payloads);
    let held = sent.streams[transport.stream];
    assert(stands_at(transport, sent, k)) by {
        if transport.position is Some {
            assert(session.streams[transport.stream][k - 1] == held[k - 1]);
        }
    }
    law_a_receive_hands_on_what_is_new(transport, sent, host, k, calls);
    let moved = transport.past(held.skip(k));
    law_a_receive_hands_on_what_is_new(moved, sent, host, held.len() as int, calls);
    let none = held.skip(held.len() as int);
    assert(none =~= Seq::empty());
    assert(moved.arrivals(none) =~= Seq::empty());
}

/// A receive that fails leaves the transport where it was.
pub proof fn law_a_failure_keeps_the_place(
    transport: TransportView,
    receiving: ReceivingView,
    reply: Result<Json, ErrorView>,
)
    ensures
        ({
            let (after, next) = transport.resume(receiving, reply);
            &&& next matches NextView::Done(Err(_)) ==> after == transport
            &&& reply matches Err(failure) ==> next == NextView::Done(Err(failure))
        }),
{
}

} // verus!
