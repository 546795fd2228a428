//! What numerals, iterators and origins read like, character by character.
use crate::document::{field, json, text, Json};
use crate::session::{iterator, iterator_text, origin, origin_on, origin_uri, sequence_number};
use crate::text::{
    decimal, decimal_text, lemma_decimal, lemma_index_round_trip, lemma_u64_digits,
    lemma_zero_filled, parse_index, split_at_last_slash, split_last, unsigned_part, value,
    zero_filled_text,
};
use serde_json::Value;
use vstd::prelude::*;

verus! {

/// A number below ten is written as its one digit; any other as the number
/// without its last digit, and then that digit.
pub proof fn law_decimal_ends_in_its_last_digit(n: u64, written: String, tenth: String)
    requires
        call_ensures(decimal_text, (n,), written),
        call_ensures(decimal_text, ((n / 10) as u64,), tenth),
    ensures
        n < 10 ==> written@ == seq![(48 + n) as char],
        n >= 10 ==> written@ == tenth@.push((48 + n % 10) as char),
        written@ == decimal(n as nat),
{
}

/// Two numbers are written alike only where they are the same; every
/// character is a digit, and the first is a zero only where the number is.
pub proof fn law_decimal_tells_numbers_apart(n: nat, m: nat)
    ensures
        decimal(n) == decimal(m) ==> n == m,
        forall|i: int| 0 <= i < decimal(n).len() ==> '0' <= #[trigger] decimal(n)[i] <= '9',
        decimal(n).len() > 0,
        decimal(n)[0] == '0' ==> n == 0,
{
    lemma_decimal(n);
    lemma_decimal(m);
    lemma_first_digit(n);
}

proof fn lemma_first_digit(n: nat)
    ensures
        decimal(n).len() > 0,
        decimal(n)[0] == '0' ==> n == 0,
    decreases n,
{
    if n >= 10 {
        lemma_first_digit(n / 10);
        assert(decimal(n)[0] == decimal(n / 10)[0]);
    }
}

/// A filled-up number ends in the number itself, has nothing but zeros before
/// it, and is as wide as asked, or as the number where that is wider.
pub proof fn law_filling_up_adds_zeros_only(
    n: u64,
    width: usize,
    filled: String,
    written: String,
)
    requires
        call_ensures(zero_filled_text, (n, width), filled),
        call_ensures(decimal_text, (n,), written),
    ensures
        ({
            let zeros = filled@.len() - written@.len();
            &&& zeros >= 0
            &&& filled@.skip(zeros) == written@
            &&& forall|i: int| 0 <= i < zeros ==> #[trigger] filled@[i] == '0'
            &&& filled@.len() >= width
            &&& zeros > 0 ==> filled@.len() == width
        }),
{
    let zeros = filled@.len() - written@.len();
    assert(filled@.skip(zeros) =~= written@);
}

/// The number that a session's `n`th record bears has twenty-one digits: `n`
/// in decimal, with zeros before it.
pub proof fn law_sequence_number_is_the_count(n: nat)
    requires
        n <= u64::MAX,
    ensures
        sequence_number(n).len() == 21,
        decimal(n).len() <= 20,
        sequence_number(n).skip(21 - decimal(n).len()) == decimal(n),
        forall|i: int|
            0 <= i < 21 - decimal(n).len() ==> #[trigger] sequence_number(n)[i] == '0',
{
    lemma_u64_digits(n);
    lemma_zero_filled(n, 21);
    assert(sequence_number(n).skip(21 - decimal(n).len()) =~= decimal(n));
}

/// An index is read digit by digit: one more digit makes ten times what stood
/// before it and that digit more, and is read where a `usize` holds as much.
/// What is no index does not become one by going on.
pub proof fn law_an_index_grows_by_its_digits(
    shorter: &str,
    longer: &str,
    c: char,
    before: Option<usize>,
    after: Option<usize>,
)
    requires
        longer@ == shorter@.push(c),
        call_ensures(parse_index, (shorter,), before),
        call_ensures(parse_index, (longer,), after),
    ensures
        before matches Some(n) ==> '0' <= c <= '9' && n * 10 + (c as nat - 48) <= usize::MAX
            ==> after == Some((n * 10 + (c as nat - 48)) as usize),
        before matches Some(n) ==> '0' <= c <= '9' && n * 10 + (c as nat - 48) > usize::MAX
            ==> after is None,
        !('0' <= c <= '9') ==> after is None || (shorter@.len() == 0 && c == '+'),
        shorter@.len() == 0 && '0' <= c <= '9' ==> after == Some((c as nat - 48) as usize),
        shorter@.len() == 0 && c == '+' ==> after is None,
        before is None && shorter@.len() > 0 && shorter@ != seq!['+'] ==> after is None,
{
    let digits = unsigned_part(shorter@);
    let more = unsigned_part(longer@);
    if shorter@.len() > 0 {
        assert(longer@[0] == shorter@[0]);
        assert(more =~= digits.push(c));
        assert(more.drop_last() =~= digits);
        assert(more[more.len() - 1] == c);
        assert forall|i: int| 0 <= i < digits.len() implies digits[i] == more[i] by {}
        if digits.len() == 0 {
            assert(shorter@ =~= seq!['+']);
        }
    } else {
        reveal_with_fuel(value, 2);
        if c == '+' {
            assert(more.len() == 0);
        } else {
            assert(more =~= seq![c]);
            assert(more.drop_last() =~= Seq::empty());
            assert(more[0] == c);
        }
    }
}

/// Nothing written is no index, nor is a plus sign alone; a character that is
/// no digit spoils the whole, but for a plus sign in front.
pub proof fn law_what_is_no_index(text: &str, read: Option<usize>)
    requires
        call_ensures(parse_index, (text,), read),
    ensures
        text@.len() == 0 ==> read is None,
        text@ == seq!['+'] ==> read is None,
        (exists|i: int| 0 < i < text@.len() && !('0' <= #[trigger] text@[i] <= '9')) ==> read
            is None,
        text@.len() > 0 && text@[0] != '+' && !('0' <= text@[0] <= '9') ==> read is None,
{
    let digits = unsigned_part(text@);
    if exists|i: int| 0 < i < text@.len() && !('0' <= #[trigger] text@[i] <= '9') {
        let i = choose|i: int| 0 < i < text@.len() && !('0' <= #[trigger] text@[i] <= '9');
        if text@[0] == '+' {
            assert(digits[i - 1] == text@[i]);
        } else {
            assert(digits[i] == text@[i]);
        }
    }
    if text@.len() > 0 && text@[0] != '+' && !('0' <= text@[0] <= '9') {
        assert(digits[0] == text@[0]);
    }
}

/// A plus sign before a numeral changes nothing that is read.
pub proof fn law_a_plus_sign_changes_nothing(
    plain: &str,
    signed: &str,
    read: Option<usize>,
    same: Option<usize>,
)
    requires
        signed@ == seq!['+'] + plain@,
        plain@.len() == 0 || plain@[0] != '+',
        call_ensures(parse_index, (plain,), read),
        call_ensures(parse_index, (signed,), same),
    ensures
        read == same,
{
    assert(signed@.skip(1) =~= plain@);
}

/// What was written in decimal is read as the same index.
pub proof fn law_an_index_is_read_as_it_was_written(
    n: usize,
    written: String,
    seen: &str,
    read: Option<usize>,
)
    requires
        call_ensures(decimal_text, (n as u64,), written),
        seen@ == written@,
        call_ensures(parse_index, (seen,), read),
    ensures
        read == Some(n),
{
    lemma_index_round_trip(n);
}

/// What is split at its last slash, joined by a slash again, is what it was,
/// and holds no slash behind that one; only what holds none is not split.
pub proof fn law_splitting_finds_the_last_slash(text: &str, parts: Option<(&str, &str)>)
    requires
        call_ensures(split_at_last_slash, (text,), parts),
    ensures
        parts matches Some((before, after)) ==> text@ == before@ + seq!['/'] + after@
            && !after@.contains('/'),
        parts is None ==> !text@.contains('/'),
{
    lemma_split(text@);
}

proof fn lemma_split(s: Seq<char>)
    ensures
        split_last(s) matches Some((before, after)) ==> s == before + seq!['/'] + after
            && !after.contains('/'),
        split_last(s) is None ==> !s.contains('/'),
    decreases s.len(),
{
    if s.len() > 0 {
        let less = s.drop_last();
        lemma_split(less);
        if s.last() == '/' {
            assert(s =~= less + seq!['/'] + Seq::<char>::empty());
        } else {
            match split_last(less) {
                Some((before, after)) => {
                    assert(s =~= less.push(s.last()));
                    assert((before + seq!['/'] + after).push(s.last()) =~= before + seq!['/']
                        + after.push(s.last()));
                    if after.push(s.last()).contains('/') {
                        let i = choose|i: int|
                            0 <= i < after.len() + 1 && after.push(s.last())[i] == '/';
                        assert(after[i] == '/');
                    }
                },
                None => {
                    if s.contains('/') {
                        let i = choose|i: int| 0 <= i < s.len() && s[i] == '/';
                        assert(less[i] == '/');
                    }
                },
            }
        }
    }
}

/// An origin reads `kinesis://`, the stream, a slash, the shard, a slash and
/// the sequence number; that of a session names its one shard.
pub proof fn law_an_origin_names_stream_shard_and_number(
    stream: &str,
    shard: &str,
    number: &str,
    uri: String,
    ours: String,
)
    requires
        call_ensures(origin_on, (stream, shard, number), uri),
        call_ensures(origin, (stream, number), ours),
    ensures
        uri@ == "kinesis://"@ + stream@ + seq!['/'] + shard@ + seq!['/'] + number@,
        ours@ == "kinesis://"@ + stream@ + seq!['/'] + "shardId-000000000000"@ + seq!['/']
            + number@,
        uri@ == origin_uri(stream@, shard@, number@),
{
    lemma_slash();
}

/// The same of the origin that the model speaks of.
pub proof fn law_origin_uri_reads(stream: Seq<char>, shard: Seq<char>, number: Seq<char>)
    ensures
        origin_uri(stream, shard, number) == "kinesis://"@ + stream + seq!['/'] + shard
            + seq!['/'] + number,
{
    lemma_slash();
}

/// Origins of one stream and number tell the shard.
pub proof fn law_origins_tell_shards_apart(
    stream: Seq<char>,
    number: Seq<char>,
    one: Seq<char>,
    other: Seq<char>,
)
    ensures
        origin_uri(stream, one, number) == origin_uri(stream, other, number) ==> one == other,
{
    law_origin_uri_reads(stream, one, number);
    law_origin_uri_reads(stream, other, number);
    let head = "kinesis://"@ + stream + seq!['/'];
    let a = head + one + seq!['/'] + number;
    let b = head + other + seq!['/'] + number;
    if a == b {
        assert(a.len() == b.len());
        assert(a.subrange(head.len() as int, (head.len() + one.len()) as int) =~= one);
        assert(b.subrange(head.len() as int, (head.len() + other.len()) as int) =~= other);
    }
}

proof fn lemma_slash()
    ensures
        "/"@ == seq!['/'],
{
    reveal_strlit("/");
    assert("/"@ =~= seq!['/']);
}

/// An iterator reads the stream, a slash, and the index in decimal.
pub proof fn law_an_iterator_names_stream_and_index(
    stream: &str,
    at: usize,
    made: String,
    written: String,
)
    requires
        call_ensures(iterator, (stream, at), made),
        call_ensures(decimal_text, (at as u64,), written),
    ensures
        made@ == stream@ + seq!['/'] + written@,
        made@ == iterator_text(stream@, at as nat),
{
    lemma_slash();
}

/// The text of a member that is text is that text; of anything else, and of
/// what is no object, it is empty.
pub proof fn law_a_field_is_the_text_of_its_member(
    document: &Value,
    name: &str,
    read: &str,
    owned: String,
)
    requires
        call_ensures(field, (document, name), read),
        call_ensures(text, (document, name), owned),
    ensures
        owned@ == read@,
        json(*document) matches Json::Object(members) ==> members.contains_key(name@) ==> (
        members[name@] matches Json::Text(t) ==> read@ == t),
        json(*document) matches Json::Object(members) ==> members.contains_key(name@) && !(
        members[name@] is Text) ==> read@.len() == 0,
        json(*document) matches Json::Object(members) ==> !members.contains_key(name@)
            ==> read@.len() == 0,
        !(json(*document) is Object) ==> read@.len() == 0,
{
}

} // verus!
