//! Decimal numerals and the slash that divides an iterator, over characters.
use vstd::prelude::*;

verus! {

/// The decimal digit of `d`, for `d` below ten.
pub open spec fn digit(d: nat) -> char {
    (48 + d) as char
}

/// `n` in decimal, without leading zeros.
pub open spec fn decimal(n: nat) -> Seq<char>
    decreases n,
{
    if n < 10 {
        seq![digit(n)]
    } else {
        decimal(n / 10).push(digit(n % 10))
    }
}

/// `n` in decimal, filled up with zeros on the left to `width` characters.
pub open spec fn zero_filled(n: nat, width: nat) -> Seq<char> {
    let short = width - decimal(n).len();
    Seq::new(if short > 0 { short as nat } else { 0 }, |i: int| '0') + decimal(n)
}

pub open spec fn is_digit(c: char) -> bool {
    '0' <= c <= '9'
}

pub open spec fn all_digits(s: Seq<char>) -> bool {
    forall|i: int| 0 <= i < s.len() ==> is_digit(#[trigger] s[i])
}

/// The number that a run of decimal digits writes.
pub open spec fn value(s: Seq<char>) -> nat
    decreases s.len(),
{
    if s.len() == 0 {
        0
    } else {
        value(s.drop_last()) * 10 + (s.last() as nat - 48) as nat
    }
}

/// The digits of a numeral that may open with a plus sign.
pub open spec fn unsigned_part(s: Seq<char>) -> Seq<char> {
    if s.len() > 0 && s[0] == '+' {
        s.skip(1)
    } else {
        s
    }
}

/// The index that `s` writes: digits, at least one, after at most one plus
/// sign, whose value a `usize` holds.
pub open spec fn parsed_index(s: Seq<char>) -> Option<usize> {
    let digits = unsigned_part(s);
    if digits.len() > 0 && all_digits(digits) && value(digits) <= usize::MAX {
        Some(value(digits) as usize)
    } else {
        None
    }
}

/// What stands before and after the last slash of `s`, where there is one.
pub open spec fn split_last(s: Seq<char>) -> Option<(Seq<char>, Seq<char>)>
    decreases s.len(),
{
    if s.len() == 0 {
        None
    } else if s.last() == '/' {
        Some((s.drop_last(), Seq::empty()))
    } else {
        match split_last(s.drop_last()) {
            Some((before, after)) => Some((before, after.push(s.last()))),
            None => None,
        }
    }
}

fn digit_text(d: u64) -> (text: &'static str)
    requires
        d < 10,
    ensures
        text@ == seq![digit(d as nat)],
{
    proof {
        reveal_strlit("0");
        reveal_strlit("1");
        reveal_strlit("2");
        reveal_strlit("3");
        reveal_strlit("4");
        reveal_strlit("5");
        reveal_strlit("6");
        reveal_strlit("7");
        reveal_strlit("8");
        reveal_strlit("9");
    }
    match d {
        0 => "0",
        1 => "1",
        2 => "2",
        3 => "3",
        4 => "4",
        5 => "5",
        6 => "6",
        7 => "7",
        8 => "8",
        _ => "9",
    }
}

/// `n` written in decimal.
pub fn decimal_text(n: u64) -> (text: String)
    ensures
        text@ == decimal(n as nat),
    decreases n,
{
    if n < 10 {
        digit_text(n).to_owned()
    } else {
        let mut text = decimal_text(n / 10);
        text.append(digit_text(n % 10));
        text
    }
}

/// `n` written in decimal with zeros before it, `width` characters in all
/// where its own digits are no more than that.
pub fn zero_filled_text(n: u64, width: usize) -> (text: String)
    ensures
        text@ == zero_filled(n as nat, width as nat),
{
    let digits = decimal_text(n);
    let len: usize = digits.as_str().unicode_len();
    let mut text = String::new();
    let mut filled: usize = 0;
    proof {
        reveal_strlit("0");
    }
    while len < width && filled < width - len
        invariant
            len < width ==> filled <= width - len,
            len >= width ==> filled == 0,
            text@ == Seq::new(filled as nat, |i: int| '0'),
            "0"@ == seq!['0'],
        decreases width - filled,
    {
        text.append("0");
        filled = filled + 1;
        assert(text@ =~= Seq::new(filled as nat, |i: int| '0'));
    }
    text.append(digits.as_str());
    text
}

/// The index that `text` writes in decimal, where it writes one.
pub fn parse_index(text: &str) -> (index: Option<usize>)
    ensures
        index == parsed_index(text@),
{
    let ghost digits = unsigned_part(text@);
    let ghost skipped: int = text@.len() - digits.len();
    let mut total: usize = 0;
    let mut empty: bool = true;
    let mut first: bool = true;
    for c in it: text.chars()
        invariant
            it.seq() == text@,
            digits == unsigned_part(text@),
            skipped == text@.len() - digits.len(),
            first == (it.index() == 0),
            empty == (it.index() <= skipped),
            it.index() > skipped ==> all_digits(digits.take(it.index() - skipped)) && total
                == value(digits.take(it.index() - skipped)),
            it.index() <= skipped ==> total == 0,
    {
        let ghost i = it.index() as int;
        assert(c == text@[i]);
        if first && c == '+' {
            first = false;
        } else {
            let ghost n = i - skipped;
            assert(digits[n] == c);
            assert(digits.take(0) =~= Seq::empty());
            assert(total == value(digits.take(n)));
            assert(all_digits(digits.take(n)));
            first = false;
            empty = false;
            if !('0' <= c && c <= '9') {
                return None;
            }
            let d: usize = (c as u32 - 48) as usize;
            assert(digits.take(n + 1).drop_last() =~= digits.take(n));
            assert(digits.take(n + 1).last() == c);
            proof {
                lemma_value_grows(digits, n + 1);
            }
            let Some(tens) = total.checked_mul(10) else {
                return None;
            };
            let Some(sum) = tens.checked_add(d) else {
                return None;
            };
            total = sum;
        }
    }
    if empty {
        return None;
    }
    assert(digits.take(digits.len() as int) =~= digits);
    Some(total)
}

/// A run of digits writes no less than any of its beginnings.
proof fn lemma_value_grows(s: Seq<char>, n: int)
    requires
        0 <= n <= s.len(),
    ensures
        value(s.take(n)) <= value(s),
    decreases s.len() - n,
{
    if n == s.len() {
        assert(s.take(n) =~= s);
    } else {
        lemma_value_grows(s, n + 1);
        assert(s.take(n + 1).drop_last() =~= s.take(n));
    }
}

/// What stands before and after the last slash of `text`.
pub fn split_at_last_slash<'a>(text: &'a str) -> (parts: Option<(&'a str, &'a str)>)
    ensures
        match parts {
            Some((before, after)) => split_last(text@) == Some((before@, after@)),
            None => split_last(text@) is None,
        },
{
    let len: usize = text.unicode_len();
    let mut slash: Option<usize> = None;
    let mut i: usize = 0;
    for c in it: text.chars()
        invariant
            it.seq() == text@,
            len == text@.len(),
            i == it.index(),
            match slash {
                Some(at) => at < i && text@[at as int] == '/' && forall|j: int|
                    at < j < i ==> text@[j] != '/',
                None => forall|j: int| 0 <= j < i ==> text@[j] != '/',
            },
    {
        if c == '/' {
            slash = Some(i);
        }
        i = i + 1;
    }
    match slash {
        Some(at) => {
            proof {
                let before = text@.take(at as int);
                let after = text@.skip(at + 1);
                lemma_split_last_of_join(before, after);
                assert(text@ =~= before.push('/') + after);
                assert(text@.subrange(0, at as int) =~= before);
                assert(text@.subrange(at + 1, len as int) =~= after);
            }
            Some((text.substring_char(0, at), text.substring_char(at + 1, len)))
        },
        None => {
            proof {
                lemma_split_last_without_slash(text@);
            }
            None
        },
    }
}

/// Splitting undoes joining by a slash, whatever stands before it, where
/// what stands after it holds none.
pub proof fn lemma_split_last_of_join(before: Seq<char>, after: Seq<char>)
    requires
        !after.contains('/'),
    ensures
        split_last(before.push('/') + after) == Some((before, after)),
    decreases after.len(),
{
    let whole = before.push('/') + after;
    if after.len() == 0 {
        assert(whole =~= before.push('/'));
        assert(whole.drop_last() =~= before);
        assert(after =~= Seq::empty());
    } else {
        assert(whole.last() == after.last());
        assert(after.contains(after.last()));
        assert forall|c: char| after.drop_last().contains(c) implies after.contains(c) by {
            let i = choose|i: int| 0 <= i < after.drop_last().len() && after.drop_last()[i] == c;
            assert(after[i] == c);
        }
        lemma_split_last_of_join(before, after.drop_last());
        assert(whole.drop_last() =~= before.push('/') + after.drop_last());
        assert(after.drop_last().push(after.last()) =~= after);
    }
}

proof fn lemma_split_last_without_slash(s: Seq<char>)
    requires
        forall|i: int| 0 <= i < s.len() ==> s[i] != '/',
    ensures
        split_last(s) is None,
    decreases s.len(),
{
    if s.len() > 0 {
        lemma_split_last_without_slash(s.drop_last());
    }
}

/// Ten to the power of `k`.
spec fn ten_to(k: nat) -> nat
    decreases k,
{
    if k == 0 {
        1
    } else {
        10 * ten_to((k - 1) as nat)
    }
}

/// The decimal of a number is a run of digits, at least one, that writes it.
pub proof fn lemma_decimal(n: nat)
    ensures
        decimal(n).len() > 0,
        all_digits(decimal(n)),
        value(decimal(n)) == n,
    decreases n,
{
    if n < 10 {
        reveal_with_fuel(value, 2);
    } else {
        lemma_decimal(n / 10);
        assert(decimal(n).drop_last() =~= decimal(n / 10));
    }
}

proof fn lemma_decimal_len(n: nat, k: nat)
    requires
        k > 0,
        n < ten_to(k),
    ensures
        decimal(n).len() <= k,
    decreases n,
{
    if n >= 10 {
        if k == 1 {
            reveal_with_fuel(ten_to, 2);
        }
        lemma_decimal_len(n / 10, (k - 1) as nat);
    }
}

/// A `u64` has no more than twenty digits.
pub proof fn lemma_u64_digits(n: nat)
    requires
        n <= u64::MAX,
    ensures
        decimal(n).len() <= 20,
{
    assert(ten_to(20) == 100_000_000_000_000_000_000) by {
        reveal_with_fuel(ten_to, 21);
    }
    lemma_decimal_len(n, 20);
}

proof fn lemma_leading_zeros(zeros: nat, digits: Seq<char>)
    requires
        all_digits(digits),
    ensures
        value(Seq::new(zeros, |i: int| '0') + digits) == value(digits),
        all_digits(Seq::new(zeros, |i: int| '0') + digits),
    decreases zeros + digits.len(),
{
    let filling = Seq::new(zeros, |i: int| '0');
    let whole = filling + digits;
    if digits.len() > 0 {
        lemma_leading_zeros(zeros, digits.drop_last());
        assert(whole.drop_last() =~= filling + digits.drop_last());
        assert(whole.last() == digits.last());
    } else if zeros > 0 {
        let less = (zeros - 1) as nat;
        lemma_leading_zeros(less, digits);
        assert(whole.drop_last() =~= Seq::new(less, |i: int| '0') + digits);
        assert(whole.last() == '0');
    } else {
        assert(whole =~= digits);
    }
}

/// Zeros before a number change neither what it writes nor that it is digits;
/// the whole is as wide as asked, where the number itself is no wider.
pub proof fn lemma_zero_filled(n: nat, width: nat)
    ensures
        value(zero_filled(n, width)) == n,
        all_digits(zero_filled(n, width)),
        decimal(n).len() <= width ==> zero_filled(n, width).len() == width,
{
    let short = width - decimal(n).len();
    lemma_decimal(n);
    lemma_leading_zeros(if short > 0 { short as nat } else { 0 }, decimal(n));
}

/// Two runs of digits of one length that write the same number are the same.
proof fn lemma_value_injective(a: Seq<char>, b: Seq<char>)
    requires
        all_digits(a),
        all_digits(b),
        a.len() == b.len(),
        value(a) == value(b),
    ensures
        a == b,
    decreases a.len(),
{
    if a.len() > 0 {
        assert(is_digit(a.last()) && is_digit(b.last()));
        assert(value(a.drop_last()) == value(b.drop_last()));
        lemma_value_injective(a.drop_last(), b.drop_last());
        assert(a =~= a.drop_last().push(a.last()));
        assert(b =~= b.drop_last().push(b.last()));
        assert(a.last() == b.last());
    } else {
        assert(a =~= b);
    }
}

/// `a` stands before `b` in the order of characters: at the first place where
/// they differ `a` has the lesser one.
pub open spec fn sorts_before(a: Seq<char>, b: Seq<char>) -> bool {
    exists|i: int|
        #![trigger a[i], b[i]]
        0 <= i < a.len() && i < b.len() && a.take(i) == b.take(i) && a[i] < b[i]
}

/// Runs of digits of one length sort as the numbers they write.
pub proof fn lemma_digits_sort(a: Seq<char>, b: Seq<char>)
    requires
        all_digits(a),
        all_digits(b),
        a.len() == b.len(),
        value(a) < value(b),
    ensures
        sorts_before(a, b),
    decreases a.len(),
{
    let (a0, b0) = (a.drop_last(), b.drop_last());
    assert(is_digit(a.last()) && is_digit(b.last()));
    if value(a0) == value(b0) {
        lemma_value_injective(a0, b0);
        let i = a.len() - 1;
        assert(a.take(i) =~= a0 && b.take(i) =~= b0);
        assert(a[i] < b[i]);
    } else {
        lemma_digits_sort(a0, b0);
        let i = choose|i: int|
            #![trigger a0[i], b0[i]]
            0 <= i < a0.len() && i < b0.len() && a0.take(i) == b0.take(i) && a0[i] < b0[i];
        assert(a.take(i) =~= a0.take(i) && b.take(i) =~= b0.take(i));
        assert(a[i] < b[i]);
    }
}

/// Reading back an index that was written in decimal gives that index; what
/// was written holds no slash.
pub proof fn lemma_index_round_trip(n: usize)
    ensures
        parsed_index(decimal(n as nat)) == Some(n),
        !decimal(n as nat).contains('/'),
{
    let digits = decimal(n as nat);
    lemma_decimal(n as nat);
    assert(is_digit(digits[0]));
    assert(unsigned_part(digits) == digits);
    if digits.contains('/') {
        let i = choose|i: int| 0 <= i < digits.len() && digits[i] == '/';
        assert(is_digit(digits[i]));
    }
}

} // verus!
