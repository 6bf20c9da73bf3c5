//! Text as bytes: searching the output of a tool, splitting it into lines,
//! reading and writing decimal numbers.

use vstd::prelude::*;
use vstd::slice::slice_to_vec;
use vstd::string::*;

verus! {

/// The bytes of an ASCII text: one byte per character.
pub open spec fn ascii(s: Seq<char>) -> Seq<u8> {
    Seq::new(s.len(), |i: int| s[i] as u8)
}

/// The bytes of a text: its UTF-8 encoding, which for ASCII text is one byte
/// per character.
pub fn bytes_of(s: &str) -> (v: Vec<u8>)
    ensures
        v@ == s.spec_bytes(),
        s.is_ascii() ==> v@ == ascii(s@),
{
    broadcast use is_ascii_spec_bytes;

    slice_to_vec(s.as_bytes())
}

/// The texts of a list of strings, such as a command's arguments.
pub open spec fn texts(args: Seq<String>) -> Seq<Seq<char>> {
    Seq::new(args.len(), |i: int| args[i]@)
}

/// `needle` stands in `hay` at position `at`.
pub open spec fn occurs_at(hay: Seq<u8>, needle: Seq<u8>, at: int) -> bool {
    &&& 0 <= at
    &&& at + needle.len() <= hay.len()
    &&& hay.subrange(at, at + needle.len()) == needle
}

/// The first position at or after `from` where `needle` stands in `hay`, or
/// `hay.len()` where there is none.
pub open spec fn first_occurrence(hay: Seq<u8>, needle: Seq<u8>, from: int) -> int
    decreases hay.len() - from,
{
    if from < 0 || from >= hay.len() {
        hay.len() as int
    } else if occurs_at(hay, needle, from) {
        from
    } else {
        first_occurrence(hay, needle, from + 1)
    }
}

/// What `first_occurrence` finds: a position at or after `from` where `needle`
/// stands, with no such position before it; or the end of `hay`, where
/// `needle` stands nowhere from `from` on.
pub proof fn lemma_first_occurrence(hay: Seq<u8>, needle: Seq<u8>, from: int)
    requires
        0 <= from <= hay.len(),
    ensures
        from <= first_occurrence(hay, needle, from) <= hay.len(),
        first_occurrence(hay, needle, from) < hay.len() ==> occurs_at(
            hay,
            needle,
            first_occurrence(hay, needle, from),
        ),
        forall|k: int|
            from <= k < first_occurrence(hay, needle, from) ==> !#[trigger] occurs_at(
                hay,
                needle,
                k,
            ),
    decreases hay.len() - from,
{
    if from < hay.len() && !occurs_at(hay, needle, from) {
        lemma_first_occurrence(hay, needle, from + 1);
    }
}

/// Whether `needle` stands in `hay` at `at`.
pub fn starts_at(hay: &[u8], needle: &[u8], at: usize) -> (found: bool)
    ensures
        found == occurs_at(hay@, needle@, at as int),
{
    if at > hay.len() || needle.len() > hay.len() - at {
        return false;
    }
    let mut i: usize = 0;
    while i < needle.len()
        invariant
            at + needle.len() <= hay.len(),
            i <= needle.len(),
            forall|k: int| 0 <= k < i ==> hay@[at + k] == needle@[k],
        decreases needle.len() - i,
    {
        if hay[at + i] != needle[i] {
            proof {
                let part = hay@.subrange(at as int, at + needle.len());
                assert(part[i as int] == hay@[at + i]);
            }
            return false;
        }
        i = i + 1;
    }
    assert(hay@.subrange(at as int, at + needle.len()) =~= needle@);
    true
}

/// The first position at or after `from` where `needle` stands in `hay`; the
/// length of `hay` where there is none.
pub fn find(hay: &[u8], needle: &[u8], from: usize) -> (at: usize)
    ensures
        at == first_occurrence(hay@, needle@, from as int),
{
    let mut i: usize = from;
    while i < hay.len()
        invariant
            first_occurrence(hay@, needle@, from as int) == first_occurrence(
                hay@,
                needle@,
                i as int,
            ),
        decreases hay.len() - i,
    {
        if starts_at(hay, needle, i) {
            return i;
        }
        i = i + 1;
    }
    hay.len()
}

/// The first position at or after `from` that holds `byte`, or the length of
/// `text` where there is none.
pub open spec fn next_byte(text: Seq<u8>, byte: u8, from: int) -> int
    decreases text.len() - from,
{
    if from < 0 || from >= text.len() {
        text.len() as int
    } else if text[from] == byte {
        from
    } else {
        next_byte(text, byte, from + 1)
    }
}

/// What `next_byte` finds: the first position from `from` on that holds
/// `byte`, or the end of `text`.
pub proof fn lemma_next_byte(text: Seq<u8>, byte: u8, from: int)
    requires
        0 <= from <= text.len(),
    ensures
        from <= next_byte(text, byte, from) <= text.len(),
        next_byte(text, byte, from) < text.len() ==> text[next_byte(text, byte, from)] == byte,
        forall|k: int| from <= k < next_byte(text, byte, from) ==> text[k] != byte,
    decreases text.len() - from,
{
    if from < text.len() && text[from] != byte {
        lemma_next_byte(text, byte, from + 1);
    }
}

/// The first position at or after `from` that holds `byte`; the length of
/// `text` where there is none.
pub fn find_byte(text: &[u8], byte: u8, from: usize) -> (at: usize)
    ensures
        at == next_byte(text@, byte, from as int),
{
    let mut i: usize = from;
    while i < text.len()
        invariant
            next_byte(text@, byte, from as int) == next_byte(text@, byte, i as int),
        decreases text.len() - i,
    {
        if text[i] == byte {
            return i;
        }
        i = i + 1;
    }
    text.len()
}

/// The first position at or after `from` that does not hold `byte`, or the
/// length of `text` where every position from `from` on holds it.
pub open spec fn next_other(text: Seq<u8>, byte: u8, from: int) -> int
    decreases text.len() - from,
{
    if from < 0 || from >= text.len() {
        text.len() as int
    } else if text[from] != byte {
        from
    } else {
        next_other(text, byte, from + 1)
    }
}

/// What `next_other` finds: the end of the run of `byte` that starts at `from`.
pub proof fn lemma_next_other(text: Seq<u8>, byte: u8, from: int)
    requires
        0 <= from <= text.len(),
    ensures
        from <= next_other(text, byte, from) <= text.len(),
        next_other(text, byte, from) < text.len() ==> text[next_other(text, byte, from)] != byte,
        forall|k: int| from <= k < next_other(text, byte, from) ==> text[k] == byte,
    decreases text.len() - from,
{
    if from < text.len() && text[from] == byte {
        lemma_next_other(text, byte, from + 1);
    }
}

/// The first position at or after `from` that does not hold `byte`; the
/// length of `text` where there is none.
pub fn skip_byte(text: &[u8], byte: u8, from: usize) -> (at: usize)
    ensures
        at == next_other(text@, byte, from as int),
{
    let mut i: usize = from;
    while i < text.len()
        invariant
            next_other(text@, byte, from as int) == next_other(text@, byte, i as int),
        decreases text.len() - i,
    {
        if text[i] != byte {
            return i;
        }
        i = i + 1;
    }
    text.len()
}

/// Where the part of `text` behind its last `byte` begins: 0 where `text` does
/// not hold `byte`.
pub open spec fn after_last(text: Seq<u8>, byte: u8) -> int
    decreases text.len(),
{
    if text.len() == 0 {
        0
    } else if text.last() == byte {
        text.len() as int
    } else {
        after_last(text.drop_last(), byte)
    }
}

/// What `after_last` finds: a position right behind a `byte`, or the start,
/// with no `byte` from there on.
pub proof fn lemma_after_last(text: Seq<u8>, byte: u8)
    ensures
        0 <= after_last(text, byte) <= text.len(),
        after_last(text, byte) > 0 ==> text[after_last(text, byte) - 1] == byte,
        forall|k: int| after_last(text, byte) <= k < text.len() ==> text[k] != byte,
    decreases text.len(),
{
    if text.len() > 0 && text.last() != byte {
        let front = text.drop_last();
        lemma_after_last(front, byte);
        assert forall|k: int| after_last(text, byte) <= k < text.len() implies text[k]
            != byte by {
            if k < front.len() {
                assert(text[k] == front[k]);
            }
        }
    }
}

/// The position right behind the last `byte` in `text`; 0 where `text` does
/// not hold `byte`.
pub fn find_after_last(text: &[u8], byte: u8) -> (at: usize)
    ensures
        at == after_last(text@, byte),
{
    let mut i: usize = text.len();
    assert(text@.take(i as int) =~= text@);
    while i > 0
        invariant
            i <= text.len(),
            after_last(text@, byte) == after_last(text@.take(i as int), byte),
        decreases i,
    {
        if text[i - 1] == byte {
            return i;
        }
        assert(text@.take(i as int).drop_last() =~= text@.take(i - 1));
        i = i - 1;
    }
    0
}

/// The line feed, which ends a line.
pub const LINE_FEED: u8 = 10;

/// The carriage return, which may stand before a line feed and which tools
/// print to overwrite a line.
pub const CARRIAGE_RETURN: u8 = 13;

/// A stretch of a text: the bytes from `start` up to, not including, `end`.
#[derive(Clone, Copy, Debug, PartialEq, Eq)]
pub struct Span {
    pub start: usize,
    pub end: usize,
}

impl Span {
    /// The bytes of `text` that the span covers.
    pub open spec fn of(self, text: Seq<u8>) -> Seq<u8> {
        text.subrange(self.start as int, self.end as int)
    }

    /// The span lies within a text of `len` bytes.
    pub open spec fn fits(self, len: nat) -> bool {
        self.start <= self.end <= len
    }
}

/// Where the line that begins at `from` ends, given the position `feed` of
/// the line feed behind it: before the line feed, and before a carriage
/// return that stands right before the line feed.
pub open spec fn line_stop(text: Seq<u8>, from: int, feed: int) -> int {
    if feed > from && text[feed - 1] == CARRIAGE_RETURN {
        feed - 1
    } else {
        feed
    }
}

/// Where the lines of `text` lie, from position `from` on: for each line its
/// start and its end. A line ends at a line feed, or at a carriage return
/// followed by one; neither belongs to the line. What follows the last line
/// feed is a line too, unless it is empty.
pub open spec fn line_bounds_from(text: Seq<u8>, from: int) -> Seq<(int, int)>
    decreases text.len() - from,
{
    if from < 0 || from >= text.len() {
        Seq::empty()
    } else {
        let feed = next_byte(text, LINE_FEED, from);
        if feed >= text.len() {
            seq![(from, text.len() as int)]
        } else {
            proof {
                lemma_next_byte(text, LINE_FEED, from);
            }
            seq![(from, line_stop(text, from, feed))] + line_bounds_from(text, feed + 1)
        }
    }
}

/// Where the lines of `text` lie.
pub open spec fn line_bounds(text: Seq<u8>) -> Seq<(int, int)> {
    line_bounds_from(text, 0)
}

/// The lines of `text`.
pub open spec fn lines(text: Seq<u8>) -> Seq<Seq<u8>> {
    Seq::new(
        line_bounds(text).len(),
        |i: int| text.subrange(line_bounds(text)[i].0, line_bounds(text)[i].1),
    )
}

/// The starts and ends of `spans`, in order.
pub open spec fn bounds_of(spans: Seq<Span>) -> Seq<(int, int)> {
    Seq::new(spans.len(), |i: int| (spans[i].start as int, spans[i].end as int))
}

/// The texts that `spans` cover in `text`, in order.
pub open spec fn covered(spans: Seq<Span>, text: Seq<u8>) -> Seq<Seq<u8>> {
    Seq::new(spans.len(), |i: int| spans[i].of(text))
}

/// Splits `text` into its lines and returns where each one lies.
pub fn line_spans(text: &[u8]) -> (spans: Vec<Span>)
    ensures
        bounds_of(spans@) == line_bounds(text@),
        covered(spans@, text@) == lines(text@),
        forall|i: int| 0 <= i < spans@.len() ==> (#[trigger] spans@[i]).fits(text@.len()),
{
    let mut spans: Vec<Span> = Vec::new();
    let mut pos: usize = 0;
    while pos < text.len()
        invariant
            pos <= text.len(),
            bounds_of(spans@) + line_bounds_from(text@, pos as int) == line_bounds(text@),
            forall|i: int| 0 <= i < spans@.len() ==> (#[trigger] spans@[i]).fits(text@.len()),
        decreases text.len() - pos,
    {
        let feed = find_byte(text, LINE_FEED, pos);
        proof {
            lemma_next_byte(text@, LINE_FEED, pos as int);
        }
        let ghost before = spans@;
        if feed >= text.len() {
            spans.push(Span { start: pos, end: text.len() });
            proof {
                assert(bounds_of(spans@) =~= bounds_of(before) + line_bounds_from(
                    text@,
                    pos as int,
                ));
            }
            pos = text.len();
        } else {
            let stop = if feed > pos && text[feed - 1] == CARRIAGE_RETURN {
                feed - 1
            } else {
                feed
            };
            spans.push(Span { start: pos, end: stop });
            proof {
                assert(bounds_of(spans@) =~= bounds_of(before) + seq![(pos as int, stop as int)]);
                assert(bounds_of(before) + line_bounds_from(text@, pos as int) =~= bounds_of(
                    spans@,
                ) + line_bounds_from(text@, feed + 1));
            }
            pos = feed + 1;
        }
    }
    assert(bounds_of(spans@) + line_bounds_from(text@, pos as int) =~= bounds_of(spans@));
    assert(covered(spans@, text@) =~= lines(text@)) by {
        assert forall|i: int| 0 <= i < spans@.len() implies covered(spans@, text@)[i] == lines(
            text@,
        )[i] by {
            assert(bounds_of(spans@)[i] == line_bounds(text@)[i]);
        }
    }
    spans
}

/// Whether `byte` is one of the ASCII digits `0` to `9`.
pub open spec fn is_digit(byte: u8) -> bool {
    48 <= byte <= 57
}

/// Whether `text` holds ASCII digits and nothing else.
pub open spec fn all_digits(text: Seq<u8>) -> bool {
    forall|i: int| 0 <= i < text.len() ==> is_digit(#[trigger] text[i])
}

/// What a digit counts for; a byte that is no digit counts for nothing.
pub open spec fn digit_value(byte: u8) -> nat {
    if is_digit(byte) {
        (byte - 48) as nat
    } else {
        0
    }
}

/// The number that the digits of `text` write in base ten.
pub open spec fn digits_value(text: Seq<u8>) -> nat
    decreases text.len(),
{
    if text.len() == 0 {
        0
    } else {
        digits_value(text.drop_last()) * 10 + digit_value(text.last())
    }
}

/// The number that `text` writes: it is written in ASCII digits, at least one,
/// with nothing before or after them.
pub open spec fn number_written(text: Seq<u8>) -> Option<nat> {
    if text.len() > 0 && all_digits(text) {
        Some(digits_value(text))
    } else {
        None
    }
}

/// The first digits of a text write no more than the whole does.
pub proof fn lemma_digits_value_grows(text: Seq<u8>, count: int)
    requires
        0 <= count <= text.len(),
    ensures
        digits_value(text.take(count)) <= digits_value(text),
    decreases text.len() - count,
{
    if count == text.len() {
        assert(text.take(count) =~= text);
    } else {
        lemma_digits_value_grows(text.drop_last(), count);
        assert(text.drop_last().take(count) =~= text.take(count));
    }
}

/// Whether `byte` is an ASCII digit.
pub fn digit(byte: u8) -> (yes: bool)
    ensures
        yes == is_digit(byte),
{
    48 <= byte && byte <= 57
}

/// Reads the number that `text` writes. `None` where `text` writes no number,
/// and where the number is above `u64::MAX`.
pub fn parse_number(text: &[u8]) -> (number: Option<u64>)
    ensures
        number is Some <==> number_written(text@) is Some && number_written(text@)->0
            <= u64::MAX,
        number is Some ==> number->0 == number_written(text@)->0,
{
    if text.len() == 0 {
        return None;
    }
    let mut value: u64 = 0;
    let mut i: usize = 0;
    while i < text.len()
        invariant
            i <= text.len(),
            all_digits(text@.take(i as int)),
            value == digits_value(text@.take(i as int)),
        decreases text.len() - i,
    {
        let byte = text[i];
        if !digit(byte) {
            return None;
        }
        proof {
            let longer = text@.take(i + 1);
            assert(longer.drop_last() =~= text@.take(i as int));
            assert(longer.last() == byte);
            lemma_digits_value_grows(text@, i + 1);
        }
        let shifted = match value.checked_mul(10) {
            Some(s) => s,
            None => {
                return None;
            },
        };
        value = match shifted.checked_add((byte - 48) as u64) {
            Some(v) => v,
            None => {
                return None;
            },
        };
        i = i + 1;
    }
    assert(text@.take(i as int) =~= text@);
    Some(value)
}

/// Whether `text` holds digits and nothing else; an empty text does.
pub fn only_digits(text: &[u8]) -> (yes: bool)
    ensures
        yes == all_digits(text@),
{
    let mut i: usize = 0;
    while i < text.len()
        invariant
            i <= text.len(),
            all_digits(text@.take(i as int)),
        decreases text.len() - i,
    {
        if !digit(text[i]) {
            return false;
        }
        i = i + 1;
    }
    assert(text@.take(i as int) =~= text@);
    true
}

/// Whether `text` writes a number: digits, at least one.
pub fn written_in_digits(text: &[u8]) -> (yes: bool)
    ensures
        yes == number_written(text@) is Some,
{
    text.len() > 0 && only_digits(text)
}

/// Appends the bytes of `more` to `buffer`.
pub fn append_bytes(buffer: &mut Vec<u8>, more: &[u8])
    ensures
        final(buffer)@ == old(buffer)@ + more@,
{
    let mut i: usize = 0;
    while i < more.len()
        invariant
            i <= more.len(),
            buffer@ == old(buffer)@ + more@.take(i as int),
        decreases more.len() - i,
    {
        buffer.push(more[i]);
        assert(more@.take(i + 1) =~= more@.take(i as int).push(more@[i as int]));
        i = i + 1;
    }
    assert(more@.take(i as int) =~= more@);
}

/// The character that writes the digit `d`.
pub open spec fn digit_char(d: nat) -> char {
    (48 + d) as u8 as char
}

/// The digits that write `n` in base ten, without leading zeros.
pub open spec fn digits_of(n: nat) -> Seq<char>
    decreases n,
{
    if n < 10 {
        seq![digit_char(n)]
    } else {
        digits_of(n / 10).push(digit_char(n % 10))
    }
}

/// The digits that write a number are digits, at least one, and write it.
pub proof fn lemma_digits_of(n: nat)
    ensures
        digits_of(n).len() >= 1,
        forall|i: int| 0 <= i < digits_of(n).len() ==> '0' <= #[trigger] digits_of(n)[i] <= '9',
        all_digits(ascii(digits_of(n))),
        digits_value(ascii(digits_of(n))) == n,
    decreases n,
{
    let bytes = ascii(digits_of(n));
    if n < 10 {
        assert(bytes =~= seq![(48 + n) as u8]);
        assert(bytes.drop_last() =~= Seq::<u8>::empty());
        assert(digits_value(bytes.drop_last()) == 0);
    } else {
        lemma_digits_of(n / 10);
        let front = ascii(digits_of(n / 10));
        assert(bytes =~= front.push((48 + n % 10) as u8));
        assert(bytes.drop_last() =~= front);
    }
}

/// Zeros before a number's digits change neither that they are digits nor
/// what they write.
pub proof fn lemma_leading_zeros(zeros: nat, digits: Seq<u8>)
    ensures
        all_digits(digits) ==> all_digits(Seq::new(zeros, |i: int| 48u8) + digits),
        digits_value(Seq::new(zeros, |i: int| 48u8) + digits) == digits_value(digits),
    decreases digits.len(), zeros,
{
    let front = Seq::new(zeros, |i: int| 48u8);
    let all = front + digits;
    if digits.len() > 0 {
        lemma_leading_zeros(zeros, digits.drop_last());
        assert(all.drop_last() =~= front + digits.drop_last());
    } else if zeros > 0 {
        let fewer = Seq::new((zeros - 1) as nat, |i: int| 48u8);
        lemma_leading_zeros((zeros - 1) as nat, digits);
        assert(all.drop_last() =~= fewer + digits);
    } else {
        assert(all =~= digits);
    }
}

/// No digit is the byte `other`, so a search for it runs to the end of the
/// digits.
pub proof fn lemma_digits_hold_no(digits: Seq<u8>, other: u8, from: int)
    requires
        all_digits(digits),
        !is_digit(other),
        0 <= from <= digits.len(),
    ensures
        next_byte(digits, other, from) == digits.len(),
    decreases digits.len() - from,
{
    if from < digits.len() {
        assert(is_digit(digits[from]));
        lemma_digits_hold_no(digits, other, from + 1);
    }
}

/// The text of one digit.
fn digit_text(d: u8) -> (text: &'static str)
    requires
        d < 10,
    ensures
        text@ == seq![digit_char(d as nat)],
{
    proof {
        reveal_strlit("0");
        reveal_strlit("1");
        reveal_strlit("2");
        reveal_strlit("3");
        reveal_strlit("4");
        reveal_strlit("5");
        reveal_strlit("6");
        reveal_strlit("7");
        reveal_strlit("8");
        reveal_strlit("9");
    }
    let text = match d {
        0 => "0",
        1 => "1",
        2 => "2",
        3 => "3",
        4 => "4",
        5 => "5",
        6 => "6",
        7 => "7",
        8 => "8",
        _ => "9",
    };
    assert(text@ =~= seq![digit_char(d as nat)]);
    text
}

/// Writes `n` in base ten.
pub fn number_text(n: u64) -> (text: String)
    ensures
        text@ == digits_of(n as nat),
    decreases n,
{
    if n < 10 {
        digit_text(n as u8).to_owned()
    } else {
        let mut text = number_text(n / 10);
        text.append(digit_text((n % 10) as u8));
        assert(text@ =~= digits_of((n / 10) as nat).push(digit_char((n % 10) as nat)));
        text
    }
}

} // verus!
