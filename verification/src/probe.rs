//! Reading what the video toolkit reports about a source video: how many
//! frames it has and at what rate they play. The toolkit writes both to its
//! diagnostic stream, which is taken here as the bytes it wrote.

use crate::pattern::{capture_group, captured_group, pattern_compiles};
use crate::rate::{decimal_written, representable, Decimal, FrameRate};
use crate::text::{
    after_last, ascii, bounds_of, bytes_of, covered, find, find_after_last, first_occurrence,
    lemma_after_last, lemma_first_occurrence, lemma_next_other, line_bounds, line_spans, lines,
    next_other, number_written, parse_number, skip_byte, Span, CARRIAGE_RETURN,
};
use vstd::prelude::*;
use vstd::slice::slice_subrange;
use vstd::string::*;

verus! {

/// Why no frame count could be read.
#[derive(Clone, Copy, Debug, PartialEq, Eq, Structural)]
pub enum CountError {
    /// The stream has fewer than two lines, so none is the last but one.
    MissingLine,
    /// The last line but one holds no `frame=`.
    MissingField,
    /// What follows `frame=` writes no number, or one above `usize::MAX`.
    Malformed,
}

/// The bytes that open the frame counter in a progress line.
pub open spec fn frame_mark() -> Seq<u8> {
    ascii("frame="@)
}

/// The bytes that end the frame counter in a progress line.
pub open spec fn rate_mark() -> Seq<u8> {
    ascii(" fps"@)
}

/// The ASCII space.
pub const SPACE: u8 = 32;

/// The frame counter's field in a progress line. The toolkit rewrites the line
/// in place, each time behind a carriage return, so only what follows the last
/// carriage return counts. There the field begins behind the first `frame=`
/// and runs up to the next `frame=` or, if that comes first, the next ` fps`;
/// without either it runs to the end. `None` where there is no `frame=`.
pub open spec fn frame_field(line: Seq<u8>) -> Option<Seq<u8>> {
    let shown = line.skip(after_last(line, CARRIAGE_RETURN));
    let mark = first_occurrence(shown, frame_mark(), 0);
    if mark >= shown.len() {
        None
    } else {
        let rest = shown.skip(mark + frame_mark().len());
        let single = rest.take(first_occurrence(rest, frame_mark(), 0));
        Some(single.take(first_occurrence(single, rate_mark(), 0)))
    }
}

/// The number in a frame counter's field: the toolkit pads it with spaces on
/// the left, which are passed over.
pub open spec fn field_number(field: Seq<u8>) -> Option<nat> {
    number_written(field.skip(next_other(field, SPACE, 0)))
}

/// The frame count that a counting run of the toolkit reports: the number in
/// the frame counter of the last line but one of its diagnostic stream.
pub open spec fn frame_count_of(diagnostics: Seq<u8>) -> Result<usize, CountError> {
    let all = lines(diagnostics);
    if all.len() < 2 {
        Err(CountError::MissingLine)
    } else {
        match frame_field(all[all.len() - 2]) {
            None => Err(CountError::MissingField),
            Some(field) => match field_number(field) {
                Some(n) => if n <= usize::MAX {
                    Ok(n as usize)
                } else {
                    Err(CountError::Malformed)
                },
                None => Err(CountError::Malformed),
            },
        }
    }
}

/// Finds the frame counter's field in a progress line.
pub fn find_frame_field(line: &[u8]) -> (field: Option<&[u8]>)
    ensures
        field is Some <==> frame_field(line@) is Some,
        field is Some ==> field->0@ == frame_field(line@)->0,
{
    proof {
        reveal_strlit("frame=");
        reveal_strlit(" fps");
        lemma_after_last(line@, CARRIAGE_RETURN);
    }
    let frame = bytes_of("frame=");
    let rate = bytes_of(" fps");
    let shown = slice_subrange(line, find_after_last(line, CARRIAGE_RETURN), line.len());
    let mark = find(shown, frame.as_slice(), 0);
    proof {
        lemma_first_occurrence(shown@, frame@, 0);
    }
    if mark >= shown.len() {
        return None;
    }
    let rest = slice_subrange(shown, mark + frame.len(), shown.len());
    let next = find(rest, frame.as_slice(), 0);
    proof {
        lemma_first_occurrence(rest@, frame@, 0);
    }
    let single = slice_subrange(rest, 0, next);
    let end = find(single, rate.as_slice(), 0);
    proof {
        lemma_first_occurrence(single@, rate@, 0);
    }
    Some(slice_subrange(single, 0, end))
}

/// Reads the source's frame count from the diagnostic stream of a counting run
/// of the toolkit.
pub fn get_original_number_of_frames(diagnostics: &[u8]) -> (count: Result<usize, CountError>)
    ensures
        count == frame_count_of(diagnostics@),
{
    let spans = line_spans(diagnostics);
    if spans.len() < 2 {
        return Err(CountError::MissingLine);
    }
    let span = spans[spans.len() - 2];
    assert(span.fits(diagnostics@.len()));
    assert(covered(spans@, diagnostics@)[spans@.len() - 2] == span.of(diagnostics@));
    let line = slice_subrange(diagnostics, span.start, span.end);
    match find_frame_field(line) {
        None => Err(CountError::MissingField),
        Some(field) => {
            let start = skip_byte(field, SPACE, 0);
            proof {
                lemma_next_other(field@, SPACE, 0);
            }
            match parse_number(slice_subrange(field, start, field.len())) {
                Some(n) => if n <= usize::MAX as u64 {
                    Ok(n as usize)
                } else {
                    Err(CountError::Malformed)
                },
                None => Err(CountError::Malformed),
            }
        },
    }
}

/// Why no frame rate could be read.
#[derive(Clone, Copy, Debug, PartialEq, Eq, Structural)]
pub enum RateError {
    /// The pattern that finds the rate in a line did not compile.
    Pattern,
}

/// The pattern that finds the rate in a stream description: a number with or
/// without a fraction, then ` fps`. Its first group is the number: digits, or
/// digits, a point and digits.
pub const RATE_PATTERN: &'static str = "([\\d]+\\.[\\d]+|[\\d]+) fps";

/// The bytes by which a line is taken for a stream description.
pub open spec fn stream_mark() -> Seq<u8> {
    ascii(" fps,"@)
}

/// Whether a line is taken for a stream description: it holds ` fps,`.
pub open spec fn describes_stream(line: Seq<u8>) -> bool {
    first_occurrence(line, stream_mark(), 0) < line.len()
}

/// The frame rate that a captured number stands for; `None` where it is no
/// decimal number that a frame rate can hold.
pub open spec fn rate_of_token(token: Seq<u8>) -> Option<Decimal> {
    match decimal_written(token) {
        Some(d) => if representable(d) {
            Some(d)
        } else {
            None
        },
        None => None,
    }
}

/// What one stream description decides, given whether the pattern compiled
/// and what its first group captured in the line. A pattern that did not
/// compile fails the reading. A captured number that a frame rate can hold is
/// the rate. Without such a number the line decides nothing: it is passed
/// over, and the next one is looked at.
pub open spec fn decided_by(compiled: bool, captured: Option<Seq<u8>>) -> Option<
    Result<Decimal, RateError>,
> {
    if !compiled {
        Some(Err(RateError::Pattern))
    } else {
        match captured {
            Some(token) => match rate_of_token(token) {
                Some(d) => Some(Ok(d)),
                None => None,
            },
            None => None,
        }
    }
}

/// What a search found, as far as a decision rests on it: the captured bytes.
pub open spec fn captured_in(found: Result<Option<Vec<u8>>, regex::Error>) -> Option<Seq<u8>> {
    match found {
        Ok(Some(token)) => Some(token@),
        _ => None,
    }
}

/// What the line `line` decides.
pub open spec fn decision(line: Seq<u8>) -> Option<Result<Decimal, RateError>> {
    decided_by(pattern_compiles(RATE_PATTERN@), captured_group(RATE_PATTERN@, 1, line))
}

/// The frame rate that the lines of a probe's diagnostic stream report. The
/// first stream description that decides gives the outcome. A stream
/// description that gives no number is passed over. With no line left the
/// rate is zero.
pub open spec fn frame_rate_of(all: Seq<Seq<u8>>) -> Result<Decimal, RateError>
    decreases all.len(),
{
    if all.len() == 0 {
        Ok(Decimal { mantissa: 0, scale: 0 })
    } else if !describes_stream(all[0]) {
        frame_rate_of(all.drop_first())
    } else {
        match decision(all[0]) {
            Some(outcome) => outcome,
            None => frame_rate_of(all.drop_first()),
        }
    }
}

/// The lines that are passed over, by their place among the lines from `from`
/// on: the stream descriptions that gave no number, up to the first line that
/// decides.
pub open spec fn passed_over_from(all: Seq<Seq<u8>>, from: int) -> Seq<int>
    decreases all.len() - from,
{
    if from < 0 || from >= all.len() {
        Seq::empty()
    } else if !describes_stream(all[from]) {
        passed_over_from(all, from + 1)
    } else {
        match decision(all[from]) {
            Some(_) => Seq::empty(),
            None => seq![from] + passed_over_from(all, from + 1),
        }
    }
}

/// Where the lines at the places `places` lie.
pub open spec fn picked(bounds: Seq<(int, int)>, places: Seq<int>) -> Seq<(int, int)> {
    Seq::new(places.len(), |k: int| bounds[places[k]])
}

/// Whether `rate` is the outcome `expected`.
pub open spec fn reads_as(
    rate: Result<FrameRate, RateError>,
    expected: Result<Decimal, RateError>,
) -> bool {
    match expected {
        Ok(d) => rate is Ok && rate->Ok_0@ == d,
        Err(e) => rate == Err::<FrameRate, RateError>(e),
    }
}

/// What a probe's diagnostic stream gave: the frame rate, and where the
/// stream descriptions lie that were passed over on the way to it, for the
/// caller to report them.
#[derive(Debug, PartialEq, Eq)]
pub struct RateReading {
    pub rate: Result<FrameRate, RateError>,
    pub passed_over: Vec<Span>,
}

/// Decides on one stream description from what the search in it found:
/// `None` where the line is passed over, else the outcome of the reading.
pub fn decide(found: Result<Option<Vec<u8>>, regex::Error>) -> (decided: Option<
    Result<FrameRate, RateError>,
>)
    ensures
        decided is Some <==> decided_by(found is Ok, captured_in(found)) is Some,
        decided is Some ==> reads_as(
            decided->0,
            decided_by(found is Ok, captured_in(found))->0,
        ),
{
    match found {
        Err(_) => Some(Err(RateError::Pattern)),
        Ok(Some(token)) => match FrameRate::parse(token.as_slice()) {
            Some(rate) => Some(Ok(rate)),
            None => None,
        },
        Ok(None) => None,
    }
}

/// Reads the source's frame rate from the diagnostic stream of a probe, and
/// notes the lines passed over. The rate is that of the first line that holds
/// ` fps,` and in which the pattern finds a number that a frame rate can hold;
/// zero where no line gives one.
pub fn read_framerate(diagnostics: &[u8]) -> (reading: RateReading)
    ensures
        reads_as(reading.rate, frame_rate_of(lines(diagnostics@))),
        bounds_of(reading.passed_over@) == picked(
            line_bounds(diagnostics@),
            passed_over_from(lines(diagnostics@), 0),
        ),
        (forall|i: int|
            0 <= i < lines(diagnostics@).len() ==> !describes_stream(
                #[trigger] lines(diagnostics@)[i],
            )) ==> reading.rate is Ok && reading.rate->Ok_0@ == (Decimal {
            mantissa: 0,
            scale: 0,
        }) && reading.passed_over@.len() == 0,
{
    proof {
        reveal_strlit(" fps,");
        if forall|i: int|
            0 <= i < lines(diagnostics@).len() ==> !describes_stream(
                #[trigger] lines(diagnostics@)[i],
            ) {
            law_no_stream_description_reads_zero(lines(diagnostics@), 0);
        }
    }
    let mark = bytes_of(" fps,");
    let spans = line_spans(diagnostics);
    let ghost all = lines(diagnostics@);
    let ghost bounds = line_bounds(diagnostics@);
    let ghost places = Seq::<int>::empty();
    let mut passed_over: Vec<Span> = Vec::new();
    let mut i: usize = 0;
    assert(all.skip(0) =~= all);
    assert(bounds_of(passed_over@) =~= picked(bounds, places));
    assert(all.len() == spans@.len());
    while i < spans.len()
        invariant
            i <= spans.len(),
            mark@ == stream_mark(),
            all == lines(diagnostics@),
            bounds == line_bounds(diagnostics@),
            all.len() == spans@.len(),
            covered(spans@, diagnostics@) == all,
            bounds_of(spans@) == bounds,
            forall|k: int|
                0 <= k < spans@.len() ==> (#[trigger] spans@[k]).fits(diagnostics@.len()),
            frame_rate_of(all) == frame_rate_of(all.skip(i as int)),
            passed_over_from(all, 0) == places + passed_over_from(all, i as int),
            bounds_of(passed_over@) == picked(bounds, places),
            passed_over@.len() == places.len(),
        decreases spans.len() - i,
    {
        let span = spans[i];
        assert(span.fits(diagnostics@.len()));
        assert(covered(spans@, diagnostics@)[i as int] == span.of(diagnostics@));
        let line = slice_subrange(diagnostics, span.start, span.end);
        proof {
            assert(all.skip(i as int)[0] == line@);
            assert(all[i as int] == line@);
            assert(all.skip(i as int).drop_first() =~= all.skip(i + 1));
        }
        if find(line, mark.as_slice(), 0) < line.len() {
            match decide(capture_group(RATE_PATTERN, 1, line)) {
                Some(rate) => {
                    assert(places + passed_over_from(all, i as int) =~= places);
                    return RateReading { rate, passed_over };
                },
                None => {
                    let ghost before = passed_over@;
                    passed_over.push(span);
                    proof {
                        let longer = places.push(i as int);
                        assert(bounds_of(spans@)[i as int] == bounds[i as int]);
                        assert(passed_over@ =~= before.push(span));
                        assert forall|k: int| 0 <= k < longer.len() implies bounds_of(
                            passed_over@,
                        )[k] == picked(bounds, longer)[k] by {
                            if k < places.len() {
                                assert(bounds_of(before)[k] == picked(bounds, places)[k]);
                                assert(passed_over@[k] == before[k]);
                            }
                        }
                        assert(bounds_of(passed_over@) =~= picked(bounds, longer));
                        assert(places + (seq![i as int] + passed_over_from(all, i + 1))
                            =~= places.push(i as int) + passed_over_from(all, i + 1));
                        places = places.push(i as int);
                    }
                },
            }
        }
        i = i + 1;
    }
    assert(places + passed_over_from(all, i as int) =~= places);
    RateReading { rate: Ok(FrameRate::zero()), passed_over }
}

/// Reads the source's frame rate from the diagnostic stream of a probe: from
/// the first line that holds ` fps,` and in which the pattern finds a number
/// that a frame rate can hold. Zero where no line gives one.
pub fn get_framerate(diagnostics: &[u8]) -> (rate: Result<FrameRate, RateError>)
    ensures
        reads_as(rate, frame_rate_of(lines(diagnostics@))),
        (forall|i: int|
            0 <= i < lines(diagnostics@).len() ==> !describes_stream(
                #[trigger] lines(diagnostics@)[i],
            )) ==> rate is Ok && rate->Ok_0@ == (Decimal { mantissa: 0, scale: 0 }),
{
    read_framerate(diagnostics).rate
}

/// A diagnostic stream without a stream description reads as the rate zero
/// and as no error, and no line of it is passed over: whatever the lines
/// hold, as long as none holds ` fps,`.
pub proof fn law_no_stream_description_reads_zero(all: Seq<Seq<u8>>, from: int)
    requires
        forall|i: int| 0 <= i < all.len() ==> !describes_stream(#[trigger] all[i]),
    ensures
        frame_rate_of(all) == Ok::<Decimal, RateError>(Decimal { mantissa: 0, scale: 0 }),
        passed_over_from(all, from).len() == 0,
    decreases all.len(), all.len() - from,
{
    if 0 <= from < all.len() {
        law_no_stream_description_reads_zero(all, from + 1);
    }
    if all.len() > 0 {
        let rest = all.drop_first();
        assert forall|i: int| 0 <= i < rest.len() implies !describes_stream(
            #[trigger] rest[i],
        ) by {
            assert(rest[i] == all[i + 1]);
        }
        law_no_stream_description_reads_zero(rest, 0);
    }
}

/// A reading fails only where the pattern does not compile: no line's text
/// fails it, whatever stands before ` fps`.
pub proof fn law_only_the_pattern_fails(all: Seq<Seq<u8>>)
    requires
        pattern_compiles(RATE_PATTERN@),
    ensures
        frame_rate_of(all) is Ok,
    decreases all.len(),
{
    if all.len() > 0 {
        law_only_the_pattern_fails(all.drop_first());
    }
}

} // verus!
