//! Reading asciicast recordings: the header line, the event lines, and the
//! times of the events.
//!
//! A time in a recording is a number of seconds in floating point. Here it is
//! kept as the bit pattern of that double: it is stored and handed on, and the
//! one operation that reading needs, addition, is the caller's.
use crate::decimal::to_decimal;
use vstd::prelude::*;

verus! {

/// An error of the JSON reader, carried through as it is.
#[verifier::external_type_specification]
#[verifier::external_body]
pub struct ExJsonError(serde_json::Error);

/// What every version of the header has.
pub struct VersionProbe {
    pub version: u8,
}

/// The header of a version 2 recording.
pub struct HeaderV2 {
    pub version: u8,
    pub width: u16,
    pub height: u16,
}

/// The terminal that a version 3 recording was made in.
pub struct V3Term {
    pub cols: u16,
    pub rows: u16,
}

/// The header of a version 3 recording.
pub struct HeaderV3 {
    pub version: u8,
    pub term: V3Term,
}

/// One header line, read in each of the shapes that a header can have.
pub struct HeaderReading {
    pub probe: Result<VersionProbe, serde_json::Error>,
    pub v2: Result<HeaderV2, serde_json::Error>,
    pub v3: Result<HeaderV3, serde_json::Error>,
}

/// The versions that can be played.
#[derive(Debug, Clone, Copy, PartialEq, Eq, Structural)]
pub enum Format {
    /// Times are counted from the start of the recording.
    V2,
    /// Times are counted from the event before.
    V3,
}

/// Why a recording could not be read.
#[derive(Debug)]
pub enum CastError {
    /// There is no header line.
    Empty,
    /// The header line could not be read from the file.
    ReadHeader(String),
    /// The header line holds no version.
    ParseHeader(serde_json::Error),
    /// The rest of a version 2 header is not as it should be.
    ParseV2Header(serde_json::Error),
    /// The rest of a version 3 header is not as it should be.
    ParseV3Header(serde_json::Error),
    /// The version is neither 2 nor 3.
    Unsupported(u8),
    /// A later line could not be read from the file.
    ReadLine(String),
    /// A line is not an event.
    ParseEvent(serde_json::Error),
}

/// One event of a recording.
#[derive(Debug)]
pub struct CastEvent {
    /// Seconds since the start of the recording: the bits of a double.
    pub time: u64,
    /// The kind of the event; `"o"` for output.
    pub code: String,
    pub data: String,
}

/// A line of a file, or what went wrong when it was read.
pub type Line = Result<String, String>;

/// Time, code and data as an event line has them.
pub type Entry = (u64, Seq<char>, Seq<char>);

/// What `serde_json::from_str` makes of a line as an array of one number and
/// two strings: the bits of the number as a double, and the two strings.
/// `None` where the line is no such array, or its number has no double.
pub uninterp spec fn json_event(line: Seq<char>) -> Option<Entry>;

/// The version that a header has, or the first thing that is wrong with it.
pub open spec fn header_verdict(reading: HeaderReading) -> Result<Format, CastError> {
    match reading.probe {
        Err(e) => Err(CastError::ParseHeader(e)),
        Ok(probe) => if probe.version == 2 {
            match reading.v2 {
                Err(e) => Err(CastError::ParseV2Header(e)),
                Ok(_) => Ok(Format::V2),
            }
        } else if probe.version == 3 {
            match reading.v3 {
                Err(e) => Err(CastError::ParseV3Header(e)),
                Ok(_) => Ok(Format::V3),
            }
        } else {
            Err(CastError::Unsupported(probe.version))
        },
    }
}

/// Whether a line holds nothing: it is empty or a comment.
pub open spec fn skipped(text: Seq<char>) -> bool {
    text.len() == 0 || text[0] == '#'
}

/// Whether a line ends the reading.
pub open spec fn fails(line: Line) -> bool {
    match line {
        Err(_) => true,
        Ok(text) => !skipped(text@) && json_event(text@) is None,
    }
}

/// Whether line `i` is the first that ends the reading.
pub open spec fn first_failure(lines: Seq<Line>, i: int) -> bool {
    &&& 0 <= i < lines.len()
    &&& fails(lines[i])
    &&& forall|j: int| 0 <= j < i ==> !fails(#[trigger] lines[j])
}

/// The events that the lines hold, in order.
pub open spec fn entries(lines: Seq<Line>) -> Seq<Entry>
    decreases lines.len(),
{
    if lines.len() == 0 {
        seq![]
    } else {
        let before = entries(lines.drop_last());
        match lines.last() {
            Ok(text) => if skipped(text@) {
                before
            } else {
                before.push(json_event(text@)->0)
            },
            Err(_) => before,
        }
    }
}

/// The time that the interval of event `k` is counted from: that of the event
/// before, or zero.
pub open spec fn time_before(events: Seq<CastEvent>, k: int) -> u64 {
    if k == 0 {
        0
    } else {
        events[k - 1].time
    }
}

/// Whether `events` are what `entries` say: each with its code and data, at its
/// own time in version 2, and in version 3 at its interval `plus` the time of
/// the event before.
pub open spec fn timed<A: Fn(u64, u64) -> u64>(
    format: Format,
    entries: Seq<Entry>,
    events: Seq<CastEvent>,
    plus: A,
) -> bool {
    &&& events.len() == entries.len()
    &&& forall|k: int|
        0 <= k < events.len() ==> {
            &&& (#[trigger] events[k]).code@ == entries[k].1
            &&& events[k].data@ == entries[k].2
            &&& match format {
                Format::V2 => events[k].time == entries[k].0,
                Format::V3 => call_ensures(
                    plus,
                    (time_before(events, k), entries[k].0),
                    events[k].time,
                ),
            }
        }
}

/// What comes of the lines after the header.
pub open spec fn events_outcome<A: Fn(u64, u64) -> u64>(
    format: Format,
    lines: Seq<Line>,
    plus: A,
    r: Result<Vec<CastEvent>, CastError>,
) -> bool {
    &&& forall|i: int| #[trigger]
        first_failure(lines, i) ==> match lines[i] {
            Err(cause) => r == Err::<Vec<CastEvent>, CastError>(CastError::ReadLine(cause)),
            Ok(_) => r matches Err(CastError::ParseEvent(_)),
        }
    &&& (forall|i: int| 0 <= i < lines.len() ==> !fails(#[trigger] lines[i])) ==> (r matches Ok(
        events,
    ) && timed(format, entries(lines), events@, plus))
}

/// What comes of the lines after a header that reads as `reading`.
pub open spec fn outcome<A: Fn(u64, u64) -> u64>(
    reading: HeaderReading,
    lines: Seq<Line>,
    plus: A,
    r: Result<Vec<CastEvent>, CastError>,
) -> bool {
    match header_verdict(reading) {
        Err(e) => r == Err::<Vec<CastEvent>, CastError>(e),
        Ok(format) => events_outcome(format, lines, plus, r),
    }
}

/// Calls `serde_json::from_str`, which reads a line as an array of exactly one
/// number and two strings. The result is taken to depend on the line alone:
/// it is `json_event` of the line, and an error exactly where that is `None`.
/// `Number::as_f64` then gives the number as a double, and `to_bits` its bits; a
/// number that has no double would be an error too.
#[verifier::external_body]
fn read_event(line: &str) -> (r: Result<(u64, String, String), serde_json::Error>)
    ensures
        match r {
            Ok(e) => json_event(line@) == Some((e.0, e.1@, e.2@)),
            Err(_) => json_event(line@) is None,
        },
{
    match serde_json::from_str::<(serde_json::Number, String, String)>(line) {
        Ok((time, code, data)) => match time.as_f64() {
            Some(seconds) => Ok((seconds.to_bits(), code, data)),
            None => Err(serde::de::Error::custom("number out of range")),
        },
        Err(e) => Err(e),
    }
}

/// Decides which version a header has.
pub fn check_header(reading: HeaderReading) -> (r: Result<Format, CastError>)
    ensures
        r == header_verdict(reading),
{
    match reading.probe {
        Err(e) => Err(CastError::ParseHeader(e)),
        Ok(probe) => if probe.version == 2 {
            match reading.v2 {
                Err(e) => Err(CastError::ParseV2Header(e)),
                Ok(_) => Ok(Format::V2),
            }
        } else if probe.version == 3 {
            match reading.v3 {
                Err(e) => Err(CastError::ParseV3Header(e)),
                Ok(_) => Ok(Format::V3),
            }
        } else {
            Err(CastError::Unsupported(probe.version))
        },
    }
}

/// Whether a line is empty or a comment.
pub fn is_skipped(line: &str) -> (r: bool)
    ensures
        r == skipped(line@),
{
    line.is_empty() || line.get_char(0) == '#'
}

/// The event that an event line stands for: at its own time in version 2, and
/// in version 3 at its interval `plus` the time of the event before.
pub fn place_event<A>(
    format: Format,
    time_before: u64,
    entry: (u64, String, String),
    plus: &A,
) -> (r: CastEvent) where A: Fn(u64, u64) -> u64
    requires
        forall|a: u64, b: u64| #[trigger] call_requires(plus, (a, b)),
    ensures
        r.code == entry.1,
        r.data == entry.2,
        match format {
            Format::V2 => r.time == entry.0,
            Format::V3 => call_ensures(plus, (time_before, entry.0), r.time),
        },
{
    let (seconds, code, data) = entry;
    let time: u64 = match format {
        Format::V2 => seconds,
        Format::V3 => plus(time_before, seconds),
    };
    CastEvent { time, code, data }
}

/// Reads the lines after the header.
fn read_lines<A>(format: Format, lines: &Vec<Line>, plus: A) -> (r: Result<
    Vec<CastEvent>,
    CastError,
>) where A: Fn(u64, u64) -> u64
    requires
        lines@.len() > 0,
        forall|a: u64, b: u64| #[trigger] call_requires(plus, (a, b)),
    ensures
        events_outcome(format, lines@.skip(1), plus, r),
{
    let ghost rest = lines@.skip(1);
    let mut events: Vec<CastEvent> = Vec::new();
    let mut accumulated_time: u64 = 0;
    let mut i: usize = 1;
    assert(rest.take(0) =~= seq![]);
    while i < lines.len()
        invariant
            1 <= i <= lines@.len(),
            rest == lines@.skip(1),
            forall|a: u64, b: u64| #[trigger] call_requires(plus, (a, b)),
            forall|j: int| 0 <= j < i - 1 ==> !fails(#[trigger] rest[j]),
            timed(format, entries(rest.take(i - 1)), events@, plus),
            format == Format::V3 ==> accumulated_time == time_before(events@, events@.len() as int),
        decreases lines@.len() - i,
    {
        assert(lines@[i as int] == rest[i - 1]);
        assert(rest.take(i as int).drop_last() =~= rest.take(i - 1));
        match &lines[i] {
            Err(cause) => {
                assert(first_failure(rest, i - 1));
                return Err(CastError::ReadLine(cause.clone()));
            },
            Ok(line) => {
                if !is_skipped(line.as_str()) {
                    match read_event(line.as_str()) {
                        Err(e) => {
                            assert(first_failure(rest, i - 1));
                            return Err(CastError::ParseEvent(e));
                        },
                        Ok(entry) => {
                            let ghost before = events@;
                            let event: CastEvent = place_event(
                                format,
                                accumulated_time,
                                entry,
                                &plus,
                            );
                            accumulated_time = event.time;
                            events.push(event);
                            assert(forall|k: int| 0 <= k < before.len() ==> events@[k] == before[k]);
                        },
                    }
                }
            },
        }
        i += 1;
    }
    assert(rest.take(i - 1) =~= rest);
    Ok(events)
}

/// Reads a recording from the lines of its file.
///
/// The first line is the header, which `read_header` reads as JSON. Of the
/// other lines, empty ones and those that start with `#` are left out, and
/// every other is an event. `plus` adds two times. In a version 3 recording the
/// time of an event is the sum of its interval and those before.
pub fn parse_events<R, A>(lines: &Vec<Line>, read_header: R, plus: A) -> (r: Result<
    Vec<CastEvent>,
    CastError,
>) where R: Fn(&str) -> HeaderReading, A: Fn(u64, u64) -> u64
    requires
        forall|line: &str| #[trigger] call_requires(read_header, (line,)),
        forall|a: u64, b: u64| #[trigger] call_requires(plus, (a, b)),
    ensures
        lines@.len() == 0 ==> r == Err::<Vec<CastEvent>, CastError>(CastError::Empty),
        lines@.len() > 0 ==> match lines@[0] {
            Err(cause) => r == Err::<Vec<CastEvent>, CastError>(CastError::ReadHeader(cause)),
            Ok(text) => exists|line: &str, reading: HeaderReading|
                line@ == text@ && #[trigger] call_ensures(read_header, (line,), reading) && outcome(
                    reading,
                    lines@.skip(1),
                    plus,
                    r,
                ),
        },
{
    if lines.len() == 0 {
        return Err(CastError::Empty);
    }
    match &lines[0] {
        Err(cause) => Err(CastError::ReadHeader(cause.clone())),
        Ok(text) => {
            let reading: HeaderReading = read_header(text.as_str());
            match check_header(reading) {
                Err(e) => Err(e),
                Ok(format) => read_lines(format, lines, plus),
            }
        },
    }
}

impl CastError {
    /// What the error says, without its cause.
    pub open spec fn text(&self) -> Seq<char> {
        match self {
            CastError::Empty => "empty cast file"@,
            CastError::ReadHeader(_) => "failed to read cast header"@,
            CastError::ParseHeader(_) => "failed to parse cast header"@,
            CastError::ParseV2Header(_) => "failed to parse v2 header"@,
            CastError::ParseV3Header(_) => "failed to parse v3 header"@,
            CastError::Unsupported(version) => "unsupported asciicast version: "@ + crate::decimal::decimal(
                *version as nat,
            ),
            CastError::ReadLine(_) => "failed to read cast line"@,
            CastError::ParseEvent(_) => "failed to parse cast event"@,
        }
    }

    /// The error as a message, without its cause.
    pub fn message(&self) -> (r: String)
        ensures
            r@ == self.text(),
    {
        match self {
            CastError::Empty => "empty cast file".to_owned(),
            CastError::ReadHeader(_) => "failed to read cast header".to_owned(),
            CastError::ParseHeader(_) => "failed to parse cast header".to_owned(),
            CastError::ParseV2Header(_) => "failed to parse v2 header".to_owned(),
            CastError::ParseV3Header(_) => "failed to parse v3 header".to_owned(),
            CastError::Unsupported(version) => "unsupported asciicast version: ".to_owned().concat(
                to_decimal(*version as u128).as_str(),
            ),
            CastError::ReadLine(_) => "failed to read cast line".to_owned(),
            CastError::ParseEvent(_) => "failed to parse cast event".to_owned(),
        }
    }
}

/// The sum of the first `n` intervals, added up by `sum` from the first on.
pub open spec fn running_total(
    sum: spec_fn(u64, u64) -> u64,
    entries: Seq<Entry>,
    n: int,
) -> u64
    decreases n,
{
    if n <= 0 {
        0
    } else {
        sum(running_total(sum, entries, n - 1), entries[n - 1].0)
    }
}

/// In a version 3 recording every event stands at the sum of the intervals up
/// to and with its own, for every addition that depends on its operands alone.
pub proof fn law_v3_times_accumulate<A: Fn(u64, u64) -> u64>(
    entries: Seq<Entry>,
    events: Seq<CastEvent>,
    plus: A,
    sum: spec_fn(u64, u64) -> u64,
    k: int,
)
    requires
        timed(Format::V3, entries, events, plus),
        forall|a: u64, b: u64, c: u64| #[trigger] call_ensures(plus, (a, b), c) ==> c == sum(a, b),
        0 <= k < events.len(),
    ensures
        events[k].time == running_total(sum, entries, k + 1),
    decreases k,
{
    if k > 0 {
        law_v3_times_accumulate(entries, events, plus, sum, k - 1);
    } else {
        assert(running_total(sum, entries, 0) == 0);
    }
    assert(call_ensures(plus, (time_before(events, k), entries[k].0), events[k].time));
}

/// In a version 3 recording the times are sorted, in any order in which adding
/// one of its intervals to a time never makes it less.
pub proof fn law_v3_times_are_sorted<A: Fn(u64, u64) -> u64>(
    entries: Seq<Entry>,
    events: Seq<CastEvent>,
    plus: A,
    le: spec_fn(u64, u64) -> bool,
    i: int,
    j: int,
)
    requires
        timed(Format::V3, entries, events, plus),
        forall|a: u64| #[trigger] le(a, a),
        forall|a: u64, b: u64, c: u64| #[trigger] le(a, b) && #[trigger] le(b, c) ==> le(a, c),
        forall|a: u64, k: int, c: u64|
            0 <= k < entries.len() && #[trigger] call_ensures(plus, (a, entries[k].0), c) ==> le(
                a,
                c,
            ),
        0 <= i <= j < events.len(),
    ensures
        le(0, events[i].time),
        le(events[i].time, events[j].time),
    decreases i + j,
{
    assert(call_ensures(plus, (time_before(events, i), entries[i].0), events[i].time));
    assert(call_ensures(plus, (time_before(events, j), entries[j].0), events[j].time));
    if i < j {
        law_v3_times_are_sorted(entries, events, plus, le, i, j - 1);
    } else if i > 0 {
        law_v3_times_are_sorted(entries, events, plus, le, i - 1, j - 1);
    }
    assert(le(time_before(events, i), events[i].time));
    assert(le(time_before(events, j), events[j].time));
    assert(le(events[i].time, events[i].time));
}

/// The lines of two stretches hold the events of the first, then those of the
/// second.
proof fn lemma_entries_concat(a: Seq<Line>, b: Seq<Line>)
    ensures
        entries(a + b) == entries(a) + entries(b),
    decreases b.len(),
{
    if b.len() == 0 {
        assert(a + b =~= a);
        assert(entries(a) + entries(b) =~= entries(a));
    } else {
        assert((a + b).drop_last() =~= a + b.drop_last());
        lemma_entries_concat(a, b.drop_last());
        assert(entries(a + b) =~= entries(a) + entries(b));
    }
}

/// The lines that are neither empty nor a comment, in order.
pub open spec fn content(lines: Seq<Line>) -> Seq<Line>
    decreases lines.len(),
{
    if lines.len() == 0 {
        seq![]
    } else {
        let before = content(lines.drop_last());
        if lines.last() matches Ok(text) && skipped(text@) {
            before
        } else {
            before.push(lines.last())
        }
    }
}

/// The first line that ends the reading.
spec fn first_bad(lines: Seq<Line>) -> Option<Line>
    decreases lines.len(),
{
    if lines.len() == 0 {
        None
    } else {
        match first_bad(lines.drop_last()) {
            Some(line) => Some(line),
            None => if fails(lines.last()) {
                Some(lines.last())
            } else {
                None
            },
        }
    }
}

/// `first_bad` is the line of `first_failure`.
proof fn lemma_first_bad(lines: Seq<Line>)
    ensures
        match first_bad(lines) {
            Some(line) => exists|i: int| #[trigger] first_failure(lines, i) && lines[i] == line,
            None => forall|i: int| 0 <= i < lines.len() ==> !fails(#[trigger] lines[i]),
        },
        forall|i: int| #[trigger]
            first_failure(lines, i) ==> first_bad(lines) == Some(lines[i]),
    decreases lines.len(),
{
    if lines.len() > 0 {
        let fewer = lines.drop_last();
        let last = lines.len() - 1;
        lemma_first_bad(fewer);
        assert(forall|j: int| 0 <= j < last ==> fewer[j] == #[trigger] lines[j]);
        if first_bad(fewer) is Some {
            let i = choose|i: int| #[trigger]
                first_failure(fewer, i) && fewer[i] == first_bad(fewer)->0;
            assert(first_failure(lines, i));
        } else if fails(lines[last]) {
            assert(forall|j: int| 0 <= j < last ==> !fails(fewer[j]));
            assert(first_failure(lines, last));
        }
        assert forall|i: int| #[trigger] first_failure(lines, i) implies first_bad(lines) == Some(
            lines[i],
        ) by {
            if i < last {
                assert(first_failure(fewer, i));
            } else {
                assert forall|j: int| 0 <= j < last implies !fails(#[trigger] fewer[j]) by {
                    assert(!fails(lines[j]));
                }
                if first_bad(fewer) is Some {
                    let k = choose|k: int| #[trigger]
                        first_failure(fewer, k) && fewer[k] == first_bad(fewer)->0;
                    assert(fails(fewer[k]));
                }
            }
        }
    }
}

/// What lines hold is what those of them hold that are neither empty nor a
/// comment.
proof fn lemma_content_is_all(lines: Seq<Line>)
    ensures
        entries(content(lines)) == entries(lines),
        first_bad(content(lines)) == first_bad(lines),
    decreases lines.len(),
{
    if lines.len() > 0 {
        lemma_content_is_all(lines.drop_last());
        if !(lines.last() matches Ok(text) && skipped(text@)) {
            assert(content(lines).drop_last() =~= content(lines.drop_last()));
        }
    }
}

/// Empty lines and comments do not matter: two recordings whose lines after the
/// header differ only in these, in any number and wherever they stand, have the
/// same events, or cannot be read for the same reason.
pub proof fn law_skipped_lines_do_not_matter<A: Fn(u64, u64) -> u64>(
    format: Format,
    f: Seq<Line>,
    g: Seq<Line>,
    plus: A,
    r: Result<Vec<CastEvent>, CastError>,
)
    requires
        content(f) == content(g),
    ensures
        entries(f) == entries(g),
        events_outcome(format, f, plus, r) == events_outcome(format, g, plus, r),
{
    lemma_content_is_all(f);
    lemma_content_is_all(g);
    if events_outcome(format, f, plus, r) {
        lemma_same_outcome(format, f, g, plus, r);
    }
    if events_outcome(format, g, plus, r) {
        lemma_same_outcome(format, g, f, plus, r);
    }
}

/// The outcome depends on what the lines hold and on the first bad one alone.
proof fn lemma_same_outcome<A: Fn(u64, u64) -> u64>(
    format: Format,
    f: Seq<Line>,
    g: Seq<Line>,
    plus: A,
    r: Result<Vec<CastEvent>, CastError>,
)
    requires
        entries(f) == entries(g),
        first_bad(f) == first_bad(g),
        events_outcome(format, f, plus, r),
    ensures
        events_outcome(format, g, plus, r),
{
    lemma_first_bad(f);
    lemma_first_bad(g);
    assert forall|i: int| #[trigger] first_failure(g, i) implies (match g[i] {
        Err(cause) => r == Err::<Vec<CastEvent>, CastError>(CastError::ReadLine(cause)),
        Ok(_) => r matches Err(CastError::ParseEvent(_)),
    }) by {
        let j = choose|j: int| #[trigger] first_failure(f, j) && f[j] == g[i];
        assert(first_failure(f, j));
    }
    if forall|i: int| 0 <= i < g.len() ==> !fails(#[trigger] g[i]) {
        if first_bad(g) is Some {
            let k = choose|k: int| #[trigger] first_failure(g, k) && g[k] == first_bad(g)->0;
            assert(fails(g[k]));
        }
        assert(forall|i: int| 0 <= i < f.len() ==> !fails(#[trigger] f[i]));
    }
}

/// The same lines, but for empty ones and comments, read twice give the same
/// events: the same times, codes and data in the same order. Adding is taken to
/// depend on what is added alone.
pub proof fn law_skipped_lines_keep_events<A: Fn(u64, u64) -> u64>(
    format: Format,
    f: Seq<Line>,
    g: Seq<Line>,
    plus: A,
    sum: spec_fn(u64, u64) -> u64,
    r: Result<Vec<CastEvent>, CastError>,
    s: Result<Vec<CastEvent>, CastError>,
)
    requires
        content(f) == content(g),
        forall|a: u64, b: u64, c: u64| #[trigger] call_ensures(plus, (a, b), c) ==> c == sum(a, b),
        events_outcome(format, f, plus, r),
        events_outcome(format, g, plus, s),
        r is Ok,
    ensures
        s is Ok,
        s->Ok_0@.len() == r->Ok_0@.len(),
        forall|k: int|
            0 <= k < r->Ok_0@.len() ==> {
                &&& (#[trigger] s->Ok_0@[k]).time == r->Ok_0@[k].time
                &&& s->Ok_0@[k].code@ == r->Ok_0@[k].code@
                &&& s->Ok_0@[k].data@ == r->Ok_0@[k].data@
            },
{
    law_skipped_lines_do_not_matter(format, f, g, plus, r);
    lemma_first_bad(f);
    lemma_first_bad(g);
    lemma_content_is_all(f);
    lemma_content_is_all(g);
    if first_bad(f) is Some {
        let i = choose|i: int| #[trigger] first_failure(f, i) && f[i] == first_bad(f)->0;
        assert(first_failure(f, i));
    }
    let (x, y) = (r->Ok_0@, s->Ok_0@);
    assert(timed(format, entries(f), x, plus));
    assert(timed(format, entries(f), y, plus));
    assert forall|k: int| 0 <= k < x.len() implies {
        &&& (#[trigger] y[k]).time == x[k].time
        &&& y[k].code@ == x[k].code@
        &&& y[k].data@ == x[k].data@
    } by {
        assert(x[k].code@ == entries(f)[k].1);
        if format == Format::V3 {
            law_v3_times_accumulate(entries(f), x, plus, sum, k);
            law_v3_times_accumulate(entries(f), y, plus, sum, k);
        }
    }
}

/// Every event line becomes an event, whatever its code and however long it is:
/// reading drops none.
pub proof fn law_every_event_line_is_kept(a: Seq<Line>, text: String, b: Seq<Line>)
    requires
        text@.len() > 0,
        text@[0] != '#',
        json_event(text@) is Some,
    ensures
        entries(a + seq![Ok::<String, String>(text)] + b) == entries(a).push(
            json_event(text@)->0,
        ) + entries(b),
{
    let line: Line = Ok(text);
    lemma_entries_concat(a + seq![line], b);
    assert((a + seq![line]).drop_last() =~= a);
}

/// An empty line and a line that starts with `#` hold nothing, wherever they
/// stand, and no lines hold nothing.
pub proof fn law_empty_lines_and_comments_hold_nothing(
    a: Seq<Line>,
    text: String,
    b: Seq<Line>,
)
    requires
        text@.len() == 0 || text@[0] == '#',
    ensures
        entries(a + seq![Ok::<String, String>(text)] + b) == entries(a) + entries(b),
        entries(Seq::<Line>::empty()) == Seq::<Entry>::empty(),
{
    let line: Line = Ok(text);
    lemma_entries_concat(a + seq![line], b);
    assert((a + seq![line]).drop_last() =~= a);
}

/// Reading goes well exactly if every line could be read from the file and is
/// empty, a comment or an event. Otherwise the first line that is none of these
/// decides on the error.
pub proof fn law_first_bad_line_decides<A: Fn(u64, u64) -> u64>(
    format: Format,
    lines: Seq<Line>,
    plus: A,
    r: Result<Vec<CastEvent>, CastError>,
)
    requires
        events_outcome(format, lines, plus, r),
    ensures
        r is Ok <==> forall|i: int|
            0 <= i < lines.len() ==> (#[trigger] lines[i] matches Ok(text) && (text@.len() == 0
                || text@[0] == '#' || json_event(text@) is Some)),
        forall|i: int|
            0 <= i < lines.len() && (#[trigger] lines[i] matches Ok(text) ==> text@.len() > 0
                && text@[0] != '#' && json_event(text@) is None) && (forall|j: int|
                0 <= j < i ==> (#[trigger] lines[j] matches Ok(text) && (text@.len() == 0
                    || text@[0] == '#' || json_event(text@) is Some))) ==> match lines[i] {
                Err(cause) => r == Err::<Vec<CastEvent>, CastError>(CastError::ReadLine(cause)),
                Ok(_) => r matches Err(CastError::ParseEvent(_)),
            },
        r matches Ok(events) ==> events@.len() == entries(lines).len(),
{
    lemma_first_bad(lines);
    assert forall|i: int|
        0 <= i < lines.len() && (#[trigger] lines[i] matches Ok(text) ==> text@.len() > 0
            && text@[0] != '#' && json_event(text@) is None) && (forall|j: int|
            0 <= j < i ==> (#[trigger] lines[j] matches Ok(text) && (text@.len() == 0 || text@[0]
                == '#' || json_event(text@) is Some))) implies (match lines[i] {
        Err(cause) => r == Err::<Vec<CastEvent>, CastError>(CastError::ReadLine(cause)),
        Ok(_) => r matches Err(CastError::ParseEvent(_)),
    }) by {
        assert(first_failure(lines, i));
    }
    if first_bad(lines) is Some {
        let i = choose|i: int| #[trigger]
            first_failure(lines, i) && lines[i] == first_bad(lines)->0;
        assert(first_failure(lines, i));
        assert(fails(lines[i]));
    } else {
        assert forall|i: int| 0 <= i < lines.len() implies (#[trigger] lines[i] matches Ok(text)
            && (text@.len() == 0 || text@[0] == '#' || json_event(text@) is Some)) by {
            assert(!fails(lines[i]));
        }
    }
}

/// Where reading goes well, the event of every line stands after those of the
/// lines before and before those of the lines after, with the code and the data
/// that the line has: in version 2 at the time that the line has, in version 3
/// that much after the event before.
pub proof fn law_every_line_becomes_its_event<A: Fn(u64, u64) -> u64>(
    format: Format,
    a: Seq<Line>,
    text: String,
    b: Seq<Line>,
    plus: A,
    r: Result<Vec<CastEvent>, CastError>,
)
    requires
        text@.len() > 0,
        text@[0] != '#',
        events_outcome(format, a + seq![Ok::<String, String>(text)] + b, plus, r),
        r is Ok,
    ensures
        json_event(text@) is Some,
        ({
            let events = r->Ok_0@;
            let k = entries(a).len() as int;
            let (time, code, data) = json_event(text@)->0;
            &&& events.len() == k + 1 + entries(b).len()
            &&& events[k].code@ == code
            &&& events[k].data@ == data
            &&& match format {
                Format::V2 => events[k].time == time,
                Format::V3 => call_ensures(
                    plus,
                    (
                        if k == 0 {
                            0u64
                        } else {
                            events[k - 1].time
                        },
                        time,
                    ),
                    events[k].time,
                ),
            }
        }),
{
    let line: Line = Ok(text);
    let lines = a + seq![line] + b;
    law_first_bad_line_decides(format, lines, plus, r);
    assert(lines[a.len() as int] == line);
    law_every_event_line_is_kept(a, text, b);
    lemma_first_bad(lines);
    assert forall|i: int| 0 <= i < lines.len() implies !fails(#[trigger] lines[i]) by {}
    let k = entries(a).len() as int;
    assert(entries(lines)[k] == json_event(text@)->0);
    assert(r->Ok_0@[k].code@ == entries(lines)[k].1);
}

/// A header must have a version, which is 2 or 3, and be as headers of that
/// version are. The first of these that fails is the error, whatever the lines
/// after it are; else the times of the lines are taken as the version says.
pub proof fn law_header_decides<A: Fn(u64, u64) -> u64>(
    reading: HeaderReading,
    lines: Seq<Line>,
    plus: A,
    r: Result<Vec<CastEvent>, CastError>,
)
    requires
        outcome(reading, lines, plus, r),
    ensures
        ({
            let verdict = header_verdict(reading);
            match (reading.probe, reading.v2, reading.v3) {
                (Err(e), _, _) => verdict == Err::<Format, CastError>(CastError::ParseHeader(e)),
                (Ok(VersionProbe { version: 2 }), Err(e), _) => verdict == Err::<
                    Format,
                    CastError,
                >(CastError::ParseV2Header(e)),
                (Ok(VersionProbe { version: 2 }), Ok(_), _) => verdict == Ok::<Format, CastError>(
                    Format::V2,
                ),
                (Ok(VersionProbe { version: 3 }), _, Err(e)) => verdict == Err::<
                    Format,
                    CastError,
                >(CastError::ParseV3Header(e)),
                (Ok(VersionProbe { version: 3 }), _, Ok(_)) => verdict == Ok::<Format, CastError>(
                    Format::V3,
                ),
                (Ok(probe), _, _) => verdict == Err::<Format, CastError>(
                    CastError::Unsupported(probe.version),
                ),
            }
        }),
        match header_verdict(reading) {
            Ok(format) => events_outcome(format, lines, plus, r),
            Err(e) => r == Err::<Vec<CastEvent>, CastError>(e),
        },
{
}

/// What each error says. That of an unsupported version ends in the version.
pub proof fn law_errors_say_what_went_wrong(error: CastError)
    ensures
        match error {
            CastError::Empty => error.text() == "empty cast file"@,
            CastError::ReadHeader(_) => error.text() == "failed to read cast header"@,
            CastError::ParseHeader(_) => error.text() == "failed to parse cast header"@,
            CastError::ParseV2Header(_) => error.text() == "failed to parse v2 header"@,
            CastError::ParseV3Header(_) => error.text() == "failed to parse v3 header"@,
            CastError::Unsupported(version) => {
                let said = "unsupported asciicast version: "@;
                &&& said.is_prefix_of(error.text())
                &&& crate::decimal::number(error.text().skip(said.len() as int)) == version
            },
            CastError::ReadLine(_) => error.text() == "failed to read cast line"@,
            CastError::ParseEvent(_) => error.text() == "failed to parse cast event"@,
        },
{
    if let CastError::Unsupported(version) = error {
        let said = "unsupported asciicast version: "@;
        crate::decimal::law_decimal_reads_back(version as nat);
        assert(error.text().skip(said.len() as int) =~= crate::decimal::decimal(version as nat));
        assert(error.text().take(said.len() as int) =~= said);
    }
}

/// A line is left out exactly if it is empty or starts with `#`.
pub proof fn law_lines_left_out(line: &str, r: bool)
    requires
        call_ensures(is_skipped, (line,), r),
    ensures
        r <==> line@.len() == 0 || line@[0] == '#',
{
}

/// A file without lines, and one whose first line cannot be read, is no
/// recording. Nor is one whose header is wrong. Else the lines after the header
/// are read, with the times of version 2 or 3 as the header says.
pub proof fn law_recording_begins_with_a_header<
    R: Fn(&str) -> HeaderReading,
    A: Fn(u64, u64) -> u64,
>(
    lines: &Vec<Line>,
    read_header: R,
    plus: A,
    r: Result<Vec<CastEvent>, CastError>,
)
    requires
        call_ensures(parse_events::<R, A>, (lines, read_header, plus), r),
    ensures
        lines@.len() == 0 ==> r == Err::<Vec<CastEvent>, CastError>(CastError::Empty),
        lines@.len() > 0 ==> match lines@[0] {
            Err(cause) => r == Err::<Vec<CastEvent>, CastError>(CastError::ReadHeader(cause)),
            Ok(text) => exists|line: &str, reading: HeaderReading|
                line@ == text@ && #[trigger] call_ensures(read_header, (line,), reading) && match (
                    reading.probe,
                    reading.v2,
                    reading.v3,
                ) {
                    (Err(e), _, _) => r == Err::<Vec<CastEvent>, CastError>(
                        CastError::ParseHeader(e),
                    ),
                    (Ok(VersionProbe { version: 2 }), Err(e), _) => r == Err::<
                        Vec<CastEvent>,
                        CastError,
                    >(CastError::ParseV2Header(e)),
                    (Ok(VersionProbe { version: 2 }), Ok(_), _) => events_outcome(
                        Format::V2,
                        lines@.skip(1),
                        plus,
                        r,
                    ),
                    (Ok(VersionProbe { version: 3 }), _, Err(e)) => r == Err::<
                        Vec<CastEvent>,
                        CastError,
                    >(CastError::ParseV3Header(e)),
                    (Ok(VersionProbe { version: 3 }), _, Ok(_)) => events_outcome(
                        Format::V3,
                        lines@.skip(1),
                        plus,
                        r,
                    ),
                    (Ok(probe), _, _) => r == Err::<Vec<CastEvent>, CastError>(
                        CastError::Unsupported(probe.version),
                    ),
                },
        },
{
    if lines@.len() > 0 {
        if let Ok(text) = lines@[0] {
            let (line, reading) = choose|line: &str, reading: HeaderReading|
                line@ == text@ && #[trigger] call_ensures(read_header, (line,), reading) && outcome(
                    reading,
                    lines@.skip(1),
                    plus,
                    r,
                );
            law_header_decides(reading, lines@.skip(1), plus, r);
        }
    }
}

/// An event has the code and the data of its line. Its time is that of the line
/// in version 2, whatever came before, and in version 3 the sum of that and the
/// time of the event before.
pub proof fn law_event_is_placed_by_its_version<A: Fn(u64, u64) -> u64>(
    time_before: u64,
    entry: (u64, String, String),
    plus: &A,
    absolute: CastEvent,
    relative: CastEvent,
)
    requires
        call_ensures(place_event::<A>, (Format::V2, time_before, entry, plus), absolute),
        call_ensures(place_event::<A>, (Format::V3, time_before, entry, plus), relative),
    ensures
        absolute.time == entry.0,
        call_ensures(plus, (time_before, entry.0), relative.time),
        absolute.code@ == entry.1@ && relative.code@ == entry.1@,
        absolute.data@ == entry.2@ && relative.data@ == entry.2@,
{
}

} // verus!
