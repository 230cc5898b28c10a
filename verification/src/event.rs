//! The events of the runner's protocol, and the decoder that reads one line
//! of the stream.

use vstd::prelude::*;
use crate::json::{ints_of, json_of, read_json, Json};
use crate::text::{chars_of, same_text, text_of, text_view, trim, trimmed};

verus! {

/// How a test ended.
#[derive(Clone, Copy, Debug, PartialEq, Eq, Structural)]
pub enum Outcome {
    Success,
    Failure,
    Error,
}

/// Where a test stands in its source.
#[derive(Clone, Debug, PartialEq, Eq)]
pub struct Location {
    pub root_url: Option<String>,
    pub root_line: Option<i64>,
    pub root_column: Option<i64>,
    pub line: Option<i64>,
    pub column: Option<i64>,
}

/// One event of the stream.
#[derive(Clone, Debug, PartialEq, Eq)]
pub enum Event {
    /// The run has started.
    Start,
    /// A suite, the file of tests at `path`, has been found.
    SuiteDeclared { id: i64, path: String, platform: String },
    /// A test of the suite `suite_id` has started, `start_offset_ms`
    /// milliseconds into the run.
    TestStarted {
        id: i64,
        name: String,
        suite_id: i64,
        group_ids: Vec<i64>,
        location: Location,
        start_offset_ms: i64,
    },
    /// The test `id` has finished, `end_offset_ms` milliseconds into the run.
    TestFinished { id: i64, result: Outcome, end_offset_ms: i64 },
    /// A group of tests has been found.
    GroupDeclared { id: i64, suite_id: i64, parent_id: Option<i64>, name: String, test_count: i64 },
    /// The test `test_id` has printed a message.
    PrintEmitted { test_id: i64, message: String },
    /// The test `test_id` has raised an error.
    ErrorEmitted { test_id: i64, message: String, stack_trace: Option<String> },
    /// Every suite has been declared.
    AllSuitesKnown,
    /// The run has ended.
    Done,
}

/// What a line of the stream turned out to be.
#[derive(Clone, Debug, PartialEq, Eq)]
pub enum Decoded {
    /// An event of the protocol.
    Event(Event),
    /// A batch of bare event names, which carries nothing.
    Discard,
    /// Text that is not of the protocol and is forwarded as it came.
    PassThrough,
    /// A line with a known `type` whose shape is not that of its event.
    Malformed,
}

/// The view of a location.
pub struct LocationView {
    pub root_url: Option<Seq<char>>,
    pub root_line: Option<int>,
    pub root_column: Option<int>,
    pub line: Option<int>,
    pub column: Option<int>,
}

/// The view of an event: strings as sequences of characters,
/// numbers as integers.
pub enum EventView {
    Start,
    SuiteDeclared { id: int, path: Seq<char>, platform: Seq<char> },
    TestStarted {
        id: int,
        name: Seq<char>,
        suite_id: int,
        group_ids: Seq<int>,
        location: LocationView,
        start_offset_ms: int,
    },
    TestFinished { id: int, result: Outcome, end_offset_ms: int },
    GroupDeclared {
        id: int,
        suite_id: int,
        parent_id: Option<int>,
        name: Seq<char>,
        test_count: int,
    },
    PrintEmitted { test_id: int, message: Seq<char> },
    ErrorEmitted { test_id: int, message: Seq<char>, stack_trace: Option<Seq<char>> },
    AllSuitesKnown,
    Done,
}

/// The view of a decoded line.
pub enum DecodedView {
    Event(EventView),
    Discard,
    PassThrough,
    Malformed,
}

/// An optional machine integer as an integer.
pub open spec fn int_view(o: Option<i64>) -> Option<int> {
    match o {
        Some(n) => Some(n as int),
        None => None,
    }
}

/// Machine integers as integers.
pub open spec fn ints_view(v: Seq<i64>) -> Seq<int> {
    v.map_values(|n: i64| n as int)
}

impl View for Location {
    type V = LocationView;

    open spec fn view(&self) -> LocationView {
        LocationView {
            root_url: text_view(self.root_url),
            root_line: int_view(self.root_line),
            root_column: int_view(self.root_column),
            line: int_view(self.line),
            column: int_view(self.column),
        }
    }
}

impl View for Event {
    type V = EventView;

    open spec fn view(&self) -> EventView {
        match *self {
            Event::Start => EventView::Start,
            Event::SuiteDeclared { id, path, platform } => EventView::SuiteDeclared {
                id: id as int,
                path: path@,
                platform: platform@,
            },
            Event::TestStarted {
                id,
                name,
                suite_id,
                group_ids,
                location,
                start_offset_ms,
            } => EventView::TestStarted {
                id: id as int,
                name: name@,
                suite_id: suite_id as int,
                group_ids: ints_view(group_ids@),
                location: location@,
                start_offset_ms: start_offset_ms as int,
            },
            Event::TestFinished { id, result, end_offset_ms } => EventView::TestFinished {
                id: id as int,
                result,
                end_offset_ms: end_offset_ms as int,
            },
            Event::GroupDeclared {
                id,
                suite_id,
                parent_id,
                name,
                test_count,
            } => EventView::GroupDeclared {
                id: id as int,
                suite_id: suite_id as int,
                parent_id: int_view(parent_id),
                name: name@,
                test_count: test_count as int,
            },
            Event::PrintEmitted { test_id, message } => EventView::PrintEmitted {
                test_id: test_id as int,
                message: message@,
            },
            Event::ErrorEmitted { test_id, message, stack_trace } => EventView::ErrorEmitted {
                test_id: test_id as int,
                message: message@,
                stack_trace: text_view(stack_trace),
            },
            Event::AllSuitesKnown => EventView::AllSuitesKnown,
            Event::Done => EventView::Done,
        }
    }
}

impl View for Decoded {
    type V = DecodedView;

    open spec fn view(&self) -> DecodedView {
        match *self {
            Decoded::Event(e) => DecodedView::Event(e@),
            Decoded::Discard => DecodedView::Discard,
            Decoded::PassThrough => DecodedView::PassThrough,
            Decoded::Malformed => DecodedView::Malformed,
        }
    }
}

/// The values of the `type` member that the protocol knows.
#[derive(Clone, Copy, Debug, PartialEq, Eq, Structural)]
pub enum Tag {
    Start,
    Suite,
    TestStart,
    AllSuites,
    TestDone,
    Group,
    Print,
    Error,
    Done,
}

/// The tag that a `type` value names.
pub open spec fn tag_named(name: Seq<char>) -> Option<Tag> {
    if name == "start"@ {
        Some(Tag::Start)
    } else if name == "suite"@ {
        Some(Tag::Suite)
    } else if name == "testStart"@ {
        Some(Tag::TestStart)
    } else if name == "allSuites"@ {
        Some(Tag::AllSuites)
    } else if name == "testDone"@ {
        Some(Tag::TestDone)
    } else if name == "group"@ {
        Some(Tag::Group)
    } else if name == "print"@ {
        Some(Tag::Print)
    } else if name == "error"@ {
        Some(Tag::Error)
    } else if name == "done"@ {
        Some(Tag::Done)
    } else {
        None
    }
}

/// The outcome that a `result` value names.
pub open spec fn outcome_named(name: Seq<char>) -> Option<Outcome> {
    if name == "success"@ {
        Some(Outcome::Success)
    } else if name == "error"@ {
        Some(Outcome::Error)
    } else if name == "failure"@ {
        Some(Outcome::Failure)
    } else {
        None
    }
}

/// The integer member `key` of `j`, which must be there.
pub open spec fn required_int(j: Json, key: Seq<char>) -> Option<int> {
    match j.member(key) {
        Some(v) => v.integer(),
        None => None,
    }
}

/// The string member `key` of `j`, which must be there.
pub open spec fn required_text(j: Json, key: Seq<char>) -> Option<Seq<char>> {
    match j.member(key) {
        Some(v) => v.text(),
        None => None,
    }
}

/// The integer member `key` of `j`, which may be missing or null. The outer
/// `None` stands for a member of another kind.
pub open spec fn optional_int(j: Json, key: Seq<char>) -> Option<Option<int>> {
    match j.member(key) {
        None => Some(None),
        Some(Json::Null) => Some(None),
        Some(v) => match v.integer() {
            Some(n) => Some(Some(n)),
            None => None,
        },
    }
}

/// The string member `key` of `j`, which may be missing or null. The outer
/// `None` stands for a member of another kind.
pub open spec fn optional_text(j: Json, key: Seq<char>) -> Option<Option<Seq<char>>> {
    match j.member(key) {
        None => Some(None),
        Some(Json::Null) => Some(None),
        Some(v) => match v.text() {
            Some(s) => Some(Some(s)),
            None => None,
        },
    }
}

/// The member `time` of `j`, an offset in milliseconds; 0 where it is missing.
pub open spec fn offset_of(j: Json) -> Option<int> {
    match optional_int(j, "time"@) {
        Some(Some(t)) => Some(t),
        Some(None) => Some(0),
        None => None,
    }
}

/// The member `key` of `j`, which must be an array of integers.
pub open spec fn required_ints(j: Json, key: Seq<char>) -> Option<Seq<int>> {
    match j.member(key) {
        Some(Json::Array(items)) => ints_of(items@),
        _ => None,
    }
}

/// The tag of a line that is an object with a known `type`.
pub open spec fn envelope_tag(j: Json) -> Option<Tag> {
    match required_text(j, "type"@) {
        Some(name) => tag_named(name),
        None => None,
    }
}

/// Whether `j` is an array of objects that each name an event in a string
/// member `event`.
pub open spec fn is_event_batch(j: Json) -> bool {
    &&& j is Array
    &&& forall|i: int|
        0 <= i < j->Array_0@.len() ==> required_text(#[trigger] j->Array_0@[i], "event"@) is Some
}

/// The event of a line tagged `suite`: its member `suite` holds the id, the
/// path and the platform.
pub open spec fn suite_event(j: Json) -> Option<EventView> {
    match j.member("suite"@) {
        Some(s) => match (
            required_int(s, "id"@),
            required_text(s, "path"@),
            required_text(s, "platform"@),
        ) {
            (Some(id), Some(path), Some(platform)) => Some(
                EventView::SuiteDeclared { id, path, platform },
            ),
            _ => None,
        },
        None => None,
    }
}

/// The location that the member `test` of a line holds; each part of it may
/// be missing.
pub open spec fn location_of(t: Json) -> Option<LocationView> {
    match (
        optional_text(t, "root_url"@),
        optional_int(t, "root_line"@),
        optional_int(t, "root_column"@),
        optional_int(t, "line"@),
        optional_int(t, "column"@),
    ) {
        (Some(root_url), Some(root_line), Some(root_column), Some(line), Some(column)) => Some(
            LocationView { root_url, root_line, root_column, line, column },
        ),
        _ => None,
    }
}

/// The event of a line tagged `testStart`: its member `test` holds the id,
/// the name, the suite, the groups and the location of the test; `time` is the
/// offset of its start.
pub open spec fn test_start_event(j: Json) -> Option<EventView> {
    match j.member("test"@) {
        Some(t) => match (
            required_int(t, "id"@),
            required_text(t, "name"@),
            required_int(t, "suiteID"@),
            required_ints(t, "groupIDs"@),
            location_of(t),
            offset_of(j),
        ) {
            (
                Some(id),
                Some(name),
                Some(suite_id),
                Some(group_ids),
                Some(location),
                Some(start_offset_ms),
            ) => Some(
                EventView::TestStarted {
                    id,
                    name,
                    suite_id,
                    group_ids,
                    location,
                    start_offset_ms,
                },
            ),
            _ => None,
        },
        None => None,
    }
}

/// The event of a line tagged `testDone`: it names the test and its result;
/// `time` is the offset of its end.
pub open spec fn test_done_event(j: Json) -> Option<EventView> {
    match (required_int(j, "testID"@), required_text(j, "result"@), offset_of(j)) {
        (Some(id), Some(name), Some(end_offset_ms)) => match outcome_named(name) {
            Some(result) => Some(EventView::TestFinished { id, result, end_offset_ms }),
            None => None,
        },
        _ => None,
    }
}

/// The event of a line tagged `group`: its member `group` holds the id, the
/// suite, the parent if any, the name and the number of tests.
pub open spec fn group_event(j: Json) -> Option<EventView> {
    match j.member("group"@) {
        Some(g) => match (
            required_int(g, "id"@),
            required_int(g, "suiteID"@),
            optional_int(g, "parentID"@),
            required_text(g, "name"@),
            required_int(g, "testCount"@),
        ) {
            (Some(id), Some(suite_id), Some(parent_id), Some(name), Some(test_count)) => Some(
                EventView::GroupDeclared { id, suite_id, parent_id, name, test_count },
            ),
            _ => None,
        },
        None => None,
    }
}

/// The event of a line tagged `print`: it names the test and holds the
/// message.
pub open spec fn print_event(j: Json) -> Option<EventView> {
    match (required_int(j, "testID"@), required_text(j, "message"@)) {
        (Some(test_id), Some(message)) => Some(EventView::PrintEmitted { test_id, message }),
        _ => None,
    }
}

/// The event of a line tagged `error`: it names the test and holds the error
/// and, where there is one, the stack trace.
pub open spec fn error_event(j: Json) -> Option<EventView> {
    match (
        required_int(j, "testID"@),
        required_text(j, "error"@),
        optional_text(j, "stackTrace"@),
    ) {
        (Some(test_id), Some(message), Some(stack_trace)) => Some(
            EventView::ErrorEmitted { test_id, message, stack_trace },
        ),
        _ => None,
    }
}

/// The event that a line with the given tag holds; `None` where the line
/// lacks a member that the event needs, or holds one of another kind.
pub open spec fn event_of(tag: Tag, j: Json) -> Option<EventView> {
    match tag {
        Tag::Start => Some(EventView::Start),
        Tag::Suite => suite_event(j),
        Tag::TestStart => test_start_event(j),
        Tag::AllSuites => Some(EventView::AllSuitesKnown),
        Tag::TestDone => test_done_event(j),
        Tag::Group => group_event(j),
        Tag::Print => print_event(j),
        Tag::Error => error_event(j),
        Tag::Done => Some(EventView::Done),
    }
}

/// What a line is, given the JSON value it parses to, if any.
pub open spec fn classified(parsed: Option<Json>) -> DecodedView {
    match parsed {
        None => DecodedView::PassThrough,
        Some(j) => match envelope_tag(j) {
            Some(tag) => match event_of(tag, j) {
                Some(e) => DecodedView::Event(e),
                None => DecodedView::Malformed,
            },
            None => if is_event_batch(j) {
                DecodedView::Discard
            } else {
                DecodedView::PassThrough
            },
        },
    }
}

fn read_int(j: &Json, key: &str) -> (r: Option<i64>)
    ensures
        int_view(r) == required_int(*j, key@),
{
    match j.get(key) {
        Some(v) => v.as_int(),
        None => None,
    }
}

fn read_text(j: &Json, key: &str) -> (r: Option<String>)
    ensures
        text_view(r) == required_text(*j, key@),
{
    match j.get(key) {
        Some(v) => match v.as_text() {
            Some(s) => Some(s.clone()),
            None => None,
        },
        None => None,
    }
}

fn read_optional_int(j: &Json, key: &str) -> (r: Option<Option<i64>>)
    ensures
        match r {
            Some(o) => optional_int(*j, key@) == Some(int_view(o)),
            None => optional_int(*j, key@) is None,
        },
{
    match j.get(key) {
        None => Some(None),
        Some(Json::Null) => Some(None),
        Some(v) => match v.as_int() {
            Some(n) => Some(Some(n)),
            None => None,
        },
    }
}

fn read_optional_text(j: &Json, key: &str) -> (r: Option<Option<String>>)
    ensures
        match r {
            Some(o) => optional_text(*j, key@) == Some(text_view(o)),
            None => optional_text(*j, key@) is None,
        },
{
    match j.get(key) {
        None => Some(None),
        Some(Json::Null) => Some(None),
        Some(v) => match v.as_text() {
            Some(s) => Some(Some(s.clone())),
            None => None,
        },
    }
}

fn read_offset(j: &Json) -> (r: Option<i64>)
    ensures
        int_view(r) == offset_of(*j),
{
    match read_optional_int(j, "time") {
        Some(Some(t)) => Some(t),
        Some(None) => Some(0),
        None => None,
    }
}

fn read_ints(j: &Json, key: &str) -> (r: Option<Vec<i64>>)
    ensures
        match r {
            Some(v) => required_ints(*j, key@) == Some(ints_view(v@)),
            None => required_ints(*j, key@) is None,
        },
{
    match j.get(key) {
        Some(v) => v.as_ints(),
        None => None,
    }
}

/// Whether `r` is the event `v`, or both are missing.
pub open spec fn event_is(r: Option<Event>, v: Option<EventView>) -> bool {
    match r {
        Some(e) => v == Some(e@),
        None => v is None,
    }
}

fn read_tag(name: &str) -> (r: Option<Tag>)
    ensures
        r == tag_named(name@),
{
    if same_text(name, "start") {
        Some(Tag::Start)
    } else if same_text(name, "suite") {
        Some(Tag::Suite)
    } else if same_text(name, "testStart") {
        Some(Tag::TestStart)
    } else if same_text(name, "allSuites") {
        Some(Tag::AllSuites)
    } else if same_text(name, "testDone") {
        Some(Tag::TestDone)
    } else if same_text(name, "group") {
        Some(Tag::Group)
    } else if same_text(name, "print") {
        Some(Tag::Print)
    } else if same_text(name, "error") {
        Some(Tag::Error)
    } else if same_text(name, "done") {
        Some(Tag::Done)
    } else {
        None
    }
}

fn read_outcome(name: &str) -> (r: Option<Outcome>)
    ensures
        r == outcome_named(name@),
{
    if same_text(name, "success") {
        Some(Outcome::Success)
    } else if same_text(name, "error") {
        Some(Outcome::Error)
    } else if same_text(name, "failure") {
        Some(Outcome::Failure)
    } else {
        None
    }
}

fn read_envelope(j: &Json) -> (r: Option<Tag>)
    ensures
        r == envelope_tag(*j),
{
    match read_text(j, "type") {
        Some(name) => read_tag(name.as_str()),
        None => None,
    }
}

fn read_suite(j: &Json) -> (r: Option<Event>)
    ensures
        event_is(r, suite_event(*j)),
{
    let s = match j.get("suite") {
        Some(s) => s,
        None => {
            return None;
        },
    };
    match (read_int(s, "id"), read_text(s, "path"), read_text(s, "platform")) {
        (Some(id), Some(path), Some(platform)) => Some(Event::SuiteDeclared { id, path, platform }),
        _ => None,
    }
}

fn read_location(t: &Json) -> (r: Option<Location>)
    ensures
        match r {
            Some(l) => location_of(*t) == Some(l@),
            None => location_of(*t) is None,
        },
{
    match (
        read_optional_text(t, "root_url"),
        read_optional_int(t, "root_line"),
        read_optional_int(t, "root_column"),
        read_optional_int(t, "line"),
        read_optional_int(t, "column"),
    ) {
        (Some(root_url), Some(root_line), Some(root_column), Some(line), Some(column)) => Some(
            Location { root_url, root_line, root_column, line, column },
        ),
        _ => None,
    }
}

fn read_test_start(j: &Json) -> (r: Option<Event>)
    ensures
        event_is(r, test_start_event(*j)),
{
    let t = match j.get("test") {
        Some(t) => t,
        None => {
            return None;
        },
    };
    match (
        read_int(t, "id"),
        read_text(t, "name"),
        read_int(t, "suiteID"),
        read_ints(t, "groupIDs"),
        read_location(t),
        read_offset(j),
    ) {
        (
            Some(id),
            Some(name),
            Some(suite_id),
            Some(group_ids),
            Some(location),
            Some(start_offset_ms),
        ) => Some(
            Event::TestStarted { id, name, suite_id, group_ids, location, start_offset_ms },
        ),
        _ => None,
    }
}

fn read_test_done(j: &Json) -> (r: Option<Event>)
    ensures
        event_is(r, test_done_event(*j)),
{
    match (read_int(j, "testID"), read_text(j, "result"), read_offset(j)) {
        (Some(id), Some(name), Some(end_offset_ms)) => match read_outcome(name.as_str()) {
            Some(result) => Some(Event::TestFinished { id, result, end_offset_ms }),
            None => None,
        },
        _ => None,
    }
}

fn read_group(j: &Json) -> (r: Option<Event>)
    ensures
        event_is(r, group_event(*j)),
{
    let g = match j.get("group") {
        Some(g) => g,
        None => {
            return None;
        },
    };
    match (
        read_int(g, "id"),
        read_int(g, "suiteID"),
        read_optional_int(g, "parentID"),
        read_text(g, "name"),
        read_int(g, "testCount"),
    ) {
        (Some(id), Some(suite_id), Some(parent_id), Some(name), Some(test_count)) => Some(
            Event::GroupDeclared { id, suite_id, parent_id, name, test_count },
        ),
        _ => None,
    }
}

fn read_print(j: &Json) -> (r: Option<Event>)
    ensures
        event_is(r, print_event(*j)),
{
    match (read_int(j, "testID"), read_text(j, "message")) {
        (Some(test_id), Some(message)) => Some(Event::PrintEmitted { test_id, message }),
        _ => None,
    }
}

fn read_error(j: &Json) -> (r: Option<Event>)
    ensures
        event_is(r, error_event(*j)),
{
    match (read_int(j, "testID"), read_text(j, "error"), read_optional_text(j, "stackTrace")) {
        (Some(test_id), Some(message), Some(stack_trace)) => Some(
            Event::ErrorEmitted { test_id, message, stack_trace },
        ),
        _ => None,
    }
}

fn read_event(tag: Tag, j: &Json) -> (r: Option<Event>)
    ensures
        event_is(r, event_of(tag, *j)),
{
    match tag {
        Tag::Start => Some(Event::Start),
        Tag::Suite => read_suite(j),
        Tag::TestStart => read_test_start(j),
        Tag::AllSuites => Some(Event::AllSuitesKnown),
        Tag::TestDone => read_test_done(j),
        Tag::Group => read_group(j),
        Tag::Print => read_print(j),
        Tag::Error => read_error(j),
        Tag::Done => Some(Event::Done),
    }
}

fn check_event_batch(j: &Json) -> (b: bool)
    ensures
        b == is_event_batch(*j),
{
    match j {
        Json::Array(items) => {
            let mut i: usize = 0;
            while i < items.len()
                invariant
                    i <= items.len(),
                    *j is Array,
                    j->Array_0 == items,
                    forall|k: int|
                        0 <= k < i ==> required_text(#[trigger] items@[k], "event"@) is Some,
                decreases items.len() - i,
            {
                if read_text(&items[i], "event").is_none() {
                    return false;
                }
                i += 1;
            }
            true
        },
        _ => false,
    }
}

/// Decides what a parsed line is: an event, a batch to drop, text to forward,
/// or a line of the protocol that is broken.
pub fn classify(parsed: Option<Json>) -> (d: Decoded)
    ensures
        d@ == classified(parsed),
{
    let j = match parsed {
        Some(j) => j,
        None => {
            return Decoded::PassThrough;
        },
    };
    match read_envelope(&j) {
        Some(tag) => match read_event(tag, &j) {
            Some(e) => Decoded::Event(e),
            None => Decoded::Malformed,
        },
        None => if check_event_batch(&j) {
            Decoded::Discard
        } else {
            Decoded::PassThrough
        },
    }
}

/// What a line of the stream is: what the JSON value is that the line
/// denotes once the white space around it is taken off.
pub open spec fn decoded(line: Seq<char>) -> DecodedView {
    classified(json_of(trimmed(line)))
}

/// Decodes one line of the stream, white space around it aside.
///
/// A line is an event where it is a JSON object whose `type` is a known tag
/// and whose members have the shape of that event; with a known tag and
/// another shape it is malformed. A JSON array of objects that each hold a
/// string `event` is discarded. Every other line passes through.
pub fn decode_line(line: &str) -> (d: Decoded)
    ensures
        d@ == decoded(line@),
{
    let content = text_of(&trim(&chars_of(line)));
    classify(read_json(content.as_str()))
}

} // verus!
