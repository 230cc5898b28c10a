//! What the stream is correlated into: suites, the records of their tests,
//! and groups.

use vstd::prelude::*;
use crate::event::{int_view, ints_view, Location, LocationView, Outcome};
use crate::text::{
    chars_of, join, joined, parts_view, text_view, texts_view, trim, trimmed,
};

verus! {

/// The state of a test: not yet finished, or finished in one of three ways.
#[derive(Clone, Copy, Debug, PartialEq, Eq, Structural)]
pub enum TestResult {
    Pending,
    Success,
    Failure,
    Error,
}

/// How and when a test finished.
#[derive(Clone, Copy, Debug, PartialEq, Eq)]
pub struct Completion {
    pub outcome: Outcome,
    pub end_offset_ms: i64,
}

/// One test case: what its start event said, and what later events added.
#[derive(Clone, Debug, PartialEq, Eq)]
pub struct TestRecord {
    pub id: i64,
    pub name: String,
    pub suite_id: i64,
    pub group_ids: Vec<i64>,
    pub location: Location,
    /// `None` until the test has finished.
    pub completion: Option<Completion>,
    pub prints: Vec<String>,
    pub error: Option<String>,
    pub stack_trace: Option<String>,
    pub start_offset_ms: i64,
    /// The wall-clock time, in milliseconds, at which the start event arrived.
    pub arrival_ms: i64,
}

/// A group of tests; kept as declared.
#[derive(Clone, Debug, PartialEq, Eq)]
pub struct Group {
    pub id: i64,
    pub suite_id: i64,
    pub parent_id: Option<i64>,
    pub name: String,
    pub test_count: i64,
}

/// A suite, and the tests it owns once the report has been built.
#[derive(Clone, Debug)]
pub struct Suite {
    pub id: i64,
    pub path: String,
    pub platform: String,
    pub tests: Vec<TestRecord>,
}

/// The view of a completion.
pub struct CompletionView {
    pub outcome: Outcome,
    pub end_offset_ms: int,
}

/// The view of a test record.
pub struct TestRecordView {
    pub id: int,
    pub name: Seq<char>,
    pub suite_id: int,
    pub group_ids: Seq<int>,
    pub location: LocationView,
    pub completion: Option<CompletionView>,
    pub prints: Seq<Seq<char>>,
    pub error: Option<Seq<char>>,
    pub stack_trace: Option<Seq<char>>,
    pub start_offset_ms: int,
    pub arrival_ms: int,
}

/// The view of a group.
pub struct GroupView {
    pub id: int,
    pub suite_id: int,
    pub parent_id: Option<int>,
    pub name: Seq<char>,
    pub test_count: int,
}

/// The view of a suite.
pub struct SuiteView {
    pub id: int,
    pub path: Seq<char>,
    pub platform: Seq<char>,
    pub tests: Seq<TestRecordView>,
}

impl View for Completion {
    type V = CompletionView;

    open spec fn view(&self) -> CompletionView {
        CompletionView { outcome: self.outcome, end_offset_ms: self.end_offset_ms as int }
    }
}

/// The view of an optional completion.
pub open spec fn completion_view(o: Option<Completion>) -> Option<CompletionView> {
    match o {
        Some(c) => Some(c@),
        None => None,
    }
}

impl View for TestRecord {
    type V = TestRecordView;

    open spec fn view(&self) -> TestRecordView {
        TestRecordView {
            id: self.id as int,
            name: self.name@,
            suite_id: self.suite_id as int,
            group_ids: ints_view(self.group_ids@),
            location: self.location@,
            completion: completion_view(self.completion),
            prints: texts_view(self.prints@),
            error: text_view(self.error),
            stack_trace: text_view(self.stack_trace),
            start_offset_ms: self.start_offset_ms as int,
            arrival_ms: self.arrival_ms as int,
        }
    }
}

/// The view of each record.
pub open spec fn records_view(v: Seq<TestRecord>) -> Seq<TestRecordView> {
    v.map_values(|t: TestRecord| t@)
}

impl View for Group {
    type V = GroupView;

    open spec fn view(&self) -> GroupView {
        GroupView {
            id: self.id as int,
            suite_id: self.suite_id as int,
            parent_id: int_view(self.parent_id),
            name: self.name@,
            test_count: self.test_count as int,
        }
    }
}

/// The view of each group.
pub open spec fn groups_view(v: Seq<Group>) -> Seq<GroupView> {
    v.map_values(|g: Group| g@)
}

impl View for Suite {
    type V = SuiteView;

    open spec fn view(&self) -> SuiteView {
        SuiteView {
            id: self.id as int,
            path: self.path@,
            platform: self.platform@,
            tests: records_view(self.tests@),
        }
    }
}

/// The view of each suite.
pub open spec fn suites_view(v: Seq<Suite>) -> Seq<SuiteView> {
    v.map_values(|s: Suite| s@)
}

impl PartialEq for Suite {
    /// Two suites are the same suite where their ids are equal.
    fn eq(&self, other: &Self) -> (r: bool) {
        self.id == other.id
    }
}

impl vstd::std_specs::cmp::PartialEqSpecImpl for Suite {
    open spec fn obeys_eq_spec() -> bool {
        true
    }

    open spec fn eq_spec(&self, other: &Self) -> bool {
        self.id == other.id
    }
}

impl TestRecordView {
    /// The state of the test.
    pub open spec fn result(self) -> TestResult {
        match self.completion {
            None => TestResult::Pending,
            Some(c) => match c.outcome {
                Outcome::Success => TestResult::Success,
                Outcome::Failure => TestResult::Failure,
                Outcome::Error => TestResult::Error,
            },
        }
    }

    /// The offset at which the test finished, once it has.
    pub open spec fn end_offset_ms(self) -> Option<int> {
        match self.completion {
            None => None,
            Some(c) => Some(c.end_offset_ms),
        }
    }

    /// The lines of the failure message: the stack trace, if any, then the
    /// prints in the order in which they came, each without the white space
    /// around it.
    pub open spec fn message_lines(self) -> Seq<Seq<char>> {
        let prints = self.prints.map_values(|p: Seq<char>| trimmed(p));
        match self.stack_trace {
            Some(stack) => seq![trimmed(stack)] + prints,
            None => prints,
        }
    }

    /// The failure message: its lines, joined by line feeds.
    pub open spec fn message(self) -> Seq<char> {
        joined(self.message_lines(), seq!['\n'])
    }
}

impl TestRecord {
    /// The state of the test.
    pub fn result(&self) -> (r: TestResult)
        ensures
            r == self@.result(),
    {
        match &self.completion {
            None => TestResult::Pending,
            Some(c) => match c.outcome {
                Outcome::Success => TestResult::Success,
                Outcome::Failure => TestResult::Failure,
                Outcome::Error => TestResult::Error,
            },
        }
    }

    /// The offset at which the test finished, once it has.
    pub fn end_offset_ms(&self) -> (r: Option<i64>)
        ensures
            int_view(r) == self@.end_offset_ms(),
    {
        match &self.completion {
            None => None,
            Some(c) => Some(c.end_offset_ms),
        }
    }

    /// The failure message of the test, as characters.
    pub fn message(&self) -> (r: Vec<char>)
        ensures
            r@ == self@.message(),
    {
        let mut lines: Vec<Vec<char>> = Vec::new();
        match &self.stack_trace {
            Some(stack) => {
                let chars = chars_of(stack.as_str());
                lines.push(trim(&chars));
            },
            None => {},
        }
        let ghost head = parts_view(lines@);
        let mut i: usize = 0;
        while i < self.prints.len()
            invariant
                i <= self.prints.len(),
                parts_view(lines@) == head + texts_view(self.prints@).take(i as int).map_values(
                    |p: Seq<char>| trimmed(p),
                ),
            decreases self.prints.len() - i,
        {
            let chars = chars_of(self.prints[i].as_str());
            let ghost before = parts_view(lines@);
            lines.push(trim(&chars));
            proof {
                let f = |p: Seq<char>| trimmed(p);
                let all = texts_view(self.prints@);
                assert(parts_view(lines@) =~= before.push(trimmed(all[i as int])));
                assert(all.take(i + 1).map_values(f) =~= all.take(i as int).map_values(f).push(
                    trimmed(all[i as int]),
                ));
            }
            i += 1;
        }
        proof {
            assert(parts_view(lines@) =~= self@.message_lines());
        }
        let mut sep: Vec<char> = Vec::new();
        sep.push('\n');
        join(&lines, &sep)
    }
}

} // verus!
