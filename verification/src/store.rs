//! The correlation store: the suites, tests and groups that the stream has
//! mentioned so far, and the one operation that applies an event to them.

use vstd::prelude::*;
use crate::diagnostics::{diagnose, diagnostic_of, Diagnostic, DiagnosticView};
use crate::event::{Event, EventView, Outcome};
use crate::record::{
    groups_view, records_view, suites_view, Completion, CompletionView, Group, GroupView, Suite,
    SuiteView, TestRecord, TestRecordView,
};
use crate::text::text_view;

verus! {

/// Everything the stream has declared so far.
#[derive(Clone, Debug)]
pub struct Store {
    /// The suites, in the order in which they were declared.
    pub suites: Vec<Suite>,
    /// The tests that no suite owns yet, in the order in which they started.
    pub pending: Vec<TestRecord>,
    pub groups: Vec<Group>,
    /// The wall-clock time, in milliseconds since the epoch, from which the
    /// offsets of the events count.
    pub run_start_ms: i64,
}

/// The view of a store.
pub struct StoreView {
    pub suites: Seq<SuiteView>,
    pub pending: Seq<TestRecordView>,
    pub groups: Seq<GroupView>,
    pub run_start_ms: int,
}

impl View for Store {
    type V = StoreView;

    open spec fn view(&self) -> StoreView {
        StoreView {
            suites: suites_view(self.suites@),
            pending: records_view(self.pending@),
            groups: groups_view(self.groups@),
            run_start_ms: self.run_start_ms as int,
        }
    }
}

/// What the caller has to do after an event has been applied.
#[derive(Clone, Debug, PartialEq, Eq)]
pub enum Effect {
    Nothing,
    /// Flush the output written so far.
    Flush,
    /// Report a test that has just failed or errored.
    Diagnose(Diagnostic),
}

/// The view of an effect.
pub enum EffectView {
    Nothing,
    Flush,
    Diagnose(DiagnosticView),
}

impl View for Effect {
    type V = EffectView;

    open spec fn view(&self) -> EffectView {
        match *self {
            Effect::Nothing => EffectView::Nothing,
            Effect::Flush => EffectView::Flush,
            Effect::Diagnose(d) => EffectView::Diagnose(d@),
        }
    }
}

/// Whether `i` is the position of the first test in `tests` whose id is `id`.
pub open spec fn is_first_with_id(tests: Seq<TestRecordView>, id: int, i: int) -> bool {
    &&& 0 <= i < tests.len()
    &&& tests[i].id == id
    &&& forall|k: int| 0 <= k < i ==> (#[trigger] tests[k]).id != id
}

/// The position of the first test in `tests` whose id is `id`.
pub open spec fn position_of(tests: Seq<TestRecordView>, id: int) -> Option<int> {
    if exists|i: int| is_first_with_id(tests, id, i) {
        Some(choose|i: int| is_first_with_id(tests, id, i))
    } else {
        None
    }
}

/// There is at most one first position.
pub proof fn lemma_position_of(tests: Seq<TestRecordView>, id: int, i: int)
    requires
        is_first_with_id(tests, id, i),
    ensures
        position_of(tests, id) == Some(i),
{
    let j = choose|j: int| is_first_with_id(tests, id, j);
    if j < i {
        assert(tests[j].id != id);
    }
    if i < j {
        assert(tests[i].id != id);
    }
}

/// A test as its start event declares it, arrived at `now`.
pub open spec fn started(
    id: int,
    name: Seq<char>,
    suite_id: int,
    group_ids: Seq<int>,
    location: crate::event::LocationView,
    start_offset_ms: int,
    now: int,
) -> TestRecordView {
    TestRecordView {
        id,
        name,
        suite_id,
        group_ids,
        location,
        completion: None,
        prints: Seq::empty(),
        error: None,
        stack_trace: None,
        start_offset_ms,
        arrival_ms: now,
    }
}

/// The test `t` after it has finished.
pub open spec fn finished(t: TestRecordView, result: Outcome, end_offset_ms: int) -> TestRecordView {
    TestRecordView { completion: Some(CompletionView { outcome: result, end_offset_ms }), ..t }
}

/// The test `t` after one more print.
pub open spec fn printed(t: TestRecordView, message: Seq<char>) -> TestRecordView {
    TestRecordView { prints: t.prints.push(message), ..t }
}

/// The test `t` after an error: the message replaces an earlier one; the stack
/// trace is kept where the test has one already.
pub open spec fn errored(
    t: TestRecordView,
    message: Seq<char>,
    stack_trace: Option<Seq<char>>,
) -> TestRecordView {
    TestRecordView {
        error: Some(message),
        stack_trace: if t.stack_trace is Some {
            t.stack_trace
        } else {
            stack_trace
        },
        ..t
    }
}

/// The store after the event `e`, which arrived at the wall-clock time `now`.
///
/// An event that names a test changes the first pending test with that id;
/// where there is none, the store stays as it is.
pub open spec fn applied(s: StoreView, e: EventView, now: int) -> StoreView {
    match e {
        EventView::Start => StoreView { run_start_ms: now, ..s },
        EventView::SuiteDeclared { id, path, platform } => StoreView {
            suites: s.suites.push(SuiteView { id, path, platform, tests: Seq::empty() }),
            ..s
        },
        EventView::TestStarted {
            id,
            name,
            suite_id,
            group_ids,
            location,
            start_offset_ms,
        } => StoreView {
            pending: s.pending.push(
                started(id, name, suite_id, group_ids, location, start_offset_ms, now),
            ),
            ..s
        },
        EventView::TestFinished { id, result, end_offset_ms } => match position_of(s.pending, id) {
            Some(i) => StoreView {
                pending: s.pending.update(i, finished(s.pending[i], result, end_offset_ms)),
                ..s
            },
            None => s,
        },
        EventView::GroupDeclared { id, suite_id, parent_id, name, test_count } => StoreView {
            groups: s.groups.push(GroupView { id, suite_id, parent_id, name, test_count }),
            ..s
        },
        EventView::PrintEmitted { test_id, message } => match position_of(s.pending, test_id) {
            Some(i) => StoreView {
                pending: s.pending.update(i, printed(s.pending[i], message)),
                ..s
            },
            None => s,
        },
        EventView::ErrorEmitted { test_id, message, stack_trace } => match position_of(
            s.pending,
            test_id,
        ) {
            Some(i) => StoreView {
                pending: s.pending.update(i, errored(s.pending[i], message, stack_trace)),
                ..s
            },
            None => s,
        },
        EventView::AllSuitesKnown => s,
        EventView::Done => s,
    }
}

/// The store at the start of a run that is taken to begin at `now`.
pub open spec fn empty_store(now: int) -> StoreView {
    StoreView {
        suites: Seq::empty(),
        pending: Seq::empty(),
        groups: Seq::empty(),
        run_start_ms: now,
    }
}

/// The store after the events of a stream, each with the wall-clock time at
/// which it arrived, have been applied in their order.
pub open spec fn replayed(start: StoreView, events: Seq<(EventView, int)>) -> StoreView
    decreases events.len(),
{
    if events.len() == 0 {
        start
    } else {
        applied(replayed(start, events.drop_last()), events.last().0, events.last().1)
    }
}

/// What the caller has to do after the event `e` has been applied to `s`: a
/// diagnostic where a pending test has just failed or errored, a flush at the
/// two events that end a phase of the run, nothing otherwise.
pub open spec fn effect_of(s: StoreView, e: EventView) -> EffectView {
    match e {
        EventView::TestFinished { id, result, end_offset_ms } => match position_of(s.pending, id) {
            Some(i) => if result != Outcome::Success {
                EffectView::Diagnose(diagnostic_of(finished(s.pending[i], result, end_offset_ms)))
            } else {
                EffectView::Nothing
            },
            None => EffectView::Nothing,
        },
        EventView::AllSuitesKnown => EffectView::Flush,
        EventView::Done => EffectView::Flush,
        _ => EffectView::Nothing,
    }
}

impl Store {
    /// An empty store for a run that is taken to start at `now_ms`.
    pub fn new(now_ms: i64) -> (s: Store)
        ensures
            s@ == empty_store(now_ms as int),
    {
        let s = Store {
            suites: Vec::new(),
            pending: Vec::new(),
            groups: Vec::new(),
            run_start_ms: now_ms,
        };
        assert(s@.suites =~= Seq::empty());
        assert(s@.pending =~= Seq::empty());
        assert(s@.groups =~= Seq::empty());
        s
    }

    /// The position of the first pending test with the id `id`.
    pub fn find(&self, id: i64) -> (r: Option<usize>)
        ensures
            match r {
                Some(i) => position_of(self@.pending, id as int) == Some(i as int),
                None => position_of(self@.pending, id as int) is None,
            },
    {
        let mut i: usize = 0;
        while i < self.pending.len()
            invariant
                i <= self.pending.len(),
                forall|k: int| 0 <= k < i ==> (#[trigger] self@.pending[k]).id != id,
            decreases self.pending.len() - i,
        {
            if self.pending[i].id == id {
                proof {
                    lemma_position_of(self@.pending, id as int, i as int);
                }
                return Some(i);
            }
            i += 1;
        }
        assert forall|j: int| !is_first_with_id(self@.pending, id as int, j) by {
            if 0 <= j < self@.pending.len() {
                assert(self@.pending[j].id != id);
            }
        }
        None
    }

    /// Applies one event, which arrived at the wall-clock time `now_ms`, and
    /// says what the caller has to do about it.
    pub fn apply(&mut self, event: Event, now_ms: i64) -> (effect: Effect)
        ensures
            final(self)@ == applied(old(self)@, event@, now_ms as int),
            effect@ == effect_of(old(self)@, event@),
    {
        match event {
            Event::Start => {
                self.run_start_ms = now_ms;
                Effect::Nothing
            },
            Event::SuiteDeclared { id, path, platform } => {
                let suite = Suite { id, path, platform, tests: Vec::new() };
                assert(suite@.tests =~= Seq::empty());
                self.suites.push(suite);
                assert(self@.suites =~= old(self)@.suites.push(suite@));
                Effect::Nothing
            },
            Event::TestStarted { id, name, suite_id, group_ids, location, start_offset_ms } => {
                let record = TestRecord {
                    id,
                    name,
                    suite_id,
                    group_ids,
                    location,
                    completion: None,
                    prints: Vec::new(),
                    error: None,
                    stack_trace: None,
                    start_offset_ms,
                    arrival_ms: now_ms,
                };
                assert(record@.prints =~= Seq::empty());
                self.pending.push(record);
                assert(self@.pending =~= old(self)@.pending.push(record@));
                Effect::Nothing
            },
            Event::TestFinished { id, result, end_offset_ms } => {
                match self.find(id) {
                    Some(i) => {
                        self.pending[i].completion = Some(
                            Completion { outcome: result, end_offset_ms },
                        );
                        assert(self@.pending =~= old(self)@.pending.update(
                            i as int,
                            finished(old(self)@.pending[i as int], result, end_offset_ms as int),
                        ));
                        match result {
                            Outcome::Success => Effect::Nothing,
                            _ => Effect::Diagnose(diagnose(&self.pending[i])),
                        }
                    },
                    None => Effect::Nothing,
                }
            },
            Event::GroupDeclared { id, suite_id, parent_id, name, test_count } => {
                let group = Group { id, suite_id, parent_id, name, test_count };
                self.groups.push(group);
                assert(self@.groups =~= old(self)@.groups.push(group@));
                Effect::Nothing
            },
            Event::PrintEmitted { test_id, message } => {
                match self.find(test_id) {
                    Some(i) => {
                        self.pending[i].prints.push(message);
                        assert(self.pending@[i as int]@.prints =~= old(self)@.pending[i as int].prints.push(
                            message@,
                        ));
                        assert(self@.pending =~= old(self)@.pending.update(
                            i as int,
                            printed(old(self)@.pending[i as int], message@),
                        ));
                    },
                    None => {},
                }
                Effect::Nothing
            },
            Event::ErrorEmitted { test_id, message, stack_trace } => {
                match self.find(test_id) {
                    Some(i) => {
                        self.pending[i].error = Some(message);
                        if self.pending[i].stack_trace.is_none() {
                            self.pending[i].stack_trace = stack_trace;
                        }
                        assert(self@.pending =~= old(self)@.pending.update(
                            i as int,
                            errored(
                                old(self)@.pending[i as int],
                                message@,
                                text_view(stack_trace),
                            ),
                        ));
                    },
                    None => {},
                }
                Effect::Nothing
            },
            Event::AllSuitesKnown => Effect::Flush,
            Event::Done => Effect::Flush,
        }
    }
}

} // verus!
