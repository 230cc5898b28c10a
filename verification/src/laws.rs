//! What holds of every run: facts that relate the store, the report builder
//! and the emitter to one another.

use vstd::prelude::*;
use crate::emit::{case_tree, case_trees, error_tree, groups_at, stamp_at, suite_tree};
use crate::event::EventView;
use crate::filters::{
    lemma_filter_agree, lemma_filter_all, lemma_filter_empty, lemma_filter_member,
    lemma_filter_none, lemma_filter_push, lemma_filter_split,
};
use crate::golden::{
    any_captured, directories_from, failures_pattern, first_group, folder_captures,
    golden_pattern, marker_captures, sources_of,
};
use crate::record::{SuiteView, TestRecordView};
use crate::report::{
    built, built_suites, emitted, is_omitted, is_owner, is_unclaimed, owned_by,
};
use crate::store::{
    applied, effect_of, empty_store, is_first_with_id, position_of, replayed, EffectView,
    StoreView,
};
use crate::xml::{XmlContent, XmlTree};

verus! {

/// Whether every test that a suite holds declares the id of that suite.
pub open spec fn tests_belong(suites: Seq<SuiteView>) -> bool {
    forall|i: int, k: int|
        0 <= i < suites.len() && 0 <= k < suites[i].tests.len() ==> (
        #[trigger] suites[i].tests[k]).suite_id == suites[i].id
}

/// A test moves to one suite only, and to one that has the id the test
/// declares: where the suites at `i` and at `j` both come to own the pending
/// test `t`, they are the same suite, and its id is the suite id of `t`.
pub proof fn law_one_owner(s: StoreView, t: TestRecordView, i: int, j: int)
    requires
        owned_by(s.pending, s.suites, i).contains(t),
        owned_by(s.pending, s.suites, j).contains(t),
    ensures
        i == j,
        0 <= i < s.suites.len(),
        s.suites[i].id == t.suite_id,
        s.pending.contains(t),
{
    lemma_filter_member(s.pending, |t: TestRecordView| is_owner(s.suites, i, t.suite_id), t);
    lemma_filter_member(s.pending, |t: TestRecordView| is_owner(s.suites, j, t.suite_id), t);
    if i < j {
        assert(s.suites[i].id != t.suite_id);
    }
    if j < i {
        assert(s.suites[j].id != t.suite_id);
    }
}

/// A pending test whose suite was declared moves to a suite, and a test
/// whose suite was not declared stays pending.
pub proof fn law_owner_exists(s: StoreView, k: int)
    requires
        0 <= k < s.pending.len(),
    ensures
        (exists|i: int| 0 <= i < s.suites.len() && s.suites[i].id == s.pending[k].suite_id) ==> (
        exists|i: int| #[trigger] owned_by(s.pending, s.suites, i).contains(s.pending[k])),
        !(exists|i: int| 0 <= i < s.suites.len() && s.suites[i].id == s.pending[k].suite_id)
            ==> built(s).pending.contains(s.pending[k]),
{
    let t = s.pending[k];
    if exists|i: int| 0 <= i < s.suites.len() && s.suites[i].id == t.suite_id {
        let some = choose|i: int| 0 <= i < s.suites.len() && s.suites[i].id == t.suite_id;
        let first = lemma_first_owner(s.suites, t.suite_id, some);
        lemma_filter_member(
            s.pending,
            |t: TestRecordView| is_owner(s.suites, first, t.suite_id),
            t,
        );
        assert(owned_by(s.pending, s.suites, first).contains(t));
    } else {
        assert forall|j: int| 0 <= j < s.suites.len() implies (#[trigger] s.suites[j]).id
            != t.suite_id by {}
        lemma_filter_member(
            s.pending,
            |t: TestRecordView| is_unclaimed(s.suites, s.suites.len() as int, t.suite_id),
            t,
        );
    }
}

/// Among the suites with a given id there is a first.
proof fn lemma_first_owner(suites: Seq<SuiteView>, suite_id: int, some: int) -> (first: int)
    requires
        0 <= some < suites.len(),
        suites[some].id == suite_id,
    ensures
        is_owner(suites, first, suite_id),
        first <= some,
    decreases some,
{
    if exists|j: int| 0 <= j < some && (#[trigger] suites[j]).id == suite_id {
        let j = choose|j: int| 0 <= j < some && (#[trigger] suites[j]).id == suite_id;
        lemma_first_owner(suites, suite_id, j)
    } else {
        some
    }
}

/// Whether no two of the tests have the same id.
pub open spec fn ids_differ(tests: Seq<TestRecordView>) -> bool {
    forall|a: int, b: int|
        0 <= a < b < tests.len() ==> (#[trigger] tests[a]).id != (#[trigger] tests[b]).id
}

/// Tests picked out of tests with different ids have different ids.
proof fn lemma_picked_ids_differ(tests: Seq<TestRecordView>, pred: spec_fn(TestRecordView) -> bool)
    requires
        ids_differ(tests),
    ensures
        ids_differ(tests.filter(pred)),
    decreases tests.len(),
{
    if tests.len() == 0 {
        lemma_filter_empty(pred);
        assert(tests =~= Seq::empty());
    } else {
        let front = tests.drop_last();
        let x = tests.last();
        assert(tests =~= front.push(x));
        assert(ids_differ(front)) by {
            assert forall|a: int, b: int| 0 <= a < b < front.len() implies (#[trigger] front[a]).id
                != (#[trigger] front[b]).id by {
                assert(tests[a].id != tests[b].id);
            }
        }
        lemma_picked_ids_differ(front, pred);
        lemma_filter_push(front, x, pred);
        let picked = front.filter(pred);
        if pred(x) {
            assert forall|a: int| 0 <= a < picked.len() implies (#[trigger] picked[a]).id
                != x.id by {
                assert(picked.contains(picked[a]));
                lemma_filter_member(front, pred, picked[a]);
                let k = choose|k: int| 0 <= k < front.len() && front[k] == picked[a];
                assert(tests[k].id != tests[tests.len() - 1].id);
            }
        }
    }
}

/// No test is reported twice: where the pending tests have different ids and
/// no suite holds a test before the build, two places in the suites after the
/// build that hold tests with the same id are the same place.
pub proof fn law_no_test_twice(s: StoreView, i: int, a: int, j: int, b: int)
    requires
        suites_hold_nothing(s),
        ids_differ(s.pending),
        0 <= i < s.suites.len(),
        0 <= j < s.suites.len(),
        0 <= a < built(s).suites[i].tests.len(),
        0 <= b < built(s).suites[j].tests.len(),
        built(s).suites[i].tests[a].id == built(s).suites[j].tests[b].id,
    ensures
        i == j,
        a == b,
{
    let first = owned_by(s.pending, s.suites, i);
    let second = owned_by(s.pending, s.suites, j);
    assert(built(s).suites[i].tests =~= first);
    assert(built(s).suites[j].tests =~= second);
    let t = first[a];
    let u = second[b];
    assert(first.contains(t));
    assert(second.contains(u));
    lemma_filter_member(s.pending, |t: TestRecordView| is_owner(s.suites, i, t.suite_id), t);
    lemma_filter_member(s.pending, |t: TestRecordView| is_owner(s.suites, j, t.suite_id), u);
    let k = choose|k: int| 0 <= k < s.pending.len() && s.pending[k] == t;
    let m = choose|m: int| 0 <= m < s.pending.len() && s.pending[m] == u;
    assert(k == m) by {
        if k < m {
            assert(s.pending[k].id != s.pending[m].id);
        }
        if m < k {
            assert(s.pending[m].id != s.pending[k].id);
        }
    }
    law_one_owner(s, t, i, j);
    lemma_picked_ids_differ(s.pending, |t: TestRecordView| is_owner(s.suites, i, t.suite_id));
    if a < b {
        assert(first[a].id != first[b].id);
    }
    if b < a {
        assert(first[b].id != first[a].id);
    }
}

/// The build keeps every test with the suite it declares: where that holds
/// of the suites before the build, it holds of them after it.
pub proof fn law_tests_belong(s: StoreView)
    requires
        tests_belong(s.suites),
    ensures
        tests_belong(built(s).suites),
{
    let after = built(s).suites;
    assert forall|i: int, k: int|
        0 <= i < after.len() && 0 <= k < after[i].tests.len() implies (
    #[trigger] after[i].tests[k]).suite_id == after[i].id by {
        let held = s.suites[i].tests;
        if k < held.len() {
            assert(after[i].tests[k] == s.suites[i].tests[k]);
        } else {
            let owner = |t: TestRecordView| is_owner(s.suites, i, t.suite_id);
            let gained = s.pending.filter(owner);
            assert(after[i].tests[k] == gained[k - held.len()]);
            s.pending.lemma_filter_pred(owner, k - held.len());
        }
    }
}

/// After any stream and the build, every test that a suite holds declares
/// the id of that suite.
pub proof fn law_tests_sit_in_their_suite(events: Seq<(EventView, int)>, now: int)
    ensures
        tests_belong(built(replayed(empty_store(now), events)).suites),
{
    law_tests_wait_for_the_build(events, now);
    let end = replayed(empty_store(now), events);
    assert(tests_belong(end.suites)) by {
        assert forall|i: int, k: int|
            0 <= i < end.suites.len() && 0 <= k < end.suites[i].tests.len() implies (
        #[trigger] end.suites[i].tests[k]).suite_id == end.suites[i].id by {
            assert(end.suites[i].tests.len() == 0);
        }
    }
    law_tests_belong(end);
}

/// Building twice is building once: after the build no pending test is left
/// that a suite could own.
pub proof fn law_build_idempotent(s: StoreView)
    ensures
        built(built(s)) == built(s),
{
    let once = built(s);
    let twice = built(once);
    let n = s.suites.len() as int;
    let free = |t: TestRecordView| is_unclaimed(s.suites, n, t.suite_id);
    assert forall|k: int| 0 <= k < once.pending.len() implies free(
        #[trigger] once.pending[k],
    ) by {
        s.pending.lemma_filter_pred(free, k);
    }
    assert forall|id: int, m: int| is_unclaimed(once.suites, m, id) == is_unclaimed(
        s.suites,
        m,
        id,
    ) by {
        if is_unclaimed(once.suites, m, id) {
            assert forall|j: int| 0 <= j < m && j < s.suites.len() implies (
            #[trigger] s.suites[j]).id != id by {
                assert(once.suites[j].id != id);
            }
        }
        if is_unclaimed(s.suites, m, id) {
            assert forall|j: int| 0 <= j < m && j < once.suites.len() implies (
            #[trigger] once.suites[j]).id != id by {
                assert(s.suites[j].id != id);
            }
        }
    }
    assert(twice.pending == once.pending) by {
        let free_once = |t: TestRecordView| is_unclaimed(once.suites, n, t.suite_id);
        lemma_filter_all(once.pending, free_once);
    }
    assert forall|i: int| 0 <= i < n implies #[trigger] twice.suites[i] == once.suites[i] by {
        let owner = |t: TestRecordView| is_owner(once.suites, i, t.suite_id);
        assert forall|k: int| 0 <= k < once.pending.len() implies !owner(
            #[trigger] once.pending[k],
        ) by {
            let t = once.pending[k];
            if is_owner(once.suites, i, t.suite_id) {
                assert(s.suites[i].id != t.suite_id);
            }
        }
        lemma_filter_none(once.pending, owner);
    }
    assert(twice.suites =~= once.suites);
}

/// The `error` element of a test that has not finished.
pub open spec fn unfinished_mark() -> XmlTree {
    XmlTree {
        name: "error"@,
        attributes: seq![("message"@, "Test not finished"@)],
        content: XmlContent::Empty,
    }
}

/// A test that has not finished is never left out, and the first child of
/// its `testcase` element is the `error` element that says so.
pub proof fn law_unfinished_is_reported(
    t: TestRecordView,
    stamp: Seq<char>,
    groups: Seq<Seq<Seq<char>>>,
)
    requires
        t.completion is None,
    ensures
        !is_omitted(t),
        error_tree(t) == Some(unfinished_mark()),
        case_tree(t, stamp, groups).content is Elements,
        case_tree(t, stamp, groups).content->Elements_0[0] == unfinished_mark(),
{
}

/// Every test of a suite that is not left out has its `testcase` element
/// among the children of the suite's element, made from the time stamp and
/// the attachments at the test's own position.
pub proof fn law_shown_tests_are_children(
    tests: Seq<TestRecordView>,
    stamps: Seq<Seq<char>>,
    listings: Seq<Seq<Seq<Seq<char>>>>,
    k: int,
    n: int,
)
    requires
        0 <= k < n <= tests.len(),
        !is_omitted(tests[k]),
    ensures
        case_trees(tests, stamps, listings, n).contains(
            case_tree(tests[k], stamp_at(stamps, k), groups_at(listings, k)),
        ),
    decreases n,
{
    let wanted = case_tree(tests[k], stamp_at(stamps, k), groups_at(listings, k));
    let all = case_trees(tests, stamps, listings, n);
    if k == n - 1 {
        assert(all[all.len() - 1] == wanted);
    } else {
        law_shown_tests_are_children(tests, stamps, listings, k, n - 1);
        let before = case_trees(tests, stamps, listings, n - 1);
        let i = choose|i: int| 0 <= i < before.len() && before[i] == wanted;
        assert(all[i] == wanted);
    }
}

/// The document of a suite has one `testcase` element for each test that is
/// not left out.
pub proof fn law_one_element_for_each_shown_test(
    tests: Seq<TestRecordView>,
    stamps: Seq<Seq<char>>,
    listings: Seq<Seq<Seq<Seq<char>>>>,
)
    ensures
        case_trees(tests, stamps, listings, tests.len() as int).len() == emitted(tests).len(),
{
    lemma_cases_counted(tests, stamps, listings, tests.len() as int);
    assert(tests.take(tests.len() as int) =~= tests);
}

proof fn lemma_cases_counted(
    tests: Seq<TestRecordView>,
    stamps: Seq<Seq<char>>,
    listings: Seq<Seq<Seq<Seq<char>>>>,
    n: int,
)
    requires
        0 <= n <= tests.len(),
    ensures
        case_trees(tests, stamps, listings, n).len() == emitted(tests.take(n)).len(),
    decreases n,
{
    let shown = |t: TestRecordView| !is_omitted(t);
    if n == 0 {
        assert(tests.take(0) =~= Seq::empty());
    } else {
        lemma_cases_counted(tests, stamps, listings, n - 1);
        assert(tests.take(n) =~= tests.take(n - 1).push(tests[n - 1]));
        lemma_filter_push(tests.take(n - 1), tests[n - 1], shown);
    }
}

/// Whether `later` holds everything that `earlier` has declared: the same
/// suites and groups at the start of their lists, and at each position of a
/// pending test a test with the same id, name, suite and start.
pub open spec fn keeps_declared(earlier: StoreView, later: StoreView) -> bool {
    &&& earlier.suites.is_prefix_of(later.suites)
    &&& earlier.groups.is_prefix_of(later.groups)
    &&& earlier.pending.len() <= later.pending.len()
    &&& forall|k: int|
        0 <= k < earlier.pending.len() ==> {
            &&& (#[trigger] later.pending[k]).id == earlier.pending[k].id
            &&& later.pending[k].name == earlier.pending[k].name
            &&& later.pending[k].suite_id == earlier.pending[k].suite_id
            &&& later.pending[k].start_offset_ms == earlier.pending[k].start_offset_ms
        }
}

/// No event deletes anything: what has been declared stays where it is, and
/// a later event changes of a test only what it printed, its error and its
/// completion.
pub proof fn law_nothing_is_deleted(s: StoreView, e: EventView, now: int)
    ensures
        keeps_declared(s, applied(s, e, now)),
{
    let after = applied(s, e, now);
    match e {
        EventView::TestFinished { id, .. } => {
            lemma_found(s.pending, id);
        },
        EventView::PrintEmitted { test_id, .. } => {
            lemma_found(s.pending, test_id);
        },
        EventView::ErrorEmitted { test_id, .. } => {
            lemma_found(s.pending, test_id);
        },
        _ => {},
    }
    assert(s.groups =~= after.groups.subrange(0, s.groups.len() as int));
}

/// Whether the event is one of the three that change a test, and names the
/// test `id`.
pub open spec fn names_test(e: EventView, id: int) -> bool {
    match e {
        EventView::TestFinished { id: named, .. } => named == id,
        EventView::PrintEmitted { test_id, .. } => test_id == id,
        EventView::ErrorEmitted { test_id, .. } => test_id == id,
        _ => false,
    }
}

/// An event that names a test that never started is dropped: it leaves the
/// store as it is and asks for nothing.
pub proof fn law_unknown_test_is_dropped(s: StoreView, e: EventView, now: int, id: int)
    requires
        names_test(e, id),
        forall|k: int| 0 <= k < s.pending.len() ==> (#[trigger] s.pending[k]).id != id,
    ensures
        applied(s, e, now) == s,
        effect_of(s, e) == EffectView::Nothing,
{
    assert forall|i: int| !is_first_with_id(s.pending, id, i) by {
        if 0 <= i < s.pending.len() {
            assert(s.pending[i].id != id);
        }
    }
}

/// Whether the event says that the test `id` has finished.
pub open spec fn finishes(e: EventView, id: int) -> bool {
    e matches EventView::TestFinished { id: done, .. } && done == id
}

/// Whether no pending test with the id `id` has finished.
pub open spec fn unfinished(s: StoreView, id: int) -> bool {
    forall|k: int|
        0 <= k < s.pending.len() && (#[trigger] s.pending[k]).id == id ==> s.pending[k].completion
            is None
}

/// Where `position_of` finds a test, it is the first with the id.
proof fn lemma_found(tests: Seq<TestRecordView>, id: int)
    ensures
        position_of(tests, id) matches Some(i) ==> is_first_with_id(tests, id, i),
{
}

/// A test whose finishing event never arrives stays unfinished: where no
/// event of the stream says that the test `id` has finished, no pending test
/// with that id has finished after the stream.
pub proof fn law_never_finished(start: StoreView, events: Seq<(EventView, int)>, id: int)
    requires
        unfinished(start, id),
        forall|k: int| 0 <= k < events.len() ==> !finishes((#[trigger] events[k]).0, id),
    ensures
        unfinished(replayed(start, events), id),
    decreases events.len(),
{
    if events.len() > 0 {
        let front = events.drop_last();
        assert forall|k: int| 0 <= k < front.len() implies !finishes(
            (#[trigger] front[k]).0,
            id,
        ) by {
            assert(front[k] == events[k]);
        }
        law_never_finished(start, front, id);
        let s = replayed(start, front);
        let e = events.last().0;
        let after = applied(s, e, events.last().1);
        match e {
            EventView::TestFinished { id: done, .. } => {
                lemma_found(s.pending, done);
            },
            EventView::PrintEmitted { test_id, .. } => {
                lemma_found(s.pending, test_id);
            },
            EventView::ErrorEmitted { test_id, .. } => {
                lemma_found(s.pending, test_id);
            },
            _ => {},
        }
        assert forall|k: int|
            0 <= k < after.pending.len() && (#[trigger] after.pending[k]).id == id implies after.pending[k].completion
            is None by {
            if k < s.pending.len() {
                assert(s.pending[k].id == after.pending[k].id);
            }
        }
    }
}

/// How many events of the stream start a test.
pub open spec fn test_starts(events: Seq<(EventView, int)>) -> nat {
    events.filter(|a: (EventView, int)| a.0 is TestStarted).len()
}

/// How many tests the reports of the suites show between them.
pub open spec fn emitted_total(suites: Seq<SuiteView>) -> nat
    decreases suites.len(),
{
    if suites.len() == 0 {
        0
    } else {
        emitted_total(suites.drop_last()) + emitted(suites.last().tests).len()
    }
}

/// Whether the suite of every pending test has been declared.
pub open spec fn all_declared(s: StoreView) -> bool {
    forall|k: int|
        0 <= k < s.pending.len() ==> exists|i: int|
            0 <= i < s.suites.len() && (#[trigger] s.suites[i]).id == (
            #[trigger] s.pending[k]).suite_id
}

/// Whether no suite holds a test yet.
pub open spec fn suites_hold_nothing(s: StoreView) -> bool {
    forall|i: int| 0 <= i < s.suites.len() ==> (#[trigger] s.suites[i]).tests.len() == 0
}

/// How many of the pending tests the first `n` suites come to show.
pub open spec fn shown_by_first(
    pending: Seq<TestRecordView>,
    suites: Seq<SuiteView>,
    n: int,
) -> nat
    decreases n,
{
    if n <= 0 {
        0
    } else {
        shown_by_first(pending, suites, n - 1) + emitted(owned_by(pending, suites, n - 1)).len()
    }
}

/// Whether one of the first `n` suites comes to own a test with the suite id
/// `suite_id`.
pub open spec fn owned_among(suites: Seq<SuiteView>, n: int, suite_id: int) -> bool {
    exists|i: int| 0 <= i < n && is_owner(suites, i, suite_id)
}

/// Until the build, the stream only declares suites and changes pending
/// tests: as many tests are pending as the stream has started, and no suite
/// holds a test.
pub proof fn law_tests_wait_for_the_build(events: Seq<(EventView, int)>, now: int)
    ensures
        replayed(empty_store(now), events).pending.len() == test_starts(events),
        suites_hold_nothing(replayed(empty_store(now), events)),
    decreases events.len(),
{
    let starts = |a: (EventView, int)| a.0 is TestStarted;
    if events.len() == 0 {
        assert(events =~= Seq::empty());
    } else {
        let front = events.drop_last();
        let last = events.last();
        assert(events =~= front.push(last));
        law_tests_wait_for_the_build(front, now);
        lemma_filter_push(front, last, starts);
        let s = replayed(empty_store(now), front);
        let after = applied(s, last.0, last.1);
        match last.0 {
            EventView::TestFinished { id, .. } => {
                lemma_found(s.pending, id);
            },
            EventView::PrintEmitted { test_id, .. } => {
                lemma_found(s.pending, test_id);
            },
            EventView::ErrorEmitted { test_id, .. } => {
                lemma_found(s.pending, test_id);
            },
            _ => {},
        }
        assert forall|i: int| 0 <= i < after.suites.len() implies (
        #[trigger] after.suites[i]).tests.len() == 0 by {
            if i < s.suites.len() {
                assert(after.suites[i] == s.suites[i]);
            }
        }
    }
}

/// One more pending test is one more shown test where one of the suites
/// counted comes to own it and it is not left out.
proof fn lemma_shown_push(
    pending: Seq<TestRecordView>,
    x: TestRecordView,
    suites: Seq<SuiteView>,
    n: int,
)
    requires
        0 <= n <= suites.len(),
    ensures
        shown_by_first(pending.push(x), suites, n) == shown_by_first(pending, suites, n) + (if
            !is_omitted(x) && owned_among(suites, n, x.suite_id) {
            1nat
        } else {
            0nat
        }),
    decreases n,
{
    if n > 0 {
        lemma_shown_push(pending, x, suites, n - 1);
        let owner = |t: TestRecordView| is_owner(suites, n - 1, t.suite_id);
        let shown = |t: TestRecordView| !is_omitted(t);
        lemma_filter_push(pending, x, owner);
        if owner(x) {
            lemma_filter_push(pending.filter(owner), x, shown);
            assert(is_owner(suites, n - 1, x.suite_id));
            assert(owned_among(suites, n, x.suite_id));
            assert(!owned_among(suites, n - 1, x.suite_id)) by {
                if owned_among(suites, n - 1, x.suite_id) {
                    let i = choose|i: int| 0 <= i < n - 1 && is_owner(suites, i, x.suite_id);
                    assert(suites[i].id != x.suite_id);
                }
            }
        } else {
            if owned_among(suites, n, x.suite_id) {
                let i = choose|i: int| 0 <= i < n && is_owner(suites, i, x.suite_id);
                assert(0 <= i < n - 1 && is_owner(suites, i, x.suite_id));
            }
        }
    } else {
        assert(!owned_among(suites, n, x.suite_id));
    }
}

/// Where the suite of every pending test has been declared, the suites come
/// to show every pending test that is not left out, each once.
proof fn lemma_shown_all(pending: Seq<TestRecordView>, suites: Seq<SuiteView>)
    requires
        forall|k: int|
            0 <= k < pending.len() ==> exists|i: int|
                0 <= i < suites.len() && (#[trigger] suites[i]).id == (
                #[trigger] pending[k]).suite_id,
    ensures
        shown_by_first(pending, suites, suites.len() as int) == emitted(pending).len(),
    decreases pending.len(),
{
    let shown = |t: TestRecordView| !is_omitted(t);
    let n = suites.len() as int;
    if pending.len() == 0 {
        lemma_shown_none(suites, n);
        lemma_filter_empty(shown);
        assert(pending =~= Seq::empty());
    } else {
        let front = pending.drop_last();
        let x = pending.last();
        assert(pending =~= front.push(x));
        assert forall|k: int| 0 <= k < front.len() implies exists|i: int|
            0 <= i < suites.len() && (#[trigger] suites[i]).id == (#[trigger] front[k]).suite_id by {
            assert(front[k] == pending[k]);
            let i = choose|i: int|
                0 <= i < suites.len() && (#[trigger] suites[i]).id == pending[k].suite_id;
            assert(suites[i].id == front[k].suite_id);
        }
        lemma_shown_all(front, suites);
        lemma_shown_push(front, x, suites, n);
        lemma_filter_push(front, x, shown);
        assert(owned_among(suites, n, x.suite_id)) by {
            assert(pending[pending.len() - 1] == x);
            let some = choose|i: int|
                0 <= i < suites.len() && (#[trigger] suites[i]).id == pending[pending.len()
                    - 1].suite_id;
            let first = lemma_first_owner(suites, x.suite_id, some);
            assert(is_owner(suites, first, x.suite_id));
        }
    }
}

/// With no pending test no suite shows one.
proof fn lemma_shown_none(suites: Seq<SuiteView>, n: int)
    ensures
        shown_by_first(Seq::empty(), suites, n) == 0,
    decreases n,
{
    if n > 0 {
        lemma_shown_none(suites, n - 1);
    }
}

/// Where no suite held a test before the build, the first `n` suites show
/// after it what they came to own and did not leave out.
proof fn lemma_total_of_built(s: StoreView, n: int)
    requires
        suites_hold_nothing(s),
        0 <= n <= s.suites.len(),
    ensures
        emitted_total(built_suites(s).take(n)) == shown_by_first(s.pending, s.suites, n),
    decreases n,
{
    let after = built_suites(s);
    if n > 0 {
        lemma_total_of_built(s, n - 1);
        assert(after.take(n).drop_last() =~= after.take(n - 1));
    }
}

/// Of the tests that a stream starts, the reports show all but the lifecycle
/// steps that succeeded, where the stream declares the suite of every test:
/// the tests shown and the tests left out are as many as the events that
/// start a test, and no test stays pending.
pub proof fn law_every_start_is_accounted_for(events: Seq<(EventView, int)>, now: int)
    requires
        all_declared(replayed(empty_store(now), events)),
    ensures
        ({
            let end = replayed(empty_store(now), events);
            &&& emitted_total(built(end).suites) + end.pending.filter(
                |t: TestRecordView| is_omitted(t),
            ).len() == test_starts(events)
            &&& emitted_total(built(end).suites) <= test_starts(events)
            &&& built(end).pending.len() == 0
        }),
{
    let end = replayed(empty_store(now), events);
    let n = end.suites.len() as int;
    law_tests_wait_for_the_build(events, now);
    lemma_total_of_built(end, n);
    assert(built_suites(end).take(n) =~= built_suites(end));
    lemma_shown_all(end.pending, end.suites);
    let omitted = |t: TestRecordView| is_omitted(t);
    lemma_filter_split(end.pending, omitted);
    lemma_filter_agree(
        end.pending,
        |t: TestRecordView| !omitted(t),
        |t: TestRecordView| !is_omitted(t),
    );
    let free = |t: TestRecordView| is_unclaimed(end.suites, n, t.suite_id);
    assert forall|k: int| 0 <= k < end.pending.len() implies !free(#[trigger] end.pending[k]) by {
        let i = choose|i: int|
            0 <= i < end.suites.len() && (#[trigger] end.suites[i]).id == end.pending[k].suite_id;
        assert(end.suites[i].id == end.pending[k].suite_id);
    }
    lemma_filter_none(end.pending, free);
}

/// The attributes with the value of every `timestamp` taken out.
pub open spec fn without_stamp(attributes: Seq<(Seq<char>, Seq<char>)>) -> Seq<
    (Seq<char>, Seq<char>),
> {
    attributes.map_values(
        |a: (Seq<char>, Seq<char>)|
            if a.0 == "timestamp"@ {
                (a.0, Seq::<char>::empty())
            } else {
                a
            },
    )
}

/// The element with the value of its `timestamp` taken out.
pub open spec fn unstamped_element(tree: XmlTree) -> XmlTree {
    XmlTree { attributes: without_stamp(tree.attributes), ..tree }
}

/// The document of a suite with the value of every `timestamp` taken out: that
/// of the suite and those of its tests.
pub open spec fn unstamped(tree: XmlTree) -> XmlTree {
    XmlTree {
        name: tree.name,
        attributes: without_stamp(tree.attributes),
        content: match tree.content {
            XmlContent::Elements(children) => XmlContent::Elements(
                children.map_values(|c: XmlTree| unstamped_element(c)),
            ),
            other => other,
        },
    }
}

proof fn lemma_cases_differ_in_stamps(
    tests: Seq<TestRecordView>,
    first: Seq<Seq<char>>,
    second: Seq<Seq<char>>,
    listings: Seq<Seq<Seq<Seq<char>>>>,
    n: int,
)
    ensures
        case_trees(tests, first, listings, n).map_values(|c: XmlTree| unstamped_element(c))
            == case_trees(tests, second, listings, n).map_values(
            |c: XmlTree| unstamped_element(c),
        ),
    decreases n,
{
    let plain = |c: XmlTree| unstamped_element(c);
    let a = case_trees(tests, first, listings, n);
    let b = case_trees(tests, second, listings, n);
    if n > 0 {
        lemma_cases_differ_in_stamps(tests, first, second, listings, n - 1);
        let a0 = case_trees(tests, first, listings, n - 1);
        let b0 = case_trees(tests, second, listings, n - 1);
        if !is_omitted(tests[n - 1]) {
            let x = case_tree(tests[n - 1], stamp_at(first, n - 1), groups_at(listings, n - 1));
            let y = case_tree(tests[n - 1], stamp_at(second, n - 1), groups_at(listings, n - 1));
            assert(without_stamp(x.attributes) =~= without_stamp(y.attributes));
            assert(a.map_values(plain) =~= a0.map_values(plain).push(plain(x)));
            assert(b.map_values(plain) =~= b0.map_values(plain).push(plain(y)));
        }
    } else {
        assert(a.map_values(plain) =~= b.map_values(plain));
    }
}

/// The document of a suite depends on the start of the run through its time
/// stamps alone: built twice from the same suite with different time stamps,
/// the two documents are equal once the values of the time stamps are taken
/// out.
pub proof fn law_only_stamps_differ(
    suite: SuiteView,
    test_root: Seq<char>,
    first_stamp: Seq<char>,
    first: Seq<Seq<char>>,
    second_stamp: Seq<char>,
    second: Seq<Seq<char>>,
    listings: Seq<Seq<Seq<Seq<char>>>>,
)
    ensures
        unstamped(suite_tree(suite, test_root, first_stamp, first, listings)) == unstamped(
            suite_tree(suite, test_root, second_stamp, second, listings),
        ),
{
    let a = suite_tree(suite, test_root, first_stamp, first, listings);
    let b = suite_tree(suite, test_root, second_stamp, second, listings);
    let n = suite.tests.len() as int;
    assert(without_stamp(a.attributes) =~= without_stamp(b.attributes));
    lemma_cases_differ_in_stamps(suite.tests, first, second, listings, n);
    let plain = |c: XmlTree| unstamped_element(c);
    let ca = case_trees(suite.tests, first, listings, n);
    let cb = case_trees(suite.tests, second, listings, n);
    assert(ca.len() == ca.map_values(plain).len());
    assert(cb.len() == cb.map_values(plain).len());
}

/// A folder that was captured has its directory among the directories.
proof fn lemma_directory_listed(folders: Seq<Option<Seq<char>>>, j: int)
    requires
        0 <= j < folders.len(),
        folders[j] is Some,
    ensures
        directories_from(folders).contains(folders[j]->0 + "/failures"@),
    decreases folders.len(),
{
    let all = directories_from(folders);
    let wanted = folders[j]->0 + "/failures"@;
    if j == folders.len() - 1 {
        assert(all[all.len() - 1] == wanted);
    } else {
        let front = folders.drop_last();
        assert(front[j] == folders[j]);
        lemma_directory_listed(front, j);
        let k = choose|k: int| 0 <= k < directories_from(front).len() && directories_from(
            front,
        )[k] == wanted;
        assert(all[k] == wanted);
    }
}

/// There are as many directories as folders that were captured.
proof fn lemma_directories_counted(folders: Seq<Option<Seq<char>>>)
    ensures
        directories_from(folders).len() == folders.filter(
            |f: Option<Seq<char>>| f is Some,
        ).len(),
    decreases folders.len(),
{
    let captured = |f: Option<Seq<char>>| f is Some;
    if folders.len() == 0 {
        lemma_filter_empty(captured);
        assert(folders =~= Seq::empty());
    } else {
        let front = folders.drop_last();
        assert(folders =~= front.push(folders.last()));
        lemma_directories_counted(front);
        lemma_filter_push(front, folders.last(), captured);
    }
}

/// Where a print of a finished test holds the marker of a golden comparison
/// and a print of the same test, that one or another, holds a path that ends
/// in `/failures`, the directory of that path is among those whose images are
/// attached to the test.
pub proof fn law_sibling_print_names_the_directory(t: TestRecordView, i: int, j: int)
    requires
        t.completion is Some,
        0 <= i < t.prints.len(),
        0 <= j < t.prints.len(),
        first_group(golden_pattern(), t.prints[i]) is Some,
        first_group(failures_pattern(), t.prints[j]) is Some,
    ensures
        sources_of(t).contains(first_group(failures_pattern(), t.prints[j])->0 + "/failures"@),
{
    let markers = marker_captures(t.prints);
    let folders = folder_captures(t.prints);
    assert(markers[i] is Some);
    assert(any_captured(markers));
    assert(folders[j] == first_group(failures_pattern(), t.prints[j]));
    lemma_directory_listed(folders, j);
}

/// A finished test of which a print holds the marker has one directory for
/// each print that holds a path, repeats counted. A test that has not
/// finished, or of which no print holds the marker, has none.
pub proof fn law_directories_of_a_test(t: TestRecordView)
    ensures
        t.completion is Some && any_captured(marker_captures(t.prints)) ==> sources_of(t).len()
            == folder_captures(t.prints).filter(|f: Option<Seq<char>>| f is Some).len(),
        t.completion is None || !any_captured(marker_captures(t.prints)) ==> sources_of(t)
            == Seq::<Seq<char>>::empty(),
{
    lemma_directories_counted(folder_captures(t.prints));
}

} // verus!
