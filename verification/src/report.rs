//! The report builder: once the stream has ended, every pending test moves to
//! the suite that owns it, and each suite's tests are counted.

use vstd::prelude::*;
use crate::filters::{
    lemma_filter_agree, lemma_filter_all, lemma_filter_push, lemma_filter_twice,
};
use crate::record::{
    records_view, suites_view, Suite, SuiteView, TestRecord, TestRecordView, TestResult,
};
use crate::store::{Store, StoreView};
use crate::text::{chars_of, ends_with, starts_with};

verus! {

/// Whether the suite at `i` is the first of `suites` with the id `suite_id`.
pub open spec fn is_owner(suites: Seq<SuiteView>, i: int, suite_id: int) -> bool {
    &&& 0 <= i < suites.len()
    &&& suites[i].id == suite_id
    &&& forall|j: int| 0 <= j < i ==> (#[trigger] suites[j]).id != suite_id
}

/// Whether none of the first `n` suites has the id `suite_id`.
pub open spec fn is_unclaimed(suites: Seq<SuiteView>, n: int, suite_id: int) -> bool {
    forall|j: int| 0 <= j < n && j < suites.len() ==> (#[trigger] suites[j]).id != suite_id
}

/// The pending tests that the suite at `i` comes to own: those that declare
/// its id, in the order in which they started. Of several suites with one id
/// the first owns them all.
pub open spec fn owned_by(
    pending: Seq<TestRecordView>,
    suites: Seq<SuiteView>,
    i: int,
) -> Seq<TestRecordView> {
    pending.filter(|t: TestRecordView| is_owner(suites, i, t.suite_id))
}

/// The pending tests that none of the first `n` suites owns.
pub open spec fn left_after(
    pending: Seq<TestRecordView>,
    suites: Seq<SuiteView>,
    n: int,
) -> Seq<TestRecordView> {
    pending.filter(|t: TestRecordView| is_unclaimed(suites, n, t.suite_id))
}

/// The suites after the build: each has gained the tests it owns, behind
/// those it held before.
pub open spec fn built_suites(s: StoreView) -> Seq<SuiteView> {
    Seq::new(
        s.suites.len(),
        |i: int|
            SuiteView { tests: s.suites[i].tests + owned_by(s.pending, s.suites, i), ..s.suites[i] },
    )
}

/// The store after the build: every pending test whose suite was declared
/// has moved to that suite; the others stay pending.
pub open spec fn built(s: StoreView) -> StoreView {
    StoreView {
        suites: built_suites(s),
        pending: left_after(s.pending, s.suites, s.suites.len() as int),
        ..s
    }
}

/// Whether a name is that of a step the framework runs around the tests: it
/// begins with `loading /`, or ends with the name of a set-up or tear-down
/// step in brackets.
pub open spec fn is_lifecycle_name(name: Seq<char>) -> bool {
    ||| "loading /"@.is_prefix_of(name)
    ||| "(setUpAll)"@.is_suffix_of(name)
    ||| "(setUp)"@.is_suffix_of(name)
    ||| "(tearDownAll)"@.is_suffix_of(name)
    ||| "(tearDown)"@.is_suffix_of(name)
}

/// Whether the test is left out of the report: a lifecycle step that
/// succeeded.
pub open spec fn is_omitted(t: TestRecordView) -> bool {
    t.result() == TestResult::Success && is_lifecycle_name(t.name)
}

/// The tests that the report shows, in their order.
pub open spec fn emitted(tests: Seq<TestRecordView>) -> Seq<TestRecordView> {
    tests.filter(|t: TestRecordView| !is_omitted(t))
}

/// How many of `tests` are in the state `result`.
pub open spec fn count_in_state(tests: Seq<TestRecordView>, result: TestResult) -> nat {
    tests.filter(|t: TestRecordView| t.result() == result).len()
}

/// The totals of a suite.
#[derive(Clone, Copy, Debug, PartialEq, Eq)]
pub struct Tally {
    /// The tests that have finished, lifecycle steps among them.
    pub tests: usize,
    /// The tests that ended in an error.
    pub errors: usize,
    /// The tests that failed.
    pub failures: usize,
}

/// The view of the totals.
pub struct TallyView {
    pub tests: nat,
    pub errors: nat,
    pub failures: nat,
}

impl View for Tally {
    type V = TallyView;

    open spec fn view(&self) -> TallyView {
        TallyView {
            tests: self.tests as nat,
            errors: self.errors as nat,
            failures: self.failures as nat,
        }
    }
}

/// The totals of `tests`, counted before any test is left out: the finished
/// tests, and among them the errors and the failures.
pub open spec fn tally_of(tests: Seq<TestRecordView>) -> TallyView {
    TallyView {
        tests: count_in_state(tests, TestResult::Success) + count_in_state(
            tests,
            TestResult::Failure,
        ) + count_in_state(tests, TestResult::Error),
        errors: count_in_state(tests, TestResult::Error),
        failures: count_in_state(tests, TestResult::Failure),
    }
}

/// Whether some test of some suite ended in an error.
pub open spec fn has_error(suites: Seq<SuiteView>) -> bool {
    exists|i: int, k: int|
        0 <= i < suites.len() && 0 <= k < suites[i].tests.len() && (
        #[trigger] suites[i].tests[k]).result() == TestResult::Error
}

/// The exit code of the run: 1 where a test that a suite owns ended in an
/// error, else 0.
pub open spec fn exit_code_of(suites: Seq<SuiteView>) -> int {
    if has_error(suites) {
        1
    } else {
        0
    }
}

/// Tells whether a name is that of a lifecycle step.
pub fn check_lifecycle_name(name: &str) -> (b: bool)
    ensures
        b == is_lifecycle_name(name@),
{
    let chars = chars_of(name);
    starts_with(&chars, &chars_of("loading /")) || ends_with(&chars, &chars_of("(setUpAll)"))
        || ends_with(&chars, &chars_of("(setUp)")) || ends_with(
        &chars,
        &chars_of("(tearDownAll)"),
    ) || ends_with(&chars, &chars_of("(tearDown)"))
}

/// Tells whether a test is left out of the report.
pub fn check_omitted(test: &TestRecord) -> (b: bool)
    ensures
        b == is_omitted(test@),
{
    match test.result() {
        TestResult::Success => check_lifecycle_name(test.name.as_str()),
        _ => false,
    }
}

/// Counts the tests of a suite.
pub fn tally(tests: &Vec<TestRecord>) -> (t: Tally)
    ensures
        t@ == tally_of(records_view(tests@)),
{
    let ghost all = records_view(tests@);
    let ghost ok = |t: TestRecordView| t.result() == TestResult::Success;
    let ghost bad = |t: TestRecordView| t.result() == TestResult::Failure;
    let ghost err = |t: TestRecordView| t.result() == TestResult::Error;
    let mut successes: usize = 0;
    let mut failures: usize = 0;
    let mut errors: usize = 0;
    let mut i: usize = 0;
    proof {
        assert(all.take(0) =~= Seq::empty());
    }
    while i < tests.len()
        invariant
            i <= tests.len(),
            all == records_view(tests@),
            ok == |t: TestRecordView| t.result() == TestResult::Success,
            bad == |t: TestRecordView| t.result() == TestResult::Failure,
            err == |t: TestRecordView| t.result() == TestResult::Error,
            successes == all.take(i as int).filter(ok).len(),
            failures == all.take(i as int).filter(bad).len(),
            errors == all.take(i as int).filter(err).len(),
            successes + failures + errors <= i,
        decreases tests.len() - i,
    {
        proof {
            assert(all.take(i + 1) =~= all.take(i as int).push(all[i as int]));
            lemma_filter_push(all.take(i as int), all[i as int], ok);
            lemma_filter_push(all.take(i as int), all[i as int], bad);
            lemma_filter_push(all.take(i as int), all[i as int], err);
        }
        match tests[i].result() {
            TestResult::Success => {
                successes += 1;
            },
            TestResult::Failure => {
                failures += 1;
            },
            TestResult::Error => {
                errors += 1;
            },
            TestResult::Pending => {},
        }
        i += 1;
    }
    proof {
        assert(all.take(tests.len() as int) =~= all);
    }
    Tally { tests: successes + failures + errors, errors, failures }
}

/// The exit code of the run.
pub fn exit_code(suites: &Vec<Suite>) -> (code: i32)
    ensures
        code == exit_code_of(suites_view(suites@)),
{
    let ghost all = suites_view(suites@);
    let mut i: usize = 0;
    while i < suites.len()
        invariant
            i <= suites.len(),
            all == suites_view(suites@),
            forall|a: int, k: int|
                0 <= a < i && 0 <= k < all[a].tests.len() ==> (#[trigger] all[a].tests[k]).result()
                    != TestResult::Error,
        decreases suites.len() - i,
    {
        let tests = &suites[i].tests;
        let mut k: usize = 0;
        while k < tests.len()
            invariant
                k <= tests.len(),
                i < suites.len(),
                all == suites_view(suites@),
                tests == &suites@[i as int].tests,
                forall|b: int|
                    0 <= b < k ==> (#[trigger] all[i as int].tests[b]).result()
                        != TestResult::Error,
            decreases tests.len() - k,
        {
            match tests[k].result() {
                TestResult::Error => {
                    return 1;
                },
                _ => {},
            }
            assert(all[i as int].tests[k as int] == tests@[k as int]@);
            k += 1;
        }
        i += 1;
    }
    0
}

proof fn lemma_owned_step(pending: Seq<TestRecordView>, suites: Seq<SuiteView>, n: int)
    requires
        0 <= n < suites.len(),
    ensures
        left_after(pending, suites, n).filter(|t: TestRecordView| t.suite_id == suites[n].id)
            == owned_by(pending, suites, n),
        left_after(pending, suites, n).filter(|t: TestRecordView| t.suite_id != suites[n].id)
            == left_after(pending, suites, n + 1),
{
    let free = |t: TestRecordView| is_unclaimed(suites, n, t.suite_id);
    let mine = |t: TestRecordView| t.suite_id == suites[n].id;
    let other = |t: TestRecordView| t.suite_id != suites[n].id;
    lemma_filter_twice(pending, free, mine);
    lemma_filter_twice(pending, free, other);
    lemma_filter_agree(
        pending,
        |t: TestRecordView| free(t) && mine(t),
        |t: TestRecordView| is_owner(suites, n, t.suite_id),
    );
    assert forall|i: int| 0 <= i < pending.len() implies (free(#[trigger] pending[i]) && other(
        pending[i],
    )) == is_unclaimed(suites, n + 1, pending[i].suite_id) by {
        let id = pending[i].suite_id;
        if is_unclaimed(suites, n + 1, id) {
            assert(suites[n].id != id);
        }
    }
    lemma_filter_agree(
        pending,
        |t: TestRecordView| free(t) && other(t),
        |t: TestRecordView| is_unclaimed(suites, n + 1, t.suite_id),
    );
}

impl Store {
    /// Builds the report: hands every pending test to the first suite that
    /// has the id the test declares. The tests of a suite keep the order in
    /// which they started; a test whose suite was never declared stays
    /// pending.
    pub fn build(&mut self)
        ensures
            final(self)@ == built(old(self)@),
    {
        let ghost before = self@;
        let mut n: usize = 0;
        proof {
            let free = |t: TestRecordView| is_unclaimed(before.suites, 0, t.suite_id);
            assert(before.pending.filter(free) == before.pending) by {
                lemma_filter_all(before.pending, free);
            }
        }
        while n < self.suites.len()
            invariant
                n <= self.suites.len(),
                self@.suites.len() == before.suites.len(),
                self@.groups == before.groups,
                self@.run_start_ms == before.run_start_ms,
                forall|j: int| 0 <= j < n ==> #[trigger] self@.suites[j] == built_suites(before)[j],
                forall|j: int|
                    n <= j < before.suites.len() ==> #[trigger] self@.suites[j] == before.suites[j],
                self@.pending == left_after(before.pending, before.suites, n as int),
            decreases self.suites.len() - n,
        {
            let id = self.suites[n].id;
            let ghost entry = self@;
            let ghost pool = self@.pending;
            let ghost mine = |t: TestRecordView| t.suite_id == id as int;
            let ghost other = |t: TestRecordView| t.suite_id != id as int;
            let ghost mut seen: int = 0;
            let mut i: usize = 0;
            proof {
                assert(entry.suites[n as int].tests + Seq::<TestRecordView>::empty()
                    =~= entry.suites[n as int].tests);
            }
            while i < self.pending.len()
                invariant
                    n < self.suites.len(),
                    self@.suites.len() == entry.suites.len(),
                    self@.groups == entry.groups,
                    self@.run_start_ms == entry.run_start_ms,
                    mine == |t: TestRecordView| t.suite_id == id as int,
                    other == |t: TestRecordView| t.suite_id != id as int,
                    0 <= seen <= pool.len(),
                    forall|j: int|
                        0 <= j < entry.suites.len() && j != n ==> #[trigger] self@.suites[j]
                            == entry.suites[j],
                    self@.suites[n as int] == (SuiteView {
                        tests: entry.suites[n as int].tests + pool.take(seen).filter(mine),
                        ..entry.suites[n as int]
                    }),
                    self@.pending == pool.take(seen).filter(other) + pool.skip(seen),
                    i == pool.take(seen).filter(other).len(),
                decreases pool.len() - seen,
            {
                let ghost here = self@;
                proof {
                    assert(pool.take(seen + 1) =~= pool.take(seen).push(pool[seen]));
                    lemma_filter_push(pool.take(seen), pool[seen], mine);
                    lemma_filter_push(pool.take(seen), pool[seen], other);
                    assert(self@.pending[i as int] == self.pending@[i as int]@);
                }
                if self.pending[i].suite_id == id {
                    let test = self.pending.remove(i);
                    self.suites[n].tests.push(test);
                    proof {
                        assert(self@.pending =~= here.pending.remove(i as int));
                        assert(self@.suites[n as int].tests =~= here.suites[n as int].tests.push(
                            test@,
                        ));
                        assert forall|j: int|
                            0 <= j < entry.suites.len() && j != n implies #[trigger] self@.suites[j]
                            == entry.suites[j] by {
                            assert(self@.suites[j] == here.suites[j]);
                        }
                    }
                } else {
                    proof {
                        assert(self@.pending =~= pool.take(seen + 1).filter(other) + pool.skip(
                            seen + 1,
                        ));
                    }
                    i += 1;
                }
                proof {
                    seen = seen + 1;
                }
            }
            proof {
                assert(seen == pool.len()) by {
                    assert(self@.pending.len() == i + pool.skip(seen).len());
                }
                lemma_owned_step(before.pending, before.suites, n as int);
                assert forall|j: int| 0 <= j < n implies #[trigger] self@.suites[j]
                    == built_suites(before)[j] by {
                    assert(self@.suites[j] == entry.suites[j]);
                }
                assert forall|j: int| n + 1 <= j < before.suites.len() implies #[trigger] self@.suites[j]
                    == before.suites[j] by {
                    assert(self@.suites[j] == entry.suites[j]);
                }
            }
            n += 1;
        }
        proof {
            assert(self@.suites =~= built_suites(before));
        }
    }
}

} // verus!
