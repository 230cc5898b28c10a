use freitunit::diagnostics::Diagnostic;
use freitunit::event::{Event, Location, Outcome};
use freitunit::record::{Completion, Suite, TestRecord, TestResult};
use freitunit::store::{Effect, Store};

fn started(id: i64, name: &str, suite_id: i64, at: i64) -> Event {
    Event::TestStarted {
        id,
        name: name.to_string(),
        suite_id,
        group_ids: vec![],
        location: Location {
            root_url: None,
            root_line: None,
            root_column: None,
            line: None,
            column: None,
        },
        start_offset_ms: at,
    }
}

fn suite(id: i64, path: &str) -> Event {
    Event::SuiteDeclared { id, path: path.to_string(), platform: "vm".to_string() }
}

#[test]
fn a_new_store_is_empty() {
    let store = Store::new(42);
    assert!(store.suites.is_empty());
    assert!(store.pending.is_empty());
    assert!(store.groups.is_empty());
    assert_eq!(store.run_start_ms, 42);
}

#[test]
fn start_sets_the_start_of_the_run() {
    let mut store = Store::new(1);
    assert_eq!(store.apply(Event::Start, 77), Effect::Nothing);
    assert_eq!(store.run_start_ms, 77);
}

#[test]
fn a_suite_is_appended_without_tests() {
    let mut store = Store::new(0);
    assert_eq!(store.apply(suite(1, "/t/test/a.dart"), 0), Effect::Nothing);
    assert_eq!(store.apply(suite(2, "/t/test/b.dart"), 0), Effect::Nothing);
    assert_eq!(store.suites.len(), 2);
    assert_eq!(store.suites[0].id, 1);
    assert_eq!(store.suites[0].path, "/t/test/a.dart");
    assert_eq!(store.suites[0].platform, "vm");
    assert!(store.suites[0].tests.is_empty());
    assert_eq!(store.suites[1].id, 2);
}

#[test]
fn a_started_test_is_pending() {
    let mut store = Store::new(0);
    let event = Event::TestStarted {
        id: 3,
        name: "adds".to_string(),
        suite_id: 1,
        group_ids: vec![2, 4],
        location: Location {
            root_url: Some("file:///t/a.dart".to_string()),
            root_line: Some(1),
            root_column: Some(2),
            line: Some(3),
            column: Some(4),
        },
        start_offset_ms: 120,
    };
    assert_eq!(store.apply(event, 999), Effect::Nothing);
    assert_eq!(
        store.pending,
        vec![TestRecord {
            id: 3,
            name: "adds".to_string(),
            suite_id: 1,
            group_ids: vec![2, 4],
            location: Location {
                root_url: Some("file:///t/a.dart".to_string()),
                root_line: Some(1),
                root_column: Some(2),
                line: Some(3),
                column: Some(4),
            },
            completion: None,
            prints: vec![],
            error: None,
            stack_trace: None,
            start_offset_ms: 120,
            arrival_ms: 999,
        }]
    );
    assert_eq!(store.pending[0].result(), TestResult::Pending);
    assert_eq!(store.pending[0].end_offset_ms(), None);
}

#[test]
fn a_finished_test_keeps_its_result_and_end() {
    let mut store = Store::new(0);
    store.apply(started(3, "adds", 1, 100), 0);
    let effect = store.apply(
        Event::TestFinished { id: 3, result: Outcome::Success, end_offset_ms: 250 },
        0,
    );
    assert_eq!(effect, Effect::Nothing);
    assert_eq!(
        store.pending[0].completion,
        Some(Completion { outcome: Outcome::Success, end_offset_ms: 250 })
    );
    assert_eq!(store.pending[0].result(), TestResult::Success);
    assert_eq!(store.pending[0].end_offset_ms(), Some(250));
}

#[test]
fn result_names_each_state() {
    let mut store = Store::new(0);
    store.apply(started(1, "a", 1, 0), 0);
    store.apply(started(2, "b", 1, 0), 0);
    store.apply(started(3, "c", 1, 0), 0);
    store.apply(Event::TestFinished { id: 1, result: Outcome::Failure, end_offset_ms: 1 }, 0);
    store.apply(Event::TestFinished { id: 2, result: Outcome::Error, end_offset_ms: 1 }, 0);
    assert_eq!(store.pending[0].result(), TestResult::Failure);
    assert_eq!(store.pending[1].result(), TestResult::Error);
    assert_eq!(store.pending[2].result(), TestResult::Pending);
}

#[test]
fn the_first_test_with_the_id_is_the_one_changed() {
    let mut store = Store::new(0);
    store.apply(started(3, "first", 1, 0), 0);
    store.apply(started(3, "second", 1, 0), 0);
    assert_eq!(store.find(3), Some(0));
    assert_eq!(store.find(4), None);
    store.apply(Event::PrintEmitted { test_id: 3, message: "p".to_string() }, 0);
    assert_eq!(store.pending[0].prints, vec!["p".to_string()]);
    assert!(store.pending[1].prints.is_empty());
}

#[test]
fn prints_keep_their_order() {
    let mut store = Store::new(0);
    store.apply(started(3, "adds", 1, 0), 0);
    for message in ["one", "two", "three"] {
        let effect =
            store.apply(Event::PrintEmitted { test_id: 3, message: message.to_string() }, 0);
        assert_eq!(effect, Effect::Nothing);
    }
    assert_eq!(store.pending[0].prints, vec!["one", "two", "three"]);
}

#[test]
fn an_error_sets_message_and_stack_trace() {
    let mut store = Store::new(0);
    store.apply(started(3, "adds", 1, 0), 0);
    let effect = store.apply(
        Event::ErrorEmitted {
            test_id: 3,
            message: "boom".to_string(),
            stack_trace: Some("a.dart 1:1".to_string()),
        },
        0,
    );
    assert_eq!(effect, Effect::Nothing);
    assert_eq!(store.pending[0].error, Some("boom".to_string()));
    assert_eq!(store.pending[0].stack_trace, Some("a.dart 1:1".to_string()));
}

#[test]
fn the_first_stack_trace_wins_and_the_last_message() {
    let mut store = Store::new(0);
    store.apply(started(3, "adds", 1, 0), 0);
    store.apply(
        Event::ErrorEmitted { test_id: 3, message: "first".to_string(), stack_trace: None },
        0,
    );
    assert_eq!(store.pending[0].stack_trace, None);
    store.apply(
        Event::ErrorEmitted {
            test_id: 3,
            message: "second".to_string(),
            stack_trace: Some("trace one".to_string()),
        },
        0,
    );
    store.apply(
        Event::ErrorEmitted {
            test_id: 3,
            message: "third".to_string(),
            stack_trace: Some("trace two".to_string()),
        },
        0,
    );
    store.apply(
        Event::ErrorEmitted { test_id: 3, message: "fourth".to_string(), stack_trace: None },
        0,
    );
    assert_eq!(store.pending[0].error, Some("fourth".to_string()));
    assert_eq!(store.pending[0].stack_trace, Some("trace one".to_string()));
}

#[test]
fn a_group_is_kept_as_declared() {
    let mut store = Store::new(0);
    let effect = store.apply(
        Event::GroupDeclared {
            id: 2,
            suite_id: 1,
            parent_id: Some(1),
            name: "math".to_string(),
            test_count: 4,
        },
        0,
    );
    assert_eq!(effect, Effect::Nothing);
    assert_eq!(store.groups.len(), 1);
    assert_eq!(store.groups[0].id, 2);
    assert_eq!(store.groups[0].suite_id, 1);
    assert_eq!(store.groups[0].parent_id, Some(1));
    assert_eq!(store.groups[0].name, "math");
    assert_eq!(store.groups[0].test_count, 4);
}

#[test]
fn all_suites_and_done_ask_for_a_flush_and_change_nothing() {
    let mut store = Store::new(9);
    store.apply(suite(1, "p"), 0);
    store.apply(started(3, "adds", 1, 0), 0);
    let before = format!("{:?}", store);
    assert_eq!(store.apply(Event::AllSuitesKnown, 5), Effect::Flush);
    assert_eq!(store.apply(Event::Done, 6), Effect::Flush);
    assert_eq!(format!("{:?}", store), before);
}

#[test]
fn events_for_an_unknown_test_are_dropped() {
    let mut store = Store::new(9);
    store.apply(suite(1, "p"), 0);
    store.apply(started(3, "adds", 1, 0), 0);
    let before = format!("{:?}", store);
    let events = vec![
        Event::TestFinished { id: 4, result: Outcome::Error, end_offset_ms: 1 },
        Event::TestFinished { id: 4, result: Outcome::Failure, end_offset_ms: 1 },
        Event::PrintEmitted { test_id: 4, message: "m".to_string() },
        Event::ErrorEmitted { test_id: 4, message: "m".to_string(), stack_trace: None },
    ];
    for event in events {
        assert_eq!(store.apply(event, 3), Effect::Nothing);
        assert_eq!(format!("{:?}", store), before);
    }
}

#[test]
fn a_failure_is_diagnosed_at_once() {
    let mut store = Store::new(0);
    store.apply(
        Event::TestStarted {
            id: 3,
            name: "adds".to_string(),
            suite_id: 1,
            group_ids: vec![],
            location: Location {
                root_url: Some("file:///t/test/a_test.dart".to_string()),
                root_line: Some(12),
                root_column: Some(5),
                line: Some(40),
                column: Some(7),
            },
            start_offset_ms: 0,
        },
        0,
    );
    store.apply(Event::PrintEmitted { test_id: 3, message: " printed \n".to_string() }, 0);
    store.apply(
        Event::ErrorEmitted {
            test_id: 3,
            message: "Expected: 2\n  Actual: 3\n".to_string(),
            stack_trace: Some("a.dart 1:1\nb.dart 2:2\n".to_string()),
        },
        0,
    );
    let effect = store.apply(
        Event::TestFinished { id: 3, result: Outcome::Failure, end_offset_ms: 10 },
        0,
    );
    assert_eq!(
        effect,
        Effect::Diagnose(Diagnostic {
            source: "file:///t/test/a_test.dart".to_string(),
            line: 12,
            column: 5,
            name: "adds".to_string(),
            details: "a.dart 1:1\n\tb.dart 2:2\n\tprinted".to_string(),
            error: "Expected: 2\n\t  Actual: 3".to_string(),
        })
    );
}

#[test]
fn an_error_is_diagnosed_too_and_a_success_is_not() {
    let mut store = Store::new(0);
    store.apply(started(1, "a", 1, 0), 0);
    store.apply(started(2, "b", 1, 0), 0);
    let effect =
        store.apply(Event::TestFinished { id: 1, result: Outcome::Error, end_offset_ms: 1 }, 0);
    assert_eq!(
        effect,
        Effect::Diagnose(Diagnostic {
            source: "".to_string(),
            line: 0,
            column: 0,
            name: "a".to_string(),
            details: "".to_string(),
            error: "".to_string(),
        })
    );
    let effect =
        store.apply(Event::TestFinished { id: 2, result: Outcome::Success, end_offset_ms: 1 }, 0);
    assert_eq!(effect, Effect::Nothing);
}

#[test]
fn suites_are_equal_where_their_ids_are() {
    let a = Suite { id: 1, path: "a".to_string(), platform: "vm".to_string(), tests: vec![] };
    let b = Suite { id: 1, path: "b".to_string(), platform: "chrome".to_string(), tests: vec![] };
    let c = Suite { id: 2, path: "a".to_string(), platform: "vm".to_string(), tests: vec![] };
    assert!(a == b);
    assert!(a != c);
}
