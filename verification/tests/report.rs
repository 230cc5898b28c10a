use freitunit::event::{Event, Location, Outcome};
use freitunit::record::TestRecord;
use freitunit::report::{check_lifecycle_name, check_omitted, exit_code, tally, Tally};
use freitunit::store::Store;

fn started(id: i64, name: &str, suite_id: i64) -> Event {
    Event::TestStarted {
        id,
        name: name.to_string(),
        suite_id,
        group_ids: vec![],
        location: Location {
            root_url: None,
            root_line: None,
            root_column: None,
            line: None,
            column: None,
        },
        start_offset_ms: 0,
    }
}

fn suite(id: i64, path: &str) -> Event {
    Event::SuiteDeclared { id, path: path.to_string(), platform: "vm".to_string() }
}

fn done(id: i64, result: Outcome) -> Event {
    Event::TestFinished { id, result, end_offset_ms: 1 }
}

fn names(tests: &[TestRecord]) -> Vec<&str> {
    tests.iter().map(|t| t.name.as_str()).collect()
}

fn store_of(events: Vec<Event>) -> Store {
    let mut store = Store::new(0);
    for event in events {
        store.apply(event, 0);
    }
    store
}

#[test]
fn build_hands_each_test_to_its_suite_in_order() {
    let mut store = store_of(vec![
        suite(1, "a"),
        suite(2, "b"),
        started(10, "a1", 1),
        started(11, "b1", 2),
        started(12, "a2", 1),
        started(13, "b2", 2),
        started(14, "a3", 1),
    ]);
    store.build();
    assert!(store.pending.is_empty());
    assert_eq!(names(&store.suites[0].tests), vec!["a1", "a2", "a3"]);
    assert_eq!(names(&store.suites[1].tests), vec!["b1", "b2"]);
}

#[test]
fn build_leaves_tests_of_undeclared_suites_pending() {
    let mut store = store_of(vec![
        suite(1, "a"),
        started(10, "a1", 1),
        started(11, "x1", 9),
        started(12, "a2", 1),
        started(13, "x2", 8),
    ]);
    store.build();
    assert_eq!(names(&store.suites[0].tests), vec!["a1", "a2"]);
    assert_eq!(names(&store.pending), vec!["x1", "x2"]);
}

#[test]
fn the_first_of_two_suites_with_one_id_owns_the_tests() {
    let mut store = store_of(vec![
        suite(1, "first"),
        suite(1, "second"),
        started(10, "t1", 1),
        started(11, "t2", 1),
    ]);
    store.build();
    assert_eq!(names(&store.suites[0].tests), vec!["t1", "t2"]);
    assert!(store.suites[1].tests.is_empty());
}

#[test]
fn build_keeps_suites_groups_and_start() {
    let mut store = store_of(vec![
        Event::GroupDeclared {
            id: 2,
            suite_id: 1,
            parent_id: None,
            name: "g".to_string(),
            test_count: 1,
        },
        suite(5, "/p/a.dart"),
    ]);
    store.run_start_ms = 77;
    store.build();
    assert_eq!(store.run_start_ms, 77);
    assert_eq!(store.groups.len(), 1);
    assert_eq!(store.suites.len(), 1);
    assert_eq!(store.suites[0].id, 5);
    assert_eq!(store.suites[0].path, "/p/a.dart");
    assert_eq!(store.suites[0].platform, "vm");
}

#[test]
fn build_without_suites_or_tests_does_nothing() {
    let mut store = Store::new(3);
    store.build();
    assert!(store.suites.is_empty() && store.pending.is_empty());
    let mut store = store_of(vec![started(1, "t", 1)]);
    store.build();
    assert_eq!(names(&store.pending), vec!["t"]);
}

#[test]
fn building_twice_is_building_once() {
    let mut store = store_of(vec![
        suite(1, "a"),
        suite(2, "b"),
        started(10, "a1", 1),
        started(11, "x1", 9),
        started(12, "b1", 2),
        done(10, Outcome::Error),
    ]);
    store.build();
    let once = format!("{:?}", store);
    store.build();
    assert_eq!(format!("{:?}", store), once);
}

#[test]
fn every_test_sits_in_the_suite_it_declares() {
    let mut events = vec![suite(1, "a"), suite(2, "b"), suite(3, "c")];
    for id in 0..30 {
        events.push(started(id, "t", 1 + id % 3));
    }
    let mut store = store_of(events);
    store.build();
    let mut seen = 0;
    for suite in &store.suites {
        for test in &suite.tests {
            assert_eq!(test.suite_id, suite.id);
            seen += 1;
        }
    }
    assert_eq!(seen, 30);
    let mut ids: Vec<i64> =
        store.suites.iter().flat_map(|s| s.tests.iter().map(|t| t.id)).collect();
    ids.sort();
    assert_eq!(ids, (0..30).collect::<Vec<i64>>());
}

#[test]
fn lifecycle_names_are_recognised() {
    assert!(check_lifecycle_name("loading /t/test/a_test.dart"));
    assert!(check_lifecycle_name("group (setUpAll)"));
    assert!(check_lifecycle_name("(setUp)"));
    assert!(check_lifecycle_name("group (tearDownAll)"));
    assert!(check_lifecycle_name("a b (tearDown)"));
    assert!(!check_lifecycle_name("loading"));
    assert!(!check_lifecycle_name("not loading /x"));
    assert!(!check_lifecycle_name("(setUp) later"));
    assert!(!check_lifecycle_name("setUp"));
    assert!(!check_lifecycle_name("adds"));
    assert!(!check_lifecycle_name(""));
}

#[test]
fn only_lifecycle_steps_that_succeeded_are_left_out() {
    let mut store = store_of(vec![
        started(1, "loading /a", 1),
        started(2, "loading /b", 1),
        started(3, "loading /c", 1),
        started(4, "loading /d", 1),
        started(5, "adds", 1),
        done(1, Outcome::Success),
        done(2, Outcome::Failure),
        done(3, Outcome::Error),
        done(5, Outcome::Success),
    ]);
    store.build();
    let left_out: Vec<bool> = store.pending.iter().map(check_omitted).collect();
    assert_eq!(left_out, vec![true, false, false, false, false]);
}

#[test]
fn tally_counts_finished_tests_errors_and_failures() {
    let store = store_of(vec![
        started(1, "loading /a", 1),
        started(2, "a", 1),
        started(3, "b", 1),
        started(4, "c", 1),
        started(5, "d", 1),
        started(6, "never finished", 1),
        done(1, Outcome::Success),
        done(2, Outcome::Success),
        done(3, Outcome::Failure),
        done(4, Outcome::Error),
        done(5, Outcome::Error),
    ]);
    assert_eq!(tally(&store.pending), Tally { tests: 5, errors: 2, failures: 1 });
    assert_eq!(tally(&vec![]), Tally { tests: 0, errors: 0, failures: 0 });
}

#[test]
fn exit_code_is_one_where_an_owned_test_errored() {
    let mut store = store_of(vec![
        suite(1, "a"),
        suite(2, "b"),
        started(10, "a1", 1),
        started(11, "b1", 2),
        done(10, Outcome::Success),
        done(11, Outcome::Error),
    ]);
    store.build();
    assert_eq!(exit_code(&store.suites), 1);
}

#[test]
fn exit_code_is_zero_for_successes_and_failures() {
    let mut store = store_of(vec![
        suite(1, "a"),
        started(10, "a1", 1),
        started(11, "a2", 1),
        started(12, "a3", 1),
        done(10, Outcome::Success),
        done(11, Outcome::Failure),
    ]);
    store.build();
    assert_eq!(exit_code(&store.suites), 0);
    assert_eq!(exit_code(&vec![]), 0);
}

#[test]
fn exit_code_ignores_tests_that_no_suite_owns() {
    let mut store = store_of(vec![suite(1, "a"), started(10, "x", 9), done(10, Outcome::Error)]);
    store.build();
    assert_eq!(exit_code(&store.suites), 0);
}

#[test]
fn shown_and_left_out_tests_are_as_many_as_started() {
    let mut events = vec![suite(1, "a"), suite(2, "b")];
    let names = ["adds", "loading /t/a", "g (setUp)", "g (tearDownAll)", "subtracts"];
    for id in 0..20 {
        events.push(started(id, names[(id % 5) as usize], 1 + id % 2));
    }
    for id in 0..20 {
        if id % 4 != 3 {
            let result = if id % 7 == 6 { Outcome::Failure } else { Outcome::Success };
            events.push(done(id, result));
        }
    }
    let mut store = store_of(events);
    let left_out = store.pending.iter().filter(|t| check_omitted(t)).count();
    store.build();
    let shown: usize =
        store.suites.iter().map(|s| s.tests.iter().filter(|t| !check_omitted(t)).count()).sum();
    assert!(left_out > 0);
    assert_eq!(shown + left_out, 20);
    assert!(store.pending.is_empty());
}
