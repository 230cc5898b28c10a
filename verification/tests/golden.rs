use freitunit::event::{Location, Outcome};
use freitunit::golden::{
    directories_of, find_directories, resolve_directory, select_directories,
};
use freitunit::record::{Completion, TestRecord};

fn prints(texts: &[&str]) -> Vec<String> {
    texts.iter().map(|t| t.to_string()).collect()
}

#[test]
fn a_print_with_marker_and_failures_path_names_a_directory() {
    let print = "Golden \"button.png\": Pixel test failed, see /t/test/widgets/failures for diffs";
    assert_eq!(
        find_directories(&prints(&[print])),
        vec!["Golden \"button.png\": Pixel test failed, see /t/test/widgets/failures"]
    );
}

#[test]
fn the_directory_is_what_precedes_failures_on_its_line() {
    let print = "Golden \"a.png\" mismatch\n/t/test/failures\nmore";
    assert_eq!(find_directories(&prints(&[print])), vec!["/t/test/failures"]);
}

#[test]
fn a_sibling_print_may_hold_the_path() {
    assert_eq!(
        find_directories(&prints(&["Golden \"button.png\": Pixel test failed", "/t/test/b/failures"])),
        vec!["/t/test/b/failures"]
    );
    assert_eq!(
        find_directories(&prints(&["/t/test/b/failures", "Golden \"button.png\": Pixel test failed"])),
        vec!["/t/test/b/failures"]
    );
}

#[test]
fn every_print_with_a_path_counts_once_a_marker_is_there() {
    assert_eq!(
        find_directories(&prints(&[
            "/one/failures",
            "no path here",
            "Golden \"a.png\"\n/two/failures",
            "/one/failures",
        ])),
        vec!["/one/failures", "/two/failures", "/one/failures"]
    );
}

#[test]
fn prints_without_the_marker_name_none() {
    assert_eq!(find_directories(&prints(&["see /t/test/failures"])), Vec::<String>::new());
    assert_eq!(
        find_directories(&prints(&["Golden button.png /t/failures", "/u/failures"])),
        Vec::<String>::new()
    );
    assert_eq!(find_directories(&prints(&["Golden \"\" /t/failures"])), Vec::<String>::new());
}

#[test]
fn prints_without_a_failures_path_name_none() {
    assert_eq!(
        find_directories(&prints(&["Golden \"button.png\": failed", "see /t/failure"])),
        Vec::<String>::new()
    );
    assert_eq!(find_directories(&prints(&[""])), Vec::<String>::new());
}

#[test]
fn resolve_directory_appends_failures_to_the_folder() {
    assert_eq!(resolve_directory(&Some("/t".to_string())), Some("/t/failures".to_string()));
    assert_eq!(resolve_directory(&Some("".to_string())), Some("/failures".to_string()));
    assert_eq!(resolve_directory(&None), None);
}

#[test]
fn select_directories_needs_a_marker_in_some_print() {
    let folders = vec![None, Some("/t".to_string()), Some("/u".to_string()), Some("/t".to_string())];
    let marked = vec![None, None, Some("a.png".to_string()), None];
    assert_eq!(select_directories(&marked, &folders), vec!["/t/failures", "/u/failures", "/t/failures"]);
    let first = vec![Some("a.png".to_string()), None, None, None];
    assert_eq!(select_directories(&first, &folders), vec!["/t/failures", "/u/failures", "/t/failures"]);
    let unmarked = vec![None, None, None, None];
    assert_eq!(select_directories(&unmarked, &folders), Vec::<String>::new());
    assert_eq!(select_directories(&vec![], &folders), Vec::<String>::new());
    assert_eq!(select_directories(&marked, &vec![None, None]), Vec::<String>::new());
    assert_eq!(select_directories(&vec![], &vec![]), Vec::<String>::new());
}

#[test]
fn find_directories_keeps_the_order_and_the_repeats() {
    let prints = vec![
        "nothing here".to_string(),
        "Golden \"a.png\"\n/one/failures".to_string(),
        "Golden \"b.png\"".to_string(),
        "Golden \"c.png\"\n/two/failures".to_string(),
        "Golden \"a.png\"\n/one/failures".to_string(),
    ];
    assert_eq!(find_directories(&prints), vec!["/one/failures", "/two/failures", "/one/failures"]);
    assert_eq!(find_directories(&vec![]), Vec::<String>::new());
}

#[test]
fn only_a_finished_test_has_directories() {
    let mut test = TestRecord {
        id: 1,
        name: "draws".to_string(),
        suite_id: 1,
        group_ids: vec![],
        location: Location {
            root_url: None,
            root_line: None,
            root_column: None,
            line: None,
            column: None,
        },
        completion: None,
        prints: vec!["Golden \"a.png\"\n/one/failures".to_string()],
        error: None,
        stack_trace: None,
        start_offset_ms: 0,
        arrival_ms: 0,
    };
    assert_eq!(directories_of(&test), Vec::<String>::new());
    test.completion = Some(Completion { outcome: Outcome::Failure, end_offset_ms: 5 });
    assert_eq!(directories_of(&test), vec!["/one/failures"]);
    test.completion = Some(Completion { outcome: Outcome::Success, end_offset_ms: 5 });
    assert_eq!(directories_of(&test), vec!["/one/failures"]);
}

#[test]
fn a_finished_test_with_marker_and_path_in_two_prints_has_the_directory() {
    let test = TestRecord {
        id: 1,
        name: "draws".to_string(),
        suite_id: 1,
        group_ids: vec![],
        location: Location {
            root_url: None,
            root_line: None,
            root_column: None,
            line: None,
            column: None,
        },
        completion: Some(Completion { outcome: Outcome::Failure, end_offset_ms: 5 }),
        prints: vec![
            "Golden \"button.png\": Pixel test failed, 0.4% diff detected.".to_string(),
            "/t/test/widgets/failures".to_string(),
        ],
        error: None,
        stack_trace: None,
        start_offset_ms: 0,
        arrival_ms: 0,
    };
    assert_eq!(directories_of(&test), vec!["/t/test/widgets/failures"]);
    let unfinished = TestRecord { completion: None, ..test };
    assert_eq!(directories_of(&unfinished), Vec::<String>::new());
}
