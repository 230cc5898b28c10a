use freitunit::diagnostics::{diagnose, render_block, shorten_source, Diagnostic, Palette};
use freitunit::event::Location;
use freitunit::record::TestRecord;

fn record(location: Location) -> TestRecord {
    TestRecord {
        id: 1,
        name: "adds".to_string(),
        suite_id: 1,
        group_ids: vec![],
        location,
        completion: None,
        prints: vec![],
        error: None,
        stack_trace: None,
        start_offset_ms: 0,
        arrival_ms: 0,
    }
}

#[test]
fn the_root_location_comes_first() {
    let d = diagnose(&record(Location {
        root_url: Some("file:///a.dart".to_string()),
        root_line: Some(1),
        root_column: Some(2),
        line: Some(3),
        column: Some(4),
    }));
    assert_eq!((d.source.as_str(), d.line, d.column), ("file:///a.dart", 1, 2));
}

#[test]
fn the_plain_location_stands_in_for_a_missing_root() {
    let d = diagnose(&record(Location {
        root_url: None,
        root_line: None,
        root_column: Some(2),
        line: Some(3),
        column: Some(4),
    }));
    assert_eq!((d.source.as_str(), d.line, d.column), ("", 3, 2));
}

#[test]
fn an_unknown_location_is_zero() {
    let d = diagnose(&record(Location {
        root_url: None,
        root_line: None,
        root_column: None,
        line: None,
        column: None,
    }));
    assert_eq!((d.line, d.column), (0, 0));
}

#[test]
fn details_hold_stack_trace_then_prints_indented() {
    let mut test = record(Location {
        root_url: None,
        root_line: None,
        root_column: None,
        line: None,
        column: None,
    });
    test.stack_trace = Some("  s1\ns2  ".to_string());
    test.prints = vec![" p1 ".to_string(), "p2\nmore".to_string()];
    test.error = Some("\n e1\ne2 \n".to_string());
    let d = diagnose(&test);
    assert_eq!(d.details, "s1\n\ts2\n\tp1\n\tp2\n\tmore");
    assert_eq!(d.error, "e1\n\te2");
    assert_eq!(d.name, "adds");
    assert_eq!(test.message().into_iter().collect::<String>(), "s1\ns2\np1\np2\nmore");
}

#[test]
fn details_without_a_stack_trace_hold_the_prints() {
    let mut test = record(Location {
        root_url: None,
        root_line: None,
        root_column: None,
        line: None,
        column: None,
    });
    test.prints = vec!["only".to_string()];
    assert_eq!(diagnose(&test).details, "only");
    assert_eq!(test.message().into_iter().collect::<String>(), "only");
}

#[test]
fn shorten_source_drops_scheme_and_working_directory() {
    assert_eq!(shorten_source("file:///t/test/a_test.dart", "/t"), "test/a_test.dart");
    assert_eq!(shorten_source("/t/test/a_test.dart", "/t"), "test/a_test.dart");
    assert_eq!(shorten_source("file:///u/test/a_test.dart", "/t"), "/u/test/a_test.dart");
    assert_eq!(shorten_source("package:x/a.dart", "/t"), "package:x/a.dart");
    assert_eq!(shorten_source("", "/t"), "");
}

#[test]
fn shorten_source_drops_every_scheme_and_every_working_directory() {
    assert_eq!(shorten_source("afile://", "/w"), "a");
    assert_eq!(shorten_source("file:///app/test/app/widget_test.dart", "/app"), "testwidget_test.dart");
    assert_eq!(shorten_source("file://file:///t/a.dart", "/t"), "a.dart");
    assert_eq!(shorten_source("/t//t/x/t/", "/t"), "x");
    assert_eq!(shorten_source("/t", "/t"), "/t");
}

#[test]
fn shorten_source_reads_once_from_the_left() {
    assert_eq!(shorten_source("fifile://le:///t/a.dart", "/u"), "file:///t/a.dart");
    assert_eq!(shorten_source("/file://t/a.dart", "/t"), "a.dart");
    assert_eq!(shorten_source("/t/t/a.dart", "/t"), "t/a.dart");
}

#[test]
fn shorten_source_agrees_with_replace() {
    let sources = [
        "file:///w/test/a_test.dart",
        "afile://",
        "file://",
        "/w/",
        "/w//w/",
        "x/w/y/w/z",
        "file:///w/file:///w/",
        "/w",
        "",
    ];
    for source in sources {
        for dir in ["/w", "", "/", "/w/test", "file:"] {
            let expected = source.replace("file://", "").replace(&format!("{}/", dir), "");
            assert_eq!(shorten_source(source, dir), expected, "{:?} in {:?}", source, dir);
        }
    }
}

#[test]
fn the_block_shows_the_shortened_source() {
    let mut d = failure();
    d.source = "file:///app/test/app/widget_test.dart".to_string();
    assert!(render_block(&d, "/app", &plain()).starts_with(" \u{2717} FAIL  testwidget_test.dart:12:5\n"));
}

fn plain() -> Palette {
    Palette {
        bg_red: String::new(),
        bg_white: String::new(),
        bg_reset: String::new(),
        color_white: String::new(),
        color_bright_black: String::new(),
        color_blue: String::new(),
        color_red: String::new(),
        color_reset: String::new(),
        style_underline: String::new(),
        style_reset: String::new(),
    }
}

fn failure() -> Diagnostic {
    Diagnostic {
        source: "file:///t/test/a_test.dart".to_string(),
        line: 12,
        column: 5,
        name: "adds".to_string(),
        details: "a.dart 1:1\n\tprinted".to_string(),
        error: "Expected: 2\n\t  Actual: 3".to_string(),
    }
}

#[test]
fn the_plain_block_holds_place_name_details_and_error() {
    assert_eq!(
        render_block(&failure(), "/t", &plain()),
        " \u{2717} FAIL  test/a_test.dart:12:5\nadds\n\n\ta.dart 1:1\n\tprinted\n\n\tExpected: 2\n\t  Actual: 3\n\n"
    );
}

#[test]
fn the_block_puts_each_mark_in_its_place() {
    let marks = Palette {
        bg_red: "<R>".to_string(),
        bg_white: "<W>".to_string(),
        bg_reset: "</B>".to_string(),
        color_white: "<w>".to_string(),
        color_bright_black: "<k>".to_string(),
        color_blue: "<b>".to_string(),
        color_red: "<r>".to_string(),
        color_reset: "</c>".to_string(),
        style_underline: "<u>".to_string(),
        style_reset: "</u>".to_string(),
    };
    assert_eq!(
        render_block(&failure(), "/elsewhere", &marks),
        "<R><w> \u{2717} FAIL </c></B><W> <k><u>/t/test/a_test.dart:12:5</u></c></B>\n<b>adds</c>\n\n\ta.dart 1:1\n\tprinted\n\n\t<r>Expected: 2\n\t  Actual: 3</c>\n\n"
    );
}

#[test]
fn the_block_writes_negative_positions_with_their_sign() {
    let mut d = failure();
    d.source = String::new();
    d.line = -3;
    d.column = i64::MIN;
    d.details = String::new();
    d.error = String::new();
    assert_eq!(
        render_block(&d, "/t", &plain()),
        " \u{2717} FAIL  :-3:-9223372036854775808\nadds\n\n\t\n\n\t\n\n"
    );
}
