use freitunit::event::{classify, decode_line, Decoded, Event, Location, Outcome};
use freitunit::json::{read_json, Json};

fn no_location() -> Location {
    Location { root_url: None, root_line: None, root_column: None, line: None, column: None }
}

#[test]
fn read_json_reads_scalars() {
    assert!(matches!(read_json("null"), Some(Json::Null)));
    assert!(matches!(read_json("true"), Some(Json::Bool(true))));
    assert!(matches!(read_json("10"), Some(Json::Number(Some(10)))));
    assert!(matches!(read_json("-3"), Some(Json::Number(Some(-3)))));
    assert!(matches!(read_json("1.5"), Some(Json::Number(None))));
    assert!(matches!(read_json("18446744073709551615"), Some(Json::Number(None))));
    assert!(matches!(read_json("9223372036854775807"), Some(Json::Number(Some(i64::MAX)))));
    match read_json("\"a\\nb\"") {
        Some(Json::Text(s)) => assert_eq!(s, "a\nb"),
        _ => panic!("expected a string"),
    }
}

#[test]
fn read_json_reads_arrays_and_objects() {
    match read_json("[1, [2], \"x\"]") {
        Some(Json::Array(items)) => {
            assert_eq!(items.len(), 3);
            assert!(matches!(items[0], Json::Number(Some(1))));
            assert!(matches!(&items[1], Json::Array(inner) if inner.len() == 1));
            assert!(matches!(&items[2], Json::Text(s) if s == "x"));
        }
        _ => panic!("expected an array"),
    }
    match read_json("{\"k\": {\"n\": 4}}") {
        Some(Json::Object(members)) => {
            assert_eq!(members.len(), 1);
            assert_eq!(members[0].0, "k");
            assert!(matches!(&members[0].1, Json::Object(inner) if inner.len() == 1));
        }
        _ => panic!("expected an object"),
    }
}

#[test]
fn read_json_rejects_what_is_not_json() {
    assert!(read_json("").is_none());
    assert!(read_json("hello").is_none());
    assert!(read_json("{\"type\":").is_none());
    assert!(read_json("{} trailing").is_none());
}

#[test]
fn json_get_finds_members_of_objects_only() {
    let object = read_json("{\"a\": 1, \"b\": \"x\"}").unwrap();
    assert!(matches!(object.get("a"), Some(Json::Number(Some(1)))));
    assert!(matches!(object.get("b"), Some(Json::Text(s)) if s == "x"));
    assert!(object.get("c").is_none());
    assert!(object.get("").is_none());
    let array = read_json("[1]").unwrap();
    assert!(array.get("a").is_none());
}

#[test]
fn json_get_reads_the_last_of_repeated_members() {
    let object = read_json("{\"a\": 1, \"a\": 2}").unwrap();
    assert!(matches!(object.get("a"), Some(Json::Number(Some(2)))));
}

#[test]
fn json_accessors_tell_kinds_apart() {
    assert_eq!(read_json("5").unwrap().as_int(), Some(5));
    assert_eq!(read_json("5.0").unwrap().as_int(), None);
    assert_eq!(read_json("\"5\"").unwrap().as_int(), None);
    assert_eq!(read_json("\"5\"").unwrap().as_text(), Some(&"5".to_string()));
    assert_eq!(read_json("5").unwrap().as_text(), None);
    assert_eq!(read_json("[1, 2, 3]").unwrap().as_ints(), Some(vec![1, 2, 3]));
    assert_eq!(read_json("[]").unwrap().as_ints(), Some(vec![]));
    assert_eq!(read_json("[1, \"2\"]").unwrap().as_ints(), None);
    assert_eq!(read_json("{\"a\": 1}").unwrap().as_ints(), None);
}

#[test]
fn decodes_start_all_suites_and_done() {
    assert_eq!(
        decode_line(r#"{"type":"start","protocolVersion":"0.1.1","pid":7,"time":0}"#),
        Decoded::Event(Event::Start)
    );
    assert_eq!(
        decode_line(r#"{"count":3,"type":"allSuites","time":0}"#),
        Decoded::Event(Event::AllSuitesKnown)
    );
    assert_eq!(
        decode_line(r#"{"success":true,"type":"done","time":99}"#),
        Decoded::Event(Event::Done)
    );
    assert_eq!(decode_line(r#"{"type":"done"}"#), Decoded::Event(Event::Done));
}

#[test]
fn decodes_a_suite() {
    assert_eq!(
        decode_line(
            r#"{"suite":{"id":1,"platform":"vm","path":"/t/test/a_test.dart"},"type":"suite","time":0}"#
        ),
        Decoded::Event(Event::SuiteDeclared {
            id: 1,
            path: "/t/test/a_test.dart".to_string(),
            platform: "vm".to_string(),
        })
    );
}

#[test]
fn decodes_a_suite_without_a_time() {
    assert_eq!(
        decode_line(r#"{"type":"suite","suite":{"id":1,"path":"/t/test/a_test.dart","platform":"vm"}}"#),
        Decoded::Event(Event::SuiteDeclared {
            id: 1,
            path: "/t/test/a_test.dart".to_string(),
            platform: "vm".to_string(),
        })
    );
}

#[test]
fn decodes_a_test_start_with_every_member() {
    let line = r#"{"test":{"id":3,"name":"adds","suiteID":1,"groupIDs":[2,5],"metadata":{"skip":false},"line":10,"column":3,"url":"file:///t/test/a_test.dart","root_line":4,"root_column":9,"root_url":"file:///t/test/a_test.dart"},"type":"testStart","time":120}"#;
    assert_eq!(
        decode_line(line),
        Decoded::Event(Event::TestStarted {
            id: 3,
            name: "adds".to_string(),
            suite_id: 1,
            group_ids: vec![2, 5],
            location: Location {
                root_url: Some("file:///t/test/a_test.dart".to_string()),
                root_line: Some(4),
                root_column: Some(9),
                line: Some(10),
                column: Some(3),
            },
            start_offset_ms: 120,
        })
    );
}

#[test]
fn decodes_a_test_start_with_the_least() {
    assert_eq!(
        decode_line(r#"{"type":"testStart","test":{"id":10,"name":"adds","suiteID":1,"groupIDs":[]}}"#),
        Decoded::Event(Event::TestStarted {
            id: 10,
            name: "adds".to_string(),
            suite_id: 1,
            group_ids: vec![],
            location: no_location(),
            start_offset_ms: 0,
        })
    );
}

#[test]
fn null_stands_for_a_missing_optional_member() {
    let line = r#"{"type":"testStart","time":null,"test":{"id":10,"name":"adds","suiteID":1,"groupIDs":[],"line":null,"column":null,"root_url":null}}"#;
    assert_eq!(
        decode_line(line),
        Decoded::Event(Event::TestStarted {
            id: 10,
            name: "adds".to_string(),
            suite_id: 1,
            group_ids: vec![],
            location: no_location(),
            start_offset_ms: 0,
        })
    );
}

#[test]
fn decodes_test_done_with_each_result() {
    assert_eq!(
        decode_line(r#"{"testID":3,"result":"success","skipped":false,"hidden":false,"type":"testDone","time":250}"#),
        Decoded::Event(Event::TestFinished { id: 3, result: Outcome::Success, end_offset_ms: 250 })
    );
    assert_eq!(
        decode_line(r#"{"testID":3,"result":"failure","type":"testDone","time":1}"#),
        Decoded::Event(Event::TestFinished { id: 3, result: Outcome::Failure, end_offset_ms: 1 })
    );
    assert_eq!(
        decode_line(r#"{"testID":3,"result":"error","type":"testDone"}"#),
        Decoded::Event(Event::TestFinished { id: 3, result: Outcome::Error, end_offset_ms: 0 })
    );
}

#[test]
fn decodes_a_group() {
    assert_eq!(
        decode_line(r#"{"group":{"id":2,"suiteID":1,"parentID":null,"name":"","metadata":{},"testCount":4,"line":null,"column":null,"url":null},"type":"group","time":5}"#),
        Decoded::Event(Event::GroupDeclared {
            id: 2,
            suite_id: 1,
            parent_id: None,
            name: "".to_string(),
            test_count: 4,
        })
    );
    assert_eq!(
        decode_line(r#"{"group":{"id":3,"suiteID":1,"parentID":2,"name":"math","testCount":1},"type":"group"}"#),
        Decoded::Event(Event::GroupDeclared {
            id: 3,
            suite_id: 1,
            parent_id: Some(2),
            name: "math".to_string(),
            test_count: 1,
        })
    );
}

#[test]
fn decodes_a_print() {
    assert_eq!(
        decode_line(r#"{"testID":3,"messageType":"print","message":"hello\nworld","type":"print","time":7}"#),
        Decoded::Event(Event::PrintEmitted { test_id: 3, message: "hello\nworld".to_string() })
    );
}

#[test]
fn decodes_an_error_with_and_without_a_stack_trace() {
    assert_eq!(
        decode_line(r#"{"testID":3,"error":"Expected: 2","stackTrace":"a.dart 1:1","isFailure":true,"type":"error","time":7}"#),
        Decoded::Event(Event::ErrorEmitted {
            test_id: 3,
            message: "Expected: 2".to_string(),
            stack_trace: Some("a.dart 1:1".to_string()),
        })
    );
    assert_eq!(
        decode_line(r#"{"testID":3,"error":"boom","type":"error"}"#),
        Decoded::Event(Event::ErrorEmitted {
            test_id: 3,
            message: "boom".to_string(),
            stack_trace: None,
        })
    );
}

#[test]
fn text_that_is_not_json_passes_through() {
    assert_eq!(decode_line("Running tests..."), Decoded::PassThrough);
    assert_eq!(decode_line(""), Decoded::PassThrough);
    assert_eq!(decode_line("   "), Decoded::PassThrough);
    assert_eq!(decode_line("{\"type\":\"suite\""), Decoded::PassThrough);
}

#[test]
fn json_without_a_known_type_passes_through() {
    assert_eq!(decode_line(r#"{"type":"debug","message":"x"}"#), Decoded::PassThrough);
    assert_eq!(decode_line(r#"{"type":"Start"}"#), Decoded::PassThrough);
    assert_eq!(decode_line(r#"{"type":5}"#), Decoded::PassThrough);
    assert_eq!(decode_line(r#"{"message":"x"}"#), Decoded::PassThrough);
    assert_eq!(decode_line("42"), Decoded::PassThrough);
    assert_eq!(decode_line("\"start\""), Decoded::PassThrough);
    assert_eq!(decode_line("[1, 2]"), Decoded::PassThrough);
    assert_eq!(decode_line(r#"[{"event":"a"}, {"other":"b"}]"#), Decoded::PassThrough);
    assert_eq!(decode_line(r#"[{"event":7}]"#), Decoded::PassThrough);
}

#[test]
fn a_batch_of_event_names_is_discarded() {
    assert_eq!(
        decode_line(r#"[{"event":"test.startedProcess","params":{"vmServiceUri":null}}]"#),
        Decoded::Discard
    );
    assert_eq!(decode_line(r#"[{"event":"a"},{"event":"b"}]"#), Decoded::Discard);
    assert_eq!(decode_line("[]"), Decoded::Discard);
}

#[test]
fn a_known_type_with_a_broken_shape_is_malformed() {
    assert_eq!(decode_line(r#"{"type":"suite"}"#), Decoded::Malformed);
    assert_eq!(decode_line(r#"{"type":"suite","suite":7}"#), Decoded::Malformed);
    assert_eq!(
        decode_line(r#"{"type":"suite","suite":{"id":"1","path":"p","platform":"vm"}}"#),
        Decoded::Malformed
    );
    assert_eq!(
        decode_line(r#"{"type":"suite","suite":{"id":1,"platform":"vm"}}"#),
        Decoded::Malformed
    );
    assert_eq!(decode_line(r#"{"type":"testStart","test":{"id":1}}"#), Decoded::Malformed);
    assert_eq!(
        decode_line(r#"{"type":"testStart","test":{"id":1,"name":"n","suiteID":1}}"#),
        Decoded::Malformed
    );
    assert_eq!(
        decode_line(r#"{"type":"testStart","test":{"id":1,"name":"n","suiteID":1,"groupIDs":["a"]}}"#),
        Decoded::Malformed
    );
    assert_eq!(
        decode_line(r#"{"type":"testStart","time":"soon","test":{"id":1,"name":"n","suiteID":1,"groupIDs":[]}}"#),
        Decoded::Malformed
    );
    assert_eq!(
        decode_line(r#"{"type":"testStart","test":{"id":1,"name":"n","suiteID":1,"groupIDs":[],"line":"x"}}"#),
        Decoded::Malformed
    );
    assert_eq!(decode_line(r#"{"type":"testDone","testID":1}"#), Decoded::Malformed);
    assert_eq!(
        decode_line(r#"{"type":"testDone","testID":1,"result":"skipped"}"#),
        Decoded::Malformed
    );
    assert_eq!(
        decode_line(r#"{"type":"testDone","testID":1.5,"result":"success"}"#),
        Decoded::Malformed
    );
    assert_eq!(decode_line(r#"{"type":"group","group":{"id":1}}"#), Decoded::Malformed);
    assert_eq!(decode_line(r#"{"type":"print","testID":1}"#), Decoded::Malformed);
    assert_eq!(decode_line(r#"{"type":"error","testID":1}"#), Decoded::Malformed);
    assert_eq!(
        decode_line(r#"{"type":"error","testID":1,"error":"e","stackTrace":3}"#),
        Decoded::Malformed
    );
}

#[test]
fn surrounding_white_space_does_not_matter() {
    assert_eq!(decode_line("  {\"type\":\"done\"}  "), Decoded::Event(Event::Done));
    assert_eq!(decode_line("\u{a0}{\"type\":\"done\"}\u{c}"), Decoded::Event(Event::Done));
    assert_eq!(decode_line("\u{2003}[{\"event\":\"a\"}]\r"), Decoded::Discard);
    assert_eq!(decode_line("\u{a0}{\"type\":\"suite\"}"), Decoded::Malformed);
}

#[test]
fn white_space_within_the_line_is_left_to_the_parser() {
    assert_eq!(decode_line("{\"type\":\u{a0}\"done\"}"), Decoded::PassThrough);
    assert_eq!(decode_line("x {\"type\":\"done\"}"), Decoded::PassThrough);
}

#[test]
fn classify_takes_the_parsed_value() {
    assert_eq!(classify(None), Decoded::PassThrough);
    assert_eq!(classify(Some(Json::Null)), Decoded::PassThrough);
    assert_eq!(classify(Some(Json::Array(vec![]))), Decoded::Discard);
    let start = Json::Object(vec![("type".to_string(), Json::Text("start".to_string()))]);
    assert_eq!(classify(Some(start)), Decoded::Event(Event::Start));
    let print = Json::Object(vec![
        ("type".to_string(), Json::Text("print".to_string())),
        ("testID".to_string(), Json::Number(None)),
        ("message".to_string(), Json::Text("m".to_string())),
    ]);
    assert_eq!(classify(Some(print)), Decoded::Malformed);
}

#[test]
fn nesting_beyond_the_parser_s_limit_passes_through() {
    let deep = format!("{}{}", "[".repeat(200), "]".repeat(200));
    assert!(read_json(&deep).is_none());
    assert_eq!(decode_line(&deep), Decoded::PassThrough);
    let shallow = format!("{}{}", "[".repeat(100), "]".repeat(100));
    assert!(read_json(&shallow).is_some());
    assert_eq!(decode_line(&shallow), Decoded::PassThrough);
}

#[test]
fn numbers_beyond_sixty_four_bits_are_no_integers() {
    assert_eq!(
        decode_line(r#"{"type":"testDone","testID":99999999999999999999,"result":"success"}"#),
        Decoded::Malformed
    );
    assert_eq!(
        decode_line(r#"{"type":"testDone","testID":-9223372036854775808,"result":"success"}"#),
        Decoded::Event(Event::TestFinished {
            id: i64::MIN,
            result: Outcome::Success,
            end_offset_ms: 0,
        })
    );
}

#[test]
fn strings_keep_their_escapes_and_their_unicode() {
    assert_eq!(
        decode_line(r#"{"type":"print","testID":1,"messageType":"print","message":"✗ tab\t \"q\" \\ é"}"#),
        Decoded::Event(Event::PrintEmitted {
            test_id: 1,
            message: "\u{2717} tab\t \"q\" \\ é".to_string(),
        })
    );
}
