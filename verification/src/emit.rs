//! The report emitter: the XML document of a suite, the small JSON document
//! beside it, and where the two are written.

use vstd::prelude::*;
use simple_xml_builder::XMLElement;
use crate::clock::{stamp, stamp_of};
use crate::event::Outcome;
use crate::json::{pretty_entry, pretty_entry_text};
use crate::layout::{
    display_name, file_path, output_directory, path_in, suite_directory, suite_name, Layout,
};
use crate::record::{records_view, Suite, SuiteView, TestRecord, TestRecordView};
use crate::report::{check_omitted, is_omitted, tally, tally_of};
use crate::text::{decimal, digit, digit_char, push_decimal, text_of, texts_view};
use crate::xml::{
    add_attribute, add_child, add_text, content_of, document_text, lemma_new_attribute,
    lemma_one_more_child, new_element, tree_of, write_document, XmlContent, XmlTree,
};

verus! {

/// The digits after the decimal point of a number of seconds that has
/// `millis` thousandths, with the point before them: none for zero, else as
/// many as it takes.
pub open spec fn fraction_text(millis: nat) -> Seq<char> {
    if millis == 0 {
        Seq::empty()
    } else if millis % 100 == 0 {
        seq!['.', digit(millis / 100)]
    } else if millis % 10 == 0 {
        seq!['.', digit(millis / 100), digit(millis / 10 % 10)]
    } else {
        seq!['.', digit(millis / 100), digit(millis / 10 % 10), digit(millis % 10)]
    }
}

/// A number of milliseconds written as seconds: `1500` is `1.5`, `-20` is
/// `-0.02`, `3000` is `3`.
pub open spec fn seconds_text(millis: int) -> Seq<char> {
    let size = if millis < 0 {
        -millis
    } else {
        millis
    };
    let sign = if millis < 0 {
        seq!['-']
    } else {
        Seq::empty()
    };
    sign + decimal((size / 1000) as nat) + fraction_text((size % 1000) as nat)
}

/// How long the test ran, in milliseconds: from its start to its end, and
/// zero while it has not finished.
pub open spec fn duration_of(t: TestRecordView) -> int {
    match t.completion {
        Some(c) => c.end_offset_ms - t.start_offset_ms,
        None => 0,
    }
}

/// Writes the time from `start_ms` to `end_ms`, both in milliseconds, as
/// seconds.
pub fn write_seconds(start_ms: i64, end_ms: i64) -> (r: Vec<char>)
    ensures
        r@ == seconds_text(end_ms - start_ms),
{
    let millis: i128 = end_ms as i128 - start_ms as i128;
    let mut r: Vec<char> = Vec::new();
    let size: u64 = if millis < 0 {
        r.push('-');
        (-millis) as u64
    } else {
        millis as u64
    };
    let ghost sign = r@;
    push_decimal(&mut r, size / 1000);
    let rest: u64 = size % 1000;
    if rest == 0 {
    } else if rest % 100 == 0 {
        r.push('.');
        r.push(digit_char(rest / 100));
    } else if rest % 10 == 0 {
        r.push('.');
        r.push(digit_char(rest / 100));
        r.push(digit_char(rest / 10 % 10));
    } else {
        r.push('.');
        r.push(digit_char(rest / 100));
        r.push(digit_char(rest / 10 % 10));
        r.push(digit_char(rest % 10));
    }
    assert(r@ =~= sign + decimal((size / 1000) as nat) + fraction_text(rest as nat));
    r
}

/// The strings of each group of file names.
pub open spec fn file_groups_view(groups: Seq<Vec<String>>) -> Seq<Seq<Seq<char>>> {
    groups.map_values(|g: Vec<String>| texts_view(g@))
}

/// The groups of file names of each test.
pub open spec fn listings_view(listings: Seq<Vec<Vec<String>>>) -> Seq<Seq<Seq<Seq<char>>>> {
    listings.map_values(|l: Vec<Vec<String>>| file_groups_view(l@))
}

/// The element that refers to one attached file.
pub open spec fn attachment_tree(file: Seq<char>) -> XmlTree {
    XmlTree { name: "attachment"@, attributes: Seq::empty(), content: XmlContent::Text(file) }
}

/// The element that groups the files of one directory, in the order given.
pub open spec fn attachments_tree(files: Seq<Seq<char>>) -> XmlTree {
    XmlTree {
        name: "attachments"@,
        attributes: Seq::empty(),
        content: content_of(files.map_values(|f: Seq<char>| attachment_tree(f))),
    }
}

/// The `error` element of a test. A test that has not finished gets one that
/// says so; a test that failed or errored gets one with its failure message
/// as the attribute `message` and its error string as text; a test that
/// succeeded gets none.
pub open spec fn error_tree(t: TestRecordView) -> Option<XmlTree> {
    match t.completion {
        None => Some(
            XmlTree {
                name: "error"@,
                attributes: seq![("message"@, "Test not finished"@)],
                content: XmlContent::Empty,
            },
        ),
        Some(c) => if c.outcome == Outcome::Success {
            None
        } else {
            Some(
                XmlTree {
                    name: "error"@,
                    attributes: seq![("message"@, t.message())],
                    content: match t.error {
                        Some(e) => XmlContent::Text(e),
                        None => XmlContent::Empty,
                    },
                },
            )
        },
    }
}

/// The children of a `testcase` element: the `error` element, if the test
/// has one, then one `attachments` element for each group of files.
pub open spec fn case_children(t: TestRecordView, groups: Seq<Seq<Seq<char>>>) -> Seq<XmlTree> {
    let attachments = groups.map_values(|g: Seq<Seq<char>>| attachments_tree(g));
    match error_tree(t) {
        Some(e) => seq![e] + attachments,
        None => attachments,
    }
}

/// The `testcase` element of a test that started at the moment written in
/// `stamp`.
pub open spec fn case_tree(
    t: TestRecordView,
    stamp: Seq<char>,
    groups: Seq<Seq<Seq<char>>>,
) -> XmlTree {
    XmlTree {
        name: "testcase"@,
        attributes: seq![
            ("name"@, t.name),
            ("timestamp"@, stamp),
            ("time"@, seconds_text(duration_of(t))),
        ],
        content: content_of(case_children(t, groups)),
    }
}

/// Builds the element that groups the files of one directory.
pub fn attachments_element(files: &Vec<String>) -> (element: XMLElement)
    ensures
        tree_of(element) == attachments_tree(texts_view(files@)),
{
    let ghost all = texts_view(files@);
    let ghost each = |f: Seq<char>| attachment_tree(f);
    let mut element = new_element("attachments");
    let mut i: usize = 0;
    while i < files.len()
        invariant
            i <= files.len(),
            all == texts_view(files@),
            each == |f: Seq<char>| attachment_tree(f),
            tree_of(element) == (XmlTree {
                name: "attachments"@,
                attributes: Seq::empty(),
                content: content_of(all.take(i as int).map_values(each)),
            }),
        decreases files.len() - i,
    {
        let mut child = new_element("attachment");
        add_text(&mut child, files[i].as_str());
        proof {
            lemma_one_more_child(all.take(i as int).map_values(each), tree_of(child));
        }
        add_child(&mut element, child);
        proof {
            assert(all.take(i + 1).map_values(each) =~= all.take(i as int).map_values(each).push(
                attachment_tree(all[i as int]),
            ));
        }
        i += 1;
    }
    proof {
        assert(all.take(files.len() as int) =~= all);
    }
    element
}

/// Builds the `error` element of a test, where it has one.
pub fn error_element(test: &TestRecord) -> (r: Option<XMLElement>)
    ensures
        match r {
            Some(element) => error_tree(test@) == Some(tree_of(element)),
            None => error_tree(test@) is None,
        },
{
    match &test.completion {
        None => {
            let mut element = new_element("error");
            add_attribute(&mut element, "message", "Test not finished");
            proof {
                lemma_new_attribute(Seq::empty(), "message"@, "Test not finished"@);
            }
            Some(element)
        },
        Some(c) => match c.outcome {
            Outcome::Success => None,
            _ => {
                let mut element = new_element("error");
                let message = text_of(&test.message());
                add_attribute(&mut element, "message", message.as_str());
                proof {
                    lemma_new_attribute(Seq::empty(), "message"@, message@);
                }
                match &test.error {
                    Some(e) => {
                        add_text(&mut element, e.as_str());
                    },
                    None => {},
                }
                Some(element)
            },
        },
    }
}

/// The names of the three attributes of a `testcase` element differ.
proof fn lemma_case_names()
    ensures
        "name"@ != "timestamp"@,
        "name"@ != "time"@,
        "timestamp"@ != "time"@,
{
    reveal_strlit("name");
    reveal_strlit("timestamp");
    reveal_strlit("time");
    assert("name"@[0] != "time"@[0]);
    assert("timestamp"@.len() != "time"@.len());
}

/// Builds the `testcase` element of a test from the time stamp of its start
/// and the groups of files attached to it.
pub fn case_element(test: &TestRecord, stamp: &str, groups: &Vec<Vec<String>>) -> (element:
    XMLElement)
    ensures
        tree_of(element) == case_tree(test@, stamp@, file_groups_view(groups@)),
{
    let mut element = new_element("testcase");
    let time = match &test.completion {
        Some(c) => text_of(&write_seconds(test.start_offset_ms, c.end_offset_ms)),
        None => text_of(&write_seconds(0, 0)),
    };
    add_attribute(&mut element, "name", test.name.as_str());
    add_attribute(&mut element, "timestamp", stamp);
    add_attribute(&mut element, "time", time.as_str());
    proof {
        lemma_case_names();
        let a0 = Seq::<(Seq<char>, Seq<char>)>::empty();
        let a1 = a0.push(("name"@, test@.name));
        let a2 = a1.push(("timestamp"@, stamp@));
        lemma_new_attribute(a0, "name"@, test@.name);
        lemma_new_attribute(a1, "timestamp"@, stamp@);
        lemma_new_attribute(a2, "time"@, time@);
        assert(a2.push(("time"@, time@)) =~= seq![
            ("name"@, test@.name),
            ("timestamp"@, stamp@),
            ("time"@, seconds_text(duration_of(test@))),
        ]);
    }
    let ghost all = file_groups_view(groups@);
    let ghost each = |g: Seq<Seq<char>>| attachments_tree(g);
    let ghost head: Seq<XmlTree> = match error_tree(test@) {
        Some(e) => seq![e],
        None => Seq::empty(),
    };
    match error_element(test) {
        Some(e) => {
            proof {
                lemma_one_more_child(Seq::empty(), tree_of(e));
            }
            add_child(&mut element, e);
        },
        None => {},
    }
    let ghost attributes = tree_of(element).attributes;
    let mut i: usize = 0;
    while i < groups.len()
        invariant
            i <= groups.len(),
            all == file_groups_view(groups@),
            each == |g: Seq<Seq<char>>| attachments_tree(g),
            tree_of(element) == (XmlTree {
                name: "testcase"@,
                attributes,
                content: content_of(head + all.take(i as int).map_values(each)),
            }),
        decreases groups.len() - i,
    {
        let child = attachments_element(&groups[i]);
        proof {
            lemma_one_more_child(head + all.take(i as int).map_values(each), tree_of(child));
        }
        add_child(&mut element, child);
        proof {
            assert(head + all.take(i + 1).map_values(each) =~= (head + all.take(
                i as int,
            ).map_values(each)).push(attachments_tree(all[i as int])));
        }
        i += 1;
    }
    proof {
        assert(all.take(groups.len() as int) =~= all);
    }
    element
}

/// The time stamp of the test at `k`; empty where none was given.
pub open spec fn stamp_at(stamps: Seq<Seq<char>>, k: int) -> Seq<char> {
    if 0 <= k < stamps.len() {
        stamps[k]
    } else {
        Seq::empty()
    }
}

/// The groups of files attached to the test at `k`; none where none were
/// given.
pub open spec fn groups_at(listings: Seq<Seq<Seq<Seq<char>>>>, k: int) -> Seq<Seq<Seq<char>>> {
    if 0 <= k < listings.len() {
        listings[k]
    } else {
        Seq::empty()
    }
}

/// The `testcase` elements of the first `n` tests, in their order, without
/// the tests that are left out.
pub open spec fn case_trees(
    tests: Seq<TestRecordView>,
    stamps: Seq<Seq<char>>,
    listings: Seq<Seq<Seq<Seq<char>>>>,
    n: int,
) -> Seq<XmlTree>
    decreases n,
{
    if n <= 0 {
        Seq::empty()
    } else if is_omitted(tests[n - 1]) {
        case_trees(tests, stamps, listings, n - 1)
    } else {
        case_trees(tests, stamps, listings, n - 1).push(
            case_tree(tests[n - 1], stamp_at(stamps, n - 1), groups_at(listings, n - 1)),
        )
    }
}

/// The schema that the document of a suite names.
pub open spec fn schema_location() -> Seq<char> {
    "https://github.com/jenkinsci/xunit-plugin/raw/master/src/main/resources/org/jenkinsci/plugins/xunit/types/model/xsd/junit-10.xsd"@
}

/// The `testsuite` element of a suite: its attributes name the schema, the
/// suite's file and name, its totals and the start of the run; its children
/// are the `testcase` elements of the tests that are not left out.
pub open spec fn suite_tree(
    suite: SuiteView,
    test_root: Seq<char>,
    suite_stamp: Seq<char>,
    stamps: Seq<Seq<char>>,
    listings: Seq<Seq<Seq<Seq<char>>>>,
) -> XmlTree {
    let totals = tally_of(suite.tests);
    XmlTree {
        name: "testsuite"@,
        attributes: seq![
            ("xmlns:xsi"@, "https://www.w3.org/2001/XMLSchema-instance"@),
            ("xsi:noNamespaceSchemaLocation"@, schema_location()),
            ("file"@, suite.path),
            ("name"@, display_name(suite.path, test_root)),
            ("tests"@, decimal(totals.tests)),
            ("errors"@, decimal(totals.errors)),
            ("failures"@, decimal(totals.failures)),
            ("timestamp"@, suite_stamp),
        ],
        content: content_of(case_trees(suite.tests, stamps, listings, suite.tests.len() as int)),
    }
}

/// Writes a count in decimal.
pub fn count_text(n: usize) -> (text: String)
    ensures
        text@ == decimal(n as nat),
{
    let mut digits: Vec<char> = Vec::new();
    push_decimal(&mut digits, n as u64);
    text_of(&digits)
}

/// The names of the attributes of a `testsuite` element differ from one
/// another.
proof fn lemma_suite_names()
    ensures
        "xmlns:xsi"@ != "xsi:noNamespaceSchemaLocation"@,
        "file"@ != "xmlns:xsi"@,
        "file"@ != "xsi:noNamespaceSchemaLocation"@,
        "name"@ != "xmlns:xsi"@,
        "name"@ != "xsi:noNamespaceSchemaLocation"@,
        "name"@ != "file"@,
        "tests"@ != "xmlns:xsi"@,
        "tests"@ != "xsi:noNamespaceSchemaLocation"@,
        "tests"@ != "file"@,
        "tests"@ != "name"@,
        "errors"@ != "xmlns:xsi"@,
        "errors"@ != "xsi:noNamespaceSchemaLocation"@,
        "errors"@ != "file"@,
        "errors"@ != "name"@,
        "errors"@ != "tests"@,
        "failures"@ != "xmlns:xsi"@,
        "failures"@ != "xsi:noNamespaceSchemaLocation"@,
        "failures"@ != "file"@,
        "failures"@ != "name"@,
        "failures"@ != "tests"@,
        "failures"@ != "errors"@,
        "timestamp"@ != "xmlns:xsi"@,
        "timestamp"@ != "xsi:noNamespaceSchemaLocation"@,
        "timestamp"@ != "file"@,
        "timestamp"@ != "name"@,
        "timestamp"@ != "tests"@,
        "timestamp"@ != "errors"@,
        "timestamp"@ != "failures"@,
{
    reveal_strlit("xmlns:xsi");
    reveal_strlit("xsi:noNamespaceSchemaLocation");
    reveal_strlit("file");
    reveal_strlit("name");
    reveal_strlit("tests");
    reveal_strlit("errors");
    reveal_strlit("failures");
    reveal_strlit("timestamp");
    assert("xmlns:xsi"@.len() == 9);
    assert("xsi:noNamespaceSchemaLocation"@.len() == 29);
    assert("file"@.len() == 4);
    assert("name"@.len() == 4);
    assert("tests"@.len() == 5);
    assert("errors"@.len() == 6);
    assert("failures"@.len() == 8);
    assert("timestamp"@.len() == 9);
    assert("name"@[0] != "file"@[0]);
    assert("timestamp"@[0] != "xmlns:xsi"@[0]);
}

/// Builds the `testsuite` element of a suite from the time stamp of the run,
/// the time stamps of its tests and the groups of files attached to them.
/// The time stamps and the groups belong to the tests by position; a test
/// beyond their end has an empty time stamp and no group.
pub fn suite_element(
    suite: &Suite,
    test_root: &str,
    suite_stamp: &str,
    stamps: &Vec<String>,
    listings: &Vec<Vec<Vec<String>>>,
) -> (element: XMLElement)
    ensures
        tree_of(element) == suite_tree(
            suite@,
            test_root@,
            suite_stamp@,
            texts_view(stamps@),
            listings_view(listings@),
        ),
{
    let ghost tests = suite@.tests;
    let ghost all_stamps = texts_view(stamps@);
    let ghost all_groups = listings_view(listings@);
    let mut element = new_element("testsuite");
    let name = suite_name(suite.path.as_str(), test_root);
    add_attribute(&mut element, "xmlns:xsi", "https://www.w3.org/2001/XMLSchema-instance");
    add_attribute(
        &mut element,
        "xsi:noNamespaceSchemaLocation",
        "https://github.com/jenkinsci/xunit-plugin/raw/master/src/main/resources/org/jenkinsci/plugins/xunit/types/model/xsd/junit-10.xsd",
    );
    add_attribute(&mut element, "file", suite.path.as_str());
    add_attribute(&mut element, "name", name.as_str());
    let ghost a0 = Seq::<(Seq<char>, Seq<char>)>::empty();
    let ghost a1 = a0.push(("xmlns:xsi"@, "https://www.w3.org/2001/XMLSchema-instance"@));
    let ghost a2 = a1.push(("xsi:noNamespaceSchemaLocation"@, schema_location()));
    let ghost a3 = a2.push(("file"@, suite@.path));
    let ghost a4 = a3.push(("name"@, name@));
    proof {
        lemma_suite_names();
        lemma_new_attribute(a0, "xmlns:xsi"@, "https://www.w3.org/2001/XMLSchema-instance"@);
        lemma_new_attribute(a1, "xsi:noNamespaceSchemaLocation"@, schema_location());
        lemma_new_attribute(a2, "file"@, suite@.path);
        lemma_new_attribute(a3, "name"@, name@);
    }
    let empty_groups: Vec<Vec<String>> = Vec::new();
    let mut i: usize = 0;
    while i < suite.tests.len()
        invariant
            i <= suite.tests.len(),
            tests == suite@.tests,
            all_stamps == texts_view(stamps@),
            all_groups == listings_view(listings@),
            file_groups_view(empty_groups@) == Seq::<Seq<Seq<char>>>::empty(),
            tree_of(element) == (XmlTree {
                name: "testsuite"@,
                attributes: a4,
                content: content_of(case_trees(tests, all_stamps, all_groups, i as int)),
            }),
        decreases suite.tests.len() - i,
    {
        let test = &suite.tests[i];
        if !check_omitted(test) {
            let groups = if i < listings.len() {
                &listings[i]
            } else {
                &empty_groups
            };
            let child = if i < stamps.len() {
                case_element(test, stamps[i].as_str(), groups)
            } else {
                case_element(test, "", groups)
            };
            proof {
                reveal_strlit("");
                assert(""@ =~= Seq::<char>::empty());
                lemma_one_more_child(
                    case_trees(tests, all_stamps, all_groups, i as int),
                    tree_of(child),
                );
            }
            add_child(&mut element, child);
        }
        i += 1;
    }
    let totals = tally(&suite.tests);
    let tests_text = count_text(totals.tests);
    let errors_text = count_text(totals.errors);
    let failures_text = count_text(totals.failures);
    add_attribute(&mut element, "tests", tests_text.as_str());
    add_attribute(&mut element, "errors", errors_text.as_str());
    add_attribute(&mut element, "failures", failures_text.as_str());
    add_attribute(&mut element, "timestamp", suite_stamp);
    proof {
        let a5 = a4.push(("tests"@, tests_text@));
        let a6 = a5.push(("errors"@, errors_text@));
        let a7 = a6.push(("failures"@, failures_text@));
        lemma_new_attribute(a4, "tests"@, tests_text@);
        lemma_new_attribute(a5, "errors"@, errors_text@);
        lemma_new_attribute(a6, "failures"@, failures_text@);
        lemma_new_attribute(a7, "timestamp"@, suite_stamp@);
        assert(a7.push(("timestamp"@, suite_stamp@)) =~= suite_tree(
            suite@,
            test_root@,
            suite_stamp@,
            texts_view(stamps@),
            listings_view(listings@),
        ).attributes);
    }
    element
}

/// Why a report could not be made.
#[derive(Clone, Copy, Debug, PartialEq, Eq, Structural)]
pub enum ReportError {
    /// The start of the run or of a test lies beyond the times that can be
    /// written as a time stamp.
    TimeOutOfRange,
}

/// The two files of a suite, and where they go.
#[derive(Clone, Debug, PartialEq, Eq)]
pub struct SuiteFiles {
    pub directory: String,
    /// The path of the XML document.
    pub report_path: String,
    /// The XML document.
    pub report: String,
    /// The path of the JSON document that holds the suite's name.
    pub sidecar_path: String,
    /// The JSON document that holds the suite's name.
    pub sidecar: String,
}

/// The view of the files of a suite.
pub struct SuiteFilesView {
    pub directory: Seq<char>,
    pub report_path: Seq<char>,
    pub report: Seq<char>,
    pub sidecar_path: Seq<char>,
    pub sidecar: Seq<char>,
}

impl View for SuiteFiles {
    type V = SuiteFilesView;

    open spec fn view(&self) -> SuiteFilesView {
        SuiteFilesView {
            directory: self.directory@,
            report_path: self.report_path@,
            report: self.report@,
            sidecar_path: self.sidecar_path@,
            sidecar: self.sidecar@,
        }
    }
}

/// The time stamps of the starts of `tests` in a run that began at
/// `run_start`; `None` where one of them cannot be written.
pub open spec fn stamps_of(tests: Seq<TestRecordView>, run_start: int) -> Option<Seq<Seq<char>>> {
    if forall|k: int|
        0 <= k < tests.len() ==> stamp_of(run_start, (#[trigger] tests[k]).start_offset_ms)
            is Some {
        Some(Seq::new(tests.len(), |k: int| stamp_of(run_start, tests[k].start_offset_ms)->0))
    } else {
        None
    }
}

/// The files of a suite, given the time stamp of the run and those of its
/// tests: the XML document goes to `results.xml`, the JSON document with the
/// suite's name under `test-name` to `test-info.json`, both in the suite's
/// directory.
pub open spec fn files_from(
    suite: SuiteView,
    working_dir: Seq<char>,
    test_root: Seq<char>,
    suite_stamp: Seq<char>,
    stamps: Seq<Seq<char>>,
    listings: Seq<Seq<Seq<Seq<char>>>>,
) -> SuiteFilesView {
    let directory = output_directory(working_dir, suite.path, test_root);
    SuiteFilesView {
        directory,
        report_path: path_in(directory, "results.xml"@),
        report: document_text(suite_tree(suite, test_root, suite_stamp, stamps, listings)),
        sidecar_path: path_in(directory, "test-info.json"@),
        sidecar: pretty_entry_text("test-name"@, display_name(suite.path, test_root)),
    }
}

/// The files of a suite in a run that began at `run_start`; `None` where the
/// start of the run or of one of the suite's tests cannot be written as a
/// time stamp.
pub open spec fn files_of(
    suite: SuiteView,
    working_dir: Seq<char>,
    test_root: Seq<char>,
    run_start: int,
    listings: Seq<Seq<Seq<Seq<char>>>>,
) -> Option<SuiteFilesView> {
    match (stamp_of(run_start, 0), stamps_of(suite.tests, run_start)) {
        (Some(suite_stamp), Some(stamps)) => Some(
            files_from(suite, working_dir, test_root, suite_stamp, stamps, listings),
        ),
        _ => None,
    }
}

/// Writes the time stamp of the start of each test.
pub fn test_stamps(tests: &Vec<TestRecord>, run_start_ms: i64) -> (r: Option<Vec<String>>)
    ensures
        match r {
            Some(stamps) => stamps_of(records_view(tests@), run_start_ms as int)
                == Some(texts_view(stamps@)),
            None => stamps_of(records_view(tests@), run_start_ms as int) is None,
        },
{
    let ghost all = records_view(tests@);
    let mut stamps: Vec<String> = Vec::new();
    let mut i: usize = 0;
    while i < tests.len()
        invariant
            i <= tests.len(),
            stamps.len() == i,
            all == records_view(tests@),
            forall|k: int|
                0 <= k < i ==> stamp_of(run_start_ms as int, (#[trigger] all[k]).start_offset_ms)
                    == Some(stamps@[k]@),
        decreases tests.len() - i,
    {
        assert(all[i as int] == tests@[i as int]@);
        match stamp(run_start_ms, tests[i].start_offset_ms) {
            Some(text) => {
                stamps.push(text);
            },
            None => {
                return None;
            },
        }
        i += 1;
    }
    proof {
        assert(texts_view(stamps@) =~= Seq::new(
            all.len(),
            |k: int| stamp_of(run_start_ms as int, all[k].start_offset_ms)->0,
        ));
    }
    Some(stamps)
}

/// Assembles the files of a suite from its time stamps.
pub fn suite_files(
    suite: &Suite,
    layout: &Layout,
    suite_stamp: &str,
    stamps: &Vec<String>,
    listings: &Vec<Vec<Vec<String>>>,
) -> (files: SuiteFiles)
    ensures
        files@ == files_from(
            suite@,
            layout.working_dir@,
            layout.test_root@,
            suite_stamp@,
            texts_view(stamps@),
            listings_view(listings@),
        ),
{
    let test_root = layout.test_root.as_str();
    let directory = suite_directory(layout.working_dir.as_str(), suite.path.as_str(), test_root);
    let report_path = file_path(directory.as_str(), "results.xml");
    let sidecar_path = file_path(directory.as_str(), "test-info.json");
    let element = suite_element(suite, test_root, suite_stamp, stamps, listings);
    let name = suite_name(suite.path.as_str(), test_root);
    SuiteFiles {
        directory,
        report_path,
        report: write_document(&element),
        sidecar_path,
        sidecar: pretty_entry("test-name", name.as_str()),
    }
}

/// Makes the two files of a suite: the XML document of its tests and the
/// JSON document that holds its name.
///
/// `listings` gives, for each test of the suite by position, the groups of
/// files that were attached to it. The report fails where the start of the
/// run or of a test cannot be written as a time stamp, and only then.
pub fn suite_report(
    suite: &Suite,
    layout: &Layout,
    run_start_ms: i64,
    listings: &Vec<Vec<Vec<String>>>,
) -> (r: Result<SuiteFiles, ReportError>)
    ensures
        match r {
            Ok(files) => files_of(
                suite@,
                layout.working_dir@,
                layout.test_root@,
                run_start_ms as int,
                listings_view(listings@),
            ) == Some(files@),
            Err(e) => e == ReportError::TimeOutOfRange && files_of(
                suite@,
                layout.working_dir@,
                layout.test_root@,
                run_start_ms as int,
                listings_view(listings@),
            ) is None,
        },
{
    let suite_stamp = match stamp(run_start_ms, 0) {
        Some(text) => text,
        None => {
            return Err(ReportError::TimeOutOfRange);
        },
    };
    let stamps = match test_stamps(&suite.tests, run_start_ms) {
        Some(stamps) => stamps,
        None => {
            return Err(ReportError::TimeOutOfRange);
        },
    };
    Ok(suite_files(suite, layout, suite_stamp.as_str(), &stamps, listings))
}

} // verus!
