//! Where the files of a run go: the place of a suite's files under the
//! working directory, and the name a suite is shown under.

use vstd::prelude::*;
use crate::text::{
    chars_of, last_segment, push_all, push_str, replace_char, strip_prefix, take_last_segment,
    text_of, with_char_replaced, without_prefix,
};

verus! {

/// Where the run takes place.
#[derive(Clone, Debug, PartialEq, Eq)]
pub struct Layout {
    /// The working directory, under which the reports are written.
    pub working_dir: String,
    /// The prefix that the paths of the suites are shown without.
    pub test_root: String,
}

impl Layout {
    /// The layout of a run in `working_dir`, whose tests lie in the directory
    /// `test` below it.
    pub fn new(working_dir: &str) -> (layout: Layout)
        ensures
            layout.working_dir@ == working_dir@,
            layout.test_root@ == working_dir@ + "/test/"@,
    {
        let mut root = chars_of(working_dir);
        push_str(&mut root, "/test/");
        Layout { working_dir: working_dir.to_owned(), test_root: text_of(&root) }
    }
}

/// The path of a suite below the test root: the path without the test root
/// at its start.
pub open spec fn relative_path(path: Seq<char>, test_root: Seq<char>) -> Seq<char> {
    without_prefix(path, test_root)
}

/// The name a suite is shown under: the last segment of its path below the
/// test root.
pub open spec fn display_name(path: Seq<char>, test_root: Seq<char>) -> Seq<char> {
    last_segment(relative_path(path, test_root), '/')
}

/// The directory that holds the files of a suite: under `coverage` in the
/// working directory, named by the suite's path below the test root with `_`
/// for every `/`.
pub open spec fn output_directory(
    working_dir: Seq<char>,
    path: Seq<char>,
    test_root: Seq<char>,
) -> Seq<char> {
    working_dir + "/coverage/"@ + with_char_replaced(relative_path(path, test_root), '/', '_')
}

/// The path of the file `name` in `directory`.
pub open spec fn path_in(directory: Seq<char>, name: Seq<char>) -> Seq<char> {
    directory + seq!['/'] + name
}

/// Computes the path of a file in a directory.
pub fn file_path(directory: &str, name: &str) -> (path: String)
    ensures
        path@ == path_in(directory@, name@),
{
    let mut path = chars_of(directory);
    path.push('/');
    push_str(&mut path, name);
    text_of(&path)
}

/// Computes the name a suite is shown under.
pub fn suite_name(path: &str, test_root: &str) -> (name: String)
    ensures
        name@ == display_name(path@, test_root@),
{
    let relative = strip_prefix(&chars_of(path), &chars_of(test_root));
    text_of(&take_last_segment(&relative, '/'))
}

/// Computes the directory that holds the files of a suite.
pub fn suite_directory(working_dir: &str, path: &str, test_root: &str) -> (directory: String)
    ensures
        directory@ == output_directory(working_dir@, path@, test_root@),
{
    let relative = strip_prefix(&chars_of(path), &chars_of(test_root));
    let mut directory = chars_of(working_dir);
    push_str(&mut directory, "/coverage/");
    push_all(&mut directory, &replace_char(&relative, '/', '_'));
    text_of(&directory)
}

} // verus!
