//! Golden images: finding, in what a test printed, the directories that hold
//! the images of a failed comparison.

use vstd::prelude::*;
use crate::record::{TestRecord, TestRecordView};
use crate::text::{chars_of, push_str, text_of, text_view, texts_view};

verus! {

/// What the first capture group of `pattern` holds in the first match that
/// the `regex` crate finds in `text`; `None` where the pattern does not
/// compile, nothing matches, or the group takes no part in the match.
pub uninterp spec fn first_group(pattern: Seq<char>, text: Seq<char>) -> Option<Seq<char>>;

/// Compiles the pattern with `regex::Regex::new`, searches with
/// `regex::Regex::captures` and reads group 1 with `regex::Captures::get`.
/// The contract only names the result.
#[verifier::external_body]
pub(crate) fn capture_first(pattern: &str, text: &str) -> (r: Option<String>)
    ensures
        text_view(r) == first_group(pattern@, text@),
{
    let regex = regex::Regex::new(pattern).ok()?;
    let captures = regex.captures(text)?;
    captures.get(1).map(|m| m.as_str().to_string())
}

/// The pattern of the marker that a golden comparison prints: the word
/// `Golden` and a file name in double quotes.
pub open spec fn golden_pattern() -> Seq<char> {
    "Golden \"(.+?)\""@
}

/// The pattern of a path that ends in `/failures`.
pub open spec fn failures_pattern() -> Seq<char> {
    "(.*)/failures"@
}

/// What a pattern captured in each of several texts.
pub open spec fn captures_view(captures: Seq<Option<String>>) -> Seq<Option<Seq<char>>> {
    captures.map_values(|c: Option<String>| text_view(c))
}

/// The directory of comparison images that a captured folder stands for: the
/// folder and `/failures`.
pub open spec fn failures_directory(folder: Option<Seq<char>>) -> Option<Seq<char>> {
    match folder {
        Some(dir) => Some(dir + "/failures"@),
        None => None,
    }
}

/// Whether one of the captures is there.
pub open spec fn any_captured(captures: Seq<Option<Seq<char>>>) -> bool {
    exists|i: int| 0 <= i < captures.len() && (#[trigger] captures[i]) is Some
}

/// The directories that the captured folders stand for, one for each folder
/// that was captured, in their order and with repeats.
pub open spec fn directories_from(folders: Seq<Option<Seq<char>>>) -> Seq<Seq<char>>
    decreases folders.len(),
{
    if folders.len() == 0 {
        Seq::empty()
    } else {
        match failures_directory(folders.last()) {
            Some(dir) => directories_from(folders.drop_last()).push(dir),
            None => directories_from(folders.drop_last()),
        }
    }
}

/// The directories of comparison images of a test, given what the marker
/// pattern and the path pattern captured in each of its prints: where some
/// print holds the marker, every print that holds a path, that one or another,
/// gives its directory; where none holds the marker, there is no directory.
pub open spec fn selected(
    markers: Seq<Option<Seq<char>>>,
    folders: Seq<Option<Seq<char>>>,
) -> Seq<Seq<char>> {
    if any_captured(markers) {
        directories_from(folders)
    } else {
        Seq::empty()
    }
}

/// What the marker pattern captures in each print.
pub open spec fn marker_captures(prints: Seq<Seq<char>>) -> Seq<Option<Seq<char>>> {
    prints.map_values(|p: Seq<char>| first_group(golden_pattern(), p))
}

/// What the path pattern captures in each print.
pub open spec fn folder_captures(prints: Seq<Seq<char>>) -> Seq<Option<Seq<char>>> {
    prints.map_values(|p: Seq<char>| first_group(failures_pattern(), p))
}

/// The directories of comparison images that the prints of a test point to.
/// Where some print holds the marker of a golden comparison, each print that
/// holds a path ending in `/failures` names one, whether it is the print with
/// the marker or another print of the test; the directories come in the order
/// of the prints, and a directory named twice comes twice.
pub open spec fn attachment_sources(prints: Seq<Seq<char>>) -> Seq<Seq<char>> {
    selected(marker_captures(prints), folder_captures(prints))
}

/// Turns the folder that the path pattern captured into the directory it
/// stands for.
pub fn resolve_directory(folder: &Option<String>) -> (r: Option<String>)
    ensures
        text_view(r) == failures_directory(text_view(*folder)),
{
    match folder {
        Some(dir) => {
            let mut path = chars_of(dir.as_str());
            push_str(&mut path, "/failures");
            Some(text_of(&path))
        },
        None => None,
    }
}

/// Tells whether one of the captures is there.
fn check_any_captured(captures: &Vec<Option<String>>) -> (b: bool)
    ensures
        b == any_captured(captures_view(captures@)),
{
    let mut i: usize = 0;
    while i < captures.len()
        invariant
            i <= captures.len(),
            forall|k: int| 0 <= k < i ==> (#[trigger] captures_view(captures@)[k]) is None,
        decreases captures.len() - i,
    {
        if captures[i].is_some() {
            assert(captures_view(captures@)[i as int] is Some);
            return true;
        }
        i += 1;
    }
    false
}

/// Selects the directories of comparison images of a test from what the
/// marker pattern and the path pattern captured in each of its prints.
pub fn select_directories(markers: &Vec<Option<String>>, folders: &Vec<Option<String>>) -> (r:
    Vec<String>)
    ensures
        texts_view(r@) == selected(captures_view(markers@), captures_view(folders@)),
{
    let mut r: Vec<String> = Vec::new();
    assert(texts_view(r@) =~= Seq::empty());
    if !check_any_captured(markers) {
        return r;
    }
    let ghost all = captures_view(folders@);
    let mut i: usize = 0;
    assert(all.take(0) =~= Seq::empty());
    while i < folders.len()
        invariant
            i <= folders.len(),
            all == captures_view(folders@),
            texts_view(r@) == directories_from(all.take(i as int)),
        decreases folders.len() - i,
    {
        proof {
            assert(all.take(i + 1).drop_last() =~= all.take(i as int));
        }
        let ghost before = texts_view(r@);
        match resolve_directory(&folders[i]) {
            Some(dir) => {
                r.push(dir);
                assert(texts_view(r@) =~= before.push(dir@));
            },
            None => {},
        }
        i += 1;
    }
    proof {
        assert(all.take(folders.len() as int) =~= all);
    }
    r
}

/// Lists the directories of comparison images that the prints of a test point
/// to: it looks in every print for the marker of a golden comparison and for
/// a path that ends in `/failures`. A print may name a directory that does
/// not exist; telling is left to whoever lists it.
pub fn find_directories(prints: &Vec<String>) -> (r: Vec<String>)
    ensures
        texts_view(r@) == attachment_sources(texts_view(prints@)),
{
    let ghost all = texts_view(prints@);
    let mut markers: Vec<Option<String>> = Vec::new();
    let mut folders: Vec<Option<String>> = Vec::new();
    let mut i: usize = 0;
    while i < prints.len()
        invariant
            i <= prints.len(),
            all == texts_view(prints@),
            markers.len() == i,
            folders.len() == i,
            forall|k: int|
                0 <= k < i ==> text_view(#[trigger] markers@[k]) == first_group(
                    golden_pattern(),
                    all[k],
                ),
            forall|k: int|
                0 <= k < i ==> text_view(#[trigger] folders@[k]) == first_group(
                    failures_pattern(),
                    all[k],
                ),
        decreases prints.len() - i,
    {
        markers.push(capture_first("Golden \"(.+?)\"", prints[i].as_str()));
        folders.push(capture_first("(.*)/failures", prints[i].as_str()));
        i += 1;
    }
    proof {
        assert(captures_view(markers@) =~= marker_captures(all));
        assert(captures_view(folders@) =~= folder_captures(all));
    }
    select_directories(&markers, &folders)
}

/// The directories whose images are attached to a test: those that its
/// prints point to, once it has finished; none while it has not.
pub open spec fn sources_of(t: TestRecordView) -> Seq<Seq<char>> {
    if t.completion is Some {
        attachment_sources(t.prints)
    } else {
        Seq::empty()
    }
}

/// Lists the directories whose images are to be attached to a test.
pub fn directories_of(test: &TestRecord) -> (r: Vec<String>)
    ensures
        texts_view(r@) == sources_of(test@),
{
    match &test.completion {
        Some(_) => find_directories(&test.prints),
        None => {
            let r: Vec<String> = Vec::new();
            r
        },
    }
}

} // verus!
