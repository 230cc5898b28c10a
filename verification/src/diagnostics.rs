//! What is reported about a test at the moment it fails.

use vstd::prelude::*;
use crate::event::int_view;
use crate::record::{TestRecord, TestRecordView};
use crate::text::{
    chars_of, indent, indented, push_all, push_signed, push_str, remove_every, signed_decimal,
    text_of, trim, trimmed, without_every,
};

verus! {

/// The content of the block that is written when a test fails or errors.
#[derive(Clone, Debug, PartialEq, Eq)]
pub struct Diagnostic {
    /// The URL of the file that holds the test; empty where none is known.
    pub source: String,
    pub line: i64,
    pub column: i64,
    pub name: String,
    /// The stack trace and the prints, one per line, every line but the first
    /// indented by a tab.
    pub details: String,
    /// The error message, every line but the first indented by a tab.
    pub error: String,
}

/// The view of a diagnostic.
pub struct DiagnosticView {
    pub source: Seq<char>,
    pub line: int,
    pub column: int,
    pub name: Seq<char>,
    pub details: Seq<char>,
    pub error: Seq<char>,
}

impl View for Diagnostic {
    type V = DiagnosticView;

    open spec fn view(&self) -> DiagnosticView {
        DiagnosticView {
            source: self.source@,
            line: self.line as int,
            column: self.column as int,
            name: self.name@,
            details: self.details@,
            error: self.error@,
        }
    }
}

/// The first of the two that is there, else zero.
pub open spec fn first_known(preferred: Option<int>, fallback: Option<int>) -> int {
    match preferred {
        Some(n) => n,
        None => match fallback {
            Some(n) => n,
            None => 0,
        },
    }
}

/// What is reported about the test `t`.
pub open spec fn diagnostic_of(t: TestRecordView) -> DiagnosticView {
    DiagnosticView {
        source: match t.location.root_url {
            Some(url) => url,
            None => Seq::empty(),
        },
        line: first_known(t.location.root_line, t.location.line),
        column: first_known(t.location.root_column, t.location.column),
        name: t.name,
        details: trimmed(indented(t.message())),
        error: match t.error {
            Some(e) => trimmed(indented(trimmed(e))),
            None => Seq::empty(),
        },
    }
}

fn pick(preferred: Option<i64>, fallback: Option<i64>) -> (r: i64)
    ensures
        r as int == first_known(int_view(preferred), int_view(fallback)),
{
    match preferred {
        Some(n) => n,
        None => match fallback {
            Some(n) => n,
            None => 0,
        },
    }
}

/// Collects what is reported about a test: where it stands (the root line
/// and column, else the line and column, else zero), its name, its stack
/// trace and prints, and its error message.
pub fn diagnose(test: &TestRecord) -> (d: Diagnostic)
    ensures
        d@ == diagnostic_of(test@),
{
    let source = match &test.location.root_url {
        Some(url) => url.clone(),
        None => String::new(),
    };
    let details = text_of(&trim(&indent(&test.message())));
    let error = match &test.error {
        Some(e) => text_of(&trim(&indent(&trim(&chars_of(e.as_str()))))),
        None => String::new(),
    };
    Diagnostic {
        source,
        line: pick(test.location.root_line, test.location.line),
        column: pick(test.location.root_column, test.location.column),
        name: test.name.clone(),
        details,
        error,
    }
}

/// The path of a source relative to the working directory: the source without
/// any `file://`, and then without any occurrence of the working directory
/// and the `/` after it.
pub open spec fn relative_source(source: Seq<char>, working_dir: Seq<char>) -> Seq<char> {
    without_every(without_every(source, "file://"@), working_dir + "/"@)
}

/// Shortens the source of a diagnostic to a path below the working directory.
pub fn shorten_source(source: &str, working_dir: &str) -> (r: String)
    ensures
        r@ == relative_source(source@, working_dir@),
{
    let scheme = chars_of("file://");
    let mut root = chars_of(working_dir);
    push_str(&mut root, "/");
    let path = remove_every(&chars_of(source), &scheme);
    text_of(&remove_every(&path, &root))
}

/// The marks that set off the parts of a block on a terminal. Each is
/// written as it is; with every mark empty the block is plain text.
#[derive(Clone, Debug, PartialEq, Eq)]
pub struct Palette {
    pub bg_red: String,
    pub bg_white: String,
    pub bg_reset: String,
    pub color_white: String,
    pub color_bright_black: String,
    pub color_blue: String,
    pub color_red: String,
    pub color_reset: String,
    pub style_underline: String,
    pub style_reset: String,
}

/// The first line of a block: the word that marks a failure, then the place
/// of the test as path, line and column with colons between them.
pub open spec fn block_head(d: DiagnosticView, working_dir: Seq<char>, p: Palette) -> Seq<char> {
    p.bg_red@ + p.color_white@ + " \u{2717} FAIL "@ + p.color_reset@ + p.bg_reset@ + p.bg_white@
        + " "@ + p.color_bright_black@ + p.style_underline@ + relative_source(
        d.source,
        working_dir,
    ) + ":"@ + signed_decimal(d.line) + ":"@ + signed_decimal(d.column) + p.style_reset@
        + p.color_reset@ + p.bg_reset@ + "\n"@
}

/// What follows the first line of a block: the name of the test, then, each
/// after an empty line and behind a tab, what the test printed and the error.
pub open spec fn block_body(d: DiagnosticView, p: Palette) -> Seq<char> {
    p.color_blue@ + d.name + p.color_reset@ + "\n\n\t"@ + d.details + "\n\n\t"@ + p.color_red@
        + d.error + p.color_reset@ + "\n\n"@
}

/// The block that is written for a test that failed or errored.
pub open spec fn block_text(d: DiagnosticView, working_dir: Seq<char>, p: Palette) -> Seq<char> {
    block_head(d, working_dir, p) + block_body(d, p)
}

/// Writes the block for a test that failed or errored: where it stands, its
/// name, what it printed and its error.
pub fn render_block(d: &Diagnostic, working_dir: &str, palette: &Palette) -> (text: String)
    ensures
        text@ == block_text(d@, working_dir@, *palette),
{
    let mut head: Vec<char> = Vec::new();
    push_str(&mut head, palette.bg_red.as_str());
    push_str(&mut head, palette.color_white.as_str());
    push_str(&mut head, " \u{2717} FAIL ");
    push_str(&mut head, palette.color_reset.as_str());
    push_str(&mut head, palette.bg_reset.as_str());
    push_str(&mut head, palette.bg_white.as_str());
    push_str(&mut head, " ");
    push_str(&mut head, palette.color_bright_black.as_str());
    push_str(&mut head, palette.style_underline.as_str());
    push_str(&mut head, shorten_source(d.source.as_str(), working_dir).as_str());
    push_str(&mut head, ":");
    push_signed(&mut head, d.line);
    push_str(&mut head, ":");
    push_signed(&mut head, d.column);
    push_str(&mut head, palette.style_reset.as_str());
    push_str(&mut head, palette.color_reset.as_str());
    push_str(&mut head, palette.bg_reset.as_str());
    push_str(&mut head, "\n");
    let mut body: Vec<char> = Vec::new();
    push_str(&mut body, palette.color_blue.as_str());
    push_str(&mut body, d.name.as_str());
    push_str(&mut body, palette.color_reset.as_str());
    push_str(&mut body, "\n\n\t");
    push_str(&mut body, d.details.as_str());
    push_str(&mut body, "\n\n\t");
    push_str(&mut body, palette.color_red.as_str());
    push_str(&mut body, d.error.as_str());
    push_str(&mut body, palette.color_reset.as_str());
    push_str(&mut body, "\n\n");
    push_all(&mut head, &body);
    text_of(&head)
}

} // verus!
