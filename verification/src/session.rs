//! One step of a run: a line of the stream comes in, the store changes, and
//! the caller is told what to do.

use vstd::prelude::*;
use crate::diagnostics::{Diagnostic, DiagnosticView};
use crate::event::{decode_line, decoded, Decoded, DecodedView};
use crate::store::{applied, effect_of, Effect, EffectView, Store, StoreView};

verus! {

/// What the caller has to do about a line.
#[derive(Clone, Debug, PartialEq, Eq)]
pub enum Action {
    /// Nothing: read the next line.
    Continue,
    /// Write the line to the output as it came.
    Forward,
    /// Flush the output written so far.
    Flush,
    /// Report a test that has just failed or errored.
    Diagnose(Diagnostic),
    /// Stop the run as failed: the stream is broken.
    Abort,
}

/// The view of an action.
pub enum ActionView {
    Continue,
    Forward,
    Flush,
    Diagnose(DiagnosticView),
    Abort,
}

impl View for Action {
    type V = ActionView;

    open spec fn view(&self) -> ActionView {
        match *self {
            Action::Continue => ActionView::Continue,
            Action::Forward => ActionView::Forward,
            Action::Flush => ActionView::Flush,
            Action::Diagnose(d) => ActionView::Diagnose(d@),
            Action::Abort => ActionView::Abort,
        }
    }
}

/// The store after a line that was decoded as `d` and arrived at `now`: an
/// event is applied, every other line leaves the store as it is.
pub open spec fn accepted(s: StoreView, d: DecodedView, now: int) -> StoreView {
    match d {
        DecodedView::Event(e) => applied(s, e, now),
        _ => s,
    }
}

/// What the caller has to do about a line that was decoded as `d`: forward
/// text that is not of the protocol, stop at a malformed line, drop a batch of
/// event names, and do what the event asks for otherwise.
pub open spec fn action_for(s: StoreView, d: DecodedView) -> ActionView {
    match d {
        DecodedView::Event(e) => match effect_of(s, e) {
            EffectView::Nothing => ActionView::Continue,
            EffectView::Flush => ActionView::Flush,
            EffectView::Diagnose(d) => ActionView::Diagnose(d),
        },
        DecodedView::Discard => ActionView::Continue,
        DecodedView::PassThrough => ActionView::Forward,
        DecodedView::Malformed => ActionView::Abort,
    }
}

impl Store {
    /// Takes in a decoded line that arrived at the wall-clock time `now_ms`.
    pub fn accept(&mut self, decoded: Decoded, now_ms: i64) -> (action: Action)
        ensures
            final(self)@ == accepted(old(self)@, decoded@, now_ms as int),
            action@ == action_for(old(self)@, decoded@),
    {
        match decoded {
            Decoded::Event(event) => match self.apply(event, now_ms) {
                Effect::Nothing => Action::Continue,
                Effect::Flush => Action::Flush,
                Effect::Diagnose(d) => Action::Diagnose(d),
            },
            Decoded::Discard => Action::Continue,
            Decoded::PassThrough => Action::Forward,
            Decoded::Malformed => Action::Abort,
        }
    }

    /// Takes in one line of the stream, which arrived at the wall-clock time
    /// `now_ms`: decodes it, applies the event it holds, and says what the
    /// caller has to do.
    pub fn feed(&mut self, line: &str, now_ms: i64) -> (action: Action)
        ensures
            final(self)@ == accepted(old(self)@, decoded(line@), now_ms as int),
            action@ == action_for(old(self)@, decoded(line@)),
    {
        let decoded = decode_line(line);
        self.accept(decoded, now_ms)
    }
}

} // verus!
