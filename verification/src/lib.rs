//! Turns the line-oriented JSON event stream of a test runner into one
//! JUnit-style report per suite.
//!
//! A run has three phases. While the stream lasts, each line is decoded
//! ([`event`]) and applied to the store ([`store`], [`session`]), which
//! correlates the events of a test by its id and reports a failure the moment
//! it happens ([`diagnostics`]). When the stream has ended, the report builder
//! hands every test to the suite that owns it ([`report`]). Then each suite is
//! written out as an XML document with a small JSON document beside it
//! ([`emit`], [`layout`]), together with the images of failed golden
//! comparisons that its tests point to ([`golden`]).
//!
//! Reading the stream, the clock and the file system is left to the caller.
//! What holds of every run is stated in [`laws`].

pub mod clock;
pub mod diagnostics;
pub mod emit;
pub mod event;
pub mod filters;
pub mod golden;
pub mod json;
pub mod laws;
pub mod layout;
pub mod record;
pub mod report;
pub mod session;
pub mod store;
pub mod text;
pub mod xml;
