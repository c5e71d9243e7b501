//! The result model shared by every resolution strategy.
//!
//! A [`Resolution`] records one strategy's outcome for one hostname: the
//! hostname itself, a label naming the source, and a [`DugResult`] that is
//! either an ordered list of record strings or a human-readable failure
//! cause. A resolution is immutable once constructed.

use vstd::prelude::*;

verus! {

/// The outcome of one lookup: either an ordered list of record strings
/// (possibly empty -- a real but empty answer), or a failure cause.
/// Exactly one variant is active; an empty `Records` is distinct from
/// `Failure` and must not be conflated with it.
#[derive(Debug)]
pub enum DugResult {
    Records(Vec<String>),
    Failure(String),
}

/// The mathematical value of a [`DugResult`]: record strings as sequences
/// of characters, or the failure message's characters.
pub enum DugResultView {
    Records(Seq<Seq<char>>),
    Failure(Seq<char>),
}

impl View for DugResult {
    type V = DugResultView;

    open spec fn view(&self) -> DugResultView {
        match self {
            DugResult::Records(records) => DugResultView::Records(records.deep_view()),
            DugResult::Failure(cause) => DugResultView::Failure(cause@),
        }
    }
}

impl DugResult {
    /// Wraps an ordered list of record strings as a successful outcome.
    pub fn from_records(records: Vec<String>) -> (r: DugResult)
        ensures
            r@ == DugResultView::Records(records.deep_view()),
    {
        DugResult::Records(records)
    }

    /// Wraps a failure message as a failed outcome.
    pub fn from_err(err: String) -> (r: DugResult)
        ensures
            r@ == DugResultView::Failure(err@),
    {
        DugResult::Failure(err)
    }

    /// The outcome as one piece of text: the records joined by the
    /// separator, or the failure cause.
    pub fn rendered(&self, sep: &str) -> (r: String)
        ensures
            r@ == rendered_spec(self@, sep@),
    {
        match self {
            DugResult::Records(records) => crate::text::join_strings(records, sep),
            DugResult::Failure(cause) => cause.clone(),
        }
    }
}

/// The text an outcome renders to: the records joined by the separator,
/// or the failure cause.
pub open spec fn rendered_spec(v: DugResultView, sep: Seq<char>) -> Seq<char> {
    match v {
        DugResultView::Records(records) => crate::text::join_chars(records, sep),
        DugResultView::Failure(cause) => cause,
    }
}

/// One strategy's outcome for one hostname. `name` always equals the
/// hostname the lookup was requested for, and `source` labels the strategy
/// that produced it; within one hostname's result set the labels are
/// unique.
#[derive(Debug)]
pub struct Resolution {
    pub name: String,
    pub source: String,
    pub result: DugResult,
}

/// The mathematical value of a [`Resolution`].
pub struct ResolutionView {
    pub name: Seq<char>,
    pub source: Seq<char>,
    pub result: DugResultView,
}

impl View for Resolution {
    type V = ResolutionView;

    open spec fn view(&self) -> ResolutionView {
        ResolutionView { name: self.name@, source: self.source@, result: self.result@ }
    }
}

impl Resolution {
    /// Builds a resolution from a hostname, a source label, and an outcome.
    pub fn new(name: &str, src: &str, result: DugResult) -> (r: Resolution)
        ensures
            r@.name == name@,
            r@.source == src@,
            r@.result == result@,
    {
        Resolution { name: name.to_owned(), source: src.to_owned(), result }
    }

    /// Builds a failed resolution from a failure message.
    pub fn with_err(name: &str, src: &str, err: String) -> (r: Resolution)
        ensures
            r@.name == name@,
            r@.source == src@,
            r@.result == DugResultView::Failure(err@),
    {
        Resolution { name: name.to_owned(), source: src.to_owned(), result: DugResult::Failure(err) }
    }

    /// Builds a successful resolution from an ordered list of records.
    pub fn with_records(name: &str, src: &str, records: Vec<String>) -> (r: Resolution)
        ensures
            r@.name == name@,
            r@.source == src@,
            r@.result == DugResultView::Records(records.deep_view()),
    {
        Resolution {
            name: name.to_owned(),
            source: src.to_owned(),
            result: DugResult::Records(records),
        }
    }
}

} // verus!
