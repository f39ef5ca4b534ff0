//! The closed taxonomy of parse failures.
//!
//! Every way a document can be rejected is one of these variants, carrying
//! the event that was seen and the alternatives that the schema allowed at
//! that position.  Any error is terminal for the current parse: the parser
//! discards all in-progress state and returns to its unstarted shape.

use vstd::prelude::*;

verus! {

use crate::events::FilteredEvent;

/// A shorn-down description of an event, kept inside errors for diagnosis.
#[derive(Debug, Clone, PartialEq)]
pub enum BasicEvent {
    Start(String),
    End(String),
    Empty(String),
    Text,
}

/// Mathematical value of a [`BasicEvent`].
#[verifier::ext_equal]
pub enum BasicEventView {
    Start(Seq<char>),
    End(Seq<char>),
    Empty(Seq<char>),
    Text,
}

impl View for BasicEvent {
    type V = BasicEventView;

    open spec fn view(&self) -> BasicEventView {
        match self {
            BasicEvent::Start(n) => BasicEventView::Start(n@),
            BasicEvent::End(n) => BasicEventView::End(n@),
            BasicEvent::Empty(n) => BasicEventView::Empty(n@),
            BasicEvent::Text => BasicEventView::Text,
        }
    }
}

/// Everything that can go wrong while reading a document.
#[derive(Debug, Clone, PartialEq)]
pub enum ParserError {
    /// A start tag was required; `expected` lists the acceptable names.
    ExpectedStart { got: BasicEvent, expected: Vec<String> },
    /// An end tag was required; `expected` lists the acceptable names.
    ExpectedEnd { got: BasicEvent, expected: Vec<String> },
    /// Either a start or an end tag was acceptable here.
    ExpectedStartOrEnd {
        got: BasicEvent,
        expected_starts: Vec<String>,
        expected_ends: Vec<String>,
    },
    /// A value outside the schema was met.
    UnexpectedValue(String),
    /// The attribute syntax itself could not be read.
    FailedToParseAttribute,
    /// An attribute was present but its text does not convert to its type.
    InvalidValueForAttribute(String),
    /// A required attribute was absent after the full scan.
    MissingRequiredAttribute(String),
    /// The event stream ended before the root element closed.
    UnexpectedEof,
}

/// Mathematical value of a [`ParserError`].
#[verifier::ext_equal]
pub enum ParserErrorView {
    ExpectedStart { got: BasicEventView, expected: Seq<Seq<char>> },
    ExpectedEnd { got: BasicEventView, expected: Seq<Seq<char>> },
    ExpectedStartOrEnd {
        got: BasicEventView,
        expected_starts: Seq<Seq<char>>,
        expected_ends: Seq<Seq<char>>,
    },
    UnexpectedValue(Seq<char>),
    FailedToParseAttribute,
    InvalidValueForAttribute(Seq<char>),
    MissingRequiredAttribute(Seq<char>),
    UnexpectedEof,
}

/// The views of a list of names.
pub open spec fn names_view(v: Seq<String>) -> Seq<Seq<char>> {
    v.map_values(|s: String| s@)
}

impl View for ParserError {
    type V = ParserErrorView;

    open spec fn view(&self) -> ParserErrorView {
        match self {
            ParserError::ExpectedStart { got, expected } => ParserErrorView::ExpectedStart {
                got: got@,
                expected: names_view(expected@),
            },
            ParserError::ExpectedEnd { got, expected } => ParserErrorView::ExpectedEnd {
                got: got@,
                expected: names_view(expected@),
            },
            ParserError::ExpectedStartOrEnd { got, expected_starts, expected_ends } => {
                ParserErrorView::ExpectedStartOrEnd {
                    got: got@,
                    expected_starts: names_view(expected_starts@),
                    expected_ends: names_view(expected_ends@),
                }
            },
            ParserError::UnexpectedValue(s) => ParserErrorView::UnexpectedValue(s@),
            ParserError::FailedToParseAttribute => ParserErrorView::FailedToParseAttribute,
            ParserError::InvalidValueForAttribute(s) => ParserErrorView::InvalidValueForAttribute(
                s@,
            ),
            ParserError::MissingRequiredAttribute(s) => ParserErrorView::MissingRequiredAttribute(
                s@,
            ),
            ParserError::UnexpectedEof => ParserErrorView::UnexpectedEof,
        }
    }
}

impl BasicEvent {
    /// The shorn-down description of `value`.  A self-closing tag is
    /// reported as a start tag, as it opens the same element.
    pub fn from_event(value: &FilteredEvent) -> (r: BasicEvent)
        ensures
            r@ == value@.basic(),
    {
        match value {
            FilteredEvent::Start(tag) => BasicEvent::Start(tag.name.clone()),
            FilteredEvent::Text(_) => BasicEvent::Text,
            FilteredEvent::End(name) => BasicEvent::End(name.clone()),
            FilteredEvent::AttributesOnly(tag) => BasicEvent::Start(tag.name.clone()),
        }
    }
}

impl ParserError {
    /// A start tag from `expected` was required, but `got` arrived.
    pub fn start(got: BasicEvent, expected: Vec<String>) -> (r: Self)
        ensures
            r@ == (ParserErrorView::ExpectedStart {
                got: got@,
                expected: names_view(expected@),
            }),
    {
        Self::ExpectedStart { got, expected }
    }

    /// An end tag from `expected` was required, but `got` arrived.
    pub fn end(got: BasicEvent, expected: Vec<String>) -> (r: Self)
        ensures
            r@ == (ParserErrorView::ExpectedEnd { got: got@, expected: names_view(expected@) }),
    {
        Self::ExpectedEnd { got, expected }
    }

    /// A start tag from `expected_starts` or an end tag from
    /// `expected_ends` was required, but `got` arrived.
    pub fn start_end(
        got: BasicEvent,
        expected_starts: Vec<String>,
        expected_ends: Vec<String>,
    ) -> (r: Self)
        ensures
            r@ == (ParserErrorView::ExpectedStartOrEnd {
                got: got@,
                expected_starts: names_view(expected_starts@),
                expected_ends: names_view(expected_ends@),
            }),
    {
        Self::ExpectedStartOrEnd { got, expected_starts, expected_ends }
    }
}

} // verus!
