//! The classified events that drive the parser.
//!
//! An external tokenizer produces raw XML tokens; the classifier narrows
//! them to the four kinds the schema cares about — start tag, end tag,
//! self-closing tag and text — and discards declarations, comments and
//! whitespace-only text.  Tag names and attribute values arrive here as
//! plain strings, so everything past the tokenizer is ordinary data.

use vstd::prelude::*;
use vstd::string::StrSliceExecFns;

verus! {

/// An opened tag: its name and its attributes in document order.
#[derive(Debug, Clone, PartialEq)]
pub struct Tag {
    pub name: String,
    pub attrs: Vec<(String, String)>,
}

/// Mathematical value of a [`Tag`].
#[verifier::ext_equal]
pub struct TagView {
    pub name: Seq<char>,
    pub attrs: Seq<(Seq<char>, Seq<char>)>,
}

impl View for Tag {
    type V = TagView;

    open spec fn view(&self) -> TagView {
        TagView {
            name: self.name@,
            attrs: self.attrs@.map_values(|p: (String, String)| (p.0@, p.1@)),
        }
    }
}

/// A classified XML event, the parser's only input.
#[derive(Debug, Clone, PartialEq)]
pub enum FilteredEvent {
    /// `<name attr="value">`.
    Start(Tag),
    /// Character data between tags, as it stood in the source.
    Text(String),
    /// `</name>`.
    End(String),
    /// `<name attr="value"/>`: attributes but no children.
    AttributesOnly(Tag),
}

/// Mathematical value of a [`FilteredEvent`].
#[verifier::ext_equal]
pub enum EventView {
    Start(TagView),
    Text(Seq<char>),
    End(Seq<char>),
    AttributesOnly(TagView),
}

impl EventView {
    /// The shorn-down description an error reports for this event.
    pub open spec fn basic(self) -> crate::error::BasicEventView {
        match self {
            EventView::Start(tag) => crate::error::BasicEventView::Start(tag.name),
            EventView::Text(_) => crate::error::BasicEventView::Text,
            EventView::End(name) => crate::error::BasicEventView::End(name),
            EventView::AttributesOnly(tag) => crate::error::BasicEventView::Start(tag.name),
        }
    }
}

impl View for FilteredEvent {
    type V = EventView;

    open spec fn view(&self) -> EventView {
        match self {
            FilteredEvent::Start(tag) => EventView::Start(tag@),
            FilteredEvent::Text(s) => EventView::Text(s@),
            FilteredEvent::End(name) => EventView::End(name@),
            FilteredEvent::AttributesOnly(tag) => EventView::AttributesOnly(tag@),
        }
    }
}

/// An ASCII whitespace character, as a tokenizer's trimming sees it.
pub open spec fn is_ascii_ws(c: char) -> bool {
    c == ' ' || c == '\t' || c == '\n' || c == '\r' || c == '\u{c}'
}

/// Text made of whitespace alone carries no payload.
pub open spec fn ws_only(s: Seq<char>) -> bool {
    forall|i: int| 0 <= i < s.len() ==> is_ascii_ws(#[trigger] s[i])
}

/// Decides whether the text is whitespace alone.
pub fn is_ws_only(s: &str) -> (r: bool)
    ensures
        r == ws_only(s@),
{
    let n = s.unicode_len();
    let mut i: usize = 0;
    while i < n
        invariant
            0 <= i <= n,
            n == s@.len(),
            forall|j: int| 0 <= j < i ==> is_ascii_ws(#[trigger] s@[j]),
        decreases n - i,
    {
        let c = s.get_char(i);
        if !(c == ' ' || c == '\t' || c == '\n' || c == '\r' || c == '\u{c}') {
            proof {
                assert(!is_ascii_ws(s@[i as int]));
            }
            return false;
        }
        i += 1;
    }
    true
}

} // verus!
