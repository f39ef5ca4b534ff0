//! The boundary to the external XML tokenizer.
//!
//! quick_xml produces raw events over a buffered byte source; everything
//! here narrows them to the plain-value [`FilteredEvent`]s the verified
//! parser consumes.  Only the thin wrappers around quick_xml calls are
//! trusted; the classification itself — which kinds matter, which text is
//! whitespace alone — is verified.

use quick_xml::Reader;
use quick_xml::events::{BytesEnd, BytesStart, BytesText, Event};
use vstd::prelude::*;

verus! {

use crate::error::ParserError;
use crate::events::{FilteredEvent, Tag, is_ws_only, ws_only};
use crate::parser::{Parser, Poll};
use crate::Coverage;

#[verifier::external_type_specification]
#[verifier::external_body]
pub struct ExEvent<'a>(Event<'a>);

#[verifier::external_type_specification]
#[verifier::external_body]
pub struct ExBytesStart<'a>(BytesStart<'a>);

#[verifier::external_type_specification]
#[verifier::external_body]
pub struct ExBytesEnd<'a>(BytesEnd<'a>);

#[verifier::external_type_specification]
#[verifier::external_body]
pub struct ExBytesText<'a>(BytesText<'a>);

#[verifier::external_type_specification]
#[verifier::external_body]
#[verifier::reject_recursive_types(R)]
pub struct ExReader<R>(Reader<R>);

/// A raw tokenizer event, split into the kinds the schema minds.
pub enum EventParts<'a> {
    Start(BytesStart<'a>),
    End(BytesEnd<'a>),
    Empty(BytesStart<'a>),
    Text(BytesText<'a>),
    Eof,
    Ignored,
}

/// Relies on matching quick_xml's `Event` variants, one arm each, moving
/// the carried value.  Declarations, comments, CDATA, processing
/// instructions, doctypes and entity references are outside the schema.
#[verifier::external_body]
fn split_event<'a>(event: Event<'a>) -> EventParts<'a> {
    match event {
        Event::Start(tag) => EventParts::Start(tag),
        Event::End(tag) => EventParts::End(tag),
        Event::Empty(tag) => EventParts::Empty(tag),
        Event::Text(text) => EventParts::Text(text),
        Event::Eof => EventParts::Eof,
        _ => EventParts::Ignored,
    }
}

/// Relies on quick_xml's `BytesStart::name`: the tag's name as it stood in
/// the source.
#[verifier::external_body]
fn start_name(tag: &BytesStart) -> String {
    tag.name().into_inner().to_owned()
}

/// Relies on quick_xml's `BytesEnd::name`: the tag's name as it stood in
/// the source.
#[verifier::external_body]
fn end_name(tag: &BytesEnd) -> String {
    tag.name().into_inner().to_owned()
}

/// Relies on quick_xml's `Attributes` iterator and
/// `Attribute::unescape_value`: each attribute's name and unescaped value,
/// in document order, or `None` when the attribute syntax itself cannot be
/// read.
#[verifier::external_body]
#[allow(deprecated)]
fn collect_attributes(tag: &BytesStart) -> Option<Vec<(String, String)>> {
    let mut out = Vec::new();
    for attribute in tag.attributes() {
        let attribute = attribute.ok()?;
        let value = attribute.unescape_value().ok()?;
        out.push((attribute.key.into_inner().to_owned(), value.into_owned()));
    }
    Some(out)
}

/// Relies on quick_xml's `BytesText` deref to `str`: the text payload as
/// it stood in the source.
#[verifier::external_body]
fn text_content(text: &BytesText) -> String {
    text.as_ref().to_owned()
}

/// Relies on quick_xml's `Reader::read_event_into`: the next raw event
/// from the underlying reader, owned; a tokenizer failure is rendered as
/// its message.
#[verifier::external_body]
fn read_raw_event<R: std::io::BufRead>(reader: &mut Reader<R>) -> Result<Event<'static>, String> {
    let mut buf = Vec::new();
    match reader.read_event_into(&mut buf) {
        Ok(event) => Ok(event.into_owned()),
        Err(e) => Err(format!("{}", e)),
    }
}

/// The text that raw attribute bytes display as.
pub uninterp spec fn utf8_lossy_of(bytes: Seq<u8>) -> Seq<char>;

/// Relies on std's `String::from_utf8_lossy`: the bytes decoded as UTF-8,
/// replacement characters standing in for invalid sequences.  The result
/// depends on the bytes alone, and valid UTF-8 decodes unchanged.
#[verifier::external_body]
fn lossy_string(input: &[u8]) -> (r: String)
    ensures
        r@ == utf8_lossy_of(input@),
        vstd::utf8::valid_utf8(input@) ==> r@ == vstd::utf8::decode_utf8(input@),
{
    String::from_utf8_lossy(input).to_string()
}

/// The text that raw bytes of an attribute or tag name display as.
pub fn utf8_attr(input: &[u8]) -> (r: String)
    ensures
        r@ == utf8_lossy_of(input@),
        vstd::utf8::valid_utf8(input@) ==> r@ == vstd::utf8::decode_utf8(input@),
{
    lossy_string(input)
}

impl FilteredEvent {
    /// Classifies one split tokenizer event.  `None` for events outside
    /// the schema — whitespace-only text, the stream's end, and the kinds
    /// the schema ignores; an error when a tag's attribute syntax cannot
    /// be read.
    fn classify(parts: EventParts<'_>) -> (r: Option<Result<FilteredEvent, ParserError>>)
        ensures
            r matches Some(Ok(FilteredEvent::Text(t))) ==> !ws_only(t@),
    {
        match parts {
            EventParts::Start(tag) => Some(Self::classify_tag(&tag, false)),
            EventParts::Empty(tag) => Some(Self::classify_tag(&tag, true)),
            EventParts::End(tag) => Some(Ok(FilteredEvent::End(end_name(&tag)))),
            EventParts::Text(text) => {
                let payload = text_content(&text);
                if is_ws_only(payload.as_str()) {
                    None
                } else {
                    Some(Ok(FilteredEvent::Text(payload)))
                }
            },
            EventParts::Eof => None,
            EventParts::Ignored => None,
        }
    }

    /// Reads a start or self-closing tag's name and attributes.
    fn classify_tag(tag: &BytesStart<'_>, empty: bool) -> (r: Result<FilteredEvent, ParserError>)
        ensures
            r matches Err(e) ==> e@ == crate::error::ParserErrorView::FailedToParseAttribute,
            r matches Ok(ev) ==> if empty {
                ev is AttributesOnly
            } else {
                ev is Start
            },
    {
        let name = start_name(tag);
        match collect_attributes(tag) {
            Some(attrs) => {
                let t = Tag { name, attrs };
                if empty {
                    Ok(FilteredEvent::AttributesOnly(t))
                } else {
                    Ok(FilteredEvent::Start(t))
                }
            },
            None => Err(ParserError::FailedToParseAttribute),
        }
    }

    /// Narrows one raw tokenizer event to the schema's kinds, or `None`
    /// for the kinds the schema ignores.
    pub fn try_from(event: Event<'_>) -> (r: Option<Result<FilteredEvent, ParserError>>)
        ensures
            r matches Some(Ok(FilteredEvent::Text(t))) ==> !ws_only(t@),
    {
        Self::classify(split_event(event))
    }
}

impl Parser {
    /// Drives the tokenizer to completion: reads raw events, classifies
    /// them, and feeds each to the machine until the document completes
    /// or fails.  The stream ending before the root closes is
    /// `UnexpectedEof`; a tokenizer failure surfaces as `UnexpectedValue`
    /// with its message.  Afterwards the parser is unstarted either way.
    pub fn parse<R: std::io::BufRead>(&mut self, reader: &mut Reader<R>) -> (r: Result<
        Coverage,
        ParserError,
    >)
        requires
            old(self).wf(),
        ensures
            final(self).wf(),
            final(self)@ is None,
    {
        // The bound only makes termination provable: no stream reaches
        // that many events.  The tokenizer's own end-of-input arrives
        // first and reports `UnexpectedEof` below.
        let mut budget: u64 = u64::MAX;
        while budget > 0
            invariant
                self.wf(),
            decreases budget,
        {
            budget = budget - 1;
            let raw = match read_raw_event(reader) {
                Ok(event) => event,
                Err(message) => {
                    self.reset();
                    return Err(ParserError::UnexpectedValue(message));
                },
            };
            let parts = split_event(raw);
            let classified = match parts {
                EventParts::Eof => {
                    self.reset();
                    return Err(ParserError::UnexpectedEof);
                },
                other => FilteredEvent::classify(other),
            };
            match classified {
                None => {},
                Some(Err(e)) => {
                    self.reset();
                    return Err(e);
                },
                Some(Ok(filtered)) => {
                    match self.consume_event(&filtered) {
                        Poll::Ready(result) => {
                            return result;
                        },
                        Poll::Pending => {},
                    }
                },
            }
        }
        self.reset();
        Err(ParserError::UnexpectedEof)
    }
}

} // verus!
