//! Trusted interface to the quick-xml tag parser: the event reader over one
//! in-memory fragment, and text unescaping. Everything the record state
//! machine consumes is reduced here to plain values.

use vstd::prelude::*;

verus! {

#[verifier::external_type_specification]
#[verifier::external_body]
#[verifier::reject_recursive_types(R)]
pub struct ExReader<R>(quick_xml::reader::Reader<R>);

/// One tag event, reduced to plain values: a start or end tag with its
/// qualified name, a text node with its raw (still escaped) content, any
/// other event kind, a tolerated parse fault, or end of input.
pub enum XmlEvent {
    Start(Vec<u8>),
    End(Vec<u8>),
    Text(Vec<u8>),
    Other,
    Fault,
    Eof,
}

/// The ghost counterpart of one event.
pub enum EventV {
    Start(Seq<u8>),
    End(Seq<u8>),
    Text(Seq<u8>),
    Other,
    Fault,
    Eof,
}

impl View for XmlEvent {
    type V = EventV;

    open spec fn view(&self) -> EventV {
        match self {
            XmlEvent::Start(n) => EventV::Start(n@),
            XmlEvent::End(n) => EventV::End(n@),
            XmlEvent::Text(t) => EventV::Text(t@),
            XmlEvent::Other => EventV::Other,
            XmlEvent::Fault => EventV::Fault,
            XmlEvent::Eof => EventV::Eof,
        }
    }
}

/// The events the tag parser yields over a document's bytes, in order,
/// exclusive of the final end-of-input event.
pub uninterp spec fn xml_events_of(doc: Seq<u8>) -> Seq<EventV>;

/// What decoding and entity-unescaping a text node's raw bytes yields, or
/// `None` where the bytes cannot be decoded or hold a bad escape.
pub uninterp spec fn unescaped_of(raw: Seq<u8>) -> Option<Seq<char>>;

/// The tag parser's cursor over one fragment.
pub(crate) struct EventStream<'a> {
    reader: quick_xml::reader::Reader<&'a [u8]>,
    doc: Ghost<Seq<u8>>,
    next: Ghost<int>,
}

impl<'a> EventStream<'a> {
    /// The fragment this stream reads.
    pub closed spec fn doc(self) -> Seq<u8> {
        self.doc@
    }

    /// How many events have been taken so far.
    pub closed spec fn pos(self) -> int {
        self.next@
    }
}

/// Relies on quick_xml::reader::Reader::from_reader over a byte slice.
/// End-tag name checking is switched off, as the source stream's end tags
/// may carry inconsistently cased prefixes that must not abort a parse.
#[verifier::external_body]
pub(crate) fn event_stream_new<'a>(doc: &'a [u8]) -> (s: EventStream<'a>)
    ensures
        s.doc() == doc@,
        s.pos() == 0,
{
    let mut reader = quick_xml::reader::Reader::from_reader(doc);
    reader.check_end_names(false);
    EventStream { reader, doc: Ghost(Seq::empty()), next: Ghost(0) }
}

/// Relies on quick_xml::reader::Reader::read_event over a byte slice: the
/// events depend on the slice's bytes alone, and end of input is reported
/// exactly once the events are exhausted. Start, End and Text events keep
/// their qualified name or raw content; every other event kind becomes
/// `Other`, and a reported syntax error becomes `Fault`. With end-tag
/// checking off, mismatched end tags raise no error at all; after a true
/// syntax error this reader ends the stream, so a `Fault` is at most the
/// event sequence's last element before end of input.
#[verifier::external_body]
pub(crate) fn event_stream_next(s: &mut EventStream) -> (ev: XmlEvent)
    ensures
        final(s).doc() == old(s).doc(),
        final(s).pos() == old(s).pos() + 1,
        (ev is Eof) <==> !(0 <= old(s).pos() < xml_events_of(old(s).doc()).len()),
        !(ev is Eof) ==> ev@ == xml_events_of(old(s).doc())[old(s).pos()],
{
    match s.reader.read_event() {
        Ok(quick_xml::events::Event::Start(e)) => XmlEvent::Start(e.name().into_inner().to_vec()),
        Ok(quick_xml::events::Event::End(e)) => XmlEvent::End(e.name().into_inner().to_vec()),
        Ok(quick_xml::events::Event::Text(e)) => XmlEvent::Text(e.into_inner().into_owned()),
        Ok(quick_xml::events::Event::Eof) => XmlEvent::Eof,
        Ok(_) => XmlEvent::Other,
        Err(_) => XmlEvent::Fault,
    }
}

/// Relies on quick_xml::escape::unescape, applied to the UTF-8 decoding of a
/// text node's raw bytes (the same two steps BytesText::unescape performs):
/// the result depends on the bytes alone; `None` where decoding or
/// unescaping fails.
#[verifier::external_body]
pub(crate) fn unescape_text(raw: &[u8]) -> (r: Option<String>)
    ensures
        r is Some <==> unescaped_of(raw@) is Some,
        r matches Some(s) ==> unescaped_of(raw@) == Some(s@),
{
    match core::str::from_utf8(raw) {
        Ok(s) => match quick_xml::escape::unescape(s) {
            Ok(t) => Some(t.into_owned()),
            Err(_) => None,
        },
        Err(_) => None,
    }
}

} // verus!
