//! The trusted boundary to the event source: the lexical XML tokenizer of
//! the `xml` crate.
//!
//! The tokenizer reads the byte slice alone — no file, clock or
//! environment — so the event stream it produces is a function of the
//! bytes; [`events_of`] names that stream, up to and including its first
//! document end or failure.  What each event holds beyond that is not
//! restated here: the decoder is verified to handle every value.

use vstd::prelude::*;

use crate::events::Attr;
use crate::events::Event;

verus! {

/// Holds the `xml` crate's pull-based event reader over a byte slice; its
/// internals stay opaque to the verifier.
#[verifier::external_body]
pub struct EventSource<'a> {
    reader: xml::reader::EventReader<&'a [u8]>,
}

/// The event stream the tokenizer produces for `data`, up to and
/// including the first document end or failure.  The tokenizer reads the
/// byte slice alone, so the stream is a function of `data`.
pub uninterp spec fn events_of(data: Seq<u8>) -> Seq<Event>;

/// The events a source has yet to produce, up to and including the first
/// document end or failure.
pub uninterp spec fn remaining_events(source: EventSource) -> Seq<Event>;

/// Whether an event closes the stream.  The tokenizer keeps returning
/// the document end, or its failure, once it has produced one, so no
/// event follows either.
pub open spec fn is_terminal_event(ev: Event) -> bool {
    ev is DocumentEnd || ev is SourceError
}

/// The shape of a whole tokenizer stream: finite text yields at least
/// one event, and exactly the last one is a document end or a failure.
pub open spec fn stream_wf(evs: Seq<Event>) -> bool {
    &&& evs.len() > 0
    &&& is_terminal_event(evs.last())
    &&& forall|k: int| 0 <= k < evs.len() - 1 ==> !is_terminal_event(#[trigger] evs[k])
}

/// Relies on xml::reader::EventReader::new: wraps a byte slice in a fresh
/// tokenizer positioned at the start of the document, so the events it
/// will produce are exactly the stream of those bytes.  The stream's
/// shape rests on the reader's documented behaviour: every pull returns
/// an event, the byte slice is finite, and after the first document end
/// or failure every further pull returns that same event again.
#[verifier::external_body]
pub fn reader_from_bytes<'a>(data: &'a [u8]) -> (r: EventSource<'a>)
    ensures
        remaining_events(r) == events_of(data@),
        stream_wf(remaining_events(r)),
{
    EventSource { reader: xml::reader::EventReader::new(data) }
}

/// Relies on xml::reader::EventReader::next: pulls the next lexical
/// event — the head of the source's remaining stream, which it consumes.
/// Element and attribute names are taken from their local part, as the
/// schema is namespace-free.  Document declarations, processing
/// instructions, text, CDATA, comments and doctype markup all become
/// [`Event::Other`], which the decoder ignores.
#[verifier::external_body]
pub fn next_event<'a>(source: &mut EventSource<'a>) -> (ev: Event)
    ensures
        remaining_events(*old(source)).len() > 0 ==> {
            &&& ev == remaining_events(*old(source))[0]
            &&& remaining_events(*final(source)) == remaining_events(*old(source)).skip(1)
        },
{
    match source.reader.next() {
        Ok(xml::reader::XmlEvent::StartElement { name, attributes, .. }) => Event::ElementStart {
            name: name.local_name,
            attrs: attributes
                .into_iter()
                .map(|a| Attr { key: a.name.local_name, value: a.value })
                .collect(),
        },
        Ok(xml::reader::XmlEvent::EndElement { name }) => Event::ElementEnd {
            name: name.local_name,
        },
        Ok(xml::reader::XmlEvent::EndDocument) => Event::DocumentEnd,
        Ok(_) => Event::Other,
        Err(e) => Event::SourceError { message: e.to_string() },
    }
}

} // verus!
