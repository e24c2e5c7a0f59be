//! XML events of a translation file, read with `quick_xml`.

use vstd::prelude::*;
use quick_xml::events::Event;
use quick_xml::reader::Reader;

verus! {

#[verifier::external_type_specification]
#[verifier::external_body]
#[verifier::reject_recursive_types(R)]
pub struct ExXmlReader<R>(Reader<R>);

/// One attribute of a start tag: its key and raw value, or `None` when
/// the attribute is malformed.
pub type RawAttribute = Option<(Vec<u8>, Vec<u8>)>;

/// An XML event, reduced to what a translation file needs.
pub enum XmlEvent {
    /// A start tag: its name and its attributes in order.
    Start(Vec<u8>, Vec<RawAttribute>),
    /// Character data, unescaped, or `None` when an escape is invalid.
    Text(Option<String>),
    /// An end tag and its name.
    End(Vec<u8>),
    /// The end of the document.
    Eof,
    /// A syntax error; reading stops here.
    Fault,
    /// Any other event (comments, declarations, empty elements, ...).
    Other,
}

/// The mathematical value of an attribute.
pub type AttributeView = Option<(Seq<u8>, Seq<u8>)>;

/// The mathematical value of an `XmlEvent`.
pub enum XmlEventView {
    Start(Seq<u8>, Seq<AttributeView>),
    Text(Option<Seq<char>>),
    End(Seq<u8>),
    Eof,
    Fault,
    Other,
}

/// The value of one attribute.
pub open spec fn attribute_view(a: RawAttribute) -> AttributeView {
    match a {
        Some((k, v)) => Some((k@, v@)),
        None => None,
    }
}

impl View for XmlEvent {
    type V = XmlEventView;

    open spec fn view(&self) -> XmlEventView {
        match self {
            XmlEvent::Start(n, attrs) => XmlEventView::Start(
                n@,
                attribute_views(attrs@),
            ),
            XmlEvent::Text(t) => XmlEventView::Text(
                match t {
                    Some(s) => Some(s@),
                    None => None,
                },
            ),
            XmlEvent::End(n) => XmlEventView::End(n@),
            XmlEvent::Eof => XmlEventView::Eof,
            XmlEvent::Fault => XmlEventView::Fault,
            XmlEvent::Other => XmlEventView::Other,
        }
    }
}

/// The values of a sequence of attributes.
pub open spec fn attribute_views(attrs: Seq<RawAttribute>) -> Seq<AttributeView> {
    Seq::new(attrs.len(), |i: int| attribute_view(attrs[i]))
}

/// The values of a sequence of events.
pub open spec fn event_views(events: Seq<XmlEvent>) -> Seq<XmlEventView> {
    Seq::new(events.len(), |i: int| events[i]@)
}

/// Reading stops at this event.
pub open spec fn is_terminal(e: XmlEventView) -> bool {
    e is Eof || e is Fault
}

/// The event that `quick_xml`'s `read_event`, called for the `(index+1)`-th
/// time on a reader made by `Reader::from_str(source)` with text trimming
/// on, returns (as converted here). Reading is deterministic, so this
/// depends on the source and the index alone.
pub uninterp spec fn xml_event_at(source: Seq<char>, index: nat) -> XmlEventView;

/// A reader over a document, with the document and the number of events
/// read so far.
pub struct XmlCursor<'a> {
    reader: Reader<&'a [u8]>,
    source: Ghost<Seq<char>>,
    position: Ghost<nat>,
}

impl<'a> View for XmlCursor<'a> {
    type V = (Seq<char>, nat);

    closed spec fn view(&self) -> (Seq<char>, nat) {
        (self.source@, self.position@)
    }
}

/// Calls `Reader::from_str` and turns on text trimming (`trim_text(true)`):
/// the cursor reads `content` from its first event.
#[verifier::external_body]
pub(crate) fn xml_open(content: &str) -> (r: XmlCursor<'_>)
    ensures
        r@ == (content@, 0nat),
{
    let mut reader = Reader::from_str(content);
    reader.config_mut().trim_text(true);
    XmlCursor { reader, source: Ghost(content@), position: Ghost(0) }
}

/// Calls `Reader::read_event` once and converts the event: tag names and
/// attribute keys and values as raw bytes, text unescaped with
/// `BytesText::unescape`. The result is the next event of the document.
#[verifier::external_body]
pub(crate) fn xml_next(cursor: &mut XmlCursor) -> (r: XmlEvent)
    ensures
        r@ == xml_event_at(old(cursor)@.0, old(cursor)@.1),
        final(cursor)@ == (old(cursor)@.0, old(cursor)@.1 + 1),
{
    match cursor.reader.read_event() {
        Ok(Event::Start(e)) => XmlEvent::Start(e.name().as_ref().to_vec(), e.attributes().map(
            |a| a.ok().map(|a| (a.key.as_ref().to_vec(), a.value.to_vec())),
        ).collect()),
        Ok(Event::Text(e)) => XmlEvent::Text(e.unescape().ok().map(|t| t.into_owned())),
        Ok(Event::End(e)) => XmlEvent::End(e.name().as_ref().to_vec()),
        Ok(Event::Eof) => XmlEvent::Eof,
        Ok(_) => XmlEvent::Other,
        Err(_) => XmlEvent::Fault,
    }
}

/// Calls `String::from_utf8`, which std documents as succeeding exactly on
/// valid UTF-8 and then holding the decoded characters.
#[verifier::external_body]
pub(crate) fn utf8_string(bytes: Vec<u8>) -> (r: Option<String>)
    ensures
        r is Some <==> vstd::utf8::valid_utf8(bytes@),
        r matches Some(s) ==> s@ == vstd::utf8::decode_utf8(bytes@),
{
    String::from_utf8(bytes).ok()
}

} // verus!
