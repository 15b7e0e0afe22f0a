use vstd::prelude::*;

use quick_xml::events::Event;

use crate::error::Error;
use crate::events::{ElementAttrs, XmlEvent};

verus! {

#[verifier::external_type_specification]
#[verifier::external_body]
pub struct ExBytesStart<'a>(quick_xml::events::BytesStart<'a>);

#[verifier::external_type_specification]
#[verifier::external_body]
pub struct ExBytesEnd<'a>(quick_xml::events::BytesEnd<'a>);

/// What tokenizing a document yields: the element events, or the message
/// of the first read error. The XML grammar takes pages to state, but the
/// result depends on the text alone, so it is given a name rather than a
/// definition; nothing below says what the name is on given values.
pub uninterp spec fn xml_tokens_of(s: Seq<char>) -> Result<Seq<XmlEvent>, Seq<char>>;

/// Relies on quick_xml::events::BytesStart::local_name: the element's name
/// without its namespace prefix.
#[verifier::external_body]
fn local_name(e: &quick_xml::events::BytesStart) -> (r: String) {
    e.local_name().as_ref().to_owned()
}

/// Relies on quick_xml::events::BytesEnd::local_name: the closed element's
/// name without its namespace prefix.
#[verifier::external_body]
fn end_name(e: &quick_xml::events::BytesEnd) -> (r: String) {
    e.local_name().as_ref().to_owned()
}

/// Relies on quick_xml::events::BytesStart::try_get_attribute to find the
/// attribute and on quick_xml::events::attributes::Attribute::normalized_value
/// to decode its escapes; absent or undecodable attributes are `None`.
#[verifier::external_body]
fn attr_value(e: &quick_xml::events::BytesStart, key: &str) -> (r: Option<String>) {
    match e.try_get_attribute(key) {
        Ok(Some(a)) => match a.normalized_value(quick_xml::XmlVersion::Implicit1_0) {
            Ok(v) => Some(v.into_owned()),
            Err(_) => None,
        },
        _ => None,
    }
}

/// The attributes this engine consumes, read off an opened element.
fn read_attrs(e: &quick_xml::events::BytesStart) -> ElementAttrs {
    ElementAttrs {
        id: attr_value(e, "id"),
        name: attr_value(e, "name"),
        attached_to_ref: attr_value(e, "attachedToRef"),
        target_ref: attr_value(e, "targetRef"),
        source_ref: attr_value(e, "sourceRef"),
        default: attr_value(e, "default"),
    }
}

/// Relies on quick_xml::Reader::from_str and Reader::read_event, flattening
/// each start, empty, end and text event through the wrappers above and
/// dropping declarations, comments and the like; a read error is carried
/// over as its message. The text alone decides the outcome, which is what
/// `xml_tokens_of` names.
#[verifier::external_body]
fn tokenize(s: &str) -> (r: Result<Vec<XmlEvent>, Error>)
    ensures
        match r {
            Ok(v) => xml_tokens_of(s@) matches Ok(w) && v@ == w,
            Err(e) => xml_tokens_of(s@) matches Err(m) && (e matches Error::File(msg) && msg@
                == m),
        },
{
    let mut reader = quick_xml::Reader::from_str(s);
    let mut out = Vec::new();
    loop {
        match reader.read_event() {
            Ok(Event::Start(e)) => out.push(XmlEvent::Open(local_name(&e), read_attrs(&e))),
            Ok(Event::Empty(e)) => out.push(XmlEvent::Solitary(local_name(&e), read_attrs(&e))),
            Ok(Event::End(e)) => out.push(XmlEvent::Close(end_name(&e))),
            Ok(Event::Text(t)) => out.push(XmlEvent::Content(t.into_inner().into_owned())),
            Ok(Event::Eof) => return Ok(out),
            Ok(_) => {}
            Err(e) => return Err(Error::File(e.to_string())),
        }
    }
}

/// Tokenize a whole document into plain element events. Equal text yields
/// equal events: the outcome is `xml_tokens_of` the text.
pub fn parse_events(s: &str) -> (r: Result<Vec<XmlEvent>, Error>)
    ensures
        match r {
            Ok(v) => xml_tokens_of(s@) matches Ok(w) && v@ == w,
            Err(e) => xml_tokens_of(s@) matches Err(m) && (e matches Error::File(msg) && msg@
                == m),
        },
{
    tokenize(s)
}

} // verus!
