//! Namespace-resolved XML parse events, as the decoders read them.

use vstd::prelude::*;
use crate::text::same_text;
use xml::reader::XmlEvent;

verus! {

/// The CalDAV namespace.
pub const CALDAV_NS: &'static str = "urn:ietf:params:xml:ns:caldav";

/// The WebDAV namespace.
pub const DAV_NS: &'static str = "DAV:";

/// One event of an XML reader.
#[derive(Debug)]
pub enum XmlItem {
    /// An element opens; `attributes` holds (local name, value) pairs in document order.
    Start { namespace: Option<String>, local_name: String, attributes: Vec<(String, String)> },
    /// An element closes.
    End { namespace: Option<String>, local_name: String },
    /// A run of character data.
    Text(String),
    /// The document is malformed at this point; no further event is read.
    Malformed,
    /// Any other event (document start and end, comments, white space, ...).
    Other,
}

/// The namespace of an element, where an element without one has the empty namespace.
pub open spec fn ns_of(namespace: Option<String>) -> Seq<char> {
    match namespace {
        Some(s) => s@,
        None => Seq::empty(),
    }
}

/// Whether `(namespace, local_name)` names the element `want_ns`:`want`.
pub open spec fn names(namespace: Option<String>, local_name: String, want_ns: &str, want: &str) -> bool {
    ns_of(namespace) == want_ns@ && local_name@ == want@
}

/// Whether the element `(namespace, local_name)` is `want_ns`:`want`.
pub fn is_named(namespace: &Option<String>, local_name: &String, want_ns: &str, want: &str) -> (r: bool)
    ensures
        r == names(*namespace, *local_name, want_ns, want),
{
    let ns_ok = match namespace {
        Some(s) => same_text(s.as_str(), want_ns),
        None => {
            let empty = want_ns.unicode_len() == 0;
            if empty {
                assert(want_ns@ =~= Seq::<char>::empty());
            }
            empty
        },
    };
    ns_ok && same_text(local_name.as_str(), want)
}

/// What an XML reader yields on `text`, event by event, up to and including the
/// end of the document or the first error.
pub uninterp spec fn xml_events_of(text: Seq<char>) -> Seq<XmlItem>;

/// Relies on xml-rs's `EventReader` and its event iterator, which yields the
/// namespace-resolved events of `text` and stops after the end of the document
/// or after the first error.
#[verifier::external_body]
pub(crate) fn read_xml_events(text: &str) -> (r: Vec<XmlItem>)
    ensures
        r@ == xml_events_of(text@),
{
    xml::EventReader::new(text.as_bytes()).into_iter().map(|e| match e {
        Ok(XmlEvent::StartElement { name, attributes, .. }) => XmlItem::Start {
            namespace: name.namespace,
            local_name: name.local_name,
            attributes: attributes.into_iter().map(|a| (a.name.local_name, a.value)).collect(),
        },
        Ok(XmlEvent::EndElement { name }) => XmlItem::End { namespace: name.namespace, local_name: name.local_name },
        Ok(XmlEvent::Characters(data)) => XmlItem::Text(data),
        Ok(_) => XmlItem::Other,
        Err(_) => XmlItem::Malformed,
    }).collect()
}

} // verus!
