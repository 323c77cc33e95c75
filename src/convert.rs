use vstd::prelude::*;
use quick_xml::events::Event::{End, Eof, Start, Text};
use crate::assemble::{document, empty_document, empty_document_node};
use crate::engine::{run, Status};
use crate::event::{Tag, XmlEvent};
use crate::tree::{Node, Tree};

verus! {

/// The events that quick-xml reads from a text, with text trimmed and empty
/// elements expanded, up to the end of input; `None` when it reports an error.
pub uninterp spec fn xml_events(s: Seq<char>) -> Option<Seq<XmlEvent>>;

/// Relies on quick-xml's `Reader::from_str` and `Reader::read_event` (with
/// `trim_text` and `expand_empty_elements` set): the events depend on the text
/// alone, and reading ends at `Eof` or at the first error. Start tags keep
/// their well-formed attributes (`Attributes` through `flatten`), decoded by
/// `String::from_utf8_lossy`; text is unescaped by `BytesText::unescape`. End
/// tags are taken without their name; comments, declarations and CDATA are
/// passed over.
#[verifier::external_body]
fn read_events(xml: &str) -> (r: Option<Vec<XmlEvent>>)
    ensures
        r matches Some(v) ==> xml_events(xml@) == Some(v@),
        r is None ==> xml_events(xml@) is None,
{
    let mut reader = quick_xml::Reader::from_str(xml);
    reader.config_mut().trim_text(true);
    reader.config_mut().expand_empty_elements = true;
    let txt = |b: &[u8]| String::from_utf8_lossy(b).into_owned();
    let mut out = Vec::new();
    loop {
        out.push(match reader.read_event().ok()? {
            Start(e) => XmlEvent::Start(Tag { name: txt(e.name().0), attrs: e.attributes().flatten().map(|a| (txt(a.key.0), txt(&a.value))).collect() }),
            End(_) => XmlEvent::End,
            Text(t) => XmlEvent::Text(t.unescape().unwrap_or_default().into_owned()),
            Eof => return Some(out),
            _ => continue,
        });
    }
}

/// The tree for a read event stream, or the empty document when reading failed.
pub open spec fn convert_spec(events: Option<Seq<XmlEvent>>) -> Tree {
    match events {
        Some(e) => document(run(e)),
        None => empty_document(),
    }
}

/// Builds the output tree from an event stream.
pub fn convert_events(events: &Vec<XmlEvent>) -> (r: Node)
    ensures
        r.tree() == document(run(events@)),
{
    let st = Status::scan(events);
    st.document()
}

/// Converts a status document to its output tree. Malformed input gives the
/// empty document `{ vmix: {} }`.
pub fn parse(xml: &str) -> (r: Node)
    ensures
        r.tree() == convert_spec(xml_events(xml@)),
        xml_events(xml@) is None ==> r.tree() == empty_document(),
{
    match read_events(xml) {
        Some(events) => convert_events(&events),
        None => empty_document_node(),
    }
}

} // verus!
