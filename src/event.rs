use vstd::prelude::*;

verus! {

/// A start tag: the element's name and its attributes in source order.
#[derive(Debug, Clone, PartialEq, Eq)]
pub struct Tag {
    pub name: String,
    pub attrs: Vec<(String, String)>,
}

/// One event of the XML event stream. An end tag carries no name: the path
/// tracker closes the innermost open element whatever the tag says. An empty element `<a/>` arrives as a
/// start event followed by an end event.
#[derive(Debug, Clone, PartialEq, Eq)]
pub enum XmlEvent {
    Start(Tag),
    End,
    Text(String),
}

} // verus!
