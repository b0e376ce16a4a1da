//! The events of an XML document, as a pull tokenizer reads them.

use vstd::prelude::*;
use xml::reader::XmlEvent as RawEvent;

verus! {

/// One attribute of a start tag.
pub struct Attribute {
    pub name: String,
    pub value: String,
}

/// One event of the tokenizer.
pub enum XmlToken {
    /// A start tag with its attributes.
    Start { name: String, attrs: Vec<Attribute> },
    /// An end tag.
    End { name: String },
    /// Character data, white space included.
    Text(String),
    /// The end of the document.
    EndDocument,
    /// Anything else (declaration, processing instruction, CDATA): it carries nothing used here.
    Other,
    /// The tokenizer stopped on malformed input, with its message.
    Error(String),
}

/// Whether a token ends a run of sibling nodes.
pub open spec fn is_stop(t: XmlToken) -> bool {
    t is End || t is EndDocument || t is Error
}

/// The events that the tokenizer reads from `bytes`.
pub uninterp spec fn xml_events(bytes: Seq<u8>) -> Seq<XmlToken>;

/// Relies on xml-rs's `EventReader`, set to report white space as characters and to skip
/// comments: each event it reads from `bytes`, up to and including the end of the document or
/// the first error, converted one for one.
#[verifier::external_body]
pub(crate) fn read_events(bytes: &[u8]) -> (r: Vec<XmlToken>)
    ensures
        r@ == xml_events(bytes@),
{
    let config = xml::reader::ParserConfig::new().whitespace_to_characters(true).ignore_comments(true);
    let mut out = Vec::new();
    for ev in config.create_reader(bytes) {
        out.push(match ev {
            Ok(RawEvent::StartElement { name, attributes, .. }) => XmlToken::Start { name: name.to_string(),
                attrs: attributes.into_iter().map(|a| Attribute { name: a.name.to_string(), value: a.value }).collect() },
            Ok(RawEvent::EndElement { name }) => XmlToken::End { name: name.to_string() },
            Ok(RawEvent::Characters(s)) => XmlToken::Text(s),
            Ok(RawEvent::EndDocument) => XmlToken::EndDocument,
            Ok(_) => XmlToken::Other,
            Err(e) => XmlToken::Error(e.to_string()),
        });
    }
    out
}

} // verus!
