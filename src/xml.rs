//! The tag stream of a record unit, as read by quick-xml.
use quick_xml::events::Event;
use vstd::prelude::*;
use vstd::string::StringSliceAdditionalSpecFns;

verus! {

/// A start or empty-element tag: its name and its raw attribute text.
#[derive(Debug)]
pub struct OpenTag {
    pub name: String,
    pub attributes: String,
}

/// One event of the tag stream. Text, comments, declarations and the like are
/// all `Other`.
#[derive(Debug)]
pub enum XmlTag {
    Start(OpenTag),
    Empty(OpenTag),
    End(String),
    Other,
}

/// What a tag holds, as character sequences.
pub enum TagView {
    Start(Seq<char>, Seq<char>),
    Empty(Seq<char>, Seq<char>),
    End(Seq<char>),
    Other,
}

impl View for XmlTag {
    type V = TagView;

    open spec fn view(&self) -> TagView {
        match self {
            XmlTag::Start(t) => TagView::Start(t.name@, t.attributes@),
            XmlTag::Empty(t) => TagView::Empty(t.name@, t.attributes@),
            XmlTag::End(n) => TagView::End(n@),
            XmlTag::Other => TagView::Other,
        }
    }
}

pub open spec fn tags_view(tags: Seq<XmlTag>) -> Seq<TagView> {
    tags.map_values(|t: XmlTag| t@)
}

/// The tags of a text, in order, up to its end or to the first malformed markup.
pub uninterp spec fn xml_tags(text: Seq<u8>) -> Seq<TagView>;

#[verifier::external_type_specification]
#[verifier::external_body]
#[verifier::reject_recursive_types(R)]
pub struct ExReader<R>(quick_xml::reader::Reader<R>);

/// The tags that a reader has yet to yield, in order, up to the end of its input
/// or to the first malformed markup.
pub uninterp spec fn pending_tags(reader: quick_xml::reader::Reader<&[u8]>) -> Seq<TagView>;

/// Relies on quick-xml's `Reader::from_str`: a reader at the start of the text,
/// which will yield the tags of the text.
#[verifier::external_body]
pub(crate) fn open_reader(text: &str) -> (r: quick_xml::reader::Reader<&[u8]>)
    ensures
        pending_tags(r) == xml_tags(text.spec_bytes()),
{
    quick_xml::reader::Reader::from_str(text)
}

/// Relies on quick-xml's `Reader::read_event`: the next event, or `None` at the
/// end of input or on an error.
#[verifier::external_body]
pub(crate) fn next_tag(reader: &mut quick_xml::reader::Reader<&[u8]>) -> (r: Option<XmlTag>)
    ensures
        pending_tags(*old(reader)).len() == 0 ==> r is None,
        pending_tags(*old(reader)).len() > 0 ==> (r matches Some(t) && t@ == pending_tags(*old(reader))[0]
            && pending_tags(*final(reader)) == pending_tags(*old(reader)).drop_first()),
{
    match reader.read_event() {
        Ok(Event::Start(e)) => Some(XmlTag::Start(OpenTag { name: e.name().0.to_string(), attributes: e.attributes_raw().to_string() })),
        Ok(Event::Empty(e)) => Some(XmlTag::Empty(OpenTag { name: e.name().0.to_string(), attributes: e.attributes_raw().to_string() })),
        Ok(Event::End(e)) => Some(XmlTag::End(e.name().0.to_string())),
        Ok(Event::Eof) | Err(_) => None,
        Ok(_) => Some(XmlTag::Other),
    }
}

#[verifier::external_type_specification]
#[verifier::external_body]
pub struct ExAttributes<'a>(quick_xml::events::attributes::Attributes<'a>);

#[verifier::external_type_specification]
#[verifier::external_body]
pub struct ExAttribute<'a>(quick_xml::events::attributes::Attribute<'a>);

#[verifier::external_type_specification]
#[verifier::external_body]
pub struct ExAttrError(quick_xml::events::attributes::AttrError);

/// One item of an attribute text: a `name="value"` pair with its raw value, or
/// a malformed or repeated attribute.
#[derive(Debug)]
pub enum AttrItem {
    Pair(String, String),
    Malformed,
}

impl View for AttrItem {
    type V = Option<(Seq<char>, Seq<char>)>;

    open spec fn view(&self) -> Option<(Seq<char>, Seq<char>)> {
        match self {
            AttrItem::Pair(k, v) => Some((k@, v@)),
            AttrItem::Malformed => None,
        }
    }
}

/// The items of an element's attribute text, in order: `Some` for a well-formed
/// `name="value"` pair (value as written, entities not expanded), `None` for an
/// attribute reported as malformed or repeated.
pub uninterp spec fn xml_attributes(raw: Seq<char>) -> Seq<Option<(Seq<char>, Seq<char>)>>;

/// The attribute items that an attribute iterator has yet to yield, in order.
pub uninterp spec fn pending_attributes(it: quick_xml::events::attributes::Attributes<'_>) -> Seq<Option<(Seq<char>, Seq<char>)>>;

/// Relies on quick-xml's `Attributes::new`: an iterator at the start of the
/// attribute text, which will yield its items.
#[verifier::external_body]
pub(crate) fn open_attributes(raw: &str) -> (r: quick_xml::events::attributes::Attributes<'_>)
    ensures
        pending_attributes(r) == xml_attributes(raw@),
{
    quick_xml::events::attributes::Attributes::new(raw, 0)
}

/// Relies on quick-xml's `Iterator::next` for `Attributes`: the next attribute,
/// an error turned into `Malformed`, or `None` once the text is exhausted.
#[verifier::external_body]
pub(crate) fn next_attribute(it: &mut quick_xml::events::attributes::Attributes<'_>) -> (r: Option<AttrItem>)
    ensures
        pending_attributes(*old(it)).len() == 0 ==> r is None,
        pending_attributes(*old(it)).len() > 0 ==> (r matches Some(a) && a@ == pending_attributes(*old(it))[0]
            && pending_attributes(*final(it)) == pending_attributes(*old(it)).drop_first()),
{
    match it.next() {
        Some(Ok(a)) => Some(AttrItem::Pair(a.key.0.to_string(), a.value.into_owned())),
        Some(Err(_)) => Some(AttrItem::Malformed),
        None => None,
    }
}

} // verus!
