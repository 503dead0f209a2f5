//! A software architecture document as XML: its root element, and for each
//! record element (a component, a view packet, ...) its attributes, its text
//! and its child elements with their text. Parsing is `xmltree`'s.

use vstd::prelude::*;

verus! {

/// A child node of a record element: an element with its name and its text
/// (`get_text`: its text and CDATA children, joined; `None` when it has
/// none), or a node of another kind.
pub enum XmlField {
    Element { name: String, text: Option<String> },
    Other,
}

/// A record element: its name, its attributes (no name twice), its text and
/// its child nodes.
pub struct XmlItem {
    pub name: String,
    pub attributes: Vec<(String, String)>,
    pub text: Option<String>,
    pub fields: Vec<XmlField>,
}

/// A child node of the root element.
pub enum XmlNode {
    Item(XmlItem),
    Other,
}

/// A parsed document: the root element's name and its child nodes.
pub struct XmlDocument {
    pub name: String,
    pub items: Vec<XmlNode>,
}

/// An XML document that `xmltree` could not parse.
#[verifier::external_type_specification]
#[verifier::external_body]
pub struct ExXmlParseError(xmltree::ParseError);

pub enum XmlFieldView {
    Element { name: Seq<char>, text: Option<Seq<char>> },
    Other,
}

pub struct XmlItemView {
    pub name: Seq<char>,
    pub attributes: Map<Seq<char>, Seq<char>>,
    pub text: Option<Seq<char>>,
    pub fields: Seq<XmlFieldView>,
}

pub enum XmlNodeView {
    Item(XmlItemView),
    Other,
}

pub struct XmlDocumentView {
    pub name: Seq<char>,
    pub items: Seq<XmlNodeView>,
}

/// The view of an optional text.
pub open spec fn opt_view(t: Option<String>) -> Option<Seq<char>> {
    match t {
        Some(s) => Some(s@),
        None => None,
    }
}

/// The attributes as a map from name to value.
pub open spec fn attribute_map(attrs: Seq<(String, String)>) -> Map<Seq<char>, Seq<char>>
    decreases attrs.len(),
{
    if attrs.len() == 0 {
        Map::empty()
    } else {
        attribute_map(attrs.drop_last()).insert(attrs.last().0@, attrs.last().1@)
    }
}

/// No attribute name occurs twice.
pub open spec fn distinct_names(attrs: Seq<(String, String)>) -> bool {
    forall|i: int, j: int| 0 <= i < j < attrs.len() ==> attrs[i].0@ != attrs[j].0@
}

impl View for XmlField {
    type V = XmlFieldView;

    open spec fn view(&self) -> XmlFieldView {
        match self {
            XmlField::Element { name, text } => XmlFieldView::Element { name: name@, text: opt_view(*text) },
            XmlField::Other => XmlFieldView::Other,
        }
    }
}

impl View for XmlItem {
    type V = XmlItemView;

    open spec fn view(&self) -> XmlItemView {
        XmlItemView {
            name: self.name@,
            attributes: attribute_map(self.attributes@),
            text: opt_view(self.text),
            fields: self.fields@.map_values(|f: XmlField| f@),
        }
    }
}

impl View for XmlNode {
    type V = XmlNodeView;

    open spec fn view(&self) -> XmlNodeView {
        match self {
            XmlNode::Item(i) => XmlNodeView::Item(i@),
            XmlNode::Other => XmlNodeView::Other,
        }
    }
}

impl View for XmlDocument {
    type V = XmlDocumentView;

    open spec fn view(&self) -> XmlDocumentView {
        XmlDocumentView { name: self.name@, items: self.items@.map_values(|n: XmlNode| n@) }
    }
}

impl XmlDocument {
    /// Every record element has distinct attribute names.
    pub open spec fn wf(&self) -> bool {
        forall|i: int|
            0 <= i < self.items@.len() ==> (#[trigger] self.items@[i] matches XmlNode::Item(item)
                ==> distinct_names(item.attributes@))
    }
}

/// The document that `xmltree` reads from `bytes`, or `None` where it
/// reports an error.
pub uninterp spec fn parsed_xml(bytes: Seq<u8>) -> Option<XmlDocumentView>;

/// Parses `bytes` with `xmltree::Element::parse` and keeps of the result what
/// a document's records hold: the root's name, and for each child element
/// its name, its attributes (a map, so distinct names), its text
/// (`get_text`) and each child element's name and text (`get_text`). The
/// order in which the attributes come out is the attribute map's, which is
/// not fixed; the view forgets it.
#[verifier::external_body]
pub(crate) fn parse_xml(bytes: &[u8]) -> (r: Result<XmlDocument, xmltree::ParseError>)
    ensures
        r matches Ok(d) ==> parsed_xml(bytes@) == Some(d@) && d.wf(),
        r is Err ==> parsed_xml(bytes@) is None,
{
    let root = xmltree::Element::parse(bytes)?;
    Ok(XmlDocument { name: root.name.clone(), items: root.children.iter().map(|n| match n {
        xmltree::XMLNode::Element(e) => XmlNode::Item(XmlItem { name: e.name.clone(),
            attributes: e.attributes.clone().into_iter().collect(),
            text: e.get_text().map(String::from),
            fields: e.children.iter().map(|c| match c {
                xmltree::XMLNode::Element(f) => XmlField::Element { name: f.name.clone(),
                    text: f.get_text().map(String::from) },
                _ => XmlField::Other }).collect() }),
        _ => XmlNode::Other }).collect() })
}

/// Reads a document from its XML text; `None` where the text is no
/// well-formed XML.
pub fn read_xml_document(bytes: &[u8]) -> (r: Option<XmlDocument>)
    ensures
        r matches Some(d) ==> parsed_xml(bytes@) == Some(d@) && d.wf(),
        r is None <==> parsed_xml(bytes@) is None,
{
    match parse_xml(bytes) {
        Ok(d) => Some(d),
        Err(_) => None,
    }
}

// ----------------------------------------------------------------- lookups

/// The first child element of `item` with the given name (`get_child`).
pub open spec fn child_text_spec(fields: Seq<XmlFieldView>, name: Seq<char>) -> Option<Option<Seq<char>>>
    decreases fields.len(),
{
    if fields.len() == 0 {
        None
    } else {
        match fields[0] {
            XmlFieldView::Element { name: n, text } => if n == name {
                Some(text)
            } else {
                child_text_spec(fields.drop_first(), name)
            },
            XmlFieldView::Other => child_text_spec(fields.drop_first(), name),
        }
    }
}

/// Finds the first child element with the given name, as
/// `xmltree::Element::get_child` does, and gives its text: `None` when there
/// is no such child, `Some(None)` when it has no text.
pub fn child_text(item: &XmlItem, name: &str) -> (r: Option<Option<String>>)
    ensures
        match r {
            None => child_text_spec(item@.fields, name@) is None,
            Some(t) => child_text_spec(item@.fields, name@) == Some(opt_view(t)),
        },
{
    let ghost all = item@.fields;
    let mut i: usize = 0;
    assert(all.skip(0) =~= all);
    while i < item.fields.len()
        invariant
            i <= item.fields.len(),
            all == item@.fields,
            all.len() == item.fields@.len(),
            child_text_spec(all, name@) == child_text_spec(all.skip(i as int), name@),
        decreases item.fields.len() - i,
    {
        assert(all.skip(i as int)[0] == item.fields@[i as int]@);
        assert(all.skip(i as int).drop_first() =~= all.skip(i + 1));
        match &item.fields[i] {
            XmlField::Element { name: n, text } => {
                if crate::text::str_equal(n.as_str(), name) {
                    return Some(
                        match text {
                            Some(t) => Some(t.clone()),
                            None => None,
                        },
                    );
                }
            },
            XmlField::Other => {},
        }
        i = i + 1;
    }
    assert(all.skip(i as int) =~= Seq::<XmlFieldView>::empty());
    None
}

/// The value of the attribute with the given name.
pub fn attribute(item: &XmlItem, name: &str) -> (r: Option<String>)
    requires
        distinct_names(item.attributes@),
    ensures
        match r {
            None => !item@.attributes.dom().contains(name@),
            Some(v) => item@.attributes.dom().contains(name@) && item@.attributes[name@] == v@,
        },
{
    let mut i: usize = 0;
    while i < item.attributes.len()
        invariant
            i <= item.attributes.len(),
            distinct_names(item.attributes@),
            forall|j: int| 0 <= j < i ==> (#[trigger] item.attributes@[j]).0@ != name@,
        decreases item.attributes.len() - i,
    {
        if crate::text::str_equal(item.attributes[i].0.as_str(), name) {
            proof {
                lemma_attribute_map_at(item.attributes@, i as int);
            }
            return Some(item.attributes[i].1.clone());
        }
        i = i + 1;
    }
    proof {
        lemma_attribute_map_absent(item.attributes@, name@);
    }
    None
}

proof fn lemma_attribute_map_at(attrs: Seq<(String, String)>, i: int)
    requires
        0 <= i < attrs.len(),
        distinct_names(attrs),
    ensures
        attribute_map(attrs).dom().contains(attrs[i].0@),
        attribute_map(attrs)[attrs[i].0@] == attrs[i].1@,
    decreases attrs.len(),
{
    if i < attrs.len() - 1 {
        assert(attrs.drop_last()[i] == attrs[i]);
        lemma_attribute_map_at(attrs.drop_last(), i);
        assert(attrs.last().0@ != attrs[i].0@);
    }
}

proof fn lemma_attribute_map_absent(attrs: Seq<(String, String)>, name: Seq<char>)
    requires
        forall|j: int| 0 <= j < attrs.len() ==> (#[trigger] attrs[j]).0@ != name,
    ensures
        !attribute_map(attrs).dom().contains(name),
    decreases attrs.len(),
{
    if attrs.len() > 0 {
        assert forall|j: int| 0 <= j < attrs.drop_last().len() implies (#[trigger] attrs.drop_last()[j]).0@ != name by {
            assert(attrs.drop_last()[j] == attrs[j]);
        }
        lemma_attribute_map_absent(attrs.drop_last(), name);
        assert(attrs[attrs.len() - 1].0@ != name);
    }
}

} // verus!
