//! Writing the document database back as a software architecture document
//! in XML: the view packets (by view type and style), the components, the
//! relations and the behaviors. The XML text is `simple_xml_builder`'s.

use vstd::prelude::*;
use crate::models::{Behavior, BehaviorView, Component, ComponentRelation, ComponentRelationView, ComponentView, ViewPacket, ViewPacketView};
use crate::order::{is_ordered_selection, views};
use crate::queries;
use crate::retrieval::{
    behaviors_are, components_are, get_vector_of_behaviors_sorted_by_key_and_order,
    get_vector_of_component_relations_sorted_by_key_and_order, get_vector_of_components_sorted_by_name,
    get_viewpacket_vector_by_type_and_style_sorted_by_order, relations_are, viewpackets_are, DbError,
};
use crate::text::{decimal_string, lemma_parse_decimal_string, parse_u64_spec, u64_to_decimal};

verus! {

/// A child element with text.
pub struct XmlOutField {
    pub name: String,
    pub text: String,
}

/// What a written element holds: text, or child elements with text.
pub enum XmlOutContent {
    Text(String),
    Fields(Vec<XmlOutField>),
}

/// An element under the root, with its attributes in order.
pub struct XmlOutRecord {
    pub name: String,
    pub attributes: Vec<(String, String)>,
    pub content: XmlOutContent,
}

/// A document to write: the root element, its attributes and the elements
/// under it, in order.
pub struct XmlOutDocument {
    pub name: String,
    pub attributes: Vec<(String, String)>,
    pub records: Vec<XmlOutRecord>,
}

/// An I/O error (`std::io::Error`).
#[verifier::external_type_specification]
#[verifier::external_body]
pub struct ExIoError(std::io::Error);

pub struct XmlOutFieldView {
    pub name: Seq<char>,
    pub text: Seq<char>,
}

pub enum XmlOutContentView {
    Text(Seq<char>),
    Fields(Seq<XmlOutFieldView>),
}

pub struct XmlOutRecordView {
    pub name: Seq<char>,
    pub attributes: Seq<(Seq<char>, Seq<char>)>,
    pub content: XmlOutContentView,
}

pub struct XmlOutDocumentView {
    pub name: Seq<char>,
    pub attributes: Seq<(Seq<char>, Seq<char>)>,
    pub records: Seq<XmlOutRecordView>,
}

impl XmlOutRecord {
    /// A copy of the element.
    pub fn duplicate_record(&self) -> (r: Self)
        ensures
            r@ == self@,
    {
        let mut attributes: Vec<(String, String)> = Vec::new();
        let mut i: usize = 0;
        while i < self.attributes.len()
            invariant
                i <= self.attributes.len(),
                pairs_view(attributes@) == pairs_view(self.attributes@).take(i as int),
            decreases self.attributes.len() - i,
        {
            let p = (self.attributes[i].0.clone(), self.attributes[i].1.clone());
            let ghost before = attributes@;
            attributes.push(p);
            assert(attributes@ == before.push(p));
            assert(pairs_view(attributes@) =~= pairs_view(before).push((p.0@, p.1@)));
            assert(pairs_view(self.attributes@)[i as int] == (p.0@, p.1@));
            assert(pairs_view(attributes@) =~= pairs_view(self.attributes@).take(i + 1));
            i = i + 1;
        }
        assert(pairs_view(self.attributes@).take(self.attributes.len() as int) =~= pairs_view(self.attributes@));
        let content = match &self.content {
            XmlOutContent::Text(t) => XmlOutContent::Text(t.clone()),
            XmlOutContent::Fields(fs) => {
                let mut out: Vec<XmlOutField> = Vec::new();
                let mut j: usize = 0;
                while j < fs.len()
                    invariant
                        j <= fs.len(),
                        views(out@) == views(fs@).take(j as int),
                    decreases fs.len() - j,
                {
                    let f = XmlOutField { name: fs[j].name.clone(), text: fs[j].text.clone() };
                    let ghost before = out@;
                    out.push(f);
                    proof {
                        crate::order::lemma_views_push(before, f);
                    }
                    assert(views(fs@)[j as int] == f@);
                    assert(views(out@) =~= views(fs@).take(j + 1));
                    j = j + 1;
                }
                assert(views(fs@).take(fs.len() as int) =~= views(fs@));
                XmlOutContent::Fields(out)
            },
        };
        XmlOutRecord { name: self.name.clone(), attributes, content }
    }
}

/// The views of attribute pairs.
pub open spec fn pairs_view(s: Seq<(String, String)>) -> Seq<(Seq<char>, Seq<char>)> {
    s.map_values(|p: (String, String)| (p.0@, p.1@))
}

impl View for XmlOutField {
    type V = XmlOutFieldView;

    open spec fn view(&self) -> XmlOutFieldView {
        XmlOutFieldView { name: self.name@, text: self.text@ }
    }
}

impl View for XmlOutContent {
    type V = XmlOutContentView;

    open spec fn view(&self) -> XmlOutContentView {
        match self {
            XmlOutContent::Text(t) => XmlOutContentView::Text(t@),
            XmlOutContent::Fields(f) => XmlOutContentView::Fields(views(f@)),
        }
    }
}

impl View for XmlOutRecord {
    type V = XmlOutRecordView;

    open spec fn view(&self) -> XmlOutRecordView {
        XmlOutRecordView {
            name: self.name@,
            attributes: pairs_view(self.attributes@),
            content: self.content@,
        }
    }
}

impl View for XmlOutDocument {
    type V = XmlOutDocumentView;

    open spec fn view(&self) -> XmlOutDocumentView {
        XmlOutDocumentView {
            name: self.name@,
            attributes: pairs_view(self.attributes@),
            records: views(self.records@),
        }
    }
}

/// `c` as `simple_xml_builder` escapes it in text and attribute values.
pub open spec fn escape_char(c: char) -> Seq<char> {
    if c == '&' {
        "&amp;"@
    } else if c == '"' {
        "&quot;"@
    } else if c == '\'' {
        "&apos;"@
    } else if c == '<' {
        "&lt;"@
    } else if c == '>' {
        "&gt;"@
    } else {
        seq![c]
    }
}

/// `s` with each character escaped.
pub open spec fn escaped(s: Seq<char>) -> Seq<char>
    decreases s.len(),
{
    if s.len() == 0 {
        Seq::empty()
    } else {
        escaped(s.drop_last()) + escape_char(s.last())
    }
}

/// The attributes as the element keeps them (an `IndexMap`): a name that
/// comes again keeps its first place and takes the later value; values are
/// escaped.
pub open spec fn attribute_map(attrs: Seq<(Seq<char>, Seq<char>)>) -> Seq<(Seq<char>, Seq<char>)>
    decreases attrs.len(),
{
    if attrs.len() == 0 {
        Seq::empty()
    } else {
        let m = attribute_map(attrs.drop_last());
        let (k, v) = attrs.last();
        if exists|i: int| 0 <= i < m.len() && m[i].0 == k {
            m.update(choose|i: int| 0 <= i < m.len() && m[i].0 == k, (k, escaped(v)))
        } else {
            m.push((k, escaped(v)))
        }
    }
}

/// ` name="value"` for each attribute, in order.
pub open spec fn attribute_text(m: Seq<(Seq<char>, Seq<char>)>) -> Seq<char>
    decreases m.len(),
{
    if m.len() == 0 {
        Seq::empty()
    } else {
        attribute_text(m.drop_last()) + " "@ + m.last().0 + "=\""@ + m.last().1 + "\""@
    }
}

/// The start of an element's tag at depth `level`: tabs, `<`, the name and
/// the attributes.
pub open spec fn tag_start(level: nat, name: Seq<char>, attrs: Seq<(Seq<char>, Seq<char>)>) -> Seq<char> {
    Seq::new(level, |i: int| '\t') + "<"@ + name + attribute_text(attribute_map(attrs))
}

/// The line of an element with text.
pub open spec fn text_line(level: nat, name: Seq<char>, attrs: Seq<(Seq<char>, Seq<char>)>, text: Seq<char>) -> Seq<
    char,
> {
    tag_start(level, name, attrs) + ">"@ + escaped(text) + "</"@ + name + ">\n"@
}

/// The lines of the child elements, at depth 2.
pub open spec fn fields_text(fs: Seq<XmlOutFieldView>) -> Seq<char>
    decreases fs.len(),
{
    if fs.len() == 0 {
        Seq::empty()
    } else {
        fields_text(fs.drop_last()) + text_line(2, fs.last().name, Seq::empty(), fs.last().text)
    }
}

/// The lines of an element under the root: one line for text or for no
/// children (`<name ... />`), else its tag, its children and its end tag.
pub open spec fn record_text(r: XmlOutRecordView) -> Seq<char> {
    match r.content {
        XmlOutContentView::Text(t) => text_line(1, r.name, r.attributes, t),
        XmlOutContentView::Fields(fs) => if fs.len() == 0 {
            tag_start(1, r.name, r.attributes) + " />\n"@
        } else {
            tag_start(1, r.name, r.attributes) + ">\n"@ + fields_text(fs) + "\t</"@ + r.name + ">\n"@
        },
    }
}

/// The lines of the elements under the root.
pub open spec fn records_text(rs: Seq<XmlOutRecordView>) -> Seq<char>
    decreases rs.len(),
{
    if rs.len() == 0 {
        Seq::empty()
    } else {
        records_text(rs.drop_last()) + record_text(rs.last())
    }
}

/// The XML text of the document as `simple_xml_builder` writes it: the
/// declaration, then the root element, each element on a line of its own,
/// indented by one tab per level.
pub open spec fn xml_text(d: XmlOutDocumentView) -> Seq<char> {
    "<?xml version = \"1.0\" encoding = \"UTF-8\"?>\n"@ + if d.records.len() == 0 {
        tag_start(0, d.name, d.attributes) + " />\n"@
    } else {
        tag_start(0, d.name, d.attributes) + ">\n"@ + records_text(d.records) + "</"@ + d.name + ">\n"@
    }
}

/// Builds the document with `simple_xml_builder::XMLElement` (`new`,
/// `add_attribute`, `add_text`, `add_child`) and writes it into a byte
/// vector (`write`): the UTF-8 encoding of `xml_text`. `write` fails only
/// where its writer fails, and a byte vector takes every write, so it
/// succeeds.
#[verifier::external_body]
pub(crate) fn write_xml_document(doc: &XmlOutDocument) -> (r: Result<Vec<u8>, std::io::Error>)
    ensures
        r is Ok,
        r matches Ok(b) ==> vstd::utf8::valid_utf8(b@) && vstd::utf8::decode_utf8(b@) == xml_text(doc@),
{
    let mut root = simple_xml_builder::XMLElement::new(&doc.name);
    for (k, v) in &doc.attributes { root.add_attribute(k, v); }
    for r in &doc.records {
        let mut e = simple_xml_builder::XMLElement::new(&r.name);
        for (k, v) in &r.attributes { e.add_attribute(k, v); }
        match &r.content {
            XmlOutContent::Text(t) => e.add_text(t),
            XmlOutContent::Fields(fs) => for f in fs { let mut c = simple_xml_builder::XMLElement::new(&f.name); c.add_text(&f.text); e.add_child(c); },
        }
        root.add_child(e);
    }
    let mut out: Vec<u8> = Vec::new();
    root.write(&mut out)?;
    Ok(out)
}

// -------------------------------------------------------------- the records

/// A child element `name` with the text `text`.
pub open spec fn field(name: Seq<char>, text: Seq<char>) -> XmlOutFieldView {
    XmlOutFieldView { name, text }
}

/// The element of a behavior.
pub open spec fn behavior_element(b: BehaviorView) -> XmlOutRecordView {
    XmlOutRecordView {
        name: "Behavior"@,
        attributes: seq![("Id"@, decimal_string(b.id as nat)), ("SortOrder"@, decimal_string(b.sort_order as nat))],
        content: XmlOutContentView::Fields(
            seq![
                field("ViewPacketId"@, decimal_string(b.view_packet_id as nat)),
                field("Description"@, b.description),
                field("DiagramKey"@, b.diagram_key),
            ],
        ),
    }
}

/// The elements of a component: the component, and when it has a team the
/// element `TeamId` with the team's id, next to it under the root.
pub open spec fn component_elements(c: ComponentView) -> Seq<XmlOutRecordView> {
    let e = XmlOutRecordView {
        name: "Component"@,
        attributes: seq![("Id"@, decimal_string(c.id as nat)), ("Name"@, c.name)],
        content: XmlOutContentView::Fields(seq![field("Purpose"@, c.purpose), field("Summary"@, c.summary)]),
    };
    if c.team_id > 0 {
        seq![
            e,
            XmlOutRecordView {
                name: "TeamId"@,
                attributes: Seq::empty(),
                content: XmlOutContentView::Text(decimal_string(c.team_id as nat)),
            },
        ]
    } else {
        seq![e]
    }
}

/// The element of a component relation.
pub open spec fn relation_element(r: ComponentRelationView) -> XmlOutRecordView {
    XmlOutRecordView {
        name: "ComponentRelation"@,
        attributes: seq![("Id"@, decimal_string(r.id as nat)), ("SortOrder"@, decimal_string(r.sort_order as nat))],
        content: XmlOutContentView::Fields(
            seq![
                field("ComponentAId"@, decimal_string(r.component_a_id as nat)),
                field("ComponentBId"@, decimal_string(r.component_b_id as nat)),
                field("Key"@, r.key),
                field("PropertyOfRelation"@, r.property_of_relation),
                field("ConnectionType"@, r.connection_type),
                field("RelationText"@, r.relation_text),
                field("RelationDescription"@, r.relation_description),
                field("Style"@, r.style),
            ],
        ),
    }
}

/// The element of a view packet.
pub open spec fn viewpacket_element(v: ViewPacketView) -> XmlOutRecordView {
    XmlOutRecordView {
        name: "ViewPacket"@,
        attributes: seq![
            ("Id"@, decimal_string(v.viewpacket_id as nat)),
            ("ViewType"@, v.view_type),
            ("ViewStyle"@, v.view_style),
            ("SortOrder"@, decimal_string(v.sort_order as nat)),
        ],
        content: XmlOutContentView::Fields(
            seq![
                field("Title"@, v.title),
                field("Introduction"@, v.introduction),
                field("ComponentId"@, decimal_string(v.component_id as nat)),
                field("PrimaryDisplayKey"@, v.primary_display_key),
                field("ContextModelKey"@, v.context_model_key),
            ],
        ),
    }
}

/// The elements of a sequence of components, in order.
pub open spec fn components_elements(cs: Seq<ComponentView>) -> Seq<XmlOutRecordView>
    decreases cs.len(),
{
    if cs.len() == 0 {
        Seq::empty()
    } else {
        components_elements(cs.drop_last()) + component_elements(cs.last())
    }
}

fn text_field(name: &str, text: String) -> (f: XmlOutField)
    ensures
        f@ == field(name@, text@),
{
    XmlOutField { name: name.to_owned(), text }
}

fn attribute_pair(name: &str, value: String) -> (p: (String, String))
    ensures
        p.0@ == name@,
        p.1@ == value@,
{
    (name.to_owned(), value)
}

fn behavior_to_element(b: &Behavior) -> (e: XmlOutRecord)
    ensures
        e@ == behavior_element(b@),
{
    let attributes = vec![attribute_pair("Id", u64_to_decimal(b.id)), attribute_pair("SortOrder", u64_to_decimal(b.sort_order))];
    let fields = vec![
        text_field("ViewPacketId", u64_to_decimal(b.view_packet_id)),
        text_field("Description", b.description.clone()),
        text_field("DiagramKey", b.diagram_key.clone()),
    ];
    let e = XmlOutRecord { name: "Behavior".to_owned(), attributes, content: XmlOutContent::Fields(fields) };
    assert(e@.attributes =~= behavior_element(b@).attributes);
    assert(views(fields@) =~= seq![
        field("ViewPacketId"@, decimal_string(b.view_packet_id as nat)),
        field("Description"@, b@.description),
        field("DiagramKey"@, b@.diagram_key),
    ]);
    e
}

fn component_to_elements(c: &Component) -> (es: Vec<XmlOutRecord>)
    ensures
        views(es@) == component_elements(c@),
{
    let attributes = vec![attribute_pair("Id", u64_to_decimal(c.id)), attribute_pair("Name", c.name.clone())];
    let fields = vec![text_field("Purpose", c.purpose.clone()), text_field("Summary", c.summary.clone())];
    let e = XmlOutRecord { name: "Component".to_owned(), attributes, content: XmlOutContent::Fields(fields) };
    assert(pairs_view(attributes@) =~= seq![("Id"@, decimal_string(c.id as nat)), ("Name"@, c@.name)]);
    assert(views(fields@) =~= seq![field("Purpose"@, c@.purpose), field("Summary"@, c@.summary)]);
    let mut es = vec![e];
    if c.team_id > 0 {
        let t = XmlOutRecord {
            name: "TeamId".to_owned(),
            attributes: Vec::new(),
            content: XmlOutContent::Text(u64_to_decimal(c.team_id)),
        };
        assert(pairs_view(t.attributes@) =~= Seq::<(Seq<char>, Seq<char>)>::empty());
        es.push(t);
    }
    assert(views(es@) =~= component_elements(c@));
    es
}

/// The text of the first child element `name` among `fs`.
pub open spec fn out_field_text(fs: Seq<XmlOutFieldView>, name: Seq<char>) -> Option<Seq<char>>
    decreases fs.len(),
{
    if fs.len() == 0 {
        None
    } else if fs[0].name == name {
        Some(fs[0].text)
    } else {
        out_field_text(fs.drop_first(), name)
    }
}

/// The value of the first attribute `name` among `attrs`.
pub open spec fn out_attribute(attrs: Seq<(Seq<char>, Seq<char>)>, name: Seq<char>) -> Option<Seq<char>>
    decreases attrs.len(),
{
    if attrs.len() == 0 {
        None
    } else if attrs[0].0 == name {
        Some(attrs[0].1)
    } else {
        out_attribute(attrs.drop_first(), name)
    }
}

/// A dumped relation is a `ComponentRelation` element that keeps every
/// column of the row: the `Id` and `SortOrder` attributes and the
/// `ComponentAId` and `ComponentBId` children hold the decimal numerals of
/// its id, sort order, component A and component B (which read back as
/// those numbers), and the `Key`, `PropertyOfRelation`, `ConnectionType`,
/// `RelationText`, `RelationDescription` and `Style` children hold its texts.
pub proof fn lemma_relation_element_ends(r: ComponentRelationView)
    ensures
        ({
            let e = relation_element(r);
            let fs = e.content->Fields_0;
            &&& e.name == "ComponentRelation"@
            &&& e.content is Fields
            &&& out_attribute(e.attributes, "Id"@) == Some(decimal_string(r.id as nat))
            &&& out_attribute(e.attributes, "SortOrder"@) == Some(decimal_string(r.sort_order as nat))
            &&& out_field_text(fs, "ComponentAId"@) == Some(decimal_string(r.component_a_id as nat))
            &&& out_field_text(fs, "ComponentBId"@) == Some(decimal_string(r.component_b_id as nat))
            &&& out_field_text(fs, "Key"@) == Some(r.key)
            &&& out_field_text(fs, "PropertyOfRelation"@) == Some(r.property_of_relation)
            &&& out_field_text(fs, "ConnectionType"@) == Some(r.connection_type)
            &&& out_field_text(fs, "RelationText"@) == Some(r.relation_text)
            &&& out_field_text(fs, "RelationDescription"@) == Some(r.relation_description)
            &&& out_field_text(fs, "Style"@) == Some(r.style)
            &&& parse_u64_spec(decimal_string(r.component_a_id as nat)) == Some(r.component_a_id)
            &&& parse_u64_spec(decimal_string(r.component_b_id as nat)) == Some(r.component_b_id)
        }),
{
    reveal_strlit("Id");
    reveal_strlit("SortOrder");
    reveal_strlit("ComponentAId");
    reveal_strlit("ComponentBId");
    reveal_strlit("Key");
    reveal_strlit("PropertyOfRelation");
    reveal_strlit("ConnectionType");
    reveal_strlit("RelationText");
    reveal_strlit("RelationDescription");
    reveal_strlit("Style");
    let e = relation_element(r);
    let fs = e.content->Fields_0;
    assert("Id"@.len() != "SortOrder"@.len());
    assert("Id"@ != "SortOrder"@);
    assert(out_attribute(e.attributes, "Id"@) == Some(decimal_string(r.id as nat)));
    assert(e.attributes.drop_first()[0] == e.attributes[1]);
    assert(out_attribute(e.attributes.drop_first(), "SortOrder"@) == Some(decimal_string(r.sort_order as nat)));
    let names = seq![
        "ComponentAId"@,
        "ComponentBId"@,
        "Key"@,
        "PropertyOfRelation"@,
        "ConnectionType"@,
        "RelationText"@,
        "RelationDescription"@,
        "Style"@,
    ];
    assert forall|k: int| 0 <= k < 8 implies #[trigger] fs[k].name == names[k] by {}
    assert forall|j: int, k: int| 0 <= j < k < 8 implies names[j] != names[k] by {
        if names[j] == names[k] {
            assert(names[j].len() == names[k].len());
            assert(names[j][0] == names[k][0]);
            assert(names[j][names[j].len() - 1] == names[k][names[k].len() - 1]);
            assert(names[j][9] == names[k][9]);
        }
    }
    assert forall|k: int| 0 <= k < 8 implies out_field_text(#[trigger] fs.skip(k), names[k]) == Some(fs[k].text) by {
        assert(fs.skip(k)[0] == fs[k]);
    }
    assert forall|j: int, k: int| 0 <= j < k < 8 implies out_field_text(fs.skip(j), names[k]) == #[trigger] out_field_text(fs.skip(j + 1), names[k]) by {
        assert(fs.skip(j)[0] == fs[j]);
        assert(fs.skip(j).drop_first() =~= fs.skip(j + 1));
    }
    assert(fs.skip(0) =~= fs);
    lemma_out_field_chain(fs, names);
    lemma_parse_decimal_string(r.component_a_id);
    lemma_parse_decimal_string(r.component_b_id);
}

/// Each name of `names` is found at its own place among the first fields.
proof fn lemma_out_field_chain(fs: Seq<XmlOutFieldView>, names: Seq<Seq<char>>)
    requires
        names.len() <= fs.len(),
        forall|k: int| 0 <= k < names.len() ==> out_field_text(#[trigger] fs.skip(k), names[k]) == Some(fs[k].text),
        forall|j: int, k: int|
            0 <= j < k < names.len() ==> out_field_text(fs.skip(j), names[k]) == #[trigger] out_field_text(fs.skip(j + 1), names[k]),
    ensures
        forall|k: int| 0 <= k < names.len() ==> out_field_text(fs.skip(0), #[trigger] names[k]) == Some(fs[k].text),
{
    assert forall|k: int| 0 <= k < names.len() implies out_field_text(fs.skip(0), #[trigger] names[k]) == Some(
        fs[k].text,
    ) by {
        lemma_out_field_from(fs, names, k, k);
    }
}

proof fn lemma_out_field_from(fs: Seq<XmlOutFieldView>, names: Seq<Seq<char>>, k: int, j: int)
    requires
        0 <= j <= k < names.len(),
        names.len() <= fs.len(),
        forall|k: int| 0 <= k < names.len() ==> out_field_text(#[trigger] fs.skip(k), names[k]) == Some(fs[k].text),
        forall|j: int, k: int|
            0 <= j < k < names.len() ==> out_field_text(fs.skip(j), names[k]) == #[trigger] out_field_text(fs.skip(j + 1), names[k]),
    ensures
        out_field_text(fs.skip(k - j), names[k]) == Some(fs[k].text),
    decreases j,
{
    if j > 0 {
        lemma_out_field_from(fs, names, k, j - 1);
        assert(out_field_text(fs.skip(k - j), names[k]) == out_field_text(fs.skip(k - j + 1), names[k]));
    }
}

fn relation_to_element(r: &ComponentRelation) -> (e: XmlOutRecord)
    ensures
        e@ == relation_element(r@),
{
    let attributes = vec![attribute_pair("Id", u64_to_decimal(r.id)), attribute_pair("SortOrder", u64_to_decimal(r.sort_order))];
    let fields = vec![
        text_field("ComponentAId", u64_to_decimal(r.component_a_id)),
        text_field("ComponentBId", u64_to_decimal(r.component_b_id)),
        text_field("Key", r.key.clone()),
        text_field("PropertyOfRelation", r.property_of_relation.clone()),
        text_field("ConnectionType", r.connection_type.clone()),
        text_field("RelationText", r.relation_text.clone()),
        text_field("RelationDescription", r.relation_description.clone()),
        text_field("Style", r.style.clone()),
    ];
    let e = XmlOutRecord { name: "ComponentRelation".to_owned(), attributes, content: XmlOutContent::Fields(fields) };
    assert(e@.attributes =~= relation_element(r@).attributes);
    assert(views(fields@) =~= seq![
        field("ComponentAId"@, decimal_string(r.component_a_id as nat)),
        field("ComponentBId"@, decimal_string(r.component_b_id as nat)),
        field("Key"@, r@.key),
        field("PropertyOfRelation"@, r@.property_of_relation),
        field("ConnectionType"@, r@.connection_type),
        field("RelationText"@, r@.relation_text),
        field("RelationDescription"@, r@.relation_description),
        field("Style"@, r@.style),
    ]);
    e
}

fn viewpacket_to_element(v: &ViewPacket) -> (e: XmlOutRecord)
    ensures
        e@ == viewpacket_element(v@),
{
    let attributes = vec![
        attribute_pair("Id", u64_to_decimal(v.viewpacket_id)),
        attribute_pair("ViewType", v.view_type.clone()),
        attribute_pair("ViewStyle", v.view_style.clone()),
        attribute_pair("SortOrder", u64_to_decimal(v.sort_order)),
    ];
    let fields = vec![
        text_field("Title", v.title.clone()),
        text_field("Introduction", v.introduction.clone()),
        text_field("ComponentId", u64_to_decimal(v.component_id)),
        text_field("PrimaryDisplayKey", v.primary_display_key.clone()),
        text_field("ContextModelKey", v.context_model_key.clone()),
    ];
    let e = XmlOutRecord { name: "ViewPacket".to_owned(), attributes, content: XmlOutContent::Fields(fields) };
    assert(e@.attributes =~= viewpacket_element(v@).attributes);
    assert(views(fields@) =~= seq![
        field("Title"@, v@.title),
        field("Introduction"@, v@.introduction),
        field("ComponentId"@, decimal_string(v.component_id as nat)),
        field("PrimaryDisplayKey"@, v@.primary_display_key),
        field("ContextModelKey"@, v@.context_model_key),
    ]);
    e
}


// ------------------------------------------------------------ table dumps

/// `recs` are the elements of the behaviors, ordered by diagram key and sort
/// order.
pub open spec fn behavior_part(conn: rusqlite::Connection, recs: Seq<XmlOutRecordView>) -> bool {
    exists|rows: Seq<BehaviorView>, out: Seq<BehaviorView>|
        #![trigger behaviors_are(conn, rows), is_ordered_selection(out, rows, queries::any_behavior(), queries::behavior_key_order())]
        behaviors_are(conn, rows) && is_ordered_selection(out, rows, queries::any_behavior(), queries::behavior_key_order())
            && recs == out.map_values(|b: BehaviorView| behavior_element(b))
}

/// `recs` are the elements of the components, ordered by name.
pub open spec fn component_part(conn: rusqlite::Connection, recs: Seq<XmlOutRecordView>) -> bool {
    exists|rows: Seq<ComponentView>, out: Seq<ComponentView>|
        #![trigger components_are(conn, rows), is_ordered_selection(out, rows, queries::any_component(), queries::component_name_order())]
        components_are(conn, rows) && is_ordered_selection(out, rows, queries::any_component(), queries::component_name_order())
            && recs == components_elements(out)
}

/// `recs` are the elements of the relations, ordered by key and sort order.
pub open spec fn relation_part(conn: rusqlite::Connection, recs: Seq<XmlOutRecordView>) -> bool {
    exists|rows: Seq<ComponentRelationView>, out: Seq<ComponentRelationView>|
        #![trigger relations_are(conn, rows), is_ordered_selection(out, rows, queries::any_relation(), queries::relation_key_order())]
        relations_are(conn, rows) && is_ordered_selection(out, rows, queries::any_relation(), queries::relation_key_order())
            && recs == out.map_values(|r: ComponentRelationView| relation_element(r))
}

/// `recs` are the elements of the view packets of the given type and style,
/// ordered by sort order.
pub open spec fn style_part(
    conn: rusqlite::Connection,
    view_type: Seq<char>,
    style: Seq<char>,
    recs: Seq<XmlOutRecordView>,
) -> bool {
    exists|rows: Seq<ViewPacketView>, out: Seq<ViewPacketView>|
        #![trigger viewpackets_are(conn, rows), is_ordered_selection(out, rows, queries::viewpacket_of_type_and_style(view_type, style), queries::viewpacket_sort_order())]
        viewpackets_are(conn, rows) && is_ordered_selection(
            out,
            rows,
            queries::viewpacket_of_type_and_style(view_type, style),
            queries::viewpacket_sort_order(),
        ) && recs == out.map_values(|v: ViewPacketView| viewpacket_element(v))
}

/// The document with `recs` added under the root.
pub open spec fn with_records(doc: XmlOutDocumentView, recs: Seq<XmlOutRecordView>) -> XmlOutDocumentView {
    XmlOutDocumentView { records: doc.records + recs, ..doc }
}

/// Adds the elements of `behaviors`, in their order, under the root.
pub fn add_behavior_elements(xml_root: &mut XmlOutDocument, behaviors: &Vec<Behavior>)
    ensures
        final(xml_root)@ == with_records(old(xml_root)@, views(behaviors@).map_values(|b: BehaviorView| behavior_element(b))),
{
    let ghost start = xml_root@;
    let ghost elem = |b: BehaviorView| behavior_element(b);
    let mut i: usize = 0;
    assert(views(behaviors@).take(0).map_values(elem) =~= Seq::<XmlOutRecordView>::empty());
    assert(start == with_records(start, Seq::empty()));
    while i < behaviors.len()
        invariant
            i <= behaviors.len(),
            elem == (|b: BehaviorView| behavior_element(b)),
            xml_root@ == with_records(start, views(behaviors@).take(i as int).map_values(elem)),
        decreases behaviors.len() - i,
    {
        let e = behavior_to_element(&behaviors[i]);
        assert(views(behaviors@)[i as int] == behaviors@[i as int]@);
        assert(views(behaviors@).take(i + 1).map_values(elem) =~= views(behaviors@).take(i as int).map_values(elem).push(e@));
        let ghost before = xml_root.records@;
        xml_root.records.push(e);
        proof {
            crate::order::lemma_views_push(before, e);
        }
        assert(views(xml_root.records@) =~= start.records + views(behaviors@).take(i + 1).map_values(elem));
        i = i + 1;
    }
    assert(views(behaviors@).take(behaviors.len() as int) =~= views(behaviors@));
}

/// Adds the elements of all behaviors, ordered by diagram key and then sort
/// order. When they cannot be read nothing is added.
pub fn dump_table_behavior_to_xml(xml_root: &mut XmlOutDocument, db_conn: &rusqlite::Connection) -> (r: Result<(), DbError>)
    ensures
        r is Ok ==> exists|recs: Seq<XmlOutRecordView>|
            behavior_part(*db_conn, recs) && final(xml_root)@ == with_records(old(xml_root)@, recs),
        r is Err ==> final(xml_root)@ == old(xml_root)@,
        r matches Err(e) ==> e is Sqlite,
{
    let behaviors = get_vector_of_behaviors_sorted_by_key_and_order(db_conn)?;
    add_behavior_elements(xml_root, &behaviors);
    assert(behavior_part(*db_conn, views(behaviors@).map_values(|b: BehaviorView| behavior_element(b))));
    Ok(())
}

/// Adds the elements of `components`, in their order, under the root; a
/// component with a team is followed by a `TeamId` element.
pub fn add_component_elements(xml_root: &mut XmlOutDocument, components: &Vec<Component>)
    ensures
        final(xml_root)@ == with_records(old(xml_root)@, components_elements(views(components@))),
{
    let ghost start = xml_root@;
    let mut i: usize = 0;
    assert(views(components@).take(0) =~= Seq::<ComponentView>::empty());
    assert(start == with_records(start, Seq::empty()));
    while i < components.len()
        invariant
            i <= components.len(),
            xml_root@ == with_records(start, components_elements(views(components@).take(i as int))),
        decreases components.len() - i,
    {
        let es = component_to_elements(&components[i]);
        assert(views(components@)[i as int] == components@[i as int]@);
        assert(views(components@).take(i + 1).drop_last() =~= views(components@).take(i as int));
        let ghost before = views(xml_root.records@);
        let mut j: usize = 0;
        while j < es.len()
            invariant
                j <= es.len(),
                views(xml_root.records@) == before + views(es@).take(j as int),
                xml_root@.name == start.name,
                xml_root@.attributes == start.attributes,
            decreases es.len() - j,
        {
            let e = es[j].duplicate_record();
            let ghost prev = xml_root.records@;
            xml_root.records.push(e);
            proof {
                crate::order::lemma_views_push(prev, e);
            }
            assert(views(es@).take(j + 1) =~= views(es@).take(j as int).push(es@[j as int]@));
            assert(views(xml_root.records@) =~= before + views(es@).take(j + 1));
            j = j + 1;
        }
        assert(views(es@).take(es.len() as int) =~= views(es@));
        assert(views(xml_root.records@) =~= start.records + components_elements(views(components@).take(i + 1)));
        i = i + 1;
    }
    assert(views(components@).take(components.len() as int) =~= views(components@));
}

/// Adds the elements of all components, ordered by name; a component with a
/// team is followed by a `TeamId` element under the root. When they cannot
/// be read nothing is added.
pub fn dump_table_component_to_xml(xml_root: &mut XmlOutDocument, db_conn: &rusqlite::Connection) -> (r: Result<(), DbError>)
    ensures
        r is Ok ==> exists|recs: Seq<XmlOutRecordView>|
            component_part(*db_conn, recs) && final(xml_root)@ == with_records(old(xml_root)@, recs),
        r is Err ==> final(xml_root)@ == old(xml_root)@,
        r matches Err(e) ==> e is Sqlite,
{
    let components = get_vector_of_components_sorted_by_name(db_conn)?;
    add_component_elements(xml_root, &components);
    assert(component_part(*db_conn, components_elements(views(components@))));
    Ok(())
}

/// Adds the elements of `relations`, in their order, under the root.
pub fn add_relation_elements(xml_root: &mut XmlOutDocument, relations: &Vec<ComponentRelation>)
    ensures
        final(xml_root)@ == with_records(old(xml_root)@, views(relations@).map_values(|r: ComponentRelationView| relation_element(r))),
{
    let ghost start = xml_root@;
    let ghost elem = |r: ComponentRelationView| relation_element(r);
    let mut i: usize = 0;
    assert(views(relations@).take(0).map_values(elem) =~= Seq::<XmlOutRecordView>::empty());
    assert(start == with_records(start, Seq::empty()));
    while i < relations.len()
        invariant
            i <= relations.len(),
            elem == (|r: ComponentRelationView| relation_element(r)),
            xml_root@ == with_records(start, views(relations@).take(i as int).map_values(elem)),
        decreases relations.len() - i,
    {
        let e = relation_to_element(&relations[i]);
        assert(views(relations@)[i as int] == relations@[i as int]@);
        assert(views(relations@).take(i + 1).map_values(elem) =~= views(relations@).take(i as int).map_values(elem).push(e@));
        let ghost before = xml_root.records@;
        xml_root.records.push(e);
        proof {
            crate::order::lemma_views_push(before, e);
        }
        assert(views(xml_root.records@) =~= start.records + views(relations@).take(i + 1).map_values(elem));
        i = i + 1;
    }
    assert(views(relations@).take(relations.len() as int) =~= views(relations@));
}

/// Adds the elements of all component relations, ordered by key and then
/// sort order. When they cannot be read nothing is added.
pub fn dump_table_componentrelation_to_xml(xml_root: &mut XmlOutDocument, db_conn: &rusqlite::Connection) -> (r:
    Result<(), DbError>)
    ensures
        r is Ok ==> exists|recs: Seq<XmlOutRecordView>|
            relation_part(*db_conn, recs) && final(xml_root)@ == with_records(old(xml_root)@, recs),
        r is Err ==> final(xml_root)@ == old(xml_root)@,
        r matches Err(e) ==> e is Sqlite,
{
    let relations = get_vector_of_component_relations_sorted_by_key_and_order(db_conn)?;
    add_relation_elements(xml_root, &relations);
    assert(relation_part(*db_conn, views(relations@).map_values(|r: ComponentRelationView| relation_element(r))));
    Ok(())
}

/// Adds the elements of `viewpackets`, in their order, under the root.
pub fn add_viewpacket_elements(xml_root: &mut XmlOutDocument, viewpackets: &Vec<ViewPacket>)
    ensures
        final(xml_root)@ == with_records(old(xml_root)@, views(viewpackets@).map_values(|v: ViewPacketView| viewpacket_element(v))),
{
    let ghost start = xml_root@;
    let ghost elem = |v: ViewPacketView| viewpacket_element(v);
    let mut i: usize = 0;
    assert(views(viewpackets@).take(0).map_values(elem) =~= Seq::<XmlOutRecordView>::empty());
    assert(start == with_records(start, Seq::empty()));
    while i < viewpackets.len()
        invariant
            i <= viewpackets.len(),
            elem == (|v: ViewPacketView| viewpacket_element(v)),
            xml_root@ == with_records(start, views(viewpackets@).take(i as int).map_values(elem)),
        decreases viewpackets.len() - i,
    {
        let e = viewpacket_to_element(&viewpackets[i]);
        assert(views(viewpackets@)[i as int] == viewpackets@[i as int]@);
        assert(views(viewpackets@).take(i + 1).map_values(elem) =~= views(viewpackets@).take(i as int).map_values(elem).push(e@));
        let ghost before = xml_root.records@;
        xml_root.records.push(e);
        proof {
            crate::order::lemma_views_push(before, e);
        }
        assert(views(xml_root.records@) =~= start.records + views(viewpackets@).take(i + 1).map_values(elem));
        i = i + 1;
    }
    assert(views(viewpackets@).take(viewpackets.len() as int) =~= views(viewpackets@));
}

/// Adds the elements of the view packets of the given type and style,
/// ordered by sort order. When they cannot be read nothing is added.
pub fn retrieve_from_db_and_put_in_xml(
    db_conn: &rusqlite::Connection,
    xml_root: &mut XmlOutDocument,
    filter_view_type: &str,
    filter_view_style: &str,
) -> (r: Result<(), DbError>)
    ensures
        r is Ok ==> exists|recs: Seq<XmlOutRecordView>|
            style_part(*db_conn, filter_view_type@, filter_view_style@, recs) && final(xml_root)@
                == with_records(old(xml_root)@, recs),
        r is Err ==> final(xml_root)@ == old(xml_root)@,
        r matches Err(e) ==> e is Sqlite,
{
    let viewpackets = get_viewpacket_vector_by_type_and_style_sorted_by_order(
        db_conn,
        filter_view_type,
        filter_view_style,
    )?;
    add_viewpacket_elements(xml_root, &viewpackets);
    assert(style_part(*db_conn, filter_view_type@, filter_view_style@, views(viewpackets@).map_values(|v: ViewPacketView| viewpacket_element(v))));
    Ok(())
}

/// The view types and styles, in the order the document lists their view
/// packets.
pub open spec fn dump_styles() -> Seq<(Seq<char>, Seq<char>)> {
    seq![
        ("Module"@, "Decomposition"@),
        ("Module"@, "Uses"@),
        ("Module"@, "UsedBy"@),
        ("Module"@, "Generalize"@),
        ("Module"@, "Layered"@),
        ("CnC"@, "ClientServer"@),
        ("CnC"@, "PeerToPeer"@),
        ("CnC"@, "PublishSubscribe"@),
        ("CnC"@, "PipeAndFilter"@),
        ("CnC"@, "SharedData"@),
        ("Allocation"@, "Deployment"@),
        ("Allocation"@, "Install"@),
        ("Allocation"@, "Assignment"@),
        ("Allocation"@, "Testing"@),
    ]
}

/// The records of `parts` one after the other.
pub open spec fn flatten(parts: Seq<Seq<XmlOutRecordView>>) -> Seq<XmlOutRecordView>
    decreases parts.len(),
{
    if parts.len() == 0 {
        Seq::empty()
    } else {
        flatten(parts.drop_last()) + parts.last()
    }
}

/// `parts` holds the view packet elements of the first `parts.len()` view
/// types and styles.
pub open spec fn style_parts(conn: rusqlite::Connection, parts: Seq<Seq<XmlOutRecordView>>) -> bool {
    &&& parts.len() <= dump_styles().len()
    &&& forall|j: int|
        0 <= j < parts.len() ==> style_part(conn, dump_styles()[j].0, dump_styles()[j].1, #[trigger] parts[j])
}

/// Adds the view packets, view type by view type and style by style; a view
/// type and style whose view packets cannot be read ends it.
pub fn dump_table_viewpacket_to_xml(xml_root: &mut XmlOutDocument, db_conn: &rusqlite::Connection) -> (r: Result<
    (),
    DbError,
>)
    ensures
        exists|parts: Seq<Seq<XmlOutRecordView>>|
            style_parts(*db_conn, parts) && final(xml_root)@ == with_records(old(xml_root)@, flatten(parts))
                && (r is Ok ==> parts.len() == dump_styles().len()),
{
    let types = ["Module", "Module", "Module", "Module", "Module", "CnC", "CnC", "CnC", "CnC", "CnC",
        "Allocation", "Allocation", "Allocation", "Allocation"];
    let styles = ["Decomposition", "Uses", "UsedBy", "Generalize", "Layered", "ClientServer",
        "PeerToPeer", "PublishSubscribe", "PipeAndFilter", "SharedData", "Deployment", "Install",
        "Assignment", "Testing"];
    let ghost start = xml_root@;
    let ghost mut parts: Seq<Seq<XmlOutRecordView>> = Seq::empty();
    assert(start.records + flatten(parts) =~= start.records);
    let mut k: usize = 0;
    while k < 14
        invariant
            k <= 14,
            types@.len() == 14,
            styles@.len() == 14,
            forall|j: int| 0 <= j < 14 ==> (#[trigger] types@[j])@ == dump_styles()[j].0,
            forall|j: int| 0 <= j < 14 ==> (#[trigger] styles@[j])@ == dump_styles()[j].1,
            parts.len() == k,
            start == old(xml_root)@,
            style_parts(*db_conn, parts),
            xml_root@ == with_records(start, flatten(parts)),
        decreases 14 - k,
    {
        let ghost before = xml_root@;
        match retrieve_from_db_and_put_in_xml(db_conn, xml_root, types[k], styles[k]) {
            Ok(()) => {},
            Err(e) => {
                return Err(e);
            },
        }
        proof {
            let recs = choose|recs: Seq<XmlOutRecordView>|
                style_part(*db_conn, types@[k as int]@, styles@[k as int]@, recs) && xml_root@ == with_records(before, recs);
            let new_parts = parts.push(recs);
            assert(new_parts.drop_last() =~= parts);
            assert(xml_root@.records =~= start.records + flatten(new_parts));
            assert forall|j: int| 0 <= j < new_parts.len() implies style_part(*db_conn, dump_styles()[j].0, dump_styles()[j].1, #[trigger] new_parts[j]) by {
                if j < k {
                    assert(new_parts[j] == parts[j]);
                }
            }
            parts = new_parts;
        }
        k = k + 1;
    }
    Ok(())
}

/// `doc` is what the database `conn` dumps to: a root
/// `SoftwareArchitectureDocumentation` of version 0.1.1 holding the view
/// packets, the components, the relations and the behaviors, in that order.
/// A table that cannot be read adds nothing.
pub open spec fn dumped(conn: rusqlite::Connection, doc: XmlOutDocumentView) -> bool {
    &&& doc.name == "SoftwareArchitectureDocumentation"@
    &&& doc.attributes == seq![("version"@, "0.1.1"@)]
    &&& exists|
        parts: Seq<Seq<XmlOutRecordView>>,
        cs: Seq<XmlOutRecordView>,
        rs: Seq<XmlOutRecordView>,
        bs: Seq<XmlOutRecordView>,
    |
        {
            &&& style_parts(conn, parts)
            &&& (component_part(conn, cs) || cs.len() == 0)
            &&& (relation_part(conn, rs) || rs.len() == 0)
            &&& (behavior_part(conn, bs) || bs.len() == 0)
            &&& doc.records == flatten(parts) + cs + rs + bs
        }
}

/// The document that the database dumps to: a root
/// `SoftwareArchitectureDocumentation` of version 0.1.1 holding the view
/// packets, the components, the relations and the behaviors, in that order.
/// A table that cannot be read adds nothing, and the dump goes on with the
/// next (for the view packets: stops at the first view type and style that
/// cannot be read).
pub fn dump_db_document(db_conn: &rusqlite::Connection) -> (doc: XmlOutDocument)
    ensures
        dumped(*db_conn, doc@),
{
    let mut xml_root = XmlOutDocument {
        name: "SoftwareArchitectureDocumentation".to_owned(),
        attributes: vec![attribute_pair("version", "0.1.1".to_owned())],
        records: Vec::new(),
    };
    assert(pairs_view(xml_root.attributes@) =~= seq![("version"@, "0.1.1"@)]);
    let ghost d0 = xml_root@;
    let _ = dump_table_viewpacket_to_xml(&mut xml_root, db_conn);
    let ghost d1 = xml_root@;
    let ghost parts = choose|parts: Seq<Seq<XmlOutRecordView>>|
        style_parts(*db_conn, parts) && d1 == with_records(d0, flatten(parts));
    let rc = dump_table_component_to_xml(&mut xml_root, db_conn);
    let ghost d2 = xml_root@;
    let ghost cs = if rc is Ok {
        choose|recs: Seq<XmlOutRecordView>| component_part(*db_conn, recs) && d2 == with_records(d1, recs)
    } else {
        Seq::empty()
    };
    assert(d2 == with_records(d1, cs)) by {
        if rc is Err {
            assert(d1.records + cs =~= d1.records);
        }
    }
    let rr = dump_table_componentrelation_to_xml(&mut xml_root, db_conn);
    let ghost d3 = xml_root@;
    let ghost rs = if rr is Ok {
        choose|recs: Seq<XmlOutRecordView>| relation_part(*db_conn, recs) && d3 == with_records(d2, recs)
    } else {
        Seq::empty()
    };
    assert(d3 == with_records(d2, rs)) by {
        if rr is Err {
            assert(d2.records + rs =~= d2.records);
        }
    }
    let rb = dump_table_behavior_to_xml(&mut xml_root, db_conn);
    let ghost d4 = xml_root@;
    let ghost bs = if rb is Ok {
        choose|recs: Seq<XmlOutRecordView>| behavior_part(*db_conn, recs) && d4 == with_records(d3, recs)
    } else {
        Seq::empty()
    };
    assert(d4 == with_records(d3, bs)) by {
        if rb is Err {
            assert(d3.records + bs =~= d3.records);
        }
    }
    assert(d0.records =~= Seq::<XmlOutRecordView>::empty());
    assert(xml_root@.records =~= flatten(parts) + cs + rs + bs);
    xml_root
}

/// The XML text of the database's dump (`dump_db_document`), encoded in
/// UTF-8.
pub fn dump_db_to_xml_bytes(db_conn: &rusqlite::Connection) -> (r: Result<Vec<u8>, std::io::Error>)
    ensures
        r is Ok,
        r matches Ok(b) ==> vstd::utf8::valid_utf8(b@) && exists|doc: XmlOutDocumentView|
            #![trigger xml_text(doc)]
            dumped(*db_conn, doc) && vstd::utf8::decode_utf8(b@) == xml_text(doc),
{
    let doc = dump_db_document(db_conn);
    write_xml_document(&doc)
}

} // verus!
