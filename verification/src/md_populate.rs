//! Filling the Markdown renderer's database from a parsed document: each
//! table is created, then filled from the document's record elements.

use vstd::prelude::*;
use vstd::multiset::Multiset;
use crate::md_db::{
    create_md_table, md_table_schema, insert_md_behavior, insert_md_component, insert_md_relation,
    insert_md_viewpacket, md_behavior_rows, md_component_rows, md_relation_rows, md_tables,
    md_viewpacket_rows, MdRowView, MdTable,
};
use crate::md_models::{
    Behavior, BehaviorView, Component, ComponentView, RelationRow, RelationRowView, ViewPacket,
    ViewPacketView,
};
use crate::populate::{
    lemma_prefix_all, lemma_prefix_none, record_prefix,
    element_text, element_text_or, element_text_or_empty, lemma_records_error_persists,
    records_of, required_attribute, text_or_empty, PopulateError, RecordError,
};
use crate::text::{parse_i32, parse_i32_spec};
use crate::xml::{child_text_spec, distinct_names, XmlDocument, XmlItem, XmlItemView, XmlNode, XmlNodeView};

verus! {

/// The value of a number that is known to be valid.
pub open spec fn int_of(s: Seq<char>) -> i32 {
    match parse_i32_spec(s) {
        Some(v) => v,
        None => 0,
    }
}

fn record_int(text: &str, name: &'static str) -> (r: Result<i32, RecordError>)
    ensures
        match r {
            Ok(v) => parse_i32_spec(text@) == Some(v),
            Err(e) => parse_i32_spec(text@) is None && e == RecordError::InvalidNumber(name),
        },
{
    match parse_i32(text) {
        Some(v) => Ok(v),
        None => Err(RecordError::InvalidNumber(name)),
    }
}

/// How a `ViewPacket` element reads for the renderer: the attributes `Id` (a
/// number), `ViewType`, `ViewStyle` and `SortOrder` (a number), and the child
/// elements `Title`, `Introduction`, `ContextModelKey`, `PrimaryDisplayKey`
/// and `ComponentId` (with a number as its text) are required.
pub open spec fn md_viewpacket_record(item: XmlItemView) -> Result<ViewPacketView, RecordError> {
    let a = item.attributes;
    let f = item.fields;
    if !a.dom().contains("Id"@) {
        Err(RecordError::MissingAttribute("Id"))
    } else if parse_i32_spec(a["Id"@]) is None {
        Err(RecordError::InvalidNumber("Id"))
    } else if !a.dom().contains("ViewType"@) {
        Err(RecordError::MissingAttribute("ViewType"))
    } else if !a.dom().contains("ViewStyle"@) {
        Err(RecordError::MissingAttribute("ViewStyle"))
    } else if !a.dom().contains("SortOrder"@) {
        Err(RecordError::MissingAttribute("SortOrder"))
    } else if parse_i32_spec(a["SortOrder"@]) is None {
        Err(RecordError::InvalidNumber("SortOrder"))
    } else if child_text_spec(f, "Title"@) is None {
        Err(RecordError::MissingElement("Title"))
    } else if child_text_spec(f, "Introduction"@) is None {
        Err(RecordError::MissingElement("Introduction"))
    } else if child_text_spec(f, "ContextModelKey"@) is None {
        Err(RecordError::MissingElement("ContextModelKey"))
    } else if child_text_spec(f, "PrimaryDisplayKey"@) is None {
        Err(RecordError::MissingElement("PrimaryDisplayKey"))
    } else if child_text_spec(f, "ComponentId"@) is None {
        Err(RecordError::MissingElement("ComponentId"))
    } else if child_text_spec(f, "ComponentId"@) == Some(None::<Seq<char>>) {
        Err(RecordError::EmptyElement("ComponentId"))
    } else if parse_i32_spec(text_or_empty(f, "ComponentId"@)) is None {
        Err(RecordError::InvalidNumber("ComponentId"))
    } else {
        Ok(
            ViewPacketView {
                component_id: int_of(text_or_empty(f, "ComponentId"@)),
                context_model_key: text_or_empty(f, "ContextModelKey"@),
                primary_display_key: text_or_empty(f, "PrimaryDisplayKey"@),
                introduction: text_or_empty(f, "Introduction"@),
                sort_order: int_of(a["SortOrder"@]),
                title: text_or_empty(f, "Title"@),
                view_style: a["ViewStyle"@],
                view_type: a["ViewType"@],
                viewpacket_id: int_of(a["Id"@]),
            },
        )
    }
}

/// Reads a `ViewPacket` element.
pub fn md_viewpacket_from_xml(item: &XmlItem) -> (r: Result<ViewPacket, RecordError>)
    requires
        distinct_names(item.attributes@),
    ensures
        match r {
            Ok(v) => md_viewpacket_record(item@) == Ok::<ViewPacketView, RecordError>(v@),
            Err(e) => md_viewpacket_record(item@) == Err::<ViewPacketView, RecordError>(e),
        },
{
    let id_text = required_attribute(item, "Id")?;
    let viewpacket_id = record_int(id_text.as_str(), "Id")?;
    let view_type = required_attribute(item, "ViewType")?;
    let view_style = required_attribute(item, "ViewStyle")?;
    let sort_text = required_attribute(item, "SortOrder")?;
    let sort_order = record_int(sort_text.as_str(), "SortOrder")?;
    let title = element_text_or_empty(item, "Title")?;
    let introduction = element_text_or_empty(item, "Introduction")?;
    let context_model_key = element_text_or_empty(item, "ContextModelKey")?;
    let primary_display_key = element_text_or_empty(item, "PrimaryDisplayKey")?;
    let component_text = element_text(item, "ComponentId")?;
    let component_id = record_int(component_text.as_str(), "ComponentId")?;
    Ok(
        ViewPacket {
            component_id,
            context_model_key,
            primary_display_key,
            introduction,
            sort_order,
            title,
            view_style,
            view_type,
            viewpacket_id,
        },
    )
}

/// How a `Component` element reads for the renderer: the attributes `Id` (a
/// number) and `Name` and the child element `Summary` are required.
pub open spec fn md_component_record(item: XmlItemView) -> Result<ComponentView, RecordError> {
    let a = item.attributes;
    let f = item.fields;
    if !a.dom().contains("Id"@) {
        Err(RecordError::MissingAttribute("Id"))
    } else if parse_i32_spec(a["Id"@]) is None {
        Err(RecordError::InvalidNumber("Id"))
    } else if !a.dom().contains("Name"@) {
        Err(RecordError::MissingAttribute("Name"))
    } else if child_text_spec(f, "Summary"@) is None {
        Err(RecordError::MissingElement("Summary"))
    } else {
        Ok(ComponentView { id: int_of(a["Id"@]), name: a["Name"@], summary: text_or_empty(f, "Summary"@) })
    }
}

/// Reads a `Component` element.
pub fn md_component_from_xml(item: &XmlItem) -> (r: Result<Component, RecordError>)
    requires
        distinct_names(item.attributes@),
    ensures
        match r {
            Ok(v) => md_component_record(item@) == Ok::<ComponentView, RecordError>(v@),
            Err(e) => md_component_record(item@) == Err::<ComponentView, RecordError>(e),
        },
{
    let id_text = required_attribute(item, "Id")?;
    let id = record_int(id_text.as_str(), "Id")?;
    let name = required_attribute(item, "Name")?;
    let summary = element_text_or_empty(item, "Summary")?;
    Ok(Component { id, name, summary })
}

/// How a `ComponentRelation` element reads for the renderer: the attributes
/// `Id` (a number) and `SortOrder` (0 when it is not a number) are required,
/// as are the child elements `ComponentAId` and `ComponentBId` (with numbers
/// as their text), `Key` and `PropertyOfRelation`; `ConnectionType`,
/// `RelationText` and `RelationDescription` are optional.
pub open spec fn md_relation_record(item: XmlItemView) -> Result<RelationRowView, RecordError> {
    let a = item.attributes;
    let f = item.fields;
    if !a.dom().contains("Id"@) {
        Err(RecordError::MissingAttribute("Id"))
    } else if parse_i32_spec(a["Id"@]) is None {
        Err(RecordError::InvalidNumber("Id"))
    } else if !a.dom().contains("SortOrder"@) {
        Err(RecordError::MissingAttribute("SortOrder"))
    } else if child_text_spec(f, "ComponentAId"@) is None {
        Err(RecordError::MissingElement("ComponentAId"))
    } else if child_text_spec(f, "ComponentAId"@) == Some(None::<Seq<char>>) {
        Err(RecordError::EmptyElement("ComponentAId"))
    } else if parse_i32_spec(text_or_empty(f, "ComponentAId"@)) is None {
        Err(RecordError::InvalidNumber("ComponentAId"))
    } else if child_text_spec(f, "ComponentBId"@) is None {
        Err(RecordError::MissingElement("ComponentBId"))
    } else if child_text_spec(f, "ComponentBId"@) == Some(None::<Seq<char>>) {
        Err(RecordError::EmptyElement("ComponentBId"))
    } else if parse_i32_spec(text_or_empty(f, "ComponentBId"@)) is None {
        Err(RecordError::InvalidNumber("ComponentBId"))
    } else if child_text_spec(f, "Key"@) is None {
        Err(RecordError::MissingElement("Key"))
    } else if child_text_spec(f, "PropertyOfRelation"@) is None {
        Err(RecordError::MissingElement("PropertyOfRelation"))
    } else {
        Ok(
            RelationRowView {
                id: int_of(a["Id"@]),
                sort_order: int_of(a["SortOrder"@]),
                component_a_id: int_of(text_or_empty(f, "ComponentAId"@)),
                component_b_id: int_of(text_or_empty(f, "ComponentBId"@)),
                connection_type: text_or_empty(f, "ConnectionType"@),
                key: text_or_empty(f, "Key"@),
                property_of_relation: text_or_empty(f, "PropertyOfRelation"@),
                relation_text: text_or_empty(f, "RelationText"@),
                relation_description: text_or_empty(f, "RelationDescription"@),
            },
        )
    }
}

/// Reads a `ComponentRelation` element.
pub fn md_relation_from_xml(item: &XmlItem) -> (r: Result<RelationRow, RecordError>)
    requires
        distinct_names(item.attributes@),
    ensures
        match r {
            Ok(v) => md_relation_record(item@) == Ok::<RelationRowView, RecordError>(v@),
            Err(e) => md_relation_record(item@) == Err::<RelationRowView, RecordError>(e),
        },
{
    let id_text = required_attribute(item, "Id")?;
    let id = record_int(id_text.as_str(), "Id")?;
    let sort_text = required_attribute(item, "SortOrder")?;
    let sort_order = match parse_i32(sort_text.as_str()) {
        Some(v) => v,
        None => 0,
    };
    let a_text = element_text(item, "ComponentAId")?;
    let component_a_id = record_int(a_text.as_str(), "ComponentAId")?;
    let b_text = element_text(item, "ComponentBId")?;
    let component_b_id = record_int(b_text.as_str(), "ComponentBId")?;
    let connection_type = element_text_or(item, "ConnectionType", "");
    let key = element_text_or_empty(item, "Key")?;
    let property_of_relation = element_text_or_empty(item, "PropertyOfRelation")?;
    let relation_text = element_text_or(item, "RelationText", "");
    let relation_description = element_text_or(item, "RelationDescription", "");
    proof {
        reveal_strlit("");
        assert(""@ =~= Seq::<char>::empty());
    }
    Ok(
        RelationRow {
            id,
            sort_order,
            component_a_id,
            component_b_id,
            connection_type,
            key,
            property_of_relation,
            relation_text,
            relation_description,
        },
    )
}

/// How a `Behavior` element reads for the renderer: the attributes `Id` and
/// `SortOrder` (numbers) and the child elements `ViewPacketId` (with a number
/// as its text), `Description` and `DiagramKey` (with text) are required.
pub open spec fn md_behavior_record(item: XmlItemView) -> Result<BehaviorView, RecordError> {
    let a = item.attributes;
    let f = item.fields;
    if !a.dom().contains("Id"@) {
        Err(RecordError::MissingAttribute("Id"))
    } else if parse_i32_spec(a["Id"@]) is None {
        Err(RecordError::InvalidNumber("Id"))
    } else if !a.dom().contains("SortOrder"@) {
        Err(RecordError::MissingAttribute("SortOrder"))
    } else if parse_i32_spec(a["SortOrder"@]) is None {
        Err(RecordError::InvalidNumber("SortOrder"))
    } else if child_text_spec(f, "ViewPacketId"@) is None {
        Err(RecordError::MissingElement("ViewPacketId"))
    } else if child_text_spec(f, "ViewPacketId"@) == Some(None::<Seq<char>>) {
        Err(RecordError::EmptyElement("ViewPacketId"))
    } else if parse_i32_spec(text_or_empty(f, "ViewPacketId"@)) is None {
        Err(RecordError::InvalidNumber("ViewPacketId"))
    } else if child_text_spec(f, "Description"@) is None {
        Err(RecordError::MissingElement("Description"))
    } else if child_text_spec(f, "DiagramKey"@) is None {
        Err(RecordError::MissingElement("DiagramKey"))
    } else if child_text_spec(f, "DiagramKey"@) == Some(None::<Seq<char>>) {
        Err(RecordError::EmptyElement("DiagramKey"))
    } else {
        Ok(
            BehaviorView {
                id: int_of(a["Id"@]),
                sort_order: int_of(a["SortOrder"@]),
                view_packet_id: int_of(text_or_empty(f, "ViewPacketId"@)),
                description: text_or_empty(f, "Description"@),
                diagram_key: text_or_empty(f, "DiagramKey"@),
            },
        )
    }
}

/// Reads a `Behavior` element.
pub fn md_behavior_from_xml(item: &XmlItem) -> (r: Result<Behavior, RecordError>)
    requires
        distinct_names(item.attributes@),
    ensures
        match r {
            Ok(v) => md_behavior_record(item@) == Ok::<BehaviorView, RecordError>(v@),
            Err(e) => md_behavior_record(item@) == Err::<BehaviorView, RecordError>(e),
        },
{
    let id_text = required_attribute(item, "Id")?;
    let id = record_int(id_text.as_str(), "Id")?;
    let sort_text = required_attribute(item, "SortOrder")?;
    let sort_order = record_int(sort_text.as_str(), "SortOrder")?;
    let vp_text = element_text(item, "ViewPacketId")?;
    let view_packet_id = record_int(vp_text.as_str(), "ViewPacketId")?;
    let description = element_text_or_empty(item, "Description")?;
    let diagram_key = element_text(item, "DiagramKey")?;
    Ok(Behavior { id, sort_order, view_packet_id, description, diagram_key })
}

/// Creates the view-packet table and adds a row for each `ViewPacket` element of the
/// document, in document order. The first element that cannot be read stops
/// it with that element's error, as does a failed insert; the rows added
/// before stay.
pub fn populate_db_with_viewpackets(db_conn: &mut rusqlite::Connection, xml_root: &XmlDocument) -> (r: Result<(), PopulateError>)
    requires
        xml_root.wf(),
    ensures
        r is Ok ==> (records_of(xml_root@.items, "ViewPacket"@, |it: XmlItemView| md_viewpacket_record(it)) matches Ok(rows)
            && !md_tables(*old(db_conn)).dom().contains(MdTable::ViewPacket) && md_tables(*final(db_conn))
            == md_tables(*old(db_conn)).insert(MdTable::ViewPacket, md_viewpacket_rows(rows))),
        r matches Err(PopulateError::Record(kind, e)) ==> kind == "ViewPacket" && records_of(
            xml_root@.items,
            "ViewPacket"@,
            |it: XmlItemView| md_viewpacket_record(it),
        ) == Err::<Seq<ViewPacketView>, RecordError>(e),
        r is Err ==> md_tables(*final(db_conn)) == md_tables(*old(db_conn)) || exists|rows: Seq<ViewPacketView>|
            record_prefix(xml_root@.items, "ViewPacket"@, |it: XmlItemView| md_viewpacket_record(it), rows) && md_tables(*final(db_conn))
                == md_tables(*old(db_conn)).insert(MdTable::ViewPacket, md_viewpacket_rows(rows)),
{
    match create_md_table(db_conn, MdTable::ViewPacket, md_table_schema(MdTable::ViewPacket)) {
        Ok(_) => {},
        Err(e) => {
            return Err(PopulateError::Sqlite(e));
        },
    }
    let ghost before = md_tables(*old(db_conn));
    let ghost rec = |it: XmlItemView| md_viewpacket_record(it);
    let ghost as_row = |r: ViewPacketView| MdRowView::ViewPacket(r);
    let ghost items = xml_root@.items;
    let ghost mut rows: Seq<ViewPacketView> = Seq::empty();
    let mut i: usize = 0;
    proof {
        crate::order::lemma_map_empty_multiset(rows, as_row);
        assert(items.take(0) =~= Seq::<XmlNodeView>::empty());
        assert(md_tables(*db_conn) == before.insert(MdTable::ViewPacket, md_viewpacket_rows(rows)));
    }
    while i < xml_root.items.len()
        invariant
            i <= xml_root.items.len(),
            xml_root.wf(),
            items == xml_root@.items,
            items.len() == xml_root.items@.len(),
            rec == (|it: XmlItemView| md_viewpacket_record(it)),
            as_row == (|r: ViewPacketView| MdRowView::ViewPacket(r)),
            !before.dom().contains(MdTable::ViewPacket),
            before == md_tables(*old(db_conn)),
            records_of(items.take(i as int), "ViewPacket"@, rec) == Ok::<Seq<ViewPacketView>, RecordError>(rows),
            md_tables(*db_conn) == before.insert(MdTable::ViewPacket, md_viewpacket_rows(rows)),
        decreases xml_root.items.len() - i,
    {
        assert(items.take(i + 1).drop_last() =~= items.take(i as int));
        assert(items.take(i + 1).last() == xml_root.items@[i as int]@);
        match &xml_root.items[i] {
            XmlNode::Item(item) => {
                assert(distinct_names(item.attributes@));
                if crate::text::str_equal(item.name.as_str(), "ViewPacket") {
                    let v = match md_viewpacket_from_xml(item) {
                        Ok(v) => v,
                        Err(e) => {
                            proof {
                                lemma_records_error_persists(items, i as int + 1, "ViewPacket"@, rec);
                            }
                            assert(records_of(items.take(i as int), "ViewPacket"@, rec) == Ok::<Seq<ViewPacketView>, RecordError>(rows));
                            assert(record_prefix(xml_root@.items, "ViewPacket"@, |it: XmlItemView| md_viewpacket_record(it), rows) && md_tables(*db_conn)
                                == md_tables(*old(db_conn)).insert(MdTable::ViewPacket, md_viewpacket_rows(rows)));
                            return Err(PopulateError::Record("ViewPacket", e));
                        },
                    };
                    match insert_md_viewpacket(db_conn, &v) {
                        Ok(_) => {},
                        Err(e) => {
                            assert(records_of(items.take(i as int), "ViewPacket"@, rec) == Ok::<Seq<ViewPacketView>, RecordError>(rows));
                            assert(record_prefix(xml_root@.items, "ViewPacket"@, |it: XmlItemView| md_viewpacket_record(it), rows) && md_tables(*db_conn)
                                == md_tables(*old(db_conn)).insert(MdTable::ViewPacket, md_viewpacket_rows(rows)));
                            return Err(PopulateError::Sqlite(e));
                        },
                    }
                    proof {
                        crate::order::lemma_map_push_multiset(rows, v@, as_row);
                        assert(md_viewpacket_rows(rows) == rows.map_values(as_row).to_multiset());
                        assert(md_viewpacket_rows(rows.push(v@)) == rows.push(v@).map_values(as_row).to_multiset());
                        assert(md_tables(*db_conn) =~= before.insert(MdTable::ViewPacket, md_viewpacket_rows(rows.push(v@))));
                        rows = rows.push(v@);
                    }
                }
            },
            XmlNode::Other => {},
        }
        i = i + 1;
    }
    assert(items.take(xml_root.items.len() as int) =~= items);
    Ok(())
}

/// Creates the component table and adds a row for each `Component` element of the
/// document, in document order. The first element that cannot be read stops
/// it with that element's error, as does a failed insert; the rows added
/// before stay.
pub fn populate_db_with_components(db_conn: &mut rusqlite::Connection, xml_root: &XmlDocument) -> (r: Result<(), PopulateError>)
    requires
        xml_root.wf(),
    ensures
        r is Ok ==> (records_of(xml_root@.items, "Component"@, |it: XmlItemView| md_component_record(it)) matches Ok(rows)
            && !md_tables(*old(db_conn)).dom().contains(MdTable::Component) && md_tables(*final(db_conn))
            == md_tables(*old(db_conn)).insert(MdTable::Component, md_component_rows(rows))),
        r matches Err(PopulateError::Record(kind, e)) ==> kind == "Component" && records_of(
            xml_root@.items,
            "Component"@,
            |it: XmlItemView| md_component_record(it),
        ) == Err::<Seq<ComponentView>, RecordError>(e),
        r is Err ==> md_tables(*final(db_conn)) == md_tables(*old(db_conn)) || exists|rows: Seq<ComponentView>|
            record_prefix(xml_root@.items, "Component"@, |it: XmlItemView| md_component_record(it), rows) && md_tables(*final(db_conn))
                == md_tables(*old(db_conn)).insert(MdTable::Component, md_component_rows(rows)),
{
    match create_md_table(db_conn, MdTable::Component, md_table_schema(MdTable::Component)) {
        Ok(_) => {},
        Err(e) => {
            return Err(PopulateError::Sqlite(e));
        },
    }
    let ghost before = md_tables(*old(db_conn));
    let ghost rec = |it: XmlItemView| md_component_record(it);
    let ghost as_row = |r: ComponentView| MdRowView::Component(r);
    let ghost items = xml_root@.items;
    let ghost mut rows: Seq<ComponentView> = Seq::empty();
    let mut i: usize = 0;
    proof {
        crate::order::lemma_map_empty_multiset(rows, as_row);
        assert(items.take(0) =~= Seq::<XmlNodeView>::empty());
        assert(md_tables(*db_conn) == before.insert(MdTable::Component, md_component_rows(rows)));
    }
    while i < xml_root.items.len()
        invariant
            i <= xml_root.items.len(),
            xml_root.wf(),
            items == xml_root@.items,
            items.len() == xml_root.items@.len(),
            rec == (|it: XmlItemView| md_component_record(it)),
            as_row == (|r: ComponentView| MdRowView::Component(r)),
            !before.dom().contains(MdTable::Component),
            before == md_tables(*old(db_conn)),
            records_of(items.take(i as int), "Component"@, rec) == Ok::<Seq<ComponentView>, RecordError>(rows),
            md_tables(*db_conn) == before.insert(MdTable::Component, md_component_rows(rows)),
        decreases xml_root.items.len() - i,
    {
        assert(items.take(i + 1).drop_last() =~= items.take(i as int));
        assert(items.take(i + 1).last() == xml_root.items@[i as int]@);
        match &xml_root.items[i] {
            XmlNode::Item(item) => {
                assert(distinct_names(item.attributes@));
                if crate::text::str_equal(item.name.as_str(), "Component") {
                    let v = match md_component_from_xml(item) {
                        Ok(v) => v,
                        Err(e) => {
                            proof {
                                lemma_records_error_persists(items, i as int + 1, "Component"@, rec);
                            }
                            assert(records_of(items.take(i as int), "Component"@, rec) == Ok::<Seq<ComponentView>, RecordError>(rows));
                            assert(record_prefix(xml_root@.items, "Component"@, |it: XmlItemView| md_component_record(it), rows) && md_tables(*db_conn)
                                == md_tables(*old(db_conn)).insert(MdTable::Component, md_component_rows(rows)));
                            return Err(PopulateError::Record("Component", e));
                        },
                    };
                    match insert_md_component(db_conn, &v) {
                        Ok(_) => {},
                        Err(e) => {
                            assert(records_of(items.take(i as int), "Component"@, rec) == Ok::<Seq<ComponentView>, RecordError>(rows));
                            assert(record_prefix(xml_root@.items, "Component"@, |it: XmlItemView| md_component_record(it), rows) && md_tables(*db_conn)
                                == md_tables(*old(db_conn)).insert(MdTable::Component, md_component_rows(rows)));
                            return Err(PopulateError::Sqlite(e));
                        },
                    }
                    proof {
                        crate::order::lemma_map_push_multiset(rows, v@, as_row);
                        assert(md_component_rows(rows) == rows.map_values(as_row).to_multiset());
                        assert(md_component_rows(rows.push(v@)) == rows.push(v@).map_values(as_row).to_multiset());
                        assert(md_tables(*db_conn) =~= before.insert(MdTable::Component, md_component_rows(rows.push(v@))));
                        rows = rows.push(v@);
                    }
                }
            },
            XmlNode::Other => {},
        }
        i = i + 1;
    }
    assert(items.take(xml_root.items.len() as int) =~= items);
    Ok(())
}

/// Creates the relation table and adds a row for each `ComponentRelation` element of the
/// document, in document order. The first element that cannot be read stops
/// it with that element's error, as does a failed insert; the rows added
/// before stay.
pub fn populate_db_with_componentrelations(db_conn: &mut rusqlite::Connection, xml_root: &XmlDocument) -> (r: Result<(), PopulateError>)
    requires
        xml_root.wf(),
    ensures
        r is Ok ==> (records_of(xml_root@.items, "ComponentRelation"@, |it: XmlItemView| md_relation_record(it)) matches Ok(rows)
            && !md_tables(*old(db_conn)).dom().contains(MdTable::ComponentRelation) && md_tables(*final(db_conn))
            == md_tables(*old(db_conn)).insert(MdTable::ComponentRelation, md_relation_rows(rows))),
        r matches Err(PopulateError::Record(kind, e)) ==> kind == "ComponentRelation" && records_of(
            xml_root@.items,
            "ComponentRelation"@,
            |it: XmlItemView| md_relation_record(it),
        ) == Err::<Seq<RelationRowView>, RecordError>(e),
        r is Err ==> md_tables(*final(db_conn)) == md_tables(*old(db_conn)) || exists|rows: Seq<RelationRowView>|
            record_prefix(xml_root@.items, "ComponentRelation"@, |it: XmlItemView| md_relation_record(it), rows) && md_tables(*final(db_conn))
                == md_tables(*old(db_conn)).insert(MdTable::ComponentRelation, md_relation_rows(rows)),
{
    match create_md_table(db_conn, MdTable::ComponentRelation, md_table_schema(MdTable::ComponentRelation)) {
        Ok(_) => {},
        Err(e) => {
            return Err(PopulateError::Sqlite(e));
        },
    }
    let ghost before = md_tables(*old(db_conn));
    let ghost rec = |it: XmlItemView| md_relation_record(it);
    let ghost as_row = |r: RelationRowView| MdRowView::ComponentRelation(r);
    let ghost items = xml_root@.items;
    let ghost mut rows: Seq<RelationRowView> = Seq::empty();
    let mut i: usize = 0;
    proof {
        crate::order::lemma_map_empty_multiset(rows, as_row);
        assert(items.take(0) =~= Seq::<XmlNodeView>::empty());
        assert(md_tables(*db_conn) == before.insert(MdTable::ComponentRelation, md_relation_rows(rows)));
    }
    while i < xml_root.items.len()
        invariant
            i <= xml_root.items.len(),
            xml_root.wf(),
            items == xml_root@.items,
            items.len() == xml_root.items@.len(),
            rec == (|it: XmlItemView| md_relation_record(it)),
            as_row == (|r: RelationRowView| MdRowView::ComponentRelation(r)),
            !before.dom().contains(MdTable::ComponentRelation),
            before == md_tables(*old(db_conn)),
            records_of(items.take(i as int), "ComponentRelation"@, rec) == Ok::<Seq<RelationRowView>, RecordError>(rows),
            md_tables(*db_conn) == before.insert(MdTable::ComponentRelation, md_relation_rows(rows)),
        decreases xml_root.items.len() - i,
    {
        assert(items.take(i + 1).drop_last() =~= items.take(i as int));
        assert(items.take(i + 1).last() == xml_root.items@[i as int]@);
        match &xml_root.items[i] {
            XmlNode::Item(item) => {
                assert(distinct_names(item.attributes@));
                if crate::text::str_equal(item.name.as_str(), "ComponentRelation") {
                    let v = match md_relation_from_xml(item) {
                        Ok(v) => v,
                        Err(e) => {
                            proof {
                                lemma_records_error_persists(items, i as int + 1, "ComponentRelation"@, rec);
                            }
                            assert(records_of(items.take(i as int), "ComponentRelation"@, rec) == Ok::<Seq<RelationRowView>, RecordError>(rows));
                            assert(record_prefix(xml_root@.items, "ComponentRelation"@, |it: XmlItemView| md_relation_record(it), rows) && md_tables(*db_conn)
                                == md_tables(*old(db_conn)).insert(MdTable::ComponentRelation, md_relation_rows(rows)));
                            return Err(PopulateError::Record("ComponentRelation", e));
                        },
                    };
                    match insert_md_relation(db_conn, &v) {
                        Ok(_) => {},
                        Err(e) => {
                            assert(records_of(items.take(i as int), "ComponentRelation"@, rec) == Ok::<Seq<RelationRowView>, RecordError>(rows));
                            assert(record_prefix(xml_root@.items, "ComponentRelation"@, |it: XmlItemView| md_relation_record(it), rows) && md_tables(*db_conn)
                                == md_tables(*old(db_conn)).insert(MdTable::ComponentRelation, md_relation_rows(rows)));
                            return Err(PopulateError::Sqlite(e));
                        },
                    }
                    proof {
                        crate::order::lemma_map_push_multiset(rows, v@, as_row);
                        assert(md_relation_rows(rows) == rows.map_values(as_row).to_multiset());
                        assert(md_relation_rows(rows.push(v@)) == rows.push(v@).map_values(as_row).to_multiset());
                        assert(md_tables(*db_conn) =~= before.insert(MdTable::ComponentRelation, md_relation_rows(rows.push(v@))));
                        rows = rows.push(v@);
                    }
                }
            },
            XmlNode::Other => {},
        }
        i = i + 1;
    }
    assert(items.take(xml_root.items.len() as int) =~= items);
    Ok(())
}

/// Creates the behavior table and adds a row for each `Behavior` element of the
/// document, in document order. The first element that cannot be read stops
/// it with that element's error, as does a failed insert; the rows added
/// before stay.
pub fn populate_db_with_behaviors(db_conn: &mut rusqlite::Connection, xml_root: &XmlDocument) -> (r: Result<(), PopulateError>)
    requires
        xml_root.wf(),
    ensures
        r is Ok ==> (records_of(xml_root@.items, "Behavior"@, |it: XmlItemView| md_behavior_record(it)) matches Ok(rows)
            && !md_tables(*old(db_conn)).dom().contains(MdTable::Behavior) && md_tables(*final(db_conn))
            == md_tables(*old(db_conn)).insert(MdTable::Behavior, md_behavior_rows(rows))),
        r matches Err(PopulateError::Record(kind, e)) ==> kind == "Behavior" && records_of(
            xml_root@.items,
            "Behavior"@,
            |it: XmlItemView| md_behavior_record(it),
        ) == Err::<Seq<BehaviorView>, RecordError>(e),
        r is Err ==> md_tables(*final(db_conn)) == md_tables(*old(db_conn)) || exists|rows: Seq<BehaviorView>|
            record_prefix(xml_root@.items, "Behavior"@, |it: XmlItemView| md_behavior_record(it), rows) && md_tables(*final(db_conn))
                == md_tables(*old(db_conn)).insert(MdTable::Behavior, md_behavior_rows(rows)),
{
    match create_md_table(db_conn, MdTable::Behavior, md_table_schema(MdTable::Behavior)) {
        Ok(_) => {},
        Err(e) => {
            return Err(PopulateError::Sqlite(e));
        },
    }
    let ghost before = md_tables(*old(db_conn));
    let ghost rec = |it: XmlItemView| md_behavior_record(it);
    let ghost as_row = |r: BehaviorView| MdRowView::Behavior(r);
    let ghost items = xml_root@.items;
    let ghost mut rows: Seq<BehaviorView> = Seq::empty();
    let mut i: usize = 0;
    proof {
        crate::order::lemma_map_empty_multiset(rows, as_row);
        assert(items.take(0) =~= Seq::<XmlNodeView>::empty());
        assert(md_tables(*db_conn) == before.insert(MdTable::Behavior, md_behavior_rows(rows)));
    }
    while i < xml_root.items.len()
        invariant
            i <= xml_root.items.len(),
            xml_root.wf(),
            items == xml_root@.items,
            items.len() == xml_root.items@.len(),
            rec == (|it: XmlItemView| md_behavior_record(it)),
            as_row == (|r: BehaviorView| MdRowView::Behavior(r)),
            !before.dom().contains(MdTable::Behavior),
            before == md_tables(*old(db_conn)),
            records_of(items.take(i as int), "Behavior"@, rec) == Ok::<Seq<BehaviorView>, RecordError>(rows),
            md_tables(*db_conn) == before.insert(MdTable::Behavior, md_behavior_rows(rows)),
        decreases xml_root.items.len() - i,
    {
        assert(items.take(i + 1).drop_last() =~= items.take(i as int));
        assert(items.take(i + 1).last() == xml_root.items@[i as int]@);
        match &xml_root.items[i] {
            XmlNode::Item(item) => {
                assert(distinct_names(item.attributes@));
                if crate::text::str_equal(item.name.as_str(), "Behavior") {
                    let v = match md_behavior_from_xml(item) {
                        Ok(v) => v,
                        Err(e) => {
                            proof {
                                lemma_records_error_persists(items, i as int + 1, "Behavior"@, rec);
                            }
                            assert(records_of(items.take(i as int), "Behavior"@, rec) == Ok::<Seq<BehaviorView>, RecordError>(rows));
                            assert(record_prefix(xml_root@.items, "Behavior"@, |it: XmlItemView| md_behavior_record(it), rows) && md_tables(*db_conn)
                                == md_tables(*old(db_conn)).insert(MdTable::Behavior, md_behavior_rows(rows)));
                            return Err(PopulateError::Record("Behavior", e));
                        },
                    };
                    match insert_md_behavior(db_conn, &v) {
                        Ok(_) => {},
                        Err(e) => {
                            assert(records_of(items.take(i as int), "Behavior"@, rec) == Ok::<Seq<BehaviorView>, RecordError>(rows));
                            assert(record_prefix(xml_root@.items, "Behavior"@, |it: XmlItemView| md_behavior_record(it), rows) && md_tables(*db_conn)
                                == md_tables(*old(db_conn)).insert(MdTable::Behavior, md_behavior_rows(rows)));
                            return Err(PopulateError::Sqlite(e));
                        },
                    }
                    proof {
                        crate::order::lemma_map_push_multiset(rows, v@, as_row);
                        assert(md_behavior_rows(rows) == rows.map_values(as_row).to_multiset());
                        assert(md_behavior_rows(rows.push(v@)) == rows.push(v@).map_values(as_row).to_multiset());
                        assert(md_tables(*db_conn) =~= before.insert(MdTable::Behavior, md_behavior_rows(rows.push(v@))));
                        rows = rows.push(v@);
                    }
                }
            },
            XmlNode::Other => {},
        }
        i = i + 1;
    }
    assert(items.take(xml_root.items.len() as int) =~= items);
    Ok(())
}

/// The renderer's database `before` after its four tables were created and
/// filled from the document; `None` when a record cannot be read.
pub open spec fn md_populated(before: Map<MdTable, Multiset<MdRowView>>, items: Seq<XmlNodeView>) -> Option<
    Map<MdTable, Multiset<MdRowView>>,
> {
    match (
        records_of(items, "ViewPacket"@, |it: XmlItemView| md_viewpacket_record(it)),
        records_of(items, "Component"@, |it: XmlItemView| md_component_record(it)),
        records_of(items, "ComponentRelation"@, |it: XmlItemView| md_relation_record(it)),
        records_of(items, "Behavior"@, |it: XmlItemView| md_behavior_record(it)),
    ) {
        (Ok(v), Ok(c), Ok(r), Ok(b)) => Some(
            before.insert(MdTable::ViewPacket, md_viewpacket_rows(v)).insert(
                MdTable::Component,
                md_component_rows(c),
            ).insert(MdTable::ComponentRelation, md_relation_rows(r)).insert(
                MdTable::Behavior,
                md_behavior_rows(b),
            ),
        ),
        _ => None,
    }
}

/// The renderer's database `before` with the first `n` of its tables (view
/// packets, components, relations, behaviors) created, holding the given
/// records.
pub open spec fn md_tables_after(
    before: Map<MdTable, Multiset<MdRowView>>,
    n: nat,
    v: Seq<ViewPacketView>,
    c: Seq<ComponentView>,
    rl: Seq<RelationRowView>,
    b: Seq<BehaviorView>,
) -> Map<MdTable, Multiset<MdRowView>> {
    let m1 = if n >= 1 { before.insert(MdTable::ViewPacket, md_viewpacket_rows(v)) } else { before };
    let m2 = if n >= 2 { m1.insert(MdTable::Component, md_component_rows(c)) } else { m1 };
    let m3 = if n >= 3 { m2.insert(MdTable::ComponentRelation, md_relation_rows(rl)) } else { m2 };
    if n >= 4 { m3.insert(MdTable::Behavior, md_behavior_rows(b)) } else { m3 }
}

/// `after` is `before` with some of the renderer's tables created, in
/// order, each holding a prefix of the document's records of its kind: what
/// is left of a load that stopped.
pub open spec fn md_populated_in_part(
    before: Map<MdTable, Multiset<MdRowView>>,
    items: Seq<XmlNodeView>,
    after: Map<MdTable, Multiset<MdRowView>>,
) -> bool {
    exists|n: nat, v: Seq<ViewPacketView>, c: Seq<ComponentView>, rl: Seq<RelationRowView>, b: Seq<BehaviorView>|
        #![trigger md_tables_after(before, n, v, c, rl, b)]
        {
            &&& n <= 4
            &&& record_prefix(items, "ViewPacket"@, |it: XmlItemView| md_viewpacket_record(it), v)
            &&& record_prefix(items, "Component"@, |it: XmlItemView| md_component_record(it), c)
            &&& record_prefix(items, "ComponentRelation"@, |it: XmlItemView| md_relation_record(it), rl)
            &&& record_prefix(items, "Behavior"@, |it: XmlItemView| md_behavior_record(it), b)
            &&& after == md_tables_after(before, n, v, c, rl, b)
        }
}

/// Creates the renderer's tables and fills them from the parsed document:
/// view packets, components, relations and behaviors, in that order. None
/// of the tables may be there before.
pub fn populate_db(db_conn: &mut rusqlite::Connection, xml_root: &XmlDocument) -> (r: Result<(), PopulateError>)
    requires
        xml_root.wf(),
    ensures
        r is Ok ==> md_populated(md_tables(*old(db_conn)), xml_root@.items) == Some(md_tables(*final(db_conn))),
        r matches Err(PopulateError::Record(_, _)) ==> md_populated(md_tables(*old(db_conn)), xml_root@.items)
            is None,
        r is Err ==> md_populated_in_part(md_tables(*old(db_conn)), xml_root@.items, md_tables(*final(db_conn))),
{
    let ghost before = md_tables(*db_conn);
    let ghost items = xml_root@.items;
    match populate_db_with_viewpackets(db_conn, xml_root) {
        Ok(_) => {},
        Err(e) => {
            proof {
                if md_tables(*db_conn) == before {
                    lemma_prefix_none(items, "ViewPacket"@, |it: XmlItemView| md_viewpacket_record(it));
                    lemma_prefix_none(items, "Component"@, |it: XmlItemView| md_component_record(it));
                    lemma_prefix_none(items, "ComponentRelation"@, |it: XmlItemView| md_relation_record(it));
                    lemma_prefix_none(items, "Behavior"@, |it: XmlItemView| md_behavior_record(it));
                    assert(md_tables(*db_conn) == md_tables_after(before, 0nat, Seq::<ViewPacketView>::empty(), Seq::<ComponentView>::empty(), Seq::<RelationRowView>::empty(), Seq::<BehaviorView>::empty()));
                } else {
                    let v = choose|rows: Seq<ViewPacketView>|
                        record_prefix(items, "ViewPacket"@, |it: XmlItemView| md_viewpacket_record(it), rows) && md_tables(*db_conn)
                            == before.insert(MdTable::ViewPacket, md_viewpacket_rows(rows));
                    lemma_prefix_none(items, "Component"@, |it: XmlItemView| md_component_record(it));
                    lemma_prefix_none(items, "ComponentRelation"@, |it: XmlItemView| md_relation_record(it));
                    lemma_prefix_none(items, "Behavior"@, |it: XmlItemView| md_behavior_record(it));
                    assert(md_tables(*db_conn) == md_tables_after(before, 1nat, v, Seq::<ComponentView>::empty(), Seq::<RelationRowView>::empty(), Seq::<BehaviorView>::empty()));
                }
            }
            return Err(e);
        },
    }
    let ghost v = records_of(items, "ViewPacket"@, |it: XmlItemView| md_viewpacket_record(it))->Ok_0;
    let ghost m1 = md_tables(*db_conn);
    proof {
        lemma_prefix_all(items, "ViewPacket"@, |it: XmlItemView| md_viewpacket_record(it));
    }
    match populate_db_with_components(db_conn, xml_root) {
        Ok(_) => {},
        Err(e) => {
            proof {
                if md_tables(*db_conn) == m1 {
                    lemma_prefix_none(items, "Component"@, |it: XmlItemView| md_component_record(it));
                    lemma_prefix_none(items, "ComponentRelation"@, |it: XmlItemView| md_relation_record(it));
                    lemma_prefix_none(items, "Behavior"@, |it: XmlItemView| md_behavior_record(it));
                    assert(md_tables(*db_conn) == md_tables_after(before, 1nat, v, Seq::<ComponentView>::empty(), Seq::<RelationRowView>::empty(), Seq::<BehaviorView>::empty()));
                } else {
                    let c = choose|rows: Seq<ComponentView>|
                        record_prefix(items, "Component"@, |it: XmlItemView| md_component_record(it), rows) && md_tables(*db_conn)
                            == m1.insert(MdTable::Component, md_component_rows(rows));
                    lemma_prefix_none(items, "ComponentRelation"@, |it: XmlItemView| md_relation_record(it));
                    lemma_prefix_none(items, "Behavior"@, |it: XmlItemView| md_behavior_record(it));
                    assert(md_tables(*db_conn) == md_tables_after(before, 2nat, v, c, Seq::<RelationRowView>::empty(), Seq::<BehaviorView>::empty()));
                }
            }
            return Err(e);
        },
    }
    let ghost c = records_of(items, "Component"@, |it: XmlItemView| md_component_record(it))->Ok_0;
    let ghost m2 = md_tables(*db_conn);
    proof {
        lemma_prefix_all(items, "Component"@, |it: XmlItemView| md_component_record(it));
    }
    match populate_db_with_componentrelations(db_conn, xml_root) {
        Ok(_) => {},
        Err(e) => {
            proof {
                if md_tables(*db_conn) == m2 {
                    lemma_prefix_none(items, "ComponentRelation"@, |it: XmlItemView| md_relation_record(it));
                    lemma_prefix_none(items, "Behavior"@, |it: XmlItemView| md_behavior_record(it));
                    assert(md_tables(*db_conn) == md_tables_after(before, 2nat, v, c, Seq::<RelationRowView>::empty(), Seq::<BehaviorView>::empty()));
                } else {
                    let rl = choose|rows: Seq<RelationRowView>|
                        record_prefix(items, "ComponentRelation"@, |it: XmlItemView| md_relation_record(it), rows) && md_tables(*db_conn)
                            == m2.insert(MdTable::ComponentRelation, md_relation_rows(rows));
                    lemma_prefix_none(items, "Behavior"@, |it: XmlItemView| md_behavior_record(it));
                    assert(md_tables(*db_conn) == md_tables_after(before, 3nat, v, c, rl, Seq::<BehaviorView>::empty()));
                }
            }
            return Err(e);
        },
    }
    let ghost rl = records_of(items, "ComponentRelation"@, |it: XmlItemView| md_relation_record(it))->Ok_0;
    let ghost m3 = md_tables(*db_conn);
    proof {
        lemma_prefix_all(items, "ComponentRelation"@, |it: XmlItemView| md_relation_record(it));
    }
    match populate_db_with_behaviors(db_conn, xml_root) {
        Ok(_) => {},
        Err(e) => {
            proof {
                if md_tables(*db_conn) == m3 {
                    lemma_prefix_none(items, "Behavior"@, |it: XmlItemView| md_behavior_record(it));
                    assert(md_tables(*db_conn) == md_tables_after(before, 3nat, v, c, rl, Seq::<BehaviorView>::empty()));
                } else {
                    let b = choose|rows: Seq<BehaviorView>|
                        record_prefix(items, "Behavior"@, |it: XmlItemView| md_behavior_record(it), rows) && md_tables(*db_conn)
                            == m3.insert(MdTable::Behavior, md_behavior_rows(rows));
                    assert(md_tables(*db_conn) == md_tables_after(before, 4nat, v, c, rl, b));
                }
            }
            return Err(e);
        },
    }
    let ghost b = records_of(items, "Behavior"@, |it: XmlItemView| md_behavior_record(it))->Ok_0;
    let ghost m4 = md_tables(*db_conn);
    proof {
        lemma_prefix_all(items, "Behavior"@, |it: XmlItemView| md_behavior_record(it));
    }
    Ok(())
}


} // verus!
