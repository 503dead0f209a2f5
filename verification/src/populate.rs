//! Filling the document database from a parsed document: each record
//! element becomes a row, read as the document format prescribes.

use vstd::prelude::*;
use vstd::multiset::Multiset;
use crate::address::{address_id, address_to_id};
use crate::db::{
    behavior_rows, component_rows, db_tables, document_rows, include_rows, insert_behavior,
    insert_component, insert_document, insert_include, insert_relation, insert_team,
    insert_viewpacket, relation_rows, team_rows, viewpacket_rows, with_row, RowView, Table,
};
use crate::models::{
    Behavior, BehaviorView, Component, ComponentRelation, ComponentRelationView, ComponentView,
    Document, DocumentView, Include, IncludeView, Team, TeamView, ViewPacket, ViewPacketView,
};
use crate::text::{decimal_string, parse_u64, parse_u64_spec, u64_to_decimal};
use crate::xml::{
    attribute, child_text, child_text_spec, distinct_names, opt_view, XmlDocument, XmlItem,
    XmlItemView, XmlNode, XmlNodeView,
};

verus! {

/// Why a record element cannot be read.
#[derive(Clone, Copy, Debug)]
pub enum RecordError {
    /// The attribute with this name is missing.
    MissingAttribute(&'static str),
    /// The child element with this name is missing.
    MissingElement(&'static str),
    /// The child element with this name has no text.
    EmptyElement(&'static str),
    /// The attribute or element with this name is not a decimal number.
    InvalidNumber(&'static str),
    /// The address read for this purpose is not of the form `a.b.c.d`, or its
    /// id does not fit in 64 bits.
    InvalidAddress(&'static str),
}

/// Why filling the database stopped.
#[derive(Debug)]
pub enum PopulateError {
    /// A record element (of the named kind) cannot be read.
    Record(&'static str, RecordError),
    /// SQLite or `rusqlite` failed.
    Sqlite(rusqlite::Error),
}

// ------------------------------------------------------------ field reading

/// The text of the first child element `name`, or the empty text when it
/// has none or there is no such element.
pub open spec fn text_or_empty(fields: Seq<crate::xml::XmlFieldView>, name: Seq<char>) -> Seq<char> {
    match child_text_spec(fields, name) {
        Some(Some(t)) => t,
        _ => Seq::empty(),
    }
}

/// The text of the first child element `name`, or `default` when it has
/// none or there is no such element.
pub open spec fn text_or(fields: Seq<crate::xml::XmlFieldView>, name: Seq<char>, default: Seq<char>) -> Seq<char> {
    match child_text_spec(fields, name) {
        Some(Some(t)) => t,
        _ => default,
    }
}

/// The address of nothing: id 0.
pub open spec fn null_address() -> Seq<char> {
    "0.0.0.0"@
}

/// The value of an address that is known to be valid.
pub open spec fn address_of(s: Seq<char>) -> u64 {
    match address_id(s) {
        Some(v) => v,
        None => 0,
    }
}

/// The value of a number that is known to be valid.
pub open spec fn number_of(s: Seq<char>) -> u64 {
    match parse_u64_spec(s) {
        Some(v) => v,
        None => 0,
    }
}

pub(crate) fn required_attribute(item: &XmlItem, name: &'static str) -> (r: Result<String, RecordError>)
    requires
        distinct_names(item.attributes@),
    ensures
        match r {
            Ok(v) => item@.attributes.dom().contains(name@) && v@ == item@.attributes[name@],
            Err(e) => !item@.attributes.dom().contains(name@) && e == RecordError::MissingAttribute(name),
        },
{
    match attribute(item, name) {
        Some(v) => Ok(v),
        None => Err(RecordError::MissingAttribute(name)),
    }
}

pub(crate) fn element_text_or_empty(item: &XmlItem, name: &'static str) -> (r: Result<String, RecordError>)
    ensures
        match r {
            Ok(v) => child_text_spec(item@.fields, name@) is Some && v@ == text_or_empty(item@.fields, name@),
            Err(e) => child_text_spec(item@.fields, name@) is None && e == RecordError::MissingElement(name),
        },
{
    match child_text(item, name) {
        Some(Some(t)) => Ok(t),
        Some(None) => Ok(String::new()),
        None => Err(RecordError::MissingElement(name)),
    }
}

pub(crate) fn element_text(item: &XmlItem, name: &'static str) -> (r: Result<String, RecordError>)
    ensures
        match r {
            Ok(v) => child_text_spec(item@.fields, name@) == Some(Some(v@)),
            Err(e) => (child_text_spec(item@.fields, name@) is None && e == RecordError::MissingElement(name))
                || (child_text_spec(item@.fields, name@) == Some(None::<Seq<char>>) && e
                == RecordError::EmptyElement(name)),
        },
{
    match child_text(item, name) {
        Some(Some(t)) => Ok(t),
        Some(None) => Err(RecordError::EmptyElement(name)),
        None => Err(RecordError::MissingElement(name)),
    }
}

pub(crate) fn element_text_or(item: &XmlItem, name: &'static str, default: &str) -> (r: String)
    ensures
        r@ == text_or(item@.fields, name@, default@),
{
    match child_text(item, name) {
        Some(Some(t)) => t,
        _ => default.to_owned(),
    }
}

fn record_number(text: &str, name: &'static str) -> (r: Result<u64, RecordError>)
    ensures
        match r {
            Ok(v) => parse_u64_spec(text@) == Some(v),
            Err(e) => parse_u64_spec(text@) is None && e == RecordError::InvalidNumber(name),
        },
{
    match parse_u64(text) {
        Some(v) => Ok(v),
        None => Err(RecordError::InvalidNumber(name)),
    }
}

fn record_address(text: &str, location: &'static str) -> (r: Result<u64, RecordError>)
    ensures
        match r {
            Ok(v) => address_id(text@) == Some(v),
            Err(e) => address_id(text@) is None && e == RecordError::InvalidAddress(location),
        },
{
    match address_to_id(text) {
        Some(v) => Ok(v),
        None => Err(RecordError::InvalidAddress(location)),
    }
}

// ------------------------------------------------------------- the records

/// The records that the elements named `name` among `items` give, in
/// document order, or the error of the first element that cannot be read.
pub open spec fn records_of<V>(
    items: Seq<XmlNodeView>,
    name: Seq<char>,
    record: spec_fn(XmlItemView) -> Result<V, RecordError>,
) -> Result<Seq<V>, RecordError>
    decreases items.len(),
{
    if items.len() == 0 {
        Ok(Seq::empty())
    } else {
        match records_of(items.drop_last(), name, record) {
            Err(e) => Err(e),
            Ok(rows) => match items.last() {
                XmlNodeView::Item(it) => if it.name == name {
                    match record(it) {
                        Ok(v) => Ok(rows.push(v)),
                        Err(e) => Err(e),
                    }
                } else {
                    Ok(rows)
                },
                XmlNodeView::Other => Ok(rows),
            },
        }
    }
}

/// The error of the first element named `name` among `items`, where that
/// element cannot be read; `None` where it can be read, or there is none.
pub open spec fn first_record_error<V>(
    items: Seq<XmlNodeView>,
    name: Seq<char>,
    record: spec_fn(XmlItemView) -> Result<V, RecordError>,
) -> Option<RecordError>
    decreases items.len(),
{
    if items.len() == 0 {
        None
    } else {
        match items[0] {
            XmlNodeView::Item(it) => if it.name == name {
                match record(it) {
                    Ok(_) => None,
                    Err(e) => Some(e),
                }
            } else {
                first_record_error(items.drop_first(), name, record)
            },
            XmlNodeView::Other => first_record_error(items.drop_first(), name, record),
        }
    }
}

/// `rows` are the records that the elements named `name` give among the
/// first elements of `items`: a prefix of the document's records.
pub open spec fn record_prefix<V>(
    items: Seq<XmlNodeView>,
    name: Seq<char>,
    record: spec_fn(XmlItemView) -> Result<V, RecordError>,
    rows: Seq<V>,
) -> bool {
    exists|n: int|
        0 <= n <= items.len() && #[trigger] records_of(items.take(n), name, record) == Ok::<
            Seq<V>,
            RecordError,
        >(rows)
}

/// Where all of `items` can be read, so can its first `n` elements, and they
/// give no more records.
pub proof fn lemma_records_prefix_len<V>(
    items: Seq<XmlNodeView>,
    n: int,
    name: Seq<char>,
    record: spec_fn(XmlItemView) -> Result<V, RecordError>,
)
    requires
        0 <= n <= items.len(),
        records_of(items, name, record) is Ok,
    ensures
        records_of(items.take(n), name, record) is Ok,
        records_of(items.take(n), name, record)->Ok_0.len() <= records_of(items, name, record)->Ok_0.len(),
    decreases items.len() - n,
{
    if n < items.len() {
        lemma_records_prefix_len(items, n + 1, name, record);
        assert(items.take(n + 1).drop_last() =~= items.take(n));
    } else {
        assert(items.take(n) =~= items);
    }
}

/// The database `before` with the rows `rows` added to `table`.
pub open spec fn with_rows(before: Map<Table, Multiset<RowView>>, table: Table, rows: Multiset<RowView>) -> Map<
    Table,
    Multiset<RowView>,
> {
    if rows.len() == 0 {
        before
    } else {
        before.insert(table, before[table].add(rows))
    }
}

/// Adding a row after rows is adding them all.
proof fn lemma_with_rows_push<V>(
    before: Map<Table, Multiset<RowView>>,
    table: Table,
    rows: Seq<V>,
    x: V,
    f: spec_fn(V) -> RowView,
)
    requires
        before.dom().contains(table) || rows.len() == 0,
    ensures
        with_row(with_rows(before, table, rows.map_values(f).to_multiset()), table, f(x)) == with_rows(
            before,
            table,
            rows.push(x).map_values(f).to_multiset(),
        ),
{
    broadcast use vstd::multiset::group_multiset_axioms;
    crate::order::lemma_map_push_multiset(rows, x, f);
    if rows.len() == 0 {
        crate::order::lemma_map_empty_multiset(rows, f);
    }
    assert(rows.map_values(f).to_multiset().len() == rows.len()) by {
        broadcast use vstd::seq_lib::group_to_multiset_ensures;
    }
    assert(rows.push(x).map_values(f).to_multiset().len() > 0);
    let m = rows.map_values(f).to_multiset();
    if rows.len() == 0 {
        assert(before[table].insert(f(x)) =~= before[table].add(m.insert(f(x))));
    } else {
        assert(before[table].add(m).insert(f(x)) =~= before[table].add(m.insert(f(x))));
    }
    assert(with_row(with_rows(before, table, m), table, f(x)) =~= with_rows(before, table, m.insert(f(x))));
}

// ------------------------------------------------------------- view packets

/// How a `ViewPacket` element reads: the attributes `Id`, `ViewType`,
/// `ViewStyle` and `SortOrder` (a number) are required, as are the child
/// elements `Title`, `Introduction`, `ContextModelKey` and
/// `PrimaryDisplayKey` (their text may be empty); `ComponentId` and `TeamId`
/// default to the null address. The view packet belongs to `file_id`.
pub open spec fn viewpacket_record(item: XmlItemView, file_id: u64) -> Result<ViewPacketView, RecordError> {
    let a = item.attributes;
    let f = item.fields;
    if !a.dom().contains("Id"@) {
        Err(RecordError::MissingAttribute("Id"))
    } else if !a.dom().contains("ViewType"@) {
        Err(RecordError::MissingAttribute("ViewType"))
    } else if !a.dom().contains("ViewStyle"@) {
        Err(RecordError::MissingAttribute("ViewStyle"))
    } else if !a.dom().contains("SortOrder"@) {
        Err(RecordError::MissingAttribute("SortOrder"))
    } else if parse_u64_spec(a["SortOrder"@]) is None {
        Err(RecordError::InvalidNumber("SortOrder"))
    } else if child_text_spec(f, "Title"@) is None {
        Err(RecordError::MissingElement("Title"))
    } else if child_text_spec(f, "Introduction"@) is None {
        Err(RecordError::MissingElement("Introduction"))
    } else if child_text_spec(f, "ContextModelKey"@) is None {
        Err(RecordError::MissingElement("ContextModelKey"))
    } else if child_text_spec(f, "PrimaryDisplayKey"@) is None {
        Err(RecordError::MissingElement("PrimaryDisplayKey"))
    } else if address_id(a["Id"@]) is None {
        Err(RecordError::InvalidAddress("ViewPacket - id"))
    } else if address_id(text_or(f, "ComponentId"@, null_address())) is None {
        Err(RecordError::InvalidAddress("ViewPacket - Component"))
    } else if address_id(text_or(f, "TeamId"@, null_address())) is None {
        Err(RecordError::InvalidAddress("ViewPacket - Team"))
    } else {
        Ok(
            ViewPacketView {
                component_id: address_of(text_or(f, "ComponentId"@, null_address())),
                context_model_key: text_or_empty(f, "ContextModelKey"@),
                primary_display_key: text_or_empty(f, "PrimaryDisplayKey"@),
                file_id: file_id,
                introduction: text_or_empty(f, "Introduction"@),
                sort_order: number_of(a["SortOrder"@]),
                team_id: address_of(text_or(f, "TeamId"@, null_address())),
                title: text_or_empty(f, "Title"@),
                view_style: a["ViewStyle"@],
                view_type: a["ViewType"@],
                viewpacket_id: address_of(a["Id"@]),
            },
        )
    }
}

/// Reads a `ViewPacket` element.
pub fn viewpacket_from_xml(item: &XmlItem, file_id: u64) -> (r: Result<ViewPacket, RecordError>)
    requires
        distinct_names(item.attributes@),
    ensures
        match r {
            Ok(v) => viewpacket_record(item@, file_id) == Ok::<ViewPacketView, RecordError>(v@),
            Err(e) => viewpacket_record(item@, file_id) == Err::<ViewPacketView, RecordError>(e),
        },
{
    let id_addr = required_attribute(item, "Id")?;
    let view_type = required_attribute(item, "ViewType")?;
    let view_style = required_attribute(item, "ViewStyle")?;
    let sort_text = required_attribute(item, "SortOrder")?;
    let sort_order = record_number(sort_text.as_str(), "SortOrder")?;
    let title = element_text_or_empty(item, "Title")?;
    let introduction = element_text_or_empty(item, "Introduction")?;
    let context_model_key = element_text_or_empty(item, "ContextModelKey")?;
    let primary_display_key = element_text_or_empty(item, "PrimaryDisplayKey")?;
    let component_addr = element_text_or(item, "ComponentId", "0.0.0.0");
    let team_addr = element_text_or(item, "TeamId", "0.0.0.0");
    let viewpacket_id = record_address(id_addr.as_str(), "ViewPacket - id")?;
    let component_id = record_address(component_addr.as_str(), "ViewPacket - Component")?;
    let team_id = record_address(team_addr.as_str(), "ViewPacket - Team")?;
    Ok(
        ViewPacket {
            component_id,
            context_model_key,
            primary_display_key,
            file_id,
            introduction,
            sort_order,
            team_id,
            title,
            view_style,
            view_type,
            viewpacket_id,
        },
    )
}

/// The view packets that the document's `ViewPacket` elements give.
pub open spec fn viewpacket_records(items: Seq<XmlNodeView>, file_id: u64) -> Result<
    Seq<ViewPacketView>,
    RecordError,
> {
    records_of(items, "ViewPacket"@, |it: XmlItemView| viewpacket_record(it, file_id))
}

/// Adds a view packet row of `file_id` for each `ViewPacket` element of the
/// document, in document order; without such elements it adds nothing and
/// succeeds. The first element that cannot be read stops it with that
/// element's error, before any insert, as does a failed insert; the rows
/// added before stay.
pub fn populate_db_with_viewpackets(
    db_conn: &mut rusqlite::Connection,
    xml_root: &XmlDocument,
    file_id: u64,
) -> (r: Result<(), PopulateError>)
    requires
        xml_root.wf(),
    ensures
        r is Ok ==> (viewpacket_records(xml_root@.items, file_id) matches Ok(rows) && db_tables(
            *final(db_conn),
        ) == with_rows(db_tables(*old(db_conn)), Table::ViewPacket, viewpacket_rows(rows))),
        r matches Err(PopulateError::Record(kind, e)) ==> kind == "ViewPacket" && viewpacket_records(
            xml_root@.items,
            file_id,
        ) == Err::<Seq<ViewPacketView>, RecordError>(e),
        r is Err ==> exists|rows: Seq<ViewPacketView>|
            record_prefix(xml_root@.items, "ViewPacket"@, |it: XmlItemView| viewpacket_record(it, file_id), rows) && db_tables(*final(db_conn)) == with_rows(
                db_tables(*old(db_conn)),
                Table::ViewPacket,
                viewpacket_rows(rows),
            ),
        viewpacket_records(xml_root@.items, file_id) == Ok::<Seq<ViewPacketView>, RecordError>(Seq::empty()) ==> r is Ok && db_tables(*final(db_conn)) == db_tables(
            *old(db_conn),
        ),
        first_record_error(xml_root@.items, "ViewPacket"@, |it: XmlItemView| viewpacket_record(it, file_id)) matches Some(e) ==> (r matches Err(
            PopulateError::Record(kind, e2),
        ) && kind == "ViewPacket" && e2 == e && db_tables(*final(db_conn)) == db_tables(*old(db_conn))),
{
    let ghost before = db_tables(*db_conn);
    let ghost rec = |it: XmlItemView| viewpacket_record(it, file_id);
    let ghost as_row = |r: ViewPacketView| RowView::ViewPacket(r);
    let ghost items = xml_root@.items;
    let ghost mut rows: Seq<ViewPacketView> = Seq::empty();
    let mut i: usize = 0;
    proof {
        crate::order::lemma_map_empty_multiset(rows, as_row);
        assert(items.take(0) =~= Seq::<XmlNodeView>::empty());
        assert(items.skip(0) =~= items);
    }
    while i < xml_root.items.len()
        invariant
            i <= xml_root.items.len(),
            xml_root.wf(),
            items == xml_root@.items,
            items.len() == xml_root.items@.len(),
            rec == (|it: XmlItemView| viewpacket_record(it, file_id)),
            as_row == (|r: ViewPacketView| RowView::ViewPacket(r)),
            before == db_tables(*old(db_conn)),
            records_of(items.take(i as int), "ViewPacket"@, rec) == Ok::<Seq<ViewPacketView>, RecordError>(rows),
            first_record_error(items, "ViewPacket"@, rec) is Some ==> rows.len() == 0 && first_record_error(
                items.skip(i as int),
                "ViewPacket"@,
                rec,
            ) == first_record_error(items, "ViewPacket"@, rec),
            rows.len() > 0 ==> before.dom().contains(Table::ViewPacket),
            db_tables(*db_conn) == with_rows(before, Table::ViewPacket, viewpacket_rows(rows)),
        decreases xml_root.items.len() - i,
    {
        assert(items.take(i + 1).drop_last() =~= items.take(i as int));
        assert(items.take(i + 1).last() == xml_root.items@[i as int]@);
        assert(items.skip(i as int).drop_first() =~= items.skip(i + 1));
        assert(items.skip(i as int)[0] == xml_root.items@[i as int]@);
        assert(viewpacket_rows(rows) == rows.map_values(as_row).to_multiset());
        match &xml_root.items[i] {
            XmlNode::Item(item) => {
                assert(distinct_names(item.attributes@));
                if crate::text::str_equal(item.name.as_str(), "ViewPacket") {
                    let v = match viewpacket_from_xml(item, file_id) {
                        Ok(v) => v,
                        Err(e) => {
                            proof {
                                lemma_records_error_persists(items, i as int + 1, "ViewPacket"@, rec);
                                if first_record_error(items, "ViewPacket"@, rec) is Some {
                                    assert(first_record_error(items.skip(i as int), "ViewPacket"@, rec) == Some(e));
                                    crate::order::lemma_map_empty_multiset(rows, as_row);
                                }
                            }
                            return Err(PopulateError::Record("ViewPacket", e));
                        },
                    };
                    proof {
                        if rows.len() == 0 {
                            crate::order::lemma_map_empty_multiset(rows, as_row);
                        }
                    }
                    assert(records_of(items.take(i + 1), "ViewPacket"@, rec) == Ok::<Seq<ViewPacketView>, RecordError>(rows.push(v@)));
                    match insert_viewpacket(db_conn, &v) {
                        Ok(_) => {},
                        Err(e) => {
                            proof {
                                if records_of(items, "ViewPacket"@, rec) is Ok {
                                    lemma_records_prefix_len(items, i as int + 1, "ViewPacket"@, rec);
                                }
                            }
                            return Err(PopulateError::Sqlite(e));
                        },
                    }
                    proof {
                        lemma_with_rows_push(before, Table::ViewPacket, rows, v@, as_row);
                        assert(viewpacket_rows(rows.push(v@)) == rows.push(v@).map_values(as_row).to_multiset());
                        rows = rows.push(v@);
                    }
                }
            },
            XmlNode::Other => {},
        }
        i = i + 1;
    }
    assert(items.take(xml_root.items.len() as int) =~= items);
    assert(items.skip(xml_root.items.len() as int) =~= Seq::<XmlNodeView>::empty());
    proof {
        if rows.len() == 0 {
            crate::order::lemma_map_empty_multiset(rows, as_row);
        }
    }
    Ok(())
}


// ---------------------------------------------------------------- behaviors

/// How a `Behavior` element reads: the attributes `Id` and `SortOrder` (a
/// number) and the child elements `ViewPacketId` (with text), `Description`
/// and `DiagramKey` (with text) are required. The diagram key is made
/// unique across files by the file id: `file_id-key`.
pub open spec fn behavior_record(item: XmlItemView, file_id: u64) -> Result<BehaviorView, RecordError> {
    let a = item.attributes;
    let f = item.fields;
    if !a.dom().contains("Id"@) {
        Err(RecordError::MissingAttribute("Id"))
    } else if !a.dom().contains("SortOrder"@) {
        Err(RecordError::MissingAttribute("SortOrder"))
    } else if parse_u64_spec(a["SortOrder"@]) is None {
        Err(RecordError::InvalidNumber("SortOrder"))
    } else if child_text_spec(f, "ViewPacketId"@) is None {
        Err(RecordError::MissingElement("ViewPacketId"))
    } else if child_text_spec(f, "ViewPacketId"@) == Some(None::<Seq<char>>) {
        Err(RecordError::EmptyElement("ViewPacketId"))
    } else if child_text_spec(f, "Description"@) is None {
        Err(RecordError::MissingElement("Description"))
    } else if child_text_spec(f, "DiagramKey"@) is None {
        Err(RecordError::MissingElement("DiagramKey"))
    } else if child_text_spec(f, "DiagramKey"@) == Some(None::<Seq<char>>) {
        Err(RecordError::EmptyElement("DiagramKey"))
    } else if address_id(a["Id"@]) is None {
        Err(RecordError::InvalidAddress("Behavior - id"))
    } else if address_id(text_or_empty(f, "ViewPacketId"@)) is None {
        Err(RecordError::InvalidAddress("Behavior - ViewPacketId"))
    } else {
        Ok(
            BehaviorView {
                id: address_of(a["Id"@]),
                sort_order: number_of(a["SortOrder"@]),
                view_packet_id: address_of(text_or_empty(f, "ViewPacketId"@)),
                description: text_or_empty(f, "Description"@),
                diagram_key: decimal_string(file_id as nat) + seq!['-'] + text_or_empty(f, "DiagramKey"@),
            },
        )
    }
}

/// Reads a `Behavior` element.
pub fn behavior_from_xml(item: &XmlItem, file_id: u64) -> (r: Result<Behavior, RecordError>)
    requires
        distinct_names(item.attributes@),
    ensures
        match r {
            Ok(v) => behavior_record(item@, file_id) == Ok::<BehaviorView, RecordError>(v@),
            Err(e) => behavior_record(item@, file_id) == Err::<BehaviorView, RecordError>(e),
        },
{
    let id_addr = required_attribute(item, "Id")?;
    let sort_text = required_attribute(item, "SortOrder")?;
    let sort_order = record_number(sort_text.as_str(), "SortOrder")?;
    let view_packet_addr = element_text(item, "ViewPacketId")?;
    let description = element_text_or_empty(item, "Description")?;
    let local_diagram_key = element_text(item, "DiagramKey")?;
    let id = record_address(id_addr.as_str(), "Behavior - id")?;
    let view_packet_id = record_address(view_packet_addr.as_str(), "Behavior - ViewPacketId")?;
    proof {
        reveal_strlit("-");
        assert("-"@ =~= seq!['-']);
    }
    let mut diagram_key = u64_to_decimal(file_id);
    diagram_key.append("-");
    diagram_key.append(local_diagram_key.as_str());
    assert(diagram_key@ =~= decimal_string(file_id as nat) + seq!['-'] + local_diagram_key@);
    Ok(Behavior { id, sort_order, view_packet_id, description, diagram_key })
}

// --------------------------------------------------------------- components

/// How a `Component` element reads: the attributes `Id` and `Name` and the
/// child elements `Purpose` and `Summary` are required; a `TeamId` element,
/// if there is one, must have text, and without one the team is the null
/// address. The component belongs to `file_id`.
pub open spec fn component_record(item: XmlItemView, file_id: u64) -> Result<ComponentView, RecordError> {
    let a = item.attributes;
    let f = item.fields;
    if !a.dom().contains("Id"@) {
        Err(RecordError::MissingAttribute("Id"))
    } else if !a.dom().contains("Name"@) {
        Err(RecordError::MissingAttribute("Name"))
    } else if child_text_spec(f, "Purpose"@) is None {
        Err(RecordError::MissingElement("Purpose"))
    } else if child_text_spec(f, "Summary"@) is None {
        Err(RecordError::MissingElement("Summary"))
    } else if child_text_spec(f, "TeamId"@) == Some(None::<Seq<char>>) {
        Err(RecordError::EmptyElement("TeamId"))
    } else if address_id(a["Id"@]) is None {
        Err(RecordError::InvalidAddress("Component - id"))
    } else if address_id(text_or(f, "TeamId"@, null_address())) is None {
        Err(RecordError::InvalidAddress("Component - TeamId"))
    } else {
        Ok(
            ComponentView {
                file_id: file_id,
                id: address_of(a["Id"@]),
                name: a["Name"@],
                summary: text_or_empty(f, "Summary"@),
                purpose: text_or_empty(f, "Purpose"@),
                team_id: address_of(text_or(f, "TeamId"@, null_address())),
            },
        )
    }
}

/// Reads a `Component` element.
pub fn component_from_xml(item: &XmlItem, file_id: u64) -> (r: Result<Component, RecordError>)
    requires
        distinct_names(item.attributes@),
    ensures
        match r {
            Ok(v) => component_record(item@, file_id) == Ok::<ComponentView, RecordError>(v@),
            Err(e) => component_record(item@, file_id) == Err::<ComponentView, RecordError>(e),
        },
{
    let id_addr = required_attribute(item, "Id")?;
    let name = required_attribute(item, "Name")?;
    let purpose = element_text_or_empty(item, "Purpose")?;
    let summary = element_text_or_empty(item, "Summary")?;
    let team_addr = match child_text(item, "TeamId") {
        Some(Some(t)) => t,
        Some(None) => {
            return Err(RecordError::EmptyElement("TeamId"));
        },
        None => "0.0.0.0".to_owned(),
    };
    let id = record_address(id_addr.as_str(), "Component - id")?;
    let team_id = record_address(team_addr.as_str(), "Component - TeamId")?;
    Ok(Component { file_id, id, name, summary, purpose, team_id })
}

// ------------------------------------------------------ component relations

/// How a `ComponentRelation` element reads: the attributes `Id` and
/// `SortOrder` (0 when it is not a number) are required, as are the child
/// elements `ComponentAId` and `ComponentBId` (with text), `Key` and
/// `PropertyOfRelation`; `ConnectionType`, `RelationText`,
/// `RelationDescription` and `Style` are optional.
pub open spec fn relation_record(item: XmlItemView) -> Result<ComponentRelationView, RecordError> {
    let a = item.attributes;
    let f = item.fields;
    if !a.dom().contains("Id"@) {
        Err(RecordError::MissingAttribute("Id"))
    } else if !a.dom().contains("SortOrder"@) {
        Err(RecordError::MissingAttribute("SortOrder"))
    } else if child_text_spec(f, "ComponentAId"@) is None {
        Err(RecordError::MissingElement("ComponentAId"))
    } else if child_text_spec(f, "ComponentAId"@) == Some(None::<Seq<char>>) {
        Err(RecordError::EmptyElement("ComponentAId"))
    } else if child_text_spec(f, "ComponentBId"@) is None {
        Err(RecordError::MissingElement("ComponentBId"))
    } else if child_text_spec(f, "ComponentBId"@) == Some(None::<Seq<char>>) {
        Err(RecordError::EmptyElement("ComponentBId"))
    } else if child_text_spec(f, "Key"@) is None {
        Err(RecordError::MissingElement("Key"))
    } else if child_text_spec(f, "PropertyOfRelation"@) is None {
        Err(RecordError::MissingElement("PropertyOfRelation"))
    } else if address_id(a["Id"@]) is None {
        Err(RecordError::InvalidAddress("ComponentRelation - id"))
    } else if address_id(text_or_empty(f, "ComponentAId"@)) is None {
        Err(RecordError::InvalidAddress("ComponentRelation - ComponentAId"))
    } else if address_id(text_or_empty(f, "ComponentBId"@)) is None {
        Err(RecordError::InvalidAddress("ComponentRelation - ComponentBId"))
    } else {
        Ok(
            ComponentRelationView {
                id: address_of(a["Id"@]),
                component_a_id: address_of(text_or_empty(f, "ComponentAId"@)),
                component_b_id: address_of(text_or_empty(f, "ComponentBId"@)),
                connection_type: text_or_empty(f, "ConnectionType"@),
                key: text_or_empty(f, "Key"@),
                property_of_relation: text_or_empty(f, "PropertyOfRelation"@),
                relation_text: text_or_empty(f, "RelationText"@),
                relation_description: text_or_empty(f, "RelationDescription"@),
                sort_order: number_of(a["SortOrder"@]),
                style: text_or_empty(f, "Style"@),
            },
        )
    }
}

/// `v` is the text of the first child element `name`: empty where that
/// element is empty or missing.
pub open spec fn holds_child_text(fields: Seq<crate::xml::XmlFieldView>, name: Seq<char>, v: Seq<char>) -> bool {
    match child_text_spec(fields, name) {
        Some(Some(t)) => v == t,
        _ => v.len() == 0,
    }
}

/// A relation read from XML runs from the component of its `ComponentAId`
/// element to that of its `ComponentBId` element: its component A is the
/// address value of the first element's text, its component B that of the
/// second's; its id is the address value of the `Id` attribute, its sort
/// order the number of the `SortOrder` attribute (0 where it is none), and
/// each of its texts the text of the element of that name.
pub proof fn lemma_relation_record_ends(item: XmlItemView)
    ensures
        relation_record(item) matches Ok(rel) ==> {
            &&& child_text_spec(item.fields, "ComponentAId"@) matches Some(Some(ta))
            &&& address_id(ta) == Some(rel.component_a_id)
            &&& child_text_spec(item.fields, "ComponentBId"@) matches Some(Some(tb))
            &&& address_id(tb) == Some(rel.component_b_id)
            &&& item.attributes.dom().contains("Id"@)
            &&& address_id(item.attributes["Id"@]) == Some(rel.id)
            &&& item.attributes.dom().contains("SortOrder"@)
            &&& rel.sort_order == (match parse_u64_spec(item.attributes["SortOrder"@]) {
                Some(v) => v,
                None => 0,
            })
            &&& holds_child_text(item.fields, "Key"@, rel.key)
            &&& holds_child_text(item.fields, "PropertyOfRelation"@, rel.property_of_relation)
            &&& holds_child_text(item.fields, "ConnectionType"@, rel.connection_type)
            &&& holds_child_text(item.fields, "RelationText"@, rel.relation_text)
            &&& holds_child_text(item.fields, "RelationDescription"@, rel.relation_description)
            &&& holds_child_text(item.fields, "Style"@, rel.style)
        },
{
}

/// Reads a `ComponentRelation` element.
pub fn relation_from_xml(item: &XmlItem) -> (r: Result<ComponentRelation, RecordError>)
    requires
        distinct_names(item.attributes@),
    ensures
        match r {
            Ok(v) => relation_record(item@) == Ok::<ComponentRelationView, RecordError>(v@),
            Err(e) => relation_record(item@) == Err::<ComponentRelationView, RecordError>(e),
        },
{
    let id_addr = required_attribute(item, "Id")?;
    let sort_text = required_attribute(item, "SortOrder")?;
    let sort_order = match parse_u64(sort_text.as_str()) {
        Some(v) => v,
        None => 0,
    };
    let component_a_addr = element_text(item, "ComponentAId")?;
    let component_b_addr = element_text(item, "ComponentBId")?;
    let connection_type = element_text_or(item, "ConnectionType", "");
    let key = element_text_or_empty(item, "Key")?;
    let property_of_relation = element_text_or_empty(item, "PropertyOfRelation")?;
    let relation_text = element_text_or(item, "RelationText", "");
    let relation_description = element_text_or(item, "RelationDescription", "");
    let style = element_text_or(item, "Style", "");
    proof {
        reveal_strlit("");
        assert(""@ =~= Seq::<char>::empty());
    }
    let id = record_address(id_addr.as_str(), "ComponentRelation - id")?;
    let component_a_id = record_address(component_a_addr.as_str(), "ComponentRelation - ComponentAId")?;
    let component_b_id = record_address(component_b_addr.as_str(), "ComponentRelation - ComponentBId")?;
    Ok(
        ComponentRelation {
            id,
            component_a_id,
            component_b_id,
            connection_type,
            key,
            property_of_relation,
            relation_text,
            relation_description,
            sort_order,
            style,
        },
    )
}

// -------------------------------------------------------------------- teams

/// How a `Team` element reads: the attributes `Id` and `Name` and the child
/// element `Description` are required.
pub open spec fn team_record(item: XmlItemView) -> Result<TeamView, RecordError> {
    let a = item.attributes;
    let f = item.fields;
    if !a.dom().contains("Id"@) {
        Err(RecordError::MissingAttribute("Id"))
    } else if !a.dom().contains("Name"@) {
        Err(RecordError::MissingAttribute("Name"))
    } else if child_text_spec(f, "Description"@) is None {
        Err(RecordError::MissingElement("Description"))
    } else if address_id(a["Id"@]) is None {
        Err(RecordError::InvalidAddress("Team - id"))
    } else {
        Ok(
            TeamView {
                id: address_of(a["Id"@]),
                name: a["Name"@],
                description: text_or_empty(f, "Description"@),
            },
        )
    }
}

/// Reads a `Team` element.
pub fn team_from_xml(item: &XmlItem) -> (r: Result<Team, RecordError>)
    requires
        distinct_names(item.attributes@),
    ensures
        match r {
            Ok(v) => team_record(item@) == Ok::<TeamView, RecordError>(v@),
            Err(e) => team_record(item@) == Err::<TeamView, RecordError>(e),
        },
{
    let id_addr = required_attribute(item, "Id")?;
    let name = required_attribute(item, "Name")?;
    let description = element_text_or_empty(item, "Description")?;
    let id = record_address(id_addr.as_str(), "Team - id")?;
    Ok(Team { id, name, description })
}

/// The behaviors that the document's `Behavior` elements give.
pub open spec fn behavior_records(items: Seq<XmlNodeView>, file_id: u64) -> Result<
    Seq<BehaviorView>,
    RecordError,
> {
    records_of(items, "Behavior"@, |it: XmlItemView| behavior_record(it, file_id))
}

/// Adds a Behavior row for each `Behavior` element of the document, in
/// document order; without such elements it adds nothing and succeeds. The
/// first element that cannot be read stops it with that element's error,
/// before any insert, as does a failed insert; the rows added before stay.
pub fn populate_db_with_behaviors(
    db_conn: &mut rusqlite::Connection,
    xml_root: &XmlDocument,
    file_id: u64,
) -> (r: Result<(), PopulateError>)
    requires
        xml_root.wf(),
    ensures
        r is Ok ==> (behavior_records(xml_root@.items, file_id) matches Ok(rows) && db_tables(
            *final(db_conn),
        ) == with_rows(db_tables(*old(db_conn)), Table::Behavior, behavior_rows(rows))),
        r matches Err(PopulateError::Record(kind, e)) ==> kind == "Behavior" && behavior_records(
            xml_root@.items,
            file_id,
        ) == Err::<Seq<BehaviorView>, RecordError>(e),
        r is Err ==> exists|rows: Seq<BehaviorView>|
            record_prefix(xml_root@.items, "Behavior"@, |it: XmlItemView| behavior_record(it, file_id), rows) && db_tables(*final(db_conn)) == with_rows(
                db_tables(*old(db_conn)),
                Table::Behavior,
                behavior_rows(rows),
            ),
        behavior_records(xml_root@.items, file_id) == Ok::<Seq<BehaviorView>, RecordError>(Seq::empty()) ==> r is Ok && db_tables(*final(db_conn)) == db_tables(
            *old(db_conn),
        ),
        first_record_error(xml_root@.items, "Behavior"@, |it: XmlItemView| behavior_record(it, file_id)) matches Some(e) ==> (r matches Err(
            PopulateError::Record(kind, e2),
        ) && kind == "Behavior" && e2 == e && db_tables(*final(db_conn)) == db_tables(*old(db_conn))),
{
    let ghost before = db_tables(*db_conn);
    let ghost rec = |it: XmlItemView| behavior_record(it, file_id);
    let ghost as_row = |r: BehaviorView| RowView::Behavior(r);
    let ghost items = xml_root@.items;
    let ghost mut rows: Seq<BehaviorView> = Seq::empty();
    let mut i: usize = 0;
    proof {
        crate::order::lemma_map_empty_multiset(rows, as_row);
        assert(items.take(0) =~= Seq::<XmlNodeView>::empty());
        assert(items.skip(0) =~= items);
    }
    while i < xml_root.items.len()
        invariant
            i <= xml_root.items.len(),
            xml_root.wf(),
            items == xml_root@.items,
            items.len() == xml_root.items@.len(),
            rec == (|it: XmlItemView| behavior_record(it, file_id)),
            as_row == (|r: BehaviorView| RowView::Behavior(r)),
            before == db_tables(*old(db_conn)),
            records_of(items.take(i as int), "Behavior"@, rec) == Ok::<Seq<BehaviorView>, RecordError>(rows),
            first_record_error(items, "Behavior"@, rec) is Some ==> rows.len() == 0 && first_record_error(
                items.skip(i as int),
                "Behavior"@,
                rec,
            ) == first_record_error(items, "Behavior"@, rec),
            rows.len() > 0 ==> before.dom().contains(Table::Behavior),
            db_tables(*db_conn) == with_rows(before, Table::Behavior, behavior_rows(rows)),
        decreases xml_root.items.len() - i,
    {
        assert(items.take(i + 1).drop_last() =~= items.take(i as int));
        assert(items.take(i + 1).last() == xml_root.items@[i as int]@);
        assert(items.skip(i as int).drop_first() =~= items.skip(i + 1));
        assert(items.skip(i as int)[0] == xml_root.items@[i as int]@);
        assert(behavior_rows(rows) == rows.map_values(as_row).to_multiset());
        match &xml_root.items[i] {
            XmlNode::Item(item) => {
                assert(distinct_names(item.attributes@));
                if crate::text::str_equal(item.name.as_str(), "Behavior") {
                    let v = match behavior_from_xml(item, file_id) {
                        Ok(v) => v,
                        Err(e) => {
                            proof {
                                lemma_records_error_persists(items, i as int + 1, "Behavior"@, rec);
                                if first_record_error(items, "Behavior"@, rec) is Some {
                                    assert(first_record_error(items.skip(i as int), "Behavior"@, rec) == Some(e));
                                    crate::order::lemma_map_empty_multiset(rows, as_row);
                                }
                            }
                            return Err(PopulateError::Record("Behavior", e));
                        },
                    };
                    proof {
                        if rows.len() == 0 {
                            crate::order::lemma_map_empty_multiset(rows, as_row);
                        }
                    }
                    assert(records_of(items.take(i + 1), "Behavior"@, rec) == Ok::<Seq<BehaviorView>, RecordError>(rows.push(v@)));
                    match insert_behavior(db_conn, &v) {
                        Ok(_) => {},
                        Err(e) => {
                            proof {
                                if records_of(items, "Behavior"@, rec) is Ok {
                                    lemma_records_prefix_len(items, i as int + 1, "Behavior"@, rec);
                                }
                            }
                            return Err(PopulateError::Sqlite(e));
                        },
                    }
                    proof {
                        lemma_with_rows_push(before, Table::Behavior, rows, v@, as_row);
                        assert(behavior_rows(rows.push(v@)) == rows.push(v@).map_values(as_row).to_multiset());
                        rows = rows.push(v@);
                    }
                }
            },
            XmlNode::Other => {},
        }
        i = i + 1;
    }
    assert(items.take(xml_root.items.len() as int) =~= items);
    assert(items.skip(xml_root.items.len() as int) =~= Seq::<XmlNodeView>::empty());
    proof {
        if rows.len() == 0 {
            crate::order::lemma_map_empty_multiset(rows, as_row);
        }
    }
    Ok(())
}

/// The components that the document's `Component` elements give.
pub open spec fn component_records(items: Seq<XmlNodeView>, file_id: u64) -> Result<
    Seq<ComponentView>,
    RecordError,
> {
    records_of(items, "Component"@, |it: XmlItemView| component_record(it, file_id))
}

/// Adds a Component row for each `Component` element of the document, in
/// document order; without such elements it adds nothing and succeeds. The
/// first element that cannot be read stops it with that element's error,
/// before any insert, as does a failed insert; the rows added before stay.
pub fn populate_db_with_components(
    db_conn: &mut rusqlite::Connection,
    xml_root: &XmlDocument,
    file_id: u64,
) -> (r: Result<(), PopulateError>)
    requires
        xml_root.wf(),
    ensures
        r is Ok ==> (component_records(xml_root@.items, file_id) matches Ok(rows) && db_tables(
            *final(db_conn),
        ) == with_rows(db_tables(*old(db_conn)), Table::Component, component_rows(rows))),
        r matches Err(PopulateError::Record(kind, e)) ==> kind == "Component" && component_records(
            xml_root@.items,
            file_id,
        ) == Err::<Seq<ComponentView>, RecordError>(e),
        r is Err ==> exists|rows: Seq<ComponentView>|
            record_prefix(xml_root@.items, "Component"@, |it: XmlItemView| component_record(it, file_id), rows) && db_tables(*final(db_conn)) == with_rows(
                db_tables(*old(db_conn)),
                Table::Component,
                component_rows(rows),
            ),
        component_records(xml_root@.items, file_id) == Ok::<Seq<ComponentView>, RecordError>(Seq::empty()) ==> r is Ok && db_tables(*final(db_conn)) == db_tables(
            *old(db_conn),
        ),
        first_record_error(xml_root@.items, "Component"@, |it: XmlItemView| component_record(it, file_id)) matches Some(e) ==> (r matches Err(
            PopulateError::Record(kind, e2),
        ) && kind == "Component" && e2 == e && db_tables(*final(db_conn)) == db_tables(*old(db_conn))),
{
    let ghost before = db_tables(*db_conn);
    let ghost rec = |it: XmlItemView| component_record(it, file_id);
    let ghost as_row = |r: ComponentView| RowView::Component(r);
    let ghost items = xml_root@.items;
    let ghost mut rows: Seq<ComponentView> = Seq::empty();
    let mut i: usize = 0;
    proof {
        crate::order::lemma_map_empty_multiset(rows, as_row);
        assert(items.take(0) =~= Seq::<XmlNodeView>::empty());
        assert(items.skip(0) =~= items);
    }
    while i < xml_root.items.len()
        invariant
            i <= xml_root.items.len(),
            xml_root.wf(),
            items == xml_root@.items,
            items.len() == xml_root.items@.len(),
            rec == (|it: XmlItemView| component_record(it, file_id)),
            as_row == (|r: ComponentView| RowView::Component(r)),
            before == db_tables(*old(db_conn)),
            records_of(items.take(i as int), "Component"@, rec) == Ok::<Seq<ComponentView>, RecordError>(rows),
            first_record_error(items, "Component"@, rec) is Some ==> rows.len() == 0 && first_record_error(
                items.skip(i as int),
                "Component"@,
                rec,
            ) == first_record_error(items, "Component"@, rec),
            rows.len() > 0 ==> before.dom().contains(Table::Component),
            db_tables(*db_conn) == with_rows(before, Table::Component, component_rows(rows)),
        decreases xml_root.items.len() - i,
    {
        assert(items.take(i + 1).drop_last() =~= items.take(i as int));
        assert(items.take(i + 1).last() == xml_root.items@[i as int]@);
        assert(items.skip(i as int).drop_first() =~= items.skip(i + 1));
        assert(items.skip(i as int)[0] == xml_root.items@[i as int]@);
        assert(component_rows(rows) == rows.map_values(as_row).to_multiset());
        match &xml_root.items[i] {
            XmlNode::Item(item) => {
                assert(distinct_names(item.attributes@));
                if crate::text::str_equal(item.name.as_str(), "Component") {
                    let v = match component_from_xml(item, file_id) {
                        Ok(v) => v,
                        Err(e) => {
                            proof {
                                lemma_records_error_persists(items, i as int + 1, "Component"@, rec);
                                if first_record_error(items, "Component"@, rec) is Some {
                                    assert(first_record_error(items.skip(i as int), "Component"@, rec) == Some(e));
                                    crate::order::lemma_map_empty_multiset(rows, as_row);
                                }
                            }
                            return Err(PopulateError::Record("Component", e));
                        },
                    };
                    proof {
                        if rows.len() == 0 {
                            crate::order::lemma_map_empty_multiset(rows, as_row);
                        }
                    }
                    assert(records_of(items.take(i + 1), "Component"@, rec) == Ok::<Seq<ComponentView>, RecordError>(rows.push(v@)));
                    match insert_component(db_conn, &v) {
                        Ok(_) => {},
                        Err(e) => {
                            proof {
                                if records_of(items, "Component"@, rec) is Ok {
                                    lemma_records_prefix_len(items, i as int + 1, "Component"@, rec);
                                }
                            }
                            return Err(PopulateError::Sqlite(e));
                        },
                    }
                    proof {
                        lemma_with_rows_push(before, Table::Component, rows, v@, as_row);
                        assert(component_rows(rows.push(v@)) == rows.push(v@).map_values(as_row).to_multiset());
                        rows = rows.push(v@);
                    }
                }
            },
            XmlNode::Other => {},
        }
        i = i + 1;
    }
    assert(items.take(xml_root.items.len() as int) =~= items);
    assert(items.skip(xml_root.items.len() as int) =~= Seq::<XmlNodeView>::empty());
    proof {
        if rows.len() == 0 {
            crate::order::lemma_map_empty_multiset(rows, as_row);
        }
    }
    Ok(())
}

/// The component relations that the document's `ComponentRelation` elements give.
pub open spec fn relation_records(items: Seq<XmlNodeView>) -> Result<
    Seq<ComponentRelationView>,
    RecordError,
> {
    records_of(items, "ComponentRelation"@, |it: XmlItemView| relation_record(it))
}

/// Adds a ComponentRelation row for each `ComponentRelation` element of the document, in
/// document order; without such elements it adds nothing and succeeds. The
/// first element that cannot be read stops it with that element's error,
/// before any insert, as does a failed insert; the rows added before stay.
pub fn populate_db_with_componentrelations(
    db_conn: &mut rusqlite::Connection,
    xml_root: &XmlDocument,
) -> (r: Result<(), PopulateError>)
    requires
        xml_root.wf(),
    ensures
        r is Ok ==> (relation_records(xml_root@.items) matches Ok(rows) && db_tables(
            *final(db_conn),
        ) == with_rows(db_tables(*old(db_conn)), Table::ComponentRelation, relation_rows(rows))),
        r matches Err(PopulateError::Record(kind, e)) ==> kind == "ComponentRelation" && relation_records(xml_root@.items) == Err::<Seq<ComponentRelationView>, RecordError>(e),
        r is Err ==> exists|rows: Seq<ComponentRelationView>|
            record_prefix(xml_root@.items, "ComponentRelation"@, |it: XmlItemView| relation_record(it), rows) && db_tables(*final(db_conn)) == with_rows(
                db_tables(*old(db_conn)),
                Table::ComponentRelation,
                relation_rows(rows),
            ),
        relation_records(xml_root@.items) == Ok::<Seq<ComponentRelationView>, RecordError>(Seq::empty()) ==> r is Ok && db_tables(*final(db_conn)) == db_tables(
            *old(db_conn),
        ),
        first_record_error(xml_root@.items, "ComponentRelation"@, |it: XmlItemView| relation_record(it)) matches Some(e) ==> (r matches Err(
            PopulateError::Record(kind, e2),
        ) && kind == "ComponentRelation" && e2 == e && db_tables(*final(db_conn)) == db_tables(*old(db_conn))),
{
    let ghost before = db_tables(*db_conn);
    let ghost rec = |it: XmlItemView| relation_record(it);
    let ghost as_row = |r: ComponentRelationView| RowView::ComponentRelation(r);
    let ghost items = xml_root@.items;
    let ghost mut rows: Seq<ComponentRelationView> = Seq::empty();
    let mut i: usize = 0;
    proof {
        crate::order::lemma_map_empty_multiset(rows, as_row);
        assert(items.take(0) =~= Seq::<XmlNodeView>::empty());
        assert(items.skip(0) =~= items);
    }
    while i < xml_root.items.len()
        invariant
            i <= xml_root.items.len(),
            xml_root.wf(),
            items == xml_root@.items,
            items.len() == xml_root.items@.len(),
            rec == (|it: XmlItemView| relation_record(it)),
            as_row == (|r: ComponentRelationView| RowView::ComponentRelation(r)),
            before == db_tables(*old(db_conn)),
            records_of(items.take(i as int), "ComponentRelation"@, rec) == Ok::<Seq<ComponentRelationView>, RecordError>(rows),
            first_record_error(items, "ComponentRelation"@, rec) is Some ==> rows.len() == 0 && first_record_error(
                items.skip(i as int),
                "ComponentRelation"@,
                rec,
            ) == first_record_error(items, "ComponentRelation"@, rec),
            rows.len() > 0 ==> before.dom().contains(Table::ComponentRelation),
            db_tables(*db_conn) == with_rows(before, Table::ComponentRelation, relation_rows(rows)),
        decreases xml_root.items.len() - i,
    {
        assert(items.take(i + 1).drop_last() =~= items.take(i as int));
        assert(items.take(i + 1).last() == xml_root.items@[i as int]@);
        assert(items.skip(i as int).drop_first() =~= items.skip(i + 1));
        assert(items.skip(i as int)[0] == xml_root.items@[i as int]@);
        assert(relation_rows(rows) == rows.map_values(as_row).to_multiset());
        match &xml_root.items[i] {
            XmlNode::Item(item) => {
                assert(distinct_names(item.attributes@));
                if crate::text::str_equal(item.name.as_str(), "ComponentRelation") {
                    let v = match relation_from_xml(item) {
                        Ok(v) => v,
                        Err(e) => {
                            proof {
                                lemma_records_error_persists(items, i as int + 1, "ComponentRelation"@, rec);
                                if first_record_error(items, "ComponentRelation"@, rec) is Some {
                                    assert(first_record_error(items.skip(i as int), "ComponentRelation"@, rec) == Some(e));
                                    crate::order::lemma_map_empty_multiset(rows, as_row);
                                }
                            }
                            return Err(PopulateError::Record("ComponentRelation", e));
                        },
                    };
                    proof {
                        if rows.len() == 0 {
                            crate::order::lemma_map_empty_multiset(rows, as_row);
                        }
                    }
                    assert(records_of(items.take(i + 1), "ComponentRelation"@, rec) == Ok::<Seq<ComponentRelationView>, RecordError>(rows.push(v@)));
                    match insert_relation(db_conn, &v) {
                        Ok(_) => {},
                        Err(e) => {
                            proof {
                                if records_of(items, "ComponentRelation"@, rec) is Ok {
                                    lemma_records_prefix_len(items, i as int + 1, "ComponentRelation"@, rec);
                                }
                            }
                            return Err(PopulateError::Sqlite(e));
                        },
                    }
                    proof {
                        lemma_with_rows_push(before, Table::ComponentRelation, rows, v@, as_row);
                        assert(relation_rows(rows.push(v@)) == rows.push(v@).map_values(as_row).to_multiset());
                        rows = rows.push(v@);
                    }
                }
            },
            XmlNode::Other => {},
        }
        i = i + 1;
    }
    assert(items.take(xml_root.items.len() as int) =~= items);
    assert(items.skip(xml_root.items.len() as int) =~= Seq::<XmlNodeView>::empty());
    proof {
        if rows.len() == 0 {
            crate::order::lemma_map_empty_multiset(rows, as_row);
        }
    }
    Ok(())
}

/// The teams that the document's `Team` elements give.
pub open spec fn team_records(items: Seq<XmlNodeView>) -> Result<
    Seq<TeamView>,
    RecordError,
> {
    records_of(items, "Team"@, |it: XmlItemView| team_record(it))
}

/// Adds a Team row for each `Team` element of the document, in
/// document order; without such elements it adds nothing and succeeds. The
/// first element that cannot be read stops it with that element's error,
/// before any insert, as does a failed insert; the rows added before stay.
pub fn populate_db_with_teams(
    db_conn: &mut rusqlite::Connection,
    xml_root: &XmlDocument,
) -> (r: Result<(), PopulateError>)
    requires
        xml_root.wf(),
    ensures
        r is Ok ==> (team_records(xml_root@.items) matches Ok(rows) && db_tables(
            *final(db_conn),
        ) == with_rows(db_tables(*old(db_conn)), Table::Team, team_rows(rows))),
        r matches Err(PopulateError::Record(kind, e)) ==> kind == "Team" && team_records(xml_root@.items) == Err::<Seq<TeamView>, RecordError>(e),
        r is Err ==> exists|rows: Seq<TeamView>|
            record_prefix(xml_root@.items, "Team"@, |it: XmlItemView| team_record(it), rows) && db_tables(*final(db_conn)) == with_rows(
                db_tables(*old(db_conn)),
                Table::Team,
                team_rows(rows),
            ),
        team_records(xml_root@.items) == Ok::<Seq<TeamView>, RecordError>(Seq::empty()) ==> r is Ok && db_tables(*final(db_conn)) == db_tables(
            *old(db_conn),
        ),
        first_record_error(xml_root@.items, "Team"@, |it: XmlItemView| team_record(it)) matches Some(e) ==> (r matches Err(
            PopulateError::Record(kind, e2),
        ) && kind == "Team" && e2 == e && db_tables(*final(db_conn)) == db_tables(*old(db_conn))),
{
    let ghost before = db_tables(*db_conn);
    let ghost rec = |it: XmlItemView| team_record(it);
    let ghost as_row = |r: TeamView| RowView::Team(r);
    let ghost items = xml_root@.items;
    let ghost mut rows: Seq<TeamView> = Seq::empty();
    let mut i: usize = 0;
    proof {
        crate::order::lemma_map_empty_multiset(rows, as_row);
        assert(items.take(0) =~= Seq::<XmlNodeView>::empty());
        assert(items.skip(0) =~= items);
    }
    while i < xml_root.items.len()
        invariant
            i <= xml_root.items.len(),
            xml_root.wf(),
            items == xml_root@.items,
            items.len() == xml_root.items@.len(),
            rec == (|it: XmlItemView| team_record(it)),
            as_row == (|r: TeamView| RowView::Team(r)),
            before == db_tables(*old(db_conn)),
            records_of(items.take(i as int), "Team"@, rec) == Ok::<Seq<TeamView>, RecordError>(rows),
            first_record_error(items, "Team"@, rec) is Some ==> rows.len() == 0 && first_record_error(
                items.skip(i as int),
                "Team"@,
                rec,
            ) == first_record_error(items, "Team"@, rec),
            rows.len() > 0 ==> before.dom().contains(Table::Team),
            db_tables(*db_conn) == with_rows(before, Table::Team, team_rows(rows)),
        decreases xml_root.items.len() - i,
    {
        assert(items.take(i + 1).drop_last() =~= items.take(i as int));
        assert(items.take(i + 1).last() == xml_root.items@[i as int]@);
        assert(items.skip(i as int).drop_first() =~= items.skip(i + 1));
        assert(items.skip(i as int)[0] == xml_root.items@[i as int]@);
        assert(team_rows(rows) == rows.map_values(as_row).to_multiset());
        match &xml_root.items[i] {
            XmlNode::Item(item) => {
                assert(distinct_names(item.attributes@));
                if crate::text::str_equal(item.name.as_str(), "Team") {
                    let v = match team_from_xml(item) {
                        Ok(v) => v,
                        Err(e) => {
                            proof {
                                lemma_records_error_persists(items, i as int + 1, "Team"@, rec);
                                if first_record_error(items, "Team"@, rec) is Some {
                                    assert(first_record_error(items.skip(i as int), "Team"@, rec) == Some(e));
                                    crate::order::lemma_map_empty_multiset(rows, as_row);
                                }
                            }
                            return Err(PopulateError::Record("Team", e));
                        },
                    };
                    proof {
                        if rows.len() == 0 {
                            crate::order::lemma_map_empty_multiset(rows, as_row);
                        }
                    }
                    assert(records_of(items.take(i + 1), "Team"@, rec) == Ok::<Seq<TeamView>, RecordError>(rows.push(v@)));
                    match insert_team(db_conn, &v) {
                        Ok(_) => {},
                        Err(e) => {
                            proof {
                                if records_of(items, "Team"@, rec) is Ok {
                                    lemma_records_prefix_len(items, i as int + 1, "Team"@, rec);
                                }
                            }
                            return Err(PopulateError::Sqlite(e));
                        },
                    }
                    proof {
                        lemma_with_rows_push(before, Table::Team, rows, v@, as_row);
                        assert(team_rows(rows.push(v@)) == rows.push(v@).map_values(as_row).to_multiset());
                        rows = rows.push(v@);
                    }
                }
            },
            XmlNode::Other => {},
        }
        i = i + 1;
    }
    assert(items.take(xml_root.items.len() as int) =~= items);
    assert(items.skip(xml_root.items.len() as int) =~= Seq::<XmlNodeView>::empty());
    proof {
        if rows.len() == 0 {
            crate::order::lemma_map_empty_multiset(rows, as_row);
        }
    }
    Ok(())
}


// ---------------------------------------------------------------- documents

/// The file id of a `Document` element: its child element `FileId` must be
/// there, with a number as its text.
pub open spec fn document_file_id(item: XmlItemView) -> Result<u64, RecordError> {
    let f = item.fields;
    if child_text_spec(f, "FileId"@) is None {
        Err(RecordError::MissingElement("FileId"))
    } else if child_text_spec(f, "FileId"@) == Some(None::<Seq<char>>) {
        Err(RecordError::EmptyElement("FileId"))
    } else if parse_u64_spec(text_or_empty(f, "FileId"@)) is None {
        Err(RecordError::InvalidNumber("FileId"))
    } else {
        Ok(number_of(text_or_empty(f, "FileId"@)))
    }
}

/// How a `Document` element of the file `filename` reads: its file id, and
/// the optional child elements `Title`, `Issue` and `Summary`.
pub open spec fn document_record(item: XmlItemView, filename: Seq<char>) -> Result<DocumentView, RecordError> {
    match document_file_id(item) {
        Err(e) => Err(e),
        Ok(file_id) => Ok(
            DocumentView {
                file_id: file_id,
                filename: filename,
                title: text_or_empty(item.fields, "Title"@),
                issue: text_or_empty(item.fields, "Issue"@),
                summary: text_or_empty(item.fields, "Summary"@),
            },
        ),
    }
}

fn file_id_from_xml(item: &XmlItem) -> (r: Result<u64, RecordError>)
    ensures
        match r {
            Ok(v) => document_file_id(item@) == Ok::<u64, RecordError>(v),
            Err(e) => document_file_id(item@) == Err::<u64, RecordError>(e),
        },
{
    let text = element_text(item, "FileId")?;
    record_number(text.as_str(), "FileId")
}

/// Reads a `Document` element of the file `filename`.
pub fn document_from_xml(item: &XmlItem, filename: &str) -> (r: Result<Document, RecordError>)
    requires
        distinct_names(item.attributes@),
    ensures
        match r {
            Ok(v) => document_record(item@, filename@) == Ok::<DocumentView, RecordError>(v@),
            Err(e) => document_record(item@, filename@) == Err::<DocumentView, RecordError>(e),
        },
{
    let file_id = file_id_from_xml(item)?;
    let title = element_text_or(item, "Title", "");
    let issue = element_text_or(item, "Issue", "");
    let summary = element_text_or(item, "Summary", "");
    proof {
        reveal_strlit("");
        assert(""@ =~= Seq::<char>::empty());
    }
    Ok(Document { file_id, filename: filename.to_owned(), title, issue, summary })
}

/// The documents that the document's `Document` elements give.
pub open spec fn document_records(items: Seq<XmlNodeView>, filename: Seq<char>) -> Result<
    Seq<DocumentView>,
    RecordError,
> {
    records_of(items, "Document"@, |it: XmlItemView| document_record(it, filename))
}

/// The file id of the last document, or 0 when there is none.
pub open spec fn last_file_id(rows: Seq<DocumentView>) -> u64 {
    if rows.len() == 0 {
        0
    } else {
        rows.last().file_id
    }
}

/// The file id that an included file declares: that of its last `Document`
/// element, or 0 when it has none.
pub fn get_file_id_from_include_xml(xml_root: &XmlDocument) -> (r: Result<u64, RecordError>)
    ensures
        match r {
            Ok(id) => records_of(xml_root@.items, "Document"@, |it: XmlItemView| document_file_id(it)) matches Ok(ids)
                && id == (if ids.len() == 0 { 0 } else { ids.last() }),
            Err(e) => records_of(xml_root@.items, "Document"@, |it: XmlItemView| document_file_id(it))
                == Err::<Seq<u64>, RecordError>(e),
        },
{
    let ghost rec = |it: XmlItemView| document_file_id(it);
    let ghost items = xml_root@.items;
    let ghost mut ids: Seq<u64> = Seq::empty();
    let mut file_id: u64 = 0;
    let mut i: usize = 0;
    assert(items.take(0) =~= Seq::<XmlNodeView>::empty());
    while i < xml_root.items.len()
        invariant
            i <= xml_root.items.len(),
            items == xml_root@.items,
            items.len() == xml_root.items@.len(),
            rec == (|it: XmlItemView| document_file_id(it)),
            records_of(items.take(i as int), "Document"@, rec) == Ok::<Seq<u64>, RecordError>(ids),
            file_id == (if ids.len() == 0 { 0 } else { ids.last() }),
        decreases xml_root.items.len() - i,
    {
        assert(items.take(i + 1).drop_last() =~= items.take(i as int));
        assert(items.take(i + 1).last() == xml_root.items@[i as int]@);
        match &xml_root.items[i] {
            XmlNode::Item(item) => {
                if crate::text::str_equal(item.name.as_str(), "Document") {
                    match file_id_from_xml(item) {
                        Ok(v) => {
                            file_id = v;
                            proof {
                                ids = ids.push(v);
                            }
                        },
                        Err(e) => {
                            proof {
                                lemma_records_error_persists(items, i as int + 1, "Document"@, rec);
                            }
                            return Err(e);
                        },
                    }
                }
            },
            XmlNode::Other => {},
        }
        i = i + 1;
    }
    assert(items.take(xml_root.items.len() as int) =~= items);
    Ok(file_id)
}

// ----------------------------------------------------------------- includes

/// How an `Include` element reads: the attribute `url` is required, and the
/// element's text, which names the included file. The include belongs to file
/// 0 until that file is read.
pub open spec fn include_record(item: XmlItemView) -> Result<IncludeView, RecordError> {
    if !item.attributes.dom().contains("url"@) {
        Err(RecordError::MissingAttribute("url"))
    } else if item.text is None {
        Err(RecordError::EmptyElement("Include"))
    } else {
        Ok(IncludeView { file_id: 0, filename: item.text->0, url: item.attributes["url"@] })
    }
}

/// Reads an `Include` element.
pub fn include_from_xml(item: &XmlItem) -> (r: Result<Include, RecordError>)
    requires
        distinct_names(item.attributes@),
    ensures
        match r {
            Ok(v) => include_record(item@) == Ok::<IncludeView, RecordError>(v@),
            Err(e) => include_record(item@) == Err::<IncludeView, RecordError>(e),
        },
{
    let url = required_attribute(item, "url")?;
    let filename = match &item.text {
        Some(t) => t.clone(),
        None => {
            return Err(RecordError::EmptyElement("Include"));
        },
    };
    Ok(Include { file_id: 0, filename, url })
}

/// The includes that the document's `Include` elements give.
pub open spec fn include_records(items: Seq<XmlNodeView>) -> Result<Seq<IncludeView>, RecordError> {
    records_of(items, "Include"@, |it: XmlItemView| include_record(it))
}

/// Adds a document row for each `Document` element, in document order, and
/// gives the file id of the last one (0, adding nothing, when there is
/// none). The first element that cannot be read stops it with that
/// element's error, before any insert, as does a failed insert; the rows
/// added before stay.
pub fn populate_db_with_document(
    db_conn: &mut rusqlite::Connection,
    xml_root: &XmlDocument,
    filename: &str,
) -> (r: Result<u64, PopulateError>)
    requires
        xml_root.wf(),
    ensures
        r matches Ok(file_id) ==> (document_records(xml_root@.items, filename@) matches Ok(rows)
            && file_id == last_file_id(rows) && db_tables(*final(db_conn)) == with_rows(
            db_tables(*old(db_conn)),
            Table::Document,
            document_rows(rows),
        )),
        r matches Err(PopulateError::Record(kind, e)) ==> kind == "Document" && document_records(xml_root@.items, filename@) == Err::<Seq<DocumentView>, RecordError>(e),
        r is Err ==> exists|rows: Seq<DocumentView>|
            record_prefix(xml_root@.items, "Document"@, |it: XmlItemView| document_record(it, filename@), rows) && db_tables(*final(db_conn)) == with_rows(
                db_tables(*old(db_conn)),
                Table::Document,
                document_rows(rows),
            ),
        document_records(xml_root@.items, filename@) == Ok::<Seq<DocumentView>, RecordError>(Seq::empty()) ==> r is Ok && db_tables(*final(db_conn)) == db_tables(
            *old(db_conn),
        ),
        first_record_error(xml_root@.items, "Document"@, |it: XmlItemView| document_record(it, filename@)) matches Some(e) ==> (r matches Err(
            PopulateError::Record(kind, e2),
        ) && kind == "Document" && e2 == e && db_tables(*final(db_conn)) == db_tables(*old(db_conn))),
{
    let ghost before = db_tables(*db_conn);
    let ghost rec = |it: XmlItemView| document_record(it, filename@);
    let ghost as_row = |r: DocumentView| RowView::Document(r);
    let ghost items = xml_root@.items;
    let ghost mut rows: Seq<DocumentView> = Seq::empty();
    let mut i: usize = 0;
    let mut file_id: u64 = 0;
    proof {
        crate::order::lemma_map_empty_multiset(rows, as_row);
        assert(items.take(0) =~= Seq::<XmlNodeView>::empty());
        assert(items.skip(0) =~= items);
    }
    while i < xml_root.items.len()
        invariant
            i <= xml_root.items.len(),
            xml_root.wf(),
            items == xml_root@.items,
            items.len() == xml_root.items@.len(),
            rec == (|it: XmlItemView| document_record(it, filename@)),
            as_row == (|r: DocumentView| RowView::Document(r)),
            before == db_tables(*old(db_conn)),
            records_of(items.take(i as int), "Document"@, rec) == Ok::<Seq<DocumentView>, RecordError>(rows),
            first_record_error(items, "Document"@, rec) is Some ==> rows.len() == 0 && first_record_error(
                items.skip(i as int),
                "Document"@,
                rec,
            ) == first_record_error(items, "Document"@, rec),
            rows.len() > 0 ==> before.dom().contains(Table::Document),
            db_tables(*db_conn) == with_rows(before, Table::Document, document_rows(rows)),
            file_id == last_file_id(rows),
        decreases xml_root.items.len() - i,
    {
        assert(items.take(i + 1).drop_last() =~= items.take(i as int));
        assert(items.take(i + 1).last() == xml_root.items@[i as int]@);
        assert(items.skip(i as int).drop_first() =~= items.skip(i + 1));
        assert(items.skip(i as int)[0] == xml_root.items@[i as int]@);
        assert(document_rows(rows) == rows.map_values(as_row).to_multiset());
        match &xml_root.items[i] {
            XmlNode::Item(item) => {
                assert(distinct_names(item.attributes@));
                if crate::text::str_equal(item.name.as_str(), "Document") {
                    let v = match document_from_xml(item, filename) {
                        Ok(v) => v,
                        Err(e) => {
                            proof {
                                lemma_records_error_persists(items, i as int + 1, "Document"@, rec);
                                if first_record_error(items, "Document"@, rec) is Some {
                                    assert(first_record_error(items.skip(i as int), "Document"@, rec) == Some(e));
                                    crate::order::lemma_map_empty_multiset(rows, as_row);
                                }
                            }
                            return Err(PopulateError::Record("Document", e));
                        },
                    };
                    proof {
                        if rows.len() == 0 {
                            crate::order::lemma_map_empty_multiset(rows, as_row);
                        }
                    }
                    assert(records_of(items.take(i + 1), "Document"@, rec) == Ok::<Seq<DocumentView>, RecordError>(rows.push(v@)));
                    match insert_document(db_conn, &v) {
                        Ok(_) => {},
                        Err(e) => {
                            proof {
                                if records_of(items, "Document"@, rec) is Ok {
                                    lemma_records_prefix_len(items, i as int + 1, "Document"@, rec);
                                }
                            }
                            return Err(PopulateError::Sqlite(e));
                        },
                    }
                    proof {
                        lemma_with_rows_push(before, Table::Document, rows, v@, as_row);
                        assert(document_rows(rows.push(v@)) == rows.push(v@).map_values(as_row).to_multiset());
                        rows = rows.push(v@);
                    }
                    file_id = v.file_id;
                }
            },
            XmlNode::Other => {},
        }
        i = i + 1;
    }
    assert(items.take(xml_root.items.len() as int) =~= items);
    assert(items.skip(xml_root.items.len() as int) =~= Seq::<XmlNodeView>::empty());
    proof {
        if rows.len() == 0 {
            crate::order::lemma_map_empty_multiset(rows, as_row);
        }
    }
    Ok(file_id)
}


/// Adds an include row (of file 0) for each `Include` element, in document
/// order, and gives the included file names in that order (none, adding
/// nothing, when there is no such element). The first element that cannot
/// be read stops it with that element's error, before any insert, as does a
/// failed insert; the rows added before stay.
pub fn populate_db_with_includes(
    db_conn: &mut rusqlite::Connection,
    xml_root: &XmlDocument,
) -> (r: Result<Vec<String>, PopulateError>)
    requires
        xml_root.wf(),
    ensures
        r matches Ok(names) ==> (include_records(xml_root@.items) matches Ok(rows)
            && names@.map_values(|n: String| n@) == rows.map_values(|i: IncludeView| i.filename)
            && db_tables(*final(db_conn)) == with_rows(
            db_tables(*old(db_conn)),
            Table::Include,
            include_rows(rows),
        )),
        r matches Err(PopulateError::Record(kind, e)) ==> kind == "Include" && include_records(xml_root@.items) == Err::<Seq<IncludeView>, RecordError>(e),
        r is Err ==> exists|rows: Seq<IncludeView>|
            record_prefix(xml_root@.items, "Include"@, |it: XmlItemView| include_record(it), rows) && db_tables(*final(db_conn)) == with_rows(
                db_tables(*old(db_conn)),
                Table::Include,
                include_rows(rows),
            ),
        include_records(xml_root@.items) == Ok::<Seq<IncludeView>, RecordError>(Seq::empty()) ==> r is Ok && db_tables(*final(db_conn)) == db_tables(
            *old(db_conn),
        ),
        first_record_error(xml_root@.items, "Include"@, |it: XmlItemView| include_record(it)) matches Some(e) ==> (r matches Err(
            PopulateError::Record(kind, e2),
        ) && kind == "Include" && e2 == e && db_tables(*final(db_conn)) == db_tables(*old(db_conn))),
{
    let ghost before = db_tables(*db_conn);
    let ghost rec = |it: XmlItemView| include_record(it);
    let ghost as_row = |r: IncludeView| RowView::Include(r);
    let ghost items = xml_root@.items;
    let ghost mut rows: Seq<IncludeView> = Seq::empty();
    let mut i: usize = 0;
    let mut names: Vec<String> = Vec::new();
    let ghost name_of = |n: String| n@;
    let ghost file_of = |i: IncludeView| i.filename;
    proof {
        crate::order::lemma_map_empty_multiset(rows, as_row);
        assert(items.take(0) =~= Seq::<XmlNodeView>::empty());
        assert(items.skip(0) =~= items);
        assert(names@.map_values(name_of) =~= rows.map_values(file_of));
    }
    while i < xml_root.items.len()
        invariant
            i <= xml_root.items.len(),
            xml_root.wf(),
            items == xml_root@.items,
            items.len() == xml_root.items@.len(),
            rec == (|it: XmlItemView| include_record(it)),
            as_row == (|r: IncludeView| RowView::Include(r)),
            before == db_tables(*old(db_conn)),
            records_of(items.take(i as int), "Include"@, rec) == Ok::<Seq<IncludeView>, RecordError>(rows),
            first_record_error(items, "Include"@, rec) is Some ==> rows.len() == 0 && first_record_error(
                items.skip(i as int),
                "Include"@,
                rec,
            ) == first_record_error(items, "Include"@, rec),
            rows.len() > 0 ==> before.dom().contains(Table::Include),
            db_tables(*db_conn) == with_rows(before, Table::Include, include_rows(rows)),
            name_of == (|n: String| n@),
            file_of == (|i: IncludeView| i.filename),
            names@.map_values(name_of) == rows.map_values(file_of),
        decreases xml_root.items.len() - i,
    {
        assert(items.take(i + 1).drop_last() =~= items.take(i as int));
        assert(items.take(i + 1).last() == xml_root.items@[i as int]@);
        assert(items.skip(i as int).drop_first() =~= items.skip(i + 1));
        assert(items.skip(i as int)[0] == xml_root.items@[i as int]@);
        assert(include_rows(rows) == rows.map_values(as_row).to_multiset());
        match &xml_root.items[i] {
            XmlNode::Item(item) => {
                assert(distinct_names(item.attributes@));
                if crate::text::str_equal(item.name.as_str(), "Include") {
                    let v = match include_from_xml(item) {
                        Ok(v) => v,
                        Err(e) => {
                            proof {
                                lemma_records_error_persists(items, i as int + 1, "Include"@, rec);
                                if first_record_error(items, "Include"@, rec) is Some {
                                    assert(first_record_error(items.skip(i as int), "Include"@, rec) == Some(e));
                                    crate::order::lemma_map_empty_multiset(rows, as_row);
                                }
                            }
                            return Err(PopulateError::Record("Include", e));
                        },
                    };
                    proof {
                        if rows.len() == 0 {
                            crate::order::lemma_map_empty_multiset(rows, as_row);
                        }
                    }
                    assert(records_of(items.take(i + 1), "Include"@, rec) == Ok::<Seq<IncludeView>, RecordError>(rows.push(v@)));
                    match insert_include(db_conn, &v) {
                        Ok(_) => {},
                        Err(e) => {
                            proof {
                                if records_of(items, "Include"@, rec) is Ok {
                                    lemma_records_prefix_len(items, i as int + 1, "Include"@, rec);
                                }
                            }
                            return Err(PopulateError::Sqlite(e));
                        },
                    }
                    proof {
                        lemma_with_rows_push(before, Table::Include, rows, v@, as_row);
                        assert(include_rows(rows.push(v@)) == rows.push(v@).map_values(as_row).to_multiset());
                        rows = rows.push(v@);
                    }
                    let ghost old_names = names@;
                    names.push(v.filename);
                    assert(names@.map_values(name_of) =~= old_names.map_values(name_of).push(v@.filename));
                    assert(rows.map_values(file_of) =~= rows.drop_last().map_values(file_of).push(v@.filename));
                }
            },
            XmlNode::Other => {},
        }
        i = i + 1;
    }
    assert(items.take(xml_root.items.len() as int) =~= items);
    assert(items.skip(xml_root.items.len() as int) =~= Seq::<XmlNodeView>::empty());
    proof {
        if rows.len() == 0 {
            crate::order::lemma_map_empty_multiset(rows, as_row);
        }
    }
    Ok(names)
}


// --------------------------------------------------------- whole documents

/// The database `before` after the records of a document file `filename`
/// were added, and the names of the files it includes; `None` when a record
/// cannot be read.
pub open spec fn document_populated(
    before: Map<Table, Multiset<RowView>>,
    items: Seq<XmlNodeView>,
    filename: Seq<char>,
) -> Option<(Map<Table, Multiset<RowView>>, Seq<Seq<char>>)> {
    match document_records(items, filename) {
        Err(_) => None,
        Ok(docs) => {
            let file_id = last_file_id(docs);
            match (
                viewpacket_records(items, file_id),
                behavior_records(items, file_id),
                component_records(items, file_id),
                relation_records(items),
                include_records(items),
                team_records(items),
            ) {
                (Ok(v), Ok(b), Ok(c), Ok(r), Ok(i), Ok(t)) => Some(
                    (
                        with_rows(
                            with_rows(
                                with_rows(
                                    with_rows(
                                        with_rows(
                                            with_rows(
                                                with_rows(before, Table::Document, document_rows(docs)),
                                                Table::ViewPacket,
                                                viewpacket_rows(v),
                                            ),
                                            Table::Behavior,
                                            behavior_rows(b),
                                        ),
                                        Table::Component,
                                        component_rows(c),
                                    ),
                                    Table::ComponentRelation,
                                    relation_rows(r),
                                ),
                                Table::Include,
                                include_rows(i),
                            ),
                            Table::Team,
                            team_rows(t),
                        ),
                        i.map_values(|x: IncludeView| x.filename),
                    ),
                ),
                _ => None,
            }
        },
    }
}

/// The rows of no records are no rows.
proof fn lemma_no_rows()
    ensures
        document_rows(Seq::empty()) == Multiset::<RowView>::empty(),
        viewpacket_rows(Seq::empty()) == Multiset::<RowView>::empty(),
        behavior_rows(Seq::empty()) == Multiset::<RowView>::empty(),
        component_rows(Seq::empty()) == Multiset::<RowView>::empty(),
        relation_rows(Seq::empty()) == Multiset::<RowView>::empty(),
        include_rows(Seq::empty()) == Multiset::<RowView>::empty(),
        team_rows(Seq::empty()) == Multiset::<RowView>::empty(),
{
    crate::order::lemma_map_empty_multiset(Seq::<DocumentView>::empty(), |r: DocumentView| RowView::Document(r));
    crate::order::lemma_map_empty_multiset(Seq::<ViewPacketView>::empty(), |r: ViewPacketView| RowView::ViewPacket(r));
    crate::order::lemma_map_empty_multiset(Seq::<BehaviorView>::empty(), |r: BehaviorView| RowView::Behavior(r));
    crate::order::lemma_map_empty_multiset(Seq::<ComponentView>::empty(), |r: ComponentView| RowView::Component(r));
    crate::order::lemma_map_empty_multiset(
        Seq::<ComponentRelationView>::empty(),
        |r: ComponentRelationView| RowView::ComponentRelation(r),
    );
    crate::order::lemma_map_empty_multiset(Seq::<IncludeView>::empty(), |r: IncludeView| RowView::Include(r));
    crate::order::lemma_map_empty_multiset(Seq::<TeamView>::empty(), |r: TeamView| RowView::Team(r));
}

/// Adding no rows leaves the database as it is.
proof fn lemma_with_no_rows(before: Map<Table, Multiset<RowView>>, table: Table)
    ensures
        with_rows(before, table, Multiset::<RowView>::empty()) == before,
{
    broadcast use vstd::multiset::group_multiset_axioms;
}

/// No records are a prefix of any document's records.
pub proof fn lemma_prefix_none<V>(
    items: Seq<XmlNodeView>,
    name: Seq<char>,
    record: spec_fn(XmlItemView) -> Result<V, RecordError>,
)
    ensures
        record_prefix(items, name, record, Seq::<V>::empty()),
{
    assert(items.take(0) =~= Seq::<XmlNodeView>::empty());
    assert(records_of(items.take(0), name, record) == Ok::<Seq<V>, RecordError>(Seq::empty()));
}

/// All records of a document are a prefix of them.
pub proof fn lemma_prefix_all<V>(
    items: Seq<XmlNodeView>,
    name: Seq<char>,
    record: spec_fn(XmlItemView) -> Result<V, RecordError>,
)
    requires
        records_of(items, name, record) is Ok,
    ensures
        record_prefix(items, name, record, records_of(items, name, record)->Ok_0),
{
    assert(items.take(items.len() as int) =~= items);
}

/// The database `before` with the document, view-packet, behavior,
/// component, relation, include and team rows of the given records added.
pub open spec fn tables_with(
    before: Map<Table, Multiset<RowView>>,
    d: Seq<DocumentView>,
    v: Seq<ViewPacketView>,
    b: Seq<BehaviorView>,
    c: Seq<ComponentView>,
    rl: Seq<ComponentRelationView>,
    inc: Seq<IncludeView>,
    t: Seq<TeamView>,
) -> Map<Table, Multiset<RowView>> {
    with_rows(
        with_rows(
            with_rows(
                with_rows(
                    with_rows(
                        with_rows(with_rows(before, Table::Document, document_rows(d)), Table::ViewPacket, viewpacket_rows(v)),
                        Table::Behavior,
                        behavior_rows(b),
                    ),
                    Table::Component,
                    component_rows(c),
                ),
                Table::ComponentRelation,
                relation_rows(rl),
            ),
            Table::Include,
            include_rows(inc),
        ),
        Table::Team,
        team_rows(t),
    )
}

/// `after` is `before` with, for each kind of record in turn, a prefix of
/// the document's records of that kind added: what is left of a load that
/// stopped. The records other than documents and relations belong to the
/// file id of the last document added.
pub open spec fn populated_in_part(
    before: Map<Table, Multiset<RowView>>,
    items: Seq<XmlNodeView>,
    filename: Seq<char>,
    after: Map<Table, Multiset<RowView>>,
) -> bool {
    exists|
        d: Seq<DocumentView>,
        v: Seq<ViewPacketView>,
        b: Seq<BehaviorView>,
        c: Seq<ComponentView>,
        rl: Seq<ComponentRelationView>,
        inc: Seq<IncludeView>,
        t: Seq<TeamView>,
    |
        #![trigger tables_with(before, d, v, b, c, rl, inc, t)]
        {
            &&& record_prefix(items, "Document"@, |it: XmlItemView| document_record(it, filename), d)
            &&& record_prefix(items, "ViewPacket"@, |it: XmlItemView| viewpacket_record(it, last_file_id(d)), v)
            &&& record_prefix(items, "Behavior"@, |it: XmlItemView| behavior_record(it, last_file_id(d)), b)
            &&& record_prefix(items, "Component"@, |it: XmlItemView| component_record(it, last_file_id(d)), c)
            &&& record_prefix(items, "ComponentRelation"@, |it: XmlItemView| relation_record(it), rl)
            &&& record_prefix(items, "Include"@, |it: XmlItemView| include_record(it), inc)
            &&& record_prefix(items, "Team"@, |it: XmlItemView| team_record(it), t)
            &&& after == tables_with(before, d, v, b, c, rl, inc, t)
        }
}

/// Fills the database from the parsed document file `filename`: its
/// documents, view packets, behaviors, components, relations, includes and
/// teams, in that order, the records of the file's (last) document id.
/// Gives the names of the included files, in document order, which are to
/// be read with `db_populate_from_include_xml`.
pub fn db_populate_from_xml(db_conn: &mut rusqlite::Connection, xml_root: &XmlDocument, filename: &str) -> (r:
    Result<Vec<String>, PopulateError>)
    requires
        xml_root.wf(),
    ensures
        r matches Ok(names) ==> document_populated(db_tables(*old(db_conn)), xml_root@.items, filename@)
            == Some((db_tables(*final(db_conn)), names@.map_values(|n: String| n@))),
        r matches Err(PopulateError::Record(_, _)) ==> document_populated(
            db_tables(*old(db_conn)),
            xml_root@.items,
            filename@,
        ) is None,
        r is Err ==> populated_in_part(
            db_tables(*old(db_conn)),
            xml_root@.items,
            filename@,
            db_tables(*final(db_conn)),
        ),
{
    let ghost before = db_tables(*db_conn);
    let ghost items = xml_root@.items;
    proof {
        lemma_no_rows();
    }
    let file_id = match populate_db_with_document(db_conn, xml_root, filename) {
        Ok(f) => f,
        Err(e) => {
            proof {
                let d = choose|rows: Seq<DocumentView>|
                    record_prefix(items, "Document"@, |it: XmlItemView| document_record(it, filename@), rows) && db_tables(*db_conn) == with_rows(
                        before,
                        Table::Document,
                        document_rows(rows),
                    );
                lemma_prefix_none(items, "ViewPacket"@, |it: XmlItemView| viewpacket_record(it, last_file_id(d)));
                lemma_with_no_rows(db_tables(*db_conn), Table::ViewPacket);
                lemma_prefix_none(items, "Behavior"@, |it: XmlItemView| behavior_record(it, last_file_id(d)));
                lemma_with_no_rows(db_tables(*db_conn), Table::Behavior);
                lemma_prefix_none(items, "Component"@, |it: XmlItemView| component_record(it, last_file_id(d)));
                lemma_with_no_rows(db_tables(*db_conn), Table::Component);
                lemma_prefix_none(items, "ComponentRelation"@, |it: XmlItemView| relation_record(it));
                lemma_with_no_rows(db_tables(*db_conn), Table::ComponentRelation);
                lemma_prefix_none(items, "Include"@, |it: XmlItemView| include_record(it));
                lemma_with_no_rows(db_tables(*db_conn), Table::Include);
                lemma_prefix_none(items, "Team"@, |it: XmlItemView| team_record(it));
                lemma_with_no_rows(db_tables(*db_conn), Table::Team);
                assert(db_tables(*db_conn) == tables_with(before, d, Seq::<ViewPacketView>::empty(), Seq::<BehaviorView>::empty(), Seq::<ComponentView>::empty(), Seq::<ComponentRelationView>::empty(), Seq::<IncludeView>::empty(), Seq::<TeamView>::empty()));
            }
            return Err(e);
        },
    };
    let ghost d = document_records(items, filename@)->Ok_0;
    let ghost m1 = db_tables(*db_conn);
    proof {
        lemma_prefix_all(items, "Document"@, |it: XmlItemView| document_record(it, filename@));
    }
    match populate_db_with_viewpackets(db_conn, xml_root, file_id) {
        Ok(_) => {},
        Err(e) => {
            proof {
                let v = choose|rows: Seq<ViewPacketView>|
                    record_prefix(items, "ViewPacket"@, |it: XmlItemView| viewpacket_record(it, last_file_id(d)), rows) && db_tables(*db_conn) == with_rows(
                        m1,
                        Table::ViewPacket,
                        viewpacket_rows(rows),
                    );
                lemma_prefix_none(items, "Behavior"@, |it: XmlItemView| behavior_record(it, last_file_id(d)));
                lemma_with_no_rows(db_tables(*db_conn), Table::Behavior);
                lemma_prefix_none(items, "Component"@, |it: XmlItemView| component_record(it, last_file_id(d)));
                lemma_with_no_rows(db_tables(*db_conn), Table::Component);
                lemma_prefix_none(items, "ComponentRelation"@, |it: XmlItemView| relation_record(it));
                lemma_with_no_rows(db_tables(*db_conn), Table::ComponentRelation);
                lemma_prefix_none(items, "Include"@, |it: XmlItemView| include_record(it));
                lemma_with_no_rows(db_tables(*db_conn), Table::Include);
                lemma_prefix_none(items, "Team"@, |it: XmlItemView| team_record(it));
                lemma_with_no_rows(db_tables(*db_conn), Table::Team);
                assert(db_tables(*db_conn) == tables_with(before, d, v, Seq::<BehaviorView>::empty(), Seq::<ComponentView>::empty(), Seq::<ComponentRelationView>::empty(), Seq::<IncludeView>::empty(), Seq::<TeamView>::empty()));
            }
            return Err(e);
        },
    }
    let ghost v = viewpacket_records(items, file_id)->Ok_0;
    let ghost m2 = db_tables(*db_conn);
    proof {
        lemma_prefix_all(items, "ViewPacket"@, |it: XmlItemView| viewpacket_record(it, last_file_id(d)));
    }
    match populate_db_with_behaviors(db_conn, xml_root, file_id) {
        Ok(_) => {},
        Err(e) => {
            proof {
                let b = choose|rows: Seq<BehaviorView>|
                    record_prefix(items, "Behavior"@, |it: XmlItemView| behavior_record(it, last_file_id(d)), rows) && db_tables(*db_conn) == with_rows(
                        m2,
                        Table::Behavior,
                        behavior_rows(rows),
                    );
                lemma_prefix_none(items, "Component"@, |it: XmlItemView| component_record(it, last_file_id(d)));
                lemma_with_no_rows(db_tables(*db_conn), Table::Component);
                lemma_prefix_none(items, "ComponentRelation"@, |it: XmlItemView| relation_record(it));
                lemma_with_no_rows(db_tables(*db_conn), Table::ComponentRelation);
                lemma_prefix_none(items, "Include"@, |it: XmlItemView| include_record(it));
                lemma_with_no_rows(db_tables(*db_conn), Table::Include);
                lemma_prefix_none(items, "Team"@, |it: XmlItemView| team_record(it));
                lemma_with_no_rows(db_tables(*db_conn), Table::Team);
                assert(db_tables(*db_conn) == tables_with(before, d, v, b, Seq::<ComponentView>::empty(), Seq::<ComponentRelationView>::empty(), Seq::<IncludeView>::empty(), Seq::<TeamView>::empty()));
            }
            return Err(e);
        },
    }
    let ghost b = behavior_records(items, file_id)->Ok_0;
    let ghost m3 = db_tables(*db_conn);
    proof {
        lemma_prefix_all(items, "Behavior"@, |it: XmlItemView| behavior_record(it, last_file_id(d)));
    }
    match populate_db_with_components(db_conn, xml_root, file_id) {
        Ok(_) => {},
        Err(e) => {
            proof {
                let c = choose|rows: Seq<ComponentView>|
                    record_prefix(items, "Component"@, |it: XmlItemView| component_record(it, last_file_id(d)), rows) && db_tables(*db_conn) == with_rows(
                        m3,
                        Table::Component,
                        component_rows(rows),
                    );
                lemma_prefix_none(items, "ComponentRelation"@, |it: XmlItemView| relation_record(it));
                lemma_with_no_rows(db_tables(*db_conn), Table::ComponentRelation);
                lemma_prefix_none(items, "Include"@, |it: XmlItemView| include_record(it));
                lemma_with_no_rows(db_tables(*db_conn), Table::Include);
                lemma_prefix_none(items, "Team"@, |it: XmlItemView| team_record(it));
                lemma_with_no_rows(db_tables(*db_conn), Table::Team);
                assert(db_tables(*db_conn) == tables_with(before, d, v, b, c, Seq::<ComponentRelationView>::empty(), Seq::<IncludeView>::empty(), Seq::<TeamView>::empty()));
            }
            return Err(e);
        },
    }
    let ghost c = component_records(items, file_id)->Ok_0;
    let ghost m4 = db_tables(*db_conn);
    proof {
        lemma_prefix_all(items, "Component"@, |it: XmlItemView| component_record(it, last_file_id(d)));
    }
    match populate_db_with_componentrelations(db_conn, xml_root) {
        Ok(_) => {},
        Err(e) => {
            proof {
                let rl = choose|rows: Seq<ComponentRelationView>|
                    record_prefix(items, "ComponentRelation"@, |it: XmlItemView| relation_record(it), rows) && db_tables(*db_conn) == with_rows(
                        m4,
                        Table::ComponentRelation,
                        relation_rows(rows),
                    );
                lemma_prefix_none(items, "Include"@, |it: XmlItemView| include_record(it));
                lemma_with_no_rows(db_tables(*db_conn), Table::Include);
                lemma_prefix_none(items, "Team"@, |it: XmlItemView| team_record(it));
                lemma_with_no_rows(db_tables(*db_conn), Table::Team);
                assert(db_tables(*db_conn) == tables_with(before, d, v, b, c, rl, Seq::<IncludeView>::empty(), Seq::<TeamView>::empty()));
            }
            return Err(e);
        },
    }
    let ghost rl = relation_records(items)->Ok_0;
    let ghost m5 = db_tables(*db_conn);
    proof {
        lemma_prefix_all(items, "ComponentRelation"@, |it: XmlItemView| relation_record(it));
    }
    let names = match populate_db_with_includes(db_conn, xml_root) {
        Ok(n) => n,
        Err(e) => {
            proof {
                let inc = choose|rows: Seq<IncludeView>|
                    record_prefix(items, "Include"@, |it: XmlItemView| include_record(it), rows) && db_tables(*db_conn) == with_rows(
                        m5,
                        Table::Include,
                        include_rows(rows),
                    );
                lemma_prefix_none(items, "Team"@, |it: XmlItemView| team_record(it));
                lemma_with_no_rows(db_tables(*db_conn), Table::Team);
                assert(db_tables(*db_conn) == tables_with(before, d, v, b, c, rl, inc, Seq::<TeamView>::empty()));
            }
            return Err(e);
        },
    };
    let ghost inc = include_records(items)->Ok_0;
    let ghost m6 = db_tables(*db_conn);
    proof {
        lemma_prefix_all(items, "Include"@, |it: XmlItemView| include_record(it));
    }
    match populate_db_with_teams(db_conn, xml_root) {
        Ok(_) => {},
        Err(e) => {
            proof {
                let t = choose|rows: Seq<TeamView>|
                    record_prefix(items, "Team"@, |it: XmlItemView| team_record(it), rows) && db_tables(*db_conn) == with_rows(
                        m6,
                        Table::Team,
                        team_rows(rows),
                    );
                assert(db_tables(*db_conn) == tables_with(before, d, v, b, c, rl, inc, t));
            }
            return Err(e);
        },
    }
    let ghost t = team_records(items)->Ok_0;
    let ghost m7 = db_tables(*db_conn);
    proof {
        lemma_prefix_all(items, "Team"@, |it: XmlItemView| team_record(it));
    }
    Ok(names)
}

/// The database `before` after the view packets, components and teams of an
/// included file, whose records belong to `file_id`, were added; `None` when
/// a record cannot be read.
pub open spec fn include_populated(
    before: Map<Table, Multiset<RowView>>,
    items: Seq<XmlNodeView>,
    file_id: u64,
) -> Option<Map<Table, Multiset<RowView>>> {
    match (viewpacket_records(items, file_id), component_records(items, file_id), team_records(items)) {
        (Ok(v), Ok(c), Ok(t)) => Some(
            with_rows(
                with_rows(with_rows(before, Table::ViewPacket, viewpacket_rows(v)), Table::Component, component_rows(c)),
                Table::Team,
                team_rows(t),
            ),
        ),
        _ => None,
    }
}

/// The file id that an included file declares, when it can be read.
pub open spec fn include_file_id(items: Seq<XmlNodeView>) -> Option<u64> {
    match records_of(items, "Document"@, |it: XmlItemView| document_file_id(it)) {
        Ok(ids) => Some(if ids.len() == 0 { 0 } else { ids.last() }),
        Err(_) => None,
    }
}

/// The database `before` with the includes `incs` (its include table) set
/// to `file_id` where they name `filename`, and the view-packet, component
/// and team rows of the given records added.
pub open spec fn include_tables_with(
    before: Map<Table, Multiset<RowView>>,
    incs: Seq<IncludeView>,
    file_id: u64,
    filename: Seq<char>,
    v: Seq<ViewPacketView>,
    c: Seq<ComponentView>,
    t: Seq<TeamView>,
) -> Map<Table, Multiset<RowView>> {
    with_rows(
        with_rows(
            with_rows(
                before.insert(
                    Table::Include,
                    include_rows(incs.map_values(|row: IncludeView| crate::db::include_updated(row, file_id, filename))),
                ),
                Table::ViewPacket,
                viewpacket_rows(v),
            ),
            Table::Component,
            component_rows(c),
        ),
        Table::Team,
        team_rows(t),
    )
}

/// `after` is `before` with the includes of `filename` set to `file_id`,
/// then, for view packets, components and teams in turn, a prefix of the
/// included file's records added: what is left of a load that stopped.
pub open spec fn include_in_part(
    before: Map<Table, Multiset<RowView>>,
    items: Seq<XmlNodeView>,
    file_id: u64,
    filename: Seq<char>,
    after: Map<Table, Multiset<RowView>>,
) -> bool {
    exists|incs: Seq<IncludeView>, v: Seq<ViewPacketView>, c: Seq<ComponentView>, t: Seq<TeamView>|
        #![trigger include_tables_with(before, incs, file_id, filename, v, c, t)]
        {
            &&& before.dom().contains(Table::Include)
            &&& before[Table::Include] == include_rows(incs)
            &&& record_prefix(items, "ViewPacket"@, |it: XmlItemView| viewpacket_record(it, file_id), v)
            &&& record_prefix(items, "Component"@, |it: XmlItemView| component_record(it, file_id), c)
            &&& record_prefix(items, "Team"@, |it: XmlItemView| team_record(it), t)
            &&& after == include_tables_with(before, incs, file_id, filename, v, c, t)
        }
}

/// Fills the database from the parsed included file that the includes
/// named `original_filename` point to: those includes get the file's id,
/// and its view packets, components and teams are added as records of that
/// file.
pub fn db_populate_from_include_xml(
    db_conn: &mut rusqlite::Connection,
    xml_root: &XmlDocument,
    original_filename: String,
) -> (r: Result<(), PopulateError>)
    requires
        xml_root.wf(),
    ensures
        r is Ok ==> (include_file_id(xml_root@.items) matches Some(file_id) && exists|incs: Seq<IncludeView>|
            #![trigger include_rows(incs)]
            {
                &&& crate::db::table_holds(*old(db_conn), Table::Include, include_rows(incs))
                &&& include_populated(
                    db_tables(*old(db_conn)).insert(
                        Table::Include,
                        include_rows(
                            incs.map_values(
                                |row: IncludeView| crate::db::include_updated(row, file_id, original_filename@),
                            ),
                        ),
                    ),
                    xml_root@.items,
                    file_id,
                ) == Some(db_tables(*final(db_conn)))
            }),
        r matches Err(PopulateError::Record(_, _)) ==> include_file_id(xml_root@.items) is None || (include_file_id(
            xml_root@.items,
        ) matches Some(file_id) && include_populated(db_tables(*old(db_conn)), xml_root@.items, file_id) is None),
        include_file_id(xml_root@.items) is None ==> (r matches Err(PopulateError::Record(kind, _)) && kind
            == "Document" && db_tables(*final(db_conn)) == db_tables(*old(db_conn))),
        r is Err ==> db_tables(*final(db_conn)) == db_tables(*old(db_conn)) || (include_file_id(xml_root@.items) matches Some(
            file_id,
        ) && include_in_part(
            db_tables(*old(db_conn)),
            xml_root@.items,
            file_id,
            original_filename@,
            db_tables(*final(db_conn)),
        )),
{
    let ghost before = db_tables(*db_conn);
    let ghost conn0 = *db_conn;
    let ghost items = xml_root@.items;
    proof {
        lemma_no_rows();
    }
    let file_id = match get_file_id_from_include_xml(xml_root) {
        Ok(f) => f,
        Err(e) => {
            return Err(PopulateError::Record("Document", e));
        },
    };
    let ghost fname = original_filename@;
    match crate::update::update_file_id_for_filename(db_conn, file_id, original_filename) {
        Ok(()) => {},
        Err(e) => {
            return Err(PopulateError::Sqlite(e));
        },
    }
    let ghost incs = choose|rows: Seq<IncludeView>|
        #![trigger include_rows(rows)]
        crate::db::table_holds(conn0, Table::Include, include_rows(rows)) && db_tables(*db_conn) == before.insert(
            Table::Include,
            include_rows(rows.map_values(|row: IncludeView| crate::db::include_updated(row, file_id, fname))),
        );
    let ghost m0 = db_tables(*db_conn);
    match populate_db_with_viewpackets(db_conn, xml_root, file_id) {
        Ok(_) => {},
        Err(e) => {
            proof {
                let v = choose|rows: Seq<ViewPacketView>|
                    record_prefix(items, "ViewPacket"@, |it: XmlItemView| viewpacket_record(it, file_id), rows)
                        && db_tables(*db_conn) == with_rows(m0, Table::ViewPacket, viewpacket_rows(rows));
                lemma_prefix_none(items, "Component"@, |it: XmlItemView| component_record(it, file_id));
                lemma_prefix_none(items, "Team"@, |it: XmlItemView| team_record(it));
                lemma_with_no_rows(db_tables(*db_conn), Table::Component);
                lemma_with_no_rows(db_tables(*db_conn), Table::Team);
                assert(db_tables(*db_conn) == include_tables_with(
                    before,
                    incs,
                    file_id,
                    fname,
                    v,
                    Seq::<ComponentView>::empty(),
                    Seq::<TeamView>::empty(),
                ));
            }
            return Err(e);
        },
    }
    let ghost v = viewpacket_records(items, file_id)->Ok_0;
    let ghost m1 = db_tables(*db_conn);
    proof {
        lemma_prefix_all(items, "ViewPacket"@, |it: XmlItemView| viewpacket_record(it, file_id));
    }
    match populate_db_with_components(db_conn, xml_root, file_id) {
        Ok(_) => {},
        Err(e) => {
            proof {
                let c = choose|rows: Seq<ComponentView>|
                    record_prefix(items, "Component"@, |it: XmlItemView| component_record(it, file_id), rows)
                        && db_tables(*db_conn) == with_rows(m1, Table::Component, component_rows(rows));
                lemma_prefix_none(items, "Team"@, |it: XmlItemView| team_record(it));
                lemma_with_no_rows(db_tables(*db_conn), Table::Team);
                assert(db_tables(*db_conn) == include_tables_with(
                    before,
                    incs,
                    file_id,
                    fname,
                    v,
                    c,
                    Seq::<TeamView>::empty(),
                ));
            }
            return Err(e);
        },
    }
    let ghost c = component_records(items, file_id)->Ok_0;
    let ghost m2 = db_tables(*db_conn);
    proof {
        lemma_prefix_all(items, "Component"@, |it: XmlItemView| component_record(it, file_id));
    }
    match populate_db_with_teams(db_conn, xml_root) {
        Ok(_) => {},
        Err(e) => {
            proof {
                let t = choose|rows: Seq<TeamView>|
                    record_prefix(items, "Team"@, |it: XmlItemView| team_record(it), rows) && db_tables(*db_conn)
                        == with_rows(m2, Table::Team, team_rows(rows));
                assert(db_tables(*db_conn) == include_tables_with(before, incs, file_id, fname, v, c, t));
            }
            return Err(e);
        },
    }
    Ok(())
}

/// Once the elements up to `n` give an error, the whole sequence gives the
/// same error.
pub proof fn lemma_records_error_persists<V>(
    items: Seq<XmlNodeView>,
    n: int,
    name: Seq<char>,
    record: spec_fn(XmlItemView) -> Result<V, RecordError>,
)
    requires
        0 <= n <= items.len(),
        records_of(items.take(n), name, record) is Err,
    ensures
        records_of(items, name, record) == records_of(items.take(n), name, record),
    decreases items.len() - n,
{
    if n < items.len() {
        assert(items.take(n + 1).drop_last() =~= items.take(n));
        lemma_records_error_persists(items, n + 1, name, record);
    } else {
        assert(items.take(n) =~= items);
    }
}

/// The rows that `with_rows` leaves in `table` when it held none before.
proof fn lemma_with_rows_into_empty(before: Map<Table, Multiset<RowView>>, table: Table, rows: Multiset<RowView>)
    requires
        before.dom().contains(table),
        before[table] == Multiset::<RowView>::empty(),
    ensures
        with_rows(before, table, rows)[table] == rows,
        with_rows(before, table, rows).dom().contains(table),
{
    broadcast use vstd::multiset::group_multiset_axioms;
    if rows.len() == 0 {
        assert(rows =~= Multiset::<RowView>::empty());
    } else {
        assert(Multiset::<RowView>::empty().add(rows) =~= rows);
    }
}

/// `with_rows` on another table leaves `table` as it was.
proof fn lemma_with_rows_other(before: Map<Table, Multiset<RowView>>, other: Table, rows: Multiset<RowView>, table: Table)
    requires
        other != table,
    ensures
        with_rows(before, other, rows).dom().contains(table) == before.dom().contains(table),
        with_rows(before, other, rows)[table] == before[table],
{
}

/// The component a row holds, where it holds one.
pub open spec fn component_of_row(r: RowView) -> ComponentView {
    match r {
        RowView::Component(c) => c,
        _ => arbitrary(),
    }
}

/// The view packet a row holds, where it holds one.
pub open spec fn viewpacket_of_row(r: RowView) -> ViewPacketView {
    match r {
        RowView::ViewPacket(v) => v,
        _ => arbitrary(),
    }
}

/// Loading a document into a database whose component table is empty, and
/// reading the components back, gives the document's components: the same
/// records, as many times each, in some order.
pub proof fn lemma_populate_then_read_components(
    before: Map<Table, Multiset<RowView>>,
    items: Seq<XmlNodeView>,
    filename: Seq<char>,
    after: rusqlite::Connection,
    names: Seq<Seq<char>>,
    rows: Seq<ComponentView>,
)
    requires
        before.dom().contains(Table::Component),
        before[Table::Component] == Multiset::<RowView>::empty(),
        document_populated(before, items, filename) == Some((crate::db::db_tables(after), names)),
        crate::retrieval::components_are(after, rows),
    ensures
        document_records(items, filename) matches Ok(docs) && component_records(items, last_file_id(docs)) matches Ok(
            c,
        ) && rows.to_multiset() == c.to_multiset(),
{
    let docs = document_records(items, filename)->Ok_0;
    let file_id = last_file_id(docs);
    let v = viewpacket_records(items, file_id)->Ok_0;
    let b = behavior_records(items, file_id)->Ok_0;
    let c = component_records(items, file_id)->Ok_0;
    let r = relation_records(items)->Ok_0;
    let i = include_records(items)->Ok_0;
    let t = team_records(items)->Ok_0;
    let m0 = with_rows(before, Table::Document, document_rows(docs));
    let m1 = with_rows(m0, Table::ViewPacket, viewpacket_rows(v));
    let m2 = with_rows(m1, Table::Behavior, behavior_rows(b));
    let m3 = with_rows(m2, Table::Component, component_rows(c));
    let m4 = with_rows(m3, Table::ComponentRelation, relation_rows(r));
    let m5 = with_rows(m4, Table::Include, include_rows(i));
    let m6 = with_rows(m5, Table::Team, team_rows(t));
    lemma_with_rows_other(before, Table::Document, document_rows(docs), Table::Component);
    lemma_with_rows_other(m0, Table::ViewPacket, viewpacket_rows(v), Table::Component);
    lemma_with_rows_other(m1, Table::Behavior, behavior_rows(b), Table::Component);
    lemma_with_rows_into_empty(m2, Table::Component, component_rows(c));
    lemma_with_rows_other(m3, Table::ComponentRelation, relation_rows(r), Table::Component);
    lemma_with_rows_other(m4, Table::Include, include_rows(i), Table::Component);
    lemma_with_rows_other(m5, Table::Team, team_rows(t), Table::Component);
    assert(crate::db::db_tables(after) == m6);
    assert(component_rows(rows) == component_rows(c));
    crate::order::lemma_map_injective_multiset(
        rows,
        c,
        |x: ComponentView| RowView::Component(x),
        |x: RowView| component_of_row(x),
    );
}

/// Loading a document into a database whose view-packet table is empty,
/// and reading the view packets back, gives the document's view packets:
/// the same records, as many times each, in some order.
pub proof fn lemma_populate_then_read_viewpackets(
    before: Map<Table, Multiset<RowView>>,
    items: Seq<XmlNodeView>,
    filename: Seq<char>,
    after: rusqlite::Connection,
    names: Seq<Seq<char>>,
    rows: Seq<ViewPacketView>,
)
    requires
        before.dom().contains(Table::ViewPacket),
        before[Table::ViewPacket] == Multiset::<RowView>::empty(),
        document_populated(before, items, filename) == Some((crate::db::db_tables(after), names)),
        crate::retrieval::viewpackets_are(after, rows),
    ensures
        document_records(items, filename) matches Ok(docs) && viewpacket_records(items, last_file_id(docs)) matches Ok(
            v,
        ) && rows.to_multiset() == v.to_multiset(),
{
    let docs = document_records(items, filename)->Ok_0;
    let file_id = last_file_id(docs);
    let v = viewpacket_records(items, file_id)->Ok_0;
    let b = behavior_records(items, file_id)->Ok_0;
    let c = component_records(items, file_id)->Ok_0;
    let r = relation_records(items)->Ok_0;
    let i = include_records(items)->Ok_0;
    let t = team_records(items)->Ok_0;
    let m0 = with_rows(before, Table::Document, document_rows(docs));
    let m1 = with_rows(m0, Table::ViewPacket, viewpacket_rows(v));
    let m2 = with_rows(m1, Table::Behavior, behavior_rows(b));
    let m3 = with_rows(m2, Table::Component, component_rows(c));
    let m4 = with_rows(m3, Table::ComponentRelation, relation_rows(r));
    let m5 = with_rows(m4, Table::Include, include_rows(i));
    let m6 = with_rows(m5, Table::Team, team_rows(t));
    lemma_with_rows_other(before, Table::Document, document_rows(docs), Table::ViewPacket);
    lemma_with_rows_into_empty(m0, Table::ViewPacket, viewpacket_rows(v));
    lemma_with_rows_other(m1, Table::Behavior, behavior_rows(b), Table::ViewPacket);
    lemma_with_rows_other(m2, Table::Component, component_rows(c), Table::ViewPacket);
    lemma_with_rows_other(m3, Table::ComponentRelation, relation_rows(r), Table::ViewPacket);
    lemma_with_rows_other(m4, Table::Include, include_rows(i), Table::ViewPacket);
    lemma_with_rows_other(m5, Table::Team, team_rows(t), Table::ViewPacket);
    assert(crate::db::db_tables(after) == m6);
    assert(viewpacket_rows(rows) == viewpacket_rows(v));
    crate::order::lemma_map_injective_multiset(
        rows,
        v,
        |x: ViewPacketView| RowView::ViewPacket(x),
        |x: RowView| viewpacket_of_row(x),
    );
}

} // verus!
