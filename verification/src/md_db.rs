//! The Markdown renderer's database, reached through `rusqlite`.
//!
//! What the renderer knows of a connection is `md_tables`: for each of its
//! four tables that the connection holds, the multiset of its rows as the
//! renderer reads them (its columns only).

use vstd::prelude::*;
use vstd::multiset::Multiset;
use crate::md_models::{
    Behavior, BehaviorView, Component, ComponentView, RelationRow, RelationRowView, ViewPacket,
    ViewPacketView,
};
use crate::order::views;

verus! {

/// The renderer's tables.
#[derive(PartialEq, Eq, Structural, Clone, Copy, Debug)]
pub enum MdTable {
    Behavior,
    Component,
    ComponentRelation,
    ViewPacket,
}

/// A row of one of the renderer's tables.
pub enum MdRowView {
    Behavior(BehaviorView),
    Component(ComponentView),
    ComponentRelation(RelationRowView),
    ViewPacket(ViewPacketView),
}

/// The renderer's view of the database behind `conn`: for each of its tables
/// that exists, the multiset of its rows, read in the renderer's columns.
pub uninterp spec fn md_tables(conn: rusqlite::Connection) -> Map<MdTable, Multiset<MdRowView>>;

/// The statement that creates `table`.
pub open spec fn md_schema_sql(table: MdTable) -> Seq<char> {
    match table {
        MdTable::Behavior => "CREATE TABLE behavior (
            id INTEGER PRIMARY KEY,
            sort_order INTEGER,
            view_packet_id INTEGER,
            description TEXT,
            diagram_key TEXT NOT NULL
        )"@,
        MdTable::Component => "CREATE TABLE component (
            id INTEGER PRIMARY KEY,
            name TEXT NOT NULL,
            summary TEXT
        )"@,
        MdTable::ComponentRelation => "CREATE TABLE component_relation (
            id INTEGER NOT NULL,
            sort_order INTEGER NOT NULL,
            component_a_id INTEGER NOT NULL,
            component_b_id INTEGER NOT NULL,
            connection_type TEXT,
            key TEXT,
            property_of_relation TEXT,
            relation_text TEXT,
            relation_description TEXT
        )"@,
        MdTable::ViewPacket => "CREATE TABLE view_packet (
            component_id INTEGER NOT NULL,
            context_model_key TEXT,
            primary_display_key TEXT,
            introduction TEXT,
            sort_order INTEGER NOT NULL,
            title TEXT,
            view_style TEXT NOT NULL,
            view_type TEXT NOT NULL,
            viewpacket_id INTEGER PRIMARY KEY
        )"@,
    }
}

/// The statement that creates `table`.
pub(crate) fn md_table_schema(table: MdTable) -> (sql: &'static str)
    ensures
        sql@ == md_schema_sql(table),
{
    match table {
        MdTable::Behavior => "CREATE TABLE behavior (
            id INTEGER PRIMARY KEY,
            sort_order INTEGER,
            view_packet_id INTEGER,
            description TEXT,
            diagram_key TEXT NOT NULL
        )",
        MdTable::Component => "CREATE TABLE component (
            id INTEGER PRIMARY KEY,
            name TEXT NOT NULL,
            summary TEXT
        )",
        MdTable::ComponentRelation => "CREATE TABLE component_relation (
            id INTEGER NOT NULL,
            sort_order INTEGER NOT NULL,
            component_a_id INTEGER NOT NULL,
            component_b_id INTEGER NOT NULL,
            connection_type TEXT,
            key TEXT,
            property_of_relation TEXT,
            relation_text TEXT,
            relation_description TEXT
        )",
        MdTable::ViewPacket => "CREATE TABLE view_packet (
            component_id INTEGER NOT NULL,
            context_model_key TEXT,
            primary_display_key TEXT,
            introduction TEXT,
            sort_order INTEGER NOT NULL,
            title TEXT,
            view_style TEXT NOT NULL,
            view_type TEXT NOT NULL,
            viewpacket_id INTEGER PRIMARY KEY
        )",
    }
}

/// Runs `sql`, the plain `CREATE TABLE` statement of `table`
/// (`Connection::execute`). When it succeeds the table is new and empty (a
/// plain `CREATE TABLE` fails when the table exists); when it fails nothing
/// changed.
#[verifier::external_body]
pub(crate) fn create_md_table(conn: &mut rusqlite::Connection, table: MdTable, sql: &str) -> (r: Result<
    usize,
    rusqlite::Error,
>)
    requires
        sql@ == md_schema_sql(table),
    ensures
        r is Ok ==> !md_tables(*old(conn)).dom().contains(table) && md_tables(*final(conn))
            == md_tables(*old(conn)).insert(table, Multiset::empty()),
        r is Err ==> md_tables(*final(conn)) == md_tables(*old(conn)),
{
    conn.execute(sql, [])
}

/// The renderer's database after `row` was added to `table`.
pub open spec fn with_md_row(before: Map<MdTable, Multiset<MdRowView>>, table: MdTable, row: MdRowView) -> Map<
    MdTable,
    Multiset<MdRowView>,
> {
    before.insert(table, before[table].insert(row))
}

/// Adds a row to the behavior table. A constraint of the table makes it
/// fail.
#[verifier::external_body]
pub(crate) fn insert_md_behavior(conn: &mut rusqlite::Connection, b: &Behavior) -> (r: Result<usize, rusqlite::Error>)
    ensures
        r is Ok ==> md_tables(*old(conn)).dom().contains(MdTable::Behavior) && md_tables(*final(conn))
            == with_md_row(md_tables(*old(conn)), MdTable::Behavior, MdRowView::Behavior(b@)),
        r is Err ==> md_tables(*final(conn)) == md_tables(*old(conn)),
{
    conn.execute("INSERT INTO behavior (id, sort_order, view_packet_id, description, diagram_key) VALUES (?1, ?2, ?3, ?4, ?5)",
        (b.id, b.sort_order, b.view_packet_id, &b.description, &b.diagram_key))
}

/// Adds a row to the component table. A constraint of the table makes it
/// fail.
#[verifier::external_body]
pub(crate) fn insert_md_component(conn: &mut rusqlite::Connection, c: &Component) -> (r: Result<usize, rusqlite::Error>)
    ensures
        r is Ok ==> md_tables(*old(conn)).dom().contains(MdTable::Component) && md_tables(*final(conn))
            == with_md_row(md_tables(*old(conn)), MdTable::Component, MdRowView::Component(c@)),
        r is Err ==> md_tables(*final(conn)) == md_tables(*old(conn)),
{
    conn.execute("INSERT INTO component (id, name, summary) VALUES (?1, ?2, ?3)", (c.id, &c.name, &c.summary))
}

/// Adds a row to the relation table.
#[verifier::external_body]
pub(crate) fn insert_md_relation(conn: &mut rusqlite::Connection, r: &RelationRow) -> (res: Result<usize, rusqlite::Error>)
    ensures
        res is Ok ==> md_tables(*old(conn)).dom().contains(MdTable::ComponentRelation) && md_tables(*final(conn))
            == with_md_row(md_tables(*old(conn)), MdTable::ComponentRelation, MdRowView::ComponentRelation(r@)),
        res is Err ==> md_tables(*final(conn)) == md_tables(*old(conn)),
{
    conn.execute("INSERT INTO component_relation (id, sort_order, component_a_id, component_b_id, connection_type, key, property_of_relation, relation_text, relation_description) VALUES (?1, ?2, ?3, ?4, ?5, ?6, ?7, ?8, ?9)",
        (r.id, r.sort_order, r.component_a_id, r.component_b_id, &r.connection_type, &r.key,
        &r.property_of_relation, &r.relation_text, &r.relation_description))
}

/// Adds a row to the view-packet table. A constraint of the table makes it
/// fail.
#[verifier::external_body]
pub(crate) fn insert_md_viewpacket(conn: &mut rusqlite::Connection, v: &ViewPacket) -> (r: Result<usize, rusqlite::Error>)
    ensures
        r is Ok ==> md_tables(*old(conn)).dom().contains(MdTable::ViewPacket) && md_tables(*final(conn))
            == with_md_row(md_tables(*old(conn)), MdTable::ViewPacket, MdRowView::ViewPacket(v@)),
        r is Err ==> md_tables(*final(conn)) == md_tables(*old(conn)),
{
    conn.execute("INSERT INTO view_packet (component_id, context_model_key, primary_display_key, introduction, sort_order, title, view_style, view_type, viewpacket_id) VALUES (?1, ?2, ?3, ?4, ?5, ?6, ?7, ?8, ?9)",
        (v.component_id, &v.context_model_key, &v.primary_display_key, &v.introduction,
        v.sort_order, &v.title, &v.view_style, &v.view_type, v.viewpacket_id))
}

pub open spec fn md_behavior_rows(rows: Seq<BehaviorView>) -> Multiset<MdRowView> {
    rows.map_values(|r: BehaviorView| MdRowView::Behavior(r)).to_multiset()
}

pub open spec fn md_component_rows(rows: Seq<ComponentView>) -> Multiset<MdRowView> {
    rows.map_values(|r: ComponentView| MdRowView::Component(r)).to_multiset()
}

pub open spec fn md_relation_rows(rows: Seq<RelationRowView>) -> Multiset<MdRowView> {
    rows.map_values(|r: RelationRowView| MdRowView::ComponentRelation(r)).to_multiset()
}

pub open spec fn md_viewpacket_rows(rows: Seq<ViewPacketView>) -> Multiset<MdRowView> {
    rows.map_values(|r: ViewPacketView| MdRowView::ViewPacket(r)).to_multiset()
}

/// `conn` holds `table`, and its rows are `rows`.
pub open spec fn md_table_holds(conn: rusqlite::Connection, table: MdTable, rows: Multiset<MdRowView>) -> bool {
    md_tables(conn).dom().contains(table) && md_tables(conn)[table] == rows
}

/// Reads every row of the behavior table.
#[verifier::external_body]
pub(crate) fn read_md_behaviors(conn: &rusqlite::Connection) -> (r: Result<Vec<Behavior>, rusqlite::Error>)
    ensures
        r matches Ok(v) ==> md_table_holds(*conn, MdTable::Behavior, md_behavior_rows(views(v@))),
{
    let mut stmt = conn.prepare("SELECT id, sort_order, view_packet_id, description, diagram_key FROM behavior")?;
    let rows = stmt.query_map([], |r| Ok(Behavior { id: r.get(0)?, sort_order: r.get(1)?,
        view_packet_id: r.get(2)?, description: r.get(3)?, diagram_key: r.get(4)? }))?;
    let v = rows.collect();
    v
}

/// Reads every row of the component table.
#[verifier::external_body]
pub(crate) fn read_md_components(conn: &rusqlite::Connection) -> (r: Result<Vec<Component>, rusqlite::Error>)
    ensures
        r matches Ok(v) ==> md_table_holds(*conn, MdTable::Component, md_component_rows(views(v@))),
{
    let mut stmt = conn.prepare("SELECT id, name, summary FROM component")?;
    let rows = stmt.query_map([], |r| Ok(Component { id: r.get(0)?, name: r.get(1)?, summary: r.get(2)? }))?;
    let v = rows.collect();
    v
}

/// Reads every row of the relation table.
#[verifier::external_body]
pub(crate) fn read_md_relations(conn: &rusqlite::Connection) -> (r: Result<Vec<RelationRow>, rusqlite::Error>)
    ensures
        r matches Ok(v) ==> md_table_holds(*conn, MdTable::ComponentRelation, md_relation_rows(views(v@))),
{
    let mut stmt = conn.prepare("SELECT id, sort_order, component_a_id, component_b_id, connection_type, key, property_of_relation, relation_text, relation_description FROM component_relation")?;
    let rows = stmt.query_map([], |r| Ok(RelationRow { id: r.get(0)?, sort_order: r.get(1)?,
        component_a_id: r.get(2)?, component_b_id: r.get(3)?, connection_type: r.get(4)?,
        key: r.get(5)?, property_of_relation: r.get(6)?, relation_text: r.get(7)?,
        relation_description: r.get(8)? }))?;
    let v = rows.collect();
    v
}

/// Reads every row of the view-packet table.
#[verifier::external_body]
pub(crate) fn read_md_viewpackets(conn: &rusqlite::Connection) -> (r: Result<Vec<ViewPacket>, rusqlite::Error>)
    ensures
        r matches Ok(v) ==> md_table_holds(*conn, MdTable::ViewPacket, md_viewpacket_rows(views(v@))),
{
    let mut stmt = conn.prepare("SELECT component_id, context_model_key, primary_display_key, introduction, sort_order, title, view_style, view_type, viewpacket_id FROM view_packet")?;
    let rows = stmt.query_map([], |r| Ok(ViewPacket { component_id: r.get(0)?,
        context_model_key: r.get(1)?, primary_display_key: r.get(2)?, introduction: r.get(3)?,
        sort_order: r.get(4)?, title: r.get(5)?, view_style: r.get(6)?, view_type: r.get(7)?,
        viewpacket_id: r.get(8)? }))?;
    let v = rows.collect();
    v
}

} // verus!
