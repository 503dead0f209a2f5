//! The document database: an SQLite database reached through `rusqlite`.
//!
//! What the library knows of a connection is `db_tables`: for each of the
//! document's tables that the connection holds, the multiset of its rows;
//! and `table_schemas`: the statement each table was created with.
//! The trusted items below read whole tables, add rows, empty tables and
//! create tables; every selection and ordering is done, and proved, in
//! `queries`.

use vstd::prelude::*;
use vstd::multiset::Multiset;
use crate::models::{
    Behavior, BehaviorView, Component, ComponentRelation, ComponentRelationView, ComponentView,
    Document, DocumentView, Include, IncludeView, KeyedContextModel, KeyedContextModelView, Team,
    TeamView, ViewPacket, ViewPacketView,
};
use crate::order::views;

verus! {

/// An open SQLite database (`rusqlite::Connection`).
#[verifier::external_type_specification]
#[verifier::external_body]
pub struct ExConnection(rusqlite::Connection);

/// An error that SQLite or `rusqlite` reports (`rusqlite::Error`).
#[verifier::external_type_specification]
#[verifier::external_body]
pub struct ExSqliteError(rusqlite::Error);

/// The tables of the document database.
#[derive(PartialEq, Eq, Structural, Clone, Copy, Debug)]
pub enum Table {
    Behavior,
    Component,
    ComponentRelation,
    ViewPacket,
    ContextModel,
    Document,
    Include,
    Team,
}

/// A row of one of the tables, by its values.
pub enum RowView {
    Behavior(BehaviorView),
    Component(ComponentView),
    ComponentRelation(ComponentRelationView),
    ViewPacket(ViewPacketView),
    ContextModel(KeyedContextModelView),
    Document(DocumentView),
    Include(IncludeView),
    Team(TeamView),
}

/// The contents of the database behind `conn`: for each document table that
/// it holds, the multiset of the table's rows. SQLite keeps no order among
/// the rows of a table, so neither does this.
pub uninterp spec fn db_tables(conn: rusqlite::Connection) -> Map<Table, Multiset<RowView>>;

/// The statement that each document table of the database behind `conn` was
/// created with, for the tables that the library created (`create_table`
/// records it; no other call changes it).
pub uninterp spec fn table_schemas(conn: rusqlite::Connection) -> Map<Table, Seq<char>>;

/// The table `table` of `conn` was created with the library's statement for
/// it, `schema_sql(table)`: it has the columns and keys written there.
pub open spec fn made_by_schema(conn: rusqlite::Connection, table: Table) -> bool {
    table_schemas(conn).dom().contains(table) && table_schemas(conn)[table] == schema_sql(table)
}

/// The statement that creates `table`.
pub open spec fn schema_sql(table: Table) -> Seq<char> {
    match table {
        Table::Behavior => "CREATE TABLE behavior (
            id INTEGER PRIMARY KEY,
            sort_order INTEGER NOT NULL DEFAULT 0,
            view_packet_id INTEGER NOT NULL DEFAULT 0,
            description TEXT NOT NULL DEFAULT '',
            diagram_key TEXT NOT NULL
        )"@,
        Table::Component => "CREATE TABLE component (
            file_id INTEGER NOT NULL DEFAULT 0,
            id INTEGER PRIMARY KEY,
            name TEXT NOT NULL,
            purpose TEXT NOT NULL DEFAULT '',
            summary TEXT NOT NULL DEFAULT '',
            team_id INTEGER NOT NULL DEFAULT 0
        )"@,
        Table::ComponentRelation => "CREATE TABLE component_relation (
            id INTEGER NOT NULL,
            sort_order INTEGER NOT NULL,
            component_a_id INTEGER NOT NULL,
            component_b_id INTEGER NOT NULL,
            connection_type TEXT NOT NULL DEFAULT '',
            key TEXT NOT NULL DEFAULT '',
            property_of_relation TEXT NOT NULL DEFAULT '',
            relation_text TEXT NOT NULL DEFAULT '',
            relation_description TEXT NOT NULL DEFAULT '',
            style TEXT NOT NULL DEFAULT ''
        )"@,
        Table::ViewPacket => "CREATE TABLE view_packet (
            component_id INTEGER NOT NULL,
            context_model_key TEXT NOT NULL DEFAULT '',
            primary_display_key TEXT NOT NULL DEFAULT '',
            file_id INTEGER NOT NULL DEFAULT 0,
            introduction TEXT NOT NULL DEFAULT '',
            sort_order INTEGER NOT NULL,
            team_id INTEGER NOT NULL DEFAULT 0,
            title TEXT NOT NULL DEFAULT '',
            view_style TEXT NOT NULL,
            view_type TEXT NOT NULL,
            viewpacket_id INTEGER PRIMARY KEY
        )"@,
        Table::ContextModel => "CREATE TABLE IF NOT EXISTS context_model (
            key TEXT NOT NULL,
            entity TEXT NOT NULL,
            entity_type TEXT NOT NULL DEFAULT '',
            description TEXT NOT NULL DEFAULT '',
            reference TEXT NOT NULL DEFAULT '',
            UNIQUE (key)
        )"@,
        Table::Document => "CREATE TABLE document (
            file_id INTEGER NOT NULL,
            filename TEXT NOT NULL DEFAULT '',
            title TEXT NOT NULL DEFAULT '',
            issue TEXT NOT NULL DEFAULT '',
            summary TEXT NOT NULL DEFAULT ''
        )"@,
        Table::Include => "CREATE TABLE include (
            file_id INTEGER NOT NULL DEFAULT 0,
            filename TEXT NOT NULL,
            url TEXT NOT NULL DEFAULT ''
        )"@,
        Table::Team => "CREATE TABLE team (
            id INTEGER PRIMARY KEY,
            name TEXT NOT NULL DEFAULT '',
            description TEXT NOT NULL DEFAULT ''
        )"@,
    }
}

/// The statement that creates `table`.
pub(crate) fn table_schema(table: Table) -> (sql: &'static str)
    ensures
        sql@ == schema_sql(table),
{
    match table {
        Table::Behavior => "CREATE TABLE behavior (
            id INTEGER PRIMARY KEY,
            sort_order INTEGER NOT NULL DEFAULT 0,
            view_packet_id INTEGER NOT NULL DEFAULT 0,
            description TEXT NOT NULL DEFAULT '',
            diagram_key TEXT NOT NULL
        )",
        Table::Component => "CREATE TABLE component (
            file_id INTEGER NOT NULL DEFAULT 0,
            id INTEGER PRIMARY KEY,
            name TEXT NOT NULL,
            purpose TEXT NOT NULL DEFAULT '',
            summary TEXT NOT NULL DEFAULT '',
            team_id INTEGER NOT NULL DEFAULT 0
        )",
        Table::ComponentRelation => "CREATE TABLE component_relation (
            id INTEGER NOT NULL,
            sort_order INTEGER NOT NULL,
            component_a_id INTEGER NOT NULL,
            component_b_id INTEGER NOT NULL,
            connection_type TEXT NOT NULL DEFAULT '',
            key TEXT NOT NULL DEFAULT '',
            property_of_relation TEXT NOT NULL DEFAULT '',
            relation_text TEXT NOT NULL DEFAULT '',
            relation_description TEXT NOT NULL DEFAULT '',
            style TEXT NOT NULL DEFAULT ''
        )",
        Table::ViewPacket => "CREATE TABLE view_packet (
            component_id INTEGER NOT NULL,
            context_model_key TEXT NOT NULL DEFAULT '',
            primary_display_key TEXT NOT NULL DEFAULT '',
            file_id INTEGER NOT NULL DEFAULT 0,
            introduction TEXT NOT NULL DEFAULT '',
            sort_order INTEGER NOT NULL,
            team_id INTEGER NOT NULL DEFAULT 0,
            title TEXT NOT NULL DEFAULT '',
            view_style TEXT NOT NULL,
            view_type TEXT NOT NULL,
            viewpacket_id INTEGER PRIMARY KEY
        )",
        Table::ContextModel => "CREATE TABLE IF NOT EXISTS context_model (
            key TEXT NOT NULL,
            entity TEXT NOT NULL,
            entity_type TEXT NOT NULL DEFAULT '',
            description TEXT NOT NULL DEFAULT '',
            reference TEXT NOT NULL DEFAULT '',
            UNIQUE (key)
        )",
        Table::Document => "CREATE TABLE document (
            file_id INTEGER NOT NULL,
            filename TEXT NOT NULL DEFAULT '',
            title TEXT NOT NULL DEFAULT '',
            issue TEXT NOT NULL DEFAULT '',
            summary TEXT NOT NULL DEFAULT ''
        )",
        Table::Include => "CREATE TABLE include (
            file_id INTEGER NOT NULL DEFAULT 0,
            filename TEXT NOT NULL,
            url TEXT NOT NULL DEFAULT ''
        )",
        Table::Team => "CREATE TABLE team (
            id INTEGER PRIMARY KEY,
            name TEXT NOT NULL DEFAULT '',
            description TEXT NOT NULL DEFAULT ''
        )",
    }
}

/// The contents after a table that was created, or already existed (only
/// `CREATE TABLE IF NOT EXISTS` succeeds then), is in place.
pub open spec fn with_table(before: Map<Table, Multiset<RowView>>, table: Table) -> Map<
    Table,
    Multiset<RowView>,
> {
    if before.dom().contains(table) {
        before
    } else {
        before.insert(table, Multiset::empty())
    }
}

/// The contents after `row` was added to `table`.
pub open spec fn with_row(before: Map<Table, Multiset<RowView>>, table: Table, row: RowView) -> Map<
    Table,
    Multiset<RowView>,
> {
    before.insert(table, before[table].insert(row))
}

/// Runs `sql`, the statement that creates `table` (`Connection::execute`).
/// When it succeeds the table is in place, and a new table is empty and made
/// by `sql`; a plain `CREATE TABLE` (all the statements but the context-model
/// table's, which says `IF NOT EXISTS`) fails when the table exists. When it
/// fails nothing changed, as SQLite undoes a failed statement.
#[verifier::external_body]
pub(crate) fn create_table(conn: &mut rusqlite::Connection, table: Table, sql: &str) -> (r: Result<
    usize,
    rusqlite::Error,
>)
    requires
        sql@ == schema_sql(table),
    ensures
        r is Ok ==> db_tables(*final(conn)) == with_table(db_tables(*old(conn)), table),
        r is Ok ==> table_schemas(*final(conn)) == (if db_tables(*old(conn)).dom().contains(table) {
            table_schemas(*old(conn))
        } else {
            table_schemas(*old(conn)).insert(table, sql@)
        }),
        r is Ok && table != Table::ContextModel ==> !db_tables(*old(conn)).dom().contains(table),
        r is Err ==> db_tables(*final(conn)) == db_tables(*old(conn)),
        r is Err ==> table_schemas(*final(conn)) == table_schemas(*old(conn)),
{
    conn.execute(sql, [])
}

// ------------------------------------------------------------------ rows

pub open spec fn behavior_rows(rows: Seq<BehaviorView>) -> Multiset<RowView> {
    rows.map_values(|r: BehaviorView| RowView::Behavior(r)).to_multiset()
}

pub open spec fn component_rows(rows: Seq<ComponentView>) -> Multiset<RowView> {
    rows.map_values(|r: ComponentView| RowView::Component(r)).to_multiset()
}

pub open spec fn relation_rows(rows: Seq<ComponentRelationView>) -> Multiset<RowView> {
    rows.map_values(|r: ComponentRelationView| RowView::ComponentRelation(r)).to_multiset()
}

pub open spec fn viewpacket_rows(rows: Seq<ViewPacketView>) -> Multiset<RowView> {
    rows.map_values(|r: ViewPacketView| RowView::ViewPacket(r)).to_multiset()
}

pub open spec fn context_rows(rows: Seq<KeyedContextModelView>) -> Multiset<RowView> {
    rows.map_values(|r: KeyedContextModelView| RowView::ContextModel(r)).to_multiset()
}

pub open spec fn document_rows(rows: Seq<DocumentView>) -> Multiset<RowView> {
    rows.map_values(|r: DocumentView| RowView::Document(r)).to_multiset()
}

pub open spec fn include_rows(rows: Seq<IncludeView>) -> Multiset<RowView> {
    rows.map_values(|r: IncludeView| RowView::Include(r)).to_multiset()
}

pub open spec fn team_rows(rows: Seq<TeamView>) -> Multiset<RowView> {
    rows.map_values(|r: TeamView| RowView::Team(r)).to_multiset()
}

/// `conn` holds `table`, and its rows are `rows`.
pub open spec fn table_holds(conn: rusqlite::Connection, table: Table, rows: Multiset<RowView>) -> bool {
    db_tables(conn).dom().contains(table) && db_tables(conn)[table] == rows
}

/// Reads every row of the behavior table (`prepare`, `query_map`).
#[verifier::external_body]
pub(crate) fn read_behaviors(conn: &rusqlite::Connection) -> (r: Result<Vec<Behavior>, rusqlite::Error>)
    ensures
        r matches Ok(v) ==> table_holds(*conn, Table::Behavior, behavior_rows(views(v@))),
{
    let mut stmt = conn.prepare("SELECT id, sort_order, view_packet_id, description, diagram_key FROM behavior")?;
    let rows = stmt.query_map([], |r| Ok(Behavior { id: r.get(0)?, sort_order: r.get(1)?,
        view_packet_id: r.get(2)?, description: r.get(3)?, diagram_key: r.get(4)? }))?;
    let v = rows.collect();
    v
}

/// Reads every row of the component table (`prepare`, `query_map`).
#[verifier::external_body]
pub(crate) fn read_components(conn: &rusqlite::Connection) -> (r: Result<Vec<Component>, rusqlite::Error>)
    ensures
        r matches Ok(v) ==> table_holds(*conn, Table::Component, component_rows(views(v@))),
{
    let mut stmt = conn.prepare("SELECT file_id, id, name, purpose, summary, team_id FROM component")?;
    let rows = stmt.query_map([], |r| Ok(Component { file_id: r.get(0)?, id: r.get(1)?,
        name: r.get(2)?, purpose: r.get(3)?, summary: r.get(4)?, team_id: r.get(5)? }))?;
    let v = rows.collect();
    v
}

/// Reads every row of the component-relation table (`prepare`, `query_map`).
#[verifier::external_body]
pub(crate) fn read_relations(conn: &rusqlite::Connection) -> (r: Result<Vec<ComponentRelation>, rusqlite::Error>)
    ensures
        r matches Ok(v) ==> table_holds(*conn, Table::ComponentRelation, relation_rows(views(v@))),
{
    let mut stmt = conn.prepare("SELECT id, component_a_id, component_b_id, connection_type, key, property_of_relation, relation_text, relation_description, sort_order, style FROM component_relation")?;
    let rows = stmt.query_map([], |r| Ok(ComponentRelation { id: r.get(0)?,
        component_a_id: r.get(1)?, component_b_id: r.get(2)?, connection_type: r.get(3)?,
        key: r.get(4)?, property_of_relation: r.get(5)?, relation_text: r.get(6)?,
        relation_description: r.get(7)?, sort_order: r.get(8)?, style: r.get(9)? }))?;
    let v = rows.collect();
    v
}

/// Reads every row of the view-packet table (`prepare`, `query_map`).
#[verifier::external_body]
pub(crate) fn read_viewpackets(conn: &rusqlite::Connection) -> (r: Result<Vec<ViewPacket>, rusqlite::Error>)
    ensures
        r matches Ok(v) ==> table_holds(*conn, Table::ViewPacket, viewpacket_rows(views(v@))),
{
    let mut stmt = conn.prepare("SELECT component_id, context_model_key, primary_display_key, file_id, introduction, sort_order, team_id, title, view_style, view_type, viewpacket_id FROM view_packet")?;
    let rows = stmt.query_map([], |r| Ok(ViewPacket { component_id: r.get(0)?,
        context_model_key: r.get(1)?, primary_display_key: r.get(2)?, file_id: r.get(3)?,
        introduction: r.get(4)?, sort_order: r.get(5)?, team_id: r.get(6)?, title: r.get(7)?,
        view_style: r.get(8)?, view_type: r.get(9)?, viewpacket_id: r.get(10)? }))?;
    let v = rows.collect();
    v
}

/// Reads every row of the context-model table (`prepare`, `query_map`).
#[verifier::external_body]
pub(crate) fn read_context_models(conn: &rusqlite::Connection) -> (r: Result<Vec<KeyedContextModel>, rusqlite::Error>)
    ensures
        r matches Ok(v) ==> table_holds(*conn, Table::ContextModel, context_rows(views(v@))),
{
    let mut stmt = conn.prepare("SELECT key, entity, entity_type, description, reference FROM context_model")?;
    let rows = stmt.query_map([], |r| Ok(KeyedContextModel { key: r.get(0)?, model:
        crate::models::ContextModel { entity: r.get(1)?, entity_type: r.get(2)?,
        description: r.get(3)?, reference: r.get(4)? } }))?;
    let v = rows.collect();
    v
}

/// Reads every row of the document table (`prepare`, `query_map`).
#[verifier::external_body]
pub(crate) fn read_documents(conn: &rusqlite::Connection) -> (r: Result<Vec<Document>, rusqlite::Error>)
    ensures
        r matches Ok(v) ==> table_holds(*conn, Table::Document, document_rows(views(v@))),
{
    let mut stmt = conn.prepare("SELECT file_id, filename, title, issue, summary FROM document")?;
    let rows = stmt.query_map([], |r| Ok(Document { file_id: r.get(0)?, filename: r.get(1)?,
        title: r.get(2)?, issue: r.get(3)?, summary: r.get(4)? }))?;
    let v = rows.collect();
    v
}

/// Reads every row of the include table (`prepare`, `query_map`).
#[verifier::external_body]
pub(crate) fn read_includes(conn: &rusqlite::Connection) -> (r: Result<Vec<Include>, rusqlite::Error>)
    ensures
        r matches Ok(v) ==> table_holds(*conn, Table::Include, include_rows(views(v@))),
{
    let mut stmt = conn.prepare("SELECT file_id, filename, url FROM include")?;
    let rows = stmt.query_map([], |r| Ok(Include { file_id: r.get(0)?, filename: r.get(1)?,
        url: r.get(2)? }))?;
    let v = rows.collect();
    v
}

/// Adds a row to the behavior table (`Connection::execute` of an `INSERT`).
/// A value above `i64::MAX`, or a constraint of the table, makes it fail.
#[verifier::external_body]
pub(crate) fn insert_behavior(conn: &mut rusqlite::Connection, b: &Behavior) -> (r: Result<usize, rusqlite::Error>)
    ensures
        table_schemas(*final(conn)) == table_schemas(*old(conn)),
        r is Ok ==> db_tables(*old(conn)).dom().contains(Table::Behavior) && db_tables(*final(conn))
            == with_row(db_tables(*old(conn)), Table::Behavior, RowView::Behavior(b@)),
        r is Err ==> db_tables(*final(conn)) == db_tables(*old(conn)),
{
    conn.execute("INSERT INTO behavior (id, sort_order, view_packet_id, description, diagram_key) VALUES (?1, ?2, ?3, ?4, ?5)",
        (b.id, b.sort_order, b.view_packet_id, &b.description, &b.diagram_key))
}

/// Adds a row to the component table (`Connection::execute` of an `INSERT`).
/// A value above `i64::MAX`, or a constraint of the table, makes it fail.
#[verifier::external_body]
pub(crate) fn insert_component(conn: &mut rusqlite::Connection, c: &Component) -> (r: Result<usize, rusqlite::Error>)
    ensures
        table_schemas(*final(conn)) == table_schemas(*old(conn)),
        r is Ok ==> db_tables(*old(conn)).dom().contains(Table::Component) && db_tables(*final(conn))
            == with_row(db_tables(*old(conn)), Table::Component, RowView::Component(c@)),
        r is Err ==> db_tables(*final(conn)) == db_tables(*old(conn)),
{
    conn.execute("INSERT INTO component (file_id, id, name, purpose, summary, team_id) VALUES (?1, ?2, ?3, ?4, ?5, ?6)",
        (c.file_id, c.id, &c.name, &c.purpose, &c.summary, c.team_id))
}

/// Adds a row to the component-relation table (`Connection::execute` of an
/// `INSERT`). A value above `i64::MAX` makes it fail.
#[verifier::external_body]
pub(crate) fn insert_relation(conn: &mut rusqlite::Connection, c: &ComponentRelation) -> (r: Result<usize, rusqlite::Error>)
    ensures
        table_schemas(*final(conn)) == table_schemas(*old(conn)),
        r is Ok ==> db_tables(*old(conn)).dom().contains(Table::ComponentRelation) && db_tables(*final(conn))
            == with_row(db_tables(*old(conn)), Table::ComponentRelation, RowView::ComponentRelation(c@)),
        r is Err ==> db_tables(*final(conn)) == db_tables(*old(conn)),
{
    conn.execute("INSERT INTO component_relation (id, sort_order, component_a_id, component_b_id, connection_type, key, property_of_relation, relation_text, relation_description, style) VALUES (?1, ?2, ?3, ?4, ?5, ?6, ?7, ?8, ?9, ?10)",
        (c.id, c.sort_order, c.component_a_id, c.component_b_id, &c.connection_type, &c.key,
        &c.property_of_relation, &c.relation_text, &c.relation_description, &c.style))
}

/// Adds a row to the view-packet table (`Connection::execute` of an
/// `INSERT`). A value above `i64::MAX`, or a constraint of the table, makes it
/// fail.
#[verifier::external_body]
pub(crate) fn insert_viewpacket(conn: &mut rusqlite::Connection, v: &ViewPacket) -> (r: Result<usize, rusqlite::Error>)
    ensures
        table_schemas(*final(conn)) == table_schemas(*old(conn)),
        r is Ok ==> db_tables(*old(conn)).dom().contains(Table::ViewPacket) && db_tables(*final(conn))
            == with_row(db_tables(*old(conn)), Table::ViewPacket, RowView::ViewPacket(v@)),
        r is Err ==> db_tables(*final(conn)) == db_tables(*old(conn)),
{
    conn.execute("INSERT INTO view_packet (component_id, context_model_key, primary_display_key, file_id, introduction, sort_order, team_id, title, view_style, view_type, viewpacket_id) VALUES (?1, ?2, ?3, ?4, ?5, ?6, ?7, ?8, ?9, ?10, ?11)",
        (v.component_id, &v.context_model_key, &v.primary_display_key, v.file_id, &v.introduction,
        v.sort_order, v.team_id, &v.title, &v.view_style, &v.view_type, v.viewpacket_id))
}

/// Adds a row to the context-model table (`Connection::execute` of an
/// `INSERT`). When it succeeds the row is in the table; when it fails (as
/// for a second row with the same key in a table with `UNIQUE (key)`)
/// nothing changed.
#[verifier::external_body]
pub(crate) fn insert_context_model(conn: &mut rusqlite::Connection, m: &KeyedContextModel) -> (r: Result<usize, rusqlite::Error>)
    ensures
        table_schemas(*final(conn)) == table_schemas(*old(conn)),
        r is Ok ==> db_tables(*old(conn)).dom().contains(Table::ContextModel) && db_tables(*final(conn))
            == with_row(db_tables(*old(conn)), Table::ContextModel, RowView::ContextModel(m@)),
        r is Err ==> db_tables(*final(conn)) == db_tables(*old(conn)),
{
    conn.execute("INSERT INTO context_model (key, entity, entity_type, description, reference) VALUES (?1, ?2, ?3, ?4, ?5)",
        (&m.key, &m.model.entity, &m.model.entity_type, &m.model.description, &m.model.reference))
}

/// Adds a row to the document table (`Connection::execute` of an `INSERT`).
#[verifier::external_body]
pub(crate) fn insert_document(conn: &mut rusqlite::Connection, d: &Document) -> (r: Result<usize, rusqlite::Error>)
    ensures
        table_schemas(*final(conn)) == table_schemas(*old(conn)),
        r is Ok ==> db_tables(*old(conn)).dom().contains(Table::Document) && db_tables(*final(conn))
            == with_row(db_tables(*old(conn)), Table::Document, RowView::Document(d@)),
        r is Err ==> db_tables(*final(conn)) == db_tables(*old(conn)),
{
    conn.execute("INSERT INTO document (file_id, filename, title, issue, summary) VALUES (?1, ?2, ?3, ?4, ?5)",
        (d.file_id, &d.filename, &d.title, &d.issue, &d.summary))
}

/// Adds a row to the include table (`Connection::execute` of an `INSERT`).
#[verifier::external_body]
pub(crate) fn insert_include(conn: &mut rusqlite::Connection, i: &Include) -> (r: Result<usize, rusqlite::Error>)
    ensures
        table_schemas(*final(conn)) == table_schemas(*old(conn)),
        r is Ok ==> db_tables(*old(conn)).dom().contains(Table::Include) && db_tables(*final(conn))
            == with_row(db_tables(*old(conn)), Table::Include, RowView::Include(i@)),
        r is Err ==> db_tables(*final(conn)) == db_tables(*old(conn)),
{
    conn.execute("INSERT INTO include (file_id, filename, url) VALUES (?1, ?2, ?3)",
        (i.file_id, &i.filename, &i.url))
}

/// Adds a row to the team table (`Connection::execute` of an `INSERT`).
#[verifier::external_body]
pub(crate) fn insert_team(conn: &mut rusqlite::Connection, t: &Team) -> (r: Result<usize, rusqlite::Error>)
    ensures
        table_schemas(*final(conn)) == table_schemas(*old(conn)),
        r is Ok ==> db_tables(*old(conn)).dom().contains(Table::Team) && db_tables(*final(conn))
            == with_row(db_tables(*old(conn)), Table::Team, RowView::Team(t@)),
        r is Err ==> db_tables(*final(conn)) == db_tables(*old(conn)),
{
    conn.execute("INSERT INTO team (id, name, description) VALUES (?1, ?2, ?3)",
        (t.id, &t.name, &t.description))
}

/// `rows` holds a context-model row with the key `key`.
pub open spec fn has_context_key(rows: Multiset<RowView>, key: Seq<char>) -> bool {
    exists|m: KeyedContextModelView|
        #![trigger rows.count(RowView::ContextModel(m))]
        rows.count(RowView::ContextModel(m)) > 0 && m.key == key
}

/// Adds a row to the context-model table unless the table holds one with the
/// same key (`INSERT OR IGNORE`). The table must have been made by the
/// library's statement, whose `UNIQUE (key)` is what makes SQLite ignore
/// the row.
#[verifier::external_body]
pub(crate) fn insert_context_model_or_ignore(conn: &mut rusqlite::Connection, m: &KeyedContextModel) -> (r: Result<usize, rusqlite::Error>)
    requires
        made_by_schema(*old(conn), Table::ContextModel),
    ensures
        table_schemas(*final(conn)) == table_schemas(*old(conn)),
        r is Ok ==> db_tables(*old(conn)).dom().contains(Table::ContextModel) && db_tables(*final(conn)) == (
            if has_context_key(db_tables(*old(conn))[Table::ContextModel], m.key@) {
                db_tables(*old(conn))
            } else {
                with_row(db_tables(*old(conn)), Table::ContextModel, RowView::ContextModel(m@))
            }),
        r is Err ==> db_tables(*final(conn)) == db_tables(*old(conn)),
{
    conn.execute("INSERT OR IGNORE INTO context_model (key, entity, entity_type, description, reference) VALUES (?1, ?2, ?3, ?4, ?5)",
        (&m.key, &m.model.entity, &m.model.entity_type, &m.model.description, &m.model.reference))
}

/// A component row with the name, summary and purpose of `c` when it has the
/// id of `c`; the row unchanged otherwise.
pub open spec fn component_updated(row: ComponentView, c: ComponentView) -> ComponentView {
    if row.id == c.id {
        ComponentView { name: c.name, summary: c.summary, purpose: c.purpose, ..row }
    } else {
        row
    }
}

/// Sets name, summary and purpose of the component rows with the id of `c`
/// (`UPDATE component ... WHERE id = ?`). An id above `i64::MAX` makes it
/// fail.
#[verifier::external_body]
pub(crate) fn update_component_row(conn: &mut rusqlite::Connection, c: &Component) -> (r: Result<usize, rusqlite::Error>)
    ensures
        table_schemas(*final(conn)) == table_schemas(*old(conn)),
        r is Ok ==> exists|rows: Seq<ComponentView>|
            #![trigger component_rows(rows)]
            table_holds(*old(conn), Table::Component, component_rows(rows)) && db_tables(*final(conn))
                == db_tables(*old(conn)).insert(
                Table::Component,
                component_rows(rows.map_values(|row: ComponentView| component_updated(row, c@))),
            ),
        r is Err ==> db_tables(*final(conn)) == db_tables(*old(conn)),
{
    conn.execute("UPDATE component SET name = ?1, summary = ?2, purpose = ?3 WHERE id = ?4",
        (&c.name, &c.summary, &c.purpose, c.id))
}

/// An include row with the file id `file_id` when it has the file name
/// `filename`; the row unchanged otherwise.
pub open spec fn include_updated(row: IncludeView, file_id: u64, filename: Seq<char>) -> IncludeView {
    if row.filename == filename {
        IncludeView { file_id: file_id, ..row }
    } else {
        row
    }
}

/// Sets the file id of the include rows with the given file name (`UPDATE
/// include ... WHERE filename = ?`). A file id above `i64::MAX` makes it
/// fail.
#[verifier::external_body]
pub(crate) fn update_include_file_id(conn: &mut rusqlite::Connection, file_id: u64, filename: &str) -> (r: Result<usize, rusqlite::Error>)
    ensures
        table_schemas(*final(conn)) == table_schemas(*old(conn)),
        r is Ok ==> exists|rows: Seq<IncludeView>|
            #![trigger include_rows(rows)]
            table_holds(*old(conn), Table::Include, include_rows(rows)) && db_tables(*final(conn))
                == db_tables(*old(conn)).insert(
                Table::Include,
                include_rows(rows.map_values(|row: IncludeView| include_updated(row, file_id, filename@))),
            ),
        file_id > i64::MAX ==> r is Err,
        r is Err ==> db_tables(*final(conn)) == db_tables(*old(conn)),
{
    conn.execute("UPDATE include SET file_id = ?1 WHERE filename = ?2", (file_id, filename))
}

/// Two row sequences of the view-packet table with the same rows hold the
/// same view packets.
pub proof fn lemma_viewpacket_rows_same(a: Seq<ViewPacketView>, b: Seq<ViewPacketView>)
    requires
        viewpacket_rows(a) == viewpacket_rows(b),
    ensures
        a.to_multiset() == b.to_multiset(),
{
    let g = |r: RowView| match r {
        RowView::ViewPacket(v) => v,
        _ => a[0],
    };
    crate::order::lemma_map_injective_multiset(a, b, |r: ViewPacketView| RowView::ViewPacket(r), g);
}

} // verus!
