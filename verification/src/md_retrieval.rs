//! The Markdown renderer's queries: on rows in memory, each stated as the
//! stable ordering of a selection, and on its database.

use vstd::prelude::*;
use crate::md_db::{
    md_behavior_rows, md_component_rows, md_relation_rows, md_table_holds, md_viewpacket_rows,
    read_md_behaviors, read_md_components, read_md_relations, read_md_viewpackets, MdTable,
};
use crate::md_models::{
    relation_of_row, Behavior, BehaviorView, Component, ComponentRelation, ComponentRelationView,
    ComponentView, RelationRow, RelationRowView, ViewPacket, ViewPacketView,
};
use crate::order::{
    first_where, int_key_order, is_first_match, lemma_int_key_order, select_ordered, sorted_stably,
    views,
};
use crate::retrieval::DbError;
use crate::text::str_equal;

verus! {

// --------------------------------------------------------------- predicates

pub open spec fn component_has_id(id: i32) -> spec_fn(ComponentView) -> bool {
    |c: ComponentView| c.id == id
}

/// The component with the given id, if the rows hold one (the first).
pub open spec fn find_component(comps: Seq<ComponentView>, id: i32) -> Option<ComponentView> {
    if comps.filter(component_has_id(id)).len() > 0 {
        Some(comps.filter(component_has_id(id))[0])
    } else {
        None
    }
}

pub open spec fn relation_from_with_key(id: i32, key: Seq<char>) -> spec_fn(RelationRowView) -> bool {
    |r: RelationRowView| r.component_a_id == id && r.key == key
}

pub open spec fn relation_with_key(key: Seq<char>) -> spec_fn(RelationRowView) -> bool {
    |r: RelationRowView| r.key == key
}

pub open spec fn relation_id_order() -> spec_fn(RelationRowView, RelationRowView) -> bool {
    int_key_order(|r: RelationRowView| r.id as int)
}

pub open spec fn relation_sort_order() -> spec_fn(RelationRowView, RelationRowView) -> bool {
    int_key_order(|r: RelationRowView| r.sort_order as int)
}

/// The relations that start at `id` and have the key `key`, ordered by
/// relation id (`ORDER BY id`).
pub open spec fn related_by_id_and_key(rels: Seq<RelationRowView>, id: i32, key: Seq<char>) -> Seq<
    ComponentRelationView,
> {
    sorted_stably(rels.filter(relation_from_with_key(id, key)), relation_id_order()).map_values(
        |r: RelationRowView| relation_of_row(r),
    )
}

/// The relations with the key `key`, ordered by sort order.
pub open spec fn related_by_key(rels: Seq<RelationRowView>, key: Seq<char>) -> Seq<ComponentRelationView> {
    sorted_stably(rels.filter(relation_with_key(key)), relation_sort_order()).map_values(
        |r: RelationRowView| relation_of_row(r),
    )
}

pub open spec fn behavior_of_viewpacket(id: i32) -> spec_fn(BehaviorView) -> bool {
    |b: BehaviorView| b.view_packet_id == id
}

pub open spec fn behavior_sort_order() -> spec_fn(BehaviorView, BehaviorView) -> bool {
    int_key_order(|b: BehaviorView| b.sort_order as int)
}

/// The behaviors of the view packet `id`, ordered by sort order.
pub open spec fn behaviors_of(bs: Seq<BehaviorView>, id: i32) -> Seq<BehaviorView> {
    sorted_stably(bs.filter(behavior_of_viewpacket(id)), behavior_sort_order())
}

/// For component 0 the view packets of the type and style, otherwise those
/// of the component except `exclude`.
pub open spec fn viewpacket_related(component_id: i32, view_type: Seq<char>, style: Seq<char>, exclude: i32) -> spec_fn(
    ViewPacketView,
) -> bool {
    if component_id == 0 {
        |v: ViewPacketView| v.view_type == view_type && v.view_style == style
    } else {
        |v: ViewPacketView| v.component_id == component_id && v.viewpacket_id != exclude
    }
}

pub open spec fn viewpacket_sort_order() -> spec_fn(ViewPacketView, ViewPacketView) -> bool {
    int_key_order(|v: ViewPacketView| v.sort_order as int)
}

/// The view packets that `viewpacket_related` selects, ordered by sort order.
pub open spec fn viewpackets_related(
    vps: Seq<ViewPacketView>,
    component_id: i32,
    view_type: Seq<char>,
    style: Seq<char>,
    exclude: i32,
) -> Seq<ViewPacketView> {
    sorted_stably(vps.filter(viewpacket_related(component_id, view_type, style, exclude)), viewpacket_sort_order())
}

// ------------------------------------------------------------ in memory

/// The component with the given id.
pub fn component_in(comps: &Vec<Component>, id: i32) -> (r: Option<Component>)
    ensures
        match r {
            Some(c) => find_component(views(comps@), id) == Some(c@),
            None => find_component(views(comps@), id) is None,
        },
{
    first_where(
        comps,
        &(|c: &Component| -> (b: bool)
            ensures
                b == component_has_id(id)(c@),
            { c.id == id }),
        Ghost(component_has_id(id)),
    )
}

fn to_relations(rows: Vec<RelationRow>) -> (out: Vec<ComponentRelation>)
    ensures
        views(out@) == views(rows@).map_values(|r: RelationRowView| relation_of_row(r)),
{
    let ghost f = |r: RelationRowView| relation_of_row(r);
    let mut out: Vec<ComponentRelation> = Vec::new();
    let mut i: usize = 0;
    while i < rows.len()
        invariant
            i <= rows.len(),
            f == (|r: RelationRowView| relation_of_row(r)),
            views(out@) == views(rows@).take(i as int).map_values(f),
        decreases rows.len() - i,
    {
        let r = rows[i].to_relation();
        let ghost before = out@;
        out.push(r);
        proof {
            crate::order::lemma_views_push(before, r);
        }
        assert(views(rows@)[i as int] == rows@[i as int]@);
        assert(views(out@) =~= views(rows@).take(i + 1).map_values(f));
        i = i + 1;
    }
    assert(views(rows@).take(rows.len() as int) =~= views(rows@));
    out
}

/// The relations that start at `id` and have the key `key`, ordered by
/// relation id.
pub fn relations_from_in(rels: &Vec<RelationRow>, id: i32, key: &str) -> (out: Vec<ComponentRelation>)
    ensures
        views(out@) == related_by_id_and_key(views(rels@), id, key@),
{
    proof {
        lemma_int_key_order(|r: RelationRowView| r.id as int);
    }
    let rows = select_ordered(
        rels,
        &(|r: &RelationRow| -> (b: bool)
            ensures
                b == relation_from_with_key(id, key@)(r@),
            { r.component_a_id == id && str_equal(r.key.as_str(), key) }),
        Ghost(relation_from_with_key(id, key@)),
        &(|a: &RelationRow, b: &RelationRow| -> (c: bool)
            ensures
                c == relation_id_order()(a@, b@),
            { a.id <= b.id }),
        Ghost(relation_id_order()),
    );
    to_relations(rows)
}

/// The relations with the key `key`, ordered by sort order.
pub fn relations_with_key_in(rels: &Vec<RelationRow>, key: &str) -> (out: Vec<ComponentRelation>)
    ensures
        views(out@) == related_by_key(views(rels@), key@),
{
    proof {
        lemma_int_key_order(|r: RelationRowView| r.sort_order as int);
    }
    let rows = select_ordered(
        rels,
        &(|r: &RelationRow| -> (b: bool)
            ensures
                b == relation_with_key(key@)(r@),
            { str_equal(r.key.as_str(), key) }),
        Ghost(relation_with_key(key@)),
        &(|a: &RelationRow, b: &RelationRow| -> (c: bool)
            ensures
                c == relation_sort_order()(a@, b@),
            { a.sort_order <= b.sort_order }),
        Ghost(relation_sort_order()),
    );
    to_relations(rows)
}

/// The behaviors of the view packet `id`, ordered by sort order.
pub fn behaviors_in(bs: &Vec<Behavior>, id: i32) -> (out: Vec<Behavior>)
    ensures
        views(out@) == behaviors_of(views(bs@), id),
{
    proof {
        lemma_int_key_order(|b: BehaviorView| b.sort_order as int);
    }
    select_ordered(
        bs,
        &(|b: &Behavior| -> (r: bool)
            ensures
                r == behavior_of_viewpacket(id)(b@),
            { b.view_packet_id == id }),
        Ghost(behavior_of_viewpacket(id)),
        &(|a: &Behavior, b: &Behavior| -> (c: bool)
            ensures
                c == behavior_sort_order()(a@, b@),
            { a.sort_order <= b.sort_order }),
        Ghost(behavior_sort_order()),
    )
}

/// The view packets that `viewpacket_related` selects, ordered by sort
/// order.
pub fn viewpackets_in(
    vps: &Vec<ViewPacket>,
    component_id: i32,
    view_type: &str,
    style: &str,
    exclude: i32,
) -> (out: Vec<ViewPacket>)
    ensures
        views(out@) == viewpackets_related(views(vps@), component_id, view_type@, style@, exclude),
{
    proof {
        lemma_int_key_order(|v: ViewPacketView| v.sort_order as int);
    }
    select_ordered(
        vps,
        &(|v: &ViewPacket| -> (r: bool)
            ensures
                r == viewpacket_related(component_id, view_type@, style@, exclude)(v@),
            {
                if component_id == 0 {
                    str_equal(v.view_type.as_str(), view_type) && str_equal(v.view_style.as_str(), style)
                } else {
                    v.component_id == component_id && v.viewpacket_id != exclude
                }
            }),
        Ghost(viewpacket_related(component_id, view_type@, style@, exclude)),
        &(|a: &ViewPacket, b: &ViewPacket| -> (c: bool)
            ensures
                c == viewpacket_sort_order()(a@, b@),
            { a.sort_order <= b.sort_order }),
        Ghost(viewpacket_sort_order()),
    )
}

// ------------------------------------------------------------- database

pub open spec fn md_components_are(conn: rusqlite::Connection, rows: Seq<ComponentView>) -> bool {
    md_table_holds(conn, MdTable::Component, md_component_rows(rows))
}

pub open spec fn md_relations_are(conn: rusqlite::Connection, rows: Seq<RelationRowView>) -> bool {
    md_table_holds(conn, MdTable::ComponentRelation, md_relation_rows(rows))
}

pub open spec fn md_behaviors_are(conn: rusqlite::Connection, rows: Seq<BehaviorView>) -> bool {
    md_table_holds(conn, MdTable::Behavior, md_behavior_rows(rows))
}

pub open spec fn md_viewpackets_are(conn: rusqlite::Connection, rows: Seq<ViewPacketView>) -> bool {
    md_table_holds(conn, MdTable::ViewPacket, md_viewpacket_rows(rows))
}

pub(crate) fn md_components(conn: &rusqlite::Connection) -> (r: Result<Vec<Component>, DbError>)
    ensures
        r matches Ok(v) ==> md_components_are(*conn, views(v@)),
        r matches Err(e) ==> e is Sqlite,
{
    match read_md_components(conn) {
        Ok(v) => Ok(v),
        Err(e) => Err(DbError::Sqlite(e)),
    }
}

pub(crate) fn md_relations(conn: &rusqlite::Connection) -> (r: Result<Vec<RelationRow>, DbError>)
    ensures
        r matches Ok(v) ==> md_relations_are(*conn, views(v@)),
        r matches Err(e) ==> e is Sqlite,
{
    match read_md_relations(conn) {
        Ok(v) => Ok(v),
        Err(e) => Err(DbError::Sqlite(e)),
    }
}

pub(crate) fn md_behaviors(conn: &rusqlite::Connection) -> (r: Result<Vec<Behavior>, DbError>)
    ensures
        r matches Ok(v) ==> md_behaviors_are(*conn, views(v@)),
        r matches Err(e) ==> e is Sqlite,
{
    match read_md_behaviors(conn) {
        Ok(v) => Ok(v),
        Err(e) => Err(DbError::Sqlite(e)),
    }
}

pub(crate) fn md_viewpackets(conn: &rusqlite::Connection) -> (r: Result<Vec<ViewPacket>, DbError>)
    ensures
        r matches Ok(v) ==> md_viewpackets_are(*conn, views(v@)),
        r matches Err(e) ==> e is Sqlite,
{
    match read_md_viewpackets(conn) {
        Ok(v) => Ok(v),
        Err(e) => Err(DbError::Sqlite(e)),
    }
}

/// The name of the component with the given id; `NoRows` when there is
/// none.
pub fn get_component_name_by_id(db_conn: &rusqlite::Connection, component_id: i32) -> (r: Result<String, DbError>)
    ensures
        r matches Ok(n) ==> exists|rows: Seq<ComponentView>|
            md_components_are(*db_conn, rows) && find_component(rows, component_id) is Some && n@ == find_component(
                rows,
                component_id,
            )->0.name,
        r matches Err(DbError::NoRows) ==> exists|rows: Seq<ComponentView>|
            md_components_are(*db_conn, rows) && find_component(rows, component_id) is None,
{
    let c = get_component_by_id(db_conn, component_id)?;
    Ok(c.name)
}

/// The component with the given id; `NoRows` when there is none.
pub fn get_component_by_id(db_conn: &rusqlite::Connection, component_id: i32) -> (r: Result<Component, DbError>)
    ensures
        r matches Ok(c) ==> exists|rows: Seq<ComponentView>|
            md_components_are(*db_conn, rows) && find_component(rows, component_id) == Some(c@),
        r matches Err(DbError::NoRows) ==> exists|rows: Seq<ComponentView>|
            md_components_are(*db_conn, rows) && find_component(rows, component_id) is None,
{
    let rows = md_components(db_conn)?;
    let found = component_in(&rows, component_id);
    assert(md_components_are(*db_conn, views(rows@)));
    match found {
        Some(c) => Ok(c),
        None => Err(DbError::NoRows),
    }
}

/// The behaviors of the given view packet, ordered by sort order.
pub fn get_vector_of_behaviors_for_viewpacket_id(db_conn: &rusqlite::Connection, viewpacket_id: i32) -> (r:
    Result<Vec<Behavior>, DbError>)
    ensures
        r matches Ok(out) ==> exists|rows: Seq<BehaviorView>|
            md_behaviors_are(*db_conn, rows) && views(out@) == behaviors_of(rows, viewpacket_id),
        r matches Err(e) ==> e is Sqlite,
{
    let rows = md_behaviors(db_conn)?;
    let out = behaviors_in(&rows, viewpacket_id);
    assert(md_behaviors_are(*db_conn, views(rows@)));
    Ok(out)
}

/// For component 0, the view packets with the given type and style;
/// otherwise the view packets of the component except the excluded one.
/// Ordered by sort order.
pub fn get_vector_of_viewpacket_by_component_id_except_component_id(
    db_conn: &rusqlite::Connection,
    search_component_id: i32,
    view_type: &str,
    style: &str,
    exclude_viewpacket_id: i32,
) -> (r: Result<Vec<ViewPacket>, DbError>)
    ensures
        r matches Ok(out) ==> exists|rows: Seq<ViewPacketView>|
            md_viewpackets_are(*db_conn, rows) && views(out@) == viewpackets_related(
                rows,
                search_component_id,
                view_type@,
                style@,
                exclude_viewpacket_id,
            ),
        r matches Err(e) ==> e is Sqlite,
{
    let rows = md_viewpackets(db_conn)?;
    let out = viewpackets_in(&rows, search_component_id, view_type, style, exclude_viewpacket_id);
    assert(md_viewpackets_are(*db_conn, views(rows@)));
    Ok(out)
}

/// The relations that start at the given component and have the given key,
/// ordered by relation id.
pub fn get_vector_of_related_components_by_id_and_key(
    db_conn: &rusqlite::Connection,
    component_id: i32,
    primary_display_key: String,
) -> (r: Result<Vec<ComponentRelation>, DbError>)
    ensures
        r matches Ok(out) ==> exists|rows: Seq<RelationRowView>|
            md_relations_are(*db_conn, rows) && views(out@) == related_by_id_and_key(
                rows,
                component_id,
                primary_display_key@,
            ),
        r matches Err(e) ==> e is Sqlite,
{
    let rows = md_relations(db_conn)?;
    let out = relations_from_in(&rows, component_id, primary_display_key.as_str());
    assert(md_relations_are(*db_conn, views(rows@)));
    Ok(out)
}

/// The relations with the given key, ordered by sort order.
pub fn get_vector_of_related_components_by_key(db_conn: &rusqlite::Connection, key: String) -> (r: Result<
    Vec<ComponentRelation>,
    DbError,
>)
    ensures
        r matches Ok(out) ==> exists|rows: Seq<RelationRowView>|
            md_relations_are(*db_conn, rows) && views(out@) == related_by_key(rows, key@),
        r matches Err(e) ==> e is Sqlite,
{
    let rows = md_relations(db_conn)?;
    let out = relations_with_key_in(&rows, key.as_str());
    assert(md_relations_are(*db_conn, views(rows@)));
    Ok(out)
}

} // verus!
