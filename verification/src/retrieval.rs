//! Queries on the document database. Each function reads the tables it
//! needs and computes its answer with the function of `queries` that states
//! it; an answer is the query's answer on the table's rows in some order, as
//! SQLite returns rows in no fixed order.

use vstd::prelude::*;
use crate::db::{
    db_tables, insert_context_model,
    behavior_rows, component_rows, context_rows, document_rows, include_rows, read_behaviors,
    read_components, read_context_models, read_documents, read_includes, read_relations,
    read_viewpackets, relation_rows, table_holds, viewpacket_rows, Table,
};
use crate::models::{
    Behavior, BehaviorView, Component, ComponentRelation, ComponentRelationView, ComponentView,
    ContextModel, ContextModelView, DocumentView, IncludeView, KeyedContextModel,
    KeyedContextModelView, ViewPacket, ViewPacketView,
};
use vstd::multiset::Multiset;
use crate::order::{is_first_match, is_ordered_selection, views};
use crate::queries;
use crate::models::Record;
use vstd::relations::sorted_by;

verus! {

/// Why a query has no answer.
#[derive(Debug)]
pub enum DbError {
    /// No row matches a query that answers with one row.
    NoRows,
    /// SQLite or `rusqlite` failed.
    Sqlite(rusqlite::Error),
}

/// The component table of `conn` holds the rows `rows`, in some order.
pub open spec fn components_are(conn: rusqlite::Connection, rows: Seq<ComponentView>) -> bool {
    table_holds(conn, Table::Component, component_rows(rows))
}

/// The component-relation table of `conn` holds the rows `rows`.
pub open spec fn relations_are(conn: rusqlite::Connection, rows: Seq<ComponentRelationView>) -> bool {
    table_holds(conn, Table::ComponentRelation, relation_rows(rows))
}

/// The behavior table of `conn` holds the rows `rows`.
pub open spec fn behaviors_are(conn: rusqlite::Connection, rows: Seq<BehaviorView>) -> bool {
    table_holds(conn, Table::Behavior, behavior_rows(rows))
}

/// The view-packet table of `conn` holds the rows `rows`.
pub open spec fn viewpackets_are(conn: rusqlite::Connection, rows: Seq<ViewPacketView>) -> bool {
    table_holds(conn, Table::ViewPacket, viewpacket_rows(rows))
}

/// The context-model table of `conn` holds the rows `rows`.
pub open spec fn context_models_are(conn: rusqlite::Connection, rows: Seq<KeyedContextModelView>) -> bool {
    table_holds(conn, Table::ContextModel, context_rows(rows))
}

/// The document table of `conn` holds the rows `rows`.
pub open spec fn documents_are(conn: rusqlite::Connection, rows: Seq<DocumentView>) -> bool {
    table_holds(conn, Table::Document, document_rows(rows))
}

/// The include table of `conn` holds the rows `rows`.
pub open spec fn includes_are(conn: rusqlite::Connection, rows: Seq<IncludeView>) -> bool {
    table_holds(conn, Table::Include, include_rows(rows))
}

fn components(conn: &rusqlite::Connection) -> (r: Result<Vec<Component>, DbError>)
    ensures
        r matches Ok(v) ==> components_are(*conn, views(v@)),
        r matches Err(e) ==> e is Sqlite,
{
    match read_components(conn) {
        Ok(v) => Ok(v),
        Err(e) => Err(DbError::Sqlite(e)),
    }
}

fn relations(conn: &rusqlite::Connection) -> (r: Result<Vec<ComponentRelation>, DbError>)
    ensures
        r matches Ok(v) ==> relations_are(*conn, views(v@)),
        r matches Err(e) ==> e is Sqlite,
{
    match read_relations(conn) {
        Ok(v) => Ok(v),
        Err(e) => Err(DbError::Sqlite(e)),
    }
}

fn behaviors(conn: &rusqlite::Connection) -> (r: Result<Vec<Behavior>, DbError>)
    ensures
        r matches Ok(v) ==> behaviors_are(*conn, views(v@)),
        r matches Err(e) ==> e is Sqlite,
{
    match read_behaviors(conn) {
        Ok(v) => Ok(v),
        Err(e) => Err(DbError::Sqlite(e)),
    }
}

fn viewpackets(conn: &rusqlite::Connection) -> (r: Result<Vec<ViewPacket>, DbError>)
    ensures
        r matches Ok(v) ==> viewpackets_are(*conn, views(v@)),
        r matches Err(e) ==> e is Sqlite,
{
    match read_viewpackets(conn) {
        Ok(v) => Ok(v),
        Err(e) => Err(DbError::Sqlite(e)),
    }
}

// ---------------------------------------------------------------- components

/// The component with the given id (`WHERE id = ?`); `NoRows` when there is
/// none.
pub fn get_component_by_id(db_conn: &rusqlite::Connection, component_id: u64) -> (r: Result<Component, DbError>)
    ensures
        r matches Ok(c) ==> exists|rows: Seq<ComponentView>|
            components_are(*db_conn, rows) && is_first_match(
                Some(c),
                rows,
                queries::component_has_id(component_id),
            ),
        r matches Err(DbError::NoRows) ==> exists|rows: Seq<ComponentView>|
            components_are(*db_conn, rows) && rows.filter(queries::component_has_id(component_id)).len() == 0,
{
    let rows = components(db_conn)?;
    let found = queries::component_with_id(&rows, component_id);
    assert(components_are(*db_conn, views(rows@)));
    match found {
        Some(c) => Ok(c),
        None => Err(DbError::NoRows),
    }
}

/// The component with the given name (`WHERE name = ?`); `NoRows` when there
/// is none.
pub fn get_component_by_name(db_conn: &rusqlite::Connection, name: String) -> (r: Result<Component, DbError>)
    ensures
        r matches Ok(c) ==> exists|rows: Seq<ComponentView>|
            components_are(*db_conn, rows) && is_first_match(
                Some(c),
                rows,
                queries::component_has_name(name@),
            ),
        r matches Err(DbError::NoRows) ==> exists|rows: Seq<ComponentView>|
            components_are(*db_conn, rows) && rows.filter(queries::component_has_name(name@)).len() == 0,
{
    let rows = components(db_conn)?;
    let found = queries::component_with_name(&rows, name.as_str());
    assert(components_are(*db_conn, views(rows@)));
    match found {
        Some(c) => Ok(c),
        None => Err(DbError::NoRows),
    }
}

/// The name of the component with the given id; `NoRows` when there is none.
pub fn get_component_name_by_id(db_conn: &rusqlite::Connection, component_id: u64) -> (r: Result<String, DbError>)
    ensures
        r matches Ok(n) ==> exists|rows: Seq<ComponentView>|
            components_are(*db_conn, rows) && rows.filter(queries::component_has_id(component_id)).len() > 0
                && n@ == rows.filter(queries::component_has_id(component_id))[0].name,
        r matches Err(DbError::NoRows) ==> exists|rows: Seq<ComponentView>|
            components_are(*db_conn, rows) && rows.filter(queries::component_has_id(component_id)).len() == 0,
{
    let c = get_component_by_id(db_conn, component_id)?;
    Ok(c.name)
}

/// The names of all components, ordered without regard to ASCII case
/// (`ORDER BY name COLLATE NOCASE`).
pub fn get_vector_of_component_names_sorted(db_conn: &rusqlite::Connection) -> (r: Result<Vec<String>, DbError>)
    ensures
        r matches Ok(out) ==> exists|rows: Seq<ComponentView>|
            components_are(*db_conn, rows) && views(out@).to_multiset()
                == queries::component_names(rows).to_multiset() && sorted_by(
                views(out@),
                queries::nocase_order(),
            ),
        r matches Err(e) ==> e is Sqlite,
{
    let rows = components(db_conn)?;
    let out = queries::component_names_sorted(&rows);
    assert(components_are(*db_conn, views(rows@)));
    Ok(out)
}

/// All components, ordered by name without regard to ASCII case.
pub fn get_vector_of_components_sorted_by_name(db_conn: &rusqlite::Connection) -> (r: Result<Vec<Component>, DbError>)
    ensures
        r matches Ok(out) ==> exists|rows: Seq<ComponentView>|
            components_are(*db_conn, rows) && is_ordered_selection(
                views(out@),
                rows,
                queries::any_component(),
                queries::component_name_order(),
            ),
        r matches Err(e) ==> e is Sqlite,
{
    let rows = components(db_conn)?;
    let out = queries::components_sorted_by_name(&rows);
    assert(components_are(*db_conn, views(rows@)));
    Ok(out)
}

/// The components that a relation with the given key starts or ends at,
/// each distinct row once, ordered by name without regard to ASCII case;
/// where the table holds each id once, each id comes once.
pub fn get_vector_of_components_by_key_sorted_by_name(db_conn: &rusqlite::Connection, key: &str) -> (r: Result<
    Vec<Component>,
    DbError,
>)
    ensures
        r matches Ok(out) ==> exists|rows: Seq<ComponentView>, rels: Seq<ComponentRelationView>|
            components_are(*db_conn, rows) && relations_are(*db_conn, rels) && views(out@).to_set()
                == rows.filter(queries::component_in_relations(rels, key@)).to_set() && views(
                out@,
            ).no_duplicates() && sorted_by(views(out@), queries::component_name_order()) && (
            queries::component_ids_unique(rows) ==> queries::component_ids_unique(views(out@))),
        r matches Err(e) ==> e is Sqlite,
{
    let rows = components(db_conn)?;
    let rels = relations(db_conn)?;
    let out = queries::components_in_relations_with_key(&rows, &rels, key);
    assert(components_are(*db_conn, views(rows@)) && relations_are(*db_conn, views(rels@)));
    Ok(out)
}

/// The components of the given team, ordered by name without regard to
/// ASCII case.
pub fn get_components_vector_by_team_id_sorted_by_name(
    db_conn: &rusqlite::Connection,
    requested_team_id: u64,
) -> (r: Result<Vec<Component>, DbError>)
    ensures
        r matches Ok(out) ==> exists|rows: Seq<ComponentView>|
            components_are(*db_conn, rows) && is_ordered_selection(
                views(out@),
                rows,
                queries::component_has_team(requested_team_id),
                queries::component_name_order(),
            ),
        r matches Err(e) ==> e is Sqlite,
{
    let rows = components(db_conn)?;
    let out = queries::components_of_team(&rows, requested_team_id);
    assert(components_are(*db_conn, views(rows@)));
    Ok(out)
}


// ------------------------------------------------------------ context models

/// The entries that `get_vector_of_context_model_by_key` stores: those with
/// an entity that is not all ASCII, filed under `key`.
pub open spec fn stored_context_entries(entries: Seq<ContextModelView>, key: Seq<char>) -> Seq<
    KeyedContextModelView,
> {
    entries.filter(|e: ContextModelView| !vstd::utf8::is_ascii_chars(e.entity)).map_values(
        |e: ContextModelView| KeyedContextModelView { key: key, model: e },
    )
}

/// The database after `rows` were added to the context-model table.
pub open spec fn context_added(
    before: Map<Table, Multiset<crate::db::RowView>>,
    rows: Seq<KeyedContextModelView>,
) -> Map<Table, Multiset<crate::db::RowView>> {
    before.insert(Table::ContextModel, before[Table::ContextModel].add(context_rows(rows)))
}

/// The context model with the given key. First the entries that the
/// relations with the key and the components they end at yield, and whose
/// entity is not all ASCII, are stored under the key; then the entries
/// stored under the key are returned, ordered by entity with ASCII letters
/// folded to lower case (`ORDER BY LOWER(entity)`). A failed store (the table
/// keeps one row per key) ends the call, with the entries stored so far kept.
pub fn get_vector_of_context_model_by_key(db_conn: &mut rusqlite::Connection, key: &str) -> (r: Result<
    Vec<ContextModel>,
    DbError,
>)
    ensures
        r matches Ok(out) ==> exists|
            rels: Seq<ComponentRelationView>,
            comps: Seq<ComponentView>,
            ctx: Seq<KeyedContextModelView>,
        |
            {
                &&& relations_are(*old(db_conn), rels)
                &&& components_are(*old(db_conn), comps)
                &&& db_tables(*old(db_conn)).dom().contains(Table::ContextModel)
                &&& db_tables(*final(db_conn)) == context_added(
                    db_tables(*old(db_conn)),
                    stored_context_entries(queries::context_entries(rels, comps, key@), key@),
                )
                &&& context_models_are(*final(db_conn), ctx)
                &&& views(out@).to_multiset() == ctx.filter(queries::context_has_key(key@)).map_values(
                    |m: KeyedContextModelView| m.model,
                ).to_multiset()
                &&& sorted_by(views(out@), queries::entity_order())
            },
        r matches Err(e) ==> e is Sqlite && (db_tables(*final(db_conn)) == db_tables(*old(db_conn))
            || exists|added: Seq<KeyedContextModelView>|
            #![trigger context_added(db_tables(*old(db_conn)), added)]
            {
                &&& forall|i: int| 0 <= i < added.len() ==> (#[trigger] added[i]).key == key@
                &&& db_tables(*final(db_conn)) == context_added(db_tables(*old(db_conn)), added)
            }),
{
    let ghost before = db_tables(*db_conn);
    let rels = relations(db_conn)?;
    let comps = components(db_conn)?;
    let entries = queries::context_model_entries(&rels, &comps, key);
    let ghost nonascii = |e: ContextModelView| !vstd::utf8::is_ascii_chars(e.entity);
    let ghost keyed = |e: ContextModelView| KeyedContextModelView { key: key@, model: e };
    let ghost as_row = |r: KeyedContextModelView| crate::db::RowView::ContextModel(r);
    let mut i: usize = 0;
    let ghost mut added: Seq<KeyedContextModelView> = Seq::empty();
    proof {
        assert(views(entries@).take(0).filter(nonascii) =~= Seq::<ContextModelView>::empty());
        assert(added =~= views(entries@).take(0).filter(nonascii).map_values(keyed));
    }
    while i < entries.len()
        invariant
            i <= entries.len(),
            before == db_tables(*old(db_conn)),
            nonascii == (|e: ContextModelView| !vstd::utf8::is_ascii_chars(e.entity)),
            keyed == (|e: ContextModelView| KeyedContextModelView { key: key@, model: e }),
            as_row == (|r: KeyedContextModelView| crate::db::RowView::ContextModel(r)),
            added == views(entries@).take(i as int).filter(nonascii).map_values(keyed),
            forall|j: int| 0 <= j < added.len() ==> (#[trigger] added[j]).key == key@,
            added.len() == 0 ==> db_tables(*db_conn) == before,
            added.len() > 0 ==> before.dom().contains(Table::ContextModel) && db_tables(*db_conn)
                == context_added(before, added),
        decreases entries.len() - i,
    {
        let e = &entries[i];
        assert(views(entries@)[i as int] == e@);
        assert(views(entries@).take(i + 1) =~= views(entries@).take(i as int).push(e@));
        proof {
            views(entries@).take(i as int).lemma_filter_push(e@, nonascii);
        }
        if !e.entity.as_str().is_ascii() {
            let row = KeyedContextModel { key: key.to_owned(), model: e.duplicate() };
            match insert_context_model(db_conn, &row) {
                Ok(_) => {},
                Err(err) => {
                    assert(added.len() > 0 ==> db_tables(*db_conn) == context_added(
                        db_tables(*old(db_conn)),
                        added,
                    ));
                    return Err(DbError::Sqlite(err));
                },
            }
            proof {
                let new_added = added.push(row@);
                assert(new_added =~= views(entries@).take(i + 1).filter(nonascii).map_values(keyed));
                crate::order::lemma_map_push_multiset(added, row@, as_row);
                if added.len() == 0 {
                    crate::order::lemma_map_empty_multiset(added, as_row);
                }
                assert(context_rows(added) == added.map_values(as_row).to_multiset());
                assert(context_rows(new_added) == new_added.map_values(as_row).to_multiset());
                assert(db_tables(*db_conn) =~= context_added(before, new_added)) by {
                    broadcast use vstd::multiset::group_multiset_axioms;
                    assert(before[Table::ContextModel].add(context_rows(new_added)) =~= (if added.len() == 0 {
                        before[Table::ContextModel]
                    } else {
                        before[Table::ContextModel].add(context_rows(added))
                    }).insert(crate::db::RowView::ContextModel(row@)));
                }
                added = new_added;
            }
        } else {
            assert(added =~= views(entries@).take(i + 1).filter(nonascii).map_values(keyed));
        }
        i = i + 1;
    }
    assert(views(entries@).take(entries.len() as int) =~= views(entries@));
    let rows = match read_context_models(db_conn) {
        Ok(v) => v,
        Err(err) => {
            return Err(DbError::Sqlite(err));
        },
    };
    proof {
        if added.len() == 0 {
            crate::order::lemma_map_empty_multiset(added, as_row);
            assert(context_rows(added) == added.map_values(as_row).to_multiset());
            assert(context_added(before, added) =~= before) by {
                broadcast use vstd::multiset::group_multiset_axioms;
                assert(before[Table::ContextModel].add(Multiset::empty()) =~= before[Table::ContextModel]);
            }
        }
    }
    proof {
        let spec_nonascii = |e: ContextModelView| !vstd::utf8::is_ascii_chars(e.entity);
        let spec_keyed = |e: ContextModelView| KeyedContextModelView { key: key@, model: e };
        assert(spec_nonascii =~= nonascii);
        assert(spec_keyed =~= keyed);
        assert(added == stored_context_entries(
            queries::context_entries(views(rels@), views(comps@), key@),
            key@,
        ));
    }
    let out = queries::context_model_with_key(&rows, key);
    assert(relations_are(*old(db_conn), views(rels@)));
    assert(components_are(*old(db_conn), views(comps@)));
    assert(context_models_are(*db_conn, views(rows@)));
    Ok(out)
}

// ---------------------------------------------------------------- behaviors

/// The behaviors of the given view packet, ordered by sort order.
pub fn get_vector_of_behaviors_for_viewpacket_id(db_conn: &rusqlite::Connection, viewpacket_id: u64) -> (r:
    Result<Vec<Behavior>, DbError>)
    ensures
        r matches Ok(out) ==> exists|rows: Seq<BehaviorView>|
            behaviors_are(*db_conn, rows) && is_ordered_selection(
                views(out@),
                rows,
                queries::behavior_of_viewpacket(viewpacket_id),
                queries::behavior_sort_order(),
            ),
        r matches Err(e) ==> e is Sqlite,
{
    let rows = behaviors(db_conn)?;
    let out = queries::behaviors_of_viewpacket(&rows, viewpacket_id);
    assert(behaviors_are(*db_conn, views(rows@)));
    Ok(out)
}

/// All behaviors, ordered by diagram key and then by sort order.
pub fn get_vector_of_behaviors_sorted_by_key_and_order(db_conn: &rusqlite::Connection) -> (r: Result<
    Vec<Behavior>,
    DbError,
>)
    ensures
        r matches Ok(out) ==> exists|rows: Seq<BehaviorView>|
            behaviors_are(*db_conn, rows) && is_ordered_selection(
                views(out@),
                rows,
                queries::any_behavior(),
                queries::behavior_key_order(),
            ),
        r matches Err(e) ==> e is Sqlite,
{
    let rows = behaviors(db_conn)?;
    let out = queries::behaviors_sorted_by_key_and_order(&rows);
    assert(behaviors_are(*db_conn, views(rows@)));
    Ok(out)
}

// -------------------------------------------------------- component relations

/// The relations that start at the given component and have the given key,
/// ordered by sort order.
pub fn get_vector_of_component_relations_by_id_and_key(
    db_conn: &rusqlite::Connection,
    component_id: u64,
    primary_display_key: String,
) -> (r: Result<Vec<ComponentRelation>, DbError>)
    ensures
        r matches Ok(out) ==> exists|rows: Seq<ComponentRelationView>|
            relations_are(*db_conn, rows) && is_ordered_selection(
                views(out@),
                rows,
                queries::relation_from_with_key(component_id, primary_display_key@),
                queries::relation_sort_order(),
            ),
        r matches Err(e) ==> e is Sqlite,
{
    let rows = relations(db_conn)?;
    let out = queries::relations_from_component_with_key(&rows, component_id, primary_display_key.as_str());
    assert(relations_are(*db_conn, views(rows@)));
    Ok(out)
}

/// The relations with the given key that start or end at the given
/// component, ordered by sort order.
pub fn get_vector_of_component_relations_by_id_and_key_both_directions(
    db_conn: &rusqlite::Connection,
    component_id: u64,
    primary_display_key: String,
) -> (r: Result<Vec<ComponentRelation>, DbError>)
    ensures
        r matches Ok(out) ==> exists|rows: Seq<ComponentRelationView>|
            relations_are(*db_conn, rows) && is_ordered_selection(
                views(out@),
                rows,
                queries::relation_at_with_key(component_id, primary_display_key@),
                queries::relation_sort_order(),
            ),
        r matches Err(e) ==> e is Sqlite,
{
    let rows = relations(db_conn)?;
    let out = queries::relations_at_component_with_key(&rows, component_id, primary_display_key.as_str());
    assert(relations_are(*db_conn, views(rows@)));
    Ok(out)
}

/// The relations with the given key, ordered by sort order.
pub fn get_vector_of_component_relations_by_key(db_conn: &rusqlite::Connection, key: String) -> (r:
    Result<Vec<ComponentRelation>, DbError>)
    ensures
        r matches Ok(out) ==> exists|rows: Seq<ComponentRelationView>|
            relations_are(*db_conn, rows) && is_ordered_selection(
                views(out@),
                rows,
                queries::relation_with_key(key@),
                queries::relation_sort_order(),
            ),
        r matches Err(e) ==> e is Sqlite,
{
    let rows = relations(db_conn)?;
    let out = queries::relations_with_key(&rows, key.as_str());
    assert(relations_are(*db_conn, views(rows@)));
    Ok(out)
}

/// All relations, ordered by key and then by sort order.
pub fn get_vector_of_component_relations_sorted_by_key_and_order(db_conn: &rusqlite::Connection) -> (r:
    Result<Vec<ComponentRelation>, DbError>)
    ensures
        r matches Ok(out) ==> exists|rows: Seq<ComponentRelationView>|
            relations_are(*db_conn, rows) && is_ordered_selection(
                views(out@),
                rows,
                queries::any_relation(),
                queries::relation_key_order(),
            ),
        r matches Err(e) ==> e is Sqlite,
{
    let rows = relations(db_conn)?;
    let out = queries::relations_sorted_by_key_and_order(&rows);
    assert(relations_are(*db_conn, views(rows@)));
    Ok(out)
}

/// The relations of the given style that end at the given component (the
/// components that use it), ordered by relation id.
pub fn get_vector_of_usedby_components_by_id_and_key(
    db_conn: &rusqlite::Connection,
    component_id: u64,
    style: String,
) -> (r: Result<Vec<ComponentRelation>, DbError>)
    ensures
        r matches Ok(out) ==> exists|rows: Seq<ComponentRelationView>|
            relations_are(*db_conn, rows) && is_ordered_selection(
                views(out@),
                rows,
                queries::relation_to_with_style(component_id, style@),
                queries::relation_id_order(),
            ),
        r matches Err(e) ==> e is Sqlite,
{
    let rows = relations(db_conn)?;
    let out = queries::relations_to_component_with_style(&rows, component_id, style.as_str());
    assert(relations_are(*db_conn, views(rows@)));
    Ok(out)
}

// -------------------------------------------------------------- view packets

/// The titles of all view packets, ordered without regard to ASCII case.
pub fn get_vector_of_viewpacket_titles_sorted(db_conn: &rusqlite::Connection) -> (r: Result<
    Vec<String>,
    DbError,
>)
    ensures
        r matches Ok(out) ==> exists|rows: Seq<ViewPacketView>|
            viewpackets_are(*db_conn, rows) && views(out@).to_multiset()
                == queries::viewpacket_titles(rows).to_multiset() && sorted_by(
                views(out@),
                queries::nocase_order(),
            ),
        r matches Err(e) ==> e is Sqlite,
{
    let rows = viewpackets(db_conn)?;
    let out = queries::viewpacket_titles_sorted(&rows);
    assert(viewpackets_are(*db_conn, views(rows@)));
    Ok(out)
}

/// The file id of the local document: that of a row of the document table
/// (`LIMIT 1`); `NoRows` when the table is empty.
pub fn get_local_file_id(db_conn: &rusqlite::Connection) -> (r: Result<u64, DbError>)
    ensures
        r matches Ok(f) ==> exists|rows: Seq<DocumentView>|
            documents_are(*db_conn, rows) && rows.len() > 0 && f == rows[0].file_id,
        r matches Err(DbError::NoRows) ==> documents_are(*db_conn, Seq::empty()),
{
    let rows = match read_documents(db_conn) {
        Ok(v) => v,
        Err(e) => {
            return Err(DbError::Sqlite(e));
        },
    };
    assert(documents_are(*db_conn, views(rows@)));
    match queries::first_document_file_id(&rows) {
        Some(f) => Ok(f),
        None => {
            assert(views(rows@) =~= Seq::<DocumentView>::empty());
            Err(DbError::NoRows)
        },
    }
}

/// The url of the include of the given file; `NoRows` when there is none.
pub fn get_include_url_by_file_id(db_conn: &rusqlite::Connection, file_id: u64) -> (r: Result<
    String,
    DbError,
>)
    ensures
        r matches Ok(u) ==> exists|rows: Seq<IncludeView>|
            includes_are(*db_conn, rows) && rows.filter(queries::include_of_file(file_id)).len() > 0
                && u@ == rows.filter(queries::include_of_file(file_id))[0].url,
        r matches Err(DbError::NoRows) ==> exists|rows: Seq<IncludeView>|
            includes_are(*db_conn, rows) && rows.filter(queries::include_of_file(file_id)).len() == 0,
{
    let rows = match read_includes(db_conn) {
        Ok(v) => v,
        Err(e) => {
            return Err(DbError::Sqlite(e));
        },
    };
    assert(includes_are(*db_conn, views(rows@)));
    match queries::include_url_of_file(&rows, file_id) {
        Some(u) => Ok(u),
        None => Err(DbError::NoRows),
    }
}

/// For component 0, the view packets of the local file with the given type
/// and style; otherwise the view packets of the component except the
/// excluded one. Ordered by sort order. Fails as `get_local_file_id` does.
pub fn get_vector_of_local_viewpacket_by_component_id_excluding_viewpacket_id(
    db_conn: &rusqlite::Connection,
    search_component_id: u64,
    view_type: &str,
    style: &str,
    exclude_viewpacket_id: u64,
) -> (r: Result<Vec<ViewPacket>, DbError>)
    ensures
        r matches Ok(out) ==> exists|docs: Seq<DocumentView>, rows: Seq<ViewPacketView>|
            #![trigger documents_are(*db_conn, docs), viewpackets_are(*db_conn, rows)]
            documents_are(*db_conn, docs) && docs.len() > 0 && viewpackets_are(*db_conn, rows)
                && is_ordered_selection(
                views(out@),
                rows,
                queries::viewpacket_related_in_file(
                    search_component_id,
                    view_type@,
                    style@,
                    exclude_viewpacket_id,
                    docs[0].file_id,
                ),
                queries::viewpacket_sort_order(),
            ),
        r matches Err(DbError::NoRows) ==> documents_are(*db_conn, Seq::empty()),
{
    let file_id = get_local_file_id(db_conn)?;
    let rows = viewpackets(db_conn)?;
    let out = queries::viewpackets_related_in_file(
        &rows,
        search_component_id,
        view_type,
        style,
        exclude_viewpacket_id,
        file_id,
    );
    proof {
        let docs = choose|docs: Seq<DocumentView>|
            documents_are(*db_conn, docs) && docs.len() > 0 && file_id == docs[0].file_id;
        assert(documents_are(*db_conn, docs) && viewpackets_are(*db_conn, views(rows@)));
    }
    Ok(out)
}

/// For component 0, the view packets with the given type and style;
/// otherwise the view packets of the component except the excluded one.
/// Ordered by sort order.
pub fn get_vector_of_any_viewpacket_by_component_id_excluding_viewpacket_id(
    db_conn: &rusqlite::Connection,
    search_component_id: u64,
    view_type: &str,
    style: &str,
    exclude_viewpacket_id: u64,
) -> (r: Result<Vec<ViewPacket>, DbError>)
    ensures
        r matches Ok(out) ==> exists|rows: Seq<ViewPacketView>|
            viewpackets_are(*db_conn, rows) && is_ordered_selection(
                views(out@),
                rows,
                queries::viewpacket_related(search_component_id, view_type@, style@, exclude_viewpacket_id),
                queries::viewpacket_sort_order(),
            ),
        r matches Err(e) ==> e is Sqlite,
{
    let rows = viewpackets(db_conn)?;
    let out = queries::viewpackets_related(
        &rows,
        search_component_id,
        view_type,
        style,
        exclude_viewpacket_id,
    );
    assert(viewpackets_are(*db_conn, views(rows@)));
    Ok(out)
}

/// The view packet of the given team with the least sort order, the first
/// as the table is read among those that tie; `None` for team 0, when the
/// team has none, or when the table cannot be read.
pub fn get_viewpacket_by_team_id(db_conn: &rusqlite::Connection, search_team_id: u64) -> (r: Option<
    ViewPacket,
>)
    ensures
        search_team_id == 0 ==> r is None,
        r matches Some(v) ==> exists|rows: Seq<ViewPacketView>|
            {
                &&& viewpackets_are(*db_conn, rows)
                &&& rows.filter(queries::viewpacket_of_team(search_team_id)).contains(v@)
                &&& forall|w: ViewPacketView|
                    rows.filter(queries::viewpacket_of_team(search_team_id)).contains(w)
                        ==> v.sort_order <= w.sort_order
                &&& v@ == crate::order::sorted_stably(
                    rows.filter(queries::viewpacket_of_team(search_team_id)),
                    queries::viewpacket_sort_order(),
                )[0]
            },
        forall|rows: Seq<ViewPacketView>|
            viewpackets_are(*db_conn, rows) && search_team_id != 0 && rows.filter(
                queries::viewpacket_of_team(search_team_id),
            ).len() == 0 ==> r is None,
{
    if search_team_id == 0 {
        return None;
    }
    match viewpackets(db_conn) {
        Ok(rows) => {
            let out = queries::viewpacket_for_team(&rows, search_team_id);
            assert(viewpackets_are(*db_conn, views(rows@)));
            proof {
                assert forall|rows2: Seq<ViewPacketView>|
                    viewpackets_are(*db_conn, rows2) && rows2.filter(
                        queries::viewpacket_of_team(search_team_id),
                    ).len() == 0 implies out is None by {
                    crate::db::lemma_viewpacket_rows_same(views(rows@), rows2);
                    crate::order::lemma_permutation_filter_len(
                        views(rows@),
                        rows2,
                        queries::viewpacket_of_team(search_team_id),
                    );
                }
            }
            out
        },
        Err(_) => None,
    }
}

/// The view packet with the given title; `NoRows` when there is none.
pub fn get_viewpacket_by_title(db_conn: &rusqlite::Connection, title: &str) -> (r: Result<
    ViewPacket,
    DbError,
>)
    ensures
        r matches Ok(v) ==> exists|rows: Seq<ViewPacketView>|
            viewpackets_are(*db_conn, rows) && is_first_match(
                Some(v),
                rows,
                queries::viewpacket_with_title_spec(title@),
            ),
        r matches Err(DbError::NoRows) ==> exists|rows: Seq<ViewPacketView>|
            viewpackets_are(*db_conn, rows) && rows.filter(queries::viewpacket_with_title_spec(title@)).len()
                == 0,
{
    let rows = viewpackets(db_conn)?;
    let found = queries::viewpacket_with_title(&rows, title);
    assert(viewpackets_are(*db_conn, views(rows@)));
    match found {
        Some(v) => Ok(v),
        None => Err(DbError::NoRows),
    }
}

/// A view packet of the given style and component; `None` when there is
/// none or the table cannot be read.
pub fn get_viewpacket_by_style_and_component_id(
    db_conn: &rusqlite::Connection,
    style: &str,
    search_component_id: u64,
) -> (r: Option<ViewPacket>)
    ensures
        r matches Some(v) ==> exists|rows: Seq<ViewPacketView>|
            viewpackets_are(*db_conn, rows) && is_first_match(
                Some(v),
                rows,
                queries::viewpacket_of_style_and_component(style@, search_component_id),
            ),
        forall|rows: Seq<ViewPacketView>|
            viewpackets_are(*db_conn, rows) && rows.filter(
                queries::viewpacket_of_style_and_component(style@, search_component_id),
            ).len() == 0 ==> r is None,
{
    match viewpackets(db_conn) {
        Ok(rows) => {
            let found = queries::viewpacket_with_style_and_component(&rows, style, search_component_id);
            assert(viewpackets_are(*db_conn, views(rows@)));
            proof {
                assert forall|rows2: Seq<ViewPacketView>|
                    viewpackets_are(*db_conn, rows2) && rows2.filter(
                        queries::viewpacket_of_style_and_component(style@, search_component_id),
                    ).len() == 0 implies found is None by {
                    crate::db::lemma_viewpacket_rows_same(views(rows@), rows2);
                    crate::order::lemma_permutation_filter_len(
                        views(rows@),
                        rows2,
                        queries::viewpacket_of_style_and_component(style@, search_component_id),
                    );
                }
            }
            found
        },
        Err(_) => None,
    }
}

/// The view packets with the given type and style, ordered by sort order.
pub fn get_viewpacket_vector_by_type_and_style_sorted_by_order(
    db_conn: &rusqlite::Connection,
    filter_view_type: &str,
    filter_view_style: &str,
) -> (r: Result<Vec<ViewPacket>, DbError>)
    ensures
        r matches Ok(out) ==> exists|rows: Seq<ViewPacketView>|
            viewpackets_are(*db_conn, rows) && is_ordered_selection(
                views(out@),
                rows,
                queries::viewpacket_of_type_and_style(filter_view_type@, filter_view_style@),
                queries::viewpacket_sort_order(),
            ),
        r matches Err(e) ==> e is Sqlite,
{
    let rows = viewpackets(db_conn)?;
    let out = queries::viewpackets_of_type_and_style(&rows, filter_view_type, filter_view_style);
    assert(viewpackets_are(*db_conn, views(rows@)));
    Ok(out)
}

/// The view packets of the given style whose component is a parent of
/// `component_id`: the start of a relation, with another key than
/// `primary_display_key`, that ends at it. Ordered by sort order.
pub fn get_vector_of_viewpacket_parents_by_component_id_and_style_and_key(
    db_conn: &rusqlite::Connection,
    component_id: u64,
    style: &str,
    primary_display_key: &str,
) -> (r: Result<Vec<ViewPacket>, DbError>)
    ensures
        r matches Ok(out) ==> exists|rows: Seq<ViewPacketView>, rels: Seq<ComponentRelationView>|
            #![trigger viewpackets_are(*db_conn, rows), relations_are(*db_conn, rels)]
            viewpackets_are(*db_conn, rows) && relations_are(*db_conn, rels) && is_ordered_selection(
                views(out@),
                rows,
                queries::viewpacket_of_parent(rels, component_id, style@, primary_display_key@),
                queries::viewpacket_sort_order(),
            ),
        r matches Err(e) ==> e is Sqlite,
{
    let rows = viewpackets(db_conn)?;
    let rels = relations(db_conn)?;
    let out = queries::viewpacket_parents(&rows, &rels, component_id, style, primary_display_key);
    assert(viewpackets_are(*db_conn, views(rows@)) && relations_are(*db_conn, views(rels@))
        && is_ordered_selection(
        views(out@),
        views(rows@),
        queries::viewpacket_of_parent(views(rels@), component_id, style@, primary_display_key@),
        queries::viewpacket_sort_order(),
    ));
    Ok(out)
}

} // verus!
