//! Creating the document database and changing rows in place.

use vstd::prelude::*;
use vstd::multiset::Multiset;
use crate::db::{
    made_by_schema, schema_sql, table_schema, table_schemas,
    component_updated, create_table, db_tables, has_context_key, include_updated,
    insert_context_model_or_ignore, table_holds, update_component_row, update_include_file_id,
    with_row, with_table, RowView, Table, component_rows, include_rows,
};
use crate::models::{Component, ContextModel, KeyedContextModel};
use crate::retrieval::DbError;

verus! {

/// Every table of the document database, in the order they are created.
pub open spec fn all_tables() -> Seq<Table> {
    seq![
        Table::Behavior,
        Table::Component,
        Table::ComponentRelation,
        Table::ViewPacket,
        Table::ContextModel,
        Table::Document,
        Table::Include,
        Table::Team,
    ]
}

/// The database `before` with the missing tables of `tables` added, empty.
pub open spec fn with_tables(before: Map<Table, Multiset<RowView>>, tables: Seq<Table>) -> Map<
    Table,
    Multiset<RowView>,
>
    decreases tables.len(),
{
    if tables.len() == 0 {
        before
    } else {
        with_table(with_tables(before, tables.drop_last()), tables.last())
    }
}

/// The statements of the tables after the missing tables of `tables` were
/// added to `before` (whose statements are `schemas`): each added table is
/// made by its statement in `schema_sql`.
pub open spec fn with_schemas(
    before: Map<Table, Multiset<RowView>>,
    schemas: Map<Table, Seq<char>>,
    tables: Seq<Table>,
) -> Map<Table, Seq<char>>
    decreases tables.len(),
{
    if tables.len() == 0 {
        schemas
    } else {
        let prev = with_schemas(before, schemas, tables.drop_last());
        if with_tables(before, tables.drop_last()).dom().contains(tables.last()) {
            prev
        } else {
            prev.insert(tables.last(), schema_sql(tables.last()))
        }
    }
}

proof fn lemma_with_schemas(
    before: Map<Table, Multiset<RowView>>,
    schemas: Map<Table, Seq<char>>,
    tables: Seq<Table>,
    t: Table,
)
    ensures
        !before.dom().contains(t) && tables.contains(t) ==> with_schemas(before, schemas, tables).dom().contains(t)
            && with_schemas(before, schemas, tables)[t] == schema_sql(t),
        !tables.contains(t) || before.dom().contains(t) ==> (with_schemas(before, schemas, tables).dom().contains(t)
            == schemas.dom().contains(t) && with_schemas(before, schemas, tables)[t] == schemas[t]),
    decreases tables.len(),
{
    if tables.len() > 0 {
        let d = tables.drop_last();
        lemma_with_schemas(before, schemas, d, t);
        lemma_with_tables(before, d, t);
        assert(tables.contains(t) <==> (d.contains(t) || tables.last() == t)) by {
            if tables.contains(t) {
                let i = choose|i: int| 0 <= i < tables.len() && tables[i] == t;
                if i < tables.len() - 1 {
                    assert(d[i] == t);
                }
            }
            if d.contains(t) {
                let i = choose|i: int| 0 <= i < d.len() && d[i] == t;
                assert(tables[i] == t);
            }
            if tables.last() == t {
                assert(tables[tables.len() - 1] == t);
            }
        }
    }
}

/// The tables that `db_create_in_mem_db` makes are all the document's tables.
pub proof fn lemma_all_tables_covered(t: Table)
    ensures
        all_tables().contains(t),
{
    match t {
        Table::Behavior => assert(all_tables()[0] == t),
        Table::Component => assert(all_tables()[1] == t),
        Table::ComponentRelation => assert(all_tables()[2] == t),
        Table::ViewPacket => assert(all_tables()[3] == t),
        Table::ContextModel => assert(all_tables()[4] == t),
        Table::Document => assert(all_tables()[5] == t),
        Table::Include => assert(all_tables()[6] == t),
        Table::Team => assert(all_tables()[7] == t),
    }
}

proof fn lemma_with_tables(before: Map<Table, Multiset<RowView>>, tables: Seq<Table>, t: Table)
    ensures
        with_tables(before, tables).dom().contains(t) <==> (before.dom().contains(t) || tables.contains(t)),
        before.dom().contains(t) ==> with_tables(before, tables)[t] == before[t],
        !before.dom().contains(t) && tables.contains(t) ==> with_tables(before, tables)[t]
            == Multiset::<RowView>::empty(),
    decreases tables.len(),
{
    if tables.len() > 0 {
        lemma_with_tables(before, tables.drop_last(), t);
        assert(tables.contains(t) <==> (tables.drop_last().contains(t) || tables.last() == t)) by {
            if tables.contains(t) {
                let i = choose|i: int| 0 <= i < tables.len() && tables[i] == t;
                if i < tables.len() - 1 {
                    assert(tables.drop_last()[i] == t);
                }
            }
            if tables.drop_last().contains(t) {
                let i = choose|i: int| 0 <= i < tables.drop_last().len() && tables.drop_last()[i] == t;
                assert(tables[i] == t);
            }
            if tables.last() == t {
                assert(tables[tables.len() - 1] == t);
            }
        }
    }
}

/// Creates the tables of the document database, each by its statement in
/// `schema_sql` (so with its columns, `file_id` and `team_id` among them). On
/// success every table is in place: those that were there keep their rows,
/// the others are new, empty and made by their statements, and only the
/// context-model table may have been there before. On failure the tables
/// before the one that failed were created, in the order of `all_tables`.
pub fn db_create_in_mem_db(db_conn: &mut rusqlite::Connection) -> (r: Result<(), DbError>)
    ensures
        r is Ok ==> db_tables(*final(db_conn)) == with_tables(db_tables(*old(db_conn)), all_tables()),
        r is Ok ==> table_schemas(*final(db_conn)) == with_schemas(
            db_tables(*old(db_conn)),
            table_schemas(*old(db_conn)),
            all_tables(),
        ),
        r is Ok ==> forall|t: Table|
            !db_tables(*old(db_conn)).dom().contains(t) ==> #[trigger] made_by_schema(*final(db_conn), t),
        r is Err ==> exists|k: int|
            0 <= k < 8 && db_tables(*final(db_conn)) == with_tables(db_tables(*old(db_conn)), all_tables().take(k))
                && table_schemas(*final(db_conn)) == with_schemas(
                db_tables(*old(db_conn)),
                table_schemas(*old(db_conn)),
                all_tables().take(k),
            ),
        r is Ok ==> forall|t: Table|
            #![trigger db_tables(*final(db_conn)).dom().contains(t)]
            {
                &&& db_tables(*final(db_conn)).dom().contains(t)
                &&& db_tables(*old(db_conn)).dom().contains(t) ==> t == Table::ContextModel
                    && db_tables(*final(db_conn))[t] == db_tables(*old(db_conn))[t]
                &&& !db_tables(*old(db_conn)).dom().contains(t) ==> db_tables(*final(db_conn))[t]
                    == Multiset::<RowView>::empty()
            },
        r matches Err(e) ==> e is Sqlite,
{
    let ghost before = db_tables(*db_conn);
    let ghost schemas0 = table_schemas(*db_conn);
    let tables = [
        Table::Behavior,
        Table::Component,
        Table::ComponentRelation,
        Table::ViewPacket,
        Table::ContextModel,
        Table::Document,
        Table::Include,
        Table::Team,
    ];
    assert(tables@ =~= all_tables());
    let mut i: usize = 0;
    assert(all_tables().take(0) =~= Seq::<Table>::empty());
    while i < 8
        invariant
            i <= 8,
            tables@ == all_tables(),
            before == db_tables(*old(db_conn)),
            schemas0 == table_schemas(*old(db_conn)),
            db_tables(*db_conn) == with_tables(before, all_tables().take(i as int)),
            table_schemas(*db_conn) == with_schemas(before, schemas0, all_tables().take(i as int)),
            forall|j: int|
                0 <= j < i && all_tables()[j] != Table::ContextModel ==> !(#[trigger] before.dom().contains(
                    all_tables()[j],
                )),
        decreases 8 - i,
    {
        let t = tables[i];
        assert(all_tables().take(i + 1).drop_last() =~= all_tables().take(i as int));
        match create_table(db_conn, t, table_schema(t)) {
            Ok(_) => {},
            Err(e) => {
                assert(0 <= i < 8);
                return Err(DbError::Sqlite(e));
            },
        }
        proof {
            if t != Table::ContextModel {
                lemma_with_tables(before, all_tables().take(i as int), t);
                if all_tables().take(i as int).contains(t) {
                    let k = choose|k: int| 0 <= k < i && all_tables().take(i as int)[k] == t;
                    assert(all_tables()[k] == all_tables()[i as int]);
                }
            }
        }
        i = i + 1;
    }
    assert(all_tables().take(8) =~= all_tables());
    proof {
        assert forall|t: Table| #[trigger] db_tables(*db_conn).dom().contains(t) && (db_tables(
            *old(db_conn),
        ).dom().contains(t) ==> t == Table::ContextModel && db_tables(*db_conn)[t] == db_tables(
            *old(db_conn),
        )[t]) && (!db_tables(*old(db_conn)).dom().contains(t) ==> db_tables(*db_conn)[t]
            == Multiset::<RowView>::empty()) by {
            lemma_all_tables_covered(t);
            lemma_with_tables(before, all_tables(), t);
            lemma_with_schemas(before, schemas0, all_tables(), t);
            if before.dom().contains(t) && t != Table::ContextModel {
                let k = choose|k: int| 0 <= k < 8 && all_tables()[k] == t;
            }
        }
    }
    proof {
        assert forall|t: Table| !before.dom().contains(t) implies #[trigger] made_by_schema(*db_conn, t) by {
            lemma_all_tables_covered(t);
            lemma_with_schemas(before, schemas0, all_tables(), t);
        }
    }
    Ok(())
}

/// The tables after storing the context-model entry `m`: unchanged where
/// the context-model table holds an entry under its key, with `m` added
/// otherwise.
pub open spec fn context_stored(
    before: Map<Table, Multiset<RowView>>,
    m: crate::models::KeyedContextModelView,
) -> Map<Table, Multiset<RowView>> {
    if has_context_key(before[Table::ContextModel], m.key) {
        before
    } else {
        with_row(before, Table::ContextModel, RowView::ContextModel(m))
    }
}

/// Storing a context-model entry again under the same key, whatever its
/// entity, changes nothing: the table keeps one entry per key.
pub proof fn lemma_context_store_idempotent(
    before: Map<Table, Multiset<RowView>>,
    m: crate::models::KeyedContextModelView,
    again: crate::models::KeyedContextModelView,
)
    requires
        again.key == m.key,
    ensures
        context_stored(context_stored(before, m), again) == context_stored(before, m),
        has_context_key(context_stored(before, m)[Table::ContextModel], m.key),
{
    let after = context_stored(before, m);
    if !has_context_key(before[Table::ContextModel], m.key) {
        assert(after[Table::ContextModel].count(RowView::ContextModel(m)) > 0);
    }
}

/// Stores a context-model entry under `key`, unless `entity` is empty or the
/// table already holds an entry under `key` (it keeps one per key). The
/// context-model table is the one that `db_create_in_mem_db` made.
pub fn insert_into_context_model_ignore_duplicates(
    db_conn: &mut rusqlite::Connection,
    key: &str,
    entity: &str,
    entity_type: &str,
    description: &str,
    reference: &str,
) -> (r: Result<(), DbError>)
    requires
        entity@.len() > 0 ==> made_by_schema(*old(db_conn), Table::ContextModel),
    ensures
        table_schemas(*final(db_conn)) == table_schemas(*old(db_conn)),
        entity@.len() == 0 ==> r is Ok && db_tables(*final(db_conn)) == db_tables(*old(db_conn)),
        entity@.len() > 0 && r is Ok ==> db_tables(*old(db_conn)).dom().contains(Table::ContextModel) && db_tables(
            *final(db_conn),
        ) == context_stored(
            db_tables(*old(db_conn)),
            crate::models::KeyedContextModelView {
                key: key@,
                model: crate::models::ContextModelView {
                    entity: entity@,
                    entity_type: entity_type@,
                    description: description@,
                    reference: reference@,
                },
            },
        ),
        r matches Err(e) ==> e is Sqlite && db_tables(*final(db_conn)) == db_tables(*old(db_conn)),
{
    if entity.is_empty() {
        return Ok(());
    }
    let row = KeyedContextModel {
        key: key.to_owned(),
        model: ContextModel {
            entity: entity.to_owned(),
            entity_type: entity_type.to_owned(),
            description: description.to_owned(),
            reference: reference.to_owned(),
        },
    };
    match insert_context_model_or_ignore(db_conn, &row) {
        Ok(_) => Ok(()),
        Err(e) => Err(DbError::Sqlite(e)),
    }
}

/// `after` is `before` with name, summary and purpose of each row of the
/// component table whose id is that of `c` set to those of `c`.
pub open spec fn component_update_applied(
    before: rusqlite::Connection,
    after: rusqlite::Connection,
    c: crate::models::ComponentView,
) -> bool {
    exists|rows: Seq<crate::models::ComponentView>|
        #![trigger component_rows(rows)]
        table_holds(before, Table::Component, component_rows(rows)) && db_tables(after) == db_tables(before).insert(
            Table::Component,
            component_rows(rows.map_values(|row: crate::models::ComponentView| component_updated(row, c))),
        )
}

/// After a component's update, each row of the component table with its id
/// holds its name, summary and purpose.
pub proof fn lemma_update_then_read(
    before: rusqlite::Connection,
    after: rusqlite::Connection,
    c: crate::models::ComponentView,
    rows: Seq<crate::models::ComponentView>,
)
    requires
        component_update_applied(before, after, c),
        table_holds(after, Table::Component, component_rows(rows)),
    ensures
        forall|i: int|
            0 <= i < rows.len() && (#[trigger] rows[i]).id == c.id ==> rows[i].name == c.name && rows[i].summary
                == c.summary && rows[i].purpose == c.purpose,
{
    let b = choose|b: Seq<crate::models::ComponentView>|
        #![trigger component_rows(b)]
        table_holds(before, Table::Component, component_rows(b)) && db_tables(after) == db_tables(before).insert(
            Table::Component,
            component_rows(b.map_values(|row: crate::models::ComponentView| component_updated(row, c))),
        );
    let ub = b.map_values(|row: crate::models::ComponentView| component_updated(row, c));
    let as_row = |r: crate::models::ComponentView| RowView::Component(r);
    assert forall|i: int| 0 <= i < rows.len() implies exists|j: int|
        0 <= j < b.len() && #[trigger] rows[i] == component_updated(b[j], c) by {
        let x = rows[i];
        assert(rows.map_values(as_row)[i] == RowView::Component(x));
        assert(rows.map_values(as_row).contains(RowView::Component(x)));
        vstd::seq_lib::to_multiset_contains(rows.map_values(as_row), RowView::Component(x));
        vstd::seq_lib::to_multiset_contains(ub.map_values(as_row), RowView::Component(x));
        assert(component_rows(ub) == component_rows(rows));
        assert(ub.map_values(as_row).contains(RowView::Component(x)));
        let k = choose|k: int| 0 <= k < ub.map_values(as_row).len() && ub.map_values(as_row)[k] == RowView::Component(x);
        assert(ub[k] == component_updated(b[k], c));
    }
    assert forall|i: int| 0 <= i < rows.len() && (#[trigger] rows[i]).id == c.id implies rows[i].name == c.name
        && rows[i].summary == c.summary && rows[i].purpose == c.purpose by {
        let j = choose|j: int| 0 <= j < b.len() && #[trigger] rows[i] == component_updated(b[j], c);
        assert(component_updated(b[j], c).id == b[j].id);
    }
}

/// Sets name, summary and purpose of the component with the id of
/// `component`; the other rows, and the team and file of that one, stay as
/// they were.
pub fn update_component_by_id(db_conn: &mut rusqlite::Connection, component: &Component) -> (r: Result<
    (),
    DbError,
>)
    ensures
        r is Ok ==> component_update_applied(*old(db_conn), *final(db_conn), component@),
        r matches Err(e) ==> e is Sqlite && db_tables(*final(db_conn)) == db_tables(*old(db_conn)),
{
    match update_component_row(db_conn, component) {
        Ok(_) => Ok(()),
        Err(e) => Err(DbError::Sqlite(e)),
    }
}

/// Sets the file id of the includes of the given file name. A file id
/// above `i64::MAX` cannot be stored and makes it fail.
pub fn update_file_id_for_filename(db_conn: &mut rusqlite::Connection, file_id: u64, filename: String) -> (r:
    Result<(), rusqlite::Error>)
    ensures
        r is Ok ==> exists|rows: Seq<crate::models::IncludeView>|
            #![trigger include_rows(rows)]
            table_holds(*old(db_conn), Table::Include, include_rows(rows)) && db_tables(
                *final(db_conn),
            ) == db_tables(*old(db_conn)).insert(
                Table::Include,
                include_rows(
                    rows.map_values(
                        |row: crate::models::IncludeView| include_updated(row, file_id, filename@),
                    ),
                ),
            ),
        file_id > i64::MAX ==> r is Err,
        r is Err ==> db_tables(*final(db_conn)) == db_tables(*old(db_conn)),
{
    match update_include_file_id(db_conn, file_id, filename.as_str()) {
        Ok(_) => Ok(()),
        Err(e) => Err(e),
    }
}

} // verus!
