use rusqlite::Connection;
use sad_xml_sql::models::Component;
use sad_xml_sql::update::{db_create_in_mem_db, insert_into_context_model_ignore_duplicates, update_component_by_id};

fn setup_db() -> Connection {
    let mut conn = Connection::open_in_memory().unwrap();
    db_create_in_mem_db(&mut conn).unwrap();
    conn
}

#[test]
fn test_insert_into_context_model_ignore_duplicates_inserts() {
    let mut conn = setup_db();
    insert_into_context_model_ignore_duplicates(
        &mut conn,
        "k1", "entity1", "type1", "desc1", "ref1"
    ).unwrap();
    let count: i64 = conn.query_row(
        "SELECT COUNT(*) FROM context_model WHERE key = 'k1' AND entity = 'entity1'",
        (),
        |row| row.get(0)
    ).unwrap();
    assert_eq!(count, 1);
}

#[test]
fn test_insert_into_context_model_ignore_duplicates_ignores_duplicate() {
    let mut conn = setup_db();
    insert_into_context_model_ignore_duplicates(
        &mut conn,
        "k1", "entity1", "type1", "desc1", "ref1"
    ).unwrap();
    insert_into_context_model_ignore_duplicates(
        &mut conn,
        "k1", "entity1", "type1", "desc1", "ref1"
    ).unwrap();
    insert_into_context_model_ignore_duplicates(
        &mut conn,
        "k1", "entity1", "type1", "desc1", "ref1"
    ).unwrap();
    let count: i64 = conn.query_row(
        "SELECT COUNT(*) FROM context_model WHERE key = 'k1' AND entity = 'entity1'",
        (),
        |row| row.get(0)
    ).unwrap();
    assert_eq!(count, 1);
}

#[test]
fn test_insert_into_context_model_ignore_duplicates_empty_entity() {
    let mut conn = setup_db();
    insert_into_context_model_ignore_duplicates(
        &mut conn,
        "k1", "", "type1", "desc1", "ref1"
    ).unwrap();
    let count: i64 = conn.query_row(
        "SELECT COUNT(*) FROM context_model",
        (),
        |row| row.get(0)
    ).unwrap();
    assert_eq!(count, 0);
}

#[test]
fn test_update_component_by_id_updates_row() {
    let mut conn = setup_db();
    conn.execute(
        "INSERT INTO component (file_id, id, name, summary, purpose, team_id) VALUES (0,1, 'OldName', 'OldSummary', 'OldPurpose', 0)",
        (),
    ).unwrap();
    let component = Component {
        file_id: 0,
        id: 1,
        name: "NewName".to_string(),
        summary: "NewSummary".to_string(),
        purpose: "NewPurpose".to_string(),
        team_id: 0,
    };
    update_component_by_id(&mut conn, &component).unwrap();
    let (name, summary, purpose, team_id): (String, String, String, i32) = conn.query_row(
        "SELECT name, summary, purpose, team_id FROM component WHERE id = 1",
        (),
        |row| Ok((row.get(0)?, row.get(1)?, row.get(2)?, row.get(3)?))
    ).unwrap();
    assert_eq!(name, "NewName");
    assert_eq!(summary, "NewSummary");
    assert_eq!(purpose, "NewPurpose");
    assert_eq!(team_id, 0);
}

#[test]
fn test_update_component_by_id_nonexistent_id() {
    let mut conn = setup_db();
    let component = Component {
        file_id: 0,
        id: 42,
        name: "Name".to_string(),
        summary: "Summary".to_string(),
        purpose: "Purpose".to_string(),
        team_id: 0,
    };
    update_component_by_id(&mut conn, &component).unwrap();
    let count: i64 = conn.query_row(
        "SELECT COUNT(*) FROM component WHERE id = 42",
        (),
        |row| row.get(0)
    ).unwrap();
    assert_eq!(count, 0);
}

#[test]
fn creating_the_tables_twice_fails_and_keeps_the_rows() {
    let mut conn = Connection::open_in_memory().unwrap();
    db_create_in_mem_db(&mut conn).unwrap();
    conn.execute("INSERT INTO component (file_id, id, name, purpose, summary, team_id) VALUES (0, 1, 'a', '', '', 0)", [])
        .unwrap();
    assert!(db_create_in_mem_db(&mut conn).is_err());
    let n: i64 = conn.query_row("SELECT COUNT(*) FROM component", [], |r| r.get(0)).unwrap();
    assert_eq!(n, 1);
    let cols: i64 = conn
        .query_row("SELECT COUNT(*) FROM pragma_table_info('view_packet') WHERE name IN ('file_id', 'team_id')", [], |r| r.get(0))
        .unwrap();
    assert_eq!(cols, 2);
}
