use rusqlite::Connection;
use sad_xml_sql::retrieval::{
    get_component_by_id, get_component_name_by_id, get_components_vector_by_team_id_sorted_by_name,
    get_vector_of_any_viewpacket_by_component_id_excluding_viewpacket_id, get_vector_of_behaviors_for_viewpacket_id,
    get_vector_of_component_relations_by_id_and_key, get_vector_of_component_relations_by_id_and_key_both_directions,
    get_vector_of_component_relations_by_key, get_vector_of_components_by_key_sorted_by_name,
    get_vector_of_context_model_by_key, get_vector_of_usedby_components_by_id_and_key,
    get_vector_of_viewpacket_parents_by_component_id_and_style_and_key, get_viewpacket_by_style_and_component_id,
    get_viewpacket_by_team_id,
};
use sad_xml_sql::update::db_create_in_mem_db;

fn setup_test_db() -> Connection {
    let mut conn = Connection::open_in_memory().unwrap();
    db_create_in_mem_db(&mut conn).unwrap();

    let team_id: u64 = 1;
    let file_id: u64 = 8;

    // Insert test data
    conn.execute(
        "INSERT INTO component (file_id, id, name, purpose, summary, team_id) VALUES (?1, 1, 'ComponentA', 'PurposeA', 'SummaryA', 0)",[file_id],
    ).unwrap();
    conn.execute(
        "INSERT INTO component (file_id, id, name, purpose, summary, team_id) VALUES (?1, 2, 'ComponentB', 'PurposeB', 'SummaryB', ?2)",[file_id, team_id],
    )
    .unwrap();
    conn.execute(
        "INSERT INTO component (file_id, id, name, purpose, summary, team_id) VALUES (?1, 3, 'ComponentC', 'PurposeC', 'SummaryC', ?2)",[file_id, team_id],
    )
    .unwrap();
    conn.execute(
        "INSERT INTO context_model (key, entity, entity_type, description, reference) VALUES ('key1', 'Entity1', 'Type1', 'Desc1', 'Ref1')",
        [],
    )
    .unwrap();
    conn.execute(
        "INSERT INTO behavior (id, sort_order, view_packet_id, description, diagram_key) VALUES (1, 1, 10, 'Behavior1', 'Diagram1')",
        [],
    )
    .unwrap();
    conn.execute(
        "INSERT INTO view_packet (component_id, context_model_key, primary_display_key, file_id, introduction, sort_order, team_id, title, view_style, view_type, viewpacket_id) VALUES (1, 'key1', 'display1', ?1, 'Intro1', 1, 0, 'Title1', 'Decomposition', 'Type1', 10)",
        [file_id],
    )
    .unwrap();
    conn.execute(
        "INSERT INTO view_packet (component_id, context_model_key, primary_display_key, file_id, introduction, sort_order, team_id, title, view_style, view_type, viewpacket_id) VALUES (0, 'key1', 'display1', ?1, 'Intro1', 1, ?2, 'Team Assignment', 'Assignment', 'Type1', 11)",
        [file_id, team_id],
    )
    .unwrap();
    conn.execute(
        "INSERT INTO view_packet (component_id, context_model_key, primary_display_key, file_id, introduction, sort_order, team_id, title, view_style, view_type, viewpacket_id) VALUES (0, 'key1', 'display1', ?1, 'Intro1', 1, ?2, 'empty Team Assignment', 'Assignment', 'Type1', 12)",
        [file_id, team_id],
    )
    .unwrap();
    conn.execute(
        "INSERT INTO component_relation (component_a_id, component_b_id, connection_type, id, key, property_of_relation, relation_text, relation_description, style, sort_order) VALUES (1, 2, 'type', 1, 'display1', 'prop', 'rel_text', 'rel_desc', 'Style1', 1)",
        [],
    )
    .unwrap();

    conn
}

#[test]
fn test_get_component_name_by_id() {
    let conn = setup_test_db();
    let name = get_component_name_by_id(&conn, 1).unwrap();
    assert_eq!(name, "ComponentA");
}

#[test]
fn test_get_components_vector_by_team_id_sorted_by_name() {
    let conn = setup_test_db();
    let result = get_components_vector_by_team_id_sorted_by_name(&conn, 1).unwrap();
    assert_eq!(result.len(), 2);
    assert_eq!(result[0].name, "ComponentB");
    assert_eq!(result[1].name, "ComponentC");
}
#[test]
fn test_get_vector_of_context_model_by_key() {
    let mut conn = setup_test_db();
    let result = get_vector_of_context_model_by_key(&mut conn, "key1").unwrap();
    assert_eq!(result.len(), 1);
    assert_eq!(result[0].entity, "Entity1");
}

#[test]
fn test_get_vector_of_components_by_key_sorted_by_name() {
    let conn = setup_test_db();
    // ComponentC only ever appears as component_a_id for this key, ComponentB only as component_b_id.
    conn.execute(
        "INSERT INTO component_relation (component_a_id, component_b_id, connection_type, id, key, property_of_relation, relation_text, relation_description, style, sort_order) VALUES (3, 2, 'type', 2, 'deploy1', 'prop', 'rel_text', 'rel_desc', 'Style1', 1)",
        [],
    )
    .unwrap();

    let result = get_vector_of_components_by_key_sorted_by_name(&conn, "deploy1").unwrap();

    assert_eq!(result.len(), 2);
    assert_eq!(result[0].name, "ComponentB");
    assert_eq!(result[1].name, "ComponentC");
}

#[test]
fn test_get_vector_of_behaviors_for_viewpacket_id() {
    let conn = setup_test_db();
    let result = get_vector_of_behaviors_for_viewpacket_id(&conn, 10).unwrap();
    assert_eq!(result.len(), 1);
    assert_eq!(result[0].description, "Behavior1");
}

#[test]
fn test_get_vector_of_any_viewpacket_by_component_id_excluding_viewpacket_id_zero() {
    let conn = setup_test_db();
    let result = get_vector_of_any_viewpacket_by_component_id_excluding_viewpacket_id(
        &conn,
        0,
        "Type1",
        "Decomposition",
        999,
    )
    .unwrap();
    assert_eq!(result.len(), 1);
    assert_eq!(result[0].title, "Title1");
}

#[test]
fn test_get_vector_of_any_viewpacket_by_component_id_excluding_viewpacket_id_nonzero() {
    let conn = setup_test_db();
    let result = get_vector_of_any_viewpacket_by_component_id_excluding_viewpacket_id(
        &conn, 1, "Type1", "Style1", 999,
    )
    .unwrap();
    assert_eq!(result.len(), 1);
    assert_eq!(result[0].title, "Title1");
}

#[test]
fn test_get_vector_of_usedby_components_by_id_and_key() {
    let conn = setup_test_db();
    let result =
        get_vector_of_usedby_components_by_id_and_key(&conn, 2, "Style1".to_string()).unwrap();
    assert_eq!(result.len(), 1);
    assert_eq!(result[0].component_a_id, 1);
}

#[test]
fn test_get_vector_of_component_relations_by_id_and_key() {
    let conn = setup_test_db();
    let result =
        get_vector_of_component_relations_by_id_and_key(&conn, 1, "display1".to_string())
            .unwrap();
    assert_eq!(result.len(), 1);
    assert_eq!(result[0].component_b_id, 2);
}

#[test]
fn test_get_vector_of_component_relations_by_id_and_key_both_directions() {
    let conn = setup_test_db();
    let result = get_vector_of_component_relations_by_id_and_key_both_directions(
        &conn,
        2,
        "display1".to_string(),
    )
    .unwrap();
    assert_eq!(result.len(), 1);
    assert_eq!(result[0].component_a_id, 1);
}

#[test]
fn test_get_vector_of_component_relations_by_key() {
    let conn = setup_test_db();
    let result =
        get_vector_of_component_relations_by_key(&conn, "display1".to_string()).unwrap();
    assert_eq!(result.len(), 1);
    assert_eq!(result[0].component_a_id, 1);
}

#[test]
fn test_get_component_by_id() {
    let conn = setup_test_db();
    let component = get_component_by_id(&conn, 1).unwrap();
    assert_eq!(component.name, "ComponentA");
}

#[test]
fn test_get_vector_of_viewpacket_parents_by_component_id_and_style_and_key() {
    let conn = setup_test_db();
    // Insert parent component and relation
    conn.execute(
        "INSERT INTO component (id, name, purpose, summary) VALUES (203, 'ParentComponent', 'PurposeP', 'SummaryP')",
        [],
    ).unwrap();
    conn.execute("INSERT INTO component_relation (id, component_a_id, component_b_id, connection_type, key, property_of_relation, relation_text, relation_description, style, sort_order) VALUES (101, 11, 1, 'type', 'Decomp001', 'prop', 'rel_text', 'rel_desc', 'Empty', 2)",[],).unwrap();
    conn.execute("INSERT INTO component_relation (id, component_a_id, component_b_id, connection_type, key, property_of_relation, relation_text, relation_description, style, sort_order) VALUES (102, 12, 1, 'type', 'Decomp002', 'prop', 'rel_text', 'rel_desc', 'Empty', 2)",[],).unwrap();
    conn.execute("INSERT INTO component_relation (id, component_a_id, component_b_id, connection_type, key, property_of_relation, relation_text, relation_description, style, sort_order) VALUES (103, 13, 1, 'type', 'Decomp003', 'prop', 'rel_text', 'rel_desc', 'Empty', 2)",[],).unwrap();

    conn.execute("INSERT INTO component_relation (id, component_a_id, component_b_id, connection_type, key, property_of_relation, relation_text, relation_description, style, sort_order) VALUES (104, 12, 1, 'type', 'Uses04', 'prop', 'rel_text', 'rel_desc', 'Empty', 1)",[],).unwrap();

    conn.execute("INSERT INTO view_packet (viewpacket_id, view_type, view_style, component_id, primary_display_key, context_model_key, file_id, introduction, sort_order, team_id, title) VALUES (1, 'Module', 'Decomposition', 11, 'Decomp001', 'Ctxt01', 0, 'Intro1', 1, 0, 'Title1')",[],).unwrap();
    conn.execute("INSERT INTO view_packet (viewpacket_id, view_type, view_style, component_id, primary_display_key, context_model_key, file_id, introduction, sort_order, team_id, title) VALUES (2, 'Module', 'Decomposition', 12, 'Decomp002', 'Ctxt02', 0, 'Intro2', 1, 0, 'Title2')",[],).unwrap();
    conn.execute("INSERT INTO view_packet (viewpacket_id, view_type, view_style, component_id, primary_display_key, context_model_key, file_id, introduction, sort_order, team_id, title) VALUES (3, 'Module', 'Decomposition', 13, 'Decomp003', 'Ctxt03', 0, 'Intro3', 1, 0, 'Title3')",[],).unwrap();

    conn.execute("INSERT INTO view_packet (viewpacket_id, view_type, view_style, component_id, primary_display_key, context_model_key, file_id, introduction, sort_order, team_id, title) VALUES (4, 'Module', 'Uses', 12, 'Uses04', 'Ctxt04', 0, 'Intro4', 1, 0, 'Title4')",[],).unwrap();

    let result = get_vector_of_viewpacket_parents_by_component_id_and_style_and_key(
        &conn,
        1,
        "Decomposition",
        "Decomp001",
    )
    .unwrap();
    assert_eq!(result.len(), 2);
    assert_eq!(result[0].title, "Title2");
    assert_eq!(result[1].title, "Title3");
}

#[test]
fn test_get_viewpacket_by_team_id() {
    let conn = setup_test_db();
    let result = get_viewpacket_by_team_id(&conn, 1);
    assert!(result.is_some());
    let viewpacket = result.unwrap();
    assert_eq!(viewpacket.title, "Team Assignment");
}

#[test]
fn test_get_viewpacket_by_zero_team_id() {
    let conn = setup_test_db();
    let result = get_viewpacket_by_team_id(&conn, 0);
    assert!(result.is_none());
}

#[test]
fn test_get_viewpacket_by_team_id_non_existing_id() {
    let conn = setup_test_db();
    let result = get_viewpacket_by_team_id(&conn, 999);
    assert!(result.is_none());
}

#[test]
fn test_get_viewpacket_by_style_and_component_id() {
    let conn = setup_test_db();
    let result = get_viewpacket_by_style_and_component_id(&conn, "Decomposition", 1);
    assert!(result.is_some());
    let viewpacket = result.unwrap();
    assert_eq!(viewpacket.title, "Title1");
}
#[test]
fn test_get_viewpacket_by_style_and_component_id_non_existing() {
    let conn = setup_test_db();
    let result = get_viewpacket_by_style_and_component_id(&conn, "Decomposition", 999);
    assert!(result.is_none());
}
