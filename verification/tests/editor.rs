use rusqlite::Connection;
use sad_xml_sql::component_editor::{ComponentEditorField, ComponentTextAreas};
use sad_xml_sql::menu::{handle_menu_key, AppState, KeyCode, KeyEvent, MenuState, ALT, CONTROL, NO_MODIFIERS, SHIFT};
use sad_xml_sql::models::{Component, ViewPacket};
use sad_xml_sql::text_area::{field_text, join_lines};
use sad_xml_sql::update::db_create_in_mem_db;
use sad_xml_sql::viewpacket_editor::{ViewPacketEditorFieldData, ViewPacketEditorFocusField, ViewType};
use sad_xml_sql::work::{
    component_detail_rows, component_details, edit_component_field, handle_work_input, keyevent_to_input, load_found_component, selected_entry, selector_items, viewpacket_detail_rows, work_status,
    TextInput, TextKey, WorkOutcome,
};
use sad_xml_sql::work_state::{TabCounts, TabSubjects, WorkPane, WorkState};

fn key(code: KeyCode, modifiers: u8) -> KeyEvent {
    KeyEvent { code, modifiers }
}

fn components_db() -> Connection {
    let mut conn = Connection::open_in_memory().unwrap();
    db_create_in_mem_db(&mut conn).unwrap();
    conn.execute(
        "INSERT INTO component (file_id, id, name, purpose, summary, team_id) VALUES (0, 1, 'beta', 'PB', 'SB', 0)",
        [],
    )
    .unwrap();
    conn.execute(
        "INSERT INTO component (file_id, id, name, purpose, summary, team_id) VALUES (0, 2, 'Alpha', 'PA', 'SA', 0)",
        [],
    )
    .unwrap();
    conn
}

#[test]
fn app_state_starts_empty() {
    assert_eq!(AppState::new().status_message, "");
}

#[test]
fn menu_keys() {
    let mut m = MenuState::new();
    assert_eq!(m.active_menu, None);
    assert!(handle_menu_key(&mut m, ALT, KeyCode::Char('F')));
    assert_eq!(m.active_menu, Some(0));
    assert!(handle_menu_key(&mut m, ALT, KeyCode::Char('h')));
    assert_eq!(m.active_menu, Some(3));
    assert!(!handle_menu_key(&mut m, CONTROL, KeyCode::Char('e')));
    assert_eq!(m.active_menu, Some(3));
    assert!(handle_menu_key(&mut m, SHIFT, KeyCode::Esc));
    assert_eq!(m.active_menu, None);
    assert!(!handle_menu_key(&mut m, ALT | SHIFT, KeyCode::Char('o')));
}

#[test]
fn focus_fields_cycle() {
    let mut f = ViewPacketEditorFocusField::Title;
    for _ in 0..7 {
        f = f.next();
    }
    assert_eq!(f, ViewPacketEditorFocusField::Title);
    assert_eq!(ViewPacketEditorFocusField::Title.previous(), ViewPacketEditorFocusField::ContextModelKey);
    assert_eq!(ViewPacketEditorFocusField::SortOrder.next().previous(), ViewPacketEditorFocusField::SortOrder);
    assert_eq!(ViewPacketEditorFocusField::PrimaryDisplayKey.label(), "Primary Display Key:");
    let names: Vec<&str> = ViewType::all().iter().map(|v| v.as_str()).collect();
    assert_eq!(names, vec!["Module", "ViewPacketsAndConnectors", "Allocation"]);
}

#[test]
fn tab_counts_and_indexes() {
    let mut c = TabCounts::new();
    c.set_count(&TabSubjects::ViewPackets, 4);
    assert_eq!(c.get_count(&TabSubjects::ViewPackets), 4);
    assert_eq!(c.get_count(&TabSubjects::Components), 0);
    assert_eq!(TabSubjects::Diagrams.as_index(), 2);
}

#[test]
fn keys_become_text_inputs() {
    let i = keyevent_to_input(key(KeyCode::Char('x'), CONTROL | SHIFT));
    assert_eq!(i, TextInput { key: TextKey::Char('x'), ctrl: true, alt: false, shift: true });
    assert_eq!(keyevent_to_input(key(KeyCode::BackTab, NO_MODIFIERS)).key, TextKey::Null);
    assert_eq!(keyevent_to_input(key(KeyCode::Insert, NO_MODIFIERS)).key, TextKey::Null);
    assert_eq!(keyevent_to_input(key(KeyCode::F(3), ALT)).alt, true);
}

#[test]
fn join_lines_puts_newlines_between() {
    assert_eq!(join_lines(&vec![]), "");
    assert_eq!(join_lines(&vec!["a".to_string()]), "a");
    assert_eq!(join_lines(&vec!["a".to_string(), "".to_string(), "b".to_string()]), "a\n\nb");
}

#[test]
fn viewpacket_editor_load_and_extract() {
    let mut e = ViewPacketEditorFieldData::new();
    let v = ViewPacket {
        component_id: 3,
        context_model_key: "ctx".to_string(),
        primary_display_key: "pdk".to_string(),
        file_id: 1,
        introduction: "line one\nline two".to_string(),
        sort_order: 5,
        team_id: 2,
        title: "Title".to_string(),
        view_style: "Uses".to_string(),
        view_type: "Module".to_string(),
        viewpacket_id: 77,
    };
    e.load_viewpacket(&v);
    assert_eq!(e.viewpacket_id, "77");
    assert_eq!(e.title.area.lines(), ["Title"]);
    assert_eq!(e.introduction.area.lines(), ["line one", "line two"]);
    let back = e.extract_viewpacket();
    assert_eq!(back.viewpacket_id, 77);
    assert_eq!(back.title, "Title");
    assert_eq!(back.introduction, "line one\nline two");
    assert_eq!(back.primary_display_key, "pdk");
    assert_eq!(back.context_model_key, "ctx");
    assert_eq!(back.view_type, "Module");
    assert_eq!(back.sort_order, 0);
    assert_eq!(back.component_id, 0);
    assert!(e.get_field_in_focus().is_some());
    e.set_field(ViewPacketEditorFocusField::SortOrder);
    assert!(e.get_field_in_focus().is_none());
    e.next_field();
    assert_eq!(e.field_in_focus(), ViewPacketEditorFocusField::PrimaryDisplayKey);
}

#[test]
fn component_editor_load_and_extract() {
    let mut e = ComponentTextAreas::new();
    let c = Component {
        file_id: 9,
        id: 12,
        name: "Name".to_string(),
        summary: "Sum".to_string(),
        purpose: "Why\r\nnot".to_string(),
        team_id: 4,
    };
    e.load_component(&c);
    let back = e.extract_component();
    assert_eq!(back.id, 12);
    assert_eq!(back.name, "Name");
    assert_eq!(back.summary, "Sum");
    assert_eq!(back.purpose, "Why\nnot");
    assert_eq!(back.file_id, 0);
    assert_eq!(field_text(&e.name), "Name");
    e.next_field();
    assert_eq!(e.active_field, ComponentEditorField::Purpose);
    e.previous_field();
    e.previous_field();
    assert_eq!(e.active_field, ComponentEditorField::Summary);
}

#[test]
fn loading_twice_replaces_the_head_of_the_line() {
    let mut e = ComponentTextAreas::new();
    let mut c = Component {
        file_id: 0,
        id: 1,
        name: "first".to_string(),
        summary: String::new(),
        purpose: String::new(),
        team_id: 0,
    };
    e.load_component(&c);
    c.name = "second".to_string();
    e.load_component(&c);
    assert_eq!(e.extract_component().name, "second");
}

#[test]
fn work_state_selection_and_status() {
    let conn = components_db();
    let mut ws = WorkState::new();
    let items = selector_items(&mut ws, &conn);
    assert_eq!(items, vec!["Alpha".to_string(), "beta".to_string()]);
    assert_eq!(ws.tab_counts.get_count(&TabSubjects::Components), 2);
    assert_eq!(ws.number_of_cloned_objects, 2);
    assert_eq!(selected_entry(&ws), (0, "Alpha".to_string()));
    assert_eq!(
        work_status(&ws),
        "F4: Edit  - Tab: 0, Active Pane: Selector, Selected Item: 0 - Alpha - Total Items: 2 - Cloned Objects: 2"
    );
}

#[test]
fn work_keys_move_the_selection_around() {
    let mut conn = components_db();
    let mut ws = WorkState::new();
    selector_items(&mut ws, &conn);
    let up = handle_work_input(&mut ws, key(KeyCode::Up, NO_MODIFIERS), &mut conn).unwrap();
    assert_eq!(up, WorkOutcome::Handled(true));
    assert_eq!(selected_entry(&ws), (1, "beta".to_string()));
    handle_work_input(&mut ws, key(KeyCode::Down, NO_MODIFIERS), &mut conn).unwrap();
    assert_eq!(selected_entry(&ws).0, 0);
    handle_work_input(&mut ws, key(KeyCode::Down, NO_MODIFIERS), &mut conn).unwrap();
    handle_work_input(&mut ws, key(KeyCode::Down, NO_MODIFIERS), &mut conn).unwrap();
    assert_eq!(selected_entry(&ws).0, 0);
    let other = handle_work_input(&mut ws, key(KeyCode::Char('z'), NO_MODIFIERS), &mut conn).unwrap();
    assert_eq!(other, WorkOutcome::Handled(false));
}

#[test]
fn work_keys_on_an_empty_selector_change_nothing() {
    let mut conn = Connection::open_in_memory().unwrap();
    db_create_in_mem_db(&mut conn).unwrap();
    let mut ws = WorkState::new();
    selector_items(&mut ws, &conn);
    let before = selected_entry(&ws);
    let up = handle_work_input(&mut ws, key(KeyCode::Up, NO_MODIFIERS), &mut conn).unwrap();
    assert_eq!(up, WorkOutcome::Handled(true));
    let down = handle_work_input(&mut ws, key(KeyCode::Down, NO_MODIFIERS), &mut conn).unwrap();
    assert_eq!(down, WorkOutcome::Handled(true));
    assert_eq!(selected_entry(&ws), before);
    assert_eq!(ws.list_state.selected(), Some(0));
}

#[test]
fn work_keys_switch_tabs_and_panes() {
    let mut conn = components_db();
    let mut ws = WorkState::new();
    assert_eq!(handle_work_input(&mut ws, key(KeyCode::Char('2'), ALT), &mut conn).unwrap(), WorkOutcome::Handled(true));
    assert_eq!(ws.selected_tab, TabSubjects::ViewPackets);
    handle_work_input(&mut ws, key(KeyCode::Right, CONTROL), &mut conn).unwrap();
    assert_eq!(ws.active_pane, WorkPane::Details);
    assert!(work_status(&ws).starts_with("XXX - Tab: 1, Active Pane: Details"));
    handle_work_input(&mut ws, key(KeyCode::Left, CONTROL), &mut conn).unwrap();
    assert_eq!(ws.active_pane, WorkPane::Selector);
    assert_eq!(handle_work_input(&mut ws, key(KeyCode::F(4), NO_MODIFIERS), &mut conn).unwrap(), WorkOutcome::Handled(false));
    assert_eq!(ws.active_pane, WorkPane::Editor);
    assert_eq!(ws.previous_active_pane, WorkPane::Selector);
    handle_work_input(&mut ws, key(KeyCode::Esc, NO_MODIFIERS), &mut conn).unwrap();
    assert_eq!(ws.active_pane, WorkPane::Selector);
}

#[test]
fn editing_a_component_saves_it() {
    let mut conn = components_db();
    let mut ws = WorkState::new();
    selector_items(&mut ws, &conn);
    let open = handle_work_input(&mut ws, key(KeyCode::F(4), NO_MODIFIERS), &mut conn).unwrap();
    assert_eq!(open, WorkOutcome::Handled(true));
    assert_eq!(ws.component_text_areas.extract_component().name, "Alpha");
    assert_eq!(ws.component_text_areas.id, "2");
    assert_eq!(
        work_status(&ws),
        "ESC: Cancel  F7: Save - Tab: 0, Active Pane: Editor, active field: Name - Alpha"
    );
    let typed = handle_work_input(&mut ws, key(KeyCode::Char('!'), SHIFT), &mut conn).unwrap();
    assert_eq!(
        typed,
        WorkOutcome::EditComponent(
            ComponentEditorField::Name,
            TextInput { key: TextKey::Char('!'), ctrl: false, alt: false, shift: true }
        )
    );
    let WorkOutcome::EditComponent(field, input) = typed else { panic!("not an edit") };
    assert!(edit_component_field(&mut ws.component_text_areas, field, input));
    handle_work_input(&mut ws, key(KeyCode::Tab, NO_MODIFIERS), &mut conn).unwrap();
    assert_eq!(ws.component_text_areas.active_field, ComponentEditorField::Purpose);
    let saved = handle_work_input(&mut ws, key(KeyCode::F(7), NO_MODIFIERS), &mut conn).unwrap();
    assert_eq!(saved, WorkOutcome::Saved);
    assert_eq!(ws.active_pane, WorkPane::Selector);
    let name: String = conn.query_row("SELECT name FROM component WHERE id = 2", [], |r| r.get(0)).unwrap();
    assert_eq!(name, "Alpha!");
}

#[test]
fn viewpacket_details_rows() {
    let v = ViewPacket {
        component_id: 0,
        context_model_key: "c".to_string(),
        primary_display_key: "p".to_string(),
        file_id: 0,
        introduction: "i".to_string(),
        sort_order: 0,
        team_id: 0,
        title: "t".to_string(),
        view_style: "s".to_string(),
        view_type: "v".to_string(),
        viewpacket_id: 5,
    };
    let rows = viewpacket_detail_rows(&v);
    assert_eq!(rows.len(), 7);
    assert_eq!(rows[0], ("id.................: ", "5 ".to_string()));
    assert_eq!(rows[3], ("view_type..........: ", "v ".to_string()));
    assert_eq!(rows[6], ("context_model_key..: ", "c ".to_string()));
}

#[test]
fn focus_labels_are_distinct() {
    let all = [
        ViewPacketEditorFocusField::Title,
        ViewPacketEditorFocusField::Introduction,
        ViewPacketEditorFocusField::ViewTypeDropdown,
        ViewPacketEditorFocusField::ViewStyleDropdown,
        ViewPacketEditorFocusField::SortOrder,
        ViewPacketEditorFocusField::PrimaryDisplayKey,
        ViewPacketEditorFocusField::ContextModelKey,
    ];
    for a in all {
        for b in all {
            assert_eq!(a == b, a.label() == b.label());
        }
    }
}

#[test]
fn found_components_are_loaded() {
    let mut ws = WorkState::new();
    load_found_component(&mut ws, Err(sad_xml_sql::retrieval::DbError::NoRows));
    assert_eq!(ws.component_text_areas.id, "");
    let c = Component {
        file_id: 0,
        id: 8,
        name: "N".to_string(),
        summary: "S".to_string(),
        purpose: "P".to_string(),
        team_id: 0,
    };
    load_found_component(&mut ws, Ok(c));
    assert_eq!(ws.component_text_areas.id, "8");
    assert_eq!(ws.component_text_areas.extract_component().summary, "S");
}

#[test]
fn component_details_rows() {
    let conn = components_db();
    let rows = component_details(&conn, "Alpha").unwrap();
    assert_eq!(
        rows,
        vec![
            ("id.................: ", "2 ".to_string()),
            ("name...............: ", "Alpha ".to_string()),
            ("summary............: ", "SA ".to_string()),
            ("purpose............: ", "PA ".to_string()),
        ]
    );
    assert!(component_details(&conn, "Gamma").is_none());
    let c = Component { file_id: 0, id: 7, name: "n".to_string(), purpose: "p".to_string(), summary: "s".to_string(), team_id: 0 };
    assert_eq!(component_detail_rows(&c)[0].1, "7 ");
}

#[test]
fn typing_and_backspace_edit_a_field() {
    let mut editor = ComponentTextAreas::new();
    let ch = |c: char| TextInput { key: TextKey::Char(c), ctrl: false, alt: false, shift: false };
    let back = TextInput { key: TextKey::Backspace, ctrl: false, alt: false, shift: false };
    assert!(!edit_component_field(&mut editor, ComponentEditorField::Summary, back));
    assert!(edit_component_field(&mut editor, ComponentEditorField::Summary, ch('a')));
    assert!(edit_component_field(&mut editor, ComponentEditorField::Summary, ch('b')));
    assert!(edit_component_field(&mut editor, ComponentEditorField::Summary, back));
    assert!(edit_component_field(&mut editor, ComponentEditorField::Summary, ch('c')));
    let c = editor.extract_component();
    assert_eq!(c.summary, "ac");
    assert_eq!(c.name, "");
    assert_eq!(c.purpose, "");
}
