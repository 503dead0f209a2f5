//! The work area of the editor: the items of the selector list, the
//! selected item, the status line, the details of a view packet, and what a
//! key does in the work area.

use vstd::prelude::*;
use crate::component_editor::{ComponentEditorField, ComponentTextAreas};
use crate::models::{Component, ComponentView, ViewPacket, ViewPacketView};
use crate::text_area::{joined_lines, text_input_done, textarea_input, textarea_lines};
use crate::viewpacket_editor::{field_loaded, id_of_text};
use crate::retrieval::DbError;
use crate::update::{component_update_applied, update_component_by_id};
use crate::db::db_tables;
use crate::menu::{KeyCode, KeyEvent, ALT, CONTROL, NO_MODIFIERS, SHIFT};
use crate::text::{decimal_string, u64_to_decimal};
use crate::text_area::list_selection;
use crate::work_state::{TabSubjects, WorkPane, WorkState};
use vstd::relations::sorted_by;

verus! {

// ------------------------------------------------------------------ keys

/// A key as a text area takes it.
#[derive(PartialEq, Eq, Structural, Clone, Copy, Debug)]
pub enum TextKey {
    Backspace,
    Enter,
    Left,
    Right,
    Up,
    Down,
    Home,
    End,
    PageUp,
    PageDown,
    Tab,
    Delete,
    Char(char),
    Esc,
    F(u8),
    /// A key that text areas ignore.
    Null,
}

/// A key press as a text area takes it: the key, and whether control, alt
/// and shift were held.
#[derive(PartialEq, Eq, Structural, Clone, Copy, Debug)]
pub struct TextInput {
    pub key: TextKey,
    pub ctrl: bool,
    pub alt: bool,
    pub shift: bool,
}

/// The text area key of a key code: the same key where text areas know
/// it; back-tab, insert, `Null` and the keys the editor does not handle
/// become `Null`.
pub open spec fn text_key_of(code: KeyCode) -> TextKey {
    match code {
        KeyCode::Backspace => TextKey::Backspace,
        KeyCode::Enter => TextKey::Enter,
        KeyCode::Left => TextKey::Left,
        KeyCode::Right => TextKey::Right,
        KeyCode::Up => TextKey::Up,
        KeyCode::Down => TextKey::Down,
        KeyCode::Home => TextKey::Home,
        KeyCode::End => TextKey::End,
        KeyCode::PageUp => TextKey::PageUp,
        KeyCode::PageDown => TextKey::PageDown,
        KeyCode::Tab => TextKey::Tab,
        KeyCode::Delete => TextKey::Delete,
        KeyCode::Char(c) => TextKey::Char(c),
        KeyCode::Esc => TextKey::Esc,
        KeyCode::F(n) => TextKey::F(n),
        _ => TextKey::Null,
    }
}

/// The key code that a text-area key stands for: the key of the same name;
/// `Null` for `Null`.
pub open spec fn key_code_of(k: TextKey) -> KeyCode {
    match k {
        TextKey::Backspace => KeyCode::Backspace,
        TextKey::Enter => KeyCode::Enter,
        TextKey::Left => KeyCode::Left,
        TextKey::Right => KeyCode::Right,
        TextKey::Up => KeyCode::Up,
        TextKey::Down => KeyCode::Down,
        TextKey::Home => KeyCode::Home,
        TextKey::End => KeyCode::End,
        TextKey::PageUp => KeyCode::PageUp,
        TextKey::PageDown => KeyCode::PageDown,
        TextKey::Tab => KeyCode::Tab,
        TextKey::Delete => KeyCode::Delete,
        TextKey::Char(c) => KeyCode::Char(c),
        TextKey::Esc => KeyCode::Esc,
        TextKey::F(n) => KeyCode::F(n),
        TextKey::Null => KeyCode::Null,
    }
}

/// A key reaches the text area as itself: a key that the text area knows
/// becomes the text-area key of the same name, and every text-area key
/// comes from its own key; keys that it does not know (back-tab, insert and
/// the like) become `Null`.
pub proof fn lemma_text_keys_keep_their_names(code: KeyCode, k: TextKey)
    ensures
        text_key_of(code) != TextKey::Null ==> key_code_of(text_key_of(code)) == code,
        text_key_of(code) == TextKey::Null ==> code == KeyCode::BackTab || code == KeyCode::Insert || code
            == KeyCode::Null || code == KeyCode::Other,
        k != TextKey::Null ==> text_key_of(key_code_of(k)) == k,
{
}

/// A key event as a text area takes it: its key, and the control, alt and
/// shift bits of its modifiers.
pub fn keyevent_to_input(key_event: KeyEvent) -> (r: TextInput)
    ensures
        r == input_of(key_event),
        r.key == text_key_of(key_event.code),
        r.ctrl == (key_event.modifiers & CONTROL != 0),
        r.alt == (key_event.modifiers & ALT != 0),
        r.shift == (key_event.modifiers & SHIFT != 0),
{
    let key = match key_event.code {
        KeyCode::Backspace => TextKey::Backspace,
        KeyCode::Enter => TextKey::Enter,
        KeyCode::Left => TextKey::Left,
        KeyCode::Right => TextKey::Right,
        KeyCode::Up => TextKey::Up,
        KeyCode::Down => TextKey::Down,
        KeyCode::Home => TextKey::Home,
        KeyCode::End => TextKey::End,
        KeyCode::PageUp => TextKey::PageUp,
        KeyCode::PageDown => TextKey::PageDown,
        KeyCode::Tab => TextKey::Tab,
        KeyCode::Delete => TextKey::Delete,
        KeyCode::Char(c) => TextKey::Char(c),
        KeyCode::Esc => TextKey::Esc,
        KeyCode::F(n) => TextKey::F(n),
        _ => TextKey::Null,
    };
    TextInput {
        key,
        ctrl: key_event.modifiers & CONTROL != 0,
        alt: key_event.modifiers & ALT != 0,
        shift: key_event.modifiers & SHIFT != 0,
    }
}

// ------------------------------------------------------------- selection

/// The strings of `v`.
pub open spec fn texts(v: Seq<String>) -> Seq<Seq<char>> {
    v.map_values(|s: String| s@)
}

/// The selected row and item: the row and its item where the row is in the
/// list, the row and "Selection out of index" where it is not, and 0 and
/// "NAN" where no row is selected.
pub open spec fn selection_of(selected: Option<usize>, items: Seq<Seq<char>>) -> (usize, Seq<char>) {
    match selected {
        Some(i) => (i, if i < items.len() {
            items[i as int]
        } else {
            "Selection out of index"@
        }),
        None => (0, "NAN"@),
    }
}

/// The selected row of the selector list and its item.
pub fn selected_entry(work_state: &WorkState) -> (r: (usize, String))
    ensures
        (r.0, r.1@) == selection_of(
            list_selection(work_state.list_state),
            texts(work_state.current_selection_list@),
        ),
{
    match crate::text_area::list_selected(&work_state.list_state) {
        Some(i) => {
            if i < work_state.current_selection_list.len() {
                (i, work_state.current_selection_list[i].clone())
            } else {
                (i, String::from_str("Selection out of index"))
            }
        },
        None => (0, String::from_str("NAN")),
    }
}

// ------------------------------------------------------------ status line

/// The status line of the work area. In the selector pane: the edit key,
/// the tab, the pane, the selected row and item, the number of items and
/// of copied names; in the editor: the cancel and save keys, the tab, the
/// pane, the field with the focus and the item; otherwise the tab, the
/// pane, the selected row and item.
pub open spec fn status_text(
    tab: usize,
    pane: WorkPane,
    field: ComponentEditorField,
    index: usize,
    item: Seq<char>,
    total: usize,
    cloned: usize,
) -> Seq<char> {
    if pane == WorkPane::Selector {
        "F4: Edit  - Tab: "@ + decimal_string(tab as nat) + ", Active Pane: "@ + pane.name_spec()
            + ", Selected Item: "@ + decimal_string(index as nat) + " - "@ + item + " - Total Items: "@
            + decimal_string(total as nat) + " - Cloned Objects: "@ + decimal_string(cloned as nat)
    } else if pane == WorkPane::Editor {
        "ESC: Cancel  F7: Save - Tab: "@ + decimal_string(tab as nat) + ", Active Pane: "@ + pane.name_spec()
            + ", active field: "@ + field.name_spec() + " - "@ + item
    } else {
        "XXX - Tab: "@ + decimal_string(tab as nat) + ", Active Pane: "@ + pane.name_spec() + ", Selected Item: "@
            + decimal_string(index as nat) + " - "@ + item
    }
}

/// Appends `s`.
fn push(out: &mut String, s: &str)
    ensures
        final(out)@ == old(out)@ + s@,
{
    out.append(s);
}

/// Appends the numeral of `n`.
fn push_number(out: &mut String, n: usize)
    ensures
        final(out)@ == old(out)@ + decimal_string(n as nat),
{
    let digits = u64_to_decimal(n as u64);
    out.append(digits.as_str());
}

/// The head of the status line: the tab and the pane.
fn status_head(lead: &str, tab: usize, pane: WorkPane) -> (r: String)
    ensures
        r@ == lead@ + decimal_string(tab as nat) + ", Active Pane: "@ + pane.name_spec(),
{
    let mut out = String::from_str(lead);
    push_number(&mut out, tab);
    push(&mut out, ", Active Pane: ");
    push(&mut out, pane.name());
    out
}

/// The status line of the work area for its present state.
pub fn work_status(work_state: &WorkState) -> (r: String)
    ensures
        r@ == status_text(
            work_state.selected_tab.index_of(),
            work_state.active_pane,
            work_state.component_text_areas.active_field,
            selection_of(list_selection(work_state.list_state), texts(work_state.current_selection_list@)).0,
            selection_of(list_selection(work_state.list_state), texts(work_state.current_selection_list@)).1,
            work_state.current_selection_list.len(),
            work_state.number_of_cloned_objects,
        ),
{
    let (index, item) = selected_entry(work_state);
    let tab = work_state.selected_tab.as_index();
    let pane = work_state.active_pane;
    if pane == WorkPane::Selector {
        let mut out = status_head("F4: Edit  - Tab: ", tab, pane);
        push(&mut out, ", Selected Item: ");
        push_number(&mut out, index);
        push(&mut out, " - ");
        push(&mut out, item.as_str());
        push(&mut out, " - Total Items: ");
        push_number(&mut out, work_state.current_selection_list.len());
        push(&mut out, " - Cloned Objects: ");
        push_number(&mut out, work_state.number_of_cloned_objects);
        out
    } else if pane == WorkPane::Editor {
        let mut out = status_head("ESC: Cancel  F7: Save - Tab: ", tab, pane);
        push(&mut out, ", active field: ");
        push(&mut out, work_state.component_text_areas.active_field.name());
        push(&mut out, " - ");
        push(&mut out, item.as_str());
        out
    } else {
        let mut out = status_head("XXX - Tab: ", tab, pane);
        push(&mut out, ", Selected Item: ");
        push_number(&mut out, index);
        push(&mut out, " - ");
        push(&mut out, item.as_str());
        out
    }
}

// --------------------------------------------------------- selector list

/// A copy of each string of `v`.
fn copy_strings(v: &Vec<String>) -> (r: Vec<String>)
    ensures
        texts(r@) == texts(v@),
{
    let mut r: Vec<String> = Vec::new();
    let mut i: usize = 0;
    while i < v.len()
        invariant
            i <= v.len(),
            texts(r@) == texts(v@).take(i as int),
        decreases v.len() - i,
    {
        let c = v[i].clone();
        assert(c@ == v@[i as int]@);
        let ghost before = r@;
        r.push(c);
        assert(r@ == before.push(c));
        assert(texts(r@) =~= texts(before).push(c@));
        assert(texts(r@) =~= texts(v@).take(i + 1));
        i = i + 1;
    }
    assert(texts(v@).take(v.len() as int) =~= texts(v@));
    r
}

/// `after` is `before` with the selector list set to `items`, its length
/// as the number of copied names and as the count of `tab`.
pub open spec fn list_taken(before: WorkState, after: WorkState, tab: TabSubjects, items: Seq<Seq<char>>) -> bool {
    &&& texts(after.current_selection_list@) == items
    &&& after.number_of_cloned_objects == items.len()
    &&& after.tab_counts.count_of(tab) == items.len()
    &&& forall|t: TabSubjects| t != tab ==> after.tab_counts.count_of(t) == before.tab_counts.count_of(t)
    &&& after.list_state == before.list_state
    &&& after.active_pane == before.active_pane
    &&& after.previous_active_pane == before.previous_active_pane
    &&& after.textarea == before.textarea
    &&& after.selected_tab == before.selected_tab
    &&& after.component_text_areas == before.component_text_areas
    &&& after.viewpacket_editor_fields == before.viewpacket_editor_fields
}

/// Takes the names read for the list of `tab`: they become the selector
/// list, and the count of `tab`, and are returned; where they could not be
/// read, the list is empty and the state stays as it was.
pub fn take_selection_list(
    work_state: &mut WorkState,
    tab: TabSubjects,
    names: Result<Vec<String>, crate::retrieval::DbError>,
) -> (r: Vec<String>)
    ensures
        names is Ok ==> texts(r@) == texts(names->Ok_0@) && list_taken(*old(work_state), *final(work_state), tab, texts(r@)),
        names is Err ==> r@.len() == 0 && *final(work_state) == *old(work_state),
{
    match names {
        Ok(names) => {
            work_state.current_selection_list = copy_strings(&names);
            work_state.number_of_cloned_objects = work_state.current_selection_list.len();
            work_state.tab_counts.set_count(&tab, names.len());
            names
        },
        Err(_) => Vec::new(),
    }
}

/// The component names, ordered without regard to case, as the selector
/// list of the components tab; an empty list, the state unchanged, where
/// they cannot be read.
pub fn get_list_of_component_names(work_state: &mut WorkState, db_conn: &rusqlite::Connection) -> (r: Vec<String>)
    ensures
        (exists|rows: Seq<crate::models::ComponentView>|
            crate::retrieval::components_are(*db_conn, rows) && texts(r@).to_multiset()
                == crate::queries::component_names(rows).to_multiset() && sorted_by(
                texts(r@),
                crate::queries::nocase_order(),
            ) && list_taken(*old(work_state), *final(work_state), TabSubjects::Components, texts(r@)))
            || (r@.len() == 0 && *final(work_state) == *old(work_state)),
{
    let names = crate::retrieval::get_vector_of_component_names_sorted(db_conn);
    proof {
        if names is Ok {
            assert(crate::order::views(names->Ok_0@) =~= texts(names->Ok_0@));
        }
    }
    take_selection_list(work_state, TabSubjects::Components, names)
}

/// The view packet titles, ordered without regard to case, as the selector
/// list of the view packets tab; an empty list, the state unchanged, where
/// they cannot be read.
pub fn get_list_of_viewpacket_names(work_state: &mut WorkState, db_conn: &rusqlite::Connection) -> (r: Vec<String>)
    ensures
        (exists|rows: Seq<crate::models::ViewPacketView>|
            crate::retrieval::viewpackets_are(*db_conn, rows) && texts(r@).to_multiset()
                == crate::queries::viewpacket_titles(rows).to_multiset() && sorted_by(
                texts(r@),
                crate::queries::nocase_order(),
            ) && list_taken(*old(work_state), *final(work_state), TabSubjects::ViewPackets, texts(r@)))
            || (r@.len() == 0 && *final(work_state) == *old(work_state)),
{
    let names = crate::retrieval::get_vector_of_viewpacket_titles_sorted(db_conn);
    proof {
        if names is Ok {
            assert(crate::order::views(names->Ok_0@) =~= texts(names->Ok_0@));
        }
    }
    take_selection_list(work_state, TabSubjects::ViewPackets, names)
}

/// The items of the diagrams tab.
pub open spec fn diagram_items() -> Seq<Seq<char>> {
    seq!["Diagram 1"@, "Diagram 2"@, "Diagram 3"@, "Diagram 4"@]
}

/// The items that the selector list shows for the selected tab: the
/// component names, the view packet titles (both as the two functions
/// above give them), or the fixed diagram items.
pub fn selector_items(work_state: &mut WorkState, db_conn: &rusqlite::Connection) -> (r: Vec<String>)
    ensures
        old(work_state).selected_tab == TabSubjects::Diagrams ==> texts(r@) == diagram_items() && *final(work_state)
            == *old(work_state),
        old(work_state).selected_tab == TabSubjects::Components ==> (exists|rows: Seq<crate::models::ComponentView>|
            crate::retrieval::components_are(*db_conn, rows) && texts(r@).to_multiset()
                == crate::queries::component_names(rows).to_multiset() && sorted_by(
                texts(r@),
                crate::queries::nocase_order(),
            ) && list_taken(*old(work_state), *final(work_state), TabSubjects::Components, texts(r@)))
            || (r@.len() == 0 && *final(work_state) == *old(work_state)),
        old(work_state).selected_tab == TabSubjects::ViewPackets ==> (exists|rows: Seq<crate::models::ViewPacketView>|
            crate::retrieval::viewpackets_are(*db_conn, rows) && texts(r@).to_multiset()
                == crate::queries::viewpacket_titles(rows).to_multiset() && sorted_by(
                texts(r@),
                crate::queries::nocase_order(),
            ) && list_taken(*old(work_state), *final(work_state), TabSubjects::ViewPackets, texts(r@)))
            || (r@.len() == 0 && *final(work_state) == *old(work_state)),
{
    match work_state.selected_tab {
        TabSubjects::Components => get_list_of_component_names(work_state, db_conn),
        TabSubjects::ViewPackets => get_list_of_viewpacket_names(work_state, db_conn),
        TabSubjects::Diagrams => {
            let r = vec![
                String::from_str("Diagram 1"),
                String::from_str("Diagram 2"),
                String::from_str("Diagram 3"),
                String::from_str("Diagram 4"),
            ];
            assert(texts(r@) =~= diagram_items());
            r
        },
    }
}

// ------------------------------------------------------ view packet pane

/// The rows of the details pane of a view packet: a label and a value,
/// each value followed by a space.
pub open spec fn detail_rows(v: ViewPacketView) -> Seq<(Seq<char>, Seq<char>)> {
    seq![
        ("id.................: "@, decimal_string(v.viewpacket_id as nat) + " "@),
        ("title..............: "@, v.title + " "@),
        ("introduction.......: "@, v.introduction + " "@),
        ("view_type..........: "@, v.view_type + " "@),
        ("view_style.........: "@, v.view_style + " "@),
        ("primary_display_key: "@, v.primary_display_key + " "@),
        ("context_model_key..: "@, v.context_model_key + " "@),
    ]
}

/// The texts of label and value rows.
pub open spec fn row_texts(rows: Seq<(&'static str, String)>) -> Seq<(Seq<char>, Seq<char>)> {
    rows.map_values(|p: (&'static str, String)| (p.0@, p.1@))
}

/// `s` followed by a space.
fn spaced(s: &str) -> (r: String)
    ensures
        r@ == s@ + " "@,
{
    let mut out = String::from_str(s);
    out.append(" ");
    out
}

/// The rows of the details pane of a view packet.
pub fn viewpacket_detail_rows(v: &ViewPacket) -> (r: Vec<(&'static str, String)>)
    ensures
        row_texts(r@) == detail_rows(v@),
{
    let id = u64_to_decimal(v.viewpacket_id);
    let r = vec![
        ("id.................: ", spaced(id.as_str())),
        ("title..............: ", spaced(v.title.as_str())),
        ("introduction.......: ", spaced(v.introduction.as_str())),
        ("view_type..........: ", spaced(v.view_type.as_str())),
        ("view_style.........: ", spaced(v.view_style.as_str())),
        ("primary_display_key: ", spaced(v.primary_display_key.as_str())),
        ("context_model_key..: ", spaced(v.context_model_key.as_str())),
    ];
    assert(row_texts(r@) =~= detail_rows(v@));
    r
}

/// The rows of the details pane of the view packet with the given title;
/// `None` where there is none or the view packets cannot be read.
pub fn viewpacket_details(db_conn: &rusqlite::Connection, selected_item: &str) -> (r: Option<
    Vec<(&'static str, String)>,
>)
    ensures
        r matches Some(rows) ==> exists|vps: Seq<ViewPacketView>|
            crate::retrieval::viewpackets_are(*db_conn, vps) && vps.filter(
                crate::queries::viewpacket_with_title_spec(selected_item@),
            ).len() > 0 && row_texts(rows@) == detail_rows(
                vps.filter(crate::queries::viewpacket_with_title_spec(selected_item@))[0],
            ),
{
    match crate::retrieval::get_viewpacket_by_title(db_conn, selected_item) {
        Ok(v) => Some(viewpacket_detail_rows(&v)),
        Err(_) => None,
    }
}

/// The rows of the details pane of a component: a label and a value, each
/// value followed by a space.
pub open spec fn component_detail_rows_spec(c: ComponentView) -> Seq<(Seq<char>, Seq<char>)> {
    seq![
        ("id.................: "@, decimal_string(c.id as nat) + " "@),
        ("name...............: "@, c.name + " "@),
        ("summary............: "@, c.summary + " "@),
        ("purpose............: "@, c.purpose + " "@),
    ]
}

/// The rows of the details pane of a component.
pub fn component_detail_rows(c: &Component) -> (r: Vec<(&'static str, String)>)
    ensures
        row_texts(r@) == component_detail_rows_spec(c@),
{
    let id = u64_to_decimal(c.id);
    let r = vec![
        ("id.................: ", spaced(id.as_str())),
        ("name...............: ", spaced(c.name.as_str())),
        ("summary............: ", spaced(c.summary.as_str())),
        ("purpose............: ", spaced(c.purpose.as_str())),
    ];
    assert(row_texts(r@) =~= component_detail_rows_spec(c@));
    r
}

/// The rows of the details pane of the component with the given name;
/// `None` where there is none or the components cannot be read.
pub fn component_details(db_conn: &rusqlite::Connection, selected_item: &str) -> (r: Option<
    Vec<(&'static str, String)>,
>)
    ensures
        r matches Some(rows) ==> exists|cs: Seq<ComponentView>|
            crate::retrieval::components_are(*db_conn, cs) && cs.filter(
                crate::queries::component_has_name(selected_item@),
            ).len() > 0 && row_texts(rows@) == component_detail_rows_spec(
                cs.filter(crate::queries::component_has_name(selected_item@))[0],
            ),
{
    match crate::retrieval::get_component_by_name(db_conn, selected_item.to_string()) {
        Ok(c) => Some(component_detail_rows(&c)),
        Err(_) => None,
    }
}

// ------------------------------------------------------------ work keys

/// What a key in the work area leads to.
#[derive(PartialEq, Eq, Structural, Clone, Copy, Debug)]
pub enum WorkOutcome {
    /// The key was handled, or not; nothing more is to be done.
    Handled(bool),
    /// The edited component was saved: the key was handled, and the
    /// database is to be written out as XML.
    Saved,
    /// The key goes to the text area of the given field of the component
    /// editor; whether it changed the text is whether it was handled.
    EditComponent(ComponentEditorField, TextInput),
}

/// Hands a key to the text area of `field` in the component editor: that
/// text area changes as `text_input_done` says, the rest of the editor stays;
/// the result says whether the text changed.
pub fn edit_component_field(editor: &mut ComponentTextAreas, field: ComponentEditorField, input: TextInput) -> (r:
    bool)
    ensures
        field == ComponentEditorField::Name ==> *final(editor) == (ComponentTextAreas {
            name: final(editor).name,
            ..*old(editor)
        }) && text_input_done(old(editor).name, final(editor).name, input, r),
        field == ComponentEditorField::Purpose ==> *final(editor) == (ComponentTextAreas {
            purpose: final(editor).purpose,
            ..*old(editor)
        }) && text_input_done(old(editor).purpose, final(editor).purpose, input, r),
        field == ComponentEditorField::Summary ==> *final(editor) == (ComponentTextAreas {
            summary: final(editor).summary,
            ..*old(editor)
        }) && text_input_done(old(editor).summary, final(editor).summary, input, r),
{
    match field {
        ComponentEditorField::Name => textarea_input(&mut editor.name, input),
        ComponentEditorField::Purpose => textarea_input(&mut editor.purpose, input),
        ComponentEditorField::Summary => textarea_input(&mut editor.summary, input),
    }
}

/// The text area input of a key event.
pub open spec fn input_of(e: KeyEvent) -> TextInput {
    TextInput {
        key: text_key_of(e.code),
        ctrl: e.modifiers & CONTROL != 0,
        alt: e.modifiers & ALT != 0,
        shift: e.modifiers & SHIFT != 0,
    }
}

/// The input of a key event carries its shift, control and alt keys: the
/// three flags, read as the bits 1, 2 and 4, give back the low three bits
/// of the modifiers; the higher modifier bits (super, hyper, meta) are
/// dropped.
pub proof fn lemma_input_modifiers(e: KeyEvent)
    ensures
        (if input_of(e).shift {
            1int
        } else {
            0int
        }) + (if input_of(e).ctrl {
            2int
        } else {
            0int
        }) + (if input_of(e).alt {
            4int
        } else {
            0int
        }) == e.modifiers % 8,
{
    let m = e.modifiers;
    assert(m & 1u8 == (if m & 1u8 != 0 { 1u8 } else { 0u8 })) by (bit_vector);
    assert(m & 2u8 == (if m & 2u8 != 0 { 2u8 } else { 0u8 })) by (bit_vector);
    assert(m & 4u8 == (if m & 4u8 != 0 { 4u8 } else { 0u8 })) by (bit_vector);
    assert((m & 1u8) + (m & 2u8) + (m & 4u8) == m % 8) by (bit_vector);
}

/// The component that the component editor holds.
pub open spec fn edited_component(e: ComponentTextAreas) -> ComponentView {
    ComponentView {
        file_id: 0,
        id: id_of_text(e.id@),
        name: joined_lines(textarea_lines(e.name)),
        summary: joined_lines(textarea_lines(e.summary)),
        purpose: joined_lines(textarea_lines(e.purpose)),
        team_id: 0,
    }
}

/// `after` is the component editor `before` with the component `c` loaded.
pub open spec fn component_loaded(before: ComponentTextAreas, after: ComponentTextAreas, c: ComponentView) -> bool {
    &&& after.id@ == decimal_string(c.id as nat)
    &&& field_loaded(before.name, after.name, c.name)
    &&& field_loaded(before.purpose, after.purpose, c.purpose)
    &&& field_loaded(before.summary, after.summary, c.summary)
    &&& after.active_field == before.active_field
}

/// The row that the editor opens: the selected row, or the first.
pub open spec fn opened_row(w: WorkState) -> usize {
    match list_selection(w.list_state) {
        Some(i) => i,
        None => 0,
    }
}

/// `after` is `before` with the editor opened on the components tab: the
/// editor pane active, the pane before remembered, and the component named
/// by the opened row loaded where there is such a row and such a component.
pub open spec fn component_editor_opened(before: WorkState, after: WorkState, db: rusqlite::Connection) -> bool {
    let i = opened_row(before);
    &&& after == (WorkState {
        component_text_areas: after.component_text_areas,
        previous_active_pane: before.active_pane,
        active_pane: WorkPane::Editor,
        ..before
    })
    &&& (after.component_text_areas == before.component_text_areas || (i < before.current_selection_list.len()
        && exists|rows: Seq<ComponentView>|
        crate::retrieval::components_are(db, rows) && rows.filter(
            crate::queries::component_has_name(before.current_selection_list@[i as int]@),
        ).len() > 0 && component_loaded(
            before.component_text_areas,
            after.component_text_areas,
            rows.filter(crate::queries::component_has_name(before.current_selection_list@[i as int]@))[0],
        )))
}

/// Loads the component that the editor is opened on, where it was found:
/// the component editor then holds it; otherwise the state stays as it was.
pub fn load_found_component(work_state: &mut WorkState, found: Result<Component, DbError>)
    ensures
        found matches Ok(c) ==> *final(work_state) == (WorkState {
            component_text_areas: final(work_state).component_text_areas,
            ..*old(work_state)
        }) && component_loaded(old(work_state).component_text_areas, final(work_state).component_text_areas, c@),
        found is Err ==> *final(work_state) == *old(work_state),
{
    if let Ok(component) = found {
        work_state.component_text_areas.load_component(&component);
    }
}

/// Opens the component editor on the selected row.
fn open_component_editor(work_state: &mut WorkState, db_conn: &rusqlite::Connection)
    ensures
        component_editor_opened(*old(work_state), *final(work_state), *db_conn),
{
    work_state.previous_active_pane = work_state.active_pane;
    work_state.active_pane = WorkPane::Editor;
    let selected_index = match crate::text_area::list_selected(&work_state.list_state) {
        Some(i) => i,
        None => 0,
    };
    if selected_index < work_state.current_selection_list.len() {
        let selected_item = work_state.current_selection_list[selected_index].clone();
        let component = crate::retrieval::get_component_by_name(db_conn, selected_item);
        load_found_component(work_state, component);
    }
}

/// The key event is `code` with exactly the modifiers `m`.
pub open spec fn key_is(e: KeyEvent, m: u8, code: KeyCode) -> bool {
    e.modifiers == m && e.code == code
}

/// The number of items of the selected tab.
pub open spec fn tab_count(w: WorkState) -> usize {
    w.tab_counts.count_of(w.selected_tab)
}

/// The row that Up selects: the one above, the last from the first.
pub open spec fn row_up(w: WorkState) -> usize {
    if opened_row(w) == 0 {
        (tab_count(w) - 1) as usize
    } else {
        (opened_row(w) - 1) as usize
    }
}

/// The row that Down selects: the one below, the first after the last.
pub open spec fn row_down(w: WorkState) -> usize {
    ((opened_row(w) + 1) % (tab_count(w) as int)) as usize
}

/// A key that the work area handles outside the editor.
pub open spec fn is_selector_key(w: WorkState, e: KeyEvent) -> bool {
    ||| key_is(e, ALT, KeyCode::Char('1'))
    ||| key_is(e, ALT, KeyCode::Char('2'))
    ||| key_is(e, ALT, KeyCode::Char('3'))
    ||| key_is(e, CONTROL, KeyCode::Left)
    ||| key_is(e, CONTROL, KeyCode::Right)
    ||| e.code == KeyCode::F(4)
    ||| (w.active_pane == WorkPane::Selector && (e.code == KeyCode::Up || e.code == KeyCode::Down))
}

/// A key that the editor handles itself, rather than its text areas.
pub open spec fn is_editor_key(e: KeyEvent) -> bool {
    ||| key_is(e, NO_MODIFIERS, KeyCode::Tab)
    ||| key_is(e, SHIFT, KeyCode::BackTab)
    ||| key_is(e, NO_MODIFIERS, KeyCode::Esc)
    ||| key_is(e, NO_MODIFIERS, KeyCode::F(7))
}

/// The work area with the component editor's focus on `field`.
pub open spec fn with_component_focus(w: WorkState, field: ComponentEditorField) -> WorkState {
    WorkState { component_text_areas: ComponentTextAreas { active_field: field, ..w.component_text_areas }, ..w }
}

/// What a key does in the editor pane: `before` and `after` are the work
/// area before and after it, `db0` and `db1` the database, `r` the outcome.
pub open spec fn editor_key_done(
    before: WorkState,
    after: WorkState,
    e: KeyEvent,
    db0: rusqlite::Connection,
    db1: rusqlite::Connection,
    r: Result<WorkOutcome, DbError>,
) -> bool {
    let components = before.selected_tab == TabSubjects::Components;
    let field = before.component_text_areas.active_field;
    let saving = key_is(e, NO_MODIFIERS, KeyCode::F(7));
    &&& key_is(e, NO_MODIFIERS, KeyCode::Tab) ==> r == Ok::<WorkOutcome, DbError>(WorkOutcome::Handled(true))
        && after == (if components { with_component_focus(before, field.next_spec()) } else { before })
    &&& key_is(e, SHIFT, KeyCode::BackTab) ==> r == Ok::<WorkOutcome, DbError>(WorkOutcome::Handled(true))
        && after == (if components { with_component_focus(before, field.previous_spec()) } else { before })
    &&& key_is(e, NO_MODIFIERS, KeyCode::Esc) ==> r == Ok::<WorkOutcome, DbError>(WorkOutcome::Handled(true))
        && after == (WorkState { active_pane: before.previous_active_pane, ..before })
    &&& saving ==> after == (WorkState { active_pane: before.previous_active_pane, ..before })
    &&& saving && components ==> (r == Ok::<WorkOutcome, DbError>(WorkOutcome::Saved) && component_update_applied(
        db0,
        db1,
        edited_component(before.component_text_areas),
    )) || (r is Err && db_tables(db1) == db_tables(db0))
    &&& saving && !components ==> r == Ok::<WorkOutcome, DbError>(WorkOutcome::Handled(false))
    &&& !is_editor_key(e) ==> after == before && r == Ok::<WorkOutcome, DbError>(
        if components {
            WorkOutcome::EditComponent(field, input_of(e))
        } else {
            WorkOutcome::Handled(false)
        },
    )
    &&& !(saving && components) ==> db1 == db0
}

/// What a key does outside the editor pane: `before` and `after` are the
/// work area before and after it, `db` the database, `o` the outcome.
pub open spec fn selector_key_done(
    before: WorkState,
    after: WorkState,
    e: KeyEvent,
    db: rusqlite::Connection,
    o: WorkOutcome,
) -> bool {
    let components = before.selected_tab == TabSubjects::Components;
    let in_selector = before.active_pane == WorkPane::Selector;
    &&& key_is(e, ALT, KeyCode::Char('1')) ==> o == WorkOutcome::Handled(true) && after == (WorkState {
        selected_tab: TabSubjects::Components,
        ..before
    })
    &&& key_is(e, ALT, KeyCode::Char('2')) ==> o == WorkOutcome::Handled(true) && after == (WorkState {
        selected_tab: TabSubjects::ViewPackets,
        ..before
    })
    &&& key_is(e, ALT, KeyCode::Char('3')) ==> o == WorkOutcome::Handled(true) && after == (WorkState {
        selected_tab: TabSubjects::Diagrams,
        ..before
    })
    &&& key_is(e, CONTROL, KeyCode::Left) ==> o == WorkOutcome::Handled(true) && after == (WorkState {
        active_pane: WorkPane::Selector,
        ..before
    })
    &&& key_is(e, CONTROL, KeyCode::Right) ==> o == WorkOutcome::Handled(true) && after == (WorkState {
        active_pane: WorkPane::Details,
        ..before
    })
    &&& e.code == KeyCode::F(4) ==> o == WorkOutcome::Handled(components) && (if components {
        component_editor_opened(before, after, db)
    } else {
        after == (WorkState { previous_active_pane: before.active_pane, active_pane: WorkPane::Editor, ..before })
    })
    &&& in_selector && e.code == KeyCode::Up && tab_count(before) > 0 ==> o == WorkOutcome::Handled(true)
        && after == (WorkState { list_state: after.list_state, ..before }) && list_selection(after.list_state)
        == Some(row_up(before))
    &&& in_selector && e.code == KeyCode::Down && tab_count(before) > 0 ==> o == WorkOutcome::Handled(true)
        && after == (WorkState { list_state: after.list_state, ..before }) && list_selection(after.list_state)
        == Some(row_down(before))
    &&& in_selector && (e.code == KeyCode::Up || e.code == KeyCode::Down) && tab_count(before) == 0 ==> o
        == WorkOutcome::Handled(true) && after == before
    &&& !is_selector_key(before, e) ==> o == WorkOutcome::Handled(false) && after == before
}

/// A key in the editor pane.
fn editor_key(work_state: &mut WorkState, event: KeyEvent, db_conn: &mut rusqlite::Connection) -> (r: Result<
    WorkOutcome,
    DbError,
>)
    ensures
        editor_key_done(*old(work_state), *final(work_state), event, *old(db_conn), *final(db_conn), r),
{
    let components = work_state.selected_tab == TabSubjects::Components;
    if event.modifiers == NO_MODIFIERS && event.code == KeyCode::Tab {
        if components {
            work_state.component_text_areas.next_field();
        }
        Ok(WorkOutcome::Handled(true))
    } else if event.modifiers == SHIFT && event.code == KeyCode::BackTab {
        if components {
            work_state.component_text_areas.previous_field();
        }
        Ok(WorkOutcome::Handled(true))
    } else if event.modifiers == NO_MODIFIERS && event.code == KeyCode::Esc {
        work_state.active_pane = work_state.previous_active_pane;
        Ok(WorkOutcome::Handled(true))
    } else if event.modifiers == NO_MODIFIERS && event.code == KeyCode::F(7) {
        work_state.active_pane = work_state.previous_active_pane;
        if components {
            let component = work_state.component_text_areas.extract_component();
            update_component_by_id(db_conn, &component)?;
            Ok(WorkOutcome::Saved)
        } else {
            Ok(WorkOutcome::Handled(false))
        }
    } else if components {
        Ok(WorkOutcome::EditComponent(work_state.component_text_areas.active_field, keyevent_to_input(event)))
    } else {
        Ok(WorkOutcome::Handled(false))
    }
}

/// Stepping past the row `i` modulo `n` first reduces `i`: the same row
/// comes out.
proof fn lemma_next_row(i: int, n: int)
    requires
        0 <= i,
        0 < n,
    ensures
        (i % n + 1) % n == (i + 1) % n,
        i % n + 1 <= n,
{
    vstd::arithmetic::div_mod::lemma_fundamental_div_mod(i, n);
    vstd::arithmetic::div_mod::lemma_mod_multiples_vanish(i / n, i % n + 1, n);
}

/// A key outside the editor pane.
fn selector_key(work_state: &mut WorkState, event: KeyEvent, db_conn: &rusqlite::Connection) -> (r: WorkOutcome)
    ensures
        selector_key_done(*old(work_state), *final(work_state), event, *db_conn, r),
{
    let m = event.modifiers;
    if m == ALT && event.code == KeyCode::Char('1') {
        work_state.selected_tab = TabSubjects::Components;
        WorkOutcome::Handled(true)
    } else if m == ALT && event.code == KeyCode::Char('2') {
        work_state.selected_tab = TabSubjects::ViewPackets;
        WorkOutcome::Handled(true)
    } else if m == ALT && event.code == KeyCode::Char('3') {
        work_state.selected_tab = TabSubjects::Diagrams;
        WorkOutcome::Handled(true)
    } else if m == CONTROL && event.code == KeyCode::Left {
        work_state.active_pane = WorkPane::Selector;
        WorkOutcome::Handled(true)
    } else if m == CONTROL && event.code == KeyCode::Right {
        work_state.active_pane = WorkPane::Details;
        WorkOutcome::Handled(true)
    } else if event.code == KeyCode::F(4) {
        if work_state.selected_tab == TabSubjects::Components {
            open_component_editor(work_state, db_conn);
            WorkOutcome::Handled(true)
        } else {
            work_state.previous_active_pane = work_state.active_pane;
            work_state.active_pane = WorkPane::Editor;
            WorkOutcome::Handled(false)
        }
    } else if work_state.active_pane == WorkPane::Selector && (event.code == KeyCode::Up || event.code
        == KeyCode::Down) {
        let max_elements = work_state.tab_counts.get_count(&work_state.selected_tab);
        let selected = match crate::text_area::list_selected(&work_state.list_state) {
            Some(i) => i,
            None => 0,
        };
        if max_elements == 0 {
            return WorkOutcome::Handled(true);
        }
        let new_selected = if event.code == KeyCode::Up {
            if selected == 0 {
                max_elements - 1
            } else {
                selected - 1
            }
        } else {
            proof {
                lemma_next_row(selected as int, max_elements as int);
            }
            (selected % max_elements + 1) % max_elements
        };
        crate::text_area::list_select(&mut work_state.list_state, Some(new_selected));
        WorkOutcome::Handled(true)
    } else {
        WorkOutcome::Handled(false)
    }
}

/// What a key does in the work area. In the editor pane: Tab and Shift+Tab
/// move the component editor's focus, Escape leaves the editor, F7 leaves
/// it and saves the edited component (then the database is to be written
/// out as XML); other keys go to the focused text area of the component
/// editor. Elsewhere: Alt+1, Alt+2 and Alt+3 select the tabs, Ctrl+Left and
/// Ctrl+Right the panes, F4 opens the editor (loading the selected
/// component), and Up and Down move the selection of the selector pane
/// around the items of the tab; with no items they are handled and change
/// nothing. It fails only where saving fails.
pub fn handle_work_input(work_state: &mut WorkState, event: KeyEvent, db_conn: &mut rusqlite::Connection) -> (r:
    Result<WorkOutcome, DbError>)
    ensures
        old(work_state).active_pane == WorkPane::Editor ==> editor_key_done(
            *old(work_state),
            *final(work_state),
            event,
            *old(db_conn),
            *final(db_conn),
            r,
        ),
        old(work_state).active_pane != WorkPane::Editor ==> *final(db_conn) == *old(db_conn),
        old(work_state).active_pane != WorkPane::Editor ==> (r matches Ok(o) && selector_key_done(
            *old(work_state),
            *final(work_state),
            event,
            *old(db_conn),
            o,
        )),
{
    if work_state.active_pane == WorkPane::Editor {
        editor_key(work_state, event, db_conn)
    } else {
        Ok(selector_key(work_state, event, db_conn))
    }
}

/// In the selector pane, Down undoes Up and Up undoes Down, for a selected
/// row among the items of the tab.
pub proof fn lemma_up_down_inverse(before: WorkState, moved: WorkState)
    requires
        tab_count(before) > 0,
        opened_row(before) < tab_count(before),
        moved == (WorkState { list_state: moved.list_state, ..before }),
    ensures
        list_selection(moved.list_state) == Some(row_up(before)) ==> row_down(moved) == opened_row(before),
        list_selection(moved.list_state) == Some(row_down(before)) ==> row_up(moved) == opened_row(before),
{
    let n = tab_count(before) as int;
    let i = opened_row(before) as int;
    assert(tab_count(moved) == tab_count(before));
    vstd::arithmetic::div_mod::lemma_small_mod(i as nat, n as nat);
    vstd::arithmetic::div_mod::lemma_mod_self_0(n);
    if i + 1 < n {
        vstd::arithmetic::div_mod::lemma_small_mod((i + 1) as nat, n as nat);
    }
}

} // verus!
