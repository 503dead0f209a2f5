//! The state of the editor's work area: its panes and tabs, how many items
//! each tab lists, the selector list and the editors.

use vstd::prelude::*;
use crate::component_editor::{ComponentEditorField, ComponentTextAreas};
use crate::text_area::{list_select, list_selection, new_list_state, new_textarea, TextField};
use crate::viewpacket_editor::{fresh_field, ViewPacketEditorFieldData, ViewPacketEditorFocusField};

verus! {

/// The pane of the work area that has the focus.
#[derive(PartialEq, Eq, Structural, Clone, Copy, Debug)]
pub enum WorkPane {
    Selector,
    Details,
    Editor,
}

/// The tabs of the work area.
#[derive(PartialEq, Eq, Structural, Clone, Copy, Debug)]
pub enum TabSubjects {
    Components,
    ViewPackets,
    Diagrams,
}

impl TabSubjects {
    /// The position of the tab in the tab bar.
    pub open spec fn index_of(self) -> usize {
        match self {
            TabSubjects::Components => 0,
            TabSubjects::ViewPackets => 1,
            TabSubjects::Diagrams => 2,
        }
    }

    /// The position of the tab in the tab bar: 0, 1 or 2.
    pub fn as_index(&self) -> (r: usize)
        ensures
            r == self.index_of(),
    {
        match self {
            TabSubjects::Components => 0,
            TabSubjects::ViewPackets => 1,
            TabSubjects::Diagrams => 2,
        }
    }
}

/// Distinct tabs have distinct positions, each below 3.
pub proof fn lemma_tab_index_injective(a: TabSubjects, b: TabSubjects)
    ensures
        a.index_of() < 3,
        a.index_of() == b.index_of() ==> a == b,
{
}

/// The number of items that each tab lists.
pub struct TabCounts {
    pub components: usize,
    pub view_packets: usize,
    pub diagrams: usize,
}

impl TabCounts {
    /// The count of `tab`.
    pub open spec fn count_of(&self, tab: TabSubjects) -> usize {
        match tab {
            TabSubjects::Components => self.components,
            TabSubjects::ViewPackets => self.view_packets,
            TabSubjects::Diagrams => self.diagrams,
        }
    }

    /// No items in any tab.
    pub fn new() -> (r: Self)
        ensures
            r.components == 0,
            r.view_packets == 0,
            r.diagrams == 0,
    {
        Self { components: 0, view_packets: 0, diagrams: 0 }
    }

    /// The number of items of `tab`.
    pub fn get_count(&self, tab: &TabSubjects) -> (r: usize)
        ensures
            r == self.count_of(*tab),
    {
        match tab {
            TabSubjects::Components => self.components,
            TabSubjects::ViewPackets => self.view_packets,
            TabSubjects::Diagrams => self.diagrams,
        }
    }

    /// Sets the number of items of `tab` to `length`; the other tabs keep
    /// theirs.
    pub fn set_count(&mut self, tab: &TabSubjects, length: usize)
        ensures
            final(self).count_of(*tab) == length,
            forall|t: TabSubjects| t != *tab ==> final(self).count_of(t) == old(self).count_of(t),
    {
        match tab {
            TabSubjects::Components => self.components = length,
            TabSubjects::ViewPackets => self.view_packets = length,
            TabSubjects::Diagrams => self.diagrams = length,
        }
    }
}

impl WorkPane {
    /// The name of the pane, as the status line shows it.
    pub open spec fn name_spec(self) -> Seq<char> {
        match self {
            WorkPane::Selector => "Selector"@,
            WorkPane::Details => "Details"@,
            WorkPane::Editor => "Editor"@,
        }
    }

    /// The name of the pane, as the status line shows it.
    pub fn name(self) -> (r: &'static str)
        ensures
            r@ == self.name_spec(),
    {
        match self {
            WorkPane::Selector => "Selector",
            WorkPane::Details => "Details",
            WorkPane::Editor => "Editor",
        }
    }
}

/// The state of the work area.
pub struct WorkState {
    /// The selector list, with its selected row.
    pub list_state: ratatui::widgets::ListState,
    pub active_pane: WorkPane,
    /// The pane that had the focus before the editor was opened.
    pub previous_active_pane: WorkPane,
    /// The text area of the diagram tab.
    pub textarea: TextField,
    pub tab_counts: TabCounts,
    pub selected_tab: TabSubjects,
    /// The items that the selector list shows.
    pub current_selection_list: Vec<String>,
    pub number_of_cloned_objects: usize,
    pub component_text_areas: ComponentTextAreas,
    pub viewpacket_editor_fields: ViewPacketEditorFieldData,
}

impl WorkState {
    /// The work area at start: the first row selected, the selector pane
    /// active, the components tab, no items, empty editors.
    pub fn new() -> (r: Self)
        ensures
            list_selection(r.list_state) == Some(0usize),
            r.active_pane == WorkPane::Selector,
            r.previous_active_pane == WorkPane::Selector,
            r.tab_counts.components == 0 && r.tab_counts.view_packets == 0 && r.tab_counts.diagrams == 0,
            r.selected_tab == TabSubjects::Components,
            r.current_selection_list@.len() == 0,
            r.number_of_cloned_objects == 0,
            fresh_field(r.textarea),
            r.component_text_areas.id@.len() == 0 && fresh_field(r.component_text_areas.name) && fresh_field(
                r.component_text_areas.purpose,
            ) && fresh_field(r.component_text_areas.summary),
            r.component_text_areas.active_field == ComponentEditorField::Name,
            r.viewpacket_editor_fields.viewpacket_id@.len() == 0 && fresh_field(r.viewpacket_editor_fields.title)
                && fresh_field(r.viewpacket_editor_fields.introduction),
            r.viewpacket_editor_fields.field_in_focus == ViewPacketEditorFocusField::Title,
    {
        let mut list_state = new_list_state();
        list_select(&mut list_state, Some(0));
        Self {
            list_state,
            active_pane: WorkPane::Selector,
            previous_active_pane: WorkPane::Selector,
            textarea: new_textarea(),
            tab_counts: TabCounts::new(),
            selected_tab: TabSubjects::Components,
            current_selection_list: Vec::new(),
            number_of_cloned_objects: 0,
            component_text_areas: ComponentTextAreas::new(),
            viewpacket_editor_fields: ViewPacketEditorFieldData::new(),
        }
    }
}

} // verus!
