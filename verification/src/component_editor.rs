//! The component editor: the read-only id of a component and its name,
//! purpose and summary being edited, and the field that has the focus.

use vstd::prelude::*;
use crate::models::{Component, ComponentView};
use crate::text::{decimal_string, parse_u64, u64_to_decimal};
use crate::text_area::{field_text, joined_lines, new_textarea, set_field_text, textarea_lines, TextField};
use crate::viewpacket_editor::{field_loaded, fresh_field, id_of_text};

verus! {

/// The fields of the component editor that can have the focus, in the Tab
/// order.
#[derive(PartialEq, Eq, Structural, Clone, Copy, Debug)]
pub enum ComponentEditorField {
    Name,
    Purpose,
    Summary,
}

impl ComponentEditorField {
    /// The field after `self` in the Tab order, the first after the last.
    pub open spec fn next_spec(self) -> Self {
        match self {
            ComponentEditorField::Name => ComponentEditorField::Purpose,
            ComponentEditorField::Purpose => ComponentEditorField::Summary,
            ComponentEditorField::Summary => ComponentEditorField::Name,
        }
    }

    /// The field before `self` in the Tab order, the last before the first.
    pub open spec fn previous_spec(self) -> Self {
        match self {
            ComponentEditorField::Name => ComponentEditorField::Summary,
            ComponentEditorField::Purpose => ComponentEditorField::Name,
            ComponentEditorField::Summary => ComponentEditorField::Purpose,
        }
    }

    /// The name of the field.
    pub open spec fn name_spec(self) -> Seq<char> {
        match self {
            ComponentEditorField::Name => "Name"@,
            ComponentEditorField::Purpose => "Purpose"@,
            ComponentEditorField::Summary => "Summary"@,
        }
    }

    /// The next field (Tab).
    pub fn next(self) -> (r: Self)
        ensures
            r == self.next_spec(),
    {
        match self {
            ComponentEditorField::Name => ComponentEditorField::Purpose,
            ComponentEditorField::Purpose => ComponentEditorField::Summary,
            ComponentEditorField::Summary => ComponentEditorField::Name,
        }
    }

    /// The previous field (Shift+Tab).
    pub fn previous(self) -> (r: Self)
        ensures
            r == self.previous_spec(),
    {
        match self {
            ComponentEditorField::Name => ComponentEditorField::Summary,
            ComponentEditorField::Purpose => ComponentEditorField::Name,
            ComponentEditorField::Summary => ComponentEditorField::Purpose,
        }
    }

    /// The name of the field, as the status line shows it.
    pub fn name(self) -> (r: &'static str)
        ensures
            r@ == self.name_spec(),
    {
        match self {
            ComponentEditorField::Name => "Name",
            ComponentEditorField::Purpose => "Purpose",
            ComponentEditorField::Summary => "Summary",
        }
    }
}

/// Shift+Tab undoes Tab in the component editor, and Tab undoes Shift+Tab.
pub proof fn lemma_component_fields_inverse(f: ComponentEditorField)
    ensures
        f.next_spec().previous_spec() == f,
        f.previous_spec().next_spec() == f,
        f.next_spec().next_spec().next_spec() == f,
{
}

/// The data of the component editor.
pub struct ComponentTextAreas {
    pub id: String,
    pub name: TextField,
    pub purpose: TextField,
    pub summary: TextField,
    pub active_field: ComponentEditorField,
}

impl ComponentTextAreas {
    /// An empty editor with the focus on the name.
    pub fn new() -> (r: Self)
        ensures
            r.id@ == Seq::<char>::empty(),
            fresh_field(r.name),
            fresh_field(r.purpose),
            fresh_field(r.summary),
            r.active_field == ComponentEditorField::Name,
    {
        Self {
            id: String::new(),
            name: new_textarea(),
            purpose: new_textarea(),
            summary: new_textarea(),
            active_field: ComponentEditorField::Name,
        }
    }

    /// Moves the focus to the next field (Tab).
    pub fn next_field(&mut self)
        ensures
            *final(self) == (Self { active_field: old(self).active_field.next_spec(), ..*old(self) }),
    {
        self.active_field = self.active_field.next();
    }

    /// Moves the focus to the previous field (Shift+Tab).
    pub fn previous_field(&mut self)
        ensures
            *final(self) == (Self { active_field: old(self).active_field.previous_spec(), ..*old(self) }),
    {
        self.active_field = self.active_field.previous();
    }

    /// Loads a component into the editor: its id as a numeral, and its
    /// name, purpose and summary set into their fields; the focus stays.
    pub fn load_component(&mut self, component: &Component)
        ensures
            final(self).id@ == decimal_string(component.id as nat),
            field_loaded(old(self).name, final(self).name, component.name@),
            field_loaded(old(self).purpose, final(self).purpose, component.purpose@),
            field_loaded(old(self).summary, final(self).summary, component.summary@),
            final(self).active_field == old(self).active_field,
    {
        self.id = u64_to_decimal(component.id);
        set_field_text(&mut self.name, component.name.as_str());
        set_field_text(&mut self.purpose, component.purpose.as_str());
        set_field_text(&mut self.summary, component.summary.as_str());
    }

    /// The component that the editor holds: the id read back (0 where it is
    /// no number) and the fields joined from their lines; file and team 0.
    pub fn extract_component(&self) -> (r: Component)
        ensures
            r@ == (ComponentView {
                file_id: 0,
                id: id_of_text(self.id@),
                name: joined_lines(textarea_lines(self.name)),
                summary: joined_lines(textarea_lines(self.summary)),
                purpose: joined_lines(textarea_lines(self.purpose)),
                team_id: 0,
            }),
    {
        let id = match parse_u64(self.id.as_str()) {
            Some(n) => n,
            None => 0,
        };
        Component {
            file_id: 0,
            id,
            name: field_text(&self.name),
            summary: field_text(&self.summary),
            purpose: field_text(&self.purpose),
            team_id: 0,
        }
    }
}

} // verus!
