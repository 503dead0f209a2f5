//! The fields of the view packet editor and the order in which Tab and
//! Shift+Tab visit them.

use vstd::prelude::*;
use crate::models::{ViewPacket, ViewPacketView};
use crate::text::{decimal_string, lemma_parse_decimal_string, parse_u64, parse_u64_spec, u64_to_decimal};
use crate::text_area::{
    field_text, joined_lines, lemma_fresh_field_roundtrip, new_textarea, set_field_text, text_set, textarea_cursor,
    textarea_lines, textarea_plain, textarea_selecting, TextField,
};

verus! {

/// The view types that the editor offers.
#[derive(PartialEq, Eq, Structural, Clone, Copy, Debug)]
pub enum ViewType {
    Module,
    ViewPacketsAndConnectors,
    Allocation,
}

impl ViewType {
    /// Every view type, in the order the editor lists them.
    pub fn all() -> (r: Vec<ViewType>)
        ensures
            r@ == seq![ViewType::Module, ViewType::ViewPacketsAndConnectors, ViewType::Allocation],
    {
        vec![ViewType::Module, ViewType::ViewPacketsAndConnectors, ViewType::Allocation]
    }

    /// The name of the view type.
    pub open spec fn name_of(self) -> Seq<char> {
        match self {
            ViewType::Module => "Module"@,
            ViewType::ViewPacketsAndConnectors => "ViewPacketsAndConnectors"@,
            ViewType::Allocation => "Allocation"@,
        }
    }

    /// The name of the view type.
    pub fn as_str(&self) -> (r: &'static str)
        ensures
            r@ == self.name_of(),
    {
        match self {
            ViewType::Module => "Module",
            ViewType::ViewPacketsAndConnectors => "ViewPacketsAndConnectors",
            ViewType::Allocation => "Allocation",
        }
    }
}

/// The fields of the view packet editor that can have the focus.
#[derive(PartialEq, Eq, Structural, Clone, Copy, Debug)]
pub enum ViewPacketEditorFocusField {
    Title,
    Introduction,
    ViewTypeDropdown,
    ViewStyleDropdown,
    SortOrder,
    PrimaryDisplayKey,
    ContextModelKey,
}

/// The position of each field in the Tab order.
pub open spec fn focus_position(f: ViewPacketEditorFocusField) -> int {
    match f {
        ViewPacketEditorFocusField::Title => 0,
        ViewPacketEditorFocusField::Introduction => 1,
        ViewPacketEditorFocusField::ViewTypeDropdown => 2,
        ViewPacketEditorFocusField::ViewStyleDropdown => 3,
        ViewPacketEditorFocusField::SortOrder => 4,
        ViewPacketEditorFocusField::PrimaryDisplayKey => 5,
        ViewPacketEditorFocusField::ContextModelKey => 6,
    }
}

/// The number of fields in the Tab order.
pub open spec fn focus_field_count() -> int {
    7
}

/// `f` moved `n` fields forward in the Tab order.
pub open spec fn advance(f: ViewPacketEditorFocusField, n: nat) -> ViewPacketEditorFocusField
    decreases n,
{
    if n == 0 {
        f
    } else {
        advance(f.next_spec(), (n - 1) as nat)
    }
}

impl ViewPacketEditorFocusField {
    /// The field after `self` in the Tab order, the first after the last.
    pub open spec fn next_spec(self) -> Self {
        match self {
            ViewPacketEditorFocusField::Title => ViewPacketEditorFocusField::Introduction,
            ViewPacketEditorFocusField::Introduction => ViewPacketEditorFocusField::ViewTypeDropdown,
            ViewPacketEditorFocusField::ViewTypeDropdown => ViewPacketEditorFocusField::ViewStyleDropdown,
            ViewPacketEditorFocusField::ViewStyleDropdown => ViewPacketEditorFocusField::SortOrder,
            ViewPacketEditorFocusField::SortOrder => ViewPacketEditorFocusField::PrimaryDisplayKey,
            ViewPacketEditorFocusField::PrimaryDisplayKey => ViewPacketEditorFocusField::ContextModelKey,
            ViewPacketEditorFocusField::ContextModelKey => ViewPacketEditorFocusField::Title,
        }
    }

    /// The field before `self` in the Tab order, the last before the first.
    pub open spec fn previous_spec(self) -> Self {
        match self {
            ViewPacketEditorFocusField::Title => ViewPacketEditorFocusField::ContextModelKey,
            ViewPacketEditorFocusField::ContextModelKey => ViewPacketEditorFocusField::PrimaryDisplayKey,
            ViewPacketEditorFocusField::PrimaryDisplayKey => ViewPacketEditorFocusField::SortOrder,
            ViewPacketEditorFocusField::SortOrder => ViewPacketEditorFocusField::ViewStyleDropdown,
            ViewPacketEditorFocusField::ViewStyleDropdown => ViewPacketEditorFocusField::ViewTypeDropdown,
            ViewPacketEditorFocusField::ViewTypeDropdown => ViewPacketEditorFocusField::Introduction,
            ViewPacketEditorFocusField::Introduction => ViewPacketEditorFocusField::Title,
        }
    }

    /// The label of the field.
    pub open spec fn label_spec(self) -> Seq<char> {
        match self {
            ViewPacketEditorFocusField::Title => "Title:"@,
            ViewPacketEditorFocusField::Introduction => "Introduction:"@,
            ViewPacketEditorFocusField::ViewTypeDropdown => "View Type:"@,
            ViewPacketEditorFocusField::ViewStyleDropdown => "View Style:"@,
            ViewPacketEditorFocusField::SortOrder => "Sort Order:"@,
            ViewPacketEditorFocusField::PrimaryDisplayKey => "Primary Display Key:"@,
            ViewPacketEditorFocusField::ContextModelKey => "Context Model Key:"@,
        }
    }

    /// The next field in the Tab order (Tab): the one at the following
    /// position, and the first after the last.
    pub fn next(self) -> (r: Self)
        ensures
            r == self.next_spec(),
            focus_position(r) == (focus_position(self) + 1) % focus_field_count(),
    {
        match self {
            ViewPacketEditorFocusField::Title => ViewPacketEditorFocusField::Introduction,
            ViewPacketEditorFocusField::Introduction => ViewPacketEditorFocusField::ViewTypeDropdown,
            ViewPacketEditorFocusField::ViewTypeDropdown => ViewPacketEditorFocusField::ViewStyleDropdown,
            ViewPacketEditorFocusField::ViewStyleDropdown => ViewPacketEditorFocusField::SortOrder,
            ViewPacketEditorFocusField::SortOrder => ViewPacketEditorFocusField::PrimaryDisplayKey,
            ViewPacketEditorFocusField::PrimaryDisplayKey => ViewPacketEditorFocusField::ContextModelKey,
            ViewPacketEditorFocusField::ContextModelKey => ViewPacketEditorFocusField::Title,
        }
    }

    /// The previous field in the Tab order (Shift+Tab): the one at the
    /// preceding position, and the last before the first.
    pub fn previous(self) -> (r: Self)
        ensures
            r == self.previous_spec(),
            focus_position(r) == (focus_position(self) + focus_field_count() - 1) % focus_field_count(),
    {
        match self {
            ViewPacketEditorFocusField::Title => ViewPacketEditorFocusField::ContextModelKey,
            ViewPacketEditorFocusField::ContextModelKey => ViewPacketEditorFocusField::PrimaryDisplayKey,
            ViewPacketEditorFocusField::PrimaryDisplayKey => ViewPacketEditorFocusField::SortOrder,
            ViewPacketEditorFocusField::SortOrder => ViewPacketEditorFocusField::ViewStyleDropdown,
            ViewPacketEditorFocusField::ViewStyleDropdown => ViewPacketEditorFocusField::ViewTypeDropdown,
            ViewPacketEditorFocusField::ViewTypeDropdown => ViewPacketEditorFocusField::Introduction,
            ViewPacketEditorFocusField::Introduction => ViewPacketEditorFocusField::Title,
        }
    }

    /// The label that the editor shows for the field.
    pub fn label(self) -> (r: &'static str)
        ensures
            r@ == self.label_spec(),
    {
        match self {
            ViewPacketEditorFocusField::Title => "Title:",
            ViewPacketEditorFocusField::Introduction => "Introduction:",
            ViewPacketEditorFocusField::ViewTypeDropdown => "View Type:",
            ViewPacketEditorFocusField::ViewStyleDropdown => "View Style:",
            ViewPacketEditorFocusField::SortOrder => "Sort Order:",
            ViewPacketEditorFocusField::PrimaryDisplayKey => "Primary Display Key:",
            ViewPacketEditorFocusField::ContextModelKey => "Context Model Key:",
        }
    }
}

/// Shift+Tab undoes Tab, and Tab undoes Shift+Tab.
pub proof fn lemma_next_previous_inverse(f: ViewPacketEditorFocusField)
    ensures
        f.next_spec().previous_spec() == f,
        f.previous_spec().next_spec() == f,
{
}

/// Tab pressed as often as there are fields comes back to the field it
/// started from, and no smaller positive number of presses does.
pub proof fn lemma_tab_cycle(f: ViewPacketEditorFocusField)
    ensures
        advance(f, focus_field_count() as nat) == f,
        forall|n: nat| 0 < n < focus_field_count() ==> #[trigger] advance(f, n) != f,
{
    reveal_with_fuel(advance, 8);
    assert forall|n: nat| 0 < n < focus_field_count() implies #[trigger] advance(f, n) != f by {
        lemma_advance_position(f, n);
    }
}

/// Moving `n` fields forward moves the position by `n`, around the cycle.
pub proof fn lemma_advance_position(f: ViewPacketEditorFocusField, n: nat)
    ensures
        focus_position(advance(f, n)) == (focus_position(f) + n) % focus_field_count(),
    decreases n,
{
    if n > 0 {
        lemma_advance_position(f.next_spec(), (n - 1) as nat);
    }
}

/// Every label is distinct: no two fields show the same label.
pub proof fn lemma_labels_distinct(a: ViewPacketEditorFocusField, b: ViewPacketEditorFocusField)
    requires
        a != b,
    ensures
        a.label_spec() != b.label_spec(),
{
    reveal_strlit("Title:");
    reveal_strlit("Introduction:");
    reveal_strlit("View Type:");
    reveal_strlit("View Style:");
    reveal_strlit("Sort Order:");
    reveal_strlit("Primary Display Key:");
    reveal_strlit("Context Model Key:");
    assert(a.label_spec().len() != b.label_spec().len() || a.label_spec()[0] != b.label_spec()[0]
        || a.label_spec()[5] != b.label_spec()[5]);
}

} // verus!

verus! {

/// The data of the view packet editor: the read-only id and keys, the title
/// and introduction being edited, the view type, and the field that has
/// the focus.
pub struct ViewPacketEditorFieldData {
    pub viewpacket_id: String,
    pub title: TextField,
    pub introduction: TextField,
    pub primary_display_key: String,
    pub context_model_key: String,
    pub view_type: ViewType,
    pub view_type_selected: usize,
    pub view_type_dropdown_open: bool,
    pub field_in_focus: ViewPacketEditorFocusField,
}

/// A field that holds one empty line, with the cursor at its head and no
/// selection being made.
pub open spec fn fresh_field(t: TextField) -> bool {
    &&& textarea_lines(t) == seq![Seq::<char>::empty()]
    &&& textarea_cursor(t) == (0nat, 0nat)
    &&& !textarea_selecting(t)
}

/// The field `t` now holds what setting the text `s` into `before` gives,
/// where no selection was being made in `before`.
pub open spec fn field_loaded(before: TextField, t: TextField, s: Seq<char>) -> bool {
    textarea_plain(before) ==> (textarea_lines(t), textarea_cursor(t)) == text_set(
        textarea_lines(before),
        textarea_cursor(before),
        s,
    ) && !textarea_selecting(t)
}

/// The number that a view packet id field holds: 0 where it is no number.
pub open spec fn id_of_text(s: Seq<char>) -> u64 {
    match parse_u64_spec(s) {
        Some(n) => n,
        None => 0,
    }
}

/// The text field of the editor `d` for the field `f`: the title's and the
/// introduction's; the other fields are no text fields.
pub open spec fn textarea_field_of(d: ViewPacketEditorFieldData, f: ViewPacketEditorFocusField) -> Option<TextField> {
    match f {
        ViewPacketEditorFocusField::Title => Some(d.title),
        ViewPacketEditorFocusField::Introduction => Some(d.introduction),
        _ => None,
    }
}

impl ViewPacketEditorFieldData {
    /// An empty editor: empty fields, the module view type, the focus on
    /// the title.
    pub fn new() -> (r: Self)
        ensures
            r.viewpacket_id@ == Seq::<char>::empty(),
            fresh_field(r.title),
            fresh_field(r.introduction),
            r.primary_display_key@ == Seq::<char>::empty(),
            r.context_model_key@ == Seq::<char>::empty(),
            r.view_type == ViewType::Module,
            r.view_type_selected == 0,
            !r.view_type_dropdown_open,
            r.field_in_focus == ViewPacketEditorFocusField::Title,
    {
        Self {
            title: new_textarea(),
            introduction: new_textarea(),
            viewpacket_id: String::new(),
            primary_display_key: String::new(),
            context_model_key: String::new(),
            view_type: ViewType::Module,
            view_type_selected: 0,
            view_type_dropdown_open: false,
            field_in_focus: ViewPacketEditorFocusField::Title,
        }
    }

    /// The text field of the form for `field`: the title or the
    /// introduction; `None` for the other fields, which are no text fields.
    pub fn get_textarea_field(&mut self, field: ViewPacketEditorFocusField) -> (r: Option<&mut TextField>)
        ensures
            r matches Some(t) ==> textarea_field_of(*old(self), field) == Some(*t),
            r is None <==> textarea_field_of(*old(self), field) is None,
            field == ViewPacketEditorFocusField::Title ==> (r matches Some(t) && *t == old(self).title
                && *final(self) == (Self { title: *final(t), ..*old(self) })),
            field == ViewPacketEditorFocusField::Introduction ==> (r matches Some(t) && *t == old(self).introduction
                && *final(self) == (Self { introduction: *final(t), ..*old(self) })),
            field != ViewPacketEditorFocusField::Title && field != ViewPacketEditorFocusField::Introduction ==> r is None
                && *final(self) == *old(self),
    {
        match field {
            ViewPacketEditorFocusField::Title => Some(&mut self.title),
            ViewPacketEditorFocusField::Introduction => Some(&mut self.introduction),
            _ => None,
        }
    }

    /// The text field that has the focus; `None` when the focus is on a
    /// field that is no text field.
    pub fn get_field_in_focus(&mut self) -> (r: Option<&mut TextField>)
        ensures
            r matches Some(t) ==> textarea_field_of(*old(self), old(self).field_in_focus) == Some(*t),
            r is None <==> textarea_field_of(*old(self), old(self).field_in_focus) is None,
            old(self).field_in_focus == ViewPacketEditorFocusField::Title ==> (r matches Some(t) && *t == old(
                self,
            ).title && *final(self) == (Self { title: *final(t), ..*old(self) })),
            old(self).field_in_focus == ViewPacketEditorFocusField::Introduction ==> (r matches Some(t) && *t == old(
                self,
            ).introduction && *final(self) == (Self { introduction: *final(t), ..*old(self) })),
            old(self).field_in_focus != ViewPacketEditorFocusField::Title && old(self).field_in_focus
                != ViewPacketEditorFocusField::Introduction ==> r is None && *final(self) == *old(self),
    {
        let field = self.field_in_focus;
        self.get_textarea_field(field)
    }

    /// The field that has the focus.
    pub fn field_in_focus(&self) -> (r: ViewPacketEditorFocusField)
        ensures
            r == self.field_in_focus,
    {
        self.field_in_focus
    }

    /// Moves the focus to the next field (Tab).
    pub fn next_field(&mut self)
        ensures
            *final(self) == (Self { field_in_focus: old(self).field_in_focus.next_spec(), ..*old(self) }),
    {
        self.field_in_focus = self.field_in_focus.next();
    }

    /// Moves the focus to the previous field (Shift+Tab).
    pub fn previous_field(&mut self)
        ensures
            *final(self) == (Self { field_in_focus: old(self).field_in_focus.previous_spec(), ..*old(self) }),
    {
        self.field_in_focus = self.field_in_focus.previous();
    }

    /// Moves the focus to `field`.
    pub fn set_field(&mut self, field: ViewPacketEditorFocusField)
        ensures
            *final(self) == (Self { field_in_focus: field, ..*old(self) }),
    {
        self.field_in_focus = field;
    }

    /// Loads a view packet into the editor: its id as a numeral, its title
    /// and introduction set into their fields (from the head of the
    /// cursor's line), and its keys; the view type and the focus stay.
    pub fn load_viewpacket(&mut self, viewpacket: &ViewPacket)
        ensures
            final(self).viewpacket_id@ == decimal_string(viewpacket.viewpacket_id as nat),
            field_loaded(old(self).title, final(self).title, viewpacket.title@),
            field_loaded(old(self).introduction, final(self).introduction, viewpacket.introduction@),
            final(self).primary_display_key@ == viewpacket.primary_display_key@,
            final(self).context_model_key@ == viewpacket.context_model_key@,
            final(self).view_type == old(self).view_type,
            final(self).view_type_selected == old(self).view_type_selected,
            final(self).view_type_dropdown_open == old(self).view_type_dropdown_open,
            final(self).field_in_focus == old(self).field_in_focus,
    {
        self.viewpacket_id = u64_to_decimal(viewpacket.viewpacket_id);
        set_field_text(&mut self.title, viewpacket.title.as_str());
        set_field_text(&mut self.introduction, viewpacket.introduction.as_str());
        self.primary_display_key = viewpacket.primary_display_key.clone();
        self.context_model_key = viewpacket.context_model_key.clone();
    }

    /// The view packet that the editor holds: the id read back (0 where it
    /// is no number), title and introduction joined from their lines, the
    /// keys and the view type; the rest 0, and a placeholder view style.
    pub fn extract_viewpacket(&self) -> (r: ViewPacket)
        ensures
            r@ == (ViewPacketView {
                viewpacket_id: id_of_text(self.viewpacket_id@),
                title: joined_lines(textarea_lines(self.title)),
                introduction: joined_lines(textarea_lines(self.introduction)),
                primary_display_key: self.primary_display_key@,
                context_model_key: self.context_model_key@,
                view_type: self.view_type.name_of(),
                sort_order: 0,
                component_id: 0,
                view_style: "TODO IMPLEMENT"@,
                file_id: 0,
                team_id: 0,
            }),
    {
        let viewpacket_id = match parse_u64(self.viewpacket_id.as_str()) {
            Some(n) => n,
            None => 0,
        };
        ViewPacket {
            viewpacket_id,
            title: field_text(&self.title),
            introduction: field_text(&self.introduction),
            primary_display_key: self.primary_display_key.clone(),
            context_model_key: self.context_model_key.clone(),
            view_type: String::from_str(self.view_type.as_str()),
            sort_order: 0,
            component_id: 0,
            view_style: String::from_str("TODO IMPLEMENT"),
            file_id: 0,
            team_id: 0,
        }
    }
}

/// Loading a view packet into a fresh editor and reading it back gives the
/// view packet's id, title, introduction and keys, when its title and
/// introduction hold no carriage return.
pub proof fn lemma_load_extract_roundtrip(
    before: ViewPacketEditorFieldData,
    after: ViewPacketEditorFieldData,
    v: ViewPacketView,
)
    requires
        fresh_field(before.title),
        fresh_field(before.introduction),
        !v.title.contains('\r'),
        !v.introduction.contains('\r'),
        after.viewpacket_id@ == decimal_string(v.viewpacket_id as nat),
        field_loaded(before.title, after.title, v.title),
        field_loaded(before.introduction, after.introduction, v.introduction),
        after.primary_display_key@ == v.primary_display_key,
        after.context_model_key@ == v.context_model_key,
    ensures
        id_of_text(after.viewpacket_id@) == v.viewpacket_id,
        joined_lines(textarea_lines(after.title)) == v.title,
        joined_lines(textarea_lines(after.introduction)) == v.introduction,
        after.primary_display_key@ == v.primary_display_key,
        after.context_model_key@ == v.context_model_key,
{
    lemma_parse_decimal_string(v.viewpacket_id);
    lemma_fresh_field_roundtrip(v.title);
    lemma_fresh_field_roundtrip(v.introduction);
}

} // verus!
