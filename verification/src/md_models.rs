//! The records that the Markdown renderer reads from its own database: ids
//! and sort orders are 32-bit signed numbers there.

use vstd::prelude::*;
use crate::models::Record;

verus! {

/// A view packet.
#[derive(Debug)]
pub struct ViewPacket {
    pub component_id: i32,
    pub context_model_key: String,
    pub primary_display_key: String,
    pub introduction: String,
    pub sort_order: i32,
    pub title: String,
    pub view_style: String,
    pub view_type: String,
    pub viewpacket_id: i32,
}

pub struct ViewPacketView {
    pub component_id: i32,
    pub context_model_key: Seq<char>,
    pub primary_display_key: Seq<char>,
    pub introduction: Seq<char>,
    pub sort_order: i32,
    pub title: Seq<char>,
    pub view_style: Seq<char>,
    pub view_type: Seq<char>,
    pub viewpacket_id: i32,
}

impl View for ViewPacket {
    type V = ViewPacketView;

    open spec fn view(&self) -> ViewPacketView {
        ViewPacketView {
            component_id: self.component_id,
            context_model_key: self.context_model_key@,
            primary_display_key: self.primary_display_key@,
            introduction: self.introduction@,
            sort_order: self.sort_order,
            title: self.title@,
            view_style: self.view_style@,
            view_type: self.view_type@,
            viewpacket_id: self.viewpacket_id,
        }
    }
}

impl Record for ViewPacket {
    fn duplicate(&self) -> (r: Self) {
        ViewPacket {
            component_id: self.component_id,
            context_model_key: self.context_model_key.clone(),
            primary_display_key: self.primary_display_key.clone(),
            introduction: self.introduction.clone(),
            sort_order: self.sort_order,
            title: self.title.clone(),
            view_style: self.view_style.clone(),
            view_type: self.view_type.clone(),
            viewpacket_id: self.viewpacket_id,
        }
    }
}

/// A relation from component A to component B.
#[derive(Debug)]
pub struct ComponentRelation {
    pub id: i32,
    pub component_a_id: i32,
    pub component_b_id: i32,
    pub connection_type: String,
    pub key: String,
    pub property_of_relation: String,
    pub relation_text: String,
}

pub struct ComponentRelationView {
    pub id: i32,
    pub component_a_id: i32,
    pub component_b_id: i32,
    pub connection_type: Seq<char>,
    pub key: Seq<char>,
    pub property_of_relation: Seq<char>,
    pub relation_text: Seq<char>,
}

impl View for ComponentRelation {
    type V = ComponentRelationView;

    open spec fn view(&self) -> ComponentRelationView {
        ComponentRelationView {
            id: self.id,
            component_a_id: self.component_a_id,
            component_b_id: self.component_b_id,
            connection_type: self.connection_type@,
            key: self.key@,
            property_of_relation: self.property_of_relation@,
            relation_text: self.relation_text@,
        }
    }
}

/// A row of the relation table: a relation with its sort order and
/// description.
#[derive(Debug)]
pub struct RelationRow {
    pub id: i32,
    pub sort_order: i32,
    pub component_a_id: i32,
    pub component_b_id: i32,
    pub connection_type: String,
    pub key: String,
    pub property_of_relation: String,
    pub relation_text: String,
    pub relation_description: String,
}

pub struct RelationRowView {
    pub id: i32,
    pub sort_order: i32,
    pub component_a_id: i32,
    pub component_b_id: i32,
    pub connection_type: Seq<char>,
    pub key: Seq<char>,
    pub property_of_relation: Seq<char>,
    pub relation_text: Seq<char>,
    pub relation_description: Seq<char>,
}

impl View for RelationRow {
    type V = RelationRowView;

    open spec fn view(&self) -> RelationRowView {
        RelationRowView {
            id: self.id,
            sort_order: self.sort_order,
            component_a_id: self.component_a_id,
            component_b_id: self.component_b_id,
            connection_type: self.connection_type@,
            key: self.key@,
            property_of_relation: self.property_of_relation@,
            relation_text: self.relation_text@,
            relation_description: self.relation_description@,
        }
    }
}

impl Record for RelationRow {
    fn duplicate(&self) -> (r: Self) {
        RelationRow {
            id: self.id,
            sort_order: self.sort_order,
            component_a_id: self.component_a_id,
            component_b_id: self.component_b_id,
            connection_type: self.connection_type.clone(),
            key: self.key.clone(),
            property_of_relation: self.property_of_relation.clone(),
            relation_text: self.relation_text.clone(),
            relation_description: self.relation_description.clone(),
        }
    }
}

/// The relation that a row holds.
pub open spec fn relation_of_row(r: RelationRowView) -> ComponentRelationView {
    ComponentRelationView {
        id: r.id,
        component_a_id: r.component_a_id,
        component_b_id: r.component_b_id,
        connection_type: r.connection_type,
        key: r.key,
        property_of_relation: r.property_of_relation,
        relation_text: r.relation_text,
    }
}

impl RelationRow {
    /// The relation that the row holds.
    pub fn to_relation(&self) -> (r: ComponentRelation)
        ensures
            r@ == relation_of_row(self@),
    {
        ComponentRelation {
            id: self.id,
            component_a_id: self.component_a_id,
            component_b_id: self.component_b_id,
            connection_type: self.connection_type.clone(),
            key: self.key.clone(),
            property_of_relation: self.property_of_relation.clone(),
            relation_text: self.relation_text.clone(),
        }
    }
}

/// A component.
#[derive(Debug)]
pub struct Component {
    pub id: i32,
    pub name: String,
    pub summary: String,
}

pub struct ComponentView {
    pub id: i32,
    pub name: Seq<char>,
    pub summary: Seq<char>,
}

impl View for Component {
    type V = ComponentView;

    open spec fn view(&self) -> ComponentView {
        ComponentView { id: self.id, name: self.name@, summary: self.summary@ }
    }
}

impl Record for Component {
    fn duplicate(&self) -> (r: Self) {
        Component { id: self.id, name: self.name.clone(), summary: self.summary.clone() }
    }
}

/// A behavior (a sequence diagram) of a view packet.
#[derive(Debug)]
pub struct Behavior {
    pub id: i32,
    pub sort_order: i32,
    pub view_packet_id: i32,
    pub description: String,
    pub diagram_key: String,
}

pub struct BehaviorView {
    pub id: i32,
    pub sort_order: i32,
    pub view_packet_id: i32,
    pub description: Seq<char>,
    pub diagram_key: Seq<char>,
}

impl View for Behavior {
    type V = BehaviorView;

    open spec fn view(&self) -> BehaviorView {
        BehaviorView {
            id: self.id,
            sort_order: self.sort_order,
            view_packet_id: self.view_packet_id,
            description: self.description@,
            diagram_key: self.diagram_key@,
        }
    }
}

impl Record for Behavior {
    fn duplicate(&self) -> (r: Self) {
        Behavior {
            id: self.id,
            sort_order: self.sort_order,
            view_packet_id: self.view_packet_id,
            description: self.description.clone(),
            diagram_key: self.diagram_key.clone(),
        }
    }
}

} // verus!
