//! The records of a software architecture document, as the database stores
//! them, and their views.

use vstd::prelude::*;

verus! {

/// A record that can be copied with its view kept.
pub trait Record: View + Sized {
    fn duplicate(&self) -> (r: Self)
        ensures
            r@ == self@,
    ;
}

/// A behavior diagram attached to a view packet.
#[derive(Debug)]
pub struct Behavior {
    pub id: u64,
    pub sort_order: u64,
    pub view_packet_id: u64,
    pub description: String,
    pub diagram_key: String,
}

pub struct BehaviorView {
    pub id: u64,
    pub sort_order: u64,
    pub view_packet_id: u64,
    pub description: Seq<char>,
    pub diagram_key: Seq<char>,
}

impl View for Behavior {
    type V = BehaviorView;

    open spec fn view(&self) -> BehaviorView {
        BehaviorView {
            id: self.id,
            sort_order: self.sort_order,
            view_packet_id: self.view_packet_id,
            description: self.description@,
            diagram_key: self.diagram_key@,
        }
    }
}

impl Record for Behavior {
    fn duplicate(&self) -> (r: Self) {
        Behavior {
            id: self.id,
            sort_order: self.sort_order,
            view_packet_id: self.view_packet_id,
            description: self.description.clone(),
            diagram_key: self.diagram_key.clone(),
        }
    }
}

/// A component of the architecture.
#[derive(Debug)]
pub struct Component {
    pub file_id: u64,
    pub id: u64,
    pub name: String,
    pub summary: String,
    pub purpose: String,
    pub team_id: u64,
}

pub struct ComponentView {
    pub file_id: u64,
    pub id: u64,
    pub name: Seq<char>,
    pub summary: Seq<char>,
    pub purpose: Seq<char>,
    pub team_id: u64,
}

impl View for Component {
    type V = ComponentView;

    open spec fn view(&self) -> ComponentView {
        ComponentView {
            file_id: self.file_id,
            id: self.id,
            name: self.name@,
            summary: self.summary@,
            purpose: self.purpose@,
            team_id: self.team_id,
        }
    }
}

impl Record for Component {
    fn duplicate(&self) -> (r: Self) {
        Component {
            file_id: self.file_id,
            id: self.id,
            name: self.name.clone(),
            summary: self.summary.clone(),
            purpose: self.purpose.clone(),
            team_id: self.team_id,
        }
    }
}

impl Component {
    /// The two records hold the same values.
    pub fn same_as(&self, other: &Component) -> (r: bool)
        ensures
            r == (self@ == other@),
    {
        self.file_id == other.file_id && self.id == other.id && self.name == other.name
            && self.summary == other.summary && self.purpose == other.purpose && self.team_id
            == other.team_id
    }
}

/// A directed relation from component A to component B, grouped by `key`.
#[derive(Debug)]
pub struct ComponentRelation {
    pub id: u64,
    pub component_a_id: u64,
    pub component_b_id: u64,
    pub connection_type: String,
    pub key: String,
    pub property_of_relation: String,
    pub relation_text: String,
    pub relation_description: String,
    pub sort_order: u64,
    pub style: String,
}

pub struct ComponentRelationView {
    pub id: u64,
    pub component_a_id: u64,
    pub component_b_id: u64,
    pub connection_type: Seq<char>,
    pub key: Seq<char>,
    pub property_of_relation: Seq<char>,
    pub relation_text: Seq<char>,
    pub relation_description: Seq<char>,
    pub sort_order: u64,
    pub style: Seq<char>,
}

impl View for ComponentRelation {
    type V = ComponentRelationView;

    open spec fn view(&self) -> ComponentRelationView {
        ComponentRelationView {
            id: self.id,
            component_a_id: self.component_a_id,
            component_b_id: self.component_b_id,
            connection_type: self.connection_type@,
            key: self.key@,
            property_of_relation: self.property_of_relation@,
            relation_text: self.relation_text@,
            relation_description: self.relation_description@,
            sort_order: self.sort_order,
            style: self.style@,
        }
    }
}

impl Record for ComponentRelation {
    fn duplicate(&self) -> (r: Self) {
        ComponentRelation {
            id: self.id,
            component_a_id: self.component_a_id,
            component_b_id: self.component_b_id,
            connection_type: self.connection_type.clone(),
            key: self.key.clone(),
            property_of_relation: self.property_of_relation.clone(),
            relation_text: self.relation_text.clone(),
            relation_description: self.relation_description.clone(),
            sort_order: self.sort_order,
            style: self.style.clone(),
        }
    }
}

/// An entry of a view packet's context model.
#[derive(Debug)]
pub struct ContextModel {
    pub entity: String,
    pub entity_type: String,
    pub description: String,
    pub reference: String,
}

pub struct ContextModelView {
    pub entity: Seq<char>,
    pub entity_type: Seq<char>,
    pub description: Seq<char>,
    pub reference: Seq<char>,
}

impl View for ContextModel {
    type V = ContextModelView;

    open spec fn view(&self) -> ContextModelView {
        ContextModelView {
            entity: self.entity@,
            entity_type: self.entity_type@,
            description: self.description@,
            reference: self.reference@,
        }
    }
}

impl Record for ContextModel {
    fn duplicate(&self) -> (r: Self) {
        ContextModel {
            entity: self.entity.clone(),
            entity_type: self.entity_type.clone(),
            description: self.description.clone(),
            reference: self.reference.clone(),
        }
    }
}

/// The document that a file holds.
#[derive(Debug)]
pub struct Document {
    pub file_id: u64,
    pub filename: String,
    pub title: String,
    pub issue: String,
    pub summary: String,
}

pub struct DocumentView {
    pub file_id: u64,
    pub filename: Seq<char>,
    pub title: Seq<char>,
    pub issue: Seq<char>,
    pub summary: Seq<char>,
}

impl View for Document {
    type V = DocumentView;

    open spec fn view(&self) -> DocumentView {
        DocumentView {
            file_id: self.file_id,
            filename: self.filename@,
            title: self.title@,
            issue: self.issue@,
            summary: self.summary@,
        }
    }
}

impl Record for Document {
    fn duplicate(&self) -> (r: Self) {
        Document {
            file_id: self.file_id,
            filename: self.filename.clone(),
            title: self.title.clone(),
            issue: self.issue.clone(),
            summary: self.summary.clone(),
        }
    }
}

/// A file that a document includes.
#[derive(Debug)]
pub struct Include {
    pub file_id: u64,
    pub filename: String,
    pub url: String,
}

pub struct IncludeView {
    pub file_id: u64,
    pub filename: Seq<char>,
    pub url: Seq<char>,
}

impl View for Include {
    type V = IncludeView;

    open spec fn view(&self) -> IncludeView {
        IncludeView { file_id: self.file_id, filename: self.filename@, url: self.url@ }
    }
}

impl Record for Include {
    fn duplicate(&self) -> (r: Self) {
        Include { file_id: self.file_id, filename: self.filename.clone(), url: self.url.clone() }
    }
}

/// A team that components are assigned to.
#[derive(Debug)]
pub struct Team {
    pub id: u64,
    pub name: String,
    pub description: String,
}

pub struct TeamView {
    pub id: u64,
    pub name: Seq<char>,
    pub description: Seq<char>,
}

impl View for Team {
    type V = TeamView;

    open spec fn view(&self) -> TeamView {
        TeamView { id: self.id, name: self.name@, description: self.description@ }
    }
}

impl Record for Team {
    fn duplicate(&self) -> (r: Self) {
        Team { id: self.id, name: self.name.clone(), description: self.description.clone() }
    }
}

/// A member of a team and the member's role.
#[derive(Debug)]
pub struct TeamMember {
    pub team_id: u64,
    pub member_name: String,
    pub role: String,
}

pub struct TeamMemberView {
    pub team_id: u64,
    pub member_name: Seq<char>,
    pub role: Seq<char>,
}

impl View for TeamMember {
    type V = TeamMemberView;

    open spec fn view(&self) -> TeamMemberView {
        TeamMemberView { team_id: self.team_id, member_name: self.member_name@, role: self.role@ }
    }
}

/// A view packet: one aspect of one component (or of one team's assignment).
#[derive(Debug)]
pub struct ViewPacket {
    pub component_id: u64,
    pub context_model_key: String,
    pub primary_display_key: String,
    pub file_id: u64,
    pub introduction: String,
    pub sort_order: u64,
    pub team_id: u64,
    pub title: String,
    pub view_style: String,
    pub view_type: String,
    pub viewpacket_id: u64,
}

pub struct ViewPacketView {
    pub component_id: u64,
    pub context_model_key: Seq<char>,
    pub primary_display_key: Seq<char>,
    pub file_id: u64,
    pub introduction: Seq<char>,
    pub sort_order: u64,
    pub team_id: u64,
    pub title: Seq<char>,
    pub view_style: Seq<char>,
    pub view_type: Seq<char>,
    pub viewpacket_id: u64,
}

impl View for ViewPacket {
    type V = ViewPacketView;

    open spec fn view(&self) -> ViewPacketView {
        ViewPacketView {
            component_id: self.component_id,
            context_model_key: self.context_model_key@,
            primary_display_key: self.primary_display_key@,
            file_id: self.file_id,
            introduction: self.introduction@,
            sort_order: self.sort_order,
            team_id: self.team_id,
            title: self.title@,
            view_style: self.view_style@,
            view_type: self.view_type@,
            viewpacket_id: self.viewpacket_id,
        }
    }
}

impl Record for ViewPacket {
    fn duplicate(&self) -> (r: Self) {
        ViewPacket {
            component_id: self.component_id,
            context_model_key: self.context_model_key.clone(),
            primary_display_key: self.primary_display_key.clone(),
            file_id: self.file_id,
            introduction: self.introduction.clone(),
            sort_order: self.sort_order,
            team_id: self.team_id,
            title: self.title.clone(),
            view_style: self.view_style.clone(),
            view_type: self.view_type.clone(),
            viewpacket_id: self.viewpacket_id,
        }
    }
}


impl Record for String {
    fn duplicate(&self) -> (r: Self) {
        self.clone()
    }
}

/// A row of the context-model table: an entry and the key of the context
/// model that it belongs to.
#[derive(Debug)]
pub struct KeyedContextModel {
    pub key: String,
    pub model: ContextModel,
}

pub struct KeyedContextModelView {
    pub key: Seq<char>,
    pub model: ContextModelView,
}

impl View for KeyedContextModel {
    type V = KeyedContextModelView;

    open spec fn view(&self) -> KeyedContextModelView {
        KeyedContextModelView { key: self.key@, model: self.model@ }
    }
}

impl Record for KeyedContextModel {
    fn duplicate(&self) -> (r: Self) {
        KeyedContextModel { key: self.key.clone(), model: self.model.duplicate() }
    }
}

} // verus!
