//! Rendering the software architecture document as Markdown with Mermaid
//! diagrams, from the renderer's tables.
//!
//! The diagrams follow the relations from component to component. A
//! relation graph with a cycle would be followed without end; here the depth
//! is bounded by the number of relations (`md_fuel`), which no path of an
//! acyclic relation graph exceeds.

use vstd::prelude::*;
use crate::md_models::{
    Behavior, BehaviorView, Component, ComponentRelation, ComponentRelationView, ComponentView,
    RelationRow, RelationRowView, ViewPacket, ViewPacketView,
};
use crate::md_retrieval::{
    behaviors_in, behaviors_of, component_in, find_component, related_by_id_and_key, related_by_key,
    relations_from_in, relations_with_key_in, viewpackets_in, viewpackets_related,
};
use crate::md_text::{make_mermaid_linkable_text, mermaid_link};
use crate::order::views;

verus! {

/// The renderer's four tables, in memory.
pub struct MdTables {
    pub viewpackets: Vec<ViewPacket>,
    pub components: Vec<Component>,
    pub relations: Vec<RelationRow>,
    pub behaviors: Vec<Behavior>,
}

pub struct MdTablesView {
    pub viewpackets: Seq<ViewPacketView>,
    pub components: Seq<ComponentView>,
    pub relations: Seq<RelationRowView>,
    pub behaviors: Seq<BehaviorView>,
}

impl View for MdTables {
    type V = MdTablesView;

    open spec fn view(&self) -> MdTablesView {
        MdTablesView {
            viewpackets: views(self.viewpackets@),
            components: views(self.components@),
            relations: views(self.relations@),
            behaviors: views(self.behaviors@),
        }
    }
}

/// The component with the given id.
pub open spec fn comp(t: MdTablesView, id: i32) -> Option<ComponentView> {
    find_component(t.components, id)
}

/// The relations from `id` with the key `key`, ordered by id.
pub open spec fn rels_from(t: MdTablesView, id: i32, key: Seq<char>) -> Seq<ComponentRelationView> {
    related_by_id_and_key(t.relations, id, key)
}

/// How deep the diagrams follow relations: the number of relations.
pub open spec fn md_fuel(t: MdTablesView) -> nat {
    if t.relations.len() < usize::MAX - 2 {
        t.relations.len()
    } else {
        (usize::MAX - 2) as nat
    }
}

fn fuel_of(t: &MdTables) -> (f: usize)
    ensures
        f == md_fuel(t@),
        f <= usize::MAX - 2,
{
    if t.relations.len() < usize::MAX - 2 {
        t.relations.len()
    } else {
        usize::MAX - 2
    }
}

fn push_str(out: &mut String, s: &str)
    ensures
        final(out)@ == old(out)@ + s@,
{
    out.append(s);
}

// ------------------------------------------------------- primary display

/// A line of the primary presentation: `a` connected to `b`.
pub open spec fn primary_line(a: Seq<char>, b: Seq<char>) -> Seq<char> {
    "    "@ + mermaid_link(a) + "["@ + a + "]---"@ + mermaid_link(b) + "["@ + b + "]\n"@
}

/// The primary presentation's lines for the relations `rels` from the
/// component named `a`, each followed by those of its end component.
pub open spec fn primary_from(
    t: MdTablesView,
    a: Seq<char>,
    key: Seq<char>,
    fuel: nat,
    rels: Seq<ComponentRelationView>,
) -> Seq<char>
    decreases fuel, rels.len(),
{
    if rels.len() == 0 {
        Seq::empty()
    } else {
        let r = rels.last();
        primary_from(t, a, key, fuel, rels.drop_last()) + match comp(t, r.component_b_id) {
            None => Seq::empty(),
            Some(b) => primary_line(a, b.name) + if fuel == 0 {
                Seq::empty()
            } else {
                primary_from(t, b.name, key, (fuel - 1) as nat, rels_from(t, r.component_b_id, key))
            },
        }
    }
}

/// The primary presentation of the component `id` (nothing when there is no
/// such component).
pub open spec fn primary_graph(t: MdTablesView, id: i32, key: Seq<char>) -> Seq<char> {
    match comp(t, id) {
        None => Seq::empty(),
        Some(a) => primary_from(t, a.name, key, md_fuel(t), rels_from(t, id, key)),
    }
}

fn primary_items(
    t: &MdTables,
    a_name: &str,
    key: &str,
    fuel: usize,
    rels: &Vec<ComponentRelation>,
    out: &mut String,
)
    ensures
        final(out)@ == old(out)@ + primary_from(t@, a_name@, key@, fuel as nat, views(rels@)),
    decreases fuel,
{
    let ghost start = out@;
    let mut i: usize = 0;
    assert(views(rels@).take(0) =~= Seq::<ComponentRelationView>::empty());
    assert(start + Seq::<char>::empty() =~= start);
    while i < rels.len()
        invariant
            i <= rels.len(),
            out@ == start + primary_from(t@, a_name@, key@, fuel as nat, views(rels@).take(i as int)),
        decreases rels.len() - i,
    {
        let r = &rels[i];
        assert(views(rels@).take(i + 1).drop_last() =~= views(rels@).take(i as int));
        assert(views(rels@).take(i + 1).last() == r@);
        let ghost mid = out@;
        match component_in(&t.components, r.component_b_id) {
            Some(b) => {
                let la = make_mermaid_linkable_text(a_name.to_owned());
                let lb = make_mermaid_linkable_text(b.name.clone());
                push_str(out, "    ");
                push_str(out, la.as_str());
                push_str(out, "[");
                push_str(out, a_name);
                push_str(out, "]---");
                push_str(out, lb.as_str());
                push_str(out, "[");
                push_str(out, b.name.as_str());
                push_str(out, "]\n");
                assert(out@ =~= mid + primary_line(a_name@, b@.name));
                let ghost after_line = out@;
                if fuel > 0 {
                    let sub = relations_from_in(&t.relations, r.component_b_id, key);
                    primary_items(t, b.name.as_str(), key, fuel - 1, &sub, out);
                    assert(out@ =~= mid + (primary_line(a_name@, b@.name) + primary_from(
                        t@,
                        b@.name,
                        key@,
                        (fuel - 1) as nat,
                        rels_from(t@, r.component_b_id, key@),
                    )));
                } else {
                    assert(out@ =~= mid + (primary_line(a_name@, b@.name) + Seq::<char>::empty()));
                }
            },
            None => {
                assert(out@ =~= mid + Seq::<char>::empty());
            },
        }
        i = i + 1;
    }
    assert(views(rels@).take(rels.len() as int) =~= views(rels@));
}

/// Renders the primary presentation of the component `component_id` into
/// `markdown`: for each relation with the key from the component, in id
/// order, a line `a[a]---b[b]`, followed by the lines of `b`.
pub fn render_graphical_primary_display(
    markdown: &mut String,
    t: &MdTables,
    component_id: i32,
    primary_display_key: &str,
)
    ensures
        final(markdown)@ == old(markdown)@ + primary_graph(t@, component_id, primary_display_key@),
{
    match component_in(&t.components, component_id) {
        Some(a) => {
            let rels = relations_from_in(&t.relations, component_id, primary_display_key);
            primary_items(t, a.name.as_str(), primary_display_key, fuel_of(t), &rels, markdown);
        },
        None => {
            assert(old(markdown)@ + Seq::<char>::empty() =~= old(markdown)@);
        },
    }
}

// -------------------------------------------------------- context diagram

/// A line of the context diagram: `b` pointing at `a`.
pub open spec fn context_line(a: Seq<char>, b: Seq<char>) -> Seq<char> {
    "    "@ + mermaid_link(b) + "["@ + b + "]-->"@ + mermaid_link(a) + "(("@ + a + "))\n"@
}

/// The context diagram's lines for the relations `rels` from the component
/// named `a`, each followed by those of its end component.
pub open spec fn context_from(
    t: MdTablesView,
    a: Seq<char>,
    key: Seq<char>,
    fuel: nat,
    rels: Seq<ComponentRelationView>,
) -> Seq<char>
    decreases fuel, rels.len(),
{
    if rels.len() == 0 {
        Seq::empty()
    } else {
        let r = rels.last();
        context_from(t, a, key, fuel, rels.drop_last()) + match comp(t, r.component_b_id) {
            None => Seq::empty(),
            Some(b) => context_line(a, b.name) + if fuel == 0 {
                Seq::empty()
            } else {
                context_from(t, b.name, key, (fuel - 1) as nat, rels_from(t, r.component_b_id, key))
            },
        }
    }
}

/// The context diagram of the component `id` (nothing when there is no such
/// component).
pub open spec fn context_graph(t: MdTablesView, id: i32, key: Seq<char>) -> Seq<char> {
    match comp(t, id) {
        None => Seq::empty(),
        Some(a) => context_from(t, a.name, key, md_fuel(t), rels_from(t, id, key)),
    }
}

fn context_items(
    t: &MdTables,
    a_name: &str,
    key: &str,
    fuel: usize,
    rels: &Vec<ComponentRelation>,
    out: &mut String,
)
    ensures
        final(out)@ == old(out)@ + context_from(t@, a_name@, key@, fuel as nat, views(rels@)),
    decreases fuel,
{
    let ghost start = out@;
    let mut i: usize = 0;
    assert(views(rels@).take(0) =~= Seq::<ComponentRelationView>::empty());
    assert(start + Seq::<char>::empty() =~= start);
    while i < rels.len()
        invariant
            i <= rels.len(),
            out@ == start + context_from(t@, a_name@, key@, fuel as nat, views(rels@).take(i as int)),
        decreases rels.len() - i,
    {
        let r = &rels[i];
        assert(views(rels@).take(i + 1).drop_last() =~= views(rels@).take(i as int));
        assert(views(rels@).take(i + 1).last() == r@);
        let ghost mid = out@;
        match component_in(&t.components, r.component_b_id) {
            Some(b) => {
                let la = make_mermaid_linkable_text(a_name.to_owned());
                let lb = make_mermaid_linkable_text(b.name.clone());
                push_str(out, "    ");
                push_str(out, lb.as_str());
                push_str(out, "[");
                push_str(out, b.name.as_str());
                push_str(out, "]-->");
                push_str(out, la.as_str());
                push_str(out, "((");
                push_str(out, a_name);
                push_str(out, "))\n");
                assert(out@ =~= mid + context_line(a_name@, b@.name));
                if fuel > 0 {
                    let sub = relations_from_in(&t.relations, r.component_b_id, key);
                    context_items(t, b.name.as_str(), key, fuel - 1, &sub, out);
                    assert(out@ =~= mid + (context_line(a_name@, b@.name) + context_from(
                        t@,
                        b@.name,
                        key@,
                        (fuel - 1) as nat,
                        rels_from(t@, r.component_b_id, key@),
                    )));
                } else {
                    assert(out@ =~= mid + (context_line(a_name@, b@.name) + Seq::<char>::empty()));
                }
            },
            None => {
                assert(out@ =~= mid + Seq::<char>::empty());
            },
        }
        i = i + 1;
    }
    assert(views(rels@).take(rels.len() as int) =~= views(rels@));
}

/// Renders the context diagram of the component `component_id` into
/// `markdown`: for each relation with the context key from the component,
/// in id order, a line `b[b]-->a((a))`, followed by the lines of `b`.
pub fn render_graphical_context_diagram(
    markdown: &mut String,
    t: &MdTables,
    component_id: i32,
    context_model_key: &str,
)
    ensures
        final(markdown)@ == old(markdown)@ + context_graph(t@, component_id, context_model_key@),
{
    match component_in(&t.components, component_id) {
        Some(a) => {
            let rels = relations_from_in(&t.relations, component_id, context_model_key);
            context_items(t, a.name.as_str(), context_model_key, fuel_of(t), &rels, markdown);
        },
        None => {
            assert(old(markdown)@ + Seq::<char>::empty() =~= old(markdown)@);
        },
    }
}

// -------------------------------------------------------- layered display

/// A block of the layered display.
pub open spec fn layer_line(name: Seq<char>) -> Seq<char> {
    "    "@ + mermaid_link(name) + "[\""@ + name + "\"]\n"@
}

/// The layered display's blocks for the relations `rels`, each followed by
/// the blocks of the layers below its end component.
pub open spec fn layered_from(t: MdTablesView, key: Seq<char>, fuel: nat, rels: Seq<ComponentRelationView>) -> Seq<char>
    decreases fuel, rels.len(),
{
    if rels.len() == 0 {
        Seq::empty()
    } else {
        let r = rels.last();
        layered_from(t, key, fuel, rels.drop_last()) + match comp(t, r.component_b_id) {
            None => Seq::empty(),
            Some(b) => layer_line(b.name) + if fuel == 0 {
                Seq::empty()
            } else {
                layered_from(t, key, (fuel - 1) as nat, rels_from(t, r.component_b_id, key))
            },
        }
    }
}

/// The layered display of the component `id`: its own block, then the
/// layers below it.
pub open spec fn layered_graph(t: MdTablesView, id: i32, key: Seq<char>) -> Seq<char> {
    match comp(t, id) {
        None => Seq::empty(),
        Some(a) => layer_line(a.name) + layered_from(t, key, md_fuel(t), rels_from(t, id, key)),
    }
}

fn layered_items(t: &MdTables, key: &str, fuel: usize, rels: &Vec<ComponentRelation>, out: &mut String)
    ensures
        final(out)@ == old(out)@ + layered_from(t@, key@, fuel as nat, views(rels@)),
    decreases fuel,
{
    let ghost start = out@;
    let mut i: usize = 0;
    assert(views(rels@).take(0) =~= Seq::<ComponentRelationView>::empty());
    assert(start + Seq::<char>::empty() =~= start);
    while i < rels.len()
        invariant
            i <= rels.len(),
            out@ == start + layered_from(t@, key@, fuel as nat, views(rels@).take(i as int)),
        decreases rels.len() - i,
    {
        let r = &rels[i];
        assert(views(rels@).take(i + 1).drop_last() =~= views(rels@).take(i as int));
        assert(views(rels@).take(i + 1).last() == r@);
        let ghost mid = out@;
        match component_in(&t.components, r.component_b_id) {
            Some(b) => {
                render_layer_line(out, b.name.as_str());
                if fuel > 0 {
                    let sub = relations_from_in(&t.relations, r.component_b_id, key);
                    layered_items(t, key, fuel - 1, &sub, out);
                    assert(out@ =~= mid + (layer_line(b@.name) + layered_from(
                        t@,
                        key@,
                        (fuel - 1) as nat,
                        rels_from(t@, r.component_b_id, key@),
                    )));
                } else {
                    assert(out@ =~= mid + (layer_line(b@.name) + Seq::<char>::empty()));
                }
            },
            None => {
                assert(out@ =~= mid + Seq::<char>::empty());
            },
        }
        i = i + 1;
    }
    assert(views(rels@).take(rels.len() as int) =~= views(rels@));
}

fn render_layer_line(out: &mut String, name: &str)
    ensures
        final(out)@ == old(out)@ + layer_line(name@),
{
    let l = make_mermaid_linkable_text(name.to_owned());
    push_str(out, "    ");
    push_str(out, l.as_str());
    push_str(out, "[\"");
    push_str(out, name);
    push_str(out, "\"]\n");
    assert(out@ =~= old(out)@ + layer_line(name@));
}

/// Renders the layered display of the component `component_id` into
/// `markdown`: on the first layer a block for the component itself, then
/// for each relation with the key from the component, in id order, a block
/// for its end component followed by the layers below that.
pub fn render_graphical_layered_display(
    markdown: &mut String,
    t: &MdTables,
    component_id: i32,
    primary_display_key: &str,
    first_layer: bool,
)
    requires
        first_layer ==> comp(t@, component_id) is Some,
    ensures
        final(markdown)@ == old(markdown)@ + (if first_layer {
            layered_graph(t@, component_id, primary_display_key@)
        } else {
            match comp(t@, component_id) {
                None => Seq::empty(),
                Some(_) => layered_from(t@, primary_display_key@, md_fuel(t@), rels_from(t@, component_id, primary_display_key@)),
            }
        }),
{
    match component_in(&t.components, component_id) {
        Some(a) => {
            if first_layer {
                render_layer_line(markdown, a.name.as_str());
            }
            let ghost mid = markdown@;
            let rels = relations_from_in(&t.relations, component_id, primary_display_key);
            layered_items(t, primary_display_key, fuel_of(t), &rels, markdown);
            if first_layer {
                assert(markdown@ =~= old(markdown)@ + layered_graph(t@, component_id, primary_display_key@));
            }
        },
        None => {
            assert(old(markdown)@ + Seq::<char>::empty() =~= old(markdown)@);
        },
    }
}

// -------------------------------------------------------- textual display

/// `n` spaces.
pub open spec fn spaces(n: nat) -> Seq<char> {
    Seq::new(n, |i: int| ' ')
}

/// A line of the textual presentation.
pub open spec fn text_line(indent: nat, b: ComponentView) -> Seq<char> {
    spaces(indent * 2) + "* "@ + b.name + ": "@ + b.summary + "\n"@
}

/// The textual presentation's lines for the relations `rels`, each followed
/// by those of its end component, indented one step further.
pub open spec fn textual_from(
    t: MdTablesView,
    key: Seq<char>,
    indent: nat,
    step: nat,
    fuel: nat,
    rels: Seq<ComponentRelationView>,
) -> Seq<char>
    decreases fuel, rels.len(),
{
    if rels.len() == 0 {
        Seq::empty()
    } else {
        let r = rels.last();
        textual_from(t, key, indent, step, fuel, rels.drop_last()) + match comp(t, r.component_b_id) {
            None => Seq::empty(),
            Some(b) => text_line(indent, b) + if fuel == 0 {
                Seq::empty()
            } else {
                textual_from(t, key, indent + step, step, (fuel - 1) as nat, rels_from(t, r.component_b_id, key))
            },
        }
    }
}

/// The textual presentation below the component `id`.
pub open spec fn textual_list(t: MdTablesView, id: i32, key: Seq<char>, indent: nat, step: nat) -> Seq<char> {
    match comp(t, id) {
        None => Seq::empty(),
        Some(_) => textual_from(t, key, indent, step, md_fuel(t), rels_from(t, id, key)),
    }
}

fn render_text_line(out: &mut String, indent: usize, b: &Component)
    ensures
        final(out)@ == old(out)@ + text_line(indent as nat, b@),
{
    let ghost start = out@;
    let mut k: usize = 0;
    proof {
        reveal_strlit("  ");
        assert(start + spaces(0) =~= start);
    }
    while k < indent
        invariant
            k <= indent,
            "  "@ =~= seq![' ', ' '],
            out@ == start + spaces((k * 2) as nat),
        decreases indent - k,
    {
        let ghost before = out@;
        push_str(out, "  ");
        assert(spaces(((k + 1) * 2) as nat) =~= spaces((k * 2) as nat) + seq![' ', ' ']);
        assert(out@ =~= start + spaces(((k + 1) * 2) as nat));
        k = k + 1;
    }
    push_str(out, "* ");
    push_str(out, b.name.as_str());
    push_str(out, ": ");
    push_str(out, b.summary.as_str());
    push_str(out, "\n");
    assert(out@ =~= start + text_line(indent as nat, b@));
}

fn textual_items(
    t: &MdTables,
    key: &str,
    indent: usize,
    step: usize,
    fuel: usize,
    rels: &Vec<ComponentRelation>,
    out: &mut String,
)
    requires
        step <= 1,
        indent + fuel < usize::MAX,
    ensures
        final(out)@ == old(out)@ + textual_from(t@, key@, indent as nat, step as nat, fuel as nat, views(rels@)),
    decreases fuel,
{
    let ghost start = out@;
    let mut i: usize = 0;
    assert(views(rels@).take(0) =~= Seq::<ComponentRelationView>::empty());
    assert(start + Seq::<char>::empty() =~= start);
    while i < rels.len()
        invariant
            i <= rels.len(),
            step <= 1,
            indent + fuel < usize::MAX,
            out@ == start + textual_from(t@, key@, indent as nat, step as nat, fuel as nat, views(rels@).take(i as int)),
        decreases rels.len() - i,
    {
        let r = &rels[i];
        assert(views(rels@).take(i + 1).drop_last() =~= views(rels@).take(i as int));
        assert(views(rels@).take(i + 1).last() == r@);
        let ghost mid = out@;
        match component_in(&t.components, r.component_b_id) {
            Some(b) => {
                render_text_line(out, indent, &b);
                if fuel > 0 {
                    let sub = relations_from_in(&t.relations, r.component_b_id, key);
                    textual_items(t, key, indent + step, step, fuel - 1, &sub, out);
                    assert(out@ =~= mid + (text_line(indent as nat, b@) + textual_from(
                        t@,
                        key@,
                        (indent + step) as nat,
                        step as nat,
                        (fuel - 1) as nat,
                        rels_from(t@, r.component_b_id, key@),
                    )));
                } else {
                    assert(out@ =~= mid + (text_line(indent as nat, b@) + Seq::<char>::empty()));
                }
            },
            None => {
                assert(out@ =~= mid + Seq::<char>::empty());
            },
        }
        i = i + 1;
    }
    assert(views(rels@).take(rels.len() as int) =~= views(rels@));
}

/// Renders the textual presentation below the component `component_id`
/// into `markdown`: for each relation with the key from the component, in
/// id order, a line `* name: summary` for its end component, indented by
/// `indent_level` steps of two spaces, followed by that component's lines
/// indented `indent_increment` steps further.
pub fn render_textual_primary_display(
    markdown: &mut String,
    t: &MdTables,
    component_id: i32,
    primary_display_key: &str,
    indent_level: usize,
    indent_increment: usize,
)
    requires
        indent_level <= 1,
        indent_increment <= 1,
    ensures
        final(markdown)@ == old(markdown)@ + textual_list(
            t@,
            component_id,
            primary_display_key@,
            indent_level as nat,
            indent_increment as nat,
        ),
{
    match component_in(&t.components, component_id) {
        Some(_) => {
            let rels = relations_from_in(&t.relations, component_id, primary_display_key);
            textual_items(t, primary_display_key, indent_level, indent_increment, fuel_of(t), &rels, markdown);
        },
        None => {
            assert(old(markdown)@ + Seq::<char>::empty() =~= old(markdown)@);
        },
    }
}


// ----------------------------------------------------------------- errors

/// Why the document cannot be rendered.
#[derive(Debug)]
pub enum RenderError {
    /// A relation of a behavior starts at a component that does not exist.
    MissingComponent(i32),
    /// A related view packet's view type or style has no section number.
    UnknownSection,
    /// The renderer's database could not be read.
    Db(crate::retrieval::DbError),
}

// -------------------------------------------------------------- diagrams

/// The opening of a Mermaid diagram of the given type.
pub open spec fn leadin(diagram_type: Seq<char>) -> Seq<char> {
    "```mermaid\n  "@ + diagram_type + "\n"@
}

/// The close of a Mermaid diagram.
pub open spec fn leadout() -> Seq<char> {
    "```\n\n"@
}

/// Opens a Mermaid diagram of the given type.
pub fn mermaid_leadin(markdown: &mut String, diagram_type: &str)
    ensures
        final(markdown)@ == old(markdown)@ + leadin(diagram_type@),
{
    push_str(markdown, "```mermaid\n  ");
    push_str(markdown, diagram_type);
    push_str(markdown, "\n");
    assert(markdown@ =~= old(markdown)@ + leadin(diagram_type@));
}

/// Closes a Mermaid diagram.
pub fn mermaid_leadout(markdown: &mut String)
    ensures
        final(markdown)@ == old(markdown)@ + leadout(),
{
    push_str(markdown, "```\n\n");
}

/// The document's title line.
pub open spec fn document_leadin() -> Seq<char> {
    "# Software Architecture Document\n\n"@
}

/// Starts the document with its title.
pub fn markdown_leadin(markdown: &mut String)
    ensures
        final(markdown)@ == old(markdown)@ + document_leadin(),
{
    push_str(markdown, "# Software Architecture Document\n\n");
}

// -------------------------------------------------------------- behaviors

/// A participant of a sequence diagram.
pub open spec fn participant_line(link: Seq<char>, name: Seq<char>) -> Seq<char> {
    "    participant "@ + link + " as "@ + name + "\n"@
}

/// The arrow of a message: dashed for a response (in any case), solid
/// otherwise.
pub open spec fn arrow(connection_type: Seq<char>) -> Seq<char> {
    if crate::md_text::unicode_lowercase(connection_type) == "response"@ {
        "-->>"@
    } else {
        "->>"@
    }
}

/// A message of a sequence diagram.
pub open spec fn message_line(from: Seq<char>, arrow: Seq<char>, to: Seq<char>, text: Seq<char>) -> Seq<char> {
    "    "@ + from + arrow + to + ": "@ + text + "\n"@
}

/// The lines that the relation `r` adds to a sequence diagram whose
/// participants so far are `seen`, and the participants after it; `None`
/// when it starts at a component that does not exist (a relation that ends
/// at one adds nothing).
pub open spec fn sequence_step(t: MdTablesView, r: ComponentRelationView, seen: Set<Seq<char>>) -> Option<
    (Seq<char>, Set<Seq<char>>),
> {
    match comp(t, r.component_b_id) {
        None => Some((Seq::empty(), seen)),
        Some(b) => match comp(t, r.component_a_id) {
            None => None,
            Some(a) => {
                let la = mermaid_link(a.name);
                let lb = mermaid_link(b.name);
                let text1 = if seen.contains(la) {
                    Seq::empty()
                } else {
                    participant_line(la, a.name)
                };
                let seen1 = seen.insert(la);
                let text2 = if seen1.contains(lb) {
                    text1
                } else {
                    text1 + participant_line(lb, b.name)
                };
                Some((text2 + message_line(la, arrow(r.connection_type), lb, r.relation_text), seen1.insert(lb)))
            },
        },
    }
}

/// What a relation adds to a sequence diagram whose participants so far are
/// `seen`: nothing when its component B does not exist; an error when its
/// component A does not; otherwise a participant line for A and then for B,
/// each the first time it takes part (its linkable name `as` its name),
/// then the message from A to B: `    A->>B: text`, with `-->>` for a
/// response (in any case). Both then count as participants.
pub proof fn lemma_message_from_a_to_b(t: MdTablesView, r: ComponentRelationView, seen: Set<Seq<char>>)
    ensures
        comp(t, r.component_b_id) is None ==> sequence_step(t, r, seen) == Some((Seq::<char>::empty(), seen)),
        comp(t, r.component_b_id) is Some && comp(t, r.component_a_id) is None ==> sequence_step(t, r, seen) is None,
        comp(t, r.component_a_id) is Some && comp(t, r.component_b_id) is Some ==> ({
            let a = comp(t, r.component_a_id)->0;
            let b = comp(t, r.component_b_id)->0;
            let la = mermaid_link(a.name);
            let lb = mermaid_link(b.name);
            let pa = if seen.contains(la) {
                Seq::<char>::empty()
            } else {
                "    participant "@ + la + " as "@ + a.name + "\n"@
            };
            let pb = if seen.contains(lb) || lb == la {
                Seq::<char>::empty()
            } else {
                "    participant "@ + lb + " as "@ + b.name + "\n"@
            };
            let arrow_text = if crate::md_text::unicode_lowercase(r.connection_type) == "response"@ {
                "-->>"@
            } else {
                "->>"@
            };
            sequence_step(t, r, seen) == Some(
                (
                    pa + pb + "    "@ + la + arrow_text + lb + ": "@ + r.relation_text + "\n"@,
                    seen.insert(la).insert(lb),
                ),
            )
        }),
{
    if comp(t, r.component_a_id) is Some && comp(t, r.component_b_id) is Some {
        let a = comp(t, r.component_a_id)->0;
        let b = comp(t, r.component_b_id)->0;
        let la = mermaid_link(a.name);
        let lb = mermaid_link(b.name);
        let q = sequence_step(t, r, seen)->0;
        let pa = if seen.contains(la) {
            Seq::<char>::empty()
        } else {
            "    participant "@ + la + " as "@ + a.name + "\n"@
        };
        let pb = if seen.contains(lb) || lb == la {
            Seq::<char>::empty()
        } else {
            "    participant "@ + lb + " as "@ + b.name + "\n"@
        };
        let m = "    "@ + la + arrow(r.connection_type) + lb + ": "@ + r.relation_text + "\n"@;
        assert(q.0 =~= pa + pb + m);
    }
}

/// The lines of a sequence diagram for the relations `rels`, and the node
/// names declared as participants; `None` when a relation starts at a
/// component that does not exist.
pub open spec fn sequence_from(t: MdTablesView, rels: Seq<ComponentRelationView>) -> Option<
    (Seq<char>, Set<Seq<char>>),
>
    decreases rels.len(),
{
    if rels.len() == 0 {
        Some((Seq::empty(), Set::empty()))
    } else {
        match sequence_from(t, rels.drop_last()) {
            None => None,
            Some(p) => match sequence_step(t, rels.last(), p.1) {
                None => None,
                Some(q) => Some((p.0 + q.0, q.1)),
            },
        }
    }
}

/// The sequence diagrams of the behaviors `bs`, one after the other.
pub open spec fn behaviors_from(t: MdTablesView, bs: Seq<BehaviorView>) -> Option<Seq<char>>
    decreases bs.len(),
{
    if bs.len() == 0 {
        Some(Seq::empty())
    } else {
        match behaviors_from(t, bs.drop_last()) {
            None => None,
            Some(text) => match sequence_from(t, related_by_key(t.relations, bs.last().diagram_key)) {
                None => None,
                Some(p) => Some(text + leadin("sequenceDiagram"@) + p.0 + leadout()),
            },
        }
    }
}

/// The sequence diagrams of the behaviors of the view packet `id`.
pub open spec fn behaviors_section(t: MdTablesView, id: i32) -> Option<Seq<char>> {
    behaviors_from(t, behaviors_of(t.behaviors, id))
}

fn contains_text(seen: &Vec<String>, s: &str) -> (r: bool)
    ensures
        r == views(seen@).contains(s@),
{
    let mut i: usize = 0;
    while i < seen.len()
        invariant
            i <= seen.len(),
            forall|j: int| 0 <= j < i ==> views(seen@)[j] != s@,
        decreases seen.len() - i,
    {
        if crate::text::str_equal(seen[i].as_str(), s) {
            assert(views(seen@)[i as int] == s@);
            return true;
        }
        i = i + 1;
    }
    false
}

fn declare_participant(seen: &mut Vec<String>, out: &mut String, link: &String, name: &str)
    ensures
        views(final(seen)@).to_set() == views(old(seen)@).to_set().insert(link@),
        final(out)@ == old(out)@ + (if views(old(seen)@).to_set().contains(link@) {
            Seq::<char>::empty()
        } else {
            participant_line(link@, name@)
        }),
{
    if !contains_text(seen, link.as_str()) {
        push_str(out, "    participant ");
        push_str(out, link.as_str());
        push_str(out, " as ");
        push_str(out, name);
        push_str(out, "\n");
        let ghost before = seen@;
        seen.push(link.clone());
        proof {
            crate::order::lemma_views_push(before, *link);
            crate::order::lemma_push_to_set(views(before), link@);
        }
        assert(out@ =~= old(out)@ + participant_line(link@, name@));
    } else {
        assert(views(seen@).to_set().contains(link@));
        assert(views(seen@).to_set().insert(link@) =~= views(seen@).to_set());
        assert(out@ =~= old(out)@ + Seq::<char>::empty());
    }
}

fn sequence_item(t: &MdTables, r: &ComponentRelation, seen: &mut Vec<String>, out: &mut String) -> (res: Result<
    (),
    RenderError,
>)
    ensures
        res is Ok ==> (sequence_step(t@, r@, views(old(seen)@).to_set()) matches Some(q) && final(out)@
            == old(out)@ + q.0 && views(final(seen)@).to_set() == q.1),
        res is Err ==> sequence_step(t@, r@, views(old(seen)@).to_set()) is None,
{
    match component_in(&t.components, r.component_b_id) {
        None => {
            assert(out@ =~= old(out)@ + Seq::<char>::empty());
            Ok(())
        },
        Some(b) => {
            let a = match component_in(&t.components, r.component_a_id) {
                Some(a) => a,
                None => {
                    return Err(RenderError::MissingComponent(r.component_a_id));
                },
            };
            let la = make_mermaid_linkable_text(a.name.clone());
            let lb = make_mermaid_linkable_text(b.name.clone());
            declare_participant(seen, out, &la, a.name.as_str());
            let ghost mid = out@;
            declare_participant(seen, out, &lb, b.name.as_str());
            let lowered = crate::md_text::to_lowercase(r.connection_type.as_str());
            let arrow_text = if crate::text::str_equal(lowered.as_str(), "response") {
                "-->>"
            } else {
                "->>"
            };
            let ghost before_message = out@;
            push_str(out, "    ");
            push_str(out, la.as_str());
            push_str(out, arrow_text);
            push_str(out, lb.as_str());
            push_str(out, ": ");
            push_str(out, r.relation_text.as_str());
            push_str(out, "\n");
            assert(out@ =~= before_message + message_line(la@, arrow(r@.connection_type), lb@, r@.relation_text));
            Ok(())
        },
    }
}

fn sequence_items(t: &MdTables, rels: &Vec<ComponentRelation>, out: &mut String) -> (r: Result<(), RenderError>)
    ensures
        r is Ok ==> (sequence_from(t@, views(rels@)) matches Some(p) && final(out)@ == old(out)@ + p.0),
        r is Err ==> sequence_from(t@, views(rels@)) is None,
{
    let ghost start = out@;
    let mut seen: Vec<String> = Vec::new();
    let mut i: usize = 0;
    assert(views(rels@).take(0) =~= Seq::<ComponentRelationView>::empty());
    assert(views(seen@).to_set() =~= Set::<Seq<char>>::empty());
    assert(start + Seq::<char>::empty() =~= start);
    while i < rels.len()
        invariant
            i <= rels.len(),
            sequence_from(t@, views(rels@).take(i as int)) matches Some(p) && out@ == start + p.0
                && views(seen@).to_set() == p.1,
        decreases rels.len() - i,
    {
        let r = &rels[i];
        assert(views(rels@).take(i + 1).drop_last() =~= views(rels@).take(i as int));
        assert(views(rels@).take(i + 1).last() == r@);
        let ghost p = sequence_from(t@, views(rels@).take(i as int))->0;
        match sequence_item(t, r, &mut seen, out) {
            Ok(()) => {},
            Err(e) => {
                assert(sequence_from(t@, views(rels@).take(i + 1)) is None);
                proof {
                    lemma_sequence_none_persists(t@, views(rels@), i as int + 1);
                }
                return Err(e);
            },
        }
        let ghost q = sequence_step(t@, r@, p.1)->0;
        assert(out@ =~= start + (p.0 + q.0));
        i = i + 1;
    }
    assert(views(rels@).take(rels.len() as int) =~= views(rels@));
    Ok(())
}

proof fn lemma_sequence_none_persists(t: MdTablesView, rels: Seq<ComponentRelationView>, n: int)
    requires
        0 <= n <= rels.len(),
        sequence_from(t, rels.take(n)) is None,
    ensures
        sequence_from(t, rels) is None,
    decreases rels.len() - n,
{
    if n < rels.len() {
        assert(rels.take(n + 1).drop_last() =~= rels.take(n));
        lemma_sequence_none_persists(t, rels, n + 1);
    } else {
        assert(rels.take(n) =~= rels);
    }
}

proof fn lemma_behaviors_none_persists(t: MdTablesView, bs: Seq<BehaviorView>, n: int)
    requires
        0 <= n <= bs.len(),
        behaviors_from(t, bs.take(n)) is None,
    ensures
        behaviors_from(t, bs) is None,
    decreases bs.len() - n,
{
    if n < bs.len() {
        assert(bs.take(n + 1).drop_last() =~= bs.take(n));
        lemma_behaviors_none_persists(t, bs, n + 1);
    } else {
        assert(bs.take(n) =~= bs);
    }
}

/// Renders a sequence diagram for each behavior of the view packet
/// `viewpacket_id`, ordered by sort order: a participant for each component
/// the first time it takes part, and a message for each relation with the
/// behavior's diagram key, ordered by sort order (dashed for a response).
pub fn render_graphical_all_behaviors_for_viewpacket(markdown: &mut String, t: &MdTables, viewpacket_id: i32) -> (r:
    Result<(), RenderError>)
    ensures
        r is Ok ==> (behaviors_section(t@, viewpacket_id) matches Some(text) && final(markdown)@ == old(markdown)@ + text),
        r is Err ==> behaviors_section(t@, viewpacket_id) is None,
{
    let bs = behaviors_in(&t.behaviors, viewpacket_id);
    let ghost start = markdown@;
    let mut i: usize = 0;
    assert(views(bs@).take(0) =~= Seq::<BehaviorView>::empty());
    assert(start + Seq::<char>::empty() =~= start);
    proof {
        reveal_strlit("sequenceDiagram");
    }
    while i < bs.len()
        invariant
            i <= bs.len(),
            views(bs@) == behaviors_of(t@.behaviors, viewpacket_id),
            behaviors_from(t@, views(bs@).take(i as int)) matches Some(text) && markdown@ == start + text,
        decreases bs.len() - i,
    {
        let b = &bs[i];
        assert(views(bs@).take(i + 1).drop_last() =~= views(bs@).take(i as int));
        assert(views(bs@).take(i + 1).last() == b@);
        let ghost text = behaviors_from(t@, views(bs@).take(i as int))->0;
        let rels = relations_with_key_in(&t.relations, b.diagram_key.as_str());
        mermaid_leadin(markdown, "sequenceDiagram");
        let ghost mid = markdown@;
        match sequence_items(t, &rels, markdown) {
            Ok(()) => {},
            Err(e) => {
                assert(related_by_key(t@.relations, b@.diagram_key) == views(rels@));
                assert(behaviors_from(t@, views(bs@).take(i + 1)) is None);
                proof {
                    lemma_behaviors_none_persists(t@, views(bs@), i as int + 1);
                }
                return Err(e);
            },
        }
        mermaid_leadout(markdown);
        let ghost p = sequence_from(t@, views(rels@))->0;
        assert(markdown@ =~= start + (text + leadin("sequenceDiagram"@) + p.0 + leadout()));
        i = i + 1;
    }
    assert(views(bs@).take(bs.len() as int) =~= views(bs@));
    Ok(())
}

// ---------------------------------------------------------- related views

/// The link line of a view packet: `  * [title](#anchor)`.
pub open spec fn link_line(title: Seq<char>) -> Seq<char> {
    "  * ["@ + title + "](#"@ + crate::md_text::markdown_link(title) + ")\n"@
}

/// The link lines of the view packets `vps`; `None` when one has a view
/// type or style without a section number.
pub open spec fn links_from(vps: Seq<ViewPacketView>) -> Option<Seq<char>>
    decreases vps.len(),
{
    if vps.len() == 0 {
        Some(Seq::empty())
    } else {
        match links_from(vps.drop_last()) {
            None => None,
            Some(text) => {
                let v = vps.last();
                if crate::md_text::section_number(v.view_type) is Some && crate::md_text::section_number(
                    v.view_style,
                ) is Some {
                    Some(
                        text + link_line(
                            crate::md_text::view_packet_title(v.view_type, v.view_style, v.title, v.sort_order),
                        ),
                    )
                } else {
                    None
                }
            },
        }
    }
}

/// The links to the view packets of the component `component_id` other
/// than `viewpacket_id` (for component 0: to those of the empty view type
/// and style).
pub open spec fn relationship_links(t: MdTablesView, viewpacket_id: i32, component_id: i32) -> Option<Seq<char>> {
    links_from(viewpackets_related(t.viewpackets, component_id, Seq::empty(), Seq::empty(), viewpacket_id))
}

proof fn lemma_links_none_persists(vps: Seq<ViewPacketView>, n: int)
    requires
        0 <= n <= vps.len(),
        links_from(vps.take(n)) is None,
    ensures
        links_from(vps) is None,
    decreases vps.len() - n,
{
    if n < vps.len() {
        assert(vps.take(n + 1).drop_last() =~= vps.take(n));
        lemma_links_none_persists(vps, n + 1);
    } else {
        assert(vps.take(n) =~= vps);
    }
}

/// Renders a link to each view packet of the component `component_id`
/// other than `viewpacket_id`, ordered by sort order.
pub fn render_viewpacket_relationship(
    markdown: &mut String,
    t: &MdTables,
    viewpacket_id: i32,
    component_id: i32,
) -> (r: Result<(), RenderError>)
    ensures
        r is Ok ==> (relationship_links(t@, viewpacket_id, component_id) matches Some(text) && final(markdown)@
            == old(markdown)@ + text),
        r is Err ==> relationship_links(t@, viewpacket_id, component_id) is None,
{
    proof {
        reveal_strlit("");
        assert(""@ =~= Seq::<char>::empty());
    }
    let vps = viewpackets_in(&t.viewpackets, component_id, "", "", viewpacket_id);
    let map = crate::md_text::create_hardcoded_map();
    let ghost start = markdown@;
    let mut i: usize = 0;
    assert(views(vps@).take(0) =~= Seq::<ViewPacketView>::empty());
    assert(start + Seq::<char>::empty() =~= start);
    while i < vps.len()
        invariant
            i <= vps.len(),
            views(vps@) == viewpackets_related(t@.viewpackets, component_id, Seq::empty(), Seq::empty(), viewpacket_id),
            map@.map_values(|p: (&'static str, i32)| (p.0@, p.1)) == crate::md_text::section_numbers(),
            links_from(views(vps@).take(i as int)) matches Some(text) && markdown@ == start + text,
        decreases vps.len() - i,
    {
        let v = &vps[i];
        assert(views(vps@).take(i + 1).drop_last() =~= views(vps@).take(i as int));
        assert(views(vps@).take(i + 1).last() == v@);
        let ghost text = links_from(views(vps@).take(i as int))->0;
        let known = crate::md_text::lookup_section_number(&map, v.view_type.as_str()).is_some()
            && crate::md_text::lookup_section_number(&map, v.view_style.as_str()).is_some();
        if !known {
            assert(links_from(views(vps@).take(i + 1)) is None);
            proof {
                lemma_links_none_persists(views(vps@), i as int + 1);
            }
            return Err(RenderError::UnknownSection);
        }
        let title = crate::md_text::create_view_packet_title(
            v.view_type.as_str(),
            v.view_style.as_str(),
            v.title.as_str(),
            v.sort_order,
        );
        let anchor = crate::md_text::make_markdown_linkable_text(title.clone());
        push_str(markdown, "  * [");
        push_str(markdown, title.as_str());
        push_str(markdown, "](#");
        push_str(markdown, anchor.as_str());
        push_str(markdown, ")\n");
        assert(markdown@ =~= start + (text + link_line(title@)));
        i = i + 1;
    }
    assert(views(vps@).take(vps.len() as int) =~= views(vps@));
    Ok(())
}

/// The links of the children: for each relation with the key from the
/// component, in id order, the links of its end component's view packets.
pub open spec fn children_from(t: MdTablesView, viewpacket_id: i32, rels: Seq<ComponentRelationView>) -> Option<
    Seq<char>,
>
    decreases rels.len(),
{
    if rels.len() == 0 {
        Some(Seq::empty())
    } else {
        match children_from(t, viewpacket_id, rels.drop_last()) {
            None => None,
            Some(text) => match comp(t, rels.last().component_b_id) {
                None => Some(text),
                Some(b) => match relationship_links(t, viewpacket_id, b.id) {
                    None => None,
                    Some(links) => Some(text + links),
                },
            },
        }
    }
}

/// The child links of a view packet: only the decomposition and uses styles
/// have children.
pub open spec fn child_links(
    t: MdTablesView,
    viewpacket_id: i32,
    component_id: i32,
    style: Seq<char>,
    key: Seq<char>,
) -> Option<Seq<char>> {
    if style == "Decomposition"@ || style == "Uses"@ {
        children_from(t, viewpacket_id, rels_from(t, component_id, key))
    } else {
        Some(Seq::empty())
    }
}

proof fn lemma_children_none_persists(t: MdTablesView, viewpacket_id: i32, rels: Seq<ComponentRelationView>, n: int)
    requires
        0 <= n <= rels.len(),
        children_from(t, viewpacket_id, rels.take(n)) is None,
    ensures
        children_from(t, viewpacket_id, rels) is None,
    decreases rels.len() - n,
{
    if n < rels.len() {
        assert(rels.take(n + 1).drop_last() =~= rels.take(n));
        lemma_children_none_persists(t, viewpacket_id, rels, n + 1);
    } else {
        assert(rels.take(n) =~= rels);
    }
}

/// Renders the links to the view packets of the children of the component
/// `component_id`, for the decomposition and uses styles.
pub fn render_child_relationship(
    markdown: &mut String,
    t: &MdTables,
    viewpacket_id: i32,
    component_id: i32,
    style: &str,
    primary_display_key: &str,
) -> (r: Result<(), RenderError>)
    ensures
        r is Ok ==> (child_links(t@, viewpacket_id, component_id, style@, primary_display_key@) matches Some(text)
            && final(markdown)@ == old(markdown)@ + text),
        r is Err ==> child_links(t@, viewpacket_id, component_id, style@, primary_display_key@) is None,
{
    if !(crate::text::str_equal(style, "Decomposition") || crate::text::str_equal(style, "Uses")) {
        assert(old(markdown)@ + Seq::<char>::empty() =~= old(markdown)@);
        return Ok(());
    }
    let rels = relations_from_in(&t.relations, component_id, primary_display_key);
    let ghost start = markdown@;
    let mut i: usize = 0;
    assert(views(rels@).take(0) =~= Seq::<ComponentRelationView>::empty());
    assert(start + Seq::<char>::empty() =~= start);
    while i < rels.len()
        invariant
            i <= rels.len(),
            views(rels@) == rels_from(t@, component_id, primary_display_key@),
            style@ == "Decomposition"@ || style@ == "Uses"@,
            children_from(t@, viewpacket_id, views(rels@).take(i as int)) matches Some(text) && markdown@ == start + text,
        decreases rels.len() - i,
    {
        let r = &rels[i];
        assert(views(rels@).take(i + 1).drop_last() =~= views(rels@).take(i as int));
        assert(views(rels@).take(i + 1).last() == r@);
        let ghost text = children_from(t@, viewpacket_id, views(rels@).take(i as int))->0;
        match component_in(&t.components, r.component_b_id) {
            Some(b) => {
                let ghost mid = markdown@;
                match render_viewpacket_relationship(markdown, t, viewpacket_id, b.id) {
                    Ok(()) => {},
                    Err(e) => {
                        assert(comp(t@, r@.component_b_id) == Some(b@));
                        assert(children_from(t@, viewpacket_id, views(rels@).take(i + 1)) is None);
                        proof {
                            lemma_children_none_persists(t@, viewpacket_id, views(rels@), i as int + 1);
                        }
                        return Err(e);
                    },
                }
                assert(markdown@ =~= start + (text + relationship_links(t@, viewpacket_id, b@.id)->0));
            },
            None => {},
        }
        i = i + 1;
    }
    assert(views(rels@).take(rels.len() as int) =~= views(rels@));
    Ok(())
}

// ------------------------------------------------------------ view packets

/// Whether a view packet is shown as layers: the layered style of the
/// module view type.
pub open spec fn is_layered(view_type: Seq<char>, style: Seq<char>) -> bool {
    view_type == "Module"@ && style == "Layered"@
}

/// The diagram of a view packet's primary presentation: a layered block
/// diagram, or a graph.
#[verifier::opaque]
pub open spec fn primary_diagram(t: MdTablesView, layered: bool, v: ViewPacketView) -> Seq<char> {
    if layered {
        leadin("block-beta\n    columns 1"@) + layered_graph(t, v.component_id, v.primary_display_key) + leadout()
    } else {
        leadin("graph LR;"@) + primary_graph(t, v.component_id, v.primary_display_key) + leadout()
    }
}

/// The line that names a component and gives its summary; empty when the
/// component is not in the tables.
#[verifier::opaque]
pub open spec fn head_line(t: MdTablesView, id: i32) -> Seq<char> {
    match comp(t, id) {
        Some(c) => "* "@ + c.name + ": "@ + c.summary + "\n"@,
        None => Seq::empty(),
    }
}

/// The textual list of a view packet's primary presentation: not indented
/// for the layered style, indented by one step otherwise.
#[verifier::opaque]
pub open spec fn primary_list(t: MdTablesView, layered: bool, v: ViewPacketView) -> Seq<char> {
    if layered {
        textual_list(t, v.component_id, v.primary_display_key, 0, 0)
    } else {
        textual_list(t, v.component_id, v.primary_display_key, 1, 1)
    }
}

/// The primary presentation of a view packet: its diagram, then the line of
/// its component and the textual list headed by that component.
pub open spec fn primary_section(
    t: MdTablesView,
    view_type: Seq<char>,
    style: Seq<char>,
    v: ViewPacketView,
    sec: Seq<char>,
) -> Seq<char> {
    let layered = is_layered(view_type, style);
    "#### "@ + sec + ": Primary presentation\n\n"@ + primary_diagram(t, layered, v) + head_line(t, v.component_id)
        + primary_list(t, layered, v)
}

fn render_primary_diagram(markdown: &mut String, t: &MdTables, layered: bool, viewpacket: &ViewPacket)
    ensures
        final(markdown)@ == old(markdown)@ + primary_diagram(t@, layered, viewpacket@),
{
    reveal(primary_diagram);
    if layered {
        mermaid_leadin(markdown, "block-beta\n    columns 1");
        let top = component_in(&t.components, viewpacket.component_id);
        if top.is_some() {
            render_graphical_layered_display(
                markdown,
                t,
                viewpacket.component_id,
                viewpacket.primary_display_key.as_str(),
                true,
            );
        } else {
            assert(markdown@ =~= markdown@ + Seq::<char>::empty());
        }
        mermaid_leadout(markdown);
    } else {
        mermaid_leadin(markdown, "graph LR;");
        render_graphical_primary_display(markdown, t, viewpacket.component_id, viewpacket.primary_display_key.as_str());
        mermaid_leadout(markdown);
    }
}

fn render_head_line(markdown: &mut String, t: &MdTables, component_id: i32)
    ensures
        final(markdown)@ == old(markdown)@ + head_line(t@, component_id),
{
    reveal(head_line);
    match component_in(&t.components, component_id) {
        Some(c) => {
            push_str(markdown, "* ");
            push_str(markdown, c.name.as_str());
            push_str(markdown, ": ");
            push_str(markdown, c.summary.as_str());
            push_str(markdown, "\n");
            assert(markdown@ =~= old(markdown)@ + head_line(t@, component_id));
        },
        None => {
            assert(markdown@ =~= old(markdown)@ + head_line(t@, component_id));
        },
    }
}

fn render_primary_list(markdown: &mut String, t: &MdTables, layered: bool, viewpacket: &ViewPacket)
    ensures
        final(markdown)@ == old(markdown)@ + primary_list(t@, layered, viewpacket@),
{
    reveal(primary_list);
    if layered {
        render_textual_primary_display(markdown, t, viewpacket.component_id, viewpacket.primary_display_key.as_str(), 0, 0);
    } else {
        render_textual_primary_display(markdown, t, viewpacket.component_id, viewpacket.primary_display_key.as_str(), 1, 1);
    }
}

/// Writes `a`, `b` and `c` one after the other.
fn push_three(markdown: &mut String, a: &str, b: &str, c: &str)
    ensures
        final(markdown)@ == old(markdown)@ + (a@ + b@ + c@),
{
    push_str(markdown, a);
    push_str(markdown, b);
    push_str(markdown, c);
    assert(markdown@ =~= old(markdown)@ + (a@ + b@ + c@));
}

/// Renders the primary presentation of a view packet.
pub fn render_viewpacket_section_primary_display(
    markdown: &mut String,
    t: &MdTables,
    view_type: &str,
    style: &str,
    viewpacket: &ViewPacket,
    section_number: &str,
)
    ensures
        final(markdown)@ == old(markdown)@ + primary_section(t@, view_type@, style@, viewpacket@, section_number@),
{
    let layered = crate::text::str_equal(view_type, "Module") && crate::text::str_equal(style, "Layered");
    push_three(markdown, "#### ", section_number, ": Primary presentation\n\n");
    let ghost m1 = markdown@;
    render_primary_diagram(markdown, t, layered, viewpacket);
    let ghost m2 = markdown@;
    render_head_line(markdown, t, viewpacket.component_id);
    let ghost m3 = markdown@;
    render_primary_list(markdown, t, layered, viewpacket);
    assert(markdown@ =~= old(markdown)@ + primary_section(t@, view_type@, style@, viewpacket@, section_number@));
}

/// The title line of a view packet's section.
#[verifier::opaque]
pub open spec fn title_line(view_type: Seq<char>, style: Seq<char>, sec: Seq<char>, title: Seq<char>) -> Seq<char> {
    "### "@ + view_type + " "@ + style + " view packet "@ + sec + ": "@ + title + "\n\n"@
}

/// The context diagram of a view packet's section, with the headings of its
/// element catalog.
#[verifier::opaque]
pub open spec fn context_part(t: MdTablesView, v: ViewPacketView, sec: Seq<char>) -> Seq<char> {
    "\n#### "@ + sec + ": Context diagram\n\n"@ + leadin("graph TD;"@) + context_graph(
        t,
        v.component_id,
        v.context_model_key,
    ) + leadout() + "#### "@ + sec + ": Element catalog - Elements and their properties\n\n"@ + "#### "@
        + sec + ": Element catalog - Element behavior\n\n"@
}

/// The heading part of a view packet's section, up to its behaviors.
pub open spec fn section_head(t: MdTablesView, view_type: Seq<char>, style: Seq<char>, v: ViewPacketView) -> Seq<char> {
    let sec = crate::md_text::section_text(view_type, style, v.sort_order);
    title_line(view_type, style, sec, v.title) + primary_section(t, view_type, style, v, sec) + context_part(t, v, sec)
}

/// A view packet's section opens with the heading `### ` and the title that
/// links to it are made of (`create_view_packet_title`).
pub proof fn lemma_section_opens_with_title(t: MdTablesView, view_type: Seq<char>, style: Seq<char>, v: ViewPacketView)
    ensures
        section_head(t, view_type, style, v) == "### "@ + crate::md_text::view_packet_title(
            view_type,
            style,
            v.title,
            v.sort_order,
        ) + "\n\n"@ + primary_section(
            t,
            view_type,
            style,
            v,
            crate::md_text::section_text(view_type, style, v.sort_order),
        ) + context_part(t, v, crate::md_text::section_text(view_type, style, v.sort_order)),
{
    reveal(title_line);
    reveal_strlit(" ");
    let sec = crate::md_text::section_text(view_type, style, v.sort_order);
    assert(" "@ =~= seq![' ']);
    assert(title_line(view_type, style, sec, v.title) =~= "### "@ + crate::md_text::view_packet_title(
        view_type,
        style,
        v.title,
        v.sort_order,
    ) + "\n\n"@);
}

fn render_title_line(markdown: &mut String, view_type: &str, style: &str, section: &str, title: &str)
    ensures
        final(markdown)@ == old(markdown)@ + title_line(view_type@, style@, section@, title@),
{
    reveal(title_line);
    push_three(markdown, "### ", view_type, " ");
    push_three(markdown, style, " view packet ", section);
    push_three(markdown, ": ", title, "\n\n");
    assert(markdown@ =~= old(markdown)@ + title_line(view_type@, style@, section@, title@));
}

fn render_context_part(markdown: &mut String, t: &MdTables, viewpacket: &ViewPacket, section: &str)
    ensures
        final(markdown)@ == old(markdown)@ + context_part(t@, viewpacket@, section@),
{
    reveal(context_part);
    push_three(markdown, "\n#### ", section, ": Context diagram\n\n");
    mermaid_leadin(markdown, "graph TD;");
    let ghost m1 = markdown@;
    render_graphical_context_diagram(markdown, t, viewpacket.component_id, viewpacket.context_model_key.as_str());
    mermaid_leadout(markdown);
    let ghost m2 = markdown@;
    push_three(markdown, "#### ", section, ": Element catalog - Elements and their properties\n\n");
    push_three(markdown, "#### ", section, ": Element catalog - Element behavior\n\n");
    assert(markdown@ =~= old(markdown)@ + context_part(t@, viewpacket@, section@));
}

/// The related views of a view packet's section: its parent and siblings
/// headings, the links to the view packets of the components related to its
/// own, and those of its children.
pub open spec fn related_part(t: MdTablesView, style: Seq<char>, v: ViewPacketView, sec: Seq<char>) -> Option<
    Seq<char>,
> {
    match relationship_links(t, v.viewpacket_id, v.component_id) {
        None => None,
        Some(rl) => match child_links(t, v.viewpacket_id, v.component_id, style, v.primary_display_key) {
            None => None,
            Some(cl) => Some(
                "#### "@ + sec + ": Related views\n\n"@ + "* Parent:\n"@ + "* Siblings:\n"@ + rl + "* Children:\n"@
                    + cl + "\n"@,
            ),
        },
    }
}

fn render_related_part(markdown: &mut String, t: &MdTables, style: &str, viewpacket: &ViewPacket, section: &str) -> (r:
    Result<(), RenderError>)
    ensures
        r is Ok ==> (related_part(t@, style@, viewpacket@, section@) matches Some(text) && final(markdown)@ == old(
            markdown,
        )@ + text),
        r is Err ==> related_part(t@, style@, viewpacket@, section@) is None,
{
    push_three(markdown, "#### ", section, ": Related views\n\n");
    push_str(markdown, "* Parent:\n");
    push_str(markdown, "* Siblings:\n");
    let ghost m1 = markdown@;
    render_viewpacket_relationship(markdown, t, viewpacket.viewpacket_id, viewpacket.component_id)?;
    let ghost m2 = markdown@;
    push_str(markdown, "* Children:\n");
    render_child_relationship(
        markdown,
        t,
        viewpacket.viewpacket_id,
        viewpacket.component_id,
        style,
        viewpacket.primary_display_key.as_str(),
    )?;
    push_str(markdown, "\n");
    assert(markdown@ =~= old(markdown)@ + related_part(t@, style@, viewpacket@, section@)->0);
    Ok(())
}

/// The section of a view packet of the given view type and style; `None`
/// when a part of it cannot be rendered.
pub open spec fn viewpacket_section(t: MdTablesView, view_type: Seq<char>, style: Seq<char>, v: ViewPacketView) -> Option<
    Seq<char>,
> {
    let sec = crate::md_text::section_text(view_type, style, v.sort_order);
    match behaviors_section(t, v.viewpacket_id) {
        None => None,
        Some(bh) => match related_part(t, style, v, sec) {
            None => None,
            Some(rel) => Some(section_head(t, view_type, style, v) + bh + rel),
        },
    }
}

fn render_viewpacket_section(
    markdown: &mut String,
    t: &MdTables,
    map: &Vec<(&'static str, i32)>,
    view_type: &str,
    style: &str,
    viewpacket: &ViewPacket,
) -> (r: Result<(), RenderError>)
    requires
        map@.map_values(|p: (&'static str, i32)| (p.0@, p.1)) == crate::md_text::section_numbers(),
        crate::md_text::section_number(view_type@) is Some,
        crate::md_text::section_number(style@) is Some,
    ensures
        r is Ok ==> (viewpacket_section(t@, view_type@, style@, viewpacket@) matches Some(text) && final(markdown)@
            == old(markdown)@ + text),
        r is Err ==> viewpacket_section(t@, view_type@, style@, viewpacket@) is None,
{
    let section = crate::md_text::section_number_text(map, view_type, style, viewpacket.sort_order);
    render_title_line(markdown, view_type, style, section.as_str(), viewpacket.title.as_str());
    let ghost m1 = markdown@;
    render_viewpacket_section_primary_display(markdown, t, view_type, style, viewpacket, section.as_str());
    let ghost m2 = markdown@;
    render_context_part(markdown, t, viewpacket, section.as_str());
    assert(markdown@ =~= old(markdown)@ + section_head(t@, view_type@, style@, viewpacket@));
    let ghost head = markdown@;
    render_graphical_all_behaviors_for_viewpacket(markdown, t, viewpacket.viewpacket_id)?;
    let ghost after_behaviors = markdown@;
    render_related_part(markdown, t, style, viewpacket, section.as_str())?;
    assert(markdown@ =~= old(markdown)@ + viewpacket_section(t@, view_type@, style@, viewpacket@)->0);
    Ok(())
}

/// The sections of the view packets `vps` of the given view type and style;
/// `None` when one cannot be rendered, or the type or style has no section
/// number.
pub open spec fn viewpackets_sections(
    t: MdTablesView,
    view_type: Seq<char>,
    style: Seq<char>,
    vps: Seq<ViewPacketView>,
) -> Option<Seq<char>>
    decreases vps.len(),
{
    if vps.len() == 0 {
        Some(Seq::empty())
    } else if crate::md_text::section_number(view_type) is None || crate::md_text::section_number(style) is None {
        None
    } else {
        match viewpackets_sections(t, view_type, style, vps.drop_last()) {
            None => None,
            Some(text) => match viewpacket_section(t, view_type, style, vps.last()) {
                None => None,
                Some(x) => Some(text + x),
            },
        }
    }
}

/// The sections of the view packets of the given view type and style,
/// ordered by sort order.
pub open spec fn style_sections(t: MdTablesView, view_type: Seq<char>, style: Seq<char>) -> Option<Seq<char>> {
    viewpackets_sections(t, view_type, style, viewpackets_related(t.viewpackets, 0, view_type, style, 0))
}

/// The heading line of a view packet's section: `### `, the title that
/// links to it are made of, and a blank line.
pub open spec fn section_heading(view_type: Seq<char>, style: Seq<char>, v: ViewPacketView) -> Seq<char> {
    "### "@ + crate::md_text::view_packet_title(view_type, style, v.title, v.sort_order) + "\n\n"@
}

/// `parts` one after the other.
pub open spec fn joined_texts(parts: Seq<Seq<char>>) -> Seq<char>
    decreases parts.len(),
{
    if parts.len() == 0 {
        Seq::empty()
    } else {
        joined_texts(parts.drop_last()) + parts.last()
    }
}

/// The section of each view packet of `vps`, in order.
pub open spec fn section_texts(t: MdTablesView, view_type: Seq<char>, style: Seq<char>, vps: Seq<ViewPacketView>) -> Seq<
    Seq<char>,
> {
    vps.map_values(|v: ViewPacketView| viewpacket_section(t, view_type, style, v)->0)
}

proof fn lemma_sections_joined(t: MdTablesView, view_type: Seq<char>, style: Seq<char>, vps: Seq<ViewPacketView>)
    requires
        viewpackets_sections(t, view_type, style, vps) is Some,
    ensures
        forall|i: int| 0 <= i < vps.len() ==> #[trigger] viewpacket_section(t, view_type, style, vps[i]) is Some,
        viewpackets_sections(t, view_type, style, vps)->0 == joined_texts(section_texts(t, view_type, style, vps)),
    decreases vps.len(),
{
    if vps.len() > 0 {
        let d = vps.drop_last();
        lemma_sections_joined(t, view_type, style, d);
        assert(section_texts(t, view_type, style, vps).drop_last() =~= section_texts(t, view_type, style, d));
        assert forall|i: int| 0 <= i < vps.len() implies #[trigger] viewpacket_section(t, view_type, style, vps[i]) is Some by {
            if i < vps.len() - 1 {
                assert(vps[i] == d[i]);
            }
        }
    } else {
        assert(section_texts(t, view_type, style, vps) =~= Seq::<Seq<char>>::empty());
    }
}

/// The text that `render_viewpacket` adds for a view type and style is the
/// section of each of the style's view packets, one after the other in the
/// order of the query, and each section opens with the view packet's
/// heading: the title that links to it are made of.
pub proof fn lemma_style_sections_open_with_titles(t: MdTablesView, view_type: Seq<char>, style: Seq<char>)
    requires
        style_sections(t, view_type, style) is Some,
    ensures
        ({
            let vps = viewpackets_related(t.viewpackets, 0, view_type, style, 0);
            &&& style_sections(t, view_type, style)->0 == joined_texts(section_texts(t, view_type, style, vps))
            &&& forall|i: int|
                0 <= i < vps.len() ==> section_heading(view_type, style, vps[i]).is_prefix_of(
                    #[trigger] section_texts(t, view_type, style, vps)[i],
                )
        }),
{
    let vps = viewpackets_related(t.viewpackets, 0, view_type, style, 0);
    lemma_sections_joined(t, view_type, style, vps);
    assert forall|i: int| 0 <= i < vps.len() implies section_heading(view_type, style, vps[i]).is_prefix_of(
        #[trigger] section_texts(t, view_type, style, vps)[i],
    ) by {
        let v = vps[i];
        assert(viewpacket_section(t, view_type, style, v) is Some);
        lemma_section_opens_with_title(t, view_type, style, v);
        let h = section_heading(view_type, style, v);
        let x = section_texts(t, view_type, style, vps)[i];
        let sec = crate::md_text::section_text(view_type, style, v.sort_order);
        let rest = x.subrange(h.len() as int, x.len() as int);
        assert(x == section_head(t, view_type, style, v) + behaviors_section(t, v.viewpacket_id)->0 + related_part(
            t,
            style,
            v,
            sec,
        )->0);
        assert(x =~= h + (primary_section(t, view_type, style, v, sec) + context_part(t, v, sec)
            + behaviors_section(t, v.viewpacket_id)->0 + related_part(t, style, v, sec)->0));
        assert(h =~= x.subrange(0, h.len() as int));
    }
}

proof fn lemma_sections_none_persists(
    t: MdTablesView,
    view_type: Seq<char>,
    style: Seq<char>,
    vps: Seq<ViewPacketView>,
    n: int,
)
    requires
        0 <= n <= vps.len(),
        viewpackets_sections(t, view_type, style, vps.take(n)) is None,
    ensures
        viewpackets_sections(t, view_type, style, vps) is None,
    decreases vps.len() - n,
{
    if n < vps.len() {
        assert(vps.take(n + 1).drop_last() =~= vps.take(n));
        lemma_sections_none_persists(t, view_type, style, vps, n + 1);
    } else {
        assert(vps.take(n) =~= vps);
    }
}

/// Renders the section of each view packet of the given view type and
/// style, ordered by sort order.
pub fn render_viewpacket(markdown: &mut String, t: &MdTables, view_type: &str, style: &str) -> (r: Result<
    (),
    RenderError,
>)
    ensures
        r is Ok ==> (style_sections(t@, view_type@, style@) matches Some(text) && final(markdown)@ == old(markdown)@
            + text),
        r is Err ==> style_sections(t@, view_type@, style@) is None,
{
    let map = crate::md_text::create_hardcoded_map();
    let vps = viewpackets_in(&t.viewpackets, 0, view_type, style, 0);
    let ghost start = markdown@;
    assert(views(vps@).take(0) =~= Seq::<ViewPacketView>::empty());
    assert(start + Seq::<char>::empty() =~= start);
    if vps.len() == 0 {
        assert(views(vps@) =~= Seq::<ViewPacketView>::empty());
        return Ok(());
    }
    let known = crate::md_text::lookup_section_number(&map, view_type).is_some()
        && crate::md_text::lookup_section_number(&map, style).is_some();
    if !known {
        return Err(RenderError::UnknownSection);
    }
    let mut i: usize = 0;
    while i < vps.len()
        invariant
            i <= vps.len(),
            views(vps@) == viewpackets_related(t@.viewpackets, 0, view_type@, style@, 0),
            map@.map_values(|p: (&'static str, i32)| (p.0@, p.1)) == crate::md_text::section_numbers(),
            crate::md_text::section_number(view_type@) is Some,
            crate::md_text::section_number(style@) is Some,
            viewpackets_sections(t@, view_type@, style@, views(vps@).take(i as int)) matches Some(text) && markdown@
                == start + text,
        decreases vps.len() - i,
    {
        let v = &vps[i];
        assert(views(vps@).take(i + 1).drop_last() =~= views(vps@).take(i as int));
        assert(views(vps@).take(i + 1).last() == v@);
        let ghost text = viewpackets_sections(t@, view_type@, style@, views(vps@).take(i as int))->0;
        match render_viewpacket_section(markdown, t, &map, view_type, style, v) {
            Ok(()) => {},
            Err(e) => {
                assert(viewpackets_sections(t@, view_type@, style@, views(vps@).take(i + 1)) is None);
                proof {
                    lemma_sections_none_persists(t@, view_type@, style@, views(vps@), i as int + 1);
                }
                return Err(e);
            },
        }
        assert(markdown@ =~= start + (text + viewpacket_section(t@, view_type@, style@, v@)->0));
        i = i + 1;
    }
    assert(views(vps@).take(vps.len() as int) =~= views(vps@));
    Ok(())
}

// --------------------------------------------------------------- document

/// The sections of the styles `styles` of a view type, one after the other.
pub open spec fn styles_sections(t: MdTablesView, view_type: Seq<char>, styles: Seq<Seq<char>>) -> Option<Seq<char>>
    decreases styles.len(),
{
    if styles.len() == 0 {
        Some(Seq::empty())
    } else {
        match styles_sections(t, view_type, styles.drop_last()) {
            None => None,
            Some(text) => match style_sections(t, view_type, styles.last()) {
                None => None,
                Some(x) => Some(text + x),
            },
        }
    }
}

/// The chapters of the view types `types`: a heading for each, then the
/// sections of its styles.
pub open spec fn types_sections(t: MdTablesView, types: Seq<(Seq<char>, Seq<Seq<char>>)>) -> Option<Seq<char>>
    decreases types.len(),
{
    if types.len() == 0 {
        Some(Seq::empty())
    } else {
        match types_sections(t, types.drop_last()) {
            None => None,
            Some(text) => match type_chapter(t, types.last().0, types.last().1) {
                None => None,
                Some(x) => Some(text + x),
            },
        }
    }
}

/// The whole document: its title, then a chapter for each view type with
/// the sections of its view packets, style by style.
pub open spec fn document_markdown(t: MdTablesView) -> Option<Seq<char>> {
    match types_sections(t, crate::md_text::view_styles()) {
        None => None,
        Some(text) => Some(document_leadin() + text),
    }
}

proof fn lemma_styles_none_persists(t: MdTablesView, view_type: Seq<char>, styles: Seq<Seq<char>>, n: int)
    requires
        0 <= n <= styles.len(),
        styles_sections(t, view_type, styles.take(n)) is None,
    ensures
        styles_sections(t, view_type, styles) is None,
    decreases styles.len() - n,
{
    if n < styles.len() {
        assert(styles.take(n + 1).drop_last() =~= styles.take(n));
        lemma_styles_none_persists(t, view_type, styles, n + 1);
    } else {
        assert(styles.take(n) =~= styles);
    }
}

proof fn lemma_types_none_persists(t: MdTablesView, types: Seq<(Seq<char>, Seq<Seq<char>>)>, n: int)
    requires
        0 <= n <= types.len(),
        types_sections(t, types.take(n)) is None,
    ensures
        types_sections(t, types) is None,
    decreases types.len() - n,
{
    if n < types.len() {
        assert(types.take(n + 1).drop_last() =~= types.take(n));
        lemma_types_none_persists(t, types, n + 1);
    } else {
        assert(types.take(n) =~= types);
    }
}

#[verifier::spinoff_prover]
fn render_styles(markdown: &mut String, t: &MdTables, view_type: &str, styles: &Vec<&'static str>) -> (r: Result<
    (),
    RenderError,
>)
    ensures
        r is Ok ==> (styles_sections(t@, view_type@, styles@.map_values(|s: &'static str| s@)) matches Some(text)
            && final(markdown)@ == old(markdown)@ + text),
        r is Err ==> styles_sections(t@, view_type@, styles@.map_values(|s: &'static str| s@)) is None,
{
    let ghost ss = styles@.map_values(|s: &'static str| s@);
    let ghost start = markdown@;
    let mut i: usize = 0;
    assert(ss.take(0) =~= Seq::<Seq<char>>::empty());
    assert(start + Seq::<char>::empty() =~= start);
    while i < styles.len()
        invariant
            i <= styles.len(),
            ss == styles@.map_values(|s: &'static str| s@),
            styles_sections(t@, view_type@, ss.take(i as int)) matches Some(text) && markdown@ == start + text,
        decreases styles.len() - i,
    {
        let style = styles[i];
        assert(ss.take(i + 1).drop_last() =~= ss.take(i as int));
        assert(ss.take(i + 1).last() == style@);
        let ghost text = styles_sections(t@, view_type@, ss.take(i as int))->0;
        match render_viewpacket(markdown, t, view_type, style) {
            Ok(()) => {},
            Err(e) => {
                assert(styles_sections(t@, view_type@, ss.take(i + 1)) is None);
                proof {
                    lemma_styles_none_persists(t@, view_type@, ss, i as int + 1);
                }
                return Err(e);
            },
        }
        assert(markdown@ =~= start + (text + style_sections(t@, view_type@, style@)->0));
        i = i + 1;
    }
    assert(ss.take(styles.len() as int) =~= ss);
    Ok(())
}

/// The chapter of one view type: its heading, then the sections of its
/// styles.
pub open spec fn type_chapter(t: MdTablesView, view_type: Seq<char>, styles: Seq<Seq<char>>) -> Option<Seq<char>> {
    match styles_sections(t, view_type, styles) {
        None => None,
        Some(x) => Some("## "@ + view_type + "\n\n"@ + x),
    }
}

fn render_type_chapter(markdown: &mut String, t: &MdTables, view_type: &str, styles: &Vec<&'static str>) -> (r:
    Result<(), RenderError>)
    ensures
        r is Ok ==> (type_chapter(t@, view_type@, styles@.map_values(|s: &'static str| s@)) matches Some(text)
            && final(markdown)@ == old(markdown)@ + text),
        r is Err ==> type_chapter(t@, view_type@, styles@.map_values(|s: &'static str| s@)) is None,
{
    push_three(markdown, "## ", view_type, "\n\n");
    let ghost mid = markdown@;
    render_styles(markdown, t, view_type, styles)?;
    assert(markdown@ =~= old(markdown)@ + type_chapter(t@, view_type@, styles@.map_values(|s: &'static str| s@))->0);
    Ok(())
}

/// Renders the whole document into `markdown`.
pub fn render_document(markdown: &mut String, t: &MdTables) -> (r: Result<(), RenderError>)
    ensures
        r is Ok ==> (document_markdown(t@) matches Some(text) && final(markdown)@ == old(markdown)@ + text),
        r is Err ==> document_markdown(t@) is None,
{
    let styles_map = crate::md_text::create_styles();
    let ghost types = crate::md_text::view_styles();
    let ghost f = |p: (&'static str, Vec<&'static str>)| (p.0@, p.1@.map_values(|s: &'static str| s@));
    markdown_leadin(markdown);
    let ghost start = markdown@;
    let mut i: usize = 0;
    assert(types.take(0) =~= Seq::<(Seq<char>, Seq<Seq<char>>)>::empty());
    assert(start + Seq::<char>::empty() =~= start);
    while i < styles_map.len()
        invariant
            i <= styles_map.len(),
            types == crate::md_text::view_styles(),
            f == (|p: (&'static str, Vec<&'static str>)| (p.0@, p.1@.map_values(|s: &'static str| s@))),
            styles_map@.map_values(f) == types,
            start == old(markdown)@ + document_leadin(),
            types_sections(t@, types.take(i as int)) matches Some(text) && markdown@ == start + text,
        decreases styles_map.len() - i,
    {
        let (view_type, styles) = &styles_map[i];
        let ghost entry = types[i as int];
        assert(entry == f(styles_map@[i as int]));
        assert(types.take(i + 1).drop_last() =~= types.take(i as int));
        assert(types.take(i + 1).last() == entry);
        let ghost text = types_sections(t@, types.take(i as int))->0;
        match render_type_chapter(markdown, t, view_type, styles) {
            Ok(()) => {},
            Err(e) => {
                assert(types_sections(t@, types.take(i + 1)) is None);
                proof {
                    lemma_types_none_persists(t@, types, i as int + 1);
                }
                return Err(e);
            },
        }
        assert(markdown@ =~= start + (text + type_chapter(t@, entry.0, entry.1)->0));
        i = i + 1;
    }
    assert(types.take(styles_map.len() as int) =~= types);
    Ok(())
}

// ---------------------------------------------------------- from the db

/// `conn` holds the renderer's four tables, and their rows are those of `t`.
pub open spec fn md_tables_are(conn: rusqlite::Connection, t: MdTablesView) -> bool {
    &&& crate::md_retrieval::md_viewpackets_are(conn, t.viewpackets)
    &&& crate::md_retrieval::md_components_are(conn, t.components)
    &&& crate::md_retrieval::md_relations_are(conn, t.relations)
    &&& crate::md_retrieval::md_behaviors_are(conn, t.behaviors)
}

/// Reads the renderer's four tables from `conn`.
pub fn read_md_tables(conn: &rusqlite::Connection) -> (r: Result<MdTables, crate::retrieval::DbError>)
    ensures
        r matches Ok(t) ==> md_tables_are(*conn, t@),
        r matches Err(e) ==> e is Sqlite,
{
    let viewpackets = crate::md_retrieval::md_viewpackets(conn)?;
    let components = crate::md_retrieval::md_components(conn)?;
    let relations = crate::md_retrieval::md_relations(conn)?;
    let behaviors = crate::md_retrieval::md_behaviors(conn)?;
    Ok(MdTables { viewpackets, components, relations, behaviors })
}

/// Renders the whole document from the renderer's tables in `conn`. It
/// fails with `Db` when a table cannot be read, and otherwise exactly when
/// the document cannot be rendered from the rows read.
pub fn render_document_from_db(conn: &rusqlite::Connection) -> (r: Result<String, RenderError>)
    ensures
        r matches Ok(s) ==> exists|t: MdTablesView| md_tables_are(*conn, t) && document_markdown(t) == Some(s@),
        r matches Err(e) ==> (e is Db || exists|t: MdTablesView|
            md_tables_are(*conn, t) && document_markdown(t) is None),
{
    let t = match read_md_tables(conn) {
        Ok(t) => t,
        Err(e) => {
            return Err(RenderError::Db(e));
        },
    };
    let mut markdown = String::new();
    match render_document(&mut markdown, &t) {
        Ok(()) => {
            assert(markdown@ =~= Seq::<char>::empty() + document_markdown(t@)->0);
            Ok(markdown)
        },
        Err(e) => Err(e),
    }
}
/// The view packet a row holds, where it holds one.
pub open spec fn md_viewpacket_of(r: crate::md_db::MdRowView) -> ViewPacketView {
    match r {
        crate::md_db::MdRowView::ViewPacket(v) => v,
        _ => arbitrary(),
    }
}

/// The component a row holds, where it holds one.
pub open spec fn md_component_of(r: crate::md_db::MdRowView) -> ComponentView {
    match r {
        crate::md_db::MdRowView::Component(c) => c,
        _ => arbitrary(),
    }
}

/// The relation a row holds, where it holds one.
pub open spec fn md_relation_of(r: crate::md_db::MdRowView) -> RelationRowView {
    match r {
        crate::md_db::MdRowView::ComponentRelation(x) => x,
        _ => arbitrary(),
    }
}

/// The behavior a row holds, where it holds one.
pub open spec fn md_behavior_of(r: crate::md_db::MdRowView) -> BehaviorView {
    match r {
        crate::md_db::MdRowView::Behavior(b) => b,
        _ => arbitrary(),
    }
}

/// After the renderer's tables were filled from a document, the tables that
/// the renderer reads back hold the document's records: the same view
/// packets, components, relations and behaviors, as many times each, in
/// some order.
pub proof fn lemma_md_populate_then_read(
    before: Map<crate::md_db::MdTable, vstd::multiset::Multiset<crate::md_db::MdRowView>>,
    items: Seq<crate::xml::XmlNodeView>,
    after: rusqlite::Connection,
    t: MdTablesView,
)
    requires
        crate::md_populate::md_populated(before, items) == Some(crate::md_db::md_tables(after)),
        md_tables_are(after, t),
    ensures
        crate::populate::records_of(
            items,
            "ViewPacket"@,
            |it: crate::xml::XmlItemView| crate::md_populate::md_viewpacket_record(it),
        ) matches Ok(v) && t.viewpackets.to_multiset() == v.to_multiset(),
        crate::populate::records_of(
            items,
            "Component"@,
            |it: crate::xml::XmlItemView| crate::md_populate::md_component_record(it),
        ) matches Ok(c) && t.components.to_multiset() == c.to_multiset(),
        crate::populate::records_of(
            items,
            "ComponentRelation"@,
            |it: crate::xml::XmlItemView| crate::md_populate::md_relation_record(it),
        ) matches Ok(r) && t.relations.to_multiset() == r.to_multiset(),
        crate::populate::records_of(
            items,
            "Behavior"@,
            |it: crate::xml::XmlItemView| crate::md_populate::md_behavior_record(it),
        ) matches Ok(b) && t.behaviors.to_multiset() == b.to_multiset(),
{
    let v = crate::populate::records_of(
        items,
        "ViewPacket"@,
        |it: crate::xml::XmlItemView| crate::md_populate::md_viewpacket_record(it),
    )->Ok_0;
    let c = crate::populate::records_of(
        items,
        "Component"@,
        |it: crate::xml::XmlItemView| crate::md_populate::md_component_record(it),
    )->Ok_0;
    let r = crate::populate::records_of(
        items,
        "ComponentRelation"@,
        |it: crate::xml::XmlItemView| crate::md_populate::md_relation_record(it),
    )->Ok_0;
    let b = crate::populate::records_of(
        items,
        "Behavior"@,
        |it: crate::xml::XmlItemView| crate::md_populate::md_behavior_record(it),
    )->Ok_0;
    let m = crate::md_db::md_tables(after);
    assert(m[crate::md_db::MdTable::ViewPacket] == crate::md_db::md_viewpacket_rows(v));
    assert(m[crate::md_db::MdTable::Component] == crate::md_db::md_component_rows(c));
    assert(m[crate::md_db::MdTable::ComponentRelation] == crate::md_db::md_relation_rows(r));
    assert(m[crate::md_db::MdTable::Behavior] == crate::md_db::md_behavior_rows(b));
    crate::order::lemma_map_injective_multiset(
        t.viewpackets,
        v,
        |x: ViewPacketView| crate::md_db::MdRowView::ViewPacket(x),
        |x: crate::md_db::MdRowView| md_viewpacket_of(x),
    );
    crate::order::lemma_map_injective_multiset(
        t.components,
        c,
        |x: ComponentView| crate::md_db::MdRowView::Component(x),
        |x: crate::md_db::MdRowView| md_component_of(x),
    );
    crate::order::lemma_map_injective_multiset(
        t.relations,
        r,
        |x: RelationRowView| crate::md_db::MdRowView::ComponentRelation(x),
        |x: crate::md_db::MdRowView| md_relation_of(x),
    );
    crate::order::lemma_map_injective_multiset(
        t.behaviors,
        b,
        |x: BehaviorView| crate::md_db::MdRowView::Behavior(x),
        |x: crate::md_db::MdRowView| md_behavior_of(x),
    );
}

} // verus!
