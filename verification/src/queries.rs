//! The document's queries, computed over the rows of its tables. Each
//! function here states exactly which rows it returns and in which order;
//! the database functions of `retrieval` read the tables and call these.

use vstd::prelude::*;
use crate::models::{
    Behavior, BehaviorView, Component, ComponentRelation, ComponentRelationView, ComponentView,
    ContextModel, ContextModelView, Document, DocumentView, Include, IncludeView,
    KeyedContextModel, KeyedContextModelView, Record, ViewPacket, ViewPacketView,
};
use crate::order::{
    first_where, is_first_match, is_ordered_selection, lemma_map_multiset,
    lemma_multiset_no_duplicates, lemma_multiset_same_set, lemma_num_key_order,
    lemma_text_key_order, lemma_text_then_num_order, num_key_order, select_ordered, select_where,
    sort_by_leq, sorted_stably, text_key_order, text_then_num_order, total_preorder, views,
};
use vstd::relations::sorted_by;
use crate::text::{nocase, str_equal, text_le_exec};

verus! {

broadcast use vstd::seq_lib::group_to_multiset_ensures;

// ---------------------------------------------------------------- components

/// Components in the order of their names, ASCII case folded
/// (`ORDER BY name COLLATE NOCASE`).
pub open spec fn component_name_order() -> spec_fn(ComponentView, ComponentView) -> bool {
    text_key_order(|c: ComponentView| nocase(c.name))
}

/// Components with the given id.
pub open spec fn component_has_id(id: u64) -> spec_fn(ComponentView) -> bool {
    |c: ComponentView| c.id == id
}

/// Components with the given name.
pub open spec fn component_has_name(name: Seq<char>) -> spec_fn(ComponentView) -> bool {
    |c: ComponentView| c.name == name
}

/// Components assigned to the given team.
pub open spec fn component_has_team(team_id: u64) -> spec_fn(ComponentView) -> bool {
    |c: ComponentView| c.team_id == team_id
}

/// Every component.
pub open spec fn any_component() -> spec_fn(ComponentView) -> bool {
    |c: ComponentView| true
}

fn compare_component_names(a: &Component, b: &Component) -> (r: bool)
    ensures
        r == component_name_order()(a@, b@),
{
    text_le_exec(a.name.as_str(), b.name.as_str(), true)
}

/// The first component of `rows` with the given id.
pub fn component_with_id(rows: &Vec<Component>, id: u64) -> (out: Option<Component>)
    ensures
        is_first_match(out, views(rows@), component_has_id(id)),
{
    first_where(
        rows,
        &(|c: &Component| -> (r: bool)
            ensures
                r == component_has_id(id)(c@),
            { c.id == id }),
        Ghost(component_has_id(id)),
    )
}

/// The first component of `rows` with the given name.
pub fn component_with_name(rows: &Vec<Component>, name: &str) -> (out: Option<Component>)
    ensures
        is_first_match(out, views(rows@), component_has_name(name@)),
{
    first_where(
        rows,
        &(|c: &Component| -> (r: bool)
            ensures
                r == component_has_name(name@)(c@),
            { str_equal(c.name.as_str(), name) }),
        Ghost(component_has_name(name@)),
    )
}

/// All components, ordered by name without regard to ASCII case.
pub fn components_sorted_by_name(rows: &Vec<Component>) -> (out: Vec<Component>)
    ensures
        is_ordered_selection(views(out@), views(rows@), any_component(), component_name_order()),
{
    proof {
        lemma_text_key_order(|c: ComponentView| nocase(c.name));
    }
    select_ordered(
        rows,
        &(|c: &Component| -> (r: bool)
            ensures
                r == any_component()(c@),
            { true }),
        Ghost(any_component()),
        &compare_component_names,
        Ghost(component_name_order()),
    )
}

/// The components of the given team, ordered by name without regard to ASCII
/// case.
pub fn components_of_team(rows: &Vec<Component>, team_id: u64) -> (out: Vec<Component>)
    ensures
        is_ordered_selection(
            views(out@),
            views(rows@),
            component_has_team(team_id),
            component_name_order(),
        ),
{
    proof {
        lemma_text_key_order(|c: ComponentView| nocase(c.name));
    }
    select_ordered(
        rows,
        &(|c: &Component| -> (r: bool)
            ensures
                r == component_has_team(team_id)(c@),
            { c.team_id == team_id }),
        Ghost(component_has_team(team_id)),
        &compare_component_names,
        Ghost(component_name_order()),
    )
}


/// The names of the components, in their order.
pub open spec fn component_names(rows: Seq<ComponentView>) -> Seq<Seq<char>> {
    rows.map_values(|c: ComponentView| c.name)
}

/// Texts ordered without regard to ASCII case.
pub open spec fn nocase_order() -> spec_fn(Seq<char>, Seq<char>) -> bool {
    text_key_order(|s: Seq<char>| nocase(s))
}

fn compare_nocase(a: &String, b: &String) -> (r: bool)
    ensures
        r == nocase_order()(a@, b@),
{
    text_le_exec(a.as_str(), b.as_str(), true)
}

/// The names of all components, ordered without regard to ASCII case.
pub fn component_names_sorted(rows: &Vec<Component>) -> (out: Vec<String>)
    ensures
        views(out@).to_multiset() == component_names(views(rows@)).to_multiset(),
        sorted_by(views(out@), nocase_order()),
{
    let mut names: Vec<String> = Vec::new();
    let mut i: usize = 0;
    while i < rows.len()
        invariant
            i <= rows.len(),
            views(names@) == component_names(views(rows@)).take(i as int),
        decreases rows.len() - i,
    {
        let n = rows[i].name.clone();
        assert(views(rows@)[i as int] == rows@[i as int]@);
        let ghost before = views(names@);
        names.push(n);
        assert(views(names@) =~= before.push(n@));
        assert(views(names@) =~= component_names(views(rows@)).take(i + 1));
        i = i + 1;
    }
    assert(component_names(views(rows@)).take(rows.len() as int) =~= component_names(
        views(rows@),
    ));
    proof {
        lemma_text_key_order(|s: Seq<char>| nocase(s));
    }
    sort_by_leq(names, &compare_nocase, Ghost(nocase_order()))
}

/// `rels` holds a relation with the given key that starts or ends at the
/// component `id`.
pub open spec fn relation_touches(rels: Seq<ComponentRelationView>, key: Seq<char>, id: u64) -> bool {
    exists|i: int|
        0 <= i < rels.len() && (#[trigger] rels[i]).key == key && (rels[i].component_a_id == id
            || rels[i].component_b_id == id)
}

/// Components that a relation with the given key starts or ends at.
pub open spec fn component_in_relations(
    rels: Seq<ComponentRelationView>,
    key: Seq<char>,
) -> spec_fn(ComponentView) -> bool {
    |c: ComponentView| relation_touches(rels, key, c.id)
}

fn touches(rels: &Vec<ComponentRelation>, key: &str, id: u64) -> (r: bool)
    ensures
        r == relation_touches(views(rels@), key@, id),
{
    let mut i: usize = 0;
    while i < rels.len()
        invariant
            i <= rels.len(),
            forall|j: int|
                0 <= j < i ==> !((#[trigger] views(rels@)[j]).key == key@ && (
                views(rels@)[j].component_a_id == id || views(rels@)[j].component_b_id == id)),
        decreases rels.len() - i,
    {
        let r = &rels[i];
        if str_equal(r.key.as_str(), key) && (r.component_a_id == id || r.component_b_id == id) {
            assert(views(rels@)[i as int] == r@);
            assert(views(rels@)[i as int].key == key@);
            return true;
        }
        assert(views(rels@)[i as int] == r@);
        i = i + 1;
    }
    false
}

/// The rows of `rows` without repeats: each distinct row once, at its first
/// place.
pub fn distinct_components(rows: Vec<Component>) -> (out: Vec<Component>)
    ensures
        views(out@).no_duplicates(),
        views(out@).to_set() == views(rows@).to_set(),
{
    let mut out: Vec<Component> = Vec::new();
    let mut i: usize = 0;
    while i < rows.len()
        invariant
            i <= rows.len(),
            views(out@).no_duplicates(),
            views(out@).to_set() == views(rows@).take(i as int).to_set(),
        decreases rows.len() - i,
    {
        let mut seen = false;
        let mut j: usize = 0;
        while j < out.len()
            invariant
                j <= out.len(),
                i < rows.len(),
                seen <==> exists|k: int| 0 <= k < j && views(out@)[k] == rows@[i as int]@,
            decreases out.len() - j,
        {
            if out[j].same_as(&rows[i]) {
                seen = true;
                assert(views(out@)[j as int] == out@[j as int]@);
            }
            assert(views(out@)[j as int] == out@[j as int]@);
            j = j + 1;
        }
        let ghost before = views(out@);
        assert(views(rows@).take(i + 1) =~= views(rows@).take(i as int).push(rows@[i as int]@));
        if !seen {
            let x = rows[i].duplicate();
            out.push(x);
            assert(views(out@) =~= before.push(x@));
            proof {
                crate::order::lemma_push_to_set(before, x@);
                crate::order::lemma_push_to_set(views(rows@).take(i as int), x@);
            }
            assert(views(out@).no_duplicates()) by {
                assert forall|a: int, b: int| 0 <= a < b < views(out@).len() implies views(
                    out@,
                )[a] != views(out@)[b] by {
                    if b == views(out@).len() - 1 {
                        assert(views(out@)[a] == before[a]);
                    }
                }
            }
            assert(views(out@).to_set() =~= views(rows@).take(i + 1).to_set());
        } else {
            let ghost k = choose|k: int| 0 <= k < out.len() && views(out@)[k] == rows@[i as int]@;
            assert forall|a| views(rows@).take(i + 1).to_set().contains(a) implies views(
                out@,
            ).to_set().contains(a) by {
                if a == rows@[i as int]@ {
                    assert(views(out@)[k] == a);
                } else {
                    let m = choose|m: int|
                        0 <= m < i + 1 && #[trigger] views(rows@).take(i + 1)[m] == a;
                    assert(views(rows@).take(i as int)[m] == a);
                    assert(views(rows@).take(i as int).to_set().contains(a));
                }
            }
            assert(views(out@).to_set() =~= views(rows@).take(i + 1).to_set());
        }
        i = i + 1;
    }
    assert(views(rows@).take(rows.len() as int) =~= views(rows@));
    out
}

/// No two rows of `rows` have the same id, as where `id` is the table's key.
pub open spec fn component_ids_unique(rows: Seq<ComponentView>) -> bool {
    forall|i: int, j: int|
        0 <= i < rows.len() && 0 <= j < rows.len() && #[trigger] rows[i].id == #[trigger] rows[j].id ==> i == j
}

/// Distinct rows drawn from rows with unique ids have unique ids.
proof fn lemma_distinct_rows_unique_ids(out: Seq<ComponentView>, rows: Seq<ComponentView>)
    requires
        component_ids_unique(rows),
        out.no_duplicates(),
        forall|a: ComponentView| out.to_set().contains(a) ==> rows.to_set().contains(a),
    ensures
        component_ids_unique(out),
{
    assert forall|a: int, b: int|
        0 <= a < out.len() && 0 <= b < out.len() && #[trigger] out[a].id == #[trigger] out[b].id implies a == b by {
        assert(out.to_set().contains(out[a]));
        assert(out.to_set().contains(out[b]));
        let i = choose|i: int| 0 <= i < rows.len() && rows[i] == out[a];
        let j = choose|j: int| 0 <= j < rows.len() && rows[j] == out[b];
        assert(rows[i].id == rows[j].id);
    }
}

/// The components that a relation with the given key starts or ends at, each
/// distinct row once, ordered by name without regard to ASCII case
/// (`SELECT DISTINCT ... ORDER BY name COLLATE NOCASE`). Where the
/// components' ids are unique, so are those of the result.
pub fn components_in_relations_with_key(
    components: &Vec<Component>,
    relations: &Vec<ComponentRelation>,
    key: &str,
) -> (out: Vec<Component>)
    ensures
        views(out@).to_set() == views(components@).filter(
            component_in_relations(views(relations@), key@),
        ).to_set(),
        views(out@).no_duplicates(),
        sorted_by(views(out@), component_name_order()),
        component_ids_unique(views(components@)) ==> component_ids_unique(views(out@)),
{
    let ghost p = component_in_relations(views(relations@), key@);
    let selected = select_where(
        components,
        &(|c: &Component| -> (r: bool)
            ensures
                r == component_in_relations(views(relations@), key@)(c@),
            { touches(relations, key, c.id) }),
        Ghost(p),
    );
    let distinct = distinct_components(selected);
    proof {
        lemma_text_key_order(|c: ComponentView| nocase(c.name));
    }
    let ghost d = views(distinct@);
    let out = sort_by_leq(distinct, &compare_component_names, Ghost(component_name_order()));
    proof {
        lemma_multiset_same_set(views(out@), d);
        lemma_multiset_no_duplicates(views(out@), d);
        if component_ids_unique(views(components@)) {
            assert forall|a: ComponentView| views(out@).to_set().contains(a) implies views(
                components@,
            ).to_set().contains(a) by {
                assert(views(components@).filter(p).to_set().contains(a));
                views(components@).lemma_filter_contains_rev(p, a);
            }
            lemma_distinct_rows_unique_ids(views(out@), views(components@));
        }
    }
    out
}

// ------------------------------------------------------------ context models

/// The context-model entry for the component adjacent to the focus.
pub open spec fn adjacent_entry(c: ComponentView) -> ContextModelView {
    ContextModelView {
        entity: c.name,
        entity_type: "adjacent"@,
        description: c.summary,
        reference: Seq::empty(),
    }
}

/// The context-model entry for the connection that a relation describes.
pub open spec fn connection_entry(r: ComponentRelationView) -> ContextModelView {
    ContextModelView {
        entity: r.relation_text,
        entity_type: "connection"@,
        description: r.relation_description,
        reference: Seq::empty(),
    }
}

/// For the relation `r`, an adjacent and a connection entry for each
/// component of `comps` that `r` ends at, in the order of `comps`.
pub open spec fn relation_entries(r: ComponentRelationView, comps: Seq<ComponentView>) -> Seq<
    ContextModelView,
>
    decreases comps.len(),
{
    if comps.len() == 0 {
        Seq::empty()
    } else {
        relation_entries(r, comps.drop_last()) + if comps.last().id == r.component_b_id {
            seq![adjacent_entry(comps.last()), connection_entry(r)]
        } else {
            Seq::empty()
        }
    }
}

/// The context-model entries that the relations with the given key yield
/// (the join of relations and their end components), relation by relation.
pub open spec fn context_entries(
    rels: Seq<ComponentRelationView>,
    comps: Seq<ComponentView>,
    key: Seq<char>,
) -> Seq<ContextModelView>
    decreases rels.len(),
{
    if rels.len() == 0 {
        Seq::empty()
    } else {
        context_entries(rels.drop_last(), comps, key) + if rels.last().key == key {
            relation_entries(rels.last(), comps)
        } else {
            Seq::empty()
        }
    }
}

fn adjacent(c: &Component) -> (e: ContextModel)
    ensures
        e@ == adjacent_entry(c@),
{
    ContextModel {
        entity: c.name.clone(),
        entity_type: String::from_str("adjacent"),
        description: c.summary.clone(),
        reference: String::new(),
    }
}

fn connection(r: &ComponentRelation) -> (e: ContextModel)
    ensures
        e@ == connection_entry(r@),
{
    ContextModel {
        entity: r.relation_text.clone(),
        entity_type: String::from_str("connection"),
        description: r.relation_description.clone(),
        reference: String::new(),
    }
}

/// The context-model entries derived from the relations with the given key
/// and the components that they end at.
pub fn context_model_entries(
    relations: &Vec<ComponentRelation>,
    components: &Vec<Component>,
    key: &str,
) -> (out: Vec<ContextModel>)
    ensures
        views(out@) == context_entries(views(relations@), views(components@), key@),
{
    let ghost comps = views(components@);
    let mut out: Vec<ContextModel> = Vec::new();
    let mut i: usize = 0;
    assert(views(relations@).take(0) =~= Seq::<ComponentRelationView>::empty());
    assert(views(out@) =~= Seq::<ContextModelView>::empty());
    while i < relations.len()
        invariant
            i <= relations.len(),
            comps == views(components@),
            views(out@) == context_entries(views(relations@).take(i as int), comps, key@),
        decreases relations.len() - i,
    {
        let r = &relations[i];
        let ghost rv = views(relations@)[i as int];
        assert(rv == r@);
        assert(views(relations@).take(i + 1).drop_last() =~= views(relations@).take(i as int));
        if str_equal(r.key.as_str(), key) {
            let mut j: usize = 0;
            let ghost base = views(out@);
            assert(comps.take(0) =~= Seq::<ComponentView>::empty());
            assert(base + relation_entries(rv, comps.take(0)) =~= base);
            while j < components.len()
                invariant
                    j <= components.len(),
                    comps == views(components@),
                    rv == r@,
                    views(out@) == base + relation_entries(rv, comps.take(j as int)),
                decreases components.len() - j,
            {
                let c = &components[j];
                assert(comps[j as int] == c@);
                assert(comps.take(j + 1).drop_last() =~= comps.take(j as int));
                let ghost mid = views(out@);
                if c.id == r.component_b_id {
                    let a = adjacent(c);
                    let b = connection(r);
                    out.push(a);
                    out.push(b);
                    assert(views(out@) =~= mid + seq![adjacent_entry(c@), connection_entry(rv)]);
                } else {
                    assert(views(out@) =~= mid + Seq::<ContextModelView>::empty());
                }
                assert(views(out@) =~= base + relation_entries(rv, comps.take(j + 1)));
                j = j + 1;
            }
            assert(comps.take(components.len() as int) =~= comps);
            assert(views(out@) =~= context_entries(views(relations@).take(i + 1), comps, key@));
        } else {
            assert(views(out@) =~= context_entries(views(relations@).take(i + 1), comps, key@));
        }
        i = i + 1;
    }
    assert(views(relations@).take(relations.len() as int) =~= views(relations@));
    out
}

/// Rows of the context-model table with the given key.
pub open spec fn context_has_key(key: Seq<char>) -> spec_fn(KeyedContextModelView) -> bool {
    |m: KeyedContextModelView| m.key == key
}

/// Context-model rows ordered by their entity, ASCII case folded
/// (`ORDER BY LOWER(entity)`).
pub open spec fn context_entity_order() -> spec_fn(KeyedContextModelView, KeyedContextModelView) -> bool {
    text_key_order(|m: KeyedContextModelView| nocase(m.model.entity))
}

/// Context-model entries ordered by their entity, ASCII case folded.
pub open spec fn entity_order() -> spec_fn(ContextModelView, ContextModelView) -> bool {
    text_key_order(|m: ContextModelView| nocase(m.entity))
}

/// The entries of the context model with the given key, ordered by entity
/// without regard to ASCII case.
pub fn context_model_with_key(rows: &Vec<KeyedContextModel>, key: &str) -> (out: Vec<ContextModel>)
    ensures
        views(out@).to_multiset() == views(rows@).filter(context_has_key(key@)).map_values(
            |m: KeyedContextModelView| m.model,
        ).to_multiset(),
        sorted_by(views(out@), entity_order()),
{
    proof {
        lemma_text_key_order(|m: KeyedContextModelView| nocase(m.model.entity));
    }
    let sorted = select_ordered(
        rows,
        &(|m: &KeyedContextModel| -> (r: bool)
            ensures
                r == context_has_key(key@)(m@),
            { str_equal(m.key.as_str(), key) }),
        Ghost(context_has_key(key@)),
        &(|a: &KeyedContextModel, b: &KeyedContextModel| -> (r: bool)
            ensures
                r == context_entity_order()(a@, b@),
            { text_le_exec(a.model.entity.as_str(), b.model.entity.as_str(), true) }),
        Ghost(context_entity_order()),
    );
    let mut out: Vec<ContextModel> = Vec::new();
    let mut i: usize = 0;
    let ghost project = |m: KeyedContextModelView| m.model;
    while i < sorted.len()
        invariant
            i <= sorted.len(),
            project == (|m: KeyedContextModelView| m.model),
            views(out@) == views(sorted@).take(i as int).map_values(project),
        decreases sorted.len() - i,
    {
        let m = sorted[i].model.duplicate();
        assert(views(sorted@)[i as int] == sorted@[i as int]@);
        let ghost before = views(out@);
        out.push(m);
        assert(views(out@) =~= before.push(m@));
        assert(project(views(sorted@)[i as int]) == m@);
        assert forall|j: int| 0 <= j < i + 1 implies #[trigger] views(sorted@).take(i + 1).map_values(project)[j] == views(out@)[j] by {
            if j < i {
                assert(views(sorted@).take(i + 1).map_values(project)[j] == views(sorted@).take(i as int).map_values(project)[j]);
            }
        }
        assert(views(out@) =~= views(sorted@).take(i + 1).map_values(project));
        i = i + 1;
    }
    assert(views(sorted@).take(sorted.len() as int) =~= views(sorted@));
    proof {
        lemma_map_multiset(views(sorted@), views(rows@).filter(context_has_key(key@)), project);
        assert forall|a: int, b: int| 0 <= a < b < views(out@).len() implies #[trigger] entity_order()(
            views(out@)[a],
            views(out@)[b],
        ) by {
            assert(context_entity_order()(views(sorted@)[a], views(sorted@)[b]));
        }
    }
    out
}


// ---------------------------------------------------------------- behaviors

/// Behaviors ordered by their sort order (`ORDER BY sort_order`).
pub open spec fn behavior_sort_order() -> spec_fn(BehaviorView, BehaviorView) -> bool {
    num_key_order(|b: BehaviorView| b.sort_order)
}

/// Behaviors ordered by diagram key, then sort order
/// (`ORDER BY diagram_key, sort_order`).
pub open spec fn behavior_key_order() -> spec_fn(BehaviorView, BehaviorView) -> bool {
    text_then_num_order(|b: BehaviorView| b.diagram_key, |b: BehaviorView| b.sort_order)
}

/// Behaviors of the given view packet.
pub open spec fn behavior_of_viewpacket(viewpacket_id: u64) -> spec_fn(BehaviorView) -> bool {
    |b: BehaviorView| b.view_packet_id == viewpacket_id
}

/// Every behavior.
pub open spec fn any_behavior() -> spec_fn(BehaviorView) -> bool {
    |b: BehaviorView| true
}

/// The behaviors of the given view packet, ordered by sort order.
pub fn behaviors_of_viewpacket(rows: &Vec<Behavior>, viewpacket_id: u64) -> (out: Vec<Behavior>)
    ensures
        is_ordered_selection(
            views(out@),
            views(rows@),
            behavior_of_viewpacket(viewpacket_id),
            behavior_sort_order(),
        ),
{
    proof {
        lemma_num_key_order(|b: BehaviorView| b.sort_order);
    }
    select_ordered(
        rows,
        &(|b: &Behavior| -> (r: bool)
            ensures
                r == behavior_of_viewpacket(viewpacket_id)(b@),
            { b.view_packet_id == viewpacket_id }),
        Ghost(behavior_of_viewpacket(viewpacket_id)),
        &(|a: &Behavior, b: &Behavior| -> (r: bool)
            ensures
                r == behavior_sort_order()(a@, b@),
            { a.sort_order <= b.sort_order }),
        Ghost(behavior_sort_order()),
    )
}

/// All behaviors, ordered by diagram key and then sort order.
pub fn behaviors_sorted_by_key_and_order(rows: &Vec<Behavior>) -> (out: Vec<Behavior>)
    ensures
        is_ordered_selection(views(out@), views(rows@), any_behavior(), behavior_key_order()),
{
    proof {
        lemma_text_then_num_order(|b: BehaviorView| b.diagram_key, |b: BehaviorView| b.sort_order);
    }
    select_ordered(
        rows,
        &(|b: &Behavior| -> (r: bool)
            ensures
                r == any_behavior()(b@),
            { true }),
        Ghost(any_behavior()),
        &(|a: &Behavior, b: &Behavior| -> (r: bool)
            ensures
                r == behavior_key_order()(a@, b@),
            {
                if str_equal(a.diagram_key.as_str(), b.diagram_key.as_str()) {
                    a.sort_order <= b.sort_order
                } else {
                    text_le_exec(a.diagram_key.as_str(), b.diagram_key.as_str(), false)
                }
            }),
        Ghost(behavior_key_order()),
    )
}

// ------------------------------------------------------- component relations

/// Relations ordered by sort order.
pub open spec fn relation_sort_order() -> spec_fn(ComponentRelationView, ComponentRelationView) -> bool {
    num_key_order(|r: ComponentRelationView| r.sort_order)
}

/// Relations ordered by key, then sort order (`ORDER BY key, sort_order`).
pub open spec fn relation_key_order() -> spec_fn(ComponentRelationView, ComponentRelationView) -> bool {
    text_then_num_order(|r: ComponentRelationView| r.key, |r: ComponentRelationView| r.sort_order)
}

/// Relations ordered by id.
pub open spec fn relation_id_order() -> spec_fn(ComponentRelationView, ComponentRelationView) -> bool {
    num_key_order(|r: ComponentRelationView| r.id)
}

/// Relations with the given key that start at the component `id`.
pub open spec fn relation_from_with_key(id: u64, key: Seq<char>) -> spec_fn(ComponentRelationView) -> bool {
    |r: ComponentRelationView| r.component_a_id == id && r.key == key
}

/// Relations with the given key that start or end at the component `id`.
pub open spec fn relation_at_with_key(id: u64, key: Seq<char>) -> spec_fn(ComponentRelationView) -> bool {
    |r: ComponentRelationView| (r.component_a_id == id || r.component_b_id == id) && r.key == key
}

/// Relations with the given key.
pub open spec fn relation_with_key(key: Seq<char>) -> spec_fn(ComponentRelationView) -> bool {
    |r: ComponentRelationView| r.key == key
}

/// Relations with the given style that end at the component `id`.
pub open spec fn relation_to_with_style(id: u64, style: Seq<char>) -> spec_fn(ComponentRelationView) -> bool {
    |r: ComponentRelationView| r.component_b_id == id && r.style == style
}

/// Every relation.
pub open spec fn any_relation() -> spec_fn(ComponentRelationView) -> bool {
    |r: ComponentRelationView| true
}

fn compare_relation_sort_order(a: &ComponentRelation, b: &ComponentRelation) -> (r: bool)
    ensures
        r == relation_sort_order()(a@, b@),
{
    a.sort_order <= b.sort_order
}

/// The relations with the given key that start at the component `id`,
/// ordered by sort order.
pub fn relations_from_component_with_key(
    rows: &Vec<ComponentRelation>,
    id: u64,
    key: &str,
) -> (out: Vec<ComponentRelation>)
    ensures
        is_ordered_selection(
            views(out@),
            views(rows@),
            relation_from_with_key(id, key@),
            relation_sort_order(),
        ),
{
    proof {
        lemma_num_key_order(|r: ComponentRelationView| r.sort_order);
    }
    select_ordered(
        rows,
        &(|r: &ComponentRelation| -> (b: bool)
            ensures
                b == relation_from_with_key(id, key@)(r@),
            { r.component_a_id == id && str_equal(r.key.as_str(), key) }),
        Ghost(relation_from_with_key(id, key@)),
        &compare_relation_sort_order,
        Ghost(relation_sort_order()),
    )
}

/// The relations with the given key that start or end at the component
/// `id`, ordered by sort order.
pub fn relations_at_component_with_key(
    rows: &Vec<ComponentRelation>,
    id: u64,
    key: &str,
) -> (out: Vec<ComponentRelation>)
    ensures
        is_ordered_selection(
            views(out@),
            views(rows@),
            relation_at_with_key(id, key@),
            relation_sort_order(),
        ),
{
    proof {
        lemma_num_key_order(|r: ComponentRelationView| r.sort_order);
    }
    select_ordered(
        rows,
        &(|r: &ComponentRelation| -> (b: bool)
            ensures
                b == relation_at_with_key(id, key@)(r@),
            {
                (r.component_a_id == id || r.component_b_id == id) && str_equal(
                    r.key.as_str(),
                    key,
                )
            }),
        Ghost(relation_at_with_key(id, key@)),
        &compare_relation_sort_order,
        Ghost(relation_sort_order()),
    )
}

/// The relations with the given key, ordered by sort order.
pub fn relations_with_key(rows: &Vec<ComponentRelation>, key: &str) -> (out: Vec<ComponentRelation>)
    ensures
        is_ordered_selection(
            views(out@),
            views(rows@),
            relation_with_key(key@),
            relation_sort_order(),
        ),
{
    proof {
        lemma_num_key_order(|r: ComponentRelationView| r.sort_order);
    }
    select_ordered(
        rows,
        &(|r: &ComponentRelation| -> (b: bool)
            ensures
                b == relation_with_key(key@)(r@),
            { str_equal(r.key.as_str(), key) }),
        Ghost(relation_with_key(key@)),
        &compare_relation_sort_order,
        Ghost(relation_sort_order()),
    )
}

/// All relations, ordered by key and then sort order.
pub fn relations_sorted_by_key_and_order(rows: &Vec<ComponentRelation>) -> (out: Vec<ComponentRelation>)
    ensures
        is_ordered_selection(views(out@), views(rows@), any_relation(), relation_key_order()),
{
    proof {
        lemma_text_then_num_order(
            |r: ComponentRelationView| r.key,
            |r: ComponentRelationView| r.sort_order,
        );
    }
    select_ordered(
        rows,
        &(|r: &ComponentRelation| -> (b: bool)
            ensures
                b == any_relation()(r@),
            { true }),
        Ghost(any_relation()),
        &(|a: &ComponentRelation, b: &ComponentRelation| -> (r: bool)
            ensures
                r == relation_key_order()(a@, b@),
            {
                if str_equal(a.key.as_str(), b.key.as_str()) {
                    a.sort_order <= b.sort_order
                } else {
                    text_le_exec(a.key.as_str(), b.key.as_str(), false)
                }
            }),
        Ghost(relation_key_order()),
    )
}

/// The relations with the given style that end at the component `id`:
/// the components that use it. Ordered by relation id.
pub fn relations_to_component_with_style(
    rows: &Vec<ComponentRelation>,
    id: u64,
    style: &str,
) -> (out: Vec<ComponentRelation>)
    ensures
        is_ordered_selection(
            views(out@),
            views(rows@),
            relation_to_with_style(id, style@),
            relation_id_order(),
        ),
{
    proof {
        lemma_num_key_order(|r: ComponentRelationView| r.id);
    }
    select_ordered(
        rows,
        &(|r: &ComponentRelation| -> (b: bool)
            ensures
                b == relation_to_with_style(id, style@)(r@),
            { r.component_b_id == id && str_equal(r.style.as_str(), style) }),
        Ghost(relation_to_with_style(id, style@)),
        &(|a: &ComponentRelation, b: &ComponentRelation| -> (r: bool)
            ensures
                r == relation_id_order()(a@, b@),
            { a.id <= b.id }),
        Ghost(relation_id_order()),
    )
}


// -------------------------------------------------------------- view packets

/// View packets ordered by sort order.
pub open spec fn viewpacket_sort_order() -> spec_fn(ViewPacketView, ViewPacketView) -> bool {
    num_key_order(|v: ViewPacketView| v.sort_order)
}

/// View packets of the given type and style.
pub open spec fn viewpacket_of_type_and_style(view_type: Seq<char>, style: Seq<char>) -> spec_fn(
    ViewPacketView,
) -> bool {
    |v: ViewPacketView| v.view_type == view_type && v.view_style == style
}

/// View packets of the given type and style that come from the given file.
pub open spec fn viewpacket_of_type_style_and_file(
    view_type: Seq<char>,
    style: Seq<char>,
    file_id: u64,
) -> spec_fn(ViewPacketView) -> bool {
    |v: ViewPacketView| v.view_type == view_type && v.view_style == style && v.file_id == file_id
}

/// View packets of the component `component_id`, except the view packet
/// `exclude_viewpacket_id`.
pub open spec fn viewpacket_of_component_except(component_id: u64, exclude_viewpacket_id: u64) -> spec_fn(
    ViewPacketView,
) -> bool {
    |v: ViewPacketView| v.component_id == component_id && v.viewpacket_id != exclude_viewpacket_id
}

/// The view packets that `get_vector_of_any_viewpacket_by_component_id_excluding_viewpacket_id`
/// lists: for component 0 those of the type and style, otherwise those of the
/// component except the excluded one.
pub open spec fn viewpacket_related(
    component_id: u64,
    view_type: Seq<char>,
    style: Seq<char>,
    exclude_viewpacket_id: u64,
) -> spec_fn(ViewPacketView) -> bool {
    if component_id == 0 {
        viewpacket_of_type_and_style(view_type, style)
    } else {
        viewpacket_of_component_except(component_id, exclude_viewpacket_id)
    }
}

/// As `viewpacket_related`, with the view packets of type and style limited
/// to those of the given file.
pub open spec fn viewpacket_related_in_file(
    component_id: u64,
    view_type: Seq<char>,
    style: Seq<char>,
    exclude_viewpacket_id: u64,
    file_id: u64,
) -> spec_fn(ViewPacketView) -> bool {
    if component_id == 0 {
        viewpacket_of_type_style_and_file(view_type, style, file_id)
    } else {
        viewpacket_of_component_except(component_id, exclude_viewpacket_id)
    }
}

/// View packets of the given team.
pub open spec fn viewpacket_of_team(team_id: u64) -> spec_fn(ViewPacketView) -> bool {
    |v: ViewPacketView| v.team_id == team_id
}

/// View packets with the given title.
pub open spec fn viewpacket_with_title_spec(title: Seq<char>) -> spec_fn(ViewPacketView) -> bool {
    |v: ViewPacketView| v.title == title
}

/// View packets of the given style and component.
pub open spec fn viewpacket_of_style_and_component(style: Seq<char>, component_id: u64) -> spec_fn(
    ViewPacketView,
) -> bool {
    |v: ViewPacketView| v.view_style == style && v.component_id == component_id
}

fn compare_viewpacket_sort_order(a: &ViewPacket, b: &ViewPacket) -> (r: bool)
    ensures
        r == viewpacket_sort_order()(a@, b@),
{
    a.sort_order <= b.sort_order
}

/// The view packets that `keep` accepts, ordered by sort order.
fn viewpackets_where<F: Fn(&ViewPacket) -> bool>(
    rows: &Vec<ViewPacket>,
    keep: &F,
    Ghost(p): Ghost<spec_fn(ViewPacketView) -> bool>,
) -> (out: Vec<ViewPacket>)
    requires
        forall|a: &ViewPacket| #[trigger] keep.requires((a,)),
        forall|a: &ViewPacket, r: bool| keep.ensures((a,), r) ==> r == p(a@),
    ensures
        is_ordered_selection(views(out@), views(rows@), p, viewpacket_sort_order()),
{
    proof {
        lemma_num_key_order(|v: ViewPacketView| v.sort_order);
    }
    select_ordered(rows, keep, Ghost(p), &compare_viewpacket_sort_order, Ghost(viewpacket_sort_order()))
}

/// The view packets of the given type and style, ordered by sort order.
pub fn viewpackets_of_type_and_style(rows: &Vec<ViewPacket>, view_type: &str, style: &str) -> (out: Vec<
    ViewPacket,
>)
    ensures
        is_ordered_selection(
            views(out@),
            views(rows@),
            viewpacket_of_type_and_style(view_type@, style@),
            viewpacket_sort_order(),
        ),
{
    viewpackets_where(
        rows,
        &(|v: &ViewPacket| -> (r: bool)
            ensures
                r == viewpacket_of_type_and_style(view_type@, style@)(v@),
            {
                str_equal(v.view_type.as_str(), view_type) && str_equal(
                    v.view_style.as_str(),
                    style,
                )
            }),
        Ghost(viewpacket_of_type_and_style(view_type@, style@)),
    )
}

/// For component 0, the view packets of the given type and style; for any
/// other component, its view packets except `exclude_viewpacket_id`. Ordered
/// by sort order.
pub fn viewpackets_related(
    rows: &Vec<ViewPacket>,
    component_id: u64,
    view_type: &str,
    style: &str,
    exclude_viewpacket_id: u64,
) -> (out: Vec<ViewPacket>)
    ensures
        is_ordered_selection(
            views(out@),
            views(rows@),
            viewpacket_related(component_id, view_type@, style@, exclude_viewpacket_id),
            viewpacket_sort_order(),
        ),
{
    if component_id == 0 {
        viewpackets_of_type_and_style(rows, view_type, style)
    } else {
        viewpackets_where(
            rows,
            &(|v: &ViewPacket| -> (r: bool)
                ensures
                    r == viewpacket_of_component_except(component_id, exclude_viewpacket_id)(v@),
                { v.component_id == component_id && v.viewpacket_id != exclude_viewpacket_id }),
            Ghost(viewpacket_of_component_except(component_id, exclude_viewpacket_id)),
        )
    }
}

/// As `viewpackets_related`, with the view packets of type and style limited
/// to those of the file `file_id`.
pub fn viewpackets_related_in_file(
    rows: &Vec<ViewPacket>,
    component_id: u64,
    view_type: &str,
    style: &str,
    exclude_viewpacket_id: u64,
    file_id: u64,
) -> (out: Vec<ViewPacket>)
    ensures
        is_ordered_selection(
            views(out@),
            views(rows@),
            viewpacket_related_in_file(
                component_id,
                view_type@,
                style@,
                exclude_viewpacket_id,
                file_id,
            ),
            viewpacket_sort_order(),
        ),
{
    if component_id == 0 {
        viewpackets_where(
            rows,
            &(|v: &ViewPacket| -> (r: bool)
                ensures
                    r == viewpacket_of_type_style_and_file(view_type@, style@, file_id)(v@),
                {
                    str_equal(v.view_type.as_str(), view_type) && str_equal(
                        v.view_style.as_str(),
                        style,
                    ) && v.file_id == file_id
                }),
            Ghost(viewpacket_of_type_style_and_file(view_type@, style@, file_id)),
        )
    } else {
        viewpackets_related(rows, component_id, view_type, style, exclude_viewpacket_id)
    }
}

/// The view packet of the given team with the least sort order, the first
/// in `rows` among those that tie; none for team 0.
pub fn viewpacket_for_team(rows: &Vec<ViewPacket>, team_id: u64) -> (out: Option<ViewPacket>)
    ensures
        match out {
            None => team_id == 0 || views(rows@).filter(viewpacket_of_team(team_id)).len() == 0,
            Some(v) => {
                &&& team_id != 0
                &&& views(rows@).filter(viewpacket_of_team(team_id)).contains(v@)
                &&& forall|w: ViewPacketView|
                    views(rows@).filter(viewpacket_of_team(team_id)).contains(w)
                        ==> v.sort_order <= w.sort_order
                &&& v@ == sorted_stably(views(rows@).filter(viewpacket_of_team(team_id)), viewpacket_sort_order())[0]
            },
        },
{
    if team_id == 0 {
        return None;
    }
    let sorted = viewpackets_where(
        rows,
        &(|v: &ViewPacket| -> (r: bool)
            ensures
                r == viewpacket_of_team(team_id)(v@),
            { v.team_id == team_id }),
        Ghost(viewpacket_of_team(team_id)),
    );
    let ghost f = views(rows@).filter(viewpacket_of_team(team_id));
    proof {
        assert(views(sorted@).len() == f.len()) by {
            assert(views(sorted@).to_multiset().len() == f.to_multiset().len());
        }
    }
    if sorted.len() == 0 {
        return None;
    }
    let v = sorted[0].duplicate();
    proof {
        assert(views(sorted@)[0] == v@);
        assert(views(sorted@).contains(v@));
        assert(f.to_multiset().count(v@) > 0);
        assert forall|w: ViewPacketView| f.contains(w) implies v.sort_order <= w.sort_order by {
            assert(f.to_multiset().count(w) > 0);
            assert(views(sorted@).contains(w));
            let k = choose|k: int| 0 <= k < views(sorted@).len() && views(sorted@)[k] == w;
            if k > 0 {
                assert(viewpacket_sort_order()(views(sorted@)[0], views(sorted@)[k]));
            }
        }
    }
    Some(v)
}

/// The first view packet of `rows` with the given title.
pub fn viewpacket_with_title(rows: &Vec<ViewPacket>, title: &str) -> (out: Option<ViewPacket>)
    ensures
        is_first_match(out, views(rows@), viewpacket_with_title_spec(title@)),
{
    first_where(
        rows,
        &(|v: &ViewPacket| -> (r: bool)
            ensures
                r == viewpacket_with_title_spec(title@)(v@),
            { str_equal(v.title.as_str(), title) }),
        Ghost(viewpacket_with_title_spec(title@)),
    )
}

/// The first view packet of `rows` of the given style and component.
pub fn viewpacket_with_style_and_component(
    rows: &Vec<ViewPacket>,
    style: &str,
    component_id: u64,
) -> (out: Option<ViewPacket>)
    ensures
        is_first_match(out, views(rows@), viewpacket_of_style_and_component(style@, component_id)),
{
    first_where(
        rows,
        &(|v: &ViewPacket| -> (r: bool)
            ensures
                r == viewpacket_of_style_and_component(style@, component_id)(v@),
            { str_equal(v.view_style.as_str(), style) && v.component_id == component_id }),
        Ghost(viewpacket_of_style_and_component(style@, component_id)),
    )
}

/// The titles of the view packets, in their order.
pub open spec fn viewpacket_titles(rows: Seq<ViewPacketView>) -> Seq<Seq<char>> {
    rows.map_values(|v: ViewPacketView| v.title)
}

/// The titles of all view packets, ordered without regard to ASCII case.
pub fn viewpacket_titles_sorted(rows: &Vec<ViewPacket>) -> (out: Vec<String>)
    ensures
        views(out@).to_multiset() == viewpacket_titles(views(rows@)).to_multiset(),
        sorted_by(views(out@), nocase_order()),
{
    let mut titles: Vec<String> = Vec::new();
    let mut i: usize = 0;
    while i < rows.len()
        invariant
            i <= rows.len(),
            views(titles@) == viewpacket_titles(views(rows@)).take(i as int),
        decreases rows.len() - i,
    {
        let t = rows[i].title.clone();
        assert(views(rows@)[i as int] == rows@[i as int]@);
        let ghost before = views(titles@);
        titles.push(t);
        assert(views(titles@) =~= before.push(t@));
        assert(views(titles@) =~= viewpacket_titles(views(rows@)).take(i + 1));
        i = i + 1;
    }
    assert(viewpacket_titles(views(rows@)).take(rows.len() as int) =~= viewpacket_titles(
        views(rows@),
    ));
    proof {
        lemma_text_key_order(|s: Seq<char>| nocase(s));
    }
    sort_by_leq(titles, &compare_nocase, Ghost(nocase_order()))
}

/// `rels` holds a relation whose key differs from `key`, that ends at the
/// component `child` and starts at the component `parent`.
pub open spec fn is_parent_of(
    rels: Seq<ComponentRelationView>,
    child: u64,
    key: Seq<char>,
    parent: u64,
) -> bool {
    exists|i: int|
        0 <= i < rels.len() && (#[trigger] rels[i]).component_b_id == child && rels[i].key != key
            && rels[i].component_a_id == parent
}

/// View packets of the given style whose component is a parent of the
/// component `child` by a relation with another key than `key`.
pub open spec fn viewpacket_of_parent(
    rels: Seq<ComponentRelationView>,
    child: u64,
    style: Seq<char>,
    key: Seq<char>,
) -> spec_fn(ViewPacketView) -> bool {
    |v: ViewPacketView| is_parent_of(rels, child, key, v.component_id) && v.view_style == style
}

fn parent_exists(rels: &Vec<ComponentRelation>, child: u64, key: &str, parent: u64) -> (r: bool)
    ensures
        r == is_parent_of(views(rels@), child, key@, parent),
{
    let mut i: usize = 0;
    while i < rels.len()
        invariant
            i <= rels.len(),
            forall|j: int|
                0 <= j < i ==> !((#[trigger] views(rels@)[j]).component_b_id == child
                    && views(rels@)[j].key != key@ && views(rels@)[j].component_a_id == parent),
        decreases rels.len() - i,
    {
        let r = &rels[i];
        assert(views(rels@)[i as int] == r@);
        if r.component_b_id == child && !str_equal(r.key.as_str(), key) && r.component_a_id
            == parent {
            return true;
        }
        i = i + 1;
    }
    false
}

/// The view packets of the given style that describe a parent of the
/// component `child` (by a relation with another key than `key`), ordered by
/// sort order.
pub fn viewpacket_parents(
    viewpackets: &Vec<ViewPacket>,
    relations: &Vec<ComponentRelation>,
    child: u64,
    style: &str,
    key: &str,
) -> (out: Vec<ViewPacket>)
    ensures
        is_ordered_selection(
            views(out@),
            views(viewpackets@),
            viewpacket_of_parent(views(relations@), child, style@, key@),
            viewpacket_sort_order(),
        ),
{
    viewpackets_where(
        viewpackets,
        &(|v: &ViewPacket| -> (r: bool)
            ensures
                r == viewpacket_of_parent(views(relations@), child, style@, key@)(v@),
            {
                parent_exists(relations, child, key, v.component_id) && str_equal(
                    v.view_style.as_str(),
                    style,
                )
            }),
        Ghost(viewpacket_of_parent(views(relations@), child, style@, key@)),
    )
}

// ------------------------------------------------------ documents and includes

/// Includes of the given file.
pub open spec fn include_of_file(file_id: u64) -> spec_fn(IncludeView) -> bool {
    |i: IncludeView| i.file_id == file_id
}

/// The file id of the first document of `rows`.
pub fn first_document_file_id(rows: &Vec<Document>) -> (out: Option<u64>)
    ensures
        match out {
            Some(f) => views(rows@).len() > 0 && f == views(rows@)[0].file_id,
            None => views(rows@).len() == 0,
        },
{
    if rows.len() == 0 {
        None
    } else {
        assert(views(rows@)[0] == rows@[0]@);
        Some(rows[0].file_id)
    }
}

/// The url of the first include of `rows` of the given file.
pub fn include_url_of_file(rows: &Vec<Include>, file_id: u64) -> (out: Option<String>)
    ensures
        match out {
            Some(u) => views(rows@).filter(include_of_file(file_id)).len() > 0 && u@ == views(
                rows@,
            ).filter(include_of_file(file_id))[0].url,
            None => views(rows@).filter(include_of_file(file_id)).len() == 0,
        },
{
    let found = first_where(
        rows,
        &(|i: &Include| -> (r: bool)
            ensures
                r == include_of_file(file_id)(i@),
            { i.file_id == file_id }),
        Ghost(include_of_file(file_id)),
    );
    match found {
        Some(i) => Some(i.url),
        None => None,
    }
}

} // verus!
