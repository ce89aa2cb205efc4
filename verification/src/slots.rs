//! Slots: where the children of a use of a component come into its tree,
//! and the chain of containers that must be open for each to be mounted.

use crate::duplicate::list_view;
use crate::element::{Column, Common, Container, Element};
use crate::kind::text_view;
use crate::ordered_map::{mapped, view_inserted, view_merged, OrderedMap};
use crate::text::{split_once, trim, views};
use vstd::prelude::*;

verus! {

/// The condition under which what came in through a slot is mounted at the
/// element `set_at`: the identifiers of the containers that must be open,
/// from the element outwards.
#[derive(Debug, PartialEq)]
pub struct ExternalChildrenCondition {
    pub condition: Vec<String>,
    pub set_at: String,
}

pub struct ExternalChildrenConditionView {
    pub condition: Seq<Seq<char>>,
    pub set_at: Seq<char>,
}

impl View for ExternalChildrenCondition {
    type V = ExternalChildrenConditionView;

    open spec fn view(&self) -> ExternalChildrenConditionView {
        ExternalChildrenConditionView { condition: views(self.condition@), set_at: self.set_at@ }
    }
}

/// The paths of a slot, each by its view.
pub open spec fn paths_view(p: Seq<Vec<usize>>) -> Seq<Seq<usize>> {
    Seq::new(p.len(), |i: int| p[i]@)
}

/// What an identifier starts with: what stands before its first colon,
/// without white space at the ends, or all of it where it has no colon.
pub open spec fn identifier_head(id: Seq<char>) -> Seq<char> {
    match split_once(id, ':') {
        Some((head, _)) => trim(head),
        None => id,
    }
}

/// Of the paths from index `index` on, those that lead through child
/// `child` and further, each without its first step; and the index at which
/// the paths of the next child start. Paths that lead through earlier
/// children, and empty paths, are passed over.
pub open spec fn slice_paths(paths: Seq<Seq<usize>>, index: int, child: int) -> (
    Seq<Seq<usize>>,
    int,
)
    decreases paths.len() - index,
{
    if index < 0 || index >= paths.len() {
        (Seq::empty(), index)
    } else if paths[index].len() == 0 {
        slice_paths(paths, index + 1, child)
    } else if paths[index][0] < child {
        slice_paths(paths, index + 1, child)
    } else if paths[index][0] == child && paths[index].len() > 1 {
        let rest = slice_paths(paths, index + 1, child);
        (rest.0.insert(0, paths[index].subrange(1, paths[index].len() as int)), rest.1)
    } else {
        (Seq::empty(), index)
    }
}

/// Each condition with `ancestor` at the end of its chain.
pub open spec fn with_ancestor(
    conditions: Seq<ExternalChildrenConditionView>,
    ancestor: Option<Seq<char>>,
) -> Seq<ExternalChildrenConditionView> {
    match ancestor {
        Some(a) => Seq::new(
            conditions.len(),
            |i: int|
                ExternalChildrenConditionView {
                    condition: conditions[i].condition.push(a),
                    set_at: conditions[i].set_at,
                },
        ),
        None => conditions,
    }
}

/// The conditions for what comes in through the slot `open_id`, as far as
/// they lie in `e` and below. `paths` are the ways to the slot from `e`.
pub open spec fn conditions_of(
    e: Element,
    open_id: Option<Seq<char>>,
    paths: Seq<Seq<usize>>,
) -> Seq<ExternalChildrenConditionView>
    decreases e, 0nat,
{
    match e {
        Element::Row(r) => container_conditions(r.common, r.container, open_id, paths),
        Element::Column(r) => container_conditions(r.common, r.container, open_id, paths),
        Element::Scene(r) => container_conditions(r.common, r.container, open_id, paths),
        _ => Seq::empty(),
    }
}

/// Whether a container with the identifier `id` is the slot `open_id`: no
/// path leads further, and the head of its identifier is `open_id`.
pub open spec fn is_slot(id: Option<Seq<char>>, open_id: Option<Seq<char>>, paths: Seq<Seq<usize>>) -> bool {
    paths.len() == 0 && id is Some && open_id == Some(identifier_head(id->Some_0))
}

/// The conditions that lie in a container. A container that is the slot,
/// and has no slot of its own, gives one condition: itself. Otherwise its
/// children give theirs, for its own slot if it has one and no path leads
/// further, else for the slot that is sought; and where the container is
/// the slot, it is added to their chains.
pub open spec fn container_conditions(
    common: Common,
    k: Container,
    open_id: Option<Seq<char>>,
    paths: Seq<Seq<usize>>,
) -> Seq<ExternalChildrenConditionView>
    decreases k, 0nat,
{
    let id = text_view(common.data_id);
    if is_slot(id, open_id, paths) && k.external_children is None {
        seq![ExternalChildrenConditionView { condition: seq![id->Some_0], set_at: id->Some_0 }]
    } else {
        let ancestor = if is_slot(id, open_id, paths) {
            id
        } else {
            None
        };
        if k.external_children is Some && paths.len() == 0 {
            children_conditions(
                k.children@,
                0,
                Some(k.external_children->Some_0.0@),
                paths_view(k.external_children->Some_0.1@),
                0,
                ancestor,
            )
        } else {
            children_conditions(k.children@, 0, open_id, paths, 0, ancestor)
        }
    }
}

/// The conditions that lie in the children from index `i` on, each child
/// with the paths that lead through it; `index` is where the paths of child
/// `i` start.
pub open spec fn children_conditions(
    children: Seq<Element>,
    i: int,
    open_id: Option<Seq<char>>,
    paths: Seq<Seq<usize>>,
    index: int,
    ancestor: Option<Seq<char>>,
) -> Seq<ExternalChildrenConditionView>
    decreases children, children.len() - i,
{
    if i < 0 || i >= children.len() {
        Seq::empty()
    } else {
        let sliced = slice_paths(paths, index, i);
        with_ancestor(conditions_of(children[i], open_id, sliced.0), ancestor)
            + children_conditions(children, i + 1, open_id, paths, sliced.1, ancestor)
    }
}

fn path_tail(path: &Vec<usize>) -> (r: Vec<usize>)
    requires
        path@.len() > 0,
    ensures
        r@ == path@.subrange(1, path@.len() as int),
{
    let mut out: Vec<usize> = Vec::new();
    let n: usize = path.len();
    let mut i: usize = 1;
    while i < n
        invariant
            n == path@.len(),
            1 <= i <= n,
            out@ == path@.subrange(1, i as int),
        decreases n - i,
    {
        out.push(path[i]);
        assert(out@ =~= path@.subrange(1, i + 1));
        i += 1;
    }
    out
}

fn slice_paths_at(paths: &Vec<Vec<usize>>, index: usize, child: usize) -> (r: (
    Vec<Vec<usize>>,
    usize,
))
    requires
        index <= paths@.len(),
    ensures
        paths_view(r.0@) == slice_paths(paths_view(paths@), index as int, child as int).0,
        r.1 == slice_paths(paths_view(paths@), index as int, child as int).1,
        index <= r.1 <= paths@.len(),
{
    let ghost all = paths_view(paths@);
    let mut out: Vec<Vec<usize>> = Vec::new();
    let mut at: usize = index;
    let n: usize = paths.len();
    assert(paths_view(out@) =~= Seq::<Seq<usize>>::empty());
    while at < n
        invariant
            n == paths@.len(),
            all == paths_view(paths@),
            index <= at <= n,
            slice_paths(all, index as int, child as int).0 == paths_view(out@) + slice_paths(
                all,
                at as int,
                child as int,
            ).0,
            slice_paths(all, index as int, child as int).1 == slice_paths(
                all,
                at as int,
                child as int,
            ).1,
        decreases n - at,
    {
        assert(all[at as int] == paths@[at as int]@);
        if paths[at].len() > 0 {
            let first = paths[at][0];
            if first < child {
                at += 1;
                continue ;
            }
            if first == child && paths[at].len() > 1 {
                let ghost before = paths_view(out@);
                let ghost rest = slice_paths(all, at + 1, child as int).0;
                let tail = path_tail(&paths[at]);
                out.push(tail);
                assert(paths_view(out@) =~= before.push(all[at as int].subrange(1, all[at as int].len() as int)));
                assert(before + rest.insert(0, all[at as int].subrange(1, all[at as int].len() as int))
                    =~= paths_view(out@) + rest);
            } else {
                assert(paths_view(out@) + Seq::<Seq<usize>>::empty() =~= paths_view(out@));
                return (out, at);
            }
        }
        at += 1;
    }
    assert(paths_view(out@) + Seq::<Seq<usize>>::empty() =~= paths_view(out@));
    (out, at)
}

/// The head of the identifier `id`.
fn head_of<'a>(id: &'a str) -> (r: &'a str)
    ensures
        r@ == identifier_head(id@),
{
    match crate::text::split_once_char(id, ':') {
        Some((head, _)) => crate::text::trim_str(head),
        None => id,
    }
}

fn slot_matches(id: &Option<String>, open_id: &Option<String>, paths: &Vec<Vec<usize>>) -> (r: bool)
    ensures
        r == is_slot(text_view(*id), text_view(*open_id), paths_view(paths@)),
{
    if paths.len() != 0 {
        return false;
    }
    match (id, open_id) {
        (Some(i), Some(o)) => crate::text::str_eq(head_of(i.as_str()), o.as_str()),
        _ => false,
    }
}

fn add_ancestor(conditions: &mut Vec<ExternalChildrenCondition>, ancestor: &Option<String>)
    ensures
        list_view(final(conditions)@) == with_ancestor(
            list_view(old(conditions)@),
            text_view(*ancestor),
        ),
{
    match ancestor {
        None => {},
        Some(a) => {
            let n: usize = conditions.len();
            let mut i: usize = 0;
            while i < n
                invariant
                    n == conditions@.len(),
                    n == old(conditions)@.len(),
                    i <= n,
                    forall|j: int|
                        0 <= j < i ==> (#[trigger] conditions@[j])@ == (
                        ExternalChildrenConditionView {
                            condition: old(conditions)@[j]@.condition.push(a@),
                            set_at: old(conditions)@[j]@.set_at,
                        }),
                    forall|j: int| i <= j < n ==> #[trigger] conditions@[j] == old(conditions)@[j],
                decreases n - i,
            {
                let ghost before = conditions@[i as int].condition@;
                conditions[i].condition.push(a.clone());
                assert(views(conditions@[i as int].condition@) =~= views(before).push(a@));
                i += 1;
            }
            assert(list_view(conditions@) =~= with_ancestor(
                list_view(old(conditions)@),
                text_view(*ancestor),
            ));
        },
    }
}

fn container_conditions_of(
    common: &Common,
    k: &Container,
    open_id: &Option<String>,
    paths: &Vec<Vec<usize>>,
) -> (r: Vec<ExternalChildrenCondition>)
    ensures
        list_view(r@) == container_conditions(
            *common,
            *k,
            text_view(*open_id),
            paths_view(paths@),
        ),
    decreases *k, 0nat,
{
    let matched = slot_matches(&common.data_id, open_id, paths);
    if matched && k.external_children.is_none() {
        let id = match &common.data_id {
            Some(id) => id,
            None => {
                return Vec::new();
            },
        };
        let mut chain: Vec<String> = Vec::new();
        chain.push(id.clone());
        let mut out: Vec<ExternalChildrenCondition> = Vec::new();
        out.push(ExternalChildrenCondition { condition: chain, set_at: id.clone() });
        assert(views(chain@) =~= seq![id@]);
        assert(list_view(out@) =~= seq![
            ExternalChildrenConditionView { condition: seq![id@], set_at: id@ },
        ]);
        return out;
    }
    let none: Option<String> = None;
    let ancestor = if matched {
        &common.data_id
    } else {
        &none
    };
    match &k.external_children {
        Some((own, own_paths, _)) => if paths.len() == 0 {
            let own_id = Some(own.clone());
            children_conditions_of(&k.children, &own_id, own_paths, ancestor)
        } else {
            children_conditions_of(&k.children, open_id, paths, ancestor)
        },
        None => children_conditions_of(&k.children, open_id, paths, ancestor),
    }
}

fn children_conditions_of(
    children: &Vec<Element>,
    open_id: &Option<String>,
    paths: &Vec<Vec<usize>>,
    ancestor: &Option<String>,
) -> (r: Vec<ExternalChildrenCondition>)
    ensures
        list_view(r@) == children_conditions(
            children@,
            0,
            text_view(*open_id),
            paths_view(paths@),
            0,
            text_view(*ancestor),
        ),
    decreases children@, children@.len() + 1,
{
    let mut d: Vec<ExternalChildrenCondition> = Vec::new();
    let mut index: usize = 0;
    let n: usize = children.len();
    let mut i: usize = 0;
    assert(list_view(d@) =~= Seq::<ExternalChildrenConditionView>::empty());
    while i < n
        invariant
            n == children@.len(),
            i <= n,
            index <= paths@.len(),
            children_conditions(
                children@,
                0,
                text_view(*open_id),
                paths_view(paths@),
                0,
                text_view(*ancestor),
            ) == list_view(d@) + children_conditions(
                children@,
                i as int,
                text_view(*open_id),
                paths_view(paths@),
                index as int,
                text_view(*ancestor),
            ),
        decreases n - i,
    {
        let (sliced, next) = slice_paths_at(paths, index, i);
        let mut conditions = children[i].get_external_children_condition(open_id, &sliced);
        add_ancestor(&mut conditions, ancestor);
        let ghost before = list_view(d@);
        let ghost added = list_view(conditions@);
        d.append(&mut conditions);
        assert(list_view(d@) =~= before + added);
        assert(before + (added + children_conditions(
            children@,
            i + 1,
            text_view(*open_id),
            paths_view(paths@),
            next as int,
            text_view(*ancestor),
        )) =~= list_view(d@) + children_conditions(
            children@,
            i + 1,
            text_view(*open_id),
            paths_view(paths@),
            next as int,
            text_view(*ancestor),
        ));
        index = next;
        i += 1;
    }
    assert(list_view(d@) + Seq::<ExternalChildrenConditionView>::empty() =~= list_view(d@));
    d
}

impl Element {
    /// The conditions under which what comes in through the slot
    /// `external_open_id` is mounted, as far as they lie in this element and
    /// below it. `external_children_container` holds the paths from this
    /// element to the slot.
    pub fn get_external_children_condition(
        &self,
        external_open_id: &Option<String>,
        external_children_container: &Vec<Vec<usize>>,
    ) -> (r: Vec<ExternalChildrenCondition>)
        ensures
            list_view(r@) == conditions_of(
                *self,
                text_view(*external_open_id),
                paths_view(external_children_container@),
            ),
        decreases *self, 0nat,
    {
        match self {
            Element::Row(e) => container_conditions_of(
                &e.common,
                &e.container,
                external_open_id,
                external_children_container,
            ),
            Element::Column(e) => container_conditions_of(
                &e.common,
                &e.container,
                external_open_id,
                external_children_container,
            ),
            Element::Scene(e) => container_conditions_of(
                &e.common,
                &e.container,
                external_open_id,
                external_children_container,
            ),
            _ => {
                let out: Vec<ExternalChildrenCondition> = Vec::new();
                assert(list_view(out@) =~= Seq::<ExternalChildrenConditionView>::empty());
                out
            },
        }
    }
}

/// What becomes of a list of conditions in the model of a map of them.
pub open spec fn conditions_model() -> spec_fn(Vec<ExternalChildrenCondition>) -> Seq<
    ExternalChildrenConditionView,
> {
    |v: Vec<ExternalChildrenCondition>| list_view(v@)
}

/// The model of a map from identifiers to conditions.
pub open spec fn dependencies_view(m: OrderedMap<Vec<ExternalChildrenCondition>>) -> Seq<
    (Seq<char>, Seq<ExternalChildrenConditionView>),
> {
    mapped(m.entries@, conditions_model())
}

/// Whether every slot in `children` and below has an identifier on the
/// column at its head, as identifier assignment leaves it.
pub open spec fn slots_identified(children: Seq<Element>) -> bool
    decreases children, 0nat,
{
    forall|i: int| 0 <= i < children.len() ==> element_slots_identified(#[trigger] children[i])
}

pub open spec fn element_slots_identified(e: Element) -> bool
    decreases e, 0nat,
{
    match e {
        Element::Row(r) => container_slots_identified(r.container),
        Element::Column(r) => container_slots_identified(r.container),
        Element::Scene(r) => container_slots_identified(r.container),
        _ => true,
    }
}

pub open spec fn container_slots_identified(k: Container) -> bool
    decreases k, 0nat,
{
    &&& slots_identified(k.children@)
    &&& match k.external_children {
        Some((_, _, kids)) => kids@.len() > 0 && kids@[0] is Column ==> {
            &&& kids@[0]->Column_0.common.data_id is Some
            &&& slots_identified(kids@[0]->Column_0.container.children@)
        },
        None => true,
    }
}

/// The conditions of all slots in the children from index `i` on, added to
/// `acc`: under the identifier of the column at the head of what came in
/// through a slot stand the conditions for that slot.
pub open spec fn dependencies_of(
    children: Seq<Element>,
    i: int,
    acc: Seq<(Seq<char>, Seq<ExternalChildrenConditionView>)>,
) -> Seq<(Seq<char>, Seq<ExternalChildrenConditionView>)>
    decreases children, children.len() - i,
{
    if i < 0 || i >= children.len() {
        acc
    } else {
        dependencies_of(children, i + 1, element_dependencies(children[i], acc))
    }
}

pub open spec fn element_dependencies(
    e: Element,
    acc: Seq<(Seq<char>, Seq<ExternalChildrenConditionView>)>,
) -> Seq<(Seq<char>, Seq<ExternalChildrenConditionView>)>
    decreases e, 0nat,
{
    match e {
        Element::Row(r) => container_dependencies(e, r.container, acc),
        Element::Column(r) => container_dependencies(e, r.container, acc),
        Element::Scene(r) => container_dependencies(e, r.container, acc),
        _ => acc,
    }
}

/// What the container `k` of the element `e` adds to `acc`: the slots below
/// its children, then its own slot, then the slots below what came in
/// through it.
pub open spec fn container_dependencies(
    e: Element,
    k: Container,
    acc: Seq<(Seq<char>, Seq<ExternalChildrenConditionView>)>,
) -> Seq<(Seq<char>, Seq<ExternalChildrenConditionView>)>
    decreases k, 0nat,
{
    let below = view_merged(acc, dependencies_of(k.children@, 0, Seq::empty()), 0);
    match k.external_children {
        Some((open_id, paths, kids)) => if kids@.len() > 0 && kids@[0] is Column
            && kids@[0]->Column_0.common.data_id is Some {
            let col = kids@[0]->Column_0;
            view_merged(
                view_inserted(
                    below,
                    col.common.data_id->Some_0@,
                    conditions_of(e, Some(open_id@), paths_view(paths@)),
                ),
                dependencies_of(col.container.children@, 0, Seq::empty()),
                0,
            )
        } else {
            below
        },
        None => below,
    }
}

fn container_dependencies_of(
    e: &Element,
    k: &Container,
    d: &mut OrderedMap<Vec<ExternalChildrenCondition>>,
)
    requires
        container_slots_identified(*k),
    ensures
        dependencies_view(*final(d)) == container_dependencies(*e, *k, dependencies_view(*old(d))),
    decreases *k, 0nat,
{
    let inner = Element::get_external_children_dependencies(&k.children);
    proof {
        crate::ordered_map::lemma_merged_mapped(d.entries@, inner.entries@, 0, conditions_model());
    }
    d.absorb(inner);
    match &k.external_children {
        Some((open_id, paths, kids)) => {
            if kids.len() > 0 {
                match &kids[0] {
                    Element::Column(col) => match &col.common.data_id {
                        Some(id) => {
                            let open = Some(open_id.clone());
                            let conditions = e.get_external_children_condition(&open, paths);
                            let key = id.clone();
                            proof {
                                crate::ordered_map::lemma_inserted_mapped(
                                    d.entries@,
                                    key,
                                    conditions,
                                    conditions_model(),
                                );
                            }
                            d.insert(key, conditions);
                            let more = Element::get_external_children_dependencies(
                                &col.container.children,
                            );
                            proof {
                                crate::ordered_map::lemma_merged_mapped(
                                    d.entries@,
                                    more.entries@,
                                    0,
                                    conditions_model(),
                                );
                            }
                            d.absorb(more);
                        },
                        None => {},
                    },
                    _ => {},
                }
            }
        },
        None => {},
    }
}

impl Element {
    /// Whether every slot in `children` and below has an identifier on the
    /// column at its head.
    pub fn slots_are_identified(children: &Vec<Element>) -> (r: bool)
        ensures
            r == slots_identified(children@),
        decreases children@, 1nat,
    {
        let n: usize = children.len();
        let mut i: usize = 0;
        while i < n
            invariant
                n == children@.len(),
                i <= n,
                forall|j: int| 0 <= j < i ==> element_slots_identified(#[trigger] children@[j]),
            decreases n - i,
        {
            let k = match &children[i] {
                Element::Row(e) => Some(&e.container),
                Element::Column(e) => Some(&e.container),
                Element::Scene(e) => Some(&e.container),
                _ => None,
            };
            let fine = match k {
                None => true,
                Some(k) => Element::slots_are_identified(&k.children) && match &k.external_children {
                    Some((_, _, kids)) => if kids.len() > 0 {
                        match &kids[0] {
                            Element::Column(col) => col.common.data_id.is_some()
                                && Element::slots_are_identified(&col.container.children),
                            _ => true,
                        }
                    } else {
                        true
                    },
                    None => true,
                },
            };
            if !fine {
                assert(!element_slots_identified(children@[i as int]));
                return false;
            }
            i += 1;
        }
        true
    }

    /// The conditions of all slots in `children` and below, each under the
    /// identifier of the column at the head of what came in through it.
    /// Identifiers must have been assigned.
    pub fn get_external_children_dependencies(children: &Vec<Element>) -> (r: OrderedMap<
        Vec<ExternalChildrenCondition>,
    >)
        requires
            slots_identified(children@),
        ensures
            dependencies_view(r) == dependencies_of(children@, 0, Seq::empty()),
        decreases children@, 1nat,
    {
        let mut d: OrderedMap<Vec<ExternalChildrenCondition>> = OrderedMap::new();
        assert(dependencies_view(d) =~= Seq::<
            (Seq<char>, Seq<ExternalChildrenConditionView>),
        >::empty());
        let n: usize = children.len();
        let mut i: usize = 0;
        while i < n
            invariant
                n == children@.len(),
                i <= n,
                slots_identified(children@),
                dependencies_of(children@, 0, Seq::empty()) == dependencies_of(
                    children@,
                    i as int,
                    dependencies_view(d),
                ),
            decreases n - i,
        {
            assert(element_slots_identified(children@[i as int]));
            let ghost before = dependencies_view(d);
            match &children[i] {
                Element::Row(e) => container_dependencies_of(&children[i], &e.container, &mut d),
                Element::Column(e) => container_dependencies_of(&children[i], &e.container, &mut d),
                Element::Scene(e) => container_dependencies_of(&children[i], &e.container, &mut d),
                _ => {},
            }
            assert(dependencies_view(d) == element_dependencies(children@[i as int], before));
            assert(dependencies_of(children@, i as int, before) == dependencies_of(
                children@,
                i + 1,
                element_dependencies(children@[i as int], before),
            ));
            i += 1;
        }
        d
    }
}

} // verus!
