//! Dependency extraction: what the runtime must change in which element when
//! a variable changes.

use crate::duplicate::{list_view, option_view, Duplicate};
use crate::element::{
    AttributeType, Common, ConditionalValue, ConditionalValueView, Container, Element,
};
use crate::kind::text_view;
use crate::ordered_map::{
    find, mapped, view_holds, view_inserted, view_keys, view_lookup, OrderedMap,
};
use vstd::prelude::*;

verus! {

/// What of an element depends on a variable.
#[derive(Debug, Clone, Copy, PartialEq, Eq, Structural)]
pub enum DependencyType {
    Style,
    Visible,
    Value,
}

#[derive(Debug, PartialEq)]
pub struct ConditionalValueWithDefault {
    pub value: ConditionalValue,
    pub default: Option<ConditionalValue>,
}

pub struct ConditionalValueWithDefaultView {
    pub value: ConditionalValueView,
    pub default: Option<ConditionalValueView>,
}

impl View for ConditionalValueWithDefault {
    type V = ConditionalValueWithDefaultView;

    open spec fn view(&self) -> ConditionalValueWithDefaultView {
        ConditionalValueWithDefaultView { value: self.value@, default: option_view(self.default) }
    }
}

/// A dependency descriptor: what depends, under which value of the variable,
/// and, for a style, the attribute with the value it then takes.
#[derive(Debug, PartialEq)]
pub struct Dependencies {
    pub dependency_type: DependencyType,
    pub condition: Option<String>,
    pub parameters: OrderedMap<ConditionalValueWithDefault>,
}

pub struct DependenciesView {
    pub dependency_type: DependencyType,
    pub condition: Option<Seq<char>>,
    pub parameters: Seq<(Seq<char>, ConditionalValueWithDefaultView)>,
}

impl View for Dependencies {
    type V = DependenciesView;

    open spec fn view(&self) -> DependenciesView {
        DependenciesView {
            dependency_type: self.dependency_type,
            condition: text_view(self.condition),
            parameters: self.parameters@,
        }
    }
}

/// What becomes of a list of descriptors in the model of a map of them.
pub open spec fn descriptors_model() -> spec_fn(Vec<Dependencies>) -> Seq<DependenciesView> {
    |v: Vec<Dependencies>| list_view(v@)
}

/// A variable as the runtime holds it: its value, and for each element that
/// depends on it, by identifier, the descriptors in the order in which they
/// were found.
#[derive(Debug, PartialEq)]
pub struct Data {
    pub value: String,
    pub dependencies: OrderedMap<Vec<Dependencies>>,
}

pub struct DataView {
    pub value: Seq<char>,
    pub dependencies: Seq<(Seq<char>, Seq<DependenciesView>)>,
}

impl View for Data {
    type V = DataView;

    open spec fn view(&self) -> DataView {
        DataView {
            value: self.value@,
            dependencies: mapped(self.dependencies.entries@, descriptors_model()),
        }
    }
}

/// A descriptor on its way into the map: the variable, the identifier of
/// the element, and the descriptor.
pub struct Emitted {
    pub variable: String,
    pub id: String,
    pub dependency: Dependencies,
}

pub struct Emission {
    pub variable: Seq<char>,
    pub id: Seq<char>,
    pub dependency: DependenciesView,
}

impl View for Emitted {
    type V = Emission;

    open spec fn view(&self) -> Emission {
        Emission { variable: self.variable@, id: self.id@, dependency: self.dependency@ }
    }
}

/// The descriptor for condition `c` of the style attribute at index `a`.
pub open spec fn style_emission(common: Common, a: int, c: int) -> Emission {
    let entry = common.conditional_attribute.entries@[a];
    let with_value = entry.1.conditions_with_value@[c];
    Emission {
        variable: with_value.0.variable@,
        id: text_view(common.data_id)->Some_0,
        dependency: DependenciesView {
            dependency_type: DependencyType::Style,
            condition: Some(with_value.0.value@),
            parameters: seq![
                (
                    entry.0@,
                    ConditionalValueWithDefaultView {
                        value: with_value.1@,
                        default: option_view(entry.1.default),
                    },
                ),
            ],
        },
    }
}

/// The descriptors for the attributes from index `a` on: one for each
/// condition of each attribute that is a style, attributes in the order of
/// their names, conditions in the order of their declaration.
pub open spec fn style_emissions(common: Common, a: int) -> Seq<Emission>
    decreases common.conditional_attribute.entries@.len() - a,
{
    let entries = common.conditional_attribute.entries@;
    if a < 0 || a >= entries.len() {
        Seq::empty()
    } else if entries[a].1.attribute_type == AttributeType::Style {
        Seq::new(entries[a].1.conditions_with_value@.len(), |c: int| style_emission(common, a, c))
            + style_emissions(common, a + 1)
    } else {
        style_emissions(common, a + 1)
    }
}

/// The descriptors that an element gives by itself: for its styles, one for
/// each condition of each conditional style; for its value, one where it
/// shows a variable; for its visibility, one where a condition decides it.
pub open spec fn own_emissions(common: Common, kind: DependencyType) -> Seq<Emission> {
    match kind {
        DependencyType::Style => style_emissions(common, 0),
        DependencyType::Value => match common.reference {
            Some(r) => seq![
                Emission {
                    variable: r@,
                    id: text_view(common.data_id)->Some_0,
                    dependency: DependenciesView {
                        dependency_type: DependencyType::Value,
                        condition: None,
                        parameters: Seq::empty(),
                    },
                },
            ],
            None => Seq::empty(),
        },
        DependencyType::Visible => match common.condition {
            Some(c) => seq![
                Emission {
                    variable: c.variable@,
                    id: text_view(common.data_id)->Some_0,
                    dependency: DependenciesView {
                        dependency_type: DependencyType::Visible,
                        condition: Some(c.value@),
                        parameters: Seq::empty(),
                    },
                },
            ],
            None => Seq::empty(),
        },
    }
}

/// The descriptors of the children from index `i` on, in the order of the
/// walk: of a container first those of its children, then those of what
/// came in through its slot, then its own.
pub open spec fn emissions(children: Seq<Element>, i: int, kind: DependencyType) -> Seq<Emission>
    decreases children, children.len() - i,
{
    if i < 0 || i >= children.len() {
        Seq::empty()
    } else {
        element_emissions(children[i], kind) + emissions(children, i + 1, kind)
    }
}

pub open spec fn element_emissions(e: Element, kind: DependencyType) -> Seq<Emission>
    decreases e, 0nat,
{
    match e {
        Element::Row(r) => container_emissions(r.container, kind) + own_emissions(r.common, kind),
        Element::Column(r) => container_emissions(r.container, kind) + own_emissions(
            r.common,
            kind,
        ),
        Element::Scene(r) => container_emissions(r.container, kind) + own_emissions(r.common, kind),
        _ => match e.spec_common() {
            Some(c) => own_emissions(c, kind),
            None => Seq::empty(),
        },
    }
}

pub open spec fn container_emissions(k: Container, kind: DependencyType) -> Seq<Emission>
    decreases k, 0nat,
{
    emissions(k.children@, 0, kind) + (match k.external_children {
        Some((_, _, kids)) => emissions(kids@, 0, kind),
        None => Seq::empty(),
    })
}

/// Whether every element of `children` and below that gives a descriptor
/// has an identifier.
pub open spec fn identified(children: Seq<Element>, kind: DependencyType) -> bool
    decreases children, 0nat,
{
    forall|i: int| 0 <= i < children.len() ==> element_identified(#[trigger] children[i], kind)
}

pub open spec fn common_identified(common: Common, kind: DependencyType) -> bool {
    own_emissions(common, kind).len() > 0 ==> common.data_id is Some
}

pub open spec fn element_identified(e: Element, kind: DependencyType) -> bool
    decreases e, 0nat,
{
    match e {
        Element::Row(r) => container_identified(r.container, kind) && common_identified(
            r.common,
            kind,
        ),
        Element::Column(r) => container_identified(r.container, kind) && common_identified(
            r.common,
            kind,
        ),
        Element::Scene(r) => container_identified(r.container, kind) && common_identified(
            r.common,
            kind,
        ),
        _ => match e.spec_common() {
            Some(c) => common_identified(c, kind),
            None => true,
        },
    }
}

pub open spec fn container_identified(k: Container, kind: DependencyType) -> bool
    decreases k, 0nat,
{
    &&& identified(k.children@, kind)
    &&& match k.external_children {
        Some((_, _, kids)) => identified(kids@, kind),
        None => true,
    }
}

/// Whether no container in `children` or below has a slot.
pub open spec fn without_slots(children: Seq<Element>) -> bool
    decreases children, 0nat,
{
    forall|i: int| 0 <= i < children.len() ==> element_without_slots(#[trigger] children[i])
}

pub open spec fn element_without_slots(e: Element) -> bool
    decreases e, 0nat,
{
    match e {
        Element::Row(r) => r.container.external_children is None && without_slots(
            r.container.children@,
        ),
        Element::Column(r) => r.container.external_children is None && without_slots(
            r.container.children@,
        ),
        Element::Scene(r) => r.container.external_children is None && without_slots(
            r.container.children@,
        ),
        _ => true,
    }
}

/// Once identifiers are assigned, descriptors of every sort can be
/// extracted from a tree without slots: no element that gives one lacks an
/// identifier.
pub proof fn lemma_identified_tree_can_give(children: Seq<Element>, kind: DependencyType)
    requires
        crate::identifiers::tree_identified(children),
        without_slots(children),
    ensures
        identified(children, kind),
    decreases children,
{
    assert forall|i: int| 0 <= i < children.len() implies element_identified(
        #[trigger] children[i],
        kind,
    ) by {
        assert(crate::identifiers::element_tree_identified(children[i]));
        assert(element_without_slots(children[i]));
        match children[i] {
            Element::Row(r) => lemma_identified_tree_can_give(r.container.children@, kind),
            Element::Column(r) => lemma_identified_tree_can_give(r.container.children@, kind),
            Element::Scene(r) => lemma_identified_tree_can_give(r.container.children@, kind),
            _ => {},
        }
    }
}

/// The descriptors under the identifier `id`, with `d` added at the end.
pub open spec fn appended(
    dependencies: Seq<(Seq<char>, Seq<DependenciesView>)>,
    id: Seq<char>,
    d: DependenciesView,
) -> Seq<(Seq<char>, Seq<DependenciesView>)> {
    match view_lookup(dependencies, id) {
        Some(list) => view_inserted(dependencies, id, list.push(d)),
        None => view_inserted(dependencies, id, seq![d]),
    }
}

/// The map with a descriptor added: at the end of those that its variable
/// holds for its element. A descriptor for a variable that is not declared
/// goes nowhere.
pub open spec fn added(data: Seq<(Seq<char>, DataView)>, e: Emission) -> Seq<(Seq<char>, DataView)> {
    let i = find(view_keys(data), e.variable, 0);
    if i < data.len() {
        data.update(
            i,
            (
                data[i].0,
                DataView {
                    value: data[i].1.value,
                    dependencies: appended(data[i].1.dependencies, e.id, e.dependency),
                },
            ),
        )
    } else {
        data
    }
}

/// The map with the descriptors from index `i` on added, in order.
pub open spec fn applied(data: Seq<(Seq<char>, DataView)>, emitted: Seq<Emission>, i: int) -> Seq<
    (Seq<char>, DataView),
>
    decreases emitted.len() - i,
{
    if i < 0 || i >= emitted.len() {
        data
    } else {
        applied(added(data, emitted[i]), emitted, i + 1)
    }
}

/// Whether every descriptor is for a variable that the map holds.
pub open spec fn declared(data: Seq<(Seq<char>, DataView)>, emitted: Seq<Emission>) -> bool {
    forall|i: int| 0 <= i < emitted.len() ==> view_holds(data, (#[trigger] emitted[i]).variable)
}

/// The descriptors that the map holds for `variable` at the element `id`.
pub open spec fn descriptors_at(
    data: Seq<(Seq<char>, DataView)>,
    variable: Seq<char>,
    id: Seq<char>,
) -> Seq<DependenciesView> {
    match view_lookup(data, variable) {
        Some(d) => match view_lookup(d.dependencies, id) {
            Some(list) => list,
            None => Seq::empty(),
        },
        None => Seq::empty(),
    }
}

/// Adding a descriptor puts it at the end of the descriptors of its
/// variable and element, where the variable is declared, and leaves every
/// other list, and the variables that are declared, as they were.
pub proof fn lemma_added(
    data: Seq<(Seq<char>, DataView)>,
    e: Emission,
    variable: Seq<char>,
    id: Seq<char>,
)
    ensures
        view_keys(added(data, e)) == view_keys(data),
        descriptors_at(added(data, e), variable, id) == (if variable == e.variable && id == e.id
            && view_holds(data, variable) {
            descriptors_at(data, variable, id).push(e.dependency)
        } else {
            descriptors_at(data, variable, id)
        }),
{
    let ks = view_keys(data);
    let i = find(ks, e.variable, 0);
    crate::ordered_map::lemma_find(ks, e.variable, 0);
    crate::ordered_map::lemma_find(ks, variable, 0);
    let after = added(data, e);
    assert(view_keys(after) =~= ks);
    if i < data.len() {
        let deps = data[i].1.dependencies;
        match view_lookup(deps, e.id) {
            Some(list) => {
                crate::ordered_map::lemma_view_inserted_key(deps, e.id, list.push(e.dependency));
                if id != e.id {
                    crate::ordered_map::lemma_view_inserted_other(
                        deps,
                        e.id,
                        list.push(e.dependency),
                        id,
                    );
                }
            },
            None => {
                crate::ordered_map::lemma_view_inserted_key(deps, e.id, seq![e.dependency]);
                assert(seq![e.dependency] =~= Seq::<DependenciesView>::empty().push(e.dependency));
                if id != e.id {
                    crate::ordered_map::lemma_view_inserted_other(
                        deps,
                        e.id,
                        seq![e.dependency],
                        id,
                    );
                }
            },
        }
    }
}

/// Whether `a` is how `b` begins.
pub open spec fn is_prefix<T>(a: Seq<T>, b: Seq<T>) -> bool {
    a.len() <= b.len() && b.subrange(0, a.len() as int) == a
}

/// Extraction only ever adds: whatever descriptors the map held for a
/// variable and an element before, it holds them after, in the same order
/// and in front of those that were added; and it holds the same variables.
pub proof fn lemma_applied_keeps(
    data: Seq<(Seq<char>, DataView)>,
    emitted: Seq<Emission>,
    i: int,
    variable: Seq<char>,
    id: Seq<char>,
)
    requires
        0 <= i <= emitted.len(),
    ensures
        view_keys(applied(data, emitted, i)) == view_keys(data),
        is_prefix(
            descriptors_at(data, variable, id),
            descriptors_at(applied(data, emitted, i), variable, id),
        ),
    decreases emitted.len() - i,
{
    let before = descriptors_at(data, variable, id);
    if i < emitted.len() {
        let next = added(data, emitted[i]);
        lemma_added(data, emitted[i], variable, id);
        lemma_applied_keeps(next, emitted, i + 1, variable, id);
        let middle = descriptors_at(next, variable, id);
        let last = descriptors_at(applied(data, emitted, i), variable, id);
        assert(middle.subrange(0, before.len() as int) =~= before);
        assert(last.subrange(0, before.len() as int) =~= last.subrange(
            0,
            middle.len() as int,
        ).subrange(0, before.len() as int));
    } else {
        assert(before.subrange(0, before.len() as int) =~= before);
    }
}

/// The descriptors among those from index `i` on that are for `variable`
/// at the element `id`, in their order.
pub open spec fn selected(
    emitted: Seq<Emission>,
    i: int,
    variable: Seq<char>,
    id: Seq<char>,
) -> Seq<DependenciesView>
    decreases emitted.len() - i,
{
    if i < 0 || i >= emitted.len() {
        Seq::empty()
    } else if emitted[i].variable == variable && emitted[i].id == id {
        selected(emitted, i + 1, variable, id).insert(0, emitted[i].dependency)
    } else {
        selected(emitted, i + 1, variable, id)
    }
}

/// Extraction adds in order: where every descriptor is for a declared
/// variable, the descriptors that the map holds for a variable at an element
/// afterwards are those it held before, followed by the new ones for that
/// variable and element in the order in which they were found.
pub proof fn lemma_applied_adds_in_order(
    data: Seq<(Seq<char>, DataView)>,
    emitted: Seq<Emission>,
    i: int,
    variable: Seq<char>,
    id: Seq<char>,
)
    requires
        0 <= i <= emitted.len(),
        forall|j: int| i <= j < emitted.len() ==> view_holds(data, (#[trigger] emitted[j]).variable),
    ensures
        descriptors_at(applied(data, emitted, i), variable, id) == descriptors_at(
            data,
            variable,
            id,
        ) + selected(emitted, i, variable, id),
    decreases emitted.len() - i,
{
    let before = descriptors_at(data, variable, id);
    if i < emitted.len() {
        let next = added(data, emitted[i]);
        lemma_added(data, emitted[i], variable, id);
        assert(view_holds(data, emitted[i].variable));
        assert forall|j: int| i + 1 <= j < emitted.len() implies view_holds(
            next,
            (#[trigger] emitted[j]).variable,
        ) by {
            assert(view_holds(data, emitted[j].variable));
        }
        lemma_applied_adds_in_order(next, emitted, i + 1, variable, id);
        let rest = selected(emitted, i + 1, variable, id);
        if emitted[i].variable == variable && emitted[i].id == id {
            assert(before.push(emitted[i].dependency) + rest =~= before + rest.insert(
                0,
                emitted[i].dependency,
            ));
        }
    } else {
        assert(before + Seq::<DependenciesView>::empty() =~= before);
    }
}

/// Extracting a second time keeps what the first time gave.
pub proof fn lemma_second_extraction_keeps(
    data: Seq<(Seq<char>, DataView)>,
    first: Seq<Emission>,
    second: Seq<Emission>,
    variable: Seq<char>,
    id: Seq<char>,
)
    ensures
        is_prefix(
            descriptors_at(applied(data, first, 0), variable, id),
            descriptors_at(applied(applied(data, first, 0), second, 0), variable, id),
        ),
{
    lemma_applied_keeps(applied(data, first, 0), second, 0, variable, id);
}

fn emit(out: &mut Vec<Emitted>, variable: &str, id: &str, dependency: Dependencies)
    ensures
        list_view(final(out)@) == list_view(old(out)@).push(
            Emission { variable: variable@, id: id@, dependency: dependency@ },
        ),
{
    let ghost before = list_view(out@);
    out.push(Emitted { variable: variable.to_owned(), id: id.to_owned(), dependency });
    assert(list_view(out@) =~= before.push(
        Emission { variable: variable@, id: id@, dependency: dependency@ },
    ));
}

fn collect_styles(common: &Common, id: &str, out: &mut Vec<Emitted>)
    requires
        text_view(common.data_id) == Some(id@),
    ensures
        list_view(final(out)@) == list_view(old(out)@) + style_emissions(*common, 0),
{
    let ghost start = list_view(out@);
    let n: usize = common.conditional_attribute.entries.len();
    let mut a: usize = 0;
    assert(start + style_emissions(*common, 0) =~= list_view(out@) + style_emissions(*common, 0));
    while a < n
        invariant
            n == common.conditional_attribute.entries@.len(),
            a <= n,
            text_view(common.data_id) == Some(id@),
            start + style_emissions(*common, 0) == list_view(out@) + style_emissions(
                *common,
                a as int,
            ),
        decreases n - a,
    {
        let entry = &common.conditional_attribute.entries[a];
        match entry.1.attribute_type {
            AttributeType::Style => {
                let ghost before = list_view(out@);
                let ghost run = Seq::new(
                    entry.1.conditions_with_value@.len(),
                    |c: int| style_emission(*common, a as int, c),
                );
                let m: usize = entry.1.conditions_with_value.len();
                let mut c: usize = 0;
                assert(before + run.subrange(0, 0) =~= list_view(out@));
                while c < m
                    invariant
                        m == entry.1.conditions_with_value@.len(),
                        c <= m,
                        a < common.conditional_attribute.entries@.len(),
                        *entry == common.conditional_attribute.entries@[a as int],
                        text_view(common.data_id) == Some(id@),
                        run == Seq::new(
                            entry.1.conditions_with_value@.len(),
                            |c: int| style_emission(*common, a as int, c),
                        ),
                        list_view(out@) == before + run.subrange(0, c as int),
                    decreases m - c,
                {
                    let with_value = &entry.1.conditions_with_value[c];
                    let mut parameters: OrderedMap<ConditionalValueWithDefault> = OrderedMap::new();
                    parameters.insert(
                        entry.0.clone(),
                        ConditionalValueWithDefault {
                            value: with_value.1.duplicate(),
                            default: crate::duplicate::copy_option(&entry.1.default),
                        },
                    );
                    let dependency = Dependencies {
                        dependency_type: DependencyType::Style,
                        condition: Some(with_value.0.value.clone()),
                        parameters,
                    };
                    assert(dependency@.parameters =~= style_emission(
                        *common,
                        a as int,
                        c as int,
                    ).dependency.parameters);
                    emit(out, with_value.0.variable.as_str(), id, dependency);
                    assert(list_view(out@) =~= before + run.subrange(0, c + 1));
                    c += 1;
                }
                assert(run.subrange(0, m as int) =~= run);
                assert(before + (run + style_emissions(*common, a + 1)) =~= list_view(out@)
                    + style_emissions(*common, a + 1));
            },
            AttributeType::Attribute => {},
        }
        a += 1;
    }
    assert(list_view(out@) + Seq::<Emission>::empty() =~= list_view(out@));
}

fn collect_own(common: &Common, kind: DependencyType, out: &mut Vec<Emitted>)
    requires
        common_identified(*common, kind),
    ensures
        list_view(final(out)@) == list_view(old(out)@) + own_emissions(*common, kind),
{
    let ghost start = list_view(out@);
    match kind {
        DependencyType::Style => match &common.data_id {
            Some(id) => collect_styles(common, id.as_str(), out),
            None => {
                assert(start + Seq::<Emission>::empty() =~= start);
            },
        },
        DependencyType::Value => match (&common.reference, &common.data_id) {
            (Some(r), Some(id)) => {
                let dependency = Dependencies {
                    dependency_type: DependencyType::Value,
                    condition: None,
                    parameters: OrderedMap::new(),
                };
                emit(out, r.as_str(), id.as_str(), dependency);
                assert(list_view(out@) =~= start + own_emissions(*common, kind));
            },
            _ => {
                assert(start + Seq::<Emission>::empty() =~= start);
            },
        },
        DependencyType::Visible => match (&common.condition, &common.data_id) {
            (Some(c), Some(id)) => {
                let dependency = Dependencies {
                    dependency_type: DependencyType::Visible,
                    condition: Some(c.value.clone()),
                    parameters: OrderedMap::new(),
                };
                emit(out, c.variable.as_str(), id.as_str(), dependency);
                assert(list_view(out@) =~= start + own_emissions(*common, kind));
            },
            _ => {
                assert(start + Seq::<Emission>::empty() =~= start);
            },
        },
    }
}

fn collect_container(k: &Container, kind: DependencyType, out: &mut Vec<Emitted>)
    requires
        container_identified(*k, kind),
    ensures
        list_view(final(out)@) == list_view(old(out)@) + container_emissions(*k, kind),
    decreases *k, 0nat,
{
    let ghost start = list_view(out@);
    collect(&k.children, kind, out);
    match &k.external_children {
        Some((_, _, kids)) => {
            collect(kids, kind, out);
            assert(list_view(out@) =~= start + container_emissions(*k, kind));
        },
        None => {
            assert(list_view(out@) =~= start + container_emissions(*k, kind));
        },
    }
}

fn collect(children: &Vec<Element>, kind: DependencyType, out: &mut Vec<Emitted>)
    requires
        identified(children@, kind),
    ensures
        list_view(final(out)@) == list_view(old(out)@) + emissions(children@, 0, kind),
    decreases children@, 1nat,
{
    let ghost start = list_view(out@);
    let n: usize = children.len();
    let mut i: usize = 0;
    assert(start + emissions(children@, 0, kind) =~= list_view(out@) + emissions(
        children@,
        0,
        kind,
    ));
    while i < n
        invariant
            n == children@.len(),
            i <= n,
            identified(children@, kind),
            start + emissions(children@, 0, kind) == list_view(out@) + emissions(
                children@,
                i as int,
                kind,
            ),
        decreases n - i,
    {
        let ghost before = list_view(out@);
        assert(element_identified(children@[i as int], kind));
        match &children[i] {
            Element::Row(e) => {
                collect_container(&e.container, kind, out);
                collect_own(&e.common, kind, out);
            },
            Element::Column(e) => {
                collect_container(&e.container, kind, out);
                collect_own(&e.common, kind, out);
            },
            Element::Scene(e) => {
                collect_container(&e.container, kind, out);
                collect_own(&e.common, kind, out);
            },
            other => match other.get_common() {
                Some(c) => collect_own(c, kind, out),
                None => {
                    assert(before + Seq::<Emission>::empty() =~= before);
                },
            },
        }
        assert(list_view(out@) =~= before + element_emissions(children@[i as int], kind));
        assert(before + (element_emissions(children@[i as int], kind) + emissions(
            children@,
            i + 1,
            kind,
        )) =~= list_view(out@) + emissions(children@, i + 1, kind));
        i += 1;
    }
    assert(list_view(out@) + Seq::<Emission>::empty() =~= list_view(out@));
}

fn all_identified(children: &Vec<Element>, kind: DependencyType) -> (r: bool)
    ensures
        r == identified(children@, kind),
    decreases children@, 1nat,
{
    let n: usize = children.len();
    let mut i: usize = 0;
    while i < n
        invariant
            n == children@.len(),
            i <= n,
            forall|j: int| 0 <= j < i ==> element_identified(#[trigger] children@[j], kind),
        decreases n - i,
    {
        let fine = match &children[i] {
            Element::Row(e) => container_is_identified(&e.container, kind) && common_is_identified(
                &e.common,
                kind,
            ),
            Element::Column(e) => container_is_identified(&e.container, kind)
                && common_is_identified(&e.common, kind),
            Element::Scene(e) => container_is_identified(&e.container, kind)
                && common_is_identified(&e.common, kind),
            other => match other.get_common() {
                Some(c) => common_is_identified(c, kind),
                None => true,
            },
        };
        if !fine {
            assert(!element_identified(children@[i as int], kind));
            return false;
        }
        i += 1;
    }
    true
}

fn container_is_identified(k: &Container, kind: DependencyType) -> (r: bool)
    ensures
        r == container_identified(*k, kind),
    decreases *k, 0nat,
{
    all_identified(&k.children, kind) && match &k.external_children {
        Some((_, _, kids)) => all_identified(kids, kind),
        None => true,
    }
}

fn has_styles(common: &Common) -> (r: bool)
    ensures
        r == (style_emissions(*common, 0).len() > 0),
{
    let n: usize = common.conditional_attribute.entries.len();
    let mut a: usize = 0;
    while a < n
        invariant
            n == common.conditional_attribute.entries@.len(),
            a <= n,
            style_emissions(*common, 0).len() == style_emissions(*common, a as int).len(),
        decreases n - a,
    {
        let entry = &common.conditional_attribute.entries[a];
        match entry.1.attribute_type {
            AttributeType::Style => {
                if entry.1.conditions_with_value.len() > 0 {
                    return true;
                }
            },
            AttributeType::Attribute => {},
        }
        a += 1;
    }
    false
}

fn common_is_identified(common: &Common, kind: DependencyType) -> (r: bool)
    ensures
        r == common_identified(*common, kind),
{
    if common.data_id.is_some() {
        return true;
    }
    match kind {
        DependencyType::Style => !has_styles(common),
        DependencyType::Value => common.reference.is_none(),
        DependencyType::Visible => common.condition.is_none(),
    }
}

fn all_declared(data: &OrderedMap<Data>, emitted: &Vec<Emitted>) -> (r: bool)
    ensures
        r == declared(data@, list_view(emitted@)),
{
    let n: usize = emitted.len();
    let mut i: usize = 0;
    while i < n
        invariant
            n == emitted@.len(),
            i <= n,
            forall|j: int| 0 <= j < i ==> view_holds(data@, (#[trigger] list_view(emitted@)[j]).variable),
        decreases n - i,
    {
        if !data.contains_key(emitted[i].variable.as_str()) {
            assert(!view_holds(data@, list_view(emitted@)[i as int].variable));
            return false;
        }
        i += 1;
    }
    true
}

fn add_emitted(data: &mut OrderedMap<Data>, e: Emitted)
    ensures
        final(data)@ == added(old(data)@, e@),
{
    match data.position(e.variable.as_str()) {
        None => {},
        Some(i) => {
            let ghost before = data@;
            let ghost deps = data.entries@[i as int].1.dependencies.entries@;
            proof {
                crate::ordered_map::lemma_lookup_mapped(deps, e.id@, descriptors_model());
            }
            let id = e.id;
            let dependency = e.dependency;
            match data.entries[i].1.dependencies.position(id.as_str()) {
                Some(j) => {
                    let ghost list = deps[j as int].1@;
                    data.entries[i].1.dependencies.entries[j].1.push(dependency);
                    proof {
                        let after = data.entries@[i as int].1.dependencies.entries@;
                        assert(list_view(after[j as int].1@) =~= list_view(list).push(dependency@));
                        assert(mapped(after, descriptors_model()) =~= appended(
                            mapped(deps, descriptors_model()),
                            id@,
                            dependency@,
                        ));
                    }
                },
                None => {
                    let mut list: Vec<Dependencies> = Vec::new();
                    list.push(dependency);
                    proof {
                        assert(list_view(list@) =~= seq![dependency@]);
                        crate::ordered_map::lemma_inserted_mapped(
                            deps,
                            id,
                            list,
                            descriptors_model(),
                        );
                    }
                    data.entries[i].1.dependencies.insert(id, list);
                },
            }
            assert(data@ =~= added(before, e@));
        },
    }
}

fn apply(data: &mut OrderedMap<Data>, emitted: Vec<Emitted>)
    ensures
        final(data)@ == applied(old(data)@, list_view(emitted@), 0),
{
    let ghost all = list_view(emitted@);
    let mut rest = emitted;
    while rest.len() > 0
        invariant
            rest@.len() <= all.len(),
            list_view(rest@) == all.subrange(all.len() - rest@.len(), all.len() as int),
            applied(old(data)@, all, 0) == applied(data@, all, all.len() - rest@.len()),
        decreases rest@.len(),
    {
        let ghost j = all.len() - rest@.len();
        let ghost before = list_view(rest@);
        let ghost held = rest@;
        let e = rest.remove(0);
        assert(e@ == before[0]);
        assert forall|k: int| 0 <= k < rest@.len() implies list_view(rest@)[k] == all[j + 1 + k] by {
            assert(rest@[k] == held[k + 1]);
            assert(before[k + 1] == held[k + 1]@);
        }
        assert(list_view(rest@) =~= all.subrange(j + 1, all.len() as int));
        add_emitted(data, e);
    }
}

impl Element {
    /// Whether the descriptors of sort `kind` can be extracted from
    /// `children` into `data`: every element that gives one has an
    /// identifier, and every variable that one is for is declared in `data`.
    pub fn can_extract(children: &Vec<Element>, kind: DependencyType, data: &OrderedMap<Data>) -> (r:
        bool)
        ensures
            r == (identified(children@, kind) && declared(data@, emissions(children@, 0, kind))),
    {
        if !all_identified(children, kind) {
            return false;
        }
        let mut out: Vec<Emitted> = Vec::new();
        assert(list_view(out@) =~= Seq::<Emission>::empty());
        collect(children, kind, &mut out);
        assert(list_view(out@) =~= emissions(children@, 0, kind));
        all_declared(data, &out)
    }

    fn extract(children: &Vec<Element>, kind: DependencyType, data: &mut OrderedMap<Data>)
        requires
            identified(children@, kind),
            declared(old(data)@, emissions(children@, 0, kind)),
        ensures
            final(data)@ == applied(old(data)@, emissions(children@, 0, kind), 0),
            view_keys(final(data)@) == view_keys(old(data)@),
            forall|variable: Seq<char>, id: Seq<char>|
                #[trigger] descriptors_at(final(data)@, variable, id) == descriptors_at(
                    old(data)@,
                    variable,
                    id,
                ) + selected(emissions(children@, 0, kind), 0, variable, id),
    {
        let mut out: Vec<Emitted> = Vec::new();
        assert(list_view(out@) =~= Seq::<Emission>::empty());
        collect(children, kind, &mut out);
        assert(list_view(out@) =~= emissions(children@, 0, kind));
        proof {
            let found = emissions(children@, 0, kind);
            lemma_applied_keeps(data@, found, 0, Seq::empty(), Seq::empty());
            assert forall|variable: Seq<char>, id: Seq<char>|
                #[trigger] descriptors_at(applied(data@, found, 0), variable, id) == descriptors_at(
                    data@,
                    variable,
                    id,
                ) + selected(found, 0, variable, id) by {
                lemma_applied_adds_in_order(data@, found, 0, variable, id);
            }
        }
        apply(data, out);
    }

    /// Adds to `data` the descriptors for the conditional styles of
    /// `children` and all below them. Every element with such a style must
    /// have an identifier, and every variable that a style depends on must
    /// be declared in `data`. What `data` held stays, and behind it, for
    /// each variable and element, come the new descriptors in the order in
    /// which the walk found them.
    pub fn get_style_event_dependencies(children: &Vec<Element>, data: &mut OrderedMap<Data>)
        requires
            identified(children@, DependencyType::Style),
            declared(old(data)@, emissions(children@, 0, DependencyType::Style)),
        ensures
            final(data)@ == applied(
                old(data)@,
                emissions(children@, 0, DependencyType::Style),
                0,
            ),
            view_keys(final(data)@) == view_keys(old(data)@),
            forall|variable: Seq<char>, id: Seq<char>|
                #[trigger] descriptors_at(final(data)@, variable, id) == descriptors_at(
                    old(data)@,
                    variable,
                    id,
                ) + selected(emissions(children@, 0, DependencyType::Style), 0, variable, id),
    {
        Element::extract(children, DependencyType::Style, data)
    }

    /// Adds to `data` the descriptors for the elements of `children` and
    /// below that show the value of a variable. Every such element must have
    /// an identifier, and the variable must be declared in `data`. What
    /// `data` held stays, and the new descriptors come behind it.
    pub fn get_value_event_dependencies(children: &Vec<Element>, data: &mut OrderedMap<Data>)
        requires
            identified(children@, DependencyType::Value),
            declared(old(data)@, emissions(children@, 0, DependencyType::Value)),
        ensures
            final(data)@ == applied(
                old(data)@,
                emissions(children@, 0, DependencyType::Value),
                0,
            ),
            view_keys(final(data)@) == view_keys(old(data)@),
            forall|variable: Seq<char>, id: Seq<char>|
                #[trigger] descriptors_at(final(data)@, variable, id) == descriptors_at(
                    old(data)@,
                    variable,
                    id,
                ) + selected(emissions(children@, 0, DependencyType::Value), 0, variable, id),
    {
        Element::extract(children, DependencyType::Value, data)
    }

    /// Adds to `data` the descriptors for the elements of `children` and
    /// below whose visibility a condition decides. Every such element must
    /// have an identifier, and the variable of every such condition must be
    /// declared in `data`. What `data` held stays, and the new descriptors
    /// come behind it.
    pub fn get_visible_event_dependencies(children: &Vec<Element>, data: &mut OrderedMap<Data>)
        requires
            identified(children@, DependencyType::Visible),
            declared(old(data)@, emissions(children@, 0, DependencyType::Visible)),
        ensures
            final(data)@ == applied(
                old(data)@,
                emissions(children@, 0, DependencyType::Visible),
                0,
            ),
            view_keys(final(data)@) == view_keys(old(data)@),
            forall|variable: Seq<char>, id: Seq<char>|
                #[trigger] descriptors_at(final(data)@, variable, id) == descriptors_at(
                    old(data)@,
                    variable,
                    id,
                ) + selected(emissions(children@, 0, DependencyType::Visible), 0, variable, id),
    {
        Element::extract(children, DependencyType::Visible, data)
    }
}

} // verus!
