//! Identifier assignment: every element gets an identifier that tells its
//! place in the tree.

use crate::element::{Column, Common, Container, Element};
use crate::kind::text_view;
use crate::number::decimal;
use crate::text::join;
use vstd::prelude::*;

verus! {

/// The place of an element as text: the indices on the way from the root,
/// with commas between them.
pub open spec fn path_text(path: Seq<usize>) -> Seq<char> {
    join(Seq::new(path.len(), |i: int| decimal(path[i] as nat)), seq![','])
}

/// The identifier of an element at the place written as `place`: the
/// identifier that it had, if any, the place, and the namespace `external`
/// of the slot it came in through, if any, with colons between them.
pub open spec fn assigned_text(
    old_id: Option<Seq<char>>,
    place: Seq<char>,
    external: Option<Seq<char>>,
) -> Seq<char> {
    (match old_id {
        Some(o) => o + seq![':'],
        None => Seq::<char>::empty(),
    }) + place + (match external {
        Some(e) => seq![':'] + e,
        None => Seq::<char>::empty(),
    })
}

pub open spec fn assigned_id(
    old_id: Option<Seq<char>>,
    path: Seq<usize>,
    external: Option<Seq<char>>,
) -> Seq<char> {
    assigned_text(old_id, path_text(path), external)
}

/// The namespace of what comes in through the slot `open_id` of the
/// container at the place written as `place`: the identifier of the slot,
/// the marker `-external:` and the place, behind the namespace `external`
/// that the container itself is in, if any, and a dot.
pub open spec fn slot_text(external: Option<Seq<char>>, open_id: Seq<char>, place: Seq<char>) -> Seq<
    char,
> {
    (match external {
        Some(e) => e + seq!['.'],
        None => Seq::<char>::empty(),
    }) + open_id + "-external:"@ + place
}

pub open spec fn slot_id(external: Option<Seq<char>>, open_id: Seq<char>, path: Seq<usize>) -> Seq<
    char,
> {
    slot_text(external, open_id, path_text(path))
}

/// `c` with the identifier `id` and nothing else changed.
pub open spec fn identified(c: Common, id: Option<String>) -> Common {
    Common { data_id: id, ..c }
}

/// Whether `after` is `before` with identifiers assigned: child `i` at the
/// place `path` and `i`, in the namespace `external`.
pub open spec fn ids_assigned(
    before: Seq<Element>,
    after: Seq<Element>,
    path: Seq<usize>,
    external: Option<Seq<char>>,
) -> bool
    decreases before,
{
    &&& after.len() == before.len()
    &&& forall|i: int|
        0 <= i < before.len() ==> id_assigned(
            before[i],
            #[trigger] after[i],
            path.push(i as usize),
            external,
        )
}

/// Whether `a` is `b` with identifiers assigned, `b` at the place `path`.
/// The null element stays as it is. Any other gets its identifier and keeps
/// what else it has; a container has its children and its slot identified
/// too.
pub open spec fn id_assigned(
    b: Element,
    a: Element,
    path: Seq<usize>,
    external: Option<Seq<char>>,
) -> bool
    decreases b,
{
    match b.spec_common() {
        None => a == b,
        Some(cb) => {
            &&& a.spec_common() is Some
            &&& a.spec_common()->Some_0 == identified(cb, a.spec_common()->Some_0.data_id)
            &&& a.spec_data_id() == Some(assigned_id(text_view(cb.data_id), path, external))
            &&& match b {
                Element::Row(e) => {
                    &&& a.spec_container() is Some
                    &&& a == b.with_common(a.spec_common()->Some_0).with_container(
                        a.spec_container()->Some_0,
                    )
                    &&& container_assigned(e.container, a.spec_container()->Some_0, path, external)
                },
                Element::Column(e) => {
                    &&& a.spec_container() is Some
                    &&& a == b.with_common(a.spec_common()->Some_0).with_container(
                        a.spec_container()->Some_0,
                    )
                    &&& container_assigned(e.container, a.spec_container()->Some_0, path, external)
                },
                Element::Scene(e) => {
                    &&& a.spec_container() is Some
                    &&& a == b.with_common(a.spec_common()->Some_0).with_container(
                        a.spec_container()->Some_0,
                    )
                    &&& container_assigned(e.container, a.spec_container()->Some_0, path, external)
                },
                _ => a == b.with_common(a.spec_common()->Some_0),
            }
        },
    }
}

/// Whether `ka` is the container `kb`, of an element at the place `path`,
/// with identifiers assigned to its children and to its slot.
pub open spec fn container_assigned(
    kb: Container,
    ka: Container,
    path: Seq<usize>,
    external: Option<Seq<char>>,
) -> bool
    decreases kb,
{
    &&& ka == Container { children: ka.children, external_children: ka.external_children, ..kb }
    &&& ids_assigned(kb.children@, ka.children@, path, external)
    &&& slot_assigned(kb.external_children, ka.external_children, path, external)
}

/// Whether `a` is the slot `b`, of a container at the place `path`, with
/// identifiers assigned. Only a column at the head of what came in is
/// identified: it gets the namespace of the slot as its identifier, and,
/// where the slot has a path, its children are identified in that namespace
/// at the places behind the container's place and the first path.
pub open spec fn slot_assigned(
    b: Option<(String, Vec<Vec<usize>>, Vec<Element>)>,
    a: Option<(String, Vec<Vec<usize>>, Vec<Element>)>,
    path: Seq<usize>,
    external: Option<Seq<char>>,
) -> bool
    decreases b,
{
    match b {
        None => a is None,
        Some((open_id, paths, kids)) => {
            &&& a is Some
            &&& a->Some_0.0 == open_id
            &&& a->Some_0.1 == paths
            &&& a->Some_0.2@.len() == kids@.len()
            &&& if kids@.len() > 0 && kids@[0] is Column {
                let col = kids@[0]->Column_0;
                let id = slot_id(external, open_id@, path);
                &&& a->Some_0.2@[0] is Column
                &&& a->Some_0.2@[0]->Column_0.common == identified(
                    col.common,
                    a->Some_0.2@[0]->Column_0.common.data_id,
                )
                &&& text_view(a->Some_0.2@[0]->Column_0.common.data_id) == Some(id)
                &&& a->Some_0.2@[0]->Column_0.container == Container {
                    children: a->Some_0.2@[0]->Column_0.container.children,
                    ..col.container
                }
                &&& if paths@.len() > 0 {
                    ids_assigned(
                        col.container.children@,
                        a->Some_0.2@[0]->Column_0.container.children@,
                        path + paths@[0]@,
                        Some(id),
                    )
                } else {
                    a->Some_0.2@[0]->Column_0.container.children@ == col.container.children@
                }
                &&& forall|j: int| 1 <= j < kids@.len() ==> #[trigger] a->Some_0.2@[j] == kids@[j]
            } else {
                a->Some_0.2@ == kids@
            }
        },
    }
}

/// `base` followed by `more`.
pub fn extended_path(base: &Vec<usize>, more: &Vec<usize>) -> (r: Vec<usize>)
    ensures
        r@ == base@ + more@,
{
    let mut out: Vec<usize> = Vec::new();
    let n: usize = base.len();
    let mut i: usize = 0;
    while i < n
        invariant
            n == base@.len(),
            i <= n,
            out@ == base@.subrange(0, i as int),
        decreases n - i,
    {
        out.push(base[i]);
        assert(out@ =~= base@.subrange(0, i + 1));
        i += 1;
    }
    assert(out@ =~= base@);
    let m: usize = more.len();
    let mut j: usize = 0;
    while j < m
        invariant
            m == more@.len(),
            j <= m,
            out@ == base@ + more@.subrange(0, j as int),
        decreases m - j,
    {
        out.push(more[j]);
        assert(out@ =~= base@ + more@.subrange(0, j + 1));
        j += 1;
    }
    assert(out@ =~= base@ + more@);
    out
}

/// The place `path` as text.
pub fn path_string(path: &Vec<usize>) -> (r: String)
    ensures
        r@ == path_text(path@),
{
    let mut parts: Vec<String> = Vec::new();
    let n: usize = path.len();
    let mut i: usize = 0;
    while i < n
        invariant
            n == path@.len(),
            i <= n,
            parts@.len() == i,
            forall|j: int| 0 <= j < i ==> (#[trigger] parts@[j])@ == decimal(path@[j] as nat),
        decreases n - i,
    {
        parts.push(crate::number::index_text(path[i]));
        i += 1;
    }
    proof {
        reveal_strlit(",");
        assert(","@ =~= seq![',']);
        assert(crate::text::views(parts@) =~= Seq::new(
            path@.len(),
            |i: int| decimal(path@[i] as nat),
        ));
    }
    crate::text::join_strings(&parts, ",")
}

fn make_id(old_id: &Option<String>, place: &str, external: &Option<String>) -> (r: String)
    ensures
        r@ == assigned_text(text_view(*old_id), place@, text_view(*external)),
{
    proof {
        reveal_strlit(":");
        assert(":"@ =~= seq![':']);
    }
    let mut out = match old_id {
        Some(o) => crate::text::concat(o.as_str(), ":"),
        None => String::new(),
    };
    out.append(place);
    match external {
        Some(e) => {
            let ghost before = out@;
            out.append(":");
            out.append(e.as_str());
            assert(out@ =~= before + (seq![':'] + e@));
        },
        None => {
            assert(out@ + Seq::<char>::empty() =~= out@);
        },
    }
    out
}

fn make_slot_id(external: &Option<String>, open_id: &str, place: &str) -> (r: String)
    ensures
        r@ == slot_text(text_view(*external), open_id@, place@),
{
    proof {
        reveal_strlit(".");
        assert("."@ =~= seq!['.']);
    }
    let mut out = match external {
        Some(e) => crate::text::concat(e.as_str(), "."),
        None => String::new(),
    };
    out.append(open_id);
    out.append("-external:");
    out.append(place);
    out
}

fn assign_container(
    container: &mut Container,
    path: &Vec<usize>,
    place: &str,
    external: &Option<String>,
)
    requires
        place@ == path_text(path@),
    ensures
        container_assigned(*old(container), *final(container), path@, text_view(*external)),
    decreases *old(container), 1nat,
{
    Element::set_id(&mut container.children, path, crate::kind::clone_text(external));
    assign_slot(&mut container.external_children, path, place, external);
}

fn assign_slot(
    slot: &mut Option<(String, Vec<Vec<usize>>, Vec<Element>)>,
    path: &Vec<usize>,
    place: &str,
    external: &Option<String>,
)
    requires
        place@ == path_text(path@),
    ensures
        slot_assigned(*old(slot), *final(slot), path@, text_view(*external)),
    decreases *old(slot), 0nat,
{
    match slot {
        Some((open_id, paths, kids)) => {
            if kids.len() > 0 {
                let ghost before = kids@;
                match &mut kids[0] {
                    Element::Column(col) => {
                        let id = make_slot_id(external, open_id.as_str(), place);
                        col.common.data_id = Some(id.clone());
                        if paths.len() > 0 {
                            let inner = extended_path(path, &paths[0]);
                            Element::set_id(&mut col.container.children, &inner, Some(id));
                        }
                    },
                    _ => {},
                }
                proof {
                    if before[0] is Column {
                        assert(kids@[0] is Column);
                        assert(forall|j: int| 1 <= j < before.len() ==> #[trigger] kids@[j] == before[j]);
                    } else {
                        assert(kids@ =~= before);
                    }
                }
            }
        },
        None => {},
    }
}

impl Element {
    /// Assigns identifiers to `children` and to all that is below them.
    /// `index_vec` is the place of their parent, `external_id` the namespace
    /// of the slot that they came in through.
    pub fn set_id(children: &mut Vec<Element>, index_vec: &Vec<usize>, external_id: Option<String>)
        ensures
            ids_assigned(old(children)@, final(children)@, index_vec@, text_view(external_id)),
        decreases old(children)@,
    {
        let n: usize = children.len();
        let mut i: usize = 0;
        while i < n
            invariant
                n == children@.len(),
                n == old(children)@.len(),
                i <= n,
                forall|j: int|
                    0 <= j < i ==> id_assigned(
                        old(children)@[j],
                        #[trigger] children@[j],
                        index_vec@.push(j as usize),
                        text_view(external_id),
                    ),
                forall|j: int| i <= j < n ==> #[trigger] children@[j] == old(children)@[j],
            decreases n - i,
        {
            let mut path = extended_path(index_vec, &Vec::new());
            path.push(i);
            assert(path@ =~= index_vec@.push(i));
            let place = path_string(&path);
            match &mut children[i] {
                Element::Row(e) => {
                    assign_container(&mut e.container, &path, place.as_str(), &external_id);
                },
                Element::Column(e) => {
                    assign_container(&mut e.container, &path, place.as_str(), &external_id);
                },
                Element::Scene(e) => {
                    assign_container(&mut e.container, &path, place.as_str(), &external_id);
                },
                _ => {},
            }
            match children[i].get_mut_common() {
                Some(c) => {
                    let id = make_id(&c.data_id, place.as_str(), &external_id);
                    c.data_id = Some(id);
                },
                None => {},
            }
            i += 1;
        }
    }
}

/// Whether two rows of elements carry the same identifiers at the same
/// places, all the way down, slots included.
pub open spec fn same_ids(a: Seq<Element>, b: Seq<Element>) -> bool
    decreases a,
{
    &&& a.len() == b.len()
    &&& forall|i: int| 0 <= i < a.len() ==> same_id(#[trigger] a[i], b[i])
}

pub open spec fn same_id(a: Element, b: Element) -> bool
    decreases a,
{
    &&& a.spec_data_id() == b.spec_data_id()
    &&& match a {
        Element::Row(e) => b.spec_container() is Some && same_container_ids(
            e.container,
            b.spec_container()->Some_0,
        ),
        Element::Column(e) => b.spec_container() is Some && same_container_ids(
            e.container,
            b.spec_container()->Some_0,
        ),
        Element::Scene(e) => b.spec_container() is Some && same_container_ids(
            e.container,
            b.spec_container()->Some_0,
        ),
        _ => true,
    }
}

pub open spec fn same_container_ids(ka: Container, kb: Container) -> bool
    decreases ka,
{
    &&& same_ids(ka.children@, kb.children@)
    &&& match ka.external_children {
        Some((_, _, kids)) => kb.external_children is Some && same_ids(
            kids@,
            kb.external_children->Some_0.2@,
        ),
        None => kb.external_children is None,
    }
}

/// A row of elements carries the identifiers that it carries.
pub proof fn lemma_same_ids_reflexive(a: Seq<Element>)
    ensures
        same_ids(a, a),
    decreases a,
{
    assert forall|i: int| 0 <= i < a.len() implies same_id(#[trigger] a[i], a[i]) by {
        lemma_same_id_reflexive(a[i]);
    }
}

pub proof fn lemma_same_id_reflexive(a: Element)
    ensures
        same_id(a, a),
    decreases a,
{
    match a {
        Element::Row(e) => lemma_same_container_ids_reflexive(e.container),
        Element::Column(e) => lemma_same_container_ids_reflexive(e.container),
        Element::Scene(e) => lemma_same_container_ids_reflexive(e.container),
        _ => {},
    }
}

pub proof fn lemma_same_container_ids_reflexive(k: Container)
    ensures
        same_container_ids(k, k),
    decreases k,
{
    lemma_same_ids_reflexive(k.children@);
    match k.external_children {
        Some((_, _, kids)) => lemma_same_ids_reflexive(kids@),
        None => {},
    }
}

/// Identifier assignment is a function of the tree, the place and the
/// namespace: two outcomes for the same three carry the same identifiers,
/// character for character, at every place.
pub proof fn lemma_identifiers_determined(
    before: Seq<Element>,
    first: Seq<Element>,
    second: Seq<Element>,
    path: Seq<usize>,
    external: Option<Seq<char>>,
)
    requires
        ids_assigned(before, first, path, external),
        ids_assigned(before, second, path, external),
    ensures
        same_ids(first, second),
    decreases before,
{
    assert forall|i: int| 0 <= i < first.len() implies same_id(#[trigger] first[i], second[i]) by {
        lemma_identifier_determined(
            before[i],
            first[i],
            second[i],
            path.push(i as usize),
            external,
        );
    }
}

pub proof fn lemma_identifier_determined(
    before: Element,
    first: Element,
    second: Element,
    path: Seq<usize>,
    external: Option<Seq<char>>,
)
    requires
        id_assigned(before, first, path, external),
        id_assigned(before, second, path, external),
    ensures
        same_id(first, second),
    decreases before,
{
    match before {
        Element::Row(e) => lemma_container_determined(
            e.container,
            first.spec_container()->Some_0,
            second.spec_container()->Some_0,
            path,
            external,
        ),
        Element::Column(e) => lemma_container_determined(
            e.container,
            first.spec_container()->Some_0,
            second.spec_container()->Some_0,
            path,
            external,
        ),
        Element::Scene(e) => lemma_container_determined(
            e.container,
            first.spec_container()->Some_0,
            second.spec_container()->Some_0,
            path,
            external,
        ),
        _ => {},
    }
}

pub proof fn lemma_container_determined(
    before: Container,
    first: Container,
    second: Container,
    path: Seq<usize>,
    external: Option<Seq<char>>,
)
    requires
        container_assigned(before, first, path, external),
        container_assigned(before, second, path, external),
    ensures
        same_container_ids(first, second),
    decreases before,
{
    lemma_identifiers_determined(before.children@, first.children@, second.children@, path, external);
    match before.external_children {
        None => {},
        Some((open_id, paths, kids)) => {
            let k1 = first.external_children->Some_0.2@;
            let k2 = second.external_children->Some_0.2@;
            if kids@.len() > 0 && kids@[0] is Column {
                let col = kids@[0]->Column_0;
                let c1 = k1[0]->Column_0;
                let c2 = k2[0]->Column_0;
                if paths@.len() > 0 {
                    lemma_identifiers_determined(
                        col.container.children@,
                        c1.container.children@,
                        c2.container.children@,
                        path + paths@[0]@,
                        Some(slot_id(external, open_id@, path)),
                    );
                } else {
                    lemma_same_ids_reflexive(c1.container.children@);
                }
                match col.container.external_children {
                    Some((_, _, inner)) => lemma_same_ids_reflexive(inner@),
                    None => {},
                }
                assert(same_id(k1[0], k2[0]));
                assert forall|j: int| 0 <= j < k1.len() implies same_id(#[trigger] k1[j], k2[j]) by {
                    if j >= 1 {
                        assert(k1[j] == kids@[j]);
                        assert(k2[j] == kids@[j]);
                        lemma_same_id_reflexive(k1[j]);
                    }
                }
            } else {
                lemma_same_ids_reflexive(k1);
            }
        },
    }
}

/// The identifier of a child depends on the identifier it had, its place
/// and the namespace, and on nothing else: whatever differs elsewhere in
/// two trees, below its siblings or in a slot, children that agree in these
/// get the same identifier.
pub proof fn lemma_sibling_identifier_stands(
    tree: Seq<Element>,
    other: Seq<Element>,
    tree_after: Seq<Element>,
    other_after: Seq<Element>,
    path: Seq<usize>,
    external: Option<Seq<char>>,
    i: int,
)
    requires
        ids_assigned(tree, tree_after, path, external),
        ids_assigned(other, other_after, path, external),
        0 <= i < tree.len(),
        i < other.len(),
        tree[i].spec_common() is Some,
        other[i].spec_common() is Some,
        tree[i].spec_data_id() == other[i].spec_data_id(),
    ensures
        tree_after[i].spec_data_id() == other_after[i].spec_data_id(),
        tree_after[i].spec_data_id() == Some(
            assigned_id(tree[i].spec_data_id(), path.push(i as usize), external),
        ),
{
    assert(id_assigned(tree[i], tree_after[i], path.push(i as usize), external));
    assert(id_assigned(other[i], other_after[i], path.push(i as usize), external));
}

/// Whether every element of the tree but the null one has an identifier.
/// What came in through slots is not looked at.
pub open spec fn tree_identified(children: Seq<Element>) -> bool
    decreases children, 0nat,
{
    forall|i: int| 0 <= i < children.len() ==> element_tree_identified(#[trigger] children[i])
}

pub open spec fn element_tree_identified(e: Element) -> bool
    decreases e, 0nat,
{
    match e {
        Element::Null => true,
        Element::Row(r) => r.common.data_id is Some && tree_identified(r.container.children@),
        Element::Column(r) => r.common.data_id is Some && tree_identified(r.container.children@),
        Element::Scene(r) => r.common.data_id is Some && tree_identified(r.container.children@),
        _ => e.spec_data_id() is Some,
    }
}

/// Identifier assignment leaves no element of the tree without an
/// identifier.
pub proof fn lemma_assigned_are_identified(
    before: Seq<Element>,
    after: Seq<Element>,
    path: Seq<usize>,
    external: Option<Seq<char>>,
)
    requires
        ids_assigned(before, after, path, external),
    ensures
        tree_identified(after),
    decreases before,
{
    assert forall|i: int| 0 <= i < after.len() implies element_tree_identified(
        #[trigger] after[i],
    ) by {
        let b = before[i];
        let a = after[i];
        assert(id_assigned(b, a, path.push(i as usize), external));
        match b {
            Element::Row(e) => {
                lemma_assigned_are_identified(
                    e.container.children@,
                    a.spec_container()->Some_0.children@,
                    path.push(i as usize),
                    external,
                );
            },
            Element::Column(e) => {
                lemma_assigned_are_identified(
                    e.container.children@,
                    a.spec_container()->Some_0.children@,
                    path.push(i as usize),
                    external,
                );
            },
            Element::Scene(e) => {
                lemma_assigned_are_identified(
                    e.container.children@,
                    a.spec_container()->Some_0.children@,
                    path.push(i as usize),
                    external,
                );
            },
            _ => {},
        }
    }
}

} // verus!
