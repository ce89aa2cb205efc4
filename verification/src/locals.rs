//! Locals: the variables that elements declare for themselves, gathered
//! from a tree into one map.

use crate::duplicate::Duplicate;
use crate::element::{Common, Container, Element};
use crate::ordered_map::{view_merged, OrderedMap};
use vstd::prelude::*;

verus! {

/// The locals of the children from index `i` on, put into `acc` child by
/// child; where two declare the same name, the later one stands.
pub open spec fn locals_of(
    children: Seq<Element>,
    i: int,
    acc: Seq<(Seq<char>, Seq<char>)>,
) -> Seq<(Seq<char>, Seq<char>)>
    decreases children, children.len() - i,
{
    if i < 0 || i >= children.len() {
        acc
    } else {
        locals_of(children, i + 1, view_merged(acc, element_locals(children[i]), 0))
    }
}

/// The locals of an element and all below it.
pub open spec fn element_locals(e: Element) -> Seq<(Seq<char>, Seq<char>)>
    decreases e, 0nat,
{
    match e {
        Element::Row(r) => container_locals(r.common, r.container),
        Element::Column(r) => container_locals(r.common, r.container),
        Element::Scene(r) => container_locals(r.common, r.container),
        _ => match e.spec_common() {
            Some(c) => c.locals@,
            None => Seq::empty(),
        },
    }
}

/// The locals of a container: those of its children, then its own, then
/// those of what came in through its slot.
pub open spec fn container_locals(common: Common, k: Container) -> Seq<(Seq<char>, Seq<char>)>
    decreases k, 0nat,
{
    let inner = view_merged(locals_of(k.children@, 0, Seq::empty()), common.locals@, 0);
    match k.external_children {
        Some((_, _, kids)) => view_merged(inner, locals_of(kids@, 0, Seq::empty()), 0),
        None => inner,
    }
}

fn container_locals_of(common: &Common, k: &Container) -> (r: OrderedMap<String>)
    ensures
        r@ == container_locals(*common, *k),
    decreases *k, 0nat,
{
    let mut all = Element::get_locals(&k.children);
    all.absorb(common.locals.duplicate());
    match &k.external_children {
        Some((_, _, kids)) => {
            all.absorb(Element::get_locals(kids));
        },
        None => {},
    }
    all
}

impl Element {
    /// The locals of `children` and all below them, in one map.
    pub fn get_locals(children: &Vec<Element>) -> (r: OrderedMap<String>)
        ensures
            r@ == locals_of(children@, 0, Seq::empty()),
        decreases children@, 1nat,
    {
        let mut d: OrderedMap<String> = OrderedMap::new();
        let n: usize = children.len();
        let mut i: usize = 0;
        while i < n
            invariant
                n == children@.len(),
                i <= n,
                locals_of(children@, 0, Seq::empty()) == locals_of(children@, i as int, d@),
            decreases n - i,
        {
            let locals = match &children[i] {
                Element::Row(e) => container_locals_of(&e.common, &e.container),
                Element::Column(e) => container_locals_of(&e.common, &e.container),
                Element::Scene(e) => container_locals_of(&e.common, &e.container),
                other => match other.get_common() {
                    Some(c) => c.locals.duplicate(),
                    None => OrderedMap::new(),
                },
            };
            assert(locals@ == element_locals(children@[i as int]));
            d.absorb(locals);
            i += 1;
        }
        d
    }
}

} // verus!
