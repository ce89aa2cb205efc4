//! Re-nesting: what follows a heading becomes its content.

use crate::element::{Common, Container, Element};
use crate::ui::Region;
use vstd::prelude::*;

verus! {

/// Whether a heading of region `new` ends the content of an open heading of
/// region `open`: it is of the same or of higher priority.
pub open spec fn closes(new: Region, open: Region) -> bool {
    new.lower_priority().contains(open) || new == open
}

/// The first index at or after `from` that holds a heading, or the length.
pub open spec fn first_head(s: Seq<Element>, from: int) -> int
    decreases s.len() - from,
{
    if from < 0 || from >= s.len() {
        s.len() as int
    } else if s[from].spec_heading_region() is Some {
        from
    } else {
        first_head(s, from + 1)
    }
}

/// The first index at or after `from` that holds a heading which ends the
/// content of a heading of region `open`, or the length.
pub open spec fn next_head(s: Seq<Element>, from: int, open: Region) -> int
    decreases s.len() - from,
{
    if from < 0 || from >= s.len() {
        s.len() as int
    } else if s[from].spec_heading_region() is Some && closes(
        s[from].spec_heading_region()->Some_0,
        open,
    ) {
        from
    } else {
        next_head(s, from + 1, open)
    }
}

/// The headings that stay at this level, from the heading at `h` on: each is
/// the first after the one before that ends its content.
pub open spec fn heads_from(s: Seq<Element>, h: int) -> Seq<int>
    decreases s.len() - h,
{
    if h < 0 || h >= s.len() || s[h].spec_heading_region() is None {
        Seq::empty()
    } else {
        let next = next_head(s, h + 1, s[h].spec_heading_region()->Some_0);
        if h < next <= s.len() {
            heads_from(s, next).insert(0, h)
        } else {
            seq![h]
        }
    }
}

/// Where the content of heading `k` ends: at the next heading, or at the
/// end.
pub open spec fn group_end(s: Seq<Element>, heads: Seq<int>, k: int) -> int {
    if k + 1 < heads.len() {
        heads[k + 1]
    } else {
        s.len() as int
    }
}

/// Whether `after` is `before` re-nested. What stands before the first
/// heading stays at this level. Each heading that stays takes what follows
/// it, up to the next heading that stays, as further children. Below this
/// level, the children of every row and column, and what came in through
/// its slot, are re-nested in the same way.
pub open spec fn renested(before: Seq<Element>, after: Seq<Element>) -> bool
    decreases after, 0nat,
{
    let h0 = first_head(before, 0);
    let heads = heads_from(before, h0);
    &&& after.len() == h0 + heads.len()
    &&& forall|i: int|
        0 <= i < h0 && i < after.len() ==> element_renested(
            before[i],
            Seq::empty(),
            #[trigger] after[i],
        )
    &&& forall|k: int|
        h0 <= k < after.len() ==> element_renested(
            before[heads[k - h0]],
            before.subrange(heads[k - h0] + 1, group_end(before, heads, k - h0)),
            #[trigger] after[k],
        )
}

/// Whether `a` is the element `b` with `run` taken in as further children
/// and all below re-nested. Only rows and columns take part; any other
/// element stays as it is.
pub open spec fn element_renested(b: Element, run: Seq<Element>, a: Element) -> bool
    decreases a, 0nat,
{
    match a {
        Element::Row(r) => b is Row && r.common == b->Row_0.common && container_renested(
            b->Row_0.container,
            run,
            r.container,
        ),
        Element::Column(r) => b is Column && r.common == b->Column_0.common && container_renested(
            b->Column_0.container,
            run,
            r.container,
        ),
        _ => a == b && run.len() == 0,
    }
}

pub open spec fn container_renested(kb: Container, run: Seq<Element>, ka: Container) -> bool
    decreases ka, 0nat,
{
    &&& ka == Container { children: ka.children, external_children: ka.external_children, ..kb }
    &&& renested(kb.children@ + run, ka.children@)
    &&& match ka.external_children {
        Some((id, paths, kids)) => kb.external_children is Some && kb.external_children->Some_0.0
            == id && kb.external_children->Some_0.1 == paths && renested(
            kb.external_children->Some_0.2@,
            kids@,
        ),
        None => kb.external_children is None,
    }
}

/// Whether `m` is the element `b` with `run` taken in as further children,
/// and nothing else changed.
pub open spec fn adopted(b: Element, run: Seq<Element>, m: Element) -> bool {
    match b {
        Element::Row(r) => m is Row && m->Row_0.common == r.common && m->Row_0.container
            == Container { children: m->Row_0.container.children, ..r.container }
            && m->Row_0.container.children@ == r.container.children@ + run,
        Element::Column(r) => m is Column && m->Column_0.common == r.common
            && m->Column_0.container == Container {
            children: m->Column_0.container.children,
            ..r.container
        } && m->Column_0.container.children@ == r.container.children@ + run,
        _ => m == b && run.len() == 0,
    }
}

/// Whether `mid` is `before` with the content of each heading that stays
/// taken in, and nothing below this level changed.
pub open spec fn regrouped(before: Seq<Element>, mid: Seq<Element>) -> bool {
    let h0 = first_head(before, 0);
    let heads = heads_from(before, h0);
    &&& mid.len() == h0 + heads.len()
    &&& forall|i: int| 0 <= i < h0 && i < mid.len() ==> #[trigger] mid[i] == before[i]
    &&& forall|k: int|
        h0 <= k < mid.len() ==> adopted(
            before[heads[k - h0]],
            before.subrange(heads[k - h0] + 1, group_end(before, heads, k - h0)),
            #[trigger] mid[k],
        )
}

/// The number of elements in the elements from index `i` on and below them.
pub open spec fn weight_from(s: Seq<Element>, i: int) -> nat
    decreases s, s.len() - i,
{
    if i < 0 || i >= s.len() {
        0
    } else {
        element_weight(s[i]) + weight_from(s, i + 1)
    }
}

pub open spec fn element_weight(e: Element) -> nat
    decreases e, 0nat,
{
    match e {
        Element::Row(r) => 1 + container_weight(r.container),
        Element::Column(r) => 1 + container_weight(r.container),
        Element::Scene(r) => 1 + container_weight(r.container),
        _ => 1,
    }
}

pub open spec fn container_weight(k: Container) -> nat
    decreases k, 0nat,
{
    weight_from(k.children@, 0) + (match k.external_children {
        Some((_, _, kids)) => weight_from(kids@, 0),
        None => 0,
    })
}

/// The number of elements in `s` and below.
pub open spec fn weight(s: Seq<Element>) -> nat {
    weight_from(s, 0)
}

proof fn lemma_weight_shift(a: Seq<Element>, b: Seq<Element>, j: int)
    requires
        0 <= j <= b.len(),
    ensures
        weight_from(a + b, a.len() + j) == weight_from(b, j),
    decreases b.len() - j,
{
    if j < b.len() {
        assert((a + b)[a.len() + j] == b[j]);
        lemma_weight_shift(a, b, j + 1);
    }
}

proof fn lemma_weight_prefix(a: Seq<Element>, b: Seq<Element>, i: int)
    requires
        0 <= i <= a.len(),
    ensures
        weight_from(a + b, i) == weight_from(a, i) + weight_from(b, 0),
    decreases a.len() - i,
{
    if i < a.len() {
        assert((a + b)[i] == a[i]);
        lemma_weight_prefix(a, b, i + 1);
    } else {
        lemma_weight_shift(a, b, 0);
    }
}

/// The weight of two rows of elements in a row is the sum of their weights.
pub proof fn lemma_weight_concat(a: Seq<Element>, b: Seq<Element>)
    ensures
        weight(a + b) == weight(a) + weight(b),
{
    lemma_weight_prefix(a, b, 0);
}

/// An element and a run that follows it weigh no more than the whole.
proof fn lemma_weight_parts(s: Seq<Element>, h: int, end: int)
    requires
        0 <= h < end <= s.len(),
    ensures
        element_weight(s[h]) + weight(s.subrange(h + 1, end)) <= weight(s),
{
    let a = s.subrange(0, h);
    let x = seq![s[h]];
    let run = s.subrange(h + 1, end);
    let rest = s.subrange(end, s.len() as int);
    assert(s =~= a + (x + (run + rest)));
    lemma_weight_concat(a, x + (run + rest));
    lemma_weight_concat(x, run + rest);
    lemma_weight_concat(run, rest);
    assert(weight_from(x, 1) == 0);
    assert(weight(x) == element_weight(s[h]));
}

proof fn lemma_next_head(s: Seq<Element>, from: int, open: Region)
    requires
        0 <= from <= s.len(),
    ensures
        from <= next_head(s, from, open) <= s.len(),
        next_head(s, from, open) < s.len() ==> s[next_head(s, from, open)].spec_heading_region()
            is Some && closes(
            s[next_head(s, from, open)].spec_heading_region()->Some_0,
            open,
        ),
        forall|j: int|
            from <= j < next_head(s, from, open) ==> !((#[trigger] s[j]).spec_heading_region()
                is Some && closes(s[j].spec_heading_region()->Some_0, open)),
    decreases s.len() - from,
{
    if from < s.len() && !(s[from].spec_heading_region() is Some && closes(
        s[from].spec_heading_region()->Some_0,
        open,
    )) {
        lemma_next_head(s, from + 1, open);
    }
}

proof fn lemma_first_head(s: Seq<Element>, from: int)
    requires
        0 <= from <= s.len(),
    ensures
        from <= first_head(s, from) <= s.len(),
        first_head(s, from) < s.len() ==> s[first_head(s, from)].spec_heading_region() is Some,
        forall|j: int|
            from <= j < first_head(s, from) ==> (#[trigger] s[j]).spec_heading_region() is None,
    decreases s.len() - from,
{
    if from < s.len() && s[from].spec_heading_region() is None {
        lemma_first_head(s, from + 1);
    }
}

/// The state of a pass over `before` that has come to index `i` with
/// headings open: `heads` are the headings that stay so far, `mid` is what
/// the pass has built.
spec fn grouping(before: Seq<Element>, mid: Seq<Element>, heads: Seq<int>, i: int) -> bool {
    let h0 = first_head(before, 0);
    &&& heads.len() > 0
    &&& heads[0] == h0
    &&& h0 <= heads.last() < i <= before.len()
    &&& before[heads.last()].spec_heading_region() is Some
    &&& mid.len() == h0 + heads.len()
    &&& forall|j: int| 0 <= j < h0 ==> #[trigger] mid[j] == before[j]
    &&& forall|k: int|
        0 <= k < heads.len() - 1 ==> heads[k] < #[trigger] heads[k + 1] <= before.len() && 0
            <= heads[k] && adopted(
            before[heads[k]],
            before.subrange(heads[k] + 1, heads[k + 1]),
            mid[h0 + k],
        )
    &&& adopted(
        before[heads.last()],
        before.subrange(heads.last() + 1, i),
        mid[mid.len() - 1],
    )
    &&& heads_from(before, h0) == heads.drop_last() + heads_from(before, heads.last())
    &&& next_head(
        before,
        heads.last() + 1,
        before[heads.last()].spec_heading_region()->Some_0,
    ) == next_head(before, i, before[heads.last()].spec_heading_region()->Some_0)
}

fn level_of(r: Region) -> (l: Option<u8>)
    ensures
        match l {
            Some(n) => r.level() == Some(n as nat),
            None => r.level() is None,
        },
{
    match r {
        Region::H0 => Some(0),
        Region::H1 => Some(1),
        Region::H2 => Some(2),
        Region::H3 => Some(3),
        Region::H4 => Some(4),
        Region::H5 => Some(5),
        Region::H6 => Some(6),
        Region::H7 => Some(7),
        _ => None,
    }
}

fn ends_content(new: Region, open: Region) -> (r: bool)
    requires
        new.spec_is_heading(),
        open.spec_is_heading(),
    ensures
        r == closes(new, open),
{
    proof {
        crate::ui::lemma_lower_priority(new, open);
    }
    match (level_of(new), level_of(open)) {
        (Some(a), Some(b)) => a <= b,
        _ => false,
    }
}

/// Gives each heading that stays at this level what follows it as further
/// children.
fn regroup(elements: &mut Vec<Element>)
    ensures
        regrouped(old(elements)@, final(elements)@),
{
    let ghost before = elements@;
    let mut src: Vec<Element> = Vec::new();
    core::mem::swap(elements, &mut src);
    let n: usize = src.len();
    let mut open: Option<Region> = None;
    let ghost mut heads: Seq<int> = Seq::empty();
    let mut i: usize = 0;
    assert(elements@ =~= before.subrange(0, 0));
    while i < n
        invariant
            n == before.len(),
            src@.len() == n,
            i <= n,
            forall|j: int| i <= j < n ==> #[trigger] src@[j] == before[j],
            match open {
                None => heads.len() == 0 && elements@ == before.subrange(0, i as int) && first_head(
                    before,
                    0,
                ) == first_head(before, i as int),
                Some(r) => grouping(before, elements@, heads, i as int) && Some(r)
                    == before[heads.last()].spec_heading_region(),
            },
        decreases n - i,
    {
        proof {
            lemma_first_head(before, 0);
        }
        let mut e = Element::Null;
        core::mem::swap(&mut e, &mut src[i]);
        assert(e == before[i as int]);
        let heading: Option<Region> = match e.get_heading_region() {
            Some(r) => Some(*r),
            None => None,
        };
        let ghost mid = elements@;
        match open {
            None => {
                elements.push(e);
                assert(elements@ =~= before.subrange(0, i + 1));
                match heading {
                    Some(r) => {
                        proof {
                            lemma_first_head(before, 0);
                            heads = seq![i as int];
                            assert(heads.drop_last() + heads_from(before, i as int) =~= heads_from(
                                before,
                                i as int,
                            ));
                            assert(before.subrange(i + 1, i + 1).len() == 0);
                            match before[i as int] {
                                Element::Row(x) => {
                                    assert(x.container.children@ + before.subrange(i + 1, i + 1)
                                        =~= x.container.children@);
                                },
                                Element::Column(x) => {
                                    assert(x.container.children@ + before.subrange(i + 1, i + 1)
                                        =~= x.container.children@);
                                },
                                _ => {},
                            }
                        }
                        open = Some(r);
                    },
                    None => {},
                }
            },
            Some(r) => {
                let ghost last = heads.last();
                let ghost h0 = first_head(before, 0);
                let closing = match heading {
                    Some(r2) => ends_content(r2, r),
                    None => false,
                };
                if closing {
                    elements.push(e);
                    proof {
                        let old_heads = heads;
                        lemma_next_head(before, last + 1, r);
                        assert(next_head(before, i as int, r) == i);
                        heads = old_heads.push(i as int);
                        assert(heads_from(before, last) == heads_from(before, i as int).insert(
                            0,
                            last,
                        ));
                        assert(heads.drop_last() =~= old_heads);
                        assert(old_heads =~= old_heads.drop_last().push(last));
                        assert(old_heads.drop_last() + heads_from(before, i as int).insert(0, last)
                            =~= old_heads + heads_from(before, i as int));
                        assert(before.subrange(i + 1, i + 1).len() == 0);
                        match before[i as int] {
                            Element::Row(x) => {
                                assert(x.container.children@ + before.subrange(i + 1, i + 1)
                                    =~= x.container.children@);
                            },
                            Element::Column(x) => {
                                assert(x.container.children@ + before.subrange(i + 1, i + 1)
                                    =~= x.container.children@);
                            },
                            _ => {},
                        }
                        assert forall|k: int| 0 <= k < heads.len() - 1 implies heads[k]
                            < #[trigger] heads[k + 1] <= before.len() && 0 <= heads[k] && adopted(
                            before[heads[k]],
                            before.subrange(heads[k] + 1, heads[k + 1]),
                            elements@[h0 + k],
                        ) by {
                            if k < old_heads.len() - 1 {
                                assert(heads[k] == old_heads[k]);
                                assert(heads[k + 1] == old_heads[k + 1]);
                                assert(elements@[h0 + k] == mid[h0 + k]);
                            } else {
                                assert(heads[k] == last);
                                assert(elements@[h0 + k] == mid[mid.len() - 1]);
                            }
                        }
                    }
                    open = heading;
                } else {
                    let at: usize = elements.len() - 1;
                    let ghost run = before.subrange(last + 1, i as int);
                    match &mut elements[at] {
                        Element::Row(x) => {
                            x.container.children.push(e);
                        },
                        Element::Column(x) => {
                            x.container.children.push(e);
                        },
                        _ => {
                            assert(false);
                        },
                    }
                    proof {
                        assert(before.subrange(last + 1, i + 1) =~= run.push(before[i as int]));
                        match before[last] {
                            Element::Row(x) => {
                                assert((x.container.children@ + run).push(before[i as int])
                                    =~= x.container.children@ + run.push(before[i as int]));
                            },
                            Element::Column(x) => {
                                assert((x.container.children@ + run).push(before[i as int])
                                    =~= x.container.children@ + run.push(before[i as int]));
                            },
                            _ => {},
                        }
                        assert forall|k: int| 0 <= k < heads.len() - 1 implies heads[k]
                            < #[trigger] heads[k + 1] <= before.len() && 0 <= heads[k] && adopted(
                            before[heads[k]],
                            before.subrange(heads[k] + 1, heads[k + 1]),
                            elements@[h0 + k],
                        ) by {
                            assert(elements@[h0 + k] == mid[h0 + k]);
                        }
                        assert forall|j: int| 0 <= j < h0 implies #[trigger] elements@[j]
                            == before[j] by {
                            assert(elements@[j] == mid[j]);
                        }
                    }
                }
            },
        }
        i += 1;
    }
    proof {
        let h0 = first_head(before, 0);
        lemma_first_head(before, 0);
        match open {
            None => {
                assert(heads_from(before, h0) =~= Seq::<int>::empty());
            },
            Some(r) => {
                let last = heads.last();
                lemma_next_head(before, last + 1, r);
                assert(heads_from(before, before.len() as int) =~= Seq::<int>::empty());
                assert(heads_from(before, last) =~= seq![last]);
                assert(heads.drop_last() + seq![last] =~= heads);
                assert forall|k: int| h0 <= k < elements@.len() implies adopted(
                    before[heads[k - h0]],
                    before.subrange(heads[k - h0] + 1, group_end(before, heads, k - h0)),
                    #[trigger] elements@[k],
                ) by {
                    let idx = k - h0;
                    if idx < heads.len() - 1 {
                        assert(heads[idx] < heads[idx + 1]);
                    }
                }
            },
        }
    }
}

/// The headings that stay lie in the row, in ascending order, each before
/// the end of its content, and each is a heading.
proof fn lemma_heads(s: Seq<Element>, h: int, k: int)
    requires
        0 <= h <= s.len(),
        0 <= k < heads_from(s, h).len(),
    ensures
        h <= heads_from(s, h)[k] < group_end(s, heads_from(s, h), k) <= s.len(),
        s[heads_from(s, h)[k]].spec_heading_region() is Some,
    decreases s.len() - h,
{
    if h < s.len() && s[h].spec_heading_region() is Some {
        let r = s[h].spec_heading_region()->Some_0;
        let next = next_head(s, h + 1, r);
        lemma_next_head(s, h + 1, r);
        if next < s.len() {
            let rest = heads_from(s, next);
            assert(heads_from(s, h) == rest.insert(0, h));
            assert(rest.len() > 0);
            assert(rest[0] == next);
            if k == 0 {
                assert(heads_from(s, h)[1] == rest[0]);
            } else {
                lemma_heads(s, next, k - 1);
                assert(heads_from(s, h)[k] == rest[k - 1]);
                if k + 1 < heads_from(s, h).len() {
                    assert(heads_from(s, h)[k + 1] == rest[k]);
                }
            }
        } else {
            assert(heads_from(s, next) =~= Seq::<int>::empty());
            assert(heads_from(s, h) =~= seq![h]);
        }
    }
}

/// After the content is taken in, no element at this level weighs more
/// than all the elements did.
proof fn lemma_weight_of_group(before: Seq<Element>, mid: Seq<Element>, i: int)
    requires
        regrouped(before, mid),
        0 <= i < mid.len(),
    ensures
        element_weight(mid[i]) <= weight(before),
{
    let h0 = first_head(before, 0);
    let heads = heads_from(before, h0);
    lemma_first_head(before, 0);
    if i < h0 {
        assert(mid[i] == before[i]);
        lemma_weight_parts(before, i, i + 1);
    } else {
        let k = i - h0;
        lemma_heads(before, h0, k);
        let h = heads[k];
        let end = group_end(before, heads, k);
        let run = before.subrange(h + 1, end);
        lemma_weight_parts(before, h, end);
        assert(adopted(before[h], run, mid[i]));
        match before[h] {
            Element::Row(x) => {
                lemma_weight_concat(x.container.children@, run);
            },
            Element::Column(x) => {
                lemma_weight_concat(x.container.children@, run);
            },
            _ => {},
        }
    }
}

/// An element that took in a run, with all below it re-nested, is the
/// element it was with the run taken in and all below re-nested.
proof fn lemma_adopted_then_renested(b: Element, run: Seq<Element>, m: Element, a: Element)
    requires
        adopted(b, run, m),
        element_renested(m, Seq::empty(), a),
    ensures
        element_renested(b, run, a),
{
    match m {
        Element::Row(x) => {
            assert(x.container.children@ + Seq::<Element>::empty() =~= x.container.children@);
        },
        Element::Column(x) => {
            assert(x.container.children@ + Seq::<Element>::empty() =~= x.container.children@);
        },
        _ => {},
    }
}

fn renest_container(k: &mut Container)
    ensures
        container_renested(*old(k), Seq::empty(), *final(k)),
    decreases container_weight(*old(k)), 1nat,
{
    assert(k.children@ + Seq::<Element>::empty() =~= k.children@);
    match &mut k.external_children {
        Some((_, _, kids)) => {
            Element::renesting_on_region(kids);
        },
        None => {},
    }
    Element::renesting_on_region(&mut k.children);
}

impl Element {
    /// Re-nests `elements`: what follows a heading, up to the next heading
    /// of the same or of higher priority, becomes its content; and so at
    /// every level below.
    pub fn renesting_on_region(elements: &mut Vec<Element>)
        ensures
            renested(old(elements)@, final(elements)@),
        decreases weight(old(elements)@), 0nat,
    {
        let ghost before = elements@;
        regroup(elements);
        let ghost mid = elements@;
        let ghost h0 = first_head(before, 0);
        let ghost heads = heads_from(before, h0);
        proof {
            lemma_first_head(before, 0);
        }
        let n: usize = elements.len();
        let mut i: usize = 0;
        while i < n
            invariant
                n == elements@.len(),
                n == mid.len(),
                i <= n,
                regrouped(before, mid),
                before == old(elements)@,
                h0 == first_head(before, 0),
                heads == heads_from(before, h0),
                0 <= h0 <= before.len(),
                forall|j: int|
                    0 <= j < i ==> element_renested(mid[j], Seq::empty(), #[trigger] elements@[j]),
                forall|j: int| i <= j < n ==> #[trigger] elements@[j] == mid[j],
            decreases n - i,
        {
            proof {
                lemma_weight_of_group(before, mid, i as int);
            }
            match &mut elements[i] {
                Element::Row(x) => {
                    renest_container(&mut x.container);
                },
                Element::Column(x) => {
                    renest_container(&mut x.container);
                },
                _ => {},
            }
            i += 1;
        }
        proof {
            assert forall|k: int| h0 <= k < elements@.len() implies element_renested(
                before[heads[k - h0]],
                before.subrange(heads[k - h0] + 1, group_end(before, heads, k - h0)),
                #[trigger] elements@[k],
            ) by {
                lemma_adopted_then_renested(
                    before[heads[k - h0]],
                    before.subrange(heads[k - h0] + 1, group_end(before, heads, k - h0)),
                    mid[k],
                    elements@[k],
                );
            }
            assert forall|j: int| 0 <= j < h0 && j < elements@.len() implies element_renested(
                before[j],
                Seq::empty(),
                #[trigger] elements@[j],
            ) by {
                assert(mid[j] == before[j]);
            }
        }
    }
}

/// Whether two rows of elements are the same all the way down.
pub open spec fn same_tree(x: Seq<Element>, y: Seq<Element>) -> bool
    decreases x, 0nat,
{
    &&& x.len() == y.len()
    &&& forall|i: int| 0 <= i < x.len() ==> same_element(#[trigger] x[i], y[i])
}

pub open spec fn same_element(x: Element, y: Element) -> bool
    decreases x, 0nat,
{
    match x {
        Element::Row(r) => y is Row && y->Row_0.common == r.common && same_container(
            r.container,
            y->Row_0.container,
        ),
        Element::Column(r) => y is Column && y->Column_0.common == r.common && same_container(
            r.container,
            y->Column_0.container,
        ),
        _ => y == x,
    }
}

pub open spec fn same_container(kx: Container, ky: Container) -> bool
    decreases kx, 0nat,
{
    &&& ky == Container { children: ky.children, external_children: ky.external_children, ..kx }
    &&& same_tree(kx.children@, ky.children@)
    &&& match kx.external_children {
        Some((id, paths, kids)) => ky.external_children is Some && ky.external_children->Some_0.0
            == id && ky.external_children->Some_0.1 == paths && same_tree(
            kids@,
            ky.external_children->Some_0.2@,
        ),
        None => ky.external_children is None,
    }
}

/// Re-nesting keeps the region of every element at the level it leaves.
proof fn lemma_region_kept(b: Element, run: Seq<Element>, a: Element)
    requires
        element_renested(b, run, a),
    ensures
        a.spec_heading_region() == b.spec_heading_region(),
{
}

proof fn lemma_first_head_is(s: Seq<Element>, from: int, h: int)
    requires
        0 <= from <= h <= s.len(),
        forall|j: int| from <= j < h ==> (#[trigger] s[j]).spec_heading_region() is None,
        h < s.len() ==> s[h].spec_heading_region() is Some,
    ensures
        first_head(s, from) == h,
    decreases h - from,
{
    if from < h {
        lemma_first_head_is(s, from + 1, h);
    }
}

/// Each heading that stays ends the content of the one before it.
proof fn lemma_heads_close(s: Seq<Element>, h: int, k: int)
    requires
        0 <= h <= s.len(),
        0 <= k,
        k + 1 < heads_from(s, h).len(),
    ensures
        0 <= heads_from(s, h)[k] < s.len(),
        0 <= heads_from(s, h)[k + 1] < s.len(),
        s[heads_from(s, h)[k]].spec_heading_region() is Some,
        s[heads_from(s, h)[k + 1]].spec_heading_region() is Some,
        closes(
            s[heads_from(s, h)[k + 1]].spec_heading_region()->Some_0,
            s[heads_from(s, h)[k]].spec_heading_region()->Some_0,
        ),
    decreases s.len() - h,
{
    lemma_heads(s, h, k);
    lemma_heads(s, h, k + 1);
    if h < s.len() && s[h].spec_heading_region() is Some {
        let r = s[h].spec_heading_region()->Some_0;
        let next = next_head(s, h + 1, r);
        lemma_next_head(s, h + 1, r);
        if next < s.len() {
            let rest = heads_from(s, next);
            assert(heads_from(s, h) == rest.insert(0, h));
            assert(rest[0] == next);
            if k == 0 {
                assert(heads_from(s, h)[0] == h);
                assert(heads_from(s, h)[1] == rest[0]);
            } else {
                lemma_heads_close(s, next, k - 1);
                assert(heads_from(s, h)[k] == rest[k - 1]);
                assert(heads_from(s, h)[k + 1] == rest[k]);
            }
        } else {
            assert(heads_from(s, next) =~= Seq::<int>::empty());
            assert(heads_from(s, h) =~= seq![h]);
        }
    }
}

/// Where every element from `h` on is a heading that ends the content of
/// the one before it, all of them stay, and none has content to take in.
proof fn lemma_consecutive_heads(s: Seq<Element>, h: int)
    requires
        0 <= h <= s.len(),
        forall|k: int| h <= k < s.len() ==> (#[trigger] s[k]).spec_heading_region() is Some,
        forall|k: int|
            h <= k < s.len() - 1 ==> closes(
                s[k + 1].spec_heading_region()->Some_0,
                (#[trigger] s[k]).spec_heading_region()->Some_0,
            ),
    ensures
        heads_from(s, h) == Seq::new((s.len() - h) as nat, |j: int| h + j),
    decreases s.len() - h,
{
    if h < s.len() {
        let r = s[h].spec_heading_region()->Some_0;
        if h + 1 < s.len() {
            assert(closes(s[h + 1].spec_heading_region()->Some_0, r));
            assert(next_head(s, h + 1, r) == h + 1);
        } else {
            assert(next_head(s, h + 1, r) == s.len());
        }
        lemma_consecutive_heads(s, h + 1);
        assert(heads_from(s, h) =~= Seq::new((s.len() - h) as nat, |j: int| h + j));
    } else {
        assert(heads_from(s, h) =~= Seq::new((s.len() - h) as nat, |j: int| h + j));
    }
}

/// Re-nesting what is re-nested changes nothing: where `b` is `a`
/// re-nested and `c` is `b` re-nested, `c` is the same as `b` all the way
/// down.
pub proof fn lemma_renesting_idempotent(a: Seq<Element>, b: Seq<Element>, c: Seq<Element>)
    requires
        renested(a, b),
        renested(b, c),
    ensures
        same_tree(b, c),
    decreases b, 1nat,
{
    let h0 = first_head(a, 0);
    let heads = heads_from(a, h0);
    lemma_first_head(a, 0);
    assert forall|i: int| 0 <= i < h0 && i < b.len() implies (#[trigger] b[i]).spec_heading_region()
        is None by {
        lemma_region_kept(a[i], Seq::empty(), b[i]);
    }
    assert forall|k: int| h0 <= k < b.len() implies (#[trigger] b[k]).spec_heading_region()
        == a[heads[k - h0]].spec_heading_region() && b[k].spec_heading_region() is Some by {
        lemma_heads(a, h0, k - h0);
        lemma_region_kept(
            a[heads[k - h0]],
            a.subrange(heads[k - h0] + 1, group_end(a, heads, k - h0)),
            b[k],
        );
    }
    assert forall|k: int| h0 <= k < b.len() - 1 implies closes(
        b[k + 1].spec_heading_region()->Some_0,
        (#[trigger] b[k]).spec_heading_region()->Some_0,
    ) by {
        lemma_heads_close(a, h0, k - h0);
        assert(b[k + 1].spec_heading_region() == a[heads[k + 1 - h0]].spec_heading_region());
    }
    lemma_first_head_is(b, 0, h0);
    lemma_consecutive_heads(b, h0);
    let heads_b = heads_from(b, h0);
    assert(c.len() == b.len());
    assert forall|i: int| 0 <= i < b.len() implies same_element(#[trigger] b[i], c[i]) by {
        if i < h0 {
            assert(element_renested(b[i], Seq::empty(), c[i]));
            lemma_element_idempotent(a[i], Seq::empty(), b[i], c[i]);
        } else {
            assert(heads_b[i - h0] == i);
            assert(group_end(b, heads_b, i - h0) == i + 1);
            assert(b.subrange(i + 1, i + 1) =~= Seq::<Element>::empty());
            assert(element_renested(b[i], Seq::empty(), c[i]));
            lemma_element_idempotent(
                a[heads[i - h0]],
                a.subrange(heads[i - h0] + 1, group_end(a, heads, i - h0)),
                b[i],
                c[i],
            );
        }
    }
}

proof fn lemma_element_idempotent(x: Element, run: Seq<Element>, y: Element, z: Element)
    requires
        element_renested(x, run, y),
        element_renested(y, Seq::empty(), z),
    ensures
        same_element(y, z),
    decreases y, 0nat,
{
    match y {
        Element::Row(r) => {
            lemma_container_idempotent(x->Row_0.container, run, r.container, z->Row_0.container);
        },
        Element::Column(r) => {
            lemma_container_idempotent(
                x->Column_0.container,
                run,
                r.container,
                z->Column_0.container,
            );
        },
        _ => {},
    }
}

proof fn lemma_container_idempotent(kx: Container, run: Seq<Element>, ky: Container, kz: Container)
    requires
        container_renested(kx, run, ky),
        container_renested(ky, Seq::empty(), kz),
    ensures
        same_container(ky, kz),
    decreases ky, 0nat,
{
    assert(ky.children@ + Seq::<Element>::empty() =~= ky.children@);
    lemma_renesting_idempotent(kx.children@ + run, ky.children@, kz.children@);
    match ky.external_children {
        Some((_, _, kids)) => {
            lemma_renesting_idempotent(
                kx.external_children->Some_0.2@,
                kids@,
                kz.external_children->Some_0.2@,
            );
        },
        None => {},
    }
}

/// The elements from index `i` on and all below them in the order of the
/// page: each element, then its children. An element is listed by what it
/// has in common with every other. What came in through slots is not
/// listed.
pub open spec fn listing(s: Seq<Element>, i: int) -> Seq<Option<Common>>
    decreases s, s.len() - i,
{
    if i < 0 || i >= s.len() {
        Seq::empty()
    } else {
        element_listing(s[i]) + listing(s, i + 1)
    }
}

pub open spec fn element_listing(e: Element) -> Seq<Option<Common>>
    decreases e, 0nat,
{
    match e {
        Element::Row(r) => seq![Some(r.common)] + listing(r.container.children@, 0),
        Element::Column(r) => seq![Some(r.common)] + listing(r.container.children@, 0),
        Element::Scene(r) => seq![Some(r.common)] + listing(r.container.children@, 0),
        _ => seq![e.spec_common()],
    }
}

proof fn lemma_listing_suffix(s: Seq<Element>, i: int)
    requires
        0 <= i <= s.len(),
    ensures
        listing(s, i) == listing(s.subrange(i, s.len() as int), 0),
    decreases s.len() - i,
{
    let t = s.subrange(i, s.len() as int);
    if i < s.len() {
        lemma_listing_suffix(s, i + 1);
        lemma_listing_suffix(t, 1);
        assert(t.subrange(1, t.len() as int) =~= s.subrange(i + 1, s.len() as int));
        assert(t[0] == s[i]);
    }
}

proof fn lemma_listing_concat(a: Seq<Element>, b: Seq<Element>)
    ensures
        listing(a + b, 0) == listing(a, 0) + listing(b, 0),
    decreases a.len(),
{
    if a.len() == 0 {
        assert(a + b =~= b);
        assert(listing(a, 0) + listing(b, 0) =~= listing(b, 0));
    } else {
        let rest = a.subrange(1, a.len() as int);
        lemma_listing_suffix(a + b, 1);
        lemma_listing_suffix(a, 1);
        assert((a + b).subrange(1, (a + b).len() as int) =~= rest + b);
        lemma_listing_concat(rest, b);
        assert((a + b)[0] == a[0]);
        assert(listing(a + b, 0) =~= listing(a, 0) + listing(b, 0));
    }
}

/// The listing from an element on is the element with all below it, then
/// the listing of a run behind it, then the listing from the end of the
/// run on.
proof fn lemma_listing_split(s: Seq<Element>, h: int, end: int)
    requires
        0 <= h < end <= s.len(),
    ensures
        listing(s, h) == element_listing(s[h]) + listing(s.subrange(h + 1, end), 0) + listing(
            s,
            end,
        ),
{
    let run = s.subrange(h + 1, end);
    let rest = s.subrange(end, s.len() as int);
    lemma_listing_suffix(s, h + 1);
    lemma_listing_suffix(s, end);
    assert(s.subrange(h + 1, s.len() as int) =~= run + rest);
    lemma_listing_concat(run, rest);
    assert(listing(s, h) =~= element_listing(s[h]) + listing(run, 0) + listing(s, end));
}

/// Re-nesting keeps the order of the page: the elements of the tree, each
/// before its children, are listed alike before and after.
pub proof fn lemma_renesting_keeps_order(a: Seq<Element>, b: Seq<Element>)
    requires
        renested(a, b),
    ensures
        listing(b, 0) == listing(a, 0),
    decreases b, 0nat,
{
    let h0 = first_head(a, 0);
    let heads = heads_from(a, h0);
    lemma_first_head(a, 0);
    assert forall|i: int| 0 <= i < h0 && i < b.len() implies element_listing(#[trigger] b[i])
        == element_listing(a[i]) by {
        lemma_element_keeps_order(a[i], Seq::empty(), b[i]);
        assert(element_listing(a[i]) + Seq::<Option<Common>>::empty() =~= element_listing(a[i]));
    }
    assert forall|k: int| 0 <= k < heads.len() implies element_listing(#[trigger] b[h0 + k])
        == element_listing(a[heads[k]]) + listing(
        a.subrange(heads[k] + 1, group_end(a, heads, k)),
        0,
    ) by {
        lemma_heads(a, h0, k);
        assert(element_renested(
            a[heads[h0 + k - h0]],
            a.subrange(heads[h0 + k - h0] + 1, group_end(a, heads, h0 + k - h0)),
            b[h0 + k],
        ));
        lemma_element_keeps_order(
            a[heads[k]],
            a.subrange(heads[k] + 1, group_end(a, heads, k)),
            b[h0 + k],
        );
    }
    lemma_groups_keep_order(a, b, 0);
    if heads.len() > 0 {
        lemma_heads(a, h0, 0);
        lemma_next_head(a, h0 + 1, a[h0].spec_heading_region()->Some_0);
        assert(heads[0] == h0);
    }
    lemma_prefix_keeps_order(a, b, 0);
}

proof fn lemma_element_keeps_order(x: Element, run: Seq<Element>, y: Element)
    requires
        element_renested(x, run, y),
    ensures
        element_listing(y) == element_listing(x) + listing(run, 0),
    decreases y, 0nat,
{
    match y {
        Element::Row(r) => {
            let kx = x->Row_0.container;
            lemma_renesting_keeps_order(kx.children@ + run, r.container.children@);
            lemma_listing_concat(kx.children@, run);
            assert(element_listing(y) =~= element_listing(x) + listing(run, 0));
        },
        Element::Column(r) => {
            let kx = x->Column_0.container;
            lemma_renesting_keeps_order(kx.children@ + run, r.container.children@);
            lemma_listing_concat(kx.children@, run);
            assert(element_listing(y) =~= element_listing(x) + listing(run, 0));
        },
        _ => {
            assert(element_listing(x) + listing(run, 0) =~= element_listing(x));
        },
    }
}

/// From each heading that stays on, the listing after is the listing before
/// from that heading on.
proof fn lemma_groups_keep_order(a: Seq<Element>, b: Seq<Element>, k: int)
    requires
        0 <= k <= heads_from(a, first_head(a, 0)).len(),
        b.len() == first_head(a, 0) + heads_from(a, first_head(a, 0)).len(),
        forall|j: int|
            0 <= j < heads_from(a, first_head(a, 0)).len() ==> element_listing(
                #[trigger] b[first_head(a, 0) + j],
            ) == element_listing(a[heads_from(a, first_head(a, 0))[j]]) + listing(
                a.subrange(
                    heads_from(a, first_head(a, 0))[j] + 1,
                    group_end(a, heads_from(a, first_head(a, 0)), j),
                ),
                0,
            ),
    ensures
        listing(b, first_head(a, 0) + k) == listing(
            a,
            if k < heads_from(a, first_head(a, 0)).len() {
                heads_from(a, first_head(a, 0))[k]
            } else {
                a.len() as int
            },
        ),
    decreases heads_from(a, first_head(a, 0)).len() - k,
{
    let h0 = first_head(a, 0);
    let heads = heads_from(a, h0);
    lemma_first_head(a, 0);
    if k < heads.len() {
        lemma_heads(a, h0, k);
        lemma_groups_keep_order(a, b, k + 1);
        let h = heads[k];
        let end = group_end(a, heads, k);
        lemma_listing_split(a, h, end);
        assert(element_listing(b[h0 + k]) == element_listing(a[h]) + listing(
            a.subrange(h + 1, end),
            0,
        ));
        assert(listing(b, h0 + k) =~= element_listing(a[h]) + listing(a.subrange(h + 1, end), 0)
            + listing(a, end));
    }
}

/// Before the first heading, the listing after is the listing before.
proof fn lemma_prefix_keeps_order(a: Seq<Element>, b: Seq<Element>, i: int)
    requires
        0 <= i <= first_head(a, 0) <= a.len(),
        first_head(a, 0) <= b.len(),
        forall|j: int|
            0 <= j < first_head(a, 0) && j < b.len() ==> element_listing(#[trigger] b[j])
                == element_listing(a[j]),
        listing(b, first_head(a, 0)) == listing(a, first_head(a, 0)),
    ensures
        listing(b, i) == listing(a, i),
    decreases first_head(a, 0) - i,
{
    if i < first_head(a, 0) {
        lemma_prefix_keeps_order(a, b, i + 1);
        assert(element_listing(b[i]) == element_listing(a[i]));
    }
}

} // verus!
