//! Copies that keep the view.

use crate::ordered_map::{entries_view, OrderedMap};
use vstd::prelude::*;

verus! {

/// A type whose values can be copied with the view kept.
pub trait Duplicate: View + Sized {
    fn duplicate(&self) -> (r: Self)
        ensures
            r@ == self@,
    ;
}

impl Duplicate for String {
    fn duplicate(&self) -> (r: Self) {
        self.clone()
    }
}

/// The views of a row of values.
pub open spec fn list_view<T: View>(s: Seq<T>) -> Seq<T::V> {
    Seq::new(s.len(), |i: int| s[i]@)
}

/// The view of an optional value.
pub open spec fn option_view<T: View>(o: Option<T>) -> Option<T::V> {
    match o {
        Some(v) => Some(v@),
        None => None,
    }
}

/// A copy of a row of values.
pub fn copy_list<T: Duplicate>(v: &Vec<T>) -> (r: Vec<T>)
    ensures
        list_view(r@) == list_view(v@),
{
    let mut out: Vec<T> = Vec::new();
    let n: usize = v.len();
    let mut i: usize = 0;
    while i < n
        invariant
            n == v@.len(),
            i <= n,
            out@.len() == i,
            forall|j: int| 0 <= j < i ==> (#[trigger] out@[j])@ == v@[j]@,
        decreases n - i,
    {
        out.push(v[i].duplicate());
        i += 1;
    }
    proof {
        assert(list_view(out@) =~= list_view(v@));
    }
    out
}

/// A copy of the entries of a map.
pub fn copy_entries<T: Duplicate>(entries: &Vec<(String, T)>) -> (r: Vec<(String, T)>)
    ensures
        entries_view(r@) == entries_view(entries@),
{
    let mut out: Vec<(String, T)> = Vec::new();
    let n: usize = entries.len();
    let mut i: usize = 0;
    while i < n
        invariant
            n == entries@.len(),
            i <= n,
            out@.len() == i,
            forall|j: int|
                0 <= j < i ==> (#[trigger] out@[j]).0@ == entries@[j].0@ && out@[j].1@
                    == entries@[j].1@,
        decreases n - i,
    {
        out.push((entries[i].0.clone(), entries[i].1.duplicate()));
        i += 1;
    }
    proof {
        assert(entries_view(out@) =~= entries_view(entries@));
    }
    out
}

/// A copy of an optional value.
pub fn copy_option<T: Duplicate>(o: &Option<T>) -> (r: Option<T>)
    ensures
        option_view(r) == option_view(*o),
{
    match o {
        Some(v) => Some(v.duplicate()),
        None => None,
    }
}

impl<V: Duplicate> Duplicate for OrderedMap<V> {
    fn duplicate(&self) -> (r: Self) {
        OrderedMap { entries: copy_entries(&self.entries) }
    }
}

} // verus!
