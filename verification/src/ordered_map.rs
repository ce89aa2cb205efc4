//! A map from strings to values that keeps its entries in the order of their
//! keys, compared code point by code point.

use vstd::prelude::*;

verus! {

/// Whether `a` comes before `b` from index `i` on, given that they agree
/// before it: at the first difference the smaller code point decides, and a
/// text comes before those it begins.
pub open spec fn before_from(a: Seq<char>, b: Seq<char>, i: int) -> bool
    decreases a.len() - i,
{
    if i >= b.len() {
        false
    } else if i >= a.len() {
        true
    } else if a[i] != b[i] {
        (a[i] as u32) < (b[i] as u32)
    } else {
        before_from(a, b, i + 1)
    }
}

/// The order of keys.
pub open spec fn before(a: Seq<char>, b: Seq<char>) -> bool {
    before_from(a, b, 0)
}

/// The keys of a row of entries.
pub open spec fn keys<V>(entries: Seq<(String, V)>) -> Seq<Seq<char>> {
    Seq::new(entries.len(), |i: int| entries[i].0@)
}

/// The keys of a row of entries that are held by their views.
pub open spec fn view_keys<W>(entries: Seq<(Seq<char>, W)>) -> Seq<Seq<char>> {
    Seq::new(entries.len(), |i: int| entries[i].0)
}

/// The first index at or after `from` at which `keys` holds `key`, or the
/// length.
pub open spec fn find(keys: Seq<Seq<char>>, key: Seq<char>, from: int) -> int
    decreases keys.len() - from,
{
    if from >= keys.len() {
        keys.len() as int
    } else if keys[from] == key {
        from
    } else {
        find(keys, key, from + 1)
    }
}

/// The first index at or after `from` whose key does not come before `key`,
/// or the length.
pub open spec fn lower_bound(keys: Seq<Seq<char>>, key: Seq<char>, from: int) -> int
    decreases keys.len() - from,
{
    if from >= keys.len() {
        keys.len() as int
    } else if !before(keys[from], key) {
        from
    } else {
        lower_bound(keys, key, from + 1)
    }
}

/// Whether the entries hold `key`.
pub open spec fn holds<V>(entries: Seq<(String, V)>, key: Seq<char>) -> bool {
    find(keys(entries), key, 0) < entries.len()
}

/// The value under `key`.
pub open spec fn lookup<V>(entries: Seq<(String, V)>, key: Seq<char>) -> Option<V> {
    if holds(entries, key) {
        Some(entries[find(keys(entries), key, 0)].1)
    } else {
        None
    }
}

/// Whether entries that are held by their views hold `key`.
pub open spec fn view_holds<W>(entries: Seq<(Seq<char>, W)>, key: Seq<char>) -> bool {
    find(view_keys(entries), key, 0) < entries.len()
}

/// The value under `key`, among entries that are held by their views.
pub open spec fn view_lookup<W>(entries: Seq<(Seq<char>, W)>, key: Seq<char>) -> Option<W> {
    if view_holds(entries, key) {
        Some(entries[find(view_keys(entries), key, 0)].1)
    } else {
        None
    }
}

/// `entries` with `value` under `key`: in place of the value that was there,
/// or as a new entry before the first key that does not come before `key`.
pub open spec fn inserted<V>(entries: Seq<(String, V)>, key: String, value: V) -> Seq<(String, V)> {
    let i = find(keys(entries), key@, 0);
    if i < entries.len() {
        entries.update(i, (entries[i].0, value))
    } else {
        entries.insert(lower_bound(keys(entries), key@, 0), (key, value))
    }
}

/// The same over views.
pub open spec fn view_inserted<W>(entries: Seq<(Seq<char>, W)>, key: Seq<char>, value: W) -> Seq<
    (Seq<char>, W),
> {
    let i = find(view_keys(entries), key, 0);
    if i < entries.len() {
        entries.update(i, (key, value))
    } else {
        entries.insert(lower_bound(view_keys(entries), key, 0), (key, value))
    }
}

/// Keys ascend strictly: the map's invariant.
pub open spec fn ascending(keys: Seq<Seq<char>>) -> bool {
    forall|i: int, j: int| 0 <= i < j < keys.len() ==> before(#[trigger] keys[i], #[trigger] keys[j])
}

/// The search finds the first entry with the key: it lies at or after
/// `from`, holds the key unless it is the length, and nothing before it does.
pub proof fn lemma_find(keys: Seq<Seq<char>>, key: Seq<char>, from: int)
    requires
        0 <= from <= keys.len(),
    ensures
        from <= find(keys, key, from) <= keys.len(),
        find(keys, key, from) < keys.len() ==> keys[find(keys, key, from)] == key,
        forall|j: int| from <= j < find(keys, key, from) ==> #[trigger] keys[j] != key,
    decreases keys.len() - from,
{
    if from < keys.len() && keys[from] != key {
        lemma_find(keys, key, from + 1);
    }
}

/// Every key before the lower bound comes before `key`, and the key at the
/// bound does not.
pub proof fn lemma_lower_bound(keys: Seq<Seq<char>>, key: Seq<char>, from: int)
    requires
        0 <= from <= keys.len(),
    ensures
        from <= lower_bound(keys, key, from) <= keys.len(),
        lower_bound(keys, key, from) < keys.len() ==> !before(
            keys[lower_bound(keys, key, from)],
            key,
        ),
        forall|j: int| from <= j < lower_bound(keys, key, from) ==> before(#[trigger] keys[j], key),
    decreases keys.len() - from,
{
    if from < keys.len() && before(keys[from], key) {
        lemma_lower_bound(keys, key, from + 1);
    }
}

/// A search agrees with one that starts later, once the keys between are
/// ruled out.
pub proof fn lemma_find_skips(keys: Seq<Seq<char>>, key: Seq<char>, from: int, to: int)
    requires
        0 <= from <= to <= keys.len(),
        forall|j: int| from <= j < to ==> #[trigger] keys[j] != key,
    ensures
        find(keys, key, from) == find(keys, key, to),
    decreases to - from,
{
    if from < to {
        lemma_find_skips(keys, key, from + 1, to);
    }
}

/// After an insertion the key holds the value.
pub proof fn lemma_inserted_key<V>(entries: Seq<(String, V)>, key: String, value: V)
    ensures
        lookup(inserted(entries, key, value), key@) == Some(value),
{
    let ks = keys(entries);
    let i = find(ks, key@, 0);
    let after = inserted(entries, key, value);
    lemma_find(ks, key@, 0);
    if i < entries.len() {
        assert(keys(after) =~= ks);
    } else {
        let p = lower_bound(ks, key@, 0);
        lemma_lower_bound(ks, key@, 0);
        assert(keys(after) =~= ks.insert(p, key@));
        lemma_find_skips(keys(after), key@, 0, p);
    }
}

/// An insertion leaves the other keys as they were.
pub proof fn lemma_inserted_other<V>(
    entries: Seq<(String, V)>,
    key: String,
    value: V,
    other: Seq<char>,
)
    requires
        other != key@,
    ensures
        lookup(inserted(entries, key, value), other) == lookup(entries, other),
{
    let ks = keys(entries);
    let i = find(ks, key@, 0);
    let after = inserted(entries, key, value);
    lemma_find(ks, key@, 0);
    lemma_find(ks, other, 0);
    let o = find(ks, other, 0);
    if i < entries.len() {
        assert(keys(after) =~= ks);
    } else {
        let p = lower_bound(ks, key@, 0);
        lemma_lower_bound(ks, key@, 0);
        let ka = keys(after);
        assert(ka =~= ks.insert(p, key@));
        if o < p {
            lemma_find_skips(ka, other, 0, o);
        } else {
            assert forall|j: int| 0 <= j < o + 1 implies #[trigger] ka[j] != other by {
                if j > p {
                    assert(ka[j] == ks[j - 1]);
                }
            }
            lemma_find_skips(ka, other, 0, o + 1);
            if o >= entries.len() {
                lemma_find(ka, other, o + 1);
            }
        }
    }
}

/// The entries with key and value each taken by its view.
pub open spec fn entries_view<V: View>(entries: Seq<(String, V)>) -> Seq<(Seq<char>, V::V)> {
    Seq::new(entries.len(), |i: int| (entries[i].0@, entries[i].1@))
}

/// Looking a key up among the views finds the view of what the entries hold.
pub proof fn lemma_lookup_view<V: View>(entries: Seq<(String, V)>, key: Seq<char>)
    ensures
        view_holds(entries_view(entries), key) == holds(entries, key),
        view_lookup(entries_view(entries), key) == match lookup(entries, key) {
            Some(v) => Some(v@),
            None => None,
        },
{
    assert(view_keys(entries_view(entries)) =~= keys(entries));
    lemma_find(keys(entries), key, 0);
}

/// Inserting among the entries inserts the views among the views.
pub proof fn lemma_inserted_view<V: View>(entries: Seq<(String, V)>, key: String, value: V)
    ensures
        entries_view(inserted(entries, key, value)) == view_inserted(
            entries_view(entries),
            key@,
            value@,
        ),
{
    assert(view_keys(entries_view(entries)) =~= keys(entries));
    lemma_find(keys(entries), key@, 0);
    lemma_lower_bound(keys(entries), key@, 0);
    assert(entries_view(inserted(entries, key, value)) =~= view_inserted(
        entries_view(entries),
        key@,
        value@,
    ));
}

/// `entries` with the entries of `more` from index `j` on inserted, one
/// after the other.
pub open spec fn merged<V>(entries: Seq<(String, V)>, more: Seq<(String, V)>, j: int) -> Seq<
    (String, V),
>
    decreases more.len() - j,
{
    if j < 0 || j >= more.len() {
        entries
    } else {
        merged(inserted(entries, more[j].0, more[j].1), more, j + 1)
    }
}

/// The same over views.
pub open spec fn view_merged<W>(
    entries: Seq<(Seq<char>, W)>,
    more: Seq<(Seq<char>, W)>,
    j: int,
) -> Seq<(Seq<char>, W)>
    decreases more.len() - j,
{
    if j < 0 || j >= more.len() {
        entries
    } else {
        view_merged(view_inserted(entries, more[j].0, more[j].1), more, j + 1)
    }
}

/// Merging the entries merges the views.
pub proof fn lemma_merged_view<V: View>(entries: Seq<(String, V)>, more: Seq<(String, V)>, j: int)
    requires
        0 <= j <= more.len(),
    ensures
        entries_view(merged(entries, more, j)) == view_merged(
            entries_view(entries),
            entries_view(more),
            j,
        ),
    decreases more.len() - j,
{
    if j < more.len() {
        lemma_inserted_view(entries, more[j].0, more[j].1);
        lemma_merged_view(inserted(entries, more[j].0, more[j].1), more, j + 1);
    }
}

/// The order of keys is transitive.
pub proof fn lemma_before_transitive(a: Seq<char>, b: Seq<char>, c: Seq<char>, i: int)
    requires
        0 <= i,
        before_from(a, b, i),
        before_from(b, c, i),
    ensures
        before_from(a, c, i),
    decreases a.len() - i,
{
    if i < a.len() && a[i] == b[i] && b[i] == c[i] {
        lemma_before_transitive(a, b, c, i + 1);
    }
}

/// Different characters have different code points.
proof fn lemma_codes_differ(x: char, y: char)
    requires
        x != y,
    ensures
        (x as u32) != (y as u32),
{
}

/// Of two keys that agree up to index `i`, one comes before the other, or
/// they are the same.
pub proof fn lemma_before_total(a: Seq<char>, b: Seq<char>, i: int)
    requires
        0 <= i <= a.len(),
        i <= b.len(),
        a.subrange(0, i) == b.subrange(0, i),
    ensures
        before_from(a, b, i) || before_from(b, a, i) || a == b,
    decreases a.len() - i,
{
    if i < a.len() && i < b.len() && a[i] == b[i] {
        assert(a.subrange(0, i + 1) =~= a.subrange(0, i).push(a[i]));
        assert(b.subrange(0, i + 1) =~= b.subrange(0, i).push(b[i]));
        lemma_before_total(a, b, i + 1);
    } else if i >= a.len() && i >= b.len() {
        assert(a =~= a.subrange(0, i));
        assert(b =~= b.subrange(0, i));
    } else if i < a.len() && i < b.len() {
        lemma_codes_differ(a[i], b[i]);
    }
}

/// Of two keys one comes before the other, or they are the same.
pub proof fn lemma_before_trichotomy(a: Seq<char>, b: Seq<char>)
    ensures
        before(a, b) || before(b, a) || a == b,
{
    assert(a.subrange(0, 0) =~= b.subrange(0, 0));
    lemma_before_total(a, b, 0);
}

/// An insertion keeps the keys in ascending order.
pub proof fn lemma_inserted_ascending<V>(entries: Seq<(String, V)>, key: String, value: V)
    requires
        ascending(keys(entries)),
    ensures
        ascending(keys(inserted(entries, key, value))),
{
    let ks = keys(entries);
    let i = find(ks, key@, 0);
    let after = keys(inserted(entries, key, value));
    lemma_find(ks, key@, 0);
    if i < entries.len() {
        assert(after =~= ks);
    } else {
        let p = lower_bound(ks, key@, 0);
        lemma_lower_bound(ks, key@, 0);
        assert(after =~= ks.insert(p, key@));
        assert forall|x: int, y: int| 0 <= x < y < after.len() implies before(
            #[trigger] after[x],
            #[trigger] after[y],
        ) by {
            if y < p {
                assert(after[x] == ks[x] && after[y] == ks[y]);
            } else if y == p {
                assert(after[x] == ks[x]);
            } else if x < p {
                assert(after[x] == ks[x] && after[y] == ks[y - 1]);
                lemma_before_trichotomy(key@, ks[p]);
                lemma_before_transitive(ks[x], key@, ks[p], 0);
                if y - 1 > p {
                    lemma_before_transitive(ks[x], ks[p], ks[y - 1], 0);
                }
            } else if x == p {
                assert(after[y] == ks[y - 1]);
                lemma_before_trichotomy(key@, ks[p]);
                if y - 1 > p {
                    lemma_before_transitive(key@, ks[p], ks[y - 1], 0);
                }
            } else {
                assert(after[x] == ks[x - 1] && after[y] == ks[y - 1]);
            }
        }
    }
}

/// A merge keeps the keys in ascending order.
pub proof fn lemma_merged_ascending<V>(entries: Seq<(String, V)>, more: Seq<(String, V)>, j: int)
    requires
        ascending(keys(entries)),
        0 <= j <= more.len(),
    ensures
        ascending(keys(merged(entries, more, j))),
    decreases more.len() - j,
{
    if j < more.len() {
        lemma_inserted_ascending(entries, more[j].0, more[j].1);
        lemma_merged_ascending(inserted(entries, more[j].0, more[j].1), more, j + 1);
    }
}

/// After an insertion among views the key holds the value.
pub proof fn lemma_view_inserted_key<W>(entries: Seq<(Seq<char>, W)>, key: Seq<char>, value: W)
    ensures
        view_lookup(view_inserted(entries, key, value), key) == Some(value),
{
    let ks = view_keys(entries);
    let i = find(ks, key, 0);
    let after = view_inserted(entries, key, value);
    lemma_find(ks, key, 0);
    if i < entries.len() {
        assert(view_keys(after) =~= ks);
    } else {
        let p = lower_bound(ks, key, 0);
        lemma_lower_bound(ks, key, 0);
        assert(view_keys(after) =~= ks.insert(p, key));
        lemma_find_skips(view_keys(after), key, 0, p);
    }
}

/// An insertion among views leaves the other keys as they were.
pub proof fn lemma_view_inserted_other<W>(
    entries: Seq<(Seq<char>, W)>,
    key: Seq<char>,
    value: W,
    other: Seq<char>,
)
    requires
        other != key,
    ensures
        view_lookup(view_inserted(entries, key, value), other) == view_lookup(entries, other),
{
    let ks = view_keys(entries);
    let i = find(ks, key, 0);
    let after = view_inserted(entries, key, value);
    lemma_find(ks, key, 0);
    lemma_find(ks, other, 0);
    let o = find(ks, other, 0);
    if i < entries.len() {
        assert(view_keys(after) =~= ks);
    } else {
        let p = lower_bound(ks, key, 0);
        lemma_lower_bound(ks, key, 0);
        let ka = view_keys(after);
        assert(ka =~= ks.insert(p, key));
        if o < p {
            lemma_find_skips(ka, other, 0, o);
        } else {
            assert forall|j: int| 0 <= j < o + 1 implies #[trigger] ka[j] != other by {
                if j > p {
                    assert(ka[j] == ks[j - 1]);
                }
            }
            lemma_find_skips(ka, other, 0, o + 1);
            if o >= entries.len() {
                lemma_find(ka, other, o + 1);
            }
        }
    }
}

/// The entries with each key by its view and each value by what `f` makes
/// of it.
pub open spec fn mapped<V, W>(entries: Seq<(String, V)>, f: spec_fn(V) -> W) -> Seq<(Seq<char>, W)> {
    Seq::new(entries.len(), |i: int| (entries[i].0@, f(entries[i].1)))
}

/// Looking a key up among the mapped entries finds what `f` makes of the
/// value that the entries hold.
pub proof fn lemma_lookup_mapped<V, W>(entries: Seq<(String, V)>, key: Seq<char>, f: spec_fn(V) -> W)
    ensures
        view_holds(mapped(entries, f), key) == holds(entries, key),
        find(view_keys(mapped(entries, f)), key, 0) == find(keys(entries), key, 0),
        view_lookup(mapped(entries, f), key) == match lookup(entries, key) {
            Some(v) => Some(f(v)),
            None => None,
        },
{
    assert(view_keys(mapped(entries, f)) =~= keys(entries));
    lemma_find(keys(entries), key, 0);
}

/// Inserting among the entries inserts among the mapped entries.
pub proof fn lemma_inserted_mapped<V, W>(
    entries: Seq<(String, V)>,
    key: String,
    value: V,
    f: spec_fn(V) -> W,
)
    ensures
        mapped(inserted(entries, key, value), f) == view_inserted(
            mapped(entries, f),
            key@,
            f(value),
        ),
{
    assert(view_keys(mapped(entries, f)) =~= keys(entries));
    lemma_find(keys(entries), key@, 0);
    lemma_lower_bound(keys(entries), key@, 0);
    assert(mapped(inserted(entries, key, value), f) =~= view_inserted(
        mapped(entries, f),
        key@,
        f(value),
    ));
}

/// Merging the entries merges the mapped entries.
pub proof fn lemma_merged_mapped<V, W>(
    entries: Seq<(String, V)>,
    more: Seq<(String, V)>,
    j: int,
    f: spec_fn(V) -> W,
)
    requires
        0 <= j <= more.len(),
    ensures
        mapped(merged(entries, more, j), f) == view_merged(mapped(entries, f), mapped(more, f), j),
    decreases more.len() - j,
{
    if j < more.len() {
        lemma_inserted_mapped(entries, more[j].0, more[j].1, f);
        lemma_merged_mapped(inserted(entries, more[j].0, more[j].1), more, j + 1, f);
    }
}

/// A map from strings to values. It holds its entries in a row, and every
/// insertion keeps the row in the order of the keys.
#[derive(Debug, PartialEq)]
pub struct OrderedMap<V> {
    pub entries: Vec<(String, V)>,
}

impl<V: View> View for OrderedMap<V> {
    type V = Seq<(Seq<char>, V::V)>;

    open spec fn view(&self) -> Seq<(Seq<char>, V::V)> {
        entries_view(self.entries@)
    }
}

impl<V: View> OrderedMap<V> {
    /// The keys ascend strictly.
    pub open spec fn well_formed(&self) -> bool {
        ascending(keys(self.entries@))
    }

    pub open spec fn spec_get(&self, key: Seq<char>) -> Option<V> {
        lookup(self.entries@, key)
    }

    pub open spec fn spec_contains_key(&self, key: Seq<char>) -> bool {
        holds(self.entries@, key)
    }

    /// The empty map.
    pub fn new() -> (r: Self)
        ensures
            r.entries@.len() == 0,
            r@ == Seq::<(Seq<char>, V::V)>::empty(),
            r.well_formed(),
    {
        let r = OrderedMap { entries: Vec::new() };
        assert(r@ =~= Seq::<(Seq<char>, V::V)>::empty());
        r
    }

    /// The number of entries.
    pub fn len(&self) -> (r: usize)
        ensures
            r == self.entries@.len(),
    {
        self.entries.len()
    }

    /// Whether the map has no entry.
    pub fn is_empty(&self) -> (r: bool)
        ensures
            r == (self.entries@.len() == 0),
    {
        self.entries.len() == 0
    }

    /// The place of `key` among the entries.
    pub fn position(&self, key: &str) -> (r: Option<usize>)
        ensures
            match r {
                Some(i) => i == find(keys(self.entries@), key@, 0) && i < self.entries@.len()
                    && self.entries@[i as int].0@ == key@ && i == find(
                    view_keys(self@),
                    key@,
                    0,
                ),
                None => !holds(self.entries@, key@) && !view_holds(self@, key@),
            },
    {
        proof {
            assert(view_keys(self@) =~= keys(self.entries@));
        }
        let n: usize = self.entries.len();
        let mut i: usize = 0;
        while i < n
            invariant
                n == self.entries@.len(),
                i <= n,
                find(keys(self.entries@), key@, 0) == find(keys(self.entries@), key@, i as int),
                view_keys(self@) == keys(self.entries@),
            decreases n - i,
        {
            if crate::text::str_eq(self.entries[i].0.as_str(), key) {
                return Some(i);
            }
            i += 1;
        }
        None
    }

    /// Whether the map holds `key`.
    pub fn contains_key(&self, key: &str) -> (r: bool)
        ensures
            r == self.spec_contains_key(key@),
            r == view_holds(self@, key@),
    {
        self.position(key).is_some()
    }

    /// The value under `key`.
    pub fn get(&self, key: &str) -> (r: Option<&V>)
        ensures
            match r {
                Some(v) => self.spec_get(key@) == Some(*v) && view_lookup(self@, key@) == Some(v@),
                None => self.spec_get(key@) is None && view_lookup(self@, key@) is None,
            },
    {
        proof {
            lemma_lookup_view(self.entries@, key@);
        }
        match self.position(key) {
            Some(i) => Some(&self.entries[i].1),
            None => None,
        }
    }

    /// Puts `value` under `key`, in place of the value that was there if
    /// there was one.
    pub fn insert(&mut self, key: String, value: V)
        ensures
            final(self).entries@ == inserted(old(self).entries@, key, value),
            final(self)@ == view_inserted(old(self)@, key@, value@),
            final(self).spec_get(key@) == Some(value),
            forall|other: Seq<char>|
                other != key@ ==> #[trigger] final(self).spec_get(other) == old(self).spec_get(other),
            old(self).well_formed() ==> final(self).well_formed(),
    {
        proof {
            if self.well_formed() {
                lemma_inserted_ascending(self.entries@, key, value);
            }
            lemma_inserted_view(self.entries@, key, value);
            lemma_inserted_key(self.entries@, key, value);
            assert forall|other: Seq<char>| other != key@ implies #[trigger] lookup(
                inserted(self.entries@, key, value),
                other,
            ) == lookup(self.entries@, other) by {
                lemma_inserted_other(self.entries@, key, value, other);
            }
        }
        match self.position(key.as_str()) {
            Some(i) => {
                self.entries[i].1 = value;
            },
            None => {
                let n: usize = self.entries.len();
                let mut p: usize = 0;
                while p < n && text_before(self.entries[p].0.as_str(), key.as_str())
                    invariant
                        n == self.entries@.len(),
                        p <= n,
                        lower_bound(keys(self.entries@), key@, 0) == lower_bound(
                            keys(self.entries@),
                            key@,
                            p as int,
                        ),
                    decreases n - p,
                {
                    p += 1;
                }
                self.entries.insert(p, (key, value));
            },
        }
    }

    /// Puts every entry of `other` into the map, in the order of `other`.
    pub fn absorb(&mut self, other: OrderedMap<V>)
        ensures
            final(self).entries@ == merged(old(self).entries@, other.entries@, 0),
            final(self)@ == view_merged(old(self)@, other@, 0),
            old(self).well_formed() ==> final(self).well_formed(),
    {
        let ghost all = other.entries@;
        let mut rest = other.entries;
        proof {
            lemma_merged_view(self.entries@, all, 0);
            if self.well_formed() {
                lemma_merged_ascending(self.entries@, all, 0);
            }
        }
        while rest.len() > 0
            invariant
                rest@.len() <= all.len(),
                rest@ == all.subrange(all.len() - rest@.len(), all.len() as int),
                merged(old(self).entries@, all, 0) == merged(
                    self.entries@,
                    all,
                    all.len() - rest@.len(),
                ),
                old(self).well_formed() ==> ascending(keys(merged(old(self).entries@, all, 0))),
            decreases rest@.len(),
        {
            let ghost j = all.len() - rest@.len();
            let (key, value) = rest.remove(0);
            assert(rest@ =~= all.subrange(j + 1, all.len() as int));
            assert((key, value) == all[j]);
            self.insert(key, value);
        }
    }
}

/// Whether `a` comes before `b` in the order of keys.
pub fn text_before(a: &str, b: &str) -> (r: bool)
    ensures
        r == before(a@, b@),
{
    let n: usize = a.unicode_len();
    let m: usize = b.unicode_len();
    let mut i: usize = 0;
    loop
        invariant
            n == a@.len(),
            m == b@.len(),
            i <= n,
            i <= m,
            before(a@, b@) == before_from(a@, b@, i as int),
        decreases n - i,
    {
        if i >= m {
            return false;
        }
        if i >= n {
            return true;
        }
        let x = a.get_char(i);
        let y = b.get_char(i);
        if x != y {
            return x < y;
        }
        i += 1;
    }
}

} // verus!
