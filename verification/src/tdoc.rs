//! The resolution context of one document: its name, its import aliases and
//! the global table of declarations.

use crate::duplicate::Duplicate;
use crate::error::{agrees, fail, failure, Error, ErrorKind, ErrorView};
use crate::ordered_map::{view_holds, view_lookup, OrderedMap};
use crate::text::{has_char, split_once, strip_prefix};
use crate::thing::{
    BooleanView, Boolean, Component, ComponentView, OrType, OrTypeView, Record, RecordView, Thing,
    ThingView, Variable, VariableView,
};
use crate::value::{PropertyValue, PropertyValueView, Value, ValueView};
use vstd::prelude::*;

verus! {

/// A document as a resolution context. It borrows the alias table and the
/// global table, and changes neither.
#[derive(Debug, PartialEq)]
pub struct TDoc<'a> {
    pub name: &'a str,
    pub aliases: &'a OrderedMap<String>,
    pub bag: &'a OrderedMap<Thing>,
}

pub struct TDocView {
    pub name: Seq<char>,
    pub aliases: Seq<(Seq<char>, Seq<char>)>,
    pub bag: Seq<(Seq<char>, ThingView)>,
}

impl<'a> View for TDoc<'a> {
    type V = TDocView;

    open spec fn view(&self) -> TDocView {
        TDocView { name: self.name@, aliases: self.aliases@, bag: self.bag@ }
    }
}

/// The fully qualified name of `name` in the document `doc`.
pub open spec fn qualified(doc: Seq<char>, name: Seq<char>) -> Seq<char> {
    doc + seq!['#'] + name
}

/// `name` without the marker of a variable in front, if it has one.
pub open spec fn unmarked(name: Seq<char>) -> Seq<char> {
    match strip_prefix(name, '$') {
        Some(rest) => rest,
        None => name,
    }
}

/// A dotted name in parts: what stands before the first dot, if there is
/// one, what follows up to the second, and what follows that.
pub open spec fn split_module(id: Seq<char>) -> (Option<Seq<char>>, Seq<char>, Option<Seq<char>>) {
    match split_once(id, '.') {
        Some((first, rest)) => match split_once(rest, '.') {
            Some((second, third)) => (Some(first), second, Some(third)),
            None => (Some(first), rest, None),
        },
        None => (None, id, None),
    }
}

/// The first index at or after `from` whose entry has the value `value`, or
/// the length.
pub open spec fn find_value(
    entries: Seq<(Seq<char>, Seq<char>)>,
    value: Seq<char>,
    from: int,
) -> int
    decreases entries.len() - from,
{
    if from >= entries.len() {
        entries.len() as int
    } else if entries[from].1 == value {
        from
    } else {
        find_value(entries, value, from + 1)
    }
}

/// Whether `alias` is, in the order of keys, the least alias that stands for
/// the document `doc`.
pub open spec fn least_alias_for(
    aliases: Seq<(Seq<char>, Seq<char>)>,
    doc: Seq<char>,
    alias: Seq<char>,
) -> bool {
    &&& exists|i: int| 0 <= i < aliases.len() && #[trigger] aliases[i] == (alias, doc)
    &&& forall|j: int|
        0 <= j < aliases.len() && (#[trigger] aliases[j]).1 == doc ==> !crate::ordered_map::before(
            aliases[j].0,
            alias,
        )
}

/// In a table whose keys ascend, the first alias among the entries that
/// stands for a document is the least one that does.
pub proof fn lemma_first_alias_is_least(
    aliases: Seq<(Seq<char>, Seq<char>)>,
    doc: Seq<char>,
    from: int,
)
    requires
        crate::ordered_map::ascending(crate::ordered_map::view_keys(aliases)),
        0 <= from <= aliases.len(),
        forall|j: int| 0 <= j < from ==> (#[trigger] aliases[j]).1 != doc,
        find_value(aliases, doc, from) < aliases.len(),
    ensures
        least_alias_for(aliases, doc, aliases[find_value(aliases, doc, from)].0),
    decreases aliases.len() - from,
{
    if from < aliases.len() && aliases[from].1 != doc {
        lemma_first_alias_is_least(aliases, doc, from + 1);
    } else {
        let ks = crate::ordered_map::view_keys(aliases);
        assert(aliases[from] == (aliases[from].0, doc));
        assert forall|j: int|
            0 <= j < aliases.len() && (#[trigger] aliases[j]).1
                == doc implies !crate::ordered_map::before(aliases[j].0, aliases[from].0) by {
            if j > from {
                assert(crate::ordered_map::before(ks[from], ks[j]));
                if crate::ordered_map::before(ks[j], ks[from]) {
                    crate::ordered_map::lemma_before_transitive(ks[from], ks[j], ks[from], 0);
                    lemma_not_before_itself(ks[from], 0);
                }
            } else {
                assert(j == from);
                lemma_not_before_itself(ks[from], 0);
            }
        }
    }
}

/// No key comes before itself.
proof fn lemma_not_before_itself(a: Seq<char>, i: int)
    requires
        0 <= i,
    ensures
        !crate::ordered_map::before_from(a, a, i),
    decreases a.len() - i,
{
    if i < a.len() {
        lemma_not_before_itself(a, i + 1);
    }
}

/// What a search of the table gave, or the failure to find `name`.
pub open spec fn found_or(
    found: Option<ThingView>,
    name: Seq<char>,
    doc: Seq<char>,
    line_number: usize,
) -> Result<ThingView, ErrorView> {
    match found {
        Some(t) => Ok(t),
        None => Err(failure(ErrorKind::NotFound, name, doc, line_number)),
    }
}

impl TDocView {
    pub open spec fn thing(self, name: Seq<char>) -> Option<ThingView> {
        view_lookup(self.bag, name)
    }

    pub open spec fn format_name(self, name: Seq<char>) -> Seq<char> {
        qualified(self.name, name)
    }

    /// The fully qualified form of `name`. A name that holds `#` stands as it
    /// is. In a dotted name the part before the first dot is an alias, and
    /// gives way to the document it stands for. Any other name belongs to
    /// this document, and is written as `local` says: qualified by the
    /// document's name, or bare.
    pub open spec fn resolve(self, line_number: usize, name: Seq<char>, bare: bool) -> Result<
        Seq<char>,
        ErrorView,
    > {
        if has_char(name, '#') {
            Ok(name)
        } else {
            match split_once(name, '.') {
                Some((m, rest)) => match view_lookup(self.aliases, m) {
                    Some(target) => Ok(qualified(target, rest)),
                    None => Err(failure(ErrorKind::NotFound, m, self.name, line_number)),
                },
                None => if bare {
                    Ok(name)
                } else {
                    Ok(qualified(self.name, name))
                },
            }
        }
    }

    pub open spec fn resolve_name(self, line_number: usize, name: Seq<char>) -> Result<
        Seq<char>,
        ErrorView,
    > {
        self.resolve(line_number, name, false)
    }

    pub open spec fn resolve_name_without_full_path(
        self,
        line_number: usize,
        name: Seq<char>,
    ) -> Result<Seq<char>, ErrorView> {
        self.resolve(line_number, name, true)
    }

    /// As `resolve_name_without_full_path`, but a first part that is no
    /// alias may be the identifier of a component of the surroundings, and
    /// then stands for itself.
    pub open spec fn resolve_name_with_instruction(
        self,
        line_number: usize,
        name: Seq<char>,
        ids: Seq<Seq<char>>,
    ) -> Result<Seq<char>, ErrorView> {
        if has_char(name, '#') {
            Ok(name)
        } else {
            match split_once(name, '.') {
                Some((m, rest)) => match view_lookup(self.aliases, m) {
                    Some(target) => Ok(qualified(target, rest)),
                    None => if ids.contains(m) {
                        Ok(qualified(m, rest))
                    } else {
                        Err(failure(ErrorKind::NotFound, m, self.name, line_number))
                    },
                },
                None => Ok(name),
            }
        }
    }

    /// The alias under which the document of `name` was imported: for a
    /// qualified name the first alias among the entries that stands for its
    /// document, which in a well-formed table is the least such alias in the
    /// order of keys; for a dotted name its first part, where that is an
    /// alias.
    pub open spec fn get_root(self, name: Seq<char>) -> Option<Seq<char>> {
        match split_once(name, '#') {
            Some((doc, _)) => {
                let i = find_value(self.aliases, doc, 0);
                if i < self.aliases.len() {
                    Some(self.aliases[i].0)
                } else {
                    None
                }
            },
            None => match split_once(name, '.') {
                Some((m, _)) => if view_holds(self.aliases, m) {
                    Some(m)
                } else {
                    None
                },
                None => None,
            },
        }
    }

    /// The field `field` of the variable, or variant `field` of the or-type,
    /// that this document declares as `owner`.
    pub open spec fn project(
        self,
        line_number: usize,
        name: Seq<char>,
        owner: Seq<char>,
        field: Seq<char>,
    ) -> Result<ThingView, ErrorView> {
        let owner = unmarked(owner);
        match self.thing(qualified(self.name, owner)) {
            None => Err(failure(ErrorKind::NotFound, owner, self.name, line_number)),
            Some(ThingView::OrType(e)) => Ok(ThingView::OrTypeWithVariant { e, variant: field }),
            Some(ThingView::Variable(var)) => {
                let fields = match var.value {
                    ValueView::Record { fields, .. } => Some(fields),
                    ValueView::OrType { fields, .. } => Some(fields),
                    _ => None,
                };
                match fields {
                    None => Err(failure(ErrorKind::TypeMismatch, owner, self.name, line_number)),
                    Some(fields) => match view_lookup(fields, field) {
                        Some(PropertyValueView::Value { value }) => Ok(
                            ThingView::Variable(
                                VariableView { name: var.name, value, conditions: var.conditions },
                            ),
                        ),
                        Some(PropertyValueView::Reference { name: target, .. }) => found_or(
                            self.thing(target),
                            name,
                            self.name,
                            line_number,
                        ),
                        Some(PropertyValueView::Variable { .. }) => Ok(ThingView::Variable(var)),
                        None => Err(failure(ErrorKind::NotFound, field, self.name, line_number)),
                    },
                }
            },
            Some(_) => Err(failure(ErrorKind::TypeMismatch, owner, self.name, line_number)),
        }
    }

    /// The variant `variant` of the or-type that the table holds as `name`.
    pub open spec fn variant_of(self, line_number: usize, name: Seq<char>, variant: Seq<char>) -> Result<
        ThingView,
        ErrorView,
    > {
        match self.thing(name) {
            Some(ThingView::OrType(e)) => Ok(ThingView::OrTypeWithVariant { e, variant }),
            Some(_) => Err(failure(ErrorKind::TypeMismatch, name, self.name, line_number)),
            None => Err(failure(ErrorKind::NotFound, name, self.name, line_number)),
        }
    }

    /// The variant that a fully qualified name stands for where the table
    /// does not hold the name itself: `document#e.v` is the variant `v` of
    /// the or-type `document#e`.
    pub open spec fn qualified_variant(self, line_number: usize, name: Seq<char>) -> Result<
        ThingView,
        ErrorView,
    > {
        let parts = match split_once(name, '#') {
            Some((document, local)) => match split_once(local, '.') {
                Some((e, v)) => Some((qualified(document, e), v)),
                None => None,
            },
            None => None,
        };
        match parts {
            Some((e, v)) => match self.thing(e) {
                Some(ThingView::OrType(o)) => Ok(ThingView::OrTypeWithVariant { e: o, variant: v }),
                _ => Err(failure(ErrorKind::NotFound, name, self.name, line_number)),
            },
            None => Err(failure(ErrorKind::NotFound, name, self.name, line_number)),
        }
    }

    /// The declaration that `name` stands for. The first that applies holds:
    /// a name with `#` is looked up as it is, and, where the table does not
    /// hold it, as the variant of an or-type; a name that this document
    /// declares is that declaration; `alias.x` is `x` of the aliased
    /// document, and `alias.e.v` the variant `v` of its or-type `e`;
    /// `x.field`, with `x` declared here, is the projection of `x`; a plain
    /// name that this document does not declare is sought in the document
    /// that the alias `root` stands for.
    pub open spec fn get_thing_with_root(
        self,
        line_number: usize,
        name: Seq<char>,
        root: Option<Seq<char>>,
    ) -> Result<ThingView, ErrorView> {
        let name = unmarked(name);
        if has_char(name, '#') {
            match self.thing(name) {
                Some(t) => Ok(t),
                None => self.qualified_variant(line_number, name),
            }
        } else if self.thing(qualified(self.name, name)) is Some {
            Ok(self.thing(qualified(self.name, name))->Some_0)
        } else {
            match split_module(name) {
                (Some(m), v, None) => match view_lookup(self.aliases, m) {
                    Some(target) => found_or(
                        self.thing(qualified(target, v)),
                        name,
                        self.name,
                        line_number,
                    ),
                    None => self.project(line_number, name, m, v),
                },
                (Some(m), e, Some(v)) => match view_lookup(self.aliases, m) {
                    Some(target) => self.variant_of(line_number, qualified(target, e), v),
                    None => Err(failure(ErrorKind::NotFound, m, self.name, line_number)),
                },
                (None, v, _) => match root {
                    Some(r) => match view_lookup(self.aliases, r) {
                        Some(target) => found_or(
                            self.thing(qualified(target, v)),
                            name,
                            self.name,
                            line_number,
                        ),
                        None => Err(failure(ErrorKind::NotFound, name, self.name, line_number)),
                    },
                    None => Err(failure(ErrorKind::NotFound, name, self.name, line_number)),
                },
            }
        }
    }

    pub open spec fn get_thing(self, line_number: usize, name: Seq<char>) -> Result<
        ThingView,
        ErrorView,
    > {
        self.get_thing_with_root(line_number, name, None)
    }

    /// The failure that `name` stands for a declaration of another sort.
    pub open spec fn mismatch(self, line_number: usize, name: Seq<char>) -> ErrorView {
        failure(ErrorKind::TypeMismatch, name, self.name, line_number)
    }

    pub open spec fn get_record(self, line_number: usize, name: Seq<char>) -> Result<
        RecordView,
        ErrorView,
    > {
        match self.get_thing(line_number, name) {
            Ok(ThingView::Record(r)) => Ok(r),
            Ok(_) => Err(self.mismatch(line_number, name)),
            Err(e) => Err(e),
        }
    }

    pub open spec fn get_or_type(self, line_number: usize, name: Seq<char>) -> Result<
        OrTypeView,
        ErrorView,
    > {
        match self.get_thing(line_number, name) {
            Ok(ThingView::OrType(e)) => Ok(e),
            Ok(_) => Err(self.mismatch(line_number, name)),
            Err(e) => Err(e),
        }
    }

    pub open spec fn get_or_type_with_variant(self, line_number: usize, name: Seq<char>) -> Result<
        OrTypeView,
        ErrorView,
    > {
        match self.get_thing(line_number, name) {
            Ok(ThingView::OrTypeWithVariant { e, .. }) => Ok(e),
            Ok(_) => Err(self.mismatch(line_number, name)),
            Err(e) => Err(e),
        }
    }

    pub open spec fn get_variable(
        self,
        line_number: usize,
        name: Seq<char>,
        root: Option<Seq<char>>,
    ) -> Result<VariableView, ErrorView> {
        match self.get_thing_with_root(line_number, name, root) {
            Ok(ThingView::Variable(v)) => Ok(v),
            Ok(_) => Err(self.mismatch(line_number, name)),
            Err(e) => Err(e),
        }
    }

    pub open spec fn get_value_with_root(
        self,
        line_number: usize,
        name: Seq<char>,
        root: Option<Seq<char>>,
    ) -> Result<ValueView, ErrorView> {
        match self.get_variable(line_number, name, root) {
            Ok(v) => Ok(v.value),
            Err(e) => Err(e),
        }
    }

    pub open spec fn get_value(self, line_number: usize, name: Seq<char>) -> Result<
        ValueView,
        ErrorView,
    > {
        self.get_value_with_root(line_number, name, None)
    }

    pub open spec fn get_value_and_conditions_with_root(
        self,
        line_number: usize,
        name: Seq<char>,
        root: Option<Seq<char>>,
    ) -> Result<(ValueView, Seq<(BooleanView, ValueView)>), ErrorView> {
        match self.get_variable(line_number, name, root) {
            Ok(v) => Ok((v.value, v.conditions)),
            Err(e) => Err(e),
        }
    }

    pub open spec fn is_variable_record_type(self, line_number: usize, name: Seq<char>) -> Result<
        bool,
        ErrorView,
    > {
        match self.get_value(line_number, name) {
            Ok(v) => Ok(v is Record),
            Err(e) => Err(e),
        }
    }

    pub open spec fn get_component_with_root(
        self,
        line_number: usize,
        name: Seq<char>,
        root: Option<Seq<char>>,
    ) -> Result<ComponentView, ErrorView> {
        match self.get_thing_with_root(line_number, name, root) {
            Ok(ThingView::Component(c)) => Ok(c),
            Ok(_) => Err(self.mismatch(line_number, name)),
            Err(e) => Err(e),
        }
    }

    pub open spec fn get_component(self, line_number: usize, name: Seq<char>) -> Result<
        ComponentView,
        ErrorView,
    > {
        self.get_component_with_root(line_number, name, None)
    }
}

/// The fully qualified name of `name` in the document `doc`.
pub fn qualify(doc: &str, name: &str) -> (r: String)
    ensures
        r@ == qualified(doc@, name@),
{
    proof {
        reveal_strlit("#");
        assert("#"@ =~= seq!['#']);
    }
    crate::text::concat3(doc, "#", name)
}

/// `name` without the marker of a variable in front.
pub fn without_marker<'b>(name: &'b str) -> (r: &'b str)
    ensures
        r@ == unmarked(name@),
{
    crate::text::without_prefix_char(name, '$')
}

/// A dotted name in parts.
pub fn split_module_str<'b>(id: &'b str) -> (r: (Option<&'b str>, &'b str, Option<&'b str>))
    ensures
        crate::duplicate::option_view(r.0) == split_module(id@).0,
        r.1@ == split_module(id@).1,
        crate::duplicate::option_view(r.2) == split_module(id@).2,
{
    match crate::text::split_once_char(id, '.') {
        Some((first, rest)) => match crate::text::split_once_char(rest, '.') {
            Some((second, third)) => (Some(first), second, Some(third)),
            None => (Some(first), rest, None),
        },
        None => (None, id, None),
    }
}

/// The first alias among the entries that stands for the document `doc`.
fn alias_of(aliases: &OrderedMap<String>, doc: &str) -> (r: Option<String>)
    ensures
        crate::kind::text_view(r) == (if find_value(aliases@, doc@, 0) < aliases@.len() {
            Some(aliases@[find_value(aliases@, doc@, 0)].0)
        } else {
            None
        }),
{
    let n: usize = aliases.entries.len();
    let mut i: usize = 0;
    while i < n
        invariant
            n == aliases.entries@.len(),
            n == aliases@.len(),
            i <= n,
            find_value(aliases@, doc@, 0) == find_value(aliases@, doc@, i as int),
        decreases n - i,
    {
        if crate::text::str_eq(aliases.entries[i].1.as_str(), doc) {
            return Some(aliases.entries[i].0.clone());
        }
        i += 1;
    }
    None
}

impl<'a> TDoc<'a> {
    /// The fully qualified name of `name` in this document.
    pub fn format_name(&self, name: &str) -> (r: String)
        ensures
            r@ == self@.format_name(name@),
    {
        qualify(self.name, name)
    }

    fn found(&self, found: Option<&Thing>, name: &str, line_number: usize) -> (r: Result<
        Thing,
        Error,
    >)
        ensures
            agrees(
                r,
                found_or(crate::duplicate::option_view(found), name@, self@.name, line_number),
            ),
    {
        match found {
            Some(t) => Ok(t.duplicate()),
            None => fail(ErrorKind::NotFound, name, self.name, line_number),
        }
    }

    fn resolve(&self, line_number: usize, name: &str, bare: bool) -> (r: Result<String, Error>)
        ensures
            agrees(r, self@.resolve(line_number, name@, bare)),
    {
        if crate::text::contains_char(name, '#') {
            return Ok(name.to_owned());
        }
        match crate::text::split_once_char(name, '.') {
            Some((m, rest)) => match self.aliases.get(m) {
                Some(target) => Ok(qualify(target.as_str(), rest)),
                None => fail(ErrorKind::NotFound, m, self.name, line_number),
            },
            None => if bare {
                Ok(name.to_owned())
            } else {
                Ok(qualify(self.name, name))
            },
        }
    }

    /// The fully qualified form of `name`; a name without qualifier belongs to
    /// this document.
    pub fn resolve_name(&self, line_number: usize, name: &str) -> (r: Result<String, Error>)
        ensures
            agrees(r, self@.resolve_name(line_number, name@)),
    {
        self.resolve(line_number, name, false)
    }

    /// The fully qualified form of `name`; a name without qualifier stays as
    /// it is.
    pub fn resolve_name_without_full_path(&self, line_number: usize, name: &str) -> (r: Result<
        String,
        Error,
    >)
        ensures
            agrees(r, self@.resolve_name_without_full_path(line_number, name@)),
    {
        self.resolve(line_number, name, true)
    }

    /// The fully qualified form of `name`, where `ids` are the identifiers of
    /// the components of the surroundings.
    pub fn resolve_name_with_instruction(
        &self,
        line_number: usize,
        name: &str,
        ids: &Vec<String>,
    ) -> (r: Result<String, Error>)
        ensures
            agrees(
                r,
                self@.resolve_name_with_instruction(
                    line_number,
                    name@,
                    crate::text::views(ids@),
                ),
            ),
    {
        if crate::text::contains_char(name, '#') {
            return Ok(name.to_owned());
        }
        match crate::text::split_once_char(name, '.') {
            Some((m, rest)) => match self.aliases.get(m) {
                Some(target) => Ok(qualify(target.as_str(), rest)),
                None => if crate::text::contains_text(ids, m) {
                    Ok(qualify(m, rest))
                } else {
                    fail(ErrorKind::NotFound, m, self.name, line_number)
                },
            },
            None => Ok(name.to_owned()),
        }
    }

    /// The alias under which the document of `name` was imported. For a
    /// qualified name, in a well-formed table of aliases, it is the least
    /// alias that stands for the document.
    pub fn get_root(&self, name: &str, line_number: usize) -> (r: Result<Option<String>, Error>)
        ensures
            r is Ok,
            crate::kind::text_view(r->Ok_0) == self@.get_root(name@),
            self.aliases.well_formed() && split_once(name@, '#') is Some && r->Ok_0 is Some
                ==> least_alias_for(
                self@.aliases,
                split_once(name@, '#')->Some_0.0,
                r->Ok_0->Some_0@,
            ),
    {
        proof {
            if self.aliases.well_formed() && split_once(name@, '#') is Some && find_value(
                self@.aliases,
                split_once(name@, '#')->Some_0.0,
                0,
            ) < self@.aliases.len() {
                assert(crate::ordered_map::view_keys(self@.aliases) =~= crate::ordered_map::keys(
                    self.aliases.entries@,
                ));
                lemma_first_alias_is_least(self@.aliases, split_once(name@, '#')->Some_0.0, 0);
            }
        }
        match crate::text::split_once_char(name, '#') {
            Some((doc, _)) => Ok(alias_of(self.aliases, doc)),
            None => match crate::text::split_once_char(name, '.') {
                Some((m, _)) => if self.aliases.contains_key(m) {
                    Ok(Some(m.to_owned()))
                } else {
                    Ok(None)
                },
                None => Ok(None),
            },
        }
    }

    fn project(&self, line_number: usize, name: &str, owner: &str, field: &str) -> (r: Result<
        Thing,
        Error,
    >)
        ensures
            agrees(r, self@.project(line_number, name@, owner@, field@)),
    {
        let owner = without_marker(owner);
        let key = qualify(self.name, owner);
        match self.bag.get(key.as_str()) {
            None => fail(ErrorKind::NotFound, owner, self.name, line_number),
            Some(Thing::OrType(e)) => Ok(
                Thing::OrTypeWithVariant { e: e.duplicate(), variant: field.to_owned() },
            ),
            Some(Thing::Variable(var)) => {
                let fields = match &var.value {
                    Value::Record { fields, .. } => Some(fields),
                    Value::OrType { fields, .. } => Some(fields),
                    _ => None,
                };
                match fields {
                    None => fail(ErrorKind::TypeMismatch, owner, self.name, line_number),
                    Some(fields) => {
                        proof {
                            crate::value::lemma_fields_view(fields.entries@);
                        }
                        match fields.get(field) {
                            Some(PropertyValue::Value { value }) => Ok(
                                Thing::Variable(
                                    Variable {
                                        name: var.name.clone(),
                                        value: value.clone(),
                                        conditions: crate::thing::copy_conditions(&var.conditions),
                                    },
                                ),
                            ),
                            Some(PropertyValue::Reference { name: target, .. }) => self.found(
                                self.bag.get(target.as_str()),
                                name,
                                line_number,
                            ),
                            Some(PropertyValue::Variable { .. }) => Ok(
                                Thing::Variable(var.duplicate()),
                            ),
                            None => fail(ErrorKind::NotFound, field, self.name, line_number),
                        }
                    },
                }
            },
            Some(_) => fail(ErrorKind::TypeMismatch, owner, self.name, line_number),
        }
    }

    fn variant_of(&self, line_number: usize, name: &str, variant: &str) -> (r: Result<Thing, Error>)
        ensures
            agrees(r, self@.variant_of(line_number, name@, variant@)),
    {
        match self.bag.get(name) {
            Some(Thing::OrType(e)) => Ok(
                Thing::OrTypeWithVariant { e: e.duplicate(), variant: variant.to_owned() },
            ),
            Some(_) => fail(ErrorKind::TypeMismatch, name, self.name, line_number),
            None => fail(ErrorKind::NotFound, name, self.name, line_number),
        }
    }

    fn qualified_variant(&self, line_number: usize, name: &str) -> (r: Result<Thing, Error>)
        ensures
            agrees(r, self@.qualified_variant(line_number, name@)),
    {
        let parts = match crate::text::split_once_char(name, '#') {
            Some((document, local)) => match crate::text::split_once_char(local, '.') {
                Some((e, v)) => Some((qualify(document, e), v)),
                None => None,
            },
            None => None,
        };
        match parts {
            Some((e, v)) => match self.bag.get(e.as_str()) {
                Some(Thing::OrType(o)) => Ok(
                    Thing::OrTypeWithVariant { e: o.duplicate(), variant: v.to_owned() },
                ),
                _ => fail(ErrorKind::NotFound, name, self.name, line_number),
            },
            None => fail(ErrorKind::NotFound, name, self.name, line_number),
        }
    }

    /// The declaration that `name` stands for; `root_name` is the alias of the
    /// document in which a plain name is sought when this document does not
    /// declare it.
    pub fn get_thing_with_root(&self, line_number: usize, name: &str, root_name: Option<&str>) -> (r:
        Result<Thing, Error>)
        ensures
            agrees(
                r,
                self@.get_thing_with_root(
                    line_number,
                    name@,
                    crate::duplicate::option_view(root_name),
                ),
            ),
    {
        let name = without_marker(name);
        if crate::text::contains_char(name, '#') {
            return match self.bag.get(name) {
                Some(t) => Ok(t.duplicate()),
                None => self.qualified_variant(line_number, name),
            };
        }
        let local = qualify(self.name, name);
        match self.bag.get(local.as_str()) {
            Some(t) => {
                return Ok(t.duplicate());
            },
            None => {},
        }
        match split_module_str(name) {
            (Some(m), v, None) => match self.aliases.get(m) {
                Some(target) => {
                    let key = qualify(target.as_str(), v);
                    self.found(self.bag.get(key.as_str()), name, line_number)
                },
                None => self.project(line_number, name, m, v),
            },
            (Some(m), e, Some(v)) => match self.aliases.get(m) {
                Some(target) => {
                    let key = qualify(target.as_str(), e);
                    self.variant_of(line_number, key.as_str(), v)
                },
                None => fail(ErrorKind::NotFound, m, self.name, line_number),
            },
            (None, v, _) => match root_name {
                Some(root) => match self.aliases.get(root) {
                    Some(target) => {
                        let key = qualify(target.as_str(), v);
                        self.found(self.bag.get(key.as_str()), name, line_number)
                    },
                    None => fail(ErrorKind::NotFound, name, self.name, line_number),
                },
                None => fail(ErrorKind::NotFound, name, self.name, line_number),
            },
        }
    }

    /// The declaration that `name` stands for.
    pub fn get_thing(&self, line_number: usize, name: &str) -> (r: Result<Thing, Error>)
        ensures
            agrees(r, self@.get_thing(line_number, name@)),
    {
        self.get_thing_with_root(line_number, name, None)
    }

    /// The record that `name` stands for.
    pub fn get_record(&self, line_number: usize, name: &str) -> (r: Result<Record, Error>)
        ensures
            agrees(r, self@.get_record(line_number, name@)),
    {
        match self.get_thing(line_number, name) {
            Ok(Thing::Record(v)) => Ok(v),
            Ok(_) => fail(ErrorKind::TypeMismatch, name, self.name, line_number),
            Err(e) => Err(e),
        }
    }

    /// The or-type that `name` stands for.
    pub fn get_or_type(&self, line_number: usize, name: &str) -> (r: Result<OrType, Error>)
        ensures
            agrees(r, self@.get_or_type(line_number, name@)),
    {
        match self.get_thing(line_number, name) {
            Ok(Thing::OrType(v)) => Ok(v),
            Ok(_) => fail(ErrorKind::TypeMismatch, name, self.name, line_number),
            Err(e) => Err(e),
        }
    }

    /// The or-type whose variant `name` stands for.
    pub fn get_or_type_with_variant(&self, line_number: usize, name: &str) -> (r: Result<
        OrType,
        Error,
    >)
        ensures
            agrees(r, self@.get_or_type_with_variant(line_number, name@)),
    {
        match self.get_thing(line_number, name) {
            Ok(Thing::OrTypeWithVariant { e, .. }) => Ok(e),
            Ok(_) => fail(ErrorKind::TypeMismatch, name, self.name, line_number),
            Err(e) => Err(e),
        }
    }

    fn get_variable(&self, line_number: usize, name: &str, root_name: Option<&str>) -> (r: Result<
        Variable,
        Error,
    >)
        ensures
            agrees(
                r,
                self@.get_variable(line_number, name@, crate::duplicate::option_view(root_name)),
            ),
    {
        match self.get_thing_with_root(line_number, name, root_name) {
            Ok(Thing::Variable(v)) => Ok(v),
            Ok(_) => fail(ErrorKind::TypeMismatch, name, self.name, line_number),
            Err(e) => Err(e),
        }
    }

    /// Whether `name` stands for a variable that holds a record.
    pub fn is_variable_record_type(&self, line_number: usize, name: &str) -> (r: Result<bool, Error>)
        ensures
            match r {
                Ok(b) => self@.is_variable_record_type(line_number, name@) == Ok::<bool, ErrorView>(
                    b,
                ),
                Err(e) => self@.is_variable_record_type(line_number, name@) == Err::<
                    bool,
                    ErrorView,
                >(e@),
            },
    {
        match self.get_value(line_number, name) {
            Ok(Value::Record { .. }) => Ok(true),
            Ok(_) => Ok(false),
            Err(e) => Err(e),
        }
    }

    /// The value of the variable that `name` stands for, and its conditions.
    pub fn get_value_and_conditions_with_root(
        &self,
        line_number: usize,
        name: &str,
        root_name: Option<&str>,
    ) -> (r: Result<(Value, Vec<(Boolean, Value)>), Error>)
        ensures
            match r {
                Ok((value, conditions)) => self@.get_value_and_conditions_with_root(
                    line_number,
                    name@,
                    crate::duplicate::option_view(root_name),
                ) == Ok::<(ValueView, Seq<(BooleanView, ValueView)>), ErrorView>(
                    (value@, crate::thing::conditions_view(conditions@)),
                ),
                Err(e) => self@.get_value_and_conditions_with_root(
                    line_number,
                    name@,
                    crate::duplicate::option_view(root_name),
                ) == Err::<(ValueView, Seq<(BooleanView, ValueView)>), ErrorView>(e@),
            },
    {
        match self.get_variable(line_number, name, root_name) {
            Ok(v) => Ok((v.value, v.conditions)),
            Err(e) => Err(e),
        }
    }

    /// The value of the variable that `name` stands for.
    pub fn get_value(&self, line_number: usize, name: &str) -> (r: Result<Value, Error>)
        ensures
            agrees(r, self@.get_value(line_number, name@)),
    {
        self.get_value_with_root(line_number, name, None)
    }

    /// The value of the variable that `name` stands for, sought by way of
    /// `root_name` too.
    pub fn get_value_with_root(&self, line_number: usize, name: &str, root_name: Option<&str>) -> (r:
        Result<Value, Error>)
        ensures
            agrees(
                r,
                self@.get_value_with_root(
                    line_number,
                    name@,
                    crate::duplicate::option_view(root_name),
                ),
            ),
    {
        match self.get_variable(line_number, name, root_name) {
            Ok(v) => Ok(v.value),
            Err(e) => Err(e),
        }
    }

    /// The component that `name` stands for.
    pub fn get_component(&self, line_number: usize, name: &str) -> (r: Result<Component, Error>)
        ensures
            agrees(r, self@.get_component(line_number, name@)),
    {
        self.get_component_with_root(line_number, name, None)
    }

    /// The component that `name` stands for, sought by way of `root_name`
    /// too.
    pub fn get_component_with_root(&self, line_number: usize, name: &str, root_name: Option<&str>) -> (r:
        Result<Component, Error>)
        ensures
            agrees(
                r,
                self@.get_component_with_root(
                    line_number,
                    name@,
                    crate::duplicate::option_view(root_name),
                ),
            ),
    {
        match self.get_thing_with_root(line_number, name, root_name) {
            Ok(Thing::Component(v)) => Ok(v),
            Ok(_) => fail(ErrorKind::TypeMismatch, name, self.name, line_number),
            Err(e) => Err(e),
        }
    }
}

} // verus!
