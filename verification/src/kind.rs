//! Kinds: the descriptors of the types of values.

use vstd::prelude::*;

verus! {

/// The type of a value, with the default that a declaration gave it.
#[derive(Debug, PartialEq)]
pub enum Kind {
    Nothing,
    String { caption: bool, body: bool, default: Option<String> },
    Integer { default: Option<String> },
    Decimal { default: Option<String> },
    Boolean { default: Option<String> },
    Object { default: Option<String> },
    Record { name: String, default: Option<String> },
    OrType { name: String },
    List { kind: Box<Kind>, default: Option<String> },
    Optional { kind: Box<Kind> },
    Mapping { kind: Box<Kind> },
    UI { default: Option<String> },
}

pub enum KindView {
    Nothing,
    String { caption: bool, body: bool, default: Option<Seq<char>> },
    Integer { default: Option<Seq<char>> },
    Decimal { default: Option<Seq<char>> },
    Boolean { default: Option<Seq<char>> },
    Object { default: Option<Seq<char>> },
    Record { name: Seq<char>, default: Option<Seq<char>> },
    OrType { name: Seq<char> },
    List { kind: Box<KindView>, default: Option<Seq<char>> },
    Optional { kind: Box<KindView> },
    Mapping { kind: Box<KindView> },
    UI { default: Option<Seq<char>> },
}

/// The view of an optional string.
pub open spec fn text_view(s: Option<String>) -> Option<Seq<char>> {
    match s {
        Some(t) => Some(t@),
        None => None,
    }
}

/// A copy of an optional string.
pub fn clone_text(s: &Option<String>) -> (r: Option<String>)
    ensures
        text_view(r) == text_view(*s),
{
    match s {
        Some(t) => Some(t.clone()),
        None => None,
    }
}

/// Whether two optional strings are the same.
pub fn same_text(a: &Option<String>, b: &Option<String>) -> (r: bool)
    ensures
        r == (text_view(*a) == text_view(*b)),
{
    match (a, b) {
        (Some(x), Some(y)) => *x == *y,
        (None, None) => true,
        _ => false,
    }
}

impl View for Kind {
    type V = KindView;

    open spec fn view(&self) -> KindView
        decreases self,
    {
        match self {
            Kind::Nothing => KindView::Nothing,
            Kind::String { caption, body, default } => KindView::String {
                caption: *caption,
                body: *body,
                default: text_view(*default),
            },
            Kind::Integer { default } => KindView::Integer { default: text_view(*default) },
            Kind::Decimal { default } => KindView::Decimal { default: text_view(*default) },
            Kind::Boolean { default } => KindView::Boolean { default: text_view(*default) },
            Kind::Object { default } => KindView::Object { default: text_view(*default) },
            Kind::Record { name, default } => KindView::Record {
                name: name@,
                default: text_view(*default),
            },
            Kind::OrType { name } => KindView::OrType { name: name@ },
            Kind::List { kind, default } => KindView::List {
                kind: Box::new((**kind).view()),
                default: text_view(*default),
            },
            Kind::Optional { kind } => KindView::Optional { kind: Box::new((**kind).view()) },
            Kind::Mapping { kind } => KindView::Mapping { kind: Box::new((**kind).view()) },
            Kind::UI { default } => KindView::UI { default: text_view(*default) },
        }
    }
}

impl KindView {
    /// What an optional kind is optional of; any other kind itself.
    pub open spec fn inner(self) -> KindView {
        match self {
            KindView::Optional { kind } => *kind,
            _ => self,
        }
    }

    /// The kind of the items of a list kind; any other kind itself.
    pub open spec fn list_kind(self) -> KindView {
        match self {
            KindView::List { kind, .. } => *kind,
            _ => self,
        }
    }

    pub open spec fn default_value(self) -> Option<Seq<char>> {
        match self {
            KindView::String { default, .. } => default,
            KindView::Integer { default } => default,
            KindView::Decimal { default } => default,
            KindView::Boolean { default } => default,
            KindView::Object { default } => default,
            KindView::Record { default, .. } => default,
            KindView::List { default, .. } => default,
            KindView::UI { default } => default,
            _ => None,
        }
    }

    /// The kind with `default` as its default; the kinds that carry none are
    /// left as they are.
    pub open spec fn with_default(self, default: Option<Seq<char>>) -> KindView {
        match self {
            KindView::String { caption, body, .. } => KindView::String { caption, body, default },
            KindView::Integer { .. } => KindView::Integer { default },
            KindView::Decimal { .. } => KindView::Decimal { default },
            KindView::Boolean { .. } => KindView::Boolean { default },
            KindView::Object { .. } => KindView::Object { default },
            KindView::Record { name, .. } => KindView::Record { name, default },
            KindView::List { kind, .. } => KindView::List { kind, default },
            KindView::UI { .. } => KindView::UI { default },
            _ => self,
        }
    }

    /// Whether two kinds are compatible: optionality aside they are of the
    /// same variant, records and or-types under the same name, lists and
    /// maps of compatible kinds. Defaults, and the roles of strings, do not
    /// count.
    pub open spec fn same_as(self, other: KindView) -> bool
        decreases self,
    {
        match (self.inner(), other.inner()) {
            (KindView::Nothing, KindView::Nothing) => true,
            (KindView::String { .. }, KindView::String { .. }) => true,
            (KindView::Integer { .. }, KindView::Integer { .. }) => true,
            (KindView::Decimal { .. }, KindView::Decimal { .. }) => true,
            (KindView::Boolean { .. }, KindView::Boolean { .. }) => true,
            (KindView::Object { .. }, KindView::Object { .. }) => true,
            (KindView::UI { .. }, KindView::UI { .. }) => true,
            (KindView::Record { name: a, .. }, KindView::Record { name: b, .. }) => a == b,
            (KindView::OrType { name: a }, KindView::OrType { name: b }) => a == b,
            (KindView::List { kind: a, .. }, KindView::List { kind: b, .. }) => a.same_as(*b),
            (KindView::Mapping { kind: a }, KindView::Mapping { kind: b }) => a.same_as(*b),
            (KindView::Optional { kind: a }, KindView::Optional { kind: b }) => a.same_as(*b),
            _ => false,
        }
    }
}

impl Clone for Kind {
    fn clone(&self) -> (r: Self)
        ensures
            r@ == self@,
        decreases self,
    {
        match self {
            Kind::Nothing => Kind::Nothing,
            Kind::String { caption, body, default } => Kind::String {
                caption: *caption,
                body: *body,
                default: clone_text(default),
            },
            Kind::Integer { default } => Kind::Integer { default: clone_text(default) },
            Kind::Decimal { default } => Kind::Decimal { default: clone_text(default) },
            Kind::Boolean { default } => Kind::Boolean { default: clone_text(default) },
            Kind::Object { default } => Kind::Object { default: clone_text(default) },
            Kind::Record { name, default } => Kind::Record {
                name: name.clone(),
                default: clone_text(default),
            },
            Kind::OrType { name } => Kind::OrType { name: name.clone() },
            Kind::List { kind, default } => Kind::List {
                kind: Box::new((&**kind).clone()),
                default: clone_text(default),
            },
            Kind::Optional { kind } => Kind::Optional { kind: Box::new((&**kind).clone()) },
            Kind::Mapping { kind } => Kind::Mapping { kind: Box::new((&**kind).clone()) },
            Kind::UI { default } => Kind::UI { default: clone_text(default) },
        }
    }
}

impl Kind {
    /// The kind of strings from headers.
    pub fn string() -> (r: Kind)
        ensures
            r@ == (KindView::String { caption: false, body: false, default: None }),
    {
        Kind::String { caption: false, body: false, default: None }
    }

    /// The kind of strings from captions.
    pub fn caption() -> (r: Kind)
        ensures
            r@ == (KindView::String { caption: true, body: false, default: None }),
    {
        Kind::String { caption: true, body: false, default: None }
    }

    /// The kind of strings from bodies.
    pub fn body() -> (r: Kind)
        ensures
            r@ == (KindView::String { caption: false, body: true, default: None }),
    {
        Kind::String { caption: false, body: true, default: None }
    }

    /// The kind of strings from captions or bodies.
    pub fn caption_or_body() -> (r: Kind)
        ensures
            r@ == (KindView::String { caption: true, body: true, default: None }),
    {
        Kind::String { caption: true, body: true, default: None }
    }

    /// The kind of integers.
    pub fn integer() -> (r: Kind)
        ensures
            r@ == (KindView::Integer { default: None }),
    {
        Kind::Integer { default: None }
    }

    /// The kind of decimals.
    pub fn decimal() -> (r: Kind)
        ensures
            r@ == (KindView::Decimal { default: None }),
    {
        Kind::Decimal { default: None }
    }

    /// The kind of truth values.
    pub fn boolean() -> (r: Kind)
        ensures
            r@ == (KindView::Boolean { default: None }),
    {
        Kind::Boolean { default: None }
    }

    /// The kind of objects.
    pub fn object() -> (r: Kind)
        ensures
            r@ == (KindView::Object { default: None }),
    {
        Kind::Object { default: None }
    }

    pub open spec fn spec_inner(&self) -> Kind {
        match self {
            Kind::Optional { kind } => **kind,
            _ => *self,
        }
    }

    pub open spec fn spec_list_kind(&self) -> Kind {
        match self {
            Kind::List { kind, .. } => **kind,
            _ => *self,
        }
    }

    /// What an optional kind is optional of; any other kind itself.
    pub fn inner(&self) -> (r: &Kind)
        ensures
            *r == self.spec_inner(),
            r@ == self@.inner(),
    {
        match self {
            Kind::Optional { kind } => &**kind,
            _ => self,
        }
    }

    /// The kind of the items of a list kind; any other kind itself.
    pub fn list_kind(&self) -> (r: &Kind)
        ensures
            *r == self.spec_list_kind(),
            r@ == self@.list_kind(),
    {
        match self {
            Kind::List { kind, .. } => &**kind,
            _ => self,
        }
    }

    /// Whether the kind is optional.
    pub fn is_optional(&self) -> (r: bool)
        ensures
            r == (self@ is Optional),
    {
        match self {
            Kind::Optional { .. } => true,
            _ => false,
        }
    }

    /// Whether the kind is a list.
    pub fn is_list(&self) -> (r: bool)
        ensures
            r == (self@ is List),
    {
        match self {
            Kind::List { .. } => true,
            _ => false,
        }
    }

    /// The default of the kind.
    pub fn get_default_value_str(&self) -> (r: Option<String>)
        ensures
            text_view(r) == self@.default_value(),
    {
        match self {
            Kind::String { default, .. } => clone_text(default),
            Kind::Integer { default } => clone_text(default),
            Kind::Decimal { default } => clone_text(default),
            Kind::Boolean { default } => clone_text(default),
            Kind::Object { default } => clone_text(default),
            Kind::Record { default, .. } => clone_text(default),
            Kind::List { default, .. } => clone_text(default),
            Kind::UI { default } => clone_text(default),
            _ => None,
        }
    }

    /// The kind with `default` as its default.
    pub fn set_default(self, default: Option<String>) -> (r: Kind)
        ensures
            r@ == self@.with_default(text_view(default)),
    {
        match self {
            Kind::String { caption, body, .. } => Kind::String { caption, body, default },
            Kind::Integer { .. } => Kind::Integer { default },
            Kind::Decimal { .. } => Kind::Decimal { default },
            Kind::Boolean { .. } => Kind::Boolean { default },
            Kind::Object { .. } => Kind::Object { default },
            Kind::Record { name, .. } => Kind::Record { name, default },
            Kind::List { kind, .. } => Kind::List { kind, default },
            Kind::UI { .. } => Kind::UI { default },
            other => other,
        }
    }

    /// Whether the two kinds are compatible.
    pub fn is_same_as(&self, other: &Kind) -> (r: bool)
        ensures
            r == self@.same_as(other@),
        decreases self,
    {
        match (self.inner(), other.inner()) {
            (Kind::Nothing, Kind::Nothing) => true,
            (Kind::String { .. }, Kind::String { .. }) => true,
            (Kind::Integer { .. }, Kind::Integer { .. }) => true,
            (Kind::Decimal { .. }, Kind::Decimal { .. }) => true,
            (Kind::Boolean { .. }, Kind::Boolean { .. }) => true,
            (Kind::Object { .. }, Kind::Object { .. }) => true,
            (Kind::UI { .. }, Kind::UI { .. }) => true,
            (Kind::Record { name: a, .. }, Kind::Record { name: b, .. }) => *a == *b,
            (Kind::OrType { name: a }, Kind::OrType { name: b }) => *a == *b,
            (Kind::List { kind: a, .. }, Kind::List { kind: b, .. }) => a.is_same_as(b),
            (Kind::Mapping { kind: a }, Kind::Mapping { kind: b }) => a.is_same_as(b),
            (Kind::Optional { kind: a }, Kind::Optional { kind: b }) => a.is_same_as(b),
            _ => false,
        }
    }

    /// Whether the two kinds are the same in every part.
    pub fn equals(&self, other: &Kind) -> (r: bool)
        ensures
            r == (self@ == other@),
        decreases self,
    {
        match (self, other) {
            (Kind::Nothing, Kind::Nothing) => true,
            (
                Kind::String { caption: c1, body: b1, default: d1 },
                Kind::String { caption: c2, body: b2, default: d2 },
            ) => *c1 == *c2 && *b1 == *b2 && same_text(d1, d2),
            (Kind::Integer { default: d1 }, Kind::Integer { default: d2 }) => same_text(d1, d2),
            (Kind::Decimal { default: d1 }, Kind::Decimal { default: d2 }) => same_text(d1, d2),
            (Kind::Boolean { default: d1 }, Kind::Boolean { default: d2 }) => same_text(d1, d2),
            (Kind::Object { default: d1 }, Kind::Object { default: d2 }) => same_text(d1, d2),
            (Kind::UI { default: d1 }, Kind::UI { default: d2 }) => same_text(d1, d2),
            (Kind::Record { name: a, default: d1 }, Kind::Record { name: b, default: d2 }) => *a
                == *b && same_text(d1, d2),
            (Kind::OrType { name: a }, Kind::OrType { name: b }) => *a == *b,
            (Kind::List { kind: a, default: d1 }, Kind::List { kind: b, default: d2 }) => {
                a.equals(b) && same_text(d1, d2)
            },
            (Kind::Mapping { kind: a }, Kind::Mapping { kind: b }) => a.equals(b),
            (Kind::Optional { kind: a }, Kind::Optional { kind: b }) => a.equals(b),
            _ => false,
        }
    }
}

impl crate::duplicate::Duplicate for Kind {
    fn duplicate(&self) -> (r: Self) {
        self.clone()
    }
}

} // verus!
