//! Values and the three ways a property holds one: as a literal, by
//! reference to a declaration, or as a variable of a call.

use crate::kind::{Kind, KindView};
use crate::ordered_map::OrderedMap;
use vstd::prelude::*;

verus! {

/// Where the text of a string value was written.
#[derive(Debug, Clone, Copy, PartialEq, Eq, Structural)]
pub enum TextSource {
    Header,
    Caption,
    Body,
    Default,
}

/// A value. A decimal is held as it is written.
#[derive(Debug, PartialEq)]
#[allow(inconsistent_fields)]
pub enum Value {
    Nothing { kind: Kind },
    String { text: String, source: TextSource },
    Integer { value: i64 },
    Decimal { value: String },
    Boolean { value: bool },
    Object { values: OrderedMap<PropertyValue> },
    Record { name: String, fields: OrderedMap<PropertyValue> },
    OrType { name: String, variant: String, fields: OrderedMap<PropertyValue> },
    List { data: Vec<Value>, kind: Kind },
    Optional { data: Box<Option<Value>>, kind: Kind },
    Mapping { data: OrderedMap<Value>, kind: Kind },
    UI { name: String, kind: Kind, data: OrderedMap<PropertyValue> },
}

#[derive(Debug, PartialEq)]
pub enum PropertyValue {
    Value { value: Value },
    Reference { name: String, kind: Kind },
    Variable { name: String, kind: Kind },
}

#[allow(inconsistent_fields)]
pub enum ValueView {
    Nothing { kind: KindView },
    String { text: Seq<char>, source: TextSource },
    Integer { value: i64 },
    Decimal { value: Seq<char> },
    Boolean { value: bool },
    Object { values: Seq<(Seq<char>, PropertyValueView)> },
    Record { name: Seq<char>, fields: Seq<(Seq<char>, PropertyValueView)> },
    OrType { name: Seq<char>, variant: Seq<char>, fields: Seq<(Seq<char>, PropertyValueView)> },
    List { data: Seq<ValueView>, kind: KindView },
    Optional { data: Option<Box<ValueView>>, kind: KindView },
    Mapping { data: Seq<(Seq<char>, ValueView)>, kind: KindView },
    UI { name: Seq<char>, kind: KindView, data: Seq<(Seq<char>, PropertyValueView)> },
}

pub enum PropertyValueView {
    Value { value: ValueView },
    Reference { name: Seq<char>, kind: KindView },
    Variable { name: Seq<char>, kind: KindView },
}

pub open spec fn value_view(v: Value) -> ValueView
    decreases v,
{
    match v {
        Value::Nothing { kind } => ValueView::Nothing { kind: kind@ },
        Value::String { text, source } => ValueView::String { text: text@, source },
        Value::Integer { value } => ValueView::Integer { value },
        Value::Decimal { value } => ValueView::Decimal { value: value@ },
        Value::Boolean { value } => ValueView::Boolean { value },
        Value::Object { values } => ValueView::Object { values: fields_view(values.entries@) },
        Value::Record { name, fields } => ValueView::Record {
            name: name@,
            fields: fields_view(fields.entries@),
        },
        Value::OrType { name, variant, fields } => ValueView::OrType {
            name: name@,
            variant: variant@,
            fields: fields_view(fields.entries@),
        },
        Value::List { data, kind } => ValueView::List { data: values_view(data@), kind: kind@ },
        Value::Optional { data, kind } => ValueView::Optional {
            data: match *data {
                Some(inner) => Some(Box::new(value_view(inner))),
                None => None,
            },
            kind: kind@,
        },
        Value::Mapping { data, kind } => ValueView::Mapping {
            data: mapping_view(data.entries@),
            kind: kind@,
        },
        Value::UI { name, kind, data } => ValueView::UI {
            name: name@,
            kind: kind@,
            data: fields_view(data.entries@),
        },
    }
}

pub open spec fn property_view(p: PropertyValue) -> PropertyValueView
    decreases p,
{
    match p {
        PropertyValue::Value { value } => PropertyValueView::Value { value: value_view(value) },
        PropertyValue::Reference { name, kind } => PropertyValueView::Reference {
            name: name@,
            kind: kind@,
        },
        PropertyValue::Variable { name, kind } => PropertyValueView::Variable {
            name: name@,
            kind: kind@,
        },
    }
}

/// The views of a row of values.
pub open spec fn values_view(data: Seq<Value>) -> Seq<ValueView>
    decreases data,
{
    Seq::new(
        data.len(),
        |i: int|
            if 0 <= i < data.len() {
                value_view(data[i])
            } else {
                arbitrary()
            },
    )
}

/// The views of the entries of a map of properties.
pub open spec fn fields_view(entries: Seq<(String, PropertyValue)>) -> Seq<
    (Seq<char>, PropertyValueView),
>
    decreases entries,
{
    Seq::new(
        entries.len(),
        |i: int|
            if 0 <= i < entries.len() {
                (entries[i].0@, property_view(entries[i].1))
            } else {
                arbitrary()
            },
    )
}

/// The views of the entries of a map of values.
pub open spec fn mapping_view(entries: Seq<(String, Value)>) -> Seq<(Seq<char>, ValueView)>
    decreases entries,
{
    Seq::new(
        entries.len(),
        |i: int|
            if 0 <= i < entries.len() {
                (entries[i].0@, value_view(entries[i].1))
            } else {
                arbitrary()
            },
    )
}

impl View for Value {
    type V = ValueView;

    open spec fn view(&self) -> ValueView {
        value_view(*self)
    }
}

impl View for PropertyValue {
    type V = PropertyValueView;

    open spec fn view(&self) -> PropertyValueView {
        property_view(*self)
    }
}

impl ValueView {
    /// The kind of a value.
    pub open spec fn kind(self) -> KindView {
        match self {
            ValueView::Nothing { kind } => kind,
            ValueView::String { source, .. } => KindView::String {
                caption: source == TextSource::Caption,
                body: source == TextSource::Body,
                default: None,
            },
            ValueView::Integer { .. } => KindView::Integer { default: None },
            ValueView::Decimal { .. } => KindView::Decimal { default: None },
            ValueView::Boolean { .. } => KindView::Boolean { default: None },
            ValueView::Object { .. } => KindView::Object { default: None },
            ValueView::Record { name, .. } => KindView::Record { name, default: None },
            ValueView::OrType { name, .. } => KindView::OrType { name },
            ValueView::List { kind, .. } => KindView::List { kind: Box::new(kind), default: None },
            ValueView::Optional { kind, .. } => KindView::Optional { kind: Box::new(kind) },
            ValueView::Mapping { kind, .. } => KindView::Mapping { kind: Box::new(kind) },
            ValueView::UI { kind, .. } => kind,
        }
    }

    /// Whether the value is absent: nothing, or an optional without content.
    pub open spec fn is_null(self) -> bool {
        match self {
            ValueView::Nothing { .. } => true,
            ValueView::Optional { data, .. } => data is None,
            _ => false,
        }
    }

    /// Whether the value is a list without items.
    pub open spec fn is_empty(self) -> bool {
        match self {
            ValueView::List { data, .. } => data.len() == 0,
            _ => false,
        }
    }

    /// Whether two values count as equal: two strings by their text alone,
    /// any other two when they are the same in every part.
    pub open spec fn is_equal(self, other: ValueView) -> bool {
        match (self, other) {
            (ValueView::String { text: a, .. }, ValueView::String { text: b, .. }) => a == b,
            (a, b) => a == b,
        }
    }
}

impl PropertyValueView {
    pub open spec fn kind(self) -> KindView {
        match self {
            PropertyValueView::Value { value } => value.kind(),
            PropertyValueView::Reference { kind, .. } => kind,
            PropertyValueView::Variable { kind, .. } => kind,
        }
    }
}

/// A copy of a value.
pub fn copy_value(v: &Value) -> (r: Value)
    ensures
        r@ == v@,
    decreases v,
{
    match v {
        Value::Nothing { kind } => Value::Nothing { kind: kind.clone() },
        Value::String { text, source } => Value::String { text: text.clone(), source: *source },
        Value::Integer { value } => Value::Integer { value: *value },
        Value::Decimal { value } => Value::Decimal { value: value.clone() },
        Value::Boolean { value } => Value::Boolean { value: *value },
        Value::Object { values } => Value::Object {
            values: OrderedMap { entries: copy_fields(&values.entries) },
        },
        Value::Record { name, fields } => Value::Record {
            name: name.clone(),
            fields: OrderedMap { entries: copy_fields(&fields.entries) },
        },
        Value::OrType { name, variant, fields } => Value::OrType {
            name: name.clone(),
            variant: variant.clone(),
            fields: OrderedMap { entries: copy_fields(&fields.entries) },
        },
        Value::List { data, kind } => Value::List { data: copy_values(data), kind: kind.clone() },
        Value::Optional { data, kind } => Value::Optional {
            data: Box::new(
                match &**data {
                    Some(inner) => Some(copy_value(inner)),
                    None => None,
                },
            ),
            kind: kind.clone(),
        },
        Value::Mapping { data, kind } => Value::Mapping {
            data: OrderedMap { entries: copy_mapping(&data.entries) },
            kind: kind.clone(),
        },
        Value::UI { name, kind, data } => Value::UI {
            name: name.clone(),
            kind: kind.clone(),
            data: OrderedMap { entries: copy_fields(&data.entries) },
        },
    }
}

/// A copy of a property value.
pub fn copy_property(p: &PropertyValue) -> (r: PropertyValue)
    ensures
        r@ == p@,
    decreases p,
{
    match p {
        PropertyValue::Value { value } => PropertyValue::Value { value: copy_value(value) },
        PropertyValue::Reference { name, kind } => PropertyValue::Reference {
            name: name.clone(),
            kind: kind.clone(),
        },
        PropertyValue::Variable { name, kind } => PropertyValue::Variable {
            name: name.clone(),
            kind: kind.clone(),
        },
    }
}

/// A copy of a row of values.
pub fn copy_values(data: &Vec<Value>) -> (r: Vec<Value>)
    ensures
        values_view(r@) == values_view(data@),
    decreases data,
{
    let mut out: Vec<Value> = Vec::new();
    let n: usize = data.len();
    let mut i: usize = 0;
    while i < n
        invariant
            n == data@.len(),
            i <= n,
            out@.len() == i,
            forall|j: int| 0 <= j < i ==> (#[trigger] out@[j])@ == data@[j]@,
        decreases n - i,
    {
        out.push(copy_value(&data[i]));
        i += 1;
    }
    proof {
        assert(values_view(out@) =~= values_view(data@));
    }
    out
}

/// A copy of the entries of a map of properties.
pub fn copy_fields(entries: &Vec<(String, PropertyValue)>) -> (r: Vec<(String, PropertyValue)>)
    ensures
        fields_view(r@) == fields_view(entries@),
    decreases entries,
{
    let mut out: Vec<(String, PropertyValue)> = Vec::new();
    let n: usize = entries.len();
    let mut i: usize = 0;
    while i < n
        invariant
            n == entries@.len(),
            i <= n,
            out@.len() == i,
            forall|j: int|
                0 <= j < i ==> (#[trigger] out@[j]).0@ == entries@[j].0@ && out@[j].1@
                    == entries@[j].1@,
        decreases n - i,
    {
        out.push((entries[i].0.clone(), copy_property(&entries[i].1)));
        i += 1;
    }
    proof {
        assert(fields_view(out@) =~= fields_view(entries@));
    }
    out
}

/// A copy of the entries of a map of values.
pub fn copy_mapping(entries: &Vec<(String, Value)>) -> (r: Vec<(String, Value)>)
    ensures
        mapping_view(r@) == mapping_view(entries@),
    decreases entries,
{
    let mut out: Vec<(String, Value)> = Vec::new();
    let n: usize = entries.len();
    let mut i: usize = 0;
    while i < n
        invariant
            n == entries@.len(),
            i <= n,
            out@.len() == i,
            forall|j: int|
                0 <= j < i ==> (#[trigger] out@[j]).0@ == entries@[j].0@ && out@[j].1@
                    == entries@[j].1@,
        decreases n - i,
    {
        out.push((entries[i].0.clone(), copy_value(&entries[i].1)));
        i += 1;
    }
    proof {
        assert(mapping_view(out@) =~= mapping_view(entries@));
    }
    out
}

impl Clone for Value {
    fn clone(&self) -> (r: Self)
        ensures
            r@ == self@,
    {
        copy_value(self)
    }
}

impl Clone for PropertyValue {
    fn clone(&self) -> (r: Self)
        ensures
            r@ == self@,
    {
        copy_property(self)
    }
}

/// Whether two values are the same in every part.
pub fn same_value(a: &Value, b: &Value) -> (r: bool)
    ensures
        r == (a@ == b@),
    decreases a,
{
    match (a, b) {
        (Value::Nothing { kind: k1 }, Value::Nothing { kind: k2 }) => k1.equals(k2),
        (Value::String { text: t1, source: s1 }, Value::String { text: t2, source: s2 }) => *t1
            == *t2 && *s1 == *s2,
        (Value::Integer { value: v1 }, Value::Integer { value: v2 }) => *v1 == *v2,
        (Value::Decimal { value: v1 }, Value::Decimal { value: v2 }) => *v1 == *v2,
        (Value::Boolean { value: v1 }, Value::Boolean { value: v2 }) => *v1 == *v2,
        (Value::Object { values: f1 }, Value::Object { values: f2 }) => same_fields(
            &f1.entries,
            &f2.entries,
        ),
        (Value::Record { name: n1, fields: f1 }, Value::Record { name: n2, fields: f2 }) => *n1
            == *n2 && same_fields(&f1.entries, &f2.entries),
        (
            Value::OrType { name: n1, variant: v1, fields: f1 },
            Value::OrType { name: n2, variant: v2, fields: f2 },
        ) => *n1 == *n2 && *v1 == *v2 && same_fields(&f1.entries, &f2.entries),
        (Value::List { data: d1, kind: k1 }, Value::List { data: d2, kind: k2 }) => same_values(
            d1,
            d2,
        ) && k1.equals(k2),
        (Value::Optional { data: d1, kind: k1 }, Value::Optional { data: d2, kind: k2 }) => {
            let same = match (&**d1, &**d2) {
                (Some(x), Some(y)) => same_value(x, y),
                (None, None) => true,
                _ => false,
            };
            same && k1.equals(k2)
        },
        (Value::Mapping { data: d1, kind: k1 }, Value::Mapping { data: d2, kind: k2 }) => {
            same_mapping(&d1.entries, &d2.entries) && k1.equals(k2)
        },
        (
            Value::UI { name: n1, kind: k1, data: d1 },
            Value::UI { name: n2, kind: k2, data: d2 },
        ) => *n1 == *n2 && k1.equals(k2) && same_fields(&d1.entries, &d2.entries),
        _ => false,
    }
}

/// Whether two property values are the same in every part.
pub fn same_property(a: &PropertyValue, b: &PropertyValue) -> (r: bool)
    ensures
        r == (a@ == b@),
    decreases a,
{
    match (a, b) {
        (PropertyValue::Value { value: v1 }, PropertyValue::Value { value: v2 }) => same_value(
            v1,
            v2,
        ),
        (
            PropertyValue::Reference { name: n1, kind: k1 },
            PropertyValue::Reference { name: n2, kind: k2 },
        ) => *n1 == *n2 && k1.equals(k2),
        (
            PropertyValue::Variable { name: n1, kind: k1 },
            PropertyValue::Variable { name: n2, kind: k2 },
        ) => *n1 == *n2 && k1.equals(k2),
        _ => false,
    }
}

/// Whether two rows of values are the same in every part.
pub fn same_values(a: &Vec<Value>, b: &Vec<Value>) -> (r: bool)
    ensures
        r == (values_view(a@) == values_view(b@)),
    decreases a,
{
    let n: usize = a.len();
    if n != b.len() {
        assert(values_view(a@).len() != values_view(b@).len());
        return false;
    }
    let mut i: usize = 0;
    while i < n
        invariant
            n == a@.len(),
            n == b@.len(),
            i <= n,
            forall|j: int| 0 <= j < i ==> (#[trigger] a@[j])@ == b@[j]@,
        decreases n - i,
    {
        if !same_value(&a[i], &b[i]) {
            assert(values_view(a@)[i as int] != values_view(b@)[i as int]);
            return false;
        }
        i += 1;
    }
    assert(values_view(a@) =~= values_view(b@));
    true
}

/// Whether two maps of properties have the same entries.
pub fn same_fields(a: &Vec<(String, PropertyValue)>, b: &Vec<(String, PropertyValue)>) -> (r: bool)
    ensures
        r == (fields_view(a@) == fields_view(b@)),
    decreases a,
{
    let n: usize = a.len();
    if n != b.len() {
        assert(fields_view(a@).len() != fields_view(b@).len());
        return false;
    }
    let mut i: usize = 0;
    while i < n
        invariant
            n == a@.len(),
            n == b@.len(),
            i <= n,
            forall|j: int|
                0 <= j < i ==> (#[trigger] a@[j]).0@ == b@[j].0@ && a@[j].1@ == b@[j].1@,
        decreases n - i,
    {
        if !(a[i].0 == b[i].0 && same_property(&a[i].1, &b[i].1)) {
            assert(fields_view(a@)[i as int] != fields_view(b@)[i as int]);
            return false;
        }
        i += 1;
    }
    assert(fields_view(a@) =~= fields_view(b@));
    true
}

/// Whether two maps of values have the same entries.
pub fn same_mapping(a: &Vec<(String, Value)>, b: &Vec<(String, Value)>) -> (r: bool)
    ensures
        r == (mapping_view(a@) == mapping_view(b@)),
    decreases a,
{
    let n: usize = a.len();
    if n != b.len() {
        assert(mapping_view(a@).len() != mapping_view(b@).len());
        return false;
    }
    let mut i: usize = 0;
    while i < n
        invariant
            n == a@.len(),
            n == b@.len(),
            i <= n,
            forall|j: int|
                0 <= j < i ==> (#[trigger] a@[j]).0@ == b@[j].0@ && a@[j].1@ == b@[j].1@,
        decreases n - i,
    {
        if !(a[i].0 == b[i].0 && same_value(&a[i].1, &b[i].1)) {
            assert(mapping_view(a@)[i as int] != mapping_view(b@)[i as int]);
            return false;
        }
        i += 1;
    }
    assert(mapping_view(a@) =~= mapping_view(b@));
    true
}

impl Value {
    /// Whether the value is absent.
    pub fn is_null(&self) -> (r: bool)
        ensures
            r == self@.is_null(),
    {
        match self {
            Value::Nothing { .. } => true,
            Value::Optional { data, .. } => (&**data).is_none(),
            _ => false,
        }
    }

    /// Whether the value is a list without items.
    pub fn is_empty(&self) -> (r: bool)
        ensures
            r == self@.is_empty(),
    {
        match self {
            Value::List { data, .. } => {
                assert(values_view(data@).len() == data@.len());
                data.len() == 0
            },
            _ => false,
        }
    }

    /// The kind of the value.
    pub fn kind(&self) -> (r: Kind)
        ensures
            r@ == self@.kind(),
    {
        match self {
            Value::Nothing { kind } => kind.clone(),
            Value::String { source, .. } => Kind::String {
                caption: *source == TextSource::Caption,
                body: *source == TextSource::Body,
                default: None,
            },
            Value::Integer { .. } => Kind::integer(),
            Value::Decimal { .. } => Kind::decimal(),
            Value::Boolean { .. } => Kind::boolean(),
            Value::Object { .. } => Kind::object(),
            Value::Record { name, .. } => Kind::Record { name: name.clone(), default: None },
            Value::OrType { name, .. } => Kind::OrType { name: name.clone() },
            Value::List { kind, .. } => Kind::List { kind: Box::new(kind.clone()), default: None },
            Value::Optional { kind, .. } => Kind::Optional { kind: Box::new(kind.clone()) },
            Value::Mapping { kind, .. } => Kind::Mapping { kind: Box::new(kind.clone()) },
            Value::UI { kind, .. } => kind.clone(),
        }
    }

    /// Whether two values count as equal: two strings by their text alone.
    pub fn is_equal(&self, other: &Value) -> (r: bool)
        ensures
            r == self@.is_equal(other@),
    {
        match (self, other) {
            (Value::String { text: a, .. }, Value::String { text: b, .. }) => *a == *b,
            (a, b) => same_value(a, b),
        }
    }
}

impl PropertyValue {
    /// The kind of the property.
    pub fn kind(&self) -> (r: Kind)
        ensures
            r@ == self@.kind(),
    {
        match self {
            PropertyValue::Value { value } => value.kind(),
            PropertyValue::Reference { kind, .. } => kind.clone(),
            PropertyValue::Variable { kind, .. } => kind.clone(),
        }
    }
}

impl crate::duplicate::Duplicate for Value {
    fn duplicate(&self) -> (r: Self) {
        copy_value(self)
    }
}

impl crate::duplicate::Duplicate for PropertyValue {
    fn duplicate(&self) -> (r: Self) {
        copy_property(self)
    }
}

/// The view of a map of properties is the row of the views of its entries.
pub proof fn lemma_fields_view(entries: Seq<(String, PropertyValue)>)
    ensures
        fields_view(entries) == crate::ordered_map::entries_view(entries),
{
    assert(fields_view(entries) =~= crate::ordered_map::entries_view(entries));
}

/// The view of a map of values is the row of the views of its entries.
pub proof fn lemma_mapping_view(entries: Seq<(String, Value)>)
    ensures
        mapping_view(entries) == crate::ordered_map::entries_view(entries),
{
    assert(mapping_view(entries) =~= crate::ordered_map::entries_view(entries));
}

} // verus!
