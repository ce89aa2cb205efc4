//! Variables as sections declare them.

use crate::binding::resolve_value;
use crate::declaration::{
    kind_for_variable, kind_from, name_after, name_kind, Type, VariableData, VariableModifier,
};
use crate::error::{agrees, fail, failure, Error, ErrorKind, ErrorView};
use crate::kind::{text_view, Kind, KindView};
use crate::number::{boolean_of, integer_of, is_decimal};
use crate::ordered_map::{view_inserted, OrderedMap};
use crate::section::{body_text, header_value, missing, Section};
use crate::tdoc::{TDoc, TDocView};
use crate::text::{starts_with, trim};
use crate::thing::{Thing, ThingView, Variable, VariableView};
use crate::value::{PropertyValue, PropertyValueView, TextSource, Value, ValueView};
use vstd::prelude::*;

verus! {

/// The value that a text stands for when nothing says its kind: a body is a
/// string; a caption is a truth value, an integer or a decimal where it
/// reads as one, and a string otherwise.
pub open spec fn guessed(s: Seq<char>, is_body: bool) -> ValueView {
    if is_body {
        ValueView::String { text: s, source: TextSource::Body }
    } else if boolean_of(s) is Some {
        ValueView::Boolean { value: boolean_of(s)->Some_0 }
    } else if integer_of(s) is Some {
        ValueView::Integer { value: integer_of(s)->Some_0 }
    } else if is_decimal(s) {
        ValueView::Decimal { value: s }
    } else {
        ValueView::String { text: s, source: TextSource::Caption }
    }
}

/// The value that a text stands for when nothing says its kind.
pub fn guess_type(s: &str, is_body: bool) -> (r: Result<Value, Error>)
    ensures
        r is Ok,
        r->Ok_0@ == guessed(s@, is_body),
{
    if is_body {
        return Ok(Value::String { text: s.to_owned(), source: TextSource::Body });
    }
    match crate::number::parse_boolean(s) {
        Some(value) => {
            return Ok(Value::Boolean { value });
        },
        None => {},
    }
    match crate::number::parse_integer(s) {
        Some(value) => {
            return Ok(Value::Integer { value });
        },
        None => {},
    }
    if crate::number::is_decimal_literal(s) {
        return Ok(Value::Decimal { value: s.to_owned() });
    }
    Ok(Value::String { text: s.to_owned(), source: TextSource::Caption })
}

/// The failure that a section is not put together as the declaration asks.
pub open spec fn malformed(what: Seq<char>, doc: Seq<char>, line_number: usize) -> ErrorView {
    failure(ErrorKind::Malformed, what, doc, line_number)
}

/// The string that a section gives: its caption or its body, and not both.
pub open spec fn string_of(section: Section, doc: Seq<char>) -> Result<ValueView, ErrorView> {
    match (text_view(section.caption), body_text(section.body)) {
        (Some(_), Some(_)) => Err(malformed("both caption and body"@, doc, section.line_number)),
        (Some(c), None) => Ok(ValueView::String { text: c, source: TextSource::Caption }),
        (None, Some(b)) => Ok(ValueView::String { text: b.1, source: TextSource::Body }),
        (None, None) => Err(malformed("neither caption nor body"@, doc, section.line_number)),
    }
}

/// The failure that the caption does not read as the kind asks.
pub open spec fn unreadable(text: Seq<char>, doc: Seq<char>, line_number: usize) -> ErrorView {
    failure(ErrorKind::TypeMismatch, text, doc, line_number)
}

/// The integer that the caption of a section gives.
pub open spec fn integer_in(section: Section, doc: Seq<char>) -> Result<ValueView, ErrorView> {
    match text_view(section.caption) {
        None => Err(missing("caption"@, doc, section.line_number)),
        Some(c) => match integer_of(c) {
            Some(value) => Ok(ValueView::Integer { value }),
            None => Err(unreadable(c, doc, section.line_number)),
        },
    }
}

/// The decimal that the caption of a section gives.
pub open spec fn decimal_in(section: Section, doc: Seq<char>) -> Result<ValueView, ErrorView> {
    match text_view(section.caption) {
        None => Err(missing("caption"@, doc, section.line_number)),
        Some(c) => if is_decimal(c) {
            Ok(ValueView::Decimal { value: c })
        } else {
            Err(unreadable(c, doc, section.line_number))
        },
    }
}

/// The truth value that the caption of a section gives.
pub open spec fn boolean_in(section: Section, doc: Seq<char>) -> Result<ValueView, ErrorView> {
    match text_view(section.caption) {
        None => Err(missing("caption"@, doc, section.line_number)),
        Some(c) => match boolean_of(c) {
            Some(value) => Ok(ValueView::Boolean { value }),
            None => Err(unreadable(c, doc, section.line_number)),
        },
    }
}

/// The property that a header of an object stands for: a name where the
/// text starts with `$`; else the text as a decimal, a truth value or an
/// integer, whichever it reads as first; else as a string.
pub open spec fn object_property(doc: TDocView, line_number: usize, v: Seq<char>) -> Result<
    PropertyValueView,
    ErrorView,
> {
    let none = Seq::<(Seq<char>, KindView)>::empty();
    if starts_with(trim(v), seq!['$']) {
        resolve_value(doc, line_number, v, None, none, None)
    } else if resolve_value(
        doc,
        line_number,
        v,
        Some(KindView::Decimal { default: None }),
        none,
        None,
    ) is Ok {
        resolve_value(doc, line_number, v, Some(KindView::Decimal { default: None }), none, None)
    } else if resolve_value(
        doc,
        line_number,
        v,
        Some(KindView::Boolean { default: None }),
        none,
        None,
    ) is Ok {
        resolve_value(doc, line_number, v, Some(KindView::Boolean { default: None }), none, None)
    } else if resolve_value(
        doc,
        line_number,
        v,
        Some(KindView::Integer { default: None }),
        none,
        None,
    ) is Ok {
        resolve_value(doc, line_number, v, Some(KindView::Integer { default: None }), none, None)
    } else {
        resolve_value(
            doc,
            line_number,
            v,
            Some(KindView::String { caption: false, body: false, default: None }),
            none,
            None,
        )
    }
}

/// `acc` with the properties that the headers from index `i` on stand for.
pub open spec fn object_properties(
    doc: TDocView,
    headers: Seq<(usize, String, String)>,
    i: int,
    acc: Seq<(Seq<char>, PropertyValueView)>,
) -> Result<Seq<(Seq<char>, PropertyValueView)>, ErrorView>
    decreases headers.len() - i,
{
    if i < 0 || i >= headers.len() {
        Ok(acc)
    } else {
        match object_property(doc, headers[i].0, headers[i].2@) {
            Ok(v) => object_properties(doc, headers, i + 1, view_inserted(acc, headers[i].1@, v)),
            Err(e) => Err(e),
        }
    }
}

/// The object that the headers of a section give.
pub open spec fn object_in(doc: TDocView, section: Section) -> Result<ValueView, ErrorView> {
    match object_properties(doc, section.header.0@, 0, Seq::empty()) {
        Ok(values) => Ok(ValueView::Object { values }),
        Err(e) => Err(e),
    }
}

/// The string that a section gives.
pub fn read_string(section: &Section, doc_id: &str) -> (r: Result<Value, Error>)
    ensures
        agrees(r, string_of(*section, doc_id@)),
{
    match (&section.caption, section.body_without_comment()) {
        (Some(_), Some(_)) => fail(
            ErrorKind::Malformed,
            "both caption and body",
            doc_id,
            section.line_number,
        ),
        (Some(c), None) => Ok(Value::String { text: c.clone(), source: TextSource::Caption }),
        (None, Some(b)) => Ok(Value::String { text: b.1, source: TextSource::Body }),
        (None, None) => fail(
            ErrorKind::Malformed,
            "neither caption nor body",
            doc_id,
            section.line_number,
        ),
    }
}

/// The integer that the caption of a section gives.
pub fn read_integer(section: &Section, doc_id: &str) -> (r: Result<Value, Error>)
    ensures
        agrees(r, integer_in(*section, doc_id@)),
{
    match section.caption(section.line_number, doc_id) {
        Err(e) => Err(e),
        Ok(c) => match crate::number::parse_integer(c.as_str()) {
            Some(value) => Ok(Value::Integer { value }),
            None => fail(ErrorKind::TypeMismatch, c.as_str(), doc_id, section.line_number),
        },
    }
}

/// The decimal that the caption of a section gives.
pub fn read_decimal(section: &Section, doc_id: &str) -> (r: Result<Value, Error>)
    ensures
        agrees(r, decimal_in(*section, doc_id@)),
{
    match section.caption(section.line_number, doc_id) {
        Err(e) => Err(e),
        Ok(c) => if crate::number::is_decimal_literal(c.as_str()) {
            Ok(Value::Decimal { value: c })
        } else {
            fail(ErrorKind::TypeMismatch, c.as_str(), doc_id, section.line_number)
        },
    }
}

/// The truth value that the caption of a section gives.
pub fn read_boolean(section: &Section, doc_id: &str) -> (r: Result<Value, Error>)
    ensures
        agrees(r, boolean_in(*section, doc_id@)),
{
    match section.caption(section.line_number, doc_id) {
        Err(e) => Err(e),
        Ok(c) => match crate::number::parse_boolean(c.as_str()) {
            Some(value) => Ok(Value::Boolean { value }),
            None => fail(ErrorKind::TypeMismatch, c.as_str(), doc_id, section.line_number),
        },
    }
}

fn object_property_of(doc: &TDoc, line_number: usize, v: &str) -> (r: Result<PropertyValue, Error>)
    ensures
        agrees(r, object_property(doc@, line_number, v@)),
{
    let none: OrderedMap<Kind> = OrderedMap::new();
    proof {
        reveal_strlit("$");
        assert("$"@ =~= seq!['$']);
    }
    if crate::text::starts_with_str(crate::text::trim_str(v), "$") {
        return PropertyValue::resolve_value(line_number, v, None, doc, &none, None);
    }
    match PropertyValue::resolve_value(line_number, v, Some(Kind::decimal()), doc, &none, None) {
        Ok(p) => {
            return Ok(p);
        },
        Err(_) => {},
    }
    match PropertyValue::resolve_value(line_number, v, Some(Kind::boolean()), doc, &none, None) {
        Ok(p) => {
            return Ok(p);
        },
        Err(_) => {},
    }
    match PropertyValue::resolve_value(line_number, v, Some(Kind::integer()), doc, &none, None) {
        Ok(p) => {
            return Ok(p);
        },
        Err(_) => {},
    }
    PropertyValue::resolve_value(line_number, v, Some(Kind::string()), doc, &none, None)
}

/// The object that the headers of a section give.
pub fn read_object(section: &Section, doc: &TDoc) -> (r: Result<Value, Error>)
    ensures
        agrees(r, object_in(doc@, *section)),
{
    let mut values: OrderedMap<PropertyValue> = OrderedMap::new();
    let n: usize = section.header.0.len();
    let mut i: usize = 0;
    while i < n
        invariant
            n == section.header.0@.len(),
            i <= n,
            object_properties(doc@, section.header.0@, 0, Seq::empty()) == object_properties(
                doc@,
                section.header.0@,
                i as int,
                values@,
            ),
        decreases n - i,
    {
        let header = &section.header.0[i];
        match object_property_of(doc, header.0, header.2.as_str()) {
            Ok(v) => {
                values.insert(header.1.clone(), v);
            },
            Err(e) => {
                return Err(e);
            },
        }
        i += 1;
    }
    proof {
        crate::value::lemma_fields_view(values.entries@);
    }
    Ok(Value::Object { values })
}

/// The value that a section declares for a kind that is written as `kind`.
pub open spec fn declared_value(doc: TDocView, section: Section, kind: Seq<char>) -> Result<
    ValueView,
    ErrorView,
> {
    if kind == "string"@ {
        string_of(section, doc.name)
    } else if kind == "integer"@ {
        integer_in(section, doc.name)
    } else if kind == "decimal"@ {
        decimal_in(section, doc.name)
    } else if kind == "boolean"@ {
        boolean_in(section, doc.name)
    } else if kind == "object"@ {
        object_in(doc, section)
    } else {
        match doc.get_thing(section.line_number, kind) {
            Err(e) => Err(e),
            Ok(ThingView::Record(r)) => r.create(doc, section),
            Ok(ThingView::OrTypeWithVariant { e, variant }) => e.create(doc, section, variant),
            Ok(_) => Err(failure(ErrorKind::TypeMismatch, kind, doc.name, section.line_number)),
        }
    }
}

/// A variable without conditions.
pub open spec fn plain_variable(name: Seq<char>, value: ValueView) -> VariableView {
    VariableView { name, value, conditions: Seq::empty() }
}

/// The variable that a section declares. An optional variable without
/// caption and body has no value; any other has the value that the section
/// declares for its kind, optionally so where it is optional.
pub open spec fn variable_from(doc: TDocView, section: Section) -> Result<VariableView, ErrorView> {
    match name_kind(doc, section.line_number, section.name@, Seq::empty()) {
        Err(e) => Err(e),
        Ok(data) => if data.type_ != Type::Variable {
            Err(malformed(section.name@, doc.name, section.line_number))
        } else if data.modifier == VariableModifier::Optional && section.caption is None && section.body
            is None {
            match kind_for_variable(doc, section.line_number, section.name@, None) {
                Err(e) => Err(e),
                Ok(kind) => Ok(
                    plain_variable(data.name, ValueView::Optional { data: None, kind: kind.inner() }),
                ),
            }
        } else {
            match declared_value(doc, section, data.kind) {
                Err(e) => Err(e),
                Ok(v) => if data.modifier == VariableModifier::Optional {
                    match kind_for_variable(doc, section.line_number, section.name@, None) {
                        Err(e) => Err(e),
                        Ok(kind) => Ok(
                            plain_variable(
                                data.name,
                                ValueView::Optional { data: Some(Box::new(v)), kind: kind.inner() },
                            ),
                        ),
                    }
                } else {
                    Ok(plain_variable(data.name, v))
                },
            }
        },
    }
}

/// The empty list that a section declares.
pub open spec fn list_from(doc: TDocView, section: Section) -> Result<VariableView, ErrorView> {
    match name_kind(doc, section.line_number, section.name@, Seq::empty()) {
        Err(e) => Err(e),
        Ok(data) => match doc.resolve_name(section.line_number, data.name) {
            Err(e) => Err(e),
            Ok(name) => match kind_for_variable(doc, section.line_number, section.name@, None) {
                Err(e) => Err(e),
                Ok(kind) => if kind is List {
                    Ok(
                        plain_variable(
                            name,
                            ValueView::List { data: Seq::empty(), kind: kind.list_kind() },
                        ),
                    )
                } else {
                    Err(malformed(section.name@, doc.name, section.line_number))
                },
            },
        },
    }
}

/// The empty map that a section declares: `map` and a name, with the kind
/// of the values under the header `type`.
pub open spec fn map_from(doc: TDocView, section: Section) -> Result<VariableView, ErrorView> {
    match name_after("map"@, section.name@, doc.name) {
        Err(e) => Err(e),
        Ok(local) => match doc.resolve_name(section.line_number, local) {
            Err(e) => Err(e),
            Ok(name) => match header_value(section.header.0@, "type"@, 0) {
                None => Err(missing("type"@, doc.name, section.line_number)),
                Some(t) => match kind_from(doc, section.line_number, t) {
                    Err(e) => Err(e),
                    Ok(kind) => Ok(
                        plain_variable(name, ValueView::Mapping { data: Seq::empty(), kind }),
                    ),
                },
            },
        },
    }
}

/// The value of kind `kind` that a section gives.
pub open spec fn value_of_kind(doc: TDocView, section: Section, kind: KindView) -> Result<
    ValueView,
    ErrorView,
> {
    match kind {
        KindView::Integer { .. } => integer_in(section, doc.name),
        KindView::Decimal { .. } => decimal_in(section, doc.name),
        KindView::Boolean { .. } => boolean_in(section, doc.name),
        KindView::String { .. } => string_of(section, doc.name),
        KindView::Record { name, .. } => match doc.get_record(section.line_number, name) {
            Ok(r) => r.create(doc, section),
            Err(e) => Err(e),
        },
        _ => Err(malformed(kind.name(), doc.name, section.line_number)),
    }
}

/// The value of a variable after a section that updates it: a record is
/// read anew, a list gets one more item, an optional value is set or, where
/// the section gives none, emptied; a map takes no update; anything else is
/// read anew as its kind asks.
pub open spec fn updated_value(doc: TDocView, section: Section, value: ValueView) -> Result<
    ValueView,
    ErrorView,
> {
    match value.kind() {
        KindView::Record { name, .. } => match doc.get_record(section.line_number, name) {
            Ok(r) => r.create(doc, section),
            Err(e) => Err(e),
        },
        KindView::Mapping { .. } => Err(malformed("unexpected map"@, doc.name, section.line_number)),
        k => match value {
            ValueView::List { data, kind } => match value_of_kind(doc, section, kind) {
                Ok(v) => Ok(ValueView::List { data: data.push(v), kind }),
                Err(e) => Err(e),
            },
            ValueView::Optional { kind, .. } => Ok(
                ValueView::Optional {
                    data: match value_of_kind(doc, section, kind) {
                        Ok(v) => Some(Box::new(v)),
                        Err(_) => None,
                    },
                    kind,
                },
            ),
            _ => value_of_kind(doc, section, k),
        },
    }
}

/// The value that a section gives for a variable of the kind of `value`.
pub open spec fn value_like(doc: TDocView, section: Section, value: ValueView) -> Result<
    ValueView,
    ErrorView,
> {
    match value.kind() {
        KindView::String { .. } => string_of(section, doc.name),
        KindView::Integer { .. } => integer_in(section, doc.name),
        KindView::Decimal { .. } => decimal_in(section, doc.name),
        KindView::Boolean { .. } => boolean_in(section, doc.name),
        KindView::Record { name, .. } => match doc.get_thing(section.line_number, name) {
            Err(e) => Err(e),
            Ok(ThingView::Record(r)) => r.create(doc, section),
            Ok(_) => Err(failure(ErrorKind::TypeMismatch, name, doc.name, section.line_number)),
        },
        KindView::OrType { name } => match doc.get_thing(section.line_number, name) {
            Err(e) => Err(e),
            Ok(ThingView::OrTypeWithVariant { e, variant }) => e.create(doc, section, variant),
            Ok(_) => Err(failure(ErrorKind::TypeMismatch, name, doc.name, section.line_number)),
        },
        k => Err(malformed(k.name(), doc.name, section.line_number)),
    }
}

fn declared_value_of(doc: &TDoc, section: &Section, kind: &str) -> (r: Result<Value, Error>)
    ensures
        agrees(r, declared_value(doc@, *section, kind@)),
{
    if crate::text::str_eq(kind, "string") {
        read_string(section, doc.name)
    } else if crate::text::str_eq(kind, "integer") {
        read_integer(section, doc.name)
    } else if crate::text::str_eq(kind, "decimal") {
        read_decimal(section, doc.name)
    } else if crate::text::str_eq(kind, "boolean") {
        read_boolean(section, doc.name)
    } else if crate::text::str_eq(kind, "object") {
        read_object(section, doc)
    } else {
        match doc.get_thing(section.line_number, kind) {
            Err(e) => Err(e),
            Ok(Thing::Record(r)) => r.create(section, doc),
            Ok(Thing::OrTypeWithVariant { e, variant }) => e.create(section, variant, doc),
            Ok(_) => fail(ErrorKind::TypeMismatch, kind, doc.name, section.line_number),
        }
    }
}

fn value_of_kind_of(doc: &TDoc, section: &Section, kind: &Kind) -> (r: Result<Value, Error>)
    ensures
        agrees(r, value_of_kind(doc@, *section, kind@)),
{
    match kind {
        Kind::Integer { .. } => read_integer(section, doc.name),
        Kind::Decimal { .. } => read_decimal(section, doc.name),
        Kind::Boolean { .. } => read_boolean(section, doc.name),
        Kind::String { .. } => read_string(section, doc.name),
        Kind::Record { name, .. } => match doc.get_record(section.line_number, name.as_str()) {
            Ok(r) => r.create(section, doc),
            Err(e) => Err(e),
        },
        _ => fail(ErrorKind::Malformed, kind.name().as_str(), doc.name, section.line_number),
    }
}

fn no_conditions() -> (r: Vec<(crate::thing::Boolean, Value)>)
    ensures
        crate::thing::conditions_view(r@) == Seq::<(crate::thing::BooleanView, ValueView)>::empty(),
{
    let r: Vec<(crate::thing::Boolean, Value)> = Vec::new();
    assert(crate::thing::conditions_view(r@) =~= Seq::<
        (crate::thing::BooleanView, ValueView),
    >::empty());
    r
}

impl Variable {
    /// The variable that a section declares.
    pub fn from_p1(section: &Section, doc: &TDoc) -> (r: Result<Variable, Error>)
        ensures
            agrees(r, variable_from(doc@, *section)),
    {
        let none: Vec<String> = Vec::new();
        assert(crate::text::views(none@) =~= Seq::<Seq<char>>::empty());
        let data = match VariableData::get_name_kind(section.name.as_str(), doc, section.line_number, &none) {
            Ok(d) => d,
            Err(e) => {
                return Err(e);
            },
        };
        if !data.is_variable() {
            return fail(ErrorKind::Malformed, section.name.as_str(), doc.name, section.line_number);
        }
        if data.is_optional() && section.caption.is_none() && section.body.is_none() {
            return match Kind::for_variable(section.line_number, section.name.as_str(), None, doc) {
                Err(e) => Err(e),
                Ok(kind) => Ok(
                    Variable {
                        name: data.name,
                        value: Value::Optional { data: Box::new(None), kind: kind.inner().clone() },
                        conditions: no_conditions(),
                    },
                ),
            };
        }
        let value = match declared_value_of(doc, section, data.kind.as_str()) {
            Ok(v) => v,
            Err(e) => {
                return Err(e);
            },
        };
        if data.is_optional() {
            return match Kind::for_variable(section.line_number, section.name.as_str(), None, doc) {
                Err(e) => Err(e),
                Ok(kind) => Ok(
                    Variable {
                        name: data.name,
                        value: Value::Optional {
                            data: Box::new(Some(value)),
                            kind: kind.inner().clone(),
                        },
                        conditions: no_conditions(),
                    },
                ),
            };
        }
        Ok(Variable { name: data.name, value, conditions: no_conditions() })
    }

    /// The empty list that a section declares.
    pub fn list_from_p1(section: &Section, doc: &TDoc) -> (r: Result<Variable, Error>)
        ensures
            agrees(r, list_from(doc@, *section)),
    {
        let none: Vec<String> = Vec::new();
        assert(crate::text::views(none@) =~= Seq::<Seq<char>>::empty());
        let data = match VariableData::get_name_kind(section.name.as_str(), doc, section.line_number, &none) {
            Ok(d) => d,
            Err(e) => {
                return Err(e);
            },
        };
        let name = match doc.resolve_name(section.line_number, data.name.as_str()) {
            Ok(n) => n,
            Err(e) => {
                return Err(e);
            },
        };
        let kind = match Kind::for_variable(section.line_number, section.name.as_str(), None, doc) {
            Ok(k) => k,
            Err(e) => {
                return Err(e);
            },
        };
        if !kind.is_list() {
            return fail(ErrorKind::Malformed, section.name.as_str(), doc.name, section.line_number);
        }
        let data: Vec<Value> = Vec::new();
        assert(crate::value::values_view(data@) =~= Seq::<ValueView>::empty());
        Ok(
            Variable {
                name,
                value: Value::List { data, kind: kind.list_kind().clone() },
                conditions: no_conditions(),
            },
        )
    }

    /// The empty map that a section declares.
    pub fn map_from_p1(section: &Section, doc: &TDoc) -> (r: Result<Variable, Error>)
        ensures
            agrees(r, map_from(doc@, *section)),
    {
        let local = match crate::declaration::get_name("map", section.name.as_str(), doc.name) {
            Ok(n) => n,
            Err(e) => {
                return Err(e);
            },
        };
        let name = match doc.resolve_name(section.line_number, local.as_str()) {
            Ok(n) => n,
            Err(e) => {
                return Err(e);
            },
        };
        let t = match section.header.str(doc.name, section.line_number, "type") {
            Ok(t) => t,
            Err(e) => {
                return Err(e);
            },
        };
        match Kind::from(section.line_number, t.as_str(), doc) {
            Err(e) => Err(e),
            Ok(kind) => {
                let data: OrderedMap<Value> = OrderedMap::new();
                assert(crate::value::mapping_view(data.entries@) =~= Seq::<
                    (Seq<char>, ValueView),
                >::empty());
                Ok(Variable { name, value: Value::Mapping { data, kind }, conditions: no_conditions() })
            },
        }
    }

    /// Takes the update that a section makes to the variable. Where the
    /// section cannot be read, the variable stays as it is.
    pub fn update_from_p1(&mut self, section: &Section, doc: &TDoc) -> (r: Result<(), Error>)
        ensures
            final(self).name == old(self).name,
            final(self).conditions == old(self).conditions,
            match r {
                Ok(_) => updated_value(doc@, *section, old(self).value@) == Ok::<ValueView, ErrorView>(
                    final(self).value@,
                ),
                Err(e) => updated_value(doc@, *section, old(self).value@) == Err::<
                    ValueView,
                    ErrorView,
                >(e@) && final(self).value == old(self).value,
            },
    {
        let kind = self.value.kind();
        match &kind {
            Kind::Record { name, .. } => {
                return match doc.get_record(section.line_number, name.as_str()) {
                    Err(e) => Err(e),
                    Ok(r) => match r.create(section, doc) {
                        Ok(v) => {
                            self.value = v;
                            Ok(())
                        },
                        Err(e) => Err(e),
                    },
                };
            },
            Kind::Mapping { .. } => {
                return fail(ErrorKind::Malformed, "unexpected map", doc.name, section.line_number);
            },
            _ => {},
        }
        match &mut self.value {
            Value::List { data, kind: item } => match value_of_kind_of(doc, section, item) {
                Ok(v) => {
                    let ghost before = crate::value::values_view(data@);
                    let ghost added = v@;
                    data.push(v);
                    assert(crate::value::values_view(data@) =~= before.push(added));
                    Ok(())
                },
                Err(e) => Err(e),
            },
            Value::Optional { data, kind: item } => {
                *data = Box::new(
                    match value_of_kind_of(doc, section, item) {
                        Ok(v) => Some(v),
                        Err(_) => None,
                    },
                );
                Ok(())
            },
            _ => match value_of_kind_of(doc, section, &kind) {
                Ok(v) => {
                    self.value = v;
                    Ok(())
                },
                Err(e) => Err(e),
            },
        }
    }

    /// The value that a section gives for a variable of this kind.
    pub fn get_value(&self, section: &Section, doc: &TDoc) -> (r: Result<Value, Error>)
        ensures
            agrees(r, value_like(doc@, *section, self.value@)),
    {
        let kind = self.value.kind();
        match &kind {
            Kind::String { .. } => read_string(section, doc.name),
            Kind::Integer { .. } => read_integer(section, doc.name),
            Kind::Decimal { .. } => read_decimal(section, doc.name),
            Kind::Boolean { .. } => read_boolean(section, doc.name),
            Kind::Record { name, .. } => match doc.get_thing(section.line_number, name.as_str()) {
                Err(e) => Err(e),
                Ok(Thing::Record(r)) => r.create(section, doc),
                Ok(_) => fail(ErrorKind::TypeMismatch, name.as_str(), doc.name, section.line_number),
            },
            Kind::OrType { name } => match doc.get_thing(section.line_number, name.as_str()) {
                Err(e) => Err(e),
                Ok(Thing::OrTypeWithVariant { e, variant }) => e.create(section, variant, doc),
                Ok(_) => fail(ErrorKind::TypeMismatch, name.as_str(), doc.name, section.line_number),
            },
            k => fail(ErrorKind::Malformed, k.name().as_str(), doc.name, section.line_number),
        }
    }
}

} // verus!
