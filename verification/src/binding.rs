//! Binding: from the text of a property and the kind that is expected of it
//! to a property value.

use crate::error::{agrees, fail, failure, Error, ErrorKind, ErrorView};
use crate::kind::{Kind, KindView};
use crate::number::{boolean_of, integer_of, is_decimal};
use crate::ordered_map::{view_lookup, OrderedMap};
use crate::resolve::{split_trimmed, split_trimmed_str};
use crate::tdoc::{TDoc, TDocView};
use crate::text::{split_once, strip_prefix};
use crate::thing::{Thing, ThingView};
use crate::value::{PropertyValue, PropertyValueView, TextSource, Value, ValueView};
use vstd::prelude::*;

verus! {

impl KindView {
    /// The kind as a declaration writes it.
    pub open spec fn name(self) -> Seq<char>
        decreases self,
    {
        match self {
            KindView::Nothing => "none"@,
            KindView::String { caption, body, .. } => if caption && body {
                "caption or body"@
            } else if caption {
                "caption"@
            } else if body {
                "body"@
            } else {
                "string"@
            },
            KindView::Integer { .. } => "integer"@,
            KindView::Decimal { .. } => "decimal"@,
            KindView::Boolean { .. } => "boolean"@,
            KindView::Object { .. } => "object"@,
            KindView::Record { name, .. } => name,
            KindView::OrType { name } => name,
            KindView::List { kind, .. } => kind.name() + " list"@,
            KindView::Optional { kind } => "optional "@ + kind.name(),
            KindView::Mapping { kind } => "map "@ + kind.name(),
            KindView::UI { .. } => "ftd.ui"@,
        }
    }
}

impl Kind {
    /// The kind as a declaration writes it.
    pub fn name(&self) -> (r: String)
        ensures
            r@ == self@.name(),
        decreases self,
    {
        match self {
            Kind::Nothing => "none".to_owned(),
            Kind::String { caption, body, .. } => if *caption && *body {
                "caption or body".to_owned()
            } else if *caption {
                "caption".to_owned()
            } else if *body {
                "body".to_owned()
            } else {
                "string".to_owned()
            },
            Kind::Integer { .. } => "integer".to_owned(),
            Kind::Decimal { .. } => "decimal".to_owned(),
            Kind::Boolean { .. } => "boolean".to_owned(),
            Kind::Object { .. } => "object".to_owned(),
            Kind::Record { name, .. } => name.clone(),
            Kind::OrType { name } => name.clone(),
            Kind::List { kind, .. } => {
                let mut out = (&**kind).name();
                out.append(" list");
                out
            },
            Kind::Optional { kind } => crate::text::concat("optional ", (&**kind).name().as_str()),
            Kind::Mapping { kind } => crate::text::concat("map ", (&**kind).name().as_str()),
            Kind::UI { .. } => "ftd.ui".to_owned(),
        }
    }
}

/// The words of a failed match of kinds: both kinds by name.
pub open spec fn mismatch_text(expected: KindView, found: KindView) -> Seq<char> {
    "expected "@ + expected.name() + " found "@ + found.name()
}

/// Where the text of a string of kind `kind` is written: in the caption
/// where the kind takes captions, else in the body where it takes bodies,
/// else in a header. Only strings are written anywhere.
pub open spec fn text_source_of(kind: KindView, doc: Seq<char>, line_number: usize) -> Result<
    TextSource,
    ErrorView,
> {
    match kind {
        KindView::String { caption, body, .. } => Ok(
            if caption {
                TextSource::Caption
            } else if body {
                TextSource::Body
            } else {
                TextSource::Header
            },
        ),
        _ => Err(failure(ErrorKind::TypeMismatch, kind.name(), doc, line_number)),
    }
}

impl TextSource {
    /// Where the text of a string of kind `kind` is written.
    pub fn from_kind(kind: &Kind, doc_id: &str, line_number: usize) -> (r: Result<
        TextSource,
        Error,
    >)
        ensures
            crate::error::agrees_plain(r, text_source_of(kind@, doc_id@, line_number)),
    {
        match kind {
            Kind::String { caption, body, .. } => Ok(
                if *caption {
                    TextSource::Caption
                } else if *body {
                    TextSource::Body
                } else {
                    TextSource::Header
                },
            ),
            _ => fail(ErrorKind::TypeMismatch, kind.name().as_str(), doc_id, line_number),
        }
    }
}

/// The declared name in `s` and the field that follows it: `s` is split at
/// the first dot behind its `#`, and both parts lose the white space at
/// their ends.
pub open spec fn doc_name_and_remaining(s: Seq<char>) -> (Seq<char>, Option<Seq<char>>) {
    let (prefix, pattern) = match split_once(s, '#') {
        Some((document, local)) => (document.push('#'), local),
        None => (Seq::<char>::empty(), s),
    };
    match split_trimmed(pattern, '.') {
        Some((first, rest)) => (prefix + first, Some(rest)),
        None => (s, None),
    }
}

/// The declared name in `s` and the field that follows it.
pub fn get_doc_name_and_remaining(s: &str) -> (r: (String, Option<String>))
    ensures
        r.0@ == doc_name_and_remaining(s@).0,
        crate::kind::text_view(r.1) == doc_name_and_remaining(s@).1,
{
    let (prefix, pattern) = match crate::text::split_once_char(s, '#') {
        Some((document, local)) => {
            proof {
                reveal_strlit("#");
                assert(document@ + "#"@ =~= document@.push('#'));
            }
            (crate::text::concat(document, "#"), local)
        },
        None => (String::new(), s),
    };
    match split_trimmed_str(pattern, '.') {
        Some((first, rest)) => (crate::text::concat(prefix.as_str(), first), Some(rest.to_owned())),
        None => (s.to_owned(), None),
    }
}

/// The kind that a name is bound as: the kind of the declaration, or, for a
/// record with a field named behind it, the kind of that field.
pub open spec fn referenced_kind(
    doc: TDocView,
    line_number: usize,
    kind: KindView,
    field: Option<Seq<char>>,
) -> Result<KindView, ErrorView> {
    match (kind, field) {
        (KindView::Record { name, .. }, Some(f)) => match doc.resolve_name(line_number, name) {
            Err(e) => Err(e),
            Ok(full) => match doc.get_record(line_number, full) {
                Err(e) => Err(e),
                Ok(record) => match view_lookup(record.fields, f) {
                    Some(k) => Ok(k),
                    None => Err(failure(ErrorKind::NotFound, f, doc.name, line_number)),
                },
            },
        },
        _ => Ok(kind),
    }
}

/// The expected kind with the default that the binding leaves it: that of
/// the referenced kind where it has one, its own otherwise.
pub open spec fn merged(expected: KindView, found: KindView) -> KindView {
    expected.with_default(
        if found.default_value() is Some {
            found.default_value()
        } else {
            expected.default_value()
        },
    )
}

/// The kind of a binding: the referenced kind must be compatible with the
/// expected one, which then stands with the merged default; without an
/// expected kind the referenced kind stands.
pub open spec fn bound_kind(
    doc: TDocView,
    line_number: usize,
    kind: KindView,
    field: Option<Seq<char>>,
    expected: Option<KindView>,
) -> Result<KindView, ErrorView> {
    match referenced_kind(doc, line_number, kind, field) {
        Err(e) => Err(e),
        Ok(found) => match expected {
            Some(e) => if e.same_as(found) {
                Ok(merged(e, found))
            } else {
                Err(
                    failure(
                        ErrorKind::TypeMismatch,
                        mismatch_text(e, found),
                        doc.name,
                        line_number,
                    ),
                )
            },
            None => Ok(found),
        },
    }
}

/// Where the referenced kind and the expected kind both carry a default,
/// the binding keeps that of the referenced kind.
pub proof fn lemma_referenced_default_stands(expected: KindView, found: KindView)
    requires
        expected.default_value() is Some,
        found.default_value() is Some,
    ensures
        merged(expected, found).default_value() == found.default_value(),
{
}

/// The same of a whole binding: where a name is bound to an expected kind,
/// and the kind it refers to and the expected kind both carry a default, the
/// bound kind carries the default of the kind referred to.
pub proof fn lemma_binding_keeps_referenced_default(
    doc: TDocView,
    line_number: usize,
    kind: KindView,
    field: Option<Seq<char>>,
    expected: KindView,
)
    requires
        bound_kind(doc, line_number, kind, field, Some(expected)) is Ok,
        expected.default_value() is Some,
        referenced_kind(doc, line_number, kind, field)->Ok_0.default_value() is Some,
    ensures
        bound_kind(doc, line_number, kind, field, Some(expected))->Ok_0.default_value()
            == referenced_kind(doc, line_number, kind, field)->Ok_0.default_value(),
{
    lemma_referenced_default_stands(
        expected,
        referenced_kind(doc, line_number, kind, field)->Ok_0,
    );
}

/// Every kind is compatible with itself.
pub proof fn lemma_same_as_reflexive(k: KindView)
    ensures
        k.same_as(k),
    decreases k,
{
    match k.inner() {
        KindView::List { kind, .. } => lemma_same_as_reflexive(*kind),
        KindView::Mapping { kind } => lemma_same_as_reflexive(*kind),
        KindView::Optional { kind } => lemma_same_as_reflexive(*kind),
        _ => {},
    }
}

/// A default does not count for compatibility.
pub proof fn lemma_default_does_not_count(e: KindView, default: Option<Seq<char>>)
    ensures
        e.same_as(e.with_default(default)),
{
    match e.inner() {
        KindView::List { kind, .. } => lemma_same_as_reflexive(*kind),
        KindView::Mapping { kind } => lemma_same_as_reflexive(*kind),
        KindView::Optional { kind } => lemma_same_as_reflexive(*kind),
        _ => {},
    }
}

/// Binding checks kinds: whatever a text is bound as where a kind is
/// expected, a literal, a reference or a variable, is of a kind that is
/// compatible with the expected one.
pub proof fn lemma_bound_as_expected(
    doc: TDocView,
    line_number: usize,
    value: Seq<char>,
    expected: KindView,
    arguments: Seq<(Seq<char>, KindView)>,
    source: Option<TextSource>,
)
    requires
        resolve_value(doc, line_number, value, Some(expected), arguments, source) is Ok,
    ensures
        expected.same_as(
            resolve_value(doc, line_number, value, Some(expected), arguments, source)->Ok_0.kind(),
        ),
{
    let bound = resolve_value(doc, line_number, value, Some(expected), arguments, source)->Ok_0;
    match bound {
        PropertyValueView::Value { .. } => {},
        PropertyValueView::Reference { kind, .. } => {
            lemma_default_does_not_count(expected, kind.default_value());
        },
        PropertyValueView::Variable { kind, .. } => {
            lemma_default_does_not_count(expected, kind.default_value());
        },
    }
}

/// The expected default stands only where the referenced kind has none.
pub proof fn lemma_expected_default_fills(expected: KindView, found: KindView)
    requires
        found.default_value() is None,
    ensures
        merged(expected, found) == expected,
{
}

/// The kind of the declaration or argument that a name refers to, and
/// whether it is a declaration of the document.
pub open spec fn named_kind(
    doc: TDocView,
    line_number: usize,
    name: Seq<char>,
    arguments: Seq<(Seq<char>, KindView)>,
) -> Result<(KindView, bool), ErrorView> {
    let part1 = doc_name_and_remaining(name).0;
    if part1 == "MOUSE-IN"@ {
        Ok((KindView::Boolean { default: Some("false"@) }, false))
    } else {
        match view_lookup(arguments, part1) {
            Some(k) => Ok((k, false)),
            None => match doc.get_thing(line_number, name) {
                Ok(ThingView::Variable(v)) => Ok((v.value.kind(), true)),
                Ok(ThingView::Component(_)) => Ok((KindView::UI { default: None }, true)),
                _ => Err(failure(ErrorKind::NotFound, part1, doc.name, line_number)),
            },
        }
    }
}

/// The binding of a name: a reference where the document declares it, a
/// variable where it is an argument.
pub open spec fn bind_name(
    doc: TDocView,
    line_number: usize,
    name: Seq<char>,
    expected: Option<KindView>,
    arguments: Seq<(Seq<char>, KindView)>,
) -> Result<PropertyValueView, ErrorView> {
    match named_kind(doc, line_number, name, arguments) {
        Err(e) => Err(e),
        Ok((kind, declared)) => match bound_kind(
            doc,
            line_number,
            kind,
            doc_name_and_remaining(name).1,
            expected,
        ) {
            Err(e) => Err(e),
            Ok(found) => if declared {
                Ok(
                    PropertyValueView::Reference {
                        name: match doc.resolve_name(line_number, name) {
                            Ok(full) => full,
                            Err(_) => name,
                        },
                        kind: found,
                    },
                )
            } else {
                Ok(PropertyValueView::Variable { name, kind: found })
            },
        },
    }
}

/// The binding of a literal: the text read as the expected kind asks.
pub open spec fn bind_literal(
    doc: TDocView,
    line_number: usize,
    text: Seq<char>,
    expected: Option<KindView>,
    source: Option<TextSource>,
) -> Result<PropertyValueView, ErrorView> {
    let mismatch = Err(failure(ErrorKind::TypeMismatch, text, doc.name, line_number));
    match expected {
        None => Err(failure(ErrorKind::Malformed, text, doc.name, line_number)),
        Some(e) => match e.inner() {
            KindView::Integer { .. } => match integer_of(text) {
                Some(value) => Ok(PropertyValueView::Value { value: ValueView::Integer { value } }),
                None => mismatch,
            },
            KindView::Decimal { .. } => if is_decimal(text) {
                Ok(PropertyValueView::Value { value: ValueView::Decimal { value: text } })
            } else {
                mismatch
            },
            KindView::Boolean { .. } => match boolean_of(text) {
                Some(value) => Ok(PropertyValueView::Value { value: ValueView::Boolean { value } }),
                None => mismatch,
            },
            KindView::String { .. } => Ok(
                PropertyValueView::Value {
                    value: ValueView::String {
                        text,
                        source: match source {
                            Some(s) => s,
                            None => TextSource::Header,
                        },
                    },
                },
            ),
            _ => mismatch,
        },
    }
}

/// The property value that the text `value` stands for where `expected` is
/// expected. A text that starts with `$` names a variable or a declaration.
/// Where a component is expected the text is `name: caption`, and the name
/// is bound. Any other text is a literal, with a leading backslash dropped.
pub open spec fn resolve_value(
    doc: TDocView,
    line_number: usize,
    value: Seq<char>,
    expected: Option<KindView>,
    arguments: Seq<(Seq<char>, KindView)>,
    source: Option<TextSource>,
) -> Result<PropertyValueView, ErrorView> {
    match strip_prefix(value, '$') {
        Some(name) => bind_name(doc, line_number, name, expected, arguments),
        None => if expected is Some && expected->Some_0 is UI {
            match split_trimmed(value, ':') {
                Some((name, _)) => bind_name(doc, line_number, name, expected, arguments),
                None => Err(failure(ErrorKind::Malformed, value, doc.name, line_number)),
            }
        } else {
            bind_literal(
                doc,
                line_number,
                match strip_prefix(value, '\\') {
                    Some(rest) => rest,
                    None => value,
                },
                expected,
                source,
            )
        },
    }
}

fn referenced_kind_of(doc: &TDoc, line_number: usize, kind: &Kind, field: &Option<String>) -> (r:
    Result<Kind, Error>)
    ensures
        agrees(r, referenced_kind(doc@, line_number, kind@, crate::kind::text_view(*field))),
{
    match (kind, field) {
        (Kind::Record { name, .. }, Some(f)) => match doc.resolve_name(line_number, name.as_str()) {
            Err(e) => Err(e),
            Ok(full) => match doc.get_record(line_number, full.as_str()) {
                Err(e) => Err(e),
                Ok(record) => match record.fields.get(f.as_str()) {
                    Some(k) => Ok(k.clone()),
                    None => fail(ErrorKind::NotFound, f.as_str(), doc.name, line_number),
                },
            },
        },
        _ => Ok(kind.clone()),
    }
}

fn bound_kind_of(
    doc: &TDoc,
    line_number: usize,
    kind: &Kind,
    field: &Option<String>,
    expected: &Option<Kind>,
) -> (r: Result<Kind, Error>)
    ensures
        agrees(
            r,
            bound_kind(
                doc@,
                line_number,
                kind@,
                crate::kind::text_view(*field),
                crate::duplicate::option_view(*expected),
            ),
        ),
{
    match referenced_kind_of(doc, line_number, kind, field) {
        Err(e) => Err(e),
        Ok(found) => match expected {
            Some(e) => if e.is_same_as(&found) {
                let default = match found.get_default_value_str() {
                    Some(d) => Some(d),
                    None => e.get_default_value_str(),
                };
                Ok(e.clone().set_default(default))
            } else {
                let mut text = crate::text::concat("expected ", e.name().as_str());
                text.append(" found ");
                text.append(found.name().as_str());
                fail(ErrorKind::TypeMismatch, text.as_str(), doc.name, line_number)
            },
            None => Ok(found),
        },
    }
}

fn named_kind_of(doc: &TDoc, line_number: usize, name: &str, part1: &str, arguments: &OrderedMap<Kind>) -> (r:
    Result<(Kind, bool), Error>)
    requires
        part1@ == doc_name_and_remaining(name@).0,
    ensures
        match r {
            Ok((k, declared)) => named_kind(doc@, line_number, name@, arguments@) == Ok::<
                (KindView, bool),
                ErrorView,
            >((k@, declared)),
            Err(e) => named_kind(doc@, line_number, name@, arguments@) == Err::<
                (KindView, bool),
                ErrorView,
            >(e@),
        },
{
    if crate::text::str_eq(part1, "MOUSE-IN") {
        return Ok((Kind::Boolean { default: Some("false".to_owned()) }, false));
    }
    match arguments.get(part1) {
        Some(k) => Ok((k.clone(), false)),
        None => match doc.get_thing(line_number, name) {
            Ok(Thing::Variable(v)) => Ok((v.value.kind(), true)),
            Ok(Thing::Component(_)) => Ok((Kind::UI { default: None }, true)),
            _ => fail(ErrorKind::NotFound, part1, doc.name, line_number),
        },
    }
}

fn bind_name_of(
    doc: &TDoc,
    line_number: usize,
    name: &str,
    expected: &Option<Kind>,
    arguments: &OrderedMap<Kind>,
) -> (r: Result<PropertyValue, Error>)
    ensures
        agrees(
            r,
            bind_name(
                doc@,
                line_number,
                name@,
                crate::duplicate::option_view(*expected),
                arguments@,
            ),
        ),
{
    let (part1, part2) = get_doc_name_and_remaining(name);
    match named_kind_of(doc, line_number, name, part1.as_str(), arguments) {
        Err(e) => Err(e),
        Ok((kind, declared)) => match bound_kind_of(doc, line_number, &kind, &part2, expected) {
            Err(e) => Err(e),
            Ok(found) => if declared {
                let full = match doc.resolve_name(line_number, name) {
                    Ok(full) => full,
                    Err(_) => name.to_owned(),
                };
                Ok(PropertyValue::Reference { name: full, kind: found })
            } else {
                Ok(PropertyValue::Variable { name: name.to_owned(), kind: found })
            },
        },
    }
}

fn bind_literal_of(
    doc: &TDoc,
    line_number: usize,
    text: &str,
    expected: &Option<Kind>,
    source: Option<TextSource>,
) -> (r: Result<PropertyValue, Error>)
    ensures
        agrees(
            r,
            bind_literal(
                doc@,
                line_number,
                text@,
                crate::duplicate::option_view(*expected),
                source,
            ),
        ),
{
    match expected {
        None => fail(ErrorKind::Malformed, text, doc.name, line_number),
        Some(e) => match e.inner() {
            Kind::Integer { .. } => match crate::number::parse_integer(text) {
                Some(value) => Ok(PropertyValue::Value { value: Value::Integer { value } }),
                None => fail(ErrorKind::TypeMismatch, text, doc.name, line_number),
            },
            Kind::Decimal { .. } => if crate::number::is_decimal_literal(text) {
                Ok(PropertyValue::Value { value: Value::Decimal { value: text.to_owned() } })
            } else {
                fail(ErrorKind::TypeMismatch, text, doc.name, line_number)
            },
            Kind::Boolean { .. } => match crate::number::parse_boolean(text) {
                Some(value) => Ok(PropertyValue::Value { value: Value::Boolean { value } }),
                None => fail(ErrorKind::TypeMismatch, text, doc.name, line_number),
            },
            Kind::String { .. } => Ok(
                PropertyValue::Value {
                    value: Value::String {
                        text: text.to_owned(),
                        source: match source {
                            Some(s) => s,
                            None => TextSource::Header,
                        },
                    },
                },
            ),
            _ => fail(ErrorKind::TypeMismatch, text, doc.name, line_number),
        },
    }
}

impl PropertyValue {
    /// Binds the text `value` of a property where `expected_kind` is expected:
    /// as a reference to a declaration of the document, as a variable among
    /// `arguments`, or as a literal whose text was written at `source`.
    pub fn resolve_value(
        line_number: usize,
        value: &str,
        expected_kind: Option<Kind>,
        doc: &TDoc,
        arguments: &OrderedMap<Kind>,
        source: Option<TextSource>,
    ) -> (r: Result<PropertyValue, Error>)
        ensures
            agrees(
                r,
                resolve_value(
                    doc@,
                    line_number,
                    value@,
                    crate::duplicate::option_view(expected_kind),
                    arguments@,
                    source,
                ),
            ),
    {
        match crate::text::strip_prefix_char(value, '$') {
            Some(name) => bind_name_of(doc, line_number, name, &expected_kind, arguments),
            None => {
                let component = match &expected_kind {
                    Some(Kind::UI { .. }) => true,
                    _ => false,
                };
                if component {
                    match split_trimmed_str(value, ':') {
                        Some((name, _)) => bind_name_of(
                            doc,
                            line_number,
                            name,
                            &expected_kind,
                            arguments,
                        ),
                        None => fail(ErrorKind::Malformed, value, doc.name, line_number),
                    }
                } else {
                    bind_literal_of(
                        doc,
                        line_number,
                        crate::text::without_prefix_char(value, '\\'),
                        &expected_kind,
                        source,
                    )
                }
            },
        }
    }
}

} // verus!
