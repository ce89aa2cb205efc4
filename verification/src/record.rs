//! Instances: the value of a record or of a variant of an or-type, read
//! from a section.

use crate::binding::resolve_value;
use crate::error::{agrees, fail, failure, Error, ErrorKind, ErrorView};
use crate::kind::{text_view, Kind, KindView};
use crate::ordered_map::{view_inserted, OrderedMap};
use crate::resolve::kind_to_value;
use crate::section::{body_text, header_value, Section};
use crate::tdoc::{TDoc, TDocView};
use crate::thing::{OrType, OrTypeView, Record, RecordView};
use crate::value::{PropertyValue, PropertyValueView, TextSource, Value, ValueView};
use vstd::prelude::*;

verus! {

/// The text that a section gives for the field `name` of kind `kind`, and
/// where it stands: the caption for a string that takes captions, else the
/// body for a string that takes bodies, else the header of that name.
pub open spec fn field_text(section: Section, name: Seq<char>, kind: KindView) -> Option<
    (Seq<char>, TextSource),
> {
    let k = kind.inner();
    if k is String && k->String_caption && section.caption is Some {
        Some((section.caption->Some_0@, TextSource::Caption))
    } else if k is String && k->String_body && body_text(section.body) is Some {
        Some((body_text(section.body)->Some_0.1, TextSource::Body))
    } else {
        match header_value(section.header.0@, name, 0) {
            Some(v) => Some((v, TextSource::Header)),
            None => None,
        }
    }
}

/// The value of a field: the text that the section gives, bound as the
/// kind asks; without a text the value that the kind stands for; and
/// without that a failure.
pub open spec fn field_value(doc: TDocView, section: Section, name: Seq<char>, kind: KindView) -> Result<
    PropertyValueView,
    ErrorView,
> {
    match field_text(section, name, kind) {
        Some((text, source)) => resolve_value(
            doc,
            section.line_number,
            text,
            Some(kind),
            Seq::empty(),
            Some(source),
        ),
        None => match kind_to_value(kind, section.line_number, doc.name) {
            Ok(value) => Ok(PropertyValueView::Value { value }),
            Err(_) => Err(failure(ErrorKind::NotFound, name, doc.name, section.line_number)),
        },
    }
}

/// `acc` with the values of the fields from index `i` on; the first field
/// that has no value fails the whole.
pub open spec fn created_fields(
    doc: TDocView,
    section: Section,
    fields: Seq<(Seq<char>, KindView)>,
    i: int,
    acc: Seq<(Seq<char>, PropertyValueView)>,
) -> Result<Seq<(Seq<char>, PropertyValueView)>, ErrorView>
    decreases fields.len() - i,
{
    if i < 0 || i >= fields.len() {
        Ok(acc)
    } else {
        match field_value(doc, section, fields[i].0, fields[i].1) {
            Ok(v) => created_fields(doc, section, fields, i + 1, view_inserted(acc, fields[i].0, v)),
            Err(e) => Err(e),
        }
    }
}

impl RecordView {
    /// The instance of the record that a section declares.
    pub open spec fn create(self, doc: TDocView, section: Section) -> Result<ValueView, ErrorView> {
        match created_fields(doc, section, self.fields, 0, Seq::empty()) {
            Ok(fields) => Ok(ValueView::Record { name: self.name, fields }),
            Err(e) => Err(e),
        }
    }
}

/// The first index from `from` on of a variant with the name `name`, or the
/// length.
pub open spec fn find_variant(variants: Seq<RecordView>, name: Seq<char>, from: int) -> int
    decreases variants.len() - from,
{
    if from < 0 || from >= variants.len() {
        variants.len() as int
    } else if variants[from].name == name {
        from
    } else {
        find_variant(variants, name, from + 1)
    }
}

impl OrTypeView {
    /// The name under which the or-type holds its variant `variant`.
    pub open spec fn variant_name(self, variant: Seq<char>) -> Seq<char> {
        self.name + seq!['.'] + variant
    }

    /// The instance of the variant `variant` that a section declares.
    pub open spec fn create(self, doc: TDocView, section: Section, variant: Seq<char>) -> Result<
        ValueView,
        ErrorView,
    > {
        let i = find_variant(self.variants, self.variant_name(variant), 0);
        if i < self.variants.len() {
            match created_fields(doc, section, self.variants[i].fields, 0, Seq::empty()) {
                Ok(fields) => Ok(ValueView::OrType { name: self.name, variant, fields }),
                Err(e) => Err(e),
            }
        } else {
            Err(failure(ErrorKind::NotFound, variant, doc.name, section.line_number))
        }
    }
}

fn field_value_of(doc: &TDoc, section: &Section, name: &str, kind: &Kind) -> (r: Result<
    PropertyValue,
    Error,
>)
    ensures
        agrees(r, field_value(doc@, *section, name@, kind@)),
{
    let none: OrderedMap<Kind> = OrderedMap::new();
    let k = kind.inner();
    let (caption, body) = match k {
        Kind::String { caption, body, .. } => (*caption, *body),
        _ => (false, false),
    };
    if caption {
        match &section.caption {
            Some(c) => {
                return PropertyValue::resolve_value(
                    section.line_number,
                    c.as_str(),
                    Some(kind.clone()),
                    doc,
                    &none,
                    Some(TextSource::Caption),
                );
            },
            None => {},
        }
    }
    if body {
        match section.body_without_comment() {
            Some((_, text)) => {
                return PropertyValue::resolve_value(
                    section.line_number,
                    text.as_str(),
                    Some(kind.clone()),
                    doc,
                    &none,
                    Some(TextSource::Body),
                );
            },
            None => {},
        }
    }
    match section.header.str(doc.name, section.line_number, name) {
        Ok(v) => PropertyValue::resolve_value(
            section.line_number,
            v.as_str(),
            Some(kind.clone()),
            doc,
            &none,
            Some(TextSource::Header),
        ),
        Err(_) => match kind.to_value(section.line_number, doc.name) {
            Ok(value) => Ok(PropertyValue::Value { value }),
            Err(_) => fail(ErrorKind::NotFound, name, doc.name, section.line_number),
        },
    }
}

fn create_fields(doc: &TDoc, section: &Section, fields: &OrderedMap<Kind>) -> (r: Result<
    OrderedMap<PropertyValue>,
    Error,
>)
    ensures
        match r {
            Ok(m) => created_fields(doc@, *section, fields@, 0, Seq::empty()) == Ok::<
                Seq<(Seq<char>, PropertyValueView)>,
                ErrorView,
            >(m@),
            Err(e) => created_fields(doc@, *section, fields@, 0, Seq::empty()) == Err::<
                Seq<(Seq<char>, PropertyValueView)>,
                ErrorView,
            >(e@),
        },
{
    let mut out: OrderedMap<PropertyValue> = OrderedMap::new();
    let n: usize = fields.entries.len();
    let mut i: usize = 0;
    while i < n
        invariant
            n == fields.entries@.len(),
            n == fields@.len(),
            i <= n,
            created_fields(doc@, *section, fields@, 0, Seq::empty()) == created_fields(
                doc@,
                *section,
                fields@,
                i as int,
                out@,
            ),
        decreases n - i,
    {
        let entry = &fields.entries[i];
        assert(fields@[i as int] == (entry.0@, entry.1@));
        match field_value_of(doc, section, entry.0.as_str(), &entry.1) {
            Ok(v) => {
                out.insert(entry.0.clone(), v);
            },
            Err(e) => {
                return Err(e);
            },
        }
        i += 1;
    }
    Ok(out)
}

impl Record {
    /// The instance of the record that a section declares.
    pub fn create(&self, section: &Section, doc: &TDoc) -> (r: Result<Value, Error>)
        ensures
            agrees(r, self@.create(doc@, *section)),
    {
        match create_fields(doc, section, &self.fields) {
            Ok(fields) => {
                proof {
                    crate::value::lemma_fields_view(fields.entries@);
                }
                Ok(Value::Record { name: self.name.clone(), fields })
            },
            Err(e) => Err(e),
        }
    }
}

impl OrType {
    /// The instance of the variant `variant` that a section declares.
    pub fn create(&self, section: &Section, variant: String, doc: &TDoc) -> (r: Result<Value, Error>)
        ensures
            agrees(r, self@.create(doc@, *section, variant@)),
    {
        proof {
            reveal_strlit(".");
            assert("."@ =~= seq!['.']);
        }
        let wanted = crate::text::concat3(self.name.as_str(), ".", variant.as_str());
        let n: usize = self.variants.len();
        let mut i: usize = 0;
        while i < n
            invariant
                n == self.variants@.len(),
                n == self@.variants.len(),
                i <= n,
                wanted@ == self@.variant_name(variant@),
                find_variant(self@.variants, wanted@, 0) == find_variant(
                    self@.variants,
                    wanted@,
                    i as int,
                ),
            decreases n - i,
        {
            assert(self@.variants[i as int] == self.variants@[i as int]@);
            if self.variants[i].name == wanted {
                return match create_fields(doc, section, &self.variants[i].fields) {
                    Ok(fields) => {
                        proof {
                            crate::value::lemma_fields_view(fields.entries@);
                        }
                        Ok(Value::OrType { name: self.name.clone(), variant, fields })
                    },
                    Err(e) => Err(e),
                };
            }
            i += 1;
        }
        fail(ErrorKind::NotFound, variant.as_str(), doc.name, section.line_number)
    }
}

} // verus!
