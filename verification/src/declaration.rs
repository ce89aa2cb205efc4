//! Declarations as they are written: `string name`, `person list people`,
//! `optional integer age`.

use crate::error::{agrees, fail, failure, Error, ErrorKind, ErrorView};
use crate::kind::{Kind, KindView};
use crate::tdoc::{TDoc, TDocView};
use crate::text::{join, split_once, starts_with, views, words};
use crate::thing::{Thing, ThingView};
use vstd::prelude::*;

verus! {

/// Whether a declaration is of one value, of a list, or optional.
#[derive(Debug, Clone, Copy, PartialEq, Eq, Structural)]
pub enum VariableModifier {
    Plain,
    List,
    Optional,
}

/// What a declaration declares.
#[derive(Debug, Clone, Copy, PartialEq, Eq, Structural)]
pub enum Type {
    Variable,
    Component,
}

/// A declaration in parts: the name, the kind as it is written, whether it
/// is a list or optional, and whether it declares a variable or a
/// component.
#[derive(Debug, PartialEq)]
pub struct VariableData {
    pub name: String,
    pub kind: String,
    pub modifier: VariableModifier,
    pub type_: Type,
}

pub struct VariableDataView {
    pub name: Seq<char>,
    pub kind: Seq<char>,
    pub modifier: VariableModifier,
    pub type_: Type,
}

impl View for VariableData {
    type V = VariableDataView;

    open spec fn view(&self) -> VariableDataView {
        VariableDataView {
            name: self.name@,
            kind: self.kind@,
            modifier: self.modifier,
            type_: self.type_,
        }
    }
}

/// The failure that `s` is no declaration.
pub open spec fn invalid_declaration(s: Seq<char>, doc: Seq<char>, line_number: usize) -> ErrorView {
    failure(ErrorKind::Malformed, s, doc, line_number)
}

/// Whether `kind` is one of the kinds that the language has by itself.
pub open spec fn is_primitive(kind: Seq<char>) -> bool {
    kind == "string"@ || kind == "caption"@ || kind == "body"@ || kind == "body or caption"@ || kind
        == "caption or body"@ || kind == "integer"@ || kind == "decimal"@ || kind == "boolean"@
        || kind == "object"@
}

/// The kind, the name and the modifier that the words of a declaration
/// give: `kind name`, `kind list name`, `optional kind name`, or a kind of
/// three words with `or` in the middle and a name.
pub open spec fn declared_parts(expr: Seq<Seq<char>>) -> Option<
    (Seq<char>, Seq<char>, VariableModifier),
> {
    if expr.len() == 2 {
        Some((expr[0], expr[1], VariableModifier::Plain))
    } else if expr.len() == 3 {
        if expr[1] == "list"@ {
            Some((expr[0], expr[2], VariableModifier::List))
        } else if expr[0] == "optional"@ {
            Some((expr[1], expr[2], VariableModifier::Optional))
        } else {
            None
        }
    } else if expr.len() == 4 {
        if expr[1] == "or"@ {
            Some((join(expr.subrange(0, 3), seq![' ']), expr[3], VariableModifier::Plain))
        } else {
            None
        }
    } else {
        None
    }
}

/// Whether a kind that is written as `kind` makes a variable: a primitive
/// kind, a record, an or-type or a variant that the document knows, or one
/// of `var_types`.
pub open spec fn makes_variable(
    doc: TDocView,
    line_number: usize,
    kind: Seq<char>,
    var_types: Seq<Seq<char>>,
) -> bool {
    is_primitive(kind) || doc.get_record(line_number, kind) is Ok || doc.get_or_type(
        line_number,
        kind,
    ) is Ok || doc.get_or_type_with_variant(line_number, kind) is Ok || var_types.contains(kind)
}

/// The declaration `s` in parts.
pub open spec fn name_kind(
    doc: TDocView,
    line_number: usize,
    s: Seq<char>,
    var_types: Seq<Seq<char>>,
) -> Result<VariableDataView, ErrorView> {
    if starts_with(s, "record "@) || starts_with(s, "or-type "@) || starts_with(s, "map "@) || s
        == "container"@ {
        Err(invalid_declaration(s, doc.name, line_number))
    } else {
        match declared_parts(words(s, false)) {
            None => Err(invalid_declaration(s, doc.name, line_number)),
            Some((kind, name, modifier)) => Ok(
                VariableDataView {
                    name,
                    kind,
                    modifier,
                    type_: if makes_variable(doc, line_number, kind, var_types) {
                        Type::Variable
                    } else {
                        Type::Component
                    },
                },
            ),
        }
    }
}

fn primitive(kind: &str) -> (r: bool)
    ensures
        r == is_primitive(kind@),
{
    crate::text::str_eq(kind, "string") || crate::text::str_eq(kind, "caption")
        || crate::text::str_eq(kind, "body") || crate::text::str_eq(kind, "body or caption")
        || crate::text::str_eq(kind, "caption or body") || crate::text::str_eq(kind, "integer")
        || crate::text::str_eq(kind, "decimal") || crate::text::str_eq(kind, "boolean")
        || crate::text::str_eq(kind, "object")
}

fn parts_of(expr: &Vec<String>) -> (r: Option<(String, String, VariableModifier)>)
    ensures
        match r {
            Some((kind, name, modifier)) => declared_parts(views(expr@)) == Some(
                (kind@, name@, modifier),
            ),
            None => declared_parts(views(expr@)) is None,
        },
{
    let n: usize = expr.len();
    if n == 2 {
        Some((expr[0].clone(), expr[1].clone(), VariableModifier::Plain))
    } else if n == 3 {
        if crate::text::str_eq(expr[1].as_str(), "list") {
            Some((expr[0].clone(), expr[2].clone(), VariableModifier::List))
        } else if crate::text::str_eq(expr[0].as_str(), "optional") {
            Some((expr[1].clone(), expr[2].clone(), VariableModifier::Optional))
        } else {
            None
        }
    } else if n == 4 {
        if crate::text::str_eq(expr[1].as_str(), "or") {
            let mut first: Vec<String> = Vec::new();
            first.push(expr[0].clone());
            first.push(expr[1].clone());
            first.push(expr[2].clone());
            proof {
                reveal_strlit(" ");
                assert(" "@ =~= seq![' ']);
                assert(views(first@) =~= views(expr@).subrange(0, 3));
            }
            Some((crate::text::join_strings(&first, " "), expr[3].clone(), VariableModifier::Plain))
        } else {
            None
        }
    } else {
        None
    }
}

impl VariableData {
    /// Reads the declaration `s`. `var_types` are kinds that make variables
    /// besides those that the document knows.
    pub fn get_name_kind(s: &str, doc: &TDoc, line_number: usize, var_types: &Vec<String>) -> (r:
        Result<VariableData, Error>)
        ensures
            agrees(r, name_kind(doc@, line_number, s@, views(var_types@))),
    {
        if crate::text::starts_with_str(s, "record ") || crate::text::starts_with_str(s, "or-type ")
            || crate::text::starts_with_str(s, "map ") || crate::text::str_eq(s, "container") {
            return fail(ErrorKind::Malformed, s, doc.name, line_number);
        }
        let expr = crate::text::split_words(s, false);
        let (kind, name, modifier) = match parts_of(&expr) {
            Some(parts) => parts,
            None => {
                return fail(ErrorKind::Malformed, s, doc.name, line_number);
            },
        };
        let variable = primitive(kind.as_str()) || doc.get_record(line_number, kind.as_str()).is_ok()
            || doc.get_or_type(line_number, kind.as_str()).is_ok() || doc.get_or_type_with_variant(
            line_number,
            kind.as_str(),
        ).is_ok() || crate::text::contains_text(var_types, kind.as_str());
        Ok(
            VariableData {
                name,
                kind,
                modifier,
                type_: if variable {
                    Type::Variable
                } else {
                    Type::Component
                },
            },
        )
    }

    /// Whether a variable is declared, not a component.
    pub fn is_variable(&self) -> (r: bool)
        ensures
            r == (self.type_ == Type::Variable),
    {
        match self.type_ {
            Type::Variable => true,
            Type::Component => false,
        }
    }

    /// Whether the declaration is of one value that must be there.
    pub fn is_none(&self) -> (r: bool)
        ensures
            r == (self.modifier == VariableModifier::Plain),
    {
        match self.modifier {
            VariableModifier::Plain => true,
            _ => false,
        }
    }

    /// Whether a list is declared.
    pub fn is_list(&self) -> (r: bool)
        ensures
            r == (self.modifier == VariableModifier::List),
    {
        match self.modifier {
            VariableModifier::List => true,
            _ => false,
        }
    }

    /// Whether the declared value is optional.
    pub fn is_optional(&self) -> (r: bool)
        ensures
            r == (self.modifier == VariableModifier::Optional),
    {
        match self.modifier {
            VariableModifier::Optional => true,
            _ => false,
        }
    }
}

/// What stands behind the word `prefix` and a space in `s`.
pub open spec fn name_after(prefix: Seq<char>, s: Seq<char>, doc: Seq<char>) -> Result<
    Seq<char>,
    ErrorView,
> {
    match split_once(s, ' ') {
        Some((first, rest)) => if first == prefix {
            Ok(rest)
        } else {
            Err(failure(ErrorKind::Malformed, s, doc, 0))
        },
        None => Err(failure(ErrorKind::Malformed, s, doc, 0)),
    }
}

/// What stands behind the word `prefix` and a space in `s`.
pub fn get_name(prefix: &str, s: &str, doc_id: &str) -> (r: Result<String, Error>)
    ensures
        agrees(r, name_after(prefix@, s@, doc_id@)),
{
    match crate::text::split_once_char(s, ' ') {
        Some((first, rest)) => if crate::text::str_eq(first, prefix) {
            Ok(rest.to_owned())
        } else {
            fail(ErrorKind::Malformed, s, doc_id, 0)
        },
        None => fail(ErrorKind::Malformed, s, doc_id, 0),
    }
}

/// The kind that is written as `k`: a primitive kind, or the record or
/// or-type that the document knows under that name.
pub open spec fn base_kind(doc: TDocView, line_number: usize, k: Seq<char>) -> Result<
    KindView,
    ErrorView,
> {
    if k == "string"@ {
        Ok(KindView::String { caption: false, body: false, default: None })
    } else if k == "caption"@ {
        Ok(KindView::String { caption: true, body: false, default: None })
    } else if k == "body"@ {
        Ok(KindView::String { caption: false, body: true, default: None })
    } else if k == "body or caption"@ || k == "caption or body"@ {
        Ok(KindView::String { caption: true, body: true, default: None })
    } else if k == "integer"@ {
        Ok(KindView::Integer { default: None })
    } else if k == "decimal"@ {
        Ok(KindView::Decimal { default: None })
    } else if k == "boolean"@ {
        Ok(KindView::Boolean { default: None })
    } else if k == "object"@ {
        Ok(KindView::Object { default: None })
    } else {
        match doc.get_thing(line_number, k) {
            Ok(ThingView::Record(r)) => Ok(KindView::Record { name: r.name, default: None }),
            Ok(ThingView::OrType(e)) => Ok(KindView::OrType { name: e.name }),
            Ok(ThingView::OrTypeWithVariant { e, .. }) => Ok(KindView::OrType { name: e.name }),
            Ok(_) => Err(failure(ErrorKind::TypeMismatch, k, doc.name, line_number)),
            Err(e) => Err(e),
        }
    }
}

/// The kind that is written as `s`: a base kind, or `optional` and a base
/// kind.
pub open spec fn kind_from(doc: TDocView, line_number: usize, s: Seq<char>) -> Result<
    KindView,
    ErrorView,
> {
    if starts_with(s, "optional "@) {
        match base_kind(doc, line_number, s.subrange("optional "@.len() as int, s.len() as int)) {
            Ok(k) => Ok(KindView::Optional { kind: Box::new(k) }),
            Err(e) => Err(e),
        }
    } else {
        base_kind(doc, line_number, s)
    }
}

/// The kind of the variable that `s` declares, with `default` as its
/// default: the declared kind, a list of it, or optionally it.
pub open spec fn kind_for_variable(
    doc: TDocView,
    line_number: usize,
    s: Seq<char>,
    default: Option<Seq<char>>,
) -> Result<KindView, ErrorView> {
    match name_kind(doc, line_number, s, Seq::empty()) {
        Err(e) => Err(e),
        Ok(data) => match base_kind(doc, line_number, data.kind) {
            Err(e) => Err(e),
            Ok(k) => Ok(
                match data.modifier {
                    VariableModifier::List => KindView::List { kind: Box::new(k), default },
                    VariableModifier::Optional => KindView::Optional { kind: Box::new(k) },
                    VariableModifier::Plain => k.with_default(default),
                },
            ),
        },
    }
}

fn base_kind_of(doc: &TDoc, line_number: usize, k: &str) -> (r: Result<Kind, Error>)
    ensures
        agrees(r, base_kind(doc@, line_number, k@)),
{
    if crate::text::str_eq(k, "string") {
        Ok(Kind::string())
    } else if crate::text::str_eq(k, "caption") {
        Ok(Kind::caption())
    } else if crate::text::str_eq(k, "body") {
        Ok(Kind::body())
    } else if crate::text::str_eq(k, "body or caption") || crate::text::str_eq(
        k,
        "caption or body",
    ) {
        Ok(Kind::caption_or_body())
    } else if crate::text::str_eq(k, "integer") {
        Ok(Kind::integer())
    } else if crate::text::str_eq(k, "decimal") {
        Ok(Kind::decimal())
    } else if crate::text::str_eq(k, "boolean") {
        Ok(Kind::boolean())
    } else if crate::text::str_eq(k, "object") {
        Ok(Kind::object())
    } else {
        match doc.get_thing(line_number, k) {
            Ok(Thing::Record(r)) => Ok(Kind::Record { name: r.name, default: None }),
            Ok(Thing::OrType(e)) => Ok(Kind::OrType { name: e.name }),
            Ok(Thing::OrTypeWithVariant { e, .. }) => Ok(Kind::OrType { name: e.name }),
            Ok(_) => fail(ErrorKind::TypeMismatch, k, doc.name, line_number),
            Err(e) => Err(e),
        }
    }
}

impl Kind {
    /// The kind that is written as `s`.
    pub fn from(line_number: usize, s: &str, doc: &TDoc) -> (r: Result<Kind, Error>)
        ensures
            agrees(r, kind_from(doc@, line_number, s@)),
    {
        if crate::text::starts_with_str(s, "optional ") {
            let n: usize = s.unicode_len();
            let m: usize = "optional ".unicode_len();
            match base_kind_of(doc, line_number, s.substring_char(m, n)) {
                Ok(k) => Ok(Kind::Optional { kind: Box::new(k) }),
                Err(e) => Err(e),
            }
        } else {
            base_kind_of(doc, line_number, s)
        }
    }

    /// The kind of the variable that `s` declares.
    pub fn for_variable(line_number: usize, s: &str, default: Option<String>, doc: &TDoc) -> (r:
        Result<Kind, Error>)
        ensures
            agrees(r, kind_for_variable(doc@, line_number, s@, crate::kind::text_view(default))),
    {
        let none: Vec<String> = Vec::new();
        assert(views(none@) =~= Seq::<Seq<char>>::empty());
        match VariableData::get_name_kind(s, doc, line_number, &none) {
            Err(e) => Err(e),
            Ok(data) => match base_kind_of(doc, line_number, data.kind.as_str()) {
                Err(e) => Err(e),
                Ok(k) => Ok(
                    match data.modifier {
                        VariableModifier::List => Kind::List { kind: Box::new(k), default },
                        VariableModifier::Optional => Kind::Optional { kind: Box::new(k) },
                        VariableModifier::Plain => k.set_default(default),
                    },
                ),
            },
        }
    }
}

} // verus!
