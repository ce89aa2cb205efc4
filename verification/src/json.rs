//! Values from data in the shape of JSON.

use crate::error::{agrees, fail, failure, Error, ErrorKind, ErrorView};
use crate::kind::{Kind, KindView};
use crate::ordered_map::{find, keys, view_inserted, view_lookup, OrderedMap};
use crate::section::Section;
use crate::tdoc::{TDoc, TDocView};
use crate::thing::Variable;
use crate::value::{PropertyValue, PropertyValueView, TextSource, Value, ValueView};
use crate::variable::{list_from, malformed, variable_from};
use vstd::prelude::*;

verus! {

/// Data in the shape of JSON. A number is held as it is written, and as an
/// integer where it is one that a signed 64-bit integer holds.
#[derive(Debug, PartialEq)]
pub enum Json {
    Null,
    Bool(bool),
    Number { integer: Option<i64>, text: String },
    String(String),
    Array(Vec<Json>),
    Object(OrderedMap<Json>),
}

impl View for Json {
    type V = Json;

    open spec fn view(&self) -> Json {
        *self
    }
}

/// The failure that the data is not of the kind `kind`.
pub open spec fn not_of_kind(kind: KindView, doc: Seq<char>, line_number: usize) -> ErrorView {
    failure(ErrorKind::TypeMismatch, kind.name(), doc, line_number)
}

/// The value of kind `kind` that the data `json` holds: a string, a number
/// or a truth value for the kind of that sort; for a record an object with
/// a member for each field; for a list an array of items of the kind of the
/// list.
pub open spec fn json_value(doc: TDocView, line_number: usize, json: Json, kind: KindView) -> Result<
    ValueView,
    ErrorView,
>
    decreases json, 0nat,
{
    match kind {
        KindView::String { .. } => match json {
            Json::String(s) => Ok(ValueView::String { text: s@, source: TextSource::Header }),
            _ => Err(not_of_kind(kind, doc.name, line_number)),
        },
        KindView::Integer { .. } => match json {
            Json::Number { integer: Some(value), .. } => Ok(ValueView::Integer { value }),
            _ => Err(not_of_kind(kind, doc.name, line_number)),
        },
        KindView::Decimal { .. } => match json {
            Json::Number { text, .. } => Ok(ValueView::Decimal { value: text@ }),
            _ => Err(not_of_kind(kind, doc.name, line_number)),
        },
        KindView::Boolean { .. } => match json {
            Json::Bool(value) => Ok(ValueView::Boolean { value }),
            _ => Err(not_of_kind(kind, doc.name, line_number)),
        },
        KindView::Record { name, .. } => match doc.get_record(line_number, name) {
            Err(e) => Err(e),
            Ok(record) => match json {
                Json::Object(o) => match json_fields(
                    doc,
                    line_number,
                    o.entries@,
                    record.fields,
                    0,
                    Seq::empty(),
                ) {
                    Ok(fields) => Ok(ValueView::Record { name, fields }),
                    Err(e) => Err(e),
                },
                _ => Err(not_of_kind(kind, doc.name, line_number)),
            },
        },
        KindView::List { kind: item, .. } => match json {
            Json::Array(items) => match json_items(
                doc,
                line_number,
                items@,
                *item,
                0,
                Seq::empty(),
            ) {
                Ok(data) => Ok(ValueView::List { data, kind: *item }),
                Err(e) => Err(e),
            },
            _ => Err(not_of_kind(kind, doc.name, line_number)),
        },
        _ => Err(malformed(kind.name(), doc.name, line_number)),
    }
}

/// `acc` with the values of the fields from index `i` on, each from the
/// member of its name.
pub open spec fn json_fields(
    doc: TDocView,
    line_number: usize,
    members: Seq<(String, Json)>,
    fields: Seq<(Seq<char>, KindView)>,
    i: int,
    acc: Seq<(Seq<char>, PropertyValueView)>,
) -> Result<Seq<(Seq<char>, PropertyValueView)>, ErrorView>
    decreases members, fields.len() - i,
{
    if i < 0 || i >= fields.len() {
        Ok(acc)
    } else {
        let at = find(keys(members), fields[i].0, 0);
        if 0 <= at < members.len() {
            match json_value(doc, line_number, members[at].1, fields[i].1) {
                Ok(value) => json_fields(
                    doc,
                    line_number,
                    members,
                    fields,
                    i + 1,
                    view_inserted(acc, fields[i].0, PropertyValueView::Value { value }),
                ),
                Err(e) => Err(e),
            }
        } else {
            Err(failure(ErrorKind::NotFound, fields[i].0, doc.name, line_number))
        }
    }
}

/// `acc` with the values of the items from index `i` on at its end.
pub open spec fn json_items(
    doc: TDocView,
    line_number: usize,
    items: Seq<Json>,
    kind: KindView,
    i: int,
    acc: Seq<ValueView>,
) -> Result<Seq<ValueView>, ErrorView>
    decreases items, items.len() - i,
{
    if i < 0 || i >= items.len() {
        Ok(acc)
    } else {
        match json_value(doc, line_number, items[i], kind) {
            Ok(v) => json_items(doc, line_number, items, kind, i + 1, acc.push(v)),
            Err(e) => Err(e),
        }
    }
}

/// `acc` with the values of the fields of a record from place `i` of its
/// order on, each from the item of `row` at its place.
pub open spec fn row_fields(
    doc: TDocView,
    line_number: usize,
    row: Seq<Json>,
    order: Seq<Seq<char>>,
    fields: Seq<(Seq<char>, KindView)>,
    i: int,
    acc: Seq<(Seq<char>, PropertyValueView)>,
) -> Result<Seq<(Seq<char>, PropertyValueView)>, ErrorView>
    decreases order.len() - i,
{
    if i < 0 || i >= order.len() {
        Ok(acc)
    } else {
        match view_lookup(fields, order[i]) {
            None => Err(failure(ErrorKind::NotFound, order[i], doc.name, line_number)),
            Some(kind) => if i < row.len() {
                match json_value(doc, line_number, row[i], kind) {
                    Ok(value) => row_fields(
                        doc,
                        line_number,
                        row,
                        order,
                        fields,
                        i + 1,
                        view_inserted(acc, order[i], PropertyValueView::Value { value }),
                    ),
                    Err(e) => Err(e),
                }
            } else {
                Err(failure(ErrorKind::NotFound, order[i], doc.name, line_number))
            },
        }
    }
}

/// The value of kind `kind` that a row holds: for a record the fields in
/// their declared order, for a string, a number or a truth value the first
/// item.
pub open spec fn row_value(doc: TDocView, line_number: usize, row: Seq<Json>, kind: KindView) -> Result<
    ValueView,
    ErrorView,
> {
    match kind {
        KindView::Record { name, .. } => match doc.get_record(line_number, name) {
            Err(e) => Err(e),
            Ok(record) => match row_fields(
                doc,
                line_number,
                row,
                record.order,
                record.fields,
                0,
                Seq::empty(),
            ) {
                Ok(fields) => Ok(ValueView::Record { name, fields }),
                Err(e) => Err(e),
            },
        },
        _ => if row.len() > 0 && (kind is String || kind is Integer || kind is Decimal
            || kind is Boolean) {
            json_value(doc, line_number, row[0], kind)
        } else {
            Err(malformed(kind.name(), doc.name, line_number))
        },
    }
}

/// The views of rows.
pub open spec fn rows_view(rows: Seq<Vec<Json>>) -> Seq<Seq<Json>> {
    Seq::new(rows.len(), |i: int| rows[i]@)
}

/// `acc` with the values of the rows from index `i` on at its end.
pub open spec fn rows_items(
    doc: TDocView,
    line_number: usize,
    rows: Seq<Seq<Json>>,
    kind: KindView,
    i: int,
    acc: Seq<ValueView>,
) -> Result<Seq<ValueView>, ErrorView>
    decreases rows.len() - i,
{
    if i < 0 || i >= rows.len() {
        Ok(acc)
    } else {
        match row_value(doc, line_number, rows[i], kind) {
            Ok(v) => rows_items(doc, line_number, rows, kind, i + 1, acc.push(v)),
            Err(e) => Err(e),
        }
    }
}

/// The list that rows hold, for a kind that is a list.
pub open spec fn rows_value(doc: TDocView, line_number: usize, rows: Seq<Seq<Json>>, kind: KindView) -> Result<
    ValueView,
    ErrorView,
> {
    match kind {
        KindView::List { kind: item, .. } => match rows_items(
            doc,
            line_number,
            rows,
            *item,
            0,
            Seq::empty(),
        ) {
            Ok(data) => Ok(ValueView::List { data, kind: *item }),
            Err(e) => Err(e),
        },
        _ => Err(malformed(kind.name(), doc.name, line_number)),
    }
}

/// The kind of the variable that a section names or declares: of the
/// variable that the document holds under the section's name, else, where
/// `list` is set, of the list that the section declares, else, where
/// `single` is set, of the variable that it declares.
pub open spec fn section_kind(doc: TDocView, section: Section, list: bool, single: bool) -> Option<
    KindView,
> {
    match doc.get_value(0, section.name@) {
        Ok(v) => Some(v.kind()),
        Err(_) => if list && list_from(doc, section) is Ok {
            Some(list_from(doc, section)->Ok_0.value.kind())
        } else if single && variable_from(doc, section) is Ok {
            Some(variable_from(doc, section)->Ok_0.value.kind())
        } else {
            None
        },
    }
}

fn section_kind_of(doc: &TDoc, section: &Section, list: bool, single: bool) -> (r: Option<Kind>)
    ensures
        crate::duplicate::option_view(r) == section_kind(doc@, *section, list, single),
{
    match doc.get_value(0, section.name.as_str()) {
        Ok(v) => {
            return Some(v.kind());
        },
        Err(_) => {},
    }
    if list {
        match Variable::list_from_p1(section, doc) {
            Ok(v) => {
                return Some(v.value.kind());
            },
            Err(_) => {},
        }
    }
    if single {
        match Variable::from_p1(section, doc) {
            Ok(v) => {
                return Some(v.value.kind());
            },
            Err(_) => {},
        }
    }
    None
}

fn json_fields_of(
    doc: &TDoc,
    line_number: usize,
    members: &OrderedMap<Json>,
    fields: &OrderedMap<Kind>,
) -> (r: Result<OrderedMap<PropertyValue>, Error>)
    ensures
        match r {
            Ok(m) => json_fields(doc@, line_number, members.entries@, fields@, 0, Seq::empty())
                == Ok::<Seq<(Seq<char>, PropertyValueView)>, ErrorView>(m@),
            Err(e) => json_fields(doc@, line_number, members.entries@, fields@, 0, Seq::empty())
                == Err::<Seq<(Seq<char>, PropertyValueView)>, ErrorView>(e@),
        },
    decreases members.entries@, 0nat,
{
    let mut out: OrderedMap<PropertyValue> = OrderedMap::new();
    let n: usize = fields.entries.len();
    let mut i: usize = 0;
    while i < n
        invariant
            n == fields.entries@.len(),
            n == fields@.len(),
            i <= n,
            json_fields(doc@, line_number, members.entries@, fields@, 0, Seq::empty())
                == json_fields(doc@, line_number, members.entries@, fields@, i as int, out@),
        decreases n - i,
    {
        let entry = &fields.entries[i];
        assert(fields@[i as int] == (entry.0@, entry.1@));
        match members.position(entry.0.as_str()) {
            None => {
                proof {
                    crate::ordered_map::lemma_find(keys(members.entries@), entry.0@, 0);
                }
                return fail(ErrorKind::NotFound, entry.0.as_str(), doc.name, line_number);
            },
            Some(at) => match from_json_value(doc, line_number, &members.entries[at].1, &entry.1) {
                Ok(value) => {
                    out.insert(entry.0.clone(), PropertyValue::Value { value });
                },
                Err(e) => {
                    return Err(e);
                },
            },
        }
        i += 1;
    }
    Ok(out)
}

fn json_items_of(doc: &TDoc, line_number: usize, items: &Vec<Json>, kind: &Kind) -> (r: Result<
    Vec<Value>,
    Error,
>)
    ensures
        match r {
            Ok(v) => json_items(doc@, line_number, items@, kind@, 0, Seq::empty()) == Ok::<
                Seq<ValueView>,
                ErrorView,
            >(crate::value::values_view(v@)),
            Err(e) => json_items(doc@, line_number, items@, kind@, 0, Seq::empty()) == Err::<
                Seq<ValueView>,
                ErrorView,
            >(e@),
        },
    decreases items@, 0nat,
{
    let mut out: Vec<Value> = Vec::new();
    let n: usize = items.len();
    let mut i: usize = 0;
    assert(crate::value::values_view(out@) =~= Seq::<ValueView>::empty());
    while i < n
        invariant
            n == items@.len(),
            i <= n,
            json_items(doc@, line_number, items@, kind@, 0, Seq::empty()) == json_items(
                doc@,
                line_number,
                items@,
                kind@,
                i as int,
                crate::value::values_view(out@),
            ),
        decreases n - i,
    {
        match from_json_value(doc, line_number, &items[i], kind) {
            Ok(v) => {
                let ghost before = crate::value::values_view(out@);
                let ghost added = v@;
                out.push(v);
                assert(crate::value::values_view(out@) =~= before.push(added));
            },
            Err(e) => {
                return Err(e);
            },
        }
        i += 1;
    }
    Ok(out)
}

/// The value of kind `kind` that the data `json` holds.
pub fn from_json_value(doc: &TDoc, line_number: usize, json: &Json, kind: &Kind) -> (r: Result<
    Value,
    Error,
>)
    ensures
        agrees(r, json_value(doc@, line_number, *json, kind@)),
    decreases *json, 0nat,
{
    match kind {
        Kind::String { .. } => match json {
            Json::String(s) => Ok(Value::String { text: s.clone(), source: TextSource::Header }),
            _ => fail(ErrorKind::TypeMismatch, kind.name().as_str(), doc.name, line_number),
        },
        Kind::Integer { .. } => match json {
            Json::Number { integer: Some(value), .. } => Ok(Value::Integer { value: *value }),
            _ => fail(ErrorKind::TypeMismatch, kind.name().as_str(), doc.name, line_number),
        },
        Kind::Decimal { .. } => match json {
            Json::Number { text, .. } => Ok(Value::Decimal { value: text.clone() }),
            _ => fail(ErrorKind::TypeMismatch, kind.name().as_str(), doc.name, line_number),
        },
        Kind::Boolean { .. } => match json {
            Json::Bool(value) => Ok(Value::Boolean { value: *value }),
            _ => fail(ErrorKind::TypeMismatch, kind.name().as_str(), doc.name, line_number),
        },
        Kind::Record { name, .. } => match doc.get_record(line_number, name.as_str()) {
            Err(e) => Err(e),
            Ok(record) => match json {
                Json::Object(o) => match json_fields_of(doc, line_number, o, &record.fields) {
                    Ok(fields) => {
                        proof {
                            crate::value::lemma_fields_view(fields.entries@);
                        }
                        Ok(Value::Record { name: name.clone(), fields })
                    },
                    Err(e) => Err(e),
                },
                _ => fail(ErrorKind::TypeMismatch, kind.name().as_str(), doc.name, line_number),
            },
        },
        Kind::List { kind: item, .. } => match json {
            Json::Array(items) => match json_items_of(doc, line_number, items, &**item) {
                Ok(data) => Ok(Value::List { data, kind: (&**item).clone() }),
                Err(e) => Err(e),
            },
            _ => fail(ErrorKind::TypeMismatch, kind.name().as_str(), doc.name, line_number),
        },
        _ => fail(ErrorKind::Malformed, kind.name().as_str(), doc.name, line_number),
    }
}

fn row_fields_of(
    doc: &TDoc,
    line_number: usize,
    row: &Vec<Json>,
    order: &Vec<String>,
    fields: &OrderedMap<Kind>,
) -> (r: Result<OrderedMap<PropertyValue>, Error>)
    ensures
        match r {
            Ok(m) => row_fields(
                doc@,
                line_number,
                row@,
                crate::duplicate::list_view(order@),
                fields@,
                0,
                Seq::empty(),
            ) == Ok::<Seq<(Seq<char>, PropertyValueView)>, ErrorView>(m@),
            Err(e) => row_fields(
                doc@,
                line_number,
                row@,
                crate::duplicate::list_view(order@),
                fields@,
                0,
                Seq::empty(),
            ) == Err::<Seq<(Seq<char>, PropertyValueView)>, ErrorView>(e@),
        },
{
    let mut out: OrderedMap<PropertyValue> = OrderedMap::new();
    let n: usize = order.len();
    let mut i: usize = 0;
    while i < n
        invariant
            n == order@.len(),
            i <= n,
            row_fields(
                doc@,
                line_number,
                row@,
                crate::duplicate::list_view(order@),
                fields@,
                0,
                Seq::empty(),
            ) == row_fields(
                doc@,
                line_number,
                row@,
                crate::duplicate::list_view(order@),
                fields@,
                i as int,
                out@,
            ),
        decreases n - i,
    {
        let key = &order[i];
        assert(crate::duplicate::list_view(order@)[i as int] == key@);
        match fields.get(key.as_str()) {
            None => {
                return fail(ErrorKind::NotFound, key.as_str(), doc.name, line_number);
            },
            Some(kind) => {
                if i >= row.len() {
                    return fail(ErrorKind::NotFound, key.as_str(), doc.name, line_number);
                }
                match from_json_value(doc, line_number, &row[i], kind) {
                    Ok(value) => {
                        out.insert(key.clone(), PropertyValue::Value { value });
                    },
                    Err(e) => {
                        return Err(e);
                    },
                }
            },
        }
        i += 1;
    }
    Ok(out)
}

/// The value of kind `kind` that a row holds.
pub fn from_json_row_value(doc: &TDoc, line_number: usize, row: &Vec<Json>, kind: &Kind) -> (r:
    Result<Value, Error>)
    ensures
        agrees(r, row_value(doc@, line_number, row@, kind@)),
{
    match kind {
        Kind::Record { name, .. } => match doc.get_record(line_number, name.as_str()) {
            Err(e) => Err(e),
            Ok(record) => match row_fields_of(doc, line_number, row, &record.order, &record.fields) {
                Ok(fields) => {
                    proof {
                        crate::value::lemma_fields_view(fields.entries@);
                    }
                    Ok(Value::Record { name: name.clone(), fields })
                },
                Err(e) => Err(e),
            },
        },
        Kind::String { .. } | Kind::Integer { .. } | Kind::Decimal { .. } | Kind::Boolean { .. } => {
            if row.len() > 0 {
                from_json_value(doc, line_number, &row[0], kind)
            } else {
                fail(ErrorKind::Malformed, kind.name().as_str(), doc.name, line_number)
            }
        },
        _ => fail(ErrorKind::Malformed, kind.name().as_str(), doc.name, line_number),
    }
}

/// The list that rows hold, for a kind that is a list.
pub fn from_json_rows_value(doc: &TDoc, line_number: usize, rows: &Vec<Vec<Json>>, kind: &Kind) -> (r:
    Result<Value, Error>)
    ensures
        agrees(r, rows_value(doc@, line_number, rows_view(rows@), kind@)),
{
    match kind {
        Kind::List { kind: item, .. } => {
            let mut data: Vec<Value> = Vec::new();
            let n: usize = rows.len();
            let mut i: usize = 0;
            assert(crate::value::values_view(data@) =~= Seq::<ValueView>::empty());
            while i < n
                invariant
                    n == rows@.len(),
                    i <= n,
                    kind@ is List,
                    item@ == *kind@->List_kind,
                    rows_items(
                        doc@,
                        line_number,
                        rows_view(rows@),
                        item@,
                        0,
                        Seq::empty(),
                    ) == rows_items(
                        doc@,
                        line_number,
                        rows_view(rows@),
                        item@,
                        i as int,
                        crate::value::values_view(data@),
                    ),
                decreases n - i,
            {
                assert(rows_view(rows@)[i as int] == rows@[i as int]@);
                match from_json_row_value(doc, line_number, &rows[i], &**item) {
                    Ok(v) => {
                        let ghost before = crate::value::values_view(data@);
                        let ghost added = v@;
                        data.push(v);
                        assert(crate::value::values_view(data@) =~= before.push(added));
                    },
                    Err(e) => {
                        return Err(e);
                    },
                }
                i += 1;
            }
            Ok(Value::List { data, kind: (&**item).clone() })
        },
        _ => fail(ErrorKind::Malformed, kind.name().as_str(), doc.name, line_number),
    }
}

impl<'a> TDoc<'a> {
    /// The value that the data `json` holds for the variable that the
    /// section names or declares.
    pub fn from_json(&self, json: &Json, section: &Section) -> (r: Result<Value, Error>)
        ensures
            agrees(
                r,
                match section_kind(self@, *section, true, true) {
                    Some(kind) => json_value(self@, section.line_number, *json, kind),
                    None => Err(malformed(section.name@, self@.name, section.line_number)),
                },
            ),
    {
        match section_kind_of(self, section, true, true) {
            Some(kind) => from_json_value(self, section.line_number, json, &kind),
            None => fail(
                ErrorKind::Malformed,
                section.name.as_str(),
                self.name,
                section.line_number,
            ),
        }
    }

    /// The list that `rows` hold for the list that the section names or
    /// declares.
    pub fn from_json_rows(&self, section: &Section, rows: &Vec<Vec<Json>>) -> (r: Result<
        Value,
        Error,
    >)
        ensures
            agrees(
                r,
                match section_kind(self@, *section, true, false) {
                    Some(kind) => rows_value(self@, section.line_number, rows_view(rows@), kind),
                    None => Err(malformed(section.name@, self@.name, section.line_number)),
                },
            ),
    {
        match section_kind_of(self, section, true, false) {
            Some(kind) => from_json_rows_value(self, section.line_number, rows, &kind),
            None => fail(
                ErrorKind::Malformed,
                section.name.as_str(),
                self.name,
                section.line_number,
            ),
        }
    }

    /// The value that `row` holds for the variable that the section names
    /// or declares.
    pub fn from_json_row(&self, section: &Section, row: &Vec<Json>) -> (r: Result<Value, Error>)
        ensures
            agrees(
                r,
                match section_kind(self@, *section, false, true) {
                    Some(kind) => row_value(self@, section.line_number, row@, kind),
                    None => Err(malformed(section.name@, self@.name, section.line_number)),
                },
            ),
    {
        match section_kind_of(self, section, false, true) {
            Some(kind) => from_json_row_value(self, section.line_number, row, &kind),
            None => fail(
                ErrorKind::Malformed,
                section.name.as_str(),
                self.name,
                section.line_number,
            ),
        }
    }
}

} // verus!
