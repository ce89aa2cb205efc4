//! Values as text.

use crate::kind::text_view;
use crate::number::signed_decimal;
use crate::ordered_map::{view_inserted, OrderedMap};
use crate::value::{PropertyValue, PropertyValueView, Value, ValueView};
use vstd::prelude::*;

verus! {

/// The text that `serde_json::to_string` writes for a map from strings to
/// strings with the entries `members`.
pub uninterp spec fn json_text_of(members: Seq<(Seq<char>, Seq<char>)>) -> Seq<char>;

/// `serde_json::to_string` on a map from strings to strings. The contract
/// claims that it gives a text, and names the text `json_text_of` of the
/// entries. It gives one because the call can fail only where a value
/// refuses to be serialized, where a key is no string, or where the writer
/// fails, and here the values and keys are strings and the writer is a
/// vector in memory.
#[verifier::external_body]
fn serialize_members(members: &OrderedMap<String>) -> (r: Option<String>)
    ensures
        r is Some,
        r->Some_0@ == json_text_of(members@),
{
    let map: std::collections::BTreeMap<&str, &str> = members.entries.iter().map(
        |e| (e.0.as_str(), e.1.as_str()),
    ).collect();
    serde_json::to_string(&map).ok()
}

/// `acc` with the texts of the members from index `i` on that are literals
/// and have a text, each under its name.
pub open spec fn member_texts(
    values: Seq<(Seq<char>, PropertyValueView)>,
    i: int,
    acc: Seq<(Seq<char>, Seq<char>)>,
) -> Seq<(Seq<char>, Seq<char>)>
    decreases values, values.len() - i,
{
    if i < 0 || i >= values.len() {
        acc
    } else {
        match values[i].1 {
            PropertyValueView::Value { value } => match value.text() {
                Some(t) => member_texts(values, i + 1, view_inserted(acc, values[i].0, t)),
                None => member_texts(values, i + 1, acc),
            },
            _ => member_texts(values, i + 1, acc),
        }
    }
}

impl ValueView {
    /// The value as text: a string is its text, a number its notation, a
    /// truth value `true` or `false`, an optional value the text of what it
    /// holds or the empty text, an object the JSON text of its members.
    /// Other values have no text.
    pub open spec fn text(self) -> Option<Seq<char>>
        decreases self, 0nat,
    {
        match self {
            ValueView::String { text, .. } => Some(text),
            ValueView::Integer { value } => Some(signed_decimal(value as int)),
            ValueView::Decimal { value } => Some(value),
            ValueView::Boolean { value } => Some(
                if value {
                    "true"@
                } else {
                    "false"@
                },
            ),
            ValueView::Optional { data, .. } => match data {
                Some(inner) => inner.text(),
                None => Some(Seq::empty()),
            },
            ValueView::Object { values } => Some(
                json_text_of(member_texts(values, 0, Seq::empty())),
            ),
            _ => None,
        }
    }
}

fn member_texts_of(values: &OrderedMap<PropertyValue>) -> (r: OrderedMap<String>)
    ensures
        r@ == member_texts(crate::value::fields_view(values.entries@), 0, Seq::empty()),
    decreases values.entries@, 0nat,
{
    let mut out: OrderedMap<String> = OrderedMap::new();
    let n: usize = values.entries.len();
    let mut i: usize = 0;
    while i < n
        invariant
            n == values.entries@.len(),
            i <= n,
            member_texts(crate::value::fields_view(values.entries@), 0, Seq::empty())
                == member_texts(crate::value::fields_view(values.entries@), i as int, out@),
        decreases n - i,
    {
        let entry = &values.entries[i];
        match &entry.1 {
            PropertyValue::Value { value } => match value.to_string() {
                Some(t) => {
                    out.insert(entry.0.clone(), t);
                },
                None => {},
            },
            _ => {},
        }
        i += 1;
    }
    out
}

impl Value {
    /// The value as text.
    pub fn to_string(&self) -> (r: Option<String>)
        ensures
            text_view(r) == self@.text(),
        decreases self, 0nat,
    {
        match self {
            Value::String { text, .. } => Some(text.clone()),
            Value::Integer { value } => Some(crate::number::integer_text(*value)),
            Value::Decimal { value } => Some(value.clone()),
            Value::Boolean { value } => Some(
                if *value {
                    "true".to_owned()
                } else {
                    "false".to_owned()
                },
            ),
            Value::Optional { data, .. } => match &**data {
                Some(inner) => inner.to_string(),
                None => Some(String::new()),
            },
            Value::Object { values } => {
                let members = member_texts_of(values);
                serialize_members(&members)
            },
            _ => None,
        }
    }
}

} // verus!
