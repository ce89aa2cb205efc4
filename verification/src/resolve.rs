//! Evaluation: from a property value, the arguments of a call and the
//! global table to a value.

use crate::error::{agrees, agrees_plain, fail, failure, Error, ErrorKind, ErrorView};
use crate::kind::{Kind, KindView};
use crate::number::{boolean_of, integer_of, is_decimal};
use crate::ordered_map::{view_lookup, OrderedMap};
use crate::tdoc::{TDoc, TDocView};
use crate::text::{has_char, split_once, trim};
use crate::thing::{conditions_view, Boolean, BooleanView, ThingView};
use crate::value::{
    fields_view, PropertyValue, PropertyValueView, TextSource, Value, ValueView,
};
use vstd::prelude::*;

verus! {

/// The failure that declarations refer to one another in a circle.
pub open spec fn circle(doc: Seq<char>, line_number: usize) -> ErrorView {
    failure(
        ErrorKind::Circular,
        "declarations refer to one another in a circle"@,
        doc,
        line_number,
    )
}

/// Whether an outcome is the failure of a circle.
pub open spec fn is_circle<T>(r: Result<T, ErrorView>) -> bool {
    r is Err && r->Err_0.kind == ErrorKind::Circular
}

/// What the arguments from index `i` on can be entered through: each
/// argument once, and each field of an argument that is a record once.
pub open spec fn argument_weight(args: Seq<(Seq<char>, ValueView)>, i: int) -> nat
    decreases args.len() - i,
{
    if i < 0 || i >= args.len() {
        0
    } else {
        1 + (match args[i].1 {
            ValueView::Record { fields, .. } => fields.len(),
            _ => 0,
        }) + argument_weight(args, i + 1)
    }
}

/// What the declarations from index `i` on can be entered through: each
/// declaration once, and each field of a variable that holds a record or a
/// variant of an or-type once.
pub open spec fn declaration_weight(bag: Seq<(Seq<char>, ThingView)>, i: int) -> nat
    decreases bag.len() - i,
{
    if i < 0 || i >= bag.len() {
        0
    } else {
        1 + (match bag[i].1 {
            ThingView::Variable(v) => match v.value {
                ValueView::Record { fields, .. } => fields.len(),
                ValueView::OrType { fields, .. } => fields.len(),
                _ => 0,
            },
            _ => 0,
        }) + declaration_weight(bag, i + 1)
    }
}

/// A number of steps, kept below what the machine can count.
pub open spec fn capped(n: nat) -> nat {
    if n >= usize::MAX {
        (usize::MAX - 1) as nat
    } else {
        n
    }
}

/// How many times the evaluation of a condition may go from what it
/// evaluates into a declaration of the table, into a field of one, into an
/// argument or into a field of an argument. An evaluation that enters none
/// of them while it is in the middle of it needs no more: it has one step
/// for each declaration, each argument and each field. Only an evaluation
/// that comes back to what it is in the middle of, a circle, runs out of
/// steps. The evaluation of a property has one step more, for the
/// declaration that it may name itself.
pub open spec fn budget(doc: TDocView, args: Seq<(Seq<char>, ValueView)>) -> nat {
    capped(declaration_weight(doc.bag, 0) + argument_weight(args, 0))
}

/// The two parts of `s` around its first `c`, each without the white space
/// at its ends.
pub open spec fn split_trimmed(s: Seq<char>, c: char) -> Option<(Seq<char>, Seq<char>)> {
    match split_once(s, c) {
        Some((a, b)) => Some((trim(a), trim(b))),
        None => None,
    }
}

/// The two parts of `s` around its first `c`, trimmed.
pub fn split_trimmed_str<'a>(s: &'a str, c: char) -> (r: Option<(&'a str, &'a str)>)
    ensures
        match r {
            Some((a, b)) => split_trimmed(s@, c) == Some((a@, b@)),
            None => split_trimmed(s@, c) is None,
        },
{
    match crate::text::split_once_char(s, c) {
        Some((a, b)) => Some((crate::text::trim_str(a), crate::text::trim_str(b))),
        None => None,
    }
}

/// The value that a kind stands for where none is given: its default, read
/// as the kind asks; for a list or a map the empty one; for an optional kind
/// the value of what it is optional of, where that has one.
pub open spec fn kind_to_value(kind: KindView, line_number: usize, doc: Seq<char>) -> Result<
    ValueView,
    ErrorView,
>
    decreases kind,
{
    match kind {
        KindView::String { default: Some(d), .. } => Ok(
            ValueView::String { text: d, source: TextSource::Default },
        ),
        KindView::Integer { default: Some(d) } => match integer_of(d) {
            Some(value) => Ok(ValueView::Integer { value }),
            None => Err(failure(ErrorKind::TypeMismatch, d, doc, line_number)),
        },
        KindView::Decimal { default: Some(d) } => if is_decimal(d) {
            Ok(ValueView::Decimal { value: d })
        } else {
            Err(failure(ErrorKind::TypeMismatch, d, doc, line_number))
        },
        KindView::Boolean { default: Some(d) } => match boolean_of(d) {
            Some(value) => Ok(ValueView::Boolean { value }),
            None => Err(failure(ErrorKind::TypeMismatch, d, doc, line_number)),
        },
        KindView::Optional { kind } => match kind_to_value(*kind, line_number, doc) {
            Ok(v) => Ok(ValueView::Optional { data: Some(Box::new(v)), kind: *kind }),
            Err(_) => Ok(ValueView::Optional { data: None, kind: *kind }),
        },
        KindView::List { kind, .. } => Ok(ValueView::List { data: Seq::empty(), kind: *kind }),
        KindView::Mapping { kind } => Ok(ValueView::Mapping { data: Seq::empty(), kind: *kind }),
        _ => Err(failure(ErrorKind::Malformed, "the kind has no default value"@, doc, line_number)),
    }
}

impl Kind {
    /// The value that the kind stands for where none is given.
    pub fn to_value(&self, line_number: usize, doc_id: &str) -> (r: Result<Value, Error>)
        ensures
            agrees(r, kind_to_value(self@, line_number, doc_id@)),
        decreases self,
    {
        match self {
            Kind::String { default: Some(d), .. } => Ok(
                Value::String { text: d.clone(), source: TextSource::Default },
            ),
            Kind::Integer { default: Some(d) } => match crate::number::parse_integer(d.as_str()) {
                Some(value) => Ok(Value::Integer { value }),
                None => fail(ErrorKind::TypeMismatch, d.as_str(), doc_id, line_number),
            },
            Kind::Decimal { default: Some(d) } => if crate::number::is_decimal_literal(d.as_str()) {
                Ok(Value::Decimal { value: d.clone() })
            } else {
                fail(ErrorKind::TypeMismatch, d.as_str(), doc_id, line_number)
            },
            Kind::Boolean { default: Some(d) } => match crate::number::parse_boolean(d.as_str()) {
                Some(value) => Ok(Value::Boolean { value }),
                None => fail(ErrorKind::TypeMismatch, d.as_str(), doc_id, line_number),
            },
            Kind::Optional { kind } => match (&**kind).to_value(line_number, doc_id) {
                Ok(v) => Ok(
                    Value::Optional { data: Box::new(Some(v)), kind: (&**kind).clone() },
                ),
                Err(_) => Ok(Value::Optional { data: Box::new(None), kind: (&**kind).clone() }),
            },
            Kind::List { kind, .. } => {
                let data: Vec<Value> = Vec::new();
                assert(crate::value::values_view(data@) =~= Seq::<ValueView>::empty());
                Ok(Value::List { data, kind: (&**kind).clone() })
            },
            Kind::Mapping { kind } => {
                let data: OrderedMap<Value> = OrderedMap::new();
                assert(crate::value::mapping_view(data.entries@) =~= Seq::<
                    (Seq<char>, ValueView),
                >::empty());
                Ok(Value::Mapping { data, kind: (&**kind).clone() })
            },
            _ => fail(ErrorKind::Malformed, "the kind has no default value", doc_id, line_number),
        }
    }
}

/// The value of a property under the arguments `args` of a call, in the
/// document `doc`, with `hops` steps left.
///
/// A literal is its value. A variable is the argument of its name, or, for
/// `record.field`, the value of that field of the argument; where the
/// argument is missing it is the value of its kind, nothing for an optional
/// kind, and a failure otherwise. A reference is the value of the variable
/// it names, or of the last of its conditions that holds; the name of a
/// component gives the component as a value. An object has each of its
/// properties evaluated in turn.
///
/// Within a value and within a condition the evaluation goes as deep as they
/// are. Only where it leaves them, for a declaration, an argument that is an
/// object, or a field of an argument, it takes a step; without a step left
/// it fails, as a circle.
pub open spec fn resolve(
    p: PropertyValueView,
    line_number: usize,
    args: Seq<(Seq<char>, ValueView)>,
    doc: TDocView,
    hops: nat,
) -> Result<ValueView, ErrorView>
    decreases hops, 0nat, p, 0nat,
{
    match p {
        PropertyValueView::Value { value } => settle(value, line_number, args, doc, hops),
        PropertyValueView::Variable { name, kind } => match split_trimmed(name, '.') {
            Some((record, field)) => match view_lookup(args, record) {
                Some(ValueView::Record { fields, .. }) => match view_lookup(fields, field) {
                    Some(inner) => if hops == 0 {
                        Err(circle(doc.name, line_number))
                    } else {
                        resolve(inner, line_number, args, doc, (hops - 1) as nat)
                    },
                    None => Err(failure(ErrorKind::NotFound, field, doc.name, line_number)),
                },
                Some(_) => Err(failure(ErrorKind::TypeMismatch, record, doc.name, line_number)),
                None => Err(failure(ErrorKind::NotFound, record, doc.name, line_number)),
            },
            None => match view_lookup(args, name) {
                Some(v) => if v is Object {
                    if hops == 0 {
                        Err(circle(doc.name, line_number))
                    } else {
                        settle(v, line_number, args, doc, (hops - 1) as nat)
                    }
                } else {
                    Ok(v)
                },
                None => match kind_to_value(kind, line_number, doc.name) {
                    Ok(v) => Ok(v),
                    Err(_) => if kind is Optional {
                        Ok(ValueView::Nothing { kind })
                    } else {
                        Err(failure(ErrorKind::Malformed, name, doc.name, line_number))
                    },
                },
            },
        },
        PropertyValueView::Reference { name, kind } => match doc.get_value_and_conditions_with_root(
            0,
            name,
            None,
        ) {
            Ok((base, conditions)) => if hops == 0 {
                Err(circle(doc.name, line_number))
            } else {
                match pick(conditions, base, 0, line_number, args, doc, (hops - 1) as nat) {
                    Ok(v) => settle(v, line_number, args, doc, (hops - 1) as nat),
                    Err(e) => Err(e),
                }
            },
            Err(_) => match doc.get_component(0, name) {
                Ok(c) => Ok(c.to_value(kind)),
                Err(_) => kind_to_value(kind, line_number, doc.name),
            },
        },
    }
}

/// `value`, with each property evaluated if it is an object.
pub open spec fn settle(
    value: ValueView,
    line_number: usize,
    args: Seq<(Seq<char>, ValueView)>,
    doc: TDocView,
    hops: nat,
) -> Result<ValueView, ErrorView>
    decreases hops, 0nat, value, 0nat,
{
    match value {
        ValueView::Object { values } => match resolve_all(
            values,
            0,
            Seq::empty(),
            line_number,
            args,
            doc,
            hops,
        ) {
            Ok(values) => Ok(ValueView::Object { values }),
            Err(e) => Err(e),
        },
        other => Ok(other),
    }
}

/// `acc` with the properties from index `i` on, each under its name and
/// evaluated, in order; the first failure ends it.
pub open spec fn resolve_all(
    values: Seq<(Seq<char>, PropertyValueView)>,
    i: int,
    acc: Seq<(Seq<char>, PropertyValueView)>,
    line_number: usize,
    args: Seq<(Seq<char>, ValueView)>,
    doc: TDocView,
    hops: nat,
) -> Result<Seq<(Seq<char>, PropertyValueView)>, ErrorView>
    decreases hops, 0nat, values, values.len() - i,
{
    if i < 0 || i >= values.len() {
        Ok(acc)
    } else {
        match resolve(values[i].1, line_number, args, doc, hops) {
            Ok(v) => resolve_all(
                values,
                i + 1,
                acc.push((values[i].0, PropertyValueView::Value { value: v })),
                line_number,
                args,
                doc,
                hops,
            ),
            Err(e) => Err(e),
        }
    }
}

/// The value that the conditions from index `i` on leave of `current`: each
/// condition that holds puts its value in place of the one before, so the
/// last that holds decides. A condition that cannot be evaluated fails the
/// whole.
pub open spec fn pick(
    conditions: Seq<(BooleanView, ValueView)>,
    current: ValueView,
    i: int,
    line_number: usize,
    args: Seq<(Seq<char>, ValueView)>,
    doc: TDocView,
    hops: nat,
) -> Result<ValueView, ErrorView>
    decreases hops, 2nat, conditions, conditions.len() - i,
{
    if i < 0 || i >= conditions.len() {
        Ok(current)
    } else {
        match eval(conditions[i].0, line_number, args, doc, hops) {
            Ok(true) => pick(conditions, conditions[i].1, i + 1, line_number, args, doc, hops),
            Ok(false) => pick(conditions, current, i + 1, line_number, args, doc, hops),
            Err(e) => Err(e),
        }
    }
}

/// Whether a condition holds.
pub open spec fn eval(
    b: BooleanView,
    line_number: usize,
    args: Seq<(Seq<char>, ValueView)>,
    doc: TDocView,
    hops: nat,
) -> Result<bool, ErrorView>
    decreases hops, 1nat, b, 0nat,
{
    match b {
        BooleanView::Literal { value } => Ok(value),
        BooleanView::IsNotNull { value } => match resolve(value, line_number, args, doc, hops) {
            Ok(v) => Ok(!v.is_null()),
            Err(e) => Err(e),
        },
        BooleanView::IsNull { value } => match resolve(value, line_number, args, doc, hops) {
            Ok(v) => Ok(v.is_null()),
            Err(e) => Err(e),
        },
        BooleanView::IsNotEmpty { value } => match resolve(value, line_number, args, doc, hops) {
            Ok(v) => Ok(!v.is_empty()),
            Err(e) => Err(e),
        },
        BooleanView::IsEmpty { value } => match resolve(value, line_number, args, doc, hops) {
            Ok(v) => Ok(v.is_empty()),
            Err(e) => Err(e),
        },
        BooleanView::Equal { left, right } => match resolve(left, line_number, args, doc, hops) {
            Ok(l) => match resolve(right, line_number, args, doc, hops) {
                Ok(r) => Ok(l.is_equal(r)),
                Err(e) => Err(e),
            },
            Err(e) => Err(e),
        },
        BooleanView::NotEqual { left, right } => match resolve(left, line_number, args, doc, hops) {
            Ok(l) => match resolve(right, line_number, args, doc, hops) {
                Ok(r) => Ok(!l.is_equal(r)),
                Err(e) => Err(e),
            },
            Err(e) => Err(e),
        },
        BooleanView::Not { of } => match eval(*of, line_number, args, doc, hops) {
            Ok(holds) => Ok(!holds),
            Err(e) => Err(e),
        },
    }
}

fn circle_error<T>(doc: &TDoc, line_number: usize) -> (r: Result<T, Error>)
    ensures
        r is Err,
        r->Err_0@ == circle(doc@.name, line_number),
{
    fail(
        ErrorKind::Circular,
        "declarations refer to one another in a circle",
        doc.name,
        line_number,
    )
}

fn more_steps(acc: usize, fields: usize, Ghost(sum): Ghost<nat>) -> (r: usize)
    requires
        acc == capped(sum),
    ensures
        r == capped(sum + 1 + fields as nat),
{
    let step: usize = if fields == usize::MAX {
        usize::MAX
    } else {
        fields + 1
    };
    if acc >= usize::MAX - step {
        usize::MAX - 1
    } else {
        acc + step
    }
}

/// The steps that the evaluation of a condition in `doc` under `arguments`
/// has.
pub fn budget_of(doc: &TDoc, arguments: &OrderedMap<Value>) -> (r: usize)
    ensures
        r == budget(doc@, arguments@),
{
    let mut acc: usize = 0;
    let ghost mut sum: nat = 0;
    let m: usize = doc.bag.entries.len();
    let mut j: usize = 0;
    while j < m
        invariant
            m == doc.bag.entries@.len(),
            m == doc@.bag.len(),
            j <= m,
            declaration_weight(doc@.bag, 0) == sum + declaration_weight(doc@.bag, j as int),
            acc == capped(sum),
        decreases m - j,
    {
        let fields: usize = match &doc.bag.entries[j].1 {
            crate::thing::Thing::Variable(v) => match &v.value {
                Value::Record { fields, .. } => fields.entries.len(),
                Value::OrType { fields, .. } => fields.entries.len(),
                _ => 0,
            },
            _ => 0,
        };
        proof {
            assert(doc@.bag[j as int].1 == doc.bag.entries@[j as int].1@);
            match doc.bag.entries@[j as int].1 {
                crate::thing::Thing::Variable(v) => match v.value {
                    Value::Record { fields: held, .. } => {
                        assert(fields_view(held.entries@).len() == held.entries@.len());
                    },
                    Value::OrType { fields: held, .. } => {
                        assert(fields_view(held.entries@).len() == held.entries@.len());
                    },
                    _ => {},
                },
                _ => {},
            }
            assert(declaration_weight(doc@.bag, j as int) == 1 + fields as nat
                + declaration_weight(doc@.bag, j + 1));
        }
        acc = more_steps(acc, fields, Ghost(sum));
        proof {
            sum = sum + 1 + fields as nat;
        }
        j += 1;
    }
    let ghost declared = sum;
    let n: usize = arguments.entries.len();
    let mut i: usize = 0;
    while i < n
        invariant
            n == arguments.entries@.len(),
            n == arguments@.len(),
            i <= n,
            declared == declaration_weight(doc@.bag, 0),
            argument_weight(arguments@, 0) + declared == sum + argument_weight(
                arguments@,
                i as int,
            ),
            acc == capped(sum),
        decreases n - i,
    {
        let fields: usize = match &arguments.entries[i].1 {
            Value::Record { fields, .. } => fields.entries.len(),
            _ => 0,
        };
        proof {
            assert(arguments@[i as int].1 == arguments.entries@[i as int].1@);
            match arguments.entries@[i as int].1 {
                Value::Record { fields: held, .. } => {
                    assert(fields_view(held.entries@).len() == held.entries@.len());
                },
                _ => {},
            }
            assert(argument_weight(arguments@, i as int) == 1 + fields as nat + argument_weight(
                arguments@,
                i + 1,
            ));
        }
        acc = more_steps(acc, fields, Ghost(sum));
        proof {
            sum = sum + 1 + fields as nat;
        }
        i += 1;
    }
    acc
}

fn settle_within(
    value: &Value,
    line_number: usize,
    arguments: &OrderedMap<Value>,
    doc: &TDoc,
    hops: usize,
) -> (r: Result<Value, Error>)
    ensures
        agrees(r, settle(value@, line_number, arguments@, doc@, hops as nat)),
    decreases hops, 0nat, value, 0nat,
{
    match value {
        Value::Object { values } => match resolve_all_within(
            values,
            line_number,
            arguments,
            doc,
            hops,
        ) {
            Ok(values) => Ok(Value::Object { values }),
            Err(e) => Err(e),
        },
        other => Ok(other.clone()),
    }
}

fn resolve_all_within(
    values: &OrderedMap<PropertyValue>,
    line_number: usize,
    arguments: &OrderedMap<Value>,
    doc: &TDoc,
    hops: usize,
) -> (r: Result<OrderedMap<PropertyValue>, Error>)
    ensures
        match r {
            Ok(v) => resolve_all(
                fields_view(values.entries@),
                0,
                Seq::empty(),
                line_number,
                arguments@,
                doc@,
                hops as nat,
            ) == Ok::<Seq<(Seq<char>, PropertyValueView)>, ErrorView>(fields_view(v.entries@)),
            Err(e) => resolve_all(
                fields_view(values.entries@),
                0,
                Seq::empty(),
                line_number,
                arguments@,
                doc@,
                hops as nat,
            ) == Err::<Seq<(Seq<char>, PropertyValueView)>, ErrorView>(e@),
        },
    decreases hops, 0nat, values, 0nat,
{
    let ghost all = fields_view(values.entries@);
    let mut out: Vec<(String, PropertyValue)> = Vec::new();
    let n: usize = values.entries.len();
    let mut i: usize = 0;
    assert(fields_view(out@) =~= Seq::<(Seq<char>, PropertyValueView)>::empty());
    while i < n
        invariant
            n == values.entries@.len(),
            i <= n,
            all == fields_view(values.entries@),
            resolve_all(all, 0, Seq::empty(), line_number, arguments@, doc@, hops as nat)
                == resolve_all(
                all,
                i as int,
                fields_view(out@),
                line_number,
                arguments@,
                doc@,
                hops as nat,
            ),
        decreases n - i,
    {
        let ghost before = fields_view(out@);
        match resolve_within(&values.entries[i].1, line_number, arguments, doc, hops) {
            Ok(v) => {
                let ghost resolved = v@;
                out.push((values.entries[i].0.clone(), PropertyValue::Value { value: v }));
                proof {
                    assert(fields_view(out@) =~= before.push(
                        (all[i as int].0, PropertyValueView::Value { value: resolved }),
                    ));
                }
            },
            Err(e) => {
                return Err(e);
            },
        }
        i += 1;
    }
    Ok(OrderedMap { entries: out })
}

fn pick_within(
    conditions: &Vec<(Boolean, Value)>,
    base: Value,
    line_number: usize,
    arguments: &OrderedMap<Value>,
    doc: &TDoc,
    hops: usize,
) -> (r: Result<Value, Error>)
    ensures
        agrees(
            r,
            pick(
                conditions_view(conditions@),
                base@,
                0,
                line_number,
                arguments@,
                doc@,
                hops as nat,
            ),
        ),
    decreases hops, 2nat, conditions, 0nat,
{
    let mut current = base;
    let n: usize = conditions.len();
    let mut i: usize = 0;
    while i < n
        invariant
            n == conditions@.len(),
            i <= n,
            pick(
                conditions_view(conditions@),
                base@,
                0,
                line_number,
                arguments@,
                doc@,
                hops as nat,
            ) == pick(
                conditions_view(conditions@),
                current@,
                i as int,
                line_number,
                arguments@,
                doc@,
                hops as nat,
            ),
        decreases n - i,
    {
        match eval_within(&conditions[i].0, line_number, arguments, doc, hops) {
            Ok(true) => {
                current = conditions[i].1.clone();
            },
            Ok(false) => {},
            Err(e) => {
                return Err(e);
            },
        }
        i += 1;
    }
    Ok(current)
}

fn eval_within(
    b: &Boolean,
    line_number: usize,
    arguments: &OrderedMap<Value>,
    doc: &TDoc,
    hops: usize,
) -> (r: Result<bool, Error>)
    ensures
        agrees_plain(r, eval(b@, line_number, arguments@, doc@, hops as nat)),
    decreases hops, 1nat, b, 0nat,
{
    match b {
        Boolean::Literal { value } => Ok(*value),
        Boolean::IsNotNull { value } => match resolve_within(
            value,
            line_number,
            arguments,
            doc,
            hops,
        ) {
            Ok(v) => Ok(!v.is_null()),
            Err(e) => Err(e),
        },
        Boolean::IsNull { value } => match resolve_within(value, line_number, arguments, doc, hops) {
            Ok(v) => Ok(v.is_null()),
            Err(e) => Err(e),
        },
        Boolean::IsNotEmpty { value } => match resolve_within(
            value,
            line_number,
            arguments,
            doc,
            hops,
        ) {
            Ok(v) => Ok(!v.is_empty()),
            Err(e) => Err(e),
        },
        Boolean::IsEmpty { value } => match resolve_within(
            value,
            line_number,
            arguments,
            doc,
            hops,
        ) {
            Ok(v) => Ok(v.is_empty()),
            Err(e) => Err(e),
        },
        Boolean::Equal { left, right } => match resolve_within(
            left,
            line_number,
            arguments,
            doc,
            hops,
        ) {
            Ok(l) => match resolve_within(right, line_number, arguments, doc, hops) {
                Ok(r) => Ok(l.is_equal(&r)),
                Err(e) => Err(e),
            },
            Err(e) => Err(e),
        },
        Boolean::NotEqual { left, right } => match resolve_within(
            left,
            line_number,
            arguments,
            doc,
            hops,
        ) {
            Ok(l) => match resolve_within(right, line_number, arguments, doc, hops) {
                Ok(r) => Ok(!l.is_equal(&r)),
                Err(e) => Err(e),
            },
            Err(e) => Err(e),
        },
        Boolean::Not { of } => match eval_within(&**of, line_number, arguments, doc, hops) {
            Ok(holds) => Ok(!holds),
            Err(e) => Err(e),
        },
    }
}

fn resolve_within(
    p: &PropertyValue,
    line_number: usize,
    arguments: &OrderedMap<Value>,
    doc: &TDoc,
    hops: usize,
) -> (r: Result<Value, Error>)
    ensures
        agrees(r, resolve(p@, line_number, arguments@, doc@, hops as nat)),
    decreases hops, 0nat, p, 0nat,
{
    proof {
        crate::value::lemma_mapping_view(arguments.entries@);
    }
    match p {
        PropertyValue::Value { value } => settle_within(value, line_number, arguments, doc, hops),
        PropertyValue::Variable { name, kind } => match split_trimmed_str(name.as_str(), '.') {
            Some((record, field)) => match arguments.get(record) {
                Some(Value::Record { fields, .. }) => {
                    proof {
                        crate::value::lemma_fields_view(fields.entries@);
                    }
                    match fields.get(field) {
                        Some(inner) => if hops == 0 {
                            circle_error(doc, line_number)
                        } else {
                            resolve_within(inner, line_number, arguments, doc, hops - 1)
                        },
                        None => fail(ErrorKind::NotFound, field, doc.name, line_number),
                    }
                },
                Some(_) => fail(ErrorKind::TypeMismatch, record, doc.name, line_number),
                None => fail(ErrorKind::NotFound, record, doc.name, line_number),
            },
            None => match arguments.get(name.as_str()) {
                Some(v) => match v {
                    Value::Object { .. } => if hops == 0 {
                        circle_error(doc, line_number)
                    } else {
                        settle_within(v, line_number, arguments, doc, hops - 1)
                    },
                    other => Ok(other.clone()),
                },
                None => match kind.to_value(line_number, doc.name) {
                    Ok(v) => Ok(v),
                    Err(_) => if kind.is_optional() {
                        Ok(Value::Nothing { kind: kind.clone() })
                    } else {
                        fail(ErrorKind::Malformed, name.as_str(), doc.name, line_number)
                    },
                },
            },
        },
        PropertyValue::Reference { name, kind } => match doc.get_value_and_conditions_with_root(
            0,
            name.as_str(),
            None,
        ) {
            Ok((base, conditions)) => if hops == 0 {
                circle_error(doc, line_number)
            } else {
                match pick_within(&conditions, base, line_number, arguments, doc, hops - 1) {
                    Ok(v) => settle_within(&v, line_number, arguments, doc, hops - 1),
                    Err(e) => Err(e),
                }
            },
            Err(_) => match doc.get_component(0, name.as_str()) {
                Ok(c) => Ok(c.to_value(kind)),
                Err(_) => kind.to_value(line_number, doc.name),
            },
        },
    }
}

impl Boolean {
    /// Whether the condition holds under the arguments of a call.
    pub fn eval(&self, line_number: usize, arguments: &OrderedMap<Value>, doc: &TDoc) -> (r: Result<
        bool,
        Error,
    >)
        ensures
            agrees_plain(
                r,
                eval(self@, line_number, arguments@, doc@, budget(doc@, arguments@)),
            ),
    {
        eval_within(self, line_number, arguments, doc, budget_of(doc, arguments))
    }
}

impl PropertyValue {
    /// The value of the property under the arguments of a call. It is what
    /// the property resolves to with one step less, as it does inside a
    /// condition, a reference or a field, unless a circle is found there.
    pub fn resolve(&self, line_number: usize, arguments: &OrderedMap<Value>, doc: &TDoc) -> (r:
        Result<Value, Error>)
        ensures
            agrees(
                r,
                resolve(self@, line_number, arguments@, doc@, budget(doc@, arguments@) + 1),
            ),
            is_circle(resolve(self@, line_number, arguments@, doc@, budget(doc@, arguments@)))
                || resolve(self@, line_number, arguments@, doc@, budget(doc@, arguments@) + 1)
                == resolve(self@, line_number, arguments@, doc@, budget(doc@, arguments@)),
    {
        proof {
            let steps = budget(doc@, arguments@);
            if !is_circle(resolve(self@, line_number, arguments@, doc@, steps)) {
                lemma_resolve_stable(self@, line_number, arguments@, doc@, steps, steps + 1);
            }
        }
        resolve_within(self, line_number, arguments, doc, budget_of(doc, arguments) + 1)
    }
}

/// The value that a kind stands for is of a kind that is compatible with
/// it.
pub proof fn lemma_value_of_kind_is_of_kind(kind: KindView, line_number: usize, doc: Seq<char>)
    requires
        kind_to_value(kind, line_number, doc) is Ok,
    ensures
        kind.same_as(kind_to_value(kind, line_number, doc)->Ok_0.kind()),
{
    match kind {
        KindView::Optional { .. } => crate::binding::lemma_same_as_reflexive(kind),
        KindView::List { kind: inner, .. } => crate::binding::lemma_same_as_reflexive(*inner),
        KindView::Mapping { kind: inner } => crate::binding::lemma_same_as_reflexive(*inner),
        _ => {},
    }
}

/// More steps change nothing but the failure of a circle: what a property
/// resolves to with `hops` steps, if that is not the failure of a circle, it
/// resolves to with any number of steps from `hops` up.
pub proof fn lemma_resolve_stable(
    p: PropertyValueView,
    line_number: usize,
    args: Seq<(Seq<char>, ValueView)>,
    doc: TDocView,
    hops: nat,
    more: nat,
)
    requires
        !is_circle(resolve(p, line_number, args, doc, hops)),
        hops <= more,
    ensures
        resolve(p, line_number, args, doc, more) == resolve(p, line_number, args, doc, hops),
    decreases hops, 0nat, p, 0nat,
{
    match p {
        PropertyValueView::Value { value } => {
            lemma_settle_stable(value, line_number, args, doc, hops, more);
        },
        PropertyValueView::Variable { name, kind } => match split_trimmed(name, '.') {
            Some((record, field)) => match view_lookup(args, record) {
                Some(ValueView::Record { fields, .. }) => match view_lookup(fields, field) {
                    Some(inner) => {
                        lemma_resolve_stable(
                            inner,
                            line_number,
                            args,
                            doc,
                            (hops - 1) as nat,
                            (more - 1) as nat,
                        );
                    },
                    None => {},
                },
                _ => {},
            },
            None => match view_lookup(args, name) {
                Some(v) => if v is Object {
                    lemma_settle_stable(
                        v,
                        line_number,
                        args,
                        doc,
                        (hops - 1) as nat,
                        (more - 1) as nat,
                    );
                },
                None => {},
            },
        },
        PropertyValueView::Reference { name, kind } => match doc.get_value_and_conditions_with_root(
            0,
            name,
            None,
        ) {
            Ok((base, conditions)) => {
                let less = (hops - 1) as nat;
                lemma_pick_stable(
                    conditions,
                    base,
                    0,
                    line_number,
                    args,
                    doc,
                    less,
                    (more - 1) as nat,
                );
                match pick(conditions, base, 0, line_number, args, doc, less) {
                    Ok(v) => lemma_settle_stable(
                        v,
                        line_number,
                        args,
                        doc,
                        less,
                        (more - 1) as nat,
                    ),
                    Err(_) => {},
                }
            },
            Err(_) => {},
        },
    }
}

/// The same of settling a value.
pub proof fn lemma_settle_stable(
    value: ValueView,
    line_number: usize,
    args: Seq<(Seq<char>, ValueView)>,
    doc: TDocView,
    hops: nat,
    more: nat,
)
    requires
        !is_circle(settle(value, line_number, args, doc, hops)),
        hops <= more,
    ensures
        settle(value, line_number, args, doc, more) == settle(value, line_number, args, doc, hops),
    decreases hops, 0nat, value, 0nat,
{
    match value {
        ValueView::Object { values } => {
            lemma_resolve_all_stable(values, 0, Seq::empty(), line_number, args, doc, hops, more);
        },
        _ => {},
    }
}

proof fn lemma_resolve_all_stable(
    values: Seq<(Seq<char>, PropertyValueView)>,
    i: int,
    acc: Seq<(Seq<char>, PropertyValueView)>,
    line_number: usize,
    args: Seq<(Seq<char>, ValueView)>,
    doc: TDocView,
    hops: nat,
    more: nat,
)
    requires
        !is_circle(resolve_all(values, i, acc, line_number, args, doc, hops)),
        hops <= more,
    ensures
        resolve_all(values, i, acc, line_number, args, doc, more) == resolve_all(
            values,
            i,
            acc,
            line_number,
            args,
            doc,
            hops,
        ),
    decreases hops, 0nat, values, values.len() - i,
{
    if 0 <= i < values.len() {
        lemma_resolve_stable(values[i].1, line_number, args, doc, hops, more);
        match resolve(values[i].1, line_number, args, doc, hops) {
            Ok(v) => lemma_resolve_all_stable(
                values,
                i + 1,
                acc.push((values[i].0, PropertyValueView::Value { value: v })),
                line_number,
                args,
                doc,
                hops,
                more,
            ),
            Err(_) => {},
        }
    }
}

/// The same of the conditions of a variable.
pub proof fn lemma_pick_stable(
    conditions: Seq<(BooleanView, ValueView)>,
    current: ValueView,
    i: int,
    line_number: usize,
    args: Seq<(Seq<char>, ValueView)>,
    doc: TDocView,
    hops: nat,
    more: nat,
)
    requires
        !is_circle(pick(conditions, current, i, line_number, args, doc, hops)),
        hops <= more,
    ensures
        pick(conditions, current, i, line_number, args, doc, more) == pick(
            conditions,
            current,
            i,
            line_number,
            args,
            doc,
            hops,
        ),
    decreases hops, 2nat, conditions, conditions.len() - i,
{
    if 0 <= i < conditions.len() {
        lemma_eval_stable(conditions[i].0, line_number, args, doc, hops, more);
        match eval(conditions[i].0, line_number, args, doc, hops) {
            Ok(true) => lemma_pick_stable(
                conditions,
                conditions[i].1,
                i + 1,
                line_number,
                args,
                doc,
                hops,
                more,
            ),
            Ok(false) => lemma_pick_stable(
                conditions,
                current,
                i + 1,
                line_number,
                args,
                doc,
                hops,
                more,
            ),
            Err(_) => {},
        }
    }
}

/// The same of a condition.
pub proof fn lemma_eval_stable(
    b: BooleanView,
    line_number: usize,
    args: Seq<(Seq<char>, ValueView)>,
    doc: TDocView,
    hops: nat,
    more: nat,
)
    requires
        !is_circle(eval(b, line_number, args, doc, hops)),
        hops <= more,
    ensures
        eval(b, line_number, args, doc, more) == eval(b, line_number, args, doc, hops),
    decreases hops, 1nat, b, 0nat,
{
    match b {
        BooleanView::Literal { .. } => {},
        BooleanView::IsNotNull { value } => lemma_resolve_stable(
            value,
            line_number,
            args,
            doc,
            hops,
            more,
        ),
        BooleanView::IsNull { value } => lemma_resolve_stable(
            value,
            line_number,
            args,
            doc,
            hops,
            more,
        ),
        BooleanView::IsNotEmpty { value } => lemma_resolve_stable(
            value,
            line_number,
            args,
            doc,
            hops,
            more,
        ),
        BooleanView::IsEmpty { value } => lemma_resolve_stable(
            value,
            line_number,
            args,
            doc,
            hops,
            more,
        ),
        BooleanView::Equal { left, right } => {
            lemma_resolve_stable(left, line_number, args, doc, hops, more);
            if resolve(left, line_number, args, doc, hops) is Ok {
                lemma_resolve_stable(right, line_number, args, doc, hops, more);
            }
        },
        BooleanView::NotEqual { left, right } => {
            lemma_resolve_stable(left, line_number, args, doc, hops, more);
            if resolve(left, line_number, args, doc, hops) is Ok {
                lemma_resolve_stable(right, line_number, args, doc, hops, more);
            }
        },
        BooleanView::Not { of } => lemma_eval_stable(*of, line_number, args, doc, hops, more),
    }
}

/// The last condition that holds decides: where every condition from index
/// `i` on can be evaluated, `k` is one that holds and none after it does,
/// the value that stands with `k` is picked, whatever the conditions before
/// it say.
pub proof fn lemma_last_condition_wins(
    conditions: Seq<(BooleanView, ValueView)>,
    current: ValueView,
    i: int,
    k: int,
    line_number: usize,
    args: Seq<(Seq<char>, ValueView)>,
    doc: TDocView,
    hops: nat,
)
    requires
        0 <= i <= k < conditions.len(),
        forall|j: int|
            i <= j < conditions.len() ==> eval(
                (#[trigger] conditions[j]).0,
                line_number,
                args,
                doc,
                hops,
            ) is Ok,
        eval(conditions[k].0, line_number, args, doc, hops) == Ok::<bool, ErrorView>(true),
        forall|j: int|
            k < j < conditions.len() ==> eval(
                (#[trigger] conditions[j]).0,
                line_number,
                args,
                doc,
                hops,
            ) == Ok::<bool, ErrorView>(false),
    ensures
        pick(conditions, current, i, line_number, args, doc, hops) == Ok::<ValueView, ErrorView>(
            conditions[k].1,
        ),
    decreases conditions.len() - i,
{
    let here = eval(conditions[i].0, line_number, args, doc, hops);
    assert(here is Ok);
    if i < k {
        let next = if here == Ok::<bool, ErrorView>(true) {
            conditions[i].1
        } else {
            current
        };
        lemma_last_condition_wins(conditions, next, i + 1, k, line_number, args, doc, hops);
    } else {
        lemma_none_holds_after(conditions, conditions[k].1, k + 1, line_number, args, doc, hops);
    }
}

/// Where no condition from index `i` on holds, the value stands.
pub proof fn lemma_none_holds_after(
    conditions: Seq<(BooleanView, ValueView)>,
    current: ValueView,
    i: int,
    line_number: usize,
    args: Seq<(Seq<char>, ValueView)>,
    doc: TDocView,
    hops: nat,
)
    requires
        0 <= i <= conditions.len(),
        forall|j: int|
            i <= j < conditions.len() ==> eval(
                (#[trigger] conditions[j]).0,
                line_number,
                args,
                doc,
                hops,
            ) == Ok::<bool, ErrorView>(false),
    ensures
        pick(conditions, current, i, line_number, args, doc, hops) == Ok::<ValueView, ErrorView>(
            current,
        ),
    decreases conditions.len() - i,
{
    if i < conditions.len() {
        assert(eval(conditions[i].0, line_number, args, doc, hops) == Ok::<bool, ErrorView>(false));
        lemma_none_holds_after(conditions, current, i + 1, line_number, args, doc, hops);
    }
}

/// Of two conditions that both hold, the second gives the value.
pub proof fn lemma_second_of_two_wins(
    first: (BooleanView, ValueView),
    second: (BooleanView, ValueView),
    base: ValueView,
    line_number: usize,
    args: Seq<(Seq<char>, ValueView)>,
    doc: TDocView,
    hops: nat,
)
    requires
        eval(first.0, line_number, args, doc, hops) == Ok::<bool, ErrorView>(true),
        eval(second.0, line_number, args, doc, hops) == Ok::<bool, ErrorView>(true),
    ensures
        pick(seq![first, second], base, 0, line_number, args, doc, hops) == Ok::<
            ValueView,
            ErrorView,
        >(second.1),
{
    let conditions = seq![first, second];
    assert(conditions[0] == first);
    assert(conditions[1] == second);
    lemma_last_condition_wins(conditions, base, 0, 1, line_number, args, doc, hops);
}

/// What the conditions of a variable give when each is evaluated by itself
/// is what they give inside a reference to the variable: where every
/// condition can be evaluated by itself, the reference, which has one step
/// more, resolves to the value of the last condition that holds, settled.
pub proof fn lemma_reference_takes_last_condition(
    name: Seq<char>,
    kind: KindView,
    base: ValueView,
    conditions: Seq<(BooleanView, ValueView)>,
    k: int,
    line_number: usize,
    args: Seq<(Seq<char>, ValueView)>,
    doc: TDocView,
    hops: nat,
)
    requires
        doc.get_value_and_conditions_with_root(0, name, None) == Ok::<
            (ValueView, Seq<(BooleanView, ValueView)>),
            ErrorView,
        >((base, conditions)),
        0 <= k < conditions.len(),
        forall|j: int|
            0 <= j < conditions.len() ==> eval(
                (#[trigger] conditions[j]).0,
                line_number,
                args,
                doc,
                hops,
            ) is Ok,
        eval(conditions[k].0, line_number, args, doc, hops) == Ok::<bool, ErrorView>(true),
        forall|j: int|
            k < j < conditions.len() ==> eval(
                (#[trigger] conditions[j]).0,
                line_number,
                args,
                doc,
                hops,
            ) == Ok::<bool, ErrorView>(false),
    ensures
        resolve(PropertyValueView::Reference { name, kind }, line_number, args, doc, hops + 1)
            == settle(conditions[k].1, line_number, args, doc, hops),
{
    lemma_last_condition_wins(conditions, base, 0, k, line_number, args, doc, hops);
}

/// Where no condition of a variable holds when evaluated by itself, a
/// reference to the variable resolves to its value, settled.
pub proof fn lemma_reference_keeps_value(
    name: Seq<char>,
    kind: KindView,
    base: ValueView,
    conditions: Seq<(BooleanView, ValueView)>,
    line_number: usize,
    args: Seq<(Seq<char>, ValueView)>,
    doc: TDocView,
    hops: nat,
)
    requires
        doc.get_value_and_conditions_with_root(0, name, None) == Ok::<
            (ValueView, Seq<(BooleanView, ValueView)>),
            ErrorView,
        >((base, conditions)),
        forall|j: int|
            0 <= j < conditions.len() ==> eval(
                (#[trigger] conditions[j]).0,
                line_number,
                args,
                doc,
                hops,
            ) == Ok::<bool, ErrorView>(false),
    ensures
        resolve(PropertyValueView::Reference { name, kind }, line_number, args, doc, hops + 1)
            == settle(base, line_number, args, doc, hops),
{
    lemma_none_holds_after(conditions, base, 0, line_number, args, doc, hops);
}

/// A variable that names a field of a record among the arguments resolves
/// to what the field resolves to with one step less.
pub proof fn lemma_field_resolves_as_itself(
    name: Seq<char>,
    kind: KindView,
    record: Seq<char>,
    field: Seq<char>,
    inner: PropertyValueView,
    line_number: usize,
    args: Seq<(Seq<char>, ValueView)>,
    doc: TDocView,
    hops: nat,
)
    requires
        split_trimmed(name, '.') == Some((record, field)),
        view_lookup(args, record) is Some,
        view_lookup(args, record)->Some_0 is Record,
        view_lookup(view_lookup(args, record)->Some_0->Record_fields, field) == Some(inner),
    ensures
        resolve(PropertyValueView::Variable { name, kind }, line_number, args, doc, hops + 1)
            == resolve(inner, line_number, args, doc, hops),
{
}

/// What evaluates by itself evaluates the same inside a reference or a
/// field, unless a circle is found there: with the same steps, a variable
/// that names a field resolves to what the field resolves to by itself, or
/// fails as a circle.
pub proof fn lemma_field_same_or_circle(
    name: Seq<char>,
    kind: KindView,
    record: Seq<char>,
    field: Seq<char>,
    inner: PropertyValueView,
    line_number: usize,
    args: Seq<(Seq<char>, ValueView)>,
    doc: TDocView,
    hops: nat,
)
    requires
        split_trimmed(name, '.') == Some((record, field)),
        view_lookup(args, record) is Some,
        view_lookup(args, record)->Some_0 is Record,
        view_lookup(view_lookup(args, record)->Some_0->Record_fields, field) == Some(inner),
    ensures
        is_circle(
            resolve(PropertyValueView::Variable { name, kind }, line_number, args, doc, hops),
        ) || resolve(PropertyValueView::Variable { name, kind }, line_number, args, doc, hops)
            == resolve(inner, line_number, args, doc, hops),
{
    let r = resolve(PropertyValueView::Variable { name, kind }, line_number, args, doc, hops);
    if !is_circle(r) {
        lemma_resolve_stable(inner, line_number, args, doc, (hops - 1) as nat, hops);
    }
}

/// The same of a reference: with the same steps, it resolves to what the
/// conditions of its variable pick when evaluated by themselves, settled, or
/// fails as a circle.
pub proof fn lemma_reference_same_or_circle(
    name: Seq<char>,
    kind: KindView,
    base: ValueView,
    conditions: Seq<(BooleanView, ValueView)>,
    line_number: usize,
    args: Seq<(Seq<char>, ValueView)>,
    doc: TDocView,
    hops: nat,
)
    requires
        doc.get_value_and_conditions_with_root(0, name, None) == Ok::<
            (ValueView, Seq<(BooleanView, ValueView)>),
            ErrorView,
        >((base, conditions)),
    ensures
        is_circle(
            resolve(PropertyValueView::Reference { name, kind }, line_number, args, doc, hops),
        ) || resolve(PropertyValueView::Reference { name, kind }, line_number, args, doc, hops)
            == (match pick(conditions, base, 0, line_number, args, doc, hops) {
            Ok(v) => settle(v, line_number, args, doc, hops),
            Err(e) => Err(e),
        }),
{
    let r = resolve(PropertyValueView::Reference { name, kind }, line_number, args, doc, hops);
    if !is_circle(r) {
        let less = (hops - 1) as nat;
        lemma_pick_stable(conditions, base, 0, line_number, args, doc, less, hops);
        match pick(conditions, base, 0, line_number, args, doc, less) {
            Ok(v) => lemma_settle_stable(v, line_number, args, doc, less, hops),
            Err(_) => {},
        }
    }
}

/// Whether no property of an object waits to be evaluated: every one is a
/// literal, and so all the way down.
pub open spec fn evaluated(v: ValueView) -> bool
    decreases v,
{
    match v {
        ValueView::Object { values } => forall|i: int|
            0 <= i < values.len() ==> property_evaluated((#[trigger] values[i]).1),
        _ => true,
    }
}

pub open spec fn property_evaluated(p: PropertyValueView) -> bool
    decreases p,
{
    match p {
        PropertyValueView::Value { value } => evaluated(value),
        _ => false,
    }
}

/// No reference and no variable survives evaluation: in what a property
/// resolves to, every property of an object is a literal.
pub proof fn lemma_resolve_evaluates(
    p: PropertyValueView,
    line_number: usize,
    args: Seq<(Seq<char>, ValueView)>,
    doc: TDocView,
    hops: nat,
)
    requires
        resolve(p, line_number, args, doc, hops) is Ok,
    ensures
        evaluated(resolve(p, line_number, args, doc, hops)->Ok_0),
    decreases hops, 0nat, p, 0nat,
{
    let less = (hops - 1) as nat;
    match p {
        PropertyValueView::Value { value } => {
            lemma_settle_evaluates(value, line_number, args, doc, hops);
        },
        PropertyValueView::Variable { name, kind } => match split_trimmed(name, '.') {
            Some((record, field)) => match view_lookup(args, record) {
                Some(ValueView::Record { fields, .. }) => match view_lookup(fields, field) {
                    Some(inner) => lemma_resolve_evaluates(inner, line_number, args, doc, less),
                    None => {},
                },
                _ => {},
            },
            None => match view_lookup(args, name) {
                Some(v) => if v is Object {
                    lemma_settle_evaluates(v, line_number, args, doc, less);
                },
                None => {},
            },
        },
        PropertyValueView::Reference { name, kind } => match doc.get_value_and_conditions_with_root(
            0,
            name,
            None,
        ) {
            Ok((base, conditions)) => match pick(
                conditions,
                base,
                0,
                line_number,
                args,
                doc,
                less,
            ) {
                Ok(v) => lemma_settle_evaluates(v, line_number, args, doc, less),
                Err(_) => {},
            },
            Err(_) => {},
        },
    }
}

proof fn lemma_settle_evaluates(
    value: ValueView,
    line_number: usize,
    args: Seq<(Seq<char>, ValueView)>,
    doc: TDocView,
    hops: nat,
)
    requires
        settle(value, line_number, args, doc, hops) is Ok,
    ensures
        evaluated(settle(value, line_number, args, doc, hops)->Ok_0),
    decreases hops, 0nat, value, 0nat,
{
    match value {
        ValueView::Object { values } => {
            lemma_resolve_all_evaluates(values, 0, Seq::empty(), line_number, args, doc, hops);
        },
        _ => {},
    }
}

proof fn lemma_resolve_all_evaluates(
    values: Seq<(Seq<char>, PropertyValueView)>,
    i: int,
    acc: Seq<(Seq<char>, PropertyValueView)>,
    line_number: usize,
    args: Seq<(Seq<char>, ValueView)>,
    doc: TDocView,
    hops: nat,
)
    requires
        0 <= i <= values.len(),
        forall|j: int| 0 <= j < acc.len() ==> property_evaluated((#[trigger] acc[j]).1),
        resolve_all(values, i, acc, line_number, args, doc, hops) is Ok,
    ensures
        forall|j: int|
            0 <= j < resolve_all(values, i, acc, line_number, args, doc, hops)->Ok_0.len()
                ==> property_evaluated(
                (#[trigger] resolve_all(values, i, acc, line_number, args, doc, hops)->Ok_0[j]).1,
            ),
    decreases hops, 0nat, values, values.len() - i,
{
    if i < values.len() {
        let here = resolve(values[i].1, line_number, args, doc, hops);
        lemma_resolve_evaluates(values[i].1, line_number, args, doc, hops);
        let next = acc.push((values[i].0, PropertyValueView::Value { value: here->Ok_0 }));
        assert forall|j: int| 0 <= j < next.len() implies property_evaluated(
            (#[trigger] next[j]).1,
        ) by {
            if j < acc.len() {
                assert(next[j] == acc[j]);
            }
        }
        lemma_resolve_all_evaluates(values, i + 1, next, line_number, args, doc, hops);
    }
}

} // verus!
