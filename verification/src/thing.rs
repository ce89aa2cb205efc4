//! Declarations: what the global table holds under fully qualified names.

use crate::duplicate::{copy_list, list_view, Duplicate};
use crate::kind::{Kind, KindView};
use crate::ordered_map::OrderedMap;
use crate::value::{PropertyValue, PropertyValueView, Value, ValueView};
use vstd::prelude::*;

verus! {

/// A condition over property values.
#[derive(Debug, PartialEq)]
#[allow(inconsistent_fields)]
pub enum Boolean {
    IsNotNull { value: PropertyValue },
    IsNull { value: PropertyValue },
    IsNotEmpty { value: PropertyValue },
    IsEmpty { value: PropertyValue },
    Equal { left: PropertyValue, right: PropertyValue },
    NotEqual { left: PropertyValue, right: PropertyValue },
    Not { of: Box<Boolean> },
    Literal { value: bool },
}

#[allow(inconsistent_fields)]
pub enum BooleanView {
    IsNotNull { value: PropertyValueView },
    IsNull { value: PropertyValueView },
    IsNotEmpty { value: PropertyValueView },
    IsEmpty { value: PropertyValueView },
    Equal { left: PropertyValueView, right: PropertyValueView },
    NotEqual { left: PropertyValueView, right: PropertyValueView },
    Not { of: Box<BooleanView> },
    Literal { value: bool },
}

impl View for Boolean {
    type V = BooleanView;

    open spec fn view(&self) -> BooleanView
        decreases self,
    {
        match self {
            Boolean::IsNotNull { value } => BooleanView::IsNotNull { value: value@ },
            Boolean::IsNull { value } => BooleanView::IsNull { value: value@ },
            Boolean::IsNotEmpty { value } => BooleanView::IsNotEmpty { value: value@ },
            Boolean::IsEmpty { value } => BooleanView::IsEmpty { value: value@ },
            Boolean::Equal { left, right } => BooleanView::Equal { left: left@, right: right@ },
            Boolean::NotEqual { left, right } => BooleanView::NotEqual {
                left: left@,
                right: right@,
            },
            Boolean::Not { of } => BooleanView::Not { of: Box::new((**of).view()) },
            Boolean::Literal { value } => BooleanView::Literal { value: *value },
        }
    }
}

impl Duplicate for Boolean {
    fn duplicate(&self) -> (r: Self)
        decreases self,
    {
        match self {
            Boolean::IsNotNull { value } => Boolean::IsNotNull { value: value.clone() },
            Boolean::IsNull { value } => Boolean::IsNull { value: value.clone() },
            Boolean::IsNotEmpty { value } => Boolean::IsNotEmpty { value: value.clone() },
            Boolean::IsEmpty { value } => Boolean::IsEmpty { value: value.clone() },
            Boolean::Equal { left, right } => Boolean::Equal {
                left: left.clone(),
                right: right.clone(),
            },
            Boolean::NotEqual { left, right } => Boolean::NotEqual {
                left: left.clone(),
                right: right.clone(),
            },
            Boolean::Not { of } => Boolean::Not { of: Box::new((&**of).duplicate()) },
            Boolean::Literal { value } => Boolean::Literal { value: *value },
        }
    }
}

/// A variable: its name, its value, and the values that take its place
/// under conditions, in the order of their declaration.
#[derive(Debug, PartialEq)]
pub struct Variable {
    pub name: String,
    pub value: Value,
    pub conditions: Vec<(Boolean, Value)>,
}

pub struct VariableView {
    pub name: Seq<char>,
    pub value: ValueView,
    pub conditions: Seq<(BooleanView, ValueView)>,
}

pub open spec fn conditions_view(s: Seq<(Boolean, Value)>) -> Seq<(BooleanView, ValueView)> {
    Seq::new(s.len(), |i: int| (s[i].0@, s[i].1@))
}

impl View for Variable {
    type V = VariableView;

    open spec fn view(&self) -> VariableView {
        VariableView {
            name: self.name@,
            value: self.value@,
            conditions: conditions_view(self.conditions@),
        }
    }
}

/// A copy of the conditions of a variable.
pub fn copy_conditions(v: &Vec<(Boolean, Value)>) -> (r: Vec<(Boolean, Value)>)
    ensures
        conditions_view(r@) == conditions_view(v@),
{
    let mut out: Vec<(Boolean, Value)> = Vec::new();
    let n: usize = v.len();
    let mut i: usize = 0;
    while i < n
        invariant
            n == v@.len(),
            i <= n,
            out@.len() == i,
            forall|j: int|
                0 <= j < i ==> (#[trigger] out@[j]).0@ == v@[j].0@ && out@[j].1@ == v@[j].1@,
        decreases n - i,
    {
        out.push((v[i].0.duplicate(), v[i].1.clone()));
        i += 1;
    }
    proof {
        assert(conditions_view(out@) =~= conditions_view(v@));
    }
    out
}

impl Duplicate for Variable {
    fn duplicate(&self) -> (r: Self) {
        Variable {
            name: self.name.clone(),
            value: self.value.clone(),
            conditions: copy_conditions(&self.conditions),
        }
    }
}

/// A record type: its fields with their kinds, the order in which the
/// fields were declared, and the names of its instances.
#[derive(Debug, PartialEq)]
pub struct Record {
    pub name: String,
    pub fields: OrderedMap<Kind>,
    pub instances: Vec<String>,
    pub order: Vec<String>,
}

pub struct RecordView {
    pub name: Seq<char>,
    pub fields: Seq<(Seq<char>, KindView)>,
    pub instances: Seq<Seq<char>>,
    pub order: Seq<Seq<char>>,
}

impl View for Record {
    type V = RecordView;

    open spec fn view(&self) -> RecordView {
        RecordView {
            name: self.name@,
            fields: self.fields@,
            instances: list_view(self.instances@),
            order: list_view(self.order@),
        }
    }
}

impl Duplicate for Record {
    fn duplicate(&self) -> (r: Self) {
        Record {
            name: self.name.clone(),
            fields: self.fields.duplicate(),
            instances: copy_list(&self.instances),
            order: copy_list(&self.order),
        }
    }
}

/// An or-type: a name and its variants, each a record.
#[derive(Debug, PartialEq)]
pub struct OrType {
    pub name: String,
    pub variants: Vec<Record>,
}

pub struct OrTypeView {
    pub name: Seq<char>,
    pub variants: Seq<RecordView>,
}

impl View for OrType {
    type V = OrTypeView;

    open spec fn view(&self) -> OrTypeView {
        OrTypeView { name: self.name@, variants: list_view(self.variants@) }
    }
}

impl Duplicate for OrType {
    fn duplicate(&self) -> (r: Self) {
        OrType { name: self.name.clone(), variants: copy_list(&self.variants) }
    }
}

/// A component: the component it is built on, its own name, the kinds of
/// its arguments and the properties it sets.
#[derive(Debug, PartialEq)]
pub struct Component {
    pub root: String,
    pub full_name: String,
    pub arguments: OrderedMap<Kind>,
    pub properties: OrderedMap<PropertyValue>,
}

pub struct ComponentView {
    pub root: Seq<char>,
    pub full_name: Seq<char>,
    pub arguments: Seq<(Seq<char>, KindView)>,
    pub properties: Seq<(Seq<char>, PropertyValueView)>,
}

impl View for Component {
    type V = ComponentView;

    open spec fn view(&self) -> ComponentView {
        ComponentView {
            root: self.root@,
            full_name: self.full_name@,
            arguments: self.arguments@,
            properties: self.properties@,
        }
    }
}

impl Duplicate for Component {
    fn duplicate(&self) -> (r: Self) {
        Component {
            root: self.root.clone(),
            full_name: self.full_name.clone(),
            arguments: self.arguments.duplicate(),
            properties: self.properties.duplicate(),
        }
    }
}

impl ComponentView {
    /// The component as a value of kind `kind`.
    pub open spec fn to_value(self, kind: KindView) -> ValueView {
        ValueView::UI { name: self.full_name, kind, data: self.properties }
    }
}

impl Component {
    /// The component as a value of kind `kind`.
    pub fn to_value(&self, kind: &Kind) -> (r: Value)
        ensures
            r@ == self@.to_value(kind@),
    {
        let data = self.properties.duplicate();
        proof {
            crate::value::lemma_fields_view(data.entries@);
        }
        Value::UI { name: self.full_name.clone(), kind: kind.clone(), data }
    }
}

/// An entry of the global table.
#[derive(Debug, PartialEq)]
pub enum Thing {
    Component(Component),
    Variable(Variable),
    Record(Record),
    OrType(OrType),
    OrTypeWithVariant { e: OrType, variant: String },
}

pub enum ThingView {
    Component(ComponentView),
    Variable(VariableView),
    Record(RecordView),
    OrType(OrTypeView),
    OrTypeWithVariant { e: OrTypeView, variant: Seq<char> },
}

impl View for Thing {
    type V = ThingView;

    open spec fn view(&self) -> ThingView {
        match self {
            Thing::Component(c) => ThingView::Component(c@),
            Thing::Variable(v) => ThingView::Variable(v@),
            Thing::Record(r) => ThingView::Record(r@),
            Thing::OrType(e) => ThingView::OrType(e@),
            Thing::OrTypeWithVariant { e, variant } => ThingView::OrTypeWithVariant {
                e: e@,
                variant: variant@,
            },
        }
    }
}

impl Duplicate for Thing {
    fn duplicate(&self) -> (r: Self) {
        match self {
            Thing::Component(c) => Thing::Component(c.duplicate()),
            Thing::Variable(v) => Thing::Variable(v.duplicate()),
            Thing::Record(r) => Thing::Record(r.duplicate()),
            Thing::OrType(e) => Thing::OrType(e.duplicate()),
            Thing::OrTypeWithVariant { e, variant } => Thing::OrTypeWithVariant {
                e: e.duplicate(),
                variant: variant.clone(),
            },
        }
    }
}

} // verus!
