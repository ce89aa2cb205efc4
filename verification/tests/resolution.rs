use ftd::{Boolean, Kind, Record, TDoc, Thing};
use ftd::{
    Column, Common, Component, Container, Element, ErrorKind, OrType, OrderedMap, PropertyValue,
    Region, Text, TextSource, Value, Variable,
};

fn string(text: &str, source: TextSource) -> Value {
    Value::String { text: text.to_string(), source }
}

fn literal(value: Value) -> PropertyValue {
    PropertyValue::Value { value }
}

fn variable(name: &str, value: Value) -> Thing {
    Thing::Variable(Variable { name: name.to_string(), value, conditions: vec![] })
}

fn person() -> Record {
    let mut fields: OrderedMap<Kind> = OrderedMap::new();
    fields.insert("name".to_string(), Kind::string());
    fields.insert("age".to_string(), Kind::integer());
    Record {
        name: "foo#person".to_string(),
        fields,
        instances: vec![],
        order: vec!["name".to_string(), "age".to_string()],
    }
}

fn color() -> OrType {
    OrType { name: "pkg/a#color".to_string(), variants: vec![] }
}

fn aliases() -> OrderedMap<String> {
    let mut aliases: OrderedMap<String> = OrderedMap::new();
    aliases.insert("a".to_string(), "pkg/a".to_string());
    aliases.insert("b".to_string(), "pkg/a".to_string());
    aliases
}

fn bag() -> OrderedMap<Thing> {
    let mut bag: OrderedMap<Thing> = OrderedMap::new();
    bag.insert("foo#x".to_string(), variable("foo#x", Value::Integer { value: 1 }));
    let mut fields: OrderedMap<PropertyValue> = OrderedMap::new();
    fields.insert("name".to_string(), literal(string("Amitu", TextSource::Caption)));
    fields.insert(
        "age".to_string(),
        PropertyValue::Reference { name: "foo#x".to_string(), kind: Kind::integer() },
    );
    fields.insert(
        "later".to_string(),
        PropertyValue::Variable { name: "n".to_string(), kind: Kind::integer() },
    );
    bag.insert(
        "foo#amitu".to_string(),
        variable("foo#amitu", Value::Record { name: "foo#person".to_string(), fields }),
    );
    bag.insert("foo#person".to_string(), Thing::Record(person()));
    bag.insert("pkg/a#color".to_string(), Thing::OrType(color()));
    bag.insert("pkg/a#y".to_string(), variable("pkg/a#y", Value::Boolean { value: true }));
    bag.insert(
        "foo#card".to_string(),
        Thing::Component(Component {
            root: "ftd.column".to_string(),
            full_name: "foo#card".to_string(),
            arguments: OrderedMap::new(),
            properties: OrderedMap::new(),
        }),
    );
    bag
}

#[test]
fn names_are_resolved_in_order() {
    let (aliases, bag) = (aliases(), bag());
    let doc = TDoc { name: "foo", aliases: &aliases, bag: &bag };
    assert_eq!(doc.format_name("x"), "foo#x");
    assert_eq!(doc.resolve_name(3, "pkg/b#x").unwrap(), "pkg/b#x");
    assert_eq!(doc.resolve_name(3, "a.x").unwrap(), "pkg/a#x");
    assert_eq!(doc.resolve_name(3, "a.x.y").unwrap(), "pkg/a#x.y");
    assert_eq!(doc.resolve_name(3, "x").unwrap(), "foo#x");
    let e = doc.resolve_name(3, "z.x").unwrap_err();
    assert_eq!(
        (e.kind, e.subject.as_str(), e.doc_id.as_str(), e.line_number),
        (ErrorKind::NotFound, "z", "foo", 3)
    );
    assert_eq!(doc.resolve_name_without_full_path(3, "x").unwrap(), "x");
    assert_eq!(doc.resolve_name_without_full_path(3, "a.x").unwrap(), "pkg/a#x");
    assert!(doc.resolve_name_without_full_path(3, "z.x").is_err());
    let ids = vec!["z".to_string()];
    assert_eq!(doc.resolve_name_with_instruction(3, "z.x", &ids).unwrap(), "z#x");
    assert_eq!(doc.resolve_name_with_instruction(3, "a.x", &ids).unwrap(), "pkg/a#x");
    assert_eq!(doc.resolve_name_with_instruction(3, "x", &ids).unwrap(), "x");
    assert!(doc.resolve_name_with_instruction(3, "q.x", &ids).is_err());
}

#[test]
fn roots_of_names() {
    let (aliases, bag) = (aliases(), bag());
    let doc = TDoc { name: "foo", aliases: &aliases, bag: &bag };
    // of two aliases of one document the first in the order of keys
    assert_eq!(doc.get_root("pkg/a#x", 1).unwrap(), Some("a".to_string()));
    assert_eq!(doc.get_root("pkg/z#x", 1).unwrap(), None);
    assert_eq!(doc.get_root("b.x", 1).unwrap(), Some("b".to_string()));
    assert_eq!(doc.get_root("z.x", 1).unwrap(), None);
    assert_eq!(doc.get_root("x", 1).unwrap(), None);
}

#[test]
fn things_are_found() {
    let (aliases, bag) = (aliases(), bag());
    let doc = TDoc { name: "foo", aliases: &aliases, bag: &bag };
    let x = variable("foo#x", Value::Integer { value: 1 });
    assert_eq!(doc.get_thing(1, "x").unwrap(), x);
    assert_eq!(doc.get_thing(1, "$x").unwrap(), x);
    assert_eq!(doc.get_thing(1, "foo#x").unwrap(), x);
    assert_eq!(doc.get_thing(1, "a.y").unwrap(), variable("pkg/a#y", Value::Boolean { value: true }));
    assert_eq!(doc.get_thing(1, "a.color").unwrap(), Thing::OrType(color()));
    // a variant is never the bare kind: it comes with its or-type
    assert_eq!(
        doc.get_thing(1, "a.color.red").unwrap(),
        Thing::OrTypeWithVariant { e: color(), variant: "red".to_string() }
    );
    assert_eq!(
        doc.get_thing(1, "pkg/a#color.red").unwrap(),
        Thing::OrTypeWithVariant { e: color(), variant: "red".to_string() }
    );
    // a field that is a literal
    assert_eq!(
        doc.get_thing(1, "amitu.name").unwrap(),
        variable("foo#amitu", string("Amitu", TextSource::Caption))
    );
    // a field that is a reference
    assert_eq!(doc.get_thing(1, "amitu.age").unwrap(), x);
    // a field that waits for an argument gives its owner
    assert_eq!(doc.get_thing(1, "amitu.later").unwrap(), doc.get_thing(1, "amitu").unwrap());
    // a plain name of another document, by way of the root
    assert!(doc.get_thing(1, "y").is_err());
    assert_eq!(
        doc.get_thing_with_root(1, "y", Some("a")).unwrap(),
        variable("pkg/a#y", Value::Boolean { value: true })
    );
    assert!(doc.get_thing_with_root(1, "y", Some("z")).is_err());
}

#[test]
fn things_that_are_not_found() {
    let (aliases, bag) = (aliases(), bag());
    let doc = TDoc { name: "foo", aliases: &aliases, bag: &bag };
    let e = doc.get_thing(7, "nothing").unwrap_err();
    assert_eq!((e.kind, e.subject.as_str(), e.line_number), (ErrorKind::NotFound, "nothing", 7));
    let e = doc.get_thing(7, "pkg/a#nothing").unwrap_err();
    assert_eq!((e.kind, e.subject.as_str()), (ErrorKind::NotFound, "pkg/a#nothing"));
    let e = doc.get_thing(7, "amitu.height").unwrap_err();
    assert_eq!((e.kind, e.subject.as_str()), (ErrorKind::NotFound, "height"));
    let e = doc.get_thing(7, "ghost.height").unwrap_err();
    assert_eq!((e.kind, e.subject.as_str()), (ErrorKind::NotFound, "ghost"));
    let e = doc.get_thing(7, "x.height").unwrap_err();
    assert_eq!((e.kind, e.subject.as_str()), (ErrorKind::TypeMismatch, "x"));
    let e = doc.get_thing(7, "a.y.red").unwrap_err();
    assert_eq!((e.kind, e.subject.as_str()), (ErrorKind::TypeMismatch, "pkg/a#y"));
    let e = doc.get_thing(7, "a.z.red").unwrap_err();
    assert_eq!((e.kind, e.subject.as_str()), (ErrorKind::NotFound, "pkg/a#z"));
    let e = doc.get_thing(7, "z.y.red").unwrap_err();
    assert_eq!((e.kind, e.subject.as_str()), (ErrorKind::NotFound, "z"));
    let e = doc.get_thing(7, "pkg/a#y.red").unwrap_err();
    assert_eq!((e.kind, e.subject.as_str()), (ErrorKind::NotFound, "pkg/a#y.red"));
}

#[test]
fn things_by_sort() {
    let (aliases, bag) = (aliases(), bag());
    let doc = TDoc { name: "foo", aliases: &aliases, bag: &bag };
    assert_eq!(doc.get_record(1, "person").unwrap(), person());
    assert_eq!(doc.get_record(1, "x").unwrap_err().kind, ErrorKind::TypeMismatch);
    assert_eq!(doc.get_record(1, "nope").unwrap_err().kind, ErrorKind::NotFound);
    assert_eq!(doc.get_or_type(1, "a.color").unwrap(), color());
    assert!(doc.get_or_type(1, "x").is_err());
    assert_eq!(doc.get_or_type_with_variant(1, "a.color.red").unwrap(), color());
    assert!(doc.get_or_type_with_variant(1, "a.color").is_err());
    assert_eq!(doc.get_value(1, "x").unwrap(), Value::Integer { value: 1 });
    assert_eq!(
        doc.get_value_with_root(1, "y", Some("a")).unwrap(),
        Value::Boolean { value: true }
    );
    assert!(doc.get_value(1, "person").is_err());
    assert_eq!(
        doc.get_value_and_conditions_with_root(1, "x", None).unwrap(),
        (Value::Integer { value: 1 }, vec![])
    );
    assert_eq!(doc.is_variable_record_type(1, "amitu").unwrap(), true);
    assert_eq!(doc.is_variable_record_type(1, "x").unwrap(), false);
    assert!(doc.is_variable_record_type(1, "nope").is_err());
    assert_eq!(doc.get_component(1, "card").unwrap().full_name, "foo#card");
    assert!(doc.get_component(1, "x").is_err());
    assert!(doc.get_component_with_root(1, "card", Some("a")).is_ok());
}

fn with_default(d: &str) -> Kind {
    Kind::Integer { default: Some(d.to_string()) }
}

#[test]
fn literals_are_read_as_the_kind_asks() {
    let (aliases, bag) = (aliases(), bag());
    let doc = TDoc { name: "foo", aliases: &aliases, bag: &bag };
    let none: OrderedMap<Kind> = OrderedMap::new();
    let bind = |text: &str, kind: Kind| {
        PropertyValue::resolve_value(4, text, Some(kind), &doc, &none, None)
    };
    assert_eq!(bind("10", Kind::integer()).unwrap(), literal(Value::Integer { value: 10 }));
    assert_eq!(bind("+10", Kind::integer()).unwrap(), literal(Value::Integer { value: 10 }));
    assert_eq!(
        bind("-9223372036854775808", Kind::integer()).unwrap(),
        literal(Value::Integer { value: i64::MIN })
    );
    assert_eq!(
        bind("10", Kind::Optional { kind: Box::new(Kind::integer()) }).unwrap(),
        literal(Value::Integer { value: 10 })
    );
    assert_eq!(
        bind("1e3", Kind::decimal()).unwrap(),
        literal(Value::Decimal { value: "1e3".to_string() })
    );
    assert_eq!(bind("false", Kind::boolean()).unwrap(), literal(Value::Boolean { value: false }));
    assert_eq!(bind("10", Kind::string()).unwrap(), literal(string("10", TextSource::Header)));
    assert_eq!(bind("\\$x", Kind::string()).unwrap(), literal(string("$x", TextSource::Header)));
    assert_eq!(
        PropertyValue::resolve_value(
            4,
            "hi",
            Some(Kind::caption()),
            &doc,
            &none,
            Some(TextSource::Caption)
        )
        .unwrap(),
        literal(string("hi", TextSource::Caption))
    );
    // a literal that does not read is a failure, never a string
    for (text, kind) in [
        ("ten", Kind::integer()),
        ("9223372036854775808", Kind::integer()),
        ("", Kind::integer()),
        ("-", Kind::integer()),
        ("1.", Kind::integer()),
        (".", Kind::decimal()),
        ("1e", Kind::decimal()),
        ("yes", Kind::boolean()),
        ("True", Kind::boolean()),
        ("x", Kind::object()),
    ] {
        let e = bind(text, kind).unwrap_err();
        assert_eq!((e.kind, e.subject.as_str(), e.line_number), (ErrorKind::TypeMismatch, text, 4));
    }
    let e = PropertyValue::resolve_value(4, "10", None, &doc, &none, None).unwrap_err();
    assert_eq!(e.kind, ErrorKind::Malformed);
}

#[test]
fn names_are_bound() {
    let (aliases, bag) = (aliases(), bag());
    let doc = TDoc { name: "foo", aliases: &aliases, bag: &bag };
    let mut arguments: OrderedMap<Kind> = OrderedMap::new();
    arguments.insert("n".to_string(), with_default("1"));
    arguments.insert("m".to_string(), Kind::integer());
    arguments.insert("p".to_string(), Kind::Record { name: "person".to_string(), default: None });
    let bind = |text: &str, kind: Option<Kind>| {
        PropertyValue::resolve_value(4, text, kind, &doc, &arguments, None)
    };
    // the default of the referenced kind stands where both kinds have one
    assert_eq!(
        bind("$n", Some(with_default("2"))).unwrap(),
        PropertyValue::Variable { name: "n".to_string(), kind: with_default("1") }
    );
    // the expected default fills in where the referenced kind has none
    assert_eq!(
        bind("$m", Some(with_default("2"))).unwrap(),
        PropertyValue::Variable { name: "m".to_string(), kind: with_default("2") }
    );
    assert_eq!(
        bind("$x", Some(with_default("2"))).unwrap(),
        PropertyValue::Reference { name: "foo#x".to_string(), kind: with_default("2") }
    );
    assert_eq!(
        bind("$x", None).unwrap(),
        PropertyValue::Reference { name: "foo#x".to_string(), kind: Kind::integer() }
    );
    assert_eq!(
        bind("$p.age", Some(Kind::integer())).unwrap(),
        PropertyValue::Variable { name: "p.age".to_string(), kind: Kind::integer() }
    );
    assert_eq!(
        bind("$MOUSE-IN", Some(Kind::boolean())).unwrap(),
        PropertyValue::Variable {
            name: "MOUSE-IN".to_string(),
            kind: Kind::Boolean { default: Some("false".to_string()) }
        }
    );
    assert_eq!(
        bind("card: a caption", Some(Kind::UI { default: None })).unwrap(),
        PropertyValue::Reference { name: "foo#card".to_string(), kind: Kind::UI { default: None } }
    );
    let e = bind("card", Some(Kind::UI { default: None })).unwrap_err();
    assert_eq!(e.kind, ErrorKind::Malformed);
    // a mismatch names both kinds
    let e = bind("$x", Some(Kind::string())).unwrap_err();
    assert_eq!(
        (e.kind, e.subject.as_str()),
        (ErrorKind::TypeMismatch, "expected string found integer")
    );
    let e = bind("$p", Some(Kind::OrType { name: "person".to_string() })).unwrap_err();
    assert_eq!(e.subject, "expected person found person");
    let e = bind("$p.height", Some(Kind::integer())).unwrap_err();
    assert_eq!((e.kind, e.subject.as_str()), (ErrorKind::NotFound, "height"));
    let e = bind("$nothing", Some(Kind::integer())).unwrap_err();
    assert_eq!((e.kind, e.subject.as_str()), (ErrorKind::NotFound, "nothing"));
}

fn argument(name: &str, kind: Kind) -> PropertyValue {
    PropertyValue::Variable { name: name.to_string(), kind }
}

fn equals(name: &str, n: i64) -> Boolean {
    Boolean::Equal {
        left: argument(name, Kind::integer()),
        right: literal(Value::Integer { value: n }),
    }
}

#[test]
fn the_last_condition_that_holds_decides() {
    let aliases = aliases();
    let mut bag = bag();
    bag.insert(
        "foo#flag".to_string(),
        Thing::Variable(Variable {
            name: "foo#flag".to_string(),
            value: Value::Boolean { value: true },
            conditions: vec![
                (equals("x", 1), Value::Boolean { value: true }),
                (equals("x", 2), Value::Boolean { value: false }),
            ],
        }),
    );
    bag.insert(
        "foo#both".to_string(),
        Thing::Variable(Variable {
            name: "foo#both".to_string(),
            value: Value::Integer { value: 0 },
            conditions: vec![
                (Boolean::Literal { value: true }, Value::Integer { value: 1 }),
                (Boolean::Not { of: Box::new(equals("x", 7)) }, Value::Integer { value: 2 }),
                (equals("x", 7), Value::Integer { value: 3 }),
            ],
        }),
    );
    let doc = TDoc { name: "foo", aliases: &aliases, bag: &bag };
    let flag = PropertyValue::Reference { name: "foo#flag".to_string(), kind: Kind::boolean() };
    let both = PropertyValue::Reference { name: "foo#both".to_string(), kind: Kind::integer() };
    let mut arguments: OrderedMap<Value> = OrderedMap::new();
    arguments.insert("x".to_string(), Value::Integer { value: 2 });
    assert_eq!(flag.resolve(1, &arguments, &doc).unwrap(), Value::Boolean { value: false });
    // two conditions hold: the later one wins
    assert_eq!(both.resolve(1, &arguments, &doc).unwrap(), Value::Integer { value: 2 });
    arguments.insert("x".to_string(), Value::Integer { value: 1 });
    assert_eq!(flag.resolve(1, &arguments, &doc).unwrap(), Value::Boolean { value: true });
    arguments.insert("x".to_string(), Value::Integer { value: 7 });
    // no condition holds: the value of the variable stands
    assert_eq!(flag.resolve(1, &arguments, &doc).unwrap(), Value::Boolean { value: true });
    assert_eq!(both.resolve(1, &arguments, &doc).unwrap(), Value::Integer { value: 3 });
    // a condition that cannot be evaluated fails the whole
    let none: OrderedMap<Value> = OrderedMap::new();
    let e = flag.resolve(9, &none, &doc).unwrap_err();
    assert_eq!((e.kind, e.subject.as_str(), e.line_number), (ErrorKind::Malformed, "x", 9));
    assert_eq!(equals("x", 7).eval(1, &arguments, &doc).unwrap(), true);
    assert_eq!(
        Boolean::NotEqual {
            left: argument("x", Kind::integer()),
            right: literal(Value::Integer { value: 7 })
        }
        .eval(1, &arguments, &doc)
        .unwrap(),
        false
    );
}

#[test]
fn variables_come_from_the_arguments() {
    let (aliases, bag) = (aliases(), bag());
    let doc = TDoc { name: "foo", aliases: &aliases, bag: &bag };
    let mut arguments: OrderedMap<Value> = OrderedMap::new();
    let mut fields: OrderedMap<PropertyValue> = OrderedMap::new();
    fields.insert("name".to_string(), literal(string("Amitu", TextSource::Caption)));
    fields.insert(
        "age".to_string(),
        PropertyValue::Reference { name: "foo#x".to_string(), kind: Kind::integer() },
    );
    arguments.insert("p".to_string(), Value::Record { name: "foo#person".to_string(), fields });
    arguments.insert("n".to_string(), Value::Integer { value: 3 });
    let resolve = |p: PropertyValue| p.resolve(2, &arguments, &doc);
    assert_eq!(resolve(argument("n", Kind::integer())).unwrap(), Value::Integer { value: 3 });
    assert_eq!(
        resolve(argument("p.name", Kind::string())).unwrap(),
        string("Amitu", TextSource::Caption)
    );
    assert_eq!(resolve(argument("p.age", Kind::integer())).unwrap(), Value::Integer { value: 1 });
    let e = resolve(argument("p.height", Kind::integer())).unwrap_err();
    assert_eq!((e.kind, e.subject.as_str()), (ErrorKind::NotFound, "height"));
    let e = resolve(argument("n.height", Kind::integer())).unwrap_err();
    assert_eq!((e.kind, e.subject.as_str()), (ErrorKind::TypeMismatch, "n"));
    let e = resolve(argument("q.height", Kind::integer())).unwrap_err();
    assert_eq!((e.kind, e.subject.as_str()), (ErrorKind::NotFound, "q"));
    // missing: the default of the kind, nothing for an optional kind, else a failure
    assert_eq!(resolve(argument("k", with_default("5"))).unwrap(), Value::Integer { value: 5 });
    assert_eq!(
        resolve(argument("k", Kind::Optional { kind: Box::new(Kind::integer()) })).unwrap(),
        Value::Optional { data: Box::new(None), kind: Kind::integer() }
    );
    assert_eq!(
        resolve(argument("k", Kind::Optional { kind: Box::new(with_default("5")) })).unwrap(),
        Value::Optional { data: Box::new(Some(Value::Integer { value: 5 })), kind: with_default("5") }
    );
    let e = resolve(argument("k", Kind::integer())).unwrap_err();
    assert_eq!((e.kind, e.subject.as_str()), (ErrorKind::Malformed, "k"));
    // an object has every property evaluated
    let mut values: OrderedMap<PropertyValue> = OrderedMap::new();
    values.insert("a".to_string(), argument("n", Kind::integer()));
    values.insert(
        "b".to_string(),
        PropertyValue::Reference { name: "foo#x".to_string(), kind: Kind::integer() },
    );
    let mut resolved: OrderedMap<PropertyValue> = OrderedMap::new();
    resolved.insert("a".to_string(), literal(Value::Integer { value: 3 }));
    resolved.insert("b".to_string(), literal(Value::Integer { value: 1 }));
    assert_eq!(
        resolve(literal(Value::Object { values })).unwrap(),
        Value::Object { values: resolved }
    );
    // the name of a component gives the component as a value
    assert_eq!(
        resolve(PropertyValue::Reference {
            name: "foo#card".to_string(),
            kind: Kind::UI { default: None }
        })
        .unwrap(),
        Value::UI {
            name: "foo#card".to_string(),
            kind: Kind::UI { default: None },
            data: OrderedMap::new()
        }
    );
    // a name that nothing declares falls back on the kind
    assert_eq!(
        resolve(PropertyValue::Reference { name: "foo#nope".to_string(), kind: with_default("8") })
            .unwrap(),
        Value::Integer { value: 8 }
    );
    assert!(resolve(PropertyValue::Reference {
        name: "foo#nope".to_string(),
        kind: Kind::integer()
    })
    .is_err());
}

#[test]
fn declarations_in_a_circle_are_refused() {
    let aliases = aliases();
    let mut bag: OrderedMap<Thing> = OrderedMap::new();
    let me = PropertyValue::Reference { name: "foo#a".to_string(), kind: Kind::integer() };
    bag.insert(
        "foo#a".to_string(),
        Thing::Variable(Variable {
            name: "foo#a".to_string(),
            value: Value::Integer { value: 0 },
            conditions: vec![(
                Boolean::Equal { left: me, right: literal(Value::Integer { value: 0 }) },
                Value::Integer { value: 1 },
            )],
        }),
    );
    let doc = TDoc { name: "foo", aliases: &aliases, bag: &bag };
    let arguments: OrderedMap<Value> = OrderedMap::new();
    let e = PropertyValue::Reference { name: "foo#a".to_string(), kind: Kind::integer() }
        .resolve(5, &arguments, &doc)
        .unwrap_err();
    assert_eq!((e.kind, e.line_number), (ErrorKind::Circular, 5));
    assert_eq!(e.subject, "declarations refer to one another in a circle");
    // a circle through the arguments
    let mut arguments: OrderedMap<Value> = OrderedMap::new();
    let mut fields: OrderedMap<PropertyValue> = OrderedMap::new();
    fields.insert("f".to_string(), argument("a.f", Kind::integer()));
    arguments.insert("a".to_string(), Value::Record { name: "foo#r".to_string(), fields });
    let e = argument("a.f", Kind::integer()).resolve(5, &arguments, &doc).unwrap_err();
    assert_eq!(e.kind, ErrorKind::Circular);
    let mut values: OrderedMap<PropertyValue> = OrderedMap::new();
    values.insert("x".to_string(), argument("o", Kind::object()));
    arguments.insert("o".to_string(), Value::Object { values });
    let e = argument("o", Kind::object()).resolve(5, &arguments, &doc).unwrap_err();
    assert_eq!(e.kind, ErrorKind::Circular);
}

fn negated(times: usize, of: Boolean) -> Boolean {
    let mut b = of;
    for _ in 0..times {
        b = Boolean::Not { of: Box::new(b) };
    }
    b
}

#[test]
fn only_circles_are_refused() {
    let aliases = aliases();
    // conditions may nest as deep as they like
    let mut bag: OrderedMap<Thing> = OrderedMap::new();
    bag.insert(
        "foo#deep".to_string(),
        Thing::Variable(Variable {
            name: "foo#deep".to_string(),
            value: Value::Integer { value: 0 },
            conditions: vec![
                (Boolean::Literal { value: true }, Value::Integer { value: 1 }),
                (negated(1022, Boolean::Literal { value: true }), Value::Integer { value: 2 }),
            ],
        }),
    );
    bag.insert(
        "foo#still".to_string(),
        Thing::Variable(Variable {
            name: "foo#still".to_string(),
            value: Value::Integer { value: 0 },
            conditions: vec![(
                negated(1022, Boolean::Literal { value: false }),
                Value::Integer { value: 1 },
            )],
        }),
    );
    // a chain through every declaration of the table
    for i in 0..50 {
        let next = PropertyValue::Reference {
            name: format!("foo#link{}", i + 1),
            kind: Kind::integer(),
        };
        bag.insert(
            format!("foo#link{}", i),
            Thing::Variable(Variable {
                name: format!("foo#link{}", i),
                value: Value::Integer { value: i },
                conditions: vec![(
                    Boolean::IsNotNull { value: next },
                    Value::Integer { value: 100 + i },
                )],
            }),
        );
    }
    bag.insert("foo#link50".to_string(), variable("foo#link50", Value::Integer { value: 50 }));
    let doc = TDoc { name: "foo", aliases: &aliases, bag: &bag };
    let none: OrderedMap<Value> = OrderedMap::new();
    let reference =
        |name: &str| PropertyValue::Reference { name: name.to_string(), kind: Kind::integer() };
    assert_eq!(reference("foo#deep").resolve(1, &none, &doc).unwrap(), Value::Integer { value: 2 });
    assert_eq!(reference("foo#still").resolve(1, &none, &doc).unwrap(), Value::Integer { value: 0 });
    assert_eq!(
        negated(1022, Boolean::Literal { value: true }).eval(1, &none, &doc).unwrap(),
        true
    );
    assert_eq!(
        reference("foo#link0").resolve(1, &none, &doc).unwrap(),
        Value::Integer { value: 100 }
    );
    // a chain through the fields of one declaration
    let object = |next: &str| {
        let mut values: OrderedMap<PropertyValue> = OrderedMap::new();
        values.insert("p".to_string(), reference(next));
        literal(Value::Object { values })
    };
    let mut fields: OrderedMap<PropertyValue> = OrderedMap::new();
    fields.insert("f1".to_string(), object("lone.f2"));
    fields.insert("f2".to_string(), object("lone.f3"));
    fields.insert("f3".to_string(), literal(Value::Integer { value: 3 }));
    let mut lone: OrderedMap<Thing> = OrderedMap::new();
    lone.insert(
        "foo#lone".to_string(),
        variable("foo#lone", Value::Record { name: "foo#r".to_string(), fields }),
    );
    let alone = TDoc { name: "foo", aliases: &aliases, bag: &lone };
    let inner = |v: Value| {
        let mut values: OrderedMap<PropertyValue> = OrderedMap::new();
        values.insert("p".to_string(), literal(v));
        Value::Object { values }
    };
    assert_eq!(
        reference("lone.f1").resolve(1, &none, &alone).unwrap(),
        inner(inner(Value::Integer { value: 3 }))
    );
    // a field that refers to a variable with a deep condition
    let mut arguments: OrderedMap<Value> = OrderedMap::new();
    let mut fields: OrderedMap<PropertyValue> = OrderedMap::new();
    fields.insert("f".to_string(), reference("foo#still"));
    arguments.insert("a".to_string(), Value::Record { name: "foo#r".to_string(), fields });
    assert_eq!(
        argument("a.f", Kind::integer()).resolve(1, &arguments, &doc).unwrap(),
        reference("foo#still").resolve(1, &arguments, &doc).unwrap()
    );
}

#[test]
fn a_person_of_a_list_resolves_to_literals() {
    // a record `person`, and a list of people whose names are literals and whose
    // ages refer to a variable of the document
    let aliases = aliases();
    let mut bag = bag();
    let mut fields: OrderedMap<PropertyValue> = OrderedMap::new();
    fields.insert("name".to_string(), literal(string("Arpita", TextSource::Header)));
    fields.insert(
        "age".to_string(),
        PropertyValue::Reference { name: "foo#x".to_string(), kind: Kind::integer() },
    );
    let people = Value::List {
        data: vec![Value::Record { name: "foo#person".to_string(), fields }],
        kind: Kind::Record { name: "foo#person".to_string(), default: None },
    };
    bag.insert("foo#people".to_string(), variable("foo#people", people));
    let doc = TDoc { name: "foo", aliases: &aliases, bag: &bag };

    // the tree is re-nested and identified first; resolution does not depend on it
    let heading = |region: Region| {
        Element::Column(Column {
            common: Common { region: Some(region), ..Common::default() },
            container: Container::default(),
        })
    };
    let mut tree = vec![heading(Region::H1), Element::Text(Text::default()), heading(Region::H1)];
    Element::renesting_on_region(&mut tree);
    Element::set_id(&mut tree, &vec![], None);
    assert_eq!(tree.len(), 2);

    let list = PropertyValue::Reference {
        name: "foo#people".to_string(),
        kind: Kind::List {
            kind: Box::new(Kind::Record { name: "foo#person".to_string(), default: None }),
            default: None,
        },
    };
    let none: OrderedMap<Value> = OrderedMap::new();
    let first = match list.resolve(1, &none, &doc).unwrap() {
        Value::List { mut data, .. } => data.remove(0),
        other => panic!("expected a list, found {:?}", other),
    };
    let mut arguments: OrderedMap<Value> = OrderedMap::new();
    arguments.insert("person".to_string(), first);
    let name = argument("person.name", Kind::string()).resolve(1, &arguments, &doc).unwrap();
    let age = argument("person.age", Kind::integer()).resolve(1, &arguments, &doc).unwrap();
    assert_eq!(name, string("Arpita", TextSource::Header));
    assert_eq!(age, Value::Integer { value: 1 });
}

#[test]
fn values_know_their_kind_and_text() {
    assert_eq!(Value::Integer { value: -5 }.to_string(), Some("-5".to_string()));
    assert_eq!(Value::Integer { value: i64::MIN }.to_string(), Some(i64::MIN.to_string()));
    assert_eq!(Value::Integer { value: 0 }.to_string(), Some("0".to_string()));
    assert_eq!(Value::Boolean { value: true }.to_string(), Some("true".to_string()));
    assert_eq!(
        Value::Optional { data: Box::new(None), kind: Kind::integer() }.to_string(),
        Some("".to_string())
    );
    assert_eq!(Value::List { data: vec![], kind: Kind::integer() }.to_string(), None);
    let mut values: OrderedMap<PropertyValue> = OrderedMap::new();
    values.insert("q".to_string(), literal(string("say \"hi\"", TextSource::Header)));
    values.insert("skipped".to_string(), argument("n", Kind::integer()));
    assert_eq!(
        Value::Object { values }.to_string(),
        Some("{\"q\":\"say \\\"hi\\\"\"}".to_string())
    );
    assert_eq!(string("a", TextSource::Body).kind(), Kind::body());
    assert_eq!(string("a", TextSource::Caption).kind(), Kind::caption());
    assert_eq!(string("a", TextSource::Header).kind(), Kind::string());
    assert!(string("a", TextSource::Body).is_equal(&string("a", TextSource::Caption)));
    assert!(!string("a", TextSource::Body).is_equal(&string("b", TextSource::Body)));
    assert!(!Value::Integer { value: 1 }.is_equal(&Value::Boolean { value: true }));
    assert!(Value::Nothing { kind: Kind::integer() }.is_null());
    assert!(Value::Optional { data: Box::new(None), kind: Kind::integer() }.is_null());
    assert!(!Value::Integer { value: 1 }.is_null());
    assert!(Value::List { data: vec![], kind: Kind::integer() }.is_empty());
    assert!(!Value::Integer { value: 1 }.is_empty());
    assert_eq!(
        literal(Value::List { data: vec![], kind: Kind::integer() }).kind(),
        Kind::List { kind: Box::new(Kind::integer()), default: None }
    );
    assert_eq!(TextSource::from_kind(&Kind::caption(), "d", 1).unwrap(), TextSource::Caption);
    assert_eq!(TextSource::from_kind(&Kind::caption_or_body(), "d", 1).unwrap(), TextSource::Caption);
    assert_eq!(TextSource::from_kind(&Kind::body(), "d", 1).unwrap(), TextSource::Body);
    assert_eq!(TextSource::from_kind(&Kind::string(), "d", 1).unwrap(), TextSource::Header);
    let e = TextSource::from_kind(&Kind::integer(), "d", 3).unwrap_err();
    assert_eq!((e.kind, e.subject.as_str(), e.line_number), (ErrorKind::TypeMismatch, "integer", 3));
    assert!(Kind::Optional { kind: Box::new(Kind::caption()) }.is_same_as(&Kind::body()));
    assert!(!Kind::integer().is_same_as(&Kind::decimal()));
    assert!(Kind::Record { name: "a".to_string(), default: None }
        .is_same_as(&Kind::Record { name: "a".to_string(), default: Some("x".to_string()) }));
    assert!(!Kind::Record { name: "a".to_string(), default: None }
        .is_same_as(&Kind::Record { name: "b".to_string(), default: None }));
}
