use ftd::{Header, Section};
use ftd::{Kind, Record, TDoc, Thing};
use ftd::{ErrorKind, OrderedMap, PropertyValue, TextSource, Value, Variable, VariableData};

fn section(name: &str, caption: Option<&str>, body: Option<&str>) -> Section {
    Section {
        name: name.to_string(),
        caption: caption.map(|c| c.to_string()),
        header: Header(vec![]),
        body: body.map(|b| (2, b.to_string())),
        sub_sections: vec![],
        line_number: 1,
    }
}

fn declared(name: &str, caption: Option<&str>, body: Option<&str>) -> Variable {
    let bag: OrderedMap<Thing> = OrderedMap::new();
    let aliases: OrderedMap<String> = OrderedMap::new();
    let doc = TDoc { name: "foo", aliases: &aliases, bag: &bag };
    Variable::from_p1(&section(name, caption, body), &doc).unwrap()
}

fn plain(name: &str, value: Value) -> Variable {
    Variable { name: name.to_string(), value, conditions: vec![] }
}

#[test]
fn int_variable() {
    assert_eq!(declared("integer x", Some("10"), None), plain("x", Value::Integer { value: 10 }));
}

#[test]
fn float_variable() {
    let v = declared("decimal x", Some("10"), None);
    assert_eq!(v.name, "x");
    assert!(v.conditions.is_empty());
    match v.value {
        Value::Decimal { value } => assert_eq!(value.parse::<f64>().unwrap(), 10.0),
        other => panic!("expected a decimal, found {:?}", other),
    }
}

#[test]
fn bool_variable() {
    assert_eq!(declared("boolean x", Some("true"), None), plain("x", Value::Boolean { value: true }));
    assert_eq!(
        declared("boolean x", Some("false"), None),
        plain("x", Value::Boolean { value: false })
    );
}

#[test]
fn str_variable() {
    assert_eq!(
        declared("string x", Some("hello"), None),
        plain("x", Value::String { text: "hello".to_string(), source: TextSource::Caption })
    );
    assert_eq!(
        declared("string x", None, Some("hello world\nyo!")),
        plain(
            "x",
            Value::String { text: "hello world\nyo!".to_string(), source: TextSource::Body }
        )
    );
    assert_eq!(
        declared("string x", Some("10"), None),
        plain("x", Value::String { text: "10".to_string(), source: TextSource::Caption })
    );
    assert_eq!(
        declared("string x", Some("true"), None),
        plain("x", Value::String { text: "true".to_string(), source: TextSource::Caption })
    );
}

#[test]
fn optional_without_value_is_empty() {
    assert_eq!(
        declared("optional integer x", None, None),
        plain("x", Value::Optional { data: Box::new(None), kind: Kind::integer() })
    );
    assert_eq!(
        declared("optional integer x", Some("7"), None),
        plain(
            "x",
            Value::Optional { data: Box::new(Some(Value::Integer { value: 7 })), kind: Kind::integer() }
        )
    );
}

#[test]
fn declarations_that_fail() {
    let bag: OrderedMap<Thing> = OrderedMap::new();
    let aliases: OrderedMap<String> = OrderedMap::new();
    let doc = TDoc { name: "foo", aliases: &aliases, bag: &bag };
    let e = Variable::from_p1(&section("integer x", Some("ten"), None), &doc).unwrap_err();
    assert_eq!(e.kind, ErrorKind::TypeMismatch);
    assert_eq!(e.subject, "ten");
    assert_eq!(e.doc_id, "foo");
    assert_eq!(e.line_number, 1);
    let e = Variable::from_p1(&section("integer x", None, None), &doc).unwrap_err();
    assert_eq!(e.kind, ErrorKind::NotFound);
    let e = Variable::from_p1(&section("record x", None, None), &doc).unwrap_err();
    assert_eq!(e.kind, ErrorKind::Malformed);
    let e = Variable::from_p1(&section("string x", Some("a"), Some("b")), &doc).unwrap_err();
    assert_eq!(e.kind, ErrorKind::Malformed);
    let e = Variable::from_p1(&section("x", Some("a"), None), &doc).unwrap_err();
    assert_eq!(e.kind, ErrorKind::Malformed);
    // an unknown kind declares a component, not a variable
    let e = Variable::from_p1(&section("ftd.text x", Some("a"), None), &doc).unwrap_err();
    assert_eq!(e.kind, ErrorKind::Malformed);
    assert_eq!(e.message(), "foo:1 -> malformed: ftd.text x");
}

#[test]
fn name_and_kind_of_declarations() {
    let bag: OrderedMap<Thing> = OrderedMap::new();
    let aliases: OrderedMap<String> = OrderedMap::new();
    let doc = TDoc { name: "foo", aliases: &aliases, bag: &bag };
    let d = VariableData::get_name_kind("string  list   names", &doc, 1, &vec![]).unwrap();
    assert_eq!((d.name.as_str(), d.kind.as_str()), ("names", "string"));
    assert!(d.is_list() && d.is_variable() && !d.is_optional() && !d.is_none());
    let d = VariableData::get_name_kind("caption or body text", &doc, 1, &vec![]).unwrap();
    assert_eq!((d.name.as_str(), d.kind.as_str()), ("text", "caption or body"));
    assert!(d.is_none() && d.is_variable());
    let d = VariableData::get_name_kind("ftd.column foo", &doc, 1, &vec![]).unwrap();
    assert!(!d.is_variable());
    let d =
        VariableData::get_name_kind("ftd.column foo", &doc, 1, &vec!["ftd.column".to_string()])
            .unwrap();
    assert!(d.is_variable());
    assert!(VariableData::get_name_kind("a b c d e", &doc, 1, &vec![]).is_err());
    assert!(VariableData::get_name_kind("a b c", &doc, 1, &vec![]).is_err());
    assert!(VariableData::get_name_kind("container", &doc, 1, &vec![]).is_err());
    assert!(VariableData::get_name_kind("map x", &doc, 1, &vec![]).is_err());
}

fn person() -> Record {
    let mut fields: OrderedMap<Kind> = OrderedMap::new();
    fields.insert("name".to_string(), Kind::caption());
    fields.insert("age".to_string(), Kind::integer());
    fields.insert("bio".to_string(), Kind::body());
    Record {
        name: "foo#person".to_string(),
        fields,
        instances: vec![],
        order: vec!["name".to_string(), "age".to_string(), "bio".to_string()],
    }
}

#[test]
fn record_from_section() {
    let mut bag: OrderedMap<Thing> = OrderedMap::new();
    bag.insert("foo#person".to_string(), Thing::Record(person()));
    let aliases: OrderedMap<String> = OrderedMap::new();
    let doc = TDoc { name: "foo", aliases: &aliases, bag: &bag };
    let mut written = section("person amitu", Some("Amit Upadhyay"), Some("  /not a comment here"));
    written.header = Header(vec![(2, "age".to_string(), "40".to_string())]);
    // the body starts with `/` once trimmed, so it is a comment and there is no bio
    let e = Variable::from_p1(&written, &doc).unwrap_err();
    assert_eq!((e.kind, e.subject.as_str()), (ErrorKind::NotFound, "bio"));
    written.body = Some((3, "\\/slashed".to_string()));
    let v = Variable::from_p1(&written, &doc).unwrap();
    let mut fields: OrderedMap<PropertyValue> = OrderedMap::new();
    fields.insert(
        "name".to_string(),
        PropertyValue::Value {
            value: Value::String { text: "Amit Upadhyay".to_string(), source: TextSource::Caption },
        },
    );
    fields.insert("age".to_string(), PropertyValue::Value { value: Value::Integer { value: 40 } });
    fields.insert(
        "bio".to_string(),
        PropertyValue::Value {
            value: Value::String { text: "/slashed".to_string(), source: TextSource::Body },
        },
    );
    assert_eq!(v, plain("amitu", Value::Record { name: "foo#person".to_string(), fields }));
}

#[test]
fn lists_maps_and_updates() {
    let mut bag: OrderedMap<Thing> = OrderedMap::new();
    bag.insert("foo#person".to_string(), Thing::Record(person()));
    let aliases: OrderedMap<String> = OrderedMap::new();
    let doc = TDoc { name: "foo", aliases: &aliases, bag: &bag };
    let mut list = Variable::list_from_p1(&section("integer list ages", None, None), &doc).unwrap();
    assert_eq!(list, plain("foo#ages", Value::List { data: vec![], kind: Kind::integer() }));
    list.update_from_p1(&section("ages", Some("4"), None), &doc).unwrap();
    list.update_from_p1(&section("ages", Some("5"), None), &doc).unwrap();
    assert_eq!(
        list.value,
        Value::List {
            data: vec![Value::Integer { value: 4 }, Value::Integer { value: 5 }],
            kind: Kind::integer()
        }
    );
    let before = Value::List {
        data: vec![Value::Integer { value: 4 }, Value::Integer { value: 5 }],
        kind: Kind::integer(),
    };
    assert!(list.update_from_p1(&section("ages", Some("five"), None), &doc).is_err());
    assert_eq!(list.value, before);
    assert!(Variable::list_from_p1(&section("integer ages", None, None), &doc).is_err());

    let mut m = section("map scores", None, None);
    m.header = Header(vec![(2, "type".to_string(), "integer".to_string())]);
    let mut map = Variable::map_from_p1(&m, &doc).unwrap();
    assert_eq!(
        map,
        plain("foo#scores", Value::Mapping { data: OrderedMap::new(), kind: Kind::integer() })
    );
    let e = map.update_from_p1(&section("scores", Some("4"), None), &doc).unwrap_err();
    assert_eq!(e.kind, ErrorKind::Malformed);
    assert!(Variable::map_from_p1(&section("map scores", None, None), &doc).is_err());

    let mut opt = plain(
        "x",
        Value::Optional { data: Box::new(Some(Value::Integer { value: 1 })), kind: Kind::integer() },
    );
    opt.update_from_p1(&section("x", Some("nope"), None), &doc).unwrap();
    assert_eq!(opt.value, Value::Optional { data: Box::new(None), kind: Kind::integer() });

    let s = plain("s", Value::String { text: "a".to_string(), source: TextSource::Caption });
    assert_eq!(
        s.get_value(&section("s", Some("b"), None), &doc).unwrap(),
        Value::String { text: "b".to_string(), source: TextSource::Caption }
    );
    assert!(list.get_value(&section("s", Some("b"), None), &doc).is_err());
}

#[test]
fn guesses() {
    assert_eq!(ftd::guess_type("true", false).unwrap(), Value::Boolean { value: true });
    assert_eq!(ftd::guess_type("-12", false).unwrap(), Value::Integer { value: -12 });
    assert_eq!(
        ftd::guess_type("1.5", false).unwrap(),
        Value::Decimal { value: "1.5".to_string() }
    );
    assert_eq!(
        ftd::guess_type("1.5.2", false).unwrap(),
        Value::String { text: "1.5.2".to_string(), source: TextSource::Caption }
    );
    assert_eq!(
        ftd::guess_type("true", true).unwrap(),
        Value::String { text: "true".to_string(), source: TextSource::Body }
    );
}

#[test]
fn objects_from_headers() {
    let bag: OrderedMap<Thing> = OrderedMap::new();
    let aliases: OrderedMap<String> = OrderedMap::new();
    let doc = TDoc { name: "foo", aliases: &aliases, bag: &bag };
    let mut written = section("object o", None, None);
    written.header = Header(vec![
        (2, "n".to_string(), "10".to_string()),
        (3, "b".to_string(), "true".to_string()),
        (4, "s".to_string(), "hello".to_string()),
    ]);
    let v = Variable::from_p1(&written, &doc).unwrap();
    let mut values: OrderedMap<PropertyValue> = OrderedMap::new();
    values.insert(
        "n".to_string(),
        PropertyValue::Value { value: Value::Decimal { value: "10".to_string() } },
    );
    values.insert("b".to_string(), PropertyValue::Value { value: Value::Boolean { value: true } });
    values.insert(
        "s".to_string(),
        PropertyValue::Value {
            value: Value::String { text: "hello".to_string(), source: TextSource::Header },
        },
    );
    assert_eq!(v, plain("o", Value::Object { values }));
    // the text of an object is the JSON of its members, keys in order
    assert_eq!(
        v.value.to_string(),
        Some("{\"b\":\"true\",\"n\":\"10\",\"s\":\"hello\"}".to_string())
    );
}
