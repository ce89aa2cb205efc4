use ftd::{Header, Section};
use ftd::{Kind, Record, TDoc, Thing};
use ftd::{ErrorKind, Json, OrderedMap, PropertyValue, TextSource, Value};

fn section(name: &str) -> Section {
    Section {
        name: name.to_string(),
        caption: None,
        header: Header(vec![]),
        body: None,
        sub_sections: vec![],
        line_number: 1,
    }
}

fn text(s: &str) -> Json {
    Json::String(s.to_string())
}

fn number(n: i64) -> Json {
    Json::Number { integer: Some(n), text: n.to_string() }
}

fn header_string(s: &str) -> PropertyValue {
    PropertyValue::Value { value: Value::String { text: s.to_string(), source: TextSource::Header } }
}

fn person() -> Record {
    let mut fields: OrderedMap<Kind> = OrderedMap::new();
    fields.insert("name".to_string(), Kind::string());
    fields.insert("age".to_string(), Kind::integer());
    fields.insert("address".to_string(), Kind::string());
    fields.insert("bio".to_string(), Kind::string());
    Record {
        name: "foo/bar#person".to_string(),
        fields,
        instances: vec![],
        order: vec![
            "name".to_string(),
            "age".to_string(),
            "address".to_string(),
            "bio".to_string(),
        ],
    }
}

fn person_value(name: &str, age: i64, address: &str, bio: &str) -> Value {
    let mut fields: OrderedMap<PropertyValue> = OrderedMap::new();
    fields.insert("name".to_string(), header_string(name));
    fields.insert("age".to_string(), PropertyValue::Value { value: Value::Integer { value: age } });
    fields.insert("bio".to_string(), header_string(bio));
    fields.insert("address".to_string(), header_string(address));
    Value::Record { name: "foo/bar#person".to_string(), fields }
}

#[test]
fn string_list_from_rows() {
    let data: Vec<Vec<Json>> = vec![vec![text("Prayagraj")], vec![text("Varanasi")]];
    let aliases: OrderedMap<String> = OrderedMap::new();
    let bag: OrderedMap<Thing> = OrderedMap::new();
    let doc = TDoc { name: "foo/bar", aliases: &aliases, bag: &bag };
    let value_from_json = doc.from_json_rows(&section("string list city"), &data).unwrap();
    let value = Value::List {
        data: vec![
            Value::String { text: "Prayagraj".to_string(), source: TextSource::Header },
            Value::String { text: "Varanasi".to_string(), source: TextSource::Header },
        ],
        kind: Kind::String { caption: false, body: false, default: None },
    };
    assert_eq!(value_from_json, value);
}

#[test]
fn record_list_from_rows() {
    let mut bag: OrderedMap<Thing> = OrderedMap::new();
    bag.insert("foo/bar#person".to_string(), Thing::Record(person()));
    let data: Vec<Vec<Json>> = vec![
        vec![text("Amitu"), number(20), text("Bangalore"), text("CEO of fifthTry")],
        vec![text("Arpita"), number(20), text("Varanasi"), text("Software Developer of fifthTry")],
    ];
    let aliases: OrderedMap<String> = OrderedMap::new();
    let doc = TDoc { name: "foo/bar", aliases: &aliases, bag: &bag };
    let value_from_json = doc.from_json_rows(&section("person list people"), &data).unwrap();
    let value = Value::List {
        data: vec![
            person_value("Amitu", 20, "Bangalore", "CEO of fifthTry"),
            person_value("Arpita", 20, "Varanasi", "Software Developer of fifthTry"),
        ],
        kind: Kind::Record { name: "foo/bar#person".to_string(), default: None },
    };
    assert_eq!(value_from_json, value);
}

#[test]
fn rows_that_fail() {
    let mut bag: OrderedMap<Thing> = OrderedMap::new();
    bag.insert("foo/bar#person".to_string(), Thing::Record(person()));
    let aliases: OrderedMap<String> = OrderedMap::new();
    let doc = TDoc { name: "foo/bar", aliases: &aliases, bag: &bag };
    // a row that is too short names the field it has nothing for
    let short: Vec<Vec<Json>> = vec![vec![text("Amitu"), number(20)]];
    let e = doc.from_json_rows(&section("person list people"), &short).unwrap_err();
    assert_eq!((e.kind, e.subject.as_str()), (ErrorKind::NotFound, "address"));
    // an item of the wrong sort
    let wrong: Vec<Vec<Json>> = vec![vec![number(1)]];
    let e = doc.from_json_rows(&section("string list city"), &wrong).unwrap_err();
    assert_eq!((e.kind, e.subject.as_str()), (ErrorKind::TypeMismatch, "string"));
    // a section that declares no list
    let e = doc.from_json_rows(&section("city"), &wrong).unwrap_err();
    assert_eq!(e.kind, ErrorKind::Malformed);
    // a variable that is no list
    let e = doc.from_json_rows(&section("string city"), &wrong);
    assert!(e.is_err());
}

#[test]
fn single_rows_and_whole_values() {
    let mut bag: OrderedMap<Thing> = OrderedMap::new();
    bag.insert("foo/bar#person".to_string(), Thing::Record(person()));
    let aliases: OrderedMap<String> = OrderedMap::new();
    let doc = TDoc { name: "foo/bar", aliases: &aliases, bag: &bag };
    let mut written = section("person amitu");
    written.header = Header(vec![
        (2, "name".to_string(), "x".to_string()),
        (2, "age".to_string(), "1".to_string()),
        (2, "address".to_string(), "y".to_string()),
        (2, "bio".to_string(), "z".to_string()),
    ]);
    let row = vec![text("Amitu"), number(20), text("Bangalore"), text("CEO")];
    assert_eq!(
        doc.from_json_row(&written, &row).unwrap(),
        person_value("Amitu", 20, "Bangalore", "CEO")
    );
    let mut members: OrderedMap<Json> = OrderedMap::new();
    members.insert("name".to_string(), text("Amitu"));
    members.insert("age".to_string(), number(20));
    members.insert("address".to_string(), text("Bangalore"));
    members.insert("bio".to_string(), text("CEO"));
    assert_eq!(
        doc.from_json(&Json::Object(members), &written).unwrap(),
        person_value("Amitu", 20, "Bangalore", "CEO")
    );
    let mut missing: OrderedMap<Json> = OrderedMap::new();
    missing.insert("name".to_string(), text("Amitu"));
    let e = doc.from_json(&Json::Object(missing), &written).unwrap_err();
    assert_eq!((e.kind, e.subject.as_str()), (ErrorKind::NotFound, "address"));
    let list = Json::Array(vec![number(1), number(2)]);
    assert_eq!(
        doc.from_json(&list, &section("integer list ages")).unwrap(),
        Value::List {
            data: vec![Value::Integer { value: 1 }, Value::Integer { value: 2 }],
            kind: Kind::integer()
        }
    );
    let half = Json::Number { integer: None, text: "0.5".to_string() };
    assert_eq!(
        doc.from_json(&half, &{
            let mut s = section("decimal d");
            s.caption = Some("1.0".to_string());
            s
        })
        .unwrap(),
        Value::Decimal { value: "0.5".to_string() }
    );
    assert!(doc.from_json(&Json::Null, &section("integer list ages")).is_err());
    assert!(doc.from_json(&Json::Bool(true), &section("nothing")).is_err());
}
