use ftd::dependencies::DependencyType;
use ftd::{
    AttributeType, Column, Common, Condition, ConditionalAttribute, ConditionalValue,
    ConditionalValueWithDefault, Container, Data, Dependencies, Element, Event,
    ExternalChildrenCondition, OrderedMap, Region, Row, Scene, Text,
};

fn text(data_id: Option<&str>) -> Element {
    Element::Text(Text {
        common: Common { data_id: data_id.map(|s| s.to_string()), ..Common::default() },
        ..Text::default()
    })
}

fn column(data_id: Option<&str>, children: Vec<Element>) -> Element {
    Element::Column(Column {
        common: Common { data_id: data_id.map(|s| s.to_string()), ..Common::default() },
        container: Container { children, ..Container::default() },
    })
}

fn row(data_id: Option<&str>, children: Vec<Element>) -> Element {
    Element::Row(Row {
        common: Common { data_id: data_id.map(|s| s.to_string()), ..Common::default() },
        container: Container { children, ..Container::default() },
    })
}

fn with_slot(e: Element, open: &str, paths: Vec<Vec<usize>>, kids: Vec<Element>) -> Element {
    match e {
        Element::Column(mut c) => {
            c.container.external_children = Some((open.to_string(), paths, kids));
            Element::Column(c)
        }
        Element::Row(mut c) => {
            c.container.external_children = Some((open.to_string(), paths, kids));
            Element::Row(c)
        }
        other => other,
    }
}

fn id_of(e: &Element) -> Option<&str> {
    e.get_common().and_then(|c| c.data_id.as_deref())
}

fn children_of(e: &Element) -> &Vec<Element> {
    match e {
        Element::Column(c) => &c.container.children,
        Element::Row(c) => &c.container.children,
        Element::Scene(c) => &c.container.children,
        _ => panic!("no container"),
    }
}

fn slot_of(e: &Element) -> &Vec<Element> {
    match e {
        Element::Column(c) => &c.container.external_children.as_ref().unwrap().2,
        Element::Row(c) => &c.container.external_children.as_ref().unwrap().2,
        _ => panic!("no container"),
    }
}

#[test]
fn identifiers_tell_the_place() {
    let mut tree =
        vec![text(None), column(None, vec![text(None), Element::Null, text(Some("a"))])];
    Element::set_id(&mut tree, &vec![], None);
    assert_eq!(id_of(&tree[0]), Some("0"));
    assert_eq!(id_of(&tree[1]), Some("1"));
    let inner = children_of(&tree[1]);
    assert_eq!(id_of(&inner[0]), Some("1,0"));
    assert_eq!(inner[1], Element::Null);
    assert_eq!(id_of(&inner[2]), Some("a:1,2"));

    let mut tree = vec![text(None), row(Some("r"), vec![text(None)])];
    Element::set_id(&mut tree, &vec![3, 10], Some("ns".to_string()));
    assert_eq!(id_of(&tree[0]), Some("3,10,0:ns"));
    assert_eq!(id_of(&tree[1]), Some("r:3,10,1:ns"));
    assert_eq!(id_of(&children_of(&tree[1])[0]), Some("3,10,1,0:ns"));
}

fn slotted() -> Vec<Element> {
    let injected = column(None, vec![text(None), text(None)]);
    let untouched = text(None);
    vec![
        text(None),
        with_slot(
            column(None, vec![row(Some("slot"), vec![])]),
            "slot",
            vec![vec![0]],
            vec![injected, untouched],
        ),
    ]
}

#[test]
fn what_comes_in_through_a_slot_is_marked() {
    let mut tree = slotted();
    Element::set_id(&mut tree, &vec![], None);
    assert_eq!(id_of(&tree[1]), Some("1"));
    assert_eq!(id_of(&children_of(&tree[1])[0]), Some("slot:1,0"));
    let slot = slot_of(&tree[1]);
    assert_eq!(id_of(&slot[0]), Some("slot-external:1"));
    assert_eq!(id_of(&children_of(&slot[0])[0]), Some("1,0,0:slot-external:1"));
    assert_eq!(id_of(&children_of(&slot[0])[1]), Some("1,0,1:slot-external:1"));
    // only the column at the head of what came in is identified
    assert_eq!(id_of(&slot[1]), None);

    // inside a namespace the namespace goes in front
    let mut tree = slotted();
    Element::set_id(&mut tree, &vec![], Some("outer".to_string()));
    let slot = slot_of(&tree[1]);
    assert_eq!(id_of(&slot[0]), Some("outer.slot-external:1"));
    assert_eq!(id_of(&children_of(&slot[0])[0]), Some("1,0,0:outer.slot-external:1"));
}

#[test]
fn identifiers_are_determined() {
    let mut first = slotted();
    let mut second = slotted();
    Element::set_id(&mut first, &vec![], None);
    Element::set_id(&mut second, &vec![], None);
    assert_eq!(first, second);
    // a change deep inside a slot leaves the siblings' identifiers alone
    let mut changed = slotted();
    changed[1] = with_slot(
        column(None, vec![row(Some("slot"), vec![])]),
        "slot",
        vec![vec![0]],
        vec![column(None, vec![column(None, vec![text(None)])])],
    );
    Element::set_id(&mut changed, &vec![], None);
    assert_eq!(id_of(&changed[0]), id_of(&first[0]));
    assert_eq!(id_of(&changed[1]), id_of(&first[1]));
    assert_eq!(id_of(&children_of(&changed[1])[0]), id_of(&children_of(&first[1])[0]));
}

fn condition(chain: &[&str], set_at: &str) -> ExternalChildrenCondition {
    ExternalChildrenCondition {
        condition: chain.iter().map(|s| s.to_string()).collect(),
        set_at: set_at.to_string(),
    }
}

#[test]
fn slots_have_their_conditions() {
    let mut tree = slotted();
    Element::set_id(&mut tree, &vec![], None);
    let open = Some("slot".to_string());
    // from the container: the path leads to the row that is the slot
    assert_eq!(
        tree[1].get_external_children_condition(&open, &vec![vec![0]]),
        vec![condition(&["slot:1,0"], "slot:1,0")]
    );
    // the row itself, with no path left, is the slot
    assert_eq!(
        children_of(&tree[1])[0].get_external_children_condition(&open, &vec![]),
        vec![condition(&["slot:1,0"], "slot:1,0")]
    );
    // another identifier opens nothing
    assert_eq!(
        tree[1].get_external_children_condition(&Some("other".to_string()), &vec![vec![0]]),
        vec![]
    );
    assert_eq!(tree[0].get_external_children_condition(&open, &vec![]), vec![]);
    assert_eq!(tree[1].get_external_children_condition(&None, &vec![]).len(), 1);

    assert!(Element::slots_are_identified(&tree));
    let mut expected: OrderedMap<Vec<ExternalChildrenCondition>> = OrderedMap::new();
    expected.insert("slot-external:1".to_string(), vec![condition(&["slot:1,0"], "slot:1,0")]);
    assert_eq!(Element::get_external_children_dependencies(&tree), expected);
    assert!(!Element::slots_are_identified(&slotted()));
}

#[test]
fn a_slot_inside_the_slot_container_adds_its_ancestor() {
    // the container `main` is itself the slot `main`, and passes what comes in on to
    // the row `inner` below it
    let inner = row(Some("main"), vec![]);
    let mut tree = vec![with_slot(
        column(Some("main"), vec![text(None), inner]),
        "main",
        vec![vec![1]],
        vec![column(None, vec![])],
    )];
    Element::set_id(&mut tree, &vec![], None);
    assert_eq!(id_of(&tree[0]), Some("main:0"));
    assert_eq!(
        tree[0].get_external_children_condition(&Some("main".to_string()), &vec![]),
        vec![condition(&["main:0,1", "main:0"], "main:0,1")]
    );
}

fn depends(kind: DependencyType, condition: Option<&str>) -> Dependencies {
    Dependencies {
        dependency_type: kind,
        condition: condition.map(|s| s.to_string()),
        parameters: OrderedMap::new(),
    }
}

fn data(names: &[&str]) -> OrderedMap<Data> {
    let mut data: OrderedMap<Data> = OrderedMap::new();
    for n in names {
        data.insert(n.to_string(), Data { value: "v".to_string(), dependencies: OrderedMap::new() });
    }
    data
}

fn dependent_tree() -> Vec<Element> {
    let mut styled = Common { data_id: Some("1".to_string()), ..Common::default() };
    styled.condition = Some(Condition { variable: "foo#x".to_string(), value: "true".to_string() });
    styled.reference = Some("foo#y".to_string());
    let value = |v: &str| ConditionalValue { value: v.to_string(), important: false };
    styled.conditional_attribute.insert(
        "color".to_string(),
        ConditionalAttribute {
            attribute_type: AttributeType::Style,
            conditions_with_value: vec![
                (Condition { variable: "foo#x".to_string(), value: "1".to_string() }, value("red")),
                (Condition { variable: "foo#y".to_string(), value: "2".to_string() }, value("blue")),
            ],
            default: Some(value("black")),
        },
    );
    styled.conditional_attribute.insert(
        "class".to_string(),
        ConditionalAttribute {
            attribute_type: AttributeType::Attribute,
            conditions_with_value: vec![(
                Condition { variable: "foo#nowhere".to_string(), value: "1".to_string() },
                value("big"),
            )],
            default: None,
        },
    );
    let mut shown = Common { data_id: Some("0,0".to_string()), ..Common::default() };
    shown.condition = Some(Condition { variable: "foo#x".to_string(), value: "false".to_string() });
    shown.reference = Some("foo#x".to_string());
    vec![
        Element::Column(Column {
            common: Common { data_id: Some("0".to_string()), ..Common::default() },
            container: Container {
                children: vec![Element::Text(Text { common: shown, ..Text::default() })],
                ..Container::default()
            },
        }),
        Element::Text(Text { common: styled, ..Text::default() }),
        Element::Null,
    ]
}

#[test]
fn dependencies_are_gathered_and_only_ever_added() {
    let tree = dependent_tree();
    let mut d = data(&["foo#x", "foo#y"]);
    assert!(Element::can_extract(&tree, DependencyType::Visible, &d));
    Element::get_visible_event_dependencies(&tree, &mut d);
    let x = d.get("foo#x").unwrap();
    assert_eq!(
        x.dependencies.get("0,0"),
        Some(&vec![depends(DependencyType::Visible, Some("false"))])
    );
    assert_eq!(
        x.dependencies.get("1"),
        Some(&vec![depends(DependencyType::Visible, Some("true"))])
    );
    assert!(d.get("foo#y").unwrap().dependencies.is_empty());

    assert!(Element::can_extract(&tree, DependencyType::Value, &d));
    Element::get_value_event_dependencies(&tree, &mut d);
    assert_eq!(
        d.get("foo#y").unwrap().dependencies.get("1"),
        Some(&vec![depends(DependencyType::Value, None)])
    );
    assert_eq!(
        d.get("foo#x").unwrap().dependencies.get("0,0"),
        Some(&vec![
            depends(DependencyType::Visible, Some("false")),
            depends(DependencyType::Value, None)
        ])
    );
    assert_eq!(d.len(), 2);

    assert!(Element::can_extract(&tree, DependencyType::Style, &d));
    Element::get_style_event_dependencies(&tree, &mut d);
    let mut red: OrderedMap<ConditionalValueWithDefault> = OrderedMap::new();
    red.insert(
        "color".to_string(),
        ConditionalValueWithDefault {
            value: ConditionalValue { value: "red".to_string(), important: false },
            default: Some(ConditionalValue { value: "black".to_string(), important: false }),
        },
    );
    let style = Dependencies {
        dependency_type: DependencyType::Style,
        condition: Some("1".to_string()),
        parameters: red,
    };
    assert_eq!(
        d.get("foo#x").unwrap().dependencies.get("1"),
        Some(&vec![depends(DependencyType::Visible, Some("true")), style])
    );
    assert_eq!(d.get("foo#y").unwrap().dependencies.get("1").unwrap().len(), 2);

    // a second run keeps what the first gave, in front of what it adds
    let before: Vec<DependencyType> = d
        .get("foo#x")
        .unwrap()
        .dependencies
        .get("1")
        .unwrap()
        .iter()
        .map(|x| x.dependency_type)
        .collect();
    Element::get_visible_event_dependencies(&tree, &mut d);
    let after: Vec<DependencyType> = d
        .get("foo#x")
        .unwrap()
        .dependencies
        .get("1")
        .unwrap()
        .iter()
        .map(|x| x.dependency_type)
        .collect();
    assert_eq!(&after[..before.len()], &before[..]);
    assert_eq!(after.len(), before.len() + 1);
    assert_eq!(after[before.len()], DependencyType::Visible);
}

#[test]
fn descriptors_come_in_the_order_of_the_conditions() {
    let value = |v: &str| ConditionalValue { value: v.to_string(), important: false };
    let mut common = Common { data_id: Some("i".to_string()), ..Common::default() };
    common.conditional_attribute.insert(
        "k".to_string(),
        ConditionalAttribute {
            attribute_type: AttributeType::Style,
            conditions_with_value: vec![
                (Condition { variable: "x".to_string(), value: "1".to_string() }, value("v1")),
                (Condition { variable: "x".to_string(), value: "2".to_string() }, value("v2")),
            ],
            default: Some(value("d")),
        },
    );
    let tree = vec![Element::Text(Text { common, ..Text::default() })];
    let mut d = data(&["x"]);
    Element::get_style_event_dependencies(&tree, &mut d);
    let style = |condition: &str, v: &str| {
        let mut parameters: OrderedMap<ConditionalValueWithDefault> = OrderedMap::new();
        parameters.insert(
            "k".to_string(),
            ConditionalValueWithDefault { value: value(v), default: Some(value("d")) },
        );
        Dependencies {
            dependency_type: DependencyType::Style,
            condition: Some(condition.to_string()),
            parameters,
        }
    };
    assert_eq!(
        d.get("x").unwrap().dependencies.get("i"),
        Some(&vec![style("1", "v1"), style("2", "v2")])
    );
}

#[test]
fn extraction_states_what_it_needs() {
    let tree = dependent_tree();
    // a variable that is not declared
    assert!(!Element::can_extract(&tree, DependencyType::Visible, &data(&["foo#y"])));
    assert!(!Element::can_extract(&tree, DependencyType::Style, &data(&["foo#x"])));
    assert!(!Element::can_extract(&tree, DependencyType::Value, &data(&["foo#x"])));
    assert!(Element::can_extract(&tree, DependencyType::Value, &data(&["foo#x", "foo#y"])));
    // an element without an identifier
    let mut common = Common::default();
    common.reference = Some("foo#x".to_string());
    let bare = vec![row(None, vec![Element::Text(Text { common, ..Text::default() })])];
    assert!(!Element::can_extract(&bare, DependencyType::Value, &data(&["foo#x"])));
    assert!(Element::can_extract(&bare, DependencyType::Visible, &data(&["foo#x"])));
}

fn local(common: &mut Common, k: &str, v: &str) {
    common.locals.insert(k.to_string(), v.to_string());
}

#[test]
fn locals_are_gathered_bottom_up() {
    let mut leaf = Common::default();
    local(&mut leaf, "a", "leaf");
    local(&mut leaf, "b", "leaf");
    let mut outer = Common::default();
    local(&mut outer, "b", "outer");
    let mut injected = Common::default();
    local(&mut injected, "c", "injected");
    local(&mut injected, "a", "injected");
    let tree = vec![
        Element::Scene(Scene {
            common: outer,
            container: Container {
                children: vec![Element::Text(Text { common: leaf, ..Text::default() })],
                external_children: Some((
                    "s".to_string(),
                    vec![],
                    vec![Element::Text(Text { common: injected, ..Text::default() })],
                )),
                ..Container::default()
            },
        }),
        Element::Null,
    ];
    let mut expected: OrderedMap<String> = OrderedMap::new();
    expected.insert("a".to_string(), "injected".to_string());
    expected.insert("b".to_string(), "outer".to_string());
    expected.insert("c".to_string(), "injected".to_string());
    assert_eq!(Element::get_locals(&tree), expected);
    assert_eq!(Element::get_locals(&vec![]), OrderedMap::new());
}

fn heading(region: Region, name: &str, children: Vec<Element>) -> Element {
    Element::Column(Column {
        common: Common {
            region: Some(region),
            id: Some(name.to_string()),
            ..Common::default()
        },
        container: Container { children, ..Container::default() },
    })
}

fn named(name: &str) -> Element {
    Element::Text(Text {
        common: Common { id: Some(name.to_string()), ..Common::default() },
        ..Text::default()
    })
}

#[test]
fn what_follows_a_heading_becomes_its_content() {
    let mut tree = vec![
        named("t0"),
        heading(Region::H1, "a", vec![named("own")]),
        named("t1"),
        heading(Region::H2, "b", vec![]),
        named("t2"),
        heading(Region::H1, "c", vec![]),
        named("t3"),
        heading(Region::H0, "d", vec![]),
        heading(Region::Title, "title", vec![]),
    ];
    Element::renesting_on_region(&mut tree);
    let expected = vec![
        named("t0"),
        heading(
            Region::H1,
            "a",
            vec![named("own"), named("t1"), heading(Region::H2, "b", vec![named("t2")])],
        ),
        heading(Region::H1, "c", vec![named("t3")]),
        heading(Region::H0, "d", vec![heading(Region::Title, "title", vec![])]),
    ];
    assert_eq!(tree, expected);
    // once more changes nothing
    Element::renesting_on_region(&mut tree);
    assert_eq!(tree, expected);
}

#[test]
fn renesting_goes_below_and_into_slots() {
    let inner = vec![heading(Region::H3, "x", vec![]), named("y")];
    let mut tree = vec![with_slot(
        row(None, vec![heading(Region::H3, "x", vec![]), named("y")]),
        "s",
        vec![],
        inner,
    )];
    Element::renesting_on_region(&mut tree);
    let nested = vec![heading(Region::H3, "x", vec![named("y")])];
    assert_eq!(
        tree,
        vec![with_slot(
            row(None, vec![heading(Region::H3, "x", vec![named("y")])]),
            "s",
            vec![],
            nested
        )]
    );
    // landmarks and scenes take nothing in
    let mut flat = vec![
        heading(Region::Navigation, "nav", vec![]),
        named("a"),
        Element::Scene(Scene::default()),
        named("b"),
    ];
    Element::renesting_on_region(&mut flat);
    assert_eq!(flat.len(), 4);
    let mut none: Vec<Element> = vec![];
    Element::renesting_on_region(&mut none);
    assert!(none.is_empty());
}

#[test]
fn elements_are_set_and_read() {
    let mut e = column(None, vec![]);
    assert_eq!(e.is_open_container(true), (true, None));
    assert_eq!(e.is_open_container(false), (false, None));
    assert_eq!(text(None).is_open_container(true), (false, None));
    if let Element::Column(c) = &mut e {
        c.container.open = (Some(false), Some("x".to_string()));
        assert_eq!(c.container.is_open(true), (false, Some("x".to_string())));
    }
    e.set_container_id(Some("c".to_string()));
    assert_eq!(e.container_id(), Some("c".to_string()));
    let mut t = text(None);
    t.set_container_id(Some("c".to_string()));
    assert_eq!(t.container_id(), None);
    assert_eq!(id_of(&t), None);
    t.set_element_id(Some("me".to_string()));
    t.set_non_visibility(true);
    t.set_condition(Some(Condition { variable: "v".to_string(), value: "1".to_string() }));
    let mut locals: OrderedMap<String> = OrderedMap::new();
    locals.insert("k".to_string(), "v".to_string());
    t.set_locals(locals);
    let event = |n: &str| Event {
        name: n.to_string(),
        action: "toggle".to_string(),
        target: "x".to_string(),
        parameters: OrderedMap::new(),
    };
    let mut events = vec![event("a")];
    t.set_events(&mut events);
    let mut more = vec![event("b")];
    t.set_events(&mut more);
    assert!(events.is_empty() && more.is_empty());
    let c = t.get_common().unwrap();
    assert_eq!(c.id.as_deref(), Some("me"));
    assert!(c.is_not_visible);
    assert_eq!(c.condition.as_ref().unwrap().variable, "v");
    assert_eq!(c.locals.get("k"), Some(&"v".to_string()));
    assert_eq!(c.events, vec![event("a"), event("b")]);
    t.get_mut_common().unwrap().is_not_visible = false;
    assert!(!t.get_common().unwrap().is_not_visible);

    let mut null = Element::Null;
    let mut kept = vec![event("a")];
    null.set_events(&mut kept);
    null.set_element_id(Some("x".to_string()));
    assert_eq!(kept.len(), 1);
    assert_eq!(null, Element::Null);
    assert!(null.get_common().is_none() && null.get_mut_common().is_none());

    assert_eq!(heading(Region::H2, "h", vec![]).get_heading_region(), Some(&Region::H2));
    assert_eq!(heading(Region::Footer, "h", vec![]).get_heading_region(), None);
    assert_eq!(text(None).get_heading_region(), None);
}
