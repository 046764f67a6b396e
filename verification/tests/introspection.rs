use dicey::{
    to_value, Byte, Element, Elements, Error, FromDicey, ObjectInfo, Operation, Property, Signal,
    Traits, Tuple, Type, ValueView,
};

fn descriptor(kind: u8, signature: &str, readonly: Option<bool>) -> ValueView {
    let mut parts = vec![ValueView::Byte(Byte(kind)), ValueView::String(String::from(signature))];
    if let Some(readonly) = readonly {
        parts.push(ValueView::Bool(readonly));
    }
    ValueView::Tuple(parts)
}

fn entry(name: &str, value: ValueView) -> ValueView {
    ValueView::Pair(Box::new(ValueView::String(String::from(name))), Box::new(value))
}

fn listing(traits: Vec<(&str, Vec<(&str, ValueView)>)>) -> ValueView {
    ValueView::Array {
        element_kind: Type::Pair,
        items: traits
            .into_iter()
            .map(|(name, elements)| {
                entry(
                    name,
                    ValueView::Array {
                        element_kind: Type::Pair,
                        items: elements.into_iter().map(|(n, d)| entry(n, d)).collect(),
                    },
                )
            })
            .collect(),
    }
}

#[test]
fn introspection_scenario() {
    let value = listing(vec![(
        "sval.Sval",
        vec![
            ("Reset", descriptor(b'%', "$ -> $", None)),
            ("Value", descriptor(b'$', "s", Some(true))),
            ("Changed", descriptor(b'!', "s", None)),
        ],
    )]);
    let info = ObjectInfo::from_dicey(String::from("/sval"), &value).unwrap();
    assert_eq!(info.path, "/sval");
    assert_eq!(info.traits.len(), 1);
    assert_eq!(info.traits.names(), vec![String::from("sval.Sval")]);
    let elements = info.traits.get("sval.Sval").unwrap();
    assert_eq!(elements.len(), 3);
    assert_eq!(
        elements.get("Reset"),
        Some(&Element::Operation(Operation { signature: String::from("$ -> $") }))
    );
    assert_eq!(
        elements.get("Value"),
        Some(&Element::Property(Property { signature: String::from("s"), readonly: true }))
    );
    assert_eq!(
        elements.get("Changed"),
        Some(&Element::Signal(Signal { signature: String::from("s") }))
    );
    assert_eq!(elements.get("Missing"), None);
    assert!(info.traits.get("other.Trait").is_none());
    assert_eq!(
        elements.operations(),
        vec![(String::from("Reset"), Operation { signature: String::from("$ -> $") })]
    );
    assert_eq!(
        elements.properties(),
        vec![(String::from("Value"), Property { signature: String::from("s"), readonly: true })]
    );
    assert_eq!(
        elements.signals(),
        vec![(String::from("Changed"), Signal { signature: String::from("s") })]
    );
    let all = elements.elements();
    assert_eq!(all.len(), 3);
    for (name, element) in &all {
        assert_eq!(elements.get(name), Some(element));
    }
    assert_eq!(all[0].0, "Reset");
    assert_eq!(all[1].0, "Value");
    assert_eq!(all[2].0, "Changed");
}

#[test]
fn readonly_is_false_where_it_is_absent() {
    let value = listing(vec![(
        "t",
        vec![
            ("a", descriptor(b'$', "i", None)),
            ("b", descriptor(b'$', "i", Some(false))),
            ("c", descriptor(b'$', "i", Some(true))),
        ],
    )]);
    let traits = Traits::from_dicey(&value).unwrap();
    let elements = traits.get("t").unwrap();
    assert_eq!(
        elements.properties(),
        vec![
            (String::from("a"), Property { signature: String::from("i"), readonly: false }),
            (String::from("b"), Property { signature: String::from("i"), readonly: false }),
            (String::from("c"), Property { signature: String::from("i"), readonly: true }),
        ]
    );
}

#[test]
fn a_flag_on_an_operation_or_a_signal_is_ignored() {
    let value = listing(vec![(
        "t",
        vec![("op", descriptor(b'%', "x", Some(true))), ("sig", descriptor(b'!', "y", Some(true)))],
    )]);
    let traits = Traits::from_dicey(&value).unwrap();
    let elements = traits.get("t").unwrap();
    assert_eq!(
        elements.get("op"),
        Some(&Element::Operation(Operation { signature: String::from("x") }))
    );
    assert_eq!(
        elements.get("sig"),
        Some(&Element::Signal(Signal { signature: String::from("y") }))
    );
}

#[test]
fn empty_catalogue() {
    let traits = Traits::from_dicey(&listing(vec![])).unwrap();
    assert_eq!(traits.len(), 0);
    let traits = Traits::from_dicey(&listing(vec![("lonely", vec![])])).unwrap();
    assert_eq!(traits.len(), 1);
    assert_eq!(traits.get("lonely").unwrap().len(), 0);
    assert!(traits.get("lonely").unwrap().elements().is_empty());
}

#[test]
fn unknown_kind_byte_is_a_bad_message() {
    for kind in [0u8, b'?', b'x', 255] {
        let value = listing(vec![("t", vec![("e", descriptor(kind, "s", None))])]);
        assert!(matches!(Traits::from_dicey(&value), Err(Error::BadMessage)));
        let value = listing(vec![("t", vec![("e", descriptor(kind, "s", Some(true)))])]);
        assert!(matches!(
            ObjectInfo::from_dicey(String::from("/p"), &value),
            Err(Error::BadMessage)
        ));
    }
}

#[test]
fn shape_deviations_are_type_mismatches() {
    let bad_descriptors = vec![
        ValueView::Unit,
        ValueView::Tuple(vec![]),
        ValueView::Tuple(vec![ValueView::Byte(Byte(b'%'))]),
        ValueView::Tuple(vec![ValueView::UInt16(b'%' as u16), ValueView::String(String::new())]),
        ValueView::Tuple(vec![ValueView::Byte(Byte(b'%')), ValueView::Bytes(vec![])]),
        ValueView::Tuple(vec![
            ValueView::Byte(Byte(b'$')),
            ValueView::String(String::new()),
            ValueView::Byte(Byte(1)),
        ]),
        ValueView::Tuple(vec![
            ValueView::Byte(Byte(b'$')),
            ValueView::String(String::new()),
            ValueView::Bool(true),
            ValueView::Bool(true),
        ]),
        ValueView::Pair(
            Box::new(ValueView::Byte(Byte(b'%'))),
            Box::new(ValueView::String(String::new())),
        ),
    ];
    for bad in bad_descriptors {
        let value = listing(vec![("t", vec![("e", bad)])]);
        assert!(matches!(Traits::from_dicey(&value), Err(Error::ValueTypeMismatch)));
    }
    for bad in [
        ValueView::Unit,
        ValueView::Tuple(vec![]),
        ValueView::String(String::from("t")),
        ValueView::Array { element_kind: Type::Pair, items: vec![ValueView::Unit] },
        ValueView::Array {
            element_kind: Type::Pair,
            items: vec![entry("t", ValueView::Unit)],
        },
        ValueView::Array {
            element_kind: Type::Pair,
            items: vec![ValueView::Pair(
                Box::new(ValueView::Bytes(b"t".to_vec())),
                Box::new(ValueView::Array { element_kind: Type::Pair, items: vec![] }),
            )],
        },
    ] {
        assert!(matches!(Traits::from_dicey(&bad), Err(Error::ValueTypeMismatch)));
    }
}

#[test]
fn a_shape_deviation_anywhere_comes_before_a_bad_kind_byte() {
    let value = ValueView::Array {
        element_kind: Type::Pair,
        items: vec![
            entry(
                "first",
                ValueView::Array {
                    element_kind: Type::Pair,
                    items: vec![entry("e", descriptor(b'x', "s", None))],
                },
            ),
            ValueView::Unit,
        ],
    };
    assert!(matches!(Traits::from_dicey(&value), Err(Error::ValueTypeMismatch)));
    let value = listing(vec![
        ("first", vec![("e", descriptor(b'x', "s", None))]),
        ("second", vec![("e", ValueView::Unit)]),
    ]);
    assert!(matches!(Traits::from_dicey(&value), Err(Error::BadMessage)));
}

#[test]
fn a_later_entry_replaces_an_earlier_one_of_the_same_name() {
    let value = listing(vec![
        ("t", vec![("e", descriptor(b'%', "old", None)), ("e", descriptor(b'!', "new", None))]),
        ("u", vec![("x", descriptor(b'%', "s", None))]),
        ("t", vec![("f", descriptor(b'$', "p", Some(true)))]),
    ]);
    let traits = Traits::from_dicey(&value).unwrap();
    assert_eq!(traits.len(), 2);
    assert_eq!(traits.names(), vec![String::from("t"), String::from("u")]);
    let t = traits.get("t").unwrap();
    assert_eq!(t.len(), 1);
    assert_eq!(
        t.get("f"),
        Some(&Element::Property(Property { signature: String::from("p"), readonly: true }))
    );
    assert_eq!(t.get("e"), None);
    let value = listing(vec![(
        "t",
        vec![("e", descriptor(b'%', "old", None)), ("e", descriptor(b'!', "new", None))],
    )]);
    let traits = Traits::from_dicey(&value).unwrap();
    let t = traits.get("t").unwrap();
    assert_eq!(t.len(), 1);
    assert_eq!(t.get("e"), Some(&Element::Signal(Signal { signature: String::from("new") })));
}

#[test]
fn elements_can_be_collected_by_hand() {
    let mut elements = Elements::new();
    elements.insert(
        String::from("a"),
        Element::Operation(Operation { signature: String::from("1") }),
    );
    elements.insert(String::from("b"), Element::Signal(Signal { signature: String::from("2") }));
    elements.insert(
        String::from("a"),
        Element::Property(Property { signature: String::from("3"), readonly: false }),
    );
    assert_eq!(elements.len(), 2);
    assert!(elements.operations().is_empty());
    assert_eq!(elements.properties().len(), 1);
    assert_eq!(elements.signals().len(), 1);
    let mut traits = Traits::new();
    traits.insert(String::from("t"), elements);
    assert_eq!(traits.get("t").unwrap().len(), 2);
}

#[test]
fn catalogue_is_read_from_natively_built_data() {
    let data = vec![(
        String::from("t"),
        vec![(
            String::from("e"),
            Tuple(vec![ValueView::Byte(Byte(b'!')), ValueView::String(String::from("sig"))]),
        )],
    )];
    let value = to_value(&data).unwrap();
    let traits = Traits::from_dicey(&value).unwrap();
    assert_eq!(
        traits.get("t").unwrap().get("e"),
        Some(&Element::Signal(Signal { signature: String::from("sig") }))
    );
}
