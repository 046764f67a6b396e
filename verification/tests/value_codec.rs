use dicey::{
    to_value, Byte, Error, ErrorMessage, Float, FromDicey, Path, Selector, ToDicey, Tuple, Type,
    ValueBuilder, ValueView,
};
use std::borrow::Cow;
use uuid::Uuid;

fn round_trip<T: ToDicey + FromDicey + PartialEq + std::fmt::Debug>(data: T) {
    let value = to_value(&data).unwrap();
    assert_eq!(T::from_dicey(&value), Ok(data));
}

#[test]
fn unit_round_trip() {
    assert_eq!(to_value(&()).unwrap(), ValueView::Unit);
    round_trip(());
}

#[test]
fn bool_round_trip() {
    let value = to_value(&true).unwrap();
    assert_eq!(value, ValueView::Bool(true));
    assert_eq!(bool::from_dicey(&value), Ok(true));
    round_trip(false);
}

#[test]
fn byte_round_trip() {
    assert_eq!(to_value(&Byte(0xfe)).unwrap(), ValueView::Byte(Byte(0xfe)));
    round_trip(Byte(0));
    round_trip(Byte(255));
}

#[test]
fn float_round_trip_is_bit_exact() {
    let bits = (-0.0f64).to_bits();
    let value = to_value(&Float(bits)).unwrap();
    assert_eq!(value, ValueView::Float(Float(bits)));
    let back = Float::from_dicey(&value).unwrap();
    assert_eq!(back.to_bits(), bits);
    assert_eq!(f64::from_bits(back.to_bits()).to_bits(), (-0.0f64).to_bits());
    let nan = f64::NAN.to_bits() | 0x1234;
    round_trip(Float::from_bits(nan));
    round_trip(Float(1.5f64.to_bits()));
}

#[test]
fn integers_round_trip_at_their_limits() {
    round_trip(i16::MIN);
    round_trip(i16::MAX);
    round_trip(i32::MIN);
    round_trip(i32::MAX);
    round_trip(i64::MIN);
    round_trip(i64::MAX);
    round_trip(u16::MAX);
    round_trip(u32::MAX);
    round_trip(u64::MAX);
    round_trip(0u16);
    assert_eq!(to_value(&-5i16).unwrap(), ValueView::Int16(-5));
    assert_eq!(to_value(&7u64).unwrap(), ValueView::UInt64(7));
}

#[test]
fn integer_kinds_are_distinct() {
    let value = to_value(&5i32).unwrap();
    assert_eq!(i16::from_dicey(&value), Err(Error::ValueTypeMismatch));
    assert_eq!(i64::from_dicey(&value), Err(Error::ValueTypeMismatch));
    assert_eq!(u32::from_dicey(&value), Err(Error::ValueTypeMismatch));
    assert_eq!(Byte::from_dicey(&value), Err(Error::ValueTypeMismatch));
    assert_eq!(<()>::from_dicey(&value), Err(Error::ValueTypeMismatch));
    assert_eq!(i32::from_dicey(&value), Ok(5));
}

#[test]
fn uuid_round_trip() {
    let id = Uuid::from_bytes([
        0xa1, 0xa2, 0xa3, 0xa4, 0xb1, 0xb2, 0xc1, 0xc2, 0xd1, 0xd2, 0xd3, 0xd4, 0xd5, 0xd6, 0xd7,
        0xd8,
    ]);
    let value = to_value(&id).unwrap();
    assert_eq!(value, ValueView::Uuid(id));
    assert_eq!(Uuid::from_dicey(&value), Ok(id));
    assert_eq!(Uuid::from_dicey(&ValueView::Unit), Err(Error::ValueTypeMismatch));
}

#[test]
fn bytes_round_trip() {
    round_trip(vec![0u8, 1, 2, 255]);
    round_trip(Vec::<u8>::new());
    assert_eq!(to_value(&vec![9u8, 0, 9]).unwrap(), ValueView::Bytes(vec![9, 0, 9]));
}

#[test]
fn string_round_trip() {
    round_trip(String::from("hello"));
    round_trip(String::new());
    round_trip(String::from("gr\u{fc}\u{df}e \u{4e16}\u{754c}"));
    assert_eq!(to_value(&"hello").unwrap(), ValueView::String(String::from("hello")));
}

#[test]
fn string_with_nul_has_no_encoding() {
    assert_eq!(to_value(&String::from("a\0b")), Err(Error::InvalidData));
    assert_eq!(to_value(&"\0"), Err(Error::InvalidData));
    assert_eq!(to_value(&Path::new("/a\0")), Err(Error::InvalidData));
    assert_eq!(to_value(&Selector::from_bytes(b"a\0", b"b")), Err(Error::InvalidData));
    assert_eq!(to_value(&Selector::from_bytes(b"a", b"\0b")), Err(Error::InvalidData));
    assert_eq!(
        to_value(&ErrorMessage::new(1, Some(String::from("x\0")))),
        Err(Error::InvalidData)
    );
}

#[test]
fn path_selector_and_error_round_trip() {
    round_trip(Path::new("/dicey/test/echo"));
    round_trip(Selector::new("dicey.test.Echo", "Echo"));
    round_trip(ErrorMessage::new(-3, Some(String::from("no such thing"))));
    round_trip(ErrorMessage::new(i16::MIN, None));
    let value = to_value(&Path::new("/p")).unwrap();
    assert_eq!(value.kind(), Type::Path);
    assert_eq!(String::from_dicey(&value), Err(Error::ValueTypeMismatch));
    let text = to_value(&"/p").unwrap();
    assert_eq!(Path::from_dicey(&text), Err(Error::ValueTypeMismatch));
}

#[test]
fn array_round_trip_and_homogeneity() {
    let data = vec![3i32, 1, 2];
    let value = to_value(&data).unwrap();
    match &value {
        ValueView::Array { element_kind, items } => {
            assert_eq!(*element_kind, Type::Int32);
            assert_eq!(items.len(), 3);
            for item in items {
                assert_eq!(item.kind(), *element_kind);
            }
            assert_eq!(items[0], ValueView::Int32(3));
        }
        other => panic!("not an array: {:?}", other),
    }
    assert!(value.is_well_formed());
    assert_eq!(Vec::<i32>::from_dicey(&value), Ok(data));
}

#[test]
fn empty_array_declares_its_element_kind() {
    let value = to_value(&Vec::<String>::new()).unwrap();
    assert_eq!(value, ValueView::Array { element_kind: Type::String, items: vec![] });
    assert_eq!(Vec::<String>::from_dicey(&value), Ok(vec![]));
    let nested = to_value(&Vec::<Vec<bool>>::new()).unwrap();
    assert_eq!(nested, ValueView::Array { element_kind: Type::Array, items: vec![] });
}

#[test]
fn nested_arrays_round_trip() {
    round_trip(vec![vec![1u16, 2], vec![], vec![3]]);
    round_trip(vec![(String::from("a"), 1i64), (String::from("b"), 2)]);
}

#[test]
fn array_fails_entirely_if_one_item_fails() {
    let value = ValueView::Array {
        element_kind: Type::Int32,
        items: vec![ValueView::Int32(1), ValueView::Bool(true), ValueView::Int32(3)],
    };
    assert_eq!(Vec::<i32>::from_dicey(&value), Err(Error::ValueTypeMismatch));
    assert!(!value.is_well_formed());
    assert_eq!(Vec::<i32>::from_dicey(&ValueView::Tuple(vec![])), Err(Error::ValueTypeMismatch));
}

#[test]
fn array_with_an_unencodable_item_has_no_encoding() {
    let data = vec![String::from("fine"), String::from("not\0fine"), String::from("fine")];
    assert_eq!(to_value(&data), Err(Error::InvalidData));
}

#[test]
fn pair_round_trip() {
    round_trip((true, String::from("x")));
    let value = to_value(&(1u32, Byte(2))).unwrap();
    assert_eq!(
        value,
        ValueView::Pair(Box::new(ValueView::UInt32(1)), Box::new(ValueView::Byte(Byte(2))))
    );
    assert_eq!(<(u32, u32)>::from_dicey(&value), Err(Error::ValueTypeMismatch));
    assert_eq!(<(u32, Byte)>::from_dicey(&ValueView::Unit), Err(Error::ValueTypeMismatch));
}

#[test]
fn triple_round_trip() {
    round_trip((1i16, String::from("two"), false));
    let value = to_value(&(1i16, 2i32, 3i64)).unwrap();
    assert_eq!(
        value,
        ValueView::Tuple(vec![ValueView::Int16(1), ValueView::Int32(2), ValueView::Int64(3)])
    );
}

#[test]
fn triple_needs_exactly_three_slots() {
    let two = ValueView::Tuple(vec![ValueView::Int16(1), ValueView::Int16(2)]);
    let four = ValueView::Tuple(vec![
        ValueView::Int16(1),
        ValueView::Int16(2),
        ValueView::Int16(3),
        ValueView::Int16(4),
    ]);
    assert_eq!(<(i16, i16, i16)>::from_dicey(&two), Err(Error::ValueTypeMismatch));
    assert_eq!(<(i16, i16, i16)>::from_dicey(&four), Err(Error::ValueTypeMismatch));
    let three = ValueView::Tuple(vec![
        ValueView::Int16(1),
        ValueView::Int16(2),
        ValueView::Int16(3),
    ]);
    assert_eq!(<(i16, i16, i16)>::from_dicey(&three), Ok((1, 2, 3)));
}

#[test]
fn tuple_of_any_arity_keeps_its_arity() {
    let slots: Vec<ValueView> = (0..32).map(|i| ValueView::Int32(i)).collect();
    let value = ValueView::Tuple(slots.clone());
    let tuple = Tuple::from_dicey_exact(&value, 32).unwrap();
    assert_eq!(tuple.arity(), 32);
    assert_eq!(tuple.0, slots);
    assert_eq!(Tuple::from_dicey_exact(&value, 31), Err(Error::ValueTypeMismatch));
    assert_eq!(Tuple::from_dicey_exact(&value, 33), Err(Error::ValueTypeMismatch));
    assert_eq!(Tuple::from_dicey_exact(&ValueView::Unit, 0), Err(Error::ValueTypeMismatch));
    let again = to_value(&tuple).unwrap();
    assert_eq!(again, value);
    assert_eq!(Tuple::from_dicey(&again).unwrap().0, slots);
}

#[test]
fn tuple_slots_are_read_one_by_one() {
    let value = to_value(&Tuple(vec![
        ValueView::Bool(true),
        ValueView::String(String::from("s")),
        ValueView::UInt16(9),
        ValueView::Unit,
    ]))
    .unwrap();
    let tuple = Tuple::from_dicey_exact(&value, 4).unwrap();
    assert_eq!(tuple.0[0].extract::<bool>(), Ok(true));
    assert_eq!(tuple.0[1].extract::<String>(), Ok(String::from("s")));
    assert_eq!(tuple.0[2].extract::<u16>(), Ok(9));
    assert_eq!(tuple.0[3].extract::<()>(), Ok(()));
    assert_eq!(tuple.0[3].extract::<bool>(), Err(Error::ValueTypeMismatch));
}

#[test]
fn value_extracts_as_itself() {
    let value = to_value(&vec![(1u16, true)]).unwrap();
    assert_eq!(ValueView::from_dicey(&value), Ok(value.clone()));
    assert_eq!(value.duplicate(), value);
}

#[test]
fn builder_builds_an_array_step_by_step() {
    let mut builder = ValueBuilder::new();
    assert!(!builder.is_complete());
    builder.array_start(Type::Bool).unwrap();
    builder.next().unwrap();
    builder.set(true).unwrap();
    builder.next().unwrap();
    builder.put(ValueView::Bool(false)).unwrap();
    builder.array_end().unwrap();
    assert!(builder.is_complete());
    assert_eq!(
        builder.finish(),
        Ok(ValueView::Array {
            element_kind: Type::Bool,
            items: vec![ValueView::Bool(true), ValueView::Bool(false)],
        })
    );
}

#[test]
fn builder_refuses_an_item_of_another_kind() {
    let mut builder = ValueBuilder::new();
    builder.array_start(Type::Bool).unwrap();
    builder.next().unwrap();
    assert_eq!(builder.set(5i32), Err(Error::ValueTypeMismatch));
    assert_eq!(builder.tuple_start(), Err(Error::ValueTypeMismatch));
    assert_eq!(builder.set(true), Ok(()));
    assert_eq!(builder.ready_for(Type::Bool), Err(Error::InvalidData));
    builder.array_end().unwrap();
    assert_eq!(
        builder.finish(),
        Ok(ValueView::Array { element_kind: Type::Bool, items: vec![ValueView::Bool(true)] })
    );
}

#[test]
fn builder_refuses_steps_out_of_order() {
    let mut builder = ValueBuilder::new();
    assert_eq!(builder.next(), Err(Error::InvalidData));
    assert_eq!(builder.array_end(), Err(Error::InvalidData));
    assert_eq!(builder.finish(), Err(Error::InvalidData));

    let mut builder = ValueBuilder::new();
    builder.pair_start().unwrap();
    assert_eq!(builder.set(1u16), Err(Error::InvalidData));
    assert_eq!(builder.pair_end(), Err(Error::InvalidData));
    assert_eq!(builder.tuple_end(), Err(Error::InvalidData));
    builder.next().unwrap();
    assert_eq!(builder.next(), Err(Error::InvalidData));
    assert_eq!(builder.pair_end(), Err(Error::InvalidData));
    builder.set(1u16).unwrap();
    assert_eq!(builder.pair_end(), Err(Error::InvalidData));
    builder.next().unwrap();
    builder.set("two").unwrap();
    assert_eq!(builder.next(), Err(Error::InvalidData));
    assert_eq!(builder.array_end(), Err(Error::InvalidData));
    builder.pair_end().unwrap();
    assert_eq!(builder.set(()), Err(Error::InvalidData));
    assert_eq!(
        builder.finish(),
        Ok(ValueView::Pair(
            Box::new(ValueView::UInt16(1)),
            Box::new(ValueView::String(String::from("two")))
        ))
    );
}

#[test]
fn builder_nests_composites() {
    let mut builder = ValueBuilder::new();
    builder.tuple_start().unwrap();
    builder.next().unwrap();
    builder.array_start(Type::Pair).unwrap();
    builder.next().unwrap();
    builder.set((Byte(1), ())).unwrap();
    builder.array_end().unwrap();
    builder.next().unwrap();
    builder.set(vec![1u8, 2]).unwrap();
    builder.tuple_end().unwrap();
    assert_eq!(
        builder.finish(),
        Ok(ValueView::Tuple(vec![
            ValueView::Array {
                element_kind: Type::Pair,
                items: vec![ValueView::Pair(
                    Box::new(ValueView::Byte(Byte(1))),
                    Box::new(ValueView::Unit)
                )],
            },
            ValueView::Bytes(vec![1, 2]),
        ]))
    );
}

#[test]
fn builder_refuses_an_ill_formed_value() {
    let bad = ValueView::Array { element_kind: Type::Bool, items: vec![ValueView::Unit] };
    let mut builder = ValueBuilder::new();
    assert_eq!(builder.put(bad), Err(Error::ValueTypeMismatch));
    assert_eq!(builder.put(ValueView::Unit), Ok(()));
    assert_eq!(builder.put(ValueView::Unit), Err(Error::InvalidData));
}

#[test]
fn kinds_have_their_tags() {
    let kinds = [
        (Type::Unit, b'$'),
        (Type::Bool, b'b'),
        (Type::Byte, b'c'),
        (Type::Float, b'f'),
        (Type::Int16, b'n'),
        (Type::Int32, b'i'),
        (Type::Int64, b'x'),
        (Type::UInt16, b'q'),
        (Type::UInt32, b'u'),
        (Type::UInt64, b't'),
        (Type::Array, b'['),
        (Type::Tuple, b'('),
        (Type::Pair, b'{'),
        (Type::Bytes, b'y'),
        (Type::String, b's'),
        (Type::Uuid, b'#'),
        (Type::Path, b'@'),
        (Type::Selector, b'%'),
        (Type::Error, b'e'),
    ];
    for (kind, tag) in kinds {
        assert_eq!(kind.to_c(), tag as u32);
        assert_eq!(Type::try_from(tag as u32), Ok(kind));
    }
    assert_eq!(Type::try_from(0), Err(Error::InvalidData));
    assert_eq!(Type::try_from(0x7f), Err(Error::InvalidData));
    assert_eq!(<Vec<bool> as ToDicey>::kind(), Type::Array);
    assert_eq!(<Uuid as ToDicey>::kind(), Type::Uuid);
}

#[test]
fn borrowed_and_owned_data_encode_alike() {
    let bytes = vec![1u8, 0, 3];
    let expected = ValueView::Bytes(bytes.clone());
    assert_eq!(to_value(&&bytes).unwrap(), expected);
    assert_eq!(to_value(&bytes.as_slice()).unwrap(), expected);
    assert_eq!(to_value(&Cow::<[u8]>::Borrowed(&bytes)).unwrap(), expected);
    assert_eq!(to_value(&Cow::<[u8]>::Owned(bytes.clone())).unwrap(), expected);

    let text = String::from("grüße");
    let expected = ValueView::String(text.clone());
    assert_eq!(to_value(&&text).unwrap(), expected);
    assert_eq!(to_value(&text.as_str()).unwrap(), expected);
    assert_eq!(to_value(&Cow::<str>::Borrowed(&text)).unwrap(), expected);
    assert_eq!(to_value(&Cow::<str>::Owned(text.clone())).unwrap(), expected);

    let broken = String::from("a\0b");
    assert_eq!(to_value(&&broken), Err(Error::InvalidData));
    assert_eq!(to_value(&Cow::<str>::Borrowed(&broken)), Err(Error::InvalidData));
    assert_eq!(to_value(&Cow::<str>::Owned(broken)), Err(Error::InvalidData));
}

#[test]
fn a_failed_emit_finishes_nothing() {
    // A scalar that fails leaves the builder as it was: the slot is still
    // open, and takes the next value.
    let mut builder = ValueBuilder::new();
    builder.tuple_start().unwrap();
    builder.next().unwrap();
    assert_eq!(builder.set("not\0fine"), Err(Error::InvalidData));
    builder.set("fine").unwrap();
    builder.tuple_end().unwrap();
    assert_eq!(builder.finish().unwrap(), ValueView::Tuple(vec![ValueView::String("fine".into())]));

    // A sequence that fails part of the way finishes nothing.
    let mut builder = ValueBuilder::new();
    builder.tuple_start().unwrap();
    builder.next().unwrap();
    builder.set(1u16).unwrap();
    builder.next().unwrap();
    let data = vec![String::from("fine"), String::from("not\0fine")];
    assert_eq!(builder.set(data), Err(Error::InvalidData));
    assert!(!builder.is_complete());
    assert_eq!(builder.finish(), Err(Error::InvalidData));
}
