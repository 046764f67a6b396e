use dicey::{
    Bye, ByeReason, Error, Hello, Message, MessageBuilder, Op, Packet, Path, RawContent,
    RawMessage, RawPacket, RawPayload, RawValue, Selector, Type, ValueBuilder, ValueView, Version,
};

fn raw_message(op: u8, value: Option<RawValue>) -> RawPacket {
    RawPacket {
        kind: 3,
        seq: 42,
        content: RawContent::Message(RawMessage {
            op: op as u32,
            path: b"/sval".to_vec(),
            selector: Selector::new("sval.Sval", "Value"),
            value,
        }),
    }
}

fn text(s: &str) -> RawValue {
    RawValue { tag: b's' as u32, payload: RawPayload::Bytes(s.as_bytes().to_vec()) }
}

#[test]
fn malformed_packet_is_invalid_data() {
    for kind in [0u32, 4, 5, 99, u32::MAX] {
        let packet = RawPacket { kind, seq: 1, content: RawContent::Bye { reason: 1 } };
        assert!(matches!(Packet::load(packet), Err(Error::InvalidData)));
        let packet = RawPacket { kind, seq: 1, content: RawContent::Hello { major: 1, revision: 0 } };
        assert!(matches!(Packet::load(packet), Err(Error::InvalidData)));
        assert!(matches!(
            Packet::load(RawPacket { kind, ..raw_message(b'<', None) }),
            Err(Error::InvalidData)
        ));
    }
}

#[test]
fn content_must_be_what_the_kind_announces() {
    let packet = RawPacket { kind: 2, seq: 1, content: RawContent::Hello { major: 1, revision: 0 } };
    assert!(matches!(Packet::load(packet), Err(Error::InvalidData)));
    let packet = RawPacket { kind: 1, seq: 1, content: RawContent::Bye { reason: 1 } };
    assert!(matches!(Packet::load(packet), Err(Error::InvalidData)));
    let packet = RawPacket { kind: 3, seq: 1, content: RawContent::Bye { reason: 1 } };
    assert!(matches!(Packet::load(packet), Err(Error::InvalidData)));
    assert!(matches!(
        Packet::load(RawPacket { kind: 2, ..raw_message(b'<', None) }),
        Err(Error::InvalidData)
    ));
}

#[test]
fn loads_a_bye() {
    let packet = RawPacket { kind: 2, seq: 9, content: RawContent::Bye { reason: 1 } };
    match Packet::load(packet).unwrap() {
        Packet::Bye(bye) => {
            assert_eq!(bye.seq(), 9);
            assert_eq!(bye.reason(), ByeReason::Shutdown);
        }
        other => panic!("not a bye: {:?}", other),
    }
    let packet = RawPacket { kind: 2, seq: 10, content: RawContent::Bye { reason: 2 } };
    let bye = Bye::try_from(packet).unwrap();
    assert_eq!(bye.reason(), ByeReason::Error);
    assert_eq!(bye.seq(), 10);
}

#[test]
fn bye_with_an_unknown_reason_is_invalid_data() {
    for reason in [0u32, 3, 77] {
        let packet = RawPacket { kind: 2, seq: 9, content: RawContent::Bye { reason } };
        assert!(matches!(Packet::load(packet), Err(Error::InvalidData)));
    }
    assert_eq!(ByeReason::try_from(1), Ok(ByeReason::Shutdown));
    assert_eq!(ByeReason::try_from(2), Ok(ByeReason::Error));
    assert_eq!(ByeReason::try_from(0), Err(Error::InvalidData));
}

#[test]
fn loads_a_hello() {
    let packet = RawPacket { kind: 1, seq: 0, content: RawContent::Hello { major: 1, revision: 7 } };
    let loaded = Packet::load(packet).unwrap();
    assert_eq!(loaded.seq(), 0);
    match loaded {
        Packet::Hello(hello) => {
            assert_eq!(hello.version(), Version { major: 1, revision: 7 });
            assert_eq!(hello.seq(), 0);
        }
        other => panic!("not a hello: {:?}", other),
    }
    let packet = RawPacket { kind: 2, seq: 0, content: RawContent::Hello { major: 1, revision: 7 } };
    assert!(matches!(Hello::try_from(packet), Err(Error::InvalidData)));
}

#[test]
fn loads_every_kind_of_message() {
    for (tag, op) in [
        (b'!', Op::Event),
        (b'?', Op::Exec),
        (b':', Op::Response),
        (b'>', Op::SetValue),
    ] {
        let loaded = Packet::load(raw_message(tag, Some(text("hello")))).unwrap();
        assert_eq!(loaded.seq(), 42);
        match loaded {
            Packet::Message(message) => {
                assert_eq!(message.op(), op);
                assert_eq!(message.seq(), 42);
                assert_eq!(message.path(), "/sval");
                assert_eq!(message.selector(), &Selector::new("sval.Sval", "Value"));
                assert_eq!(message.value(), Some(&ValueView::String(String::from("hello"))));
            }
            other => panic!("not a message: {:?}", other),
        }
        assert_eq!(op.as_c(), tag as u32);
        assert_eq!(Op::try_from(tag as u32), Ok(op));
    }
    let get = Message::from_raw(raw_message(b'<', None)).unwrap();
    assert_eq!(get.op(), Op::Get);
    assert_eq!(get.value(), None);
    assert_eq!(Op::Get.as_c(), b'<' as u32);
    assert_eq!(Op::try_from(b'<' as u32), Ok(Op::Get));
    assert_eq!(Op::try_from(0), Err(Error::InvalidData));
}

#[test]
fn message_with_an_unknown_op_is_invalid_data() {
    assert!(matches!(Message::from_raw(raw_message(0, None)), Err(Error::InvalidData)));
    assert!(matches!(
        Message::from_raw(raw_message(b'x', Some(text("v")))),
        Err(Error::InvalidData)
    ));
}

#[test]
fn get_carries_no_value_and_the_others_carry_one() {
    assert!(matches!(
        Message::from_raw(raw_message(b'<', Some(text("v")))),
        Err(Error::InvalidData)
    ));
    for tag in [b'!', b'?', b':', b'>'] {
        assert!(matches!(Message::from_raw(raw_message(tag, None)), Err(Error::InvalidData)));
    }
}

#[test]
fn message_with_a_path_that_is_not_utf8_is_a_bad_message() {
    let mut packet = raw_message(b'<', None);
    if let RawContent::Message(m) = &mut packet.content {
        m.path = vec![b'/', 0xc0];
    }
    assert!(matches!(Message::from_raw(packet), Err(Error::BadMessage)));
}

#[test]
fn message_with_a_bad_value_fails_as_the_value_does() {
    let bad = RawValue { tag: 0x7f, payload: RawPayload::Empty };
    assert!(matches!(Message::from_raw(raw_message(b'>', Some(bad))), Err(Error::BadMessage)));
    let bad = RawValue { tag: b'b' as u32, payload: RawPayload::Empty };
    assert!(matches!(
        Message::from_raw(raw_message(b'>', Some(bad))),
        Err(Error::ValueTypeMismatch)
    ));
}

#[test]
fn a_packet_of_another_kind_is_not_a_message() {
    let packet = RawPacket { kind: 2, seq: 9, content: RawContent::Bye { reason: 1 } };
    assert!(matches!(Message::from_raw(packet), Err(Error::InvalidData)));
}

#[test]
fn builds_a_set_message() {
    let message = MessageBuilder::set()
        .unwrap()
        .seq(5)
        .path(b"/sval".to_vec())
        .unwrap()
        .selector(Selector::new("sval.Sval", "Value"))
        .unwrap()
        .value("hello there")
        .unwrap()
        .build()
        .unwrap();
    assert_eq!(message.op(), Op::SetValue);
    assert_eq!(message.seq(), 5);
    assert_eq!(message.path(), "/sval");
    assert_eq!(message.selector(), &Selector::new("sval.Sval", "Value"));
    assert_eq!(message.value(), Some(&ValueView::String(String::from("hello there"))));
    match &message {
        Message::SetValue(set) => {
            assert_eq!(set.seq(), 5);
            assert_eq!(set.path(), "/sval");
            assert_eq!(set.value(), &ValueView::String(String::from("hello there")));
        }
        other => panic!("not a set: {:?}", other),
    }
}

#[test]
fn written_message_loads_again() {
    let message = MessageBuilder::exec()
        .unwrap()
        .seq(77)
        .path(b"/a/b".to_vec())
        .unwrap()
        .selector(Selector::new("a.B", "Run"))
        .unwrap()
        .value((Path::new("/x"), vec![1i64, 2, 3]))
        .unwrap()
        .build()
        .unwrap();
    let raw = message.duplicate().into_raw();
    assert_eq!(raw.kind, 3);
    assert_eq!(raw.seq, 77);
    match &raw.content {
        RawContent::Message(m) => {
            assert_eq!(m.op, b'?' as u32);
            assert_eq!(m.path, b"/a/b".to_vec());
            assert_eq!(m.selector, Selector::new("a.B", "Run"));
        }
        other => panic!("not a message: {:?}", other),
    }
    let loaded = Message::from_raw(raw).unwrap();
    assert_eq!(loaded.op(), message.op());
    assert_eq!(loaded.seq(), message.seq());
    assert_eq!(loaded.path(), message.path());
    assert_eq!(loaded.selector(), message.selector());
    assert_eq!(loaded.value(), message.value());
}

#[test]
fn builder_sets_sequence_number_zero_by_default() {
    let message = MessageBuilder::get()
        .unwrap()
        .path(b"/a".to_vec())
        .unwrap()
        .selector(Selector::new("t", "e"))
        .unwrap()
        .build()
        .unwrap();
    assert_eq!(message.seq(), 0);
    assert_eq!(message.op(), Op::Get);
    assert_eq!(message.with_seq(12).seq(), 12);
}

#[test]
fn builder_refuses_a_malformed_path() {
    assert!(matches!(
        MessageBuilder::get().unwrap().path(b"/a\0b".to_vec()),
        Err(Error::MalformedPath)
    ));
    assert!(matches!(
        MessageBuilder::get().unwrap().path(vec![b'/', 0xff]),
        Err(Error::MalformedPath)
    ));
    assert!(matches!(
        MessageBuilder::get().unwrap().path(b"/a\0".to_vec()),
        Err(Error::MalformedPath)
    ));
}

#[test]
fn builder_strips_one_closing_nul_from_a_selector() {
    let message = MessageBuilder::get()
        .unwrap()
        .path(b"/a".to_vec())
        .unwrap()
        .selector(Selector::from_bytes(b"dicey.Trait\0", b"Elem\0"))
        .unwrap()
        .build()
        .unwrap();
    assert_eq!(message.selector(), &Selector::new("dicey.Trait", "Elem"));
    assert_eq!(dicey::strip_null(b"abc\0"), b"abc");
    assert_eq!(dicey::strip_null(b"abc"), b"abc");
    assert_eq!(dicey::strip_null(b"abc\0\0"), b"abc\0");
    assert_eq!(dicey::strip_null(b""), b"");
    assert_eq!(dicey::strip_null(b"\0"), b"");
}

#[test]
fn builder_refuses_a_malformed_selector() {
    for (t, e) in [
        (&b"a\0b"[..], &b"e"[..]),
        (&b"t"[..], &b"e\0\0"[..]),
        (&b""[..], &b"e"[..]),
        (&b"t"[..], &b"\0"[..]),
    ] {
        assert!(matches!(
            MessageBuilder::get().unwrap().selector(Selector::from_bytes(t, e)),
            Err(Error::InvalidData)
        ));
    }
}

#[test]
fn builder_refuses_an_incomplete_message() {
    assert!(matches!(MessageBuilder::get().unwrap().build(), Err(Error::InvalidData)));
    assert!(matches!(
        MessageBuilder::get().unwrap().path(b"/a".to_vec()).unwrap().build(),
        Err(Error::InvalidData)
    ));
    assert!(matches!(
        MessageBuilder::response()
            .unwrap()
            .path(b"/a".to_vec())
            .unwrap()
            .selector(Selector::new("t", "e"))
            .unwrap()
            .build(),
        Err(Error::InvalidData)
    ));
    assert!(matches!(MessageBuilder::get().unwrap().value(1u32), Err(Error::InvalidData)));
    assert!(matches!(MessageBuilder::event().unwrap().value("a\0"), Err(Error::InvalidData)));
    assert!(matches!(
        MessageBuilder::new(Op::Event).unwrap().value_from(ValueBuilder::new()),
        Err(Error::InvalidData)
    ));
    assert!(matches!(
        MessageBuilder::new(Op::Event).unwrap().value_with(|_cursor| Ok(())),
        Err(Error::InvalidData)
    ));
}

#[test]
fn builder_takes_a_value_built_step_by_step() {
    let mut cursor = ValueBuilder::new();
    cursor.array_start(Type::UInt16).unwrap();
    cursor.next().unwrap();
    cursor.set(1u16).unwrap();
    cursor.array_end().unwrap();
    let message = MessageBuilder::event()
        .unwrap()
        .path(b"/a".to_vec())
        .unwrap()
        .selector(Selector::new("t", "e"))
        .unwrap()
        .value_from(cursor)
        .unwrap()
        .build()
        .unwrap();
    assert_eq!(
        message.value(),
        Some(&ValueView::Array { element_kind: Type::UInt16, items: vec![ValueView::UInt16(1)] })
    );
    match message {
        Message::Event(event) => {
            assert_eq!(event.path(), "/a");
            assert_eq!(event.selector(), &Selector::new("t", "e"));
        }
        other => panic!("not an event: {:?}", other),
    }
}

#[test]
fn message_new_checks_its_parts() {
    let ill = ValueView::Array { element_kind: Type::Bool, items: vec![ValueView::Unit] };
    assert!(matches!(
        Message::new(Op::Exec, 1, String::from("/a"), Selector::new("t", "e"), Some(ill)),
        Err(Error::ValueTypeMismatch)
    ));
    assert!(matches!(
        Message::new(Op::Get, 1, String::from("/a"), Selector::new("t", "e"), Some(ValueView::Unit)),
        Err(Error::InvalidData)
    ));
    assert!(matches!(
        Message::new(Op::Exec, 1, String::from("/a"), Selector::new("t", "e"), None),
        Err(Error::InvalidData)
    ));
    let get = Message::new(Op::Get, 1, String::from("/a"), Selector::new("t", "e"), None).unwrap();
    match get {
        Message::Get(get) => {
            assert_eq!(get.seq(), 1);
            assert_eq!(get.path(), "/a");
            assert_eq!(get.selector(), &Selector::new("t", "e"));
            assert_eq!(get.into_raw().seq, 1);
        }
        other => panic!("not a get: {:?}", other),
    }
}

#[test]
fn builder_runs_the_steps_that_build_its_value() {
    let message = MessageBuilder::event()
        .unwrap()
        .path(b"/a".to_vec())
        .unwrap()
        .selector(Selector::new("t", "e"))
        .unwrap()
        .value_with(|cursor| {
            cursor.pair_start()?;
            cursor.next()?;
            cursor.set("left")?;
            cursor.next()?;
            cursor.set(7i16)?;
            cursor.pair_end()
        })
        .unwrap()
        .build()
        .unwrap();
    assert_eq!(
        message.value(),
        Some(&ValueView::Pair(
            Box::new(ValueView::String("left".to_string())),
            Box::new(ValueView::Int16(7)),
        ))
    );
}

#[test]
fn builder_hands_on_the_error_of_the_steps() {
    let steps_fail = MessageBuilder::event().unwrap().value_with(|cursor| {
        cursor.array_start(Type::Bool)?;
        cursor.next()?;
        cursor.set(1u32)
    });
    assert!(matches!(steps_fail, Err(Error::ValueTypeMismatch)));

    let own_error = MessageBuilder::event().unwrap().value_with(|_cursor| Err(Error::Overflow));
    assert!(matches!(own_error, Err(Error::Overflow)));

    // A value left open is not attached.
    let left_open =
        MessageBuilder::event().unwrap().value_with(|cursor| cursor.array_start(Type::Bool));
    assert!(matches!(left_open, Err(Error::InvalidData)));

    // A `Get` carries no value, and the steps are not run for it.
    let mut ran = false;
    let on_get = MessageBuilder::get().unwrap().value_with(|_cursor| {
        ran = true;
        Ok(())
    });
    assert!(matches!(on_get, Err(Error::InvalidData)));
    assert!(!ran);
}
