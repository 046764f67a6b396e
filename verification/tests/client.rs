use dicey::client::{ack_reply, completion, inspect_reply, is_unit_ack, plan_subscription, xml_reply};
use dicey::{
    Address, Byte, Client, ClientArgs, ClientState, Delivery, Element, Error, ErrorMessage, Firing,
    Message, MessageBuilder, Op, Operation, Path, PendingRequests, RawContent, RawMessage,
    RawPacket, Selector, Type, ValueView, DEFAULT_TIMEOUT_MS,
};
use futures::channel::oneshot::{channel, Canceled, Receiver};
use uuid::Uuid;

type Waiter = Receiver<Result<Message, Error>>;

fn running() -> Client {
    let (mut client, address, mut waiter) = Client::connect(Address::new(b"/tmp/.uvsock"));
    assert_eq!(address, Address::new(b"/tmp/.uvsock"));
    assert_eq!(client.state(), ClientState::Connecting);
    assert!(!client.is_running());
    assert_eq!(waiter.try_recv(), Ok(None));
    assert_eq!(client.connected(Ok(())), Delivery::Delivered);
    assert_eq!(waiter.try_recv(), Ok(Some(Ok(()))));
    assert!(client.is_running());
    client
}

fn response(seq: u32, path: &str, selector: &Selector, value: ValueView) -> RawPacket {
    RawPacket {
        kind: 3,
        seq,
        content: RawContent::Message(RawMessage {
            op: b':' as u32,
            path: path.as_bytes().to_vec(),
            selector: selector.clone(),
            value: Some(value.to_raw()),
        }),
    }
}

fn taken(waiter: &mut Waiter) -> Result<Message, Error> {
    waiter.try_recv().unwrap().unwrap()
}

#[test]
fn echo_scenario() {
    let mut client = running();
    let id = Uuid::from_bytes([
        0x12, 0x34, 0x56, 0x78, 0x9a, 0xbc, 0xde, 0xf0, 0x0f, 0xed, 0xcb, 0xa9, 0x87, 0x65, 0x43,
        0x21,
    ]);
    let selector = Selector::new("dicey.test.Echo", "Echo");
    let (request, mut waiter) =
        client.exec(b"/dicey/test/echo".to_vec(), selector.clone(), id).unwrap();
    assert_eq!(request.timeout_ms, 1000);
    assert_eq!(request.message.op(), Op::Exec);
    assert_eq!(request.message.path(), "/dicey/test/echo");
    assert_eq!(request.message.selector(), &selector);
    assert_eq!(request.message.value(), Some(&ValueView::Uuid(id)));
    let seq = request.message.seq();
    assert!(client.is_pending(seq));

    // The far side echoes the argument.
    let sent = request.message.into_raw();
    let argument = match sent.content {
        RawContent::Message(m) => m.value.unwrap(),
        other => panic!("not a message: {:?}", other),
    };
    let echoed = ValueView::try_from(&argument).unwrap();
    let answer = response(seq, "/dicey/test/echo", &selector, echoed);

    assert_eq!(waiter.try_recv(), Ok(None));
    assert_eq!(client.complete(seq, Ok(answer)), Delivery::Delivered);
    let reply = taken(&mut waiter).unwrap();
    assert_eq!(reply.op(), Op::Response);
    assert_eq!(reply.seq(), seq);
    assert_eq!(reply.value().unwrap().extract::<Uuid>(), Ok(id));
    assert!(!client.is_pending(seq));
    assert_eq!(client.outstanding(), 0);
}

#[test]
fn property_set_then_get_scenario() {
    let mut client = running();
    let selector = Selector::new("sval.Sval", "Value");
    let mut stored: Option<ValueView> = None;

    let (request, mut waiter) = client.set(b"/sval".to_vec(), selector.clone(), "hello").unwrap();
    assert_eq!(request.message.op(), Op::SetValue);
    let seq = request.message.seq();
    if let RawContent::Message(m) = request.message.into_raw().content {
        stored = Some(ValueView::try_from(&m.value.unwrap()).unwrap());
    }
    client.complete(seq, Ok(response(seq, "/sval", &selector, ValueView::Unit)));
    let reply = taken(&mut waiter).unwrap();
    assert!(is_unit_ack(&reply));
    assert_eq!(ack_reply(&reply), Ok(()));

    let (request, mut waiter) = client.get(b"/sval".to_vec(), selector.clone()).unwrap();
    assert_eq!(request.message.op(), Op::Get);
    assert_eq!(request.message.value(), None);
    let seq = request.message.seq();
    client.complete(seq, Ok(response(seq, "/sval", &selector, stored.unwrap())));
    let reply = taken(&mut waiter).unwrap();
    assert_eq!(reply.value(), Some(&ValueView::String(String::from("hello"))));
    assert_eq!(reply.value().unwrap().extract::<String>(), Ok(String::from("hello")));
}

#[test]
fn each_completion_reaches_its_own_sink_once() {
    let mut client = running();
    let selector = Selector::new("t", "e");
    let mut waiters: Vec<(u32, Waiter)> = Vec::new();
    for i in 0..16u32 {
        let (request, waiter) =
            client.exec(b"/p".to_vec(), selector.clone(), i).unwrap();
        assert_eq!(request.message.seq(), i);
        waiters.push((request.message.seq(), waiter));
    }
    assert_eq!(client.outstanding(), 16);
    // Completions arrive in another order than the requests went out.
    let order: Vec<u32> = vec![5, 0, 15, 3, 9, 1, 14, 2, 8, 4, 13, 6, 12, 7, 11, 10];
    for (step, seq) in order.iter().enumerate() {
        let answer = response(*seq, "/p", &selector, ValueView::UInt32(seq * 10));
        assert_eq!(client.complete(*seq, Ok(answer)), Delivery::Delivered);
        assert_eq!(client.outstanding(), 15 - step);
        for (other, waiter) in waiters.iter_mut() {
            if other == seq {
                let reply = taken(waiter).unwrap();
                assert_eq!(reply.seq(), *seq);
                assert_eq!(reply.value(), Some(&ValueView::UInt32(seq * 10)));
                // The sink is used up: nothing more will ever come.
                assert_eq!(waiter.try_recv(), Err(Canceled));
            } else if order[..step].contains(other) {
                assert_eq!(waiter.try_recv(), Err(Canceled));
            } else {
                assert_eq!(waiter.try_recv(), Ok(None));
            }
        }
        // A second completion for the same number finds no sink.
        let again = response(*seq, "/p", &selector, ValueView::Unit);
        assert_eq!(client.complete(*seq, Ok(again)), Delivery::Discarded);
        assert_eq!(client.outstanding(), 15 - step);
    }
}

#[test]
fn a_late_completion_after_a_timeout_is_discarded() {
    let mut client = running();
    let selector = Selector::new("t", "e");
    let (slow, mut slow_waiter) = client.get(b"/slow".to_vec(), selector.clone()).unwrap();
    let (other, mut other_waiter) = client.get(b"/other".to_vec(), selector.clone()).unwrap();
    let slow_seq = slow.message.seq();
    let other_seq = other.message.seq();
    assert_ne!(slow_seq, other_seq);

    assert_eq!(client.timeout(slow_seq), Delivery::Delivered);
    assert!(matches!(taken(&mut slow_waiter), Err(Error::TimedOut)));
    assert!(!client.is_pending(slow_seq));
    assert!(client.is_pending(other_seq));
    assert_eq!(other_waiter.try_recv(), Ok(None));

    // The answer that comes too late touches nothing.
    let late = response(slow_seq, "/slow", &selector, ValueView::Unit);
    assert_eq!(client.complete(slow_seq, Ok(late)), Delivery::Discarded);
    assert_eq!(client.timeout(slow_seq), Delivery::Discarded);
    assert!(client.is_pending(other_seq));
    assert_eq!(client.outstanding(), 1);
    assert_eq!(other_waiter.try_recv(), Ok(None));
    assert_eq!(slow_waiter.try_recv(), Err(Canceled));

    let answer = response(other_seq, "/other", &selector, ValueView::Bool(true));
    assert_eq!(client.complete(other_seq, Ok(answer)), Delivery::Delivered);
    assert_eq!(taken(&mut other_waiter).unwrap().value(), Some(&ValueView::Bool(true)));
}

#[test]
fn a_completion_nobody_waits_for_is_discarded() {
    let mut client = running();
    assert_eq!(client.complete(77, Err(Error::BrokenPipe)), Delivery::Discarded);
    assert_eq!(client.timeout(77), Delivery::Discarded);
    assert_eq!(client.outstanding(), 0);
}

#[test]
fn a_caller_that_stopped_waiting_is_noticed() {
    let mut client = running();
    let (request, waiter) = client.get(b"/p".to_vec(), Selector::new("t", "e")).unwrap();
    drop(waiter);
    assert_eq!(client.complete(request.message.seq(), Err(Error::BrokenPipe)), Delivery::Abandoned);
    assert_eq!(client.outstanding(), 0);
}

#[test]
fn engine_errors_reach_the_caller() {
    let mut client = running();
    let (request, mut waiter) = client.get(b"/p".to_vec(), Selector::new("t", "e")).unwrap();
    client.complete(request.message.seq(), Err(Error::Engine(-42)));
    assert!(matches!(taken(&mut waiter), Err(Error::Engine(-42))));

    let (request, mut waiter) = client.get(b"/p".to_vec(), Selector::new("t", "e")).unwrap();
    let not_a_message = RawPacket { kind: 2, seq: 1, content: RawContent::Bye { reason: 1 } };
    client.complete(request.message.seq(), Ok(not_a_message));
    assert!(matches!(taken(&mut waiter), Err(Error::InvalidData)));
    assert!(matches!(completion(Err(Error::ConnectionReset)), Err(Error::ConnectionReset)));
}

#[test]
fn teardown_cancels_everything_that_waits() {
    let mut client = running();
    let selector = Selector::new("t", "e");
    let mut waiters = Vec::new();
    for _ in 0..5 {
        waiters.push(client.get(b"/p".to_vec(), selector.clone()).unwrap().1);
    }
    assert_eq!(client.disconnect(), 5);
    assert_eq!(client.state(), ClientState::Closed);
    assert!(!client.is_running());
    for waiter in waiters.iter_mut() {
        assert!(matches!(taken(waiter), Err(Error::Cancelled)));
    }
    assert_eq!(client.outstanding(), 0);
    assert!(matches!(client.get(b"/p".to_vec(), selector.clone()), Err(Error::Cancelled)));
    assert_eq!(client.disconnect(), 0);
    assert_eq!(client.complete(0, Err(Error::TimedOut)), Delivery::Discarded);
}

#[test]
fn nothing_is_dispatched_before_the_connection_stands() {
    let (mut client, _address, mut waiter) = Client::connect_with_args(ClientArgs {
        pipe: Address::new(b"pipe"),
        event_queue_size: 4,
    });
    assert!(matches!(client.get(b"/p".to_vec(), Selector::new("t", "e")), Err(Error::TryAgain)));
    assert_eq!(client.outstanding(), 0);
    assert_eq!(client.connected(Err(Error::ConnectionRefused)), Delivery::Delivered);
    assert_eq!(waiter.try_recv(), Ok(Some(Err(Error::ConnectionRefused))));
    assert_eq!(client.state(), ClientState::Closed);
    assert_eq!(client.connected(Ok(())), Delivery::Discarded);
    assert_eq!(client.state(), ClientState::Closed);
    assert!(matches!(client.get(b"/p".to_vec(), Selector::new("t", "e")), Err(Error::Cancelled)));
}

#[test]
fn teardown_cancels_a_connection_request() {
    let (mut client, _address, mut waiter) = Client::connect(Address::new(b"pipe"));
    assert_eq!(client.disconnect(), 0);
    assert_eq!(waiter.try_recv(), Ok(Some(Err(Error::Cancelled))));
    assert_eq!(client.connected(Ok(())), Delivery::Discarded);
}

#[test]
fn requests_that_cannot_be_built_are_not_dispatched() {
    let mut client = running();
    let selector = Selector::new("t", "e");
    assert!(matches!(client.get(b"/a\0".to_vec(), selector.clone()), Err(Error::MalformedPath)));
    assert!(matches!(
        client.get(b"/a".to_vec(), Selector::from_bytes(b"", b"e")),
        Err(Error::InvalidData)
    ));
    assert!(matches!(
        client.set(b"/a".to_vec(), selector.clone(), "bad\0"),
        Err(Error::InvalidData)
    ));
    assert!(matches!(
        client.exec(vec![0xff], selector.clone(), ()),
        Err(Error::MalformedPath)
    ));
    assert!(matches!(
        client.request(Op::Get).path(b"/a".to_vec()).unwrap().submit(&mut client),
        Err(Error::InvalidData)
    ));
    assert_eq!(client.outstanding(), 0);
    // The sequence numbers were not used up.
    let (request, _waiter) = client.get(b"/a".to_vec(), selector).unwrap();
    assert_eq!(request.message.seq(), 0);
}

#[test]
fn request_builder_sets_the_time_to_wait() {
    let mut client = running();
    let (request, _waiter) = client
        .request(Op::Exec)
        .timeout(250)
        .seq(999)
        .path(b"/p".to_vec())
        .unwrap()
        .selector(Selector::new("t", "e"))
        .unwrap()
        .value(Byte(1))
        .unwrap()
        .submit(&mut client)
        .unwrap();
    assert_eq!(request.timeout_ms, 250);
    assert_eq!(request.message.seq(), 0);
    assert_eq!(DEFAULT_TIMEOUT_MS, 1000);
    let message = MessageBuilder::get()
        .unwrap()
        .seq(5)
        .path(b"/q".to_vec())
        .unwrap()
        .selector(Selector::new("t", "e"))
        .unwrap()
        .build()
        .unwrap();
    let (request, _waiter) = client.request_with(message, 10).unwrap();
    assert_eq!(request.message.seq(), 1);
    assert_eq!(request.message.path(), "/q");
    assert_eq!(request.timeout_ms, 10);
}

#[test]
fn subscription_management_is_an_ordinary_exec() {
    let mut client = running();
    let of_interest = Selector::new("sval.Sval", "Changed");
    let (request, _waiter) = client.subscribe_to("/sval", of_interest.clone()).unwrap();
    assert_eq!(request.message.op(), Op::Exec);
    assert_eq!(request.message.path(), "/dicey/server");
    assert_eq!(request.message.selector(), &Selector::new("dicey.EventManager", "Subscribe"));
    assert_eq!(
        request.message.value(),
        Some(&ValueView::Pair(
            Box::new(ValueView::Path(Path::new("/sval"))),
            Box::new(ValueView::Selector(of_interest.clone()))
        ))
    );
    assert_eq!(request.timeout_ms, 1000);
    let (request, _waiter) = client.unsubscribe_from("/sval", of_interest.clone()).unwrap();
    assert_eq!(request.message.selector(), &Selector::new("dicey.EventManager", "Unsubscribe"));
    assert_eq!(request.message.seq(), 1);
    assert!(matches!(client.subscribe_to("/sv\0al", of_interest), Err(Error::InvalidData)));
    assert!(matches!(
        plan_subscription("Subscribe", "/p", Selector::from_bytes(b"t\0", b"e")),
        Err(Error::InvalidData)
    ));
}

#[test]
fn acknowledgements_are_read() {
    let selector = Selector::new("dicey.EventManager", "Subscribe");
    let reply = |value: ValueView| {
        Message::from_raw(response(1, "/dicey/server", &selector, value)).unwrap()
    };
    assert_eq!(ack_reply(&reply(ValueView::Unit)), Ok(()));
    assert_eq!(
        ack_reply(&reply(ValueView::Error(ErrorMessage::new(-5, Some(String::from("no")))))),
        Err(Error::Engine(-5))
    );
    assert_eq!(
        ack_reply(&reply(ValueView::Error(ErrorMessage::new(i16::MIN, None)))),
        Err(Error::Engine(-32768))
    );
    assert_eq!(ack_reply(&reply(ValueView::Bool(true))), Err(Error::BadMessage));
    assert!(!is_unit_ack(&reply(ValueView::Bool(true))));
    let get = Message::new(Op::Get, 0, String::from("/p"), selector.clone(), None).unwrap();
    assert_eq!(ack_reply(&get), Err(Error::BadMessage));
}

#[test]
fn inspect_asks_for_the_introspection_data() {
    let mut client = running();
    let (request, _waiter, path) = client.inspect(b"/sval".to_vec()).unwrap();
    assert_eq!(path, "/sval");
    assert_eq!(request.message.op(), Op::Get);
    assert_eq!(request.message.path(), "/sval");
    assert_eq!(request.message.selector(), &Selector::new("dicey.Introspection", "Data"));
    let (request, _waiter) = client.inspect_as_xml(b"/sval".to_vec()).unwrap();
    assert_eq!(request.message.selector(), &Selector::new("dicey.Introspection", "XML"));
    assert!(matches!(client.inspect(vec![b'/', 0xff]), Err(Error::InvalidData)));
    assert!(matches!(client.inspect(b"/a\0".to_vec()), Err(Error::MalformedPath)));
    assert!(matches!(client.inspect_as_xml(vec![b'/', 0xff]), Err(Error::MalformedPath)));
}

#[test]
fn inspect_replies_are_read() {
    let selector = Selector::new("dicey.Introspection", "Data");
    let reply = |value: ValueView| Message::from_raw(response(1, "/o", &selector, value)).unwrap();
    let catalogue = ValueView::Array {
        element_kind: Type::Pair,
        items: vec![ValueView::Pair(
            Box::new(ValueView::String(String::from("t"))),
            Box::new(ValueView::Array {
                element_kind: Type::Pair,
                items: vec![ValueView::Pair(
                    Box::new(ValueView::String(String::from("e"))),
                    Box::new(ValueView::Tuple(vec![
                        ValueView::Byte(Byte(b'%')),
                        ValueView::String(String::from("s")),
                    ])),
                )],
            }),
        )],
    };
    let info = inspect_reply(String::from("/o"), &reply(catalogue)).unwrap();
    assert_eq!(info.path, "/o");
    assert_eq!(
        info.traits.get("t").unwrap().get("e"),
        Some(&Element::Operation(Operation { signature: String::from("s") }))
    );
    assert!(matches!(
        inspect_reply(String::from("/o"), &reply(ValueView::Error(ErrorMessage::new(-9, None)))),
        Err(Error::Engine(-9))
    ));
    assert!(matches!(
        inspect_reply(String::from("/o"), &reply(ValueView::Unit)),
        Err(Error::ValueTypeMismatch)
    ));
    let get = Message::new(Op::Get, 0, String::from("/o"), selector.clone(), None).unwrap();
    assert!(matches!(inspect_reply(String::from("/o"), &get), Err(Error::BadMessage)));

    assert_eq!(xml_reply(&reply(ValueView::String(String::from("<x/>")))), Ok(String::from("<x/>")));
    assert_eq!(
        xml_reply(&reply(ValueView::Error(ErrorMessage::new(3, None)))),
        Err(Error::Engine(3))
    );
    assert_eq!(xml_reply(&reply(ValueView::Unit)), Err(Error::BadMessage));
    assert_eq!(xml_reply(&get), Err(Error::BadMessage));
}

#[test]
fn registry_refuses_a_second_sink_under_one_number() {
    let mut registry = PendingRequests::new();
    let (first, mut first_waiter) = channel();
    let (second, mut second_waiter) = channel();
    assert_eq!(registry.register(3, first), Ok(()));
    assert_eq!(registry.register(3, second), Err(Error::Already));
    assert!(matches!(second_waiter.try_recv(), Ok(Some(Err(Error::Already)))));
    assert_eq!(first_waiter.try_recv().unwrap().is_none(), true);
    assert_eq!(registry.len(), 1);
    assert!(registry.is_pending(3));
    assert!(!registry.is_pending(4));
    assert_eq!(registry.retire(3), Delivery::Delivered);
    assert!(matches!(first_waiter.try_recv(), Ok(Some(Err(Error::TimedOut)))));
    assert_eq!(registry.retire(3), Delivery::Discarded);
    assert!(!registry.is_closed());
    assert_eq!(registry.close(), 0);
    assert!(registry.is_closed());
    let (third, mut third_waiter) = channel();
    assert_eq!(registry.register(9, third), Err(Error::Cancelled));
    assert!(matches!(third_waiter.try_recv(), Ok(Some(Err(Error::Cancelled)))));
}

#[test]
fn a_taken_sink_carries_the_outcome_it_is_fired_with() {
    let mut client = running();
    let selector = Selector::new("t", "e");
    let (request, mut waiter) = client.get(b"/p".to_vec(), selector.clone()).unwrap();
    let seq = request.message.seq();
    let answer = response(seq, "/p", &selector, ValueView::Int16(-4));
    let firing = client.take_completion(seq, Ok(answer)).unwrap();
    assert!(!client.is_pending(seq));
    assert_eq!(firing.peek().as_ref().unwrap().value(), Some(&ValueView::Int16(-4)));
    assert_eq!(firing.peek().as_ref().unwrap().seq(), seq);
    assert_eq!(waiter.try_recv(), Ok(None));
    assert_eq!(firing.fire(), Delivery::Delivered);
    assert_eq!(taken(&mut waiter).unwrap().value(), Some(&ValueView::Int16(-4)));
    assert!(client.take_completion(seq, Err(Error::BrokenPipe)).is_none());

    let (request, mut waiter) = client.get(b"/p".to_vec(), selector.clone()).unwrap();
    let firing = client.take_completion(request.message.seq(), Err(Error::Engine(7))).unwrap();
    assert!(matches!(firing.peek(), Err(Error::Engine(7))));
    drop(waiter.try_recv());
    drop(waiter);
    assert_eq!(firing.fire(), Delivery::Abandoned);
}

#[test]
fn teardown_decides_cancelled_for_every_sink() {
    let (mut client, _address, mut connecting) = Client::connect(Address::new(b"pipe"));
    let (connection, requests) = client.take_all();
    assert!(requests.is_empty());
    let connection = connection.unwrap();
    assert_eq!(connection.peek(), &Err(Error::Cancelled));
    connection.fire();
    assert_eq!(connecting.try_recv(), Ok(Some(Err(Error::Cancelled))));

    let mut client = running();
    let mut waiters = Vec::new();
    for _ in 0..3 {
        waiters.push(client.get(b"/p".to_vec(), Selector::new("t", "e")).unwrap().1);
    }
    let (connection, requests) = client.take_all();
    assert!(connection.is_none());
    assert_eq!(requests.len(), 3);
    assert_eq!(client.outstanding(), 0);
    for firing in requests {
        assert!(matches!(firing.peek(), Err(Error::Cancelled)));
        assert_eq!(firing.fire(), Delivery::Delivered);
    }
    for waiter in waiters.iter_mut() {
        assert!(matches!(taken(waiter), Err(Error::Cancelled)));
    }
}

#[test]
fn connection_news_is_what_the_sink_is_fired_with() {
    let (mut client, _address, mut waiter) = Client::connect(Address::new(b"pipe"));
    let firing = client.take_connection(Err(Error::ConnectionRefused)).unwrap();
    assert_eq!(firing.peek(), &Err(Error::ConnectionRefused));
    assert_eq!(client.state(), ClientState::Closed);
    assert_eq!(firing.fire(), Delivery::Delivered);
    assert_eq!(waiter.try_recv(), Ok(Some(Err(Error::ConnectionRefused))));
    assert!(client.take_connection(Ok(())).is_none());
}

#[test]
fn a_refused_sink_comes_back_with_the_reason() {
    let mut registry = PendingRequests::new();
    let (first, _first_waiter) = channel();
    let (second, mut second_waiter) = channel();
    assert!(registry.enter(1, first).is_ok());
    match registry.enter(1, second) {
        Err((reason, firing)) => {
            assert_eq!(reason, Error::Already);
            assert!(matches!(firing.peek(), Err(Error::Already)));
            assert!(matches!(second_waiter.try_recv(), Ok(None)));
            firing.fire();
            assert!(matches!(second_waiter.try_recv(), Ok(Some(Err(Error::Already)))));
        }
        Ok(()) => panic!("entered twice"),
    }
    let taken: Firing<Result<Message, Error>> = registry.take(1, Err(Error::TimedOut)).unwrap();
    assert!(matches!(taken.peek(), Err(Error::TimedOut)));
    assert!(registry.take(1, Err(Error::TimedOut)).is_none());
    assert_eq!(registry.drain().len(), 0);
    assert!(registry.is_closed());
}

#[test]
fn a_timed_out_request_is_decided_as_timed_out() {
    let mut client = running();
    let selector = Selector::new("t", "e");
    let (slow, mut slow_waiter) = client.get(b"/slow".to_vec(), selector.clone()).unwrap();
    let (other, mut other_waiter) = client.get(b"/other".to_vec(), selector.clone()).unwrap();
    let slow_seq = slow.message.seq();
    let other_seq = other.message.seq();

    let firing = client.take_timeout(slow_seq).unwrap();
    assert_eq!(firing.peek(), &Err(Error::TimedOut));
    assert!(!client.is_pending(slow_seq));
    assert!(client.is_pending(other_seq));
    assert_eq!(firing.fire(), Delivery::Delivered);
    assert!(matches!(taken(&mut slow_waiter), Err(Error::TimedOut)));
    assert_eq!(other_waiter.try_recv(), Ok(None));

    // Nothing is left to decide for it, late or twice.
    assert!(client.take_timeout(slow_seq).is_none());
    let late = response(slow_seq, "/slow", &selector, ValueView::Bool(true));
    assert!(client.take_completion(slow_seq, Ok(late)).is_none());
    assert_eq!(other_waiter.try_recv(), Ok(None));
    assert_eq!(client.outstanding(), 1);

    let answer = response(other_seq, "/other", &selector, ValueView::UInt16(9));
    let firing = client.take_completion(other_seq, Ok(answer)).unwrap();
    assert_eq!(firing.fire(), Delivery::Delivered);
    let got = taken(&mut other_waiter).unwrap();
    assert_eq!(got.path(), "/other");
    assert_eq!(got.value(), Some(&ValueView::UInt16(9)));
}

#[test]
fn the_registry_hands_back_the_sink_of_the_number_asked_for() {
    let mut registry = PendingRequests::new();
    let mut waiters: Vec<Waiter> = Vec::new();
    for seq in 0..4u32 {
        let (sink, waiter) = channel();
        assert_eq!(registry.register(seq * 10, sink), Ok(()));
        waiters.push(waiter);
    }
    // Out of order: each firing reaches the waiter of its own number only.
    let mut served = [false; 4];
    for &index in [2usize, 0, 3].iter() {
        let seq = index as u32 * 10;
        let firing = registry.take(seq, Err(Error::Engine(seq as i32))).unwrap();
        assert_eq!(firing.fire(), Delivery::Delivered);
        assert!(matches!(taken(&mut waiters[index]), Err(Error::Engine(code)) if code == seq as i32));
        served[index] = true;
        for (other, waiter) in waiters.iter_mut().enumerate() {
            if served[other] {
                assert_eq!(waiter.try_recv(), Err(Canceled));
            } else {
                assert_eq!(waiter.try_recv(), Ok(None));
            }
        }
    }
    let firing = registry.take_timeout(10).unwrap();
    assert_eq!(firing.peek(), &Err(Error::TimedOut));
    assert_eq!(firing.fire(), Delivery::Delivered);
    assert!(matches!(taken(&mut waiters[1]), Err(Error::TimedOut)));
    assert!(registry.take_timeout(10).is_none());
    assert_eq!(registry.len(), 0);
}

#[test]
fn teardown_hands_back_every_registered_sink_once() {
    let mut registry = PendingRequests::new();
    let mut waiters: Vec<Waiter> = Vec::new();
    for seq in [7u32, 1, 5] {
        let (sink, waiter) = channel();
        assert_eq!(registry.register(seq, sink), Ok(()));
        waiters.push(waiter);
    }
    let firings = registry.drain();
    assert_eq!(firings.len(), 3);
    assert_eq!(registry.len(), 0);
    for firing in firings {
        assert_eq!(firing.fire(), Delivery::Delivered);
    }
    for waiter in waiters.iter_mut() {
        assert!(matches!(taken(waiter), Err(Error::Cancelled)));
    }
}

#[test]
fn an_event_without_subscribers_is_dropped_and_one_with_them_is_counted() {
    let client = running();
    let selector = Selector::new("t", "changed");
    let event = |seq: u32| RawPacket {
        kind: 3,
        seq,
        content: RawContent::Message(RawMessage {
            op: b'!' as u32,
            path: b"/p".to_vec(),
            selector: selector.clone(),
            value: Some(ValueView::Bool(true).to_raw()),
        }),
    };
    assert_eq!(client.on_event(event(1)), Ok(None));
    let _first = client.events();
    let _second = client.events();
    assert_eq!(client.on_event(event(2)), Ok(Some(2)));
}

#[test]
fn request_builder_runs_the_steps_that_build_its_value() {
    let mut client = running();
    let (request, _waiter) = client
        .request(Op::Exec)
        .path(b"/p".to_vec())
        .unwrap()
        .selector(Selector::new("t", "e"))
        .unwrap()
        .value_with(|cursor| {
            cursor.tuple_start()?;
            cursor.next()?;
            cursor.set(true)?;
            cursor.next()?;
            cursor.set(3u64)?;
            cursor.tuple_end()
        })
        .unwrap()
        .submit(&mut client)
        .unwrap();
    assert_eq!(
        request.message.value(),
        Some(&ValueView::Tuple(vec![ValueView::Bool(true), ValueView::UInt64(3)]))
    );

    let refused = client.request(Op::Get).value_with(|cursor| cursor.set(1u16));
    assert!(matches!(refused, Err(Error::InvalidData)));
    let failed = client.request(Op::Exec).value_with(|_cursor| Err(Error::BrokenPipe));
    assert!(matches!(failed, Err(Error::BrokenPipe)));
}
