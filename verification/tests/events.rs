use dicey::{
    Address, Client, ClientArgs, Error, EventSource, Polled, RawContent, RawMessage, RawPacket,
    Selector, ValueView, DEFAULT_EVENT_QUEUE_SIZE,
};

fn client(queue: usize) -> Client {
    Client::connect_with_args(ClientArgs { pipe: Address::new(b"pipe"), event_queue_size: queue }).0
}

fn event(n: u32) -> RawPacket {
    RawPacket {
        kind: 3,
        seq: n,
        content: RawContent::Message(RawMessage {
            op: b'!' as u32,
            path: b"/sval".to_vec(),
            selector: Selector::new("sval.Sval", "Changed"),
            value: Some(ValueView::UInt32(n).to_raw()),
        }),
    }
}

fn numbers(source: &mut EventSource) -> Vec<u32> {
    let mut seen = Vec::new();
    while let Ok(event) = source.poll() {
        seen.push(event.value().unwrap().extract::<u32>().unwrap());
    }
    seen
}

#[test]
fn two_subscribers_see_every_event_in_order() {
    let client = client(DEFAULT_EVENT_QUEUE_SIZE);
    let mut eager = client.events();
    let mut lazy = client.events();
    let mut seen_by_eager = Vec::new();
    for n in 0..20u32 {
        assert_eq!(client.on_event(event(n)), Ok(Some(2)));
        // One subscriber reads at once, the other not at all for now.
        let got = eager.poll().unwrap();
        assert_eq!(got.seq(), n);
        seen_by_eager.push(got.value().unwrap().extract::<u32>().unwrap());
        assert!(matches!(eager.poll(), Err(Error::TryAgain)));
    }
    let expected: Vec<u32> = (0..20).collect();
    assert_eq!(seen_by_eager, expected);
    assert_eq!(numbers(&mut lazy), expected);
    assert!(matches!(lazy.poll(), Err(Error::TryAgain)));
}

#[test]
fn a_subscriber_sees_only_what_comes_after_it() {
    let client = client(8);
    let mut early = client.events();
    client.on_event(event(1)).unwrap();
    let mut late = client.events();
    client.on_event(event(2)).unwrap();
    assert_eq!(numbers(&mut early), vec![1, 2]);
    assert_eq!(numbers(&mut late), vec![2]);
}

#[test]
fn events_without_a_subscriber_are_dropped() {
    let client = client(8);
    assert_eq!(client.on_event(event(1)), Ok(None));
    let mut source = client.events();
    assert!(matches!(source.poll(), Err(Error::TryAgain)));
    assert_eq!(client.on_event(event(2)), Ok(Some(1)));
    assert_eq!(numbers(&mut source), vec![2]);
}

#[test]
fn a_slow_subscriber_lags_and_holds_nobody_up() {
    let client = client(4);
    let mut fast = client.events();
    let mut slow = client.events();
    let mut seen_by_fast = Vec::new();
    for n in 0..10u32 {
        // Publishing never waits, however far behind a subscriber is.
        assert_eq!(client.on_event(event(n)), Ok(Some(2)));
        seen_by_fast.extend(numbers(&mut fast));
    }
    assert_eq!(seen_by_fast, (0..10).collect::<Vec<u32>>());
    // The slow one is told that it lagged, and then reads what is retained.
    assert!(matches!(slow.poll(), Err(Error::TimedOut)));
    assert_eq!(numbers(&mut slow), vec![6, 7, 8, 9]);
    assert!(matches!(slow.poll(), Err(Error::TryAgain)));
}

#[test]
fn a_closed_connection_ends_the_events() {
    let client = client(4);
    let mut source = client.events();
    client.on_event(event(7)).unwrap();
    drop(client);
    assert_eq!(source.poll().unwrap().seq(), 7);
    assert!(matches!(source.poll(), Err(Error::Cancelled)));
    assert!(matches!(source.poll(), Err(Error::Cancelled)));
}

#[test]
fn a_packet_that_is_no_message_is_not_published() {
    let client = client(4);
    let mut source = client.events();
    let bye = RawPacket { kind: 2, seq: 1, content: RawContent::Bye { reason: 1 } };
    assert_eq!(client.on_event(bye), Err(Error::InvalidData));
    let mut broken = event(1);
    if let RawContent::Message(m) = &mut broken.content {
        m.path = vec![0xff];
    }
    assert_eq!(client.on_event(broken), Err(Error::BadMessage));
    assert!(matches!(source.poll(), Err(Error::TryAgain)));
}

#[test]
fn findings_are_turned_into_results() {
    assert!(matches!(EventSource::outcome(Polled::Empty), Err(Error::TryAgain)));
    assert!(matches!(EventSource::outcome(Polled::Closed), Err(Error::Cancelled)));
    assert!(matches!(EventSource::outcome(Polled::Lagged(3)), Err(Error::TimedOut)));
    assert!(matches!(EventSource::outcome(Polled::Lagged(u64::MAX)), Err(Error::TimedOut)));
    let message = std::sync::Arc::new(dicey::Message::from_raw(event(4)).unwrap());
    assert_eq!(EventSource::outcome(Polled::Item(message)).unwrap().seq(), 4);
}
