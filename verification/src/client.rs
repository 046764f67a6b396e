//! The client's side of a connection, as a state machine.
//!
//! The machine decides and the caller acts. It builds the request, gives it
//! its sequence number, and registers the sink on which the caller will wait,
//! all before the request is sent; the caller sends the packet and waits.
//! When the engine reports a completion, a timeout or an event, the caller
//! hands the report to the machine, which fires the one sink concerned or
//! republishes the event.

use std::sync::Arc;
use vstd::prelude::*;

use crate::address::Address;
use crate::encode::ToDicey;
use crate::error::Error;
use crate::events::EventSource;
use crate::laws::to_value;
use crate::builder::{BuilderModel, ValueBuilder};
use crate::message_builder::{attached, MessageBuilder, MessageBuilderModel};
use crate::object_info::{parse_traits, ObjectInfo, TraitsModel};
use crate::packet::{decode_message_packet, Message, MessageModel, Op, RawPacket, RawPacketModel};
use crate::pending::{takes_each_once, Delivery, Firing, PendingModel, PendingRequests};
use crate::trusted::{
    broadcast_new, broadcast_send, broadcast_subscribe, oneshot_channel, text_from_utf8,
};
use crate::value::{Path, Selector, ValueModel, ValueView};
use futures::channel::oneshot::{Receiver, Sender};

verus! {

/// How long a request waits for its answer, in milliseconds, unless it names
/// another time.
pub const DEFAULT_TIMEOUT_MS: u32 = 1000u32;

/// The path of the object that stands for the server itself.
pub const SERVER_PATH: &'static str = "/dicey/server";

/// The trait through which subscriptions are managed.
pub const EVENTMANAGER_TRAIT_NAME: &'static str = "dicey.EventManager";

/// The operation that subscribes to an event.
pub const EVENTMANAGER_SUBSCRIBE_OP_NAME: &'static str = "Subscribe";

/// The operation that ends a subscription.
pub const EVENTMANAGER_UNSUBSCRIBE_OP_NAME: &'static str = "Unsubscribe";

/// The trait through which an object describes itself.
pub const INTROSPECTION_TRAIT_NAME: &'static str = "dicey.Introspection";

/// The property that holds the description as structured data.
pub const INTROSPECTION_DATA_PROP_NAME: &'static str = "Data";

/// The property that holds the description as XML.
pub const INTROSPECTION_XML_PROP_NAME: &'static str = "XML";

/// What it takes to make a client.
pub struct ClientArgs {
    /// Where the server listens.
    pub pipe: Address,
    /// How many events the queue retains for a subscriber that does not keep
    /// up.
    pub event_queue_size: usize,
}

/// Where a client stands.
#[derive(Clone, Copy, Debug, PartialEq, Eq, Structural)]
pub enum ClientState {
    /// The connection has been asked for and not yet been granted.
    Connecting,
    /// The connection stands.
    Running,
    /// The connection is gone, or was refused.
    Closed,
}

/// The model of a client: where it stands, which sequence numbers wait, and
/// which number is next in turn. What the client holds besides (the sink of
/// each waiting request, the sink of the connection request and the event
/// queue) is named by [`Client::sinks`], [`Client::connect_sink`] and
/// [`Client::publisher`].
pub struct ClientModel {
    pub state: ClientState,
    pub pending: PendingModel,
    pub next_seq: u32,
}

/// The sequence number after `seq`; after the last one comes zero.
pub open spec fn seq_after(seq: u32) -> u32 {
    if seq == u32::MAX {
        0u32
    } else {
        (seq + 1) as u32
    }
}

impl ClientModel {
    /// Whether a request can be dispatched, and why not: `Cancelled` once the
    /// connection is gone, `TryAgain` while it does not stand yet, and
    /// `TryAgain` too while the sequence number that is next in turn is still
    /// waiting for its answer.
    pub open spec fn dispatch_error(self) -> Option<Error> {
        if self.state == ClientState::Closed {
            Some(Error::Cancelled)
        } else if self.state == ClientState::Connecting {
            Some(Error::TryAgain)
        } else if self.pending.pending.contains(self.next_seq) {
            Some(Error::TryAgain)
        } else {
            None
        }
    }

    /// The client after an attempt to dispatch a request. A request that is
    /// dispatched takes the sequence number that is next in turn. A sequence
    /// number that is found still waiting is passed over.
    pub open spec fn dispatch(self) -> ClientModel {
        if self.state != ClientState::Running {
            self
        } else if self.pending.pending.contains(self.next_seq) {
            ClientModel { next_seq: seq_after(self.next_seq), ..self }
        } else {
            ClientModel {
                state: self.state,
                pending: PendingModel {
                    pending: self.pending.pending.insert(self.next_seq),
                    closed: self.pending.closed,
                },
                next_seq: seq_after(self.next_seq),
            }
        }
    }

    /// The client after the engine has answered the request for a
    /// connection.
    pub open spec fn connected(self, granted: bool) -> ClientModel {
        if self.state != ClientState::Connecting {
            self
        } else if granted {
            ClientModel { state: ClientState::Running, ..self }
        } else {
            ClientModel { state: ClientState::Closed, pending: self.pending.close(), ..self }
        }
    }

    /// The client after a completion or a timeout for `seq`.
    pub open spec fn complete(self, seq: u32) -> ClientModel {
        ClientModel { pending: self.pending.complete(seq), ..self }
    }

    /// The client after teardown.
    pub open spec fn disconnect(self) -> ClientModel {
        ClientModel { state: ClientState::Closed, pending: self.pending.close(), ..self }
    }
}

/// Correlation uniqueness: a request is dispatched only under a sequence
/// number that no outstanding request has, and from then on that number is
/// taken until its one completion, its timeout, or teardown.
pub proof fn lemma_dispatch_is_unique(client: ClientModel)
    requires
        client.dispatch_error() is None,
    ensures
        !client.pending.pending.contains(client.next_seq),
        client.dispatch().pending.pending == client.pending.pending.insert(client.next_seq),
        client.dispatch().dispatch_error() is None ==> client.dispatch().next_seq
            != client.next_seq,
        client.dispatch().complete(client.next_seq).pending == client.pending,
{
    assert(client.pending.pending.insert(client.next_seq).remove(client.next_seq)
        =~= client.pending.pending);
}

/// A request that has been dispatched: the message to send, already under its
/// sequence number, and the time to wait for the answer.
#[derive(Debug)]
pub struct Request {
    pub message: Message,
    pub timeout_ms: u32,
}

/// The outcome that a completion report stands for: the message that the
/// answer packet holds, or the error that the engine reported, or the error
/// of an answer packet that does not hold a message.
pub open spec fn completion_of(status: Result<RawPacketModel, Error>) -> Result<
    MessageModel,
    Error,
> {
    match status {
        Ok(packet) => decode_message_packet(packet),
        Err(e) => Err(e),
    }
}

/// What a reply means where only an acknowledgement is expected: `Ok` for a
/// unit value, the remote error's code for an error value, `BadMessage` for
/// anything else.
pub open spec fn ack_of(reply: MessageModel) -> Result<(), Error> {
    match reply.value {
        Some(ValueModel::Unit) => Ok(()),
        Some(ValueModel::Error(e)) => Err(Error::Engine(e.code as i32)),
        _ => Err(Error::BadMessage),
    }
}

/// What the reply to a read of the XML description means: the text for a
/// string value, the remote error's code for an error value, `BadMessage` for
/// anything else.
pub open spec fn xml_of(reply: MessageModel) -> Result<Seq<char>, Error> {
    match reply.value {
        Some(ValueModel::String(text)) => Ok(text),
        Some(ValueModel::Error(e)) => Err(Error::Engine(e.code as i32)),
        _ => Err(Error::BadMessage),
    }
}

/// What the reply to a read of the structured description means: the remote
/// error's code for an error value, `BadMessage` for a reply without a value,
/// and otherwise what the parser makes of the value.
pub open spec fn catalogue_of(reply: MessageModel) -> Result<TraitsModel, Error> {
    match reply.value {
        Some(ValueModel::Error(e)) => Err(Error::Engine(e.code as i32)),
        Some(value) => parse_traits(value),
        None => Err(Error::BadMessage),
    }
}

/// The model of a completion report.
pub open spec fn status_model(status: Result<RawPacket, Error>) -> Result<RawPacketModel, Error> {
    match status {
        Ok(packet) => Ok(packet@),
        Err(e) => Err(e),
    }
}

/// The model of the outcome of a request.
pub open spec fn outcome_model(outcome: Result<Message, Error>) -> Result<MessageModel, Error> {
    match outcome {
        Ok(message) => Ok(message@),
        Err(e) => Err(e),
    }
}

/// Reads a completion report: exactly [`completion_of`].
pub fn completion(status: Result<RawPacket, Error>) -> (r: Result<Message, Error>)
    ensures
        match r {
            Ok(message) => completion_of(
                match status {
                    Ok(p) => Ok(p@),
                    Err(e) => Err(e),
                },
            ) == Ok::<MessageModel, Error>(message@) && message.wf(),
            Err(e) => completion_of(
                match status {
                    Ok(p) => Ok(p@),
                    Err(e) => Err(e),
                },
            ) == Err::<MessageModel, Error>(e),
        },
{
    match status {
        Ok(packet) => Message::from_raw(packet),
        Err(e) => Err(e),
    }
}

/// Introspection through a client: a reply whose value lists a catalogue in
/// which every descriptor describes an element is read as exactly what the
/// catalogue lists, as [`crate::object_info::lemma_catalogue_is_read`] says
/// of the value.
pub proof fn lemma_inspect_reads_catalogue(
    reply: MessageModel,
    listing: Seq<(Seq<char>, Seq<(Seq<char>, ValueModel)>)>,
)
    requires
        reply.value == Some(crate::object_info::listing_value(listing)),
        crate::object_info::all_described(listing),
    ensures
        catalogue_of(reply) == Ok::<TraitsModel, Error>(
            crate::dict::map_of(
                crate::object_info::parsed_listing(listing, listing.len()),
            ),
        ),
{
    crate::object_info::lemma_catalogue_is_read(listing);
}

/// Reads a reply where only an acknowledgement is expected: exactly
/// [`ack_of`].
pub fn ack_reply(reply: &Message) -> (r: Result<(), Error>)
    ensures
        r == ack_of(reply@),
{
    match reply.value() {
        Some(ValueView::Unit) => Ok(()),
        Some(ValueView::Error(e)) => Err(Error::from_code(e.code as i32)),
        _ => Err(Error::BadMessage),
    }
}

/// Whether a reply to a write is the unit value that a server acknowledges
/// with. The answer is a diagnostic: a write has succeeded once any reply has
/// come.
pub fn is_unit_ack(reply: &Message) -> (unit: bool)
    ensures
        unit == (reply@.value == Some(ValueModel::Unit)),
{
    match reply.value() {
        Some(ValueView::Unit) => true,
        _ => false,
    }
}

/// Reads the reply to a read of the XML description: exactly [`xml_of`].
pub fn xml_reply(reply: &Message) -> (r: Result<String, Error>)
    ensures
        match r {
            Ok(text) => xml_of(reply@) == Ok::<Seq<char>, Error>(text@),
            Err(e) => xml_of(reply@) == Err::<Seq<char>, Error>(e),
        },
{
    match reply.value() {
        Some(ValueView::String(s)) => Ok(s.clone()),
        Some(ValueView::Error(e)) => Err(Error::from_code(e.code as i32)),
        _ => Err(Error::BadMessage),
    }
}

/// Reads the reply to a read of the structured description of the object at
/// `path`: exactly [`catalogue_of`].
pub fn inspect_reply(path: String, reply: &Message) -> (r: Result<ObjectInfo, Error>)
    ensures
        match r {
            Ok(info) => catalogue_of(reply@) == Ok::<TraitsModel, Error>(info@.traits)
                && info@.path == path@ && info.traits.wf(),
            Err(e) => catalogue_of(reply@) == Err::<TraitsModel, Error>(e),
        },
{
    match reply.value() {
        Some(ValueView::Error(e)) => Err(Error::from_code(e.code as i32)),
        Some(value) => ObjectInfo::from_dicey(path, value),
        None => Err(Error::BadMessage),
    }
}

/// The message that asks the server to start (`Subscribe`) or to stop
/// (`Unsubscribe`) reporting one event.
pub open spec fn subscription_message(
    operation: Seq<char>,
    path: Seq<char>,
    selector: crate::value::SelectorModel,
) -> MessageModel {
    MessageModel {
        op: Op::Exec,
        seq: 0,
        path: SERVER_PATH@,
        selector: crate::value::SelectorModel {
            trait_name: vstd::utf8::encode_utf8(EVENTMANAGER_TRAIT_NAME@),
            elem: vstd::utf8::encode_utf8(operation),
        },
        value: Some(
            ValueModel::Pair(
                Box::new(ValueModel::Path(path)),
                Box::new(ValueModel::Selector(selector)),
            ),
        ),
    }
}

/// Whether a path and a selector can be sent as the name of an event: none of
/// the three strings holds a NUL.
pub open spec fn can_name_event(path: Seq<char>, selector: crate::value::SelectorModel) -> bool {
    &&& !crate::encode::has_nul(vstd::utf8::encode_utf8(path))
    &&& !crate::encode::has_nul(selector.trait_name)
    &&& !crate::encode::has_nul(selector.elem)
}

/// Builds the message that manages a subscription: an `Exec` of the named
/// operation of the event manager, whose argument is the pair of the path and
/// the selector of the event. It fails, with `InvalidData`, exactly if the
/// path or one of the selector's names holds a NUL.
pub fn plan_subscription(operation: &str, path: &str, selector: Selector) -> (r: Result<
    Message,
    Error,
>)
    ensures
        match r {
            Ok(message) => message.wf() && planned_subscription(operation@, path@, selector@)
                == Ok::<MessageModel, Error>(message@),
            Err(e) => planned_subscription(operation@, path@, selector@) == Err::<
                MessageModel,
                Error,
            >(e),
        },
{
    let argument = (Path::new(path), selector);
    let value = to_value(&argument)?;
    let target = Selector::new(EVENTMANAGER_TRAIT_NAME, operation);
    match Message::new(Op::Exec, 0, SERVER_PATH.to_owned(), target, Some(value)) {
        Ok(message) => Ok(message),
        Err(e) => {
            proof {
                assert(false);
            }
            Err(e)
        },
    }
}

/// The message that reads a property: the path and the selector are checked
/// as [`crate::message_builder::path_of`] and
/// [`crate::message_builder::selector_of`] say, the path first.
pub open spec fn planned_get(path: Seq<u8>, selector: crate::value::SelectorModel) -> Result<
    MessageModel,
    Error,
> {
    match crate::message_builder::path_of(path) {
        Err(e) => Err(e),
        Ok(path) => match crate::message_builder::selector_of(selector) {
            Err(e) => Err(e),
            Ok(selector) => Ok(MessageModel { op: Op::Get, seq: 0, path, selector, value: None }),
        },
    }
}

/// The message of kind `op` that carries the encoding of an argument: the
/// path is checked first, then the selector, then the argument.
pub open spec fn planned_with_value(
    op: Op,
    path: Seq<u8>,
    selector: crate::value::SelectorModel,
    encoded: Result<ValueModel, Error>,
) -> Result<MessageModel, Error> {
    match crate::message_builder::path_of(path) {
        Err(e) => Err(e),
        Ok(path) => match crate::message_builder::selector_of(selector) {
            Err(e) => Err(e),
            Ok(selector) => match encoded {
                Err(e) => Err(e),
                Ok(value) => Ok(MessageModel { op, seq: 0, path, selector, value: Some(value) }),
            },
        },
    }
}

/// The message that reads a property whose names are the library's own.
pub open spec fn planned_well_known(path: Seq<u8>, trait_name: Seq<char>, elem: Seq<char>) -> Result<
    MessageModel,
    Error,
> {
    match crate::message_builder::path_of(path) {
        Err(e) => Err(e),
        Ok(path) => Ok(
            MessageModel {
                op: Op::Get,
                seq: 0,
                path,
                selector: crate::value::SelectorModel {
                    trait_name: vstd::utf8::encode_utf8(trait_name),
                    elem: vstd::utf8::encode_utf8(elem),
                },
                value: None,
            },
        ),
    }
}

/// The message that manages a subscription, or `InvalidData` where the event
/// cannot be named.
pub open spec fn planned_subscription(
    operation: Seq<char>,
    path: Seq<char>,
    selector: crate::value::SelectorModel,
) -> Result<MessageModel, Error> {
    if can_name_event(path, selector) {
        Ok(subscription_message(operation, path, selector))
    } else {
        Err(Error::InvalidData)
    }
}

/// What planning a request and dispatching it comes to: a request that
/// cannot be planned fails with the plan's error and leaves the client as it
/// was; one that can is [`dispatched`].
pub open spec fn requested(
    before: ClientModel,
    after: ClientModel,
    plan: Result<MessageModel, Error>,
    timeout_ms: u32,
    r: Result<(Request, Receiver<Result<Message, Error>>), Error>,
) -> bool {
    match plan {
        Err(e) => r matches Err(err) && err == e && after == before,
        Ok(message) => dispatched(before, after, message, timeout_ms, r),
    }
}

/// Builders for requests: a message builder and the time to wait.
#[derive(Debug)]
pub struct RequestBuilder {
    mbuilder: MessageBuilder,
    timeout_ms: u32,
}

impl RequestBuilder {
    pub closed spec fn message(&self) -> MessageBuilderModel {
        self.mbuilder@
    }

    pub closed spec fn spec_timeout(&self) -> u32 {
        self.timeout_ms
    }

    pub closed spec fn wf(&self) -> bool {
        self.mbuilder.wf()
    }

    /// A builder for a request of the given kind, which waits the default
    /// time.
    pub fn new(op: Op) -> (builder: RequestBuilder)
        ensures
            builder.wf(),
            builder.message() == MessageBuilderModel::fresh(op),
            builder.spec_timeout() == DEFAULT_TIMEOUT_MS,
    {
        RequestBuilder { mbuilder: MessageBuilder::begin(op), timeout_ms: DEFAULT_TIMEOUT_MS }
    }

    /// Sets the path, as [`MessageBuilder::path`] does.
    pub fn path(self, path: Vec<u8>) -> (r: Result<RequestBuilder, Error>)
        requires
            self.wf(),
        ensures
            match r {
                Ok(builder) => builder.wf() && builder.spec_timeout() == self.spec_timeout()
                    && crate::message_builder::path_of(path@) == Ok::<Seq<char>, Error>(
                    builder.message().path->Some_0,
                ) && builder.message() == (MessageBuilderModel {
                    path: builder.message().path,
                    ..self.message()
                }) && builder.message().path is Some,
                Err(e) => crate::message_builder::path_of(path@) == Err::<Seq<char>, Error>(e),
            },
    {
        let mbuilder = self.mbuilder.path(path)?;
        Ok(RequestBuilder { mbuilder, timeout_ms: self.timeout_ms })
    }

    /// Sets the selector, as [`MessageBuilder::selector`] does.
    pub fn selector(self, sel: Selector) -> (r: Result<RequestBuilder, Error>)
        requires
            self.wf(),
        ensures
            match r {
                Ok(builder) => builder.wf() && builder.spec_timeout() == self.spec_timeout()
                    && crate::message_builder::selector_of(sel@) == Ok::<
                    crate::value::SelectorModel,
                    Error,
                >(builder.message().selector->Some_0) && builder.message() == (
                MessageBuilderModel { selector: builder.message().selector, ..self.message() })
                    && builder.message().selector is Some,
                Err(e) => crate::message_builder::selector_of(sel@) == Err::<
                    crate::value::SelectorModel,
                    Error,
                >(e),
            },
    {
        let mbuilder = self.mbuilder.selector(sel)?;
        Ok(RequestBuilder { mbuilder, timeout_ms: self.timeout_ms })
    }

    /// Sets the sequence number of the message. A request is sent under the
    /// number that the client gives it, whatever is set here.
    pub fn seq(self, seq: u32) -> (builder: RequestBuilder)
        requires
            self.wf(),
        ensures
            builder.wf(),
            builder.spec_timeout() == self.spec_timeout(),
            builder.message() == (MessageBuilderModel { seq: Some(seq), ..self.message() }),
    {
        RequestBuilder { mbuilder: self.mbuilder.seq(seq), timeout_ms: self.timeout_ms }
    }

    /// Sets the time to wait for the answer, in milliseconds.
    pub fn timeout(self, timeout_ms: u32) -> (builder: RequestBuilder)
        requires
            self.wf(),
        ensures
            builder.wf(),
            builder.spec_timeout() == timeout_ms,
            builder.message() == self.message(),
    {
        RequestBuilder { mbuilder: self.mbuilder, timeout_ms }
    }

    /// Attaches a value, as [`MessageBuilder::value`] does.
    pub fn value<T: ToDicey>(self, value: T) -> (r: Result<RequestBuilder, Error>)
        requires
            self.wf(),
        ensures
            match r {
                Ok(builder) => builder.wf() && builder.spec_timeout() == self.spec_timeout()
                    && self.message().op.carries_value() && value.encoded() == Ok::<
                    ValueModel,
                    Error,
                >(builder.message().value->Some_0) && builder.message().value is Some
                    && builder.message() == (MessageBuilderModel {
                    value: builder.message().value,
                    ..self.message()
                }),
                Err(e) => if !self.message().op.carries_value() {
                    e == Error::InvalidData
                } else {
                    value.encoded() == Err::<ValueModel, Error>(e)
                },
            },
    {
        let mbuilder = self.mbuilder.value(value)?;
        Ok(RequestBuilder { mbuilder, timeout_ms: self.timeout_ms })
    }

    /// Attaches the value that `op` builds step by step in a cursor of its
    /// own, as [`MessageBuilder::value_with`] does.
    pub fn value_with<F: FnOnce(&mut ValueBuilder) -> Result<(), Error>>(self, op: F) -> (r: Result<
        RequestBuilder,
        Error,
    >)
        requires
            self.wf(),
            forall|cursor: &mut ValueBuilder|
                mut_ref_current(cursor).wf() && mut_ref_current(cursor)@ == BuilderModel::fresh()
                    ==> call_requires(op, (cursor,)),
            forall|cursor: &mut ValueBuilder, done: Result<(), Error>|
                mut_ref_current(cursor).wf() && #[trigger] call_ensures(op, (cursor,), done)
                    ==> mut_ref_future(cursor).wf(),
        ensures
            !self.message().op.carries_value() ==> r == Err::<RequestBuilder, Error>(
                Error::InvalidData,
            ),
            self.message().op.carries_value() ==> exists|
                cursor: &mut ValueBuilder,
                done: Result<(), Error>,
            |
                {
                    &&& mut_ref_current(cursor)@ == BuilderModel::fresh()
                    &&& #[trigger] call_ensures(op, (cursor,), done)
                    &&& match done {
                        Err(e) => r matches Err(err) && err == e,
                        Ok(_) => match r {
                            Ok(builder) => builder.wf() && builder.spec_timeout()
                                == self.spec_timeout() && attached(
                                self.message(),
                                mut_ref_future(cursor)@,
                                Ok(builder.message()),
                            ),
                            Err(e) => attached(self.message(), mut_ref_future(cursor)@, Err(e)),
                        },
                    }
                },
    {
        let mbuilder = self.mbuilder.value_with(op)?;
        Ok(RequestBuilder { mbuilder, timeout_ms: self.timeout_ms })
    }

    /// Attaches a value built step by step, as [`MessageBuilder::value_from`]
    /// does.
    pub fn value_from(self, cursor: ValueBuilder) -> (r: Result<RequestBuilder, Error>)
        requires
            self.wf(),
            cursor.wf(),
        ensures
            match r {
                Ok(builder) => builder.wf() && builder.spec_timeout() == self.spec_timeout()
                    && attached(self.message(), cursor@, Ok(builder.message())),
                Err(e) => attached(self.message(), cursor@, Err(e)),
            },
    {
        let mbuilder = self.mbuilder.value_from(cursor)?;
        Ok(RequestBuilder { mbuilder, timeout_ms: self.timeout_ms })
    }

    /// Finishes the message and dispatches it on the client: the error of
    /// [`MessageBuilderModel::built`] if the message is not complete, and
    /// otherwise what [`Client::request_with`] makes of the message.
    pub fn submit(self, client: &mut Client) -> (r: Result<
        (Request, Receiver<Result<Message, Error>>),
        Error,
    >)
        requires
            self.wf(),
            old(client).wf(),
        ensures
            final(client).wf(),
            enters_one_sink(*old(client), *final(client), r is Ok),
            match self.message().built() {
                Err(e) => r matches Err(err) && err == e && final(client)@ == old(client)@,
                Ok(message) => dispatched(
                    old(client)@,
                    final(client)@,
                    message,
                    self.spec_timeout(),
                    r,
                ),
            },
    {
        let timeout_ms = self.timeout_ms;
        let message = self.mbuilder.build()?;
        client.request_with(message, timeout_ms)
    }
}

/// What dispatching `message` on client `before` comes to: either the client
/// refuses, for the reason that [`ClientModel::dispatch_error`] gives, or the
/// request goes out under the sequence number that was next in turn and that
/// number is registered as waiting. Either way the client is afterwards as
/// [`ClientModel::dispatch`] says.
pub open spec fn dispatched(
    before: ClientModel,
    after: ClientModel,
    message: MessageModel,
    timeout_ms: u32,
    r: Result<(Request, Receiver<Result<Message, Error>>), Error>,
) -> bool {
    &&& after == before.dispatch()
    &&& match r {
        Ok(pair) => before.dispatch_error() is None && pair.0.message@ == message.with_seq(
            before.next_seq,
        ) && pair.0.timeout_ms == timeout_ms,
        Err(e) => before.dispatch_error() == Some(e),
    }
}

/// What a dispatch does to the sinks that a client holds. Where the request
/// is accepted, a sink is entered under the sequence number that was next in
/// turn, which had none, and every other sink stays registered under its own
/// number; where it is not, the sinks are as they were. The sink of the
/// connection request and the event queue are untouched either way.
pub open spec fn enters_one_sink(before: Client, after: Client, accepted: bool) -> bool {
    &&& after.connect_sink() == before.connect_sink()
    &&& after.publisher() == before.publisher()
    &&& if accepted {
        &&& !before.sinks().dom().contains(before@.next_seq)
        &&& after.sinks().dom().contains(before@.next_seq)
        &&& after.sinks().remove(before@.next_seq) == before.sinks()
    } else {
        after.sinks() == before.sinks()
    }
}

/// A dispatch touches no sink that was registered: every request that
/// waited before it waits afterwards on the sink that it had.
pub proof fn lemma_dispatch_keeps_sinks(before: Client, after: Client, accepted: bool, other: u32)
    requires
        enters_one_sink(before, after, accepted),
        before.sinks().dom().contains(other),
    ensures
        after.sinks().dom().contains(other),
        after.sinks()[other] == before.sinks()[other],
{
    if accepted {
        let seq = before@.next_seq;
        assert(after.sinks().remove(seq).dom().contains(other));
        assert(after.sinks().remove(seq)[other] == after.sinks()[other]);
    }
}

/// The client's side of a connection: its state, and the sinks and the event
/// queue through which it reaches those who wait.
pub struct Client {
    state: ClientState,
    connect_sink: Option<Sender<Result<(), Error>>>,
    pending: PendingRequests,
    next_seq: u32,
    events: tokio::sync::broadcast::Sender<Arc<Message>>,
}

impl View for Client {
    type V = ClientModel;

    /// The state of the client. The sinks and the event queue that it holds
    /// are [`Client::sinks`], [`Client::connect_sink`] and
    /// [`Client::publisher`].
    closed spec fn view(&self) -> ClientModel {
        ClientModel { state: self.state, pending: self.pending@, next_seq: self.next_seq }
    }
}

impl Client {
    /// The invariant of a client: the sink of the connection request is kept
    /// exactly while the connection is being made, requests wait only while
    /// the connection stands, and the registry is closed exactly when the
    /// client is.
    pub closed spec fn wf(&self) -> bool {
        &&& self.pending.wf()
        &&& self.connect_sink is Some <==> self.state == ClientState::Connecting
        &&& self.pending@.closed <==> self.state == ClientState::Closed
        &&& self.state != ClientState::Running ==> self.pending@.pending == Set::<u32>::empty()
    }

    /// The sinks of the requests that wait, each under its sequence number.
    pub closed spec fn sinks(&self) -> Map<u32, Sender<Result<Message, Error>>> {
        self.pending.sinks()
    }

    /// The sink of the connection request, while there is one.
    pub closed spec fn connect_sink(&self) -> Option<Sender<Result<(), Error>>> {
        self.connect_sink
    }

    /// The queue on which events are published.
    pub closed spec fn publisher(&self) -> tokio::sync::broadcast::Sender<Arc<Message>> {
        self.events
    }

    /// What the invariant says of the sinks: the sequence numbers that have a
    /// sink are those that wait, and the connection request has its sink
    /// exactly while the connection is being made.
    pub proof fn lemma_sinks(&self)
        requires
            self.wf(),
        ensures
            self.sinks().dom() == self@.pending.pending,
            self.connect_sink() is Some <==> self@.state == ClientState::Connecting,
    {
        self.pending.lemma_sinks_are_pending();
    }

    /// Makes a client that asks for a connection to `pipe`, with the default
    /// event queue. See [`Client::connect_with_args`].
    pub fn connect(pipe: Address) -> (r: (Client, Address, Receiver<Result<(), Error>>))
        ensures
            r.0.wf(),
            r.0@ == (ClientModel {
                state: ClientState::Connecting,
                pending: PendingModel::fresh(),
                next_seq: 0,
            }),
            r.0.sinks() == Map::<u32, Sender<Result<Message, Error>>>::empty(),
            r.0.connect_sink() is Some,
            r.1 == pipe,
    {
        Client::connect_with_args(
            ClientArgs { pipe, event_queue_size: crate::events::DEFAULT_EVENT_QUEUE_SIZE },
        )
    }

    /// Makes a client that asks for a connection.
    ///
    /// The client starts out connecting. The caller hands the address to the
    /// engine and waits on the receiver, on which the outcome of the
    /// connection request arrives once [`Client::connected`] has been told of
    /// it.
    pub fn connect_with_args(args: ClientArgs) -> (r: (
        Client,
        Address,
        Receiver<Result<(), Error>>,
    ))
        requires
            0 < args.event_queue_size <= usize::MAX / 2,
        ensures
            r.0.wf(),
            r.0@ == (ClientModel {
                state: ClientState::Connecting,
                pending: PendingModel::fresh(),
                next_seq: 0,
            }),
            r.0.sinks() == Map::<u32, Sender<Result<Message, Error>>>::empty(),
            r.0.connect_sink() is Some,
            r.1 == args.pipe,
    {
        let (sink, waiter) = oneshot_channel::<Result<(), Error>>();
        let client = Client {
            state: ClientState::Connecting,
            connect_sink: Some(sink),
            pending: PendingRequests::new(),
            next_seq: 0,
            events: broadcast_new(args.event_queue_size),
        };
        (client, args.pipe, waiter)
    }

    /// Takes the news of how the connection request ended, and decides what
    /// the sink of that request is fired with: the status given.
    ///
    /// While a connection is being made, the sink of the connection request
    /// leaves the client and comes back with the status, and the client
    /// stands as [`ClientModel::connected`] says. At any other time there is
    /// no such sink, and nothing changes. No sink of a request is touched.
    pub fn take_connection(&mut self, status: Result<(), Error>) -> (r: Option<
        Firing<Result<(), Error>>,
    >)
        requires
            old(self).wf(),
        ensures
            final(self).wf(),
            final(self)@ == old(self)@.connected(status is Ok),
            final(self).connect_sink() is None,
            final(self).sinks() == old(self).sinks(),
            final(self).publisher() == old(self).publisher(),
            r is Some <==> old(self)@.state == ClientState::Connecting,
            r matches Some(firing) ==> old(self).connect_sink() == Some(firing.sink())
                && firing.outcome() == status,
    {
        proof {
            self.lemma_sinks();
        }
        match self.connect_sink.take() {
            None => None,
            Some(sink) => {
                match status {
                    Ok(()) => {
                        self.state = ClientState::Running;
                    },
                    Err(_) => {
                        self.state = ClientState::Closed;
                        let _ = self.pending.close();
                    },
                }
                proof {
                    assert(self.sinks() =~= old(self).sinks());
                }
                Some(Firing::new(sink, status))
            },
        }
    }

    /// Tells the client how the connection request ended:
    /// [`Client::take_connection`], and then the sink that was taken is
    /// fired. The sink of the request is fired with the status, once: a
    /// report that comes when no connection is being made is discarded and
    /// changes nothing.
    pub fn connected(&mut self, status: Result<(), Error>) -> (d: Delivery)
        requires
            old(self).wf(),
        ensures
            final(self).wf(),
            final(self)@ == old(self)@.connected(status is Ok),
            final(self).connect_sink() is None,
            final(self).sinks() == old(self).sinks(),
            final(self).publisher() == old(self).publisher(),
            d == Delivery::Discarded <==> old(self)@.state != ClientState::Connecting,
    {
        match self.take_connection(status) {
            None => Delivery::Discarded,
            Some(firing) => firing.fire(),
        }
    }

    /// Where the client stands.
    pub fn state(&self) -> (state: ClientState)
        ensures
            state == self@.state,
    {
        self.state
    }

    /// Whether the connection stands.
    pub fn is_running(&self) -> (running: bool)
        ensures
            running == (self@.state == ClientState::Running),
    {
        match self.state {
            ClientState::Running => true,
            _ => false,
        }
    }

    /// How many requests are waiting for their answer.
    pub fn outstanding(&self) -> (n: usize)
        requires
            self.wf(),
        ensures
            self@.pending.pending.finite(),
            n == self@.pending.pending.len(),
    {
        self.pending.len()
    }

    /// Whether the request under `seq` is waiting for its answer.
    pub fn is_pending(&self, seq: u32) -> (pending: bool)
        ensures
            pending == self@.pending.pending.contains(seq),
    {
        self.pending.is_pending(seq)
    }

    /// A builder for a request of the given kind.
    pub fn request(&self, op: Op) -> (builder: RequestBuilder)
        ensures
            builder.wf(),
            builder.message() == MessageBuilderModel::fresh(op),
            builder.spec_timeout() == DEFAULT_TIMEOUT_MS,
    {
        RequestBuilder::new(op)
    }

    /// Dispatches a request.
    ///
    /// The sink on which the caller will wait is registered under the
    /// sequence number of the request before the request is handed back for
    /// sending. The result is exactly [`dispatched`]: if the client refuses,
    /// nothing is registered; if it does not, the caller sends the message of
    /// the request and waits on the receiver. What becomes of the sinks is
    /// [`enters_one_sink`]: no sink that was registered is touched.
    pub fn request_with(&mut self, msg: Message, timeout_ms: u32) -> (r: Result<
        (Request, Receiver<Result<Message, Error>>),
        Error,
    >)
        requires
            old(self).wf(),
        ensures
            final(self).wf(),
            dispatched(old(self)@, final(self)@, msg@, timeout_ms, r),
            enters_one_sink(*old(self), *final(self), r is Ok),
    {
        proof {
            self.lemma_sinks();
        }
        match self.state {
            ClientState::Closed => {
                return Err(Error::Cancelled);
            },
            ClientState::Connecting => {
                return Err(Error::TryAgain);
            },
            ClientState::Running => {},
        }
        let seq = self.next_seq;
        self.next_seq = if seq == u32::MAX {
            0
        } else {
            seq + 1
        };
        if self.pending.is_pending(seq) {
            return Err(Error::TryAgain);
        }
        let (sink, waiter) = oneshot_channel::<Result<Message, Error>>();
        match self.pending.register(seq, sink) {
            Ok(()) => {},
            Err(e) => {
                proof {
                    assert(false);
                }
                return Err(e);
            },
        }
        proof {
            assert(self.sinks().remove(seq) =~= old(self).sinks());
        }
        Ok((Request { message: msg.with_seq(seq), timeout_ms }, waiter))
    }

    /// Takes a completion report for the request under `seq`, and decides
    /// what the sink of that request is fired with: the message that the
    /// report holds, or its error, exactly as [`completion_of`] says.
    ///
    /// If the request is waiting, the sink registered under `seq`, and no
    /// other, leaves the registry and comes back with that outcome; every
    /// other sink stays registered under its own number. A report for a
    /// sequence number that is not waiting (its request timed out, or there
    /// never was one) is discarded and changes nothing: no sink is taken,
    /// and none is put in another's place.
    pub fn take_completion(&mut self, seq: u32, status: Result<RawPacket, Error>) -> (r: Option<
        Firing<Result<Message, Error>>,
    >)
        requires
            old(self).wf(),
        ensures
            final(self).wf(),
            final(self)@ == old(self)@.complete(seq),
            final(self).sinks() == old(self).sinks().remove(seq),
            final(self).connect_sink() == old(self).connect_sink(),
            final(self).publisher() == old(self).publisher(),
            r is Some <==> old(self)@.pending.pending.contains(seq),
            r matches Some(firing) ==> firing.sink() == old(self).sinks()[seq] && outcome_model(
                firing.outcome(),
            ) == completion_of(status_model(status)),
            r is None ==> final(self)@ == old(self)@ && final(self).sinks() == old(self).sinks(),
    {
        let outcome = completion(status);
        let r = self.pending.take(seq, outcome);
        proof {
            if self.state != ClientState::Running {
                assert(self.pending@.pending =~= Set::<u32>::empty());
            }
        }
        r
    }

    /// Hands a completion report to the sink of the request under `seq`:
    /// [`Client::take_completion`], and then the sink that was taken is fired.
    ///
    /// The sink is fired with [`completion`] of the report and leaves the
    /// registry; no other request is touched. A report for a sequence number
    /// that is not waiting (its request timed out, or there never was one) is
    /// discarded and changes nothing.
    pub fn complete(&mut self, seq: u32, status: Result<RawPacket, Error>) -> (d: Delivery)
        requires
            old(self).wf(),
        ensures
            final(self).wf(),
            final(self)@ == old(self)@.complete(seq),
            final(self).sinks() == old(self).sinks().remove(seq),
            final(self).connect_sink() == old(self).connect_sink(),
            final(self).publisher() == old(self).publisher(),
            d == Delivery::Discarded <==> !old(self)@.pending.pending.contains(seq),
            d == Delivery::Discarded ==> final(self)@ == old(self)@,
            d == Delivery::Discarded ==> final(self).sinks() == old(self).sinks(),
    {
        match self.take_completion(seq, status) {
            None => Delivery::Discarded,
            Some(firing) => firing.fire(),
        }
    }

    /// Takes the request under `seq`, which has waited too long, and decides
    /// what its sink is fired with: `TimedOut`.
    ///
    /// If the request is waiting, the sink registered under `seq`, and no
    /// other, leaves the registry and comes back with `TimedOut`; a completion
    /// that comes for it later will find no sink. If it is not waiting,
    /// nothing changes.
    pub fn take_timeout(&mut self, seq: u32) -> (r: Option<Firing<Result<Message, Error>>>)
        requires
            old(self).wf(),
        ensures
            final(self).wf(),
            final(self)@ == old(self)@.complete(seq),
            final(self).sinks() == old(self).sinks().remove(seq),
            final(self).connect_sink() == old(self).connect_sink(),
            final(self).publisher() == old(self).publisher(),
            r is Some <==> old(self)@.pending.pending.contains(seq),
            r matches Some(firing) ==> firing.sink() == old(self).sinks()[seq] && firing.outcome()
                == Err::<Message, Error>(Error::TimedOut),
            r is None ==> final(self)@ == old(self)@ && final(self).sinks() == old(self).sinks(),
    {
        let r = self.pending.take_timeout(seq);
        proof {
            if self.state != ClientState::Running {
                assert(self.pending@.pending =~= Set::<u32>::empty());
            }
        }
        r
    }

    /// Retires the request under `seq`, which has waited too long:
    /// [`Client::take_timeout`], and then the sink that was taken is fired,
    /// with `TimedOut`. A completion that comes for the request later will be
    /// discarded.
    pub fn timeout(&mut self, seq: u32) -> (d: Delivery)
        requires
            old(self).wf(),
        ensures
            final(self).wf(),
            final(self)@ == old(self)@.complete(seq),
            final(self).sinks() == old(self).sinks().remove(seq),
            final(self).connect_sink() == old(self).connect_sink(),
            final(self).publisher() == old(self).publisher(),
            d == Delivery::Discarded <==> !old(self)@.pending.pending.contains(seq),
            d == Delivery::Discarded ==> final(self)@ == old(self)@,
            d == Delivery::Discarded ==> final(self).sinks() == old(self).sinks(),
    {
        match self.take_timeout(seq) {
            None => Delivery::Discarded,
            Some(firing) => firing.fire(),
        }
    }

    /// Republishes an event that the engine reports to every subscriber.
    ///
    /// `Err` if the packet does not hold a message, as
    /// [`decode_message_packet`] says; then nothing is published. Otherwise
    /// the number of subscribers the event was queued for, which is not
    /// zero, or `None` where there is no subscriber and the event was
    /// dropped. Publishing never waits for a subscriber.
    pub fn on_event(&self, packet: RawPacket) -> (r: Result<Option<usize>, Error>)
        ensures
            match r {
                Ok(queued) => decode_message_packet(packet@) is Ok && (queued matches Some(n) ==> n
                    > 0),
                Err(e) => decode_message_packet(packet@) == Err::<MessageModel, Error>(e),
            },
    {
        let message = Message::from_raw(packet)?;
        Ok(broadcast_send(&self.events, Arc::new(message)))
    }

    /// A new subscriber, which sees the events published from now on.
    pub fn events(&self) -> (source: EventSource) {
        EventSource { events: broadcast_subscribe(&self.events) }
    }

    /// Takes every sink out of the client and decides what each is fired
    /// with: `Cancelled`. The first part of the result is the sink of a
    /// connection request that was still open, the second the sinks of the
    /// requests that were still waiting, each of them once. Nothing can be
    /// dispatched any more.
    pub fn take_all(&mut self) -> (r: (
        Option<Firing<Result<(), Error>>>,
        Vec<Firing<Result<Message, Error>>>,
    ))
        requires
            old(self).wf(),
        ensures
            final(self).wf(),
            final(self)@ == old(self)@.disconnect(),
            final(self).connect_sink() is None,
            final(self).sinks() == Map::<u32, Sender<Result<Message, Error>>>::empty(),
            final(self).publisher() == old(self).publisher(),
            r.0 is Some <==> old(self)@.state == ClientState::Connecting,
            r.0 matches Some(firing) ==> old(self).connect_sink() == Some(firing.sink())
                && firing.outcome() == Err::<(), Error>(Error::Cancelled),
            takes_each_once(r.1@, old(self).sinks()),
            old(self)@.pending.pending.finite(),
            r.1@.len() == old(self)@.pending.pending.len(),
            forall|i: int|
                0 <= i < r.1@.len() ==> (#[trigger] r.1@[i]).outcome() == Err::<Message, Error>(
                    Error::Cancelled,
                ),
    {
        let connection = match self.connect_sink.take() {
            Some(sink) => Some(Firing::new(sink, Err(Error::Cancelled))),
            None => None,
        };
        self.state = ClientState::Closed;
        let requests = self.pending.drain();
        (connection, requests)
    }

    /// Tears the connection down: [`Client::take_all`], and then every sink
    /// that was taken is fired. The sink of a connection request that is
    /// still open and every sink that is still registered are fired with
    /// `Cancelled`, and nothing can be dispatched any more. The result is the
    /// number of requests that were cancelled.
    pub fn disconnect(&mut self) -> (cancelled: usize)
        requires
            old(self).wf(),
        ensures
            final(self).wf(),
            final(self)@ == old(self)@.disconnect(),
            final(self).connect_sink() is None,
            final(self).sinks() == Map::<u32, Sender<Result<Message, Error>>>::empty(),
            final(self).publisher() == old(self).publisher(),
            old(self)@.pending.pending.finite(),
            cancelled == old(self)@.pending.pending.len(),
    {
        let (connection, requests) = self.take_all();
        match connection {
            Some(firing) => {
                let _ = firing.fire();
            },
            None => {},
        }
        let mut requests = requests;
        let total = requests.len();
        let mut cancelled: usize = 0;
        while requests.len() > 0
            invariant
                cancelled + requests@.len() == total,
            decreases requests@.len(),
        {
            match requests.pop() {
                Some(firing) => {
                    let _ = firing.fire();
                    cancelled += 1;
                },
                None => {},
            }
        }
        cancelled
    }

    /// Dispatches a read of a property: exactly [`requested`] of
    /// [`planned_get`].
    pub fn get(&mut self, path: Vec<u8>, selector: Selector) -> (r: Result<
        (Request, Receiver<Result<Message, Error>>),
        Error,
    >)
        requires
            old(self).wf(),
        ensures
            final(self).wf(),
            enters_one_sink(*old(self), *final(self), r is Ok),
            requested(
                old(self)@,
                final(self)@,
                planned_get(path@, selector@),
                DEFAULT_TIMEOUT_MS,
                r,
            ),
    {
        self.request(Op::Get).path(path)?.selector(selector)?.submit(self)
    }

    /// Dispatches a write of a property: exactly [`requested`] of
    /// [`planned_with_value`].
    pub fn set<T: ToDicey>(&mut self, path: Vec<u8>, selector: Selector, argument: T) -> (r: Result<
        (Request, Receiver<Result<Message, Error>>),
        Error,
    >)
        requires
            old(self).wf(),
        ensures
            final(self).wf(),
            enters_one_sink(*old(self), *final(self), r is Ok),
            requested(
                old(self)@,
                final(self)@,
                planned_with_value(Op::SetValue, path@, selector@, argument.encoded()),
                DEFAULT_TIMEOUT_MS,
                r,
            ),
    {
        self.request(Op::SetValue).path(path)?.selector(selector)?.value(argument)?.submit(self)
    }

    /// Dispatches the execution of an operation: exactly [`requested`] of
    /// [`planned_with_value`].
    pub fn exec<T: ToDicey>(&mut self, path: Vec<u8>, selector: Selector, argument: T) -> (r:
        Result<(Request, Receiver<Result<Message, Error>>), Error>)
        requires
            old(self).wf(),
        ensures
            final(self).wf(),
            enters_one_sink(*old(self), *final(self), r is Ok),
            requested(
                old(self)@,
                final(self)@,
                planned_with_value(Op::Exec, path@, selector@, argument.encoded()),
                DEFAULT_TIMEOUT_MS,
                r,
            ),
    {
        self.request(Op::Exec).path(path)?.selector(selector)?.value(argument)?.submit(self)
    }

    /// Dispatches the request to be told of an event: an ordinary `Exec`, of
    /// the event manager's `Subscribe`. Exactly [`requested`] of
    /// [`planned_subscription`].
    pub fn subscribe_to(&mut self, path: &str, selector: Selector) -> (r: Result<
        (Request, Receiver<Result<Message, Error>>),
        Error,
    >)
        requires
            old(self).wf(),
        ensures
            final(self).wf(),
            enters_one_sink(*old(self), *final(self), r is Ok),
            requested(
                old(self)@,
                final(self)@,
                planned_subscription(EVENTMANAGER_SUBSCRIBE_OP_NAME@, path@, selector@),
                DEFAULT_TIMEOUT_MS,
                r,
            ),
    {
        let message = plan_subscription(EVENTMANAGER_SUBSCRIBE_OP_NAME, path, selector)?;
        self.request_with(message, DEFAULT_TIMEOUT_MS)
    }

    /// Dispatches the request not to be told of an event any more: as
    /// [`Client::subscribe_to`], with the event manager's `Unsubscribe`.
    pub fn unsubscribe_from(&mut self, path: &str, selector: Selector) -> (r: Result<
        (Request, Receiver<Result<Message, Error>>),
        Error,
    >)
        requires
            old(self).wf(),
        ensures
            final(self).wf(),
            enters_one_sink(*old(self), *final(self), r is Ok),
            requested(
                old(self)@,
                final(self)@,
                planned_subscription(EVENTMANAGER_UNSUBSCRIBE_OP_NAME@, path@, selector@),
                DEFAULT_TIMEOUT_MS,
                r,
            ),
    {
        let message = plan_subscription(EVENTMANAGER_UNSUBSCRIBE_OP_NAME, path, selector)?;
        self.request_with(message, DEFAULT_TIMEOUT_MS)
    }

    /// Dispatches the read of an object's structured description.
    ///
    /// A path that is not UTF-8 is `InvalidData`, and nothing is dispatched.
    /// Otherwise the result is exactly [`requested`] of
    /// [`planned_well_known`], and the path comes back as text, for
    /// [`inspect_reply`].
    pub fn inspect(&mut self, path: Vec<u8>) -> (r: Result<
        (Request, Receiver<Result<Message, Error>>, String),
        Error,
    >)
        requires
            old(self).wf(),
        ensures
            final(self).wf(),
            enters_one_sink(*old(self), *final(self), r is Ok),
            if !vstd::utf8::valid_utf8(path@) {
                r matches Err(e) && e == Error::InvalidData && final(self)@ == old(self)@
            } else {
                match r {
                    Ok(triple) => requested(
                        old(self)@,
                        final(self)@,
                        planned_well_known(
                            path@,
                            INTROSPECTION_TRAIT_NAME@,
                            INTROSPECTION_DATA_PROP_NAME@,
                        ),
                        DEFAULT_TIMEOUT_MS,
                        Ok((triple.0, triple.1)),
                    ) && triple.2@ == vstd::utf8::decode_utf8(path@),
                    Err(e) => requested(
                        old(self)@,
                        final(self)@,
                        planned_well_known(
                            path@,
                            INTROSPECTION_TRAIT_NAME@,
                            INTROSPECTION_DATA_PROP_NAME@,
                        ),
                        DEFAULT_TIMEOUT_MS,
                        Err(e),
                    ),
                }
            },
    {
        let path_str = match text_from_utf8(path.clone()) {
            Some(text) => text,
            None => {
                return Err(Error::InvalidData);
            },
        };
        let (request, waiter) = self.get_well_known(
            path,
            INTROSPECTION_TRAIT_NAME,
            INTROSPECTION_DATA_PROP_NAME,
        )?;
        Ok((request, waiter, path_str))
    }

    /// Dispatches the read of an object's description as XML, for
    /// [`xml_reply`]: exactly [`requested`] of [`planned_well_known`].
    pub fn inspect_as_xml(&mut self, path: Vec<u8>) -> (r: Result<
        (Request, Receiver<Result<Message, Error>>),
        Error,
    >)
        requires
            old(self).wf(),
        ensures
            final(self).wf(),
            enters_one_sink(*old(self), *final(self), r is Ok),
            requested(
                old(self)@,
                final(self)@,
                planned_well_known(
                    path@,
                    INTROSPECTION_TRAIT_NAME@,
                    INTROSPECTION_XML_PROP_NAME@,
                ),
                DEFAULT_TIMEOUT_MS,
                r,
            ),
    {
        self.get_well_known(path, INTROSPECTION_TRAIT_NAME, INTROSPECTION_XML_PROP_NAME)
    }

    /// Dispatches a read of a property whose names are the library's own.
    fn get_well_known(&mut self, path: Vec<u8>, trait_name: &str, elem: &str) -> (r: Result<
        (Request, Receiver<Result<Message, Error>>),
        Error,
    >)
        requires
            old(self).wf(),
        ensures
            final(self).wf(),
            enters_one_sink(*old(self), *final(self), r is Ok),
            requested(
                old(self)@,
                final(self)@,
                planned_well_known(path@, trait_name@, elem@),
                DEFAULT_TIMEOUT_MS,
                r,
            ),
    {
        if crate::encode::contains_nul(path.as_slice()) {
            return Err(Error::MalformedPath);
        }
        let text = match text_from_utf8(path) {
            Some(text) => text,
            None => {
                return Err(Error::MalformedPath);
            },
        };
        let selector = Selector::new(trait_name, elem);
        let message = match Message::new(Op::Get, 0, text, selector, None) {
            Ok(message) => message,
            Err(e) => {
                proof {
                    assert(false);
                }
                return Err(e);
            },
        };
        self.request_with(message, DEFAULT_TIMEOUT_MS)
    }
}

} // verus!
