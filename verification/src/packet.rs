//! Packets and messages: the typed forms, and the reader and writer between
//! them and the records of the wire engine.

use vstd::prelude::*;
use vstd::slice::slice_to_vec;
use vstd::utf8::{decode_utf8, encode_utf8, valid_utf8};

use crate::error::Error;
use crate::raw::{decode_text, decode_value, lemma_read_after_write, raw_of, RawValue, RawValueModel};
use crate::trusted::text_from_utf8;
use crate::value::{Selector, SelectorModel, ValueModel, ValueView};

verus! {

pub const PACKET_KIND_HELLO: u32 = 1;

pub const PACKET_KIND_BYE: u32 = 2;

pub const PACKET_KIND_MESSAGE: u32 = 3;

pub const BYE_REASON_SHUTDOWN: u32 = 1;

pub const BYE_REASON_ERROR: u32 = 2;

pub const OP_GET: u32 = 0x3c;

pub const OP_SET: u32 = 0x3e;

pub const OP_EXEC: u32 = 0x3f;

pub const OP_EVENT: u32 = 0x21;

pub const OP_RESPONSE: u32 = 0x3a;

/// The kind of a message.
#[derive(Clone, Copy, Debug, PartialEq, Eq, Structural)]
pub enum Op {
    Event,
    Exec,
    Get,
    Response,
    SetValue,
}

impl Op {
    /// The number by which the wire engine names this kind of message.
    pub open spec fn tag(self) -> u32 {
        match self {
            Op::Event => OP_EVENT,
            Op::Exec => OP_EXEC,
            Op::Get => OP_GET,
            Op::Response => OP_RESPONSE,
            Op::SetValue => OP_SET,
        }
    }

    /// The kind of message that a tag names, if it names one.
    pub open spec fn of_tag(tag: u32) -> Option<Op> {
        if tag == OP_EVENT {
            Some(Op::Event)
        } else if tag == OP_EXEC {
            Some(Op::Exec)
        } else if tag == OP_GET {
            Some(Op::Get)
        } else if tag == OP_RESPONSE {
            Some(Op::Response)
        } else if tag == OP_SET {
            Some(Op::SetValue)
        } else {
            None
        }
    }

    /// Whether messages of this kind carry a value. Only a `Get` carries
    /// none: it is a pure read request.
    pub open spec fn carries_value(self) -> bool {
        self != Op::Get
    }

    /// The engine's tag for this kind of message.
    pub fn as_c(self) -> (tag: u32)
        ensures
            tag == self.tag(),
            Op::of_tag(tag) == Some(self),
    {
        match self {
            Op::Event => OP_EVENT,
            Op::Exec => OP_EXEC,
            Op::Get => OP_GET,
            Op::Response => OP_RESPONSE,
            Op::SetValue => OP_SET,
        }
    }

    /// The kind of message named by an engine tag; `InvalidData` for a tag
    /// that names none.
    pub fn try_from(value: u32) -> (r: Result<Op, Error>)
        ensures
            r == match Op::of_tag(value) {
                Some(op) => Ok::<Op, Error>(op),
                None => Err::<Op, Error>(Error::InvalidData),
            },
    {
        if value == OP_EVENT {
            Ok(Op::Event)
        } else if value == OP_EXEC {
            Ok(Op::Exec)
        } else if value == OP_GET {
            Ok(Op::Get)
        } else if value == OP_RESPONSE {
            Ok(Op::Response)
        } else if value == OP_SET {
            Ok(Op::SetValue)
        } else {
            Err(Error::InvalidData)
        }
    }
}

/// Why a peer says goodbye.
#[derive(Clone, Copy, Debug, PartialEq, Eq, Structural)]
pub enum ByeReason {
    Shutdown,
    Error,
}

impl ByeReason {
    /// The reason that a number names, if it names one.
    pub open spec fn of_tag(tag: u32) -> Option<ByeReason> {
        if tag == BYE_REASON_SHUTDOWN {
            Some(ByeReason::Shutdown)
        } else if tag == BYE_REASON_ERROR {
            Some(ByeReason::Error)
        } else {
            None
        }
    }

    /// The reason named by an engine number; `InvalidData` for a number that
    /// names none.
    pub fn try_from(value: u32) -> (r: Result<ByeReason, Error>)
        ensures
            r == match ByeReason::of_tag(value) {
                Some(reason) => Ok::<ByeReason, Error>(reason),
                None => Err::<ByeReason, Error>(Error::InvalidData),
            },
    {
        if value == BYE_REASON_SHUTDOWN {
            Ok(ByeReason::Shutdown)
        } else if value == BYE_REASON_ERROR {
            Ok(ByeReason::Error)
        } else {
            Err(Error::InvalidData)
        }
    }
}

/// The version of the protocol that a peer speaks.
#[derive(Clone, Copy, Debug, PartialEq, Eq, Structural)]
pub struct Version {
    pub major: u16,
    pub revision: u16,
}

/// The fields of a message as the wire engine hands them over: nothing in
/// them has been checked.
#[derive(Debug, PartialEq)]
pub struct RawMessage {
    pub op: u32,
    /// The octets of the path, without a terminator.
    pub path: Vec<u8>,
    pub selector: Selector,
    pub value: Option<RawValue>,
}

/// What a [`RawPacket`] carries besides its kind and sequence number.
#[derive(Debug, PartialEq)]
pub enum RawContent {
    Bye { reason: u32 },
    Hello { major: u16, revision: u16 },
    Message(RawMessage),
}

/// A packet as the wire engine knows it, after the engine has framed and
/// sliced the bytes: a kind tag, the sequence number, and the content.
#[derive(Debug, PartialEq)]
pub struct RawPacket {
    pub kind: u32,
    pub seq: u32,
    pub content: RawContent,
}

/// The model of a [`RawMessage`].
pub struct RawMessageModel {
    pub op: u32,
    pub path: Seq<u8>,
    pub selector: SelectorModel,
    pub value: Option<RawValueModel>,
}

/// The model of a [`RawContent`].
pub enum RawContentModel {
    Bye { reason: u32 },
    Hello { major: u16, revision: u16 },
    Message(RawMessageModel),
}

/// The model of a [`RawPacket`].
pub struct RawPacketModel {
    pub kind: u32,
    pub seq: u32,
    pub content: RawContentModel,
}

impl View for RawMessage {
    type V = RawMessageModel;

    open spec fn view(&self) -> RawMessageModel {
        RawMessageModel {
            op: self.op,
            path: self.path@,
            selector: self.selector@,
            value: match self.value {
                Some(value) => Some(value@),
                None => None,
            },
        }
    }
}

impl View for RawContent {
    type V = RawContentModel;

    open spec fn view(&self) -> RawContentModel {
        match self {
            RawContent::Bye { reason } => RawContentModel::Bye { reason: *reason },
            RawContent::Hello { major, revision } => RawContentModel::Hello {
                major: *major,
                revision: *revision,
            },
            RawContent::Message(m) => RawContentModel::Message(m@),
        }
    }
}

impl View for RawPacket {
    type V = RawPacketModel;

    open spec fn view(&self) -> RawPacketModel {
        RawPacketModel { kind: self.kind, seq: self.seq, content: self.content@ }
    }
}

/// The model of a message of any kind.
pub struct MessageModel {
    pub op: Op,
    pub seq: u32,
    pub path: Seq<char>,
    pub selector: SelectorModel,
    pub value: Option<ValueModel>,
}

impl MessageModel {
    /// Whether the message keeps the invariants of the data model: it carries
    /// a value exactly if its kind does, and the value is well formed.
    pub open spec fn wf(self) -> bool {
        &&& self.value is Some <==> self.op.carries_value()
        &&& self.value matches Some(value) ==> value.wf()
    }

    /// The same message under another sequence number.
    pub open spec fn with_seq(self, seq: u32) -> MessageModel {
        MessageModel { seq, ..self }
    }
}

/// The model of a packet.
pub enum PacketModel {
    Bye { seq: u32, reason: ByeReason },
    Hello { seq: u32, version: Version },
    Message(MessageModel),
}

impl PacketModel {
    pub open spec fn seq(self) -> u32 {
        match self {
            PacketModel::Bye { seq, .. } => seq,
            PacketModel::Hello { seq, .. } => seq,
            PacketModel::Message(m) => m.seq,
        }
    }
}

/// What the reader makes of the fields of a message.
///
/// A tag that names no kind of message is `InvalidData`. A path that is not
/// UTF-8 is `BadMessage`. A `Get` that carries a value, or a message of
/// another kind that carries none, is `InvalidData`. Otherwise the value
/// decides, as [`decode_value`] says.
pub open spec fn decode_message(seq: u32, raw: RawMessageModel) -> Result<MessageModel, Error> {
    match Op::of_tag(raw.op) {
        None => Err(Error::InvalidData),
        Some(op) => match decode_text(raw.path) {
            Err(e) => Err(e),
            Ok(path) => match raw.value {
                None => if op.carries_value() {
                    Err(Error::InvalidData)
                } else {
                    Ok(MessageModel { op, seq, path, selector: raw.selector, value: None })
                },
                Some(raw_value) => if !op.carries_value() {
                    Err(Error::InvalidData)
                } else {
                    match decode_value(raw_value) {
                        Err(e) => Err(e),
                        Ok(value) => Ok(
                            MessageModel {
                                op,
                                seq,
                                path,
                                selector: raw.selector,
                                value: Some(value),
                            },
                        ),
                    }
                },
            },
        },
    }
}

/// What the reader makes of a packet.
///
/// The kind tag decides. A tag that names no kind of packet is
/// `InvalidData`, and so is content that is not what the tag announces, and a
/// goodbye whose reason names none.
pub open spec fn decode_packet(raw: RawPacketModel) -> Result<PacketModel, Error> {
    if raw.kind == PACKET_KIND_BYE {
        match raw.content {
            RawContentModel::Bye { reason } => match ByeReason::of_tag(reason) {
                Some(reason) => Ok(PacketModel::Bye { seq: raw.seq, reason }),
                None => Err(Error::InvalidData),
            },
            _ => Err(Error::InvalidData),
        }
    } else if raw.kind == PACKET_KIND_HELLO {
        match raw.content {
            RawContentModel::Hello { major, revision } => Ok(
                PacketModel::Hello { seq: raw.seq, version: Version { major, revision } },
            ),
            _ => Err(Error::InvalidData),
        }
    } else if raw.kind == PACKET_KIND_MESSAGE {
        match raw.content {
            RawContentModel::Message(m) => match decode_message(raw.seq, m) {
                Ok(message) => Ok(PacketModel::Message(message)),
                Err(e) => Err(e),
            },
            _ => Err(Error::InvalidData),
        }
    } else {
        Err(Error::InvalidData)
    }
}

/// What the reader makes of a packet that must be a message: as
/// [`decode_packet`], and `InvalidData` for a packet of another kind.
pub open spec fn decode_message_packet(raw: RawPacketModel) -> Result<MessageModel, Error> {
    if raw.kind != PACKET_KIND_MESSAGE {
        Err(Error::InvalidData)
    } else {
        match raw.content {
            RawContentModel::Message(m) => decode_message(raw.seq, m),
            _ => Err(Error::InvalidData),
        }
    }
}

/// The packet that the writer makes of a message.
pub open spec fn raw_of_message(message: MessageModel) -> RawPacketModel {
    RawPacketModel {
        kind: PACKET_KIND_MESSAGE,
        seq: message.seq,
        content: RawContentModel::Message(
            RawMessageModel {
                op: message.op.tag(),
                path: encode_utf8(message.path),
                selector: message.selector,
                value: match message.value {
                    Some(value) => Some(raw_of(value)),
                    None => None,
                },
            },
        ),
    }
}

/// Reading what the writer wrote gives the message back: for every
/// well-formed message `m`, the reader accepts `raw_of_message(m)` and
/// returns `m`.
pub proof fn lemma_load_after_write(message: MessageModel)
    requires
        message.wf(),
    ensures
        decode_packet(raw_of_message(message)) == Ok::<PacketModel, Error>(
            PacketModel::Message(message),
        ),
        decode_message_packet(raw_of_message(message)) == Ok::<MessageModel, Error>(message),
{
    broadcast use vstd::utf8::encode_utf8_valid_utf8, vstd::utf8::encode_utf8_decode_utf8;

    assert(valid_utf8(encode_utf8(message.path)));
    assert(decode_utf8(encode_utf8(message.path)) == message.path);
    match message.value {
        Some(value) => {
            lemma_read_after_write(value);
        },
        None => {},
    }
}

/// What every kind of message has: the sequence number, the path and the
/// selector.
#[derive(Debug, PartialEq)]
struct Header {
    seq: u32,
    path: String,
    selector: Selector,
}

/// A goodbye.
#[derive(Debug, PartialEq)]
pub struct Bye {
    seq: u32,
    reason: ByeReason,
}

/// A greeting.
#[derive(Debug, PartialEq)]
pub struct Hello {
    seq: u32,
    version: Version,
}

/// A notification that a signal was raised.
#[derive(Debug, PartialEq)]
pub struct Event {
    head: Header,
    value: ValueView,
}

/// A request to run an operation.
#[derive(Debug, PartialEq)]
pub struct Exec {
    head: Header,
    value: ValueView,
}

/// A request to read a property.
#[derive(Debug, PartialEq)]
pub struct Get {
    head: Header,
}

/// The answer to a request.
#[derive(Debug, PartialEq)]
pub struct Response {
    head: Header,
    value: ValueView,
}

/// A request to write a property.
#[derive(Debug, PartialEq)]
pub struct SetValue {
    head: Header,
    value: ValueView,
}

/// A message of any kind.
#[derive(Debug, PartialEq)]
pub enum Message {
    Event(Event),
    Exec(Exec),
    Get(Get),
    Response(Response),
    SetValue(SetValue),
}

/// A packet of any kind.
#[derive(Debug, PartialEq)]
pub enum Packet {
    Bye(Bye),
    Hello(Hello),
    Message(Message),
}

impl Header {
    spec fn model(self, op: Op, value: Option<ValueModel>) -> MessageModel {
        MessageModel { op, seq: self.seq, path: self.path@, selector: self.selector@, value }
    }

    fn duplicate(&self) -> (copy: Header)
        ensures
            copy.seq == self.seq,
            copy.path@ == self.path@,
            copy.selector@ == self.selector@,
    {
        Header { seq: self.seq, path: self.path.clone(), selector: self.selector.clone() }
    }
}

impl Bye {
    pub closed spec fn spec_seq(&self) -> u32 {
        self.seq
    }

    pub closed spec fn spec_reason(&self) -> ByeReason {
        self.reason
    }

    #[verifier::when_used_as_spec(spec_seq)]
    pub fn seq(&self) -> (seq: u32)
        ensures
            seq == self.spec_seq(),
    {
        self.seq
    }

    #[verifier::when_used_as_spec(spec_reason)]
    pub fn reason(&self) -> (reason: ByeReason)
        ensures
            reason == self.spec_reason(),
    {
        self.reason
    }

    /// Reads a goodbye out of a packet: `InvalidData` unless the packet is
    /// one and gives a reason that is known.
    pub fn try_from(raw: RawPacket) -> (r: Result<Bye, Error>)
        ensures
            match r {
                Ok(bye) => decode_packet(raw@) == Ok::<PacketModel, Error>(
                    PacketModel::Bye { seq: bye.seq(), reason: bye.reason() },
                ),
                Err(e) => e == Error::InvalidData && !(decode_packet(raw@) matches Ok(
                    PacketModel::Bye { .. },
                )),
            },
    {
        if raw.kind != PACKET_KIND_BYE {
            return Err(Error::InvalidData);
        }
        match raw.content {
            RawContent::Bye { reason } => {
                let reason = ByeReason::try_from(reason)?;
                Ok(Bye { seq: raw.seq, reason })
            },
            _ => Err(Error::InvalidData),
        }
    }
}

impl Hello {
    pub closed spec fn spec_seq(&self) -> u32 {
        self.seq
    }

    pub closed spec fn spec_version(&self) -> Version {
        self.version
    }

    #[verifier::when_used_as_spec(spec_seq)]
    pub fn seq(&self) -> (seq: u32)
        ensures
            seq == self.spec_seq(),
    {
        self.seq
    }

    #[verifier::when_used_as_spec(spec_version)]
    pub fn version(&self) -> (version: Version)
        ensures
            version == self.spec_version(),
    {
        self.version
    }

    /// Reads a greeting out of a packet: `InvalidData` unless the packet is
    /// one.
    pub fn try_from(raw: RawPacket) -> (r: Result<Hello, Error>)
        ensures
            match r {
                Ok(hello) => decode_packet(raw@) == Ok::<PacketModel, Error>(
                    PacketModel::Hello { seq: hello.seq(), version: hello.version() },
                ),
                Err(e) => e == Error::InvalidData && !(decode_packet(raw@) matches Ok(
                    PacketModel::Hello { .. },
                )),
            },
    {
        if raw.kind != PACKET_KIND_HELLO {
            return Err(Error::InvalidData);
        }
        match raw.content {
            RawContent::Hello { major, revision } => Ok(
                Hello { seq: raw.seq, version: Version { major, revision } },
            ),
            _ => Err(Error::InvalidData),
        }
    }
}

impl View for Event {
    type V = MessageModel;

    closed spec fn view(&self) -> MessageModel {
        self.head.model(Op::Event, Some(self.value@))
    }
}

impl View for Exec {
    type V = MessageModel;

    closed spec fn view(&self) -> MessageModel {
        self.head.model(Op::Exec, Some(self.value@))
    }
}

impl View for Get {
    type V = MessageModel;

    closed spec fn view(&self) -> MessageModel {
        self.head.model(Op::Get, None)
    }
}

impl View for Response {
    type V = MessageModel;

    closed spec fn view(&self) -> MessageModel {
        self.head.model(Op::Response, Some(self.value@))
    }
}

impl View for SetValue {
    type V = MessageModel;

    closed spec fn view(&self) -> MessageModel {
        self.head.model(Op::SetValue, Some(self.value@))
    }
}

impl Event {
    /// An event is an event, and carries a value.
    pub proof fn lemma_kind(&self)
        ensures
            self@.op == Op::Event,
            self@.value is Some,
    {
    }

    pub fn seq(&self) -> (seq: u32)
        ensures
            seq == self@.seq,
    {
        self.head.seq
    }

    pub fn path(&self) -> (path: &str)
        ensures
            path@ == self@.path,
    {
        self.head.path.as_str()
    }

    pub fn selector(&self) -> (selector: &Selector)
        ensures
            selector@ == self@.selector,
    {
        &self.head.selector
    }

    pub fn value(&self) -> (value: &ValueView)
        ensures
            self@.value == Some(value@),
    {
        &self.value
    }

    /// The packet that carries this message.
    pub fn into_raw(self) -> (raw: RawPacket)
        ensures
            raw@ == raw_of_message(self@),
    {
        write_message(Op::Event, self.head, Some(self.value))
    }
}

impl Exec {
    /// An execution request is one, and carries a value.
    pub proof fn lemma_kind(&self)
        ensures
            self@.op == Op::Exec,
            self@.value is Some,
    {
    }

    pub fn seq(&self) -> (seq: u32)
        ensures
            seq == self@.seq,
    {
        self.head.seq
    }

    pub fn path(&self) -> (path: &str)
        ensures
            path@ == self@.path,
    {
        self.head.path.as_str()
    }

    pub fn selector(&self) -> (selector: &Selector)
        ensures
            selector@ == self@.selector,
    {
        &self.head.selector
    }

    pub fn value(&self) -> (value: &ValueView)
        ensures
            self@.value == Some(value@),
    {
        &self.value
    }

    /// The packet that carries this message.
    pub fn into_raw(self) -> (raw: RawPacket)
        ensures
            raw@ == raw_of_message(self@),
    {
        write_message(Op::Exec, self.head, Some(self.value))
    }
}

impl Get {
    /// A read request is one, and carries no value.
    pub proof fn lemma_kind(&self)
        ensures
            self@.op == Op::Get,
            self@.value is None,
    {
    }

    pub fn seq(&self) -> (seq: u32)
        ensures
            seq == self@.seq,
    {
        self.head.seq
    }

    pub fn path(&self) -> (path: &str)
        ensures
            path@ == self@.path,
    {
        self.head.path.as_str()
    }

    pub fn selector(&self) -> (selector: &Selector)
        ensures
            selector@ == self@.selector,
    {
        &self.head.selector
    }

    /// The packet that carries this message.
    pub fn into_raw(self) -> (raw: RawPacket)
        ensures
            raw@ == raw_of_message(self@),
    {
        write_message(Op::Get, self.head, None)
    }
}

impl Response {
    /// A response is one, and carries a value.
    pub proof fn lemma_kind(&self)
        ensures
            self@.op == Op::Response,
            self@.value is Some,
    {
    }

    pub fn seq(&self) -> (seq: u32)
        ensures
            seq == self@.seq,
    {
        self.head.seq
    }

    pub fn path(&self) -> (path: &str)
        ensures
            path@ == self@.path,
    {
        self.head.path.as_str()
    }

    pub fn selector(&self) -> (selector: &Selector)
        ensures
            selector@ == self@.selector,
    {
        &self.head.selector
    }

    pub fn value(&self) -> (value: &ValueView)
        ensures
            self@.value == Some(value@),
    {
        &self.value
    }

    /// The packet that carries this message.
    pub fn into_raw(self) -> (raw: RawPacket)
        ensures
            raw@ == raw_of_message(self@),
    {
        write_message(Op::Response, self.head, Some(self.value))
    }
}

impl SetValue {
    /// A write request is one, and carries a value.
    pub proof fn lemma_kind(&self)
        ensures
            self@.op == Op::SetValue,
            self@.value is Some,
    {
    }

    pub fn seq(&self) -> (seq: u32)
        ensures
            seq == self@.seq,
    {
        self.head.seq
    }

    pub fn path(&self) -> (path: &str)
        ensures
            path@ == self@.path,
    {
        self.head.path.as_str()
    }

    pub fn selector(&self) -> (selector: &Selector)
        ensures
            selector@ == self@.selector,
    {
        &self.head.selector
    }

    pub fn value(&self) -> (value: &ValueView)
        ensures
            self@.value == Some(value@),
    {
        &self.value
    }

    /// The packet that carries this message.
    pub fn into_raw(self) -> (raw: RawPacket)
        ensures
            raw@ == raw_of_message(self@),
    {
        write_message(Op::SetValue, self.head, Some(self.value))
    }
}

/// Writes the fields of a message as a packet.
fn write_message(op: Op, head: Header, value: Option<ValueView>) -> (raw: RawPacket)
    ensures
        raw@ == raw_of_message(
            head.model(
                op,
                match value {
                    Some(v) => Some(v@),
                    None => None,
                },
            ),
        ),
{
    let Header { seq, path, selector } = head;
    let raw_value = match &value {
        Some(v) => Some(v.to_raw()),
        None => None,
    };
    RawPacket {
        kind: PACKET_KIND_MESSAGE,
        seq,
        content: RawContent::Message(
            RawMessage {
                op: op.as_c(),
                path: slice_to_vec(path.as_str().as_bytes()),
                selector,
                value: raw_value,
            },
        ),
    }
}

impl View for Message {
    type V = MessageModel;

    open spec fn view(&self) -> MessageModel {
        match self {
            Message::Event(m) => m@,
            Message::Exec(m) => m@,
            Message::Get(m) => m@,
            Message::Response(m) => m@,
            Message::SetValue(m) => m@,
        }
    }
}

impl Message {
    /// The invariant of a message: it carries a value exactly if its kind
    /// does, and the value is well formed.
    pub open spec fn wf(&self) -> bool {
        self@.wf()
    }

    /// Makes a message of its parts. `InvalidData` if a value is given for a
    /// `Get` or none for another kind; `ValueTypeMismatch` if the value is not
    /// well formed.
    pub fn new(op: Op, seq: u32, path: String, selector: Selector, value: Option<ValueView>) -> (r:
        Result<Message, Error>)
        ensures
            match r {
                Ok(message) => message.wf() && message@ == (MessageModel {
                    op,
                    seq,
                    path: path@,
                    selector: selector@,
                    value: match value {
                        Some(v) => Some(v@),
                        None => None,
                    },
                }),
                Err(e) => if value is Some <==> op.carries_value() {
                    e == Error::ValueTypeMismatch && (value matches Some(v) && !v@.wf())
                } else {
                    e == Error::InvalidData
                },
            },
    {
        let head = Header { seq, path, selector };
        match value {
            None => match op {
                Op::Get => Ok(Message::Get(Get { head })),
                _ => Err(Error::InvalidData),
            },
            Some(value) => {
                if !value.is_well_formed() {
                    return match op {
                        Op::Get => Err(Error::InvalidData),
                        _ => Err(Error::ValueTypeMismatch),
                    };
                }
                match op {
                    Op::Event => Ok(Message::Event(Event { head, value })),
                    Op::Exec => Ok(Message::Exec(Exec { head, value })),
                    Op::Get => Err(Error::InvalidData),
                    Op::Response => Ok(Message::Response(Response { head, value })),
                    Op::SetValue => Ok(Message::SetValue(SetValue { head, value })),
                }
            },
        }
    }

    /// The kind of the message.
    pub fn op(&self) -> (op: Op)
        ensures
            op == self@.op,
    {
        match self {
            Message::Event(_) => Op::Event,
            Message::Exec(_) => Op::Exec,
            Message::Get(_) => Op::Get,
            Message::Response(_) => Op::Response,
            Message::SetValue(_) => Op::SetValue,
        }
    }

    /// The path of the object that the message is about.
    pub fn path(&self) -> (path: &str)
        ensures
            path@ == self@.path,
    {
        match self {
            Message::Event(m) => m.path(),
            Message::Exec(m) => m.path(),
            Message::Get(m) => m.path(),
            Message::Response(m) => m.path(),
            Message::SetValue(m) => m.path(),
        }
    }

    /// The element of the object that the message is about.
    pub fn selector(&self) -> (selector: &Selector)
        ensures
            selector@ == self@.selector,
    {
        match self {
            Message::Event(m) => m.selector(),
            Message::Exec(m) => m.selector(),
            Message::Get(m) => m.selector(),
            Message::Response(m) => m.selector(),
            Message::SetValue(m) => m.selector(),
        }
    }

    /// The sequence number of the message.
    pub fn seq(&self) -> (seq: u32)
        ensures
            seq == self@.seq,
    {
        match self {
            Message::Event(m) => m.seq(),
            Message::Exec(m) => m.seq(),
            Message::Get(m) => m.seq(),
            Message::Response(m) => m.seq(),
            Message::SetValue(m) => m.seq(),
        }
    }

    /// The value that the message carries; none for a `Get`.
    pub fn value(&self) -> (value: Option<&ValueView>)
        ensures
            match value {
                Some(v) => self@.value == Some(v@),
                None => self@.value is None,
            },
            value is None <==> self@.op == Op::Get,
    {
        match self {
            Message::Event(m) => Some(m.value()),
            Message::Exec(m) => Some(m.value()),
            Message::Get(_) => None,
            Message::Response(m) => Some(m.value()),
            Message::SetValue(m) => Some(m.value()),
        }
    }

    /// The same message under another sequence number.
    pub fn with_seq(self, seq: u32) -> (stamped: Message)
        ensures
            stamped@ == self@.with_seq(seq),
    {
        match self {
            Message::Event(m) => Message::Event(
                Event { head: Header { seq, ..m.head }, value: m.value },
            ),
            Message::Exec(m) => Message::Exec(
                Exec { head: Header { seq, ..m.head }, value: m.value },
            ),
            Message::Get(m) => Message::Get(Get { head: Header { seq, ..m.head } }),
            Message::Response(m) => Message::Response(
                Response { head: Header { seq, ..m.head }, value: m.value },
            ),
            Message::SetValue(m) => Message::SetValue(
                SetValue { head: Header { seq, ..m.head }, value: m.value },
            ),
        }
    }

    /// A copy of the message.
    pub fn duplicate(&self) -> (copy: Message)
        ensures
            copy@ == self@,
    {
        match self {
            Message::Event(m) => Message::Event(
                Event { head: m.head.duplicate(), value: m.value.duplicate() },
            ),
            Message::Exec(m) => Message::Exec(
                Exec { head: m.head.duplicate(), value: m.value.duplicate() },
            ),
            Message::Get(m) => Message::Get(Get { head: m.head.duplicate() }),
            Message::Response(m) => Message::Response(
                Response { head: m.head.duplicate(), value: m.value.duplicate() },
            ),
            Message::SetValue(m) => Message::SetValue(
                SetValue { head: m.head.duplicate(), value: m.value.duplicate() },
            ),
        }
    }

    /// Reads the fields of a message.
    fn read(seq: u32, raw: RawMessage) -> (r: Result<Message, Error>)
        ensures
            match r {
                Ok(message) => decode_message(seq, raw@) == Ok::<MessageModel, Error>(message@)
                    && message.wf(),
                Err(e) => decode_message(seq, raw@) == Err::<MessageModel, Error>(e),
            },
    {
        let RawMessage { op, path, selector, value } = raw;
        let op = Op::try_from(op)?;
        let path = match text_from_utf8(path) {
            Some(text) => text,
            None => {
                return Err(Error::BadMessage);
            },
        };
        let head = Header { seq, path, selector };
        match value {
            None => match op {
                Op::Get => Ok(Message::Get(Get { head })),
                _ => Err(Error::InvalidData),
            },
            Some(raw_value) => {
                match op {
                    Op::Get => {
                        return Err(Error::InvalidData);
                    },
                    _ => {},
                }
                let value = ValueView::try_from(&raw_value)?;
                match op {
                    Op::Event => Ok(Message::Event(Event { head, value })),
                    Op::Exec => Ok(Message::Exec(Exec { head, value })),
                    Op::Response => Ok(Message::Response(Response { head, value })),
                    _ => Ok(Message::SetValue(SetValue { head, value })),
                }
            },
        }
    }

    /// Reads a message out of a packet: the result is exactly
    /// [`decode_message_packet`] of the packet.
    pub fn from_raw(raw: RawPacket) -> (r: Result<Message, Error>)
        ensures
            match r {
                Ok(message) => decode_message_packet(raw@) == Ok::<MessageModel, Error>(message@)
                    && message.wf(),
                Err(e) => decode_message_packet(raw@) == Err::<MessageModel, Error>(e),
            },
    {
        if raw.kind != PACKET_KIND_MESSAGE {
            return Err(Error::InvalidData);
        }
        match raw.content {
            RawContent::Message(m) => Message::read(raw.seq, m),
            _ => Err(Error::InvalidData),
        }
    }

    /// The packet that carries this message.
    pub fn into_raw(self) -> (raw: RawPacket)
        ensures
            raw@ == raw_of_message(self@),
    {
        match self {
            Message::Event(m) => m.into_raw(),
            Message::Exec(m) => m.into_raw(),
            Message::Get(m) => m.into_raw(),
            Message::Response(m) => m.into_raw(),
            Message::SetValue(m) => m.into_raw(),
        }
    }
}

impl View for Packet {
    type V = PacketModel;

    open spec fn view(&self) -> PacketModel {
        match self {
            Packet::Bye(bye) => PacketModel::Bye { seq: bye.seq(), reason: bye.reason() },
            Packet::Hello(hello) => PacketModel::Hello {
                seq: hello.seq(),
                version: hello.version(),
            },
            Packet::Message(message) => PacketModel::Message(message@),
        }
    }
}

impl Packet {
    /// Reads a packet that the wire engine has framed.
    ///
    /// The result is exactly [`decode_packet`] of the record: the packet on
    /// success, and otherwise the error of the first thing found wrong. In
    /// particular a kind tag that names no kind of packet is `InvalidData`.
    pub fn load(raw: RawPacket) -> (r: Result<Packet, Error>)
        ensures
            match r {
                Ok(packet) => decode_packet(raw@) == Ok::<PacketModel, Error>(packet@),
                Err(e) => decode_packet(raw@) == Err::<PacketModel, Error>(e),
            },
    {
        if raw.kind == PACKET_KIND_BYE {
            Ok(Packet::Bye(Bye::try_from(raw)?))
        } else if raw.kind == PACKET_KIND_HELLO {
            Ok(Packet::Hello(Hello::try_from(raw)?))
        } else if raw.kind == PACKET_KIND_MESSAGE {
            Ok(Packet::Message(Message::from_raw(raw)?))
        } else {
            Err(Error::InvalidData)
        }
    }

    /// The sequence number of the packet.
    pub fn seq(&self) -> (seq: u32)
        ensures
            seq == self@.seq(),
    {
        match self {
            Packet::Bye(b) => b.seq(),
            Packet::Hello(h) => h.seq(),
            Packet::Message(m) => m.seq(),
        }
    }
}

} // verus!
