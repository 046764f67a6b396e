//! Client-side runtime of the Dicey object protocol: the typed value codec,
//! the packet and message model, the introspection parser, and the state
//! machines that correlate requests with their completions and hand events
//! to subscribers.
//!
//! The wire engine itself (framing, sockets, the event loop) is not part of
//! this crate. It hands over and takes plain records ([`RawPacket`],
//! [`RawValue`]), and everything between those records and native Rust
//! values is verified here.

pub mod address;
pub mod builder;
pub mod client;
pub mod decode;
pub mod dict;
pub mod encode;
pub mod error;
pub mod events;
pub mod laws;
pub mod message_builder;
pub mod object_info;
pub mod packet;
pub mod pending;
pub mod raw;
pub mod trusted;
pub mod value;

pub use address::Address;
pub use builder::{Shape, ValueBuilder};
pub use client::{Client, ClientArgs, ClientState, Request, RequestBuilder, DEFAULT_TIMEOUT_MS};
pub use decode::{FromDicey, Tuple};
pub use encode::ToDicey;
pub use error::{map_io_error, Error, IoErrorKind};
pub use events::{EventSource, Polled, DEFAULT_EVENT_QUEUE_SIZE};
pub use laws::{to_value, RoundTrip};
pub use message_builder::{strip_null, MessageBuilder};
pub use object_info::{Element, Elements, ObjectInfo, Operation, Property, Signal, Traits};
pub use packet::{
    Bye, ByeReason, Event, Exec, Get, Hello, Message, Op, Packet, RawContent, RawMessage, RawPacket,
    Response, SetValue, Version,
};
pub use pending::{Delivery, Firing, PendingRequests};
pub use raw::{RawPayload, RawValue};
pub use value::{Byte, ErrorMessage, Float, Path, Selector, Type, ValueView};
