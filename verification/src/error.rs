//! The error taxonomy shared by every component.

use vstd::prelude::*;

verus! {

/// What can go wrong, by kind.
///
/// The named variants are the conditions this library raises or inspects
/// itself. Any other numeric status that the engine or a remote peer reports is
/// carried unchanged in [`Error::Engine`], so that no code is ever coerced into
/// another one.
#[derive(Clone, Copy, Debug, PartialEq, Eq, Structural)]
pub enum Error {
    /// Nothing is available yet; asking again later may succeed.
    TryAgain,
    FileNotFound,
    /// An input is structurally unacceptable: an unknown tag, an interior NUL,
    /// a builder used out of order.
    InvalidData,
    /// Received data breaks the protocol's conventions (text that is not UTF-8,
    /// an unknown value or element tag, an unexpected reply shape).
    BadMessage,
    Overflow,
    ConnectionRefused,
    TimedOut,
    Cancelled,
    Already,
    BrokenPipe,
    ConnectionReset,
    /// A value does not have the type that was asked of it.
    ValueTypeMismatch,
    MalformedPath,
    UnknownUVError,
    /// A numeric status reported by the engine or by the remote peer.
    Engine(i32),
}

impl Error {
    /// Wraps a numeric status as it was reported.
    pub fn from_code(code: i32) -> (e: Error)
        ensures
            e == Error::Engine(code),
    {
        Error::Engine(code)
    }

    /// The numeric status carried by [`Error::Engine`]; `None` for the named
    /// kinds, whose numbers only the engine's own table knows.
    pub fn code(self) -> (c: Option<i32>)
        ensures
            c == match self {
                Error::Engine(n) => Some(n),
                _ => None,
            },
    {
        match self {
            Error::Engine(n) => Some(n),
            _ => None,
        }
    }
}

/// The kinds of I/O failure that are told apart when a packet is read from a
/// stream or a file.
#[derive(Clone, Copy, Debug, PartialEq, Eq, Structural)]
pub enum IoErrorKind {
    NotFound,
    InvalidInput,
    InvalidData,
    ConnectionRefused,
    ConnectionReset,
    TimedOut,
    AlreadyExists,
    BrokenPipe,
    /// Any other kind of failure.
    Other,
}

/// The error that stands for an I/O failure of the given kind.
pub open spec fn io_error(kind: IoErrorKind) -> Error {
    match kind {
        IoErrorKind::NotFound => Error::FileNotFound,
        IoErrorKind::InvalidInput => Error::InvalidData,
        IoErrorKind::InvalidData => Error::InvalidData,
        IoErrorKind::ConnectionRefused => Error::ConnectionRefused,
        IoErrorKind::ConnectionReset => Error::ConnectionReset,
        IoErrorKind::TimedOut => Error::TimedOut,
        IoErrorKind::AlreadyExists => Error::Already,
        IoErrorKind::BrokenPipe => Error::BrokenPipe,
        IoErrorKind::Other => Error::UnknownUVError,
    }
}

/// Classifies an I/O failure met while reading a packet.
pub fn map_io_error(kind: IoErrorKind) -> (e: Error)
    ensures
        e == io_error(kind),
{
    match kind {
        IoErrorKind::NotFound => Error::FileNotFound,
        IoErrorKind::InvalidInput | IoErrorKind::InvalidData => Error::InvalidData,
        IoErrorKind::ConnectionRefused => Error::ConnectionRefused,
        IoErrorKind::ConnectionReset => Error::ConnectionReset,
        IoErrorKind::TimedOut => Error::TimedOut,
        IoErrorKind::AlreadyExists => Error::Already,
        IoErrorKind::BrokenPipe => Error::BrokenPipe,
        IoErrorKind::Other => Error::UnknownUVError,
    }
}

} // verus!
