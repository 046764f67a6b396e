//! Handing events to subscribers.
//!
//! Every event that the engine reports goes into one bounded broadcast
//! queue. Each subscriber reads the queue through a cursor of its own, so
//! that a slow subscriber holds up neither the publisher nor any other
//! subscriber: when it falls further behind than the queue is long, it is
//! told that it lagged.

use std::sync::Arc;
use vstd::prelude::*;

use crate::error::Error;
use crate::packet::Message;
use crate::trusted::broadcast_try_recv;
use tokio::sync::broadcast::Receiver;

verus! {

/// How many events the queue retains for a subscriber that does not keep up,
/// unless the client is made with another number.
pub const DEFAULT_EVENT_QUEUE_SIZE: usize = 32;

/// What one attempt to take a value from a broadcast queue found.
#[derive(Debug)]
pub enum Polled<T> {
    /// The next value.
    Item(T),
    /// Nothing is queued.
    Empty,
    /// Nothing is queued and the source is gone.
    Closed,
    /// The reader fell behind and this many values were overwritten unread.
    Lagged(u64),
}

/// One subscriber's view of the events of a connection.
pub struct EventSource {
    pub events: Receiver<Arc<Message>>,
}

impl EventSource {
    /// What a finding means to a subscriber: the event; `TryAgain` where
    /// nothing is queued; `Cancelled` where the connection has closed;
    /// `TimedOut` where the subscriber lagged.
    pub open spec fn outcome_of(found: Polled<Arc<Message>>) -> Result<Arc<Message>, Error> {
        match found {
            Polled::Item(event) => Ok(event),
            Polled::Empty => Err(Error::TryAgain),
            Polled::Closed => Err(Error::Cancelled),
            Polled::Lagged(_) => Err(Error::TimedOut),
        }
    }

    /// Turns a finding into the subscriber's result: exactly
    /// [`EventSource::outcome_of`].
    pub fn outcome(found: Polled<Arc<Message>>) -> (r: Result<Arc<Message>, Error>)
        ensures
            r == EventSource::outcome_of(found),
    {
        match found {
            Polled::Item(event) => Ok(event),
            Polled::Empty => Err(Error::TryAgain),
            Polled::Closed => Err(Error::Cancelled),
            Polled::Lagged(_) => Err(Error::TimedOut),
        }
    }

    /// Takes the next event if one is queued, without waiting.
    ///
    /// What is queued is for the publisher to say; whatever the queue
    /// answers, the result is [`EventSource::outcome_of`] that answer, and so
    /// an error is one of `TryAgain`, `Cancelled` and `TimedOut`.
    pub fn poll(&mut self) -> (r: Result<Arc<Message>, Error>)
        ensures
            exists|found: Polled<Arc<Message>>| r == EventSource::outcome_of(found),
            r matches Err(e) ==> e == Error::TryAgain || e == Error::Cancelled || e
                == Error::TimedOut,
    {
        let found = broadcast_try_recv(&mut self.events);
        let r = EventSource::outcome(found);
        assert(r == EventSource::outcome_of(found));
        r
    }
}

} // verus!
