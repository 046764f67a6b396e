//! The calls into code that Verus does not read. Each contract below is
//! believed, not proved.

use vstd::prelude::*;
use vstd::utf8::{decode_utf8, valid_utf8};

use crate::events::Polled;

verus! {

/// `uuid::Uuid`, a 128-bit identifier. Nothing is known of a value but what
/// [`uuid_bytes`] says of it.
#[verifier::external_type_specification]
#[verifier::external_body]
pub struct ExUuid(uuid::Uuid);

/// The sixteen bytes that an identifier holds, in the order in which
/// `uuid::Uuid::as_bytes` shows them.
pub uninterp spec fn uuid_bytes(id: uuid::Uuid) -> Seq<u8>;

/// `uuid::Uuid::from_bytes`: the identifier made of exactly the given sixteen
/// bytes (the function stores the array as it is).
#[verifier::external_body]
pub(crate) fn uuid_from_bytes(bytes: [u8; 16]) -> (id: uuid::Uuid)
    ensures
        uuid_bytes(id) == bytes@,
{
    uuid::Uuid::from_bytes(bytes)
}

/// `uuid::Uuid::as_bytes`: a copy of the sixteen bytes the identifier holds.
#[verifier::external_body]
pub(crate) fn uuid_to_bytes(id: &uuid::Uuid) -> (bytes: [u8; 16])
    ensures
        bytes@ == uuid_bytes(*id),
{
    *id.as_bytes()
}

/// `String::from_utf8`: the text that the bytes encode, or `None` where they
/// are not well-formed UTF-8.
#[verifier::external_body]
pub(crate) fn text_from_utf8(bytes: Vec<u8>) -> (text: Option<String>)
    ensures
        text is Some <==> valid_utf8(bytes@),
        text matches Some(s) ==> s@ == decode_utf8(bytes@),
{
    match String::from_utf8(bytes) {
        Ok(s) => Some(s),
        Err(_) => None,
    }
}

/// `futures::channel::oneshot::Sender`, the half of a single-use channel
/// through which its one value is handed over.
#[verifier::external_type_specification]
#[verifier::external_body]
#[verifier::reject_recursive_types(T)]
pub struct ExOneshotSender<T>(futures::channel::oneshot::Sender<T>);

/// `futures::channel::oneshot::Receiver`, the half of a single-use channel
/// on which its one value is awaited.
#[verifier::external_type_specification]
#[verifier::external_body]
#[verifier::reject_recursive_types(T)]
pub struct ExOneshotReceiver<T>(futures::channel::oneshot::Receiver<T>);

/// `futures::channel::oneshot::Canceled`, what a receiver learns when its
/// sender is dropped unused. No function here names it; it is declared
/// because `Receiver` is a future whose output holds it, and Verus takes the
/// declaration of `Receiver` only together with this one.
#[verifier::external_type_specification]
#[verifier::external_body]
pub struct ExOneshotCanceled(futures::channel::oneshot::Canceled);

/// `tokio::sync::broadcast::Sender`, the publishing half of a bounded queue
/// that every receiver reads through a cursor of its own.
#[verifier::external_type_specification]
#[verifier::external_body]
#[verifier::reject_recursive_types(T)]
pub struct ExBroadcastSender<T>(tokio::sync::broadcast::Sender<T>);

/// `tokio::sync::broadcast::Receiver`, one reader of a broadcast queue.
#[verifier::external_type_specification]
#[verifier::external_body]
#[verifier::reject_recursive_types(T)]
pub struct ExBroadcastReceiver<T>(tokio::sync::broadcast::Receiver<T>);

/// `futures::channel::oneshot::channel`: the two halves of a new single-use
/// channel. Nothing is claimed of them.
#[verifier::external_body]
pub(crate) fn oneshot_channel<T>() -> (halves: (
    futures::channel::oneshot::Sender<T>,
    futures::channel::oneshot::Receiver<T>,
)) {
    futures::channel::oneshot::channel()
}

/// `futures::channel::oneshot::Sender::send`: uses the sending half up and
/// says whether the value was left for the receiving half (`true`) or came
/// back because that half is gone (`false`). Which of the two happens depends
/// on the other side, so nothing is claimed of the answer.
#[verifier::external_body]
pub(crate) fn oneshot_send<T>(sink: futures::channel::oneshot::Sender<T>, value: T) -> (left: bool) {
    match sink.send(value) {
        Ok(()) => true,
        Err(_) => false,
    }
}

/// `tokio::sync::broadcast::Sender::new`: the sending half of a new
/// broadcast queue that retains at least `capacity` values. The function
/// panics on a capacity of zero or above `usize::MAX / 2`, which the
/// precondition leaves out.
#[verifier::external_body]
pub(crate) fn broadcast_new<T>(capacity: usize) -> (tx: tokio::sync::broadcast::Sender<T>)
    requires
        0 < capacity <= usize::MAX / 2,
{
    tokio::sync::broadcast::Sender::new(capacity)
}

/// `tokio::sync::broadcast::Sender::send`: queues the value for every
/// receiver and returns how many there are, or `None` where there is none
/// (the value is then dropped). It never waits. How many receivers there are
/// depends on who else holds one, so all that is claimed of the number is
/// that it is not zero: without a receiver the answer is `None`.
#[verifier::external_body]
pub(crate) fn broadcast_send<T>(tx: &tokio::sync::broadcast::Sender<T>, value: T) -> (receivers:
    Option<usize>)
    ensures
        receivers matches Some(n) ==> n > 0,
{
    match tx.send(value) {
        Ok(n) => Some(n),
        Err(_) => None,
    }
}

/// `tokio::sync::broadcast::Sender::subscribe`: a new receiver, which sees
/// the values sent after this call.
#[verifier::external_body]
pub(crate) fn broadcast_subscribe<T>(tx: &tokio::sync::broadcast::Sender<T>) -> (rx:
    tokio::sync::broadcast::Receiver<T>) {
    tx.subscribe()
}

/// `tokio::sync::broadcast::Receiver::try_recv`: takes the next value if one
/// is queued, without waiting. What is queued depends on the senders, so
/// nothing is claimed of the answer.
#[verifier::external_body]
pub(crate) fn broadcast_try_recv<T: Clone>(rx: &mut tokio::sync::broadcast::Receiver<T>) -> (found:
    Polled<T>) {
    match rx.try_recv() {
        Ok(item) => Polled::Item(item),
        Err(tokio::sync::broadcast::error::TryRecvError::Empty) => Polled::Empty,
        Err(tokio::sync::broadcast::error::TryRecvError::Closed) => Polled::Closed,
        Err(tokio::sync::broadcast::error::TryRecvError::Lagged(n)) => Polled::Lagged(n),
    }
}

} // verus!
