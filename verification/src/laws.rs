//! What holds of the codec as a whole: the laws that tie [`ToDicey`],
//! [`FromDicey`] and the builder together.

use vstd::prelude::*;

use crate::builder::ValueBuilder;
use crate::decode::{decoded_prefix, element_models, FromDicey, Tuple};
use crate::encode::{encoded_prefix, lemma_encoded_prefix_items, ToDicey};
use crate::error::Error;
use crate::raw::{decode_value, lemma_read_after_write, raw_of};
use crate::value::{
    all_of_kind, Byte, ErrorMessage, Float, Path, Selector, ValueModel, ValueView,
};
use uuid::Uuid;

verus! {

/// Builds the value that native data stands for.
///
/// The result is exactly the data's encoding: the value on success, and the
/// encoding's own error otherwise.
pub fn to_value<T: ToDicey>(data: &T) -> (r: Result<ValueView, Error>)
    ensures
        match r {
            Ok(value) => data.encoded() == Ok::<ValueModel, Error>(value@) && value@.wf(),
            Err(e) => data.encoded() == Err::<ValueModel, Error>(e),
        },
{
    let mut builder = ValueBuilder::new();
    match data.to_dicey(&mut builder) {
        Ok(()) => match builder.finish() {
            Ok(value) => Ok(value),
            Err(e) => {
                proof {
                    assert(false);
                }
                Err(e)
            },
        },
        Err(e) => Err(e),
    }
}

/// A type that can be emitted and read back, and for which reading back what
/// was emitted gives the same data.
pub trait RoundTrip: ToDicey + FromDicey {
    /// Round trip: whatever value the data encodes to decodes to the data.
    proof fn lemma_round_trip(&self)
        ensures
            self.encoded() matches Ok(value) ==> Self::decoded(value) == Ok::<Self::Model, Error>(
                self.as_model(),
            ),
    ;
}

impl RoundTrip for () {
    proof fn lemma_round_trip(&self) {
    }
}

impl RoundTrip for bool {
    proof fn lemma_round_trip(&self) {
    }
}

impl RoundTrip for Byte {
    proof fn lemma_round_trip(&self) {
    }
}

impl RoundTrip for Float {
    proof fn lemma_round_trip(&self) {
    }
}

impl RoundTrip for i16 {
    proof fn lemma_round_trip(&self) {
    }
}

impl RoundTrip for i32 {
    proof fn lemma_round_trip(&self) {
    }
}

impl RoundTrip for i64 {
    proof fn lemma_round_trip(&self) {
    }
}

impl RoundTrip for u16 {
    proof fn lemma_round_trip(&self) {
    }
}

impl RoundTrip for u32 {
    proof fn lemma_round_trip(&self) {
    }
}

impl RoundTrip for u64 {
    proof fn lemma_round_trip(&self) {
    }
}

impl RoundTrip for Uuid {
    proof fn lemma_round_trip(&self) {
    }
}

impl RoundTrip for Vec<u8> {
    proof fn lemma_round_trip(&self) {
    }
}

impl RoundTrip for String {
    proof fn lemma_round_trip(&self) {
    }
}

impl RoundTrip for Path {
    proof fn lemma_round_trip(&self) {
    }
}

impl RoundTrip for Selector {
    proof fn lemma_round_trip(&self) {
    }
}

impl RoundTrip for ErrorMessage {
    proof fn lemma_round_trip(&self) {
    }
}

impl RoundTrip for Tuple {
    proof fn lemma_round_trip(&self) {
    }
}

/// The round trip of a prefix of a sequence, element by element.
pub proof fn lemma_round_trip_prefix<T: RoundTrip>(items: Seq<T>, n: nat)
    requires
        n <= items.len(),
    ensures
        encoded_prefix::<T>(items, n) matches Ok(values) ==> decoded_prefix::<T>(values, n) == Ok::<
            Seq<T::Model>,
            Error,
        >(element_models::<T>(items.take(n as int))),
    decreases n,
{
    if n == 0 {
        assert(element_models::<T>(items.take(0)) =~= Seq::<T::Model>::empty());
    } else {
        lemma_round_trip_prefix::<T>(items, (n - 1) as nat);
        lemma_encoded_prefix_items::<T>(items, n);
        lemma_encoded_prefix_items::<T>(items, (n - 1) as nat);
        match encoded_prefix::<T>(items, n) {
            Ok(values) => {
                let front = encoded_prefix::<T>(items, (n - 1) as nat)->Ok_0;
                items[n - 1].lemma_round_trip();
                assert(values == front.push(values[n - 1]));
                lemma_decoded_prefix_ignores_tail::<T>(front, values, (n - 1) as nat);
                assert(element_models::<T>(items.take(n as int)) =~= element_models::<T>(
                    items.take(n - 1),
                ).push(items[n - 1].as_model()));
            },
            Err(_) => {},
        }
    }
}

/// Decoding a prefix looks at no item beyond it.
pub proof fn lemma_decoded_prefix_ignores_tail<T: FromDicey>(
    a: Seq<ValueModel>,
    b: Seq<ValueModel>,
    n: nat,
)
    requires
        n <= a.len(),
        n <= b.len(),
        forall|i: int| 0 <= i < n ==> a[i] == b[i],
    ensures
        decoded_prefix::<T>(a, n) == decoded_prefix::<T>(b, n),
    decreases n,
{
    if n > 0 {
        lemma_decoded_prefix_ignores_tail::<T>(a, b, (n - 1) as nat);
    }
}

impl<T: RoundTrip> RoundTrip for Vec<T> {
    proof fn lemma_round_trip(&self) {
        lemma_round_trip_prefix::<T>(self@, self@.len());
        lemma_encoded_prefix_items::<T>(self@, self@.len());
        assert(self@.take(self@.len() as int) =~= self@);
    }
}

impl<T: RoundTrip, U: RoundTrip> RoundTrip for (T, U) {
    proof fn lemma_round_trip(&self) {
        self.0.lemma_round_trip();
        self.1.lemma_round_trip();
    }
}

impl<A: RoundTrip, B: RoundTrip, C: RoundTrip> RoundTrip for (A, B, C) {
    proof fn lemma_round_trip(&self) {
        self.0.lemma_round_trip();
        self.1.lemma_round_trip();
        self.2.lemma_round_trip();
    }
}

/// Round trip, for every type that can be emitted and read back: the value
/// that `data` encodes to decodes to `data`, exactly.
pub proof fn lemma_decode_after_encode<T: RoundTrip>(data: T)
    ensures
        data.encoded() matches Ok(value) ==> T::decoded(value) == Ok::<T::Model, Error>(
            data.as_model(),
        ),
{
    data.lemma_round_trip();
}

/// Homogeneity: a sequence whose elements all have an encoding always encodes
/// to an array; the array declares the element type's kind, has one item for
/// each element, and every item has the declared kind.
pub proof fn lemma_array_is_homogeneous<T: ToDicey>(data: Vec<T>)
    requires
        forall|i: int| 0 <= i < data@.len() ==> (#[trigger] data@[i]).encoded() is Ok,
    ensures
        data.encoded() matches Ok(ValueModel::Array { element_kind, items }) && element_kind
            == T::kind_spec() && items.len() == data@.len() && all_of_kind(items, element_kind),
{
    lemma_encoded_prefix_total::<T>(data@, data@.len());
    lemma_encoded_prefix_items::<T>(data@, data@.len());
}

/// A prefix whose elements all have an encoding has one itself.
pub proof fn lemma_encoded_prefix_total<T: ToDicey>(items: Seq<T>, n: nat)
    requires
        n <= items.len(),
        forall|i: int| 0 <= i < n ==> (#[trigger] items[i]).encoded() is Ok,
    ensures
        encoded_prefix::<T>(items, n) is Ok,
    decreases n,
{
    if n > 0 {
        lemma_encoded_prefix_total::<T>(items, (n - 1) as nat);
        assert(items[n - 1].encoded() is Ok);
    }
}

/// Arity preservation: read as a tuple of `arity` slots, a value gives exactly
/// `arity` slots or fails with `ValueTypeMismatch`. It succeeds exactly on a
/// tuple of that many slots and then returns them all, in order.
pub proof fn lemma_tuple_arity(value: ValueModel, arity: nat)
    ensures
        match Tuple::decoded_exact(value, arity) {
            Ok(slots) => value == ValueModel::Tuple(slots) && slots.len() == arity,
            Err(e) => e == Error::ValueTypeMismatch && !(value matches ValueModel::Tuple(slots)
                && slots.len() == arity),
        },
{
}

/// Arity preservation for a native triple: a tuple with more or fewer than
/// three slots does not decode, whatever its slots hold.
pub proof fn lemma_triple_arity<A: FromDicey, B: FromDicey, C: FromDicey>(slots: Seq<ValueModel>)
    ensures
        slots.len() != 3 ==> <(A, B, C) as FromDicey>::decoded(ValueModel::Tuple(slots)) == Err::<
            (A::Model, B::Model, C::Model),
            Error,
        >(Error::ValueTypeMismatch),
{
}

/// Round trip over the wire: the value that `data` encodes to is written
/// and read again unchanged by the wire reader, and what comes back decodes
/// to `data`, exactly.
pub proof fn lemma_wire_round_trip<T: RoundTrip>(data: T)
    ensures
        data.encoded() matches Ok(value) ==> decode_value(raw_of(value)) == Ok::<
            ValueModel,
            Error,
        >(value) && T::decoded(value) == Ok::<T::Model, Error>(data.as_model()),
{
    data.lemma_round_trip();
    data.lemma_encoded();
    match data.encoded() {
        Ok(value) => {
            lemma_read_after_write(value);
        },
        Err(_) => {},
    }
}

} // verus!
