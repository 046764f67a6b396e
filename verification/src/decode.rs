//! From a value to native data: the [`FromDicey`] capability and its
//! implementations.

use vstd::prelude::*;

use crate::error::Error;
use crate::trusted::uuid_bytes;
use crate::value::{
    models, Byte, ErrorMessage, ErrorModel, Float, Path, Selector, SelectorModel, ValueModel,
    ValueView,
};
use uuid::Uuid;

verus! {

/// The capability of being read out of a value.
///
/// An implementation names the mathematical model of its type, says in
/// `decoded` what reading a value must give, and `from_dicey` is held to
/// exactly that: the same data on success, the same error on failure.
pub trait FromDicey: Sized {
    /// The mathematical model of the native type.
    type Model;

    /// The model of a native value.
    spec fn as_model(&self) -> Self::Model;

    /// What reading `value` gives: the model of the native data, or the error.
    spec fn decoded(value: ValueModel) -> Result<Self::Model, Error>;

    /// Reads native data out of a value.
    fn from_dicey(value: &ValueView) -> (r: Result<Self, Error>)
        ensures
            match r {
                Ok(x) => Self::decoded(value@) == Ok::<Self::Model, Error>(x.as_model()),
                Err(e) => Self::decoded(value@) == Err::<Self::Model, Error>(e),
            },
    ;
}

impl ValueView {
    /// Reads this value as native data of type `T`.
    pub fn extract<T: FromDicey>(&self) -> (r: Result<T, Error>)
        ensures
            match r {
                Ok(x) => T::decoded(self@) == Ok::<T::Model, Error>(x.as_model()),
                Err(e) => T::decoded(self@) == Err::<T::Model, Error>(e),
            },
    {
        T::from_dicey(self)
    }
}

impl FromDicey for ValueView {
    type Model = ValueModel;

    open spec fn as_model(&self) -> ValueModel {
        self@
    }

    open spec fn decoded(value: ValueModel) -> Result<ValueModel, Error> {
        Ok(value)
    }

    fn from_dicey(value: &ValueView) -> (r: Result<Self, Error>) {
        Ok(value.duplicate())
    }
}

impl FromDicey for () {
    type Model = ();

    open spec fn as_model(&self) -> () {
        ()
    }

    open spec fn decoded(value: ValueModel) -> Result<(), Error> {
        match value {
            ValueModel::Unit => Ok(()),
            _ => Err(Error::ValueTypeMismatch),
        }
    }

    fn from_dicey(value: &ValueView) -> (r: Result<Self, Error>) {
        match value {
            ValueView::Unit => Ok(()),
            _ => Err(Error::ValueTypeMismatch),
        }
    }
}

impl FromDicey for bool {
    type Model = bool;

    open spec fn as_model(&self) -> bool {
        *self
    }

    open spec fn decoded(value: ValueModel) -> Result<bool, Error> {
        match value {
            ValueModel::Bool(b) => Ok(b),
            _ => Err(Error::ValueTypeMismatch),
        }
    }

    fn from_dicey(value: &ValueView) -> (r: Result<Self, Error>) {
        match value {
            ValueView::Bool(b) => Ok(*b),
            _ => Err(Error::ValueTypeMismatch),
        }
    }
}

impl FromDicey for Byte {
    type Model = u8;

    open spec fn as_model(&self) -> u8 {
        self.0
    }

    open spec fn decoded(value: ValueModel) -> Result<u8, Error> {
        match value {
            ValueModel::Byte(b) => Ok(b),
            _ => Err(Error::ValueTypeMismatch),
        }
    }

    fn from_dicey(value: &ValueView) -> (r: Result<Self, Error>) {
        match value {
            ValueView::Byte(b) => Ok(*b),
            _ => Err(Error::ValueTypeMismatch),
        }
    }
}

impl FromDicey for Float {
    type Model = u64;

    open spec fn as_model(&self) -> u64 {
        self.0
    }

    open spec fn decoded(value: ValueModel) -> Result<u64, Error> {
        match value {
            ValueModel::Float(f) => Ok(f),
            _ => Err(Error::ValueTypeMismatch),
        }
    }

    fn from_dicey(value: &ValueView) -> (r: Result<Self, Error>) {
        match value {
            ValueView::Float(f) => Ok(*f),
            _ => Err(Error::ValueTypeMismatch),
        }
    }
}

impl FromDicey for i16 {
    type Model = i16;

    open spec fn as_model(&self) -> i16 {
        *self
    }

    open spec fn decoded(value: ValueModel) -> Result<i16, Error> {
        match value {
            ValueModel::Int16(i) => Ok(i),
            _ => Err(Error::ValueTypeMismatch),
        }
    }

    fn from_dicey(value: &ValueView) -> (r: Result<Self, Error>) {
        match value {
            ValueView::Int16(i) => Ok(*i),
            _ => Err(Error::ValueTypeMismatch),
        }
    }
}

impl FromDicey for i32 {
    type Model = i32;

    open spec fn as_model(&self) -> i32 {
        *self
    }

    open spec fn decoded(value: ValueModel) -> Result<i32, Error> {
        match value {
            ValueModel::Int32(i) => Ok(i),
            _ => Err(Error::ValueTypeMismatch),
        }
    }

    fn from_dicey(value: &ValueView) -> (r: Result<Self, Error>) {
        match value {
            ValueView::Int32(i) => Ok(*i),
            _ => Err(Error::ValueTypeMismatch),
        }
    }
}

impl FromDicey for i64 {
    type Model = i64;

    open spec fn as_model(&self) -> i64 {
        *self
    }

    open spec fn decoded(value: ValueModel) -> Result<i64, Error> {
        match value {
            ValueModel::Int64(i) => Ok(i),
            _ => Err(Error::ValueTypeMismatch),
        }
    }

    fn from_dicey(value: &ValueView) -> (r: Result<Self, Error>) {
        match value {
            ValueView::Int64(i) => Ok(*i),
            _ => Err(Error::ValueTypeMismatch),
        }
    }
}

impl FromDicey for u16 {
    type Model = u16;

    open spec fn as_model(&self) -> u16 {
        *self
    }

    open spec fn decoded(value: ValueModel) -> Result<u16, Error> {
        match value {
            ValueModel::UInt16(u) => Ok(u),
            _ => Err(Error::ValueTypeMismatch),
        }
    }

    fn from_dicey(value: &ValueView) -> (r: Result<Self, Error>) {
        match value {
            ValueView::UInt16(u) => Ok(*u),
            _ => Err(Error::ValueTypeMismatch),
        }
    }
}

impl FromDicey for u32 {
    type Model = u32;

    open spec fn as_model(&self) -> u32 {
        *self
    }

    open spec fn decoded(value: ValueModel) -> Result<u32, Error> {
        match value {
            ValueModel::UInt32(u) => Ok(u),
            _ => Err(Error::ValueTypeMismatch),
        }
    }

    fn from_dicey(value: &ValueView) -> (r: Result<Self, Error>) {
        match value {
            ValueView::UInt32(u) => Ok(*u),
            _ => Err(Error::ValueTypeMismatch),
        }
    }
}

impl FromDicey for u64 {
    type Model = u64;

    open spec fn as_model(&self) -> u64 {
        *self
    }

    open spec fn decoded(value: ValueModel) -> Result<u64, Error> {
        match value {
            ValueModel::UInt64(u) => Ok(u),
            _ => Err(Error::ValueTypeMismatch),
        }
    }

    fn from_dicey(value: &ValueView) -> (r: Result<Self, Error>) {
        match value {
            ValueView::UInt64(u) => Ok(*u),
            _ => Err(Error::ValueTypeMismatch),
        }
    }
}

impl FromDicey for Uuid {
    type Model = Seq<u8>;

    open spec fn as_model(&self) -> Seq<u8> {
        uuid_bytes(*self)
    }

    open spec fn decoded(value: ValueModel) -> Result<Seq<u8>, Error> {
        match value {
            ValueModel::Uuid(bytes) => Ok(bytes),
            _ => Err(Error::ValueTypeMismatch),
        }
    }

    fn from_dicey(value: &ValueView) -> (r: Result<Self, Error>) {
        match value {
            ValueView::Uuid(id) => Ok(*id),
            _ => Err(Error::ValueTypeMismatch),
        }
    }
}

impl FromDicey for Vec<u8> {
    type Model = Seq<u8>;

    open spec fn as_model(&self) -> Seq<u8> {
        self@
    }

    open spec fn decoded(value: ValueModel) -> Result<Seq<u8>, Error> {
        match value {
            ValueModel::Bytes(bytes) => Ok(bytes),
            _ => Err(Error::ValueTypeMismatch),
        }
    }

    fn from_dicey(value: &ValueView) -> (r: Result<Self, Error>) {
        match value {
            ValueView::Bytes(bytes) => Ok(bytes.clone()),
            _ => Err(Error::ValueTypeMismatch),
        }
    }
}

impl FromDicey for String {
    type Model = Seq<char>;

    open spec fn as_model(&self) -> Seq<char> {
        self@
    }

    open spec fn decoded(value: ValueModel) -> Result<Seq<char>, Error> {
        match value {
            ValueModel::String(text) => Ok(text),
            _ => Err(Error::ValueTypeMismatch),
        }
    }

    fn from_dicey(value: &ValueView) -> (r: Result<Self, Error>) {
        match value {
            ValueView::String(s) => Ok(s.clone()),
            _ => Err(Error::ValueTypeMismatch),
        }
    }
}

impl FromDicey for Path {
    type Model = Seq<char>;

    open spec fn as_model(&self) -> Seq<char> {
        self@
    }

    open spec fn decoded(value: ValueModel) -> Result<Seq<char>, Error> {
        match value {
            ValueModel::Path(text) => Ok(text),
            _ => Err(Error::ValueTypeMismatch),
        }
    }

    fn from_dicey(value: &ValueView) -> (r: Result<Self, Error>) {
        match value {
            ValueView::Path(p) => Ok(p.clone()),
            _ => Err(Error::ValueTypeMismatch),
        }
    }
}

impl FromDicey for Selector {
    type Model = SelectorModel;

    open spec fn as_model(&self) -> SelectorModel {
        self@
    }

    open spec fn decoded(value: ValueModel) -> Result<SelectorModel, Error> {
        match value {
            ValueModel::Selector(s) => Ok(s),
            _ => Err(Error::ValueTypeMismatch),
        }
    }

    fn from_dicey(value: &ValueView) -> (r: Result<Self, Error>) {
        match value {
            ValueView::Selector(s) => Ok(s.clone()),
            _ => Err(Error::ValueTypeMismatch),
        }
    }
}

impl FromDicey for ErrorMessage {
    type Model = ErrorModel;

    open spec fn as_model(&self) -> ErrorModel {
        self@
    }

    open spec fn decoded(value: ValueModel) -> Result<ErrorModel, Error> {
        match value {
            ValueModel::Error(e) => Ok(e),
            _ => Err(Error::ValueTypeMismatch),
        }
    }

    fn from_dicey(value: &ValueView) -> (r: Result<Self, Error>) {
        match value {
            ValueView::Error(e) => Ok(e.clone()),
            _ => Err(Error::ValueTypeMismatch),
        }
    }
}

/// What reading the first `n` items as `T` gives: every model in order, or
/// the error of the first item that fails. Nothing is kept of a sequence in
/// which one item fails.
pub open spec fn decoded_prefix<T: FromDicey>(items: Seq<ValueModel>, n: nat) -> Result<
    Seq<T::Model>,
    Error,
>
    decreases n,
{
    if n == 0 || n > items.len() {
        Ok(Seq::empty())
    } else {
        match decoded_prefix::<T>(items, (n - 1) as nat) {
            Err(e) => Err(e),
            Ok(front) => match T::decoded(items[n - 1]) {
                Err(e) => Err(e),
                Ok(x) => Ok(front.push(x)),
            },
        }
    }
}

/// The models of the elements of a native sequence, in order.
pub open spec fn element_models<T: FromDicey>(items: Seq<T>) -> Seq<T::Model> {
    Seq::new(items.len(), |i: int| items[i].as_model())
}

/// Once a prefix fails, every longer prefix fails with the same error.
pub proof fn lemma_decoded_prefix_error_stays<T: FromDicey>(
    items: Seq<ValueModel>,
    n: nat,
    m: nat,
)
    requires
        n <= m <= items.len(),
        decoded_prefix::<T>(items, n) is Err,
    ensures
        decoded_prefix::<T>(items, m) == decoded_prefix::<T>(items, n),
    decreases m,
{
    if n < m {
        lemma_decoded_prefix_error_stays::<T>(items, n, (m - 1) as nat);
    }
}

/// A sequence that decodes has as many elements as the array has items, each
/// the decoding of the item in its place.
pub proof fn lemma_decoded_prefix_items<T: FromDicey>(items: Seq<ValueModel>, n: nat)
    requires
        n <= items.len(),
    ensures
        decoded_prefix::<T>(items, n) matches Ok(out) ==> out.len() == n && forall|i: int|
            0 <= i < n ==> T::decoded(#[trigger] items[i]) == Ok::<T::Model, Error>(out[i]),
    decreases n,
{
    if n > 0 {
        lemma_decoded_prefix_items::<T>(items, (n - 1) as nat);
    }
}

impl<T: FromDicey> FromDicey for Vec<T> {
    type Model = Seq<T::Model>;

    open spec fn as_model(&self) -> Seq<T::Model> {
        element_models::<T>(self@)
    }

    /// An array decodes item by item, whatever element kind it declares.
    open spec fn decoded(value: ValueModel) -> Result<Seq<T::Model>, Error> {
        match value {
            ValueModel::Array { element_kind, items } => decoded_prefix::<T>(items, items.len()),
            _ => Err(Error::ValueTypeMismatch),
        }
    }

    fn from_dicey(value: &ValueView) -> (r: Result<Self, Error>) {
        match value {
            ValueView::Array { element_kind, items } => {
                proof {
                    value.lemma_model_items();
                }
                let ghost all = models(items@);
                let mut out: Vec<T> = Vec::new();
                let mut i: usize = 0;
                assert(element_models::<T>(out@) =~= Seq::<T::Model>::empty());
                while i < items.len()
                    invariant
                        i <= items.len(),
                        all == models(items@),
                        value@ == (ValueModel::Array { element_kind: *element_kind, items: all }),
                        decoded_prefix::<T>(all, i as nat) == Ok::<Seq<T::Model>, Error>(
                            element_models::<T>(out@),
                        ),
                    decreases items.len() - i,
                {
                    let ghost before = element_models::<T>(out@);
                    assert(all[i as int] == items@[i as int]@);
                    match T::from_dicey(&items[i]) {
                        Ok(x) => {
                            out.push(x);
                            assert(element_models::<T>(out@) =~= before.push(x.as_model()));
                        },
                        Err(e) => {
                            proof {
                                lemma_decoded_prefix_error_stays::<T>(
                                    all,
                                    (i + 1) as nat,
                                    all.len(),
                                );
                            }
                            return Err(e);
                        },
                    }
                    i += 1;
                }
                Ok(out)
            },
            _ => Err(Error::ValueTypeMismatch),
        }
    }
}

impl<T: FromDicey, U: FromDicey> FromDicey for (T, U) {
    type Model = (T::Model, U::Model);

    open spec fn as_model(&self) -> (T::Model, U::Model) {
        (self.0.as_model(), self.1.as_model())
    }

    /// A pair decodes first half first; the first half that fails decides the
    /// error.
    open spec fn decoded(value: ValueModel) -> Result<(T::Model, U::Model), Error> {
        match value {
            ValueModel::Pair(first, second) => match T::decoded(*first) {
                Err(e) => Err(e),
                Ok(a) => match U::decoded(*second) {
                    Err(e) => Err(e),
                    Ok(b) => Ok((a, b)),
                },
            },
            _ => Err(Error::ValueTypeMismatch),
        }
    }

    fn from_dicey(value: &ValueView) -> (r: Result<Self, Error>) {
        match value {
            ValueView::Pair(first, second) => {
                let a = T::from_dicey(first)?;
                let b = U::from_dicey(second)?;
                Ok((a, b))
            },
            _ => Err(Error::ValueTypeMismatch),
        }
    }
}

impl<A: FromDicey, B: FromDicey, C: FromDicey> FromDicey for (A, B, C) {
    type Model = (A::Model, B::Model, C::Model);

    open spec fn as_model(&self) -> (A::Model, B::Model, C::Model) {
        (self.0.as_model(), self.1.as_model(), self.2.as_model())
    }

    /// A tuple decodes only if it has exactly three slots; one more or one
    /// fewer is `ValueTypeMismatch`. The slots decode in order and the first
    /// that fails decides the error.
    open spec fn decoded(value: ValueModel) -> Result<(A::Model, B::Model, C::Model), Error> {
        match value {
            ValueModel::Tuple(items) => if items.len() != 3 {
                Err(Error::ValueTypeMismatch)
            } else {
                match A::decoded(items[0]) {
                    Err(e) => Err(e),
                    Ok(a) => match B::decoded(items[1]) {
                        Err(e) => Err(e),
                        Ok(b) => match C::decoded(items[2]) {
                            Err(e) => Err(e),
                            Ok(c) => Ok((a, b, c)),
                        },
                    },
                }
            },
            _ => Err(Error::ValueTypeMismatch),
        }
    }

    fn from_dicey(value: &ValueView) -> (r: Result<Self, Error>) {
        match value {
            ValueView::Tuple(items) => {
                proof {
                    value.lemma_model_items();
                }
                if items.len() != 3 {
                    return Err(Error::ValueTypeMismatch);
                }
                assert(models(items@)[0] == items@[0]@);
                assert(models(items@)[1] == items@[1]@);
                assert(models(items@)[2] == items@[2]@);
                let a = A::from_dicey(&items[0])?;
                let b = B::from_dicey(&items[1])?;
                let c = C::from_dicey(&items[2])?;
                Ok((a, b, c))
            },
            _ => Err(Error::ValueTypeMismatch),
        }
    }
}

/// A tuple of any arity, as the sequence of its slots. Each slot keeps its own
/// kind and is read on its own with [`ValueView::extract`].
#[derive(Debug, PartialEq)]
pub struct Tuple(pub Vec<ValueView>);

impl View for Tuple {
    type V = Seq<ValueModel>;

    open spec fn view(&self) -> Seq<ValueModel> {
        models(self.0@)
    }
}

impl Tuple {
    /// The number of slots.
    pub fn arity(&self) -> (n: usize)
        ensures
            n == self@.len(),
    {
        self.0.len()
    }

    /// What reading a value as a tuple of exactly `arity` slots gives.
    pub open spec fn decoded_exact(value: ValueModel, arity: nat) -> Result<Seq<ValueModel>, Error> {
        match value {
            ValueModel::Tuple(items) => if items.len() == arity {
                Ok(items)
            } else {
                Err(Error::ValueTypeMismatch)
            },
            _ => Err(Error::ValueTypeMismatch),
        }
    }

    /// Reads a value as a tuple of exactly `arity` slots: a tuple with more or
    /// fewer slots is `ValueTypeMismatch`, and nothing is ever cut off.
    pub fn from_dicey_exact(value: &ValueView, arity: usize) -> (r: Result<Tuple, Error>)
        ensures
            match r {
                Ok(t) => Tuple::decoded_exact(value@, arity as nat) == Ok::<
                    Seq<ValueModel>,
                    Error,
                >(t@) && t@.len() == arity,
                Err(e) => Tuple::decoded_exact(value@, arity as nat) == Err::<
                    Seq<ValueModel>,
                    Error,
                >(e) && e == Error::ValueTypeMismatch,
            },
    {
        match value {
            ValueView::Tuple(items) => {
                proof {
                    value.lemma_model_items();
                }
                if items.len() == arity {
                    Ok(Tuple(crate::value::duplicate_all(items)))
                } else {
                    Err(Error::ValueTypeMismatch)
                }
            },
            _ => Err(Error::ValueTypeMismatch),
        }
    }
}

impl FromDicey for Tuple {
    type Model = Seq<ValueModel>;

    open spec fn as_model(&self) -> Seq<ValueModel> {
        self@
    }

    open spec fn decoded(value: ValueModel) -> Result<Seq<ValueModel>, Error> {
        match value {
            ValueModel::Tuple(items) => Ok(items),
            _ => Err(Error::ValueTypeMismatch),
        }
    }

    fn from_dicey(value: &ValueView) -> (r: Result<Self, Error>) {
        match value {
            ValueView::Tuple(items) => {
                proof {
                    value.lemma_model_items();
                }
                Ok(Tuple(crate::value::duplicate_all(items)))
            },
            _ => Err(Error::ValueTypeMismatch),
        }
    }
}

} // verus!
