//! From native data to a value: the [`ToDicey`] capability and its
//! implementations.

use std::borrow::Cow;
use vstd::prelude::*;
use vstd::utf8::encode_utf8;

use crate::builder::{BuilderModel, FrameModel, Shape, ValueBuilder};
use crate::decode::Tuple;
use crate::error::Error;
use crate::trusted::uuid_bytes;
use crate::value::{
    all_of_kind, all_wf, lemma_wf_array, lemma_wf_tuple, Byte, ErrorMessage, Float, Path, Selector,
    Type, ValueModel, ValueView,
};
use uuid::Uuid;

verus! {

/// The capability of being emitted into a value builder.
///
/// An implementation names its kind, says in `encoded` which value its data
/// stands for (or why it stands for none), and `to_dicey` is held to
/// [`BuilderModel::emit`]: the open slot is checked first, then the data, and
/// then exactly the encoding goes into the slot.
///
/// Where `to_dicey` fails, the builder keeps all that was under way, as
/// [`BuilderModel::keeps`] says: nothing has been finished, and every
/// composite that was open is open still, with the children that it had. The
/// implementations for scalars, blobs, texts, paths, selectors and errors
/// promise more: the builder is as it was. A composite that fails part of the
/// way leaves itself open inside, with the children that it had emitted.
pub trait ToDicey {
    /// The kind of every value this type encodes to.
    spec fn kind_spec() -> Type;

    /// The value that the data stands for, or the reason it stands for none.
    spec fn encoded(&self) -> Result<ValueModel, Error>;

    /// An encoding has the kind that the type names, and is well formed.
    proof fn lemma_encoded(&self)
        ensures
            self.encoded() matches Ok(value) ==> value.kind() == Self::kind_spec() && value.wf(),
    ;

    /// The kind of every value this type encodes to.
    fn kind() -> (k: Type)
        ensures
            k == Self::kind_spec(),
    ;

    /// Emits the data into the builder's open slot.
    fn to_dicey(&self, builder: &mut ValueBuilder) -> (r: Result<(), Error>)
        requires
            old(builder).wf(),
        ensures
            final(builder).wf(),
            match r {
                Ok(()) => old(builder)@.emit(Self::kind_spec(), self.encoded()) == Ok::<
                    BuilderModel,
                    Error,
                >(final(builder)@),
                Err(e) => old(builder)@.emit(Self::kind_spec(), self.encoded()) == Err::<
                    BuilderModel,
                    Error,
                >(e),
            },
            r is Err ==> final(builder)@.keeps(old(builder)@),
    ;
}

impl ValueBuilder {
    /// Emits native data into the open slot.
    pub fn set<T: ToDicey>(&mut self, value: T) -> (r: Result<(), Error>)
        requires
            old(self).wf(),
        ensures
            final(self).wf(),
            match r {
                Ok(()) => old(self)@.emit(T::kind_spec(), value.encoded()) == Ok::<
                    BuilderModel,
                    Error,
                >(final(self)@),
                Err(e) => old(self)@.emit(T::kind_spec(), value.encoded()) == Err::<
                    BuilderModel,
                    Error,
                >(e),
            },
            r is Err ==> final(self)@.keeps(old(self)@),
    {
        value.to_dicey(self)
    }
}

impl ToDicey for () {
    open spec fn kind_spec() -> Type {
        Type::Unit
    }

    open spec fn encoded(&self) -> Result<ValueModel, Error> {
        Ok(ValueModel::Unit)
    }

    proof fn lemma_encoded(&self) {
    }

    fn kind() -> (k: Type) {
        Type::Unit
    }

    fn to_dicey(&self, builder: &mut ValueBuilder) -> (r: Result<(), Error>)
        ensures
            r is Err ==> final(builder)@ == old(builder)@,
    {
        builder.put(ValueView::Unit)
    }
}

impl ToDicey for bool {
    open spec fn kind_spec() -> Type {
        Type::Bool
    }

    open spec fn encoded(&self) -> Result<ValueModel, Error> {
        Ok(ValueModel::Bool(*self))
    }

    proof fn lemma_encoded(&self) {
    }

    fn kind() -> (k: Type) {
        Type::Bool
    }

    fn to_dicey(&self, builder: &mut ValueBuilder) -> (r: Result<(), Error>)
        ensures
            r is Err ==> final(builder)@ == old(builder)@,
    {
        builder.put(ValueView::Bool(*self))
    }
}

impl ToDicey for Byte {
    open spec fn kind_spec() -> Type {
        Type::Byte
    }

    open spec fn encoded(&self) -> Result<ValueModel, Error> {
        Ok(ValueModel::Byte(self.0))
    }

    proof fn lemma_encoded(&self) {
    }

    fn kind() -> (k: Type) {
        Type::Byte
    }

    fn to_dicey(&self, builder: &mut ValueBuilder) -> (r: Result<(), Error>)
        ensures
            r is Err ==> final(builder)@ == old(builder)@,
    {
        builder.put(ValueView::Byte(*self))
    }
}

impl ToDicey for Float {
    open spec fn kind_spec() -> Type {
        Type::Float
    }

    open spec fn encoded(&self) -> Result<ValueModel, Error> {
        Ok(ValueModel::Float(self.0))
    }

    proof fn lemma_encoded(&self) {
    }

    fn kind() -> (k: Type) {
        Type::Float
    }

    fn to_dicey(&self, builder: &mut ValueBuilder) -> (r: Result<(), Error>)
        ensures
            r is Err ==> final(builder)@ == old(builder)@,
    {
        builder.put(ValueView::Float(*self))
    }
}

impl ToDicey for i16 {
    open spec fn kind_spec() -> Type {
        Type::Int16
    }

    open spec fn encoded(&self) -> Result<ValueModel, Error> {
        Ok(ValueModel::Int16(*self))
    }

    proof fn lemma_encoded(&self) {
    }

    fn kind() -> (k: Type) {
        Type::Int16
    }

    fn to_dicey(&self, builder: &mut ValueBuilder) -> (r: Result<(), Error>)
        ensures
            r is Err ==> final(builder)@ == old(builder)@,
    {
        builder.put(ValueView::Int16(*self))
    }
}

impl ToDicey for i32 {
    open spec fn kind_spec() -> Type {
        Type::Int32
    }

    open spec fn encoded(&self) -> Result<ValueModel, Error> {
        Ok(ValueModel::Int32(*self))
    }

    proof fn lemma_encoded(&self) {
    }

    fn kind() -> (k: Type) {
        Type::Int32
    }

    fn to_dicey(&self, builder: &mut ValueBuilder) -> (r: Result<(), Error>)
        ensures
            r is Err ==> final(builder)@ == old(builder)@,
    {
        builder.put(ValueView::Int32(*self))
    }
}

impl ToDicey for i64 {
    open spec fn kind_spec() -> Type {
        Type::Int64
    }

    open spec fn encoded(&self) -> Result<ValueModel, Error> {
        Ok(ValueModel::Int64(*self))
    }

    proof fn lemma_encoded(&self) {
    }

    fn kind() -> (k: Type) {
        Type::Int64
    }

    fn to_dicey(&self, builder: &mut ValueBuilder) -> (r: Result<(), Error>)
        ensures
            r is Err ==> final(builder)@ == old(builder)@,
    {
        builder.put(ValueView::Int64(*self))
    }
}

impl ToDicey for u16 {
    open spec fn kind_spec() -> Type {
        Type::UInt16
    }

    open spec fn encoded(&self) -> Result<ValueModel, Error> {
        Ok(ValueModel::UInt16(*self))
    }

    proof fn lemma_encoded(&self) {
    }

    fn kind() -> (k: Type) {
        Type::UInt16
    }

    fn to_dicey(&self, builder: &mut ValueBuilder) -> (r: Result<(), Error>)
        ensures
            r is Err ==> final(builder)@ == old(builder)@,
    {
        builder.put(ValueView::UInt16(*self))
    }
}

impl ToDicey for u32 {
    open spec fn kind_spec() -> Type {
        Type::UInt32
    }

    open spec fn encoded(&self) -> Result<ValueModel, Error> {
        Ok(ValueModel::UInt32(*self))
    }

    proof fn lemma_encoded(&self) {
    }

    fn kind() -> (k: Type) {
        Type::UInt32
    }

    fn to_dicey(&self, builder: &mut ValueBuilder) -> (r: Result<(), Error>)
        ensures
            r is Err ==> final(builder)@ == old(builder)@,
    {
        builder.put(ValueView::UInt32(*self))
    }
}

impl ToDicey for u64 {
    open spec fn kind_spec() -> Type {
        Type::UInt64
    }

    open spec fn encoded(&self) -> Result<ValueModel, Error> {
        Ok(ValueModel::UInt64(*self))
    }

    proof fn lemma_encoded(&self) {
    }

    fn kind() -> (k: Type) {
        Type::UInt64
    }

    fn to_dicey(&self, builder: &mut ValueBuilder) -> (r: Result<(), Error>)
        ensures
            r is Err ==> final(builder)@ == old(builder)@,
    {
        builder.put(ValueView::UInt64(*self))
    }
}

impl ToDicey for Uuid {
    open spec fn kind_spec() -> Type {
        Type::Uuid
    }

    open spec fn encoded(&self) -> Result<ValueModel, Error> {
        Ok(ValueModel::Uuid(uuid_bytes(*self)))
    }

    proof fn lemma_encoded(&self) {
    }

    fn kind() -> (k: Type) {
        Type::Uuid
    }

    fn to_dicey(&self, builder: &mut ValueBuilder) -> (r: Result<(), Error>)
        ensures
            r is Err ==> final(builder)@ == old(builder)@,
    {
        builder.put(ValueView::Uuid(*self))
    }
}

/// Whether a byte string holds a NUL byte. The engine ends every name and
/// every text at the first NUL, so one inside cannot be sent.
pub open spec fn has_nul(bytes: Seq<u8>) -> bool {
    bytes.contains(0u8)
}

/// Whether a byte string holds a NUL byte.
pub fn contains_nul(bytes: &[u8]) -> (found: bool)
    ensures
        found == has_nul(bytes@),
{
    let mut i: usize = 0;
    while i < bytes.len()
        invariant
            i <= bytes.len(),
            forall|k: int| 0 <= k < i ==> bytes@[k] != 0u8,
        decreases bytes.len() - i,
    {
        if bytes[i] == 0 {
            assert(bytes@[i as int] == 0u8);
            return true;
        }
        i += 1;
    }
    false
}

/// The encoding of a blob: itself, unless it is longer than a length field of
/// thirty-two bits can say.
pub open spec fn encoded_bytes(bytes: Seq<u8>) -> Result<ValueModel, Error> {
    if bytes.len() > u32::MAX {
        Err(Error::Overflow)
    } else {
        Ok(ValueModel::Bytes(bytes))
    }
}

impl ToDicey for Vec<u8> {
    open spec fn kind_spec() -> Type {
        Type::Bytes
    }

    open spec fn encoded(&self) -> Result<ValueModel, Error> {
        encoded_bytes(self@)
    }

    proof fn lemma_encoded(&self) {
    }

    fn kind() -> (k: Type) {
        Type::Bytes
    }

    fn to_dicey(&self, builder: &mut ValueBuilder) -> (r: Result<(), Error>)
        ensures
            r is Err ==> final(builder)@ == old(builder)@,
    {
        builder.ready_for(Type::Bytes)?;
        if self.len() > 0xffff_ffff {
            return Err(Error::Overflow);
        }
        builder.put(ValueView::Bytes(self.clone()))
    }
}

impl<'a> ToDicey for &'a [u8] {
    open spec fn kind_spec() -> Type {
        Type::Bytes
    }

    open spec fn encoded(&self) -> Result<ValueModel, Error> {
        encoded_bytes(self@)
    }

    proof fn lemma_encoded(&self) {
    }

    fn kind() -> (k: Type) {
        Type::Bytes
    }

    fn to_dicey(&self, builder: &mut ValueBuilder) -> (r: Result<(), Error>)
        ensures
            r is Err ==> final(builder)@ == old(builder)@,
    {
        builder.ready_for(Type::Bytes)?;
        if self.len() > 0xffff_ffff {
            return Err(Error::Overflow);
        }
        builder.put(ValueView::Bytes(vstd::slice::slice_to_vec(*self)))
    }
}

impl<'a> ToDicey for &'a Vec<u8> {
    open spec fn kind_spec() -> Type {
        Type::Bytes
    }

    open spec fn encoded(&self) -> Result<ValueModel, Error> {
        encoded_bytes(self@)
    }

    proof fn lemma_encoded(&self) {
    }

    fn kind() -> (k: Type) {
        Type::Bytes
    }

    fn to_dicey(&self, builder: &mut ValueBuilder) -> (r: Result<(), Error>)
        ensures
            r is Err ==> final(builder)@ == old(builder)@,
    {
        let bytes: &Vec<u8> = *self;
        bytes.to_dicey(builder)
    }
}

impl<'a> ToDicey for Cow<'a, [u8]> {
    open spec fn kind_spec() -> Type {
        Type::Bytes
    }

    open spec fn encoded(&self) -> Result<ValueModel, Error> {
        encoded_bytes(self@)
    }

    proof fn lemma_encoded(&self) {
    }

    fn kind() -> (k: Type) {
        Type::Bytes
    }

    fn to_dicey(&self, builder: &mut ValueBuilder) -> (r: Result<(), Error>)
        ensures
            r is Err ==> final(builder)@ == old(builder)@,
    {
        match self {
            Cow::Borrowed(bytes) => bytes.to_dicey(builder),
            Cow::Owned(bytes) => bytes.to_dicey(builder),
        }
    }
}

/// The encoding of a text: itself, unless its UTF-8 form holds a NUL byte.
pub open spec fn encoded_text(text: Seq<char>) -> Result<ValueModel, Error> {
    if has_nul(encode_utf8(text)) {
        Err(Error::InvalidData)
    } else {
        Ok(ValueModel::String(text))
    }
}

impl ToDicey for String {
    open spec fn kind_spec() -> Type {
        Type::String
    }

    open spec fn encoded(&self) -> Result<ValueModel, Error> {
        encoded_text(self@)
    }

    proof fn lemma_encoded(&self) {
    }

    fn kind() -> (k: Type) {
        Type::String
    }

    fn to_dicey(&self, builder: &mut ValueBuilder) -> (r: Result<(), Error>)
        ensures
            r is Err ==> final(builder)@ == old(builder)@,
    {
        builder.ready_for(Type::String)?;
        if contains_nul(self.as_str().as_bytes()) {
            return Err(Error::InvalidData);
        }
        builder.put(ValueView::String(self.clone()))
    }
}

impl<'a> ToDicey for &'a str {
    open spec fn kind_spec() -> Type {
        Type::String
    }

    open spec fn encoded(&self) -> Result<ValueModel, Error> {
        encoded_text(self@)
    }

    proof fn lemma_encoded(&self) {
    }

    fn kind() -> (k: Type) {
        Type::String
    }

    fn to_dicey(&self, builder: &mut ValueBuilder) -> (r: Result<(), Error>)
        ensures
            r is Err ==> final(builder)@ == old(builder)@,
    {
        builder.ready_for(Type::String)?;
        if contains_nul(self.as_bytes()) {
            return Err(Error::InvalidData);
        }
        builder.put(ValueView::String((*self).to_owned()))
    }
}

impl<'a> ToDicey for &'a String {
    open spec fn kind_spec() -> Type {
        Type::String
    }

    open spec fn encoded(&self) -> Result<ValueModel, Error> {
        encoded_text(self@)
    }

    proof fn lemma_encoded(&self) {
    }

    fn kind() -> (k: Type) {
        Type::String
    }

    fn to_dicey(&self, builder: &mut ValueBuilder) -> (r: Result<(), Error>)
        ensures
            r is Err ==> final(builder)@ == old(builder)@,
    {
        let text: &String = *self;
        text.to_dicey(builder)
    }
}

impl<'a> ToDicey for Cow<'a, str> {
    open spec fn kind_spec() -> Type {
        Type::String
    }

    open spec fn encoded(&self) -> Result<ValueModel, Error> {
        encoded_text(self@)
    }

    proof fn lemma_encoded(&self) {
    }

    fn kind() -> (k: Type) {
        Type::String
    }

    fn to_dicey(&self, builder: &mut ValueBuilder) -> (r: Result<(), Error>)
        ensures
            r is Err ==> final(builder)@ == old(builder)@,
    {
        match self {
            Cow::Borrowed(text) => text.to_dicey(builder),
            Cow::Owned(text) => text.to_dicey(builder),
        }
    }
}

impl ToDicey for Path {
    open spec fn kind_spec() -> Type {
        Type::Path
    }

    /// A path is encoded as a text is, under its own kind.
    open spec fn encoded(&self) -> Result<ValueModel, Error> {
        if has_nul(encode_utf8(self@)) {
            Err(Error::InvalidData)
        } else {
            Ok(ValueModel::Path(self@))
        }
    }

    proof fn lemma_encoded(&self) {
    }

    fn kind() -> (k: Type) {
        Type::Path
    }

    fn to_dicey(&self, builder: &mut ValueBuilder) -> (r: Result<(), Error>)
        ensures
            r is Err ==> final(builder)@ == old(builder)@,
    {
        builder.ready_for(Type::Path)?;
        if contains_nul(self.as_str().as_bytes()) {
            return Err(Error::InvalidData);
        }
        builder.put(ValueView::Path(self.clone()))
    }
}

impl ToDicey for Selector {
    open spec fn kind_spec() -> Type {
        Type::Selector
    }

    /// A selector is encoded as it is, unless one of its names holds a NUL
    /// byte.
    open spec fn encoded(&self) -> Result<ValueModel, Error> {
        if has_nul(self@.trait_name) || has_nul(self@.elem) {
            Err(Error::InvalidData)
        } else {
            Ok(ValueModel::Selector(self@))
        }
    }

    proof fn lemma_encoded(&self) {
    }

    fn kind() -> (k: Type) {
        Type::Selector
    }

    fn to_dicey(&self, builder: &mut ValueBuilder) -> (r: Result<(), Error>)
        ensures
            r is Err ==> final(builder)@ == old(builder)@,
    {
        builder.ready_for(Type::Selector)?;
        if contains_nul(self.trait_name.as_slice()) || contains_nul(self.elem.as_slice()) {
            return Err(Error::InvalidData);
        }
        builder.put(ValueView::Selector(self.clone()))
    }
}

impl ToDicey for ErrorMessage {
    open spec fn kind_spec() -> Type {
        Type::Error
    }

    /// An error is encoded as it is, unless its message holds a NUL byte.
    open spec fn encoded(&self) -> Result<ValueModel, Error> {
        match self@.message {
            Some(text) => if has_nul(encode_utf8(text)) {
                Err(Error::InvalidData)
            } else {
                Ok(ValueModel::Error(self@))
            },
            None => Ok(ValueModel::Error(self@)),
        }
    }

    proof fn lemma_encoded(&self) {
    }

    fn kind() -> (k: Type) {
        Type::Error
    }

    fn to_dicey(&self, builder: &mut ValueBuilder) -> (r: Result<(), Error>)
        ensures
            r is Err ==> final(builder)@ == old(builder)@,
    {
        builder.ready_for(Type::Error)?;
        match &self.message {
            Some(text) => {
                if contains_nul(text.as_str().as_bytes()) {
                    return Err(Error::InvalidData);
                }
            },
            None => {},
        }
        builder.put(ValueView::Error(self.clone()))
    }
}

/// What emitting the first `n` elements gives: every encoding in order, or
/// the error of the first element that has none.
pub open spec fn encoded_prefix<T: ToDicey>(items: Seq<T>, n: nat) -> Result<
    Seq<ValueModel>,
    Error,
>
    decreases n,
{
    if n == 0 || n > items.len() {
        Ok(Seq::empty())
    } else {
        match encoded_prefix::<T>(items, (n - 1) as nat) {
            Err(e) => Err(e),
            Ok(front) => match items[n - 1].encoded() {
                Err(e) => Err(e),
                Ok(value) => Ok(front.push(value)),
            },
        }
    }
}

/// Once a prefix fails, every longer prefix fails with the same error.
pub proof fn lemma_encoded_prefix_error_stays<T: ToDicey>(items: Seq<T>, n: nat, m: nat)
    requires
        n <= m <= items.len(),
        encoded_prefix::<T>(items, n) is Err,
    ensures
        encoded_prefix::<T>(items, m) == encoded_prefix::<T>(items, n),
    decreases m,
{
    if n < m {
        lemma_encoded_prefix_error_stays::<T>(items, n, (m - 1) as nat);
    }
}

/// The encodings of a prefix are as many as its elements, each the encoding
/// of the element in its place, each well formed and of the element type's
/// kind.
pub proof fn lemma_encoded_prefix_items<T: ToDicey>(items: Seq<T>, n: nat)
    requires
        n <= items.len(),
    ensures
        encoded_prefix::<T>(items, n) matches Ok(values) ==> {
            &&& values.len() == n
            &&& forall|i: int|
                0 <= i < n ==> (#[trigger] items[i]).encoded() == Ok::<ValueModel, Error>(
                    values[i],
                )
            &&& all_wf(values)
            &&& all_of_kind(values, T::kind_spec())
        },
    decreases n,
{
    if n > 0 {
        lemma_encoded_prefix_items::<T>(items, (n - 1) as nat);
        items[n - 1].lemma_encoded();
    }
}

/// The state of a builder in which one more composite is open than in
/// `outer`, holding `items`, and no slot is open.
pub open spec fn opened(outer: BuilderModel, shape: Shape, items: Seq<ValueModel>) -> BuilderModel {
    BuilderModel {
        frames: outer.frames.push(FrameModel { shape, items }),
        armed: false,
        root: outer.root,
    }
}

/// Opening the next slot of the innermost composite and putting a value in it
/// adds the value to that composite and touches nothing else.
pub proof fn lemma_opened_step(
    outer: BuilderModel,
    shape: Shape,
    items: Seq<ValueModel>,
    value: ValueModel,
)
    requires
        shape.has_room(items),
    ensures
        opened(outer, shape, items).next() == Ok::<BuilderModel, Error>(
            BuilderModel { armed: true, ..opened(outer, shape, items) },
        ),
        (BuilderModel { armed: true, ..opened(outer, shape, items) }).accepts(value.kind())
            == shape.takes(value.kind()),
        (BuilderModel { armed: true, ..opened(outer, shape, items) }).place(value) == opened(
            outer,
            shape,
            items.push(value),
        ),
{
    let before = opened(outer, shape, items);
    let armed = BuilderModel { armed: true, ..before };
    assert(before.frames.last() == (FrameModel { shape, items }));
    assert(armed.frames.last() == (FrameModel { shape, items }));
    assert(armed.place(value).frames =~= opened(outer, shape, items.push(value)).frames);
}

/// Ending the innermost composite hands the finished composite to the slot
/// in which it was started.
pub proof fn lemma_opened_end(outer: BuilderModel, shape: Shape, items: Seq<ValueModel>)
    requires
        shape.closes_with(items),
    ensures
        opened(outer, shape, items).end(shape.kind()) == Ok::<BuilderModel, Error>(
            outer.place(shape.compose(items)),
        ),
{
    let before = opened(outer, shape, items);
    assert(before.frames.last() == (FrameModel { shape, items }));
    assert(before.frames.drop_last() =~= outer.frames);
    let popped = BuilderModel { frames: before.frames.drop_last(), armed: false, root: before.root };
    assert(popped.place(shape.compose(items)) == outer.place(shape.compose(items)));
}

impl<T: ToDicey> ToDicey for Vec<T> {
    open spec fn kind_spec() -> Type {
        Type::Array
    }

    /// A sequence is encoded as the array of its elements' encodings, which
    /// declares the element type's kind whether or not it has elements. It has
    /// no encoding if one element has none.
    open spec fn encoded(&self) -> Result<ValueModel, Error> {
        match encoded_prefix::<T>(self@, self@.len()) {
            Err(e) => Err(e),
            Ok(items) => Ok(ValueModel::Array { element_kind: T::kind_spec(), items }),
        }
    }

    proof fn lemma_encoded(&self) {
        lemma_encoded_prefix_items::<T>(self@, self@.len());
        match encoded_prefix::<T>(self@, self@.len()) {
            Ok(items) => {
                lemma_wf_array(T::kind_spec(), items);
            },
            Err(_) => {},
        }
    }

    fn kind() -> (k: Type) {
        Type::Array
    }

    fn to_dicey(&self, builder: &mut ValueBuilder) -> (r: Result<(), Error>) {
        let ghost outer = builder@;
        let element_kind = T::kind();
        let ghost shape = Shape::Array(element_kind);
        builder.array_start(element_kind)?;
        let ghost mut items: Seq<ValueModel> = Seq::empty();
        let mut i: usize = 0;
        while i < self.len()
            invariant
                i <= self.len(),
                builder.wf(),
                outer == old(builder)@,
                outer.armed,
                outer.accepts(Type::Array),
                shape == Shape::Array(T::kind_spec()),
                builder@ == opened(outer, shape, items),
                encoded_prefix::<T>(self@, i as nat) == Ok::<Seq<ValueModel>, Error>(items),
            decreases self.len() - i,
        {
            proof {
                lemma_encoded_prefix_items::<T>(self@, i as nat);
                lemma_opened_step(outer, shape, items, ValueModel::Unit);
                self@[i as int].lemma_encoded();
            }
            match builder.next() {
                Ok(()) => {},
                Err(e) => {
                    return Err(e);
                },
            }
            let ghost armed = builder@;
            match self[i].to_dicey(builder) {
                Ok(()) => {
                    proof {
                        let value = self@[i as int].encoded()->Ok_0;
                        lemma_opened_step(outer, shape, items, value);
                        items = items.push(value);
                    }
                },
                Err(e) => {
                    proof {
                        assert(armed.frames.last() == (FrameModel { shape, items }));
                        lemma_encoded_prefix_error_stays::<T>(
                            self@,
                            (i + 1) as nat,
                            self@.len(),
                        );
                    }
                    return Err(e);
                },
            }
            i += 1;
        }
        proof {
            lemma_opened_end(outer, shape, items);
        }
        builder.array_end()
    }
}

impl<T: ToDicey, U: ToDicey> ToDicey for (T, U) {
    open spec fn kind_spec() -> Type {
        Type::Pair
    }

    /// Two values are encoded as the pair of their encodings, first half
    /// first.
    open spec fn encoded(&self) -> Result<ValueModel, Error> {
        match self.0.encoded() {
            Err(e) => Err(e),
            Ok(first) => match self.1.encoded() {
                Err(e) => Err(e),
                Ok(second) => Ok(ValueModel::Pair(Box::new(first), Box::new(second))),
            },
        }
    }

    proof fn lemma_encoded(&self) {
        self.0.lemma_encoded();
        self.1.lemma_encoded();
    }

    fn kind() -> (k: Type) {
        Type::Pair
    }

    fn to_dicey(&self, builder: &mut ValueBuilder) -> (r: Result<(), Error>) {
        let ghost outer = builder@;
        let ghost none: Seq<ValueModel> = Seq::empty();
        builder.pair_start()?;
        proof {
            lemma_opened_step(outer, Shape::Pair, none, ValueModel::Unit);
        }
        match builder.next() {
            Ok(()) => {},
            Err(e) => {
                return Err(e);
            },
        }
        let ghost armed = builder@;
        assert(armed.frames.last() == (FrameModel { shape: Shape::Pair, items: none }));
        self.0.to_dicey(builder)?;
        let ghost first = self.0.encoded()->Ok_0;
        proof {
            lemma_opened_step(outer, Shape::Pair, none, first);
            lemma_opened_step(outer, Shape::Pair, none.push(first), ValueModel::Unit);
        }
        match builder.next() {
            Ok(()) => {},
            Err(e) => {
                return Err(e);
            },
        }
        let ghost armed = builder@;
        assert(armed.frames.last() == (FrameModel { shape: Shape::Pair, items: none.push(first) }));
        self.1.to_dicey(builder)?;
        let ghost second = self.1.encoded()->Ok_0;
        proof {
            lemma_opened_step(outer, Shape::Pair, none.push(first), second);
            lemma_opened_end(outer, Shape::Pair, none.push(first).push(second));
        }
        builder.pair_end()
    }
}

impl<A: ToDicey, B: ToDicey, C: ToDicey> ToDicey for (A, B, C) {
    open spec fn kind_spec() -> Type {
        Type::Tuple
    }

    /// Three values are encoded as the tuple of their encodings, in order.
    open spec fn encoded(&self) -> Result<ValueModel, Error> {
        match self.0.encoded() {
            Err(e) => Err(e),
            Ok(a) => match self.1.encoded() {
                Err(e) => Err(e),
                Ok(b) => match self.2.encoded() {
                    Err(e) => Err(e),
                    Ok(c) => Ok(ValueModel::Tuple(seq![a, b, c])),
                },
            },
        }
    }

    proof fn lemma_encoded(&self) {
        self.0.lemma_encoded();
        self.1.lemma_encoded();
        self.2.lemma_encoded();
        match self.encoded() {
            Ok(ValueModel::Tuple(items)) => {
                lemma_wf_tuple(items);
            },
            _ => {},
        }
    }

    fn kind() -> (k: Type) {
        Type::Tuple
    }

    fn to_dicey(&self, builder: &mut ValueBuilder) -> (r: Result<(), Error>) {
        let ghost outer = builder@;
        let ghost none: Seq<ValueModel> = Seq::empty();
        builder.tuple_start()?;
        proof {
            lemma_opened_step(outer, Shape::Tuple, none, ValueModel::Unit);
        }
        match builder.next() {
            Ok(()) => {},
            Err(e) => {
                return Err(e);
            },
        }
        let ghost armed = builder@;
        assert(armed.frames.last() == (FrameModel { shape: Shape::Tuple, items: none }));
        self.0.to_dicey(builder)?;
        let ghost a = self.0.encoded()->Ok_0;
        proof {
            lemma_opened_step(outer, Shape::Tuple, none, a);
            lemma_opened_step(outer, Shape::Tuple, none.push(a), ValueModel::Unit);
        }
        match builder.next() {
            Ok(()) => {},
            Err(e) => {
                return Err(e);
            },
        }
        let ghost armed = builder@;
        assert(armed.frames.last() == (FrameModel { shape: Shape::Tuple, items: none.push(a) }));
        self.1.to_dicey(builder)?;
        let ghost b = self.1.encoded()->Ok_0;
        proof {
            lemma_opened_step(outer, Shape::Tuple, none.push(a), b);
            lemma_opened_step(outer, Shape::Tuple, none.push(a).push(b), ValueModel::Unit);
        }
        match builder.next() {
            Ok(()) => {},
            Err(e) => {
                return Err(e);
            },
        }
        let ghost armed = builder@;
        assert(armed.frames.last() == (
        FrameModel { shape: Shape::Tuple, items: none.push(a).push(b) }));
        self.2.to_dicey(builder)?;
        let ghost c = self.2.encoded()->Ok_0;
        proof {
            lemma_opened_step(outer, Shape::Tuple, none.push(a).push(b), c);
            lemma_opened_end(outer, Shape::Tuple, none.push(a).push(b).push(c));
            assert(none.push(a).push(b).push(c) =~= seq![a, b, c]);
        }
        builder.tuple_end()
    }
}

impl ToDicey for Tuple {
    open spec fn kind_spec() -> Type {
        Type::Tuple
    }

    /// The slots are encoded as the tuple they are, if each of them is well
    /// formed.
    open spec fn encoded(&self) -> Result<ValueModel, Error> {
        if all_wf(self@) {
            Ok(ValueModel::Tuple(self@))
        } else {
            Err(Error::ValueTypeMismatch)
        }
    }

    proof fn lemma_encoded(&self) {
        lemma_wf_tuple(self@);
    }

    fn kind() -> (k: Type) {
        Type::Tuple
    }

    fn to_dicey(&self, builder: &mut ValueBuilder) -> (r: Result<(), Error>) {
        let ghost outer = builder@;
        let ghost shape = Shape::Tuple;
        builder.tuple_start()?;
        let ghost mut items: Seq<ValueModel> = Seq::empty();
        let mut i: usize = 0;
        while i < self.0.len()
            invariant
                i <= self.0.len(),
                builder.wf(),
                outer == old(builder)@,
                outer.armed,
                outer.accepts(Type::Tuple),
                shape == Shape::Tuple,
                builder@ == opened(outer, shape, items),
                items == self@.take(i as int),
                all_wf(items),
            decreases self.0.len() - i,
        {
            proof {
                lemma_opened_step(outer, shape, items, self@[i as int]);
            }
            match builder.next() {
                Ok(()) => {},
                Err(e) => {
                    return Err(e);
                },
            }
            let ghost armed = builder@;
            assert(self@[i as int] == self.0@[i as int]@);
            match builder.put(self.0[i].duplicate()) {
                Ok(()) => {
                    proof {
                        assert(self@.take(i + 1) =~= items.push(self@[i as int]));
                        items = items.push(self@[i as int]);
                    }
                },
                Err(e) => {
                    assert(!self@[i as int].wf());
                    return Err(e);
                },
            }
            i += 1;
        }
        proof {
            assert(self@.take(i as int) =~= self@);
            lemma_opened_end(outer, shape, items);
        }
        builder.tuple_end()
    }
}

} // verus!
