//! The records that cross the boundary to the wire engine, and the reader and
//! writer between them and [`ValueView`].
//!
//! The engine hands over a value as a numeric tag and an untyped payload.
//! Nothing about such a record is taken on trust: the reader checks the tag,
//! the shape of the payload, the encoding of every text and the homogeneity of
//! every array before a [`ValueView`] exists.

use vstd::prelude::*;
use vstd::slice::slice_to_vec;
use vstd::utf8::{decode_utf8, encode_utf8, valid_utf8};

use crate::error::Error;
use crate::trusted::{text_from_utf8, uuid_from_bytes, uuid_to_bytes};
use crate::value::{
    all_of_kind, all_wf, models, Byte, ErrorMessage, ErrorModel, Float, Path, Selector,
    SelectorModel, Type, ValueModel, ValueView,
};

verus! {

/// What a [`RawValue`] carries besides its tag.
#[derive(Debug, PartialEq)]
pub enum RawPayload {
    Empty,
    Bool(bool),
    Byte(u8),
    Float(u64),
    Int16(i16),
    Int32(i32),
    Int64(i64),
    UInt16(u16),
    UInt32(u32),
    UInt64(u64),
    /// The items of an array or a tuple, with the tag that the list declares
    /// for them.
    List { element_tag: u32, items: Vec<RawValue> },
    Pair(Box<RawValue>, Box<RawValue>),
    /// The octets of a blob, a string or a path, without a terminator.
    Bytes(Vec<u8>),
    Uuid([u8; 16]),
    Selector { trait_name: Vec<u8>, elem: Vec<u8> },
    Error { code: i16, message: Option<Vec<u8>> },
}

/// A value as the wire engine knows it: a type tag and a payload.
#[derive(Debug, PartialEq)]
pub struct RawValue {
    pub tag: u32,
    pub payload: RawPayload,
}

/// The model of a [`RawPayload`].
pub enum RawPayloadModel {
    Empty,
    Bool(bool),
    Byte(u8),
    Float(u64),
    Int16(i16),
    Int32(i32),
    Int64(i64),
    UInt16(u16),
    UInt32(u32),
    UInt64(u64),
    List { element_tag: u32, items: Seq<RawValueModel> },
    Pair(Box<RawValueModel>, Box<RawValueModel>),
    Bytes(Seq<u8>),
    Uuid(Seq<u8>),
    Selector { trait_name: Seq<u8>, elem: Seq<u8> },
    Error { code: i16, message: Option<Seq<u8>> },
}

/// The model of a [`RawValue`].
pub struct RawValueModel {
    pub tag: u32,
    pub payload: RawPayloadModel,
}

/// The models of a sequence of raw values, item by item.
pub open spec fn raw_models(items: Seq<RawValue>) -> Seq<RawValueModel> {
    Seq::new(items.len(), |i: int| items[i].model())
}

impl RawValue {
    pub open spec fn model(self) -> RawValueModel
        decreases self,
    {
        RawValueModel {
            tag: self.tag,
            payload: match self.payload {
                RawPayload::Empty => RawPayloadModel::Empty,
                RawPayload::Bool(b) => RawPayloadModel::Bool(b),
                RawPayload::Byte(b) => RawPayloadModel::Byte(b),
                RawPayload::Float(f) => RawPayloadModel::Float(f),
                RawPayload::Int16(i) => RawPayloadModel::Int16(i),
                RawPayload::Int32(i) => RawPayloadModel::Int32(i),
                RawPayload::Int64(i) => RawPayloadModel::Int64(i),
                RawPayload::UInt16(u) => RawPayloadModel::UInt16(u),
                RawPayload::UInt32(u) => RawPayloadModel::UInt32(u),
                RawPayload::UInt64(u) => RawPayloadModel::UInt64(u),
                RawPayload::List { element_tag, items } => RawPayloadModel::List {
                    element_tag,
                    items: Seq::new(
                        items@.len(),
                        |i: int|
                            if 0 <= i < items@.len() {
                                items@[i].model()
                            } else {
                                RawValueModel { tag: 0, payload: RawPayloadModel::Empty }
                            },
                    ),
                },
                RawPayload::Pair(first, second) => RawPayloadModel::Pair(
                    Box::new((*first).model()),
                    Box::new((*second).model()),
                ),
                RawPayload::Bytes(bytes) => RawPayloadModel::Bytes(bytes@),
                RawPayload::Uuid(bytes) => RawPayloadModel::Uuid(bytes@),
                RawPayload::Selector { trait_name, elem } => RawPayloadModel::Selector {
                    trait_name: trait_name@,
                    elem: elem@,
                },
                RawPayload::Error { code, message } => RawPayloadModel::Error {
                    code,
                    message: match message {
                        Some(m) => Some(m@),
                        None => None,
                    },
                },
            },
        }
    }

    /// The model of a list payload is made of the models of its items.
    pub proof fn lemma_model_items(self)
        ensures
            self.payload matches RawPayload::List { element_tag, items } ==> self.model().payload
                == (RawPayloadModel::List { element_tag, items: raw_models(items@) }),
    {
        match self.payload {
            RawPayload::List { element_tag, items } => {
                assert(self.model().payload->List_items =~= raw_models(items@));
            },
            _ => {},
        }
    }
}

impl View for RawValue {
    type V = RawValueModel;

    open spec fn view(&self) -> RawValueModel {
        self.model()
    }
}

/// The text that a byte string encodes, or `BadMessage` where it is not
/// well-formed UTF-8.
pub open spec fn decode_text(bytes: Seq<u8>) -> Result<Seq<char>, Error> {
    if valid_utf8(bytes) {
        Ok(decode_utf8(bytes))
    } else {
        Err(Error::BadMessage)
    }
}

/// What the reader makes of a raw value.
///
/// The tag decides. A tag that names no kind is `BadMessage`; a payload whose
/// shape is not the one the tag calls for is `ValueTypeMismatch`; a string, a
/// path or an error message that is not UTF-8 is `BadMessage`; an array whose
/// declared element tag names no kind is `InvalidData`, and one that holds an
/// item of another kind than it declares is `ValueTypeMismatch`. Inside a
/// composite the first item that fails decides the error.
pub open spec fn decode_value(raw: RawValueModel) -> Result<ValueModel, Error>
    decreases raw, 0nat,
{
    match Type::of_tag(raw.tag) {
        None => Err(Error::BadMessage),
        Some(Type::Unit) => Ok(ValueModel::Unit),
        Some(Type::Bool) => match raw.payload {
            RawPayloadModel::Bool(b) => Ok(ValueModel::Bool(b)),
            _ => Err(Error::ValueTypeMismatch),
        },
        Some(Type::Byte) => match raw.payload {
            RawPayloadModel::Byte(b) => Ok(ValueModel::Byte(b)),
            _ => Err(Error::ValueTypeMismatch),
        },
        Some(Type::Float) => match raw.payload {
            RawPayloadModel::Float(f) => Ok(ValueModel::Float(f)),
            _ => Err(Error::ValueTypeMismatch),
        },
        Some(Type::Int16) => match raw.payload {
            RawPayloadModel::Int16(i) => Ok(ValueModel::Int16(i)),
            _ => Err(Error::ValueTypeMismatch),
        },
        Some(Type::Int32) => match raw.payload {
            RawPayloadModel::Int32(i) => Ok(ValueModel::Int32(i)),
            _ => Err(Error::ValueTypeMismatch),
        },
        Some(Type::Int64) => match raw.payload {
            RawPayloadModel::Int64(i) => Ok(ValueModel::Int64(i)),
            _ => Err(Error::ValueTypeMismatch),
        },
        Some(Type::UInt16) => match raw.payload {
            RawPayloadModel::UInt16(u) => Ok(ValueModel::UInt16(u)),
            _ => Err(Error::ValueTypeMismatch),
        },
        Some(Type::UInt32) => match raw.payload {
            RawPayloadModel::UInt32(u) => Ok(ValueModel::UInt32(u)),
            _ => Err(Error::ValueTypeMismatch),
        },
        Some(Type::UInt64) => match raw.payload {
            RawPayloadModel::UInt64(u) => Ok(ValueModel::UInt64(u)),
            _ => Err(Error::ValueTypeMismatch),
        },
        Some(Type::Array) => match raw.payload {
            RawPayloadModel::List { element_tag, items } => match Type::of_tag(element_tag) {
                None => Err(Error::InvalidData),
                Some(element_kind) => match decode_prefix(items, items.len()) {
                    Err(e) => Err(e),
                    Ok(values) => if all_of_kind(values, element_kind) {
                        Ok(ValueModel::Array { element_kind, items: values })
                    } else {
                        Err(Error::ValueTypeMismatch)
                    },
                },
            },
            _ => Err(Error::ValueTypeMismatch),
        },
        Some(Type::Tuple) => match raw.payload {
            RawPayloadModel::List { element_tag, items } => match decode_prefix(
                items,
                items.len(),
            ) {
                Err(e) => Err(e),
                Ok(values) => Ok(ValueModel::Tuple(values)),
            },
            _ => Err(Error::ValueTypeMismatch),
        },
        Some(Type::Pair) => match raw.payload {
            RawPayloadModel::Pair(first, second) => match decode_value(*first) {
                Err(e) => Err(e),
                Ok(a) => match decode_value(*second) {
                    Err(e) => Err(e),
                    Ok(b) => Ok(ValueModel::Pair(Box::new(a), Box::new(b))),
                },
            },
            _ => Err(Error::ValueTypeMismatch),
        },
        Some(Type::Bytes) => match raw.payload {
            RawPayloadModel::Bytes(bytes) => Ok(ValueModel::Bytes(bytes)),
            _ => Err(Error::ValueTypeMismatch),
        },
        Some(Type::String) => match raw.payload {
            RawPayloadModel::Bytes(bytes) => match decode_text(bytes) {
                Ok(text) => Ok(ValueModel::String(text)),
                Err(e) => Err(e),
            },
            _ => Err(Error::ValueTypeMismatch),
        },
        Some(Type::Uuid) => match raw.payload {
            RawPayloadModel::Uuid(bytes) => Ok(ValueModel::Uuid(bytes)),
            _ => Err(Error::ValueTypeMismatch),
        },
        Some(Type::Path) => match raw.payload {
            RawPayloadModel::Bytes(bytes) => match decode_text(bytes) {
                Ok(text) => Ok(ValueModel::Path(text)),
                Err(e) => Err(e),
            },
            _ => Err(Error::ValueTypeMismatch),
        },
        Some(Type::Selector) => match raw.payload {
            RawPayloadModel::Selector { trait_name, elem } => Ok(
                ValueModel::Selector(SelectorModel { trait_name, elem }),
            ),
            _ => Err(Error::ValueTypeMismatch),
        },
        Some(Type::Error) => match raw.payload {
            RawPayloadModel::Error { code, message } => match message {
                None => Ok(ValueModel::Error(ErrorModel { code, message: None })),
                Some(bytes) => match decode_text(bytes) {
                    Ok(text) => Ok(ValueModel::Error(ErrorModel { code, message: Some(text) })),
                    Err(e) => Err(e),
                },
            },
            _ => Err(Error::ValueTypeMismatch),
        },
    }
}

/// What the reader makes of the first `n` items of a list: their values in
/// order, or the error of the first item that fails.
pub open spec fn decode_prefix(items: Seq<RawValueModel>, n: nat) -> Result<
    Seq<ValueModel>,
    Error,
>
    decreases items, n,
{
    if n == 0 || n > items.len() {
        Ok(Seq::empty())
    } else {
        match decode_prefix(items, (n - 1) as nat) {
            Err(e) => Err(e),
            Ok(front) => match decode_value(items[n - 1]) {
                Err(e) => Err(e),
                Ok(value) => Ok(front.push(value)),
            },
        }
    }
}

/// What the reader makes of a whole list.
pub open spec fn decode_list(items: Seq<RawValueModel>) -> Result<Seq<ValueModel>, Error> {
    decode_prefix(items, items.len())
}

/// A decoded prefix has one value for each item, each the item's own decoding.
pub proof fn lemma_decode_prefix(items: Seq<RawValueModel>, n: nat)
    requires
        n <= items.len(),
    ensures
        decode_prefix(items, n) matches Ok(values) ==> values.len() == n && forall|i: int|
            0 <= i < n ==> decode_value(#[trigger] items[i]) == Ok::<ValueModel, Error>(
                values[i],
            ),
        decode_prefix(items, n) is Err ==> exists|i: int|
            0 <= i < n && decode_value(#[trigger] items[i]) is Err,
    decreases n,
{
    if n > 0 {
        lemma_decode_prefix(items, (n - 1) as nat);
        match decode_prefix(items, (n - 1) as nat) {
            Err(e) => {},
            Ok(front) => {
                if decode_value(items[n - 1]) is Err {
                    assert(decode_value(items[n - 1]) is Err);
                }
            },
        }
    }
}

/// Whatever the reader accepts keeps the invariant of the data model.
pub proof fn lemma_decoded_is_wf(raw: RawValueModel)
    ensures
        decode_value(raw) matches Ok(value) ==> value.wf(),
    decreases raw, 0nat,
{
    match decode_value(raw) {
        Ok(value) => {
            match raw.payload {
                RawPayloadModel::List { element_tag, items } => {
                    lemma_decoded_prefix_is_wf(items, items.len());
                },
                RawPayloadModel::Pair(first, second) => {
                    lemma_decoded_is_wf(*first);
                    lemma_decoded_is_wf(*second);
                },
                _ => {},
            }
        },
        Err(_) => {},
    }
}

/// Whatever the reader accepts of a list keeps the invariant of the data
/// model.
pub proof fn lemma_decoded_prefix_is_wf(items: Seq<RawValueModel>, n: nat)
    ensures
        decode_prefix(items, n) matches Ok(values) ==> all_wf(values),
    decreases items, n,
{
    if n == 0 || n > items.len() {
    } else {
        lemma_decoded_prefix_is_wf(items, (n - 1) as nat);
        lemma_decoded_is_wf(items[n - 1]);
    }
}

/// The raw value that the writer makes of a value: the kind's tag and the
/// payload in the shape the tag calls for. Texts are written as their UTF-8
/// bytes; a tuple's list declares no element tag.
pub open spec fn raw_of(value: ValueModel) -> RawValueModel
    decreases value,
{
    RawValueModel {
        tag: value.kind().tag(),
        payload: match value {
            ValueModel::Unit => RawPayloadModel::Empty,
            ValueModel::Bool(b) => RawPayloadModel::Bool(b),
            ValueModel::Byte(b) => RawPayloadModel::Byte(b),
            ValueModel::Float(f) => RawPayloadModel::Float(f),
            ValueModel::Int16(i) => RawPayloadModel::Int16(i),
            ValueModel::Int32(i) => RawPayloadModel::Int32(i),
            ValueModel::Int64(i) => RawPayloadModel::Int64(i),
            ValueModel::UInt16(u) => RawPayloadModel::UInt16(u),
            ValueModel::UInt32(u) => RawPayloadModel::UInt32(u),
            ValueModel::UInt64(u) => RawPayloadModel::UInt64(u),
            ValueModel::Array { element_kind, items } => RawPayloadModel::List {
                element_tag: element_kind.tag(),
                items: Seq::new(
                    items.len(),
                    |i: int|
                        if 0 <= i < items.len() {
                            raw_of(items[i])
                        } else {
                            RawValueModel { tag: 0, payload: RawPayloadModel::Empty }
                        },
                ),
            },
            ValueModel::Tuple(items) => RawPayloadModel::List {
                element_tag: 0,
                items: Seq::new(
                    items.len(),
                    |i: int|
                        if 0 <= i < items.len() {
                            raw_of(items[i])
                        } else {
                            RawValueModel { tag: 0, payload: RawPayloadModel::Empty }
                        },
                ),
            },
            ValueModel::Pair(first, second) => RawPayloadModel::Pair(
                Box::new(raw_of(*first)),
                Box::new(raw_of(*second)),
            ),
            ValueModel::Bytes(bytes) => RawPayloadModel::Bytes(bytes),
            ValueModel::String(text) => RawPayloadModel::Bytes(encode_utf8(text)),
            ValueModel::Uuid(bytes) => RawPayloadModel::Uuid(bytes),
            ValueModel::Path(text) => RawPayloadModel::Bytes(encode_utf8(text)),
            ValueModel::Selector(s) => RawPayloadModel::Selector {
                trait_name: s.trait_name,
                elem: s.elem,
            },
            ValueModel::Error(e) => RawPayloadModel::Error {
                code: e.code,
                message: match e.message {
                    Some(text) => Some(encode_utf8(text)),
                    None => None,
                },
            },
        },
    }
}

/// The raw values that the writer makes of a sequence of values.
pub open spec fn raws_of(items: Seq<ValueModel>) -> Seq<RawValueModel> {
    Seq::new(items.len(), |i: int| raw_of(items[i]))
}

/// Reading what the writer wrote gives the value back: for every well-formed
/// value `v`, the reader accepts `raw_of(v)` and returns `v`.
pub proof fn lemma_read_after_write(value: ValueModel)
    requires
        value.wf(),
    ensures
        decode_value(raw_of(value)) == Ok::<ValueModel, Error>(value),
    decreases value,
{
    broadcast use vstd::utf8::encode_utf8_valid_utf8, vstd::utf8::encode_utf8_decode_utf8;

    value.kind().lemma_tag_round_trip();
    match value {
        ValueModel::Array { element_kind, items } => {
            element_kind.lemma_tag_round_trip();
            let raws = raw_of(value).payload->List_items;
            assert(raws.len() == items.len());
            lemma_read_after_write_prefix(items, raws, items.len());
            assert(decode_prefix(raws, raws.len())->Ok_0 =~= items);
        },
        ValueModel::Tuple(items) => {
            let raws = raw_of(value).payload->List_items;
            assert(raws.len() == items.len());
            lemma_read_after_write_prefix(items, raws, items.len());
            assert(decode_prefix(raws, raws.len())->Ok_0 =~= items);
        },
        ValueModel::Pair(first, second) => {
            lemma_read_after_write(*first);
            lemma_read_after_write(*second);
        },
        ValueModel::String(text) => {
            assert(valid_utf8(encode_utf8(text)));
            assert(decode_utf8(encode_utf8(text)) == text);
        },
        ValueModel::Path(text) => {
            assert(valid_utf8(encode_utf8(text)));
            assert(decode_utf8(encode_utf8(text)) == text);
        },
        ValueModel::Error(e) => {
            match e.message {
                Some(text) => {
                    assert(valid_utf8(encode_utf8(text)));
                    assert(decode_utf8(encode_utf8(text)) == text);
                },
                None => {},
            }
        },
        _ => {},
    }
}

/// The list form of [`lemma_read_after_write`].
pub proof fn lemma_read_after_write_prefix(
    items: Seq<ValueModel>,
    raws: Seq<RawValueModel>,
    n: nat,
)
    requires
        all_wf(items),
        raws.len() == items.len(),
        forall|i: int| 0 <= i < items.len() ==> #[trigger] raws[i] == raw_of(items[i]),
        n <= items.len(),
    ensures
        decode_prefix(raws, n) == Ok::<Seq<ValueModel>, Error>(items.take(n as int)),
    decreases items, n,
{
    if n == 0 {
        assert(items.take(0) =~= Seq::<ValueModel>::empty());
    } else {
        lemma_read_after_write_prefix(items, raws, (n - 1) as nat);
        lemma_read_after_write(items[n - 1]);
        assert(raws[n - 1] == raw_of(items[n - 1]));
        assert(items.take(n as int) =~= items.take(n - 1).push(items[n - 1]));
    }
}

impl ValueView {
    /// Reads a raw value handed over by the wire engine into a value tree.
    ///
    /// The result is exactly [`decode_value`] of the record: the tree on
    /// success, and otherwise the error of the first thing found wrong.
    pub fn try_from(raw: &RawValue) -> (r: Result<ValueView, Error>)
        ensures
            match r {
                Ok(value) => decode_value(raw@) == Ok::<ValueModel, Error>(value@) && value@.wf(),
                Err(e) => decode_value(raw@) == Err::<ValueModel, Error>(e),
            },
        decreases *raw,
    {
        proof {
            lemma_decoded_is_wf(raw@);
            raw.lemma_model_items();
        }
        let kind = match Type::try_from(raw.tag) {
            Ok(kind) => kind,
            Err(_) => {
                return Err(Error::BadMessage);
            },
        };
        match kind {
            Type::Unit => Ok(ValueView::Unit),
            Type::Bool => match &raw.payload {
                RawPayload::Bool(b) => Ok(ValueView::Bool(*b)),
                _ => Err(Error::ValueTypeMismatch),
            },
            Type::Byte => match &raw.payload {
                RawPayload::Byte(b) => Ok(ValueView::Byte(Byte(*b))),
                _ => Err(Error::ValueTypeMismatch),
            },
            Type::Float => match &raw.payload {
                RawPayload::Float(f) => Ok(ValueView::Float(Float(*f))),
                _ => Err(Error::ValueTypeMismatch),
            },
            Type::Int16 => match &raw.payload {
                RawPayload::Int16(i) => Ok(ValueView::Int16(*i)),
                _ => Err(Error::ValueTypeMismatch),
            },
            Type::Int32 => match &raw.payload {
                RawPayload::Int32(i) => Ok(ValueView::Int32(*i)),
                _ => Err(Error::ValueTypeMismatch),
            },
            Type::Int64 => match &raw.payload {
                RawPayload::Int64(i) => Ok(ValueView::Int64(*i)),
                _ => Err(Error::ValueTypeMismatch),
            },
            Type::UInt16 => match &raw.payload {
                RawPayload::UInt16(u) => Ok(ValueView::UInt16(*u)),
                _ => Err(Error::ValueTypeMismatch),
            },
            Type::UInt32 => match &raw.payload {
                RawPayload::UInt32(u) => Ok(ValueView::UInt32(*u)),
                _ => Err(Error::ValueTypeMismatch),
            },
            Type::UInt64 => match &raw.payload {
                RawPayload::UInt64(u) => Ok(ValueView::UInt64(*u)),
                _ => Err(Error::ValueTypeMismatch),
            },
            Type::Array => match &raw.payload {
                RawPayload::List { element_tag, items } => {
                    let element_kind = Type::try_from(*element_tag)?;
                    let values = extract_list(items)?;
                    if !all_have_kind(&values, element_kind) {
                        return Err(Error::ValueTypeMismatch);
                    }
                    let value = ValueView::Array { element_kind, items: values };
                    proof {
                        value.lemma_model_items();
                    }
                    Ok(value)
                },
                _ => Err(Error::ValueTypeMismatch),
            },
            Type::Tuple => match &raw.payload {
                RawPayload::List { element_tag, items } => {
                    let values = extract_list(items)?;
                    let value = ValueView::Tuple(values);
                    proof {
                        value.lemma_model_items();
                    }
                    Ok(value)
                },
                _ => Err(Error::ValueTypeMismatch),
            },
            Type::Pair => match &raw.payload {
                RawPayload::Pair(first, second) => {
                    let a = ValueView::try_from(first)?;
                    let b = ValueView::try_from(second)?;
                    Ok(ValueView::Pair(Box::new(a), Box::new(b)))
                },
                _ => Err(Error::ValueTypeMismatch),
            },
            Type::Bytes => match &raw.payload {
                RawPayload::Bytes(bytes) => Ok(ValueView::Bytes(bytes.clone())),
                _ => Err(Error::ValueTypeMismatch),
            },
            Type::String => match &raw.payload {
                RawPayload::Bytes(bytes) => {
                    let text = read_text(bytes)?;
                    Ok(ValueView::String(text))
                },
                _ => Err(Error::ValueTypeMismatch),
            },
            Type::Uuid => match &raw.payload {
                RawPayload::Uuid(bytes) => Ok(ValueView::Uuid(uuid_from_bytes(*bytes))),
                _ => Err(Error::ValueTypeMismatch),
            },
            Type::Path => match &raw.payload {
                RawPayload::Bytes(bytes) => {
                    let text = read_text(bytes)?;
                    Ok(ValueView::Path(Path(text)))
                },
                _ => Err(Error::ValueTypeMismatch),
            },
            Type::Selector => match &raw.payload {
                RawPayload::Selector { trait_name, elem } => Ok(
                    ValueView::Selector(
                        Selector { trait_name: trait_name.clone(), elem: elem.clone() },
                    ),
                ),
                _ => Err(Error::ValueTypeMismatch),
            },
            Type::Error => match &raw.payload {
                RawPayload::Error { code, message } => {
                    let message = match message {
                        None => None,
                        Some(bytes) => Some(read_text(bytes)?),
                    };
                    Ok(ValueView::Error(ErrorMessage { code: *code, message }))
                },
                _ => Err(Error::ValueTypeMismatch),
            },
        }
    }

    /// Writes the value tree as the raw value that the wire engine takes.
    pub fn to_raw(&self) -> (raw: RawValue)
        ensures
            raw@ == raw_of(self@),
        decreases *self,
    {
        let tag = self.kind().to_c();
        let payload = match self {
            ValueView::Unit => RawPayload::Empty,
            ValueView::Bool(b) => RawPayload::Bool(*b),
            ValueView::Byte(b) => RawPayload::Byte(b.0),
            ValueView::Float(f) => RawPayload::Float(f.0),
            ValueView::Int16(i) => RawPayload::Int16(*i),
            ValueView::Int32(i) => RawPayload::Int32(*i),
            ValueView::Int64(i) => RawPayload::Int64(*i),
            ValueView::UInt16(u) => RawPayload::UInt16(*u),
            ValueView::UInt32(u) => RawPayload::UInt32(*u),
            ValueView::UInt64(u) => RawPayload::UInt64(*u),
            ValueView::Array { element_kind, items } => RawPayload::List {
                element_tag: element_kind.to_c(),
                items: write_list(items),
            },
            ValueView::Tuple(items) => RawPayload::List { element_tag: 0, items: write_list(items) },
            ValueView::Pair(first, second) => RawPayload::Pair(
                Box::new(first.to_raw()),
                Box::new(second.to_raw()),
            ),
            ValueView::Bytes(bytes) => RawPayload::Bytes(bytes.clone()),
            ValueView::String(s) => RawPayload::Bytes(slice_to_vec(s.as_str().as_bytes())),
            ValueView::Uuid(id) => RawPayload::Uuid(uuid_to_bytes(id)),
            ValueView::Path(p) => RawPayload::Bytes(slice_to_vec(p.as_str().as_bytes())),
            ValueView::Selector(s) => RawPayload::Selector {
                trait_name: s.trait_name.clone(),
                elem: s.elem.clone(),
            },
            ValueView::Error(e) => RawPayload::Error {
                code: e.code,
                message: match &e.message {
                    Some(m) => Some(slice_to_vec(m.as_str().as_bytes())),
                    None => None,
                },
            },
        };
        let raw = RawValue { tag, payload };
        proof {
            self.lemma_model_items();
            raw.lemma_model_items();
            match self {
                ValueView::Array { element_kind, items } => {
                    assert(raw@.payload->List_items =~= raw_of(self@).payload->List_items);
                },
                ValueView::Tuple(items) => {
                    assert(raw@.payload->List_items =~= raw_of(self@).payload->List_items);
                },
                _ => {},
            }
        }
        raw
    }
}

/// Reads a byte string as text.
fn read_text(bytes: &Vec<u8>) -> (r: Result<String, Error>)
    ensures
        match r {
            Ok(text) => decode_text(bytes@) == Ok::<Seq<char>, Error>(text@),
            Err(e) => decode_text(bytes@) == Err::<Seq<char>, Error>(e),
        },
{
    match text_from_utf8(bytes.clone()) {
        Some(text) => Ok(text),
        None => Err(Error::BadMessage),
    }
}

/// Whether every value of a vector has the given kind.
fn all_have_kind(values: &Vec<ValueView>, kind: Type) -> (r: bool)
    ensures
        r == all_of_kind(models(values@), kind),
{
    let mut i: usize = 0;
    while i < values.len()
        invariant
            i <= values.len(),
            forall|k: int| 0 <= k < i ==> (#[trigger] models(values@)[k]).kind() == kind,
        decreases values.len() - i,
    {
        if values[i].kind() != kind {
            assert(models(values@)[i as int].kind() != kind);
            return false;
        }
        i += 1;
    }
    true
}

/// Reads the items of a list in order, stopping at the first that fails.
pub fn extract_list(items: &Vec<RawValue>) -> (r: Result<Vec<ValueView>, Error>)
    ensures
        match r {
            Ok(values) => decode_list(raw_models(items@)) == Ok::<Seq<ValueModel>, Error>(
                models(values@),
            ) && all_wf(models(values@)),
            Err(e) => decode_list(raw_models(items@)) == Err::<Seq<ValueModel>, Error>(e),
        },
    decreases items,
{
    let ghost raws = raw_models(items@);
    let mut values: Vec<ValueView> = Vec::new();
    let mut i: usize = 0;
    assert(models(values@) =~= Seq::<ValueModel>::empty());
    while i < items.len()
        invariant
            i <= items.len(),
            raws == raw_models(items@),
            decode_prefix(raws, i as nat) == Ok::<Seq<ValueModel>, Error>(models(values@)),
            all_wf(models(values@)),
        decreases items.len() - i,
    {
        let ghost before = models(values@);
        match ValueView::try_from(&items[i]) {
            Ok(value) => {
                values.push(value);
                proof {
                    assert(raws[i as int] == items@[i as int]@);
                    assert(models(values@) =~= before.push(value@));
                }
            },
            Err(e) => {
                proof {
                    assert(raws[i as int] == items@[i as int]@);
                    lemma_prefix_error_stays(raws, (i + 1) as nat, raws.len());
                }
                return Err(e);
            },
        }
        i += 1;
    }
    Ok(values)
}

/// Once a prefix fails, every longer prefix fails with the same error.
pub proof fn lemma_prefix_error_stays(items: Seq<RawValueModel>, n: nat, m: nat)
    requires
        n <= m <= items.len(),
        decode_prefix(items, n) is Err,
    ensures
        decode_prefix(items, m) == decode_prefix(items, n),
    decreases m,
{
    if n < m {
        lemma_prefix_error_stays(items, n, (m - 1) as nat);
    }
}

/// Writes the values of a vector in order.
pub fn write_list(items: &Vec<ValueView>) -> (raws: Vec<RawValue>)
    ensures
        raw_models(raws@) == raws_of(models(items@)),
    decreases items,
{
    let mut raws: Vec<RawValue> = Vec::new();
    let mut i: usize = 0;
    while i < items.len()
        invariant
            i <= items.len(),
            raws.len() == i,
            forall|k: int| 0 <= k < i ==> (#[trigger] raws@[k])@ == raw_of(items@[k]@),
        decreases items.len() - i,
    {
        let raw = items[i].to_raw();
        raws.push(raw);
        i += 1;
    }
    assert(raw_models(raws@) =~= raws_of(models(items@)));
    raws
}

} // verus!
