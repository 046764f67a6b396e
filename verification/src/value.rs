//! The self-describing value: its kinds, its tree, and the mathematical model
//! that every contract in this crate speaks of.

use vstd::prelude::*;

use crate::error::Error;
use crate::trusted::uuid_bytes;
use uuid::Uuid;

verus! {

/// The kind of a value.
#[derive(Clone, Copy, Debug, PartialEq, Eq, Structural)]
pub enum Type {
    Unit,
    Bool,
    Byte,
    Float,
    Int16,
    Int32,
    Int64,
    UInt16,
    UInt32,
    UInt64,
    Array,
    Tuple,
    Pair,
    Bytes,
    String,
    Uuid,
    Path,
    Selector,
    Error,
}

pub const TAG_UNIT: u32 = 0x24;

pub const TAG_BOOL: u32 = 0x62;

pub const TAG_BYTE: u32 = 0x63;

pub const TAG_FLOAT: u32 = 0x66;

pub const TAG_INT16: u32 = 0x6e;

pub const TAG_INT32: u32 = 0x69;

pub const TAG_INT64: u32 = 0x78;

pub const TAG_UINT16: u32 = 0x71;

pub const TAG_UINT32: u32 = 0x75;

pub const TAG_UINT64: u32 = 0x74;

pub const TAG_ARRAY: u32 = 0x5b;

pub const TAG_TUPLE: u32 = 0x28;

pub const TAG_PAIR: u32 = 0x7b;

pub const TAG_BYTES: u32 = 0x79;

pub const TAG_STR: u32 = 0x73;

pub const TAG_UUID: u32 = 0x23;

pub const TAG_PATH: u32 = 0x40;

pub const TAG_SELECTOR: u32 = 0x25;

pub const TAG_ERROR: u32 = 0x65;

impl Type {
    /// The number by which the wire engine names this kind.
    pub open spec fn tag(self) -> u32 {
        match self {
            Type::Unit => TAG_UNIT,
            Type::Bool => TAG_BOOL,
            Type::Byte => TAG_BYTE,
            Type::Float => TAG_FLOAT,
            Type::Int16 => TAG_INT16,
            Type::Int32 => TAG_INT32,
            Type::Int64 => TAG_INT64,
            Type::UInt16 => TAG_UINT16,
            Type::UInt32 => TAG_UINT32,
            Type::UInt64 => TAG_UINT64,
            Type::Array => TAG_ARRAY,
            Type::Tuple => TAG_TUPLE,
            Type::Pair => TAG_PAIR,
            Type::Bytes => TAG_BYTES,
            Type::String => TAG_STR,
            Type::Uuid => TAG_UUID,
            Type::Path => TAG_PATH,
            Type::Selector => TAG_SELECTOR,
            Type::Error => TAG_ERROR,
        }
    }

    /// The kind that a tag names, if it names one.
    pub open spec fn of_tag(tag: u32) -> Option<Type> {
        if tag == TAG_UNIT {
            Some(Type::Unit)
        } else if tag == TAG_BOOL {
            Some(Type::Bool)
        } else if tag == TAG_BYTE {
            Some(Type::Byte)
        } else if tag == TAG_FLOAT {
            Some(Type::Float)
        } else if tag == TAG_INT16 {
            Some(Type::Int16)
        } else if tag == TAG_INT32 {
            Some(Type::Int32)
        } else if tag == TAG_INT64 {
            Some(Type::Int64)
        } else if tag == TAG_UINT16 {
            Some(Type::UInt16)
        } else if tag == TAG_UINT32 {
            Some(Type::UInt32)
        } else if tag == TAG_UINT64 {
            Some(Type::UInt64)
        } else if tag == TAG_ARRAY {
            Some(Type::Array)
        } else if tag == TAG_TUPLE {
            Some(Type::Tuple)
        } else if tag == TAG_PAIR {
            Some(Type::Pair)
        } else if tag == TAG_BYTES {
            Some(Type::Bytes)
        } else if tag == TAG_STR {
            Some(Type::String)
        } else if tag == TAG_UUID {
            Some(Type::Uuid)
        } else if tag == TAG_PATH {
            Some(Type::Path)
        } else if tag == TAG_SELECTOR {
            Some(Type::Selector)
        } else if tag == TAG_ERROR {
            Some(Type::Error)
        } else {
            None
        }
    }

    /// Every kind is found again from its tag, and a tag names at most one
    /// kind.
    pub proof fn lemma_tag_round_trip(self)
        ensures
            Type::of_tag(self.tag()) == Some(self),
    {
    }

    /// A tag that names a kind is that kind's tag.
    pub proof fn lemma_of_tag_is_tag(tag: u32)
        ensures
            Type::of_tag(tag) matches Some(t) ==> t.tag() == tag,
    {
    }

    /// The engine's tag for this kind.
    pub fn to_c(self) -> (tag: u32)
        ensures
            tag == self.tag(),
    {
        match self {
            Type::Unit => TAG_UNIT,
            Type::Bool => TAG_BOOL,
            Type::Byte => TAG_BYTE,
            Type::Float => TAG_FLOAT,
            Type::Int16 => TAG_INT16,
            Type::Int32 => TAG_INT32,
            Type::Int64 => TAG_INT64,
            Type::UInt16 => TAG_UINT16,
            Type::UInt32 => TAG_UINT32,
            Type::UInt64 => TAG_UINT64,
            Type::Array => TAG_ARRAY,
            Type::Tuple => TAG_TUPLE,
            Type::Pair => TAG_PAIR,
            Type::Bytes => TAG_BYTES,
            Type::String => TAG_STR,
            Type::Uuid => TAG_UUID,
            Type::Path => TAG_PATH,
            Type::Selector => TAG_SELECTOR,
            Type::Error => TAG_ERROR,
        }
    }

    /// The kind named by an engine tag; `InvalidData` for a tag that names
    /// none.
    pub fn try_from(value: u32) -> (r: Result<Type, Error>)
        ensures
            r == match Type::of_tag(value) {
                Some(t) => Ok::<Type, Error>(t),
                None => Err::<Type, Error>(Error::InvalidData),
            },
    {
        if value == TAG_UNIT {
            Ok(Type::Unit)
        } else if value == TAG_BOOL {
            Ok(Type::Bool)
        } else if value == TAG_BYTE {
            Ok(Type::Byte)
        } else if value == TAG_FLOAT {
            Ok(Type::Float)
        } else if value == TAG_INT16 {
            Ok(Type::Int16)
        } else if value == TAG_INT32 {
            Ok(Type::Int32)
        } else if value == TAG_INT64 {
            Ok(Type::Int64)
        } else if value == TAG_UINT16 {
            Ok(Type::UInt16)
        } else if value == TAG_UINT32 {
            Ok(Type::UInt32)
        } else if value == TAG_UINT64 {
            Ok(Type::UInt64)
        } else if value == TAG_ARRAY {
            Ok(Type::Array)
        } else if value == TAG_TUPLE {
            Ok(Type::Tuple)
        } else if value == TAG_PAIR {
            Ok(Type::Pair)
        } else if value == TAG_BYTES {
            Ok(Type::Bytes)
        } else if value == TAG_STR {
            Ok(Type::String)
        } else if value == TAG_UUID {
            Ok(Type::Uuid)
        } else if value == TAG_PATH {
            Ok(Type::Path)
        } else if value == TAG_SELECTOR {
            Ok(Type::Selector)
        } else if value == TAG_ERROR {
            Ok(Type::Error)
        } else {
            Err(Error::InvalidData)
        }
    }
}

/// One octet, as a value of its own kind (distinct from the integers).
#[derive(Clone, Copy, Debug, PartialEq, Eq, Structural)]
pub struct Byte(pub u8);

impl Byte {
    pub fn new(byte: u8) -> (b: Byte)
        ensures
            b.0 == byte,
    {
        Byte(byte)
    }

    pub fn get(self) -> (byte: u8)
        ensures
            byte == self.0,
    {
        self.0
    }
}

/// A double-precision number, held as its IEEE 754 bit pattern so that it
/// survives a round trip bit for bit.
#[derive(Clone, Copy, Debug, PartialEq, Eq, Structural)]
pub struct Float(pub u64);

impl Float {
    pub fn from_bits(bits: u64) -> (f: Float)
        ensures
            f.0 == bits,
    {
        Float(bits)
    }

    pub fn to_bits(self) -> (bits: u64)
        ensures
            bits == self.0,
    {
        self.0
    }
}

/// An object path: text by representation, an address by role.
#[derive(Debug, PartialEq, Eq)]
pub struct Path(pub String);

impl View for Path {
    type V = Seq<char>;

    open spec fn view(&self) -> Seq<char> {
        self.0@
    }
}

impl Path {
    pub fn new(path: &str) -> (p: Path)
        ensures
            p@ == path@,
    {
        Path(path.to_owned())
    }

    pub fn as_str(&self) -> (s: &str)
        ensures
            s@ == self@,
    {
        self.0.as_str()
    }

}

impl Clone for Path {
    fn clone(&self) -> (p: Path)
        ensures
            p@ == self@,
    {
        Path(self.0.clone())
    }
}

/// The model of a [`Selector`]: two byte strings.
pub struct SelectorModel {
    pub trait_name: Seq<u8>,
    pub elem: Seq<u8>,
}

/// The name of one operation, property or signal: the interface that declares
/// it and its own name.
#[derive(Debug, PartialEq, Eq)]
pub struct Selector {
    pub trait_name: Vec<u8>,
    pub elem: Vec<u8>,
}

impl View for Selector {
    type V = SelectorModel;

    open spec fn view(&self) -> SelectorModel {
        SelectorModel { trait_name: self.trait_name@, elem: self.elem@ }
    }
}

impl Selector {
    /// The selector made of the UTF-8 bytes of two names.
    pub fn new(trait_name: &str, elem: &str) -> (s: Selector)
        ensures
            s@.trait_name == vstd::utf8::encode_utf8(trait_name@),
            s@.elem == vstd::utf8::encode_utf8(elem@),
    {
        Selector {
            trait_name: vstd::slice::slice_to_vec(trait_name.as_bytes()),
            elem: vstd::slice::slice_to_vec(elem.as_bytes()),
        }
    }

    /// The selector made of two byte strings.
    pub fn from_bytes(trait_name: &[u8], elem: &[u8]) -> (s: Selector)
        ensures
            s@.trait_name == trait_name@,
            s@.elem == elem@,
    {
        Selector {
            trait_name: vstd::slice::slice_to_vec(trait_name),
            elem: vstd::slice::slice_to_vec(elem),
        }
    }

}

impl Clone for Selector {
    fn clone(&self) -> (s: Selector)
        ensures
            s@ == self@,
    {
        Selector { trait_name: self.trait_name.clone(), elem: self.elem.clone() }
    }
}

/// The model of an [`ErrorMessage`].
pub struct ErrorModel {
    pub code: i16,
    pub message: Option<Seq<char>>,
}

/// A structured error carried as a value: a code and, optionally, words for a
/// human.
#[derive(Debug, PartialEq, Eq)]
pub struct ErrorMessage {
    pub code: i16,
    pub message: Option<String>,
}

impl View for ErrorMessage {
    type V = ErrorModel;

    open spec fn view(&self) -> ErrorModel {
        ErrorModel {
            code: self.code,
            message: match self.message {
                Some(m) => Some(m@),
                None => None,
            },
        }
    }
}

impl ErrorMessage {
    pub fn new(code: i16, message: Option<String>) -> (e: ErrorMessage)
        ensures
            e.code == code,
            e.message == message,
    {
        ErrorMessage { code, message }
    }

}

impl Clone for ErrorMessage {
    fn clone(&self) -> (e: ErrorMessage)
        ensures
            e@ == self@,
    {
        ErrorMessage {
            code: self.code,
            message: match &self.message {
                Some(m) => Some(m.clone()),
                None => None,
            },
        }
    }
}

/// The mathematical value that a [`ValueView`] stands for.
pub enum ValueModel {
    Unit,
    Bool(bool),
    Byte(u8),
    Float(u64),
    Int16(i16),
    Int32(i32),
    Int64(i64),
    UInt16(u16),
    UInt32(u32),
    UInt64(u64),
    Array { element_kind: Type, items: Seq<ValueModel> },
    Tuple(Seq<ValueModel>),
    Pair(Box<ValueModel>, Box<ValueModel>),
    Bytes(Seq<u8>),
    String(Seq<char>),
    Uuid(Seq<u8>),
    Path(Seq<char>),
    Selector(SelectorModel),
    Error(ErrorModel),
}

impl ValueModel {
    pub open spec fn kind(self) -> Type {
        match self {
            ValueModel::Unit => Type::Unit,
            ValueModel::Bool(_) => Type::Bool,
            ValueModel::Byte(_) => Type::Byte,
            ValueModel::Float(_) => Type::Float,
            ValueModel::Int16(_) => Type::Int16,
            ValueModel::Int32(_) => Type::Int32,
            ValueModel::Int64(_) => Type::Int64,
            ValueModel::UInt16(_) => Type::UInt16,
            ValueModel::UInt32(_) => Type::UInt32,
            ValueModel::UInt64(_) => Type::UInt64,
            ValueModel::Array { .. } => Type::Array,
            ValueModel::Tuple(_) => Type::Tuple,
            ValueModel::Pair(_, _) => Type::Pair,
            ValueModel::Bytes(_) => Type::Bytes,
            ValueModel::String(_) => Type::String,
            ValueModel::Uuid(_) => Type::Uuid,
            ValueModel::Path(_) => Type::Path,
            ValueModel::Selector(_) => Type::Selector,
            ValueModel::Error(_) => Type::Error,
        }
    }

    /// Whether the value keeps the invariant of the data model, at every depth:
    /// the items of an array all have the kind that the array declares.
    pub open spec fn wf(self) -> bool
        decreases self,
    {
        match self {
            ValueModel::Array { element_kind, items } => forall|i: int|
                0 <= i < items.len() ==> (#[trigger] items[i]).kind() == element_kind
                    && items[i].wf(),
            ValueModel::Tuple(items) => forall|i: int|
                0 <= i < items.len() ==> (#[trigger] items[i]).wf(),
            ValueModel::Pair(first, second) => (*first).wf() && (*second).wf(),
            _ => true,
        }
    }
}

/// Whether every value of a sequence is well formed.
pub open spec fn all_wf(items: Seq<ValueModel>) -> bool {
    forall|i: int| 0 <= i < items.len() ==> (#[trigger] items[i]).wf()
}

/// Whether every value of a sequence has the given kind.
pub open spec fn all_of_kind(items: Seq<ValueModel>, kind: Type) -> bool {
    forall|i: int| 0 <= i < items.len() ==> (#[trigger] items[i]).kind() == kind
}

/// An array is well formed exactly when its items are, and all have the kind
/// it declares.
pub proof fn lemma_wf_array(element_kind: Type, items: Seq<ValueModel>)
    ensures
        (ValueModel::Array { element_kind, items }).wf() <==> all_wf(items) && all_of_kind(
            items,
            element_kind,
        ),
{
    let array = ValueModel::Array { element_kind, items };
    if array.wf() {
        assert forall|i: int| 0 <= i < items.len() implies (#[trigger] items[i]).wf() by {}
        assert forall|i: int| 0 <= i < items.len() implies (#[trigger] items[i]).kind()
            == element_kind by {}
    }
    if all_wf(items) && all_of_kind(items, element_kind) {
        assert forall|i: int| 0 <= i < items.len() implies (#[trigger] items[i]).kind()
            == element_kind && items[i].wf() by {}
    }
}

/// A tuple is well formed exactly when its slots are.
pub proof fn lemma_wf_tuple(items: Seq<ValueModel>)
    ensures
        ValueModel::Tuple(items).wf() <==> all_wf(items),
{
    reveal_with_fuel(ValueModel::wf, 2);
    let tuple = ValueModel::Tuple(items);
    if tuple.wf() {
        assert forall|i: int| 0 <= i < items.len() implies (#[trigger] items[i]).wf() by {}
    }
    if all_wf(items) {
        assert forall|i: int| 0 <= i < items.len() implies (#[trigger] items[i]).wf() by {}
    }
}

/// A value of the protocol: a tree whose leaves are scalars, blobs, text,
/// identifiers, paths, selectors and errors, and whose inner nodes are arrays,
/// tuples and pairs.
#[derive(Debug, PartialEq)]
pub enum ValueView {
    Unit,
    Bool(bool),
    Byte(Byte),
    Float(Float),
    Int16(i16),
    Int32(i32),
    Int64(i64),
    UInt16(u16),
    UInt32(u32),
    UInt64(u64),
    Array { element_kind: Type, items: Vec<ValueView> },
    Tuple(Vec<ValueView>),
    Pair(Box<ValueView>, Box<ValueView>),
    Bytes(Vec<u8>),
    String(String),
    Uuid(Uuid),
    Path(Path),
    Selector(Selector),
    Error(ErrorMessage),
}

/// The models of a sequence of values, item by item.
pub open spec fn models(items: Seq<ValueView>) -> Seq<ValueModel> {
    Seq::new(items.len(), |i: int| items[i].model())
}

impl ValueView {
    /// The mathematical value of the tree.
    pub open spec fn model(self) -> ValueModel
        decreases self,
    {
        match self {
            ValueView::Unit => ValueModel::Unit,
            ValueView::Bool(b) => ValueModel::Bool(b),
            ValueView::Byte(b) => ValueModel::Byte(b.0),
            ValueView::Float(f) => ValueModel::Float(f.0),
            ValueView::Int16(i) => ValueModel::Int16(i),
            ValueView::Int32(i) => ValueModel::Int32(i),
            ValueView::Int64(i) => ValueModel::Int64(i),
            ValueView::UInt16(u) => ValueModel::UInt16(u),
            ValueView::UInt32(u) => ValueModel::UInt32(u),
            ValueView::UInt64(u) => ValueModel::UInt64(u),
            ValueView::Array { element_kind, items } => ValueModel::Array {
                element_kind,
                items: Seq::new(
                    items@.len(),
                    |i: int|
                        if 0 <= i < items@.len() {
                            items@[i].model()
                        } else {
                            ValueModel::Unit
                        },
                ),
            },
            ValueView::Tuple(items) => ValueModel::Tuple(
                Seq::new(
                    items@.len(),
                    |i: int|
                        if 0 <= i < items@.len() {
                            items@[i].model()
                        } else {
                            ValueModel::Unit
                        },
                ),
            ),
            ValueView::Pair(first, second) => ValueModel::Pair(
                Box::new((*first).model()),
                Box::new((*second).model()),
            ),
            ValueView::Bytes(bytes) => ValueModel::Bytes(bytes@),
            ValueView::String(s) => ValueModel::String(s@),
            ValueView::Uuid(id) => ValueModel::Uuid(uuid_bytes(id)),
            ValueView::Path(p) => ValueModel::Path(p@),
            ValueView::Selector(s) => ValueModel::Selector(s@),
            ValueView::Error(e) => ValueModel::Error(e@),
        }
    }

    /// The model of an array or tuple is made of the models of its items.
    pub proof fn lemma_model_items(self)
        ensures
            self matches ValueView::Array { element_kind, items } ==> self.model()
                == (ValueModel::Array { element_kind, items: models(items@) }),
            self matches ValueView::Tuple(items) ==> self.model() == ValueModel::Tuple(
                models(items@),
            ),
    {
        match self {
            ValueView::Array { element_kind, items } => {
                assert(self.model()->Array_items =~= models(items@));
            },
            ValueView::Tuple(items) => {
                assert(self.model()->Tuple_0 =~= models(items@));
            },
            _ => {},
        }
    }

    /// The kind of this value.
    pub fn kind(&self) -> (k: Type)
        ensures
            k == self@.kind(),
    {
        match self {
            ValueView::Unit => Type::Unit,
            ValueView::Bool(_) => Type::Bool,
            ValueView::Byte(_) => Type::Byte,
            ValueView::Float(_) => Type::Float,
            ValueView::Int16(_) => Type::Int16,
            ValueView::Int32(_) => Type::Int32,
            ValueView::Int64(_) => Type::Int64,
            ValueView::UInt16(_) => Type::UInt16,
            ValueView::UInt32(_) => Type::UInt32,
            ValueView::UInt64(_) => Type::UInt64,
            ValueView::Array { .. } => Type::Array,
            ValueView::Tuple(_) => Type::Tuple,
            ValueView::Pair(_, _) => Type::Pair,
            ValueView::Bytes(_) => Type::Bytes,
            ValueView::String(_) => Type::String,
            ValueView::Uuid(_) => Type::Uuid,
            ValueView::Path(_) => Type::Path,
            ValueView::Selector(_) => Type::Selector,
            ValueView::Error(_) => Type::Error,
        }
    }

    /// Whether the tree keeps the invariant of the data model: at every depth,
    /// the items of an array have the kind that the array declares.
    pub fn is_well_formed(&self) -> (ok: bool)
        ensures
            ok == self@.wf(),
        decreases *self,
    {
        match self {
            ValueView::Array { element_kind, items } => {
                let ok = items_well_formed(items, Some(*element_kind));
                proof {
                    self.lemma_model_items();
                    lemma_wf_array(*element_kind, models(items@));
                }
                ok
            },
            ValueView::Tuple(items) => {
                let ok = items_well_formed(items, None);
                proof {
                    self.lemma_model_items();
                    lemma_wf_tuple(models(items@));
                }
                ok
            },
            ValueView::Pair(first, second) => first.is_well_formed() && second.is_well_formed(),
            _ => true,
        }
    }

    /// A copy of the whole tree.
    pub fn duplicate(&self) -> (copy: ValueView)
        ensures
            copy@ == self@,
        decreases *self,
    {
        match self {
            ValueView::Unit => ValueView::Unit,
            ValueView::Bool(b) => ValueView::Bool(*b),
            ValueView::Byte(b) => ValueView::Byte(*b),
            ValueView::Float(f) => ValueView::Float(*f),
            ValueView::Int16(i) => ValueView::Int16(*i),
            ValueView::Int32(i) => ValueView::Int32(*i),
            ValueView::Int64(i) => ValueView::Int64(*i),
            ValueView::UInt16(u) => ValueView::UInt16(*u),
            ValueView::UInt32(u) => ValueView::UInt32(*u),
            ValueView::UInt64(u) => ValueView::UInt64(*u),
            ValueView::Array { element_kind, items } => {
                let copies = duplicate_all(items);
                let copy = ValueView::Array { element_kind: *element_kind, items: copies };
                proof {
                    self.lemma_model_items();
                    copy.lemma_model_items();
                }
                copy
            },
            ValueView::Tuple(items) => {
                let copies = duplicate_all(items);
                let copy = ValueView::Tuple(copies);
                proof {
                    self.lemma_model_items();
                    copy.lemma_model_items();
                }
                copy
            },
            ValueView::Pair(first, second) => ValueView::Pair(
                Box::new(first.duplicate()),
                Box::new(second.duplicate()),
            ),
            ValueView::Bytes(bytes) => ValueView::Bytes(bytes.clone()),
            ValueView::String(s) => ValueView::String(s.clone()),
            ValueView::Uuid(id) => ValueView::Uuid(*id),
            ValueView::Path(p) => ValueView::Path(p.clone()),
            ValueView::Selector(s) => ValueView::Selector(s.clone()),
            ValueView::Error(e) => ValueView::Error(e.clone()),
        }
    }
}

impl View for ValueView {
    type V = ValueModel;

    open spec fn view(&self) -> ValueModel {
        self.model()
    }
}

impl Clone for ValueView {
    fn clone(&self) -> (copy: ValueView)
        ensures
            copy@ == self@,
    {
        self.duplicate()
    }
}

/// Whether every value of a vector is well formed and, where a kind is given,
/// has that kind.
pub fn items_well_formed(items: &Vec<ValueView>, kind: Option<Type>) -> (ok: bool)
    ensures
        ok == (all_wf(models(items@)) && (kind matches Some(k) ==> all_of_kind(
            models(items@),
            k,
        ))),
    decreases items,
{
    let mut i: usize = 0;
    while i < items.len()
        invariant
            i <= items.len(),
            forall|j: int| 0 <= j < i ==> (#[trigger] models(items@)[j]).wf(),
            kind matches Some(k) ==> forall|j: int|
                0 <= j < i ==> (#[trigger] models(items@)[j]).kind() == k,
        decreases items.len() - i,
    {
        assert(models(items@)[i as int] == items@[i as int]@);
        if !items[i].is_well_formed() {
            return false;
        }
        match kind {
            Some(k) => {
                if items[i].kind() != k {
                    return false;
                }
            },
            None => {},
        }
        i += 1;
    }
    true
}

/// Copies of the values of a vector, in order.
pub fn duplicate_all(items: &Vec<ValueView>) -> (copies: Vec<ValueView>)
    ensures
        models(copies@) == models(items@),
    decreases items,
{
    let mut copies: Vec<ValueView> = Vec::new();
    let mut i: usize = 0;
    while i < items.len()
        invariant
            i <= items.len(),
            copies.len() == i,
            forall|k: int| 0 <= k < i ==> (#[trigger] copies@[k]).model() == items@[k].model(),
        decreases items.len() - i,
    {
        let copy = items[i].duplicate();
        copies.push(copy);
        i += 1;
    }
    assert(models(copies@) =~= models(items@));
    copies
}

} // verus!
