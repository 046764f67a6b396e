//! Building a message: pick its kind, set the sequence number, the path and
//! the selector, attach a value where the kind carries one, and finish.

use vstd::prelude::*;
use vstd::slice::{slice_subrange, slice_to_vec};
use vstd::utf8::{decode_utf8, valid_utf8};

use crate::builder::{BuilderModel, ValueBuilder};
use crate::encode::{contains_nul, has_nul, ToDicey};
use crate::error::Error;
use crate::packet::{Message, MessageModel, Op};
use crate::trusted::text_from_utf8;
use crate::value::{Selector, SelectorModel, ValueModel, ValueView};

verus! {

/// A byte string without the one NUL that may end it.
pub open spec fn stripped(bytes: Seq<u8>) -> Seq<u8> {
    if bytes.len() > 0 && bytes.last() == 0u8 {
        bytes.drop_last()
    } else {
        bytes
    }
}

/// Drops the one NUL that may end a name handed over as a terminated string.
pub fn strip_null(bytes: &[u8]) -> (out: &[u8])
    ensures
        out@ == stripped(bytes@),
{
    let n = bytes.len();
    if n > 0 && bytes[n - 1] == 0 {
        let out = slice_subrange(bytes, 0, n - 1);
        assert(out@ =~= bytes@.drop_last());
        out
    } else {
        bytes
    }
}

/// Whether a name can be part of a selector: it is not empty and holds no
/// NUL.
pub open spec fn name_ok(name: Seq<u8>) -> bool {
    name.len() > 0 && !has_nul(name)
}

/// The path that a byte string gives, or `MalformedPath` where the bytes hold
/// a NUL or are not UTF-8.
pub open spec fn path_of(bytes: Seq<u8>) -> Result<Seq<char>, Error> {
    if has_nul(bytes) || !valid_utf8(bytes) {
        Err(Error::MalformedPath)
    } else {
        Ok(decode_utf8(bytes))
    }
}

/// The selector that two names give once a closing NUL is dropped from each,
/// or `InvalidData` where one of them is then empty or holds a NUL.
pub open spec fn selector_of(sel: SelectorModel) -> Result<SelectorModel, Error> {
    if name_ok(stripped(sel.trait_name)) && name_ok(stripped(sel.elem)) {
        Ok(SelectorModel { trait_name: stripped(sel.trait_name), elem: stripped(sel.elem) })
    } else {
        Err(Error::InvalidData)
    }
}

/// The model of a [`MessageBuilder`].
pub struct MessageBuilderModel {
    pub op: Op,
    pub seq: Option<u32>,
    pub path: Option<Seq<char>>,
    pub selector: Option<SelectorModel>,
    pub value: Option<ValueModel>,
}

impl MessageBuilderModel {
    /// A builder for a message of the given kind on which nothing is set.
    pub open spec fn fresh(op: Op) -> MessageBuilderModel {
        MessageBuilderModel { op, seq: None, path: None, selector: None, value: None }
    }

    /// The message that the builder finishes into: `InvalidData` while the
    /// path or the selector is not set, or while a kind that carries a value
    /// has none. A sequence number that was not set is zero.
    pub open spec fn built(self) -> Result<MessageModel, Error> {
        if self.path is None || self.selector is None || (self.op.carries_value()
            && self.value is None) {
            Err(Error::InvalidData)
        } else {
            Ok(
                MessageModel {
                    op: self.op,
                    seq: match self.seq {
                        Some(seq) => seq,
                        None => 0,
                    },
                    path: self.path->Some_0,
                    selector: self.selector->Some_0,
                    value: self.value,
                },
            )
        }
    }
}

/// Collects the parts of a message. A builder is used up by every step: it
/// either comes back from the step or is gone with the error.
#[derive(Debug)]
pub struct MessageBuilder {
    op: Op,
    seq: Option<u32>,
    path: Option<String>,
    selector: Option<Selector>,
    value: Option<ValueView>,
}

impl View for MessageBuilder {
    type V = MessageBuilderModel;

    closed spec fn view(&self) -> MessageBuilderModel {
        MessageBuilderModel {
            op: self.op,
            seq: self.seq,
            path: match self.path {
                Some(p) => Some(p@),
                None => None,
            },
            selector: match self.selector {
                Some(s) => Some(s@),
                None => None,
            },
            value: match self.value {
                Some(v) => Some(v@),
                None => None,
            },
        }
    }
}

/// What attaching the value of a cursor to a message under construction
/// comes to. It succeeds exactly if the kind of the message carries a value
/// and the value of the cursor is complete; the message is then as before,
/// but for the value, which is the cursor's. Otherwise it is `InvalidData`.
pub open spec fn attached(
    before: MessageBuilderModel,
    cursor: BuilderModel,
    after: Result<MessageBuilderModel, Error>,
) -> bool {
    match after {
        Ok(builder) => before.op.carries_value() && cursor.complete() && builder == (
        MessageBuilderModel { value: cursor.root, ..before }),
        Err(e) => e == Error::InvalidData && (!before.op.carries_value() || !cursor.complete()),
    }
}

impl MessageBuilder {
    /// The invariant of a builder: a value is attached only where the kind
    /// carries one, and is well formed.
    pub open spec fn wf(&self) -> bool {
        &&& self@.value is Some ==> self@.op.carries_value()
        &&& self@.value matches Some(value) ==> value.wf()
    }

    /// A builder for a message of the given kind.
    pub fn begin(kind: Op) -> (builder: MessageBuilder)
        ensures
            builder.wf(),
            builder@ == MessageBuilderModel::fresh(kind),
    {
        MessageBuilder { op: kind, seq: None, path: None, selector: None, value: None }
    }

    /// A builder for a message of the given kind. It always succeeds.
    pub fn new(kind: Op) -> (r: Result<MessageBuilder, Error>)
        ensures
            r matches Ok(builder) && builder.wf() && builder@ == MessageBuilderModel::fresh(kind),
    {
        Ok(MessageBuilder::begin(kind))
    }

    pub fn event() -> (r: Result<MessageBuilder, Error>)
        ensures
            r matches Ok(builder) && builder.wf() && builder@ == MessageBuilderModel::fresh(
                Op::Event,
            ),
    {
        MessageBuilder::new(Op::Event)
    }

    pub fn exec() -> (r: Result<MessageBuilder, Error>)
        ensures
            r matches Ok(builder) && builder.wf() && builder@ == MessageBuilderModel::fresh(
                Op::Exec,
            ),
    {
        MessageBuilder::new(Op::Exec)
    }

    pub fn get() -> (r: Result<MessageBuilder, Error>)
        ensures
            r matches Ok(builder) && builder.wf() && builder@ == MessageBuilderModel::fresh(
                Op::Get,
            ),
    {
        MessageBuilder::new(Op::Get)
    }

    pub fn response() -> (r: Result<MessageBuilder, Error>)
        ensures
            r matches Ok(builder) && builder.wf() && builder@ == MessageBuilderModel::fresh(
                Op::Response,
            ),
    {
        MessageBuilder::new(Op::Response)
    }

    pub fn set() -> (r: Result<MessageBuilder, Error>)
        ensures
            r matches Ok(builder) && builder.wf() && builder@ == MessageBuilderModel::fresh(
                Op::SetValue,
            ),
    {
        MessageBuilder::new(Op::SetValue)
    }

    /// Sets the path. `MalformedPath` if the bytes hold a NUL or are not
    /// UTF-8.
    pub fn path(self, path: Vec<u8>) -> (r: Result<MessageBuilder, Error>)
        requires
            self.wf(),
        ensures
            match r {
                Ok(builder) => builder.wf() && path_of(path@) == Ok::<Seq<char>, Error>(
                    builder@.path->Some_0,
                ) && builder@ == (MessageBuilderModel { path: builder@.path, ..self@ })
                    && builder@.path is Some,
                Err(e) => path_of(path@) == Err::<Seq<char>, Error>(e),
            },
    {
        if contains_nul(path.as_slice()) {
            return Err(Error::MalformedPath);
        }
        match text_from_utf8(path) {
            Some(text) => Ok(
                MessageBuilder {
                    op: self.op,
                    seq: self.seq,
                    path: Some(text),
                    selector: self.selector,
                    value: self.value,
                },
            ),
            None => Err(Error::MalformedPath),
        }
    }

    /// Sets the selector, dropping the NUL that may end either name.
    /// `InvalidData` if a name is then empty or holds a NUL.
    pub fn selector(self, sel: Selector) -> (r: Result<MessageBuilder, Error>)
        requires
            self.wf(),
        ensures
            match r {
                Ok(builder) => builder.wf() && selector_of(sel@) == Ok::<SelectorModel, Error>(
                    builder@.selector->Some_0,
                ) && builder@ == (MessageBuilderModel { selector: builder@.selector, ..self@ })
                    && builder@.selector is Some,
                Err(e) => selector_of(sel@) == Err::<SelectorModel, Error>(e),
            },
    {
        let trait_name = strip_null(sel.trait_name.as_slice());
        let elem = strip_null(sel.elem.as_slice());
        if trait_name.len() == 0 || elem.len() == 0 || contains_nul(trait_name) || contains_nul(
            elem,
        ) {
            return Err(Error::InvalidData);
        }
        let selector = Selector { trait_name: slice_to_vec(trait_name), elem: slice_to_vec(elem) };
        Ok(
            MessageBuilder {
                op: self.op,
                seq: self.seq,
                path: self.path,
                selector: Some(selector),
                value: self.value,
            },
        )
    }

    /// Sets the sequence number.
    pub fn seq(self, seq: u32) -> (builder: MessageBuilder)
        requires
            self.wf(),
        ensures
            builder.wf(),
            builder@ == (MessageBuilderModel { seq: Some(seq), ..self@ }),
    {
        MessageBuilder {
            op: self.op,
            seq: Some(seq),
            path: self.path,
            selector: self.selector,
            value: self.value,
        }
    }

    /// Attaches the value that native data stands for. `InvalidData` on a
    /// `Get`, which carries none; otherwise the error of the encoding.
    pub fn value<T: ToDicey>(self, value: T) -> (r: Result<MessageBuilder, Error>)
        requires
            self.wf(),
        ensures
            match r {
                Ok(builder) => builder.wf() && self@.op.carries_value() && value.encoded() == Ok::<
                    ValueModel,
                    Error,
                >(builder@.value->Some_0) && builder@.value is Some && builder@ == (
                MessageBuilderModel { value: builder@.value, ..self@ }),
                Err(e) => if !self@.op.carries_value() {
                    e == Error::InvalidData
                } else {
                    value.encoded() == Err::<ValueModel, Error>(e)
                },
            },
    {
        match self.op {
            Op::Get => {
                return Err(Error::InvalidData);
            },
            _ => {},
        }
        let mut cursor = ValueBuilder::new();
        cursor.set(value)?;
        self.value_from(cursor)
    }

    /// Attaches the value that `op` builds step by step, in a cursor of its
    /// own.
    ///
    /// `InvalidData` on a `Get`, which carries no value; `op` is then not
    /// run. Otherwise `op` runs once, on a fresh cursor. If it fails, its
    /// error is the result; if it succeeds, the result is what
    /// [`MessageBuilder::value_from`] makes of the cursor as `op` left it.
    ///
    /// `op` must accept a fresh cursor, and leave a cursor well formed, as
    /// every operation of a cursor does.
    pub fn value_with<F: FnOnce(&mut ValueBuilder) -> Result<(), Error>>(self, op: F) -> (r: Result<
        MessageBuilder,
        Error,
    >)
        requires
            self.wf(),
            forall|cursor: &mut ValueBuilder|
                mut_ref_current(cursor).wf() && mut_ref_current(cursor)@ == BuilderModel::fresh()
                    ==> call_requires(op, (cursor,)),
            forall|cursor: &mut ValueBuilder, done: Result<(), Error>|
                mut_ref_current(cursor).wf() && #[trigger] call_ensures(op, (cursor,), done)
                    ==> mut_ref_future(cursor).wf(),
        ensures
            !self@.op.carries_value() ==> r == Err::<MessageBuilder, Error>(Error::InvalidData),
            self@.op.carries_value() ==> exists|cursor: &mut ValueBuilder, done: Result<(), Error>|
                {
                    &&& mut_ref_current(cursor)@ == BuilderModel::fresh()
                    &&& #[trigger] call_ensures(op, (cursor,), done)
                    &&& match done {
                        Err(e) => r matches Err(err) && err == e,
                        Ok(_) => match r {
                            Ok(builder) => builder.wf() && attached(
                                self@,
                                mut_ref_future(cursor)@,
                                Ok(builder@),
                            ),
                            Err(e) => attached(self@, mut_ref_future(cursor)@, Err(e)),
                        },
                    }
                },
    {
        match self.op {
            Op::Get => {
                return Err(Error::InvalidData);
            },
            _ => {},
        }
        let mut cursor = ValueBuilder::new();
        let done = op(&mut cursor);
        match done {
            Ok(_) => self.value_from(cursor),
            Err(e) => Err(e),
        }
    }

    /// Attaches the value that a caller has built step by step: exactly
    /// [`attached`]. `InvalidData` on a `Get`, and while the value is not
    /// complete.
    pub fn value_from(self, cursor: ValueBuilder) -> (r: Result<MessageBuilder, Error>)
        requires
            self.wf(),
            cursor.wf(),
        ensures
            match r {
                Ok(builder) => builder.wf() && attached(self@, cursor@, Ok(builder@)),
                Err(e) => attached(self@, cursor@, Err(e)),
            },
    {
        match self.op {
            Op::Get => {
                return Err(Error::InvalidData);
            },
            _ => {},
        }
        let value = cursor.finish()?;
        Ok(
            MessageBuilder {
                op: self.op,
                seq: self.seq,
                path: self.path,
                selector: self.selector,
                value: Some(value),
            },
        )
    }

    /// Finishes the message: exactly [`MessageBuilderModel::built`].
    pub fn build(self) -> (r: Result<Message, Error>)
        requires
            self.wf(),
        ensures
            match r {
                Ok(message) => self@.built() == Ok::<MessageModel, Error>(message@)
                    && message.wf(),
                Err(e) => self@.built() == Err::<MessageModel, Error>(e),
            },
    {
        let seq = match self.seq {
            Some(seq) => seq,
            None => 0,
        };
        let path = match self.path {
            Some(path) => path,
            None => {
                return Err(Error::InvalidData);
            },
        };
        let selector = match self.selector {
            Some(selector) => selector,
            None => {
                return Err(Error::InvalidData);
            },
        };
        match Message::new(self.op, seq, path, selector, self.value) {
            Ok(message) => Ok(message),
            Err(_) => Err(Error::InvalidData),
        }
    }
}

} // verus!
