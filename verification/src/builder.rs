//! Building a value step by step.
//!
//! A [`ValueBuilder`] is a cursor onto one slot. A scalar is put into the slot
//! directly. A composite is *started* in the slot, each of its children is
//! emitted into a child slot that an explicit *next* step opens, and the
//! composite is *ended*. Starts and ends nest strictly; a step taken out of
//! order is refused with `InvalidData` and changes nothing.

use vstd::prelude::*;

use crate::error::Error;
use crate::value::{
    all_of_kind, all_wf, lemma_wf_array, lemma_wf_tuple, models, Type, ValueModel, ValueView,
};

verus! {

/// The shape of a composite under construction.
#[derive(Clone, Copy, Debug, PartialEq, Eq, Structural)]
pub enum Shape {
    /// An array whose items must all have the given kind.
    Array(Type),
    Tuple,
    Pair,
}

impl Shape {
    /// The kind of the finished composite.
    pub open spec fn kind(self) -> Type {
        match self {
            Shape::Array(_) => Type::Array,
            Shape::Tuple => Type::Tuple,
            Shape::Pair => Type::Pair,
        }
    }

    /// Whether a child of the given kind may be emitted into a composite of
    /// this shape. Only an array is particular: it takes the kind it declares.
    pub open spec fn takes(self, kind: Type) -> bool {
        match self {
            Shape::Array(element_kind) => kind == element_kind,
            _ => true,
        }
    }

    /// Whether a composite of this shape may be ended with these children. A
    /// pair must have exactly two.
    pub open spec fn closes_with(self, items: Seq<ValueModel>) -> bool {
        match self {
            Shape::Pair => items.len() == 2,
            _ => true,
        }
    }

    /// Whether a composite of this shape, holding these children, has room for
    /// one more.
    pub open spec fn has_room(self, items: Seq<ValueModel>) -> bool {
        match self {
            Shape::Pair => items.len() < 2,
            _ => true,
        }
    }

    /// The finished composite.
    pub open spec fn compose(self, items: Seq<ValueModel>) -> ValueModel {
        match self {
            Shape::Array(element_kind) => ValueModel::Array { element_kind, items },
            Shape::Tuple => ValueModel::Tuple(items),
            Shape::Pair => ValueModel::Pair(Box::new(items[0]), Box::new(items[1])),
        }
    }
}

/// The model of an open composite: its shape and the children emitted so far.
pub struct FrameModel {
    pub shape: Shape,
    pub items: Seq<ValueModel>,
}

impl FrameModel {
    pub open spec fn wf(self) -> bool {
        &&& all_wf(self.items)
        &&& self.shape matches Shape::Array(element_kind) ==> all_of_kind(self.items, element_kind)
        &&& self.shape is Pair ==> self.items.len() <= 2
    }
}

/// Whether the composite at depth `i` has kept a place, of the right kind, for
/// the composite that is open inside it.
pub open spec fn keeps_place(frames: Seq<FrameModel>, i: int) -> bool {
    frames[i].shape.has_room(frames[i].items) && frames[i].shape.takes(frames[i + 1].shape.kind())
}

/// The model of a builder: the open composites, outermost first; whether a
/// slot is open for the next value; and the finished value, once there is one.
pub struct BuilderModel {
    pub frames: Seq<FrameModel>,
    pub armed: bool,
    pub root: Option<ValueModel>,
}

impl BuilderModel {
    /// A builder on which nothing has happened: no composite is open and the
    /// slot waits for its value.
    pub open spec fn fresh() -> BuilderModel {
        BuilderModel { frames: Seq::empty(), armed: true, root: None }
    }

    /// Whether the open composites are sound: each is well formed, and each
    /// but the innermost has kept a place, of the right kind, for the composite
    /// that is open inside it.
    pub open spec fn frames_wf(self) -> bool {
        &&& forall|i: int| 0 <= i < self.frames.len() ==> (#[trigger] self.frames[i]).wf()
        &&& forall|i: int| 0 <= i < self.frames.len() - 1 ==> #[trigger] keeps_place(self.frames, i)
    }

    pub open spec fn wf(self) -> bool {
        &&& self.frames_wf()
        &&& self.armed && self.frames.len() > 0 ==> self.frames.last().shape.has_room(
            self.frames.last().items,
        )
        &&& self.root matches Some(value) ==> value.wf()
        &&& self.root is Some <==> self.frames.len() == 0 && !self.armed
    }

    /// Whether a value may go into the slot that the innermost open composite,
    /// or the builder itself, holds ready.
    pub open spec fn slot_ready(self) -> bool {
        &&& self.frames_wf()
        &&& self.root is None
        &&& self.frames.len() > 0 ==> self.frames.last().shape.has_room(self.frames.last().items)
    }

    /// Whether `self` still holds all that was under way in `before`: no
    /// value has been finished at the top since, and every composite that was
    /// open then is open now, with the children that it had. Composites may
    /// have been opened inside them.
    pub open spec fn keeps(self, before: BuilderModel) -> bool {
        &&& self.root == before.root
        &&& before.frames.len() <= self.frames.len()
        &&& forall|i: int| 0 <= i < before.frames.len() ==> self.frames[i] == before.frames[i]
    }

    /// Whether the value is complete: nothing is open and the slot is filled.
    pub open spec fn complete(self) -> bool {
        self.root is Some
    }

    /// Whether the open slot takes a value of this kind.
    pub open spec fn accepts(self, kind: Type) -> bool {
        self.armed && (self.frames.len() > 0 ==> self.frames.last().shape.takes(kind))
    }

    /// The state after `value` has gone into the slot: it is the finished value
    /// if no composite is open, and the newest child of the innermost open
    /// composite otherwise.
    pub open spec fn place(self, value: ValueModel) -> BuilderModel {
        if self.frames.len() == 0 {
            BuilderModel { frames: self.frames, armed: false, root: Some(value) }
        } else {
            let top = self.frames.last();
            BuilderModel {
                frames: self.frames.drop_last().push(
                    FrameModel { shape: top.shape, items: top.items.push(value) },
                ),
                armed: false,
                root: self.root,
            }
        }
    }

    /// Putting a finished value into the slot.
    pub open spec fn put(self, value: ValueModel) -> Result<BuilderModel, Error> {
        if !self.armed {
            Err(Error::InvalidData)
        } else if !self.accepts(value.kind()) || !value.wf() {
            Err(Error::ValueTypeMismatch)
        } else {
            Ok(self.place(value))
        }
    }

    /// Starting a composite in the slot.
    pub open spec fn start(self, shape: Shape) -> Result<BuilderModel, Error> {
        if !self.armed {
            Err(Error::InvalidData)
        } else if !self.accepts(shape.kind()) {
            Err(Error::ValueTypeMismatch)
        } else {
            Ok(
                BuilderModel {
                    frames: self.frames.push(FrameModel { shape, items: Seq::empty() }),
                    armed: false,
                    root: self.root,
                },
            )
        }
    }

    /// Opening the slot for the next child of the innermost open composite.
    pub open spec fn next(self) -> Result<BuilderModel, Error> {
        if self.frames.len() == 0 || self.armed || !self.frames.last().shape.has_room(
            self.frames.last().items,
        ) {
            Err(Error::InvalidData)
        } else {
            Ok(BuilderModel { frames: self.frames, armed: true, root: self.root })
        }
    }

    /// Ending the innermost open composite, which must have the given kind.
    pub open spec fn end(self, kind: Type) -> Result<BuilderModel, Error> {
        if self.frames.len() == 0 || self.armed || self.frames.last().shape.kind() != kind
            || !self.frames.last().shape.closes_with(self.frames.last().items) {
            Err(Error::InvalidData)
        } else {
            let top = self.frames.last();
            Ok(
                (BuilderModel { frames: self.frames.drop_last(), armed: false, root: self.root })
                    .place(top.shape.compose(top.items)),
            )
        }
    }

    /// What emitting a native value does: the slot must be open and must take
    /// the kind, then the value must have an encoding, and then the encoding
    /// goes into the slot.
    pub open spec fn emit(self, kind: Type, encoded: Result<ValueModel, Error>) -> Result<
        BuilderModel,
        Error,
    > {
        if !self.armed {
            Err(Error::InvalidData)
        } else if !self.accepts(kind) {
            Err(Error::ValueTypeMismatch)
        } else {
            match encoded {
                Err(e) => Err(e),
                Ok(value) => Ok(self.place(value)),
            }
        }
    }

    /// A value that the ready slot takes leaves a well-formed state behind.
    pub proof fn lemma_place_wf(self, value: ValueModel)
        requires
            self.slot_ready(),
            value.wf(),
            self.frames.len() > 0 ==> self.frames.last().shape.takes(value.kind()),
        ensures
            self.place(value).wf(),
    {
        if self.frames.len() > 0 {
            let after = self.place(value);
            let top = self.frames.last();
            let grown = FrameModel { shape: top.shape, items: top.items.push(value) };
            assert(top.wf());
            assert(grown.wf()) by {
                assert forall|i: int| 0 <= i < grown.items.len() implies (
                #[trigger] grown.items[i]).wf() by {
                    if i < top.items.len() {
                        assert(top.items[i].wf());
                    }
                }
                match top.shape {
                    Shape::Array(element_kind) => {
                        assert forall|i: int| 0 <= i < grown.items.len() implies (
                        #[trigger] grown.items[i]).kind() == element_kind by {
                            if i < top.items.len() {
                                assert(top.items[i].kind() == element_kind);
                            }
                        }
                    },
                    _ => {},
                }
            }
            assert forall|i: int| 0 <= i < after.frames.len() implies (
            #[trigger] after.frames[i]).wf() by {
                if i < self.frames.len() - 1 {
                    assert(after.frames[i] == self.frames[i]);
                }
            }
            assert forall|i: int| 0 <= i < after.frames.len() - 1 implies #[trigger] keeps_place(
                after.frames,
                i,
            ) by {
                assert(keeps_place(self.frames, i));
                assert(after.frames[i] == self.frames[i]);
                assert(after.frames[i + 1].shape == self.frames[i + 1].shape);
            }
        }
    }

    /// A finished composite is well formed and has the kind of its shape.
    pub proof fn lemma_compose_wf(frame: FrameModel)
        requires
            frame.wf(),
            frame.shape.closes_with(frame.items),
        ensures
            frame.shape.compose(frame.items).wf(),
            frame.shape.compose(frame.items).kind() == frame.shape.kind(),
    {
        match frame.shape {
            Shape::Array(element_kind) => {
                lemma_wf_array(element_kind, frame.items);
            },
            Shape::Tuple => {
                lemma_wf_tuple(frame.items);
            },
            Shape::Pair => {
                assert(frame.items[0].wf());
                assert(frame.items[1].wf());
            },
        }
    }
}

struct Frame {
    shape: Shape,
    items: Vec<ValueView>,
}

impl View for Frame {
    type V = FrameModel;

    closed spec fn view(&self) -> FrameModel {
        FrameModel { shape: self.shape, items: models(self.items@) }
    }
}

/// The cursor with which a value is built.
pub struct ValueBuilder {
    frames: Vec<Frame>,
    armed: bool,
    root: Option<ValueView>,
}

impl View for ValueBuilder {
    type V = BuilderModel;

    closed spec fn view(&self) -> BuilderModel {
        BuilderModel {
            frames: Seq::new(self.frames@.len(), |i: int| self.frames@[i]@),
            armed: self.armed,
            root: match self.root {
                Some(value) => Some(value@),
                None => None,
            },
        }
    }
}

impl ValueBuilder {
    /// The invariant of a builder: whatever it holds is well formed.
    pub open spec fn wf(&self) -> bool {
        self@.wf()
    }

    /// A builder whose slot waits for its value.
    pub fn new() -> (builder: ValueBuilder)
        ensures
            builder.wf(),
            builder@ == BuilderModel::fresh(),
    {
        let builder = ValueBuilder { frames: Vec::new(), armed: true, root: None };
        assert(builder@.frames =~= Seq::<FrameModel>::empty());
        builder
    }

    /// Whether the open slot takes a value of this kind.
    fn slot_takes(&self, kind: Type) -> (ok: bool)
        requires
            self.armed,
        ensures
            ok == self@.accepts(kind),
    {
        let n = self.frames.len();
        if n == 0 {
            true
        } else {
            assert(self@.frames.last() == self.frames@[n - 1]@);
            match self.frames[n - 1].shape {
                Shape::Array(element_kind) => kind == element_kind,
                _ => true,
            }
        }
    }

    /// Moves a value into the slot that is held ready for it.
    fn place(&mut self, value: ValueView)
        requires
            old(self)@.slot_ready(),
            value@.wf(),
            old(self)@.frames.len() > 0 ==> old(self)@.frames.last().shape.takes(value@.kind()),
        ensures
            final(self)@ == old(self)@.place(value@),
            final(self).wf(),
    {
        proof {
            old(self)@.lemma_place_wf(value@);
        }
        let ghost before = self@;
        match self.frames.pop() {
            None => {
                self.root = Some(value);
                self.armed = false;
                assert(self@.frames =~= before.frames);
            },
            Some(frame) => {
                let ghost top = frame@;
                assert(top == before.frames.last());
                assert(self@.frames =~= before.frames.drop_last());
                let Frame { shape, items } = frame;
                let mut items = items;
                items.push(value);
                assert(models(items@) =~= top.items.push(value@));
                self.frames.push(Frame { shape, items });
                self.armed = false;
                assert(self@.frames =~= before.place(value@).frames);
            },
        }
    }

    /// Whether a value of the given kind may be emitted now: `InvalidData` if
    /// no slot is open, `ValueTypeMismatch` if the open slot takes another
    /// kind.
    pub fn ready_for(&self, kind: Type) -> (r: Result<(), Error>)
        requires
            self.wf(),
        ensures
            r == (if !self@.armed {
                Err::<(), Error>(Error::InvalidData)
            } else if !self@.accepts(kind) {
                Err::<(), Error>(Error::ValueTypeMismatch)
            } else {
                Ok::<(), Error>(())
            }),
    {
        if !self.armed {
            Err(Error::InvalidData)
        } else if !self.slot_takes(kind) {
            Err(Error::ValueTypeMismatch)
        } else {
            Ok(())
        }
    }

    /// Puts a finished value into the slot.
    ///
    /// The slot must be open (`InvalidData` otherwise), must take the value's
    /// kind, and the value must be well formed (`ValueTypeMismatch` otherwise).
    /// A refused value changes nothing.
    pub fn put(&mut self, value: ValueView) -> (r: Result<(), Error>)
        requires
            old(self).wf(),
        ensures
            final(self).wf(),
            match r {
                Ok(()) => old(self)@.put(value@) == Ok::<BuilderModel, Error>(final(self)@),
                Err(e) => old(self)@.put(value@) == Err::<BuilderModel, Error>(e) && final(self)@
                    == old(self)@,
            },
    {
        if !self.armed {
            return Err(Error::InvalidData);
        }
        if !self.slot_takes(value.kind()) || !value.is_well_formed() {
            return Err(Error::ValueTypeMismatch);
        }
        self.place(value);
        Ok(())
    }

    /// Starts a composite in the slot.
    fn start(&mut self, shape: Shape) -> (r: Result<(), Error>)
        requires
            old(self).wf(),
        ensures
            final(self).wf(),
            match r {
                Ok(()) => old(self)@.start(shape) == Ok::<BuilderModel, Error>(final(self)@),
                Err(e) => old(self)@.start(shape) == Err::<BuilderModel, Error>(e) && final(self)@
                    == old(self)@,
            },
    {
        if !self.armed {
            return Err(Error::InvalidData);
        }
        let kind = match shape {
            Shape::Array(_) => Type::Array,
            Shape::Tuple => Type::Tuple,
            Shape::Pair => Type::Pair,
        };
        if !self.slot_takes(kind) {
            return Err(Error::ValueTypeMismatch);
        }
        let ghost before = self@;
        let frame = Frame { shape, items: Vec::new() };
        assert(frame@.items =~= Seq::<ValueModel>::empty());
        self.frames.push(frame);
        self.armed = false;
        proof {
            let after = before.start(shape)->Ok_0;
            assert(self@.frames =~= after.frames);
            assert forall|i: int| 0 <= i < after.frames.len() implies (
            #[trigger] after.frames[i]).wf() by {
                if i < before.frames.len() {
                    assert(after.frames[i] == before.frames[i]);
                }
            }
            assert forall|i: int| 0 <= i < after.frames.len() - 1 implies #[trigger] keeps_place(
                after.frames,
                i,
            ) by {
                assert(after.frames[i] == before.frames[i]);
                if i + 1 < before.frames.len() {
                    assert(keeps_place(before.frames, i));
                    assert(after.frames[i + 1] == before.frames[i + 1]);
                }
            }
        }
        Ok(())
    }

    /// Starts an array whose items all have kind `element_kind`.
    ///
    /// `InvalidData` if no slot is open, `ValueTypeMismatch` if the slot does
    /// not take an array; either way nothing changes.
    pub fn array_start(&mut self, element_kind: Type) -> (r: Result<(), Error>)
        requires
            old(self).wf(),
        ensures
            final(self).wf(),
            match r {
                Ok(()) => old(self)@.start(Shape::Array(element_kind)) == Ok::<
                    BuilderModel,
                    Error,
                >(final(self)@),
                Err(e) => old(self)@.start(Shape::Array(element_kind)) == Err::<
                    BuilderModel,
                    Error,
                >(e) && final(self)@ == old(self)@,
            },
    {
        self.start(Shape::Array(element_kind))
    }

    /// Starts a tuple. Refused as [`ValueBuilder::array_start`] is.
    pub fn tuple_start(&mut self) -> (r: Result<(), Error>)
        requires
            old(self).wf(),
        ensures
            final(self).wf(),
            match r {
                Ok(()) => old(self)@.start(Shape::Tuple) == Ok::<BuilderModel, Error>(
                    final(self)@,
                ),
                Err(e) => old(self)@.start(Shape::Tuple) == Err::<BuilderModel, Error>(e)
                    && final(self)@ == old(self)@,
            },
    {
        self.start(Shape::Tuple)
    }

    /// Starts a pair. Refused as [`ValueBuilder::array_start`] is.
    pub fn pair_start(&mut self) -> (r: Result<(), Error>)
        requires
            old(self).wf(),
        ensures
            final(self).wf(),
            match r {
                Ok(()) => old(self)@.start(Shape::Pair) == Ok::<BuilderModel, Error>(final(self)@),
                Err(e) => old(self)@.start(Shape::Pair) == Err::<BuilderModel, Error>(e) && final(self)@ == old(self)@,
            },
    {
        self.start(Shape::Pair)
    }

    /// Opens the slot for the next child of the innermost open composite.
    ///
    /// `InvalidData` if no composite is open, if the slot opened before is
    /// still empty, or if the composite is a pair that has both its halves;
    /// nothing changes then.
    pub fn next(&mut self) -> (r: Result<(), Error>)
        requires
            old(self).wf(),
        ensures
            final(self).wf(),
            match r {
                Ok(()) => old(self)@.next() == Ok::<BuilderModel, Error>(final(self)@),
                Err(e) => old(self)@.next() == Err::<BuilderModel, Error>(e) && final(self)@
                    == old(self)@,
            },
    {
        let n = self.frames.len();
        if n == 0 || self.armed {
            return Err(Error::InvalidData);
        }
        assert(self@.frames.last() == self.frames@[n - 1]@);
        let full = match self.frames[n - 1].shape {
            Shape::Pair => self.frames[n - 1].items.len() >= 2,
            _ => false,
        };
        if full {
            return Err(Error::InvalidData);
        }
        let ghost before = self@;
        self.armed = true;
        assert(self@.frames =~= before.frames);
        Ok(())
    }

    /// Ends the innermost open composite, which must have kind `kind`, and
    /// hands the finished composite to the slot it was started in.
    fn end(&mut self, kind: Type) -> (r: Result<(), Error>)
        requires
            old(self).wf(),
        ensures
            final(self).wf(),
            match r {
                Ok(()) => old(self)@.end(kind) == Ok::<BuilderModel, Error>(final(self)@),
                Err(e) => old(self)@.end(kind) == Err::<BuilderModel, Error>(e) && final(self)@
                    == old(self)@,
            },
    {
        let n = self.frames.len();
        if n == 0 || self.armed {
            return Err(Error::InvalidData);
        }
        assert(self@.frames.last() == self.frames@[n - 1]@);
        let top_kind = match self.frames[n - 1].shape {
            Shape::Array(_) => Type::Array,
            Shape::Tuple => Type::Tuple,
            Shape::Pair => Type::Pair,
        };
        let closes = match self.frames[n - 1].shape {
            Shape::Pair => self.frames[n - 1].items.len() == 2,
            _ => true,
        };
        if top_kind != kind || !closes {
            return Err(Error::InvalidData);
        }
        let ghost before = self@;
        let ghost top = before.frames.last();
        let frame = self.frames.pop().unwrap();
        assert(frame@ == top);
        let Frame { shape, items } = frame;
        let value = match shape {
            Shape::Array(element_kind) => ValueView::Array { element_kind, items },
            Shape::Tuple => ValueView::Tuple(items),
            Shape::Pair => {
                let mut items = items;
                assert(models(items@)[0] == items@[0]@);
                assert(models(items@)[1] == items@[1]@);
                let second = items.pop().unwrap();
                let first = items.pop().unwrap();
                ValueView::Pair(Box::new(first), Box::new(second))
            },
        };
        proof {
            value.lemma_model_items();
            assert(value@ == top.shape.compose(top.items));
            BuilderModel::lemma_compose_wf(top);
            let popped = BuilderModel {
                frames: before.frames.drop_last(),
                armed: false,
                root: before.root,
            };
            assert(self@.frames =~= popped.frames);
            assert(self@ == popped);
            assert forall|i: int| 0 <= i < popped.frames.len() implies (
            #[trigger] popped.frames[i]).wf() by {
                assert(popped.frames[i] == before.frames[i]);
            }
            assert forall|i: int| 0 <= i < popped.frames.len() - 1 implies #[trigger] keeps_place(
                popped.frames,
                i,
            ) by {
                assert(keeps_place(before.frames, i));
                assert(popped.frames[i] == before.frames[i]);
                assert(popped.frames[i + 1] == before.frames[i + 1]);
            }
            if popped.frames.len() > 0 {
                // The place that was kept for this composite when it was started.
                assert(keeps_place(before.frames, before.frames.len() - 2));
                assert(popped.frames.last() == before.frames[before.frames.len() - 2]);
            }
        }
        self.place(value);
        Ok(())
    }

    /// Ends the array that is the innermost open composite.
    ///
    /// `InvalidData` if the innermost open composite is not an array, or if a
    /// slot opened with [`ValueBuilder::next`] is still empty; nothing changes
    /// then.
    pub fn array_end(&mut self) -> (r: Result<(), Error>)
        requires
            old(self).wf(),
        ensures
            final(self).wf(),
            match r {
                Ok(()) => old(self)@.end(Type::Array) == Ok::<BuilderModel, Error>(final(self)@),
                Err(e) => old(self)@.end(Type::Array) == Err::<BuilderModel, Error>(e) && final(self)@ == old(self)@,
            },
    {
        self.end(Type::Array)
    }

    /// Ends the tuple that is the innermost open composite. Refused as
    /// [`ValueBuilder::array_end`] is.
    pub fn tuple_end(&mut self) -> (r: Result<(), Error>)
        requires
            old(self).wf(),
        ensures
            final(self).wf(),
            match r {
                Ok(()) => old(self)@.end(Type::Tuple) == Ok::<BuilderModel, Error>(final(self)@),
                Err(e) => old(self)@.end(Type::Tuple) == Err::<BuilderModel, Error>(e) && final(self)@ == old(self)@,
            },
    {
        self.end(Type::Tuple)
    }

    /// Ends the pair that is the innermost open composite. Refused as
    /// [`ValueBuilder::array_end`] is, and also while the pair does not have
    /// exactly two halves.
    pub fn pair_end(&mut self) -> (r: Result<(), Error>)
        requires
            old(self).wf(),
        ensures
            final(self).wf(),
            match r {
                Ok(()) => old(self)@.end(Type::Pair) == Ok::<BuilderModel, Error>(final(self)@),
                Err(e) => old(self)@.end(Type::Pair) == Err::<BuilderModel, Error>(e) && final(self)@ == old(self)@,
            },
    {
        self.end(Type::Pair)
    }

    /// Whether the value is complete.
    pub fn is_complete(&self) -> (done: bool)
        ensures
            done == self@.complete(),
    {
        self.root.is_some()
    }

    /// The finished value, or `InvalidData` while the value is not complete.
    pub fn finish(self) -> (r: Result<ValueView, Error>)
        requires
            self.wf(),
        ensures
            match r {
                Ok(value) => self@.root == Some(value@) && value@.wf(),
                Err(e) => self@.root is None && e == Error::InvalidData,
            },
    {
        match self.root {
            Some(value) => Ok(value),
            None => Err(Error::InvalidData),
        }
    }
}

} // verus!
