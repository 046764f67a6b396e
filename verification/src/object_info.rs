//! What an object says of itself: the catalogue of its traits and their
//! elements, and the parser that reads the catalogue out of the value that
//! the introspection property returns.

use vstd::prelude::*;

use crate::decode::FromDicey;
use crate::dict::{distinct_names, Dict};
use crate::error::Error;
use crate::value::{models, Type, ValueModel, ValueView};

verus! {

pub const ELEMENT_TYPE_OPERATION: u8 = 0x25;

pub const ELEMENT_TYPE_PROPERTY: u8 = 0x24;

pub const ELEMENT_TYPE_SIGNAL: u8 = 0x21;

/// An operation that can be run.
#[derive(Debug, PartialEq, Eq)]
pub struct Operation {
    pub signature: String,
}

/// A property that can be read and, unless it is read-only, written.
#[derive(Debug, PartialEq, Eq)]
pub struct Property {
    pub signature: String,
    pub readonly: bool,
}

/// A signal that can be raised.
#[derive(Debug, PartialEq, Eq)]
pub struct Signal {
    pub signature: String,
}

/// One element of a trait.
#[derive(Debug, PartialEq, Eq)]
pub enum Element {
    Operation(Operation),
    Property(Property),
    Signal(Signal),
}

/// The model of an [`Element`].
pub enum ElementModel {
    Operation { signature: Seq<char> },
    Property { signature: Seq<char>, readonly: bool },
    Signal { signature: Seq<char> },
}

impl View for Element {
    type V = ElementModel;

    open spec fn view(&self) -> ElementModel {
        match self {
            Element::Operation(o) => ElementModel::Operation { signature: o.signature@ },
            Element::Property(p) => ElementModel::Property {
                signature: p.signature@,
                readonly: p.readonly,
            },
            Element::Signal(s) => ElementModel::Signal { signature: s.signature@ },
        }
    }
}

impl Clone for Operation {
    fn clone(&self) -> (copy: Operation)
        ensures
            copy.signature@ == self.signature@,
    {
        Operation { signature: self.signature.clone() }
    }
}

impl Clone for Property {
    fn clone(&self) -> (copy: Property)
        ensures
            copy.signature@ == self.signature@,
            copy.readonly == self.readonly,
    {
        Property { signature: self.signature.clone(), readonly: self.readonly }
    }
}

impl Clone for Signal {
    fn clone(&self) -> (copy: Signal)
        ensures
            copy.signature@ == self.signature@,
    {
        Signal { signature: self.signature.clone() }
    }
}

impl Clone for Element {
    fn clone(&self) -> (copy: Element)
        ensures
            copy@ == self@,
    {
        match self {
            Element::Operation(o) => Element::Operation(o.clone()),
            Element::Property(p) => Element::Property(p.clone()),
            Element::Signal(s) => Element::Signal(s.clone()),
        }
    }
}

/// The model of [`Elements`]: each element under its name.
pub type ElementsModel = Map<Seq<char>, ElementModel>;

/// The model of [`Traits`]: each trait's elements under the trait's name.
pub type TraitsModel = Map<Seq<char>, ElementsModel>;

/// The element that a descriptor's three parts describe; `BadMessage` for a
/// kind byte that names no kind of element. Only a property has a read-only
/// flag; for the other kinds the flag is ignored.
pub open spec fn element_of(kind: u8, signature: Seq<char>, readonly: bool) -> Result<
    ElementModel,
    Error,
> {
    if kind == ELEMENT_TYPE_OPERATION {
        Ok(ElementModel::Operation { signature })
    } else if kind == ELEMENT_TYPE_PROPERTY {
        Ok(ElementModel::Property { signature, readonly })
    } else if kind == ELEMENT_TYPE_SIGNAL {
        Ok(ElementModel::Signal { signature })
    } else {
        Err(Error::BadMessage)
    }
}

/// What the parser makes of one descriptor: a tuple of a kind byte, a
/// signature and, optionally, a read-only flag that is `false` where it is
/// absent. Any other shape is `ValueTypeMismatch`.
pub open spec fn parse_element(descriptor: ValueModel) -> Result<ElementModel, Error> {
    match descriptor {
        ValueModel::Tuple(parts) => {
            if parts.len() == 3 {
                match (parts[0], parts[1], parts[2]) {
                    (
                        ValueModel::Byte(kind),
                        ValueModel::String(signature),
                        ValueModel::Bool(readonly),
                    ) => element_of(kind, signature, readonly),
                    _ => Err(Error::ValueTypeMismatch),
                }
            } else if parts.len() == 2 {
                match (parts[0], parts[1]) {
                    (ValueModel::Byte(kind), ValueModel::String(signature)) => element_of(
                        kind,
                        signature,
                        false,
                    ),
                    _ => Err(Error::ValueTypeMismatch),
                }
            } else {
                Err(Error::ValueTypeMismatch)
            }
        },
        _ => Err(Error::ValueTypeMismatch),
    }
}

/// What the parser makes of the first `n` entries of a trait: every element
/// under its name, a later entry replacing an earlier one of the same name;
/// or the error of the first descriptor that fails.
pub open spec fn parse_elements(entries: Seq<(Seq<char>, ValueModel)>, n: nat) -> Result<
    ElementsModel,
    Error,
>
    decreases n,
{
    if n == 0 || n > entries.len() {
        Ok(Map::empty())
    } else {
        match parse_elements(entries, (n - 1) as nat) {
            Err(e) => Err(e),
            Ok(front) => match parse_element(entries[n - 1].1) {
                Err(e) => Err(e),
                Ok(element) => Ok(front.insert(entries[n - 1].0, element)),
            },
        }
    }
}

/// What the parser makes of the first `n` traits of a listing: every trait's
/// elements under the trait's name; or the error of the first trait that
/// fails.
pub open spec fn parse_listing(
    listing: Seq<(Seq<char>, Seq<(Seq<char>, ValueModel)>)>,
    n: nat,
) -> Result<TraitsModel, Error>
    decreases n,
{
    if n == 0 || n > listing.len() {
        Ok(Map::empty())
    } else {
        match parse_listing(listing, (n - 1) as nat) {
            Err(e) => Err(e),
            Ok(front) => match parse_elements(listing[n - 1].1, listing[n - 1].1.len()) {
                Err(e) => Err(e),
                Ok(elements) => Ok(front.insert(listing[n - 1].0, elements)),
            },
        }
    }
}

/// What the parser makes of the value of the introspection property.
///
/// The value must be an array of pairs of a trait name and an array of pairs
/// of an element name and a descriptor: any deviation from that shape,
/// wherever it stands, is `ValueTypeMismatch`. Only then are the descriptors
/// read, in order, as [`parse_element`] says.
pub open spec fn parse_traits(value: ValueModel) -> Result<TraitsModel, Error> {
    match <Vec<(String, Vec<(String, ValueView)>)> as FromDicey>::decoded(value) {
        Err(e) => Err(e),
        Ok(listing) => parse_listing(listing, listing.len()),
    }
}

/// Once a prefix of the entries fails, every longer prefix fails with the same
/// error.
pub proof fn lemma_parse_elements_error_stays(
    entries: Seq<(Seq<char>, ValueModel)>,
    n: nat,
    m: nat,
)
    requires
        n <= m <= entries.len(),
        parse_elements(entries, n) is Err,
    ensures
        parse_elements(entries, m) == parse_elements(entries, n),
    decreases m,
{
    if n < m {
        lemma_parse_elements_error_stays(entries, n, (m - 1) as nat);
    }
}

/// Once a prefix of the listing fails, every longer prefix fails with the same
/// error.
pub proof fn lemma_parse_listing_error_stays(
    listing: Seq<(Seq<char>, Seq<(Seq<char>, ValueModel)>)>,
    n: nat,
    m: nat,
)
    requires
        n <= m <= listing.len(),
        parse_listing(listing, n) is Err,
    ensures
        parse_listing(listing, m) == parse_listing(listing, n),
    decreases m,
{
    if n < m {
        lemma_parse_listing_error_stays(listing, n, (m - 1) as nat);
    }
}

/// The elements of one trait, each under its name.
#[derive(Debug)]
pub struct Elements {
    dict: Dict<Element>,
}

/// The three kinds of element.
#[derive(Clone, Copy, Debug, PartialEq, Eq, Structural)]
pub enum ElementKind {
    Operation,
    Property,
    Signal,
}

impl ElementModel {
    /// The kind of the element.
    pub open spec fn kind(self) -> ElementKind {
        match self {
            ElementModel::Operation { .. } => ElementKind::Operation,
            ElementModel::Property { .. } => ElementKind::Property,
            ElementModel::Signal { .. } => ElementKind::Signal,
        }
    }
}

/// The entries of the given kind among the first `n`, in order.
pub open spec fn kept(items: Seq<(Seq<char>, ElementModel)>, n: nat, kind: ElementKind) -> Seq<
    (Seq<char>, ElementModel),
>
    decreases n,
{
    if n == 0 || n > items.len() {
        Seq::empty()
    } else {
        let front = kept(items, (n - 1) as nat, kind);
        if items[n - 1].1.kind() == kind {
            front.push(items[n - 1])
        } else {
            front
        }
    }
}

/// Whether `entry` is one of the first `n` entries.
pub open spec fn is_entry(
    items: Seq<(Seq<char>, ElementModel)>,
    n: nat,
    entry: (Seq<char>, ElementModel),
) -> bool {
    exists|i: int| 0 <= i < n && i < items.len() && #[trigger] items[i] == entry
}

/// Every kept entry has the kind and is one of the entries.
pub proof fn lemma_kept_is_entry(
    items: Seq<(Seq<char>, ElementModel)>,
    n: nat,
    kind: ElementKind,
    k: int,
)
    requires
        n <= items.len(),
        0 <= k < kept(items, n, kind).len(),
    ensures
        kept(items, n, kind)[k].1.kind() == kind,
        is_entry(items, n, kept(items, n, kind)[k]),
    decreases n,
{
    let front = kept(items, (n - 1) as nat, kind);
    if k < front.len() {
        lemma_kept_is_entry(items, (n - 1) as nat, kind, k);
        let i = choose|i: int| 0 <= i < n - 1 && i < items.len() && #[trigger] items[i] == front[k];
        assert(items[i] == kept(items, n, kind)[k]);
    } else {
        assert(items[n - 1] == kept(items, n, kind)[k]);
    }
}

/// Every entry that has the kind is kept.
pub proof fn lemma_entry_is_kept(
    items: Seq<(Seq<char>, ElementModel)>,
    n: nat,
    kind: ElementKind,
    i: int,
)
    requires
        n <= items.len(),
        0 <= i < n,
        items[i].1.kind() == kind,
    ensures
        exists|k: int|
            0 <= k < kept(items, n, kind).len() && #[trigger] kept(items, n, kind)[k] == items[i],
    decreases n,
{
    let front = kept(items, (n - 1) as nat, kind);
    let all = kept(items, n, kind);
    if i < n - 1 {
        lemma_entry_is_kept(items, (n - 1) as nat, kind, i);
        let k = choose|k: int| 0 <= k < front.len() && #[trigger] front[k] == items[i];
        assert(all[k] == items[i]);
    } else {
        assert(all[all.len() - 1] == items[i]);
    }
}

/// Where the names of the entries differ, so do the names of what is kept.
pub proof fn lemma_kept_distinct(items: Seq<(Seq<char>, ElementModel)>, n: nat, kind: ElementKind)
    requires
        n <= items.len(),
        distinct_names(items),
    ensures
        distinct_names(kept(items, n, kind)),
    decreases n,
{
    if n > 0 {
        let front = kept(items, (n - 1) as nat, kind);
        let all = kept(items, n, kind);
        lemma_kept_distinct(items, (n - 1) as nat, kind);
        assert forall|a: int, b: int|
            0 <= a < all.len() && 0 <= b < all.len() && a != b implies (#[trigger] all[a]).0 != (
        #[trigger] all[b]).0 by {
            if a < front.len() && b < front.len() {
                assert(front[a].0 != front[b].0);
            } else if a < front.len() {
                lemma_kept_is_entry(items, (n - 1) as nat, kind, a);
                let i = choose|i: int|
                    0 <= i < n - 1 && i < items.len() && #[trigger] items[i] == front[a];
                assert(items[i].0 != items[n - 1].0);
            } else {
                lemma_kept_is_entry(items, (n - 1) as nat, kind, b);
                let j = choose|j: int|
                    0 <= j < n - 1 && j < items.len() && #[trigger] items[j] == front[b];
                assert(items[j].0 != items[n - 1].0);
            }
        }
    }
}

/// What a list of named elements of one kind says of a collection: each pair
/// of the list is an element of that kind under its name in the collection,
/// every element of that kind in the collection is in the list, and no name
/// occurs twice in the list.
pub open spec fn lists_kind(
    list: Seq<(Seq<char>, ElementModel)>,
    elements: ElementsModel,
    kind: ElementKind,
) -> bool {
    &&& distinct_names(list)
    &&& forall|k: int|
        0 <= k < list.len() ==> elements.dom().contains((#[trigger] list[k]).0) && elements[list[k].0]
            == list[k].1 && list[k].1.kind() == kind
    &&& forall|name: Seq<char>| #[trigger]
        elements.dom().contains(name) && elements[name].kind() == kind ==> exists|k: int|
            0 <= k < list.len() && (#[trigger] list[k]).0 == name
}

impl View for Elements {
    type V = ElementsModel;

    closed spec fn view(&self) -> ElementsModel {
        self.dict.map().map_values(|e: Element| e@)
    }
}

impl Elements {
    /// The invariant of the collection: no name occurs twice.
    pub closed spec fn wf(&self) -> bool {
        self.dict.wf()
    }

    /// The entries in the order in which their names were first seen.
    pub closed spec fn items(&self) -> Seq<(Seq<char>, ElementModel)> {
        Seq::new(
            self.dict.items().len(),
            |i: int| (self.dict.items()[i].0, self.dict.items()[i].1@),
        )
    }

    /// What the invariant gives: no name occurs twice among the entries, each
    /// entry is the map's element under its name, and the map holds nothing
    /// but the entries.
    pub proof fn lemma_entries(&self)
        requires
            self.wf(),
        ensures
            distinct_names(self.items()),
            forall|i: int|
                0 <= i < self.items().len() ==> self@.dom().contains(
                    (#[trigger] self.items()[i]).0,
                ) && self@[self.items()[i].0] == self.items()[i].1,
            forall|name: Seq<char>| #[trigger]
                self@.dom().contains(name) ==> exists|i: int|
                    0 <= i < self.items().len() && (#[trigger] self.items()[i]).0 == name,
    {
        let raw = self.dict.items();
        let items = self.items();
        assert forall|a: int, b: int|
            0 <= a < items.len() && 0 <= b < items.len() && a != b implies (#[trigger] items[a]).0
            != (#[trigger] items[b]).0 by {
            assert(raw[a].0 != raw[b].0);
        }
        assert forall|i: int| 0 <= i < items.len() implies self@.dom().contains(
            (#[trigger] items[i]).0,
        ) && self@[items[i].0] == items[i].1 by {
            crate::dict::lemma_map_of_entry(raw, i);
        }
        assert forall|name: Seq<char>| #[trigger] self@.dom().contains(name) implies exists|i: int|
            0 <= i < items.len() && (#[trigger] items[i]).0 == name by {
            crate::dict::lemma_map_of_dom(raw, name);
            let i = choose|i: int| 0 <= i < raw.len() && (#[trigger] raw[i]).0 == name;
            assert(items[i].0 == name);
        }
    }

    /// The entries of one kind, as [`kept`] picks them, list that kind of the
    /// collection.
    pub proof fn lemma_lists_kind(&self, kind: ElementKind)
        requires
            self.wf(),
        ensures
            lists_kind(kept(self.items(), self.items().len(), kind), self@, kind),
    {
        let items = self.items();
        let list = kept(items, items.len(), kind);
        self.lemma_entries();
        lemma_kept_distinct(items, items.len(), kind);
        assert forall|k: int| 0 <= k < list.len() implies self@.dom().contains(
            (#[trigger] list[k]).0,
        ) && self@[list[k].0] == list[k].1 && list[k].1.kind() == kind by {
            lemma_kept_is_entry(items, items.len(), kind, k);
            let i = choose|i: int|
                0 <= i < items.len() && i < items.len() && #[trigger] items[i] == list[k];
            assert(self@[items[i].0] == items[i].1);
        }
        assert forall|name: Seq<char>| #[trigger]
            self@.dom().contains(name) && self@[name].kind() == kind implies exists|k: int|
            0 <= k < list.len() && (#[trigger] list[k]).0 == name by {
            let i = choose|i: int| 0 <= i < items.len() && (#[trigger] items[i]).0 == name;
            assert(self@[items[i].0] == items[i].1);
            lemma_entry_is_kept(items, items.len(), kind, i);
            let k = choose|k: int| 0 <= k < list.len() && #[trigger] list[k] == items[i];
            assert(list[k].0 == name);
        }
    }

    /// A collection without elements.
    pub fn new() -> (elements: Elements)
        ensures
            elements.wf(),
            elements@ == Map::<Seq<char>, ElementModel>::empty(),
            elements.items().len() == 0,
    {
        let elements = Elements { dict: Dict::new() };
        assert(elements@ =~= Map::<Seq<char>, ElementModel>::empty());
        elements
    }

    /// Puts an element under a name, in place of the one that was there if
    /// there was one.
    pub fn insert(&mut self, name: String, element: Element)
        requires
            old(self).wf(),
        ensures
            final(self).wf(),
            final(self)@ == old(self)@.insert(name@, element@),
    {
        let ghost before = self.dict.map();
        self.dict.insert(name, element);
        assert(self@ =~= before.map_values(|e: Element| e@).insert(name@, element@));
    }

    /// The number of elements.
    pub fn len(&self) -> (n: usize)
        ensures
            n == self.items().len(),
    {
        self.dict.len()
    }

    /// The element under a name.
    pub fn get(&self, name: &str) -> (r: Option<&Element>)
        requires
            self.wf(),
        ensures
            match r {
                Some(element) => self@.dom().contains(name@) && self@[name@] == element@,
                None => !self@.dom().contains(name@),
            },
    {
        self.dict.get(name)
    }

    /// Every element with its name, in the order in which the names were first
    /// seen.
    ///
    /// The list has one pair for each entry. In a well-formed collection that
    /// means: no name occurs twice, each pair is the collection's element
    /// under its name, and every element of the collection is in the list.
    pub fn elements(&self) -> (list: Vec<(String, Element)>)
        ensures
            pairs(list@) == self.items(),
            self.wf() ==> forall|i: int, j: int|
                0 <= i < list@.len() && 0 <= j < list@.len() && i != j ==> (#[trigger] list@[i]).0@
                    != (#[trigger] list@[j]).0@,
            self.wf() ==> forall|i: int|
                0 <= i < list@.len() ==> self@.dom().contains((#[trigger] list@[i]).0@)
                    && self@[list@[i].0@] == list@[i].1@,
            self.wf() ==> forall|name: Seq<char>| #[trigger]
                self@.dom().contains(name) ==> exists|i: int|
                    0 <= i < list@.len() && (#[trigger] list@[i]).0@ == name,
    {
        let mut list: Vec<(String, Element)> = Vec::new();
        let mut i: usize = 0;
        let n = self.dict.len();
        while i < n
            invariant
                i <= n,
                n == self.items().len(),
                list@.len() == i,
                forall|k: int|
                    0 <= k < i ==> (#[trigger] list@[k]).0@ == self.items()[k].0 && list@[k].1@
                        == self.items()[k].1,
            decreases n - i,
        {
            let (name, element) = self.dict.entry(i);
            list.push((name.clone(), element.clone()));
            i += 1;
        }
        proof {
            assert(pairs(list@) =~= self.items());
            if self.wf() {
                self.lemma_entries();
                assert forall|i: int, j: int|
                    0 <= i < list@.len() && 0 <= j < list@.len() && i != j implies (
                #[trigger] list@[i]).0@ != (#[trigger] list@[j]).0@ by {
                    assert(pairs(list@)[i].0 != pairs(list@)[j].0);
                }
                assert forall|k: int| 0 <= k < list@.len() implies self@.dom().contains(
                    (#[trigger] list@[k]).0@,
                ) && self@[list@[k].0@] == list@[k].1@ by {
                    assert(pairs(list@)[k] == self.items()[k]);
                }
                assert forall|name: Seq<char>| #[trigger] self@.dom().contains(name) implies exists|
                    k: int,
                | 0 <= k < list@.len() && (#[trigger] list@[k]).0@ == name by {
                    let k = choose|k: int|
                        0 <= k < self.items().len() && (#[trigger] self.items()[k]).0 == name;
                    assert(pairs(list@)[k] == self.items()[k]);
                    assert(list@[k].0@ == name);
                }
            }
        }
        list
    }

    /// The operations with their names, in the order of [`Elements::elements`].
    ///
    /// The list is what [`kept`] picks of the entries. In a well-formed
    /// collection that means [`lists_kind`]: a name and an operation are in
    /// the list exactly if the collection holds that operation under that
    /// name, and no name occurs twice.
    pub fn operations(&self) -> (list: Vec<(String, Operation)>)
        ensures
            operation_pairs(list@) == kept(
                self.items(),
                self.items().len(),
                ElementKind::Operation,
            ),
            self.wf() ==> lists_kind(operation_pairs(list@), self@, ElementKind::Operation),
            self.wf() ==> forall|i: int, j: int|
                0 <= i < list@.len() && 0 <= j < list@.len() && i != j ==> (#[trigger] list@[i]).0@
                    != (#[trigger] list@[j]).0@,
    {
        let mut list: Vec<(String, Operation)> = Vec::new();
        let mut i: usize = 0;
        assert(operation_pairs(list@) =~= kept(self.items(), 0, ElementKind::Operation));
        let n = self.dict.len();
        while i < n
            invariant
                i <= n,
                n == self.items().len(),
                operation_pairs(list@) == kept(self.items(), i as nat, ElementKind::Operation),
            decreases n - i,
        {
            let ghost before = operation_pairs(list@);
            let (name, element) = self.dict.entry(i);
            assert(self.items()[i as int] == (name@, element@));
            match element {
                Element::Operation(o) => {
                    list.push((name.clone(), o.clone()));
                    assert(operation_pairs(list@) =~= before.push((name@, element@)));
                },
                _ => {},
            }
            i += 1;
        }
        proof {
            if self.wf() {
                self.lemma_lists_kind(ElementKind::Operation);
                let named = operation_pairs(list@);
                assert forall|i: int, j: int|
                    0 <= i < list@.len() && 0 <= j < list@.len() && i != j implies (
                #[trigger] list@[i]).0@ != (#[trigger] list@[j]).0@ by {
                    assert(named[i].0 != named[j].0);
                }
            }
        }
        list
    }

    /// The properties with their names, in the order of
    /// [`Elements::elements`]; as [`Elements::operations`], for properties.
    pub fn properties(&self) -> (list: Vec<(String, Property)>)
        ensures
            property_pairs(list@) == kept(
                self.items(),
                self.items().len(),
                ElementKind::Property,
            ),
            self.wf() ==> lists_kind(property_pairs(list@), self@, ElementKind::Property),
            self.wf() ==> forall|i: int, j: int|
                0 <= i < list@.len() && 0 <= j < list@.len() && i != j ==> (#[trigger] list@[i]).0@
                    != (#[trigger] list@[j]).0@,
    {
        let mut list: Vec<(String, Property)> = Vec::new();
        let mut i: usize = 0;
        assert(property_pairs(list@) =~= kept(self.items(), 0, ElementKind::Property));
        let n = self.dict.len();
        while i < n
            invariant
                i <= n,
                n == self.items().len(),
                property_pairs(list@) == kept(self.items(), i as nat, ElementKind::Property),
            decreases n - i,
        {
            let ghost before = property_pairs(list@);
            let (name, element) = self.dict.entry(i);
            assert(self.items()[i as int] == (name@, element@));
            match element {
                Element::Property(p) => {
                    list.push((name.clone(), p.clone()));
                    assert(property_pairs(list@) =~= before.push((name@, element@)));
                },
                _ => {},
            }
            i += 1;
        }
        proof {
            if self.wf() {
                self.lemma_lists_kind(ElementKind::Property);
                let named = property_pairs(list@);
                assert forall|i: int, j: int|
                    0 <= i < list@.len() && 0 <= j < list@.len() && i != j implies (
                #[trigger] list@[i]).0@ != (#[trigger] list@[j]).0@ by {
                    assert(named[i].0 != named[j].0);
                }
            }
        }
        list
    }

    /// The signals with their names, in the order of [`Elements::elements`];
    /// as [`Elements::operations`], for signals.
    pub fn signals(&self) -> (list: Vec<(String, Signal)>)
        ensures
            signal_pairs(list@) == kept(self.items(), self.items().len(), ElementKind::Signal),
            self.wf() ==> lists_kind(signal_pairs(list@), self@, ElementKind::Signal),
            self.wf() ==> forall|i: int, j: int|
                0 <= i < list@.len() && 0 <= j < list@.len() && i != j ==> (#[trigger] list@[i]).0@
                    != (#[trigger] list@[j]).0@,
    {
        let mut list: Vec<(String, Signal)> = Vec::new();
        let mut i: usize = 0;
        assert(signal_pairs(list@) =~= kept(self.items(), 0, ElementKind::Signal));
        let n = self.dict.len();
        while i < n
            invariant
                i <= n,
                n == self.items().len(),
                signal_pairs(list@) == kept(self.items(), i as nat, ElementKind::Signal),
            decreases n - i,
        {
            let ghost before = signal_pairs(list@);
            let (name, element) = self.dict.entry(i);
            assert(self.items()[i as int] == (name@, element@));
            match element {
                Element::Signal(s) => {
                    list.push((name.clone(), s.clone()));
                    assert(signal_pairs(list@) =~= before.push((name@, element@)));
                },
                _ => {},
            }
            i += 1;
        }
        proof {
            if self.wf() {
                self.lemma_lists_kind(ElementKind::Signal);
                let named = signal_pairs(list@);
                assert forall|i: int, j: int|
                    0 <= i < list@.len() && 0 <= j < list@.len() && i != j implies (
                #[trigger] list@[i]).0@ != (#[trigger] list@[j]).0@ by {
                    assert(named[i].0 != named[j].0);
                }
            }
        }
        list
    }
}

/// The names and models of a list of named elements.
pub open spec fn pairs(list: Seq<(String, Element)>) -> Seq<(Seq<char>, ElementModel)> {
    Seq::new(list.len(), |i: int| (list[i].0@, list[i].1@))
}

/// The names and models of a list of named operations.
pub open spec fn operation_pairs(list: Seq<(String, Operation)>) -> Seq<
    (Seq<char>, ElementModel),
> {
    Seq::new(
        list.len(),
        |i: int| (list[i].0@, ElementModel::Operation { signature: list[i].1.signature@ }),
    )
}

/// The names and models of a list of named properties.
pub open spec fn property_pairs(list: Seq<(String, Property)>) -> Seq<(Seq<char>, ElementModel)> {
    Seq::new(
        list.len(),
        |i: int|
            (
                list[i].0@,
                ElementModel::Property {
                    signature: list[i].1.signature@,
                    readonly: list[i].1.readonly,
                },
            ),
    )
}

/// The names and models of a list of named signals.
pub open spec fn signal_pairs(list: Seq<(String, Signal)>) -> Seq<(Seq<char>, ElementModel)> {
    Seq::new(
        list.len(),
        |i: int| (list[i].0@, ElementModel::Signal { signature: list[i].1.signature@ }),
    )
}

/// The traits of an object, each with its elements, under the trait's name.
#[derive(Debug)]
pub struct Traits {
    dict: Dict<Elements>,
}

impl View for Traits {
    type V = TraitsModel;

    closed spec fn view(&self) -> TraitsModel {
        self.dict.map().map_values(|es: Elements| es@)
    }
}

impl Traits {
    /// The invariant of the collection: no trait name occurs twice, and the
    /// same holds of the element names of every trait.
    pub closed spec fn wf(&self) -> bool {
        &&& self.dict.wf()
        &&& forall|name: Seq<char>| #[trigger]
            self.dict.map().dom().contains(name) ==> self.dict.map()[name].wf()
    }

    /// The entries in the order in which they were first seen.
    pub closed spec fn items(&self) -> Seq<(Seq<char>, Elements)> {
        self.dict.items()
    }

    /// A collection without traits.
    pub fn new() -> (traits: Traits)
        ensures
            traits.wf(),
            traits@ == Map::<Seq<char>, ElementsModel>::empty(),
            traits.items().len() == 0,
    {
        let traits = Traits { dict: Dict::new() };
        assert(traits@ =~= Map::<Seq<char>, ElementsModel>::empty());
        traits
    }

    /// The number of traits.
    pub fn len(&self) -> (n: usize)
        ensures
            n == self.items().len(),
    {
        self.dict.len()
    }

    /// The elements of the trait with the given name.
    pub fn get(&self, name: &str) -> (r: Option<&Elements>)
        requires
            self.wf(),
        ensures
            match r {
                Some(elements) => self@.dom().contains(name@) && self@[name@] == elements@
                    && elements.wf(),
                None => !self@.dom().contains(name@),
            },
    {
        self.dict.get(name)
    }

    /// The names of the traits, in the order in which they were first seen.
    pub fn names(&self) -> (list: Vec<String>)
        ensures
            list@.len() == self.items().len(),
            forall|i: int| 0 <= i < list@.len() ==> (#[trigger] list@[i])@ == self.items()[i].0,
    {
        let mut list: Vec<String> = Vec::new();
        let mut i: usize = 0;
        let n = self.dict.len();
        while i < n
            invariant
                i <= n,
                n == self.items().len(),
                list@.len() == i,
                forall|k: int| 0 <= k < i ==> (#[trigger] list@[k])@ == self.items()[k].0,
            decreases n - i,
        {
            let (name, _) = self.dict.entry(i);
            list.push(name.clone());
            i += 1;
        }
        list
    }

    /// Puts the elements of a trait under its name, in place of those that
    /// were there if there were any.
    pub fn insert(&mut self, name: String, elements: Elements)
        requires
            old(self).wf(),
            elements.wf(),
        ensures
            final(self).wf(),
            final(self)@ == old(self)@.insert(name@, elements@),
    {
        let ghost before = self.dict.map();
        self.dict.insert(name, elements);
        assert(self@ =~= before.map_values(|es: Elements| es@).insert(name@, elements@));
    }
}

/// Reads one descriptor.
pub fn read_element(descriptor: &ValueView) -> (r: Result<Element, Error>)
    ensures
        match r {
            Ok(element) => parse_element(descriptor@) == Ok::<ElementModel, Error>(element@),
            Err(e) => parse_element(descriptor@) == Err::<ElementModel, Error>(e),
        },
{
    match descriptor {
        ValueView::Tuple(parts) => {
            proof {
                descriptor.lemma_model_items();
            }
            if parts.len() == 3 {
                assert(models(parts@)[0] == parts@[0]@);
                assert(models(parts@)[1] == parts@[1]@);
                assert(models(parts@)[2] == parts@[2]@);
                match (&parts[0], &parts[1], &parts[2]) {
                    (ValueView::Byte(kind), ValueView::String(signature), ValueView::Bool(ro)) => {
                        make_element(kind.0, signature.clone(), *ro)
                    },
                    _ => Err(Error::ValueTypeMismatch),
                }
            } else if parts.len() == 2 {
                assert(models(parts@)[0] == parts@[0]@);
                assert(models(parts@)[1] == parts@[1]@);
                match (&parts[0], &parts[1]) {
                    (ValueView::Byte(kind), ValueView::String(signature)) => {
                        make_element(kind.0, signature.clone(), false)
                    },
                    _ => Err(Error::ValueTypeMismatch),
                }
            } else {
                Err(Error::ValueTypeMismatch)
            }
        },
        _ => Err(Error::ValueTypeMismatch),
    }
}

/// Makes the element that a descriptor's parts describe.
fn make_element(kind: u8, signature: String, readonly: bool) -> (r: Result<Element, Error>)
    ensures
        match r {
            Ok(element) => element_of(kind, signature@, readonly) == Ok::<ElementModel, Error>(
                element@,
            ),
            Err(e) => element_of(kind, signature@, readonly) == Err::<ElementModel, Error>(e),
        },
{
    if kind == ELEMENT_TYPE_OPERATION {
        Ok(Element::Operation(Operation { signature }))
    } else if kind == ELEMENT_TYPE_PROPERTY {
        Ok(Element::Property(Property { signature, readonly }))
    } else if kind == ELEMENT_TYPE_SIGNAL {
        Ok(Element::Signal(Signal { signature }))
    } else {
        Err(Error::BadMessage)
    }
}

/// Reads the entries of one trait.
fn read_elements(entries: &Vec<(String, ValueView)>) -> (r: Result<Elements, Error>)
    ensures
        match r {
            Ok(elements) => parse_elements(entries.as_model(), entries.as_model().len()) == Ok::<
                ElementsModel,
                Error,
            >(elements@) && elements.wf(),
            Err(e) => parse_elements(entries.as_model(), entries.as_model().len()) == Err::<
                ElementsModel,
                Error,
            >(e),
        },
{
    let ghost all = entries.as_model();
    let mut elements = Elements::new();
    let n = entries.len();
    let mut i: usize = 0;
    while i < n
        invariant
            i <= n,
            n == entries@.len(),
            all == entries.as_model(),
            all.len() == n,
            elements.wf(),
            parse_elements(all, i as nat) == Ok::<ElementsModel, Error>(elements@),
        decreases n - i,
    {
        assert(all[i as int] == (entries@[i as int].0@, entries@[i as int].1@));
        match read_element(&entries[i].1) {
            Ok(element) => {
                elements.insert(entries[i].0.clone(), element);
            },
            Err(e) => {
                proof {
                    lemma_parse_elements_error_stays(all, (i + 1) as nat, all.len());
                }
                return Err(e);
            },
        }
        i += 1;
    }
    Ok(elements)
}

impl FromDicey for Traits {
    type Model = TraitsModel;

    open spec fn as_model(&self) -> TraitsModel {
        self@
    }

    open spec fn decoded(value: ValueModel) -> Result<TraitsModel, Error> {
        parse_traits(value)
    }

    fn from_dicey(value: &ValueView) -> (r: Result<Self, Error>) {
        read_traits(value)
    }
}

/// Reads the catalogue out of the value of the introspection property.
pub fn read_traits(value: &ValueView) -> (r: Result<Traits, Error>)
    ensures
        match r {
            Ok(traits) => parse_traits(value@) == Ok::<TraitsModel, Error>(traits@) && traits.wf(),
            Err(e) => parse_traits(value@) == Err::<TraitsModel, Error>(e),
        },
{
    let listing: Vec<(String, Vec<(String, ValueView)>)> = value.extract()?;
    let ghost all = listing.as_model();
    let mut traits = Traits::new();
    let n = listing.len();
    let mut i: usize = 0;
    while i < n
        invariant
            i <= n,
            n == listing@.len(),
            all == listing.as_model(),
            all.len() == n,
            traits.wf(),
            parse_listing(all, i as nat) == Ok::<TraitsModel, Error>(traits@),
            parse_traits(value@) == parse_listing(all, all.len()),
        decreases n - i,
    {
        assert(all[i as int] == (listing@[i as int].0@, listing@[i as int].1.as_model()));
        match read_elements(&listing[i].1) {
            Ok(elements) => {
                traits.insert(listing[i].0.clone(), elements);
            },
            Err(e) => {
                proof {
                    lemma_parse_listing_error_stays(all, (i + 1) as nat, all.len());
                }
                return Err(e);
            },
        }
        i += 1;
    }
    Ok(traits)
}

/// The model of an [`ObjectInfo`].
pub struct ObjectInfoModel {
    pub path: Seq<char>,
    pub traits: TraitsModel,
}

/// What an object says of itself: its path, and its traits with their
/// elements.
#[derive(Debug)]
pub struct ObjectInfo {
    pub path: String,
    pub traits: Traits,
}

impl View for ObjectInfo {
    type V = ObjectInfoModel;

    open spec fn view(&self) -> ObjectInfoModel {
        ObjectInfoModel { path: self.path@, traits: self.traits@ }
    }
}

impl ObjectInfo {
    pub fn new(path: String, traits: Traits) -> (info: ObjectInfo)
        ensures
            info.path == path,
            info.traits == traits,
    {
        ObjectInfo { path, traits }
    }

    /// Reads the catalogue of the object at `path` out of the value of its
    /// introspection property: exactly [`parse_traits`] of the value.
    pub fn from_dicey(path: String, value: &ValueView) -> (r: Result<ObjectInfo, Error>)
        ensures
            match r {
                Ok(info) => parse_traits(value@) == Ok::<TraitsModel, Error>(info@.traits)
                    && info@.path == path@ && info.traits.wf(),
                Err(e) => parse_traits(value@) == Err::<TraitsModel, Error>(e),
            },
    {
        let traits = read_traits(value)?;
        Ok(ObjectInfo::new(path, traits))
    }
}

/// The value that names another: the pair of the name, as a string, and the
/// value.
pub open spec fn named_value(name: Seq<char>, value: ValueModel) -> ValueModel {
    ValueModel::Pair(Box::new(ValueModel::String(name)), Box::new(value))
}

/// The value that lists the elements of one trait: the array of the named
/// descriptors.
pub open spec fn elements_value(entries: Seq<(Seq<char>, ValueModel)>) -> ValueModel {
    ValueModel::Array {
        element_kind: Type::Pair,
        items: Seq::new(entries.len(), |i: int| named_value(entries[i].0, entries[i].1)),
    }
}

/// The value that lists a catalogue: the array of the named listings of its
/// traits.
pub open spec fn listing_value(
    listing: Seq<(Seq<char>, Seq<(Seq<char>, ValueModel)>)>,
) -> ValueModel {
    ValueModel::Array {
        element_kind: Type::Pair,
        items: Seq::new(
            listing.len(),
            |i: int| named_value(listing[i].0, elements_value(listing[i].1)),
        ),
    }
}

/// The elements that the first `n` entries of a trait describe, each with its
/// name.
pub open spec fn parsed_entries(entries: Seq<(Seq<char>, ValueModel)>, n: nat) -> Seq<
    (Seq<char>, ElementModel),
> {
    Seq::new(n, |i: int| (entries[i].0, parse_element(entries[i].1)->Ok_0))
}

/// The elements of the first `n` traits of a listing, each with the trait's
/// name.
pub open spec fn parsed_listing(
    listing: Seq<(Seq<char>, Seq<(Seq<char>, ValueModel)>)>,
    n: nat,
) -> Seq<(Seq<char>, ElementsModel)> {
    Seq::new(
        n,
        |i: int| (listing[i].0, parse_elements(listing[i].1, listing[i].1.len())->Ok_0),
    )
}

/// Whether every descriptor of a listing describes an element.
pub open spec fn all_described(listing: Seq<(Seq<char>, Seq<(Seq<char>, ValueModel)>)>) -> bool {
    forall|t: int, j: int|
        0 <= t < listing.len() && 0 <= j < listing[t].1.len() ==> parse_element(
            #[trigger] listing[t].1[j].1,
        ) is Ok
}

/// The listing of a trait's elements is read back as it was written.
pub proof fn lemma_elements_value_decodes(entries: Seq<(Seq<char>, ValueModel)>, n: nat)
    requires
        n <= entries.len(),
    ensures
        crate::decode::decoded_prefix::<(String, ValueView)>(
            elements_value(entries)->Array_items,
            n,
        ) == Ok::<Seq<(Seq<char>, ValueModel)>, Error>(entries.take(n as int)),
    decreases n,
{
    let items = elements_value(entries)->Array_items;
    if n == 0 {
        assert(entries.take(0) =~= Seq::<(Seq<char>, ValueModel)>::empty());
    } else {
        lemma_elements_value_decodes(entries, (n - 1) as nat);
        assert(items[n - 1] == named_value(entries[n - 1].0, entries[n - 1].1));
        assert(<(String, ValueView) as FromDicey>::decoded(items[n - 1]) == Ok::<
            (Seq<char>, ValueModel),
            Error,
        >(entries[n - 1]));
        assert(entries.take(n as int) =~= entries.take(n - 1).push(entries[n - 1]));
    }
}

/// The listing of a catalogue is read back as it was written.
pub proof fn lemma_listing_value_decodes(
    listing: Seq<(Seq<char>, Seq<(Seq<char>, ValueModel)>)>,
    n: nat,
)
    requires
        n <= listing.len(),
    ensures
        crate::decode::decoded_prefix::<(String, Vec<(String, ValueView)>)>(
            listing_value(listing)->Array_items,
            n,
        ) == Ok::<Seq<(Seq<char>, Seq<(Seq<char>, ValueModel)>)>, Error>(listing.take(n as int)),
    decreases n,
{
    let items = listing_value(listing)->Array_items;
    if n == 0 {
        assert(listing.take(0) =~= Seq::<(Seq<char>, Seq<(Seq<char>, ValueModel)>)>::empty());
    } else {
        lemma_listing_value_decodes(listing, (n - 1) as nat);
        let entries = listing[n - 1].1;
        lemma_elements_value_decodes(entries, entries.len());
        assert(entries.take(entries.len() as int) =~= entries);
        assert(items[n - 1] == named_value(listing[n - 1].0, elements_value(entries)));
        assert(<Vec<(String, ValueView)> as FromDicey>::decoded(elements_value(entries)) == Ok::<
            Seq<(Seq<char>, ValueModel)>,
            Error,
        >(entries));
        assert(<(String, Vec<(String, ValueView)>) as FromDicey>::decoded(items[n - 1]) == Ok::<
            (Seq<char>, Seq<(Seq<char>, ValueModel)>),
            Error,
        >(listing[n - 1]));
        assert(listing.take(n as int) =~= listing.take(n - 1).push(listing[n - 1]));
    }
}

/// Where every descriptor describes an element, the entries of a trait are
/// read as the map of the elements they describe.
pub proof fn lemma_parse_elements_is_map(entries: Seq<(Seq<char>, ValueModel)>, n: nat)
    requires
        n <= entries.len(),
        forall|j: int| 0 <= j < n ==> parse_element(#[trigger] entries[j].1) is Ok,
    ensures
        parse_elements(entries, n) == Ok::<ElementsModel, Error>(
            crate::dict::map_of(parsed_entries(entries, n)),
        ),
    decreases n,
{
    if n > 0 {
        lemma_parse_elements_is_map(entries, (n - 1) as nat);
        assert(parse_element(entries[n - 1].1) is Ok);
        assert(parsed_entries(entries, n).drop_last() =~= parsed_entries(entries, (n - 1) as nat));
    }
}

/// Where every descriptor describes an element, the traits of a listing are
/// read as the map of their elements.
pub proof fn lemma_parse_listing_is_map(
    listing: Seq<(Seq<char>, Seq<(Seq<char>, ValueModel)>)>,
    n: nat,
)
    requires
        n <= listing.len(),
        all_described(listing),
    ensures
        parse_listing(listing, n) == Ok::<TraitsModel, Error>(
            crate::dict::map_of(parsed_listing(listing, n)),
        ),
    decreases n,
{
    if n > 0 {
        lemma_parse_listing_is_map(listing, (n - 1) as nat);
        let entries = listing[n - 1].1;
        assert forall|j: int| 0 <= j < entries.len() implies parse_element(
            #[trigger] entries[j].1,
        ) is Ok by {
            assert(parse_element(listing[n - 1].1[j].1) is Ok);
        }
        lemma_parse_elements_is_map(entries, entries.len());
        assert(parsed_listing(listing, n).drop_last() =~= parsed_listing(listing, (n - 1) as nat));
    }
}

/// Introspection: a catalogue in which every descriptor describes an element
/// is read as exactly what it lists. The result maps every trait's name to
/// the map of its elements, and every element's name to the element that its
/// descriptor describes. Where a name is listed twice, the later listing
/// stands, as [`crate::dict::map_of`] says; where the names differ,
/// [`crate::dict::lemma_map_of_entry`] and [`crate::dict::lemma_map_of_dom`]
/// say that each listed name, and no other, is in the map with its own
/// element.
pub proof fn lemma_catalogue_is_read(listing: Seq<(Seq<char>, Seq<(Seq<char>, ValueModel)>)>)
    requires
        all_described(listing),
    ensures
        parse_traits(listing_value(listing)) == Ok::<TraitsModel, Error>(
            crate::dict::map_of(parsed_listing(listing, listing.len())),
        ),
{
    lemma_listing_value_decodes(listing, listing.len());
    assert(listing.take(listing.len() as int) =~= listing);
    lemma_parse_listing_is_map(listing, listing.len());
}

/// The descriptor of an element: its kind byte, its signature and, where one
/// is given, its read-only flag.
pub open spec fn descriptor(kind: u8, signature: Seq<char>, readonly: Option<bool>) -> ValueModel {
    match readonly {
        Some(flag) => ValueModel::Tuple(
            seq![ValueModel::Byte(kind), ValueModel::String(signature), ValueModel::Bool(flag)],
        ),
        None => ValueModel::Tuple(seq![ValueModel::Byte(kind), ValueModel::String(signature)]),
    }
}

/// Introspection of an object with one trait that has one operation, one
/// read-only property and one signal, under three names that differ: whatever
/// the order in which the three are listed, the catalogue that is read has
/// that trait and no other, the trait has those three elements and no other,
/// and each has its signature; the property is read-only.
pub proof fn lemma_three_elements_are_read(
    trait_name: Seq<char>,
    entries: Seq<(Seq<char>, ValueModel)>,
    operation: (Seq<char>, Seq<char>),
    property: (Seq<char>, Seq<char>),
    signal: (Seq<char>, Seq<char>),
)
    requires
        operation.0 != property.0,
        operation.0 != signal.0,
        property.0 != signal.0,
        entries.len() == 3,
        entries.contains((operation.0, descriptor(ELEMENT_TYPE_OPERATION, operation.1, None))),
        entries.contains((property.0, descriptor(ELEMENT_TYPE_PROPERTY, property.1, Some(true)))),
        entries.contains((signal.0, descriptor(ELEMENT_TYPE_SIGNAL, signal.1, None))),
    ensures
        parse_traits(listing_value(seq![(trait_name, entries)])) matches Ok(traits) && {
            &&& traits.dom() =~= set![trait_name]
            &&& traits[trait_name].dom() =~= set![operation.0, property.0, signal.0]
            &&& traits[trait_name][operation.0] == ElementModel::Operation {
                signature: operation.1,
            }
            &&& traits[trait_name][property.0] == ElementModel::Property {
                signature: property.1,
                readonly: true,
            }
            &&& traits[trait_name][signal.0] == ElementModel::Signal { signature: signal.1 }
        },
{
    let listing = seq![(trait_name, entries)];
    let op = (operation.0, descriptor(ELEMENT_TYPE_OPERATION, operation.1, None));
    let prop = (property.0, descriptor(ELEMENT_TYPE_PROPERTY, property.1, Some(true)));
    let sig = (signal.0, descriptor(ELEMENT_TYPE_SIGNAL, signal.1, None));
    let a = choose|a: int| 0 <= a < 3 && entries[a] == op;
    let b = choose|b: int| 0 <= b < 3 && entries[b] == prop;
    let c = choose|c: int| 0 <= c < 3 && entries[c] == sig;
    assert(a != b && a != c && b != c);
    assert(all_described(listing)) by {
        assert forall|t: int, j: int|
            0 <= t < listing.len() && 0 <= j < listing[t].1.len() implies parse_element(
            #[trigger] listing[t].1[j].1,
        ) is Ok by {
            assert(listing[t].1 == entries);
            assert(j == a || j == b || j == c);
        }
    }
    lemma_catalogue_is_read(listing);
    let parsed = parsed_entries(entries, 3);
    let traits = parse_traits(listing_value(listing))->Ok_0;
    lemma_parse_elements_is_map(entries, 3);
    let listed = parsed_listing(listing, 1);
    assert(listed =~= seq![(trait_name, crate::dict::map_of(parsed))]);
    assert(listed.last() == (trait_name, crate::dict::map_of(parsed)));
    assert(crate::dict::map_of(listed.drop_last()) =~= Map::<Seq<char>, ElementsModel>::empty());
    assert(crate::dict::map_of(listed) == crate::dict::map_of(listed.drop_last()).insert(
        trait_name,
        crate::dict::map_of(parsed),
    ));
    assert(traits =~= Map::<Seq<char>, ElementsModel>::empty().insert(
        trait_name,
        crate::dict::map_of(parsed),
    ));
    assert(distinct_names(parsed)) by {
        assert forall|i: int, j: int| 0 <= i < 3 && 0 <= j < 3 && i != j implies (
        #[trigger] parsed[i]).0 != (#[trigger] parsed[j]).0 by {
            assert(i == a || i == b || i == c);
            assert(j == a || j == b || j == c);
        }
    }
    crate::dict::lemma_map_of_entry(parsed, a);
    crate::dict::lemma_map_of_entry(parsed, b);
    crate::dict::lemma_map_of_entry(parsed, c);
    assert forall|name: Seq<char>|
        crate::dict::map_of(parsed).dom().contains(name) == set![
            operation.0,
            property.0,
            signal.0,
        ].contains(name) by {
        crate::dict::lemma_map_of_dom(parsed, name);
        if crate::dict::map_of(parsed).dom().contains(name) {
            let i = choose|i: int| 0 <= i < parsed.len() && (#[trigger] parsed[i]).0 == name;
            assert(i == a || i == b || i == c);
        }
        if name == operation.0 {
            assert(parsed[a].0 == name);
        }
        if name == property.0 {
            assert(parsed[b].0 == name);
        }
        if name == signal.0 {
            assert(parsed[c].0 == name);
        }
    }
}

} // verus!
