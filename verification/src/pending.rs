//! The registry of outstanding requests: one single-use completion sink for
//! each sequence number that is waiting for its answer.
//!
//! A sink is registered when its request is dispatched and leaves the registry
//! exactly once: when the completion for its sequence number arrives, when
//! its request times out, or when the connection is torn down. A completion
//! for a sequence number that has no sink (one that has been retired, or was
//! never registered) is discarded and changes nothing.
//!
//! Deciding and firing are two steps. The registry decides which sink leaves
//! and with which outcome, and hands both back as a [`Firing`]; firing it is
//! the one call that reaches the other side of the sink. The contracts name
//! the sinks themselves ([`PendingRequests::sinks`], [`Firing::sink`]): the
//! sink that leaves is the one that was registered under the sequence number
//! asked for, and every other sink stays where it was.

use vstd::prelude::*;

use crate::error::Error;
use crate::packet::Message;
use crate::trusted::oneshot_send;
use futures::channel::oneshot::Sender;

verus! {

/// What became of one completion.
#[derive(Clone, Copy, Debug, PartialEq, Eq, Structural)]
pub enum Delivery {
    /// The sink of the sequence number was fired and its caller has the
    /// outcome.
    Delivered,
    /// The sink of the sequence number was fired, but its caller had stopped
    /// waiting.
    Abandoned,
    /// No sink was registered under the sequence number: nothing was fired.
    Discarded,
}

/// A sink that has left the registry, together with the outcome that it is to
/// be fired with. Firing uses both up, so a sink is fired at most once, and
/// with nothing but the outcome that was decided for it.
#[verifier::reject_recursive_types(T)]
pub struct Firing<T> {
    sink: Sender<T>,
    outcome: T,
}

impl<T> Firing<T> {
    /// The sink that is fired.
    pub closed spec fn sink(&self) -> Sender<T> {
        self.sink
    }

    /// The outcome that the sink is fired with.
    pub closed spec fn outcome(&self) -> T {
        self.outcome
    }

    /// Puts a sink and its outcome together.
    pub fn new(sink: Sender<T>, outcome: T) -> (firing: Firing<T>)
        ensures
            firing.sink() == sink,
            firing.outcome() == outcome,
    {
        Firing { sink, outcome }
    }

    /// The outcome that the sink is fired with.
    pub fn peek(&self) -> (outcome: &T)
        ensures
            *outcome == self.outcome(),
    {
        &self.outcome
    }

    /// Fires the sink with the outcome. Whether the caller still waited for
    /// it is for the other side of the sink to say.
    pub fn fire(self) -> (d: Delivery)
        ensures
            d == Delivery::Delivered || d == Delivery::Abandoned,
    {
        if oneshot_send(self.sink, self.outcome) {
            Delivery::Delivered
        } else {
            Delivery::Abandoned
        }
    }
}

/// Whether `firings` holds the sinks of `sinks`, each of them once: the
/// firings can be numbered by the sequence numbers of `sinks`, every number
/// once, so that each firing holds the sink registered under its number.
pub open spec fn takes_each_once<T>(firings: Seq<Firing<T>>, sinks: Map<u32, Sender<T>>) -> bool {
    exists|numbers: Seq<u32>|
        {
            &&& #[trigger] numbers.no_duplicates()
            &&& numbers.len() == firings.len()
            &&& numbers.to_set() == sinks.dom()
            &&& forall|i: int|
                0 <= i < firings.len() ==> (#[trigger] firings[i]).sink() == sinks[numbers[i]]
        }
}

/// The model of the registry: the sequence numbers that have a sink, and
/// whether the registry has been closed. Which sink each number has is
/// [`PendingRequests::sinks`].
pub struct PendingModel {
    pub pending: Set<u32>,
    pub closed: bool,
}

impl PendingModel {
    /// A registry that holds nothing and is open.
    pub open spec fn fresh() -> PendingModel {
        PendingModel { pending: Set::empty(), closed: false }
    }

    /// Registering a sink: `Cancelled` once the registry is closed, `Already`
    /// while the sequence number has a sink.
    pub open spec fn register(self, seq: u32) -> Result<PendingModel, Error> {
        if self.closed {
            Err(Error::Cancelled)
        } else if self.pending.contains(seq) {
            Err(Error::Already)
        } else {
            Ok(PendingModel { pending: self.pending.insert(seq), closed: self.closed })
        }
    }

    /// The sinks that a completion for `seq` fires: the one registered under
    /// `seq` if there is one, and no other.
    pub open spec fn fired_by(self, seq: u32) -> Set<u32> {
        if self.pending.contains(seq) {
            set![seq]
        } else {
            Set::empty()
        }
    }

    /// The registry after a completion for `seq`.
    pub open spec fn complete(self, seq: u32) -> PendingModel {
        PendingModel { pending: self.pending.remove(seq), closed: self.closed }
    }

    /// The registry after teardown.
    pub open spec fn close(self) -> PendingModel {
        PendingModel { pending: Set::empty(), closed: true }
    }
}

/// The registry of outstanding requests.
pub struct PendingRequests {
    sinks: Vec<(u32, Sender<Result<Message, Error>>)>,
    closed: bool,
}

impl View for PendingRequests {
    type V = PendingModel;

    /// The sequence numbers that wait, and whether the registry is closed.
    /// The sink of each number is [`PendingRequests::sinks`].
    closed spec fn view(&self) -> PendingModel {
        PendingModel {
            pending: Set::new(
                |seq: u32| exists|i: int| 0 <= i < self.sinks@.len() && self.sinks@[i].0 == seq,
            ),
            closed: self.closed,
        }
    }
}

impl PendingRequests {
    /// The invariant of the registry: no sequence number has two sinks.
    pub closed spec fn wf(&self) -> bool {
        forall|i: int, j: int|
            0 <= i < self.sinks@.len() && 0 <= j < self.sinks@.len() && i != j ==> (
            #[trigger] self.sinks@[i]).0 != (#[trigger] self.sinks@[j]).0
    }

    /// How many sinks are registered.
    pub closed spec fn count(&self) -> nat {
        self.sinks@.len()
    }

    /// Where the sink of `seq` is kept, if it has one.
    spec fn place(&self, seq: u32) -> int {
        choose|i: int| 0 <= i < self.sinks@.len() && self.sinks@[i].0 == seq
    }

    /// The sinks that are registered, each under its sequence number.
    pub closed spec fn sinks(&self) -> Map<u32, Sender<Result<Message, Error>>> {
        Map::new(
            |seq: u32| exists|i: int| 0 <= i < self.sinks@.len() && self.sinks@[i].0 == seq,
            |seq: u32| self.sinks@[self.place(seq)].1,
        )
    }

    /// The sequence numbers that have a sink are those that wait.
    pub proof fn lemma_sinks_are_pending(&self)
        ensures
            self.sinks().dom() == self@.pending,
    {
        assert(self.sinks().dom() =~= self@.pending);
    }

    /// The sink kept at place `i` is the one registered under the sequence
    /// number kept there.
    proof fn lemma_sink_at(&self, i: int)
        requires
            self.wf(),
            0 <= i < self.sinks@.len(),
        ensures
            self.sinks().dom().contains(self.sinks@[i].0),
            self.sinks()[self.sinks@[i].0] == self.sinks@[i].1,
    {
        let seq = self.sinks@[i].0;
        let k = self.place(seq);
        assert(0 <= k < self.sinks@.len() && self.sinks@[k].0 == seq);
        if k != i {
            assert(self.sinks@[k].0 != self.sinks@[i].0);
        }
    }

    /// An open registry without sinks.
    pub fn new() -> (registry: PendingRequests)
        ensures
            registry.wf(),
            registry@ == PendingModel::fresh(),
            registry.sinks() == Map::<u32, Sender<Result<Message, Error>>>::empty(),
            registry.count() == 0,
    {
        let registry = PendingRequests { sinks: Vec::new(), closed: false };
        assert(registry@.pending =~= Set::<u32>::empty());
        assert(registry.sinks() =~= Map::<u32, Sender<Result<Message, Error>>>::empty());
        registry
    }

    /// No sink is registered exactly if no sequence number is waiting.
    pub proof fn lemma_count(&self)
        ensures
            self.count() == 0 <==> self@.pending == Set::<u32>::empty(),
    {
        if self.sinks@.len() == 0 {
            assert(self@.pending =~= Set::<u32>::empty());
        } else {
            assert(self.sinks@[0].0 == self.sinks@[0].0);
            assert(self@.pending.contains(self.sinks@[0].0));
        }
    }

    /// The sinks are as many as the sequence numbers that wait: the set of
    /// those numbers is finite, and its size is the count.
    pub proof fn lemma_count_is_cardinality(&self)
        requires
            self.wf(),
        ensures
            self@.pending.finite(),
            self@.pending.len() == self.count(),
    {
        broadcast use vstd::seq_lib::seq_to_set_is_finite;

        let seqs = Seq::new(self.sinks@.len(), |i: int| self.sinks@[i].0);
        assert(seqs.no_duplicates()) by {
            assert forall|i: int, j: int|
                0 <= i < seqs.len() && 0 <= j < seqs.len() && i != j implies seqs[i]
                != seqs[j] by {
                assert(self.sinks@[i].0 != self.sinks@[j].0);
            }
        }
        assert(self@.pending =~= seqs.to_set()) by {
            assert forall|s: u32| self@.pending.contains(s) == seqs.to_set().contains(s) by {
                if self@.pending.contains(s) {
                    let i = choose|i: int| 0 <= i < self.sinks@.len() && self.sinks@[i].0 == s;
                    assert(seqs[i] == s);
                }
                if seqs.to_set().contains(s) {
                    let i = choose|i: int| 0 <= i < seqs.len() && seqs[i] == s;
                    assert(self.sinks@[i].0 == s);
                }
            }
        }
        seqs.unique_seq_to_set();
    }

    /// How many requests are outstanding.
    pub fn len(&self) -> (n: usize)
        ensures
            n == self.count(),
            n == 0 <==> self@.pending == Set::<u32>::empty(),
            self.wf() ==> self@.pending.finite() && n == self@.pending.len(),
    {
        proof {
            self.lemma_count();
            if self.wf() {
                self.lemma_count_is_cardinality();
            }
        }
        self.sinks.len()
    }

    /// Whether the registry has been closed.
    pub fn is_closed(&self) -> (closed: bool)
        ensures
            closed == self@.closed,
    {
        self.closed
    }

    /// The place of the sink registered under `seq`, if there is one.
    fn position(&self, seq: u32) -> (r: Option<usize>)
        ensures
            match r {
                Some(i) => i < self.sinks@.len() && self.sinks@[i as int].0 == seq
                    && self@.pending.contains(seq),
                None => !self@.pending.contains(seq),
            },
    {
        let mut i: usize = 0;
        while i < self.sinks.len()
            invariant
                i <= self.sinks.len(),
                forall|k: int| 0 <= k < i ==> (#[trigger] self.sinks@[k]).0 != seq,
            decreases self.sinks.len() - i,
        {
            if self.sinks[i].0 == seq {
                return Some(i);
            }
            i += 1;
        }
        None
    }

    /// Whether a request is outstanding under `seq`.
    pub fn is_pending(&self, seq: u32) -> (pending: bool)
        ensures
            pending == self@.pending.contains(seq),
    {
        self.position(seq).is_some()
    }

    /// Enters the sink of a request that is about to be sent, or decides what
    /// a sink that cannot be entered is fired with: the reason of the
    /// refusal.
    ///
    /// Whether the sink is entered is exactly [`PendingModel::register`]. A
    /// sink that is entered is the one registered under `seq` from then on,
    /// and every other sink stays where it was. A sink that is refused comes
    /// back with the error, which is also its outcome, and the registry is as
    /// it was.
    pub fn enter(&mut self, seq: u32, sink: Sender<Result<Message, Error>>) -> (r: Result<
        (),
        (Error, Firing<Result<Message, Error>>),
    >)
        requires
            old(self).wf(),
        ensures
            final(self).wf(),
            match r {
                Ok(()) => old(self)@.register(seq) == Ok::<PendingModel, Error>(final(self)@)
                    && final(self).sinks() == old(self).sinks().insert(seq, sink)
                    && final(self).count() == old(self).count() + 1,
                Err(refusal) => old(self)@.register(seq) == Err::<PendingModel, Error>(refusal.0)
                    && refusal.1.sink() == sink && refusal.1.outcome() == Err::<Message, Error>(
                    refusal.0,
                ) && final(self)@ == old(self)@ && final(self).sinks() == old(self).sinks()
                    && final(self).count() == old(self).count(),
            },
    {
        let ghost was = *self;
        if self.closed {
            return Err((Error::Cancelled, Firing::new(sink, Err(Error::Cancelled))));
        }
        match self.position(seq) {
            Some(_) => {
                Err((Error::Already, Firing::new(sink, Err(Error::Already))))
            },
            None => {
                let ghost before = self.sinks@;
                self.sinks.push((seq, sink));
                proof {
                    assert forall|s: u32| #[trigger]
                        self@.pending.contains(s) == old(self)@.pending.insert(seq).contains(
                            s,
                        ) by {
                        if old(self)@.pending.insert(seq).contains(s) {
                            if s == seq {
                                assert(self.sinks@[before.len() as int].0 == s);
                            } else {
                                let i = choose|i: int| 0 <= i < before.len() && before[i].0 == s;
                                assert(self.sinks@[i].0 == s);
                            }
                        }
                        if self@.pending.contains(s) {
                            let i = choose|i: int|
                                0 <= i < self.sinks@.len() && self.sinks@[i].0 == s;
                            if i < before.len() {
                                assert(before[i].0 == s);
                            }
                        }
                    }
                    assert(self@.pending =~= old(self)@.pending.insert(seq));
                    assert forall|i: int, j: int|
                        0 <= i < self.sinks@.len() && 0 <= j < self.sinks@.len() && i
                            != j implies (#[trigger] self.sinks@[i]).0 != (
                    #[trigger] self.sinks@[j]).0 by {
                        if i < before.len() && j < before.len() {
                            assert(before[i].0 != before[j].0);
                        } else if i < before.len() {
                            assert(before[i].0 == self.sinks@[i].0);
                        } else {
                            assert(before[j].0 == self.sinks@[j].0);
                        }
                    }
                    assert forall|s: u32| #[trigger]
                        self.sinks().dom().contains(s) implies self.sinks()[s] == was.sinks().insert(
                        seq,
                        sink,
                    )[s] by {
                        let i = choose|i: int| 0 <= i < self.sinks@.len() && self.sinks@[i].0 == s;
                        self.lemma_sink_at(i);
                        if i < before.len() {
                            was.lemma_sink_at(i);
                        }
                    }
                    self.lemma_sinks_are_pending();
                    was.lemma_sinks_are_pending();
                    assert(self.sinks() =~= was.sinks().insert(seq, sink));
                }
                Ok(())
            },
        }
    }

    /// Registers the sink of a request that is about to be sent:
    /// [`PendingRequests::enter`], and then a sink that was refused is fired.
    ///
    /// The result is exactly [`PendingModel::register`]. A sink that is
    /// accepted is the one registered under `seq` from then on. A sink that
    /// is refused is not dropped: it is fired with the error, so that whoever
    /// waits on it learns of the refusal. No other sink is touched.
    pub fn register(&mut self, seq: u32, sink: Sender<Result<Message, Error>>) -> (r: Result<
        (),
        Error,
    >)
        requires
            old(self).wf(),
        ensures
            final(self).wf(),
            match r {
                Ok(()) => old(self)@.register(seq) == Ok::<PendingModel, Error>(final(self)@)
                    && final(self).sinks() == old(self).sinks().insert(seq, sink)
                    && final(self).count() == old(self).count() + 1,
                Err(e) => old(self)@.register(seq) == Err::<PendingModel, Error>(e)
                    && final(self)@ == old(self)@ && final(self).sinks() == old(self).sinks()
                    && final(self).count() == old(self).count(),
            },
    {
        match self.enter(seq, sink) {
            Ok(()) => Ok(()),
            Err((reason, firing)) => {
                let _ = firing.fire();
                Err(reason)
            },
        }
    }

    /// Takes the sink registered under `seq` out of the registry and decides
    /// what it is fired with: the outcome given, and nothing else.
    ///
    /// If there is such a sink, that sink and no other leaves the registry
    /// and comes back with the outcome; every other sink stays registered
    /// under its own number. If there is none, the outcome is discarded and
    /// the registry is as it was, sinks and all.
    pub fn take(&mut self, seq: u32, outcome: Result<Message, Error>) -> (r: Option<
        Firing<Result<Message, Error>>,
    >)
        requires
            old(self).wf(),
        ensures
            final(self).wf(),
            final(self)@ == old(self)@.complete(seq),
            final(self).sinks() == old(self).sinks().remove(seq),
            r is Some <==> old(self)@.pending.contains(seq),
            r is None <==> old(self)@.fired_by(seq) == Set::<u32>::empty(),
            r matches Some(firing) ==> firing.sink() == old(self).sinks()[seq] && firing.outcome()
                == outcome && final(self).count() + 1 == old(self).count(),
            r is None ==> final(self)@ == old(self)@ && final(self).sinks() == old(self).sinks()
                && final(self).count() == old(self).count(),
    {
        let ghost was = *self;
        proof {
            was.lemma_sinks_are_pending();
        }
        match self.position(seq) {
            None => {
                proof {
                    assert(self@.pending.remove(seq) =~= self@.pending);
                    assert(self.sinks().remove(seq) =~= self.sinks());
                }
                None
            },
            Some(i) => {
                let ghost before = self.sinks@;
                let (_, sink) = self.sinks.remove(i);
                proof {
                    assert(old(self)@.fired_by(seq).contains(seq));
                    assert forall|s: u32| #[trigger]
                        self@.pending.contains(s) == old(self)@.pending.remove(seq).contains(
                            s,
                        ) by {
                        if old(self)@.pending.remove(seq).contains(s) {
                            let k = choose|k: int| 0 <= k < before.len() && before[k].0 == s;
                            if k < i {
                                assert(self.sinks@[k].0 == s);
                            } else {
                                assert(k != i);
                                assert(self.sinks@[k - 1].0 == s);
                            }
                        }
                        if self@.pending.contains(s) {
                            let k = choose|k: int|
                                0 <= k < self.sinks@.len() && self.sinks@[k].0 == s;
                            if k < i {
                                assert(before[k].0 == s);
                                assert(before[k].0 != before[i as int].0);
                            } else {
                                assert(before[k + 1].0 == s);
                                assert(before[k + 1].0 != before[i as int].0);
                            }
                        }
                    }
                    assert(self@.pending =~= old(self)@.pending.remove(seq));
                    assert forall|a: int, b: int|
                        0 <= a < self.sinks@.len() && 0 <= b < self.sinks@.len() && a
                            != b implies (#[trigger] self.sinks@[a]).0 != (
                    #[trigger] self.sinks@[b]).0 by {
                        let a0 = if a < i { a } else { a + 1 };
                        let b0 = if b < i { b } else { b + 1 };
                        assert(before[a0].0 != before[b0].0);
                    }
                    was.lemma_sink_at(i as int);
                    assert forall|s: u32| #[trigger]
                        self.sinks().dom().contains(s) implies self.sinks()[s]
                        == was.sinks()[s] by {
                        let k = choose|k: int| 0 <= k < self.sinks@.len() && self.sinks@[k].0 == s;
                        self.lemma_sink_at(k);
                        if k < i {
                            was.lemma_sink_at(k);
                        } else {
                            was.lemma_sink_at(k + 1);
                        }
                    }
                    self.lemma_sinks_are_pending();
                    assert(self.sinks() =~= was.sinks().remove(seq));
                }
                Some(Firing::new(sink, outcome))
            },
        }
    }

    /// Hands the outcome of a request to the sink registered under `seq`:
    /// [`PendingRequests::take`], and then the sink that was taken is fired.
    ///
    /// If there is such a sink, it is fired with the outcome and leaves the
    /// registry, and no other sink is touched. If there is none, the outcome
    /// is discarded and the registry is as it was.
    pub fn complete(&mut self, seq: u32, outcome: Result<Message, Error>) -> (d: Delivery)
        requires
            old(self).wf(),
        ensures
            final(self).wf(),
            final(self)@ == old(self)@.complete(seq),
            final(self).sinks() == old(self).sinks().remove(seq),
            d == Delivery::Discarded <==> old(self)@.fired_by(seq) == Set::<u32>::empty(),
            d != Delivery::Discarded ==> final(self).count() + 1 == old(self).count(),
            d == Delivery::Discarded ==> final(self)@ == old(self)@,
            d == Delivery::Discarded ==> final(self).sinks() == old(self).sinks(),
            d == Delivery::Discarded ==> final(self).count() == old(self).count(),
    {
        match self.take(seq, outcome) {
            None => Delivery::Discarded,
            Some(firing) => firing.fire(),
        }
    }

    /// Takes the sink of a request that has waited too long out of the
    /// registry and decides what it is fired with: `TimedOut`. Which sink
    /// leaves, and what stays, is as in [`PendingRequests::take`].
    pub fn take_timeout(&mut self, seq: u32) -> (r: Option<Firing<Result<Message, Error>>>)
        requires
            old(self).wf(),
        ensures
            final(self).wf(),
            final(self)@ == old(self)@.complete(seq),
            final(self).sinks() == old(self).sinks().remove(seq),
            r is Some <==> old(self)@.pending.contains(seq),
            r matches Some(firing) ==> firing.sink() == old(self).sinks()[seq]
                && firing.outcome() == Err::<Message, Error>(Error::TimedOut)
                && final(self).count() + 1 == old(self).count(),
            r is None ==> final(self)@ == old(self)@ && final(self).sinks() == old(self).sinks()
                && final(self).count() == old(self).count(),
    {
        self.take(seq, Err(Error::TimedOut))
    }

    /// Retires the sink of a request that has waited too long:
    /// [`PendingRequests::take_timeout`], and then the sink that was taken is
    /// fired, with `TimedOut`.
    pub fn retire(&mut self, seq: u32) -> (d: Delivery)
        requires
            old(self).wf(),
        ensures
            final(self).wf(),
            final(self)@ == old(self)@.complete(seq),
            final(self).sinks() == old(self).sinks().remove(seq),
            d == Delivery::Discarded <==> old(self)@.fired_by(seq) == Set::<u32>::empty(),
            d != Delivery::Discarded ==> final(self).count() + 1 == old(self).count(),
            d == Delivery::Discarded ==> final(self)@ == old(self)@,
            d == Delivery::Discarded ==> final(self).sinks() == old(self).sinks(),
            d == Delivery::Discarded ==> final(self).count() == old(self).count(),
    {
        match self.take_timeout(seq) {
            None => {
                proof {
                    assert(!old(self)@.fired_by(seq).contains(seq));
                }
                Delivery::Discarded
            },
            Some(firing) => {
                proof {
                    assert(old(self)@.fired_by(seq).contains(seq));
                }
                firing.fire()
            },
        }
    }

    /// Takes every sink that is still registered out of the registry and
    /// decides what each is fired with: `Cancelled`. Each sink that was
    /// registered comes back once, and nothing else does. None is left, and no
    /// sink can be registered any more.
    pub fn drain(&mut self) -> (firings: Vec<Firing<Result<Message, Error>>>)
        requires
            old(self).wf(),
        ensures
            final(self).wf(),
            final(self)@ == old(self)@.close(),
            final(self).sinks() == Map::<u32, Sender<Result<Message, Error>>>::empty(),
            takes_each_once(firings@, old(self).sinks()),
            old(self)@.pending.finite(),
            firings@.len() == old(self).count(),
            firings@.len() == old(self)@.pending.len(),
            forall|i: int|
                0 <= i < firings@.len() ==> (#[trigger] firings@[i]).outcome() == Err::<
                    Message,
                    Error,
                >(Error::Cancelled),
            final(self).count() == 0,
    {
        proof {
            self.lemma_count_is_cardinality();
        }
        let ghost was = *self;
        let ghost before = self.sinks@;
        let mut firings: Vec<Firing<Result<Message, Error>>> = Vec::new();
        self.closed = true;
        while self.sinks.len() > 0
            invariant
                firings@.len() + self.sinks@.len() == before.len(),
                self.sinks@ == before.take(self.sinks@.len() as int),
                self.closed,
                forall|i: int|
                    0 <= i < firings@.len() ==> (#[trigger] firings@[i]).outcome() == Err::<
                        Message,
                        Error,
                    >(Error::Cancelled),
                forall|i: int|
                    0 <= i < firings@.len() ==> (#[trigger] firings@[i]).sink() == before[before.len()
                        - 1 - i].1,
            decreases self.sinks@.len(),
        {
            match self.sinks.pop() {
                Some((_, sink)) => {
                    firings.push(Firing::new(sink, Err(Error::Cancelled)));
                },
                None => {},
            }
        }
        proof {
            assert(self@.pending =~= Set::<u32>::empty());
            assert(self.sinks() =~= Map::<u32, Sender<Result<Message, Error>>>::empty());
            let n = before.len() as int;
            let numbers = Seq::new(before.len(), |i: int| before[n - 1 - i].0);
            assert forall|i: int, j: int|
                0 <= i < numbers.len() && 0 <= j < numbers.len() && i != j implies numbers[i]
                != numbers[j] by {
                assert(was.sinks@[n - 1 - i].0 != was.sinks@[n - 1 - j].0);
            }
            assert forall|s: u32| numbers.to_set().contains(s) == was.sinks().dom().contains(
                s,
            ) by {
                if numbers.to_set().contains(s) {
                    let i = choose|i: int| 0 <= i < numbers.len() && numbers[i] == s;
                    was.lemma_sink_at(n - 1 - i);
                }
                if was.sinks().dom().contains(s) {
                    let k = choose|k: int| 0 <= k < before.len() && before[k].0 == s;
                    assert(numbers[n - 1 - k] == s);
                }
            }
            assert(numbers.to_set() =~= was.sinks().dom());
            assert forall|i: int| 0 <= i < firings@.len() implies (#[trigger] firings@[i]).sink()
                == was.sinks()[numbers[i]] by {
                was.lemma_sink_at(n - 1 - i);
            }
            assert(numbers.no_duplicates());
        }
        firings
    }

    /// Tears the registry down: [`PendingRequests::drain`], and then every
    /// sink that was taken is fired, with `Cancelled`. The result is the
    /// number of sinks that were fired.
    pub fn close(&mut self) -> (fired: usize)
        requires
            old(self).wf(),
        ensures
            final(self).wf(),
            final(self)@ == old(self)@.close(),
            final(self).sinks() == Map::<u32, Sender<Result<Message, Error>>>::empty(),
            fired == old(self).count(),
            fired == old(self)@.pending.len(),
            old(self)@.pending.finite(),
            final(self).count() == 0,
    {
        let mut firings = self.drain();
        let total = firings.len();
        let mut fired: usize = 0;
        while firings.len() > 0
            invariant
                fired + firings@.len() == total,
            decreases firings@.len(),
        {
            match firings.pop() {
                Some(firing) => {
                    let _ = firing.fire();
                    fired += 1;
                },
                None => {},
            }
        }
        fired
    }
}

/// Exactly once, never twice: a completion for a sequence number that has a
/// sink fires that sink and no other, and a second completion for the same
/// sequence number fires nothing.
pub proof fn lemma_fired_once(registry: PendingModel, seq: u32)
    requires
        registry.pending.contains(seq),
    ensures
        registry.fired_by(seq) == set![seq],
        registry.complete(seq).fired_by(seq) == Set::<u32>::empty(),
{
}

/// Each completion reaches one sink only: a completion for one sequence
/// number leaves every other request outstanding as it was.
pub proof fn lemma_completion_touches_one(registry: PendingModel, seq: u32, other: u32)
    requires
        other != seq,
    ensures
        registry.complete(seq).pending.contains(other) == registry.pending.contains(other),
        !registry.fired_by(seq).contains(other),
{
}

/// Each completion reaches the sink of its own request: taking the sink of
/// `seq` leaves every other sink registered under its own number, and leaves
/// no sink under `seq`.
pub proof fn lemma_other_sinks_stay<S>(sinks: Map<u32, S>, seq: u32, other: u32)
    requires
        other != seq,
    ensures
        !sinks.remove(seq).dom().contains(seq),
        sinks.remove(seq).dom().contains(other) == sinks.dom().contains(other),
        sinks.dom().contains(other) ==> sinks.remove(seq)[other] == sinks[other],
{
}

/// A sink that is entered under a sequence number that had none disturbs no
/// other: but for the new one the sinks are as they were.
pub proof fn lemma_entered_sink_is_apart<S>(sinks: Map<u32, S>, seq: u32, sink: S)
    requires
        !sinks.dom().contains(seq),
    ensures
        sinks.insert(seq, sink)[seq] == sink,
        sinks.insert(seq, sink).remove(seq) == sinks,
{
    assert(sinks.insert(seq, sink).remove(seq) =~= sinks);
}

/// Never zero: whatever is still outstanding at teardown is fired then, and
/// nothing is outstanding afterwards.
pub proof fn lemma_close_leaves_none(registry: PendingModel, seq: u32)
    ensures
        !registry.close().pending.contains(seq),
        registry.close().closed,
        registry.close().register(seq) == Err::<PendingModel, Error>(Error::Cancelled),
{
}

/// Timeout isolation: once the sink of `seq` has been retired, a completion
/// that arrives late for `seq` fires nothing and leaves the registry exactly
/// as it was, so that no other outstanding request can be affected by it.
pub proof fn lemma_late_completion_is_discarded(registry: PendingModel, seq: u32)
    ensures
        registry.complete(seq).fired_by(seq) == Set::<u32>::empty(),
        registry.complete(seq).complete(seq) == registry.complete(seq),
{
    assert(registry.pending.remove(seq).remove(seq) =~= registry.pending.remove(seq));
}

/// Timeout isolation, over the sinks: a completion for a sequence number
/// that has no sink takes none and puts none in another's place, so that
/// once the sink of `seq` has left, a late completion for `seq` finds every
/// other sink where it was.
pub proof fn lemma_late_completion_keeps_sinks<S>(sinks: Map<u32, S>, seq: u32)
    ensures
        !sinks.dom().contains(seq) ==> sinks.remove(seq) == sinks,
        sinks.remove(seq).remove(seq) == sinks.remove(seq),
{
    if !sinks.dom().contains(seq) {
        assert(sinks.remove(seq) =~= sinks);
    }
    assert(sinks.remove(seq).remove(seq) =~= sinks.remove(seq));
}

} // verus!
