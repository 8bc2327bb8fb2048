//! The race selector and the aggregation combinators built on it:
//! `first_of` and `all` wait across many futures simultaneously.

use vstd::prelude::*;

use crate::channel::{clone_sender, new_channel, recv_message, send_message};
use crate::executor::spawn_task;
use crate::futures::{promise, Future};
use crate::outcome::FutureError;

verus! {

/// One delivery reported by the selector: the original position of a
/// registered future together with its outcome, or `None` once no further
/// delivery can arrive.
pub type Event<T> = Option<(usize, Result<T, FutureError>)>;

/// A multiplexer over many futures. Every input future is watched by a
/// forwarder task that delivers the future's outcome, tagged with the
/// future's position in the input, into one merged channel; waiting on
/// that channel then reports completions one at a time, in the order they
/// happen. Dropping the selector releases every registration at once:
/// forwarders of futures that have not completed yet keep running, and
/// their deliveries are discarded.
#[verifier::reject_recursive_types(T)]
pub struct Selector<T> {
    receiver: std::sync::mpsc::Receiver<(usize, Result<T, FutureError>)>,
    registered: usize,
}

impl<T: Send + 'static> Selector<T> {
    /// How many futures were registered.
    pub closed spec fn spec_len(self) -> nat {
        self.registered as nat
    }

    /// How many futures were registered.
    pub fn len(&self) -> (n: usize)
        ensures
            n as nat == self.spec_len(),
    {
        self.registered
    }

    /// Registers every input future, tagged with its original position.
    pub fn register_all(futures: Vec<Future<T>>) -> (s: Selector<T>)
        ensures
            s.spec_len() == futures@.len(),
    {
        let total = futures.len();
        let (sender, receiver) = new_channel::<(usize, Result<T, FutureError>)>();
        let mut rest = futures;
        let mut tag: usize = 0;
        while rest.len() > 0
            invariant
                tag + rest@.len() == total,
            decreases rest@.len(),
        {
            let fut = rest.remove(0);
            let forward_to = clone_sender(&sender);
            let this_tag = tag;
            spawn_task(move || {
                let outcome = fut.get();
                let _ = send_message(&forward_to, (this_tag, outcome));
            });
            tag = tag + 1;
        }
        Selector { receiver, registered: total }
    }

    /// Blocks until the next registered future completes, and reports its
    /// original position and outcome; `None` once every registration has
    /// delivered or been discarded, when no further delivery can arrive.
    /// Which delivery comes first is decided by completion times alone, so
    /// nothing is claimed about the value.
    pub fn wait_next(&self) -> Event<T> {
        recv_message(&self.receiver)
    }
}

/// The forwarding rule of `first_of`: the first delivery wins exactly as
/// it stands, success or failure alike, and no delivery at all means that
/// every producer hung up.
pub fn first_outcome<T>(first: Event<T>) -> (o: Result<T, FutureError>)
    ensures
        first matches Some(ev) ==> o == ev.1,
        first is None ==> o == Err::<T, FutureError>(FutureError::HungUp),
{
    match first {
        Some((_, outcome)) => outcome,
        None => Err(FutureError::HungUp),
    }
}

/// The state of an `all` collection, at the specification level: one slot
/// for each input future, kept in original input order, and the failure
/// that ended the collection early, if one did.
pub struct GatherState<T> {
    pub slots: Seq<Option<T>>,
    pub failure: Option<FutureError>,
}

/// The collection as it starts: every slot empty, no failure.
pub open spec fn gather_init<T>(total: nat) -> GatherState<T> {
    GatherState { slots: Seq::new(total, |i: int| None::<T>), failure: None }
}

/// How many slots are filled.
pub open spec fn filled_count<T>(slots: Seq<Option<T>>) -> nat
    decreases slots.len(),
{
    if slots.len() == 0 {
        0
    } else {
        filled_count(slots.drop_last()) + (if slots.last() is Some {
            1nat
        } else {
            0nat
        })
    }
}

/// A collection is done once a failure ended it or every slot is filled.
pub open spec fn gather_done<T>(s: GatherState<T>) -> bool {
    s.failure is Some || filled_count(s.slots) == s.slots.len()
}

/// One step of the collection: a success fills the slot of its original
/// position (at most once), a failure — or the end of the deliveries,
/// which can only mean hang-up — is recorded and ends the collection;
/// a finished collection ignores everything.
pub open spec fn gather_step<T>(s: GatherState<T>, ev: Event<T>) -> GatherState<T> {
    if gather_done(s) {
        s
    } else {
        match ev {
            Option::None => GatherState { failure: Some(FutureError::HungUp), ..s },
            Option::Some((tag, outcome)) => match outcome {
                Ok(v) => if tag < s.slots.len() && s.slots[tag as int] is None {
                    GatherState { slots: s.slots.update(tag as int, Some(v)), ..s }
                } else {
                    s
                },
                Err(e) => GatherState { failure: Some(e), ..s },
            },
        }
    }
}

/// The collection after a whole sequence of deliveries, first to last.
pub open spec fn gather_run<T>(s: GatherState<T>, evs: Seq<Event<T>>) -> GatherState<T>
    decreases evs.len(),
{
    if evs.len() == 0 {
        s
    } else {
        gather_run(gather_step(s, evs[0]), evs.drop_first())
    }
}

/// The collector behind `all`: stores each success at the slot of its
/// original position, and short-circuits at the first failure.
pub struct Gather<T> {
    slots: Vec<Option<T>>,
    filled: usize,
    failure: Option<FutureError>,
}

impl<T> View for Gather<T> {
    type V = GatherState<T>;

    closed spec fn view(&self) -> GatherState<T> {
        GatherState { slots: self.slots@, failure: self.failure }
    }
}

impl<T> Gather<T> {
    /// The filled-slot tally is kept in step with the slots.
    pub closed spec fn wf(self) -> bool {
        self.filled == filled_count(self@.slots)
    }

    /// A fresh collection with `total` empty slots.
    pub fn new(total: usize) -> (g: Gather<T>)
        ensures
            g.wf(),
            g@ == gather_init::<T>(total as nat),
    {
        let mut slots: Vec<Option<T>> = Vec::new();
        while slots.len() < total
            invariant
                slots@.len() <= total,
                slots@ == Seq::new(slots@.len(), |i: int| None::<T>),
            decreases total - slots@.len(),
        {
            slots.push(None);
            proof {
                assert(slots@ =~= Seq::new(slots@.len(), |i: int| None::<T>));
            }
        }
        proof {
            lemma_filled_count_all_none(slots@);
            assert(slots@ =~= Seq::new(total as nat, |i: int| None::<T>));
        }
        Gather { slots, filled: 0, failure: None }
    }

    /// Whether the collection is done: failed, or every slot filled.
    pub fn is_done(&self) -> (r: bool)
        requires
            self.wf(),
        ensures
            r == gather_done(self@),
    {
        proof {
            lemma_filled_count_le(self@.slots);
        }
        self.failure.is_some() || self.filled == self.slots.len()
    }

    /// Feeds one delivery into the collection, exactly as `gather_step`
    /// says: which slot a success fills is decided by the delivery's tag
    /// alone, never by when it arrived.
    pub fn accept(&mut self, ev: Event<T>)
        requires
            old(self).wf(),
        ensures
            final(self).wf(),
            final(self)@ == gather_step(old(self)@, ev),
    {
        if self.is_done() {
            return ;
        }
        match ev {
            None => {
                self.failure = Some(FutureError::HungUp);
            },
            Some((tag, outcome)) => match outcome {
                Ok(v) => {
                    if tag < self.slots.len() {
                        if self.slots[tag].is_none() {
                            proof {
                                lemma_filled_count_le(self@.slots);
                                lemma_filled_count_update(self@.slots, tag as int, v);
                            }
                            self.slots[tag] = Some(v);
                            self.filled = self.filled + 1;
                        }
                    }
                },
                Err(e) => {
                    self.failure = Some(e);
                },
            },
        }
    }

    /// Ends the collection: the failure that short-circuited it, if one
    /// did, else every collected value, in original input order.
    pub fn finish(self) -> (r: Result<Vec<T>, FutureError>)
        requires
            self.wf(),
            gather_done(self@),
        ensures
            r matches Err(e) ==> self@.failure == Some(e),
            r matches Ok(vals) ==> self@.failure is None && vals@.len() == self@.slots.len() && (
            forall|i: int| 0 <= i < vals@.len() ==> self@.slots[i] == Some(vals@[i])),
    {
        let Gather { slots, filled: _, failure } = self;
        match failure {
            Some(e) => Err(e),
            None => {
                proof {
                    lemma_filled_count_full(slots@);
                }
                Ok(unwrap_all(slots))
            },
        }
    }
}

/// Extracts the value out of every slot, in order.
fn unwrap_all<T>(slots: Vec<Option<T>>) -> (vals: Vec<T>)
    requires
        forall|i: int| 0 <= i < slots@.len() ==> slots@[i] is Some,
    ensures
        vals@.len() == slots@.len(),
        forall|i: int| 0 <= i < vals@.len() ==> slots@[i] == Some(vals@[i]),
{
    let mut rest = slots;
    let mut vals: Vec<T> = Vec::new();
    while rest.len() > 0
        invariant
            forall|i: int| 0 <= i < slots@.len() ==> slots@[i] is Some,
            vals@.len() + rest@.len() == slots@.len(),
            forall|i: int| #![trigger rest@[i]] 0 <= i < rest@.len() ==> rest@[i] == slots@[vals@.len() + i],
            forall|i: int| #![trigger vals@[i]] 0 <= i < vals@.len() ==> slots@[i] == Some(vals@[i]),
        decreases rest@.len(),
    {
        let ghost earlier = rest@;
        let ghost taken = vals@.len() as int;
        let slot = rest.remove(0);
        proof {
            assert(slot == earlier[0]);
            assert(slot == slots@[taken]);
            assert(forall|i: int| #![trigger rest@[i]] 0 <= i < rest@.len() ==> rest@[i] == earlier[i + 1]);
        }
        vals.push(slot.unwrap());
    }
    vals
}

/// Drives a selector to completion: repeatedly waits for the next
/// delivery and feeds it to a collector, until the collection is done.
/// More deliveries than registrations cannot arrive, each registered
/// future delivering at most once; were the deliveries nevertheless to dry
/// up or run over, the collection is closed with a hang-up. The outcome
/// returned is exactly the specification-level collection, `gather_run`,
/// of the sequence of deliveries that was consumed — whatever completion
/// order that sequence reflects; the ghost result names that sequence.
pub fn gather_outcomes<T: Send + 'static>(selector: Selector<T>) -> (out: (
    Result<Vec<T>, FutureError>,
    Ghost<Seq<Event<T>>>,
))
    ensures
        ({
            let end = gather_run(gather_init::<T>(selector.spec_len()), out.1@);
            &&& gather_done(end)
            &&& end.slots.len() == selector.spec_len()
            &&& out.0 matches Err(e) ==> end.failure == Some(e)
            &&& out.0 matches Ok(vals) ==> end.failure is None && vals@.len()
                == selector.spec_len() && (forall|i: int|
                0 <= i < vals@.len() ==> end.slots[i] == Some(vals@[i]))
        }),
{
    let total = selector.len();
    let mut gather = Gather::<T>::new(total);
    let ghost mut events: Seq<Event<T>> = Seq::empty();
    let mut budget = total;
    let mut done = gather.is_done();
    while !done && budget > 0
        invariant
            gather.wf(),
            done == gather_done(gather@),
            gather@ == gather_run(gather_init::<T>(total as nat), events),
        decreases budget,
    {
        let ev = selector.wait_next();
        proof {
            lemma_gather_run_snoc(gather_init::<T>(total as nat), events, ev);
            events = events.push(ev);
        }
        gather.accept(ev);
        done = gather.is_done();
        budget = budget - 1;
    }
    if !done {
        proof {
            lemma_gather_run_snoc(gather_init::<T>(total as nat), events, None);
            events = events.push(None);
        }
        gather.accept(None);
    }
    proof {
        lemma_gather_init_len::<T>(total as nat, events);
    }
    (gather.finish(), Ghost(events))
}

impl<T: Send + 'static> Future<T> {
    /// The first completion among the inputs wins, success and failure
    /// alike: a background task registers every input with a selector,
    /// waits for the first delivery, completes the returned future with
    /// it, and then drops every registration. Losing computations are not
    /// cancelled; they run on to completion and their outcomes are
    /// discarded. With no inputs at all nothing can ever deliver, and the
    /// returned future fails by hang-up.
    pub fn first_of(futures: Vec<Future<T>>) -> (f: Future<T>)
        ensures
            f.ready_outcome() is None,
    {
        let (p, f) = promise::<T>();
        spawn_task(move || {
            let selector = Selector::register_all(futures);
            let first = selector.wait_next();
            p.send(first_outcome(first));
        });
        f
    }

    /// Collects every input's success into one future holding the values
    /// in original input order, whatever order the completions arrive in;
    /// the first failure observed ends the waiting early and becomes the
    /// returned future's failure, and no collected value is ever observed
    /// alongside it. Losing computations keep running; their deliveries
    /// are discarded once the selector is dropped.
    pub fn all(futures: Vec<Future<T>>) -> (f: Future<Vec<T>>)
        ensures
            f.ready_outcome() is None,
    {
        let (p, f) = promise::<Vec<T>>();
        spawn_task(move || {
            let selector = Selector::register_all(futures);
            let (outcome, _events) = gather_outcomes(selector);
            match outcome {
                Ok(vals) => {
                    let _ = p.resolve(vals);
                },
                Err(e) => p.fail(e),
            }
        });
        f
    }
}

/// Some delivery in `evs` carries the tag `i`.
pub open spec fn delivers_tag<T>(evs: Seq<Event<T>>, i: int) -> bool {
    exists|k: int| 0 <= k < evs.len() && ((#[trigger] evs[k]) matches Some(p) && p.0 == i)
}

/// Law: when every registered future delivers a success, the collection
/// holds each future's value at the slot of the future's original
/// position — `Ok` of the values in exact input order — and the order in
/// which the deliveries arrive has no bearing on the result. The
/// deliveries here are any sequence of successes that match the values by
/// tag, each registered position delivering at least once.
pub proof fn lemma_gather_inputs_ordered<T>(total: nat, evs: Seq<Event<T>>, vals: Seq<T>)
    requires
        vals.len() == total,
        forall|k: int|
            0 <= k < evs.len() ==> ((#[trigger] evs[k]) matches Some(p) && (p.0 as int) < total
                && p.1 == Ok::<T, FutureError>(vals[p.0 as int])),
        forall|i: int| 0 <= i < total ==> #[trigger] delivers_tag(evs, i),
    ensures
        ({
            let end = gather_run(gather_init::<T>(total), evs);
            &&& end.failure is None
            &&& end.slots.len() == total
            &&& forall|i: int| 0 <= i < total ==> end.slots[i] == Some(vals[i])
        }),
{
    let begin = gather_init::<T>(total);
    let end = gather_run(begin, evs);
    lemma_gather_success_run(begin, evs, vals);
    assert forall|i: int| 0 <= i < total implies end.slots[i] == Some(vals[i]) by {
        assert(delivers_tag(evs, i));
        let k = choose|k: int|
            0 <= k < evs.len() && ((#[trigger] evs[k]) matches Some(p) && p.0 == i);
        assert(evs[k] matches Some(p) ==> end.slots[p.0 as int] is Some);
        assert(end.slots[i] is Some);
    }
}

/// Law: the first failure among the deliveries is the one the collection
/// reports, every delivery before it being a success; everything after it
/// is ignored, so no collected value stands beside it in the result. The
/// failure must arrive while slots remain unfilled, which always holds of
/// a selector's deliveries — at most one for each registered future.
pub proof fn lemma_gather_short_circuit<T>(total: nat, evs: Seq<Event<T>>, at: int, e: FutureError)
    requires
        0 <= at < evs.len(),
        at < total,
        forall|j: int| 0 <= j < at ==> ((#[trigger] evs[j]) matches Some(p) && p.1 is Ok),
        evs[at] matches Some(p) && p.1 == Err::<T, FutureError>(e),
    ensures
        gather_run(gather_init::<T>(total), evs).failure == Some(e),
{
    let begin = gather_init::<T>(total);
    lemma_filled_count_all_none(begin.slots);
    lemma_gather_failure_run(begin, evs, at, e);
}

/// A finished collection ignores every further delivery.
proof fn lemma_gather_run_done<T>(s: GatherState<T>, evs: Seq<Event<T>>)
    requires
        gather_done(s),
    ensures
        gather_run(s, evs) == s,
    decreases evs.len(),
{
    if evs.len() > 0 {
        assert(gather_step(s, evs[0]) == s);
        lemma_gather_run_done(s, evs.drop_first());
    }
}

/// An unfinished collection fed successes and then one failure ends with
/// exactly that failure recorded.
proof fn lemma_gather_failure_run<T>(s: GatherState<T>, evs: Seq<Event<T>>, at: int, e: FutureError)
    requires
        s.failure is None,
        filled_count(s.slots) + at < s.slots.len(),
        0 <= at < evs.len(),
        forall|j: int| 0 <= j < at ==> ((#[trigger] evs[j]) matches Some(p) && p.1 is Ok),
        evs[at] matches Some(p) && p.1 == Err::<T, FutureError>(e),
    ensures
        gather_run(s, evs).failure == Some(e),
    decreases at,
{
    lemma_filled_count_le(s.slots);
    assert(!gather_done(s));
    let s1 = gather_step(s, evs[0]);
    if at == 0 {
        assert(s1.failure == Some(e));
        lemma_gather_run_done(s1, evs.drop_first());
        assert(gather_run(s, evs) == gather_run(s1, evs.drop_first()));
    } else {
        match evs[0] {
            Some((tag, outcome)) => match outcome {
                Ok(v) => {
                    if (tag as int) < s.slots.len() && s.slots[tag as int] is None {
                        lemma_filled_count_update(s.slots, tag as int, v);
                    }
                },
                Err(_) => {
                    assert(false);
                },
            },
            None => {
                assert(false);
            },
        }
        assert(filled_count(s1.slots) + (at - 1) < s1.slots.len());
        assert(forall|j: int|
            0 <= j < evs.drop_first().len() ==> evs.drop_first()[j] == evs[j + 1]);
        lemma_gather_failure_run(s1, evs.drop_first(), at - 1, e);
        assert(gather_run(s, evs) == gather_run(s1, evs.drop_first()));
    }
}

/// Feeding an unfinished collection nothing but matching successes leaves
/// no failure, loses no filled slot, never fills a slot wrongly, and
/// fills the slot of every delivered tag.
proof fn lemma_gather_success_run<T>(s: GatherState<T>, evs: Seq<Event<T>>, vals: Seq<T>)
    requires
        s.failure is None,
        s.slots.len() == vals.len(),
        forall|i: int|
            0 <= i < s.slots.len() ==> (#[trigger] s.slots[i]) is None || s.slots[i] == Some(
                vals[i],
            ),
        forall|k: int|
            0 <= k < evs.len() ==> ((#[trigger] evs[k]) matches Some(p) && (p.0 as int)
                < vals.len() && p.1 == Ok::<T, FutureError>(vals[p.0 as int])),
    ensures
        ({
            let end = gather_run(s, evs);
            &&& end.failure is None
            &&& end.slots.len() == s.slots.len()
            &&& forall|i: int|
                0 <= i < s.slots.len() ==> (#[trigger] end.slots[i]) is None || end.slots[i]
                    == Some(vals[i])
            &&& forall|i: int|
                0 <= i < s.slots.len() && (#[trigger] s.slots[i]) is Some ==> end.slots[i]
                    == s.slots[i]
            &&& forall|k: int|
                0 <= k < evs.len() ==> ((#[trigger] evs[k]) matches Some(p) ==> end.slots[p.0
                    as int] is Some)
        }),
    decreases evs.len(),
{
    if evs.len() > 0 {
        if gather_done(s) {
            lemma_filled_count_full(s.slots);
            lemma_gather_run_done(s, evs);
            assert(gather_run(s, evs) == s);
            assert(forall|i: int| 0 <= i < s.slots.len() ==> (#[trigger] s.slots[i]) is Some);
        } else {
            match evs[0] {
                Some((tag, outcome)) => match outcome {
                    Ok(v) => {
                        if s.slots[tag as int] is None {
                            lemma_filled_count_update(s.slots, tag as int, v);
                        }
                        let s1 = gather_step(s, evs[0]);
                        assert(s1.failure is None);
                        assert(s1.slots.len() == s.slots.len());
                        assert(s1.slots[tag as int] == Some(vals[tag as int]));
                        assert(forall|j: int|
                            0 <= j < evs.drop_first().len() ==> #[trigger] evs.drop_first()[j]
                                == evs[j + 1]);
                        lemma_gather_success_run(s1, evs.drop_first(), vals);
                        let end = gather_run(s1, evs.drop_first());
                        assert(gather_run(s, evs) == end);
                        assert(end.slots[tag as int] == s1.slots[tag as int]);
                        assert forall|i: int|
                            0 <= i < s.slots.len() && (#[trigger] s.slots[i]) is Some implies
                        end.slots[i] == s.slots[i] by {
                            assert(s1.slots[i] == s.slots[i]);
                        }
                        assert forall|k: int| 0 <= k < evs.len() implies ((#[trigger] evs[k])
                            matches Some(p) ==> end.slots[p.0 as int] is Some) by {
                            if k > 0 {
                                assert(evs.drop_first()[k - 1] == evs[k]);
                            } else {
                                assert(end.slots[tag as int] is Some);
                            }
                        }
                    },
                    Err(_) => {
                        assert(false);
                    },
                },
                None => {
                    assert(false);
                },
            }
        }
    }
}

/// Slots of a fresh collection are all empty, so none is filled.
proof fn lemma_filled_count_all_none<T>(slots: Seq<Option<T>>)
    requires
        forall|i: int| 0 <= i < slots.len() ==> slots[i] is None,
    ensures
        filled_count(slots) == 0,
    decreases slots.len(),
{
    if slots.len() > 0 {
        lemma_filled_count_all_none(slots.drop_last());
    }
}

/// No more slots are filled than there are.
proof fn lemma_filled_count_le<T>(slots: Seq<Option<T>>)
    ensures
        filled_count(slots) <= slots.len(),
    decreases slots.len(),
{
    if slots.len() > 0 {
        lemma_filled_count_le(slots.drop_last());
    }
}

/// Filling one empty slot fills exactly one slot.
proof fn lemma_filled_count_update<T>(slots: Seq<Option<T>>, at: int, v: T)
    requires
        0 <= at < slots.len(),
        slots[at] is None,
    ensures
        filled_count(slots.update(at, Some(v))) == filled_count(slots) + 1,
    decreases slots.len(),
{
    let updated = slots.update(at, Some(v));
    if at == slots.len() - 1 {
        assert(updated.drop_last() =~= slots.drop_last());
    } else {
        lemma_filled_count_update(slots.drop_last(), at, v);
        assert(updated.drop_last() =~= slots.drop_last().update(at, Some(v)));
        assert(updated.last() == slots.last());
    }
}

/// Once every slot is filled, each slot is filled.
proof fn lemma_filled_count_full<T>(slots: Seq<Option<T>>)
    requires
        filled_count(slots) == slots.len(),
    ensures
        forall|i: int| 0 <= i < slots.len() ==> slots[i] is Some,
    decreases slots.len(),
{
    if slots.len() > 0 {
        lemma_filled_count_le(slots.drop_last());
        assert(slots.last() is Some);
        lemma_filled_count_full(slots.drop_last());
        assert(forall|i: int| 0 <= i < slots.len() - 1 ==> slots[i] == slots.drop_last()[i]);
    }
}

/// Running one more delivery after a sequence is one more step.
proof fn lemma_gather_run_snoc<T>(s: GatherState<T>, evs: Seq<Event<T>>, ev: Event<T>)
    ensures
        gather_run(s, evs.push(ev)) == gather_step(gather_run(s, evs), ev),
    decreases evs.len(),
{
    if evs.len() == 0 {
        assert(evs.push(ev)[0] == ev);
        assert(evs.push(ev).drop_first() =~= Seq::<Event<T>>::empty());
        assert(gather_run(s, evs) == s);
        assert(gather_run(gather_step(s, ev), Seq::<Event<T>>::empty()) == gather_step(s, ev));
    } else {
        lemma_gather_run_snoc(gather_step(s, evs[0]), evs.drop_first(), ev);
        assert(evs.push(ev)[0] == evs[0]);
        assert(evs.push(ev).drop_first() =~= evs.drop_first().push(ev));
        assert(gather_run(s, evs) == gather_run(gather_step(s, evs[0]), evs.drop_first()));
        assert(gather_run(s, evs.push(ev)) == gather_run(
            gather_step(s, evs[0]),
            evs.drop_first().push(ev),
        ));
    }
}

/// A run never changes how many slots there are.
proof fn lemma_gather_init_len<T>(total: nat, evs: Seq<Event<T>>)
    ensures
        gather_run(gather_init::<T>(total), evs).slots.len() == total,
{
    lemma_gather_run_len(gather_init::<T>(total), evs);
}

/// A step never changes how many slots there are, nor does a run.
proof fn lemma_gather_run_len<T>(s: GatherState<T>, evs: Seq<Event<T>>)
    ensures
        gather_run(s, evs).slots.len() == s.slots.len(),
    decreases evs.len(),
{
    if evs.len() > 0 {
        lemma_gather_run_len(gather_step(s, evs[0]), evs.drop_first());
    }
}

} // verus!
