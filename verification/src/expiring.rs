//! The expiring memoizer: a producer whose result is kept for a fixed time, and
//! computed anew by the first access after that.

use crate::clock::duration_nanos;
use std::marker::PhantomData;
use std::rc::Rc;
use std::time::{Duration, Instant};
use vstd::prelude::*;

verus! {

/// What an expiring memoizer is, seen from outside.
pub struct ExpiringState<T, F> {
    /// The computation that fills the slot.
    pub producer: F,
    /// How long a result stays valid, in nanoseconds. Fixed when the memoizer is made.
    pub validity: nat,
    /// The value of the last result, if the producer has run.
    pub cached: Option<T>,
    /// When the last result was computed, if the producer has run.
    pub last_computed_at: Option<Instant>,
    /// How often the producer has run since the memoizer was made.
    pub computations: nat,
}

impl<T, F> ExpiringState<T, F> {
    /// A memoizer that has not computed anything yet.
    pub open spec fn fresh(producer: F, validity: nat) -> Self {
        ExpiringState { producer, validity, cached: None, last_computed_at: None, computations: 0 }
    }

    /// The slot is empty exactly as long as the producer has never run, and a result
    /// and the time of its computation come and go together.
    pub open spec fn wf(self) -> bool {
        &&& self.cached is None <==> self.computations == 0
        &&& self.cached is None <==> self.last_computed_at is None
    }

    /// Whether an access made `elapsed` nanoseconds after the last computation finds
    /// nothing that it may hand out: the slot is empty, or its result is older than
    /// `validity`.
    pub open spec fn is_stale(self, elapsed: nat) -> bool {
        self.cached is None || elapsed > self.validity
    }

    /// Whether the producer may be run on `input`.
    pub open spec fn accepts<I>(self, input: I) -> bool where F: FnMut(I) -> T {
        call_requires(self.producer, (input,))
    }

    /// One access, as a relation: from `self`, an access with `input`, made `elapsed`
    /// nanoseconds after the last computation, may end in `post` and hand out a handle
    /// to `out`.
    ///
    /// A stale memoizer runs its producer once, on `input`, and keeps the result and
    /// the time. One that is not stale changes nothing and hands out what it holds;
    /// `input` is ignored.
    pub open spec fn access<I>(self, input: I, elapsed: nat, post: Self, out: T) -> bool where
        F: FnMut(I) -> T,
     {
        if self.is_stale(elapsed) {
            &&& call_ensures(self.producer, (input,), out)
            &&& post.producer == self.producer
            &&& post.validity == self.validity
            &&& post.cached == Some(out)
            &&& post.last_computed_at is Some
            &&& post.computations == self.computations + 1
        } else {
            &&& post == self
            &&& self.cached == Some(out)
        }
    }
}

/// A value that is computed on first access, kept for a fixed time, and computed
/// again by the first access after that time has passed.
///
/// `F` is the producer, `I` what an access hands to it and `T` what it returns.
pub struct MemoizedWithExpiration<I, T, F> {
    validity: u128,
    last: Instant,
    f: F,
    t: Option<Rc<T>>,
    computations: Ghost<nat>,
    input: PhantomData<I>,
}

impl<I, T, F> View for MemoizedWithExpiration<I, T, F> {
    type V = ExpiringState<T, F>;

    closed spec fn view(&self) -> ExpiringState<T, F> {
        ExpiringState {
            producer: self.f,
            validity: self.validity as nat,
            cached: match self.t {
                Some(handle) => Some(*handle),
                None => None,
            },
            last_computed_at: if self.t is Some {
                Some(self.last)
            } else {
                None
            },
            computations: self.computations@,
        }
    }
}

impl<I, T, F: FnMut(I) -> T> MemoizedWithExpiration<I, T, F> {
    /// A memoizer that keeps each result of `f` for `duration`. Nothing is computed yet.
    pub fn new(f: F, duration: Duration) -> (m: Self)
        ensures
            m@ == ExpiringState::<T, F>::fresh(f, duration_nanos(duration)),
    {
        Self::with_validity_nanos(f, duration.as_nanos())
    }

    /// A memoizer that keeps each result of `f` for `nanos` nanoseconds. Nothing is
    /// computed yet.
    pub fn with_validity_nanos(f: F, nanos: u128) -> (m: Self)
        ensures
            m@ == ExpiringState::<T, F>::fresh(f, nanos as nat),
    {
        Self {
            validity: nanos,
            last: Instant::now(),
            f,
            t: None,
            computations: Ghost(0),
            input: PhantomData,
        }
    }

    /// A handle to the memoized value, as of now.
    ///
    /// Reads the clock and proceeds as [`Self::get_after`] does for the time that has
    /// passed since the last computation. Which of the two outcomes of an access it
    /// is depends on that reading alone.
    pub fn get(&mut self, input: I) -> (r: Rc<T>)
        requires
            old(self)@.wf(),
            old(self)@.accepts(input),
        ensures
            exists|elapsed: nat| old(self)@.access(input, elapsed, final(self)@, *r),
            final(self)@.wf(),
    {
        let elapsed: u128 = self.last.elapsed().as_nanos();
        self.get_after(input, elapsed)
    }

    /// A handle to the memoized value, for an access made `elapsed` nanoseconds after
    /// the last computation.
    ///
    /// If the slot is empty or `elapsed` is more than the validity, the producer runs
    /// on `input`, and its result and the time of the clock replace what the slot held.
    /// Otherwise nothing changes and `input` is ignored. Either way the handle shares
    /// the value that the slot holds after the call.
    pub fn get_after(&mut self, input: I, elapsed: u128) -> (r: Rc<T>)
        requires
            old(self)@.wf(),
            old(self)@.is_stale(elapsed as nat) ==> old(self)@.accepts(input),
        ensures
            old(self)@.access(input, elapsed as nat, final(self)@, *r),
            final(self)@.wf(),
    {
        if self.t.is_none() || elapsed > self.validity {
            let value = (self.f)(input);
            self.t = Some(Rc::new(value));
            self.last = Instant::now();
            proof {
                self.computations@ = self.computations@ + 1;
            }
        }
        Rc::clone(self.t.as_ref().unwrap())
    }
}

/// A memoizer that keeps each result of `f` for `duration`. Nothing is computed yet.
pub fn memoize_with_expiration<I, T, F: FnMut(I) -> T>(f: F, duration: Duration) -> (m:
    MemoizedWithExpiration<I, T, F>)
    ensures
        m@ == ExpiringState::<T, F>::fresh(f, duration_nanos(duration)),
{
    MemoizedWithExpiration::new(f, duration)
}

/// A run of accesses on one memoizer: access `k` is made `elapsed[k]` nanoseconds
/// after the last computation, finds `states[k]`, takes `inputs[k]`, hands out a handle
/// to `outputs[k]` and leaves `states[k + 1]`.
pub open spec fn expiring_run<I, T, F: FnMut(I) -> T>(
    states: Seq<ExpiringState<T, F>>,
    inputs: Seq<I>,
    elapsed: Seq<nat>,
    outputs: Seq<T>,
) -> bool {
    &&& states.len() == inputs.len() + 1
    &&& elapsed.len() == inputs.len()
    &&& outputs.len() == inputs.len()
    &&& forall|k: int|
        #![trigger outputs[k]]
        0 <= k < inputs.len() ==> states[k].access(
            inputs[k],
            elapsed[k],
            states[k + 1],
            outputs[k],
        )
}

/// As long as every access comes within the validity, the memoizer stays as it was.
proof fn lemma_unchanged_while_fresh<I, T, F: FnMut(I) -> T>(
    states: Seq<ExpiringState<T, F>>,
    inputs: Seq<I>,
    elapsed: Seq<nat>,
    outputs: Seq<T>,
    k: int,
)
    requires
        expiring_run(states, inputs, elapsed, outputs),
        states[0].cached is Some,
        0 <= k < states.len(),
        forall|j: int| 0 <= j < k ==> #[trigger] elapsed[j] <= states[0].validity,
    ensures
        states[k] == states[0],
    decreases k,
{
    if k > 0 {
        lemma_unchanged_while_fresh(states, inputs, elapsed, outputs, k - 1);
        assert(elapsed[k - 1] <= states[0].validity);
        assert(states[k - 1].access(inputs[k - 1], elapsed[k - 1], states[k], outputs[k - 1]));
    }
}

/// Expiration cycle. Take a memoizer that holds a result, and a run of accesses of
/// which all but the last come within the validity and the last comes after it.
/// Then up to the last access nothing changes: the producer does not run and every
/// handle has the value that was held. The last access runs the producer exactly
/// once, on its own input, and hands out the new value, which the memoizer then holds.
pub proof fn lemma_expiration_cycle<I, T, F: FnMut(I) -> T>(
    states: Seq<ExpiringState<T, F>>,
    inputs: Seq<I>,
    elapsed: Seq<nat>,
    outputs: Seq<T>,
)
    requires
        expiring_run(states, inputs, elapsed, outputs),
        inputs.len() >= 1,
        states[0].cached is Some,
        forall|k: int| 0 <= k < inputs.len() - 1 ==> #[trigger] elapsed[k] <= states[0].validity,
        elapsed.last() > states[0].validity,
    ensures
        forall|k: int| 0 <= k < inputs.len() ==> #[trigger] states[k] == states[0],
        forall|k: int| 0 <= k < inputs.len() - 1 ==> Some(#[trigger] outputs[k]) == states[0].cached,
        call_ensures(states[0].producer, (inputs.last(),), outputs.last()),
        states.last().cached == Some(outputs.last()),
        states.last().computations == states[0].computations + 1,
{
    let n = inputs.len() as int;
    assert forall|k: int| 0 <= k < n implies #[trigger] states[k] == states[0] by {
        lemma_unchanged_while_fresh(states, inputs, elapsed, outputs, k);
    }
    assert forall|k: int| 0 <= k < n - 1 implies Some(#[trigger] outputs[k])
        == states[0].cached by {
        assert(states[k] == states[0]);
        assert(elapsed[k] <= states[0].validity);
        assert(states[k].access(inputs[k], elapsed[k], states[k + 1], outputs[k]));
    }
    assert(states[n - 1] == states[0]);
    assert(states[n - 1].access(inputs[n - 1], elapsed[n - 1], states[n], outputs[n - 1]));
}

/// Handle independence. Of two accesses in a row, the first handle has the value that
/// the memoizer held between them, and the second the value that it holds afterwards.
/// Where the second access computes, that is a new result of the producer, which goes
/// into the slot and into the second handle: the first handle is no part of what the
/// second access changes, and so has the value that it was handed out with.
pub proof fn lemma_handle_independence<I, T, F: FnMut(I) -> T>(
    pre: ExpiringState<T, F>,
    first_input: I,
    first_elapsed: nat,
    mid: ExpiringState<T, F>,
    first: T,
    second_input: I,
    second_elapsed: nat,
    post: ExpiringState<T, F>,
    second: T,
)
    requires
        pre.access(first_input, first_elapsed, mid, first),
        mid.access(second_input, second_elapsed, post, second),
    ensures
        mid.cached == Some(first),
        post.cached == Some(second),
        mid.is_stale(second_elapsed) ==> call_ensures(pre.producer, (second_input,), second),
        !mid.is_stale(second_elapsed) ==> second == first,
{
}

/// Idempotent staleness check. An access that finds the memoizer not stale changes
/// nothing: the producer does not run, the time of the last computation stays, and
/// the handle has the value that was held. So it can be repeated at will.
pub proof fn lemma_access_when_fresh_is_idle<I, T, F: FnMut(I) -> T>(
    pre: ExpiringState<T, F>,
    input: I,
    elapsed: nat,
    post: ExpiringState<T, F>,
    out: T,
)
    requires
        !pre.is_stale(elapsed),
        pre.access(input, elapsed, post, out),
    ensures
        post == pre,
        post.computations == pre.computations,
        post.last_computed_at == pre.last_computed_at,
        pre.cached == Some(out),
{
}

/// An access keeps a well-formed memoizer well-formed, and never changes its
/// producer or its validity.
pub proof fn lemma_access_preserves<I, T, F: FnMut(I) -> T>(
    pre: ExpiringState<T, F>,
    input: I,
    elapsed: nat,
    post: ExpiringState<T, F>,
    out: T,
)
    requires
        pre.wf(),
        pre.access(input, elapsed, post, out),
    ensures
        post.wf(),
        post.producer == pre.producer,
        post.validity == pre.validity,
        post.cached == Some(out),
        post.computations == pre.computations || post.computations == pre.computations + 1,
{
}

} // verus!
