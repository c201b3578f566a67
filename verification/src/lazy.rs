//! The lazy memoizer: a producer that runs on the first access, and never again.

use std::marker::PhantomData;
use vstd::prelude::*;

verus! {

/// What a lazy memoizer is, seen from outside: either it still waits for its
/// first access, or it holds the result of that access for good.
pub enum LazyState<T, F> {
    /// No access yet: the producer has not run.
    Pending { producer: F },
    /// The producer has run, and `value` is what it returned.
    Resolved { value: T },
}

impl<T, F> LazyState<T, F> {
    /// Whether the next access runs the producer.
    pub open spec fn computes(self) -> bool {
        self is Pending
    }

    /// How often the producer has run since the memoizer was made.
    pub open spec fn computations(self) -> nat {
        if self is Resolved {
            1
        } else {
            0
        }
    }

    /// Whether an access with `input` is allowed: a producer that is about to run
    /// must accept `input`.
    pub open spec fn accepts<I>(self, input: I) -> bool where F: FnMut(I) -> T {
        self matches LazyState::Pending { producer } ==> call_requires(producer, (input,))
    }

    /// One access, as a relation: from `self`, an access with `input` may end in
    /// `post` and hand out `out`.
    ///
    /// A pending memoizer runs its producer on `input` and keeps the result. A
    /// resolved one stays as it is and hands out what it holds; `input` is ignored.
    pub open spec fn access<I>(self, input: I, post: Self, out: T) -> bool where F: FnMut(I) -> T {
        match self {
            LazyState::Pending { producer } => {
                &&& call_ensures(producer, (input,), out)
                &&& post == LazyState::<T, F>::Resolved { value: out }
            },
            LazyState::Resolved { value } => {
                &&& post == self
                &&& out == value
            },
        }
    }
}

/// A value that is computed on first access and then kept.
///
/// `F` is the producer, `I` what an access hands to it and `T` what it returns.
pub enum Memoized<I, T, F> {
    /// The producer, not yet run.
    UnInitialized(F, PhantomData<I>),
    /// The result of the one run of the producer.
    Data(T),
}

impl<I, T, F> View for Memoized<I, T, F> {
    type V = LazyState<T, F>;

    open spec fn view(&self) -> LazyState<T, F> {
        match *self {
            Memoized::UnInitialized(f, _) => LazyState::Pending { producer: f },
            Memoized::Data(t) => LazyState::Resolved { value: t },
        }
    }
}

impl<I, T, F: FnMut(I) -> T> Memoized<I, T, F> {
    /// A memoizer that will run `f` on its first access.
    pub fn new(f: F) -> (m: Self)
        ensures
            m@ == (LazyState::<T, F>::Pending { producer: f }),
    {
        Self::UnInitialized(f, PhantomData)
    }

    /// The memoized value. The first call runs the producer on `input`; every later
    /// call returns the stored result and ignores its `input`.
    pub fn get(&mut self, input: I) -> (r: &T)
        requires
            old(self)@.accepts(input),
        ensures
            old(self)@.access(input, final(self)@, *r),
    {
        match self {
            Self::UnInitialized(f, _) => {
                let t: T = f(input);
                *self = Self::Data(t);
                match self {
                    Self::Data(t) => t,
                    _ => vstd::pervasive::unreached(),
                }
            },
            Self::Data(t) => t,
        }
    }
}

/// A memoizer that will run `f` on its first access.
pub fn memoize_once<I, T, F: FnMut(I) -> T>(f: F) -> (m: Memoized<I, T, F>)
    ensures
        m@ == (LazyState::<T, F>::Pending { producer: f }),
{
    Memoized::new(f)
}

/// A run of accesses on one memoizer: access `k` finds `states[k]`, takes `inputs[k]`,
/// hands out `outputs[k]` and leaves `states[k + 1]`.
pub open spec fn lazy_run<I, T, F: FnMut(I) -> T>(
    states: Seq<LazyState<T, F>>,
    inputs: Seq<I>,
    outputs: Seq<T>,
) -> bool {
    &&& states.len() == inputs.len() + 1
    &&& outputs.len() == inputs.len()
    &&& forall|k: int|
        #![trigger outputs[k]]
        0 <= k < inputs.len() ==> states[k].access(inputs[k], states[k + 1], outputs[k])
}

/// After one access or more the memoizer is resolved, and it holds what the first of
/// them handed out.
proof fn lemma_resolved_after<I, T, F: FnMut(I) -> T>(
    states: Seq<LazyState<T, F>>,
    inputs: Seq<I>,
    outputs: Seq<T>,
    k: int,
)
    requires
        lazy_run(states, inputs, outputs),
        1 <= k < states.len(),
    ensures
        states[k] == (LazyState::<T, F>::Resolved { value: outputs[0] }),
    decreases k,
{
    assert(states[k - 1].access(inputs[k - 1], states[k], outputs[k - 1]));
    if k > 1 {
        lemma_resolved_after(states, inputs, outputs, k - 1);
    }
}

/// Single computation. Over any run of one access or more, whatever the inputs:
/// every access hands out the value that the first one handed out; from the first
/// access on the memoizer holds that value, the producer has run exactly once, and
/// no further access runs it; and where the memoizer was pending at the start, the
/// producer had not run before, and the value is what it made of the first input.
pub proof fn lemma_single_computation<I, T, F: FnMut(I) -> T>(
    states: Seq<LazyState<T, F>>,
    inputs: Seq<I>,
    outputs: Seq<T>,
)
    requires
        lazy_run(states, inputs, outputs),
        inputs.len() >= 1,
    ensures
        forall|k: int| 0 <= k < outputs.len() ==> #[trigger] outputs[k] == outputs[0],
        forall|k: int|
            1 <= k < states.len() ==> #[trigger] states[k] == (LazyState::<T, F>::Resolved {
                value: outputs[0],
            }),
        forall|k: int| 1 <= k < states.len() ==> (#[trigger] states[k]).computations() == 1,
        forall|k: int| 1 <= k < states.len() ==> !(#[trigger] states[k]).computes(),
        states[0] is Pending ==> states[0].computations() == 0 && call_ensures(
            states[0]->producer,
            (inputs[0],),
            outputs[0],
        ),
{
    assert forall|k: int| 1 <= k < states.len() implies #[trigger] states[k] == (LazyState::<
        T,
        F,
    >::Resolved { value: outputs[0] }) by {
        lemma_resolved_after(states, inputs, outputs, k);
    }
    assert forall|k: int| 0 <= k < outputs.len() implies #[trigger] outputs[k] == outputs[0] by {
        assert(states[k].access(inputs[k], states[k + 1], outputs[k]));
    }
    assert(states[0].access(inputs[0], states[1], outputs[0]));
}

} // verus!
