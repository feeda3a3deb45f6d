//! Runs of the stepwise operations: the states an operation passes through as
//! its requests are answered one by one.

use vstd::prelude::*;

verus! {

/// Whether `states` is what an operation passes through when its requests are
/// answered by `replies` in turn.
pub open spec fn is_run<S, R>(
    next: spec_fn(S, R, S) -> bool,
    states: Seq<S>,
    replies: Seq<R>,
) -> bool {
    &&& states.len() == replies.len() + 1
    &&& forall|i: int|
        #![trigger replies[i]]
        0 <= i < replies.len() ==> next(states[i], replies[i], states[i + 1])
}

/// What holds at the start of a run and is kept by every step holds all along.
pub proof fn lemma_invariant_holds_along_run<S, R>(
    next: spec_fn(S, R, S) -> bool,
    kept: spec_fn(S) -> bool,
    states: Seq<S>,
    replies: Seq<R>,
    at: int,
)
    requires
        is_run(next, states, replies),
        kept(states[0]),
        forall|s: S, r: R, t: S| #[trigger] next(s, r, t) && kept(s) ==> kept(t),
        0 <= at < states.len(),
    ensures
        kept(states[at]),
    decreases at,
{
    if at > 0 {
        lemma_invariant_holds_along_run(next, kept, states, replies, at - 1);
        let reply = replies[at - 1];
        assert(next(states[at - 1], reply, states[at]));
    }
}

/// A state that a run reaches after its start was entered by some step from a
/// state that was different in this respect.
pub proof fn lemma_entered_along_run<S, R>(
    next: spec_fn(S, R, S) -> bool,
    property: spec_fn(S) -> bool,
    states: Seq<S>,
    replies: Seq<R>,
    at: int,
) -> (step: int)
    requires
        is_run(next, states, replies),
        !property(states[0]),
        0 <= at < states.len(),
        property(states[at]),
    ensures
        0 <= step < at,
        !property(states[step]),
        property(states[step + 1]),
        next(states[step], replies[step], states[step + 1]),
    decreases at,
{
    let reply = replies[at - 1];
    assert(next(states[at - 1], reply, states[at]));
    if property(states[at - 1]) {
        lemma_entered_along_run(next, property, states, replies, at - 1)
    } else {
        at - 1
    }
}

}
