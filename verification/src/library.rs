//! Typed calls for installed, launchable plugin entries.
//!
//! A guest call ends in one of three ways: with a value, with an error text that
//! is an answer like any other, or with a failure of the runtime.

use vstd::prelude::*;

verus! {

broadcast use vstd::string::group_string_axioms;

/// A call of one of a guest's functions: what to do next.
#[derive(Debug)]
pub enum GuestCall<A, T> {
    /// Bind the exports of the interface to the instance.
    Bind { argument: A },
    /// Call the guest's function.
    Invoke { argument: A },
    /// Nothing more to do.
    Done(Result<Result<T, String>, String>),
}

/// An answer to what a [`GuestCall`] asks for.
#[derive(Debug)]
pub enum GuestReply<T> {
    /// Whether the exports could be bound.
    Bound(Result<(), String>),
    /// What the function returned, or how the runtime failed.
    Returned(Result<Result<T, String>, String>),
}

/// One step of a guest call. An answer to something else leaves it as it is.
pub open spec fn guest_next<A, T>(
    before: GuestCall<A, T>,
    reply: GuestReply<T>,
    after: GuestCall<A, T>,
) -> bool {
    match (before, reply) {
        (GuestCall::Bind { argument }, GuestReply::Bound(Ok(_))) => after == (GuestCall::<
            A,
            T,
        >::Invoke { argument }),
        (GuestCall::Bind { .. }, GuestReply::Bound(Err(error))) => after == GuestCall::<A, T>::Done(
            Ok(Err(error)),
        ),
        (GuestCall::Invoke { .. }, GuestReply::Returned(outcome)) => after == GuestCall::<
            A,
            T,
        >::Done(outcome),
        _ => after == before,
    }
}

impl<A, T> GuestCall<A, T> {
    /// Takes the answer to what was asked for.
    pub fn resume(self, reply: GuestReply<T>) -> (out: GuestCall<A, T>)
        ensures
            guest_next(self, reply, out),
    {
        match (self, reply) {
            (GuestCall::Bind { argument }, GuestReply::Bound(Ok(_))) => GuestCall::Invoke {
                argument,
            },
            (GuestCall::Bind { .. }, GuestReply::Bound(Err(error))) => GuestCall::Done(
                Ok(Err(error)),
            ),
            (GuestCall::Invoke { .. }, GuestReply::Returned(outcome)) => GuestCall::Done(outcome),
            (state, _) => state,
        }
    }
}

/// What the caller gets of a call that the plugin's worker has carried out: the
/// guest's answer, or the worker's error as an error text.
pub open spec fn caller_outcome<T>(worker: Result<Result<T, String>, String>) -> Result<T, String> {
    match worker {
        Ok(answer) => answer,
        Err(error) => Err(error),
    }
}

/// Tells the caller how a call that the plugin's worker has carried out ended.
pub fn answer_caller<T>(worker: Result<Result<T, String>, String>) -> (out: Result<T, String>)
    ensures
        out == caller_outcome(worker),
{
    match worker {
        Ok(answer) => answer,
        Err(error) => Err(error),
    }
}

/// Begins to enumerate a plugin's entries in its current state.
pub fn list_entries<T>() -> (out: GuestCall<(), T>)
    ensures
        out == (GuestCall::<(), T>::Bind { argument: () }),
{
    GuestCall::Bind { argument: () }
}

/// Whether a request to launch an entry begins as it should: with the exports to
/// bind, and the entry's identifier for an argument.
pub open spec fn is_launch_of(entry_id: Seq<char>, out: GuestCall<String, ()>) -> bool {
    out matches GuestCall::Bind { argument } && argument@ == entry_id
}

/// Begins to request the launch of an entry. It ends with the request, not with
/// the title that is launched.
pub fn launch(entry_id: &str) -> (out: GuestCall<String, ()>)
    ensures
        is_launch_of(entry_id@, out),
{
    GuestCall::Bind { argument: entry_id.to_owned() }
}

/// Exports that cannot be bound are reported to the caller as an error text,
/// and are no failure of the runtime: the guest's function is not called.
pub proof fn law_unbound_exports_are_answered<A, T>(
    argument: A,
    error: String,
    after: GuestCall<A, T>,
)
    requires
        guest_next(GuestCall::Bind { argument }, GuestReply::Bound(Err(error)), after),
    ensures
        after == GuestCall::<A, T>::Done(Ok(Err(error))),
        caller_outcome(after->Done_0) == Err::<T, String>(error),
{
}

/// The guest's function is called once its exports are bound, with the argument
/// that was asked for, and what it returns is what the caller gets.
pub proof fn law_guest_is_called_with_its_argument<A, T>(
    states: Seq<GuestCall<A, T>>,
    replies: Seq<GuestReply<T>>,
    at: int,
)
    requires
        crate::runs::is_run(
            |s: GuestCall<A, T>, r: GuestReply<T>, t: GuestCall<A, T>| guest_next(s, r, t),
            states,
            replies,
        ),
        states[0] is Bind,
        0 <= at < states.len(),
    ensures
        match states[at] {
            GuestCall::Bind { argument } => argument == states[0]->Bind_argument,
            GuestCall::Invoke { argument } => argument == states[0]->Bind_argument && exists|i: int|
                0 <= i < at && (#[trigger] replies[i] matches GuestReply::Bound(Ok(_))),
            GuestCall::Done(outcome) => exists|i: int|
                0 <= i < at && ((#[trigger] replies[i]) == GuestReply::Returned(outcome) || (
                replies[i] matches GuestReply::Bound(Err(error)) && outcome == Ok::<
                    Result<T, String>,
                    String,
                >(Err(error)))),
        },
    decreases at,
{
    if at > 0 {
        law_guest_is_called_with_its_argument(states, replies, at - 1);
        let reply = replies[at - 1];
        assert(guest_next(states[at - 1], reply, states[at]));
    }
}

/// A guest call comes to what its steps come to. The caller gets the value or
/// the error text that the guest returned, the text of what kept its exports
/// from being bound, or the text of the failure of the runtime.
pub proof fn law_caller_gets_what_the_guest_returned<A, T>(
    argument: A,
    bound: Result<(), String>,
    returned: Result<Result<T, String>, String>,
    states: (GuestCall<A, T>, GuestCall<A, T>),
)
    requires
        guest_next(GuestCall::Bind { argument }, GuestReply::Bound(bound), states.0),
        guest_next(states.0, GuestReply::Returned(returned), states.1),
    ensures
        states.1 matches GuestCall::Done(outcome) && match (bound, returned) {
            (Err(error), _) => outcome == Ok::<Result<T, String>, String>(Err(error))
                && caller_outcome(outcome) == Err::<T, String>(error),
            (Ok(_), Err(error)) => outcome == returned && caller_outcome(outcome) == Err::<
                T,
                String,
            >(error),
            (Ok(_), Ok(answer)) => outcome == returned && caller_outcome(outcome) == answer,
        },
        bound is Ok ==> states.0 == (GuestCall::<A, T>::Invoke { argument }),
{
}

/// An answer to something that a guest call did not ask for leaves it as it is.
pub proof fn law_guest_call_ignores_other_answers<A, T>(
    before: GuestCall<A, T>,
    reply: GuestReply<T>,
    after: GuestCall<A, T>,
)
    requires
        guest_next(before, reply, after),
        !(before is Bind && reply is Bound),
        !(before is Invoke && reply is Returned),
    ensures
        after == before,
{
}

/// The guest is asked to launch exactly the entry that the caller has named, once
/// its exports are bound.
pub proof fn law_named_entry_is_launched(
    entry_id: Seq<char>,
    begun: GuestCall<String, ()>,
    bound: GuestCall<String, ()>,
)
    requires
        is_launch_of(entry_id, begun),
        guest_next(begun, GuestReply::Bound(Ok(())), bound),
    ensures
        bound matches GuestCall::Invoke { argument } && argument@ == entry_id,
{
}

}
