//! Sessions: one live instance of a plugin, opened from compiled code and
//! called again and again.
//!
//! An instance is whatever the host makes of the compiled code: here it is only
//! handed on. A session is to be held exclusively while a call on it runs.

use std::sync::Arc;

use vstd::prelude::*;

use crate::catalog::CompiledPlugin;
use crate::error::PluginError;
use crate::manifest::PluginInfo;
use crate::runtime::{INVOCATION_FUEL, YIELD_INTERVAL};

verus! {

broadcast use vstd::string::group_string_axioms;

/// One persistent instance and the code that it was made from.
pub struct Plugin<I> {
    compiled: Arc<CompiledPlugin>,
    instance: Option<I>,
}

/// A call on a session: what to do next.
#[derive(Debug)]
pub enum Call<I, R> {
    /// Give the instance this much fuel.
    SetFuel { instance: I, fuel: u64 },
    /// Make the call on the instance.
    Invoke { instance: I },
    /// Nothing more to do.
    Done(Result<R, PluginError>),
}

/// An answer to what a [`Call`] asks for.
#[derive(Debug)]
pub enum CallReply<R> {
    /// Whether the fuel was given.
    Fueled(Result<(), String>),
    /// What the call returned, or how it failed.
    Returned(Result<R, String>),
}

/// Whether a call begins as it should: with the session's instance, or with an
/// error if the session is closed.
pub open spec fn is_call_start<I, R>(session: Option<I>, out: Call<I, R>) -> bool {
    match session {
        Some(instance) => out == (Call::<I, R>::SetFuel { instance, fuel: INVOCATION_FUEL }),
        None => out matches Call::Done(Err(PluginError::Runtime(text))) && text@
            == "plugin session is closed"@,
    }
}

/// Whether a session gives its instance away to a call that begins.
pub open spec fn is_call_of<I, R>(
    session: Option<I>,
    session_after: Option<I>,
    out: Call<I, R>,
) -> bool {
    is_call_start(session, out) && session_after is None
}

/// One step of a call: what the session holds before and after it, and what to
/// do next. An answer to something else leaves everything as it is.
pub open spec fn call_next<I, R>(
    session: Option<I>,
    before: Call<I, R>,
    reply: CallReply<R>,
    session_after: Option<I>,
    after: Call<I, R>,
) -> bool {
    match (before, reply) {
        (Call::SetFuel { instance, .. }, CallReply::Fueled(Ok(_))) => session_after == session
            && after == (Call::<I, R>::Invoke { instance }),
        (Call::SetFuel { .. }, CallReply::Fueled(Err(error))) => session_after == session && after
            == Call::<I, R>::Done(Err(PluginError::Runtime(error))),
        (Call::Invoke { instance }, CallReply::Returned(Ok(value))) => session_after == Some(
            instance,
        ) && after == Call::<I, R>::Done(Ok(value)),
        (Call::Invoke { .. }, CallReply::Returned(Err(error))) => session_after == session && after
            == Call::<I, R>::Done(Err(PluginError::Runtime(error))),
        _ => session_after == session && after == before,
    }
}

impl<I> Plugin<I> {
    /// The code that the session was opened from.
    pub closed spec fn code(self) -> Arc<CompiledPlugin> {
        self.compiled
    }

    /// The instance, while the session is open and no call runs.
    pub closed spec fn held(self) -> Option<I> {
        self.instance
    }

    /// Takes ownership of the instance made from some code.
    pub fn new(compiled: Arc<CompiledPlugin>, instance: I) -> (out: Plugin<I>)
        ensures
            out.code() == compiled,
            out.held() == Some(instance),
    {
        Plugin { compiled, instance: Some(instance) }
    }

    /// The metadata of the code, also after the session has closed.
    pub fn info(&self) -> (out: &PluginInfo)
        ensures
            *out == self.code().info,
    {
        &self.compiled.info
    }

    /// Begins a call. The session gives its instance away and has it back only
    /// if the call succeeds.
    pub fn call<R>(&mut self) -> (out: Call<I, R>)
        ensures
            is_call_of(old(self).held(), final(self).held(), out),
            final(self).code() == old(self).code(),
    {
        match self.instance.take() {
            Some(instance) => Call::SetFuel { instance, fuel: INVOCATION_FUEL },
            None => Call::Done(
                Err(PluginError::Runtime("plugin session is closed".to_owned())),
            ),
        }
    }

    /// Takes the answer to what a call asked for.
    pub fn resume_call<R>(&mut self, state: Call<I, R>, reply: CallReply<R>) -> (out: Call<I, R>)
        ensures
            call_next(old(self).held(), state, reply, final(self).held(), out),
            final(self).code() == old(self).code(),
    {
        match (state, reply) {
            (Call::SetFuel { instance, .. }, CallReply::Fueled(Ok(_))) => Call::Invoke { instance },
            (Call::SetFuel { .. }, CallReply::Fueled(Err(error))) => Call::Done(
                Err(PluginError::Runtime(error)),
            ),
            (Call::Invoke { instance }, CallReply::Returned(Ok(value))) => {
                self.instance = Some(instance);
                Call::Done(Ok(value))
            },
            (Call::Invoke { .. }, CallReply::Returned(Err(error))) => Call::Done(
                Err(PluginError::Runtime(error)),
            ),
            (state, _) => state,
        }
    }
}

/// Starting an instance in a new store: what to do next.
#[derive(Debug)]
pub enum StartInstance {
    /// Give the store this much fuel.
    SetFuel { fuel: u64 },
    /// Have the store yield whenever this much fuel is used up.
    SetYieldInterval { interval: u64 },
    /// Instantiate the linked code in the store.
    Instantiate,
    /// Nothing more to do.
    Done(Result<(), PluginError>),
}

/// One step of starting an instance, once how the last one ended is known.
pub open spec fn start_next(
    before: StartInstance,
    reply: Result<(), String>,
    after: StartInstance,
) -> bool {
    match (before, reply) {
        (StartInstance::Done(_), _) => after == before,
        (_, Err(error)) => after == StartInstance::Done(Err(PluginError::Runtime(error))),
        (StartInstance::SetFuel { .. }, Ok(_)) => after == (StartInstance::SetYieldInterval {
            interval: YIELD_INTERVAL,
        }),
        (StartInstance::SetYieldInterval { .. }, Ok(_)) => after == StartInstance::Instantiate,
        (StartInstance::Instantiate, Ok(_)) => after matches StartInstance::Done(Ok(_)),
    }
}

impl StartInstance {
    /// Begins to start an instance.
    pub fn new() -> (out: StartInstance)
        ensures
            out == (StartInstance::SetFuel { fuel: INVOCATION_FUEL }),
    {
        StartInstance::SetFuel { fuel: INVOCATION_FUEL }
    }

    /// Takes how the last step ended.
    pub fn resume(self, reply: Result<(), String>) -> (out: StartInstance)
        ensures
            start_next(self, reply, out),
    {
        match (self, reply) {
            (StartInstance::Done(outcome), _) => StartInstance::Done(outcome),
            (_, Err(error)) => StartInstance::Done(Err(PluginError::Runtime(error))),
            (StartInstance::SetFuel { .. }, Ok(_)) => StartInstance::SetYieldInterval {
                interval: YIELD_INTERVAL,
            },
            (StartInstance::SetYieldInterval { .. }, Ok(_)) => StartInstance::Instantiate,
            (StartInstance::Instantiate, Ok(_)) => StartInstance::Done(Ok(())),
        }
    }
}

/// Opening a session from compiled code: what to do next.
pub enum OpenSession<I> {
    /// Add the standard imports to a linker for the code.
    AddWasi { compiled: Arc<CompiledPlugin> },
    /// Add the caller's own imports.
    RegisterImports { compiled: Arc<CompiledPlugin> },
    /// Link the code.
    Link { compiled: Arc<CompiledPlugin> },
    /// Start an instance of the linked code.
    Start { compiled: Arc<CompiledPlugin> },
    /// Load the exports of the instance.
    LoadExports { compiled: Arc<CompiledPlugin> },
    /// Nothing more to do.
    Done(Result<Plugin<I>, PluginError>),
}

/// An answer to what an [`OpenSession`] asks for.
#[derive(Debug)]
pub enum SessionReply<I> {
    /// How a step of linking ended.
    Answered(Result<(), String>),
    /// How starting the instance ended.
    Started(Result<(), PluginError>),
    /// The instance with its exports.
    Loaded(Result<I, String>),
}

/// The code from which a session is being opened.
pub open spec fn session_code<I>(state: OpenSession<I>) -> Option<Arc<CompiledPlugin>> {
    match state {
        OpenSession::AddWasi { compiled } => Some(compiled),
        OpenSession::RegisterImports { compiled } => Some(compiled),
        OpenSession::Link { compiled } => Some(compiled),
        OpenSession::Start { compiled } => Some(compiled),
        OpenSession::LoadExports { compiled } => Some(compiled),
        OpenSession::Done(_) => None,
    }
}

/// One step of opening a session. An answer to something else leaves it as it
/// is.
pub open spec fn session_next<I>(
    before: OpenSession<I>,
    reply: SessionReply<I>,
    after: OpenSession<I>,
) -> bool {
    match (before, reply) {
        (OpenSession::AddWasi { compiled }, SessionReply::Answered(Ok(_))) => after
            == (OpenSession::<I>::RegisterImports { compiled }),
        (OpenSession::RegisterImports { compiled }, SessionReply::Answered(Ok(_))) => after
            == (OpenSession::<I>::Link { compiled }),
        (OpenSession::Link { compiled }, SessionReply::Answered(Ok(_))) => after
            == (OpenSession::<I>::Start { compiled }),
        (OpenSession::AddWasi { .. }, SessionReply::Answered(Err(error))) => after
            == OpenSession::<I>::Done(Err(PluginError::Runtime(error))),
        (OpenSession::RegisterImports { .. }, SessionReply::Answered(Err(error))) => after
            == OpenSession::<I>::Done(Err(PluginError::Runtime(error))),
        (OpenSession::Link { .. }, SessionReply::Answered(Err(error))) => after
            == OpenSession::<I>::Done(Err(PluginError::Runtime(error))),
        (OpenSession::Start { compiled }, SessionReply::Started(Ok(_))) => after
            == (OpenSession::<I>::LoadExports { compiled }),
        (OpenSession::Start { .. }, SessionReply::Started(Err(error))) => after == OpenSession::<
            I,
        >::Done(Err(error)),
        (OpenSession::LoadExports { compiled }, SessionReply::Loaded(Ok(instance))) => {
            after matches OpenSession::Done(Ok(plugin)) && plugin.code() == compiled
                && plugin.held() == Some(instance)
        },
        (OpenSession::LoadExports { .. }, SessionReply::Loaded(Err(error))) => after
            == OpenSession::<I>::Done(Err(PluginError::Runtime(error))),
        _ => after == before,
    }
}

/// Whether opening a session begins as it should: with the code that was loaded,
/// or at its end if there is none.
pub open spec fn is_session_start<I>(
    loaded: Result<Arc<CompiledPlugin>, PluginError>,
    out: OpenSession<I>,
) -> bool {
    match loaded {
        Ok(compiled) => out == (OpenSession::<I>::AddWasi { compiled }),
        Err(error) => out == OpenSession::<I>::Done(Err(error)),
    }
}

impl<I> OpenSession<I> {
    /// Begins to open a session, if there is code to open it from.
    pub fn start(loaded: Result<Arc<CompiledPlugin>, PluginError>) -> (out: OpenSession<I>)
        ensures
            is_session_start(loaded, out),
    {
        match loaded {
            Ok(compiled) => OpenSession::AddWasi { compiled },
            Err(error) => OpenSession::Done(Err(error)),
        }
    }

    /// Takes the answer to what was asked for.
    pub fn resume(self, reply: SessionReply<I>) -> (out: OpenSession<I>)
        ensures
            session_next(self, reply, out),
    {
        match (self, reply) {
            (
                OpenSession::AddWasi { compiled },
                SessionReply::Answered(Ok(_)),
            ) => OpenSession::RegisterImports { compiled },
            (
                OpenSession::RegisterImports { compiled },
                SessionReply::Answered(Ok(_)),
            ) => OpenSession::Link { compiled },
            (
                OpenSession::Link { compiled },
                SessionReply::Answered(Ok(_)),
            ) => OpenSession::Start { compiled },
            (OpenSession::AddWasi { .. }, SessionReply::Answered(Err(error))) => OpenSession::Done(
                Err(PluginError::Runtime(error)),
            ),
            (OpenSession::RegisterImports { .. }, SessionReply::Answered(Err(error))) =>
                OpenSession::Done(Err(PluginError::Runtime(error))),
            (OpenSession::Link { .. }, SessionReply::Answered(Err(error))) => OpenSession::Done(
                Err(PluginError::Runtime(error)),
            ),
            (
                OpenSession::Start { compiled },
                SessionReply::Started(Ok(_)),
            ) => OpenSession::LoadExports { compiled },
            (OpenSession::Start { .. }, SessionReply::Started(Err(error))) => OpenSession::Done(
                Err(error),
            ),
            (
                OpenSession::LoadExports { compiled },
                SessionReply::Loaded(Ok(instance)),
            ) => OpenSession::Done(Ok(Plugin::new(compiled, instance))),
            (OpenSession::LoadExports { .. }, SessionReply::Loaded(Err(error))) =>
                OpenSession::Done(Err(PluginError::Runtime(error))),
            (state, _) => state,
        }
    }
}

/// A call on its own: what the session holds and what to do next.
pub open spec fn call_step<I, R>(
    before: (Option<I>, Call<I, R>),
    reply: CallReply<R>,
    after: (Option<I>, Call<I, R>),
) -> bool {
    call_next(before.0, before.1, reply, after.0, after.1)
}

/// While a call runs the session holds nothing, so that a call that is dropped
/// closes it. A call that succeeds gives its instance back, and one that fails
/// leaves the session closed.
pub proof fn law_failed_calls_close_the_session<I, R>(
    states: Seq<(Option<I>, Call<I, R>)>,
    replies: Seq<CallReply<R>>,
    at: int,
)
    requires
        crate::runs::is_run(
            |s: (Option<I>, Call<I, R>), r, t| call_step(s, r, t),
            states,
            replies,
        ),
        states[0].0 is None,
        states[0].1 is SetFuel,
        0 <= at < states.len(),
    ensures
        match states[at].1 {
            Call::SetFuel { instance, .. } => states[at].0 is None && instance
                == states[0].1->SetFuel_instance,
            Call::Invoke { instance } => states[at].0 is None && instance
                == states[0].1->SetFuel_instance,
            Call::Done(Ok(_)) => states[at].0 == Some(states[0].1->SetFuel_instance),
            Call::Done(Err(_)) => states[at].0 is None,
        },
    decreases at,
{
    if at > 0 {
        law_failed_calls_close_the_session(states, replies, at - 1);
        let reply = replies[at - 1];
        assert(call_step(states[at - 1], reply, states[at]));
    }
}

/// An error that the guest returns is an outcome of the call like any other: it
/// keeps the session open.
pub proof fn law_guest_errors_keep_the_session<I, T, E>(
    session: Option<I>,
    instance: I,
    error: E,
    session_after: Option<I>,
    after: Call<I, Result<T, E>>,
)
    requires
        call_next(
            session,
            Call::Invoke { instance },
            CallReply::Returned(Ok(Err(error))),
            session_after,
            after,
        ),
    ensures
        session_after == Some(instance),
        after == Call::<I, Result<T, E>>::Done(Ok(Err(error))),
{
}

/// A closed session rejects every call and stays closed.
pub proof fn law_closed_sessions_reject_calls<I, R>(
    states: Seq<(Option<I>, Call<I, R>)>,
    replies: Seq<CallReply<R>>,
    at: int,
)
    requires
        crate::runs::is_run(
            |s: (Option<I>, Call<I, R>), r, t| call_step(s, r, t),
            states,
            replies,
        ),
        states[0].0 is None,
        is_call_start(None::<I>, states[0].1),
        0 <= at < states.len(),
    ensures
        states[at].0 is None,
        states[at].1 == states[0].1,
        states[at].1 matches Call::Done(Err(PluginError::Runtime(text))) && text@
            == "plugin session is closed"@,
    decreases at,
{
    if at > 0 {
        law_closed_sessions_reject_calls(states, replies, at - 1);
        let reply = replies[at - 1];
        assert(call_step(states[at - 1], reply, states[at]));
    }
}

/// No call is made before its instance was given the fuel for one invocation.
pub proof fn law_calls_are_fueled<I, R>(
    states: Seq<(Option<I>, Call<I, R>)>,
    replies: Seq<CallReply<R>>,
    at: int,
) -> (fueled: int)
    requires
        crate::runs::is_run(
            |s: (Option<I>, Call<I, R>), r, t| call_step(s, r, t),
            states,
            replies,
        ),
        states[0].1 matches Call::SetFuel { fuel, .. } && fuel == INVOCATION_FUEL,
        0 <= at < states.len(),
        states[at].1 is Invoke,
    ensures
        0 <= fueled < at,
        states[fueled].1 matches Call::SetFuel { fuel, .. } && fuel == INVOCATION_FUEL,
        replies[fueled] matches CallReply::Fueled(Ok(_)),
{
    let next = |s: (Option<I>, Call<I, R>), r, t| call_step(s, r, t);
    let fueled = crate::runs::lemma_entered_along_run(
        next,
        |s: (Option<I>, Call<I, R>)| s.1 is Invoke,
        states,
        replies,
        at,
    );
    crate::runs::lemma_invariant_holds_along_run(
        next,
        |s: (Option<I>, Call<I, R>)|
            s.1 matches Call::SetFuel { fuel, .. } ==> fuel == INVOCATION_FUEL,
        states,
        replies,
        fueled,
    );
    fueled
}

/// No code is instantiated before its store was given the fuel for one
/// invocation and told to yield.
pub proof fn law_instances_start_with_fuel(
    states: Seq<StartInstance>,
    replies: Seq<Result<(), String>>,
    at: int,
) -> (steps: (int, int))
    requires
        crate::runs::is_run(
            |s: StartInstance, r: Result<(), String>, t: StartInstance| start_next(s, r, t),
            states,
            replies,
        ),
        states[0] == (StartInstance::SetFuel { fuel: INVOCATION_FUEL }),
        0 <= at < states.len(),
        states[at] is Instantiate || states[at] matches StartInstance::Done(Ok(_)),
    ensures
        0 <= steps.0 < steps.1 < at,
        states[steps.0] == (StartInstance::SetFuel { fuel: INVOCATION_FUEL }),
        replies[steps.0] is Ok,
        states[steps.1] == (StartInstance::SetYieldInterval { interval: YIELD_INTERVAL }),
        replies[steps.1] is Ok,
{
    let next = |s: StartInstance, r: Result<(), String>, t: StartInstance| start_next(s, r, t);
    let yielding = crate::runs::lemma_entered_along_run(
        next,
        |s: StartInstance| s is Instantiate || s matches StartInstance::Done(Ok(_)),
        states,
        replies,
        at,
    );
    let fueled = crate::runs::lemma_entered_along_run(
        next,
        |s: StartInstance| s is SetYieldInterval,
        states,
        replies,
        yielding,
    );
    let kept = |s: StartInstance|
        match s {
            StartInstance::SetFuel { fuel } => fuel == INVOCATION_FUEL,
            StartInstance::SetYieldInterval { interval } => interval == YIELD_INTERVAL,
            _ => true,
        };
    crate::runs::lemma_invariant_holds_along_run(next, kept, states, replies, yielding);
    crate::runs::lemma_invariant_holds_along_run(next, kept, states, replies, fueled);
    (fueled, yielding)
}

/// A session that was opened keeps the code that it was opened from, whatever
/// becomes of the catalog.
pub proof fn law_session_keeps_its_code<I>(
    states: Seq<OpenSession<I>>,
    replies: Seq<SessionReply<I>>,
    at: int,
)
    requires
        crate::runs::is_run(
            |s: OpenSession<I>, r: SessionReply<I>, t: OpenSession<I>| session_next(s, r, t),
            states,
            replies,
        ),
        states[0] is AddWasi,
        0 <= at < states.len(),
    ensures
        session_code(states[at]) matches Some(code) ==> Some(code) == session_code(states[0]),
        states[at] matches OpenSession::Done(Ok(plugin)) ==> Some(plugin.code()) == session_code(
            states[0],
        ) && plugin.held() is Some,
    decreases at,
{
    if at > 0 {
        law_session_keeps_its_code(states, replies, at - 1);
        let reply = replies[at - 1];
        assert(session_next(states[at - 1], reply, states[at]));
    }
}

/// A call on an open session comes to what its steps come to: the instance that
/// the session held is given the fuel for one invocation and then called. What
/// the call returns is what comes out, and the session has its instance back; a
/// failure of either step comes out as such, and the session stays without one.
pub proof fn law_call_comes_to_its_steps<I, R>(
    instance: I,
    fueled: Result<(), String>,
    returned: Result<R, String>,
    sessions: (Option<I>, Option<I>),
    states: (Call<I, R>, Call<I, R>, Call<I, R>),
)
    requires
        is_call_start(Some(instance), states.0),
        call_next(None, states.0, CallReply::Fueled(fueled), sessions.0, states.1),
        call_next(sessions.0, states.1, CallReply::Returned(returned), sessions.1, states.2),
    ensures
        states.0 == (Call::<I, R>::SetFuel { instance, fuel: 1_000_000_000 }),
        sessions.0 is None,
        match (fueled, returned) {
            (Err(error), _) => sessions.1 is None && states.2 == Call::<I, R>::Done(
                Err(PluginError::Runtime(error)),
            ),
            (Ok(_), Err(error)) => states.1 == (Call::<I, R>::Invoke { instance }) && sessions.1
                is None && states.2 == Call::<I, R>::Done(Err(PluginError::Runtime(error))),
            (Ok(_), Ok(value)) => states.1 == (Call::<I, R>::Invoke { instance }) && sessions.1
                == Some(instance) && states.2 == Call::<I, R>::Done(Ok(value)),
        },
{
}

/// An answer to something that a call did not ask for changes neither the
/// session nor the call.
pub proof fn law_call_ignores_other_answers<I, R>(
    session: Option<I>,
    before: Call<I, R>,
    reply: CallReply<R>,
    session_after: Option<I>,
    after: Call<I, R>,
)
    requires
        call_next(session, before, reply, session_after, after),
        !(before is SetFuel && reply is Fueled),
        !(before is Invoke && reply is Returned),
    ensures
        session_after == session,
        after == before,
{
}

/// Starting an instance comes to what its steps come to: fuel, the interval at
/// which it yields, and the instance itself, each only if what came before has
/// succeeded.
pub proof fn law_start_comes_to_its_steps(
    fueled: Result<(), String>,
    yielding: Result<(), String>,
    instantiated: Result<(), String>,
    fuel: u64,
    states: (StartInstance, StartInstance, StartInstance),
)
    requires
        start_next(StartInstance::SetFuel { fuel }, fueled, states.0),
        start_next(states.0, yielding, states.1),
        start_next(states.1, instantiated, states.2),
    ensures
        match (fueled, yielding, instantiated) {
            (Err(error), _, _) => states.0 == StartInstance::Done(Err(PluginError::Runtime(error)))
                && states.2 == states.0,
            (Ok(_), Err(error), _) => states.0 == (StartInstance::SetYieldInterval {
                interval: 100_000,
            }) && states.1 == StartInstance::Done(Err(PluginError::Runtime(error))) && states.2
                == states.1,
            (Ok(_), Ok(_), Err(error)) => states.0 == (StartInstance::SetYieldInterval {
                interval: 100_000,
            }) && states.1 is Instantiate && states.2 == StartInstance::Done(
                Err(PluginError::Runtime(error)),
            ),
            (Ok(_), Ok(_), Ok(_)) => states.0 == (StartInstance::SetYieldInterval {
                interval: 100_000,
            }) && states.1 is Instantiate && states.2 matches StartInstance::Done(Ok(_)),
        },
{
}

/// Opening a session comes to what its steps come to: the standard imports, the
/// caller's own, linking, the instance and its exports, each only if what came
/// before has succeeded. The session is one of that code, with that instance.
pub proof fn law_session_comes_to_its_steps<I>(
    compiled: Arc<CompiledPlugin>,
    linking: (Result<(), String>, Result<(), String>, Result<(), String>),
    started: Result<(), PluginError>,
    loaded: Result<I, String>,
    states: (OpenSession<I>, OpenSession<I>, OpenSession<I>, OpenSession<I>, OpenSession<I>),
)
    requires
        session_next(
            OpenSession::AddWasi { compiled },
            SessionReply::Answered(linking.0),
            states.0,
        ),
        session_next(states.0, SessionReply::Answered(linking.1), states.1),
        session_next(states.1, SessionReply::Answered(linking.2), states.2),
        session_next(states.2, SessionReply::Started(started), states.3),
        session_next(states.3, SessionReply::Loaded(loaded), states.4),
    ensures
        match linking {
            (Err(error), _, _) => states.4 == OpenSession::<I>::Done(
                Err(PluginError::Runtime(error)),
            ),
            (Ok(_), Err(error), _) => states.0 is RegisterImports && states.4 == OpenSession::<
                I,
            >::Done(Err(PluginError::Runtime(error))),
            (Ok(_), Ok(_), Err(error)) => states.1 is Link && states.4 == OpenSession::<I>::Done(
                Err(PluginError::Runtime(error)),
            ),
            (Ok(_), Ok(_), Ok(_)) => {
                &&& states.0 == (OpenSession::<I>::RegisterImports { compiled })
                &&& states.1 == (OpenSession::<I>::Link { compiled })
                &&& states.2 == (OpenSession::<I>::Start { compiled })
                &&& match (started, loaded) {
                    (Err(error), _) => states.4 == OpenSession::<I>::Done(Err(error)),
                    (Ok(_), Err(error)) => states.3 is LoadExports && states.4 == OpenSession::<
                        I,
                    >::Done(Err(PluginError::Runtime(error))),
                    (Ok(_), Ok(instance)) => {
                        &&& states.3 == (OpenSession::<I>::LoadExports { compiled })
                        &&& states.4 matches OpenSession::Done(Ok(plugin)) && plugin.code()
                            == compiled && plugin.held() == Some(instance)
                    },
                }
            },
        },
{
}

/// An answer to something that was not asked for leaves the opening of a session
/// as it is.
pub proof fn law_session_ignores_other_answers<I>(
    before: OpenSession<I>,
    reply: SessionReply<I>,
    after: OpenSession<I>,
)
    requires
        session_next(before, reply, after),
        match before {
            OpenSession::Start { .. } => reply !is Started,
            OpenSession::LoadExports { .. } => reply !is Loaded,
            OpenSession::Done(_) => true,
            _ => reply !is Answered,
        },
    ensures
        after == before,
{
}

/// A session opens from the code that was loaded for it, and from no other; where
/// loading has failed, the session fails with that error.
pub proof fn law_session_begins_with_what_was_loaded<I>(
    loaded: Result<Arc<CompiledPlugin>, PluginError>,
    out: OpenSession<I>,
)
    requires
        is_session_start(loaded, out),
    ensures
        match out {
            OpenSession::AddWasi { compiled } => loaded == Ok::<Arc<CompiledPlugin>, PluginError>(
                compiled,
            ),
            OpenSession::Done(Err(error)) => loaded == Err::<Arc<CompiledPlugin>, PluginError>(
                error,
            ),
            _ => false,
        },
{
}

/// Calls on a session follow one another on the same instance: a call takes it
/// away, so that none can run beside it, and after a call that succeeded the next
/// one has it again.
pub proof fn law_calls_share_the_instance<I, R, S>(
    instance: I,
    value: R,
    held: (Option<I>, Option<I>, Option<I>, Option<I>),
    states: (Call<I, R>, Call<I, R>, Call<I, R>),
    beside: Call<I, S>,
    next: Call<I, S>,
)
    requires
        is_call_of(Some(instance), held.0, states.0),
        is_call_start(held.0, beside),
        call_next(held.0, states.0, CallReply::Fueled(Ok(())), held.1, states.1),
        call_next(held.1, states.1, CallReply::Returned(Ok(value)), held.2, states.2),
        is_call_of(held.2, held.3, next),
    ensures
        beside matches Call::Done(Err(PluginError::Runtime(text))) && text@
            == "plugin session is closed"@,
        states.2 == Call::<I, R>::Done(Ok(value)),
        next matches Call::SetFuel { instance: again, fuel } && again == instance && fuel
            == 1_000_000_000,
        held.3 is None,
{
}

}
