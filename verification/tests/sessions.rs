use std::sync::Arc;

use bottles_plugins::catalog::CompiledPlugin;
use bottles_plugins::error::PluginError;
use bottles_plugins::library::{answer_caller, launch, list_entries, GuestCall, GuestReply};
use bottles_plugins::manifest::{PluginInfo, PluginManifest};
use bottles_plugins::runtime::Runtime;
use bottles_plugins::session::{
    Call, CallReply, OpenSession, Plugin, SessionReply, StartInstance,
};
use bottles_plugins::storefront::{
    ask_at, link_account, request_input, InputRequest, LinkAccount, LinkReply,
};
use bottles_plugins::version::Version;

fn compiled() -> Arc<CompiledPlugin> {
    let manifest = PluginManifest {
        schema_version: 1,
        id: "alpha".to_owned(),
        name: "Alpha".to_owned(),
        version: Version::new(1, 0, 0),
        description: String::new(),
        authors: vec![],
        license: "MIT".to_owned(),
        repository: "https://example.org/".to_owned(),
    };
    let info = PluginInfo { manifest, interfaces: vec![] };
    let header = [0x00, 0x61, 0x73, 0x6d, 0x0d, 0x00, 0x01, 0x00];
    let component = Runtime::new().unwrap().compile(&header).unwrap();
    Arc::new(CompiledPlugin { info, component })
}

fn invoking(plugin: &mut Plugin<u32>) -> Call<u32, Result<u32, String>> {
    let state = plugin.call();
    assert!(matches!(state, Call::SetFuel { fuel: 1_000_000_000, .. }));
    let state = plugin.resume_call(state, CallReply::Fueled(Ok(())));
    assert!(matches!(state, Call::Invoke { .. }));
    state
}

fn assert_closed(plugin: &mut Plugin<u32>) {
    for _ in 0..2 {
        let state: Call<u32, ()> = plugin.call();
        match state {
            Call::Done(Err(PluginError::Runtime(text))) => {
                assert_eq!(text, "plugin session is closed")
            }
            _ => panic!("expected a closed session"),
        }
    }
    assert_eq!(plugin.info().manifest.id, "alpha");
}

#[test]
fn successful_calls_keep_the_instance() {
    let mut plugin = Plugin::new(compiled(), 7);
    for value in [1, 2] {
        let state = invoking(&mut plugin);
        let state: Call<u32, Result<u32, String>> = match state {
            Call::Invoke { instance } => Call::Invoke { instance: instance + 1 },
            _ => panic!("expected a call"),
        };
        match plugin.resume_call(state, CallReply::Returned(Ok(Ok(value)))) {
            Call::Done(Ok(Ok(returned))) => assert_eq!(returned, value),
            _ => panic!("expected a value"),
        }
    }
    match invoking(&mut plugin) {
        Call::Invoke { instance } => assert_eq!(instance, 9),
        _ => panic!("expected a call"),
    }
}

#[test]
fn guest_errors_keep_the_instance() {
    let mut plugin = Plugin::new(compiled(), 7);
    let state = invoking(&mut plugin);
    let reply = CallReply::Returned(Ok(Err("no such entry".to_owned())));
    assert!(matches!(plugin.resume_call(state, reply), Call::Done(Ok(Err(_)))));
    let _ = invoking(&mut plugin);
}

#[test]
fn runtime_errors_close_the_session() {
    let mut plugin = Plugin::new(compiled(), 7);
    let state = invoking(&mut plugin);
    match plugin.resume_call(state, CallReply::Returned(Err("trap".to_owned()))) {
        Call::Done(Err(PluginError::Runtime(text))) => assert_eq!(text, "trap"),
        _ => panic!("expected a runtime error"),
    }
    assert_closed(&mut plugin);
}

#[test]
fn failed_fueling_closes_the_session() {
    let mut plugin = Plugin::new(compiled(), 7);
    let state: Call<u32, ()> = plugin.call();
    let state = plugin.resume_call(state, CallReply::Fueled(Err("no fuel".to_owned())));
    assert!(matches!(state, Call::Done(Err(PluginError::Runtime(_)))));
    assert_closed(&mut plugin);
}

#[test]
fn dropped_calls_close_the_session() {
    let mut plugin = Plugin::new(compiled(), 7);
    drop(invoking(&mut plugin));
    assert_closed(&mut plugin);
}

#[test]
fn instance_starts_with_fuel() {
    let state = StartInstance::new();
    assert!(matches!(state, StartInstance::SetFuel { fuel: 1_000_000_000 }));
    let state = state.resume(Ok(()));
    assert!(matches!(state, StartInstance::SetYieldInterval { interval: 100_000 }));
    let state = state.resume(Ok(()));
    assert!(matches!(state, StartInstance::Instantiate));
    assert!(matches!(state.resume(Ok(())), StartInstance::Done(Ok(()))));
    for steps in 0..3 {
        let mut state = StartInstance::new();
        for _ in 0..steps {
            state = state.resume(Ok(()));
        }
        match state.resume(Err(format!("step {steps}"))) {
            StartInstance::Done(Err(PluginError::Runtime(text))) => {
                assert_eq!(text, format!("step {steps}"))
            }
            _ => panic!("expected a runtime error"),
        }
    }
}

#[test]
fn session_opens_step_by_step() {
    let code = compiled();
    let state: OpenSession<u32> = OpenSession::start(Ok(code.clone()));
    assert!(matches!(state, OpenSession::AddWasi { .. }));
    let state = state.resume(SessionReply::Answered(Ok(())));
    assert!(matches!(state, OpenSession::RegisterImports { .. }));
    let state = state.resume(SessionReply::Answered(Ok(())));
    assert!(matches!(state, OpenSession::Link { .. }));
    let state = state.resume(SessionReply::Answered(Ok(())));
    assert!(matches!(state, OpenSession::Start { .. }));
    let state = state.resume(SessionReply::Started(Ok(())));
    assert!(matches!(state, OpenSession::LoadExports { .. }));
    match state.resume(SessionReply::Loaded(Ok(7))) {
        OpenSession::Done(Ok(mut plugin)) => {
            assert_eq!(plugin.info().manifest.name, "Alpha");
            let _ = invoking(&mut plugin);
        }
        _ => panic!("expected a session"),
    }
}

#[test]
fn session_fails_with_each_of_its_steps() {
    let code = compiled();
    for steps in 0..3 {
        let mut state: OpenSession<u32> = OpenSession::start(Ok(code.clone()));
        for _ in 0..steps {
            state = state.resume(SessionReply::Answered(Ok(())));
        }
        match state.resume(SessionReply::Answered(Err(format!("step {steps}")))) {
            OpenSession::Done(Err(PluginError::Runtime(text))) => {
                assert_eq!(text, format!("step {steps}"))
            }
            _ => panic!("expected a runtime error"),
        }
    }
    let state: OpenSession<u32> = OpenSession::Start { compiled: code.clone() };
    let error = PluginError::Runtime("no memory".to_owned());
    assert!(matches!(
        state.resume(SessionReply::Started(Err(error))),
        OpenSession::Done(Err(PluginError::Runtime(_)))
    ));
    let state: OpenSession<u32> = OpenSession::LoadExports { compiled: code };
    assert!(matches!(
        state.resume(SessionReply::Loaded(Err("no exports".to_owned()))),
        OpenSession::Done(Err(PluginError::Runtime(_)))
    ));
    let state: OpenSession<u32> =
        OpenSession::start(Err(PluginError::NotFound("alpha".to_owned())));
    assert!(matches!(state, OpenSession::Done(Err(PluginError::NotFound(_)))));
}

#[test]
fn entries_are_listed_by_the_guest() {
    let state: GuestCall<(), Vec<u32>> = list_entries();
    let state = state.resume(GuestReply::Bound(Ok(())));
    assert!(matches!(state, GuestCall::Invoke { argument: () }));
    match state.resume(GuestReply::Returned(Ok(Ok(vec![1, 2])))) {
        GuestCall::Done(outcome) => assert_eq!(answer_caller(outcome), Ok(vec![1, 2])),
        _ => panic!("expected the end"),
    }
}

#[test]
fn launch_hands_the_entry_to_the_guest() {
    let state = launch("game").resume(GuestReply::Bound(Ok(())));
    match &state {
        GuestCall::Invoke { argument } => assert_eq!(argument, "game"),
        _ => panic!("expected a call"),
    }
    match state.resume(GuestReply::Returned(Ok(Err("not installed".to_owned())))) {
        GuestCall::Done(outcome) => {
            assert_eq!(answer_caller(outcome), Err("not installed".to_owned()))
        }
        _ => panic!("expected the end"),
    }
    match launch("game").resume(GuestReply::Bound(Err("no such export".to_owned()))) {
        GuestCall::Done(outcome) => {
            assert_eq!(outcome, Ok(Err("no such export".to_owned())));
            assert_eq!(answer_caller(outcome), Err("no such export".to_owned()));
        }
        _ => panic!("expected the end"),
    }
    let state = launch("game").resume(GuestReply::Bound(Ok(())));
    match state.resume(GuestReply::Returned(Err("trap".to_owned()))) {
        GuestCall::Done(outcome) => {
            assert_eq!(outcome, Err("trap".to_owned()));
            assert_eq!(answer_caller(outcome), Err("trap".to_owned()));
        }
        _ => panic!("expected the end"),
    }
}

#[test]
fn interaction_is_taken_back_after_the_call() {
    let state: LinkAccount<u32> = link_account();
    let state = state.resume(LinkReply::Bound(Ok(())));
    assert!(matches!(state, LinkAccount::PushInteraction));
    let state = state.resume(LinkReply::Pushed(Ok(())));
    assert!(matches!(state, LinkAccount::Invoke));
    let state = state.resume(LinkReply::Returned(Ok(Ok(5))));
    assert!(matches!(state, LinkAccount::DeleteInteraction { answer: Ok(5) }));
    match state.resume(LinkReply::Deleted(Ok(()))) {
        LinkAccount::Done(outcome) => assert_eq!(answer_caller(outcome), Ok(5)),
        _ => panic!("expected the end"),
    }
}

#[test]
fn failed_linking_is_reported() {
    let state: LinkAccount<u32> = link_account();
    match state.resume(LinkReply::Bound(Err("no such export".to_owned()))) {
        LinkAccount::Done(outcome) => assert_eq!(outcome, Ok(Err("no such export".to_owned()))),
        _ => panic!("expected the end"),
    }
    let state: LinkAccount<u32> = LinkAccount::PushInteraction;
    match state.resume(LinkReply::Pushed(Err("full".to_owned()))) {
        LinkAccount::Done(outcome) => assert_eq!(outcome, Err("full".to_owned())),
        _ => panic!("expected the end"),
    }
    let state: LinkAccount<u32> = LinkAccount::Invoke;
    match state.resume(LinkReply::Returned(Err("trap".to_owned()))) {
        LinkAccount::Done(outcome) => assert_eq!(outcome, Err("trap".to_owned())),
        _ => panic!("expected the end"),
    }
    let state: LinkAccount<u32> = LinkAccount::DeleteInteraction { answer: Ok(5) };
    match state.resume(LinkReply::Deleted(Err("gone".to_owned()))) {
        LinkAccount::Done(outcome) => assert_eq!(outcome, Err("gone".to_owned())),
        _ => panic!("expected the end"),
    }
}

#[test]
fn input_is_requested_at_a_url() {
    match request_input(Ok(()), "https://EXAMPLE.org", "Log in".to_owned()) {
        InputRequest::Ask { url, instructions } => {
            assert_eq!(url, "https://example.org/");
            assert_eq!(instructions, "Log in");
        }
        _ => panic!("expected a question"),
    }
    match request_input(Ok(()), "example", "Log in".to_owned()) {
        InputRequest::Refuse(text) => assert_eq!(
            text,
            "invalid interaction URL: relative URL without a base"
        ),
        _ => panic!("expected a refusal"),
    }
    match request_input(Err("no such resource".to_owned()), "example", String::new()) {
        InputRequest::Fail(text) => assert_eq!(text, "no such resource"),
        _ => panic!("expected a failure"),
    }
    assert!(matches!(
        ask_at(Ok("https://example.org/".to_owned()), String::new()),
        InputRequest::Ask { .. }
    ));
}
