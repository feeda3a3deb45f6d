use std::collections::BTreeSet;
use std::sync::Arc;

use bottles_plugins::adapters::{
    AdapterAction, PluginAdapters, PluginHandle, StorefrontAccountAdapter,
};
use bottles_plugins::discovery::{FoundEntry, OpenManager, OpenReply, Skip};
use bottles_plugins::error::{Error, IoFailure};
use bottles_plugins::ids::PluginId;
use bottles_plugins::manager::{
    data_directory, installed_directory, package_directory, plugin_data_directory, root_directory,
    staging_directory, PluginEntry, PluginManager, PluginStatus, Reload, ReloadReply, Replace,
    ReplaceReply, Uninstall, UninstallReply,
};
use bottles_plugins::package::{PackageManifest, ValidatedPackage};
use bottles_plugins::version::Version;

type Instance = &'static str;

fn id(value: u128) -> PluginId {
    PluginId::new(value).unwrap()
}

fn text(value: u128) -> String {
    format!("00000000-0000-0000-0000-{value:012x}")
}

fn package(value: u128, storefront_account: bool) -> ValidatedPackage {
    ValidatedPackage {
        manifest: PackageManifest {
            id: id(value),
            name: format!("Plugin {value}"),
            api_version: Version::new(0, 4, 1),
            storefront_account,
        },
        component: vec![1, 2, 3],
    }
}

fn handle(value: u128, storefront_account: bool, instance: Instance) -> Arc<PluginHandle<Instance>> {
    let manifest = package(value, storefront_account).manifest;
    Arc::new(PluginHandle { manifest, instance })
}

fn failure(text: &str) -> IoFailure {
    IoFailure { not_found: false, text: text.to_owned() }
}

fn missing() -> IoFailure {
    IoFailure { not_found: true, text: "no such file".to_owned() }
}

fn found(name: &str) -> OpenReply<Instance> {
    let entry = FoundEntry { is_directory: true, name: Some(name.to_owned()) };
    OpenReply::Entry(Some(Ok(entry)))
}

fn reading() -> OpenManager<Instance> {
    let mut state = PluginManager::open();
    for _ in 0..4 {
        state = state.resume(OpenReply::Answered(Ok(())));
    }
    state
}

fn discover(
    state: OpenManager<Instance>,
    value: u128,
    storefront_account: bool,
    loaded: Result<Instance, &str>,
) -> OpenManager<Instance> {
    let state = state.resume(found(&text(value)));
    let state = state.resume(OpenReply::Validated(Ok(package(value, storefront_account))));
    match loaded {
        Ok(instance) => {
            let state = state.resume(OpenReply::Loaded(Ok(instance)));
            assert!(matches!(state, OpenManager::Register { .. }));
            state.resume(OpenReply::Registered)
        }
        Err(error) => state.resume(OpenReply::Loaded(Err(Error::Host(error.to_owned())))),
    }
}

fn opened(state: OpenManager<Instance>) -> PluginManager<Instance> {
    match state.resume(OpenReply::Entry(None)) {
        OpenManager::Opened(manager) => manager,
        _ => panic!("expected an open manager"),
    }
}

fn two_plugins() -> PluginManager<Instance> {
    let state = discover(reading(), 1, true, Ok("first"));
    opened(discover(state, 2, false, Err("no exports")))
}

fn statuses(manager: &PluginManager<Instance>) -> Vec<(u128, String, String)> {
    let mut out: Vec<(u128, String, String)> = manager
        .list()
        .into_iter()
        .map(|info| {
            let status = match info.status {
                PluginStatus::Loaded => "loaded".to_owned(),
                PluginStatus::Failed(error) => format!("failed: {error}"),
            };
            (info.manifest.id.get(), info.manifest.name, status)
        })
        .collect();
    out.sort();
    out
}

#[test]
fn directories_lie_beneath_the_plugin_directory() {
    let first = id(1);
    assert_eq!(root_directory(), ["plugins"]);
    assert_eq!(installed_directory(), ["plugins", "installed"]);
    assert_eq!(data_directory(), ["plugins", "data"]);
    assert_eq!(staging_directory(), ["plugins", "staging"]);
    assert_eq!(package_directory(&first), ["plugins", "installed", text(1).as_str()]);
    assert_eq!(plugin_data_directory(&first), ["plugins", "data", text(1).as_str()]);
}

#[test]
fn opening_creates_the_directories() {
    let mut state: OpenManager<Instance> = PluginManager::open();
    for name in ["installed", "data", "staging", "installed"] {
        assert_eq!(state.directory().unwrap(), ["plugins", name]);
        state = state.resume(OpenReply::Answered(Ok(())));
    }
    assert!(state.directory().is_none());
    assert!(opened(state).list().is_empty());
}

#[test]
fn opening_fails_with_its_directories() {
    for steps in 0..4 {
        let mut state: OpenManager<Instance> = PluginManager::open();
        for _ in 0..steps {
            state = state.resume(OpenReply::Answered(Ok(())));
        }
        let state = state.resume(OpenReply::Answered(Err(failure("denied"))));
        assert!(matches!(state, OpenManager::Failed(Error::Io(_))));
    }
    let state = reading().resume(OpenReply::Entry(Some(Err(failure("denied")))));
    assert!(matches!(state, OpenManager::Failed(Error::Io(_))));
}

#[test]
fn discovered_plugins_are_listed_with_their_status() {
    assert_eq!(
        statuses(&two_plugins()),
        vec![
            (1, "Plugin 1".to_owned(), "loaded".to_owned()),
            (2, "Plugin 2".to_owned(), "failed: host operation failed: no exports".to_owned()),
        ]
    );
}

#[test]
fn invalid_entries_are_skipped_independently() {
    let state = discover(reading(), 1, false, Ok("first"));
    let entry = FoundEntry { is_directory: false, name: Some(text(9)) };
    let state = state.resume(OpenReply::Entry(Some(Ok(entry))));
    assert!(matches!(
        state,
        OpenManager::NextEntry { skipped: Some(Skip::NotADirectory), .. }
    ));
    let state = state.resume(found("not-a-uuid"));
    assert!(matches!(
        state,
        OpenManager::NextEntry { skipped: Some(Skip::NotAnIdentity), .. }
    ));
    let entry = FoundEntry { is_directory: true, name: None };
    let state = state.resume(OpenReply::Entry(Some(Ok(entry))));
    assert!(matches!(
        state,
        OpenManager::NextEntry { skipped: Some(Skip::NotAnIdentity), .. }
    ));
    let state = state.resume(found(&text(0)));
    assert!(matches!(
        state,
        OpenManager::NextEntry { skipped: Some(Skip::NotAnIdentity), .. }
    ));
    let state = state.resume(found(&text(3)));
    let error = Error::InvalidComponent("broken".to_owned());
    let state = state.resume(OpenReply::Validated(Err(error)));
    assert!(matches!(
        state,
        OpenManager::NextEntry { skipped: Some(Skip::InvalidPackage(_)), .. }
    ));
    let state = state.resume(found(&text(3)));
    let state = state.resume(OpenReply::Validated(Ok(package(4, false))));
    match &state {
        OpenManager::NextEntry { skipped: Some(Skip::OtherIdentity(other)), .. } => {
            assert_eq!(other.get(), 4)
        }
        _ => panic!("expected a skipped entry"),
    }
    let manager = opened(discover(state, 5, false, Ok("fifth")));
    let ids: Vec<u128> = statuses(&manager).into_iter().map(|status| status.0).collect();
    assert_eq!(ids, vec![1, 5]);
}

#[test]
fn package_directories_are_discovered_under_their_identity() {
    let name = package_directory(&id(0xabc)).pop().unwrap();
    match reading().resume(found(&name)) {
        OpenManager::Validate { id, .. } => assert_eq!(id.get(), 0xabc),
        _ => panic!("expected a validation"),
    }
}

#[test]
fn loaded_plugins_contribute_what_their_manifest_declares() {
    match PluginAdapters::register(handle(1, true, "first")) {
        AdapterAction::Register(adapter) => assert_eq!(adapter.handle().instance, "first"),
        _ => panic!("expected a registration"),
    }
    match PluginAdapters::register(handle(1, false, "first")) {
        AdapterAction::Unregister(plugin) => assert_eq!(plugin.get(), 1),
        _ => panic!("expected the registration to be dropped"),
    }
}

#[test]
fn adapter_presents_its_plugin_as_a_provider() {
    let adapter = StorefrontAccountAdapter::new(handle(1, true, "first"));
    let provider = adapter.provider();
    assert_eq!(provider.id.get(), 1);
    assert_eq!(provider.name, "Plugin 1");
    assert_eq!(adapter.link_account(0x1234), text(0x1234));
    assert_eq!(StorefrontAccountAdapter::<Instance>::linked(Ok(5)), Ok(5));
    let error: Result<u32, Error> = Err(Error::Load("a".to_owned(), "trap".to_owned()));
    assert_eq!(
        StorefrontAccountAdapter::<Instance>::linked(error),
        Err("plugin \"a\" failed to load: trap".to_owned())
    );
}

#[test]
fn entries_show_their_manifest_and_status() {
    let entry = PluginEntry::Loaded(handle(1, false, "first"));
    assert_eq!(entry.manifest().name, "Plugin 1");
    assert!(matches!(entry.status(), PluginStatus::Loaded));
    let manifest = package(2, false).manifest;
    let entry: PluginEntry<Instance> = PluginEntry::Failed { manifest, error: "bad".to_owned() };
    assert_eq!(entry.manifest().name, "Plugin 2");
    assert!(matches!(entry.status(), PluginStatus::Failed(error) if error == "bad"));
}

#[test]
fn reload_replaces_the_instance_after_initialization() {
    let mut manager = two_plugins();
    let state = manager.reload(id(1));
    match &state {
        Reload::Validate { path, .. } => {
            assert_eq!(*path, ["plugins", "installed", text(1).as_str()])
        }
        _ => panic!("expected a validation"),
    }
    let state = manager.resume_reload(state, ReloadReply::Validated(Ok(package(1, false))));
    assert!(matches!(state, Reload::Load { .. }));
    let reply = ReloadReply::Loaded(Ok("second"));
    let state = manager.resume_reload(state, reply);
    match &state {
        Reload::Release { adapter: AdapterAction::Unregister(plugin), replaced: Some(old) } => {
            assert_eq!(plugin.get(), 1);
            assert_eq!(old.instance, "first");
        }
        _ => panic!("expected a release"),
    }
    let state = manager.resume_reload(state, ReloadReply::Released);
    assert!(matches!(state, Reload::Done(Ok(()))));
    let state = manager.uninstall(id(1));
    match state {
        Uninstall::Release { removed: Some(old), .. } => assert_eq!(old.instance, "second"),
        _ => panic!("expected a release"),
    }
}

#[test]
fn reload_revives_a_failed_plugin() {
    let mut manager = two_plugins();
    let state = manager.reload(id(2));
    let state = manager.resume_reload(state, ReloadReply::Validated(Ok(package(2, true))));
    let reply = ReloadReply::Loaded(Ok("second"));
    match manager.resume_reload(state, reply) {
        Reload::Release { adapter: AdapterAction::Register(_), replaced: None } => {}
        _ => panic!("expected a release"),
    }
    assert_eq!(statuses(&manager)[1].2, "loaded");
}

#[test]
fn failed_reload_keeps_the_instance() {
    let mut manager = two_plugins();
    let before = statuses(&manager);
    let state = manager.reload(id(1));
    let reply = ReloadReply::Validated(Err(Error::InvalidComponent("broken".to_owned())));
    assert!(matches!(
        manager.resume_reload(state, reply),
        Reload::Done(Err(Error::InvalidComponent(_)))
    ));
    let state = manager.reload(id(1));
    match manager.resume_reload(state, ReloadReply::Validated(Ok(package(2, false)))) {
        Reload::Done(Err(Error::InvalidManifest(text))) => assert_eq!(
            text,
            "installed directory 00000000-0000-0000-0000-000000000001 contains plugin \
             00000000-0000-0000-0000-000000000002"
        ),
        _ => panic!("expected another identity"),
    }
    let state = manager.reload(id(1));
    let state = manager.resume_reload(state, ReloadReply::Validated(Ok(package(1, false))));
    let error = Error::Load(text(1), "no memory".to_owned());
    assert!(matches!(
        manager.resume_reload(state, ReloadReply::Loaded(Err(error))),
        Reload::Done(Err(Error::Load(_, _)))
    ));
    assert_eq!(statuses(&manager), before);
}

#[test]
fn reload_of_an_unknown_plugin_is_refused() {
    let manager = two_plugins();
    match manager.reload(id(9)) {
        Reload::Done(Err(Error::PluginNotFound(plugin))) => assert_eq!(plugin.get(), 9),
        _ => panic!("expected no plugin"),
    }
}

#[test]
fn reload_notices_that_the_plugin_has_gone() {
    let mut manager = two_plugins();
    let state = manager.reload(id(1));
    let state = manager.resume_reload(state, ReloadReply::Validated(Ok(package(1, false))));
    let _ = manager.uninstall(id(1));
    let reply = ReloadReply::Loaded(Ok("second"));
    assert!(matches!(
        manager.resume_reload(state, reply),
        Reload::Done(Err(Error::PluginNotFound(_)))
    ));
    assert_eq!(statuses(&manager).len(), 1);
}

#[test]
fn uninstall_closes_before_it_removes() {
    let mut manager = two_plugins();
    let state = manager.uninstall(id(1));
    assert_eq!(statuses(&manager).len(), 1);
    match &state {
        Uninstall::Release { adapter: AdapterAction::Unregister(plugin), removed, .. } => {
            assert_eq!(plugin.get(), 1);
            assert_eq!(removed.as_ref().unwrap().instance, "first");
        }
        _ => panic!("expected a release"),
    }
    let state = state.resume(UninstallReply::Released);
    match &state {
        Uninstall::RemovePackage { path, .. } => {
            assert_eq!(*path, ["plugins", "installed", text(1).as_str()])
        }
        _ => panic!("expected the package to go"),
    }
    let state = state.resume(UninstallReply::Removed(Ok(())));
    match &state {
        Uninstall::RemoveData { path } => {
            assert_eq!(*path, ["plugins", "data", text(1).as_str()])
        }
        _ => panic!("expected the data to go"),
    }
    let state = state.resume(UninstallReply::Removed(Ok(())));
    assert!(matches!(state, Uninstall::Done(Ok(()))));
}

#[test]
fn interrupted_uninstall_can_be_repeated() {
    let mut manager = two_plugins();
    let state = manager.uninstall(id(1)).resume(UninstallReply::Released);
    let state = state.resume(UninstallReply::Removed(Err(failure("busy"))));
    assert!(matches!(state, Uninstall::Done(Err(Error::Io(_)))));
    let state = manager.uninstall(id(1));
    assert!(matches!(state, Uninstall::Release { removed: None, .. }));
    let state = state.resume(UninstallReply::Released);
    let state = state.resume(UninstallReply::Removed(Err(missing())));
    let state = state.resume(UninstallReply::Removed(Err(missing())));
    assert!(matches!(state, Uninstall::Done(Ok(()))));
    let state: Uninstall<Instance> = Uninstall::RemoveData { path: data_directory() };
    let state = state.resume(UninstallReply::Removed(Err(failure("busy"))));
    assert!(matches!(state, Uninstall::Done(Err(Error::Io(_)))));
}

#[test]
fn install_initializes_then_activates_then_shows() {
    let mut manager = two_plugins();
    let state = manager.install(Ok(package(1, true)));
    assert!(matches!(state, Replace::Load { .. }));
    let reply = ReplaceReply::Loaded(Ok("second"));
    let state = manager.resume_install(state, reply);
    assert!(matches!(state, Replace::Activate { .. }));
    let state = manager.resume_install(state, ReplaceReply::Activated(Ok(())));
    match &state {
        Replace::Release { adapter: AdapterAction::Register(_), replaced: Some(old), .. } => {
            assert_eq!(old.instance, "first")
        }
        _ => panic!("expected a release"),
    }
    match manager.resume_install(state, ReplaceReply::Released) {
        Replace::Done(Ok(info)) => {
            assert_eq!(info.manifest.name, "Plugin 1");
            assert!(matches!(info.status, PluginStatus::Loaded));
        }
        _ => panic!("expected a plugin"),
    }
}

#[test]
fn failed_install_changes_nothing() {
    let mut manager = two_plugins();
    let before = statuses(&manager);
    let state = manager.dev_install(Err(Error::Host("no cargo".to_owned())));
    assert!(matches!(state, Replace::Done(Err(Error::Host(_)))));
    let state = manager.dev_install(Ok(package(3, false)));
    let reply = ReplaceReply::Loaded(Err(Error::Load(text(3), "trap".to_owned())));
    let state = manager.resume_install(state, reply);
    assert!(matches!(state, Replace::Done(Err(Error::Load(_, _)))));
    let state = manager.install(Ok(package(3, false)));
    let state =
        manager.resume_install(state, ReplaceReply::Loaded(Ok("third")));
    let reply = ReplaceReply::Activated(Err(Error::Io(failure("full"))));
    let state = manager.resume_install(state, reply);
    assert!(matches!(state, Replace::Done(Err(Error::Io(_)))));
    assert_eq!(statuses(&manager), before);
}

fn apply(providers: &mut BTreeSet<u128>, action: &AdapterAction<Instance>) {
    match action {
        AdapterAction::Register(adapter) => {
            providers.insert(adapter.provider().id.get());
        }
        AdapterAction::Unregister(plugin) => {
            providers.remove(&plugin.get());
        }
    }
}

fn discover_and_register(
    state: OpenManager<Instance>,
    providers: &mut BTreeSet<u128>,
    name: &str,
    value: u128,
    storefront_account: bool,
    loaded: Result<Instance, &str>,
) -> OpenManager<Instance> {
    let state = state.resume(found(name));
    let state = state.resume(OpenReply::Validated(Ok(package(value, storefront_account))));
    let reply = match loaded {
        Ok(instance) => Ok(instance),
        Err(error) => Err(Error::Host(error.to_owned())),
    };
    let state = state.resume(OpenReply::Loaded(reply));
    if let OpenManager::Register { adapter, .. } = &state {
        apply(providers, adapter);
    }
    state.resume(OpenReply::Registered)
}

#[test]
fn account_providers_agree_with_the_loaded_plugins() {
    let mut providers = BTreeSet::new();
    let mut state = reading();
    for (value, storefront_account, loaded) in
        [(1, true, Ok("a")), (2, true, Err("trap")), (3, false, Ok("c"))]
    {
        let name = text(value);
        state = discover_and_register(
            state,
            &mut providers,
            &name,
            value,
            storefront_account,
            loaded,
        );
    }
    let mut manager = opened(state);
    assert_eq!(providers, BTreeSet::from([1]));

    let state = manager.reload(id(2));
    let state = manager.resume_reload(state, ReloadReply::Validated(Ok(package(2, true))));
    let reply = ReloadReply::Loaded(Ok("b"));
    match manager.resume_reload(state, reply) {
        Reload::Release { adapter, .. } => apply(&mut providers, &adapter),
        _ => panic!("expected a release"),
    }
    assert_eq!(providers, BTreeSet::from([1, 2]));

    let state = manager.install(Ok(package(1, false)));
    let state = manager.resume_install(state, ReplaceReply::Loaded(Ok("d")));
    match manager.resume_install(state, ReplaceReply::Activated(Ok(()))) {
        Replace::Release { adapter, .. } => apply(&mut providers, &adapter),
        _ => panic!("expected a release"),
    }
    assert_eq!(providers, BTreeSet::from([2]));

    match manager.uninstall(id(2)) {
        Uninstall::Release { adapter, .. } => apply(&mut providers, &adapter),
        _ => panic!("expected a release"),
    }
    assert!(providers.is_empty());
}

#[test]
fn last_directory_of_a_plugin_counts() {
    let mut providers = BTreeSet::new();
    let name = "00000000-0000-0000-0000-00000000000a";
    let state = discover_and_register(reading(), &mut providers, name, 10, true, Ok("small"));
    let name = "00000000-0000-0000-0000-00000000000A";
    let state = discover_and_register(state, &mut providers, name, 10, true, Err("trap"));
    let manager = opened(state);
    assert_eq!(
        statuses(&manager),
        vec![(
            10,
            "Plugin 10".to_owned(),
            "failed: host operation failed: trap".to_owned()
        )]
    );
    assert_eq!(providers, BTreeSet::from([10]));
}
