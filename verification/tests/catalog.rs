use bottles_plugins::catalog::{Catalog, InstalledPlugin};
use bottles_plugins::error::{IoFailure, PluginError};
use bottles_plugins::installation::{InstallPlugin, InstallReply};
use bottles_plugins::loading::{LoadComponent, LoadReply};
use bottles_plugins::manifest::{parse_manifest, PluginInfo, PluginManifest};
use bottles_plugins::ordered::TextMap;
use bottles_plugins::packages::{
    directory, OpenPlugins, Plugins, RemovalReply, ScanReply, UninstallPlugin,
};
use bottles_plugins::runtime::Runtime;
use bottles_plugins::version::Version;

fn failure(text: &str) -> IoFailure {
    IoFailure { not_found: false, text: text.to_owned() }
}

fn missing() -> IoFailure {
    IoFailure { not_found: true, text: "no such file".to_owned() }
}

fn manifest(id: &str) -> PluginManifest {
    PluginManifest {
        schema_version: 1,
        id: id.to_owned(),
        name: format!("The {id} plugin"),
        version: Version::new(1, 2, 3),
        description: "A plugin".to_owned(),
        authors: vec!["One".to_owned(), "Two".to_owned()],
        license: "MIT".to_owned(),
        repository: "https://example.org/".to_owned(),
    }
}

fn info(id: &str) -> PluginInfo {
    PluginInfo { manifest: manifest(id), interfaces: vec!["demo:plugin/library".to_owned()] }
}

fn component(name: &str) -> Vec<u8> {
    let mut out = vec![0x00, 0x61, 0x73, 0x6d, 0x0d, 0x00, 0x01, 0x00];
    out.extend_from_slice(&[5, 3, 1, 1, 0]);
    out.extend_from_slice(&[11, name.len() as u8 + 6, 1, 0, name.len() as u8]);
    out.extend_from_slice(name.as_bytes());
    out.extend_from_slice(&[5, 0, 0]);
    out
}

fn scan(ids: &[&str]) -> Plugins {
    let mut state = Plugins::open().resume(ScanReply::Directory(Ok(())));
    for id in ids {
        state = state.resume(ScanReply::Entry(Some(Ok(true))));
        state = state.resume(ScanReply::Metadata(Ok(Ok(info(id)))));
    }
    match state.resume(ScanReply::Entry(None)) {
        OpenPlugins::Opened(plugins) => plugins,
        _ => panic!("expected an open catalog"),
    }
}

fn ids(plugins: &Plugins) -> Vec<String> {
    plugins.list().into_iter().map(|info| info.manifest.id).collect()
}

fn load(plugins: &mut Plugins, state: LoadComponent) -> LoadComponent {
    let state = plugins.resume_load(state, LoadReply::Locked);
    let state = plugins.resume_load(state, LoadReply::Component(Ok(component("demo:plugin/x"))));
    let state = state.compile();
    assert!(matches!(state, LoadComponent::Publish { .. }));
    plugins.resume_load(state, LoadReply::Publish)
}

fn start_install(plugins: &mut Plugins, id: &str) -> InstallPlugin {
    let state = plugins.install();
    assert_eq!(state.file(), Some("plugin.toml"));
    let state = plugins.resume_install(state, InstallReply::Manifest(Ok(Ok(manifest(id)))));
    assert_eq!(state.file(), Some("plugin.wasm"));
    let reply = InstallReply::Component(Ok(component("demo:plugin/new")));
    let state = plugins.resume_install(state, reply);
    state.compile()
}

fn installing(plugins: &mut Plugins, id: &str, steps: usize) -> InstallPlugin {
    let mut state = start_install(plugins, id);
    let replies = [
        InstallReply::Answered(Ok(())),
        InstallReply::Answered(Ok(())),
        InstallReply::Metadata(Ok(Ok(()))),
        InstallReply::Answered(Ok(())),
        InstallReply::Locked,
        InstallReply::Answered(Ok(())),
    ];
    for reply in replies.into_iter().take(steps) {
        state = plugins.resume_install(state, reply);
    }
    state
}

#[test]
fn text_maps_keep_their_keys_in_order() {
    let mut map: TextMap<u32> = TextMap::new();
    for (key, value) in [("b", 1), ("a", 2), ("c", 3), ("b", 4)] {
        map.insert(key.to_owned(), value);
    }
    assert_eq!(map.len(), 3);
    assert_eq!(*map.at(0), ("a".to_owned(), 2));
    assert_eq!(*map.at(1), ("b".to_owned(), 4));
    assert_eq!(*map.at(2), ("c".to_owned(), 3));
    assert_eq!(map.get("b"), Some(&4));
    assert_eq!(map.get("d"), None);
    map.remove("a");
    map.remove("d");
    assert_eq!(map.len(), 2);
    assert_eq!(map.get("a"), None);
}

#[test]
fn catalog_keeps_entries_under_their_identifiers() {
    let mut catalog = Catalog::new();
    catalog.insert(InstalledPlugin::Uncompiled(info("b")));
    catalog.insert(InstalledPlugin::Uncompiled(info("a")));
    assert_eq!(catalog.get("a").unwrap().info().manifest.name, "The a plugin");
    assert!(catalog.get("c").is_none());
    catalog.remove("a");
    assert_eq!(catalog.infos().len(), 1);
}

#[test]
fn manifests_of_another_schema_are_refused() {
    assert_eq!(parse_manifest(Ok(manifest("a"))).unwrap().id, "a");
    let mut other = manifest("a");
    other.schema_version = 2;
    assert!(matches!(
        parse_manifest(Ok(other)),
        Err(PluginError::UnsupportedSchema(2))
    ));
    match parse_manifest(Err("bad key".to_owned())) {
        Err(PluginError::ParseMetadata(text)) => assert_eq!(text, "bad key"),
        _ => panic!("expected a parse error"),
    }
}

#[test]
fn metadata_tells_the_exported_interfaces() {
    let info = info("a");
    assert!(info.exports("demo:plugin/library"));
    assert!(!info.exports("demo:plugin"));
    let copy = info.clone();
    assert_eq!(copy.manifest.authors, vec!["One".to_owned(), "Two".to_owned()]);
    assert_eq!(copy.interfaces, info.interfaces);
    assert_eq!(copy.manifest.version.text(), "1.2.3");
}

#[test]
fn missing_directory_opens_an_empty_catalog() {
    match Plugins::open().resume(ScanReply::Directory(Err(missing()))) {
        OpenPlugins::Opened(plugins) => assert!(plugins.list().is_empty()),
        _ => panic!("expected an open catalog"),
    }
}

#[test]
fn scan_lists_packages_in_the_order_of_their_identifiers() {
    let plugins = scan(&["beta", "alpha", "Gamma"]);
    assert_eq!(ids(&plugins), ["Gamma", "alpha", "beta"]);
    assert_eq!(plugins.get("beta").unwrap().manifest.name, "The beta plugin");
    assert!(plugins.get("delta").is_none());
}

#[test]
fn scan_passes_over_what_is_no_directory() {
    let state = Plugins::open().resume(ScanReply::Directory(Ok(())));
    assert_eq!(state.file(), None);
    let state = state.resume(ScanReply::Entry(Some(Ok(false))));
    assert!(matches!(state, OpenPlugins::NextEntry { .. }));
}

#[test]
fn failed_scan_does_not_open() {
    let state = Plugins::open().resume(ScanReply::Directory(Err(failure("denied"))));
    assert!(matches!(state, OpenPlugins::Failed(PluginError::Io(_))));
    let reading = || Plugins::open().resume(ScanReply::Directory(Ok(())));
    let state = reading().resume(ScanReply::Entry(Some(Err(failure("denied")))));
    assert!(matches!(state, OpenPlugins::Failed(PluginError::Io(_))));
    let found = || reading().resume(ScanReply::Entry(Some(Ok(true))));
    let state = found().resume(ScanReply::Metadata(Err(missing())));
    assert!(matches!(state, OpenPlugins::Failed(PluginError::Io(_))));
    let state = found().resume(ScanReply::Metadata(Ok(Err("bad".to_owned()))));
    assert!(matches!(state, OpenPlugins::Failed(PluginError::ParseMetadata(_))));
}

#[test]
fn catalog_needs_a_runtime() {
    let error = PluginError::Runtime("no engine".to_owned());
    assert!(matches!(
        Plugins::with_runtime(Catalog::new(), Err(error)),
        Err(PluginError::Runtime(_))
    ));
    assert!(Plugins::with_runtime(Catalog::new(), Runtime::new()).is_ok());
}

#[test]
fn package_directory_is_named_after_its_identifier() {
    assert_eq!(directory("alpha"), ["installed", "alpha"]);
}

#[test]
fn code_is_compiled_once_and_kept() {
    let mut plugins = scan(&["alpha"]);
    let state = plugins.load(&info("alpha"));
    assert!(matches!(&state, LoadComponent::AwaitLifecycle { id, reload: false } if id == "alpha"));
    let first = match load(&mut plugins, state) {
        LoadComponent::Done(Ok(plugin)) => plugin,
        _ => panic!("expected code"),
    };
    assert_eq!(first.info.manifest.id, "alpha");
    assert!(wasmtime::Store::new(first.component.engine(), ()).set_fuel(1).is_ok());
    match plugins.load(&info("alpha")) {
        LoadComponent::Done(Ok(plugin)) => assert!(std::sync::Arc::ptr_eq(&first, &plugin)),
        _ => panic!("expected the code that is kept"),
    }
    let waiting = LoadComponent::AwaitLifecycle { id: "alpha".to_owned(), reload: false };
    match plugins.resume_load(waiting, LoadReply::Locked) {
        LoadComponent::Done(Ok(plugin)) => assert!(std::sync::Arc::ptr_eq(&first, &plugin)),
        _ => panic!("expected the code that is kept"),
    }
    let state = plugins.reload("alpha");
    match load(&mut plugins, state) {
        LoadComponent::Done(Ok(plugin)) => assert!(!std::sync::Arc::ptr_eq(&first, &plugin)),
        _ => panic!("expected fresh code"),
    }
    assert_eq!(ids(&plugins), ["alpha"]);
}

#[test]
fn component_is_read_from_the_package() {
    let mut plugins = scan(&["alpha"]);
    let state = plugins.reload("alpha");
    match plugins.resume_load(state, LoadReply::Locked) {
        LoadComponent::ReadComponent { path, info, .. } => {
            assert_eq!(path, ["installed", "alpha", "plugin.wasm"]);
            assert_eq!(info.manifest.id, "alpha");
        }
        _ => panic!("expected a component to be read"),
    }
}

#[test]
fn failed_loads_are_reported() {
    let mut plugins = scan(&["alpha"]);
    match plugins.load(&info("beta")) {
        LoadComponent::Done(Err(PluginError::NotFound(id))) => assert_eq!(id, "beta"),
        _ => panic!("expected no plugin"),
    }
    let state = plugins.reload("beta");
    match plugins.resume_load(state, LoadReply::Locked) {
        LoadComponent::Done(Err(PluginError::NotFound(id))) => assert_eq!(id, "beta"),
        _ => panic!("expected no plugin"),
    }
    let state = plugins.load(&info("alpha"));
    let state = plugins.resume_load(state, LoadReply::Locked);
    let state = plugins.resume_load(state, LoadReply::Component(Err(missing())));
    assert!(matches!(state, LoadComponent::Done(Err(PluginError::Io(_)))));
    let state = plugins.load(&info("alpha"));
    let state = plugins.resume_load(state, LoadReply::Locked);
    let state = plugins.resume_load(state, LoadReply::Component(Ok(b"broken".to_vec())));
    let state = plugins.resume_load(state, LoadReply::Compile);
    assert!(matches!(state, LoadComponent::Done(Err(PluginError::Runtime(_)))));
}

#[test]
fn compiled_code_is_published_under_its_metadata() {
    let runtime = Runtime::new().unwrap();
    let code = runtime.compile(&component("demo:plugin/x"));
    match LoadComponent::compiled(info("alpha"), code) {
        LoadComponent::Publish { plugin } => assert_eq!(plugin.info.manifest.id, "alpha"),
        _ => panic!("expected code"),
    }
    let error = PluginError::Runtime("bad".to_owned());
    assert!(matches!(
        LoadComponent::compiled(info("alpha"), Err(error)),
        LoadComponent::Done(Err(PluginError::Runtime(_)))
    ));
}

#[test]
fn install_prepares_the_package_that_was_read() {
    let mut plugins = scan(&[]);
    match start_install(&mut plugins, "alpha") {
        InstallPlugin::CreateWorkspace { prepared, workspace } => {
            assert_eq!(workspace.len(), 36);
            assert_eq!(prepared.bytes, component("demo:plugin/new"));
            assert_eq!(prepared.info.manifest.id, "alpha");
            assert_eq!(prepared.info.interfaces, ["demo:plugin/new"]);
            assert!(wasmtime::Store::new(prepared.component.engine(), ()).set_fuel(1).is_ok());
        }
        _ => panic!("expected a prepared package"),
    }
}

#[test]
fn install_replaces_the_entry_once_the_package_is_in_place() {
    let mut plugins = scan(&["alpha", "beta"]);
    let state = installing(&mut plugins, "alpha", 4);
    assert!(matches!(state, InstallPlugin::AwaitLifecycle { .. }));
    assert_eq!(ids(&plugins), ["alpha", "beta"]);
    let state = plugins.resume_install(state, InstallReply::Locked);
    assert_eq!(ids(&plugins), ["beta"]);
    match &state {
        InstallPlugin::RemoveInstalled { directory, .. } => {
            assert_eq!(*directory, ["installed", "alpha"])
        }
        _ => panic!("expected the old package to go"),
    }
    let state = plugins.resume_install(state, InstallReply::Answered(Err(missing())));
    assert!(matches!(state, InstallPlugin::Rename { .. }));
    match plugins.resume_install(state, InstallReply::Answered(Ok(()))) {
        InstallPlugin::Done(Ok(info)) => assert_eq!(info.interfaces, ["demo:plugin/new"]),
        _ => panic!("expected a plugin"),
    }
    assert_eq!(ids(&plugins), ["alpha", "beta"]);
    assert!(plugins.get("alpha").unwrap().exports("demo:plugin/new"));
    assert!(matches!(plugins.load(&info("alpha")), LoadComponent::Done(Ok(_))));
}

#[test]
fn failed_preparation_preserves_the_catalog() {
    let mut plugins = scan(&["alpha"]);
    let state = plugins.install();
    let state = plugins.resume_install(state, InstallReply::Manifest(Err(missing())));
    assert!(matches!(state, InstallPlugin::Done(Err(PluginError::Io(_)))));
    let state = plugins.install();
    let reply = InstallReply::Manifest(Ok(Err("bad".to_owned())));
    let state = plugins.resume_install(state, reply);
    assert!(matches!(state, InstallPlugin::Done(Err(PluginError::ParseMetadata(_)))));
    let mut other = manifest("alpha");
    other.schema_version = 7;
    let state = plugins.install();
    let state = plugins.resume_install(state, InstallReply::Manifest(Ok(Ok(other))));
    assert!(matches!(state, InstallPlugin::Done(Err(PluginError::UnsupportedSchema(7)))));
    let state = plugins.install();
    let state = plugins.resume_install(state, InstallReply::Manifest(Ok(Ok(manifest("alpha")))));
    let state = plugins.resume_install(state, InstallReply::Component(Err(missing())));
    assert!(matches!(state, InstallPlugin::Done(Err(PluginError::Io(_)))));
    let state = plugins.install();
    let state = plugins.resume_install(state, InstallReply::Manifest(Ok(Ok(manifest("alpha")))));
    let reply = InstallReply::Component(Ok(b"broken".to_vec()));
    let state = plugins.resume_install(state, reply);
    let state = plugins.resume_install(state, InstallReply::Compile);
    assert!(matches!(state, InstallPlugin::Done(Err(PluginError::Runtime(_)))));
    let state = installing(&mut plugins, "alpha", 0);
    let reply = InstallReply::Answered(Err(failure("full")));
    let state = plugins.resume_install(state, reply);
    assert!(matches!(state, InstallPlugin::Done(Err(PluginError::Io(_)))));
    for steps in [1, 3] {
        let state = installing(&mut plugins, "alpha", steps);
        let reply = InstallReply::Answered(Err(failure("full")));
        let state = plugins.resume_install(state, reply);
        assert!(matches!(state, InstallPlugin::RemoveWorkspace { .. }));
        let state = plugins.resume_install(state, InstallReply::Answered(Err(failure("busy"))));
        match state {
            InstallPlugin::Done(Err(PluginError::Io(failure))) => {
                assert_eq!(failure.text, "full")
            }
            _ => panic!("expected an I/O error"),
        }
    }
    let state = installing(&mut plugins, "alpha", 2);
    let reply = InstallReply::Metadata(Err("unwritable".to_owned()));
    let state = plugins.resume_install(state, reply);
    let state = plugins.resume_install(state, InstallReply::Answered(Ok(())));
    assert!(matches!(
        state,
        InstallPlugin::Done(Err(PluginError::SerializeMetadata(_)))
    ));
    let state = installing(&mut plugins, "alpha", 2);
    let reply = InstallReply::Metadata(Ok(Err(failure("full"))));
    let state = plugins.resume_install(state, reply);
    assert!(matches!(state, InstallPlugin::RemoveWorkspace { .. }));
    assert_eq!(ids(&plugins), ["alpha"]);
    assert!(plugins.get("alpha").unwrap().exports("demo:plugin/library"));
}

#[test]
fn failed_replacement_withdraws_only_its_own_entry() {
    for steps in [5, 6] {
        let mut plugins = scan(&["alpha", "beta"]);
        let state = installing(&mut plugins, "alpha", steps);
        let reply = InstallReply::Answered(Err(failure("busy")));
        let state = plugins.resume_install(state, reply);
        assert!(matches!(state, InstallPlugin::RemoveWorkspace { .. }));
        let state = plugins.resume_install(state, InstallReply::Answered(Ok(())));
        assert!(matches!(state, InstallPlugin::Done(Err(PluginError::Io(_)))));
        assert_eq!(ids(&plugins), ["beta"]);
    }
}

#[test]
fn compiled_component_is_prepared() {
    let runtime = Runtime::new().unwrap();
    let bytes = component("demo:plugin/x");
    let code = runtime.compile(&bytes);
    match InstallPlugin::compiled(manifest("alpha"), bytes.clone(), code) {
        InstallPlugin::CreateWorkspace { prepared, .. } => {
            assert_eq!(prepared.info.interfaces, ["demo:plugin/x"]);
            assert_eq!(prepared.bytes, bytes);
        }
        _ => panic!("expected a prepared package"),
    }
    let error = PluginError::Runtime("bad".to_owned());
    assert!(matches!(
        InstallPlugin::compiled(manifest("alpha"), bytes, Err(error)),
        InstallPlugin::Done(Err(PluginError::Runtime(_)))
    ));
}

#[test]
fn uninstall_withdraws_the_entry_and_removes_the_package() {
    let mut plugins = scan(&["alpha", "beta"]);
    let state = plugins.uninstall("alpha");
    assert_eq!(ids(&plugins), ["alpha", "beta"]);
    let state = plugins.resume_uninstall(state, RemovalReply::Locked);
    assert_eq!(ids(&plugins), ["beta"]);
    match &state {
        UninstallPlugin::RemoveInstalled { directory } => {
            assert_eq!(*directory, ["installed", "alpha"])
        }
        _ => panic!("expected the package to go"),
    }
    let state = plugins.resume_uninstall(state, RemovalReply::Removed(Ok(())));
    assert!(matches!(state, UninstallPlugin::Done(Ok(()))));
    let state = plugins.uninstall("alpha");
    let state = plugins.resume_uninstall(state, RemovalReply::Locked);
    let state = plugins.resume_uninstall(state, RemovalReply::Removed(Err(missing())));
    assert!(matches!(state, UninstallPlugin::Done(Ok(()))));
    let state = plugins.uninstall("beta");
    let state = plugins.resume_uninstall(state, RemovalReply::Locked);
    let state = plugins.resume_uninstall(state, RemovalReply::Removed(Err(failure("busy"))));
    assert!(matches!(state, UninstallPlugin::Done(Err(PluginError::Io(_)))));
    assert!(matches!(
        plugins.load(&info("beta")),
        LoadComponent::Done(Err(PluginError::NotFound(_)))
    ));
}

fn install(plugins: &mut Plugins, id: &str) {
    let state = installing(plugins, id, 6);
    let state = plugins.resume_install(state, InstallReply::Answered(Ok(())));
    assert!(matches!(state, InstallPlugin::Done(Ok(_))));
}

#[test]
fn reopened_catalog_lists_alike() {
    let mut plugins = scan(&[]);
    for id in ["gamma", "alpha", "beta", "alpha"] {
        install(&mut plugins, id);
    }
    let state = plugins.uninstall("gamma");
    let state = plugins.resume_uninstall(state, RemovalReply::Locked);
    plugins.resume_uninstall(state, RemovalReply::Removed(Ok(())));
    let state = plugins.reload("alpha");
    load(&mut plugins, state);
    let stored = plugins.list();
    let mut state = Plugins::open().resume(ScanReply::Directory(Ok(())));
    for info in stored.iter().rev() {
        state = state.resume(ScanReply::Entry(Some(Ok(true))));
        assert_eq!(state.file(), Some("plugin.toml"));
        state = state.resume(ScanReply::Metadata(Ok(Ok(info.clone()))));
    }
    match state.resume(ScanReply::Entry(None)) {
        OpenPlugins::Opened(reopened) => assert_eq!(reopened.list(), plugins.list()),
        _ => panic!("expected an open catalog"),
    }
    assert_eq!(ids(&plugins), ["alpha", "beta"]);
}

#[test]
fn kept_code_outlives_other_operations() {
    let mut plugins = scan(&["alpha", "beta"]);
    let state = plugins.load(&info("alpha"));
    let first = match load(&mut plugins, state) {
        LoadComponent::Done(Ok(plugin)) => plugin,
        _ => panic!("expected code"),
    };
    install(&mut plugins, "gamma");
    let state = plugins.reload("beta");
    load(&mut plugins, state);
    let state = plugins.uninstall("beta");
    plugins.resume_uninstall(state, RemovalReply::Locked);
    match plugins.load(&info("alpha")) {
        LoadComponent::Done(Ok(plugin)) => assert!(std::sync::Arc::ptr_eq(&first, &plugin)),
        _ => panic!("expected the code that is kept"),
    }
}
