use bottles_plugins::activation::{
    activate_package, write_package, ActivatePackage, ActivateReply, WritePackage, WriteReply,
};
use bottles_plugins::error::{remove_directory, Error, IoFailure, PluginError};
use bottles_plugins::ids::PluginId;
use bottles_plugins::package::{validate_package, PackageManifest, ValidatedPackage};
use bottles_plugins::source::{
    build_source, install_rust_target_if_needed, Argument, BuildReply, BuildSource, CommandOutput,
    HostCommand, TargetReply, TargetSetup,
};
use bottles_plugins::version::Version;

fn failure(text: &str) -> IoFailure {
    IoFailure { not_found: false, text: text.to_owned() }
}

fn missing() -> IoFailure {
    IoFailure { not_found: true, text: "no such file".to_owned() }
}

fn output(success: bool, stdout: &[u8], stderr: &[u8]) -> CommandOutput {
    CommandOutput {
        success,
        status: if success { "exit status: 0" } else { "exit status: 101" }.to_owned(),
        stdout: stdout.to_vec(),
        stderr: stderr.to_vec(),
    }
}

fn manifest() -> PackageManifest {
    PackageManifest {
        id: PluginId::new(7).unwrap(),
        name: "Demo".to_owned(),
        api_version: Version::new(0, 4, 1),
        storefront_account: false,
    }
}

fn component() -> Vec<u8> {
    let mut out = vec![0x00, 0x61, 0x73, 0x6d, 0x0d, 0x00, 0x01, 0x00];
    out.extend_from_slice(&[0, 26, 19]);
    out.extend_from_slice(b"bottles:api-version");
    out.extend_from_slice(&[0, 0, 0, 4, 0, 1]);
    out
}

fn line(command: HostCommand) -> String {
    let mut out = command.program;
    for argument in command.arguments {
        out.push(' ');
        match argument {
            Argument::Text(text) => out.push_str(&text),
            Argument::Path(names) => out.push_str(&format!("<{}>", names.join("/"))),
        }
    }
    out
}

fn host_error(outcome: Result<(), Error>) -> String {
    match outcome {
        Err(Error::Host(text)) => text,
        other => panic!("expected a host error, not {other:?}"),
    }
}

#[test]
fn present_target_is_not_added() {
    let state = install_rust_target_if_needed();
    assert_eq!(
        line(state.command().unwrap()),
        "rustc --print target-libdir --target wasm32-wasip2"
    );
    let state = state.resume(TargetReply::Output(Ok(output(true, b" /lib/wasm\n", b""))));
    assert!(state.command().is_none());
    match &state {
        TargetSetup::Probe { path } => assert_eq!(path, "/lib/wasm"),
        _ => panic!("expected a probe"),
    }
    assert!(matches!(state.resume(TargetReply::Exists(true)), TargetSetup::Done(Ok(()))));
}

#[test]
fn missing_target_is_added() {
    let state = TargetSetup::Probe { path: "/lib/wasm".to_owned() };
    let state = state.resume(TargetReply::Exists(false));
    assert_eq!(line(state.command().unwrap()), "rustup target add wasm32-wasip2");
    let state = state.resume(TargetReply::Output(Ok(output(true, b"", b""))));
    assert!(matches!(state, TargetSetup::Done(Ok(()))));
}

#[test]
fn failed_target_commands_are_reported() {
    let reply = TargetReply::Output(Err(failure("no rustc")));
    match TargetSetup::Locate.resume(reply) {
        TargetSetup::Done(Err(Error::Io(failure))) => assert_eq!(failure.text, "no rustc"),
        _ => panic!("expected an I/O error"),
    }
    let reply = TargetReply::Output(Ok(output(false, b"", b"bad\xff")));
    match TargetSetup::Locate.resume(reply) {
        TargetSetup::Done(outcome) => assert_eq!(
            host_error(outcome),
            "failed to locate the wasm32-wasip2 target: bad\u{fffd}"
        ),
        _ => panic!("expected the end"),
    }
    let reply = TargetReply::Output(Err(failure("no rustup")));
    match TargetSetup::Add.resume(reply) {
        TargetSetup::Done(outcome) => {
            assert_eq!(host_error(outcome), "failed to run rustup: no rustup")
        }
        _ => panic!("expected the end"),
    }
    let reply = TargetReply::Output(Ok(output(false, b"", b"offline")));
    match TargetSetup::Add.resume(reply) {
        TargetSetup::Done(outcome) => assert_eq!(
            host_error(outcome),
            "failed to install the wasm32-wasip2 target: offline"
        ),
        _ => panic!("expected the end"),
    }
}

#[test]
fn stray_replies_change_nothing() {
    let state = TargetSetup::Locate.resume(TargetReply::Exists(true));
    assert!(matches!(state, TargetSetup::Locate));
    let state = build_source().resume(BuildReply::Target(Ok(())), &Version::new(0, 4, 1));
    assert!(matches!(state, BuildSource::LoadManifest));
}

#[test]
fn checkout_is_built_and_its_component_written() {
    let supported = Version::new(0, 4, 1);
    let state = build_source();
    assert!(state.file().is_none());
    let state = state.resume(BuildReply::Manifest(Ok(manifest())), &supported);
    assert_eq!(state.file(), Some((vec!["Cargo.toml".to_owned()], None)));
    let source = "[package]\nname = \"my-plugin\"\n".to_owned();
    let state = state.resume(BuildReply::Text(Ok(source)), &supported);
    assert!(matches!(state, BuildSource::EnsureTarget { .. }));
    let state = state.resume(BuildReply::Target(Ok(())), &supported);
    assert_eq!(
        line(state.command().unwrap()),
        "cargo build --release --target wasm32-wasip2 --target-dir <target>"
    );
    let state = state.resume(BuildReply::Output(Ok(output(true, b"", b""))), &supported);
    let names = ["target", "wasm32-wasip2", "release", "my_plugin"];
    assert_eq!(
        state.file(),
        Some((names.map(|name| name.to_owned()).to_vec(), Some("wasm".to_owned())))
    );
    let state = state.resume(BuildReply::Bytes(Ok(component())), &supported);
    assert_eq!(state.file(), Some((vec!["plugin.wasm".to_owned()], None)));
    match state.resume(BuildReply::Written(Ok(())), &supported) {
        BuildSource::Done(Ok(package)) => {
            assert_eq!(package.component, component());
            assert_eq!(package.manifest.name, "Demo");
        }
        _ => panic!("expected a package"),
    }
}

#[test]
fn invalid_artifact_is_not_written() {
    let supported = Version::new(0, 4, 2);
    let state = BuildSource::ReadArtifact { manifest: manifest(), stem: "demo".to_owned() };
    match state.resume(BuildReply::Bytes(Ok(component())), &supported) {
        BuildSource::Done(Err(Error::ApiVersion { actual, expected })) => {
            assert_eq!((actual.as_str(), expected.as_str()), ("0.4.1", "0.4.2"));
        }
        _ => panic!("expected another version"),
    }
}

#[test]
fn failed_build_steps_end_the_build() {
    let supported = Version::new(0, 4, 1);
    let reply = BuildReply::Manifest(Err(Error::ParseManifest("bad".to_owned())));
    assert!(matches!(
        build_source().resume(reply, &supported),
        BuildSource::Done(Err(Error::ParseManifest(_)))
    ));
    let state = BuildSource::ReadCargoManifest { manifest: manifest() };
    assert!(matches!(
        state.resume(BuildReply::Text(Err(missing())), &supported),
        BuildSource::Done(Err(Error::Io(IoFailure { not_found: true, .. })))
    ));
    let state = BuildSource::ReadCargoManifest { manifest: manifest() };
    assert!(matches!(
        state.resume(BuildReply::Text(Ok("[package]\n".to_owned())), &supported),
        BuildSource::Done(Err(Error::Host(_)))
    ));
    let state = BuildSource::RunCargo { manifest: manifest(), stem: "demo".to_owned() };
    match state.resume(BuildReply::Output(Ok(output(false, b"", b"error"))), &supported) {
        BuildSource::Done(Err(Error::Host(text))) => {
            assert_eq!(text, "cargo build failed with exit status: 101: error")
        }
        _ => panic!("expected a host error"),
    }
    let state = BuildSource::RunCargo { manifest: manifest(), stem: "demo".to_owned() };
    assert!(matches!(
        state.resume(BuildReply::Output(Err(failure("no cargo"))), &supported),
        BuildSource::Done(Err(Error::Io(_)))
    ));
    let state = BuildSource::ReadArtifact { manifest: manifest(), stem: "demo".to_owned() };
    assert!(matches!(
        state.resume(BuildReply::Bytes(Err(missing())), &supported),
        BuildSource::Done(Err(Error::Io(_)))
    ));
    let package = ValidatedPackage { manifest: manifest(), component: component() };
    let state = BuildSource::WriteComponent { package };
    assert!(matches!(
        state.resume(BuildReply::Written(Err(failure("full"))), &supported),
        BuildSource::Done(Err(Error::Io(_)))
    ));
    let state = BuildSource::EnsureTarget { manifest: manifest(), stem: "demo".to_owned() };
    let reply = BuildReply::Target(Err(Error::Host("no target".to_owned())));
    assert!(matches!(
        state.resume(reply, &supported),
        BuildSource::Done(Err(Error::Host(_)))
    ));
}

#[test]
fn package_is_written_to_a_new_directory() {
    let state = write_package("/staging/x".to_owned());
    let state = state.resume(WriteReply::Exists(false));
    assert!(matches!(state, WritePackage::CreateDirectory));
    let state = state.resume(WriteReply::Answered(Ok(())));
    assert!(matches!(state, WritePackage::WriteManifest));
    let state = state.resume(WriteReply::Manifest(Ok(())));
    assert!(matches!(state, WritePackage::WriteComponent));
    let state = state.resume(WriteReply::Answered(Ok(())));
    assert!(matches!(state, WritePackage::Done(Ok(()))));
}

#[test]
fn package_is_written_as_two_files() {
    let package = ValidatedPackage { manifest: manifest(), component: component() };
    let state = WritePackage::WriteManifest;
    assert_eq!(state.file(), Some("plugin.toml"));
    assert_eq!(state.manifest(&package), Some(&manifest()));
    assert_eq!(state.component(&package), None);
    let state = state.resume(WriteReply::Manifest(Ok(())));
    assert_eq!(state.file(), Some("plugin.wasm"));
    assert_eq!(state.manifest(&package), None);
    assert_eq!(state.component(&package), Some(&component()));
    let state = state.resume(WriteReply::Answered(Ok(())));
    assert_eq!(state.file(), None);
    assert_eq!(state.component(&package), None);
}

#[test]
fn activated_package_validates_again() {
    let supported = Version::new(0, 4, 1);
    let package = validate_package(manifest(), component(), &supported).unwrap();
    let written = WritePackage::WriteManifest.manifest(&package).unwrap().clone();
    let bytes = WritePackage::WriteComponent.component(&package).unwrap().clone();
    let again = validate_package(written, bytes, &supported).unwrap();
    assert_eq!(again.manifest, package.manifest);
    assert_eq!(again.component, package.component);
}

#[test]
fn package_is_not_written_over_a_directory() {
    match write_package("/staging/x".to_owned()).resume(WriteReply::Exists(true)) {
        WritePackage::Done(outcome) => assert_eq!(
            host_error(outcome),
            "package destination /staging/x already exists"
        ),
        _ => panic!("expected the end"),
    }
}

#[test]
fn partial_package_is_removed() {
    let reply = WriteReply::Manifest(Err(Error::Host("no manifest".to_owned())));
    let state = WritePackage::WriteManifest.resume(reply);
    assert!(matches!(state, WritePackage::RemovePartial { .. }));
    match state.resume(WriteReply::Answered(Err(failure("busy")))) {
        WritePackage::Done(outcome) => assert_eq!(host_error(outcome), "no manifest"),
        _ => panic!("expected the end"),
    }
    let state = WritePackage::WriteComponent.resume(WriteReply::Answered(Err(failure("full"))));
    match state.resume(WriteReply::Answered(Ok(()))) {
        WritePackage::Done(Err(Error::Io(failure))) => assert_eq!(failure.text, "full"),
        _ => panic!("expected an I/O error"),
    }
    let state = WritePackage::CreateDirectory.resume(WriteReply::Answered(Err(failure("full"))));
    assert!(matches!(state, WritePackage::Done(Err(Error::Io(_)))));
}

fn staged() -> ActivatePackage {
    let package = ValidatedPackage { manifest: manifest(), component: component() };
    let mut state = activate_package(&package);
    for _ in 0..4 {
        state = state.resume(ActivateReply::Answered(Ok(())));
    }
    assert!(matches!(state, ActivatePackage::WriteStaged { .. }));
    state.resume(ActivateReply::Staged(Ok(())))
}

#[test]
fn activation_replaces_the_installed_package() {
    match staged() {
        ActivatePackage::RemoveInstalled { installed, staged } => {
            assert_eq!(installed, "00000000-0000-0000-0000-000000000007");
            assert_eq!(staged.len(), 36);
            assert_ne!(staged, installed);
        }
        _ => panic!("expected the removal"),
    }
    for answer in [Ok(()), Err(missing())] {
        let state = staged().resume(ActivateReply::Answered(answer));
        assert!(matches!(state, ActivatePackage::Rename { .. }));
        let state = state.resume(ActivateReply::Answered(Ok(())));
        assert!(matches!(state, ActivatePackage::Done(Ok(()))));
    }
}

#[test]
fn failed_move_removes_what_was_staged() {
    let state = staged().resume(ActivateReply::Answered(Ok(())));
    let name = match &state {
        ActivatePackage::Rename { staged, .. } => staged.clone(),
        _ => panic!("expected the move"),
    };
    let state = state.resume(ActivateReply::Answered(Err(failure("busy"))));
    match &state {
        ActivatePackage::RemoveStaged { staged, .. } => assert_eq!(*staged, name),
        _ => panic!("expected the removal"),
    }
    match state.resume(ActivateReply::Answered(Err(failure("gone")))) {
        ActivatePackage::Done(Err(Error::Io(failure))) => assert_eq!(failure.text, "busy"),
        _ => panic!("expected an I/O error"),
    }
}

#[test]
fn failed_staging_leaves_the_installed_package() {
    let package = ValidatedPackage { manifest: manifest(), component: component() };
    for steps in 0..4 {
        let mut state = activate_package(&package);
        for _ in 0..steps {
            state = state.resume(ActivateReply::Answered(Ok(())));
        }
        let state = state.resume(ActivateReply::Answered(Err(failure("denied"))));
        assert!(matches!(state, ActivatePackage::Done(Err(Error::Io(_)))));
    }
    let state = ActivatePackage::WriteStaged {
        installed: "a".to_owned(),
        staged: "b".to_owned(),
    };
    let reply = ActivateReply::Staged(Err(Error::Host("no package".to_owned())));
    assert!(matches!(state.resume(reply), ActivatePackage::Done(Err(Error::Host(_)))));
    let state = staged().resume(ActivateReply::Answered(Err(failure("denied"))));
    assert!(matches!(state, ActivatePackage::Done(Err(Error::Io(_)))));
}

#[test]
fn missing_directories_count_as_removed() {
    assert!(remove_directory(Ok(())).is_ok());
    assert!(remove_directory(Err(missing())).is_ok());
    assert_eq!(remove_directory(Err(failure("denied"))).unwrap_err().text, "denied");
}

#[test]
fn errors_tell_what_went_wrong() {
    let text = || "why".to_owned();
    let id = PluginId::new(7).unwrap();
    let cases = [
        (
            Error::ReadManifest { path: "/x/plugin.toml".to_owned(), source: text() },
            "failed to read plugin manifest /x/plugin.toml: why",
        ),
        (Error::InvalidManifest(text()), "invalid plugin manifest: why"),
        (Error::ParseManifest(text()), "failed to parse plugin manifest: why"),
        (
            Error::PluginNotFound(id),
            "plugin 00000000-0000-0000-0000-000000000007 was not found",
        ),
        (
            Error::ApiVersion { actual: "1.0.0".to_owned(), expected: "2.0.0".to_owned() },
            "plugin API version 1.0.0 is not supported; expected 2.0.0",
        ),
        (Error::InvalidComponent(text()), "plugin component is invalid: why"),
        (Error::Load("a\"b".to_owned(), text()), "plugin \"a\\\"b\" failed to load: why"),
        (Error::Host(text()), "host operation failed: why"),
        (Error::Io(failure("why")), "I/O error: why"),
    ];
    for (error, expected) in cases {
        assert_eq!(error.text(), expected);
    }
    let cases = [
        (PluginError::SerializeMetadata(text()), "failed to serialize plugin metadata: why"),
        (PluginError::ParseMetadata(text()), "failed to parse plugin metadata: why"),
        (PluginError::UnsupportedSchema(12), "plugin metadata schema 12 is not supported"),
        (PluginError::NotFound("a".to_owned()), "plugin a was not found"),
        (PluginError::Runtime(text()), "plugin runtime failed: why"),
        (PluginError::Io(failure("why")), "I/O: why"),
    ];
    for (error, expected) in cases {
        assert_eq!(error.text(), expected);
    }
}
