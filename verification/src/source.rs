//! Building a plugin from a source checkout.

use vstd::prelude::*;

use crate::error::{Error, IoFailure};
use crate::package::{
    source_target_name, validate_package, PackageManifest, ValidatedPackage, COMPONENT_FILE,
    RUST_WASM_TARGET,
};
use crate::text::{appended, joined, lossy_text, trim};
use crate::version::Version;

verus! {

broadcast use vstd::string::group_string_axioms;

/// How a command ended.
#[derive(Debug)]
pub struct CommandOutput {
    /// Whether it reported success.
    pub success: bool,
    /// Its exit status in words.
    pub status: String,
    pub stdout: Vec<u8>,
    pub stderr: Vec<u8>,
}

/// One argument of a command.
#[derive(Debug)]
pub enum Argument {
    /// The text itself.
    Text(String),
    /// The path of these names beneath the source checkout.
    Path(Vec<String>),
}

/// What an [`Argument`] holds.
pub enum ArgumentView {
    Text(Seq<char>),
    Path(Seq<Seq<char>>),
}

impl View for Argument {
    type V = ArgumentView;

    open spec fn view(&self) -> ArgumentView {
        match self {
            Argument::Text(text) => ArgumentView::Text(text@),
            Argument::Path(names) => ArgumentView::Path(crate::text::texts(names@)),
        }
    }
}

/// A command to run in the source checkout.
#[derive(Debug)]
pub struct HostCommand {
    pub program: String,
    pub arguments: Vec<Argument>,
}

/// The arguments of a command.
pub open spec fn arguments_view(arguments: Seq<Argument>) -> Seq<ArgumentView> {
    arguments.map_values(|a: Argument| a@)
}

fn text_argument(text: &str) -> (out: Argument)
    ensures
        out@ == ArgumentView::Text(text@),
{
    Argument::Text(text.to_owned())
}

/// Making sure that the compiler has the plugin target: what to do next.
#[derive(Debug)]
pub enum TargetSetup {
    /// Ask the compiler where the target's libraries would be.
    Locate,
    /// See whether this path exists.
    Probe { path: String },
    /// Add the target to the toolchain.
    Add,
    /// Nothing more to do.
    Done(Result<(), Error>),
}

/// An answer to what a [`TargetSetup`] asks for.
#[derive(Debug)]
pub enum TargetReply {
    /// A command ended, or could not be started.
    Output(Result<CommandOutput, IoFailure>),
    /// Whether a path exists.
    Exists(bool),
}

/// One step of the target setup. An answer to something else leaves it as it
/// is.
pub open spec fn target_next(before: TargetSetup, reply: TargetReply, after: TargetSetup) -> bool {
    match (before, reply) {
        (TargetSetup::Locate, TargetReply::Output(Err(failure))) => after == TargetSetup::Done(
            Err(Error::Io(failure)),
        ),
        (TargetSetup::Locate, TargetReply::Output(Ok(output))) => if output.success {
            after matches TargetSetup::Probe { path } && path@ == crate::text::trimmed(
                crate::text::utf8_lossy(output.stdout@),
            )
        } else {
            after matches TargetSetup::Done(Err(Error::Host(text))) && text@
                == "failed to locate the "@ + RUST_WASM_TARGET@ + " target: "@
                + crate::text::utf8_lossy(output.stderr@)
        },
        (TargetSetup::Probe { path }, TargetReply::Exists(exists)) => if exists {
            after == TargetSetup::Done(Ok(()))
        } else {
            after == TargetSetup::Add
        },
        (TargetSetup::Add, TargetReply::Output(Err(failure))) => after matches TargetSetup::Done(
            Err(Error::Host(text)),
        ) && text@ == "failed to run rustup: "@ + failure.text@,
        (TargetSetup::Add, TargetReply::Output(Ok(output))) => if output.success {
            after == TargetSetup::Done(Ok(()))
        } else {
            after matches TargetSetup::Done(Err(Error::Host(text))) && text@
                == "failed to install the "@ + RUST_WASM_TARGET@ + " target: "@
                + crate::text::utf8_lossy(output.stderr@)
        },
        _ => after == before,
    }
}

/// Begins to make sure that the compiler has the plugin target.
pub fn install_rust_target_if_needed() -> (out: TargetSetup)
    ensures
        out == TargetSetup::Locate,
{
    TargetSetup::Locate
}

impl TargetSetup {
    /// The command to run next, if one is.
    pub fn command(&self) -> (out: Option<HostCommand>)
        ensures
            match (*self, out) {
                (TargetSetup::Locate, Some(command)) => {
                    &&& command.program@ == "rustc"@
                    &&& arguments_view(command.arguments@) == seq![
                        ArgumentView::Text("--print"@),
                        ArgumentView::Text("target-libdir"@),
                        ArgumentView::Text("--target"@),
                        ArgumentView::Text(RUST_WASM_TARGET@),
                    ]
                },
                (TargetSetup::Add, Some(command)) => {
                    &&& command.program@ == "rustup"@
                    &&& arguments_view(command.arguments@) == seq![
                        ArgumentView::Text("target"@),
                        ArgumentView::Text("add"@),
                        ArgumentView::Text(RUST_WASM_TARGET@),
                    ]
                },
                (TargetSetup::Probe { .. }, None) => true,
                (TargetSetup::Done(_), None) => true,
                _ => false,
            },
    {
        match self {
            TargetSetup::Locate => {
                let arguments = vec![
                    text_argument("--print"),
                    text_argument("target-libdir"),
                    text_argument("--target"),
                    text_argument(RUST_WASM_TARGET),
                ];
                let command = HostCommand { program: "rustc".to_owned(), arguments };
                assert(arguments_view(command.arguments@) =~= seq![
                    ArgumentView::Text("--print"@),
                    ArgumentView::Text("target-libdir"@),
                    ArgumentView::Text("--target"@),
                    ArgumentView::Text(RUST_WASM_TARGET@),
                ]);
                Some(command)
            },
            TargetSetup::Add => {
                let arguments = vec![
                    text_argument("target"),
                    text_argument("add"),
                    text_argument(RUST_WASM_TARGET),
                ];
                let command = HostCommand { program: "rustup".to_owned(), arguments };
                assert(arguments_view(command.arguments@) =~= seq![
                    ArgumentView::Text("target"@),
                    ArgumentView::Text("add"@),
                    ArgumentView::Text(RUST_WASM_TARGET@),
                ]);
                Some(command)
            },
            _ => None,
        }
    }

    /// Takes the answer to what was asked for.
    pub fn resume(self, reply: TargetReply) -> (out: TargetSetup)
        ensures
            target_next(self, reply, out),
    {
        match (self, reply) {
            (TargetSetup::Locate, TargetReply::Output(Err(failure))) => TargetSetup::Done(
                Err(Error::Io(failure)),
            ),
            (TargetSetup::Locate, TargetReply::Output(Ok(output))) => {
                if output.success {
                    let text = lossy_text(output.stdout.as_slice());
                    TargetSetup::Probe { path: trim(&text) }
                } else {
                    let text = joined("failed to locate the ", RUST_WASM_TARGET, " target: ");
                    TargetSetup::Done(
                        Err(
                            Error::Host(appended(&text, &lossy_text(output.stderr.as_slice()))),
                        ),
                    )
                }
            },
            (TargetSetup::Probe { path }, TargetReply::Exists(exists)) => {
                if exists {
                    TargetSetup::Done(Ok(()))
                } else {
                    TargetSetup::Add
                }
            },
            (TargetSetup::Add, TargetReply::Output(Err(failure))) => TargetSetup::Done(
                Err(Error::Host(appended("failed to run rustup: ", &failure.text))),
            ),
            (TargetSetup::Add, TargetReply::Output(Ok(output))) => {
                if output.success {
                    TargetSetup::Done(Ok(()))
                } else {
                    let text = joined("failed to install the ", RUST_WASM_TARGET, " target: ");
                    TargetSetup::Done(
                        Err(
                            Error::Host(appended(&text, &lossy_text(output.stderr.as_slice()))),
                        ),
                    )
                }
            },
            (state, _) => state,
        }
    }
}

/// The target is added only after its libraries were found not to exist.
pub proof fn law_target_is_added_only_if_missing(
    states: Seq<TargetSetup>,
    replies: Seq<TargetReply>,
    at: int,
) -> (probed: int)
    requires
        crate::runs::is_run(
            |s: TargetSetup, r: TargetReply, t: TargetSetup| target_next(s, r, t),
            states,
            replies,
        ),
        states[0] == TargetSetup::Locate,
        0 <= at < states.len(),
        states[at] == TargetSetup::Add,
    ensures
        0 <= probed < at,
        states[probed] is Probe,
        replies[probed] == TargetReply::Exists(false),
{
    crate::runs::lemma_entered_along_run(
        |s: TargetSetup, r: TargetReply, t: TargetSetup| target_next(s, r, t),
        |s: TargetSetup| s == TargetSetup::Add,
        states,
        replies,
        at,
    )
}

/// Building a package from a source checkout: what to do next.
#[derive(Debug)]
pub enum BuildSource {
    /// Load the checkout's plugin manifest.
    LoadManifest,
    /// Read the checkout's Cargo manifest.
    ReadCargoManifest { manifest: PackageManifest },
    /// Make sure that the compiler has the plugin target.
    EnsureTarget { manifest: PackageManifest, stem: String },
    /// Run Cargo.
    RunCargo { manifest: PackageManifest, stem: String },
    /// Read the artifact that Cargo built.
    ReadArtifact { manifest: PackageManifest, stem: String },
    /// Write the component beside the manifest.
    WriteComponent { package: ValidatedPackage },
    /// Nothing more to do.
    Done(Result<ValidatedPackage, Error>),
}

/// An answer to what a [`BuildSource`] asks for.
#[derive(Debug)]
pub enum BuildReply {
    /// The plugin manifest.
    Manifest(Result<PackageManifest, Error>),
    /// The text of a file.
    Text(Result<String, IoFailure>),
    /// How the target setup ended.
    Target(Result<(), Error>),
    /// A command ended, or could not be started.
    Output(Result<CommandOutput, IoFailure>),
    /// The bytes of a file.
    Bytes(Result<Vec<u8>, IoFailure>),
    /// A file was written.
    Written(Result<(), IoFailure>),
}

/// Whether a package's component is for the interface of its manifest and of a
/// host that supports `supported`.
pub open spec fn is_valid_package(
    package: ValidatedPackage,
    supported: crate::version::VersionView,
) -> bool {
    crate::package::is_verdict(
        crate::package::embedded_version(
            crate::inspection::component_sections(package.component@),
        ),
        package.manifest.api_version@,
        supported,
        Ok(()),
    )
}

/// One step of the build. An answer to something else leaves it as it is.
pub open spec fn build_next(
    supported: crate::version::VersionView,
    before: BuildSource,
    reply: BuildReply,
    after: BuildSource,
) -> bool {
    match (before, reply) {
        (BuildSource::LoadManifest, BuildReply::Manifest(Ok(manifest))) => after
            == BuildSource::ReadCargoManifest { manifest },
        (BuildSource::LoadManifest, BuildReply::Manifest(Err(error))) => after
            == BuildSource::Done(Err(error)),
        (BuildSource::ReadCargoManifest { manifest }, BuildReply::Text(Err(failure))) => after
            == BuildSource::Done(Err(Error::Io(failure))),
        (
            BuildSource::ReadCargoManifest { manifest },
            BuildReply::Text(Ok(source)),
        ) => match crate::package::artifact_name(crate::package::parsed_document(source@)) {
            Ok(expected) => after matches BuildSource::EnsureTarget { manifest: kept, stem } && kept
                == manifest && stem@ == expected,
            Err(expected) => after matches BuildSource::Done(Err(Error::Host(text))) && text@
                == expected,
        },
        (BuildSource::EnsureTarget { manifest, stem }, BuildReply::Target(Ok(_))) => after
            == BuildSource::RunCargo { manifest, stem },
        (BuildSource::EnsureTarget { manifest, stem }, BuildReply::Target(Err(error))) => after
            == BuildSource::Done(Err(error)),
        (BuildSource::RunCargo { manifest, stem }, BuildReply::Output(Err(failure))) => after
            == BuildSource::Done(Err(Error::Io(failure))),
        (BuildSource::RunCargo { manifest, stem }, BuildReply::Output(Ok(output))) => if output.success {
            after == BuildSource::ReadArtifact { manifest, stem }
        } else {
            after matches BuildSource::Done(Err(Error::Host(text))) && text@
                == "cargo build failed with "@ + output.status@ + ": "@ + crate::text::utf8_lossy(
                output.stderr@,
            )
        },
        (BuildSource::ReadArtifact { manifest, stem }, BuildReply::Bytes(Err(failure))) => after
            == BuildSource::Done(Err(Error::Io(failure))),
        (BuildSource::ReadArtifact { manifest, stem }, BuildReply::Bytes(Ok(component))) => {
            let package = ValidatedPackage { manifest, component };
            if is_valid_package(package, supported) {
                after == BuildSource::WriteComponent { package }
            } else {
                after matches BuildSource::Done(Err(error)) && crate::package::is_verdict(
                    crate::package::embedded_version(
                        crate::inspection::component_sections(component@),
                    ),
                    manifest.api_version@,
                    supported,
                    Err(error),
                )
            }
        },
        (BuildSource::WriteComponent { package }, BuildReply::Written(Ok(_))) => after
            == BuildSource::Done(Ok(package)),
        (BuildSource::WriteComponent { package }, BuildReply::Written(Err(failure))) => after
            == BuildSource::Done(Err(Error::Io(failure))),
        _ => after == before,
    }
}

/// Begins to build the package of a source checkout.
pub fn build_source() -> (out: BuildSource)
    ensures
        out == BuildSource::LoadManifest,
{
    BuildSource::LoadManifest
}

/// Where the file to read or write next lies beneath the checkout: the names that
/// lead to it, and the extension that its last name is to get instead of its own.
pub open spec fn build_file(state: BuildSource) -> Option<(Seq<Seq<char>>, Option<Seq<char>>)> {
    match state {
        BuildSource::ReadCargoManifest { .. } => Some((seq!["Cargo.toml"@], None)),
        BuildSource::ReadArtifact { stem, .. } => Some(
            (seq!["target"@, RUST_WASM_TARGET@, "release"@, stem@], Some("wasm"@)),
        ),
        BuildSource::WriteComponent { .. } => Some((seq![COMPONENT_FILE@], None)),
        _ => None,
    }
}

impl BuildSource {
    /// The command to run next, if one is.
    pub fn command(&self) -> (out: Option<HostCommand>)
        ensures
            out is Some <==> *self is RunCargo,
            out matches Some(command) ==> {
                &&& command.program@ == "cargo"@
                &&& arguments_view(command.arguments@) == seq![
                    ArgumentView::Text("build"@),
                    ArgumentView::Text("--release"@),
                    ArgumentView::Text("--target"@),
                    ArgumentView::Text(RUST_WASM_TARGET@),
                    ArgumentView::Text("--target-dir"@),
                    ArgumentView::Path(seq!["target"@]),
                ]
            },
    {
        match self {
            BuildSource::RunCargo { .. } => {
                let arguments = vec![
                    text_argument("build"),
                    text_argument("--release"),
                    text_argument("--target"),
                    text_argument(RUST_WASM_TARGET),
                    text_argument("--target-dir"),
                    Argument::Path(vec!["target".to_owned()]),
                ];
                let command = HostCommand { program: "cargo".to_owned(), arguments };
                proof {
                    let names = command.arguments@[5]->Path_0@;
                    assert(crate::text::texts(names) =~= seq!["target"@]);
                    assert(arguments_view(command.arguments@) =~= seq![
                        ArgumentView::Text("build"@),
                        ArgumentView::Text("--release"@),
                        ArgumentView::Text("--target"@),
                        ArgumentView::Text(RUST_WASM_TARGET@),
                        ArgumentView::Text("--target-dir"@),
                        ArgumentView::Path(seq!["target"@]),
                    ]);
                }
                Some(command)
            },
            _ => None,
        }
    }

    /// Where the file to read or write next lies beneath the checkout: the
    /// names that lead to it, and the extension that its last name is to get
    /// instead of its own.
    pub fn file(&self) -> (out: Option<(Vec<String>, Option<String>)>)
        ensures
            match (build_file(*self), out) {
                (Some((path, None)), Some((names, None))) => crate::text::texts(names@) == path,
                (Some((path, Some(expected))), Some((names, Some(extension)))) =>
                    crate::text::texts(names@) == path && extension@ == expected,
                (None, None) => true,
                _ => false,
            },
    {
        match self {
            BuildSource::ReadCargoManifest { .. } => {
                let names = vec!["Cargo.toml".to_owned()];
                assert(crate::text::texts(names@) =~= seq!["Cargo.toml"@]);
                Some((names, None))
            },
            BuildSource::ReadArtifact { stem, .. } => {
                let names = vec![
                    "target".to_owned(),
                    RUST_WASM_TARGET.to_owned(),
                    "release".to_owned(),
                    stem.clone(),
                ];
                assert(crate::text::texts(names@) =~= seq![
                    "target"@,
                    RUST_WASM_TARGET@,
                    "release"@,
                    stem@,
                ]);
                Some((names, Some("wasm".to_owned())))
            },
            BuildSource::WriteComponent { .. } => {
                let names = vec![COMPONENT_FILE.to_owned()];
                assert(crate::text::texts(names@) =~= seq![COMPONENT_FILE@]);
                Some((names, None))
            },
            _ => None,
        }
    }

    /// Takes the answer to what was asked for.
    pub fn resume(self, reply: BuildReply, supported: &Version) -> (out: BuildSource)
        ensures
            build_next(supported@, self, reply, out),
    {
        match (self, reply) {
            (
                BuildSource::LoadManifest,
                BuildReply::Manifest(Ok(manifest)),
            ) => BuildSource::ReadCargoManifest { manifest },
            (BuildSource::LoadManifest, BuildReply::Manifest(Err(error))) => BuildSource::Done(
                Err(error),
            ),
            (
                BuildSource::ReadCargoManifest { .. },
                BuildReply::Text(Err(failure)),
            ) => BuildSource::Done(Err(Error::Io(failure))),
            (
                BuildSource::ReadCargoManifest { manifest },
                BuildReply::Text(Ok(source)),
            ) => match source_target_name(&source) {
                Ok(stem) => BuildSource::EnsureTarget { manifest, stem },
                Err(error) => BuildSource::Done(Err(error)),
            },
            (
                BuildSource::EnsureTarget { manifest, stem },
                BuildReply::Target(Ok(_)),
            ) => BuildSource::RunCargo { manifest, stem },
            (
                BuildSource::EnsureTarget { .. },
                BuildReply::Target(Err(error)),
            ) => BuildSource::Done(Err(error)),
            (
                BuildSource::RunCargo { .. },
                BuildReply::Output(Err(failure)),
            ) => BuildSource::Done(Err(Error::Io(failure))),
            (BuildSource::RunCargo { manifest, stem }, BuildReply::Output(Ok(output))) => {
                if output.success {
                    BuildSource::ReadArtifact { manifest, stem }
                } else {
                    let text = joined("cargo build failed with ", &output.status, ": ");
                    BuildSource::Done(
                        Err(
                            Error::Host(appended(&text, &lossy_text(output.stderr.as_slice()))),
                        ),
                    )
                }
            },
            (
                BuildSource::ReadArtifact { .. },
                BuildReply::Bytes(Err(failure)),
            ) => BuildSource::Done(Err(Error::Io(failure))),
            (
                BuildSource::ReadArtifact { manifest, .. },
                BuildReply::Bytes(Ok(component)),
            ) => match validate_package(manifest, component, supported) {
                Ok(package) => BuildSource::WriteComponent { package },
                Err(error) => BuildSource::Done(Err(error)),
            },
            (
                BuildSource::WriteComponent { package },
                BuildReply::Written(Ok(_)),
            ) => BuildSource::Done(Ok(package)),
            (
                BuildSource::WriteComponent { .. },
                BuildReply::Written(Err(failure)),
            ) => BuildSource::Done(Err(Error::Io(failure))),
            (state, _) => state,
        }
    }
}

/// Every package that a build writes or hands out is valid for the host.
pub proof fn law_built_packages_are_valid(
    supported: crate::version::VersionView,
    states: Seq<BuildSource>,
    replies: Seq<BuildReply>,
    at: int,
)
    requires
        crate::runs::is_run(
            |s: BuildSource, r: BuildReply, t: BuildSource| build_next(supported, s, r, t),
            states,
            replies,
        ),
        states[0] == BuildSource::LoadManifest,
        0 <= at < states.len(),
    ensures
        states[at] matches BuildSource::WriteComponent { package } ==> is_valid_package(
            package,
            supported,
        ),
        states[at] matches BuildSource::Done(Ok(package)) ==> is_valid_package(package, supported),
{
    crate::runs::lemma_invariant_holds_along_run(
        |s: BuildSource, r: BuildReply, t: BuildSource| build_next(supported, s, r, t),
        |s: BuildSource|
            {
                &&& s matches BuildSource::WriteComponent { package } ==> is_valid_package(
                    package,
                    supported,
                )
                &&& s matches BuildSource::Done(Ok(package)) ==> is_valid_package(
                    package,
                    supported,
                )
            },
        states,
        replies,
        at,
    );
}

/// Cargo is run only after the target was made sure of.
pub proof fn law_target_is_ready_before_cargo_runs(
    supported: crate::version::VersionView,
    states: Seq<BuildSource>,
    replies: Seq<BuildReply>,
    at: int,
) -> (ensured: int)
    requires
        crate::runs::is_run(
            |s: BuildSource, r: BuildReply, t: BuildSource| build_next(supported, s, r, t),
            states,
            replies,
        ),
        states[0] == BuildSource::LoadManifest,
        0 <= at < states.len(),
        states[at] is RunCargo,
    ensures
        0 <= ensured < at,
        states[ensured] is EnsureTarget,
        replies[ensured] matches BuildReply::Target(Ok(_)),
{
    crate::runs::lemma_entered_along_run(
        |s: BuildSource, r: BuildReply, t: BuildSource| build_next(supported, s, r, t),
        |s: BuildSource| s is RunCargo,
        states,
        replies,
        at,
    )
}

/// A build hands out a package only after its component was written beside
/// the manifest.
pub proof fn law_built_component_was_written(
    supported: crate::version::VersionView,
    states: Seq<BuildSource>,
    replies: Seq<BuildReply>,
    at: int,
    package: ValidatedPackage,
) -> (written: int)
    requires
        crate::runs::is_run(
            |s: BuildSource, r: BuildReply, t: BuildSource| build_next(supported, s, r, t),
            states,
            replies,
        ),
        states[0] == BuildSource::LoadManifest,
        0 <= at < states.len(),
        states[at] == BuildSource::Done(Ok(package)),
    ensures
        0 <= written < at,
        states[written] == (BuildSource::WriteComponent { package }),
        replies[written] matches BuildReply::Written(Ok(_)),
{
    crate::runs::lemma_entered_along_run(
        |s: BuildSource, r: BuildReply, t: BuildSource| build_next(supported, s, r, t),
        |s: BuildSource| s == BuildSource::Done(Ok(package)),
        states,
        replies,
        at,
    )
}

/// The setup of the target comes to what its steps come to: the target's
/// libraries are looked for where the compiler says, and only where they are
/// missing is the target added. A command that cannot be run or fails ends it
/// with what it wrote.
pub proof fn law_target_setup_comes_to_its_steps(
    located: Result<CommandOutput, IoFailure>,
    present: bool,
    added: Result<CommandOutput, IoFailure>,
    states: (TargetSetup, TargetSetup, TargetSetup),
)
    requires
        target_next(TargetSetup::Locate, TargetReply::Output(located), states.0),
        target_next(states.0, TargetReply::Exists(present), states.1),
        target_next(states.1, TargetReply::Output(added), states.2),
    ensures
        match located {
            Err(failure) => states.2 == TargetSetup::Done(Err(Error::Io(failure))),
            Ok(output) => if !output.success {
                states.2 matches TargetSetup::Done(Err(Error::Host(text))) && text@
                    == "failed to locate the "@ + "wasm32-wasip2"@ + " target: "@
                    + crate::text::utf8_lossy(output.stderr@)
            } else {
                &&& states.0 matches TargetSetup::Probe { path } && path@ == crate::text::trimmed(
                    crate::text::utf8_lossy(output.stdout@),
                )
                &&& if present {
                    states.1 == TargetSetup::Done(Ok(())) && states.2 == states.1
                } else {
                    &&& states.1 is Add
                    &&& match added {
                        Err(failure) => states.2 matches TargetSetup::Done(Err(Error::Host(text)))
                            && text@ == "failed to run rustup: "@ + failure.text@,
                        Ok(output) => if output.success {
                            states.2 == TargetSetup::Done(Ok(()))
                        } else {
                            states.2 matches TargetSetup::Done(Err(Error::Host(text))) && text@
                                == "failed to install the "@ + "wasm32-wasip2"@ + " target: "@
                                + crate::text::utf8_lossy(output.stderr@)
                        },
                    }
                }
            },
        },
{
}

/// An answer to something that was not asked for leaves the setup of the target
/// and the build as they are.
pub proof fn law_build_ignores_other_answers(
    supported: crate::version::VersionView,
    setup: (TargetSetup, TargetReply, TargetSetup),
    build: (BuildSource, BuildReply, BuildSource),
)
    requires
        target_next(setup.0, setup.1, setup.2),
        build_next(supported, build.0, build.1, build.2),
    ensures
        match setup.0 {
            TargetSetup::Locate => setup.1 is Output || setup.2 == setup.0,
            TargetSetup::Probe { .. } => setup.1 is Exists || setup.2 == setup.0,
            TargetSetup::Add => setup.1 is Output || setup.2 == setup.0,
            TargetSetup::Done(_) => setup.2 == setup.0,
        },
        match build.0 {
            BuildSource::LoadManifest => build.1 is Manifest || build.2 == build.0,
            BuildSource::ReadCargoManifest { .. } => build.1 is Text || build.2 == build.0,
            BuildSource::EnsureTarget { .. } => build.1 is Target || build.2 == build.0,
            BuildSource::RunCargo { .. } => build.1 is Output || build.2 == build.0,
            BuildSource::ReadArtifact { .. } => build.1 is Bytes || build.2 == build.0,
            BuildSource::WriteComponent { .. } => build.1 is Written || build.2 == build.0,
            BuildSource::Done(_) => build.2 == build.0,
        },
{
}

/// A build comes to what its steps come to: each is taken only if what came
/// before has succeeded, and the first failure is what it ends with. The
/// artifact is looked for under the name that belongs to the checkout's own
/// Cargo manifest; what is written and handed out is the checkout's manifest
/// with that artifact, byte for byte, exactly if the artifact's version is the
/// manifest's and the host's.
pub proof fn law_build_comes_to_its_steps(
    supported: crate::version::VersionView,
    manifest: Result<PackageManifest, Error>,
    cargo: Result<String, IoFailure>,
    target: Result<(), Error>,
    built: Result<CommandOutput, IoFailure>,
    artifact: Result<Vec<u8>, IoFailure>,
    written: Result<(), IoFailure>,
    states: Seq<BuildSource>,
)
    requires
        states.len() == 7,
        states[0] is LoadManifest,
        build_next(supported, states[0], BuildReply::Manifest(manifest), states[1]),
        build_next(supported, states[1], BuildReply::Text(cargo), states[2]),
        build_next(supported, states[2], BuildReply::Target(target), states[3]),
        build_next(supported, states[3], BuildReply::Output(built), states[4]),
        build_next(supported, states[4], BuildReply::Bytes(artifact), states[5]),
        build_next(supported, states[5], BuildReply::Written(written), states[6]),
    ensures
        match (manifest, cargo) {
            (Err(error), _) => states[6] == BuildSource::Done(Err(error)),
            (Ok(_), Err(failure)) => states[6] == BuildSource::Done(Err(Error::Io(failure))),
            (Ok(manifest), Ok(source)) => match crate::package::artifact_name(
                crate::package::parsed_document(source@),
            ) {
                Err(complaint) => states[6] matches BuildSource::Done(Err(Error::Host(text)))
                    && text@ == complaint,
                Ok(name) => match (target, built, artifact) {
                    (Err(error), _, _) => states[6] == BuildSource::Done(Err(error)),
                    (Ok(_), Err(failure), _) => states[3] is RunCargo && states[6]
                        == BuildSource::Done(Err(Error::Io(failure))),
                    (Ok(_), Ok(output), _) if !output.success => states[3] is RunCargo && (
                    states[6] matches BuildSource::Done(Err(Error::Host(text))) && text@
                        == "cargo build failed with "@ + output.status@ + ": "@
                        + crate::text::utf8_lossy(output.stderr@)),
                    (Ok(_), Ok(_), artifact) => {
                        &&& states[4] matches BuildSource::ReadArtifact { manifest: kept, stem }
                            && kept == manifest && stem@ == name
                        &&& match artifact {
                            Err(failure) => states[6] == BuildSource::Done(
                                Err(Error::Io(failure)),
                            ),
                            Ok(component) => {
                                let embedded = crate::package::embedded_version(
                                    crate::inspection::component_sections(component@),
                                );
                                if embedded != Ok::<
                                    Option<crate::version::VersionView>,
                                    Seq<char>,
                                >(Some(supported)) || manifest.api_version@ != supported {
                                    states[6] matches BuildSource::Done(Err(error))
                                        && crate::package::is_verdict(
                                        embedded,
                                        manifest.api_version@,
                                        supported,
                                        Err(error),
                                    )
                                } else {
                                    let package = ValidatedPackage { manifest, component };
                                    &&& states[5] == (BuildSource::WriteComponent { package })
                                    &&& match written {
                                        Err(failure) => states[6] == BuildSource::Done(
                                            Err(Error::Io(failure)),
                                        ),
                                        Ok(_) => states[6] == BuildSource::Done(Ok(package)),
                                    }
                                }
                            },
                        }
                    },
                },
            },
        },
{
}

/// A command's arguments show what they hold, each in its place: a text as it
/// is, and a path with every name that leads to it.
pub proof fn law_arguments_show_what_they_hold(arguments: Seq<Argument>)
    ensures
        arguments_view(arguments).len() == arguments.len(),
        forall|i: int|
            0 <= i < arguments.len() ==> match (arguments[i], #[trigger] arguments_view(
                arguments,
            )[i]) {
                (Argument::Text(text), ArgumentView::Text(shown)) => shown == text@,
                (Argument::Path(names), ArgumentView::Path(shown)) => shown == crate::text::texts(
                    names@,
                ),
                _ => false,
            },
{
}

/// A build reads the checkout's own Cargo manifest and the artifact that Cargo
/// puts, for the plugin target and under the name that belongs to the package,
/// beneath the checkout; it writes nothing but the component beside the
/// manifest.
pub proof fn law_build_stays_in_its_checkout(state: BuildSource)
    ensures
        match (state, build_file(state)) {
            (BuildSource::ReadCargoManifest { .. }, Some((path, None))) => path.len() == 1
                && path[0] == "Cargo.toml"@,
            (BuildSource::ReadArtifact { stem, .. }, Some((path, Some(extension)))) => {
                &&& path.len() == 4
                &&& path[0] == "target"@
                &&& path[1] == "wasm32-wasip2"@
                &&& path[2] == "release"@
                &&& path[3] == stem@
                &&& extension == "wasm"@
            },
            (BuildSource::WriteComponent { .. }, Some((path, None))) => path.len() == 1 && path[0]
                == "plugin.wasm"@,
            (BuildSource::LoadManifest, None) => true,
            (BuildSource::EnsureTarget { .. }, None) => true,
            (BuildSource::RunCargo { .. }, None) => true,
            (BuildSource::Done(_), None) => true,
            _ => false,
        },
{
}

}
