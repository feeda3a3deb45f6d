//! Installing a package in the catalog: a complete package is prepared without
//! running guest code, and then takes the place of what is installed.

use std::sync::Arc;

use vstd::prelude::*;

use wasmtime::component::Component;

use crate::catalog::{CompiledPlugin, InstalledPlugin};
use crate::error::{remove_directory, IoFailure, PluginError};
use crate::ids::staging_name;
use crate::manifest::{parse_manifest, PluginInfo, PluginManifest};
use crate::package::{COMPONENT_FILE, MANIFEST_FILE};
use crate::packages::{directory, Plugins};
use crate::runtime::{component_interfaces, Runtime};

verus! {

broadcast use vstd::string::group_string_axioms;

/// A package that is ready to be installed.
pub struct Prepared {
    pub info: PluginInfo,
    /// The component as it was read.
    pub bytes: Vec<u8>,
    /// The component as it was compiled.
    pub component: Component,
}

/// Installing a package: what to do next.
pub enum InstallPlugin {
    /// Read and parse the manifest of the source.
    ReadManifest { runtime: Arc<Runtime> },
    /// Read the component of the source.
    ReadComponent { manifest: PluginManifest, runtime: Arc<Runtime> },
    /// Compile the component.
    Compile { manifest: PluginManifest, bytes: Vec<u8>, runtime: Arc<Runtime> },
    /// Create the workspace of this name beneath the staging root.
    CreateWorkspace { prepared: Prepared, workspace: String },
    /// Write the component into the workspace.
    WriteComponent { prepared: Prepared, workspace: String },
    /// Write the metadata into the workspace.
    WriteMetadata { prepared: Prepared, workspace: String },
    /// Create the directory of installed packages.
    CreateInstalled { prepared: Prepared, workspace: String },
    /// Await the lifecycle lock.
    AwaitLifecycle { prepared: Prepared, workspace: String },
    /// Remove what is installed in this directory beneath the root.
    RemoveInstalled { prepared: Prepared, workspace: String, directory: Vec<String> },
    /// Move the workspace to this directory beneath the root.
    Rename { prepared: Prepared, workspace: String, directory: Vec<String> },
    /// Remove the workspace, since installing has failed.
    RemoveWorkspace { workspace: String, error: PluginError },
    /// Nothing more to do.
    Done(Result<PluginInfo, PluginError>),
}

/// An answer to what an [`InstallPlugin`] asks for.
#[derive(Debug)]
pub enum InstallReply {
    /// The manifest, why it could not be parsed, or why it could not be read.
    Manifest(Result<Result<PluginManifest, String>, IoFailure>),
    /// The component's bytes.
    Component(Result<Vec<u8>, IoFailure>),
    /// The component may be compiled now.
    Compile,
    /// How a file operation ended.
    Answered(Result<(), IoFailure>),
    /// How writing the metadata ended, or why it could not be written down.
    Metadata(Result<Result<(), IoFailure>, String>),
    /// The lifecycle lock is held.
    Locked,
}

/// Whether a prepared package is made of this manifest and component.
pub open spec fn is_prepared(
    manifest: PluginManifest,
    bytes: Vec<u8>,
    component: Component,
    prepared: Prepared,
) -> bool {
    &&& prepared.info.manifest == manifest
    &&& prepared.info@.interfaces == crate::runtime::instance_exports(
        crate::runtime::component_exports(component),
    )
    &&& prepared.bytes == bytes
    &&& prepared.component == component
}

/// Whether a name is the text of a random UUID.
pub open spec fn is_workspace_name(name: Seq<char>) -> bool {
    exists|value: u128|
        crate::ids::is_random_uuid(value) && name == #[trigger] crate::ids::hyphenated(value)
}

/// Whether a step to compile ends as it should: with a package prepared from
/// the manifest and the binary by the runtime at hand, or with the runtime's
/// error.
pub open spec fn is_compile_end(
    manifest: PluginManifest,
    bytes: Vec<u8>,
    runtime: Arc<Runtime>,
    after: InstallPlugin,
) -> bool {
    match after {
        InstallPlugin::CreateWorkspace { prepared, workspace } => {
            &&& is_prepared(manifest, bytes, prepared.component, prepared)
            &&& crate::runtime::is_compiled_by(*runtime, bytes@, prepared.component)
            &&& is_workspace_name(workspace@)
        },
        InstallPlugin::Done(Err(error)) => error is Runtime,
        _ => false,
    }
}

/// Whether a prepared package has taken its place among the entries, and
/// nothing else has changed.
pub open spec fn is_published(
    entries: Map<Seq<char>, InstalledPlugin>,
    prepared: Prepared,
    entries_after: Map<Seq<char>, InstalledPlugin>,
) -> bool {
    let id = prepared.info@.manifest.id;
    &&& entries_after.contains_key(id)
    &&& entries_after[id] matches InstalledPlugin::Compiled(plugin) && plugin.info == prepared.info
        && plugin.component == prepared.component
    &&& entries_after == entries.insert(id, entries_after[id])
}

/// One step of installing: the entries before and after it, and what to do
/// next. An answer to something else leaves everything as it is.
pub open spec fn install_next(
    entries: Map<Seq<char>, InstalledPlugin>,
    before: InstallPlugin,
    reply: InstallReply,
    entries_after: Map<Seq<char>, InstalledPlugin>,
    after: InstallPlugin,
) -> bool {
    match (before, reply) {
        (InstallPlugin::ReadManifest { .. }, InstallReply::Manifest(Err(failure))) => entries_after
            == entries && after == InstallPlugin::Done(Err(PluginError::Io(failure))),
        (InstallPlugin::ReadManifest { .. }, InstallReply::Manifest(Ok(Err(error)))) =>
            entries_after == entries && after == InstallPlugin::Done(
                Err(PluginError::ParseMetadata(error)),
            ),
        (InstallPlugin::ReadManifest { runtime }, InstallReply::Manifest(Ok(Ok(manifest)))) =>
            entries_after == entries && if manifest.schema_version
                == crate::manifest::SCHEMA_VERSION {
                after == (InstallPlugin::ReadComponent { manifest, runtime })
            } else {
                after == InstallPlugin::Done(
                    Err(PluginError::UnsupportedSchema(manifest.schema_version)),
                )
            },
        (InstallPlugin::ReadComponent { .. }, InstallReply::Component(Err(failure))) =>
            entries_after == entries && after == InstallPlugin::Done(Err(PluginError::Io(failure))),
        (InstallPlugin::ReadComponent { manifest, runtime }, InstallReply::Component(Ok(bytes))) =>
            entries_after == entries && after == (InstallPlugin::Compile {
                manifest,
                bytes,
                runtime,
            }),
        (InstallPlugin::Compile { manifest, bytes, runtime }, InstallReply::Compile) =>
            entries_after == entries && is_compile_end(manifest, bytes, runtime, after),
        (InstallPlugin::CreateWorkspace { .. }, InstallReply::Answered(Err(failure))) =>
            entries_after == entries && after == InstallPlugin::Done(Err(PluginError::Io(failure))),
        (InstallPlugin::CreateWorkspace { prepared, workspace }, InstallReply::Answered(Ok(_))) =>
            entries_after == entries && after == (InstallPlugin::WriteComponent {
                prepared,
                workspace,
            }),
        (InstallPlugin::WriteComponent { workspace, .. }, InstallReply::Answered(Err(failure))) =>
            entries_after == entries && after == (InstallPlugin::RemoveWorkspace {
                workspace,
                error: PluginError::Io(failure),
            }),
        (InstallPlugin::WriteComponent { prepared, workspace }, InstallReply::Answered(Ok(_))) =>
            entries_after == entries && after == (InstallPlugin::WriteMetadata {
                prepared,
                workspace,
            }),
        (InstallPlugin::WriteMetadata { workspace, .. }, InstallReply::Metadata(Err(error))) =>
            entries_after == entries && after == (InstallPlugin::RemoveWorkspace {
                workspace,
                error: PluginError::SerializeMetadata(error),
            }),
        (
            InstallPlugin::WriteMetadata { workspace, .. },
            InstallReply::Metadata(Ok(Err(failure))),
        ) => entries_after == entries && after == (InstallPlugin::RemoveWorkspace {
            workspace,
            error: PluginError::Io(failure),
        }),
        (InstallPlugin::WriteMetadata { prepared, workspace }, InstallReply::Metadata(Ok(Ok(_)))) =>
            entries_after == entries && after == (InstallPlugin::CreateInstalled {
                prepared,
                workspace,
            }),
        (InstallPlugin::CreateInstalled { workspace, .. }, InstallReply::Answered(Err(failure))) =>
            entries_after == entries && after == (InstallPlugin::RemoveWorkspace {
                workspace,
                error: PluginError::Io(failure),
            }),
        (InstallPlugin::CreateInstalled { prepared, workspace }, InstallReply::Answered(Ok(_))) =>
            entries_after == entries && after == (InstallPlugin::AwaitLifecycle {
                prepared,
                workspace,
            }),
        (InstallPlugin::AwaitLifecycle { prepared, workspace }, InstallReply::Locked) => {
            &&& entries_after == entries.remove(prepared.info@.manifest.id)
            &&& after matches InstallPlugin::RemoveInstalled {
                prepared: kept,
                workspace: name,
                directory,
            } && kept == prepared && name == workspace && crate::text::texts(directory@)
                == crate::packages::package_path(prepared.info@.manifest.id)
        },
        (
            InstallPlugin::RemoveInstalled { prepared, workspace, directory },
            InstallReply::Answered(answer),
        ) => entries_after == entries && if answer is Ok || answer->Err_0.not_found {
            after == (InstallPlugin::Rename { prepared, workspace, directory })
        } else {
            after == (InstallPlugin::RemoveWorkspace {
                workspace,
                error: PluginError::Io(answer->Err_0),
            })
        },
        (InstallPlugin::Rename { workspace, .. }, InstallReply::Answered(Err(failure))) =>
            entries_after == entries && after == (InstallPlugin::RemoveWorkspace {
                workspace,
                error: PluginError::Io(failure),
            }),
        (InstallPlugin::Rename { prepared, .. }, InstallReply::Answered(Ok(_))) => {
            &&& is_published(entries, prepared, entries_after)
            &&& after matches InstallPlugin::Done(Ok(info)) && info@ == prepared.info@
        },
        (InstallPlugin::RemoveWorkspace { error, .. }, InstallReply::Answered(_)) => entries_after
            == entries && after == InstallPlugin::Done(Err(error)),
        _ => entries_after == entries && after == before,
    }
}

impl InstallPlugin {
    /// What follows once the component was compiled, or was not.
    pub fn compiled(
        manifest: PluginManifest,
        bytes: Vec<u8>,
        component: Result<Component, PluginError>,
    ) -> (out: InstallPlugin)
        requires
            component matches Ok(code) ==> crate::runtime::is_plain(
                crate::runtime::component_engine(code),
            ),
        ensures
            match component {
                Ok(component) => out matches InstallPlugin::CreateWorkspace { prepared, workspace }
                    && is_prepared(manifest, bytes, component, prepared) && is_workspace_name(
                    workspace@,
                ),
                Err(error) => out == InstallPlugin::Done(Err(error)),
            },
    {
        match component {
            Ok(component) => {
                let interfaces = component_interfaces(&component);
                let info = PluginInfo { manifest, interfaces };
                InstallPlugin::CreateWorkspace {
                    prepared: Prepared { info, bytes, component },
                    workspace: staging_name(),
                }
            },
            Err(error) => InstallPlugin::Done(Err(error)),
        }
    }

    /// Compiles the component, if that is what is to be done. The catalog may
    /// be used meanwhile.
    pub fn compile(self) -> (out: InstallPlugin)
        ensures
            match self {
                InstallPlugin::Compile { manifest, bytes, runtime } => is_compile_end(
                    manifest,
                    bytes,
                    runtime,
                    out,
                ),
                _ => out == self,
            },
    {
        match self {
            InstallPlugin::Compile { manifest, bytes, runtime } => {
                let component = runtime.compile(&bytes);
                InstallPlugin::compiled(manifest, bytes, component)
            },
            state => state,
        }
    }

    /// The name of the file to read or write next, in the source or in the
    /// workspace.
    pub fn file(&self) -> (out: Option<&'static str>)
        ensures
            match *self {
                InstallPlugin::ReadManifest { .. } => out == Some(MANIFEST_FILE),
                InstallPlugin::ReadComponent { .. } => out == Some(COMPONENT_FILE),
                InstallPlugin::WriteComponent { .. } => out == Some(COMPONENT_FILE),
                InstallPlugin::WriteMetadata { .. } => out == Some(MANIFEST_FILE),
                _ => out is None,
            },
    {
        match self {
            InstallPlugin::ReadManifest { .. } => Some(MANIFEST_FILE),
            InstallPlugin::ReadComponent { .. } => Some(COMPONENT_FILE),
            InstallPlugin::WriteComponent { .. } => Some(COMPONENT_FILE),
            InstallPlugin::WriteMetadata { .. } => Some(MANIFEST_FILE),
            _ => None,
        }
    }

    /// Goes on if a file operation has succeeded, and else gives the workspace
    /// up.
    fn unless_failed(self, workspace: String, answer: Result<(), IoFailure>) -> (out: InstallPlugin)
        ensures
            match answer {
                Ok(_) => out == self,
                Err(failure) => out == (InstallPlugin::RemoveWorkspace {
                    workspace,
                    error: PluginError::Io(failure),
                }),
            },
    {
        match answer {
            Ok(_) => self,
            Err(failure) => InstallPlugin::RemoveWorkspace {
                workspace,
                error: PluginError::Io(failure),
            },
        }
    }
}

impl Plugins {
    /// Begins to install a package.
    pub fn install(&self) -> (out: InstallPlugin)
        ensures
            out == (InstallPlugin::ReadManifest { runtime: self.compiler() }),
    {
        InstallPlugin::ReadManifest { runtime: self.runtime() }
    }

    /// Takes the answer to what an installation asked for.
    pub fn resume_install(&mut self, state: InstallPlugin, reply: InstallReply) -> (out:
        InstallPlugin)
        ensures
            install_next(old(self)@, state, reply, final(self)@, out),
            final(self).compiler() == old(self).compiler(),
    {
        match (state, reply) {
            (
                InstallPlugin::ReadManifest { .. },
                InstallReply::Manifest(Err(failure)),
            ) => InstallPlugin::Done(Err(PluginError::Io(failure))),
            (
                InstallPlugin::ReadManifest { runtime },
                InstallReply::Manifest(Ok(read)),
            ) => match parse_manifest(read) {
                Ok(manifest) => InstallPlugin::ReadComponent { manifest, runtime },
                Err(error) => InstallPlugin::Done(Err(error)),
            },
            (
                InstallPlugin::ReadComponent { .. },
                InstallReply::Component(Err(failure)),
            ) => InstallPlugin::Done(Err(PluginError::Io(failure))),
            (
                InstallPlugin::ReadComponent { manifest, runtime },
                InstallReply::Component(Ok(bytes)),
            ) => InstallPlugin::Compile { manifest, bytes, runtime },
            (InstallPlugin::Compile { manifest, bytes, runtime }, InstallReply::Compile) => {
                InstallPlugin::Compile { manifest, bytes, runtime }.compile()
            },
            (
                InstallPlugin::CreateWorkspace { .. },
                InstallReply::Answered(Err(failure)),
            ) => InstallPlugin::Done(Err(PluginError::Io(failure))),
            (
                InstallPlugin::CreateWorkspace { prepared, workspace },
                InstallReply::Answered(Ok(_)),
            ) => InstallPlugin::WriteComponent { prepared, workspace },
            (InstallPlugin::WriteComponent { prepared, workspace }, InstallReply::Answered(answer)) => {
                let name = workspace.clone();
                InstallPlugin::WriteMetadata { prepared, workspace }.unless_failed(name, answer)
            },
            (
                InstallPlugin::WriteMetadata { workspace, .. },
                InstallReply::Metadata(Err(error)),
            ) => InstallPlugin::RemoveWorkspace {
                workspace,
                error: PluginError::SerializeMetadata(error),
            },
            (
                InstallPlugin::WriteMetadata { prepared, workspace },
                InstallReply::Metadata(Ok(answer)),
            ) => {
                let name = workspace.clone();
                InstallPlugin::CreateInstalled { prepared, workspace }.unless_failed(name, answer)
            },
            (
                InstallPlugin::CreateInstalled { prepared, workspace },
                InstallReply::Answered(answer),
            ) => {
                let name = workspace.clone();
                InstallPlugin::AwaitLifecycle { prepared, workspace }.unless_failed(name, answer)
            },
            (InstallPlugin::AwaitLifecycle { prepared, workspace }, InstallReply::Locked) => {
                self.withdraw(&prepared.info.manifest.id);
                let directory = directory(&prepared.info.manifest.id);
                InstallPlugin::RemoveInstalled { prepared, workspace, directory }
            },
            (
                InstallPlugin::RemoveInstalled { prepared, workspace, directory },
                InstallReply::Answered(answer),
            ) => {
                let name = workspace.clone();
                InstallPlugin::Rename { prepared, workspace, directory }.unless_failed(
                    name,
                    remove_directory(answer),
                )
            },
            (
                InstallPlugin::Rename { workspace, .. },
                InstallReply::Answered(Err(failure)),
            ) => InstallPlugin::RemoveWorkspace { workspace, error: PluginError::Io(failure) },
            (InstallPlugin::Rename { prepared, .. }, InstallReply::Answered(Ok(_))) => {
                let info = prepared.info.clone();
                self.publish(
                    InstalledPlugin::Compiled(
                        Arc::new(
                            CompiledPlugin { info: prepared.info, component: prepared.component },
                        ),
                    ),
                );
                InstallPlugin::Done(Ok(info))
            },
            (
                InstallPlugin::RemoveWorkspace { error, .. },
                InstallReply::Answered(_),
            ) => InstallPlugin::Done(Err(error)),
            (state, _) => state,
        }
    }
}

/// Installing on its own: the entries and what to do next.
pub open spec fn install_step(
    before: (Map<Seq<char>, InstalledPlugin>, InstallPlugin),
    reply: InstallReply,
    after: (Map<Seq<char>, InstalledPlugin>, InstallPlugin),
) -> bool {
    install_next(before.0, before.1, reply, after.0, after.1)
}

/// A run of an installation on its own.
pub open spec fn is_install_run(
    states: Seq<(Map<Seq<char>, InstalledPlugin>, InstallPlugin)>,
    replies: Seq<InstallReply>,
) -> bool {
    &&& crate::runs::is_run(
        |s: (Map<Seq<char>, InstalledPlugin>, InstallPlugin), r, t| install_step(s, r, t),
        states,
        replies,
    )
    &&& states[0].1 is ReadManifest
}

/// The package that an installation has prepared.
pub open spec fn prepared_package(state: InstallPlugin) -> Option<Prepared> {
    match state {
        InstallPlugin::CreateWorkspace { prepared, .. } => Some(prepared),
        InstallPlugin::WriteComponent { prepared, .. } => Some(prepared),
        InstallPlugin::WriteMetadata { prepared, .. } => Some(prepared),
        InstallPlugin::CreateInstalled { prepared, .. } => Some(prepared),
        InstallPlugin::AwaitLifecycle { prepared, .. } => Some(prepared),
        InstallPlugin::RemoveInstalled { prepared, .. } => Some(prepared),
        InstallPlugin::Rename { prepared, .. } => Some(prepared),
        _ => None,
    }
}

/// The workspace that exists beneath the staging root.
pub open spec fn workspace_of(state: InstallPlugin) -> Option<String> {
    match state {
        InstallPlugin::WriteComponent { workspace, .. } => Some(workspace),
        InstallPlugin::WriteMetadata { workspace, .. } => Some(workspace),
        InstallPlugin::CreateInstalled { workspace, .. } => Some(workspace),
        InstallPlugin::AwaitLifecycle { workspace, .. } => Some(workspace),
        InstallPlugin::RemoveInstalled { workspace, .. } => Some(workspace),
        InstallPlugin::Rename { workspace, .. } => Some(workspace),
        InstallPlugin::RemoveWorkspace { workspace, .. } => Some(workspace),
        _ => None,
    }
}

/// Whether the entries are `start` with the entry of one plugin taken out.
pub open spec fn is_withdrawn(
    start: Map<Seq<char>, InstalledPlugin>,
    id: Seq<char>,
    now: Map<Seq<char>, InstalledPlugin>,
) -> bool {
    now == start.remove(id)
}

/// Whether the entries are `start` with the entry taken out of the plugin whose
/// manifest was read up to some point.
pub open spec fn is_own_entry_withdrawn(
    start: Map<Seq<char>, InstalledPlugin>,
    replies: Seq<InstallReply>,
    count: int,
    now: Map<Seq<char>, InstalledPlugin>,
) -> bool {
    exists|i: int|
        0 <= i < count && (#[trigger] replies[i] matches InstallReply::Manifest(Ok(Ok(manifest)))
            && is_withdrawn(start, manifest@.id, now))
}

/// An installation leaves the catalog alone until its package is complete and
/// the lifecycle lock is held. Then the plugin's entry is withdrawn, and comes
/// back with the new package once that is in place. A failure leaves either
/// the catalog as it was or only the plugin's own entry missing.
pub proof fn law_install_replaces_one_entry(
    states: Seq<(Map<Seq<char>, InstalledPlugin>, InstallPlugin)>,
    replies: Seq<InstallReply>,
    at: int,
)
    requires
        is_install_run(states, replies),
        0 <= at < states.len(),
    ensures
        match states[at].1 {
            InstallPlugin::RemoveInstalled { prepared, .. } => is_withdrawn(
                states[0].0,
                prepared.info@.manifest.id,
                states[at].0,
            ),
            InstallPlugin::Rename { prepared, .. } => is_withdrawn(
                states[0].0,
                prepared.info@.manifest.id,
                states[at].0,
            ),
            InstallPlugin::RemoveWorkspace { .. } => states[at].0 == states[0].0
                || is_own_entry_withdrawn(states[0].0, replies, at, states[at].0),
            InstallPlugin::Done(Err(_)) => states[at].0 == states[0].0 || is_own_entry_withdrawn(
                states[0].0,
                replies,
                at,
                states[at].0,
            ),
            InstallPlugin::Done(Ok(info)) => {
                &&& states[at].0.contains_key(info@.manifest.id)
                &&& states[at].0[info@.manifest.id] matches InstalledPlugin::Compiled(plugin)
                    && plugin.info@ == info@
                &&& states[at].0 == states[0].0.insert(
                    info@.manifest.id,
                    states[at].0[info@.manifest.id],
                )
            },
            _ => states[at].0 == states[0].0,
        },
    decreases at,
{
    if at > 0 {
        law_install_replaces_one_entry(states, replies, at - 1);
        law_prepared_package_is_what_was_read(states, replies, at - 1);
        let reply = replies[at - 1];
        assert(install_step(states[at - 1], reply, states[at]));
        if let (InstallPlugin::Rename { prepared, .. }, InstallReply::Answered(Ok(_))) = (
            states[at - 1].1,
            reply,
        ) {
            let id = prepared.info@.manifest.id;
            assert(states[at].0 =~= states[0].0.insert(id, states[at].0[id]));
        }
    }
}

/// What is installed is not removed, and no entry is withdrawn, before the
/// package was compiled and written to its workspace completely.
pub proof fn law_preparation_comes_first(
    states: Seq<(Map<Seq<char>, InstalledPlugin>, InstallPlugin)>,
    replies: Seq<InstallReply>,
    at: int,
) -> (steps: (int, int, int))
    requires
        is_install_run(states, replies),
        0 <= at < states.len(),
        states[at].0 != states[0].0 || states[at].1 is RemoveInstalled,
    ensures
        0 <= steps.0 < steps.1 < steps.2 < at,
        states[steps.0].1 is WriteComponent,
        replies[steps.0] matches InstallReply::Answered(Ok(_)),
        states[steps.1].1 is WriteMetadata,
        replies[steps.1] matches InstallReply::Metadata(Ok(Ok(_))),
        states[steps.2].1 is AwaitLifecycle,
        replies[steps.2] is Locked,
{
    let next = |s: (Map<Seq<char>, InstalledPlugin>, InstallPlugin), r, t| install_step(s, r, t);
    let start = states[0].0;
    let withdrawn = crate::runs::lemma_entered_along_run(
        next,
        |s: (Map<Seq<char>, InstalledPlugin>, InstallPlugin)|
            s.0 != start || s.1 is RemoveInstalled || s.1 is Rename,
        states,
        replies,
        at,
    );
    assert(states[withdrawn].1 is AwaitLifecycle);
    let awaited = crate::runs::lemma_entered_along_run(
        next,
        |s: (Map<Seq<char>, InstalledPlugin>, InstallPlugin)| s.1 is AwaitLifecycle,
        states,
        replies,
        withdrawn,
    );
    let described = crate::runs::lemma_entered_along_run(
        next,
        |s: (Map<Seq<char>, InstalledPlugin>, InstallPlugin)| s.1 is CreateInstalled,
        states,
        replies,
        awaited,
    );
    let written = crate::runs::lemma_entered_along_run(
        next,
        |s: (Map<Seq<char>, InstalledPlugin>, InstallPlugin)| s.1 is WriteMetadata,
        states,
        replies,
        described,
    );
    (written, described, withdrawn)
}

/// A workspace that was created is gone at the end: moved into place if the
/// installation succeeds, and otherwise asked to be removed first.
pub proof fn law_failed_install_removes_its_workspace(
    states: Seq<(Map<Seq<char>, InstalledPlugin>, InstallPlugin)>,
    replies: Seq<InstallReply>,
    created: int,
    at: int,
) -> (removing: int)
    requires
        is_install_run(states, replies),
        0 <= created < at < states.len(),
        workspace_of(states[created].1) is Some,
        states[at].1 matches InstallPlugin::Done(Err(_)),
    ensures
        created <= removing < at,
        states[removing].1 matches InstallPlugin::RemoveWorkspace { workspace, error } && Some(
            workspace,
        ) == workspace_of(states[created].1) && states[at].1 == InstallPlugin::Done(Err(error)),
        replies[removing] is Answered,
    decreases at,
{
    let reply = replies[at - 1];
    assert(install_step(states[at - 1], reply, states[at]));
    if states[at - 1].1 is Done {
        law_failed_install_removes_its_workspace(states, replies, created, at - 1)
    } else {
        lemma_workspace_is_kept(states, replies, created, at - 1);
        at - 1
    }
}

/// The workspace stays the same for as long as it exists.
proof fn lemma_workspace_is_kept(
    states: Seq<(Map<Seq<char>, InstalledPlugin>, InstallPlugin)>,
    replies: Seq<InstallReply>,
    created: int,
    at: int,
)
    requires
        is_install_run(states, replies),
        0 <= created <= at < states.len(),
        workspace_of(states[created].1) is Some,
    ensures
        states[at].1 is Done || workspace_of(states[at].1) == workspace_of(states[created].1),
    decreases at,
{
    if created < at {
        lemma_workspace_is_kept(states, replies, created, at - 1);
        let reply = replies[at - 1];
        assert(install_step(states[at - 1], reply, states[at]));
    }
}

/// Whether a package was prepared from what was read up to some point: a
/// manifest of the schema that is understood, and a component.
pub open spec fn prepared_from(replies: Seq<InstallReply>, count: int, prepared: Prepared) -> bool {
    exists|i: int, j: int|
        #![trigger replies[i], replies[j]]
        {
            &&& 0 <= i < j < count
            &&& replies[i] == InstallReply::Manifest(Ok(Ok(prepared.info.manifest)))
            &&& replies[j] == InstallReply::Component(Ok(prepared.bytes))
            &&& prepared.info.manifest.schema_version == crate::manifest::SCHEMA_VERSION
            &&& prepared.info@.interfaces == crate::runtime::instance_exports(
                crate::runtime::binary_exports(prepared.bytes@),
            )
        }
}

/// A package is prepared from the manifest and the component that were read:
/// the manifest is of the schema that is understood, the component is written
/// and compiled as it was read, and the interfaces are the instances that it
/// exports.
pub proof fn law_prepared_package_is_what_was_read(
    states: Seq<(Map<Seq<char>, InstalledPlugin>, InstallPlugin)>,
    replies: Seq<InstallReply>,
    at: int,
)
    requires
        is_install_run(states, replies),
        0 <= at < states.len(),
    ensures
        prepared_package(states[at].1) matches Some(prepared) ==> prepared_from(
            replies,
            at,
            prepared,
        ),
        states[at].1 matches InstallPlugin::ReadComponent { manifest, .. } ==> manifest.schema_version
            == crate::manifest::SCHEMA_VERSION && exists|i: int|
            0 <= i < at && #[trigger] replies[i] == InstallReply::Manifest(Ok(Ok(manifest))),
        states[at].1 matches InstallPlugin::Compile { manifest, bytes, .. }
            ==> manifest.schema_version == crate::manifest::SCHEMA_VERSION && exists|
            i: int,
            j: int,
        |
            0 <= i < j < at && #[trigger] replies[i] == InstallReply::Manifest(Ok(Ok(manifest)))
                && #[trigger] replies[j] == InstallReply::Component(Ok(bytes)),
    decreases at,
{
    if at > 0 {
        law_prepared_package_is_what_was_read(states, replies, at - 1);
        let reply = replies[at - 1];
        assert(install_step(states[at - 1], reply, states[at]));
    }
}

/// A package that was installed is what later loads get.
pub proof fn law_installed_package_is_loaded(
    entries: Map<Seq<char>, InstalledPlugin>,
    prepared: Prepared,
    entries_after: Map<Seq<char>, InstalledPlugin>,
    later: crate::loading::LoadComponent,
)
    requires
        is_published(entries, prepared, entries_after),
        crate::loading::is_load_start(entries_after, prepared.info@.manifest.id, false, later),
    ensures
        later matches crate::loading::LoadComponent::Done(Ok(plugin)) && plugin.info
            == prepared.info && plugin.component == prepared.component,
{
}

/// Whatever else happens to the catalog between the steps of an installation, a
/// step changes at most the entry of the package that is installed.
pub proof fn law_install_touches_its_own_entry(
    entries: Map<Seq<char>, InstalledPlugin>,
    before: InstallPlugin,
    reply: InstallReply,
    entries_after: Map<Seq<char>, InstalledPlugin>,
    after: InstallPlugin,
)
    requires
        install_next(entries, before, reply, entries_after, after),
    ensures
        match prepared_package(before) {
            Some(prepared) => entries_after.remove(prepared.info@.manifest.id) == entries.remove(
                prepared.info@.manifest.id,
            ),
            None => entries_after == entries,
        },
{
    if let Some(prepared) = prepared_package(before) {
        let id = prepared.info@.manifest.id;
        assert(entries_after.remove(id) =~= entries.remove(id));
    }
}

/// Code that an installation puts into the catalog consumes fuel.
pub proof fn law_installed_code_is_metered(
    states: Seq<(Map<Seq<char>, InstalledPlugin>, InstallPlugin)>,
    replies: Seq<InstallReply>,
    at: int,
)
    requires
        is_install_run(states, replies),
        crate::catalog::is_metered(states[0].0),
        0 <= at < states.len(),
    ensures
        crate::catalog::is_metered(states[at].0),
        prepared_package(states[at].1) matches Some(prepared)
            ==> crate::runtime::component_settings(prepared.component) == (true, true),
    decreases at,
{
    if at > 0 {
        law_installed_code_is_metered(states, replies, at - 1);
        let reply = replies[at - 1];
        assert(install_step(states[at - 1], reply, states[at]));
    }
}

/// Preparing a package comes to what its steps come to, and leaves the catalog
/// alone. The manifest is refused if its schema is another one. What is prepared
/// is that manifest, the component as it was read, and the code that the runtime
/// at hand has compiled from it with the instances that it exports. The first
/// failure is what the installation ends with; where the workspace exists, it is
/// asked to be removed before.
pub proof fn law_preparation_comes_to_its_steps(
    runtime: Arc<Runtime>,
    manifest: Result<Result<PluginManifest, String>, IoFailure>,
    component: Result<Vec<u8>, IoFailure>,
    created: Result<(), IoFailure>,
    written: Result<(), IoFailure>,
    described: Result<Result<(), IoFailure>, String>,
    ready: Result<(), IoFailure>,
    entries: Seq<(Map<Seq<char>, InstalledPlugin>, Map<Seq<char>, InstalledPlugin>)>,
    states: Seq<InstallPlugin>,
)
    requires
        entries.len() == 7,
        states.len() == 8,
        states[0] == (InstallPlugin::ReadManifest { runtime }),
        install_next(
            entries[0].0,
            states[0],
            InstallReply::Manifest(manifest),
            entries[0].1,
            states[1],
        ),
        install_next(
            entries[1].0,
            states[1],
            InstallReply::Component(component),
            entries[1].1,
            states[2],
        ),
        install_next(entries[2].0, states[2], InstallReply::Compile, entries[2].1, states[3]),
        install_next(
            entries[3].0,
            states[3],
            InstallReply::Answered(created),
            entries[3].1,
            states[4],
        ),
        install_next(
            entries[4].0,
            states[4],
            InstallReply::Answered(written),
            entries[4].1,
            states[5],
        ),
        install_next(
            entries[5].0,
            states[5],
            InstallReply::Metadata(described),
            entries[5].1,
            states[6],
        ),
        install_next(
            entries[6].0,
            states[6],
            InstallReply::Answered(ready),
            entries[6].1,
            states[7],
        ),
    ensures
        entries[0].1 == entries[0].0,
        entries[1].1 == entries[1].0,
        entries[2].1 == entries[2].0,
        entries[3].1 == entries[3].0,
        entries[4].1 == entries[4].0,
        entries[5].1 == entries[5].0,
        entries[6].1 == entries[6].0,
        match (manifest, component) {
            (Err(failure), _) => states[7] == InstallPlugin::Done(Err(PluginError::Io(failure))),
            (Ok(Err(error)), _) => states[7] == InstallPlugin::Done(
                Err(PluginError::ParseMetadata(error)),
            ),
            (Ok(Ok(manifest)), _) if manifest.schema_version != 1 => states[7]
                == InstallPlugin::Done(
                Err(PluginError::UnsupportedSchema(manifest.schema_version)),
            ),
            (Ok(Ok(_)), Err(failure)) => states[7] == InstallPlugin::Done(
                Err(PluginError::Io(failure)),
            ),
            (Ok(Ok(manifest)), Ok(bytes)) => match states[3] {
                InstallPlugin::Done(Err(error)) => error is Runtime && states[7] == states[3],
                InstallPlugin::CreateWorkspace { prepared, workspace } => {
                    &&& prepared.info.manifest == manifest
                    &&& prepared.bytes == bytes
                    &&& crate::runtime::component_engine(prepared.component)
                        == runtime.compiler()
                    &&& crate::runtime::component_exports(prepared.component)
                        == crate::runtime::binary_exports(bytes@)
                    &&& prepared.info@.interfaces == crate::runtime::instance_exports(
                        crate::runtime::binary_exports(bytes@),
                    )
                    &&& match (created, written, described, ready) {
                        (Err(failure), _, _, _) => states[4] == InstallPlugin::Done(
                            Err(PluginError::Io(failure)),
                        ) && states[7] == states[4],
                        (Ok(_), Err(failure), _, _) => states[5] == (
                        InstallPlugin::RemoveWorkspace {
                            workspace,
                            error: PluginError::Io(failure),
                        }) && states[7] == InstallPlugin::Done(Err(PluginError::Io(failure))),
                        (Ok(_), Ok(_), Err(error), _) => states[6] == (
                        InstallPlugin::RemoveWorkspace {
                            workspace,
                            error: PluginError::SerializeMetadata(error),
                        }) && states[7] == InstallPlugin::Done(
                            Err(PluginError::SerializeMetadata(error)),
                        ),
                        (Ok(_), Ok(_), Ok(Err(failure)), _) => states[6] == (
                        InstallPlugin::RemoveWorkspace {
                            workspace,
                            error: PluginError::Io(failure),
                        }) && states[7] == InstallPlugin::Done(Err(PluginError::Io(failure))),
                        (Ok(_), Ok(_), Ok(Ok(_)), Err(failure)) => states[7] == (
                        InstallPlugin::RemoveWorkspace {
                            workspace,
                            error: PluginError::Io(failure),
                        }),
                        (Ok(_), Ok(_), Ok(Ok(_)), Ok(_)) => {
                            &&& states[4] == (InstallPlugin::WriteComponent { prepared, workspace })
                            &&& states[5] == (InstallPlugin::WriteMetadata { prepared, workspace })
                            &&& states[6] == (InstallPlugin::CreateInstalled {
                                prepared,
                                workspace,
                            })
                            &&& states[7] == (InstallPlugin::AwaitLifecycle { prepared, workspace })
                        },
                    }
                },
                _ => false,
            },
        },
{
}

/// Putting a prepared package in place comes to what its steps come to, whatever
/// else happens to the catalog between them. The plugin's entry is withdrawn and
/// the directory of that plugin alone is asked to be removed, where one that is
/// missing is as good as removed; then the package is moved there, and its code
/// and metadata are published under its identifier. The first failure is what
/// the installation ends with once the workspace was asked to be removed.
pub proof fn law_replacement_comes_to_its_steps(
    prepared: Prepared,
    workspace: String,
    removed: Result<(), IoFailure>,
    moved: Result<(), IoFailure>,
    cleaned: Result<(), IoFailure>,
    locking: (Map<Seq<char>, InstalledPlugin>, Map<Seq<char>, InstalledPlugin>),
    removing: (Map<Seq<char>, InstalledPlugin>, Map<Seq<char>, InstalledPlugin>),
    moving: (Map<Seq<char>, InstalledPlugin>, Map<Seq<char>, InstalledPlugin>),
    cleaning: (Map<Seq<char>, InstalledPlugin>, Map<Seq<char>, InstalledPlugin>),
    states: (InstallPlugin, InstallPlugin, InstallPlugin, InstallPlugin),
)
    requires
        install_next(
            locking.0,
            InstallPlugin::AwaitLifecycle { prepared, workspace },
            InstallReply::Locked,
            locking.1,
            states.0,
        ),
        install_next(
            removing.0,
            states.0,
            InstallReply::Answered(removed),
            removing.1,
            states.1,
        ),
        install_next(moving.0, states.1, InstallReply::Answered(moved), moving.1, states.2),
        install_next(cleaning.0, states.2, InstallReply::Answered(cleaned), cleaning.1, states.3),
    ensures
        ({
            let id = prepared.info.manifest.id@;
            &&& locking.1 == locking.0.remove(id)
            &&& removing.1 == removing.0
            &&& cleaning.1 == cleaning.0
            &&& states.0 matches InstallPlugin::RemoveInstalled {
                prepared: kept,
                workspace: name,
                directory,
            } && {
                &&& kept == prepared
                &&& name == workspace
                &&& directory@.len() == 2 && directory@[0]@ == "installed"@ && directory@[1]@ == id
                &&& match (removed, moved) {
                    (Err(failure), _) if !failure.not_found => {
                        &&& moving.1 == moving.0
                        &&& states.1 == (InstallPlugin::RemoveWorkspace {
                            workspace,
                            error: PluginError::Io(failure),
                        })
                        &&& states.3 == InstallPlugin::Done(Err(PluginError::Io(failure)))
                    },
                    (_, Err(failure)) => {
                        &&& moving.1 == moving.0
                        &&& states.1 == (InstallPlugin::Rename { prepared, workspace, directory })
                        &&& states.2 == (InstallPlugin::RemoveWorkspace {
                            workspace,
                            error: PluginError::Io(failure),
                        })
                        &&& states.3 == InstallPlugin::Done(Err(PluginError::Io(failure)))
                    },
                    (_, Ok(_)) => {
                        &&& states.1 == (InstallPlugin::Rename { prepared, workspace, directory })
                        &&& moving.1.contains_key(id)
                        &&& moving.1[id] matches InstalledPlugin::Compiled(plugin) && plugin.info
                            == prepared.info && plugin.component == prepared.component
                        &&& moving.1 == moving.0.insert(id, moving.1[id])
                        &&& states.3 matches InstallPlugin::Done(Ok(info)) && info@
                            == prepared.info@
                    },
                }
            }
        }),
{
    let directory = states.0->RemoveInstalled_directory@;
    assert(crate::text::texts(directory).len() == 2);
    assert(crate::text::texts(directory)[0] == directory[0]@);
    assert(crate::text::texts(directory)[1] == directory[1]@);
}

/// An answer to something that an installation did not ask for changes neither
/// the catalog nor the installation.
pub proof fn law_installation_ignores_other_answers(
    entries: Map<Seq<char>, InstalledPlugin>,
    before: InstallPlugin,
    reply: InstallReply,
    entries_after: Map<Seq<char>, InstalledPlugin>,
    after: InstallPlugin,
)
    requires
        install_next(entries, before, reply, entries_after, after),
        match before {
            InstallPlugin::ReadManifest { .. } => reply !is Manifest,
            InstallPlugin::ReadComponent { .. } => reply !is Component,
            InstallPlugin::Compile { .. } => reply !is Compile,
            InstallPlugin::WriteMetadata { .. } => reply !is Metadata,
            InstallPlugin::AwaitLifecycle { .. } => reply !is Locked,
            InstallPlugin::Done(_) => true,
            _ => reply !is Answered,
        },
    ensures
        entries_after == entries,
        after == before,
{
}

}
