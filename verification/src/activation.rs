//! Putting a validated package in the place of an installed one.

use vstd::prelude::*;

use crate::error::{remove_directory, Error, IoFailure};
use crate::ids::staging_name;
use crate::package::{PackageManifest, ValidatedPackage, COMPONENT_FILE, MANIFEST_FILE};
use crate::text::joined;

verus! {

broadcast use vstd::string::group_string_axioms;

/// Writing a package to a new directory: what to do next.
#[derive(Debug)]
pub enum WritePackage {
    /// See whether the destination, shown as this text, exists.
    CheckDestination { destination: String },
    /// Create the destination.
    CreateDirectory,
    /// Write the manifest into it.
    WriteManifest,
    /// Write the component into it.
    WriteComponent,
    /// Remove the destination with what was written to it.
    RemovePartial { error: Error },
    /// Nothing more to do.
    Done(Result<(), Error>),
}

/// An answer to what a [`WritePackage`] asks for.
#[derive(Debug)]
pub enum WriteReply {
    /// Whether the destination exists.
    Exists(bool),
    /// How writing the manifest ended.
    Manifest(Result<(), Error>),
    /// How another file operation ended.
    Answered(Result<(), IoFailure>),
}

/// One step of writing a package. An answer to something else leaves it as it
/// is.
pub open spec fn write_next(before: WritePackage, reply: WriteReply, after: WritePackage) -> bool {
    match (before, reply) {
        (WritePackage::CheckDestination { destination }, WriteReply::Exists(exists)) => if exists {
            after matches WritePackage::Done(Err(Error::Host(text))) && text@
                == "package destination "@ + destination@ + " already exists"@
        } else {
            after == WritePackage::CreateDirectory
        },
        (WritePackage::CreateDirectory, WriteReply::Answered(Ok(_))) => after
            == WritePackage::WriteManifest,
        (WritePackage::CreateDirectory, WriteReply::Answered(Err(failure))) => after
            == WritePackage::Done(Err(Error::Io(failure))),
        (WritePackage::WriteManifest, WriteReply::Manifest(Ok(_))) => after
            == WritePackage::WriteComponent,
        (WritePackage::WriteManifest, WriteReply::Manifest(Err(error))) => after
            == (WritePackage::RemovePartial { error }),
        (WritePackage::WriteComponent, WriteReply::Answered(Ok(_))) => after == WritePackage::Done(
            Ok(()),
        ),
        (WritePackage::WriteComponent, WriteReply::Answered(Err(failure))) => after
            == (WritePackage::RemovePartial { error: Error::Io(failure) }),
        (WritePackage::RemovePartial { error }, WriteReply::Answered(_)) => after
            == WritePackage::Done(Err(error)),
        _ => after == before,
    }
}

/// Begins to write a package to a new directory.
pub fn write_package(destination: String) -> (out: WritePackage)
    ensures
        out == (WritePackage::CheckDestination { destination }),
{
    WritePackage::CheckDestination { destination }
}

/// What a file of a package holds.
pub enum FileContents {
    /// A manifest, written down.
    Manifest(PackageManifest),
    /// A component's bytes.
    Component(Seq<u8>),
}

/// The files in the directory of a package: exactly its manifest and its
/// component.
pub open spec fn package_files(package: ValidatedPackage) -> Map<Seq<char>, FileContents> {
    map![
        MANIFEST_FILE@ => FileContents::Manifest(package.manifest),
        COMPONENT_FILE@ => FileContents::Component(package.component@),
    ]
}

/// The file to write next, and what it is to hold.
pub open spec fn file_to_write(state: WritePackage, package: ValidatedPackage) -> Option<
    (Seq<char>, FileContents),
> {
    match state {
        WritePackage::WriteManifest => Some(
            (MANIFEST_FILE@, FileContents::Manifest(package.manifest)),
        ),
        WritePackage::WriteComponent => Some(
            (COMPONENT_FILE@, FileContents::Component(package.component@)),
        ),
        _ => None,
    }
}

impl WritePackage {
    /// The name of the file to write next.
    pub fn file(&self) -> (out: Option<&'static str>)
        ensures
            forall|package: ValidatedPackage|
                match (#[trigger] file_to_write(*self, package), out) {
                    (Some(file), Some(name)) => file.0 == name@,
                    (None, None) => true,
                    _ => false,
                },
    {
        match self {
            WritePackage::WriteManifest => Some(MANIFEST_FILE),
            WritePackage::WriteComponent => Some(COMPONENT_FILE),
            _ => None,
        }
    }

    /// The manifest to write down next, of the package that is written.
    pub fn manifest<'a>(&self, package: &'a ValidatedPackage) -> (out: Option<&'a PackageManifest>)
        ensures
            match file_to_write(*self, *package) {
                Some((_, FileContents::Manifest(manifest))) => out == Some(&manifest),
                _ => out is None,
            },
    {
        match self {
            WritePackage::WriteManifest => Some(&package.manifest),
            _ => None,
        }
    }

    /// The component to write next, of the package that is written.
    pub fn component<'a>(&self, package: &'a ValidatedPackage) -> (out: Option<&'a Vec<u8>>)
        ensures
            match (file_to_write(*self, *package), out) {
                (Some((_, FileContents::Component(bytes))), Some(component)) => component
                    == package.component && component@ == bytes,
                (Some((_, FileContents::Component(_))), None) => false,
                (_, out) => out is None,
            },
    {
        match self {
            WritePackage::WriteComponent => Some(&package.component),
            _ => None,
        }
    }

    /// Takes the answer to what was asked for.
    pub fn resume(self, reply: WriteReply) -> (out: WritePackage)
        ensures
            write_next(self, reply, out),
    {
        match (self, reply) {
            (WritePackage::CheckDestination { destination }, WriteReply::Exists(exists)) => {
                if exists {
                    WritePackage::Done(
                        Err(
                            Error::Host(
                                joined("package destination ", &destination, " already exists"),
                            ),
                        ),
                    )
                } else {
                    WritePackage::CreateDirectory
                }
            },
            (
                WritePackage::CreateDirectory,
                WriteReply::Answered(Ok(_)),
            ) => WritePackage::WriteManifest,
            (
                WritePackage::CreateDirectory,
                WriteReply::Answered(Err(failure)),
            ) => WritePackage::Done(Err(Error::Io(failure))),
            (
                WritePackage::WriteManifest,
                WriteReply::Manifest(Ok(_)),
            ) => WritePackage::WriteComponent,
            (
                WritePackage::WriteManifest,
                WriteReply::Manifest(Err(error)),
            ) => WritePackage::RemovePartial { error },
            (WritePackage::WriteComponent, WriteReply::Answered(Ok(_))) => WritePackage::Done(
                Ok(()),
            ),
            (
                WritePackage::WriteComponent,
                WriteReply::Answered(Err(failure)),
            ) => WritePackage::RemovePartial { error: Error::Io(failure) },
            (
                WritePackage::RemovePartial { error },
                WriteReply::Answered(_),
            ) => WritePackage::Done(Err(error)),
            (state, _) => state,
        }
    }
}

/// A write that fails either never created the destination or asked to remove
/// it again.
pub proof fn law_failed_write_leaves_nothing_behind(
    states: Seq<WritePackage>,
    replies: Seq<WriteReply>,
    at: int,
    error: Error,
) -> (ended: int)
    requires
        crate::runs::is_run(
            |s: WritePackage, r: WriteReply, t: WritePackage| write_next(s, r, t),
            states,
            replies,
        ),
        states[0] is CheckDestination,
        0 <= at < states.len(),
        states[at] == WritePackage::Done(Err(error)),
    ensures
        0 <= ended < at,
        ({
            ||| states[ended] is CheckDestination && replies[ended] == WriteReply::Exists(true)
            ||| states[ended] is CreateDirectory && replies[ended] matches WriteReply::Answered(
                Err(_),
            )
            ||| states[ended] == (WritePackage::RemovePartial { error })
        }),
{
    crate::runs::lemma_entered_along_run(
        |s: WritePackage, r: WriteReply, t: WritePackage| write_next(s, r, t),
        |s: WritePackage| s == WritePackage::Done(Err(error)),
        states,
        replies,
        at,
    )
}

/// A write that succeeds has written the component, and the manifest before
/// it.
pub proof fn law_successful_write_wrote_both_files(
    states: Seq<WritePackage>,
    replies: Seq<WriteReply>,
    at: int,
) -> (steps: (int, int))
    requires
        crate::runs::is_run(
            |s: WritePackage, r: WriteReply, t: WritePackage| write_next(s, r, t),
            states,
            replies,
        ),
        states[0] is CheckDestination,
        0 <= at < states.len(),
        states[at] matches WritePackage::Done(Ok(_)),
    ensures
        0 <= steps.0 < steps.1 < at,
        states[steps.0] is WriteManifest,
        replies[steps.0] matches WriteReply::Manifest(Ok(_)),
        states[steps.1] is WriteComponent,
        replies[steps.1] matches WriteReply::Answered(Ok(_)),
{
    let component = crate::runs::lemma_entered_along_run(
        |s: WritePackage, r: WriteReply, t: WritePackage| write_next(s, r, t),
        |s: WritePackage| s matches WritePackage::Done(Ok(_)),
        states,
        replies,
        at,
    );
    let manifest = crate::runs::lemma_entered_along_run(
        |s: WritePackage, r: WriteReply, t: WritePackage| write_next(s, r, t),
        |s: WritePackage| s is WriteComponent,
        states,
        replies,
        component,
    );
    (manifest, component)
}

/// Replacing an installed package through a staging directory: what to do
/// next. The package is to lie in the installation directory under
/// `installed` and is prepared in the staging directory under `staged`.
#[derive(Debug)]
pub enum ActivatePackage {
    /// Create the installation directory.
    CreateInstalled { installed: String, staged: String },
    /// Create the staging directory.
    CreateStaging { installed: String, staged: String },
    /// Find the installation directory's canonical path.
    ResolveInstalled { installed: String, staged: String },
    /// Find the staging directory's canonical path.
    ResolveStaging { installed: String, staged: String },
    /// Write the package to its place in the staging directory.
    WriteStaged { installed: String, staged: String },
    /// Remove the package that is installed.
    RemoveInstalled { installed: String, staged: String },
    /// Move the staged package to its place in the installation directory.
    Rename { installed: String, staged: String },
    /// Remove the staged package.
    RemoveStaged { staged: String, failure: IoFailure },
    /// Nothing more to do.
    Done(Result<(), Error>),
}

/// An answer to what an [`ActivatePackage`] asks for.
#[derive(Debug)]
pub enum ActivateReply {
    /// How writing the staged package ended.
    Staged(Result<(), Error>),
    /// How another file operation ended.
    Answered(Result<(), IoFailure>),
}

/// One step of an activation. An answer to something else leaves it as it is.
pub open spec fn activate_next(
    before: ActivatePackage,
    reply: ActivateReply,
    after: ActivatePackage,
) -> bool {
    match (before, reply) {
        (
            ActivatePackage::CreateInstalled { installed, staged },
            ActivateReply::Answered(answer),
        ) => match answer {
            Ok(_) => after == (ActivatePackage::CreateStaging { installed, staged }),
            Err(failure) => after == ActivatePackage::Done(Err(Error::Io(failure))),
        },
        (
            ActivatePackage::CreateStaging { installed, staged },
            ActivateReply::Answered(answer),
        ) => match answer {
            Ok(_) => after == (ActivatePackage::ResolveInstalled { installed, staged }),
            Err(failure) => after == ActivatePackage::Done(Err(Error::Io(failure))),
        },
        (
            ActivatePackage::ResolveInstalled { installed, staged },
            ActivateReply::Answered(answer),
        ) => match answer {
            Ok(_) => after == (ActivatePackage::ResolveStaging { installed, staged }),
            Err(failure) => after == ActivatePackage::Done(Err(Error::Io(failure))),
        },
        (
            ActivatePackage::ResolveStaging { installed, staged },
            ActivateReply::Answered(answer),
        ) => match answer {
            Ok(_) => after == (ActivatePackage::WriteStaged { installed, staged }),
            Err(failure) => after == ActivatePackage::Done(Err(Error::Io(failure))),
        },
        (
            ActivatePackage::WriteStaged { installed, staged },
            ActivateReply::Staged(answer),
        ) => match answer {
            Ok(_) => after == (ActivatePackage::RemoveInstalled { installed, staged }),
            Err(error) => after == ActivatePackage::Done(Err(error)),
        },
        (
            ActivatePackage::RemoveInstalled { installed, staged },
            ActivateReply::Answered(answer),
        ) => match answer {
            Ok(_) => after == (ActivatePackage::Rename { installed, staged }),
            Err(failure) => if failure.not_found {
                after == (ActivatePackage::Rename { installed, staged })
            } else {
                after == ActivatePackage::Done(Err(Error::Io(failure)))
            },
        },
        (
            ActivatePackage::Rename { installed, staged },
            ActivateReply::Answered(answer),
        ) => match answer {
            Ok(_) => after == ActivatePackage::Done(Ok(())),
            Err(failure) => after == (ActivatePackage::RemoveStaged { staged, failure }),
        },
        (
            ActivatePackage::RemoveStaged { staged, failure },
            ActivateReply::Answered(_),
        ) => after == ActivatePackage::Done(Err(Error::Io(failure))),
        _ => after == before,
    }
}

/// Whether an activation begins as it should: with the name of the package's own
/// identity, and a random name to stage it under.
pub open spec fn is_activation_start(package: ValidatedPackage, out: ActivatePackage) -> bool {
    out matches ActivatePackage::CreateInstalled { installed, staged } && installed@
        == crate::ids::hyphenated(package.manifest.id.value()) && exists|value: u128|
        crate::ids::is_random_uuid(value) && staged@ == #[trigger] crate::ids::hyphenated(value)
}

/// Begins to put a package in the place of the one installed under its
/// identity. The staging name is drawn at random.
pub fn activate_package(package: &ValidatedPackage) -> (out: ActivatePackage)
    ensures
        is_activation_start(*package, out),
{
    ActivatePackage::CreateInstalled {
        installed: package.manifest.id.text(),
        staged: staging_name(),
    }
}

impl ActivatePackage {
    /// Takes the answer to what was asked for.
    pub fn resume(self, reply: ActivateReply) -> (out: ActivatePackage)
        ensures
            activate_next(self, reply, out),
    {
        match (self, reply) {
            (
                ActivatePackage::CreateInstalled { installed, staged },
                ActivateReply::Answered(answer),
            ) => match answer {
                Ok(_) => ActivatePackage::CreateStaging { installed, staged },
                Err(failure) => ActivatePackage::Done(Err(Error::Io(failure))),
            },
            (
                ActivatePackage::CreateStaging { installed, staged },
                ActivateReply::Answered(answer),
            ) => match answer {
                Ok(_) => ActivatePackage::ResolveInstalled { installed, staged },
                Err(failure) => ActivatePackage::Done(Err(Error::Io(failure))),
            },
            (
                ActivatePackage::ResolveInstalled { installed, staged },
                ActivateReply::Answered(answer),
            ) => match answer {
                Ok(_) => ActivatePackage::ResolveStaging { installed, staged },
                Err(failure) => ActivatePackage::Done(Err(Error::Io(failure))),
            },
            (
                ActivatePackage::ResolveStaging { installed, staged },
                ActivateReply::Answered(answer),
            ) => match answer {
                Ok(_) => ActivatePackage::WriteStaged { installed, staged },
                Err(failure) => ActivatePackage::Done(Err(Error::Io(failure))),
            },
            (
                ActivatePackage::WriteStaged { installed, staged },
                ActivateReply::Staged(answer),
            ) => match answer {
                Ok(_) => ActivatePackage::RemoveInstalled { installed, staged },
                Err(error) => ActivatePackage::Done(Err(error)),
            },
            (
                ActivatePackage::RemoveInstalled { installed, staged },
                ActivateReply::Answered(answer),
            ) => match remove_directory(answer) {
                Ok(_) => ActivatePackage::Rename { installed, staged },
                Err(failure) => ActivatePackage::Done(Err(Error::Io(failure))),
            },
            (
                ActivatePackage::Rename { staged, .. },
                ActivateReply::Answered(answer),
            ) => match answer {
                Ok(_) => ActivatePackage::Done(Ok(())),
                Err(failure) => ActivatePackage::RemoveStaged { staged, failure },
            },
            (
                ActivatePackage::RemoveStaged { failure, .. },
                ActivateReply::Answered(_),
            ) => ActivatePackage::Done(Err(Error::Io(failure))),
            (state, _) => state,
        }
    }
}

/// What lies in the installation directory under the package's name.
pub enum Installed {
    /// What lay there before, if anything.
    Old,
    /// Nothing.
    Gone,
    /// What a removal that failed has left.
    Unknown,
    /// The package that is being activated.
    New,
}

/// What lies there after a request was answered.
pub open spec fn installed_next(
    before: Installed,
    state: ActivatePackage,
    reply: ActivateReply,
) -> Installed {
    match (state, reply) {
        (
            ActivatePackage::RemoveInstalled { .. },
            ActivateReply::Answered(answer),
        ) => if answer is Ok || answer->Err_0.not_found {
            Installed::Gone
        } else {
            Installed::Unknown
        },
        (ActivatePackage::Rename { .. }, ActivateReply::Answered(Ok(_))) => Installed::New,
        _ => before,
    }
}

/// What lies there after the first `count` answers of a run.
pub open spec fn installed_after(
    states: Seq<ActivatePackage>,
    replies: Seq<ActivateReply>,
    count: nat,
) -> Installed
    decreases count,
{
    if count == 0 {
        Installed::Old
    } else {
        installed_next(
            installed_after(states, replies, (count - 1) as nat),
            states[count - 1],
            replies[count - 1],
        )
    }
}

/// An activation leaves the installed package alone until the new one is
/// staged, puts the new one in its place when it succeeds, and leaves the
/// plugin uninstalled when only the move fails.
pub proof fn law_activation_replaces_or_uninstalls(
    states: Seq<ActivatePackage>,
    replies: Seq<ActivateReply>,
    at: nat,
)
    requires
        crate::runs::is_run(
            |s: ActivatePackage, r: ActivateReply, t: ActivatePackage| activate_next(s, r, t),
            states,
            replies,
        ),
        states[0] is CreateInstalled,
        at < states.len(),
    ensures
        match states[at as int] {
            ActivatePackage::Rename { .. } => installed_after(states, replies, at)
                == Installed::Gone,
            ActivatePackage::RemoveStaged { .. } => installed_after(states, replies, at)
                == Installed::Gone,
            ActivatePackage::Done(Ok(_)) => installed_after(states, replies, at) == Installed::New,
            ActivatePackage::Done(Err(_)) => installed_after(states, replies, at) != Installed::New,
            _ => installed_after(states, replies, at) == Installed::Old,
        },
    decreases at,
{
    if at > 0 {
        law_activation_replaces_or_uninstalls(states, replies, (at - 1) as nat);
        let reply = replies[at - 1];
        assert(activate_next(states[at - 1], reply, states[at as int]));
    }
}

/// The installed package is removed only after the new one was staged
/// completely.
pub proof fn law_removal_follows_staging(
    states: Seq<ActivatePackage>,
    replies: Seq<ActivateReply>,
    at: int,
) -> (staged: int)
    requires
        crate::runs::is_run(
            |s: ActivatePackage, r: ActivateReply, t: ActivatePackage| activate_next(s, r, t),
            states,
            replies,
        ),
        states[0] is CreateInstalled,
        0 <= at < states.len(),
        states[at] is RemoveInstalled,
    ensures
        0 <= staged < at,
        states[staged] is WriteStaged,
        replies[staged] matches ActivateReply::Staged(Ok(_)),
{
    crate::runs::lemma_entered_along_run(
        |s: ActivatePackage, r: ActivateReply, t: ActivatePackage| activate_next(s, r, t),
        |s: ActivatePackage| s is RemoveInstalled,
        states,
        replies,
        at,
    )
}

/// A failed move is answered with its own failure once the staged package was
/// to be removed, whatever came of that.
pub proof fn law_failed_move_is_reported(
    failure: IoFailure,
    moving: ActivatePackage,
    removing: ActivatePackage,
    removed: ActivateReply,
    done: ActivatePackage,
)
    requires
        moving is Rename,
        activate_next(moving, ActivateReply::Answered(Err(failure)), removing),
        removed is Answered,
        activate_next(removing, removed, done),
    ensures
        removing matches ActivatePackage::RemoveStaged { staged, .. } && staged
            == moving->Rename_staged,
        done == ActivatePackage::Done(Err(Error::Io(failure))),
{
}

/// The names under which a package is to be installed and is staged, for as
/// long as both matter.
pub open spec fn activation_names(state: ActivatePackage) -> Option<(String, String)> {
    match state {
        ActivatePackage::CreateInstalled { installed, staged } => Some((installed, staged)),
        ActivatePackage::CreateStaging { installed, staged } => Some((installed, staged)),
        ActivatePackage::ResolveInstalled { installed, staged } => Some((installed, staged)),
        ActivatePackage::ResolveStaging { installed, staged } => Some((installed, staged)),
        ActivatePackage::WriteStaged { installed, staged } => Some((installed, staged)),
        ActivatePackage::RemoveInstalled { installed, staged } => Some((installed, staged)),
        ActivatePackage::Rename { installed, staged } => Some((installed, staged)),
        _ => None,
    }
}

/// What is moved is what was staged, and it goes to where the old package was
/// removed: the names never change on the way.
pub proof fn law_activation_keeps_its_names(
    states: Seq<ActivatePackage>,
    replies: Seq<ActivateReply>,
    at: int,
)
    requires
        crate::runs::is_run(
            |s: ActivatePackage, r: ActivateReply, t: ActivatePackage| activate_next(s, r, t),
            states,
            replies,
        ),
        states[0] is CreateInstalled,
        0 <= at < states.len(),
    ensures
        activation_names(states[at]) is Some ==> activation_names(states[at]) == activation_names(
            states[0],
        ),
        states[at] matches ActivatePackage::RemoveStaged { staged, .. } ==> staged
            == states[0]->CreateInstalled_staged,
    decreases at,
{
    if at > 0 {
        law_activation_keeps_its_names(states, replies, at - 1);
        let reply = replies[at - 1];
        assert(activate_next(states[at - 1], reply, states[at]));
    }
}

/// What lies at the destination of a package after a request to write it was
/// answered, as far as the answers tell: its files, or nothing.
pub open spec fn destination_next(
    before: Option<Map<Seq<char>, FileContents>>,
    package: ValidatedPackage,
    state: WritePackage,
    reply: WriteReply,
) -> Option<Map<Seq<char>, FileContents>> {
    match (state, reply) {
        (WritePackage::CreateDirectory, WriteReply::Answered(Ok(_))) => Some(Map::empty()),
        (WritePackage::WriteManifest, WriteReply::Manifest(Ok(_))) => with_file(
            before,
            file_to_write(state, package)->0,
        ),
        (WritePackage::WriteComponent, WriteReply::Answered(Ok(_))) => with_file(
            before,
            file_to_write(state, package)->0,
        ),
        (WritePackage::RemovePartial { .. }, WriteReply::Answered(Ok(_))) => None,
        _ => before,
    }
}

/// A directory with one more file.
pub open spec fn with_file(
    directory: Option<Map<Seq<char>, FileContents>>,
    file: (Seq<char>, FileContents),
) -> Option<Map<Seq<char>, FileContents>> {
    match directory {
        Some(files) => Some(files.insert(file.0, file.1)),
        None => None,
    }
}

/// What lies at the destination after the first `count` answers of a run.
pub open spec fn destination_after(
    start: Option<Map<Seq<char>, FileContents>>,
    package: ValidatedPackage,
    states: Seq<WritePackage>,
    replies: Seq<WriteReply>,
    count: nat,
) -> Option<Map<Seq<char>, FileContents>>
    decreases count,
{
    if count == 0 {
        start
    } else {
        destination_next(
            destination_after(start, package, states, replies, (count - 1) as nat),
            package,
            states[count - 1],
            replies[count - 1],
        )
    }
}

/// A destination that exists is left as it is. A write that succeeds has made a
/// new directory that holds exactly the manifest in `plugin.toml` and the
/// component in `plugin.wasm`.
pub proof fn law_written_package_is_complete(
    start: Option<Map<Seq<char>, FileContents>>,
    package: ValidatedPackage,
    states: Seq<WritePackage>,
    replies: Seq<WriteReply>,
    at: nat,
)
    requires
        crate::runs::is_run(
            |s: WritePackage, r: WriteReply, t: WritePackage| write_next(s, r, t),
            states,
            replies,
        ),
        states[0] is CheckDestination,
        forall|i: int|
            0 <= i < replies.len() ==> (states[i] is CheckDestination ==> (#[trigger] replies[i] matches
                WriteReply::Exists(exists) ==> exists == (start is Some))),
        at < states.len(),
    ensures
        start is Some ==> destination_after(start, package, states, replies, at) == start && (
        states[at as int] is CheckDestination || states[at as int] matches WritePackage::Done(
            Err(Error::Host(_)),
        )),
        states[at as int] matches WritePackage::Done(Ok(_)) ==> start is None && destination_after(
            start,
            package,
            states,
            replies,
            at,
        ) == Some(package_files(package)),
        states[at as int] is CheckDestination || states[at as int] is CreateDirectory
            ==> destination_after(start, package, states, replies, at) == start,
        states[at as int] is WriteManifest ==> destination_after(
            start,
            package,
            states,
            replies,
            at,
        ) == Some(Map::<Seq<char>, FileContents>::empty()),
        states[at as int] is WriteComponent ==> destination_after(
            start,
            package,
            states,
            replies,
            at,
        ) == Some(
            Map::<Seq<char>, FileContents>::empty().insert(
                MANIFEST_FILE@,
                FileContents::Manifest(package.manifest),
            ),
        ),
    decreases at,
{
    if at > 0 {
        law_written_package_is_complete(start, package, states, replies, (at - 1) as nat);
        let reply = replies[at - 1];
        assert(write_next(states[at - 1], reply, states[at as int]));
        if states[at as int] matches WritePackage::Done(Ok(_)) {
            let files = destination_after(start, package, states, replies, at);
            assert(files is Some ==> files->0 =~= package_files(package));
        }
    }
}

/// The directories that lie where packages are installed and where they are
/// staged, each with its files.
pub struct Places {
    pub installed: Map<Seq<char>, Map<Seq<char>, FileContents>>,
    pub staging: Map<Seq<char>, Map<Seq<char>, FileContents>>,
}

/// What lies there after a request of an activation was answered, as far as the
/// answers tell.
pub open spec fn places_next(
    before: Places,
    package: ValidatedPackage,
    state: ActivatePackage,
    reply: ActivateReply,
) -> Places {
    match (state, reply) {
        (ActivatePackage::WriteStaged { staged, .. }, ActivateReply::Staged(Ok(_))) => Places {
            staging: before.staging.insert(staged@, package_files(package)),
            ..before
        },
        (
            ActivatePackage::RemoveInstalled { installed, .. },
            ActivateReply::Answered(answer),
        ) => if answer is Ok || answer->Err_0.not_found {
            Places { installed: before.installed.remove(installed@), ..before }
        } else {
            before
        },
        (
            ActivatePackage::Rename { installed, staged },
            ActivateReply::Answered(Ok(_)),
        ) => Places {
            installed: before.installed.insert(installed@, before.staging[staged@]),
            staging: before.staging.remove(staged@),
        },
        (
            ActivatePackage::RemoveStaged { staged, .. },
            ActivateReply::Answered(Ok(_)),
        ) => Places { staging: before.staging.remove(staged@), ..before },
        _ => before,
    }
}

/// What lies there after the first `count` answers of a run.
pub open spec fn places_after(
    start: Places,
    package: ValidatedPackage,
    states: Seq<ActivatePackage>,
    replies: Seq<ActivateReply>,
    count: nat,
) -> Places
    decreases count,
{
    if count == 0 {
        start
    } else {
        places_next(
            places_after(start, package, states, replies, (count - 1) as nat),
            package,
            states[count - 1],
            replies[count - 1],
        )
    }
}

/// Whether a run activates a package: it begins with the package's own name, and
/// the package is written only where nothing lies.
pub open spec fn is_activation_of(
    start: Places,
    package: ValidatedPackage,
    states: Seq<ActivatePackage>,
    replies: Seq<ActivateReply>,
) -> bool {
    &&& crate::runs::is_run(
        |s: ActivatePackage, r: ActivateReply, t: ActivatePackage| activate_next(s, r, t),
        states,
        replies,
    )
    &&& states[0] matches ActivatePackage::CreateInstalled { installed, .. } && installed@
        == crate::ids::hyphenated(package.manifest.id.value())
    &&& forall|i: int|
        0 <= i < replies.len() ==> (states[i] is WriteStaged ==> (#[trigger] replies[i] matches
            ActivateReply::Staged(Ok(_)) ==> !start.staging.contains_key(
            states[i]->WriteStaged_staged@,
        )))
}

/// An activation that succeeds has put exactly the package's two files under
/// its identity, has left nothing behind where packages are staged, and has
/// changed no other package; one that fails has changed no other package
/// either.
pub proof fn law_activated_package_is_in_place(
    start: Places,
    package: ValidatedPackage,
    states: Seq<ActivatePackage>,
    replies: Seq<ActivateReply>,
    at: nat,
)
    requires
        is_activation_of(start, package, states, replies),
        at < states.len(),
    ensures
        ({
            let name = crate::ids::hyphenated(package.manifest.id.value());
            let staged = states[0]->CreateInstalled_staged@;
            let now = places_after(start, package, states, replies, at);
            &&& now.installed.remove(name) == start.installed.remove(name)
            &&& match states[at as int] {
                ActivatePackage::RemoveInstalled { .. } => now.installed == start.installed
                    && now.staging == start.staging.insert(staged, package_files(package))
                    && !start.staging.contains_key(staged),
                ActivatePackage::Rename { .. } => now.installed == start.installed.remove(name)
                    && now.staging == start.staging.insert(staged, package_files(package))
                    && !start.staging.contains_key(staged),
                ActivatePackage::RemoveStaged { .. } => true,
                ActivatePackage::Done(Ok(_)) => now.installed == start.installed.insert(
                    name,
                    package_files(package),
                ) && now.staging == start.staging,
                ActivatePackage::Done(Err(_)) => true,
                _ => now == start,
            }
        }),
    decreases at,
{
    if at > 0 {
        law_activated_package_is_in_place(start, package, states, replies, (at - 1) as nat);
        law_activation_keeps_its_names(states, replies, at - 1);
        let reply = replies[at - 1];
        assert(activate_next(states[at - 1], reply, states[at as int]));
        let name = crate::ids::hyphenated(package.manifest.id.value());
        let staged = states[0]->CreateInstalled_staged@;
        let before = places_after(start, package, states, replies, (at - 1) as nat);
        let now = places_after(start, package, states, replies, at);
        assert(now.installed.remove(name) =~= before.installed.remove(name));
        if states[at as int] matches ActivatePackage::Done(Ok(_)) && states[at - 1] is Rename {
            assert(now.installed =~= start.installed.insert(name, package_files(package)));
            assert(now.staging =~= start.staging);
        }
    }
}

/// To validate what an activation has put in place gives the package back, if
/// its manifest reads back.
pub proof fn law_activated_package_validates_again(
    start: Places,
    package: ValidatedPackage,
    supported: crate::version::VersionView,
    states: Seq<ActivatePackage>,
    replies: Seq<ActivateReply>,
    at: nat,
    manifest: PackageManifest,
    component: Vec<u8>,
    out: Result<ValidatedPackage, Error>,
)
    requires
        is_activation_of(start, package, states, replies),
        at < states.len(),
        states[at as int] matches ActivatePackage::Done(Ok(_)),
        crate::source::is_valid_package(package, supported),
        ({
            let name = crate::ids::hyphenated(package.manifest.id.value());
            let files = places_after(start, package, states, replies, at).installed[name];
            &&& files[MANIFEST_FILE@] == FileContents::Manifest(manifest)
            &&& files[COMPONENT_FILE@] == FileContents::Component(component@)
        }),
        crate::package::is_validation(manifest, component, supported, out),
    ensures
        out matches Ok(again) && again.manifest == package.manifest && again.component@
            == package.component@,
{
    law_activated_package_is_in_place(start, package, states, replies, at);
    assert(MANIFEST_FILE@ != COMPONENT_FILE@) by {
        reveal_strlit("plugin.toml");
        reveal_strlit("plugin.wasm");
        assert(MANIFEST_FILE@[7] != COMPONENT_FILE@[7]);
    }
}

/// Writing a package comes to what its steps come to: a destination that exists
/// is refused, and otherwise the write succeeds exactly if the directory was
/// created and both files were written. The first failure is what it ends
/// with; where the directory was created, it is asked to be removed before,
/// whatever comes of that.
pub proof fn law_write_comes_to_its_steps(
    destination: String,
    present: bool,
    created: Result<(), IoFailure>,
    manifest: Result<(), Error>,
    component: Result<(), IoFailure>,
    removed: Result<(), IoFailure>,
    states: (WritePackage, WritePackage, WritePackage, WritePackage, WritePackage),
)
    requires
        write_next(
            WritePackage::CheckDestination { destination },
            WriteReply::Exists(present),
            states.0,
        ),
        write_next(states.0, WriteReply::Answered(created), states.1),
        write_next(states.1, WriteReply::Manifest(manifest), states.2),
        write_next(states.2, WriteReply::Answered(component), states.3),
        write_next(states.3, WriteReply::Answered(removed), states.4),
    ensures
        if present {
            &&& states.0 matches WritePackage::Done(Err(Error::Host(text))) && text@
                == "package destination "@ + destination@ + " already exists"@
            &&& states.4 == states.0
        } else {
            &&& states.0 is CreateDirectory
            &&& match (created, manifest, component) {
                (Err(failure), _, _) => states.1 == WritePackage::Done(Err(Error::Io(failure)))
                    && states.4 == states.1,
                (Ok(_), Err(error), _) => states.1 is WriteManifest && states.2 == (
                WritePackage::RemovePartial { error }) && states.4 == WritePackage::Done(
                    Err(error),
                ),
                (Ok(_), Ok(_), Err(failure)) => states.1 is WriteManifest && states.2
                    is WriteComponent && states.3 == (WritePackage::RemovePartial {
                    error: Error::Io(failure),
                }) && states.4 == WritePackage::Done(Err(Error::Io(failure))),
                (Ok(_), Ok(_), Ok(_)) => states.1 is WriteManifest && states.2 is WriteComponent
                    && states.4 == WritePackage::Done(Ok(())),
            }
        },
{
}

/// The manifest goes into `plugin.toml` and the component, byte for byte, into
/// `plugin.wasm`; at no other point is a file written.
pub proof fn law_files_hold_their_package(state: WritePackage, package: ValidatedPackage)
    ensures
        match file_to_write(state, package) {
            Some((name, FileContents::Manifest(manifest))) => state is WriteManifest && name
                == "plugin.toml"@ && manifest == package.manifest,
            Some((name, FileContents::Component(bytes))) => state is WriteComponent && name
                == "plugin.wasm"@ && bytes == package.component@,
            None => state !is WriteManifest && state !is WriteComponent,
        },
{
}

/// An activation comes to what its steps come to: it succeeds exactly if all of
/// them do, where a package that is missing is as good as removed. The first
/// failure is what it ends with, and only where the move has failed is the
/// staged package asked to be removed before. The package is written, removed
/// and moved under the names that it began with.
pub proof fn law_activation_comes_to_its_steps(
    installed: String,
    staged: String,
    directories: (
        Result<(), IoFailure>,
        Result<(), IoFailure>,
        Result<(), IoFailure>,
        Result<(), IoFailure>,
    ),
    written: Result<(), Error>,
    removed: Result<(), IoFailure>,
    moved: Result<(), IoFailure>,
    cleaned: Result<(), IoFailure>,
    states: Seq<ActivatePackage>,
)
    requires
        states.len() == 9,
        states[0] == (ActivatePackage::CreateInstalled { installed, staged }),
        activate_next(states[0], ActivateReply::Answered(directories.0), states[1]),
        activate_next(states[1], ActivateReply::Answered(directories.1), states[2]),
        activate_next(states[2], ActivateReply::Answered(directories.2), states[3]),
        activate_next(states[3], ActivateReply::Answered(directories.3), states[4]),
        activate_next(states[4], ActivateReply::Staged(written), states[5]),
        activate_next(states[5], ActivateReply::Answered(removed), states[6]),
        activate_next(states[6], ActivateReply::Answered(moved), states[7]),
        activate_next(states[7], ActivateReply::Answered(cleaned), states[8]),
    ensures
        match directories {
            (Err(failure), _, _, _) => states[8] == ActivatePackage::Done(Err(Error::Io(failure))),
            (Ok(_), Err(failure), _, _) => states[8] == ActivatePackage::Done(
                Err(Error::Io(failure)),
            ),
            (Ok(_), Ok(_), Err(failure), _) => states[8] == ActivatePackage::Done(
                Err(Error::Io(failure)),
            ),
            (Ok(_), Ok(_), Ok(_), Err(failure)) => states[8] == ActivatePackage::Done(
                Err(Error::Io(failure)),
            ),
            (Ok(_), Ok(_), Ok(_), Ok(_)) => {
                &&& states[1] == (ActivatePackage::CreateStaging { installed, staged })
                &&& states[2] == (ActivatePackage::ResolveInstalled { installed, staged })
                &&& states[3] == (ActivatePackage::ResolveStaging { installed, staged })
                &&& states[4] == (ActivatePackage::WriteStaged { installed, staged })
                &&& match (written, removed, moved) {
                    (Err(error), _, _) => states[5] == ActivatePackage::Done(Err(error))
                        && states[8] == states[5],
                    (Ok(_), Err(failure), _) if !failure.not_found => states[5] == (
                    ActivatePackage::RemoveInstalled { installed, staged }) && states[6]
                        == ActivatePackage::Done(Err(Error::Io(failure))) && states[8]
                        == states[6],
                    (Ok(_), _, Err(failure)) => states[5] == (ActivatePackage::RemoveInstalled {
                        installed,
                        staged,
                    }) && states[6] == (ActivatePackage::Rename { installed, staged })
                        && states[7] == (ActivatePackage::RemoveStaged { staged, failure })
                        && states[8] == ActivatePackage::Done(Err(Error::Io(failure))),
                    (Ok(_), _, Ok(_)) => states[5] == (ActivatePackage::RemoveInstalled {
                        installed,
                        staged,
                    }) && states[6] == (ActivatePackage::Rename { installed, staged })
                        && states[8] == ActivatePackage::Done(Ok(())),
                }
            },
        },
{
}

/// An answer to something that was not asked for leaves the writing of a
/// package and its activation as they are, and so does every answer at their
/// end.
pub proof fn law_activation_ignores_other_answers(
    writing: (WritePackage, WriteReply, WritePackage),
    activating: (ActivatePackage, ActivateReply, ActivatePackage),
)
    requires
        write_next(writing.0, writing.1, writing.2),
        activate_next(activating.0, activating.1, activating.2),
    ensures
        match writing.0 {
            WritePackage::CheckDestination { .. } => writing.1 is Exists || writing.2 == writing.0,
            WritePackage::WriteManifest => writing.1 is Manifest || writing.2 == writing.0,
            WritePackage::Done(_) => writing.2 == writing.0,
            _ => writing.1 is Answered || writing.2 == writing.0,
        },
        match activating.0 {
            ActivatePackage::WriteStaged { .. } => activating.1 is Staged || activating.2
                == activating.0,
            ActivatePackage::Done(_) => activating.2 == activating.0,
            _ => activating.1 is Answered || activating.2 == activating.0,
        },
{
}

/// A package is put where it is looked for: the name that an activation begins
/// with denotes the package's identity and no other, and the name that it is
/// staged under denotes a random UUID.
pub proof fn law_activation_goes_under_its_identity(
    package: ValidatedPackage,
    out: ActivatePackage,
    other: u128,
) -> (staging: u128)
    requires
        is_activation_start(package, out),
    ensures
        out matches ActivatePackage::CreateInstalled { installed, staged } && {
            &&& crate::ids::denotes_uuid(installed@, package.manifest.id.value())
            &&& crate::ids::denotes_uuid(installed@, other) ==> other
                == package.manifest.id.value()
            &&& crate::ids::is_random_uuid(staging)
            &&& crate::ids::denotes_uuid(staged@, staging)
        },
{
    let (installed, staged) = (
        out->CreateInstalled_installed@,
        out->CreateInstalled_staged@,
    );
    crate::ids::law_written_uuid_denotes_itself(package.manifest.id.value());
    if crate::ids::denotes_uuid(installed, other) {
        crate::ids::law_text_denotes_one_uuid(installed, package.manifest.id.value(), other);
    }
    let staging = choose|value: u128|
        crate::ids::is_random_uuid(value) && staged == #[trigger] crate::ids::hyphenated(value);
    crate::ids::law_written_uuid_denotes_itself(staging);
    staging
}

}
