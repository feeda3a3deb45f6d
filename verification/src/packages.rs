//! A shared catalog of the packages in `installed/<plugin-id>`.
//!
//! The catalog itself reads and writes no files: each operation says what to do
//! next and takes the answer. Operations that say they await the lifecycle lock
//! are to hold it from then on until they are done.

use std::sync::Arc;

use vstd::prelude::*;

use crate::adapters::share;
use crate::catalog::{Catalog, InstalledPlugin};
use crate::error::{remove_directory, IoFailure, PluginError};
use crate::manifest::PluginInfo;
use crate::package::MANIFEST_FILE;
use crate::runtime::Runtime;

verus! {

broadcast use vstd::string::group_string_axioms;

/// The directory of installed packages, beneath the catalog's root.
pub const INSTALLED_DIRECTORY: &'static str = "installed";

/// A shared catalog of installed packages. Compilation is lazy.
pub struct Plugins {
    runtime: Arc<Runtime>,
    installed: Catalog,
}

impl View for Plugins {
    type V = Map<Seq<char>, InstalledPlugin>;

    closed spec fn view(&self) -> Map<Seq<char>, InstalledPlugin> {
        self.installed@
    }
}

/// The path of a plugin's package beneath the catalog's root.
pub open spec fn package_path(id: Seq<char>) -> Seq<Seq<char>> {
    seq![INSTALLED_DIRECTORY@, id]
}

/// The directory of a plugin's package, as the names that lead to it from the
/// catalog's root.
pub fn directory(id: &str) -> (out: Vec<String>)
    ensures
        crate::text::texts(out@) == package_path(id@),
{
    let out = vec![INSTALLED_DIRECTORY.to_owned(), id.to_owned()];
    assert(crate::text::texts(out@) =~= package_path(id@));
    out
}

/// Whether a lookup tells the metadata of the entry under an identifier, if there
/// is one.
pub open spec fn is_lookup(
    entries: Map<Seq<char>, InstalledPlugin>,
    id: Seq<char>,
    out: Option<PluginInfo>,
) -> bool {
    match out {
        Some(info) => entries.contains_key(id) && info@ == crate::catalog::entry_info(entries[id])@
            && info@.manifest.id == id,
        None => !entries.contains_key(id),
    }
}

impl Plugins {
    /// The compiler that the catalog uses.
    pub closed spec fn compiler(self) -> Arc<Runtime> {
        self.runtime
    }

    /// Begins to scan the metadata of the installed packages.
    pub fn open() -> (out: OpenPlugins)
        ensures
            out is ReadInstalled,
    {
        OpenPlugins::ReadInstalled
    }

    /// The catalog of what a scan has found, if there is a compiler for it.
    pub fn with_runtime(found: Catalog, runtime: Result<Runtime, PluginError>) -> (out: Result<
        Plugins,
        PluginError,
    >)
        ensures
            match runtime {
                Ok(runtime) => out matches Ok(plugins) && plugins@ == found@ && *plugins.compiler()
                    == runtime,
                Err(error) => out == Err::<Plugins, PluginError>(error),
            },
    {
        match runtime {
            Ok(runtime) => Ok(Plugins { runtime: Arc::new(runtime), installed: found }),
            Err(error) => Err(error),
        }
    }

    /// The compiler that the catalog uses.
    pub fn runtime(&self) -> (out: Arc<Runtime>)
        ensures
            out == self.compiler(),
    {
        share(&self.runtime)
    }

    /// What is installed, in the order of the identifiers.
    pub fn list(&self) -> (out: Vec<PluginInfo>)
        ensures
            crate::catalog::is_listing(self@, out@),
    {
        self.installed.infos()
    }

    /// What is installed under an identifier.
    pub fn get(&self, id: &str) -> (out: Option<PluginInfo>)
        ensures
            is_lookup(self@, id@, out),
    {
        match self.installed.get(id) {
            Some(entry) => Some(entry.info().clone()),
            None => None,
        }
    }

    /// The entry under an identifier.
    pub(crate) fn entry(&self, id: &str) -> (out: Option<&InstalledPlugin>)
        ensures
            match out {
                Some(entry) => self@.contains_key(id@) && *entry == self@[id@],
                None => !self@.contains_key(id@),
            },
    {
        self.installed.get(id)
    }

    /// Puts an entry under its own identifier.
    pub(crate) fn publish(&mut self, entry: InstalledPlugin)
        ensures
            final(self)@ == old(self)@.insert(crate::catalog::entry_id(entry), entry),
            final(self).compiler() == old(self).compiler(),
    {
        self.installed.insert(entry);
    }

    /// Removes the entry under an identifier.
    pub(crate) fn withdraw(&mut self, id: &str)
        ensures
            final(self)@ == old(self)@.remove(id@),
            final(self).compiler() == old(self).compiler(),
    {
        self.installed.remove(id);
    }
}

/// Opening a catalog: what to do next.
pub enum OpenPlugins {
    /// Begin to read the directory of installed packages.
    ReadInstalled,
    /// Read its next entry.
    NextEntry { found: Catalog },
    /// Read and parse the metadata in the entry.
    ReadMetadata { found: Catalog },
    /// The catalog is open.
    Opened(Plugins),
    /// The catalog could not be opened.
    Failed(PluginError),
}

/// An answer to what an [`OpenPlugins`] asks for.
#[derive(Debug)]
pub enum ScanReply {
    /// Whether the directory can be read.
    Directory(Result<(), IoFailure>),
    /// Whether the next entry is a directory; none at the end.
    Entry(Option<Result<bool, IoFailure>>),
    /// The metadata, why it could not be parsed, or why it could not be read.
    Metadata(Result<Result<PluginInfo, String>, IoFailure>),
}

/// Whether a scan ends as it should: with a catalog of what was found, unless
/// there is no compiler for it.
pub open spec fn is_scan_end(found: Map<Seq<char>, InstalledPlugin>, after: OpenPlugins) -> bool {
    match after {
        OpenPlugins::Opened(plugins) => plugins@ == found && crate::runtime::engine_settings(
            plugins.compiler().compiler(),
        ) == (true, true),
        OpenPlugins::Failed(error) => error is Runtime,
        _ => false,
    }
}

/// One step of opening a catalog. An answer to something else leaves it as it
/// is.
pub open spec fn scan_next(before: OpenPlugins, reply: ScanReply, after: OpenPlugins) -> bool {
    match (before, reply) {
        (OpenPlugins::ReadInstalled, ScanReply::Directory(Ok(_))) => after matches
            OpenPlugins::NextEntry { found } && found@ == Map::<
            Seq<char>,
            InstalledPlugin,
        >::empty(),
        (OpenPlugins::ReadInstalled, ScanReply::Directory(Err(failure))) => if failure.not_found {
            is_scan_end(Map::empty(), after)
        } else {
            after == OpenPlugins::Failed(PluginError::Io(failure))
        },
        (OpenPlugins::NextEntry { found }, ScanReply::Entry(None)) => is_scan_end(found@, after),
        (OpenPlugins::NextEntry { .. }, ScanReply::Entry(Some(Err(failure)))) => after
            == OpenPlugins::Failed(PluginError::Io(failure)),
        (OpenPlugins::NextEntry { found }, ScanReply::Entry(Some(Ok(is_directory)))) =>
            if is_directory {
                after == (OpenPlugins::ReadMetadata { found })
            } else {
                after == before
            },
        (OpenPlugins::ReadMetadata { found }, ScanReply::Metadata(Ok(Ok(info)))) => {
            after matches OpenPlugins::NextEntry { found: grown } && grown@ == found@.insert(
                info@.manifest.id,
                InstalledPlugin::Uncompiled(info),
            )
        },
        (OpenPlugins::ReadMetadata { .. }, ScanReply::Metadata(Ok(Err(error)))) => after
            == OpenPlugins::Failed(PluginError::ParseMetadata(error)),
        (OpenPlugins::ReadMetadata { .. }, ScanReply::Metadata(Err(failure))) => after
            == OpenPlugins::Failed(PluginError::Io(failure)),
        _ => after == before,
    }
}

impl OpenPlugins {
    fn finish(found: Catalog) -> (out: OpenPlugins)
        ensures
            is_scan_end(found@, out),
    {
        match Plugins::with_runtime(found, Runtime::new()) {
            Ok(plugins) => OpenPlugins::Opened(plugins),
            Err(error) => OpenPlugins::Failed(error),
        }
    }

    /// The name of the file to read next, in the directory that was found.
    pub fn file(&self) -> (out: Option<&'static str>)
        ensures
            match *self {
                OpenPlugins::ReadMetadata { .. } => out == Some(MANIFEST_FILE),
                _ => out is None,
            },
    {
        match self {
            OpenPlugins::ReadMetadata { .. } => Some(MANIFEST_FILE),
            _ => None,
        }
    }

    /// Takes the answer to what was asked for.
    pub fn resume(self, reply: ScanReply) -> (out: OpenPlugins)
        ensures
            scan_next(self, reply, out),
    {
        match (self, reply) {
            (OpenPlugins::ReadInstalled, ScanReply::Directory(Ok(_))) => OpenPlugins::NextEntry {
                found: Catalog::new(),
            },
            (OpenPlugins::ReadInstalled, ScanReply::Directory(Err(failure))) => {
                if failure.not_found {
                    OpenPlugins::finish(Catalog::new())
                } else {
                    OpenPlugins::Failed(PluginError::Io(failure))
                }
            },
            (OpenPlugins::NextEntry { found }, ScanReply::Entry(None)) => OpenPlugins::finish(
                found,
            ),
            (
                OpenPlugins::NextEntry { .. },
                ScanReply::Entry(Some(Err(failure))),
            ) => OpenPlugins::Failed(PluginError::Io(failure)),
            (OpenPlugins::NextEntry { found }, ScanReply::Entry(Some(Ok(is_directory)))) => {
                if is_directory {
                    OpenPlugins::ReadMetadata { found }
                } else {
                    OpenPlugins::NextEntry { found }
                }
            },
            (OpenPlugins::ReadMetadata { mut found }, ScanReply::Metadata(Ok(Ok(info)))) => {
                found.insert(InstalledPlugin::Uncompiled(info));
                OpenPlugins::NextEntry { found }
            },
            (
                OpenPlugins::ReadMetadata { .. },
                ScanReply::Metadata(Ok(Err(error))),
            ) => OpenPlugins::Failed(PluginError::ParseMetadata(error)),
            (
                OpenPlugins::ReadMetadata { .. },
                ScanReply::Metadata(Err(failure)),
            ) => OpenPlugins::Failed(PluginError::Io(failure)),
            (state, _) => state,
        }
    }
}

/// Removing a package: what to do next.
#[derive(Debug)]
pub enum UninstallPlugin {
    /// Await the lifecycle lock.
    AwaitLifecycle { id: String },
    /// Remove this directory beneath the root.
    RemoveInstalled { directory: Vec<String> },
    /// Nothing more to do.
    Done(Result<(), PluginError>),
}

/// An answer to what an [`UninstallPlugin`] asks for.
#[derive(Debug)]
pub enum RemovalReply {
    /// The lifecycle lock is held.
    Locked,
    /// How removing the directory ended.
    Removed(Result<(), IoFailure>),
}

/// One step of removing a package: the entries before and after it, and what to
/// do next. An answer to something else leaves everything as it is.
pub open spec fn removal_next(
    entries: Map<Seq<char>, InstalledPlugin>,
    before: UninstallPlugin,
    reply: RemovalReply,
    entries_after: Map<Seq<char>, InstalledPlugin>,
    after: UninstallPlugin,
) -> bool {
    match (before, reply) {
        (UninstallPlugin::AwaitLifecycle { id }, RemovalReply::Locked) => {
            &&& entries_after == entries.remove(id@)
            &&& after matches UninstallPlugin::RemoveInstalled { directory }
                && crate::text::texts(directory@) == package_path(id@)
        },
        (UninstallPlugin::RemoveInstalled { .. }, RemovalReply::Removed(answer)) => {
            &&& entries_after == entries
            &&& if answer is Ok || answer->Err_0.not_found {
                after == UninstallPlugin::Done(Ok(()))
            } else {
                after == UninstallPlugin::Done(Err(PluginError::Io(answer->Err_0)))
            }
        },
        _ => entries_after == entries && after == before,
    }
}

impl Plugins {
    /// Begins to remove a package.
    pub fn uninstall(&self, id: &str) -> (out: UninstallPlugin)
        ensures
            out matches UninstallPlugin::AwaitLifecycle { id: kept } && kept@ == id@,
    {
        UninstallPlugin::AwaitLifecycle { id: id.to_owned() }
    }

    /// Takes the answer to what a removal asked for.
    pub fn resume_uninstall(&mut self, state: UninstallPlugin, reply: RemovalReply) -> (out:
        UninstallPlugin)
        ensures
            removal_next(old(self)@, state, reply, final(self)@, out),
            final(self).compiler() == old(self).compiler(),
    {
        match (state, reply) {
            (UninstallPlugin::AwaitLifecycle { id }, RemovalReply::Locked) => {
                self.withdraw(&id);
                UninstallPlugin::RemoveInstalled { directory: directory(&id) }
            },
            (
                UninstallPlugin::RemoveInstalled { .. },
                RemovalReply::Removed(answer),
            ) => match remove_directory(answer) {
                Ok(_) => UninstallPlugin::Done(Ok(())),
                Err(failure) => UninstallPlugin::Done(Err(PluginError::Io(failure))),
            },
            (state, _) => state,
        }
    }
}

/// The entries of the catalog after the first `count` answers of a scan.
pub open spec fn scanned(
    states: Seq<OpenPlugins>,
    replies: Seq<ScanReply>,
    count: nat,
) -> Map<Seq<char>, InstalledPlugin>
    decreases count,
{
    if count == 0 {
        Map::empty()
    } else {
        let before = scanned(states, replies, (count - 1) as nat);
        match (states[count - 1], replies[count - 1]) {
            (
                OpenPlugins::ReadMetadata { .. },
                ScanReply::Metadata(Ok(Ok(info))),
            ) => before.insert(info@.manifest.id, InstalledPlugin::Uncompiled(info)),
            _ => before,
        }
    }
}

/// A catalog opens with the metadata of every package that was scanned, each
/// under its own identifier, and nothing compiled.
pub proof fn law_open_takes_all_scanned(
    states: Seq<OpenPlugins>,
    replies: Seq<ScanReply>,
    at: nat,
)
    requires
        crate::runs::is_run(
            |s: OpenPlugins, r: ScanReply, t: OpenPlugins| scan_next(s, r, t),
            states,
            replies,
        ),
        states[0] is ReadInstalled,
        at < states.len(),
    ensures
        forall|id: Seq<char>| #[trigger]
            scanned(states, replies, at).contains_key(id) ==> {
                &&& scanned(states, replies, at)[id] is Uncompiled
                &&& crate::catalog::entry_id(scanned(states, replies, at)[id]) == id
            },
        match states[at as int] {
            OpenPlugins::ReadInstalled => scanned(states, replies, at) == Map::<
                Seq<char>,
                InstalledPlugin,
            >::empty(),
            OpenPlugins::NextEntry { found } => found@ == scanned(states, replies, at),
            OpenPlugins::ReadMetadata { found } => found@ == scanned(states, replies, at),
            OpenPlugins::Opened(plugins) => plugins@ == scanned(states, replies, at),
            OpenPlugins::Failed(_) => true,
        },
    decreases at,
{
    if at > 0 {
        law_open_takes_all_scanned(states, replies, (at - 1) as nat);
        let reply = replies[at - 1];
        assert(scan_next(states[at - 1], reply, states[at as int]));
    }
}

/// Removing a package takes its entry out of the catalog, before its directory
/// goes, and leaves every other entry alone.
pub proof fn law_removal_withdraws_first(
    entries: Map<Seq<char>, InstalledPlugin>,
    before: UninstallPlugin,
    reply: RemovalReply,
    entries_after: Map<Seq<char>, InstalledPlugin>,
    after: UninstallPlugin,
)
    requires
        removal_next(entries, before, reply, entries_after, after),
        before is AwaitLifecycle,
        after is RemoveInstalled,
    ensures
        !entries_after.contains_key(before->id@),
        forall|other: Seq<char>|
            other != before->id@ ==> (entries_after.contains_key(other) == entries.contains_key(
                other,
            )) && (#[trigger] entries.contains_key(other) ==> entries_after[other]
                == entries[other]),
{
}

/// A scan begins with nothing found; a directory that is missing is one without
/// packages, and any other failure to read it ends the scan.
pub proof fn law_scan_begins_empty(answer: Result<(), IoFailure>, after: OpenPlugins)
    requires
        scan_next(OpenPlugins::ReadInstalled, ScanReply::Directory(answer), after),
    ensures
        match answer {
            Ok(_) => after matches OpenPlugins::NextEntry { found } && found@.dom() == Set::<
                Seq<char>,
            >::empty(),
            Err(failure) => if failure.not_found {
                match after {
                    OpenPlugins::Opened(plugins) => plugins@.dom() == Set::<Seq<char>>::empty(),
                    OpenPlugins::Failed(error) => error is Runtime,
                    _ => false,
                }
            } else {
                after == OpenPlugins::Failed(PluginError::Io(failure))
            },
        },
{
}

/// What becomes of an entry that a scan meets: what is no directory is passed
/// over, and a directory adds the metadata that was read from it, not yet
/// compiled, under its own identifier, whatever was found before. Metadata that
/// cannot be read or parsed ends the scan with that error.
pub proof fn law_scanned_entry_is_added(
    found: Catalog,
    entry: Result<bool, IoFailure>,
    metadata: Result<Result<PluginInfo, String>, IoFailure>,
    states: (OpenPlugins, OpenPlugins),
)
    requires
        scan_next(OpenPlugins::NextEntry { found }, ScanReply::Entry(Some(entry)), states.0),
        scan_next(states.0, ScanReply::Metadata(metadata), states.1),
    ensures
        match (entry, metadata) {
            (Err(failure), _) => states.1 == OpenPlugins::Failed(PluginError::Io(failure)),
            (Ok(false), _) => states.1 == (OpenPlugins::NextEntry { found }),
            (Ok(true), Err(failure)) => states.1 == OpenPlugins::Failed(PluginError::Io(failure)),
            (Ok(true), Ok(Err(error))) => states.1 == OpenPlugins::Failed(
                PluginError::ParseMetadata(error),
            ),
            (Ok(true), Ok(Ok(info))) => {
                &&& states.0 == (OpenPlugins::ReadMetadata { found })
                &&& states.1 matches OpenPlugins::NextEntry { found: grown } && grown@
                    == found@.insert(info.manifest.id@, InstalledPlugin::Uncompiled(info))
            },
        },
{
}

/// The catalog opens with exactly what was found, by a metered compiler, unless
/// there is no compiler.
pub proof fn law_scan_ends_with_what_was_found(found: Catalog, after: OpenPlugins)
    requires
        scan_next(OpenPlugins::NextEntry { found }, ScanReply::Entry(None), after),
    ensures
        match after {
            OpenPlugins::Opened(plugins) => {
                &&& plugins@ == found@
                &&& crate::runtime::engine_settings(plugins.compiler().compiler()) == (true, true)
            },
            OpenPlugins::Failed(error) => error is Runtime,
            _ => false,
        },
{
}

/// An answer to something that a scan did not ask for leaves it as it is.
pub proof fn law_scan_ignores_other_answers(
    before: OpenPlugins,
    reply: ScanReply,
    after: OpenPlugins,
)
    requires
        scan_next(before, reply, after),
        !(before is ReadInstalled && reply is Directory),
        !(before is NextEntry && reply is Entry),
        !(before is ReadMetadata && reply is Metadata),
    ensures
        after == before,
{
}

/// A removal takes the plugin's entry, and no other, out of the catalog, asks to
/// remove the directory of that plugin alone, and comes to what that comes to:
/// a directory that is missing is as good as removed.
pub proof fn law_removal_comes_to_its_steps(
    id: String,
    removed: Result<(), IoFailure>,
    locking: (Map<Seq<char>, InstalledPlugin>, Map<Seq<char>, InstalledPlugin>),
    removing: (Map<Seq<char>, InstalledPlugin>, Map<Seq<char>, InstalledPlugin>),
    states: (UninstallPlugin, UninstallPlugin),
)
    requires
        removal_next(
            locking.0,
            UninstallPlugin::AwaitLifecycle { id },
            RemovalReply::Locked,
            locking.1,
            states.0,
        ),
        removal_next(
            removing.0,
            states.0,
            RemovalReply::Removed(removed),
            removing.1,
            states.1,
        ),
    ensures
        locking.1 == locking.0.remove(id@),
        removing.1 == removing.0,
        states.0 matches UninstallPlugin::RemoveInstalled { directory } && directory@.len() == 2
            && directory@[0]@ == "installed"@ && directory@[1]@ == id@,
        match removed {
            Err(failure) if !failure.not_found => states.1 == UninstallPlugin::Done(
                Err(PluginError::Io(failure)),
            ),
            _ => states.1 == UninstallPlugin::Done(Ok(())),
        },
{
    let directory = states.0->directory@;
    assert(crate::text::texts(directory).len() == 2);
    assert(crate::text::texts(directory)[0] == directory[0]@);
    assert(crate::text::texts(directory)[1] == directory[1]@);
}

/// An answer to something that a removal did not ask for changes neither the
/// catalog nor the removal.
pub proof fn law_removal_ignores_other_answers(
    entries: Map<Seq<char>, InstalledPlugin>,
    before: UninstallPlugin,
    reply: RemovalReply,
    entries_after: Map<Seq<char>, InstalledPlugin>,
    after: UninstallPlugin,
)
    requires
        removal_next(entries, before, reply, entries_after, after),
        !(before is AwaitLifecycle && reply is Locked),
        !(before is RemoveInstalled && reply is Removed),
    ensures
        entries_after == entries,
        after == before,
{
}

/// What a lookup tells of an identifier is what the list tells of it: the same
/// metadata, and nothing exactly where the list has nothing.
pub proof fn law_lookup_agrees_with_the_list(
    entries: Map<Seq<char>, InstalledPlugin>,
    id: Seq<char>,
    out: Option<PluginInfo>,
    infos: Seq<PluginInfo>,
)
    requires
        is_lookup(entries, id, out),
        crate::catalog::is_listing(entries, infos),
    ensures
        match out {
            Some(info) => info.manifest.id@ == id && exists|i: int|
                0 <= i < infos.len() && (#[trigger] infos[i])@ == info@,
            None => forall|i: int|
                0 <= i < infos.len() ==> (#[trigger] infos[i]).manifest.id@ != id,
        },
{
    crate::catalog::law_listing_tells_of_each_entry(entries, infos);
    if let Some(info) = out {
        let i = choose|i: int| 0 <= i < infos.len() && (#[trigger] infos[i]).manifest.id@ == id;
        assert(infos[i]@ == info@);
    }
}

}
