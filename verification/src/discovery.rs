//! Opening a manager: discovering the installed packages and initializing each
//! of them.

use std::sync::Arc;

use vstd::prelude::*;

use crate::adapters::{share, AdapterAction, PluginAdapters, PluginHandle};
use crate::error::{Error, IoFailure};
use crate::ids::PluginId;
use crate::manager::{
    data_directory, installed_directory, staging_directory, PluginEntry, PluginManager,
};
use crate::package::ValidatedPackage;

verus! {

broadcast use {vstd::string::group_string_axioms, vstd::std_specs::hash::group_hash_axioms};

/// Why an entry of the installation directory was passed over.
#[derive(Debug)]
pub enum Skip {
    /// It is no directory.
    NotADirectory,
    /// Its name denotes no plugin identity.
    NotAnIdentity,
    /// It holds no valid package.
    InvalidPackage(Error),
    /// It holds the package of another plugin.
    OtherIdentity(PluginId),
}

/// An entry found in the installation directory.
#[derive(Debug)]
pub struct FoundEntry {
    pub is_directory: bool,
    /// Its name, where that is text.
    pub name: Option<String>,
}

/// Opening a manager: what to do next.
#[derive(Debug)]
pub enum OpenManager<H> {
    /// Create the directory of installed packages.
    CreateInstalled,
    /// Create the directory of private data.
    CreateData,
    /// Create the directory where packages are prepared.
    CreateStaging,
    /// Begin to read the directory of installed packages.
    ReadInstalled,
    /// Read its next entry.
    NextEntry {
        discovered: PluginManager<H>,
        /// Why the last entry was passed over, if it was.
        skipped: Option<Skip>,
    },
    /// Validate the package that the entry holds.
    Validate { discovered: PluginManager<H>, id: PluginId },
    /// Load the package.
    Load { discovered: PluginManager<H>, package: ValidatedPackage },
    /// Change the registry of account providers.
    Register { discovered: PluginManager<H>, adapter: AdapterAction<H> },
    /// The manager is open.
    Opened(PluginManager<H>),
    /// The manager could not be opened.
    Failed(Error),
}

/// An answer to what an [`OpenManager`] asks for.
#[derive(Debug)]
pub enum OpenReply<H> {
    /// How a directory operation ended.
    Answered(Result<(), IoFailure>),
    /// The next entry of the directory; none at its end.
    Entry(Option<Result<FoundEntry, IoFailure>>),
    /// How validating the package ended.
    Validated(Result<ValidatedPackage, Error>),
    /// The instance that was initialized, or why none was.
    Loaded(Result<H, Error>),
    /// The registry was changed.
    Registered,
}

/// Whether the step after a directory entry was found is the right one.
pub open spec fn is_entry_step<H>(
    discovered: PluginManager<H>,
    entry: FoundEntry,
    after: OpenManager<H>,
) -> bool {
    if !entry.is_directory {
        after == (OpenManager::NextEntry { discovered, skipped: Some(Skip::NotADirectory) })
    } else if entry.name matches Some(name) && (exists|value: u128|
        value != 0 && #[trigger] crate::ids::denotes_uuid(name@, value)) {
        after matches OpenManager::Validate { discovered: kept, id } && kept == discovered
            && id.value() != 0 && crate::ids::denotes_uuid(entry.name->0@, id.value())
    } else {
        after == (OpenManager::NextEntry { discovered, skipped: Some(Skip::NotAnIdentity) })
    }
}

/// Whether a package that could not be loaded has become visible as failed,
/// with its manifest and what the error tells, and nothing else has changed.
pub open spec fn is_shown_as_failed<H>(
    before: Map<u128, PluginEntry<H>>,
    package: ValidatedPackage,
    error: Error,
    after: Map<u128, PluginEntry<H>>,
) -> bool {
    let id = package.manifest.id.value();
    &&& after.contains_key(id)
    &&& after[id] matches PluginEntry::Failed { manifest, error: text } && manifest
        == package.manifest && text@ == crate::error::error_text(error)
    &&& after == before.insert(id, after[id])
}

/// One step of opening a manager. An answer to something else leaves it as it
/// is.
pub open spec fn open_next<H>(
    before: OpenManager<H>,
    reply: OpenReply<H>,
    after: OpenManager<H>,
) -> bool {
    match (before, reply) {
        (OpenManager::CreateInstalled, OpenReply::Answered(Ok(_))) => after
            == OpenManager::<H>::CreateData,
        (OpenManager::CreateData, OpenReply::Answered(Ok(_))) => after
            == OpenManager::<H>::CreateStaging,
        (OpenManager::CreateStaging, OpenReply::Answered(Ok(_))) => after
            == OpenManager::<H>::ReadInstalled,
        (OpenManager::ReadInstalled, OpenReply::Answered(Ok(_))) => {
            after matches OpenManager::NextEntry { discovered, skipped } && discovered@
                == Map::<u128, PluginEntry<H>>::empty() && skipped is None
        },
        (OpenManager::CreateInstalled, OpenReply::Answered(Err(failure))) => after
            == OpenManager::<H>::Failed(Error::Io(failure)),
        (OpenManager::CreateData, OpenReply::Answered(Err(failure))) => after
            == OpenManager::<H>::Failed(Error::Io(failure)),
        (OpenManager::CreateStaging, OpenReply::Answered(Err(failure))) => after
            == OpenManager::<H>::Failed(Error::Io(failure)),
        (OpenManager::ReadInstalled, OpenReply::Answered(Err(failure))) => after
            == OpenManager::<H>::Failed(Error::Io(failure)),
        (OpenManager::NextEntry { discovered, .. }, OpenReply::Entry(None)) => after
            == OpenManager::<H>::Opened(discovered),
        (OpenManager::NextEntry { .. }, OpenReply::Entry(Some(Err(failure)))) => after
            == OpenManager::<H>::Failed(Error::Io(failure)),
        (
            OpenManager::NextEntry { discovered, .. },
            OpenReply::Entry(Some(Ok(entry))),
        ) => is_entry_step(discovered, entry, after),
        (OpenManager::Validate { discovered, .. }, OpenReply::Validated(Err(error))) => after
            == (OpenManager::NextEntry { discovered, skipped: Some(Skip::InvalidPackage(error)) }),
        (
            OpenManager::Validate { discovered, id },
            OpenReply::Validated(Ok(package)),
        ) => if id.value() == package.manifest.id.value() {
            after == (OpenManager::Load { discovered, package })
        } else {
            after == (OpenManager::NextEntry {
                discovered,
                skipped: Some(Skip::OtherIdentity(package.manifest.id)),
            })
        },
        (OpenManager::Load { discovered, package }, OpenReply::Loaded(Ok(instance))) => {
            after matches OpenManager::Register { discovered: grown, adapter }
                && crate::manager::is_shown_as_loaded(discovered@, package, instance, grown@)
                && crate::adapters::is_contribution(
                grown@[package.manifest.id.value()]->Loaded_0,
                adapter,
            )
        },
        (OpenManager::Load { discovered, package }, OpenReply::Loaded(Err(error))) => {
            after matches OpenManager::NextEntry { discovered: grown, skipped } && skipped is None
                && is_shown_as_failed(discovered@, package, error, grown@)
        },
        (OpenManager::Register { discovered, .. }, OpenReply::Registered) => after
            == (OpenManager::NextEntry { discovered, skipped: None }),
        _ => after == before,
    }
}

impl<H> PluginManager<H> {
    /// Begins to discover and initialize the packages beneath the plugin
    /// directory. Invalid packages are skipped independently; valid packages
    /// whose components fail to load remain visible as failed.
    pub fn open() -> (out: OpenManager<H>)
        ensures
            out == OpenManager::<H>::CreateInstalled,
    {
        OpenManager::CreateInstalled
    }
}

/// The directory to create or read next, as the names that lead to it from the
/// host's data directory.
pub open spec fn opening_directory<H>(state: OpenManager<H>) -> Option<Seq<Seq<char>>> {
    match state {
        OpenManager::CreateInstalled => Some(crate::manager::root_path().push("installed"@)),
        OpenManager::CreateData => Some(crate::manager::root_path().push("data"@)),
        OpenManager::CreateStaging => Some(crate::manager::root_path().push("staging"@)),
        OpenManager::ReadInstalled => Some(crate::manager::root_path().push("installed"@)),
        _ => None,
    }
}

impl<H> OpenManager<H> {
    /// The directory to create or read next, as the names that lead to it from
    /// the host's data directory.
    pub fn directory(&self) -> (out: Option<Vec<String>>)
        ensures
            match (opening_directory(*self), out) {
                (Some(path), Some(names)) => crate::text::texts(names@) == path,
                (None, None) => true,
                _ => false,
            },
    {
        match self {
            OpenManager::CreateInstalled => Some(installed_directory()),
            OpenManager::CreateData => Some(data_directory()),
            OpenManager::CreateStaging => Some(staging_directory()),
            OpenManager::ReadInstalled => Some(installed_directory()),
            _ => None,
        }
    }

    /// Takes the answer to what was asked for.
    pub fn resume(self, reply: OpenReply<H>) -> (out: OpenManager<H>)
        ensures
            open_next(self, reply, out),
    {
        match (self, reply) {
            (
                OpenManager::CreateInstalled,
                OpenReply::Answered(answer),
            ) => match answer {
                Ok(_) => OpenManager::CreateData,
                Err(failure) => OpenManager::Failed(Error::Io(failure)),
            },
            (OpenManager::CreateData, OpenReply::Answered(answer)) => match answer {
                Ok(_) => OpenManager::CreateStaging,
                Err(failure) => OpenManager::Failed(Error::Io(failure)),
            },
            (OpenManager::CreateStaging, OpenReply::Answered(answer)) => match answer {
                Ok(_) => OpenManager::ReadInstalled,
                Err(failure) => OpenManager::Failed(Error::Io(failure)),
            },
            (OpenManager::ReadInstalled, OpenReply::Answered(answer)) => match answer {
                Ok(_) => OpenManager::NextEntry { discovered: PluginManager::empty(), skipped: None },
                Err(failure) => OpenManager::Failed(Error::Io(failure)),
            },
            (
                OpenManager::NextEntry { discovered, .. },
                OpenReply::Entry(None),
            ) => OpenManager::Opened(discovered),
            (
                OpenManager::NextEntry { .. },
                OpenReply::Entry(Some(Err(failure))),
            ) => OpenManager::Failed(Error::Io(failure)),
            (OpenManager::NextEntry { discovered, .. }, OpenReply::Entry(Some(Ok(entry)))) => {
                if !entry.is_directory {
                    return OpenManager::NextEntry {
                        discovered,
                        skipped: Some(Skip::NotADirectory),
                    };
                }
                let id = match &entry.name {
                    Some(name) => PluginId::parse(name),
                    None => None,
                };
                match id {
                    Some(id) => {
                        assert(crate::ids::denotes_uuid(entry.name->0@, id.value()));
                        OpenManager::Validate { discovered, id }
                    },
                    None => OpenManager::NextEntry {
                        discovered,
                        skipped: Some(Skip::NotAnIdentity),
                    },
                }
            },
            (
                OpenManager::Validate { discovered, .. },
                OpenReply::Validated(Err(error)),
            ) => OpenManager::NextEntry { discovered, skipped: Some(Skip::InvalidPackage(error)) },
            (OpenManager::Validate { discovered, id }, OpenReply::Validated(Ok(package))) => {
                if id.same(&package.manifest.id) {
                    OpenManager::Load { discovered, package }
                } else {
                    OpenManager::NextEntry {
                        discovered,
                        skipped: Some(Skip::OtherIdentity(package.manifest.id)),
                    }
                }
            },
            (OpenManager::Load { mut discovered, package }, OpenReply::Loaded(Ok(instance))) => {
                let handle = Arc::new(PluginHandle { manifest: package.manifest, instance });
                let adapter = PluginAdapters::register(share(&handle));
                discovered.put(PluginEntry::Loaded(handle));
                OpenManager::Register { discovered, adapter }
            },
            (OpenManager::Load { mut discovered, package }, OpenReply::Loaded(Err(error))) => {
                let error = error.text();
                discovered.put(PluginEntry::Failed { manifest: package.manifest, error });
                OpenManager::NextEntry { discovered, skipped: None }
            },
            (OpenManager::Register { discovered, .. }, OpenReply::Registered) =>
                OpenManager::NextEntry { discovered, skipped: None },
            (state, _) => state,
        }
    }
}

/// The plugins that were found so far.
pub open spec fn found<H>(state: OpenManager<H>) -> Map<u128, PluginEntry<H>> {
    match state {
        OpenManager::NextEntry { discovered, .. } => discovered@,
        OpenManager::Validate { discovered, .. } => discovered@,
        OpenManager::Load { discovered, .. } => discovered@,
        OpenManager::Register { discovered, .. } => discovered@,
        OpenManager::Opened(manager) => manager@,
        _ => Map::empty(),
    }
}

/// The directory that a package is installed in is one that discovery takes
/// for the same plugin.
pub proof fn law_package_directory_is_discovered<H>(
    id: PluginId,
    entry: FoundEntry,
    discovered: PluginManager<H>,
    after: OpenManager<H>,
)
    requires
        id.value() != 0,
        entry.is_directory,
        entry.name matches Some(name) && name@ == crate::ids::hyphenated(id.value()),
        is_entry_step(discovered, entry, after),
    ensures
        after matches OpenManager::Validate { discovered: kept, id: taken } && kept == discovered
            && taken.value() == id.value(),
{
    crate::ids::law_written_uuid_denotes_itself(id.value());
    let name = entry.name->0@;
    assert(crate::ids::denotes_uuid(name, id.value()));
    assert(after is Validate);
    crate::ids::law_text_denotes_one_uuid(name, id.value(), after->Validate_id.value());
}

/// An entry that holds no valid package of its own changes nothing of what was
/// found, and discovery goes on with the next.
pub proof fn law_invalid_packages_are_skipped<H>(
    before: OpenManager<H>,
    reply: OpenReply<H>,
    after: OpenManager<H>,
)
    requires
        open_next(before, reply, after),
        match (before, reply) {
            (OpenManager::NextEntry { .. }, OpenReply::Entry(Some(Ok(entry)))) =>
                !entry.is_directory || entry.name is None || !(exists|value: u128|
                value != 0 && #[trigger] crate::ids::denotes_uuid(entry.name->0@, value)),
            (OpenManager::Validate { .. }, OpenReply::Validated(Err(_))) => true,
            (OpenManager::Validate { id, .. }, OpenReply::Validated(Ok(package))) =>
                package.manifest.id.value() != id.value(),
            _ => false,
        },
    ensures
        after matches OpenManager::NextEntry { skipped: Some(_), .. },
        found(after) == found(before),
{
}

/// A valid package becomes visible whether or not its component loads: as
/// loaded, or as failed with its manifest and the reason. No other plugin is
/// touched.
pub proof fn law_valid_packages_are_visible<H>(
    package: ValidatedPackage,
    before: OpenManager<H>,
    loaded: Result<H, Error>,
    after: OpenManager<H>,
)
    requires
        before matches OpenManager::Load { package: valid, .. } && valid == package,
        open_next(before, OpenReply::Loaded(loaded), after),
    ensures
        match loaded {
            Ok(instance) => crate::manager::is_shown_as_loaded(
                found(before),
                package,
                instance,
                found(after),
            ),
            Err(error) => is_shown_as_failed(found(before), package, error, found(after)),
        },
{
}

/// What was found once stays found, unless opening fails as a whole.
pub proof fn law_found_plugins_stay<H>(
    states: Seq<OpenManager<H>>,
    replies: Seq<OpenReply<H>>,
    early: int,
    late: int,
)
    requires
        crate::runs::is_run(
            |s: OpenManager<H>, r: OpenReply<H>, t: OpenManager<H>| open_next(s, r, t),
            states,
            replies,
        ),
        0 <= early <= late < states.len(),
        states[late] !is Failed,
    ensures
        states[early] !is Failed,
        found(states[early]).dom().subset_of(found(states[late]).dom()),
    decreases late - early,
{
    if early < late {
        let reply = replies[late - 1];
        assert(open_next(states[late - 1], reply, states[late]));
        law_found_plugins_stay(states, replies, early, late - 1);
    }
}

/// Every plugin is found under the identity of its own manifest.
pub proof fn law_found_plugins_are_well_keyed<H>(
    states: Seq<OpenManager<H>>,
    replies: Seq<OpenReply<H>>,
    at: int,
)
    requires
        crate::runs::is_run(
            |s: OpenManager<H>, r: OpenReply<H>, t: OpenManager<H>| open_next(s, r, t),
            states,
            replies,
        ),
        states[0] is CreateInstalled,
        0 <= at < states.len(),
    ensures
        crate::manager::well_keyed(found(states[at])),
{
    crate::runs::lemma_invariant_holds_along_run(
        |s: OpenManager<H>, r: OpenReply<H>, t: OpenManager<H>| open_next(s, r, t),
        |s: OpenManager<H>| crate::manager::well_keyed(found(s)),
        states,
        replies,
        at,
    );
}

/// The identities under which plugins provide accounts after the first `count`
/// answers of a run, when none was registered before.
pub open spec fn providers_after<H>(
    states: Seq<OpenManager<H>>,
    replies: Seq<OpenReply<H>>,
    count: nat,
) -> Set<u128>
    decreases count,
{
    if count == 0 {
        Set::empty()
    } else {
        let before = providers_after(states, replies, (count - 1) as nat);
        match (states[count - 1], replies[count - 1]) {
            (
                OpenManager::Register { adapter, .. },
                OpenReply::Registered,
            ) => crate::adapters::providers_next(before, adapter),
            _ => before,
        }
    }
}

/// Whether a package that fails to load is one that another directory has
/// already made an account provider of.
pub open spec fn is_lost_provider<H>(state: OpenManager<H>, reply: OpenReply<H>) -> bool {
    match (state, reply) {
        (OpenManager::Load { discovered, package }, OpenReply::Loaded(Err(_))) => {
            let id = package.manifest.id.value();
            &&& discovered@.contains_key(id)
            &&& discovered@[id] matches PluginEntry::Loaded(handle)
                && handle.manifest.storefront_account
        },
        _ => false,
    }
}

/// Unless a second directory of an account provider fails to load, exactly the
/// loaded plugins that provide storefront accounts are registered once the
/// manager is open.
pub proof fn law_discovery_registers_providers<H>(
    states: Seq<OpenManager<H>>,
    replies: Seq<OpenReply<H>>,
    at: nat,
)
    requires
        crate::runs::is_run(
            |s: OpenManager<H>, r: OpenReply<H>, t: OpenManager<H>| open_next(s, r, t),
            states,
            replies,
        ),
        states[0] is CreateInstalled,
        forall|i: int|
            0 <= i < replies.len() ==> !#[trigger] is_lost_provider(states[i], replies[i]),
        at < states.len(),
    ensures
        match states[at as int] {
            OpenManager::Register { discovered, adapter } => crate::manager::providers_match(
                discovered@,
                crate::adapters::providers_next(providers_after(states, replies, at), adapter),
            ),
            OpenManager::Failed(_) => true,
            _ => crate::manager::providers_match(
                found(states[at as int]),
                providers_after(states, replies, at),
            ),
        },
    decreases at,
{
    if at > 0 {
        law_discovery_registers_providers(states, replies, (at - 1) as nat);
        let reply = replies[at - 1];
        assert(open_next(states[at - 1], reply, states[at as int]));
        assert(!is_lost_provider(states[at - 1], reply));
    }
}

/// Whether an answer is a directory whose name denotes an identity.
pub open spec fn is_directory_of<H>(reply: OpenReply<H>, id: u128) -> bool {
    reply matches OpenReply::Entry(Some(Ok(entry))) && entry.is_directory && id != 0 && (
    entry.name matches Some(name) && crate::ids::denotes_uuid(name@, id))
}

/// Whether a run found a directory whose name denotes an identity, checked the
/// package in it next, and found it valid and of that identity.
pub open spec fn is_valid_entry<H>(
    states: Seq<OpenManager<H>>,
    replies: Seq<OpenReply<H>>,
    entry: int,
    checked: int,
    id: u128,
) -> bool {
    &&& 0 <= entry < checked < replies.len()
    &&& states[entry] is NextEntry
    &&& is_directory_of(replies[entry], id)
    &&& states[checked] is Validate
    &&& forall|j: int| entry < j <= checked ==> #[trigger] states[j] == states[checked]
    &&& replies[checked] matches OpenReply::Validated(Ok(package)) && package.manifest.id.value()
        == id
}

/// Whether a run has found a valid package of a plugin by some point.
pub open spec fn has_valid_entry<H>(
    states: Seq<OpenManager<H>>,
    replies: Seq<OpenReply<H>>,
    at: int,
    id: u128,
) -> bool {
    exists|entry: int, checked: int|
        checked < at && #[trigger] is_valid_entry(states, replies, entry, checked, id)
}

/// Whether a run has come to a state from a directory whose name denotes an
/// identity, and has stayed there.
pub open spec fn comes_from_directory<H>(
    states: Seq<OpenManager<H>>,
    replies: Seq<OpenReply<H>>,
    entry: int,
    at: int,
    id: u128,
) -> bool {
    &&& 0 <= entry < at
    &&& states[entry] is NextEntry
    &&& is_directory_of(replies[entry], id)
    &&& forall|j: int| entry < j <= at ==> #[trigger] states[j] == states[at]
}

proof fn lemma_found_has_valid_entry<H>(
    states: Seq<OpenManager<H>>,
    replies: Seq<OpenReply<H>>,
    at: int,
)
    requires
        crate::runs::is_run(
            |s: OpenManager<H>, r: OpenReply<H>, t: OpenManager<H>| open_next(s, r, t),
            states,
            replies,
        ),
        states[0] is CreateInstalled,
        0 <= at < states.len(),
    ensures
        forall|id: u128| #[trigger]
            found(states[at]).contains_key(id) ==> has_valid_entry(states, replies, at, id),
        states[at] matches OpenManager::Validate { id, .. } ==> exists|entry: int| #[trigger]
            comes_from_directory(states, replies, entry, at, id.value()),
        states[at] matches OpenManager::Load { package, .. } ==> has_valid_entry(
            states,
            replies,
            at,
            package.manifest.id.value(),
        ),
    decreases at,
{
    if at > 0 {
        lemma_found_has_valid_entry(states, replies, at - 1);
        let before = states[at - 1];
        let reply = replies[at - 1];
        assert(open_next(before, reply, states[at]));
        assert forall|id: u128| has_valid_entry(states, replies, at - 1, id) implies
            has_valid_entry(states, replies, at, id) by {
            let (entry, checked) = choose|entry: int, checked: int|
                checked < at - 1 && #[trigger] is_valid_entry(states, replies, entry, checked, id);
            assert(is_valid_entry(states, replies, entry, checked, id));
        }
        assert forall|id: u128| #[trigger] found(states[at]).contains_key(id) implies
            has_valid_entry(states, replies, at, id) by {
            if !found(before).contains_key(id) {
                assert(before is Load);
                assert(before->Load_package.manifest.id.value() == id);
            }
            assert(has_valid_entry(states, replies, at - 1, id));
        }
        if let OpenManager::Validate { id, .. } = states[at] {
            if before is Validate {
                let entry = choose|entry: int| #[trigger]
                    comes_from_directory(states, replies, entry, at - 1, id.value());
                assert(comes_from_directory(states, replies, entry, at, id.value()));
            } else {
                assert(comes_from_directory(states, replies, at - 1, at, id.value()));
            }
        }
        if let (OpenManager::Validate { id, .. }, OpenReply::Validated(Ok(package))) = (
            before,
            reply,
        ) {
            if states[at] is Load {
                let entry = choose|entry: int| #[trigger]
                    comes_from_directory(states, replies, entry, at - 1, id.value());
                assert(is_valid_entry(states, replies, entry, at - 1, id.value()));
            }
        }
    }
}

proof fn lemma_valid_entry_is_found<H>(
    states: Seq<OpenManager<H>>,
    replies: Seq<OpenReply<H>>,
    loading: int,
    at: int,
)
    requires
        crate::runs::is_run(
            |s: OpenManager<H>, r: OpenReply<H>, t: OpenManager<H>| open_next(s, r, t),
            states,
            replies,
        ),
        0 <= loading <= at < states.len(),
        states[loading] is Load,
    ensures
        states[at] == states[loading] || states[at] is Failed || found(states[at]).contains_key(
            states[loading]->Load_package.manifest.id.value(),
        ),
    decreases at,
{
    if loading < at {
        lemma_valid_entry_is_found(states, replies, loading, at - 1);
        let reply = replies[at - 1];
        assert(open_next(states[at - 1], reply, states[at]));
    }
}

/// A manager that is open lists a plugin exactly if some directory's name
/// denotes its identity and holds a valid package of that identity.
pub proof fn law_open_manager_lists_valid_packages<H>(
    states: Seq<OpenManager<H>>,
    replies: Seq<OpenReply<H>>,
    at: int,
    infos: Seq<crate::manager::PluginInfo>,
    id: u128,
)
    requires
        crate::runs::is_run(
            |s: OpenManager<H>, r: OpenReply<H>, t: OpenManager<H>| open_next(s, r, t),
            states,
            replies,
        ),
        states[0] is CreateInstalled,
        0 <= at < states.len(),
        states[at] matches OpenManager::Opened(manager) && crate::manager::is_listing(
            manager@,
            infos,
        ),
    ensures
        crate::manager::is_listed(infos, id) <==> has_valid_entry(states, replies, at, id),
{
    law_found_plugins_are_well_keyed(states, replies, at);
    crate::manager::law_listing_is_complete(found(states[at]), infos, id);
    lemma_found_has_valid_entry(states, replies, at);
    if has_valid_entry(states, replies, at, id) {
        let (entry, checked) = choose|entry: int, checked: int|
            checked < at && #[trigger] is_valid_entry(states, replies, entry, checked, id);
        let found_entry = replies[entry];
        assert(open_next(states[entry], found_entry, states[entry + 1]));
        let name = found_entry->Entry_0->0->Ok_0.name->0@;
        assert(crate::ids::denotes_uuid(name, id));
        assert(states[entry + 1] == states[checked]);
        crate::ids::law_text_denotes_one_uuid(name, id, states[checked]->Validate_id.value());
        let verdict = replies[checked];
        assert(open_next(states[checked], verdict, states[checked + 1]));
        lemma_valid_entry_is_found(states, replies, checked + 1, at);
    }
}

/// Opening creates the three directories and then reads the first of them, each
/// only if what came before has succeeded; the first failure ends it. Nothing
/// is found before that.
pub proof fn law_opening_comes_to_its_directories<H>(
    answers: (
        Result<(), IoFailure>,
        Result<(), IoFailure>,
        Result<(), IoFailure>,
        Result<(), IoFailure>,
    ),
    states: (OpenManager<H>, OpenManager<H>, OpenManager<H>, OpenManager<H>),
)
    requires
        open_next(OpenManager::CreateInstalled, OpenReply::Answered(answers.0), states.0),
        open_next(states.0, OpenReply::Answered(answers.1), states.1),
        open_next(states.1, OpenReply::Answered(answers.2), states.2),
        open_next(states.2, OpenReply::Answered(answers.3), states.3),
    ensures
        match answers {
            (Err(failure), _, _, _) => states.3 == OpenManager::<H>::Failed(Error::Io(failure)),
            (Ok(_), Err(failure), _, _) => states.0 is CreateData && states.3 == OpenManager::<
                H,
            >::Failed(Error::Io(failure)),
            (Ok(_), Ok(_), Err(failure), _) => states.1 is CreateStaging && states.3
                == OpenManager::<H>::Failed(Error::Io(failure)),
            (Ok(_), Ok(_), Ok(_), Err(failure)) => states.2 is ReadInstalled && states.3
                == OpenManager::<H>::Failed(Error::Io(failure)),
            (Ok(_), Ok(_), Ok(_), Ok(_)) => {
                &&& states.0 is CreateData
                &&& states.1 is CreateStaging
                &&& states.2 is ReadInstalled
                &&& states.3 matches OpenManager::NextEntry { discovered, skipped } && skipped
                    is None && discovered@.dom() == Set::<u128>::empty()
            },
        },
{
}

/// What becomes of an entry of the installation directory, whatever was found
/// before: what is no directory, has no identity for a name, holds no valid
/// package or that of another plugin is passed over for that reason. Otherwise
/// the plugin is found, as loaded with its instance or as failed with the
/// error's text, in the place of one found before, and no other is touched.
pub proof fn law_entry_comes_to_its_steps<H>(
    discovered: PluginManager<H>,
    skipped: Option<Skip>,
    entry: FoundEntry,
    validated: Result<ValidatedPackage, Error>,
    loaded: Result<H, Error>,
    states: (OpenManager<H>, OpenManager<H>, OpenManager<H>, OpenManager<H>),
    id: u128,
)
    requires
        open_next(
            OpenManager::NextEntry { discovered, skipped },
            OpenReply::Entry(Some(Ok(entry))),
            states.0,
        ),
        open_next(states.0, OpenReply::Validated(validated), states.1),
        open_next(states.1, OpenReply::Loaded(loaded), states.2),
        open_next(states.2, OpenReply::Registered, states.3),
        entry.name matches Some(name) ==> (crate::ids::denotes_uuid(name@, id) || forall|value: u128|
            !crate::ids::denotes_uuid(name@, value)),
    ensures
        if !entry.is_directory {
            states.3 == (OpenManager::NextEntry { discovered, skipped: Some(Skip::NotADirectory) })
        } else if entry.name is None || id == 0 || !crate::ids::denotes_uuid(entry.name->0@, id) {
            states.3 == (OpenManager::NextEntry { discovered, skipped: Some(Skip::NotAnIdentity) })
        } else {
            &&& states.0 matches OpenManager::Validate { id: taken, .. } && taken.value() == id
            &&& match (validated, loaded) {
                (Err(error), _) => states.3 == (OpenManager::NextEntry {
                    discovered,
                    skipped: Some(Skip::InvalidPackage(error)),
                }),
                (Ok(package), loaded) => if package.manifest.id.value() != id {
                    states.3 == (OpenManager::NextEntry {
                        discovered,
                        skipped: Some(Skip::OtherIdentity(package.manifest.id)),
                    })
                } else {
                    &&& states.1 == (OpenManager::<H>::Load { discovered, package })
                    &&& states.3 matches OpenManager::NextEntry { discovered: grown, skipped: None }
                        && {
                        &&& grown@.contains_key(id)
                        &&& grown@ == discovered@.insert(id, grown@[id])
                        &&& match loaded {
                            Ok(instance) => {
                                &&& grown@[id] matches PluginEntry::Loaded(handle)
                                    && handle.manifest == package.manifest && handle.instance
                                    == instance
                                &&& states.2 matches OpenManager::Register { adapter, .. }
                                    && match adapter {
                                    AdapterAction::Register(provider) => {
                                        &&& package.manifest.storefront_account
                                        &&& provider.plugin() == grown@[id]->Loaded_0
                                    },
                                    AdapterAction::Unregister(dropped) => {
                                        &&& !package.manifest.storefront_account
                                        &&& dropped.value() == id
                                    },
                                }
                            },
                            Err(error) => grown@[id] matches PluginEntry::Failed {
                                manifest,
                                error: text,
                            } && manifest == package.manifest && text@ == crate::error::error_text(
                                error,
                            ),
                        }
                    }
                },
            }
        },
{
    if entry.is_directory {
        if let Some(name) = entry.name {
            if crate::ids::denotes_uuid(name@, id) {
                if id != 0 {
                    crate::ids::law_text_denotes_one_uuid(
                        name@,
                        id,
                        states.0->Validate_id.value(),
                    );
                } else {
                    assert forall|value: u128| value != 0 implies !crate::ids::denotes_uuid(
                        name@,
                        value,
                    ) by {
                        if crate::ids::denotes_uuid(name@, value) {
                            crate::ids::law_text_denotes_one_uuid(name@, id, value);
                        }
                    }
                }
            }
        }
    }
}

/// The manager opens with exactly the plugins that were found when the
/// directory has no more entries; an entry that cannot be read fails it.
pub proof fn law_opening_ends_with_what_was_found<H>(
    discovered: PluginManager<H>,
    skipped: Option<Skip>,
    failure: IoFailure,
    ended: OpenManager<H>,
    failed: OpenManager<H>,
)
    requires
        open_next(
            OpenManager::NextEntry { discovered, skipped },
            OpenReply::Entry(None),
            ended,
        ),
        open_next(
            OpenManager::NextEntry { discovered, skipped },
            OpenReply::Entry(Some(Err(failure))),
            failed,
        ),
    ensures
        ended == OpenManager::Opened(discovered),
        failed == OpenManager::<H>::Failed(Error::Io(failure)),
{
}

/// An answer to something that opening did not ask for leaves it as it is, and
/// so does every answer once it has ended.
pub proof fn law_opening_ignores_other_answers<H>(
    before: OpenManager<H>,
    reply: OpenReply<H>,
    after: OpenManager<H>,
)
    requires
        open_next(before, reply, after),
        match before {
            OpenManager::CreateInstalled => reply !is Answered,
            OpenManager::CreateData => reply !is Answered,
            OpenManager::CreateStaging => reply !is Answered,
            OpenManager::ReadInstalled => reply !is Answered,
            OpenManager::NextEntry { .. } => reply !is Entry,
            OpenManager::Validate { .. } => reply !is Validated,
            OpenManager::Load { .. } => reply !is Loaded,
            OpenManager::Register { .. } => reply !is Registered,
            OpenManager::Opened(_) => true,
            OpenManager::Failed(_) => true,
        },
    ensures
        after == before,
{
}

/// Opening reads the very directory that packages are installed in, after it and
/// those of private data and of staging were created; all of them lie beneath
/// the directory that the plugins share, and they are three.
pub proof fn law_opening_reads_where_packages_are_installed<H>(state: OpenManager<H>)
    ensures
        opening_directory(OpenManager::<H>::ReadInstalled) == Some(seq!["plugins"@, "installed"@]),
        opening_directory(OpenManager::<H>::CreateInstalled) == opening_directory(
            OpenManager::<H>::ReadInstalled,
        ),
        opening_directory(OpenManager::<H>::CreateData) == Some(seq!["plugins"@, "data"@]),
        opening_directory(OpenManager::<H>::CreateStaging) == Some(seq!["plugins"@, "staging"@]),
        opening_directory(state) is Some <==> (state is CreateInstalled || state is CreateData
            || state is CreateStaging || state is ReadInstalled),
{
    let root = crate::manager::root_path();
    assert(root.push("installed"@) =~= seq!["plugins"@, "installed"@]);
    assert(root.push("data"@) =~= seq!["plugins"@, "data"@]);
    assert(root.push("staging"@) =~= seq!["plugins"@, "staging"@]);
}

}
