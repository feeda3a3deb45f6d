//! Installed plugins and their initialized instances. Installation is the
//! activation mechanism: every valid installed package is initialized when the
//! manager is opened.

use std::collections::HashMap;
use std::sync::Arc;

use vstd::prelude::*;

use crate::adapters::{share, AdapterAction, PluginAdapters, PluginHandle};
use crate::error::{remove_directory, Error, IoFailure};
use crate::ids::PluginId;
use crate::package::{PackageManifest, ValidatedPackage};
use crate::text::{appended, joined};

verus! {

broadcast use {vstd::string::group_string_axioms, vstd::std_specs::hash::group_hash_axioms};

/// How loading an installed plugin ended.
#[derive(Debug, PartialEq, Eq)]
pub enum PluginStatus {
    /// Initialization succeeded and the instance remains loaded.
    Loaded,
    /// The package remains installed, but compilation or initialization failed.
    Failed(String),
}

/// An installed plugin and how loading it ended.
#[derive(Debug, PartialEq, Eq)]
pub struct PluginInfo {
    /// The manifest accepted when the package was discovered or installed.
    pub manifest: PackageManifest,
    /// Whether initialization produced a loaded instance or failed.
    pub status: PluginStatus,
}

impl Clone for PluginStatus {
    fn clone(&self) -> (out: PluginStatus)
        ensures
            out == *self,
    {
        match self {
            PluginStatus::Loaded => PluginStatus::Loaded,
            PluginStatus::Failed(error) => PluginStatus::Failed(error.clone()),
        }
    }
}

impl Clone for PluginInfo {
    fn clone(&self) -> (out: PluginInfo)
        ensures
            out == *self,
    {
        PluginInfo { manifest: self.manifest.clone(), status: self.status.clone() }
    }
}

/// What the manager keeps of an installed plugin.
#[derive(Debug)]
pub enum PluginEntry<H> {
    /// The plugin is loaded.
    Loaded(Arc<PluginHandle<H>>),
    /// The plugin could not be loaded.
    Failed { manifest: PackageManifest, error: String },
}

/// The manifest that an entry goes by.
pub open spec fn entry_manifest<H>(entry: PluginEntry<H>) -> PackageManifest {
    match entry {
        PluginEntry::Loaded(handle) => handle.manifest,
        PluginEntry::Failed { manifest, .. } => manifest,
    }
}

/// The status that an entry shows.
pub open spec fn entry_status<H>(entry: PluginEntry<H>) -> PluginStatus {
    match entry {
        PluginEntry::Loaded(_) => PluginStatus::Loaded,
        PluginEntry::Failed { error, .. } => PluginStatus::Failed(error),
    }
}

/// The instance that an entry holds, if it is loaded.
pub open spec fn entry_handle<H>(entry: Option<PluginEntry<H>>) -> Option<Arc<PluginHandle<H>>> {
    match entry {
        Some(PluginEntry::Loaded(handle)) => Some(handle),
        _ => None,
    }
}

/// What a map holds under a key, if anything.
pub open spec fn entry_at<H>(plugins: Map<u128, PluginEntry<H>>, id: u128) -> Option<
    PluginEntry<H>,
> {
    if plugins.contains_key(id) {
        Some(plugins[id])
    } else {
        None
    }
}

impl<H> PluginEntry<H> {
    /// The manifest that the entry goes by.
    pub fn manifest(&self) -> (out: &PackageManifest)
        ensures
            *out == entry_manifest(*self),
    {
        match self {
            PluginEntry::Loaded(handle) => &handle.manifest,
            PluginEntry::Failed { manifest, .. } => manifest,
        }
    }

    /// The status that the entry shows.
    pub fn status(&self) -> (out: PluginStatus)
        ensures
            out == entry_status(*self),
    {
        match self {
            PluginEntry::Loaded(_) => PluginStatus::Loaded,
            PluginEntry::Failed { error, .. } => PluginStatus::Failed(error.clone()),
        }
    }

    fn into_handle(entry: Option<PluginEntry<H>>) -> (out: Option<Arc<PluginHandle<H>>>)
        ensures
            out == entry_handle(entry),
    {
        match entry {
            Some(PluginEntry::Loaded(handle)) => Some(handle),
            _ => None,
        }
    }
}

/// The directory beneath the host's data directory that all plugins share.
pub open spec fn root_path() -> Seq<Seq<char>> {
    seq!["plugins"@]
}

fn under_root(name: &str) -> (out: Vec<String>)
    ensures
        crate::text::texts(out@) == root_path().push(name@),
{
    let mut out = root_directory();
    let ghost before = out@;
    out.push(name.to_owned());
    assert(crate::text::texts(out@) =~= crate::text::texts(before).push(name@));
    out
}

/// The directory that all plugins share, as the names that lead to it from the
/// host's data directory.
pub fn root_directory() -> (out: Vec<String>)
    ensures
        crate::text::texts(out@) == root_path(),
{
    let out = vec!["plugins".to_owned()];
    assert(crate::text::texts(out@) =~= seq!["plugins"@]);
    out
}

/// The directory of installed packages.
pub fn installed_directory() -> (out: Vec<String>)
    ensures
        crate::text::texts(out@) == root_path().push("installed"@),
{
    under_root("installed")
}

/// The directory of the plugins' private data.
pub fn data_directory() -> (out: Vec<String>)
    ensures
        crate::text::texts(out@) == root_path().push("data"@),
{
    under_root("data")
}

/// The directory where packages are prepared.
pub fn staging_directory() -> (out: Vec<String>)
    ensures
        crate::text::texts(out@) == root_path().push("staging"@),
{
    under_root("staging")
}

/// The directory of a plugin's package.
pub fn package_directory(plugin_id: &PluginId) -> (out: Vec<String>)
    ensures
        crate::text::texts(out@) == root_path().push("installed"@).push(
            crate::ids::hyphenated(plugin_id.value()),
        ),
{
    let mut out = installed_directory();
    let ghost before = out@;
    let name = plugin_id.text();
    out.push(name);
    assert(crate::text::texts(out@) =~= crate::text::texts(before).push(name@));
    out
}

/// The directory of a plugin's private data.
pub fn plugin_data_directory(plugin_id: &PluginId) -> (out: Vec<String>)
    ensures
        crate::text::texts(out@) == root_path().push("data"@).push(
            crate::ids::hyphenated(plugin_id.value()),
        ),
{
    let mut out = data_directory();
    let ghost before = out@;
    let name = plugin_id.text();
    out.push(name);
    assert(crate::text::texts(out@) =~= crate::text::texts(before).push(name@));
    out
}

/// The installed plugins with their initialized instances.
#[derive(Debug)]
pub struct PluginManager<H> {
    plugins: HashMap<u128, PluginEntry<H>>,
}

impl<H> View for PluginManager<H> {
    type V = Map<u128, PluginEntry<H>>;

    closed spec fn view(&self) -> Map<u128, PluginEntry<H>> {
        self.plugins@
    }
}

/// Whether every plugin stands under the identity of its own manifest.
pub open spec fn well_keyed<H>(plugins: Map<u128, PluginEntry<H>>) -> bool {
    forall|id: u128| #[trigger]
        plugins.contains_key(id) ==> entry_manifest(plugins[id]).id.value() == id
}

/// Whether a list tells the manifest and the status of every plugin, once and in
/// some order.
pub open spec fn is_listing<H>(
    plugins: Map<u128, PluginEntry<H>>,
    infos: Seq<PluginInfo>,
) -> bool {
    exists|ids: Seq<u128>|
        {
            &&& #[trigger] ids.no_duplicates()
            &&& ids.to_set() == plugins.dom()
            &&& ids.len() == infos.len()
            &&& forall|i: int|
                #![trigger ids[i]]
                #![trigger infos[i]]
                0 <= i < infos.len() ==> {
                    &&& infos[i].manifest == entry_manifest(plugins[ids[i]])
                    &&& infos[i].status == entry_status(plugins[ids[i]])
                }
        }
}

/// Whether a list tells of a plugin.
pub open spec fn is_listed(infos: Seq<PluginInfo>, id: u128) -> bool {
    exists|i: int| 0 <= i < infos.len() && (#[trigger] infos[i]).manifest.id.value() == id
}

/// A list tells of exactly the plugins that there are.
pub proof fn law_listing_is_complete<H>(
    plugins: Map<u128, PluginEntry<H>>,
    infos: Seq<PluginInfo>,
    id: u128,
)
    requires
        well_keyed(plugins),
        is_listing(plugins, infos),
    ensures
        is_listed(infos, id) <==> plugins.contains_key(id),
{
    let ids = choose|ids: Seq<u128>|
        {
            &&& #[trigger] ids.no_duplicates()
            &&& ids.to_set() == plugins.dom()
            &&& ids.len() == infos.len()
            &&& forall|i: int|
                #![trigger ids[i]]
                #![trigger infos[i]]
                0 <= i < infos.len() ==> {
                    &&& infos[i].manifest == entry_manifest(plugins[ids[i]])
                    &&& infos[i].status == entry_status(plugins[ids[i]])
                }
        };
    if plugins.contains_key(id) {
        assert(ids.to_set().contains(id));
        let i = ids.index_of(id);
        assert(ids[i] == id);
        assert(infos[i].manifest.id.value() == id);
    }
    if is_listed(infos, id) {
        let i = choose|i: int|
            0 <= i < infos.len() && (#[trigger] infos[i]).manifest.id.value() == id;
        assert(ids.to_set().contains(ids[i]));
    }
}

/// Whether a plugin that was loaded from a package has taken its place under the
/// package's identity, with the package's manifest, and nothing else has
/// changed.
pub open spec fn is_shown_as_loaded<H>(
    before: Map<u128, PluginEntry<H>>,
    package: ValidatedPackage,
    instance: H,
    after: Map<u128, PluginEntry<H>>,
) -> bool {
    let id = package.manifest.id.value();
    &&& after.contains_key(id)
    &&& after[id] matches PluginEntry::Loaded(handle) && handle.manifest == package.manifest
        && handle.instance == instance
    &&& after == before.insert(id, after[id])
}

impl<H> PluginManager<H> {
    #[verifier::type_invariant]
    closed spec fn is_well_keyed(self) -> bool {
        well_keyed(self.plugins@)
    }

    /// A manager without plugins.
    pub(crate) fn empty() -> (out: PluginManager<H>)
        ensures
            out@ == Map::<u128, PluginEntry<H>>::empty(),
    {
        PluginManager { plugins: HashMap::new() }
    }

    /// Puts an entry under the identity of its manifest, and hands out what
    /// stood there.
    pub(crate) fn put(&mut self, entry: PluginEntry<H>) -> (out: Option<PluginEntry<H>>)
        ensures
            final(self)@ == old(self)@.insert(entry_manifest(entry).id.value(), entry),
            out == entry_at(old(self)@, entry_manifest(entry).id.value()),
    {
        proof {
            use_type_invariant(&*self);
        }
        let mut plugins: HashMap<u128, PluginEntry<H>> = HashMap::new();
        std::mem::swap(&mut plugins, &mut self.plugins);
        let id: u128 = entry.manifest().id.get();
        let before = plugins.insert(id, entry);
        self.plugins = plugins;
        before
    }

    /// All discovered plugins, in no particular order, each under the identity
    /// of its own manifest.
    pub fn list(&self) -> (out: Vec<PluginInfo>)
        ensures
            well_keyed(self@),
            is_listing(self@, out@),
    {
        proof {
            use_type_invariant(self);
        }
        let mut out: Vec<PluginInfo> = Vec::new();
        let ghost mut ids: Seq<u128> = seq![];
        let ghost all = vstd::std_specs::iter::IteratorSpec::remaining(
            &vstd::std_specs::hash::spec_keys_iter(&self.plugins),
        );
        for id in keys: self.plugins.keys()
            invariant
                keys.seq() == all,
                ids == all.unref().take(keys.index() as int),
                all.unref().to_set() == self@.dom(),
                all.no_duplicates(),
                ids.len() == out@.len(),
                forall|i: int|
                    #![trigger ids[i]]
                    #![trigger out@[i]]
                    0 <= i < out@.len() ==> {
                        &&& out@[i].manifest == entry_manifest(self@[ids[i]])
                        &&& out@[i].status == entry_status(self@[ids[i]])
                    },
        {
            assert(all.unref()[keys.index() as int] == *id);
            assert(all.unref().to_set().contains(*id));
            if let Some(entry) = self.plugins.get(id) {
                out.push(PluginInfo { manifest: entry.manifest().clone(), status: entry.status() });
                proof {
                    ids = ids.push(*id);
                }
            }
        }
        proof {
            assert(ids =~= all.unref());
            assert forall|i: int, j: int|
                0 <= i < ids.len() && 0 <= j < ids.len() && i != j implies ids[i] != ids[j] by {
                assert(all[i] != all[j]);
            }
            assert(ids.no_duplicates());
        }
        out
    }
}

/// Replacing a plugin's instance by a fresh one: what to do next.
#[derive(Debug)]
pub enum Reload<H> {
    /// Validate the package that is installed at this path.
    Validate { id: PluginId, path: Vec<String> },
    /// Load the package.
    Load { package: ValidatedPackage },
    /// Change the registry of account providers and close the instance that
    /// was replaced, if there is one.
    Release { adapter: AdapterAction<H>, replaced: Option<Arc<PluginHandle<H>>> },
    /// Nothing more to do.
    Done(Result<(), Error>),
}

/// An answer to what a [`Reload`] asks for.
#[derive(Debug)]
pub enum ReloadReply<H> {
    /// How validating the package ended.
    Validated(Result<ValidatedPackage, Error>),
    /// The instance that was initialized, or why none was.
    Loaded(Result<H, Error>),
    /// The registry was changed and the instance closed.
    Released,
}

/// One step of a reload: the plugins before and after it, and what to do next.
/// An answer to something else leaves everything as it is.
pub open spec fn reload_next<H>(
    plugins: Map<u128, PluginEntry<H>>,
    before: Reload<H>,
    reply: ReloadReply<H>,
    plugins_after: Map<u128, PluginEntry<H>>,
    after: Reload<H>,
) -> bool {
    match (before, reply) {
        (Reload::Validate { .. }, ReloadReply::Validated(Err(error))) => plugins_after == plugins
            && after == Reload::<H>::Done(Err(error)),
        (Reload::Validate { id, .. }, ReloadReply::Validated(Ok(package))) => plugins_after
            == plugins && if package.manifest.id.value() == id.value() {
            after == (Reload::<H>::Load { package })
        } else {
            after matches Reload::Done(Err(Error::InvalidManifest(text))) && text@
                == "installed directory "@ + crate::ids::hyphenated(id.value())
                + " contains plugin "@ + crate::ids::hyphenated(package.manifest.id.value())
        },
        (Reload::Load { .. }, ReloadReply::Loaded(Err(error))) => plugins_after == plugins && after
            == Reload::<H>::Done(Err(error)),
        (Reload::Load { package }, ReloadReply::Loaded(Ok(instance))) => if plugins.contains_key(
            package.manifest.id.value(),
        ) {
            let id = package.manifest.id.value();
            &&& is_shown_as_loaded(plugins, package, instance, plugins_after)
            &&& after matches Reload::Release { adapter, replaced }
                && crate::adapters::is_contribution(plugins_after[id]->Loaded_0, adapter)
                && replaced == entry_handle(Some(plugins[id]))
        } else {
            &&& plugins_after == plugins
            &&& after == Reload::<H>::Done(Err(Error::PluginNotFound(package.manifest.id)))
        },
        (Reload::Release { .. }, ReloadReply::Released) => plugins_after == plugins && after
            == Reload::<H>::Done(Ok(())),
        _ => plugins_after == plugins && after == before,
    }
}

/// Whether a reload begins as it should: with the package that is installed under
/// the plugin's identity, or at its end if there is no such plugin.
pub open spec fn is_reload_start<H>(
    plugins: Map<u128, PluginEntry<H>>,
    plugin_id: PluginId,
    out: Reload<H>,
) -> bool {
    if plugins.contains_key(plugin_id.value()) {
        out matches Reload::Validate { id, path } && id == plugin_id && crate::text::texts(path@)
            == root_path().push("installed"@).push(crate::ids::hyphenated(plugin_id.value()))
    } else {
        out == Reload::<H>::Done(Err(Error::PluginNotFound(plugin_id)))
    }
}

impl<H> PluginManager<H> {
    /// Begins to initialize a fresh instance from the installed package. It
    /// replaces the current instance only after initialization succeeded.
    pub fn reload(&self, plugin_id: PluginId) -> (out: Reload<H>)
        ensures
            is_reload_start(self@, plugin_id, out),
    {
        if !self.plugins.contains_key(&plugin_id.get()) {
            return Reload::Done(Err(Error::PluginNotFound(plugin_id)));
        }
        Reload::Validate { id: plugin_id, path: package_directory(&plugin_id) }
    }

    /// Takes the answer to what a reload asked for.
    pub fn resume_reload(&mut self, state: Reload<H>, reply: ReloadReply<H>) -> (out: Reload<H>)
        ensures
            reload_next(old(self)@, state, reply, final(self)@, out),
    {
        match (state, reply) {
            (Reload::Validate { .. }, ReloadReply::Validated(Err(error))) => Reload::Done(
                Err(error),
            ),
            (Reload::Validate { id, .. }, ReloadReply::Validated(Ok(package))) => {
                if package.manifest.id.same(&id) {
                    Reload::Load { package }
                } else {
                    let text = joined("installed directory ", &id.text(), " contains plugin ");
                    Reload::Done(
                        Err(Error::InvalidManifest(appended(&text, &package.manifest.id.text()))),
                    )
                }
            },
            (Reload::Load { .. }, ReloadReply::Loaded(Err(error))) => Reload::Done(Err(error)),
            (Reload::Load { package }, ReloadReply::Loaded(Ok(instance))) => {
                if !self.plugins.contains_key(&package.manifest.id.get()) {
                    return Reload::Done(Err(Error::PluginNotFound(package.manifest.id)));
                }
                let handle = Arc::new(PluginHandle { manifest: package.manifest, instance });
                let adapter = PluginAdapters::register(share(&handle));
                let old_entry = self.put(PluginEntry::Loaded(handle));
                Reload::Release { adapter, replaced: PluginEntry::into_handle(old_entry) }
            },
            (Reload::Release { .. }, ReloadReply::Released) => Reload::Done(Ok(())),
            (state, _) => state,
        }
    }
}

/// Removing a plugin: what to do next.
#[derive(Debug)]
pub enum Uninstall<H> {
    /// Change the registry of account providers and close the plugin's
    /// instance, if it has one.
    Release {
        id: PluginId,
        adapter: AdapterAction<H>,
        removed: Option<Arc<PluginHandle<H>>>,
    },
    /// Remove the package's directory.
    RemovePackage { id: PluginId, path: Vec<String> },
    /// Remove the directory of the plugin's private data.
    RemoveData { path: Vec<String> },
    /// Nothing more to do.
    Done(Result<(), Error>),
}

/// An answer to what an [`Uninstall`] asks for.
#[derive(Debug)]
pub enum UninstallReply {
    /// The registry was changed and the instance closed.
    Released,
    /// How removing a directory ended.
    Removed(Result<(), IoFailure>),
}

/// One step of removing a plugin. An answer to something else leaves it as it
/// is.
pub open spec fn uninstall_next<H>(
    before: Uninstall<H>,
    reply: UninstallReply,
    after: Uninstall<H>,
) -> bool {
    match (before, reply) {
        (Uninstall::Release { id, .. }, UninstallReply::Released) => after matches
            Uninstall::RemovePackage { id: kept, path } && kept == id && crate::text::texts(path@)
            == root_path().push("installed"@).push(crate::ids::hyphenated(id.value())),
        (
            Uninstall::RemovePackage { id, .. },
            UninstallReply::Removed(answer),
        ) => if answer is Ok || answer->Err_0.not_found {
            after matches Uninstall::RemoveData { path } && crate::text::texts(path@)
                == root_path().push("data"@).push(crate::ids::hyphenated(id.value()))
        } else {
            after == Uninstall::<H>::Done(Err(Error::Io(answer->Err_0)))
        },
        (
            Uninstall::RemoveData { .. },
            UninstallReply::Removed(answer),
        ) => if answer is Ok || answer->Err_0.not_found {
            after == Uninstall::<H>::Done(Ok(()))
        } else {
            after == Uninstall::<H>::Done(Err(Error::Io(answer->Err_0)))
        },
        _ => after == before,
    }
}

/// Whether a removal begins as it should: the plugin's entry is taken out, its
/// registration is to be dropped, and the instance that it held, if any, is to be
/// closed.
pub open spec fn is_uninstall_start<H>(
    plugins: Map<u128, PluginEntry<H>>,
    plugin_id: PluginId,
    plugins_after: Map<u128, PluginEntry<H>>,
    out: Uninstall<H>,
) -> bool {
    &&& plugins_after == plugins.remove(plugin_id.value())
    &&& out matches Uninstall::Release { id, adapter, removed } && id == plugin_id && adapter
        == AdapterAction::<H>::Unregister(plugin_id) && removed == entry_handle(
        entry_at(plugins, plugin_id.value()),
    )
}

impl<H> PluginManager<H> {
    /// Begins to remove a plugin. Its instance is closed before its package and
    /// private data go; directories that are missing are accepted, so that a
    /// removal that was interrupted can be tried again.
    pub fn uninstall(&mut self, plugin_id: PluginId) -> (out: Uninstall<H>)
        ensures
            is_uninstall_start(old(self)@, plugin_id, final(self)@, out),
    {
        proof {
            use_type_invariant(&*self);
        }
        let mut plugins: HashMap<u128, PluginEntry<H>> = HashMap::new();
        std::mem::swap(&mut plugins, &mut self.plugins);
        let old_entry = plugins.remove(&plugin_id.get());
        assert(plugins@ =~= old(self)@.remove(plugin_id.value()));
        self.plugins = plugins;
        Uninstall::Release {
            id: plugin_id,
            adapter: PluginAdapters::unregister(plugin_id),
            removed: PluginEntry::into_handle(old_entry),
        }
    }
}

impl<H> Uninstall<H> {
    /// Takes the answer to what was asked for.
    pub fn resume(self, reply: UninstallReply) -> (out: Uninstall<H>)
        ensures
            uninstall_next(self, reply, out),
    {
        match (self, reply) {
            (Uninstall::Release { id, .. }, UninstallReply::Released) => Uninstall::RemovePackage {
                id,
                path: package_directory(&id),
            },
            (
                Uninstall::RemovePackage { id, .. },
                UninstallReply::Removed(answer),
            ) => match remove_directory(answer) {
                Ok(_) => Uninstall::RemoveData { path: plugin_data_directory(&id) },
                Err(failure) => Uninstall::Done(Err(Error::Io(failure))),
            },
            (
                Uninstall::RemoveData { .. },
                UninstallReply::Removed(answer),
            ) => match remove_directory(answer) {
                Ok(_) => Uninstall::Done(Ok(())),
                Err(failure) => Uninstall::Done(Err(Error::Io(failure))),
            },
            (state, _) => state,
        }
    }
}

/// Putting a package and its instance in the place of what is installed: what
/// to do next.
#[derive(Debug)]
pub enum Replace<H> {
    /// Load the package.
    Load { package: ValidatedPackage },
    /// Put the package in its place on disk.
    Activate { package: ValidatedPackage, handle: Arc<PluginHandle<H>> },
    /// Change the registry of account providers and close the instance that
    /// was replaced, if there is one.
    Release {
        info: PluginInfo,
        adapter: AdapterAction<H>,
        replaced: Option<Arc<PluginHandle<H>>>,
    },
    /// Nothing more to do.
    Done(Result<PluginInfo, Error>),
}

/// An answer to what a [`Replace`] asks for.
#[derive(Debug)]
pub enum ReplaceReply<H> {
    /// The instance that was initialized, or why none was.
    Loaded(Result<H, Error>),
    /// How the activation ended.
    Activated(Result<(), Error>),
    /// The registry was changed and the instance closed.
    Released,
}

/// One step of a replacement: the plugins before and after it, and what to do
/// next. An answer to something else leaves everything as it is.
pub open spec fn replace_next<H>(
    plugins: Map<u128, PluginEntry<H>>,
    before: Replace<H>,
    reply: ReplaceReply<H>,
    plugins_after: Map<u128, PluginEntry<H>>,
    after: Replace<H>,
) -> bool {
    match (before, reply) {
        (Replace::Load { .. }, ReplaceReply::Loaded(Err(error))) => plugins_after == plugins
            && after == Replace::<H>::Done(Err(error)),
        (Replace::Load { package }, ReplaceReply::Loaded(Ok(instance))) => {
            &&& plugins_after == plugins
            &&& after matches Replace::Activate { package: kept, handle } && kept == package
                && handle.manifest == package.manifest && handle.instance == instance
        },
        (Replace::Activate { .. }, ReplaceReply::Activated(Err(error))) => plugins_after == plugins
            && after == Replace::<H>::Done(Err(error)),
        (Replace::Activate { handle, .. }, ReplaceReply::Activated(Ok(_))) => {
            let id = handle.manifest.id.value();
            &&& plugins_after == plugins.insert(id, PluginEntry::Loaded(handle))
            &&& after matches Replace::Release { info, adapter, replaced }
                && info.manifest == handle.manifest && info.status == PluginStatus::Loaded
                && crate::adapters::is_contribution(handle, adapter) && replaced == entry_handle(
                entry_at(plugins, id),
            )
        },
        (Replace::Release { info, .. }, ReplaceReply::Released) => plugins_after == plugins
            && after == Replace::<H>::Done(Ok(info)),
        _ => plugins_after == plugins && after == before,
    }
}

/// Whether a replacement begins as it should: with the package to load, or at
/// its end if there is none.
pub open spec fn is_replacement_of<H>(
    package: Result<ValidatedPackage, Error>,
    out: Replace<H>,
) -> bool {
    match package {
        Ok(package) => out == (Replace::<H>::Load { package }),
        Err(error) => out == Replace::<H>::Done(Err(error)),
    }
}

impl<H> PluginManager<H> {
    /// Begins to install an unpacked package that was validated. It is
    /// initialized before it is activated.
    pub fn install(&self, package: Result<ValidatedPackage, Error>) -> (out: Replace<H>)
        ensures
            is_replacement_of(package, out),
    {
        PluginManager::replace_package(package)
    }

    /// Begins to install the package that a source checkout was built into. To
    /// repeat this rebuilds and replaces the installed instance.
    pub fn dev_install(&self, package: Result<ValidatedPackage, Error>) -> (out: Replace<H>)
        ensures
            is_replacement_of(package, out),
    {
        PluginManager::replace_package(package)
    }

    fn replace_package(package: Result<ValidatedPackage, Error>) -> (out: Replace<H>)
        ensures
            is_replacement_of(package, out),
    {
        match package {
            Ok(package) => Replace::Load { package },
            Err(error) => Replace::Done(Err(error)),
        }
    }

    /// Takes the answer to what a replacement asked for.
    pub fn resume_install(&mut self, state: Replace<H>, reply: ReplaceReply<H>) -> (out: Replace<H>)
        ensures
            replace_next(old(self)@, state, reply, final(self)@, out),
    {
        match (state, reply) {
            (Replace::Load { .. }, ReplaceReply::Loaded(Err(error))) => Replace::Done(Err(error)),
            (Replace::Load { package }, ReplaceReply::Loaded(Ok(instance))) => {
                let manifest = package.manifest.clone();
                let handle = Arc::new(PluginHandle { manifest, instance });
                Replace::Activate { package, handle }
            },
            (Replace::Activate { .. }, ReplaceReply::Activated(Err(error))) => Replace::Done(
                Err(error),
            ),
            (Replace::Activate { handle, .. }, ReplaceReply::Activated(Ok(_))) => {
                let info = PluginInfo {
                    manifest: handle.manifest.clone(),
                    status: PluginStatus::Loaded,
                };
                let adapter = PluginAdapters::register(share(&handle));
                let old_entry = self.put(PluginEntry::Loaded(handle));
                Replace::Release { info, adapter, replaced: PluginEntry::into_handle(old_entry) }
            },
            (Replace::Release { info, .. }, ReplaceReply::Released) => Replace::Done(Ok(info)),
            (state, _) => state,
        }
    }
}

/// Whether exactly the loaded plugins that provide storefront accounts are
/// registered as account providers.
pub open spec fn providers_match<H>(
    plugins: Map<u128, PluginEntry<H>>,
    providers: Set<u128>,
) -> bool {
    forall|id: u128| #[trigger]
        providers.contains(id) <==> (plugins.contains_key(id) && (
        plugins[id] matches PluginEntry::Loaded(handle) && handle.manifest.storefront_account))
}

/// A step of a reload keeps the plugins under their own identities, and the
/// change it asks for keeps the account providers in agreement with them.
pub proof fn law_reload_keeps_agreement<H>(
    plugins: Map<u128, PluginEntry<H>>,
    before: Reload<H>,
    reply: ReloadReply<H>,
    plugins_after: Map<u128, PluginEntry<H>>,
    after: Reload<H>,
    providers: Set<u128>,
)
    requires
        reload_next(plugins, before, reply, plugins_after, after),
        well_keyed(plugins),
        providers_match(plugins, providers),
    ensures
        well_keyed(plugins_after),
        if before is Load && after is Release {
            providers_match(
                plugins_after,
                crate::adapters::providers_next(providers, after->Release_adapter),
            )
        } else {
            providers_match(plugins_after, providers)
        },
{
}

/// A reload changes the plugins only when a fresh instance was initialized,
/// and then only the plugin that is reloaded; the instance it replaces is
/// handed out to be closed.
pub proof fn law_reload_replaces_after_initialization<H>(
    plugins: Map<u128, PluginEntry<H>>,
    before: Reload<H>,
    reply: ReloadReply<H>,
    plugins_after: Map<u128, PluginEntry<H>>,
    after: Reload<H>,
)
    requires
        reload_next(plugins, before, reply, plugins_after, after),
        plugins_after != plugins,
    ensures
        before is Load,
        plugins.contains_key(before->Load_package.manifest.id.value()),
        reply matches ReloadReply::Loaded(Ok(instance)) && is_shown_as_loaded(
            plugins,
            before->Load_package,
            instance,
            plugins_after,
        ),
        after matches Reload::Release { replaced, .. } && replaced == entry_handle(
            Some(plugins[before->Load_package.manifest.id.value()]),
        ),
{
}

/// Whether `after` is `before` with a loaded plugin in the place of whatever
/// stood under an identity, and nothing else changed.
pub open spec fn replaced_by<H>(
    before: Map<u128, PluginEntry<H>>,
    id: u128,
    handle: Arc<PluginHandle<H>>,
    after: Map<u128, PluginEntry<H>>,
) -> bool {
    after == before.insert(id, PluginEntry::Loaded(handle))
}

/// Whether a reload has put its fresh instance in place.
pub open spec fn reload_committed<H>(state: Reload<H>) -> bool {
    state is Release || state matches Reload::Done(Ok(_))
}

/// What a replacement that has put its instance in place returns, or will.
pub open spec fn installed_info<H>(state: Replace<H>) -> Option<PluginInfo> {
    match state {
        Replace::Release { info, .. } => Some(info),
        Replace::Done(Ok(info)) => Some(info),
        _ => None,
    }
}

/// A reload on its own: the plugins and what to do next.
pub open spec fn reload_step<H>(
    before: (Map<u128, PluginEntry<H>>, Reload<H>),
    reply: ReloadReply<H>,
    after: (Map<u128, PluginEntry<H>>, Reload<H>),
) -> bool {
    reload_next(before.0, before.1, reply, after.0, after.1)
}

/// A reload that fails leaves the plugins as they were; one that succeeds has
/// put a fresh instance in the place of the old one and changed nothing else.
pub proof fn law_reload_is_all_or_nothing<H>(
    states: Seq<(Map<u128, PluginEntry<H>>, Reload<H>)>,
    replies: Seq<ReloadReply<H>>,
    at: int,
)
    requires
        crate::runs::is_run(
            |s: (Map<u128, PluginEntry<H>>, Reload<H>), r, t| reload_step(s, r, t),
            states,
            replies,
        ),
        states[0].1 is Validate,
        0 <= at < states.len(),
    ensures
        if reload_committed(states[at].1) {
            exists|handle: Arc<PluginHandle<H>>| #[trigger]
                replaced_by(states[0].0, states[0].1->Validate_id.value(), handle, states[at].0)
        } else {
            states[at].0 == states[0].0
        },
        states[at].1 matches Reload::Load { package } ==> package.manifest.id.value()
            == states[0].1->Validate_id.value(),
        states[at].1 matches Reload::Validate { id, .. } ==> id == states[0].1->Validate_id,
    decreases at,
{
    if at > 0 {
        law_reload_is_all_or_nothing(states, replies, at - 1);
        let reply = replies[at - 1];
        assert(reload_step(states[at - 1], reply, states[at]));
        if let (Reload::Load { package }, ReloadReply::Loaded(Ok(_))) = (states[at - 1].1, reply) {
            if states[at].1 is Release {
                let id = package.manifest.id.value();
                let handle = states[at].0[id]->Loaded_0;
                assert(replaced_by(states[0].0, id, handle, states[at].0));
            }
        }
    }
}

/// A step of a replacement keeps the plugins under their own identities, and
/// the change it asks for keeps the account providers in agreement with them.
pub proof fn law_install_keeps_agreement<H>(
    plugins: Map<u128, PluginEntry<H>>,
    before: Replace<H>,
    reply: ReplaceReply<H>,
    plugins_after: Map<u128, PluginEntry<H>>,
    after: Replace<H>,
    providers: Set<u128>,
)
    requires
        replace_next(plugins, before, reply, plugins_after, after),
        well_keyed(plugins),
        providers_match(plugins, providers),
    ensures
        well_keyed(plugins_after),
        if before is Activate && after is Release {
            providers_match(
                plugins_after,
                crate::adapters::providers_next(providers, after->Release_adapter),
            )
        } else {
            providers_match(plugins_after, providers)
        },
{
}

/// A replacement on its own: the plugins and what to do next.
pub open spec fn replace_step<H>(
    before: (Map<u128, PluginEntry<H>>, Replace<H>),
    reply: ReplaceReply<H>,
    after: (Map<u128, PluginEntry<H>>, Replace<H>),
) -> bool {
    replace_next(before.0, before.1, reply, after.0, after.1)
}

/// An installation that fails leaves the plugins as they were; one that
/// succeeds shows the plugin as loaded, under the manifest that is returned,
/// and changed nothing else.
pub proof fn law_install_is_all_or_nothing<H>(
    states: Seq<(Map<u128, PluginEntry<H>>, Replace<H>)>,
    replies: Seq<ReplaceReply<H>>,
    at: int,
)
    requires
        crate::runs::is_run(
            |s: (Map<u128, PluginEntry<H>>, Replace<H>), r, t| replace_step(s, r, t),
            states,
            replies,
        ),
        states[0].1 is Load,
        0 <= at < states.len(),
    ensures
        match installed_info(states[at].1) {
            Some(info) => {
                &&& info.status == PluginStatus::Loaded
                &&& exists|handle: Arc<PluginHandle<H>>|
                    handle.manifest == info.manifest && #[trigger] replaced_by(
                        states[0].0,
                        info.manifest.id.value(),
                        handle,
                        states[at].0,
                    )
            },
            None => states[at].0 == states[0].0,
        },
    decreases at,
{
    if at > 0 {
        law_install_is_all_or_nothing(states, replies, at - 1);
        let reply = replies[at - 1];
        assert(replace_step(states[at - 1], reply, states[at]));
        if let (Replace::Activate { handle, .. }, ReplaceReply::Activated(Ok(_))) = (
            states[at - 1].1,
            reply,
        ) {
            assert(replaced_by(
                states[0].0,
                handle.manifest.id.value(),
                handle,
                states[at].0,
            ));
        }
    }
}

/// A package is put in its place on disk only after it was initialized, and
/// the plugins change only after it was put there.
pub proof fn law_install_initializes_before_activation<H>(
    states: Seq<(Map<u128, PluginEntry<H>>, Replace<H>)>,
    replies: Seq<ReplaceReply<H>>,
    at: int,
) -> (loaded: int)
    requires
        crate::runs::is_run(
            |s: (Map<u128, PluginEntry<H>>, Replace<H>), r, t| replace_step(s, r, t),
            states,
            replies,
        ),
        states[0].1 is Load,
        0 <= at < states.len(),
        states[at].1 is Activate,
    ensures
        0 <= loaded < at,
        states[loaded].1 is Load,
        replies[loaded] == ReplaceReply::Loaded(
            Ok(states[loaded + 1].1->Activate_handle.instance),
        ),
        states[loaded + 1].1->Activate_handle.manifest == states[loaded].1->Load_package.manifest,
        states[loaded + 1].1->Activate_package == states[loaded].1->Load_package,
        states[at].0 == states[0].0,
{
    law_install_is_all_or_nothing(states, replies, at);
    crate::runs::lemma_entered_along_run(
        |s: (Map<u128, PluginEntry<H>>, Replace<H>), r, t| replace_step(s, r, t),
        |s: (Map<u128, PluginEntry<H>>, Replace<H>)| s.1 is Activate,
        states,
        replies,
        at,
    )
}

/// To remove a plugin keeps the others under their own identities, and the
/// change that it asks for keeps the account providers in agreement with them.
pub proof fn law_uninstall_keeps_agreement<H>(
    plugins: Map<u128, PluginEntry<H>>,
    id: PluginId,
    providers: Set<u128>,
)
    requires
        well_keyed(plugins),
        providers_match(plugins, providers),
    ensures
        well_keyed(plugins.remove(id.value())),
        providers_match(
            plugins.remove(id.value()),
            crate::adapters::providers_next(providers, AdapterAction::<H>::Unregister(id)),
        ),
{
}

/// A removal ends well if each of its directories was removed or was missing
/// already, so that one that was interrupted can be tried again.
pub proof fn law_uninstall_accepts_missing_directories<H>(
    states: Seq<Uninstall<H>>,
    replies: Seq<UninstallReply>,
)
    requires
        crate::runs::is_run(
            |s: Uninstall<H>, r: UninstallReply, t: Uninstall<H>| uninstall_next(s, r, t),
            states,
            replies,
        ),
        states[0] is Release,
        replies.len() == 3,
        replies[0] is Released,
        forall|i: int|
            1 <= i < 3 ==> (#[trigger] replies[i] matches UninstallReply::Removed(answer) && (
            answer is Ok || answer->Err_0.not_found)),
    ensures
        states[1] is RemovePackage,
        states[2] is RemoveData,
        states[3] matches Uninstall::Done(Ok(_)),
{
    assert(uninstall_next(states[0], replies[0], states[1]));
    assert(uninstall_next(states[1], replies[1], states[2]));
    assert(uninstall_next(states[2], replies[2], states[3]));
}

/// A plugin's instance is closed before its package goes, and its package goes
/// before its private data.
pub proof fn law_uninstall_closes_before_removal<H>(
    states: Seq<Uninstall<H>>,
    replies: Seq<UninstallReply>,
    at: int,
) -> (steps: (int, int))
    requires
        crate::runs::is_run(
            |s: Uninstall<H>, r: UninstallReply, t: Uninstall<H>| uninstall_next(s, r, t),
            states,
            replies,
        ),
        states[0] is Release,
        0 <= at < states.len(),
        states[at] is RemoveData,
    ensures
        0 <= steps.0 < steps.1 < at,
        states[steps.0] is Release,
        replies[steps.0] is Released,
        states[steps.1] is RemovePackage,
        replies[steps.1] matches UninstallReply::Removed(answer) && (answer is Ok
            || answer->Err_0.not_found),
{
    let next = |s: Uninstall<H>, r: UninstallReply, t: Uninstall<H>| uninstall_next(s, r, t);
    let removed = crate::runs::lemma_entered_along_run(
        next,
        |s: Uninstall<H>| s is RemoveData,
        states,
        replies,
        at,
    );
    let closed = crate::runs::lemma_entered_along_run(
        next,
        |s: Uninstall<H>| s is RemovePackage,
        states,
        replies,
        removed,
    );
    (closed, removed)
}

/// An installation changes the plugins only when its package was put in its
/// place on disk, and then only the plugin that is installed; the instance it
/// replaces is handed out to be closed.
pub proof fn law_install_replaces_after_activation<H>(
    plugins: Map<u128, PluginEntry<H>>,
    before: Replace<H>,
    reply: ReplaceReply<H>,
    plugins_after: Map<u128, PluginEntry<H>>,
    after: Replace<H>,
)
    requires
        replace_next(plugins, before, reply, plugins_after, after),
        plugins_after != plugins,
    ensures
        reply matches ReplaceReply::Activated(Ok(_)),
        before matches Replace::Activate { handle, .. } && plugins_after == plugins.insert(
            handle.manifest.id.value(),
            PluginEntry::Loaded(handle),
        ),
        after matches Replace::Release { replaced, .. } && replaced == entry_handle(
            entry_at(plugins, before->Activate_handle.manifest.id.value()),
        ),
{
}

/// An installation succeeds exactly if each of its steps does, whatever is
/// installed when they end: it then shows the package's own plugin as loaded
/// with the instance that was initialized, and nothing else changes; it
/// contributes what the manifest declares, hands out the instance that stood
/// there to be closed, and returns the manifest. Otherwise it ends with the
/// error of the first step that failed, and changes nothing.
pub proof fn law_install_comes_to_its_steps<H>(
    package: Result<ValidatedPackage, Error>,
    loaded: Result<H, Error>,
    activated: Result<(), Error>,
    loading: (Map<u128, PluginEntry<H>>, Map<u128, PluginEntry<H>>),
    activating: (Map<u128, PluginEntry<H>>, Map<u128, PluginEntry<H>>),
    releasing: (Map<u128, PluginEntry<H>>, Map<u128, PluginEntry<H>>),
    states: (Replace<H>, Replace<H>, Replace<H>, Replace<H>),
)
    requires
        is_replacement_of(package, states.0),
        replace_next(loading.0, states.0, ReplaceReply::Loaded(loaded), loading.1, states.1),
        replace_next(
            activating.0,
            states.1,
            ReplaceReply::Activated(activated),
            activating.1,
            states.2,
        ),
        replace_next(releasing.0, states.2, ReplaceReply::Released, releasing.1, states.3),
    ensures
        loading.1 == loading.0,
        releasing.1 == releasing.0,
        match (package, loaded, activated) {
            (Err(error), _, _) => activating.1 == activating.0 && states.3 == Replace::<H>::Done(
                Err(error),
            ),
            (Ok(_), Err(error), _) => activating.1 == activating.0 && states.3 == Replace::<
                H,
            >::Done(Err(error)),
            (Ok(_), Ok(_), Err(error)) => activating.1 == activating.0 && states.3 == Replace::<
                H,
            >::Done(Err(error)),
            (Ok(package), Ok(instance), Ok(_)) => {
                let id = package.manifest.id.value();
                let before = activating.0;
                let after = activating.1;
                &&& states.1 matches Replace::Activate { package: staged, .. } && staged == package
                &&& after.contains_key(id)
                &&& after[id] matches PluginEntry::Loaded(handle) && handle.manifest
                    == package.manifest && handle.instance == instance
                &&& after == before.insert(id, after[id])
                &&& states.2 matches Replace::Release { adapter, replaced, .. } && {
                    &&& if package.manifest.storefront_account {
                        adapter matches AdapterAction::Register(provider) && provider.plugin()
                            == after[id]->Loaded_0
                    } else {
                        adapter matches AdapterAction::Unregister(dropped) && dropped
                            == package.manifest.id
                    }
                    &&& if before.contains_key(id) && before[id] is Loaded {
                        replaced == Some(before[id]->Loaded_0)
                    } else {
                        replaced is None
                    }
                }
                &&& states.3 matches Replace::Done(Ok(info)) && info.manifest == package.manifest
                    && info.status == PluginStatus::Loaded
            },
        },
{
}

/// A run of an installation whose package was initialized and put in its place
/// ends well, whether or not the plugin was there before, and the plugin is
/// then there.
pub proof fn law_install_of_any_plugin_succeeds<H>(
    states: Seq<(Map<u128, PluginEntry<H>>, Replace<H>)>,
    replies: Seq<ReplaceReply<H>>,
    package: ValidatedPackage,
    instance: H,
)
    requires
        crate::runs::is_run(
            |s: (Map<u128, PluginEntry<H>>, Replace<H>), r, t| replace_step(s, r, t),
            states,
            replies,
        ),
        is_replacement_of(Ok(package), states[0].1),
        replies.len() == 3,
        replies[0] == ReplaceReply::Loaded(Ok(instance)),
        replies[1] matches ReplaceReply::Activated(Ok(_)),
        replies[2] is Released,
    ensures
        states[3].1 matches Replace::Done(Ok(info)) && info.manifest == package.manifest
            && info.status == PluginStatus::Loaded,
        forall|other: u128| #[trigger]
            states[3].0.contains_key(other) <==> (states[0].0.contains_key(other) || other
                == package.manifest.id.value()),
        forall|other: u128|
            other != package.manifest.id.value() && states[0].0.contains_key(other)
                ==> #[trigger] states[3].0[other] == states[0].0[other],
        states[3].0[package.manifest.id.value()] matches PluginEntry::Loaded(handle)
            && handle.manifest == package.manifest && handle.instance == instance,
{
    let (first, second, third) = (replies[0], replies[1], replies[2]);
    assert(replace_step(states[0], first, states[1]));
    assert(replace_step(states[1], second, states[2]));
    assert(replace_step(states[2], third, states[3]));
}

/// An answer to something that an installation did not ask for changes neither
/// the plugins nor the installation.
pub proof fn law_install_ignores_other_answers<H>(
    plugins: Map<u128, PluginEntry<H>>,
    before: Replace<H>,
    reply: ReplaceReply<H>,
    plugins_after: Map<u128, PluginEntry<H>>,
    after: Replace<H>,
)
    requires
        replace_next(plugins, before, reply, plugins_after, after),
        !(before is Load && reply is Loaded),
        !(before is Activate && reply is Activated),
        !(before is Release && reply is Released),
    ensures
        plugins_after == plugins,
        after == before,
{
}

/// A reload succeeds exactly if its package is valid and of the plugin's own
/// identity, an instance was initialized, and the plugin is still there,
/// whatever its entry holds: the fresh instance then takes the place of the old
/// one and nothing else changes; it contributes what the manifest declares, and
/// the old one is handed out to be closed. Otherwise the reload ends with what
/// went wrong first, and changes nothing.
pub proof fn law_reload_comes_to_its_steps<H>(
    id: PluginId,
    path: Vec<String>,
    validated: Result<ValidatedPackage, Error>,
    loaded: Result<H, Error>,
    checking: (Map<u128, PluginEntry<H>>, Map<u128, PluginEntry<H>>),
    loading: (Map<u128, PluginEntry<H>>, Map<u128, PluginEntry<H>>),
    releasing: (Map<u128, PluginEntry<H>>, Map<u128, PluginEntry<H>>),
    states: (Reload<H>, Reload<H>, Reload<H>),
)
    requires
        reload_next(
            checking.0,
            Reload::Validate { id, path },
            ReloadReply::Validated(validated),
            checking.1,
            states.0,
        ),
        reload_next(loading.0, states.0, ReloadReply::Loaded(loaded), loading.1, states.1),
        reload_next(releasing.0, states.1, ReloadReply::Released, releasing.1, states.2),
    ensures
        checking.1 == checking.0,
        releasing.1 == releasing.0,
        match (validated, loaded) {
            (Err(error), _) => loading.1 == loading.0 && states.2 == Reload::<H>::Done(Err(error)),
            (Ok(package), loaded) => if package.manifest.id.value() != id.value() {
                &&& loading.1 == loading.0
                &&& states.2 matches Reload::Done(Err(Error::InvalidManifest(text))) && text@
                    == "installed directory "@ + crate::ids::hyphenated(id.value())
                    + " contains plugin "@ + crate::ids::hyphenated(package.manifest.id.value())
            } else {
                let before = loading.0;
                let after = loading.1;
                &&& states.0 == (Reload::<H>::Load { package })
                &&& match loaded {
                    Err(error) => after == before && states.2 == Reload::<H>::Done(Err(error)),
                    Ok(instance) => if !before.contains_key(id.value()) {
                        &&& after == before
                        &&& states.2 matches Reload::Done(Err(Error::PluginNotFound(missing)))
                            && missing.value() == id.value()
                    } else {
                        &&& after.contains_key(id.value())
                        &&& after[id.value()] matches PluginEntry::Loaded(handle)
                            && handle.manifest == package.manifest && handle.instance == instance
                        &&& after == before.insert(id.value(), after[id.value()])
                        &&& states.1 matches Reload::Release { adapter, replaced } && {
                            &&& if package.manifest.storefront_account {
                                adapter matches AdapterAction::Register(provider)
                                    && provider.plugin() == after[id.value()]->Loaded_0
                            } else {
                                adapter matches AdapterAction::Unregister(dropped)
                                    && dropped.value() == id.value()
                            }
                            &&& if before[id.value()] is Loaded {
                                replaced == Some(before[id.value()]->Loaded_0)
                            } else {
                                replaced is None
                            }
                        }
                        &&& states.2 == Reload::<H>::Done(Ok(()))
                    },
                }
            },
        },
{
}

/// A run of a reload whose package is valid and of the plugin's own identity,
/// and whose instance was initialized, ends well for every plugin that is
/// there, and the plugin is then there with that instance.
pub proof fn law_reload_of_any_plugin_succeeds<H>(
    states: Seq<(Map<u128, PluginEntry<H>>, Reload<H>)>,
    replies: Seq<ReloadReply<H>>,
    package: ValidatedPackage,
    instance: H,
)
    requires
        crate::runs::is_run(
            |s: (Map<u128, PluginEntry<H>>, Reload<H>), r, t| reload_step(s, r, t),
            states,
            replies,
        ),
        states[0].1 matches Reload::Validate { id, .. } && id.value() == package.manifest.id.value()
            && states[0].0.contains_key(id.value()),
        replies.len() == 3,
        replies[0] == ReloadReply::<H>::Validated(Ok(package)),
        replies[1] == ReloadReply::Loaded(Ok(instance)),
        replies[2] is Released,
    ensures
        states[3].1 == Reload::<H>::Done(Ok(())),
        states[3].0.dom() == states[0].0.dom(),
        forall|other: u128|
            other != package.manifest.id.value() ==> #[trigger] states[3].0[other]
                == states[0].0[other],
        states[3].0[package.manifest.id.value()] matches PluginEntry::Loaded(handle)
            && handle.manifest == package.manifest && handle.instance == instance,
{
    let (first, second, third) = (replies[0], replies[1], replies[2]);
    assert(reload_step(states[0], first, states[1]));
    assert(reload_step(states[1], second, states[2]));
    assert(reload_step(states[2], third, states[3]));
    assert(states[3].0.dom() =~= states[0].0.dom());
}

/// An answer to something that a reload did not ask for changes neither the
/// plugins nor the reload.
pub proof fn law_reload_ignores_other_answers<H>(
    plugins: Map<u128, PluginEntry<H>>,
    before: Reload<H>,
    reply: ReloadReply<H>,
    plugins_after: Map<u128, PluginEntry<H>>,
    after: Reload<H>,
)
    requires
        reload_next(plugins, before, reply, plugins_after, after),
        !(before is Validate && reply is Validated),
        !(before is Load && reply is Loaded),
        !(before is Release && reply is Released),
    ensures
        plugins_after == plugins,
        after == before,
{
}

/// Whether a path consists of exactly these three names.
pub open spec fn is_path_of(
    path: Seq<String>,
    first: Seq<char>,
    second: Seq<char>,
    third: Seq<char>,
) -> bool {
    path.len() == 3 && path[0]@ == first && path[1]@ == second && path[2]@ == third
}

/// A removal only ever asks to remove two directories, both of the plugin that
/// is removed: its package and its private data, whatever came of the request
/// before.
pub proof fn law_uninstall_removes_its_own_directories<H>(
    states: Seq<Uninstall<H>>,
    replies: Seq<UninstallReply>,
    at: int,
    id: PluginId,
)
    requires
        crate::runs::is_run(
            |s: Uninstall<H>, r: UninstallReply, t: Uninstall<H>| uninstall_next(s, r, t),
            states,
            replies,
        ),
        states[0] matches Uninstall::Release { id: removed, .. } && removed == id,
        0 <= at < states.len(),
    ensures
        match states[at] {
            Uninstall::Release { .. } => states[at] == states[0],
            Uninstall::RemovePackage { id: kept, path } => kept == id && is_path_of(
                path@,
                "plugins"@,
                "installed"@,
                crate::ids::hyphenated(id.value()),
            ),
            Uninstall::RemoveData { path } => is_path_of(
                path@,
                "plugins"@,
                "data"@,
                crate::ids::hyphenated(id.value()),
            ),
            Uninstall::Done(_) => true,
        },
    decreases at,
{
    if at > 0 {
        law_uninstall_removes_its_own_directories(states, replies, at - 1, id);
        let reply = replies[at - 1];
        assert(uninstall_next(states[at - 1], reply, states[at]));
        match states[at] {
            Uninstall::RemovePackage { path, .. } => lemma_path_of_three(path@),
            Uninstall::RemoveData { path } => lemma_path_of_three(path@),
            _ => {},
        }
    }
}

proof fn lemma_path_of_three(path: Seq<String>)
    requires
        crate::text::texts(path).len() == 3,
    ensures
        is_path_of(
            path,
            crate::text::texts(path)[0],
            crate::text::texts(path)[1],
            crate::text::texts(path)[2],
        ),
{
}

/// A removal comes to what removing the two directories comes to: a directory
/// that is missing is as good as removed, and the first failure ends it. The
/// private data is not touched where removing the package has failed.
pub proof fn law_uninstall_comes_to_its_steps<H>(
    begun: Uninstall<H>,
    package: Result<(), IoFailure>,
    data: Result<(), IoFailure>,
    states: (Uninstall<H>, Uninstall<H>, Uninstall<H>),
)
    requires
        begun is Release,
        uninstall_next(begun, UninstallReply::Released, states.0),
        uninstall_next(states.0, UninstallReply::Removed(package), states.1),
        uninstall_next(states.1, UninstallReply::Removed(data), states.2),
    ensures
        states.0 is RemovePackage,
        match (package, data) {
            (Err(failure), data) if !failure.not_found => states.1 == Uninstall::<H>::Done(
                Err(Error::Io(failure)),
            ) && states.2 == states.1,
            (_, Err(failure)) if !failure.not_found => states.1 is RemoveData && states.2
                == Uninstall::<H>::Done(Err(Error::Io(failure))),
            _ => states.1 is RemoveData && states.2 == Uninstall::<H>::Done(Ok(())),
        },
{
}

/// An answer to something that a removal did not ask for leaves it as it is.
pub proof fn law_uninstall_ignores_other_answers<H>(
    before: Uninstall<H>,
    reply: UninstallReply,
    after: Uninstall<H>,
)
    requires
        uninstall_next(before, reply, after),
        !(before is Release && reply is Released),
        !((before is RemovePackage || before is RemoveData) && reply is Removed),
    ensures
        after == before,
{
}

/// Whether what is told of a plugin is what its entry holds.
pub open spec fn tells_of<H>(info: PluginInfo, entry: PluginEntry<H>) -> bool {
    match entry {
        PluginEntry::Loaded(handle) => info.manifest == handle.manifest && info.status
            == PluginStatus::Loaded,
        PluginEntry::Failed { manifest, error } => info.manifest == manifest && info.status
            == PluginStatus::Failed(error),
    }
}

/// A list tells of each plugin what its entry holds, of each once, and of
/// nothing else.
pub proof fn law_listing_tells_of_each_plugin<H>(
    plugins: Map<u128, PluginEntry<H>>,
    infos: Seq<PluginInfo>,
)
    requires
        well_keyed(plugins),
        is_listing(plugins, infos),
    ensures
        infos.len() == plugins.dom().len(),
        forall|i: int|
            0 <= i < infos.len() ==> {
                let id = (#[trigger] infos[i]).manifest.id.value();
                plugins.contains_key(id) && tells_of(infos[i], plugins[id])
            },
        forall|i: int, j: int|
            0 <= i < j < infos.len() ==> (#[trigger] infos[i]).manifest.id.value() != (
            #[trigger] infos[j]).manifest.id.value(),
        forall|id: u128| #[trigger]
            plugins.contains_key(id) ==> exists|i: int|
                0 <= i < infos.len() && tells_of(#[trigger] infos[i], plugins[id]),
{
    let ids = choose|ids: Seq<u128>|
        {
            &&& #[trigger] ids.no_duplicates()
            &&& ids.to_set() == plugins.dom()
            &&& ids.len() == infos.len()
            &&& forall|i: int|
                #![trigger ids[i]]
                #![trigger infos[i]]
                0 <= i < infos.len() ==> {
                    &&& infos[i].manifest == entry_manifest(plugins[ids[i]])
                    &&& infos[i].status == entry_status(plugins[ids[i]])
                }
        };
    ids.unique_seq_to_set();
    assert forall|i: int| 0 <= i < infos.len() implies {
        let id = (#[trigger] infos[i]).manifest.id.value();
        id == ids[i] && plugins.contains_key(id) && tells_of(infos[i], plugins[id])
    } by {
        assert(ids.to_set().contains(ids[i]));
    }
    assert forall|id: u128| #[trigger] plugins.contains_key(id) implies exists|i: int|
        0 <= i < infos.len() && tells_of(#[trigger] infos[i], plugins[id]) by {
        assert(ids.to_set().contains(id));
        let i = ids.index_of(id);
        assert(ids[i] == id);
        assert(tells_of(infos[i], plugins[id]));
    }
}

/// A plugin that was installed is listed as loaded, under the manifest of its
/// package.
pub proof fn law_installed_plugin_is_listed<H>(
    before: (Map<u128, PluginEntry<H>>, Replace<H>),
    after: (Map<u128, PluginEntry<H>>, Replace<H>),
    infos: Seq<PluginInfo>,
)
    requires
        well_keyed(before.0),
        before.1 is Activate,
        replace_next(before.0, before.1, ReplaceReply::Activated(Ok(())), after.0, after.1),
        is_listing(after.0, infos),
    ensures
        exists|i: int|
            0 <= i < infos.len() && (#[trigger] infos[i]).manifest
                == before.1->Activate_handle.manifest && infos[i].status == PluginStatus::Loaded,
{
    let handle = before.1->Activate_handle;
    let id = handle.manifest.id.value();
    law_listing_tells_of_each_plugin(after.0, infos);
    assert(after.0.contains_key(id));
    let i = choose|i: int| 0 <= i < infos.len() && tells_of(#[trigger] infos[i], after.0[id]);
    assert(infos[i].manifest == handle.manifest);
}

/// A reload of a plugin that is there, however it was loaded, begins with the
/// package in the plugin's own directory; one of a plugin that is not there is
/// refused at once.
pub proof fn law_reload_begins_with_the_installed_package<H>(
    plugins: Map<u128, PluginEntry<H>>,
    plugin_id: PluginId,
    out: Reload<H>,
)
    requires
        is_reload_start(plugins, plugin_id, out),
    ensures
        match out {
            Reload::Validate { id, path } => plugins.contains_key(plugin_id.value()) && id
                == plugin_id && is_path_of(
                path@,
                "plugins"@,
                "installed"@,
                crate::ids::hyphenated(plugin_id.value()),
            ),
            Reload::Done(Err(Error::PluginNotFound(missing))) => !plugins.contains_key(
                plugin_id.value(),
            ) && missing == plugin_id,
            _ => false,
        },
{
    if let Reload::Validate { path, .. } = out {
        lemma_path_of_three(path@);
    }
}

/// A plugin that is removed is gone at once, whatever its entry held: it is listed
/// no more and registered no more, and no other plugin is touched. The instance
/// that it held is handed out to be closed.
pub proof fn law_uninstalled_plugin_is_gone<H>(
    plugins: Map<u128, PluginEntry<H>>,
    plugin_id: PluginId,
    plugins_after: Map<u128, PluginEntry<H>>,
    out: Uninstall<H>,
    infos: Seq<PluginInfo>,
)
    requires
        well_keyed(plugins),
        is_uninstall_start(plugins, plugin_id, plugins_after, out),
        is_listing(plugins_after, infos),
    ensures
        !plugins_after.contains_key(plugin_id.value()),
        !is_listed(infos, plugin_id.value()),
        forall|other: u128|
            other != plugin_id.value() ==> (#[trigger] plugins_after.contains_key(other)
                <==> plugins.contains_key(other)) && (plugins.contains_key(other)
                ==> plugins_after[other] == plugins[other]),
        out matches Uninstall::Release { id, adapter, removed } && {
            &&& id == plugin_id
            &&& adapter matches AdapterAction::Unregister(dropped) && dropped == plugin_id
            &&& match removed {
                Some(handle) => plugins.contains_key(plugin_id.value())
                    && plugins[plugin_id.value()] == PluginEntry::Loaded(handle),
                None => plugins.contains_key(plugin_id.value()) ==> plugins[plugin_id.value()]
                    is Failed,
            }
        },
{
    law_listing_is_complete(plugins_after, infos, plugin_id.value());
}

/// The instance that an installation has put in place is the one that a removal
/// right after it hands out to be closed.
pub proof fn law_removal_closes_the_last_instance<H>(
    before: Map<u128, PluginEntry<H>>,
    state: Replace<H>,
    shown: (Map<u128, PluginEntry<H>>, Replace<H>),
    after: Map<u128, PluginEntry<H>>,
    out: Uninstall<H>,
)
    requires
        state is Activate,
        replace_next(before, state, ReplaceReply::Activated(Ok(())), shown.0, shown.1),
        is_uninstall_start(shown.0, state->Activate_handle.manifest.id, after, out),
    ensures
        out matches Uninstall::Release { removed: Some(handle), .. } && handle
            == state->Activate_handle,
        after == before.remove(state->Activate_handle.manifest.id.value()),
{
    assert(after =~= before.remove(state->Activate_handle.manifest.id.value()));
}

}
