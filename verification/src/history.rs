//! Catalogs over time: what a catalog holds after any number of operations, and
//! what a later one reads back from its files.

use std::sync::Arc;

use vstd::prelude::*;

use crate::catalog::{CompiledPlugin, InstalledPlugin};
use crate::installation::{InstallPlugin, InstallReply};
use crate::loading::{LoadComponent, LoadReply};
use crate::manifest::{PluginInfo, PluginInfoView};
use crate::packages::{OpenPlugins, RemovalReply, ScanReply, UninstallPlugin};

verus! {

/// The metadata that lies in the directories of installed packages, by the
/// names of the directories, and the metadata that lies in a workspace.
pub struct Storage {
    pub installed: Map<Seq<char>, PluginInfoView>,
    pub workspace: Option<PluginInfoView>,
}

/// Whether the entries of a catalog show exactly what lies in its directories.
pub open spec fn agrees(
    entries: Map<Seq<char>, InstalledPlugin>,
    installed: Map<Seq<char>, PluginInfoView>,
) -> bool {
    &&& entries.dom() == installed.dom()
    &&& forall|id: Seq<char>| #[trigger]
        installed.contains_key(id) ==> crate::catalog::entry_info(entries[id])@ == installed[id]
}

/// What lies there after a request of an installation was answered, as far as
/// the answers tell.
pub open spec fn install_storage_next(
    before: Storage,
    state: InstallPlugin,
    reply: InstallReply,
) -> Storage {
    match (state, reply) {
        (
            InstallPlugin::WriteMetadata { prepared, .. },
            InstallReply::Metadata(Ok(Ok(_))),
        ) => Storage { workspace: Some(prepared.info@), ..before },
        (
            InstallPlugin::RemoveInstalled { directory, .. },
            InstallReply::Answered(answer),
        ) => if answer is Ok || answer->Err_0.not_found {
            Storage {
                installed: before.installed.remove(crate::text::texts(directory@).last()),
                ..before
            }
        } else {
            before
        },
        (InstallPlugin::Rename { directory, .. }, InstallReply::Answered(Ok(_))) => Storage {
            installed: before.installed.insert(
                crate::text::texts(directory@).last(),
                before.workspace->0,
            ),
            workspace: None,
        },
        (
            InstallPlugin::RemoveWorkspace { .. },
            InstallReply::Answered(Ok(_)),
        ) => Storage { workspace: None, ..before },
        _ => before,
    }
}

/// What lies there after the first `count` answers of an installation.
pub open spec fn install_storage(
    start: Storage,
    states: Seq<(Map<Seq<char>, InstalledPlugin>, InstallPlugin)>,
    replies: Seq<InstallReply>,
    count: nat,
) -> Storage
    decreases count,
{
    if count == 0 {
        start
    } else {
        install_storage_next(
            install_storage(start, states, replies, (count - 1) as nat),
            states[count - 1].1,
            replies[count - 1],
        )
    }
}

/// An installation that succeeds has stored under the plugin's identifier what
/// it has published under it.
pub proof fn law_install_stores_what_it_publishes(
    start: Storage,
    states: Seq<(Map<Seq<char>, InstalledPlugin>, InstallPlugin)>,
    replies: Seq<InstallReply>,
    at: nat,
)
    requires
        crate::installation::is_install_run(states, replies),
        agrees(states[0].0, start.installed),
        at < states.len(),
    ensures
        ({
            let now = install_storage(start, states, replies, at);
            match states[at as int].1 {
                InstallPlugin::CreateInstalled { prepared, .. } => now.workspace == Some(
                    prepared.info@,
                ) && now.installed == start.installed,
                InstallPlugin::AwaitLifecycle { prepared, .. } => now.workspace == Some(
                    prepared.info@,
                ) && now.installed == start.installed,
                InstallPlugin::RemoveInstalled { prepared, directory, .. } => {
                    &&& now.workspace == Some(prepared.info@)
                    &&& now.installed == start.installed
                    &&& crate::text::texts(directory@) == crate::packages::package_path(
                        prepared.info@.manifest.id,
                    )
                },
                InstallPlugin::Rename { prepared, directory, .. } => {
                    &&& now.workspace == Some(prepared.info@)
                    &&& now.installed == start.installed.remove(prepared.info@.manifest.id)
                    &&& crate::text::texts(directory@) == crate::packages::package_path(
                        prepared.info@.manifest.id,
                    )
                },
                InstallPlugin::Done(Ok(info)) => now.installed == start.installed.insert(
                    info@.manifest.id,
                    info@,
                ) && agrees(states[at as int].0, now.installed),
                InstallPlugin::RemoveWorkspace { .. } => true,
                InstallPlugin::Done(Err(_)) => true,
                _ => now.installed == start.installed,
            }
        }),
    decreases at,
{
    if at > 0 {
        law_install_stores_what_it_publishes(start, states, replies, (at - 1) as nat);
        crate::installation::law_install_replaces_one_entry(states, replies, at as int);
        let reply = replies[at - 1];
        assert(crate::installation::install_step(states[at - 1], reply, states[at as int]));
        let now = install_storage(start, states, replies, at);
        if let InstallPlugin::Done(Ok(info)) = states[at as int].1 {
            let id = info@.manifest.id;
            assert(now.installed =~= start.installed.insert(id, info@));
            assert(states[at as int].0.dom() =~= now.installed.dom());
        }
    }
}

/// What lies in the directories after a request of a removal was answered, as
/// far as the answers tell.
pub open spec fn removal_storage_next(
    before: Map<Seq<char>, PluginInfoView>,
    state: UninstallPlugin,
    reply: RemovalReply,
) -> Map<Seq<char>, PluginInfoView> {
    match (state, reply) {
        (
            UninstallPlugin::RemoveInstalled { directory },
            RemovalReply::Removed(answer),
        ) => if answer is Ok || answer->Err_0.not_found {
            before.remove(crate::text::texts(directory@).last())
        } else {
            before
        },
        _ => before,
    }
}

/// What lies in the directories after the first `count` answers of a removal.
pub open spec fn removal_storage(
    start: Map<Seq<char>, PluginInfoView>,
    states: Seq<(Map<Seq<char>, InstalledPlugin>, UninstallPlugin)>,
    replies: Seq<RemovalReply>,
    count: nat,
) -> Map<Seq<char>, PluginInfoView>
    decreases count,
{
    if count == 0 {
        start
    } else {
        removal_storage_next(
            removal_storage(start, states, replies, (count - 1) as nat),
            states[count - 1].1,
            replies[count - 1],
        )
    }
}

/// A removal on its own: the entries and what to do next.
pub open spec fn removal_step(
    before: (Map<Seq<char>, InstalledPlugin>, UninstallPlugin),
    reply: RemovalReply,
    after: (Map<Seq<char>, InstalledPlugin>, UninstallPlugin),
) -> bool {
    crate::packages::removal_next(before.0, before.1, reply, after.0, after.1)
}

/// A run of a removal on its own.
pub open spec fn is_removal_run(
    states: Seq<(Map<Seq<char>, InstalledPlugin>, UninstallPlugin)>,
    replies: Seq<RemovalReply>,
) -> bool {
    &&& crate::runs::is_run(
        |s: (Map<Seq<char>, InstalledPlugin>, UninstallPlugin), r, t| removal_step(s, r, t),
        states,
        replies,
    )
    &&& states[0].1 is AwaitLifecycle
}

/// A removal that succeeds has removed the plugin's directory and its entry, and
/// nothing else.
pub proof fn law_removal_removes_what_it_withdraws(
    start: Map<Seq<char>, PluginInfoView>,
    states: Seq<(Map<Seq<char>, InstalledPlugin>, UninstallPlugin)>,
    replies: Seq<RemovalReply>,
    at: nat,
)
    requires
        is_removal_run(states, replies),
        agrees(states[0].0, start),
        at < states.len(),
    ensures
        ({
            let id = states[0].1->id@;
            let now = removal_storage(start, states, replies, at);
            match states[at as int].1 {
                UninstallPlugin::AwaitLifecycle { .. } => states[at as int] == states[0] && now
                    == start,
                UninstallPlugin::RemoveInstalled { directory } => {
                    &&& crate::text::texts(directory@) == crate::packages::package_path(id)
                    &&& states[at as int].0 == states[0].0.remove(id)
                    &&& now == start
                },
                UninstallPlugin::Done(Ok(_)) => {
                    &&& states[at as int].0 == states[0].0.remove(id)
                    &&& now == start.remove(id)
                    &&& agrees(states[at as int].0, now)
                },
                UninstallPlugin::Done(Err(_)) => true,
            }
        }),
    decreases at,
{
    if at > 0 {
        law_removal_removes_what_it_withdraws(start, states, replies, (at - 1) as nat);
        let reply = replies[at - 1];
        assert(removal_step(states[at - 1], reply, states[at as int]));
        let now = removal_storage(start, states, replies, at);
        if states[at as int].1 matches UninstallPlugin::Done(Ok(_)) {
            assert(states[at as int].0.dom() =~= now.dom());
        }
    }
}

/// A catalog's entries, and what lies in its directories.
pub type Kept = (Map<Seq<char>, InstalledPlugin>, Map<Seq<char>, PluginInfoView>);

/// Whether an installation that succeeds leads from one catalog to another.
pub open spec fn is_install(
    before: Kept,
    states: Seq<(Map<Seq<char>, InstalledPlugin>, InstallPlugin)>,
    replies: Seq<InstallReply>,
    after: Kept,
) -> bool {
    let start = Storage { installed: before.1, workspace: None };
    &&& crate::installation::is_install_run(states, replies)
    &&& states[0].0 == before.0
    &&& states.last().1 matches InstallPlugin::Done(Ok(_))
    &&& after.0 == states.last().0
    &&& after.1 == install_storage(start, states, replies, replies.len()).installed
}

/// Whether a removal that succeeds leads from one catalog to another.
pub open spec fn is_removal(
    before: Kept,
    states: Seq<(Map<Seq<char>, InstalledPlugin>, UninstallPlugin)>,
    replies: Seq<RemovalReply>,
    after: Kept,
) -> bool {
    &&& is_removal_run(states, replies)
    &&& states[0].0 == before.0
    &&& states.last().1 matches UninstallPlugin::Done(Ok(_))
    &&& after.0 == states.last().0
    &&& after.1 == removal_storage(before.1, states, replies, replies.len())
}

/// Whether a load or a reload, however it ends, leads from one catalog to
/// another. It writes no files.
pub open spec fn is_load(
    before: Kept,
    states: Seq<(Map<Seq<char>, InstalledPlugin>, LoadComponent)>,
    replies: Seq<LoadReply>,
    after: Kept,
) -> bool {
    &&& crate::runs::is_run(
        |s: (Map<Seq<char>, InstalledPlugin>, LoadComponent), r, t|
            crate::loading::load_step(s, r, t),
        states,
        replies,
    )
    &&& states[0].1 is AwaitLifecycle
    &&& states[0].0 == before.0
    &&& after.0 == states.last().0
    &&& after.1 == before.1
}

/// Whether one operation leads from one catalog to another.
pub open spec fn is_operation(before: Kept, after: Kept) -> bool {
    ||| exists|
        states: Seq<(Map<Seq<char>, InstalledPlugin>, InstallPlugin)>,
        replies: Seq<InstallReply>,
    | #[trigger] is_install(before, states, replies, after)
    ||| exists|
        states: Seq<(Map<Seq<char>, InstalledPlugin>, UninstallPlugin)>,
        replies: Seq<RemovalReply>,
    | #[trigger] is_removal(before, states, replies, after)
    ||| exists|
        states: Seq<(Map<Seq<char>, InstalledPlugin>, LoadComponent)>,
        replies: Seq<LoadReply>,
    | #[trigger] is_load(before, states, replies, after)
}

/// Whether a sequence of catalogs comes about by one operation after the other,
/// from an empty root.
pub open spec fn is_history(catalogs: Seq<Kept>) -> bool
    decreases catalogs.len(),
{
    if catalogs.len() == 0 {
        false
    } else if catalogs.len() == 1 {
        catalogs[0] == (
            Map::<Seq<char>, InstalledPlugin>::empty(),
            Map::<Seq<char>, PluginInfoView>::empty(),
        )
    } else {
        is_history(catalogs.drop_last()) && is_operation(
            catalogs[catalogs.len() - 2],
            catalogs.last(),
        )
    }
}

/// After any installations, removals and loads, a catalog shows exactly what
/// lies in its directories, each package under its own identifier.
pub proof fn law_catalog_agrees_with_its_files(catalogs: Seq<Kept>)
    requires
        is_history(catalogs),
    ensures
        agrees(catalogs.last().0, catalogs.last().1),
        crate::catalog::well_keyed(catalogs.last().0),
    decreases catalogs.len(),
{
    if catalogs.len() > 1 {
        law_catalog_agrees_with_its_files(catalogs.drop_last());
        let before = catalogs[catalogs.len() - 2];
        let after = catalogs.last();
        assert(catalogs.drop_last().last() == before);
        if exists|
            states: Seq<(Map<Seq<char>, InstalledPlugin>, InstallPlugin)>,
            replies: Seq<InstallReply>,
        | #[trigger] is_install(before, states, replies, after) {
            let (states, replies) = choose|
                states: Seq<(Map<Seq<char>, InstalledPlugin>, InstallPlugin)>,
                replies: Seq<InstallReply>,
            | #[trigger] is_install(before, states, replies, after);
            let start = Storage { installed: before.1, workspace: None };
            law_install_stores_what_it_publishes(start, states, replies, replies.len());
            crate::installation::law_install_replaces_one_entry(
                states,
                replies,
                replies.len() as int,
            );
        } else if exists|
            states: Seq<(Map<Seq<char>, InstalledPlugin>, UninstallPlugin)>,
            replies: Seq<RemovalReply>,
        | #[trigger] is_removal(before, states, replies, after) {
            let (states, replies) = choose|
                states: Seq<(Map<Seq<char>, InstalledPlugin>, UninstallPlugin)>,
                replies: Seq<RemovalReply>,
            | #[trigger] is_removal(before, states, replies, after);
            law_removal_removes_what_it_withdraws(before.1, states, replies, replies.len());
        } else {
            let (states, replies) = choose|
                states: Seq<(Map<Seq<char>, InstalledPlugin>, LoadComponent)>,
                replies: Seq<LoadReply>,
            | #[trigger] is_load(before, states, replies, after);
            crate::loading::law_loading_keeps_metadata(states, replies, replies.len() as int);
            let id = states[0].1->id@;
            assert forall|other: Seq<char>| #[trigger] after.1.contains_key(other) implies
                crate::catalog::entry_info(after.0[other])@ == after.1[other] by {
                if other != id {
                    assert(after.0.remove(id)[other] == before.0.remove(id)[other]);
                    assert(after.0.remove(id).contains_key(other));
                }
            }
        }
    }
}

/// Whether the answer to a request of a scan is the metadata of a package.
pub open spec fn is_scanned(
    states: Seq<OpenPlugins>,
    replies: Seq<ScanReply>,
    i: int,
    info: PluginInfo,
) -> bool {
    &&& states[i] is ReadMetadata
    &&& replies[i] == ScanReply::Metadata(Ok(Ok(info)))
}

/// Whether a scan has read the metadata of every directory as it lies there, and
/// of nothing else.
pub open spec fn reads_back(
    installed: Map<Seq<char>, PluginInfoView>,
    states: Seq<OpenPlugins>,
    replies: Seq<ScanReply>,
    at: int,
) -> bool {
    &&& forall|i: int, info: PluginInfo|
        0 <= i < at && #[trigger] is_scanned(states, replies, i, info) ==> exists|id: Seq<char>|
            #[trigger] installed.contains_key(id) && installed[id] == info@
    &&& forall|id: Seq<char>| #[trigger]
        installed.contains_key(id) ==> exists|i: int, info: PluginInfo|
            0 <= i < at && #[trigger] is_scanned(states, replies, i, info) && info@
                == installed[id]
}

proof fn lemma_scanned_is_stored(
    installed: Map<Seq<char>, PluginInfoView>,
    states: Seq<OpenPlugins>,
    replies: Seq<ScanReply>,
    at: int,
    count: nat,
)
    requires
        reads_back(installed, states, replies, at),
        forall|id: Seq<char>| #[trigger]
            installed.contains_key(id) ==> installed[id].manifest.id == id,
        count <= at,
    ensures
        forall|id: Seq<char>| #[trigger]
            crate::packages::scanned(states, replies, count).contains_key(id) ==> {
                &&& installed.contains_key(id)
                &&& crate::catalog::entry_info(
                    crate::packages::scanned(states, replies, count)[id],
                )@ == installed[id]
            },
        forall|i: int, info: PluginInfo|
            0 <= i < count && #[trigger] is_scanned(states, replies, i, info)
                ==> crate::packages::scanned(states, replies, count).contains_key(
                info@.manifest.id,
            ),
    decreases count,
{
    if count > 0 {
        lemma_scanned_is_stored(installed, states, replies, at, (count - 1) as nat);
        let before = crate::packages::scanned(states, replies, (count - 1) as nat);
        let now = crate::packages::scanned(states, replies, count);
        if states[count - 1] is ReadMetadata && replies[count - 1] matches ScanReply::Metadata(
            Ok(Ok(_)),
        ) {
            let info = replies[count - 1]->Metadata_0->Ok_0->Ok_0;
            assert(is_scanned(states, replies, count - 1, info));
            let stored = choose|id: Seq<char>| #[trigger]
                installed.contains_key(id) && installed[id] == info@;
            assert(installed.contains_key(stored) && installed[stored] == info@);
            assert(now == before.insert(stored, InstalledPlugin::Uncompiled(info)));
        } else {
            assert(now == before);
        }
    }
}

/// A catalog that is opened over the root of another one lists what that one
/// lists, manifests and interfaces alike: after any installations, removals and
/// loads, if the metadata reads back.
pub proof fn law_reopened_catalog_lists_alike(
    catalogs: Seq<Kept>,
    infos: Seq<PluginInfo>,
    states: Seq<OpenPlugins>,
    replies: Seq<ScanReply>,
    at: nat,
    reopened_infos: Seq<PluginInfo>,
)
    requires
        is_history(catalogs),
        crate::catalog::is_listing(catalogs.last().0, infos),
        crate::runs::is_run(
            |s: OpenPlugins, r: ScanReply, t: OpenPlugins| crate::packages::scan_next(s, r, t),
            states,
            replies,
        ),
        states[0] is ReadInstalled,
        at < states.len(),
        reads_back(catalogs.last().1, states, replies, at as int),
        states[at as int] matches OpenPlugins::Opened(reopened) && crate::catalog::is_listing(
            reopened@,
            reopened_infos,
        ),
    ensures
        infos.len() == reopened_infos.len(),
        forall|i: int| 0 <= i < infos.len() ==> (#[trigger] infos[i])@ == reopened_infos[i]@,
{
    let entries = catalogs.last().0;
    let installed = catalogs.last().1;
    let reopened = states[at as int]->Opened_0@;
    law_catalog_agrees_with_its_files(catalogs);
    crate::packages::law_open_takes_all_scanned(states, replies, at);
    assert forall|id: Seq<char>| #[trigger] installed.contains_key(id) implies
        installed[id].manifest.id == id by {
        assert(entries.contains_key(id));
        assert(crate::catalog::entry_id(entries[id]) == id);
    }
    lemma_scanned_is_stored(installed, states, replies, at as int, at);
    assert forall|id: Seq<char>| entries.contains_key(id) implies #[trigger] reopened.contains_key(
        id,
    ) by {
        assert(installed.contains_key(id));
        let (i, info) = choose|i: int, info: PluginInfo|
            0 <= i < at && #[trigger] is_scanned(states, replies, i, info) && info@
                == installed[id];
        assert(is_scanned(states, replies, i, info));
    }
    assert forall|id: Seq<char>| #[trigger] reopened.contains_key(id) implies
        entries.contains_key(id) by {
        assert(installed.contains_key(id));
    }
    assert(entries.dom() =~= reopened.dom());
    assert forall|id: Seq<char>| #[trigger] entries.contains_key(id) implies
        crate::catalog::entry_info(entries[id])@ == crate::catalog::entry_info(reopened[id])@ by {
        assert(reopened.contains_key(id));
        assert(installed.contains_key(id));
    }
    crate::catalog::law_equal_metadata_is_listed_alike(entries, reopened, infos, reopened_infos);
}

/// Whether a step of a load that publishes no code of a plugin leads from some
/// entries to others.
pub open spec fn is_sparing_load(
    before: Map<Seq<char>, InstalledPlugin>,
    state: LoadComponent,
    reply: LoadReply,
    next: LoadComponent,
    after: Map<Seq<char>, InstalledPlugin>,
    id: Seq<char>,
) -> bool {
    &&& crate::loading::load_next(before, state, reply, after, next)
    &&& state matches LoadComponent::Publish { plugin } ==> plugin.info@.manifest.id != id
}

/// Whether a step of an installation of another plugin leads from some entries
/// to others.
pub open spec fn is_sparing_install(
    before: Map<Seq<char>, InstalledPlugin>,
    state: InstallPlugin,
    reply: InstallReply,
    next: InstallPlugin,
    after: Map<Seq<char>, InstalledPlugin>,
    id: Seq<char>,
) -> bool {
    &&& crate::installation::install_next(before, state, reply, after, next)
    &&& crate::installation::prepared_package(state) matches Some(prepared)
        ==> prepared.info@.manifest.id != id
}

/// Whether a step of a removal of another plugin leads from some entries to
/// others.
pub open spec fn is_sparing_removal(
    before: Map<Seq<char>, InstalledPlugin>,
    state: UninstallPlugin,
    reply: RemovalReply,
    next: UninstallPlugin,
    after: Map<Seq<char>, InstalledPlugin>,
    id: Seq<char>,
) -> bool {
    &&& crate::packages::removal_next(before, state, reply, after, next)
    &&& state matches UninstallPlugin::AwaitLifecycle { id: removed } ==> removed@ != id
}

/// Whether one step of any operation that does not publish, install or remove a
/// plugin leads from some entries to others.
pub open spec fn is_sparing_step(
    before: Map<Seq<char>, InstalledPlugin>,
    after: Map<Seq<char>, InstalledPlugin>,
    id: Seq<char>,
) -> bool {
    ||| exists|state: LoadComponent, reply: LoadReply, next: LoadComponent| #[trigger]
        is_sparing_load(before, state, reply, next, after, id)
    ||| exists|state: InstallPlugin, reply: InstallReply, next: InstallPlugin| #[trigger]
        is_sparing_install(before, state, reply, next, after, id)
    ||| exists|state: UninstallPlugin, reply: RemovalReply, next: UninstallPlugin| #[trigger]
        is_sparing_removal(before, state, reply, next, after, id)
}

/// Whether entries follow each other by steps of operations, mixed in any way,
/// that do not publish, install or remove a plugin.
pub open spec fn spares(entries: Seq<Map<Seq<char>, InstalledPlugin>>, id: Seq<char>) -> bool
    decreases entries.len(),
{
    if entries.len() == 0 {
        false
    } else if entries.len() == 1 {
        true
    } else {
        spares(entries.drop_last(), id) && is_sparing_step(
            entries[entries.len() - 2],
            entries.last(),
            id,
        )
    }
}

proof fn lemma_spared_entry_stays(entries: Seq<Map<Seq<char>, InstalledPlugin>>, id: Seq<char>)
    requires
        spares(entries, id),
    ensures
        entries.last().contains_key(id) == entries[0].contains_key(id),
        entries[0].contains_key(id) ==> entries.last()[id] == entries[0][id],
    decreases entries.len(),
{
    if entries.len() > 1 {
        lemma_spared_entry_stays(entries.drop_last(), id);
        let before = entries[entries.len() - 2];
        let after = entries.last();
        assert(entries.drop_last().last() == before);
        assert(entries.drop_last()[0] == entries[0]);
    }
}

/// Code that the catalog keeps is what every later load of the package gets at
/// once, with nothing read or compiled, until it is published anew, installed or
/// removed: whatever steps of other operations come between.
pub proof fn law_kept_code_is_handed_out(
    entries: Seq<Map<Seq<char>, InstalledPlugin>>,
    id: Seq<char>,
    plugin: Arc<CompiledPlugin>,
    later: LoadComponent,
)
    requires
        spares(entries, id),
        entries[0].contains_key(id),
        entries[0][id] == InstalledPlugin::Compiled(plugin),
        crate::loading::is_load_start(entries.last(), id, false, later),
    ensures
        later == LoadComponent::Done(Ok(plugin)),
{
    lemma_spared_entry_stays(entries, id);
}

}
