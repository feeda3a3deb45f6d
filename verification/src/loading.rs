//! Loading the code of an installed package: compiled once and kept, or
//! compiled afresh.

use std::sync::Arc;

use vstd::prelude::*;

use wasmtime::component::Component;

use crate::adapters::share;
use crate::catalog::{CompiledPlugin, InstalledPlugin};
use crate::error::{IoFailure, PluginError};
use crate::manifest::PluginInfo;
use crate::package::COMPONENT_FILE;
use crate::packages::{directory, Plugins};
use crate::runtime::Runtime;

verus! {

broadcast use vstd::string::group_string_axioms;

/// Loading a package's code: what to do next.
pub enum LoadComponent {
    /// Await the lifecycle lock.
    AwaitLifecycle { id: String, reload: bool },
    /// Read the component at this path beneath the root.
    ReadComponent { info: PluginInfo, path: Vec<String>, runtime: Arc<Runtime> },
    /// Compile the component.
    Compile { info: PluginInfo, bytes: Vec<u8>, runtime: Arc<Runtime> },
    /// Publish the compiled code in the catalog.
    Publish { plugin: Arc<CompiledPlugin> },
    /// Nothing more to do.
    Done(Result<Arc<CompiledPlugin>, PluginError>),
}

/// An answer to what a [`LoadComponent`] asks for.
#[derive(Debug)]
pub enum LoadReply {
    /// The lifecycle lock is held.
    Locked,
    /// The component's bytes.
    Component(Result<Vec<u8>, IoFailure>),
    /// The component may be compiled now.
    Compile,
    /// The compiled code may be published now.
    Publish,
}

/// The path of a plugin's component beneath the catalog's root.
pub open spec fn component_path(id: Seq<char>) -> Seq<Seq<char>> {
    crate::packages::package_path(id).push(COMPONENT_FILE@)
}

/// Whether loading begins as it should: with the code that is kept already, or
/// with the work to get it.
pub open spec fn is_load_start(
    entries: Map<Seq<char>, InstalledPlugin>,
    id: Seq<char>,
    reload: bool,
    out: LoadComponent,
) -> bool {
    if !reload && !entries.contains_key(id) {
        out matches LoadComponent::Done(Err(PluginError::NotFound(text))) && text@ == id
    } else if !reload && entries[id] is Compiled {
        out == LoadComponent::Done(Ok(entries[id]->Compiled_0))
    } else {
        out matches LoadComponent::AwaitLifecycle { id: kept, reload: again } && kept@ == id
            && again == reload
    }
}

/// Whether a step to compile ends as it should: with code that the runtime at
/// hand has compiled from the binary, under the metadata at hand, or with the
/// runtime's error.
pub open spec fn is_compiled(
    info: PluginInfo,
    bytes: Seq<u8>,
    runtime: Arc<Runtime>,
    after: LoadComponent,
) -> bool {
    match after {
        LoadComponent::Publish { plugin } => {
            &&& plugin.info == info
            &&& crate::runtime::is_compiled_by(*runtime, bytes, plugin.component)
        },
        LoadComponent::Done(Err(error)) => error is Runtime,
        _ => false,
    }
}

/// One step of loading: the entries before and after it, and what to do next.
/// An answer to something else leaves everything as it is.
pub open spec fn load_next(
    entries: Map<Seq<char>, InstalledPlugin>,
    before: LoadComponent,
    reply: LoadReply,
    entries_after: Map<Seq<char>, InstalledPlugin>,
    after: LoadComponent,
) -> bool {
    match (before, reply) {
        (LoadComponent::AwaitLifecycle { id, reload }, LoadReply::Locked) => {
            &&& entries_after == entries
            &&& if !entries.contains_key(id@) {
                after == LoadComponent::Done(Err(PluginError::NotFound(id)))
            } else if !reload && entries[id@] is Compiled {
                after == LoadComponent::Done(Ok(entries[id@]->Compiled_0))
            } else {
                after matches LoadComponent::ReadComponent { info, path, .. } && info@
                    == crate::catalog::entry_info(entries[id@])@ && crate::text::texts(path@)
                    == component_path(id@)
            }
        },
        (LoadComponent::ReadComponent { .. }, LoadReply::Component(Err(failure))) => entries_after
            == entries && after == LoadComponent::Done(Err(PluginError::Io(failure))),
        (
            LoadComponent::ReadComponent { info, runtime, .. },
            LoadReply::Component(Ok(bytes)),
        ) => entries_after == entries && after == (LoadComponent::Compile { info, bytes, runtime }),
        (LoadComponent::Compile { info, bytes, runtime }, LoadReply::Compile) => entries_after
            == entries && is_compiled(info, bytes@, runtime, after),
        (LoadComponent::Publish { plugin }, LoadReply::Publish) => {
            &&& entries_after == entries.insert(
                plugin.info@.manifest.id,
                InstalledPlugin::Compiled(plugin),
            )
            &&& after == LoadComponent::Done(Ok(plugin))
        },
        _ => entries_after == entries && after == before,
    }
}

impl LoadComponent {
    /// What follows once the component was compiled, or was not.
    pub fn compiled(info: PluginInfo, component: Result<Component, PluginError>) -> (out:
        LoadComponent)
        ensures
            match component {
                Ok(component) => out matches LoadComponent::Publish { plugin } && plugin.info == info
                    && plugin.component == component,
                Err(error) => out == LoadComponent::Done(Err(error)),
            },
    {
        match component {
            Ok(component) => LoadComponent::Publish {
                plugin: Arc::new(CompiledPlugin { info, component }),
            },
            Err(error) => LoadComponent::Done(Err(error)),
        }
    }

    /// Compiles the component, if that is what is to be done. The catalog may
    /// be used meanwhile.
    pub fn compile(self) -> (out: LoadComponent)
        ensures
            match self {
                LoadComponent::Compile { info, bytes, runtime } => is_compiled(
                    info,
                    bytes@,
                    runtime,
                    out,
                ),
                _ => out == self,
            },
    {
        match self {
            LoadComponent::Compile { info, bytes, runtime } => {
                let component = runtime.compile(&bytes);
                LoadComponent::compiled(info, component)
            },
            state => state,
        }
    }
}

impl Plugins {
    /// Begins to load the code of the package that is installed under the
    /// identifier of some metadata. Code that was compiled before is kept.
    pub fn load(&self, info: &PluginInfo) -> (out: LoadComponent)
        ensures
            is_load_start(self@, info@.manifest.id, false, out),
    {
        self.load_component(&info.manifest.id, false)
    }

    /// Begins to compile a fresh snapshot of the installed code for later
    /// loads.
    pub fn reload(&self, id: &str) -> (out: LoadComponent)
        ensures
            is_load_start(self@, id@, true, out),
    {
        self.load_component(id, true)
    }

    /// Begins to load the code of the package under an identifier: the code that
    /// is kept, unless it is to be compiled afresh.
    pub fn load_component(&self, id: &str, reload: bool) -> (out: LoadComponent)
        ensures
            is_load_start(self@, id@, reload, out),
    {
        if !reload {
            match self.entry(id) {
                None => {
                    return LoadComponent::Done(Err(PluginError::NotFound(id.to_owned())));
                },
                Some(InstalledPlugin::Compiled(compiled)) => {
                    return LoadComponent::Done(Ok(share(compiled)));
                },
                Some(InstalledPlugin::Uncompiled(_)) => {},
            }
        }
        LoadComponent::AwaitLifecycle { id: id.to_owned(), reload }
    }

    /// Takes the answer to what a load asked for. Code can be published only
    /// for a package that is still installed.
    pub fn resume_load(&mut self, state: LoadComponent, reply: LoadReply) -> (out: LoadComponent)
        requires
            state matches LoadComponent::Publish { plugin } ==> old(self)@.contains_key(
                plugin.info@.manifest.id,
            ),
        ensures
            load_next(old(self)@, state, reply, final(self)@, out),
            final(self).compiler() == old(self).compiler(),
            out matches LoadComponent::ReadComponent { runtime, .. } ==> state is AwaitLifecycle
                ==> runtime == old(self).compiler(),
    {
        match (state, reply) {
            (LoadComponent::AwaitLifecycle { id, reload }, LoadReply::Locked) => {
                let info = match self.entry(&id) {
                    None => {
                        return LoadComponent::Done(Err(PluginError::NotFound(id)));
                    },
                    Some(entry) => {
                        if !reload {
                            if let InstalledPlugin::Compiled(compiled) = entry {
                                return LoadComponent::Done(Ok(share(compiled)));
                            }
                        }
                        entry.info().clone()
                    },
                };
                let mut path = directory(&id);
                let ghost before = path@;
                path.push(COMPONENT_FILE.to_owned());
                assert(crate::text::texts(path@) =~= crate::text::texts(before).push(
                    COMPONENT_FILE@,
                ));
                LoadComponent::ReadComponent { info, path, runtime: self.runtime() }
            },
            (
                LoadComponent::ReadComponent { .. },
                LoadReply::Component(Err(failure)),
            ) => LoadComponent::Done(Err(PluginError::Io(failure))),
            (
                LoadComponent::ReadComponent { info, runtime, .. },
                LoadReply::Component(Ok(bytes)),
            ) => LoadComponent::Compile { info, bytes, runtime },
            (LoadComponent::Compile { info, bytes, runtime }, LoadReply::Compile) => {
                LoadComponent::Compile { info, bytes, runtime }.compile()
            },
            (LoadComponent::Publish { plugin }, LoadReply::Publish) => {
                self.publish(InstalledPlugin::Compiled(share(&plugin)));
                LoadComponent::Done(Ok(plugin))
            },
            (state, _) => state,
        }
    }
}

/// Loading on its own: the entries and what to do next.
pub open spec fn load_step(
    before: (Map<Seq<char>, InstalledPlugin>, LoadComponent),
    reply: LoadReply,
    after: (Map<Seq<char>, InstalledPlugin>, LoadComponent),
) -> bool {
    load_next(before.0, before.1, reply, after.0, after.1)
}

/// The metadata that a load works with, from when it has read it on.
pub open spec fn load_info(state: LoadComponent) -> Option<PluginInfo> {
    match state {
        LoadComponent::ReadComponent { info, .. } => Some(info),
        LoadComponent::Compile { info, .. } => Some(info),
        LoadComponent::Publish { plugin } => Some(plugin.info),
        LoadComponent::Done(Ok(plugin)) => Some(plugin.info),
        _ => None,
    }
}

/// A load or reload of an installed package never changes its metadata, nor any
/// other entry, and what is loaded carries the metadata of the entry.
pub proof fn law_loading_keeps_metadata(
    states: Seq<(Map<Seq<char>, InstalledPlugin>, LoadComponent)>,
    replies: Seq<LoadReply>,
    at: int,
)
    requires
        crate::runs::is_run(
            |s: (Map<Seq<char>, InstalledPlugin>, LoadComponent), r, t| load_step(s, r, t),
            states,
            replies,
        ),
        crate::catalog::well_keyed(states[0].0),
        states[0].1 is AwaitLifecycle,
        0 <= at < states.len(),
    ensures
        ({
            let id = states[0].1->id@;
            let start = states[0].0;
            let now = states[at].0;
            &&& states[at].1 is AwaitLifecycle ==> states[at].1 == states[0].1
            &&& crate::catalog::well_keyed(now)
            &&& now.dom() == start.dom()
            &&& now.remove(id) == start.remove(id)
            &&& start.contains_key(id) ==> crate::catalog::entry_info(now[id])@
                == crate::catalog::entry_info(start[id])@
            &&& load_info(states[at].1) matches Some(info) ==> start.contains_key(id) && info@
                == crate::catalog::entry_info(start[id])@
        }),
    decreases at,
{
    let id = states[0].1->id@;
    let start = states[0].0;
    if at > 0 {
        law_loading_keeps_metadata(states, replies, at - 1);
        let reply = replies[at - 1];
        assert(load_step(states[at - 1], reply, states[at]));
        let before = states[at - 1].0;
        let now = states[at].0;
        assert(now.dom() =~= start.dom());
        if let (LoadComponent::Publish { plugin }, LoadReply::Publish) = (
            states[at - 1].1,
            reply,
        ) {
            assert(plugin.info@.manifest.id == id) by {
                assert(crate::catalog::entry_id(start[id]) == id);
            }
            assert(now.remove(id) =~= before.remove(id));
        }
    }
}

/// Code that was published is what later loads get, without compiling again.
pub proof fn law_published_code_is_kept(
    entries: Map<Seq<char>, InstalledPlugin>,
    plugin: Arc<CompiledPlugin>,
    entries_after: Map<Seq<char>, InstalledPlugin>,
    done: LoadComponent,
    later: LoadComponent,
)
    requires
        load_next(
            entries,
            LoadComponent::Publish { plugin },
            LoadReply::Publish,
            entries_after,
            done,
        ),
        is_load_start(entries_after, plugin.info@.manifest.id, false, later),
    ensures
        done == LoadComponent::Done(Ok(plugin)),
        later == LoadComponent::Done(Ok(plugin)),
{
}

/// A reload of an installed package reads its component again, whether or not
/// compiled code is kept.
pub proof fn law_reload_compiles_afresh(
    entries: Map<Seq<char>, InstalledPlugin>,
    id: Seq<char>,
    start: LoadComponent,
    entries_after: Map<Seq<char>, InstalledPlugin>,
    next: LoadComponent,
)
    requires
        is_load_start(entries, id, true, start),
        entries.contains_key(id),
        load_next(entries, start, LoadReply::Locked, entries_after, next),
    ensures
        next matches LoadComponent::ReadComponent { path, .. } && crate::text::texts(path@)
            == component_path(id),
        entries_after == entries,
{
}

/// A package that is not installed is reported as such, by a load and by a
/// reload, and nothing is read.
pub proof fn law_missing_packages_are_reported(
    entries: Map<Seq<char>, InstalledPlugin>,
    id: Seq<char>,
    reload: bool,
    start: LoadComponent,
    entries_after: Map<Seq<char>, InstalledPlugin>,
    next: LoadComponent,
)
    requires
        !entries.contains_key(id),
        is_load_start(entries, id, reload, start),
        load_next(entries, start, LoadReply::Locked, entries_after, next),
    ensures
        next matches LoadComponent::Done(Err(PluginError::NotFound(text))) && text@ == id,
        entries_after == entries,
{
}

/// While the lifecycle lock is held, code to be published finds the entry of its
/// package in the catalog.
pub proof fn law_publishing_finds_its_entry(
    states: Seq<(Map<Seq<char>, InstalledPlugin>, LoadComponent)>,
    replies: Seq<LoadReply>,
    at: int,
)
    requires
        crate::runs::is_run(
            |s: (Map<Seq<char>, InstalledPlugin>, LoadComponent), r, t| load_step(s, r, t),
            states,
            replies,
        ),
        crate::catalog::well_keyed(states[0].0),
        states[0].1 is AwaitLifecycle,
        0 <= at < states.len(),
    ensures
        states[at].1 matches LoadComponent::Publish { plugin } ==> states[at].0.contains_key(
            plugin.info@.manifest.id,
        ),
{
    law_loading_keeps_metadata(states, replies, at);
    let id = states[0].1->id@;
    if states[0].0.contains_key(id) {
        assert(crate::catalog::entry_id(states[0].0[id]) == id);
        assert(states[at].0.dom().contains(id));
    }
}

/// Whatever else happens to the catalog between the steps of a load, a step
/// changes at most the entry of the code that is published.
pub proof fn law_load_touches_its_own_entry(
    entries: Map<Seq<char>, InstalledPlugin>,
    before: LoadComponent,
    reply: LoadReply,
    entries_after: Map<Seq<char>, InstalledPlugin>,
    after: LoadComponent,
)
    requires
        load_next(entries, before, reply, entries_after, after),
    ensures
        match before {
            LoadComponent::Publish { plugin } => entries_after.remove(plugin.info@.manifest.id)
                == entries.remove(plugin.info@.manifest.id),
            _ => entries_after == entries,
        },
{
    if let LoadComponent::Publish { plugin } = before {
        let id = plugin.info@.manifest.id;
        assert(entries_after.remove(id) =~= entries.remove(id));
    }
}

/// Code that a load puts into the catalog or hands out consumes fuel.
pub proof fn law_loaded_code_is_metered(
    states: Seq<(Map<Seq<char>, InstalledPlugin>, LoadComponent)>,
    replies: Seq<LoadReply>,
    at: int,
)
    requires
        crate::runs::is_run(
            |s: (Map<Seq<char>, InstalledPlugin>, LoadComponent), r, t| load_step(s, r, t),
            states,
            replies,
        ),
        states[0].1 is AwaitLifecycle,
        crate::catalog::is_metered(states[0].0),
        0 <= at < states.len(),
    ensures
        crate::catalog::is_metered(states[at].0),
        match states[at].1 {
            LoadComponent::Publish { plugin } => crate::runtime::component_settings(
                plugin.component,
            ) == (true, true),
            LoadComponent::Done(Ok(plugin)) => crate::runtime::component_settings(
                plugin.component,
            ) == (true, true),
            _ => true,
        },
    decreases at,
{
    if at > 0 {
        law_loaded_code_is_metered(states, replies, at - 1);
        let reply = replies[at - 1];
        assert(load_step(states[at - 1], reply, states[at]));
    }
}

/// Code that a load hands out is what the catalog keeps for the package.
pub proof fn law_loaded_code_is_in_the_catalog(
    states: Seq<(Map<Seq<char>, InstalledPlugin>, LoadComponent)>,
    replies: Seq<LoadReply>,
    at: int,
)
    requires
        crate::runs::is_run(
            |s: (Map<Seq<char>, InstalledPlugin>, LoadComponent), r, t| load_step(s, r, t),
            states,
            replies,
        ),
        crate::catalog::well_keyed(states[0].0),
        states[0].1 is AwaitLifecycle,
        0 <= at < states.len(),
    ensures
        states[at].1 matches LoadComponent::Done(Ok(plugin)) ==> {
            &&& states[at].0.contains_key(states[0].1->id@)
            &&& states[at].0[states[0].1->id@] == InstalledPlugin::Compiled(plugin)
        },
    decreases at,
{
    if at > 0 {
        law_loaded_code_is_in_the_catalog(states, replies, at - 1);
        law_loading_keeps_metadata(states, replies, at - 1);
        let reply = replies[at - 1];
        assert(load_step(states[at - 1], reply, states[at]));
        let id = states[0].1->id@;
        if let LoadComponent::Publish { plugin } = states[at - 1].1 {
            assert(crate::catalog::entry_id(states[0].0[id]) == id);
            assert(plugin.info@.manifest.id == id);
        }
    }
}

/// A load that is no reload hands out the code that is kept, and leaves the
/// catalog as it is.
pub proof fn law_loads_spare_kept_code(
    states: Seq<(Map<Seq<char>, InstalledPlugin>, LoadComponent)>,
    replies: Seq<LoadReply>,
    at: int,
    plugin: Arc<CompiledPlugin>,
)
    requires
        crate::runs::is_run(
            |s: (Map<Seq<char>, InstalledPlugin>, LoadComponent), r, t| load_step(s, r, t),
            states,
            replies,
        ),
        states[0].1 matches LoadComponent::AwaitLifecycle { id, reload } && !reload
            && states[0].0.contains_key(id@) && states[0].0[id@] == InstalledPlugin::Compiled(
            plugin,
        ),
        0 <= at < states.len(),
    ensures
        states[at].0 == states[0].0,
        states[at].1 == states[0].1 || states[at].1 == LoadComponent::Done(Ok(plugin)),
    decreases at,
{
    if at > 0 {
        law_loads_spare_kept_code(states, replies, at - 1, plugin);
        let reply = replies[at - 1];
        assert(load_step(states[at - 1], reply, states[at]));
    }
}

/// Whether code was compiled, by the runtime that a load was given, from all the
/// bytes that an answer to its request for the component holds.
pub open spec fn was_compiled_from_an_answer(
    states: Seq<(Map<Seq<char>, InstalledPlugin>, LoadComponent)>,
    replies: Seq<LoadReply>,
    count: int,
    plugin: Arc<CompiledPlugin>,
) -> bool {
    exists|i: int|
        0 <= i < count && (#[trigger] replies[i] matches LoadReply::Component(Ok(bytes)) && (
        states[i].1 matches LoadComponent::ReadComponent { runtime, .. } && {
            &&& crate::runtime::component_engine(plugin.component) == runtime.compiler()
            &&& crate::runtime::component_exports(plugin.component)
                == crate::runtime::binary_exports(bytes@)
        }))
}

/// Code that a load is to publish, and code that it hands out, was compiled from
/// exactly the bytes that it was given for the component; only a load that is no
/// reload hands out code that is kept already.
pub proof fn law_loaded_code_is_what_was_read(
    states: Seq<(Map<Seq<char>, InstalledPlugin>, LoadComponent)>,
    replies: Seq<LoadReply>,
    at: int,
)
    requires
        crate::runs::is_run(
            |s: (Map<Seq<char>, InstalledPlugin>, LoadComponent), r, t| load_step(s, r, t),
            states,
            replies,
        ),
        states[0].1 is AwaitLifecycle,
        0 <= at < states.len(),
    ensures
        match states[at].1 {
            LoadComponent::AwaitLifecycle { .. } => states[at] == states[0],
            LoadComponent::Compile { bytes, runtime, .. } => exists|i: int|
                0 <= i < at && #[trigger] replies[i] == LoadReply::Component(Ok(bytes)) && (
                states[i].1 matches LoadComponent::ReadComponent { runtime: given, .. } && given
                    == runtime),
            LoadComponent::Publish { plugin } => was_compiled_from_an_answer(
                states,
                replies,
                at,
                plugin,
            ),
            LoadComponent::Done(Ok(plugin)) => {
                ||| was_compiled_from_an_answer(states, replies, at, plugin)
                ||| !states[0].1->reload && states[0].0.contains_key(states[0].1->id@)
                    && states[0].0[states[0].1->id@] == InstalledPlugin::Compiled(plugin)
            },
            _ => true,
        },
    decreases at,
{
    if at > 0 {
        law_loaded_code_is_what_was_read(states, replies, at - 1);
        let reply = replies[at - 1];
        assert(load_step(states[at - 1], reply, states[at]));
        if let (LoadComponent::Compile { bytes, runtime, .. }, LoadReply::Compile) = (
            states[at - 1].1,
            reply,
        ) {
            let i = choose|i: int|
                0 <= i < at - 1 && #[trigger] replies[i] == LoadReply::Component(Ok(bytes)) && (
                states[i].1 matches LoadComponent::ReadComponent { runtime: given, .. } && given
                    == runtime);
            assert(replies[i] == LoadReply::Component(Ok(bytes)));
        }
    }
}

/// A load or reload comes to what its steps come to, whatever else happens to
/// the catalog between them. A package that is not there is reported; a load
/// hands out code that is kept; and otherwise the component of that very package
/// is read and compiled as it was read, and the code is published under the
/// metadata of the package's entry and handed out. The first failure is what it
/// ends with, and then the catalog is left alone.
pub proof fn law_load_comes_to_its_steps(
    id: Seq<char>,
    reload: bool,
    component: Result<Vec<u8>, IoFailure>,
    starting: Map<Seq<char>, InstalledPlugin>,
    locking: (Map<Seq<char>, InstalledPlugin>, Map<Seq<char>, InstalledPlugin>),
    reading: (Map<Seq<char>, InstalledPlugin>, Map<Seq<char>, InstalledPlugin>),
    compiling: (Map<Seq<char>, InstalledPlugin>, Map<Seq<char>, InstalledPlugin>),
    publishing: (Map<Seq<char>, InstalledPlugin>, Map<Seq<char>, InstalledPlugin>),
    states: (LoadComponent, LoadComponent, LoadComponent, LoadComponent, LoadComponent),
)
    requires
        is_load_start(starting, id, reload, states.0),
        load_next(locking.0, states.0, LoadReply::Locked, locking.1, states.1),
        load_next(reading.0, states.1, LoadReply::Component(component), reading.1, states.2),
        load_next(compiling.0, states.2, LoadReply::Compile, compiling.1, states.3),
        load_next(publishing.0, states.3, LoadReply::Publish, publishing.1, states.4),
    ensures
        locking.1 == locking.0,
        reading.1 == reading.0,
        compiling.1 == compiling.0,
        states.4 is Done,
        states.4 matches LoadComponent::Done(Err(_)) ==> publishing.1 == publishing.0,
        if !reload && !starting.contains_key(id) {
            states.4 matches LoadComponent::Done(Err(PluginError::NotFound(text))) && text@ == id
        } else if !reload && starting[id] is Compiled {
            states.4 == LoadComponent::Done(Ok(starting[id]->Compiled_0)) && publishing.1
                == publishing.0
        } else if !locking.0.contains_key(id) {
            states.4 matches LoadComponent::Done(Err(PluginError::NotFound(text))) && text@ == id
        } else if !reload && locking.0[id] is Compiled {
            states.4 == LoadComponent::Done(Ok(locking.0[id]->Compiled_0)) && publishing.1
                == publishing.0
        } else {
            let known = match locking.0[id] {
                InstalledPlugin::Uncompiled(info) => info@,
                InstalledPlugin::Compiled(plugin) => plugin.info@,
            };
            &&& states.1 matches LoadComponent::ReadComponent { info, path, .. } && info@ == known
                && path@.len() == 3 && path@[0]@ == "installed"@ && path@[1]@ == id && path@[2]@
                == "plugin.wasm"@
            &&& match component {
                Err(failure) => states.4 == LoadComponent::Done(Err(PluginError::Io(failure))),
                Ok(bytes) => match states.3 {
                    LoadComponent::Publish { plugin } => {
                        let runtime = states.1->ReadComponent_runtime;
                        &&& plugin.info@ == known
                        &&& crate::runtime::component_engine(plugin.component)
                            == runtime.compiler()
                        &&& crate::runtime::component_exports(plugin.component)
                            == crate::runtime::binary_exports(bytes@)
                        &&& publishing.1 == publishing.0.insert(
                            known.manifest.id,
                            InstalledPlugin::Compiled(plugin),
                        )
                        &&& states.4 == LoadComponent::Done(Ok(plugin))
                    },
                    LoadComponent::Done(Err(error)) => error is Runtime && states.4 == states.3,
                    _ => false,
                },
            }
        },
{
    if let LoadComponent::ReadComponent { path, .. } = states.1 {
        assert(crate::text::texts(path@).len() == path@.len());
        if path@.len() == 3 {
            assert(crate::text::texts(path@)[0] == path@[0]@);
            assert(crate::text::texts(path@)[1] == path@[1]@);
            assert(crate::text::texts(path@)[2] == path@[2]@);
        }
    }
}

/// An answer to something that a load did not ask for changes neither the
/// catalog nor the load.
pub proof fn law_load_ignores_other_answers(
    entries: Map<Seq<char>, InstalledPlugin>,
    before: LoadComponent,
    reply: LoadReply,
    entries_after: Map<Seq<char>, InstalledPlugin>,
    after: LoadComponent,
)
    requires
        load_next(entries, before, reply, entries_after, after),
        !(before is AwaitLifecycle && reply is Locked),
        !(before is ReadComponent && reply is Component),
        !(before is Compile && reply is Compile),
        !(before is Publish && reply is Publish),
    ensures
        entries_after == entries,
        after == before,
{
}

}
