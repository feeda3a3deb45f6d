//! The entries of the plugin catalog, kept in the order of their identifiers.

use std::sync::Arc;

use vstd::prelude::*;

use wasmtime::component::Component;

use crate::manifest::PluginInfo;
use crate::ordered::TextMap;

verus! {

broadcast use vstd::string::group_string_axioms;

/// Immutable code and metadata captured from one installed package. What is
/// opened from it does not depend on later changes of the package.
pub struct CompiledPlugin {
    /// The metadata captured with this component.
    pub info: PluginInfo,
    /// The compiled code.
    pub component: Component,
}

/// What the catalog keeps of an installed package.
pub enum InstalledPlugin {
    /// Its metadata alone.
    Uncompiled(PluginInfo),
    /// Its metadata and compiled code.
    Compiled(Arc<CompiledPlugin>),
}

/// The metadata that an entry holds.
pub open spec fn entry_info(entry: InstalledPlugin) -> PluginInfo {
    match entry {
        InstalledPlugin::Uncompiled(info) => info,
        InstalledPlugin::Compiled(plugin) => plugin.info,
    }
}

/// The identifier that an entry goes by.
pub open spec fn entry_id(entry: InstalledPlugin) -> Seq<char> {
    entry_info(entry)@.manifest.id
}

impl InstalledPlugin {
    /// The metadata that the entry holds.
    pub fn info(&self) -> (out: &PluginInfo)
        ensures
            *out == entry_info(*self),
    {
        match self {
            InstalledPlugin::Uncompiled(info) => info,
            InstalledPlugin::Compiled(plugin) => &plugin.info,
        }
    }
}

/// Whether every entry stands under its own identifier.
pub open spec fn well_keyed(entries: Map<Seq<char>, InstalledPlugin>) -> bool {
    forall|id: Seq<char>| #[trigger] entries.contains_key(id) ==> entry_id(entries[id]) == id
}

/// Whether all compiled code among the entries is metered.
pub open spec fn is_metered(entries: Map<Seq<char>, InstalledPlugin>) -> bool {
    forall|id: Seq<char>| #[trigger]
        entries.contains_key(id) ==> (entries[id] matches InstalledPlugin::Compiled(plugin)
            ==> crate::runtime::component_settings(plugin.component) == (true, true))
}

/// The identifiers of a sequence of metadata.
pub open spec fn info_ids(infos: Seq<PluginInfo>) -> Seq<Seq<char>> {
    infos.map_values(|info: PluginInfo| info@.manifest.id)
}

/// Whether a list tells the metadata of every entry, in the order of the
/// identifiers.
pub open spec fn is_listing(
    entries: Map<Seq<char>, InstalledPlugin>,
    infos: Seq<PluginInfo>,
) -> bool {
    &&& crate::ordered::ascending(info_ids(infos))
    &&& info_ids(infos).to_set() == entries.dom()
    &&& forall|i: int|
        0 <= i < infos.len() ==> (#[trigger] infos[i])@ == entry_info(
            entries[infos[i]@.manifest.id],
        )@
}

/// Entries with the same metadata are listed alike.
pub proof fn law_equal_metadata_is_listed_alike(
    first: Map<Seq<char>, InstalledPlugin>,
    second: Map<Seq<char>, InstalledPlugin>,
    first_infos: Seq<PluginInfo>,
    second_infos: Seq<PluginInfo>,
)
    requires
        is_listing(first, first_infos),
        is_listing(second, second_infos),
        first.dom() == second.dom(),
        forall|id: Seq<char>| #[trigger]
            first.contains_key(id) ==> entry_info(first[id])@ == entry_info(second[id])@,
    ensures
        first_infos.len() == second_infos.len(),
        forall|i: int|
            0 <= i < first_infos.len() ==> (#[trigger] first_infos[i])@ == second_infos[i]@,
{
    crate::ordered::law_texts_have_one_order(info_ids(first_infos), info_ids(second_infos));
    assert forall|i: int| 0 <= i < first_infos.len() implies (#[trigger] first_infos[i])@
        == second_infos[i]@ by {
        let id = info_ids(first_infos)[i];
        assert(id == first_infos[i]@.manifest.id);
        assert(info_ids(second_infos)[i] == second_infos[i]@.manifest.id);
        assert(info_ids(first_infos).to_set().contains(id));
        assert(first.contains_key(id));
    }
}

/// Entries in the order of their identifiers, at most one under each.
pub struct Catalog {
    entries: TextMap<InstalledPlugin>,
}

impl View for Catalog {
    type V = Map<Seq<char>, InstalledPlugin>;

    closed spec fn view(&self) -> Map<Seq<char>, InstalledPlugin> {
        self.entries@
    }
}

impl Catalog {
    #[verifier::type_invariant]
    closed spec fn is_well_keyed(self) -> bool {
        well_keyed(self.entries@)
    }

    /// A catalog without entries.
    pub fn new() -> (out: Catalog)
        ensures
            out@ == Map::<Seq<char>, InstalledPlugin>::empty(),
    {
        Catalog { entries: TextMap::new() }
    }

    /// The entry under an identifier.
    pub fn get(&self, id: &str) -> (out: Option<&InstalledPlugin>)
        ensures
            match out {
                Some(entry) => self@.contains_key(id@) && *entry == self@[id@] && entry_id(*entry)
                    == id@,
                None => !self@.contains_key(id@),
            },
    {
        proof {
            use_type_invariant(self);
        }
        self.entries.get(id)
    }

    /// Puts an entry under its own identifier, in the place of one that stood
    /// there.
    pub fn insert(&mut self, entry: InstalledPlugin)
        ensures
            final(self)@ == old(self)@.insert(entry_id(entry), entry),
            well_keyed(final(self)@),
    {
        proof {
            use_type_invariant(&*self);
        }
        let mut entries: TextMap<InstalledPlugin> = TextMap::new();
        std::mem::swap(&mut entries, &mut self.entries);
        let id = entry.info().manifest.id.clone();
        entries.insert(id, entry);
        self.entries = entries;
    }

    /// Removes the entry under an identifier, if there is one.
    pub fn remove(&mut self, id: &str)
        ensures
            final(self)@ == old(self)@.remove(id@),
            well_keyed(final(self)@),
    {
        proof {
            use_type_invariant(&*self);
        }
        let mut entries: TextMap<InstalledPlugin> = TextMap::new();
        std::mem::swap(&mut entries, &mut self.entries);
        entries.remove(id);
        self.entries = entries;
    }

    /// The metadata of all entries, in the order of their identifiers.
    pub fn infos(&self) -> (out: Vec<PluginInfo>)
        ensures
            is_listing(self@, out@),
    {
        proof {
            use_type_invariant(self);
        }
        let mut out: Vec<PluginInfo> = Vec::new();
        let count: usize = self.entries.len();
        let mut i: usize = 0;
        while i < count
            invariant
                i <= count,
                count == self.entries.order().len(),
                well_keyed(self.entries@),
                out@.len() == i,
                forall|k: int|
                    0 <= k < i ==> (#[trigger] out@[k])@ == entry_info(
                        self@[self.entries.order()[k]],
                    )@ && out@[k]@.manifest.id == self.entries.order()[k],
            decreases count - i,
        {
            out.push(self.entries.at(i).1.info().clone());
            i = i + 1;
        }
        assert(info_ids(out@) =~= self.entries.order());
        out
    }
}

/// A list tells of each entry the metadata that it holds, compiled or not, of
/// each once and of nothing else, from the smallest identifier to the largest.
pub proof fn law_listing_tells_of_each_entry(
    entries: Map<Seq<char>, InstalledPlugin>,
    infos: Seq<PluginInfo>,
)
    requires
        is_listing(entries, infos),
    ensures
        infos.len() == entries.dom().len(),
        forall|i: int|
            0 <= i < infos.len() ==> {
                let id = (#[trigger] infos[i]).manifest.id@;
                &&& entries.contains_key(id)
                &&& match entries[id] {
                    InstalledPlugin::Uncompiled(info) => infos[i]@ == info@,
                    InstalledPlugin::Compiled(plugin) => infos[i]@ == plugin.info@,
                }
            },
        forall|i: int, j: int|
            0 <= i < j < infos.len() ==> crate::text::text_before(
                (#[trigger] infos[i]).manifest.id@,
                (#[trigger] infos[j]).manifest.id@,
            ),
        forall|id: Seq<char>| #[trigger]
            entries.contains_key(id) ==> exists|i: int|
                0 <= i < infos.len() && (#[trigger] infos[i]).manifest.id@ == id,
{
    let ids = info_ids(infos);
    crate::ordered::lemma_ascending_is_unique(ids);
    ids.unique_seq_to_set();
    assert forall|i: int| 0 <= i < infos.len() implies {
        let id = (#[trigger] infos[i]).manifest.id@;
        &&& entries.contains_key(id)
        &&& match entries[id] {
            InstalledPlugin::Uncompiled(info) => infos[i]@ == info@,
            InstalledPlugin::Compiled(plugin) => infos[i]@ == plugin.info@,
        }
    } by {
        assert(ids[i] == infos[i].manifest.id@);
        assert(ids.to_set().contains(ids[i]));
    }
    assert forall|i: int, j: int| 0 <= i < j < infos.len() implies crate::text::text_before(
        (#[trigger] infos[i]).manifest.id@,
        (#[trigger] infos[j]).manifest.id@,
    ) by {
        assert(crate::text::text_before(ids[i], ids[j]));
    }
    assert forall|id: Seq<char>| #[trigger] entries.contains_key(id) implies exists|i: int|
        0 <= i < infos.len() && (#[trigger] infos[i]).manifest.id@ == id by {
        assert(ids.to_set().contains(id));
        let i = ids.index_of(id);
        assert(ids[i] == id);
        assert(infos[i].manifest.id@ == id);
    }
}

}
