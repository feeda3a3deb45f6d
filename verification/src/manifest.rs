//! What a catalogued plugin says of itself.

use vstd::prelude::*;

use crate::error::PluginError;
use crate::text::{copy_texts, same_text};
use crate::version::{Version, VersionView};

verus! {

broadcast use vstd::string::group_string_axioms;

/// The schema of plugin metadata that is understood.
pub const SCHEMA_VERSION: u32 = 1;

/// Identity and display metadata shipped beside a plugin component.
#[derive(Debug, PartialEq, Eq)]
pub struct PluginManifest {
    pub schema_version: u32,
    pub id: String,
    pub name: String,
    pub version: Version,
    pub description: String,
    pub authors: Vec<String>,
    pub license: String,
    /// The address of the source repository, as a URL is written.
    pub repository: String,
}

/// What a [`PluginManifest`] holds.
pub struct PluginManifestView {
    pub schema_version: u32,
    pub id: Seq<char>,
    pub name: Seq<char>,
    pub version: VersionView,
    pub description: Seq<char>,
    pub authors: Seq<Seq<char>>,
    pub license: Seq<char>,
    pub repository: Seq<char>,
}

impl View for PluginManifest {
    type V = PluginManifestView;

    open spec fn view(&self) -> PluginManifestView {
        PluginManifestView {
            schema_version: self.schema_version,
            id: self.id@,
            name: self.name@,
            version: self.version@,
            description: self.description@,
            authors: crate::text::texts(self.authors@),
            license: self.license@,
            repository: self.repository@,
        }
    }
}

impl Clone for PluginManifest {
    fn clone(&self) -> (out: PluginManifest)
        ensures
            out@ == self@,
    {
        PluginManifest {
            schema_version: self.schema_version,
            id: self.id.clone(),
            name: self.name.clone(),
            version: self.version.clone(),
            description: self.description.clone(),
            authors: copy_texts(&self.authors),
            license: self.license.clone(),
            repository: self.repository.clone(),
        }
    }
}

/// Whether metadata that was read, or that could not be, was accepted exactly if
/// its schema is understood, and refused with the reason otherwise.
pub open spec fn is_acceptance(
    read: Result<PluginManifest, String>,
    out: Result<PluginManifest, PluginError>,
) -> bool {
    match read {
        Ok(manifest) => if manifest.schema_version == SCHEMA_VERSION {
            out == Ok::<PluginManifest, PluginError>(manifest)
        } else {
            out == Err::<PluginManifest, PluginError>(
                PluginError::UnsupportedSchema(manifest.schema_version),
            )
        },
        Err(error) => out == Err::<PluginManifest, PluginError>(PluginError::ParseMetadata(error)),
    }
}

/// Accepts metadata that was read from a manifest, or that could not be, if its
/// schema is understood.
pub fn parse_manifest(read: Result<PluginManifest, String>) -> (out: Result<
    PluginManifest,
    PluginError,
>)
    ensures
        is_acceptance(read, out),
{
    match read {
        Ok(manifest) => if manifest.schema_version != SCHEMA_VERSION {
            Err(PluginError::UnsupportedSchema(manifest.schema_version))
        } else {
            Ok(manifest)
        },
        Err(error) => Err(PluginError::ParseMetadata(error)),
    }
}

/// An installed plugin: its manifest and the interfaces that its component
/// exports.
#[derive(Debug, PartialEq, Eq)]
pub struct PluginInfo {
    pub manifest: PluginManifest,
    pub interfaces: Vec<String>,
}

/// What a [`PluginInfo`] holds.
pub struct PluginInfoView {
    pub manifest: PluginManifestView,
    pub interfaces: Seq<Seq<char>>,
}

impl View for PluginInfo {
    type V = PluginInfoView;

    open spec fn view(&self) -> PluginInfoView {
        PluginInfoView {
            manifest: self.manifest@,
            interfaces: crate::text::texts(self.interfaces@),
        }
    }
}

impl Clone for PluginInfo {
    fn clone(&self) -> (out: PluginInfo)
        ensures
            out@ == self@,
    {
        PluginInfo {
            manifest: self.manifest.clone(),
            interfaces: copy_texts(&self.interfaces),
        }
    }
}

/// Whether metadata names an interface among those that the component exports.
pub open spec fn names_interface(info: PluginInfoView, interface: Seq<char>) -> bool {
    info.interfaces.contains(interface)
}

impl PluginInfo {
    /// Whether the component exports an interface of this name. Whether the
    /// interface is the expected one shows when it is bound.
    pub fn exports(&self, interface: &str) -> (out: bool)
        ensures
            out == names_interface(self@, interface@),
    {
        let mut i: usize = 0;
        while i < self.interfaces.len()
            invariant
                i <= self.interfaces.len(),
                forall|k: int| 0 <= k < i ==> self@.interfaces[k] != interface@,
            decreases self.interfaces.len() - i,
        {
            if same_text(&self.interfaces[i], interface) {
                assert(self@.interfaces[i as int] == interface@);
                return true;
            }
            i = i + 1;
        }
        false
    }
}

/// A manifest shows all that it holds: two manifests that show the same agree in
/// every part.
pub proof fn law_manifest_shows_every_part(first: PluginManifest, second: PluginManifest)
    requires
        first@ == second@,
    ensures
        first.schema_version == second.schema_version,
        first.id@ == second.id@,
        first.name@ == second.name@,
        first.version@ == second.version@,
        first.description@ == second.description@,
        first.authors@.len() == second.authors@.len(),
        forall|i: int|
            0 <= i < first.authors@.len() ==> (#[trigger] first.authors@[i])@
                == second.authors@[i]@,
        first.license@ == second.license@,
        first.repository@ == second.repository@,
{
    let (a, b) = (crate::text::texts(first.authors@), crate::text::texts(second.authors@));
    assert(a == b);
    assert forall|i: int| 0 <= i < first.authors@.len() implies (#[trigger] first.authors@[i])@
        == second.authors@[i]@ by {
        assert(a[i] == b[i]);
    }
}

/// Metadata shows all that it holds: what shows the same agrees in the manifest
/// and in the interfaces, each in its place.
pub proof fn law_metadata_shows_every_part(first: PluginInfo, second: PluginInfo)
    requires
        first@ == second@,
    ensures
        first.manifest@ == second.manifest@,
        first.interfaces@.len() == second.interfaces@.len(),
        forall|i: int|
            0 <= i < first.interfaces@.len() ==> (#[trigger] first.interfaces@[i])@
                == second.interfaces@[i]@,
{
    let (a, b) = (crate::text::texts(first.interfaces@), crate::text::texts(second.interfaces@));
    assert(a == b);
    assert forall|i: int| 0 <= i < first.interfaces@.len() implies (
    #[trigger] first.interfaces@[i])@ == second.interfaces@[i]@ by {
        assert(a[i] == b[i]);
    }
}

/// Metadata is accepted exactly if it was read and its schema is the first one,
/// and then unchanged. A refusal names the schema, or keeps why it could not be
/// read.
pub proof fn law_accepted_manifest_is_what_was_read(
    read: Result<PluginManifest, String>,
    out: Result<PluginManifest, PluginError>,
)
    requires
        is_acceptance(read, out),
    ensures
        match out {
            Ok(manifest) => read == Ok::<PluginManifest, String>(manifest)
                && manifest.schema_version == 1,
            Err(PluginError::UnsupportedSchema(version)) => version != 1 && read is Ok
                && read->Ok_0.schema_version == version,
            Err(PluginError::ParseMetadata(error)) => read == Err::<PluginManifest, String>(error),
            Err(_) => false,
        },
{
}

/// Exactly the interfaces that stand in the metadata are exported, wherever they
/// stand and with every character of their names.
pub proof fn law_exported_interfaces_are_those_listed(info: PluginInfo, interface: Seq<char>)
    ensures
        names_interface(info@, interface) <==> exists|i: int|
            0 <= i < info.interfaces@.len() && (#[trigger] info.interfaces@[i])@ == interface,
{
    let names = crate::text::texts(info.interfaces@);
    if names_interface(info@, interface) {
        let i = choose|i: int| 0 <= i < names.len() && names[i] == interface;
        assert(info.interfaces@[i]@ == interface);
    }
    if exists|i: int|
        0 <= i < info.interfaces@.len() && (#[trigger] info.interfaces@[i])@ == interface {
        let i = choose|i: int|
            0 <= i < info.interfaces@.len() && (#[trigger] info.interfaces@[i])@ == interface;
        assert(names[i] == interface);
    }
}

}
