//! Packages of managed plugins: a manifest beside a component.

use vstd::prelude::*;

use crate::error::Error;
use crate::ids::PluginId;
use crate::inspection::{read_sections, Section, SectionView};
use crate::text::{appended, joined, replace_char, same_text};
use crate::version::{Version, VersionView};

verus! {

broadcast use vstd::string::group_string_axioms;

/// The custom section in which a component names the plugin interface it was
/// built for.
pub const API_SECTION: &'static str = "bottles:api-version";

/// The file that holds a package's manifest.
pub const MANIFEST_FILE: &'static str = "plugin.toml";

/// The file that holds a package's component.
pub const COMPONENT_FILE: &'static str = "plugin.wasm";

/// The target that plugins are built for.
pub const RUST_WASM_TARGET: &'static str = "wasm32-wasip2";

/// What a package's manifest says of it, as far as managing it depends on it.
#[derive(Debug, PartialEq, Eq)]
pub struct PackageManifest {
    pub id: PluginId,
    pub name: String,
    pub api_version: Version,
    /// Whether the plugin links storefront accounts.
    pub storefront_account: bool,
}

impl Clone for PackageManifest {
    fn clone(&self) -> (out: PackageManifest)
        ensures
            out == *self,
    {
        PackageManifest {
            id: self.id,
            name: self.name.clone(),
            api_version: self.api_version.clone(),
            storefront_account: self.storefront_account,
        }
    }
}

/// A manifest and component that passed the structural checks and the exact
/// checks of the interface version.
#[derive(Debug)]
pub struct ValidatedPackage {
    pub manifest: PackageManifest,
    pub component: Vec<u8>,
}

/// The number that two bytes spell, the higher first.
pub open spec fn big_endian(high: u8, low: u8) -> u64 {
    (high * 256 + low) as u64
}

/// The version that six bytes spell: three big-endian numbers.
pub open spec fn decoded_version(bytes: Seq<u8>) -> VersionView {
    crate::version::release(
        big_endian(bytes[0], bytes[1]),
        big_endian(bytes[2], bytes[3]),
        big_endian(bytes[4], bytes[5]),
    )
}

/// The complaint about an interface version that is not six bytes long.
pub open spec fn malformed_version_text() -> Seq<char> {
    API_SECTION@ + " must contain three big-endian u16 values"@
}

/// The complaint about a component without an interface version.
pub open spec fn missing_version_text() -> Seq<char> {
    "missing "@ + API_SECTION@ + " custom section"@
}

/// Decodes the contents of the version section: three big-endian 16-bit
/// numbers.
pub fn parse_api_version(bytes: &[u8]) -> (out: Result<Version, Error>)
    ensures
        match out {
            Ok(version) => bytes@.len() == 6 && version@ == decoded_version(bytes@),
            Err(Error::InvalidComponent(text)) => bytes@.len() != 6 && text@
                == malformed_version_text(),
            _ => false,
        },
{
    if bytes.len() != 6 {
        return Err(
            Error::InvalidComponent(
                appended(API_SECTION, " must contain three big-endian u16 values"),
            ),
        );
    }
    Ok(
        Version::new(
            bytes[0] as u64 * 256 + bytes[1] as u64,
            bytes[2] as u64 * 256 + bytes[3] as u64,
            bytes[4] as u64 * 256 + bytes[5] as u64,
        ),
    )
}

/// The interface version found after a sequence of sections, if any: that of
/// the last version section. The walk ends at the first section that cannot be
/// read or that is a malformed version section, with the complaint about it.
pub open spec fn embedded_version(sections: Seq<Result<SectionView, Seq<char>>>) -> Result<
    Option<VersionView>,
    Seq<char>,
>
    decreases sections.len(),
{
    if sections.len() == 0 {
        Ok(None)
    } else {
        match (embedded_version(sections.drop_last()), sections.last()) {
            (Err(error), _) => Err(error),
            (Ok(_), Err(error)) => Err(error),
            (Ok(found), Ok(section)) => match section {
                SectionView::Custom(name, data) => if name != API_SECTION@ {
                    Ok(found)
                } else if data.len() != 6 {
                    Err(malformed_version_text())
                } else {
                    Ok(Some(decoded_version(data)))
                },
                _ => Ok(found),
            },
        }
    }
}

proof fn lemma_failed_search_stays(sections: Seq<Result<SectionView, Seq<char>>>, count: int)
    requires
        0 <= count <= sections.len(),
        embedded_version(sections.take(count)) is Err,
    ensures
        embedded_version(sections) == embedded_version(sections.take(count)),
    decreases sections.len(),
{
    if count < sections.len() {
        assert(sections.drop_last().take(count) =~= sections.take(count));
        lemma_failed_search_stays(sections.drop_last(), count);
    } else {
        assert(sections.take(count) =~= sections);
    }
}

/// Finds the interface version among a component's sections.
pub fn find_version(sections: &Vec<Result<Section, String>>) -> (out: Result<
    Option<Version>,
    Error,
>)
    ensures
        match (
            out,
            embedded_version(
                sections@.map_values(
                    |s: Result<Section, String>| crate::inspection::section_view(s),
                ),
            ),
        ) {
            (Ok(Some(version)), Ok(Some(expected))) => version@ == expected,
            (Ok(None), Ok(None)) => true,
            (Err(Error::InvalidComponent(text)), Err(expected)) => text@ == expected,
            _ => false,
        },
{
    let ghost views = sections@.map_values(
        |s: Result<Section, String>| crate::inspection::section_view(s),
    );
    let mut found: Option<Version> = None;
    let mut i: usize = 0;
    while i < sections.len()
        invariant
            i <= sections.len(),
            views == sections@.map_values(
                |s: Result<Section, String>| crate::inspection::section_view(s),
            ),
            embedded_version(views.take(i as int)) == Ok::<Option<VersionView>, Seq<char>>(
                match found {
                    Some(version) => Some(version@),
                    None => None,
                },
            ),
        decreases sections.len() - i,
    {
        proof {
            assert(views.take(i + 1).drop_last() =~= views.take(i as int));
            assert(views.take(i + 1).last() == crate::inspection::section_view(
                sections@[i as int],
            ));
        }
        match &sections[i] {
            Err(error) => {
                proof {
                    lemma_failed_search_stays(views, i + 1);
                }
                return Err(Error::InvalidComponent(error.clone()));
            },
            Ok(Section::Custom(name, data)) => {
                if same_text(name, API_SECTION) {
                    match parse_api_version(data.as_slice()) {
                        Ok(version) => {
                            found = Some(version);
                        },
                        Err(error) => {
                            proof {
                                lemma_failed_search_stays(views, i + 1);
                            }
                            return Err(error);
                        },
                    }
                }
            },
            Ok(_) => {},
        }
        i = i + 1;
    }
    assert(views.take(views.len() as int) =~= views);
    Ok(found)
}

/// Whether a result of checking a component is what the embedded version, the
/// manifest's and the host's make due.
pub open spec fn is_verdict(
    embedded: Result<Option<VersionView>, Seq<char>>,
    manifest: VersionView,
    supported: VersionView,
    out: Result<(), Error>,
) -> bool {
    match embedded {
        Err(complaint) => out matches Err(Error::InvalidComponent(text)) && text@ == complaint,
        Ok(None) => out matches Err(Error::InvalidComponent(text)) && text@
            == missing_version_text(),
        Ok(Some(found)) => if found != manifest {
            out matches Err(Error::ApiVersion { actual, expected }) && actual@
                == crate::version::version_text(found) && expected@
                == crate::version::version_text(manifest)
        } else if found != supported {
            out matches Err(Error::ApiVersion { actual, expected }) && actual@
                == crate::version::version_text(found) && expected@
                == crate::version::version_text(supported)
        } else {
            out is Ok
        },
    }
}

/// Compares the interface version found in a component with the manifest's and
/// the host's.
pub fn check_version(
    found: Result<Option<Version>, Error>,
    manifest: &PackageManifest,
    supported: &Version,
) -> (out: Result<(), Error>)
    ensures
        match found {
            Err(error) => out == Err::<(), Error>(error),
            Ok(None) => is_verdict(Ok(None), manifest.api_version@, supported@, out),
            Ok(Some(version)) => is_verdict(
                Ok(Some(version@)),
                manifest.api_version@,
                supported@,
                out,
            ),
        },
{
    let actual = match found {
        Err(error) => {
            return Err(error);
        },
        Ok(None) => {
            return Err(
                Error::InvalidComponent(joined("missing ", API_SECTION, " custom section")),
            );
        },
        Ok(Some(version)) => version,
    };
    if !actual.same(&manifest.api_version) {
        return Err(
            Error::ApiVersion { actual: actual.text(), expected: manifest.api_version.text() },
        );
    }
    if !actual.same(supported) {
        return Err(Error::ApiVersion { actual: actual.text(), expected: supported.text() });
    }
    Ok(())
}

/// Reads the whole component and requires its embedded interface version to
/// match both the manifest and the host.
pub fn validate_component(manifest: &PackageManifest, bytes: &[u8], supported: &Version) -> (out:
    Result<(), Error>)
    ensures
        is_verdict(
            embedded_version(crate::inspection::component_sections(bytes@)),
            manifest.api_version@,
            supported@,
            out,
        ),
{
    let sections = read_sections(bytes);
    let found = find_version(&sections);
    check_version(found, manifest, supported)
}

/// Whether a manifest and a component were made into a package exactly if they
/// belong together and suit the host, and refused with what is wrong otherwise.
pub open spec fn is_validation(
    manifest: PackageManifest,
    component: Vec<u8>,
    supported: VersionView,
    out: Result<ValidatedPackage, Error>,
) -> bool {
    let embedded = embedded_version(crate::inspection::component_sections(component@));
    match out {
        Ok(package) => {
            &&& package.manifest == manifest
            &&& package.component == component
            &&& is_verdict(embedded, manifest.api_version@, supported, Ok(()))
        },
        Err(error) => is_verdict(embedded, manifest.api_version@, supported, Err(error)),
    }
}

/// Makes a package of a manifest and a component that belong together and
/// suit the host.
pub fn validate_package(
    manifest: PackageManifest,
    component: Vec<u8>,
    supported: &Version,
) -> (out: Result<ValidatedPackage, Error>)
    ensures
        is_validation(manifest, component, supported@, out),
{
    match validate_component(&manifest, component.as_slice(), supported) {
        Ok(()) => Ok(ValidatedPackage { manifest, component }),
        Err(error) => Err(error),
    }
}

/// A component passes only if its embedded version is both the manifest's and
/// the host's.
pub proof fn law_accepted_component_suits_manifest_and_host(
    sections: Seq<Result<SectionView, Seq<char>>>,
    manifest: VersionView,
    supported: VersionView,
)
    ensures
        is_verdict(embedded_version(sections), manifest, supported, Ok(())) <==> {
            &&& embedded_version(sections) == Ok::<Option<VersionView>, Seq<char>>(Some(manifest))
            &&& manifest == supported
        },
{
}

/// Whether a section names an interface version.
pub open spec fn is_version_section(section: Result<SectionView, Seq<char>>) -> bool {
    section matches Ok(SectionView::Custom(name, _)) && name == API_SECTION@
}

/// Of several version sections the last one counts, and none that is
/// malformed is passed over on the way to it.
pub proof fn law_last_version_section_counts(
    before: Seq<Result<SectionView, Seq<char>>>,
    data: Seq<u8>,
    after: Seq<Result<SectionView, Seq<char>>>,
)
    requires
        forall|i: int|
            0 <= i < after.len() ==> (#[trigger] after[i]) is Ok && !is_version_section(after[i]),
    ensures
        embedded_version(
            before + seq![Ok::<SectionView, Seq<char>>(SectionView::Custom(API_SECTION@, data))]
                + after,
        ) == match embedded_version(before) {
            Err(complaint) => Err(complaint),
            Ok(_) => if data.len() == 6 {
                Ok(Some(decoded_version(data)))
            } else {
                Err(malformed_version_text())
            },
        },
    decreases after.len(),
{
    let section = seq![Ok::<SectionView, Seq<char>>(SectionView::Custom(API_SECTION@, data))];
    let all = before + section + after;
    if after.len() == 0 {
        assert(all.drop_last() =~= before);
        assert(all.last() == section[0]);
    } else {
        law_last_version_section_counts(before, data, after.drop_last());
        assert(all.drop_last() =~= before + section + after.drop_last());
        assert(all.last() == after.last());
        assert(!is_version_section(after[after.len() - 1]));
    }
}

/// A TOML value.
#[verifier::external_type_specification]
#[verifier::external_body]
pub struct ExTomlValue(toml::Value);

/// Names the strings that a TOML value holds, each by the keys that lead to it
/// through tables; a value that is itself a string holds it under no key.
pub uninterp spec fn toml_strings(value: toml::Value) -> vstd::map::Map<Seq<Seq<char>>, Seq<char>>;

/// Names what `toml::from_str` makes of a text: the strings that the document
/// holds, or the error's message.
pub uninterp spec fn parsed_document(text: Seq<char>) -> Result<
    vstd::map::Map<Seq<Seq<char>>, Seq<char>>,
    Seq<char>,
>;

/// `toml::from_str` reads a TOML document as a value. The grammar of TOML is
/// left to the name.
#[verifier::external_body]
fn parse_toml(text: &str) -> (out: Result<toml::Value, String>)
    ensures
        match (out, parsed_document(text@)) {
            (Ok(value), Ok(strings)) => toml_strings(value) == strings,
            (Err(error), Err(expected)) => error@ == expected,
            _ => false,
        },
{
    match toml::from_str::<toml::Value>(text) {
        Ok(value) => Ok(value),
        Err(error) => Err(error.to_string()),
    }
}

/// `toml::Value::get` gives the value that a table holds under a key, and
/// nothing where the value is no table or has no such key.
#[verifier::external_body]
fn toml_get<'a>(value: &'a toml::Value, key: &str) -> (out: Option<&'a toml::Value>)
    ensures
        match out {
            Some(child) => forall|path: Seq<Seq<char>>|
                #![trigger toml_strings(*child).contains_key(path)]
                #![trigger toml_strings(*value).contains_key(seq![key@] + path)]
                {
                    &&& toml_strings(*child).contains_key(path) == toml_strings(
                        *value,
                    ).contains_key(seq![key@] + path)
                    &&& toml_strings(*child).contains_key(path) ==> toml_strings(*child)[path]
                        == toml_strings(*value)[seq![key@] + path]
                },
            None => forall|path: Seq<Seq<char>>|
                !(#[trigger] toml_strings(*value).contains_key(seq![key@] + path)),
        },
{
    value.get(key)
}

/// `toml::Value::as_str` gives the string that a value is, if it is one.
#[verifier::external_body]
fn toml_str(value: &toml::Value) -> (out: Option<&str>)
    ensures
        match out {
            Some(text) => toml_strings(*value).contains_key(seq![]) && toml_strings(*value)[seq![]]
                == text@,
            None => !toml_strings(*value).contains_key(seq![]),
        },
{
    value.as_str()
}

/// The name of the artifact that Cargo builds from a document's package, or
/// why there is none.
pub open spec fn artifact_name(
    document: Result<vstd::map::Map<Seq<Seq<char>>, Seq<char>>, Seq<char>>,
) -> Result<Seq<char>, Seq<char>> {
    match document {
        Err(error) => Err(error),
        Ok(strings) => if strings.contains_key(seq!["package"@, "name"@]) {
            Ok(crate::text::replaced(strings[seq!["package"@, "name"@]], '-', '_'))
        } else {
            Err("Cargo.toml has no package name"@)
        },
    }
}

/// The artifact name that belongs to what a search for the package name gave:
/// the name with hyphens made underscores.
pub fn artifact_of(name: Result<Option<String>, String>) -> (out: Result<String, Error>)
    ensures
        match (name, out) {
            (Ok(Some(name)), Ok(stem)) => stem@ == crate::text::replaced(name@, '-', '_'),
            (Ok(None), Err(Error::Host(text))) => text@ == "Cargo.toml has no package name"@,
            (Err(error), Err(Error::Host(text))) => text == error,
            _ => false,
        },
{
    match name {
        Ok(Some(name)) => Ok(replace_char(&name, '-', '_')),
        Ok(None) => Err(Error::Host("Cargo.toml has no package name".to_owned())),
        Err(error) => Err(Error::Host(error)),
    }
}

/// Maps the package name in a Cargo manifest to the stem of its artifact.
pub fn source_target_name(source: &str) -> (out: Result<String, Error>)
    ensures
        match (out, artifact_name(parsed_document(source@))) {
            (Ok(stem), Ok(expected)) => stem@ == expected,
            (Err(Error::Host(text)), Err(expected)) => text@ == expected,
            _ => false,
        },
{
    let manifest = match parse_toml(source) {
        Ok(manifest) => manifest,
        Err(error) => {
            return artifact_of(Err(error));
        },
    };
    let ghost strings = toml_strings(manifest);
    let ghost path = seq!["package"@, "name"@];
    let ghost rest = seq!["name"@];
    proof {
        assert(path =~= seq!["package"@] + rest);
        assert(rest =~= seq!["name"@] + Seq::<Seq<char>>::empty());
    }
    match toml_get(&manifest, "package") {
        Some(package) => match toml_get(package, "name") {
            Some(name) => match toml_str(name) {
                Some(name) => artifact_of(Ok(Some(name.to_owned()))),
                None => artifact_of(Ok(None)),
            },
            None => {
                assert(!toml_strings(*package).contains_key(seq!["name"@] + Seq::<Seq<char>>::empty()));
                artifact_of(Ok(None))
            },
        },
        None => {
            assert(!strings.contains_key(seq!["package"@] + rest));
            artifact_of(Ok(None))
        },
    }
}

/// Any three 16-bit numbers that are written one after the other, each with its
/// higher byte first, read back as a version without pre-release and build
/// metadata.
pub proof fn law_version_bytes_read_back(major: u16, minor: u16, patch: u16)
    ensures
        ({
            let version = decoded_version(
                seq![
                    (major / 256) as u8,
                    (major % 256) as u8,
                    (minor / 256) as u8,
                    (minor % 256) as u8,
                    (patch / 256) as u8,
                    (patch % 256) as u8,
                ],
            );
            &&& version.major == major
            &&& version.minor == minor
            &&& version.patch == patch
            &&& version.pre.len() == 0
            &&& version.build.len() == 0
        }),
{
}

/// Six bytes spell three numbers, each of two of them and none above 65535, and
/// different bytes spell different versions.
pub proof fn law_version_bytes_spell_three_numbers(first: Seq<u8>, second: Seq<u8>)
    requires
        first.len() == 6,
        second.len() == 6,
    ensures
        decoded_version(first).major == first[0] * 256 + first[1],
        decoded_version(first).minor == first[2] * 256 + first[3],
        decoded_version(first).patch == first[4] * 256 + first[5],
        decoded_version(first).pre.len() == 0,
        decoded_version(first).build.len() == 0,
        decoded_version(first) == decoded_version(second) ==> first == second,
{
    if decoded_version(first) == decoded_version(second) {
        assert(first =~= second);
    }
}

/// A component all of whose sections can be read, and none of which names an
/// interface version, has none.
pub proof fn law_no_version_section_is_no_version(sections: Seq<Result<SectionView, Seq<char>>>)
    requires
        forall|i: int|
            0 <= i < sections.len() ==> match #[trigger] sections[i] {
                Ok(SectionView::Custom(name, _)) => name != "bottles:api-version"@,
                Ok(_) => true,
                Err(_) => false,
            },
    ensures
        embedded_version(sections) == Ok::<Option<VersionView>, Seq<char>>(None),
    decreases sections.len(),
{
    if sections.len() > 0 {
        let last = sections[sections.len() - 1];
        assert(last == sections.last());
        let shorter = sections.drop_last();
        assert forall|i: int| 0 <= i < shorter.len() implies match #[trigger] shorter[i] {
            Ok(SectionView::Custom(name, _)) => name != "bottles:api-version"@,
            Ok(_) => true,
            Err(_) => false,
        } by {
            assert(shorter[i] == sections[i]);
        }
        law_no_version_section_is_no_version(shorter);
    }
}

/// The last section that names an interface version gives it, wherever it
/// stands, if nothing before or after it is wrong.
pub proof fn law_version_section_gives_the_version(
    before: Seq<Result<SectionView, Seq<char>>>,
    major: u16,
    minor: u16,
    patch: u16,
    after: Seq<Result<SectionView, Seq<char>>>,
)
    requires
        embedded_version(before) is Ok,
        forall|i: int|
            0 <= i < after.len() ==> match #[trigger] after[i] {
                Ok(SectionView::Custom(name, _)) => name != "bottles:api-version"@,
                Ok(_) => true,
                Err(_) => false,
            },
    ensures
        embedded_version(
            before + seq![
                Ok::<SectionView, Seq<char>>(
                    SectionView::Custom(
                        "bottles:api-version"@,
                        seq![
                            (major / 256) as u8,
                            (major % 256) as u8,
                            (minor / 256) as u8,
                            (minor % 256) as u8,
                            (patch / 256) as u8,
                            (patch % 256) as u8,
                        ],
                    ),
                ),
            ] + after,
        ) matches Ok(Some(version)) && version.major == major && version.minor == minor
            && version.patch == patch && version.pre.len() == 0 && version.build.len() == 0,
{
    let data = seq![
        (major / 256) as u8,
        (major % 256) as u8,
        (minor / 256) as u8,
        (minor % 256) as u8,
        (patch / 256) as u8,
        (patch % 256) as u8,
    ];
    assert forall|i: int| 0 <= i < after.len() implies (#[trigger] after[i]) is Ok
        && !is_version_section(after[i]) by {
        assert(match after[i] {
            Ok(SectionView::Custom(name, _)) => name != "bottles:api-version"@,
            Ok(_) => true,
            Err(_) => false,
        });
    }
    law_last_version_section_counts(before, data, after);
    law_version_bytes_read_back(major, minor, patch);
}

/// The first section that cannot be read, or that names an interface version in
/// another number of bytes than six, is what is wrong with a component, whatever
/// comes after it.
pub proof fn law_first_bad_section_is_reported(
    before: Seq<Result<SectionView, Seq<char>>>,
    bad: Result<SectionView, Seq<char>>,
    after: Seq<Result<SectionView, Seq<char>>>,
)
    requires
        embedded_version(before) is Ok,
        match bad {
            Err(_) => true,
            Ok(SectionView::Custom(name, data)) => name == "bottles:api-version"@ && data.len()
                != 6,
            _ => false,
        },
    ensures
        embedded_version(before + seq![bad] + after) matches Err(complaint) && match bad {
            Err(error) => complaint == error,
            Ok(_) => complaint == "bottles:api-version"@
                + " must contain three big-endian u16 values"@,
        },
{
    let all = before + seq![bad] + after;
    let count = before.len() + 1;
    let part = all.take(count as int);
    assert(part.drop_last() =~= before);
    assert(part.last() == bad);
    lemma_failed_search_stays(all, count as int);
}

/// A component is accepted exactly if it names an interface version that is both
/// the manifest's and the host's. Otherwise it is refused with what is wrong with
/// it: the complaint about its sections, that it names no version, or the version
/// that it names beside the one that was expected, the manifest's before the
/// host's.
pub proof fn law_refused_component_is_told_why(
    embedded: Result<Option<VersionView>, Seq<char>>,
    manifest: VersionView,
    supported: VersionView,
    out: Result<(), Error>,
)
    requires
        is_verdict(embedded, manifest, supported, out),
    ensures
        out is Ok <==> embedded == Ok::<Option<VersionView>, Seq<char>>(Some(manifest)) && embedded
            == Ok::<Option<VersionView>, Seq<char>>(Some(supported)),
        out matches Err(error) ==> match embedded {
            Err(complaint) => error matches Error::InvalidComponent(text) && text@ == complaint,
            Ok(None) => error matches Error::InvalidComponent(text) && text@ == "missing "@
                + "bottles:api-version"@ + " custom section"@,
            Ok(Some(found)) => error matches Error::ApiVersion { actual, expected } && actual@
                == crate::version::version_text(found) && expected@
                == crate::version::version_text(
                if found != manifest {
                    manifest
                } else {
                    supported
                },
            ),
        },
{
}

/// A package that was accepted is the manifest and the component that were
/// given, byte for byte, and one is accepted exactly if the component's version
/// is the manifest's and the host's.
pub proof fn law_validated_package_is_what_was_given(
    manifest: PackageManifest,
    component: Vec<u8>,
    supported: VersionView,
    out: Result<ValidatedPackage, Error>,
)
    requires
        is_validation(manifest, component, supported, out),
    ensures
        out matches Ok(package) ==> package.manifest == manifest && package.component@
            == component@,
        out is Ok <==> {
            let embedded = embedded_version(crate::inspection::component_sections(component@));
            &&& embedded == Ok::<Option<VersionView>, Seq<char>>(Some(manifest.api_version@))
            &&& manifest.api_version@ == supported
        },
        out matches Err(error) ==> is_verdict(
            embedded_version(crate::inspection::component_sections(component@)),
            manifest.api_version@,
            supported,
            Err(error),
        ),
{
}

/// An artifact is named after the package: as long as its name and equal to it
/// but for hyphens, which become underscores. There is none exactly if the
/// document cannot be read or names no package.
pub proof fn law_artifact_is_named_after_the_package(
    document: Result<vstd::map::Map<Seq<Seq<char>>, Seq<char>>, Seq<char>>,
)
    ensures
        match (document, artifact_name(document)) {
            (Err(error), Err(text)) => text == error,
            (Ok(strings), Ok(stem)) => {
                &&& strings.contains_key(seq!["package"@, "name"@])
                &&& stem.len() == strings[seq!["package"@, "name"@]].len()
                &&& forall|i: int|
                    0 <= i < stem.len() ==> #[trigger] stem[i] == if strings[seq![
                        "package"@,
                        "name"@,
                    ]][i] == '-' {
                        '_'
                    } else {
                        strings[seq!["package"@, "name"@]][i]
                    }
            },
            (Ok(strings), Err(text)) => !strings.contains_key(seq!["package"@, "name"@]) && text
                == "Cargo.toml has no package name"@,
            _ => false,
        },
{
}

}
