//! Semantic versions as the plugin interface uses them.

use vstd::prelude::*;

use crate::text::{decimal_text, same_text};

verus! {

broadcast use vstd::string::group_string_axioms;

/// A semantic version: three numbers, a pre-release and build metadata, the
/// last two empty where the version has none.
#[derive(Debug, PartialEq, Eq)]
pub struct Version {
    pub major: u64,
    pub minor: u64,
    pub patch: u64,
    pub pre: String,
    pub build: String,
}

/// What a [`Version`] holds.
pub struct VersionView {
    pub major: u64,
    pub minor: u64,
    pub patch: u64,
    pub pre: Seq<char>,
    pub build: Seq<char>,
}

impl View for Version {
    type V = VersionView;

    open spec fn view(&self) -> VersionView {
        VersionView {
            major: self.major,
            minor: self.minor,
            patch: self.patch,
            pre: self.pre@,
            build: self.build@,
        }
    }
}

/// A version without pre-release and build metadata.
pub open spec fn release(major: u64, minor: u64, patch: u64) -> VersionView {
    VersionView { major, minor, patch, pre: seq![], build: seq![] }
}

/// The text of a version: the numbers joined by dots, then `-` and the
/// pre-release, then `+` and the build metadata, as far as it has them.
pub open spec fn version_text(version: VersionView) -> Seq<char> {
    let numbers = crate::text::decimal(version.major as nat) + seq!['.'] + crate::text::decimal(
        version.minor as nat,
    ) + seq!['.'] + crate::text::decimal(version.patch as nat);
    let pre = if version.pre.len() == 0 {
        seq![]
    } else {
        seq!['-'] + version.pre
    };
    let build = if version.build.len() == 0 {
        seq![]
    } else {
        seq!['+'] + version.build
    };
    numbers + pre + build
}

impl Clone for Version {
    fn clone(&self) -> (out: Version)
        ensures
            out == *self,
    {
        Version {
            major: self.major,
            minor: self.minor,
            patch: self.patch,
            pre: self.pre.clone(),
            build: self.build.clone(),
        }
    }
}

impl Version {
    /// A version without pre-release and build metadata.
    pub fn new(major: u64, minor: u64, patch: u64) -> (out: Version)
        ensures
            out@ == release(major, minor, patch),
    {
        let out = Version { major, minor, patch, pre: String::new(), build: String::new() };
        assert(out@.pre =~= seq![]);
        assert(out@.build =~= seq![]);
        out
    }

    /// Whether two versions agree in every part.
    pub fn same(&self, other: &Version) -> (out: bool)
        ensures
            out == (self@ == other@),
    {
        self.major == other.major && self.minor == other.minor && self.patch == other.patch
            && same_text(&self.pre, &other.pre) && same_text(&self.build, &other.build)
    }

    /// Writes the version.
    pub fn text(&self) -> (out: String)
        ensures
            out@ == version_text(self@),
    {
        let mut out = decimal_text(self.major);
        out.push('.');
        out.append(&decimal_text(self.minor));
        out.push('.');
        out.append(&decimal_text(self.patch));
        let ghost numbers = out@;
        if !self.pre.as_str().is_empty() {
            out.push('-');
            out.append(&self.pre);
        }
        if !self.build.as_str().is_empty() {
            out.push('+');
            out.append(&self.build);
        }
        assert(out@ =~= version_text(self@));
        out
    }

    /// Reads a version.
    pub fn parse(text: &str) -> (out: Result<Version, String>)
        ensures
            match (out, parsed_version(text@)) {
                (Ok(version), Ok(named)) => version@ == version_of(named),
                (Err(error), Err(named)) => error@ == named,
                _ => false,
            },
    {
        match parse_version(text) {
            Ok((major, minor, patch, pre, build)) => Ok(
                Version { major, minor, patch, pre, build },
            ),
            Err(error) => Err(error),
        }
    }
}

/// The version with the parts of a tuple.
pub open spec fn version_of(parts: (u64, u64, u64, Seq<char>, Seq<char>)) -> VersionView {
    VersionView {
        major: parts.0,
        minor: parts.1,
        patch: parts.2,
        pre: parts.3,
        build: parts.4,
    }
}

/// Names what `semver::Version::parse` reads from a text: the parts of the
/// version, or the error's message.
pub uninterp spec fn parsed_version(text: Seq<char>) -> Result<
    (u64, u64, u64, Seq<char>, Seq<char>),
    Seq<char>,
>;

/// `semver::Version::parse` reads a semantic version. Its grammar is left to
/// the name.
#[verifier::external_body]
fn parse_version(text: &str) -> (out: Result<(u64, u64, u64, String, String), String>)
    ensures
        match (out, parsed_version(text@)) {
            (Ok(version), Ok(named)) => (version.0, version.1, version.2, version.3@, version.4@)
                == named,
            (Err(error), Err(named)) => error@ == named,
            _ => false,
        },
{
    match semver::Version::parse(text) {
        Ok(v) => Ok((v.major, v.minor, v.patch, v.pre.to_string(), v.build.to_string())),
        Err(error) => Err(error.to_string()),
    }
}

/// A version is written as its three numbers with dots between them; a
/// pre-release follows behind `-`, and build metadata behind `+`, each exactly
/// where the version has it and unchanged.
pub proof fn law_version_text_has_every_part(version: VersionView)
    ensures
        ({
            let numbers = version_text(release(version.major, version.minor, version.patch));
            let without_build = version_text(VersionView { build: seq![], ..version });
            &&& numbers == crate::text::decimal(version.major as nat) + "."@
                + crate::text::decimal(version.minor as nat) + "."@ + crate::text::decimal(
                version.patch as nat,
            )
            &&& version.pre.len() == 0 ==> without_build == numbers
            &&& version.pre.len() > 0 ==> without_build == numbers + "-"@ + version.pre
            &&& version.build.len() == 0 ==> version_text(version) == without_build
            &&& version.build.len() > 0 ==> version_text(version) == without_build + "+"@
                + version.build
        }),
{
    reveal_strlit(".");
    reveal_strlit("-");
    reveal_strlit("+");
    let numbers = version_text(release(version.major, version.minor, version.patch));
    let without_build = version_text(VersionView { build: seq![], ..version });
    assert("."@ =~= seq!['.']);
    assert("-"@ =~= seq!['-']);
    assert("+"@ =~= seq!['+']);
    assert(numbers =~= crate::text::decimal(version.major as nat) + "."@ + crate::text::decimal(
        version.minor as nat,
    ) + "."@ + crate::text::decimal(version.patch as nat));
    if version.pre.len() == 0 {
        assert(without_build =~= numbers);
    } else {
        assert(without_build =~= numbers + "-"@ + version.pre);
    }
    if version.build.len() == 0 {
        assert(version_text(version) =~= without_build);
    } else {
        assert(version_text(version) =~= without_build + "+"@ + version.build);
    }
}

/// A version shows all that it holds: two versions that show the same agree in
/// every part.
pub proof fn law_version_shows_every_part(first: Version, second: Version)
    ensures
        first@ == second@ <==> {
            &&& first.major == second.major
            &&& first.minor == second.minor
            &&& first.patch == second.patch
            &&& first.pre@ == second.pre@
            &&& first.build@ == second.build@
        },
{
}

/// A version that was read has the parts that were read, each in its place, and
/// one without pre-release and build metadata has the given numbers.
pub proof fn law_version_keeps_its_parts(parts: (u64, u64, u64, Seq<char>, Seq<char>))
    ensures
        version_of(parts).major == parts.0,
        version_of(parts).minor == parts.1,
        version_of(parts).patch == parts.2,
        version_of(parts).pre == parts.3,
        version_of(parts).build == parts.4,
        parts.3.len() == 0 && parts.4.len() == 0 ==> version_of(parts) == release(
            parts.0,
            parts.1,
            parts.2,
        ),
{
    if parts.3.len() == 0 && parts.4.len() == 0 {
        assert(parts.3 =~= seq![]);
        assert(parts.4 =~= seq![]);
    }
}

}
