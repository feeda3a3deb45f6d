//! What can go wrong, as the two halves of the crate report it.

use vstd::prelude::*;

use crate::ids::PluginId;
use crate::text::{appended, decimal_text, joined, to_quoted};

verus! {

broadcast use vstd::string::group_string_axioms;

/// A failed file operation, as far as decisions depend on it.
#[derive(Debug)]
pub struct IoFailure {
    /// Whether the file or directory did not exist.
    pub not_found: bool,
    /// The system's description of the failure.
    pub text: String,
}

/// Errors of managed plugins.
#[derive(Debug)]
pub enum Error {
    /// A manifest could not be read.
    ReadManifest { path: String, source: String },
    /// A manifest was read and is not acceptable.
    InvalidManifest(String),
    /// A manifest is not well-formed.
    ParseManifest(String),
    /// No plugin with this identity is installed.
    PluginNotFound(PluginId),
    /// The component was built for another version of the plugin interface.
    ApiVersion { actual: String, expected: String },
    /// The component is malformed.
    InvalidComponent(String),
    /// The named plugin failed to load, for the reason given second.
    Load(String, String),
    /// A step on the host failed.
    Host(String),
    /// A file operation failed.
    Io(IoFailure),
}

/// What an error tells the user.
pub open spec fn error_text(error: Error) -> Seq<char> {
    match error {
        Error::ReadManifest { path, source } => "failed to read plugin manifest "@ + path@ + ": "@
            + source@,
        Error::InvalidManifest(text) => "invalid plugin manifest: "@ + text@,
        Error::ParseManifest(text) => "failed to parse plugin manifest: "@ + text@,
        Error::PluginNotFound(id) => "plugin "@ + crate::ids::hyphenated(id.value())
            + " was not found"@,
        Error::ApiVersion { actual, expected } => "plugin API version "@ + actual@
            + " is not supported; expected "@ + expected@,
        Error::InvalidComponent(text) => "plugin component is invalid: "@ + text@,
        Error::Load(id, reason) => "plugin "@ + crate::text::quoted(id@) + " failed to load: "@
            + reason@,
        Error::Host(text) => "host operation failed: "@ + text@,
        Error::Io(failure) => "I/O error: "@ + failure.text@,
    }
}

impl Error {
    /// Tells the user what went wrong.
    pub fn text(&self) -> (out: String)
        ensures
            out@ == error_text(*self),
    {
        match self {
            Error::ReadManifest { path, source } => appended(
                &joined("failed to read plugin manifest ", path, ": "),
                source,
            ),
            Error::InvalidManifest(text) => appended("invalid plugin manifest: ", text),
            Error::ParseManifest(text) => appended("failed to parse plugin manifest: ", text),
            Error::PluginNotFound(id) => joined("plugin ", &id.text(), " was not found"),
            Error::ApiVersion { actual, expected } => appended(
                &joined("plugin API version ", actual, " is not supported; expected "),
                expected,
            ),
            Error::InvalidComponent(text) => appended("plugin component is invalid: ", text),
            Error::Load(id, reason) => appended(
                &joined("plugin ", &to_quoted(id), " failed to load: "),
                reason,
            ),
            Error::Host(text) => appended("host operation failed: ", text),
            Error::Io(failure) => appended("I/O error: ", &failure.text),
        }
    }
}

/// Errors of the plugin catalog and of plugin sessions.
#[derive(Debug)]
pub enum PluginError {
    /// Metadata could not be written down.
    SerializeMetadata(String),
    /// Metadata could not be read back.
    ParseMetadata(String),
    /// The metadata's schema version is not supported.
    UnsupportedSchema(u32),
    /// No plugin with this identifier is installed.
    NotFound(String),
    /// The component runtime failed.
    Runtime(String),
    /// A file operation failed.
    Io(IoFailure),
}

/// What an error of the catalog or of a session tells the user.
pub open spec fn plugin_error_text(error: PluginError) -> Seq<char> {
    match error {
        PluginError::SerializeMetadata(text) => "failed to serialize plugin metadata: "@ + text@,
        PluginError::ParseMetadata(text) => "failed to parse plugin metadata: "@ + text@,
        PluginError::UnsupportedSchema(version) => "plugin metadata schema "@
            + crate::text::decimal(version as nat) + " is not supported"@,
        PluginError::NotFound(id) => "plugin "@ + id@ + " was not found"@,
        PluginError::Runtime(text) => "plugin runtime failed: "@ + text@,
        PluginError::Io(failure) => "I/O: "@ + failure.text@,
    }
}

impl PluginError {
    /// Tells the user what went wrong.
    pub fn text(&self) -> (out: String)
        ensures
            out@ == plugin_error_text(*self),
    {
        match self {
            PluginError::SerializeMetadata(text) => appended(
                "failed to serialize plugin metadata: ",
                text,
            ),
            PluginError::ParseMetadata(text) => appended(
                "failed to parse plugin metadata: ",
                text,
            ),
            PluginError::UnsupportedSchema(version) => joined(
                "plugin metadata schema ",
                &decimal_text(*version as u64),
                " is not supported",
            ),
            PluginError::NotFound(id) => joined("plugin ", id, " was not found"),
            PluginError::Runtime(text) => appended("plugin runtime failed: ", text),
            PluginError::Io(failure) => appended("I/O: ", &failure.text),
        }
    }
}

/// What the removal of a directory comes to: one that was not there is as good
/// as removed.
pub fn remove_directory(removed: Result<(), IoFailure>) -> (out: Result<(), IoFailure>)
    ensures
        out is Ok <==> (removed is Ok || removed->Err_0.not_found),
        out matches Err(failure) ==> removed == Err::<(), IoFailure>(failure),
{
    match removed {
        Ok(()) => Ok(()),
        Err(failure) => if failure.not_found {
            Ok(())
        } else {
            Err(failure)
        },
    }
}

/// What an error tells names what went wrong and keeps every detail of it
/// unchanged.
pub proof fn law_error_texts_keep_their_details(
    text: String,
    other: String,
    failure: IoFailure,
    id: PluginId,
)
    ensures
        error_text(Error::ReadManifest { path: text, source: other })
            == "failed to read plugin manifest "@ + text@ + ": "@ + other@,
        error_text(Error::InvalidManifest(text)) == "invalid plugin manifest: "@ + text@,
        error_text(Error::ParseManifest(text)) == "failed to parse plugin manifest: "@ + text@,
        error_text(Error::PluginNotFound(id)) == "plugin "@ + crate::ids::hyphenated(id.value())
            + " was not found"@,
        error_text(Error::ApiVersion { actual: text, expected: other }) == "plugin API version "@
            + text@ + " is not supported; expected "@ + other@,
        error_text(Error::InvalidComponent(text)) == "plugin component is invalid: "@ + text@,
        error_text(Error::Load(text, other)) == "plugin "@ + crate::text::quoted(text@)
            + " failed to load: "@ + other@,
        error_text(Error::Host(text)) == "host operation failed: "@ + text@,
        error_text(Error::Io(failure)) == "I/O error: "@ + failure.text@,
{
}

/// What an error of the catalog or of a session tells names what went wrong and
/// keeps every detail of it unchanged.
pub proof fn law_plugin_error_texts_keep_their_details(
    text: String,
    failure: IoFailure,
    version: u32,
)
    ensures
        plugin_error_text(PluginError::SerializeMetadata(text))
            == "failed to serialize plugin metadata: "@ + text@,
        plugin_error_text(PluginError::ParseMetadata(text)) == "failed to parse plugin metadata: "@
            + text@,
        plugin_error_text(PluginError::UnsupportedSchema(version)) == "plugin metadata schema "@
            + crate::text::decimal(version as nat) + " is not supported"@,
        plugin_error_text(PluginError::NotFound(text)) == "plugin "@ + text@ + " was not found"@,
        plugin_error_text(PluginError::Runtime(text)) == "plugin runtime failed: "@ + text@,
        plugin_error_text(PluginError::Io(failure)) == "I/O: "@ + failure.text@,
{
}

}
