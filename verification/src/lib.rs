//! Plugins of Bottles: packages, the managers that install and load them, and
//! sessions with their instances.
//!
//! The library decides and computes. It reads and writes no files, runs no
//! commands and calls no guests: an operation that needs such work is a value
//! that says what to do next, and takes the answer with `resume`. What each step
//! comes to is stated by a relation named `.._next`, and what holds of whole
//! runs by the laws beside it.
//!
//! Two ways of keeping plugins stand side by side. Managed plugins
//! ([`manager`]) have a UUID and are loaded as soon as they are found.
//! Catalogued plugins ([`packages`]) have a textual identifier and are compiled
//! when they are first needed.

pub mod text;
pub mod ordered;
pub mod runs;

pub mod error;
pub mod ids;
pub mod version;

pub mod inspection;
pub mod interfaces;
pub mod package;

pub mod activation;
pub mod adapters;
pub mod discovery;
pub mod manager;
pub mod source;

pub mod catalog;
pub mod history;
pub mod installation;
pub mod loading;
pub mod manifest;
pub mod packages;
pub mod runtime;
pub mod session;

pub mod library;
pub mod storefront;

pub use crate::catalog::CompiledPlugin;
pub use crate::error::{Error, PluginError};
pub use crate::manager::{PluginManager, PluginStatus};
pub use crate::manifest::{parse_manifest, PluginInfo, PluginManifest};
pub use crate::packages::Plugins;
pub use crate::session::Plugin;
