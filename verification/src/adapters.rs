//! What loaded plugins contribute to the native subsystems.

use std::sync::Arc;

use vstd::prelude::*;

use crate::error::Error;
use crate::ids::{uuid_text, PluginId};
use crate::package::PackageManifest;

verus! {

/// A loaded plugin: the manifest it was loaded with and its live instance.
#[derive(Debug)]
pub struct PluginHandle<H> {
    pub manifest: PackageManifest,
    pub instance: H,
}

/// `Arc::clone` makes another pointer to the same value.
#[verifier::external_body]
pub(crate) fn share<T>(shared: &Arc<T>) -> (out: Arc<T>)
    ensures
        out == *shared,
{
    Arc::clone(shared)
}

/// How a storefront shows up among the account providers.
#[derive(Debug)]
pub struct StorefrontProvider {
    pub id: PluginId,
    pub name: String,
}

/// Whether a provider is the one that a plugin is known as.
pub open spec fn is_provider_of(manifest: PackageManifest, provider: StorefrontProvider) -> bool {
    provider.id == manifest.id && provider.name == manifest.name
}

/// Whether what the native registry gets of a link is what came of it.
pub open spec fn is_link_outcome<A>(outcome: Result<A, Error>, out: Result<A, String>) -> bool {
    match outcome {
        Ok(account) => out == Ok::<A, String>(account),
        Err(error) => out matches Err(text) && text@ == crate::error::error_text(error),
    }
}

/// Presents one plugin as a provider of storefront accounts.
#[derive(Debug)]
pub struct StorefrontAccountAdapter<H> {
    handle: Arc<PluginHandle<H>>,
}

impl<H> StorefrontAccountAdapter<H> {
    /// The plugin that is presented.
    pub closed spec fn plugin(self) -> Arc<PluginHandle<H>> {
        self.handle
    }

    /// Presents a loaded plugin.
    pub fn new(handle: Arc<PluginHandle<H>>) -> (out: StorefrontAccountAdapter<H>)
        ensures
            out.plugin() == handle,
    {
        StorefrontAccountAdapter { handle }
    }

    /// The plugin that is presented.
    pub fn handle(&self) -> (out: &Arc<PluginHandle<H>>)
        ensures
            *out == self.plugin(),
    {
        &self.handle
    }

    /// The provider that the plugin is known as.
    pub fn provider(&self) -> (out: StorefrontProvider)
        ensures
            is_provider_of(self.plugin().manifest, out),
    {
        StorefrontProvider {
            id: self.handle.manifest.id,
            name: self.handle.manifest.name.clone(),
        }
    }

    /// The text by which the plugin is told for which profile to link an
    /// account.
    pub fn link_account(&self, profile_id: u128) -> (out: String)
        ensures
            out@ == crate::ids::hyphenated(profile_id),
    {
        uuid_text(profile_id)
    }

    /// What the native registry gets of an account that was linked, or was not.
    pub fn linked<A>(outcome: Result<A, Error>) -> (out: Result<A, String>)
        ensures
            is_link_outcome(outcome, out),
    {
        match outcome {
            Ok(account) => Ok(account),
            Err(error) => Err(error.text()),
        }
    }
}

/// A change to the native registry of account providers.
#[derive(Debug)]
pub enum AdapterAction<H> {
    /// Register this provider under its plugin's identity.
    Register(StorefrontAccountAdapter<H>),
    /// Drop the provider with this identity, if there is one.
    Unregister(PluginId),
}

/// Decides what a plugin contributes to the native registries.
pub struct PluginAdapters {}

/// Whether an action is what a loaded plugin calls for: it provides storefront
/// accounts exactly if its manifest says so.
pub open spec fn is_contribution<H>(
    handle: Arc<PluginHandle<H>>,
    action: AdapterAction<H>,
) -> bool {
    if handle.manifest.storefront_account {
        action matches AdapterAction::Register(adapter) && adapter.plugin() == handle
    } else {
        action == AdapterAction::<H>::Unregister(handle.manifest.id)
    }
}

impl PluginAdapters {
    /// Registers what a loaded plugin's manifest declares.
    pub fn register<H>(handle: Arc<PluginHandle<H>>) -> (out: AdapterAction<H>)
        ensures
            is_contribution(handle, out),
    {
        let plugin_id = handle.manifest.id;
        if handle.manifest.storefront_account {
            AdapterAction::Register(StorefrontAccountAdapter::new(handle))
        } else {
            PluginAdapters::unregister(plugin_id)
        }
    }

    /// Drops everything that a plugin has registered.
    pub fn unregister<H>(plugin_id: PluginId) -> (out: AdapterAction<H>)
        ensures
            out == AdapterAction::<H>::Unregister(plugin_id),
    {
        AdapterAction::Unregister(plugin_id)
    }
}

/// The identities under which plugins provide accounts, after a change to the
/// registry.
pub open spec fn providers_next<H>(
    providers: vstd::set::Set<u128>,
    action: AdapterAction<H>,
) -> vstd::set::Set<u128> {
    match action {
        AdapterAction::Register(adapter) => providers.insert(adapter.plugin().manifest.id.value()),
        AdapterAction::Unregister(id) => providers.remove(id.value()),
    }
}

/// A plugin that is loaded is registered as an account provider exactly if its
/// manifest says that it is one, and it is that very plugin that is
/// registered; of any other plugin nothing stays registered.
pub proof fn law_registration_follows_the_manifest<H>(
    handle: Arc<PluginHandle<H>>,
    action: AdapterAction<H>,
    providers: vstd::set::Set<u128>,
)
    requires
        is_contribution(handle, action),
    ensures
        action is Register <==> handle.manifest.storefront_account,
        action matches AdapterAction::Register(provider) ==> provider.plugin() == handle,
        providers_next(providers, action).contains(handle.manifest.id.value())
            <==> handle.manifest.storefront_account,
        forall|other: u128|
            other != handle.manifest.id.value() ==> (#[trigger] providers_next(
                providers,
                action,
            ).contains(other) <==> providers.contains(other)),
{
}

/// A provider carries the identity and the whole name of its plugin, and an
/// account that was linked is handed on unchanged; what kept it from being linked
/// is told in full.
pub proof fn law_providers_speak_for_their_plugin<A>(
    manifest: PackageManifest,
    provider: StorefrontProvider,
    outcome: Result<A, Error>,
    out: Result<A, String>,
)
    requires
        is_provider_of(manifest, provider),
        is_link_outcome(outcome, out),
    ensures
        provider.id.value() == manifest.id.value(),
        provider.name@ == manifest.name@,
        out is Ok <==> outcome is Ok,
        out matches Ok(account) ==> outcome == Ok::<A, Error>(account),
        out matches Err(text) ==> text@ == crate::error::error_text(outcome->Err_0),
{
}

}
