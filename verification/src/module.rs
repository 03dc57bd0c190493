//! Modules: providers and arguments that are configured together.
use vstd::prelude::*;
use crate::arg::{Arg, WithArg};
use crate::parameter::{Parameters, RequestParameter};
use crate::provider_registry::{ProviderRegistry, Slots};
use crate::providers::{Provider, TypedProvider};
use crate::service::ServiceInfo;

verus! {

/// A collection of providers and parameters that can be added all at once
/// to an injector builder.
pub struct Module<V, F, C> {
    providers: ProviderRegistry<V, F, C>,
    parameters: Parameters<V>,
}

impl<V, F, C> Module<V, F, C> {
    /// The providers of this module.
    pub closed spec fn slots(&self) -> Slots<V, F, C> {
        self.providers@
    }

    /// The parameters of this module.
    pub closed spec fn parameters(&self) -> Map<Seq<char>, RequestParameter<V>> {
        self.parameters@
    }

    /// Creates a module without providers and parameters.
    pub fn new() -> (module: Self)
        ensures
            module.slots() == Map::<u64, Option<Seq<Provider<V, F, C>>>>::empty(),
            module.parameters() == Map::<Seq<char>, RequestParameter<V>>::empty(),
    {
        Module { providers: ProviderRegistry::new(), parameters: Parameters::new() }
    }

    /// Registers `provider` for the service it provides, after the
    /// providers that are registered for it already.
    pub fn provide<P: TypedProvider<V, F, C>>(&mut self, provider: P)
        ensures
            final(self).parameters() == old(self).parameters(),
            final(self).slots() == old(self).slots().insert(
                provider.erased().registered().key(),
                Some(
                    match old(self).slots().get(provider.erased().registered().key()) {
                        Some(Some(providers)) => providers.push(provider.erased()),
                        _ => seq![provider.erased()],
                    },
                ),
            ),
    {
        let provider = provider.into_provider();
        let service_info = provider.result();
        self.providers.add_provider_for(service_info, provider);
    }

    /// Takes the module apart into its providers and its parameters.
    pub fn into_parts(self) -> (parts: (ProviderRegistry<V, F, C>, Parameters<V>))
        ensures
            parts.0@ == self.slots(),
            parts.1@ == self.parameters(),
    {
        (self.providers, self.parameters)
    }

    /// Sets a parameter of the requests to the injector that this module is
    /// added to, and returns the value that the parameter had.
    pub fn insert_parameter(&mut self, key: &str, value: RequestParameter<V>) -> (previous: Option<
        RequestParameter<V>,
    >)
        ensures
            final(self).slots() == old(self).slots(),
            final(self).parameters() == old(self).parameters().insert(key@, value),
            previous == if old(self).parameters().contains_key(key@) {
                Some(old(self).parameters()[key@])
            } else {
                None
            },
    {
        self.parameters.insert(key, value)
    }

    /// Removes a parameter, and returns the value that it had.
    pub fn remove_parameter(&mut self, key: &str) -> (removed: Option<RequestParameter<V>>)
        ensures
            final(self).slots() == old(self).slots(),
            final(self).parameters() == old(self).parameters().remove(key@),
            removed == if old(self).parameters().contains_key(key@) {
                Some(old(self).parameters()[key@])
            } else {
                None
            },
    {
        self.parameters.remove(key)
    }
}

impl<V, F, C> Default for Module<V, F, C> {
    fn default() -> (module: Self)
        ensures
            module.slots() == Map::<u64, Option<Seq<Provider<V, F, C>>>>::empty(),
            module.parameters() == Map::<Seq<char>, RequestParameter<V>>::empty(),
    {
        Module::new()
    }
}

impl<V, F, C> WithArg<V> for Module<V, F, C> {
    open spec fn arguments(&self) -> Map<Seq<char>, RequestParameter<V>> {
        self.parameters()
    }

    fn with_arg(&mut self, target: ServiceInfo, value_info: ServiceInfo, value: V) -> (previous:
        Option<RequestParameter<V>>)
        ensures
            final(self).slots() == old(self).slots(),
    {
        let name = Arg::<V>::param_name(target, value_info);
        self.parameters.insert(name.as_str(), RequestParameter::new(value_info, value))
    }
}

} // verus!
