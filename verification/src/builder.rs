//! The builder of injectors.
use vstd::prelude::*;
use crate::arg::WithArg;
use crate::info::{RequestInfo, RequestInfoView};
use crate::injector::Injector;
use crate::module::Module;
use crate::parameter::RequestParameter;
use crate::provider_registry::{ProviderRegistry, Slots};
use crate::providers::{Provider, TypedProvider};
use crate::service::ServiceInfo;

verus! {

/// A builder for an injector: collects the providers, and the information
/// that the requests to the injector start out with.
pub struct InjectorBuilder<V, F, C> {
    registry: ProviderRegistry<V, F, C>,
    root_info: RequestInfo<V>,
}

impl<V, F, C> InjectorBuilder<V, F, C> {
    /// The providers that were registered.
    pub closed spec fn slots(&self) -> Slots<V, F, C> {
        self.registry@
    }

    /// The information that requests to the injector will start out with.
    pub closed spec fn root(&self) -> RequestInfoView<V> {
        self.root_info@
    }

    /// Creates a builder without providers.
    pub fn new() -> (builder: Self)
        ensures
            builder.slots() == Map::<u64, Option<Seq<Provider<V, F, C>>>>::empty(),
            builder.root() == RequestInfoView::<V>::empty(),
    {
        InjectorBuilder { registry: ProviderRegistry::new(), root_info: RequestInfo::new() }
    }

    /// Registers `provider` for the service it provides. A service can have
    /// several providers; they are asked in the order of their registration.
    pub fn provide<P: TypedProvider<V, F, C>>(&mut self, provider: P)
        ensures
            final(self).root() == old(self).root(),
            final(self).slots() == old(self).slots().insert(
                provider.erased().registered().key(),
                Some(
                    match old(self).slots().get(provider.erased().registered().key()) {
                        Some(Some(providers)) => providers.push(provider.erased()),
                        _ => seq![provider.erased()],
                    },
                ),
            ),
    {
        self.add_provider(provider.into_provider());
    }

    /// Registers `provider` for the service it provides.
    pub fn add_provider(&mut self, provider: Provider<V, F, C>)
        ensures
            final(self).root() == old(self).root(),
            final(self).slots() == old(self).slots().insert(
                provider.registered().key(),
                Some(
                    match old(self).slots().get(provider.registered().key()) {
                        Some(Some(providers)) => providers.push(provider),
                        _ => seq![provider],
                    },
                ),
            ),
    {
        let service_info = provider.result();
        self.registry.add_provider_for(service_info, provider);
    }

    /// Removes all the providers of `service_info`, and returns them.
    pub fn remove_providers(&mut self, service_info: ServiceInfo) -> (removed: Vec<
        Provider<V, F, C>,
    >)
        ensures
            final(self).root() == old(self).root(),
            final(self).slots() == old(self).slots().remove(service_info.key()),
            removed@ == match old(self).slots().get(service_info.key()) {
                Some(Some(providers)) => providers,
                _ => Seq::empty(),
            },
    {
        match self.registry.remove_providers_for(service_info) {
            Some(providers) => providers,
            None => Vec::new(),
        }
    }

    /// Removes every provider from the builder.
    pub fn clear_providers(&mut self)
        ensures
            final(self).root() == old(self).root(),
            final(self).slots() == Map::<u64, Option<Seq<Provider<V, F, C>>>>::empty(),
    {
        self.registry.clear();
    }

    /// Gets the information that requests to the injector will start out
    /// with.
    pub fn root_info(&self) -> (info: &RequestInfo<V>)
        ensures
            info@ == self.root(),
    {
        &self.root_info
    }

    /// Mutably gets the information that requests to the injector will
    /// start out with.
    pub fn root_info_mut(&mut self) -> (info: &mut RequestInfo<V>)
        ensures
            info@ == old(self).root(),
            final(self).root() == final(info)@,
            final(self).slots() == old(self).slots(),
    {
        &mut self.root_info
    }

    /// Adds the providers and the parameters of `module`. The providers come
    /// after those that their services have already; where the builder has
    /// a parameter of the same name, the parameter of the module replaces it.
    pub fn add_module(&mut self, module: Module<V, F, C>)
        ensures
            final(self).slots() == ProviderRegistry::merged(old(self).slots(), module.slots()),
            final(self).root().path == old(self).root().path,
            final(self).root().parameters == old(self).root().parameters.union_prefer_right(
                module.parameters(),
            ),
    {
        let (providers, parameters) = module.into_parts();
        self.registry.merge(providers);
        self.root_info.merge_parameters(parameters);
    }

    /// Builds the injector.
    pub fn build(self) -> (injector: Injector<V, F, C>)
        ensures
            injector.slots() == self.slots(),
            injector.root() == self.root(),
    {
        Injector::new(self.registry, self.root_info)
    }
}

impl<V, F, C> Default for InjectorBuilder<V, F, C> {
    fn default() -> (builder: Self)
        ensures
            builder.slots() == Map::<u64, Option<Seq<Provider<V, F, C>>>>::empty(),
            builder.root() == RequestInfoView::<V>::empty(),
    {
        InjectorBuilder::new()
    }
}

impl<V, F, C> WithArg<V> for InjectorBuilder<V, F, C> {
    open spec fn arguments(&self) -> Map<Seq<char>, RequestParameter<V>> {
        self.root().parameters
    }

    fn with_arg(&mut self, target: ServiceInfo, value_info: ServiceInfo, value: V) -> (previous:
        Option<RequestParameter<V>>)
        ensures
            final(self).slots() == old(self).slots(),
            final(self).root().path == old(self).root().path,
    {
        self.root_info.with_arg(target, value_info, value)
    }
}

} // verus!
