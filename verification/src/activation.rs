//! How each kind of provider provides its service.
use vstd::prelude::*;
use crate::arg::{param_key, Arg};
use crate::factory::{Condition, ServiceFactory};
use crate::info::RequestInfo;
use crate::injector::Injector;
use crate::providers::{
    ArgProvider, ConditionalProvider, ConstantProvider, InterfaceProvider, Provider,
    SingletonProvider, TransientProvider,
};
use crate::evolution::lemma_evolved_itself;
use crate::resolution::{
    activation_failure, decided, present_count, provider_outcome, provider_owned_outcome,
};
use crate::service::{
    share, DynSvc, InjectError, InjectErrorView, InjectResult, OwnedDynSvc, Svc,
};

verus! {

impl<V, F: ServiceFactory<V, Result = V>> TransientProvider<V, F> {
    /// Creates an instance of the service.
    pub fn provide_typed<C: Condition<V, F>>(
        &mut self,
        injector: &mut Injector<V, F, C>,
        request_info: &RequestInfo<V>,
    ) -> (provided: InjectResult<Svc<V>>)
        ensures
            final(injector).framed(old(injector)),
            final(self).result == old(self).result,
            final(self).dependencies == old(self).dependencies,
            activation_failure(
                old(injector).slots(),
                old(self).result,
                old(self).dependencies@,
                request_info@,
            ) matches Some(error) ==> provided is Err && provided->Err_0@ == error
                && final(injector).slots() == old(injector).slots() && *final(self) == *old(self),
        decreases present_count(old(injector).slots()), 5nat, 1nat,
    {
        proof {
            injector.lemma_finite();
        }
        match injector.activate(&mut self.factory, self.result, &self.dependencies, request_info) {
            Ok(created) => Ok(Svc::new(created)),
            Err(error) => Err(error),
        }
    }

    /// Creates an instance of the service that its requester owns.
    pub fn provide_owned_typed<C: Condition<V, F>>(
        &mut self,
        injector: &mut Injector<V, F, C>,
        request_info: &RequestInfo<V>,
    ) -> (provided: InjectResult<Box<V>>)
        ensures
            final(injector).framed(old(injector)),
            final(self).result == old(self).result,
            final(self).dependencies == old(self).dependencies,
            activation_failure(
                old(injector).slots(),
                old(self).result,
                old(self).dependencies@,
                request_info@,
            ) matches Some(error) ==> provided is Err && provided->Err_0@ == error
                && final(injector).slots() == old(injector).slots() && *final(self) == *old(self),
        decreases present_count(old(injector).slots()), 5nat, 1nat,
    {
        proof {
            injector.lemma_finite();
        }
        match injector.activate(&mut self.factory, self.result, &self.dependencies, request_info) {
            Ok(created) => Ok(Box::new(created)),
            Err(error) => Err(error),
        }
    }
}

impl<V, F: ServiceFactory<V, Result = V>> SingletonProvider<V, F> {
    /// Keeps `created` as the instance of the service from now on.
    pub fn keep(&mut self, created: V) -> (service: Svc<V>)
        ensures
            *service == created,
            final(self).cached == Some(service),
            final(self).result == old(self).result,
            final(self).dependencies == old(self).dependencies,
            final(self).factory == old(self).factory,
    {
        let service = Svc::new(created);
        self.cached = Some(share(&service));
        service
    }

    /// Hands out the instance of the service, which is created if none
    /// exists yet. An activation that fails leaves none behind.
    pub fn provide_typed<C: Condition<V, F>>(
        &mut self,
        injector: &mut Injector<V, F, C>,
        request_info: &RequestInfo<V>,
    ) -> (provided: InjectResult<Svc<V>>)
        ensures
            final(injector).framed(old(injector)),
            final(self).result == old(self).result,
            final(self).dependencies == old(self).dependencies,
            old(self).cached matches Some(service) ==> provided
                == Ok::<Svc<V>, InjectError>(service)
                && *final(self) == *old(self) && final(injector).slots() == old(injector).slots(),
            old(self).cached is None ==> (activation_failure(
                old(injector).slots(),
                old(self).result,
                old(self).dependencies@,
                request_info@,
            ) matches Some(error) ==> provided is Err && provided->Err_0@ == error
                && final(injector).slots() == old(injector).slots() && *final(self) == *old(self)),
            provided matches Ok(service) ==> final(self).cached == Some(service),
            provided is Err ==> final(self).cached is None,
        decreases present_count(old(injector).slots()), 5nat, 1nat,
    {
        proof {
            injector.lemma_finite();
        }
        if let Some(service) = &self.cached {
            proof {
                lemma_evolved_itself(injector.slots());
            }
            return Ok(share(service));
        }
        match injector.activate(&mut self.factory, self.result, &self.dependencies, request_info) {
            Ok(created) => Ok(self.keep(created)),
            Err(error) => Err(error),
        }
    }
}

impl<V> ConstantProvider<V> {
    /// Hands out the instance.
    pub fn provide_typed(&self) -> (provided: Svc<V>)
        ensures
            provided == self.value,
    {
        share(&self.value)
    }
}

impl<V, F: ServiceFactory<V, Result = V>, C: Condition<V, F>> ConditionalProvider<V, F, C> {
    /// Provides what the inner provider does where `holds`, the answer of
    /// the condition, is true. Where it is false, the conditions of the
    /// service are reported as not met, and nothing else happens.
    pub fn provide_when(
        &mut self,
        holds: bool,
        injector: &mut Injector<V, F, C>,
        request_info: &RequestInfo<V>,
    ) -> (provided: InjectResult<DynSvc<V>>)
        ensures
            final(injector).framed(old(injector)),
            final(self).condition == old(self).condition,
            old(self).inner.evolves_to(*final(self).inner),
            !holds ==> provided is Err && provided->Err_0@ == (InjectErrorView::ConditionsNotMet {
                service_info: old(self).inner.created(),
            }) && *final(self) == *old(self) && final(injector).slots() == old(injector).slots(),
            holds ==> decided(
                provider_outcome(old(injector).slots(), *old(self).inner, request_info@),
                provided,
            ),
            holds && provider_outcome(old(injector).slots(), *old(self).inner, request_info@)
                is Some ==> final(injector).slots() == old(injector).slots() && *final(self)
                == *old(self),
        decreases present_count(old(injector).slots()), 6nat, 3 * old(self).inner.depth() + 1,
    {
        proof {
            injector.lemma_finite();
        }
        if holds {
            self.inner.provide(injector, request_info)
        } else {
            proof {
                self.inner.lemma_evolves_to_itself();
                lemma_evolved_itself(injector.slots());
            }
            Err(InjectError::ConditionsNotMet { service_info: self.inner.typed_result() })
        }
    }

    /// Provides what the inner provider does, where the condition holds.
    pub fn provide_typed(
        &mut self,
        injector: &mut Injector<V, F, C>,
        request_info: &RequestInfo<V>,
    ) -> (provided: InjectResult<DynSvc<V>>)
        ensures
            final(injector).framed(old(injector)),
            old(self).inner.evolves_to(*final(self).inner),
        decreases present_count(old(injector).slots()), 6nat, 3 * old(self).inner.depth() + 2,
    {
        let holds = self.condition.check(injector, request_info);
        self.provide_when(holds, injector, request_info)
    }

    /// Provides what the inner provider does for its owner where `holds`,
    /// the answer of the condition, is true. Where it is false, the
    /// conditions of the service are reported as not met, and nothing else
    /// happens.
    pub fn provide_owned_when(
        &mut self,
        holds: bool,
        injector: &mut Injector<V, F, C>,
        request_info: &RequestInfo<V>,
    ) -> (provided: InjectResult<OwnedDynSvc<V>>)
        ensures
            final(injector).framed(old(injector)),
            final(self).condition == old(self).condition,
            old(self).inner.evolves_to(*final(self).inner),
            !holds ==> provided is Err && provided->Err_0@ == (InjectErrorView::ConditionsNotMet {
                service_info: old(self).inner.created(),
            }) && *final(self) == *old(self) && final(injector).slots() == old(injector).slots(),
            holds ==> decided(
                provider_owned_outcome(old(injector).slots(), *old(self).inner, request_info@),
                provided,
            ),
            holds && provider_owned_outcome(old(injector).slots(), *old(self).inner, request_info@)
                is Some ==> final(injector).slots() == old(injector).slots() && *final(self)
                == *old(self),
        decreases present_count(old(injector).slots()), 6nat, 3 * old(self).inner.depth() + 1,
    {
        proof {
            injector.lemma_finite();
        }
        if holds {
            self.inner.provide_owned(injector, request_info)
        } else {
            proof {
                self.inner.lemma_evolves_to_itself();
                lemma_evolved_itself(injector.slots());
            }
            Err(InjectError::ConditionsNotMet { service_info: self.inner.typed_result() })
        }
    }

    /// Provides what the inner provider does for its owner, where the
    /// condition holds.
    pub fn provide_owned_typed(
        &mut self,
        injector: &mut Injector<V, F, C>,
        request_info: &RequestInfo<V>,
    ) -> (provided: InjectResult<OwnedDynSvc<V>>)
        ensures
            final(injector).framed(old(injector)),
            old(self).inner.evolves_to(*final(self).inner),
        decreases present_count(old(injector).slots()), 6nat, 3 * old(self).inner.depth() + 2,
    {
        let holds = self.condition.check(injector, request_info);
        self.provide_owned_when(holds, injector, request_info)
    }
}

impl<V, F: ServiceFactory<V, Result = V>, C: Condition<V, F>> InterfaceProvider<V, F, C> {
    /// Provides what the inner provider does, in the name of the interface.
    pub fn provide_typed(
        &mut self,
        injector: &mut Injector<V, F, C>,
        request_info: &RequestInfo<V>,
    ) -> (provided: InjectResult<DynSvc<V>>)
        ensures
            final(injector).framed(old(injector)),
            final(self).interface == old(self).interface,
            old(self).inner.evolves_to(*final(self).inner),
            provider_outcome(old(injector).slots(), Provider::Interface(*old(self)), request_info@)
                is Some ==> final(injector).slots() == old(injector).slots() && *final(self)
                == *old(self),
            decided(
                provider_outcome(
                    old(injector).slots(),
                    Provider::Interface(*old(self)),
                    request_info@,
                ),
                provided,
            ),
            old(self).inner.keeps() ==> (provided matches Ok(service) ==> Provider::Interface(
                *final(self),
            ).kept() == Some(service)),
        decreases present_count(old(injector).slots()), 6nat, 3 * old(self).inner.depth() + 1,
    {
        proof {
            injector.lemma_finite();
        }
        match self.inner.provide(injector, request_info) {
            Ok(provided) => self.interface.from_svc(provided),
            Err(error) => Err(error),
        }
    }

    /// Provides what the inner provider does for its owner, in the name of
    /// the interface.
    pub fn provide_owned_typed(
        &mut self,
        injector: &mut Injector<V, F, C>,
        request_info: &RequestInfo<V>,
    ) -> (provided: InjectResult<OwnedDynSvc<V>>)
        ensures
            final(injector).framed(old(injector)),
            final(self).interface == old(self).interface,
            old(self).inner.evolves_to(*final(self).inner),
            provider_owned_outcome(
                old(injector).slots(),
                Provider::Interface(*old(self)),
                request_info@,
            ) is Some ==> final(injector).slots() == old(injector).slots() && *final(self)
                == *old(self),
            decided(
                provider_owned_outcome(
                    old(injector).slots(),
                    Provider::Interface(*old(self)),
                    request_info@,
                ),
                provided,
            ),
        decreases present_count(old(injector).slots()), 6nat, 3 * old(self).inner.depth() + 1,
    {
        proof {
            injector.lemma_finite();
        }
        match self.inner.provide_owned(injector, request_info) {
            Ok(provided) => self.interface.from_owned_svc(provided),
            Err(error) => Err(error),
        }
    }
}

impl<V, F: ServiceFactory<V, Result = V>, C: Condition<V, F>> ArgProvider<V, F, C> {
    /// The information of the request with the argument added to it.
    pub fn with_argument(&self, request_info: &RequestInfo<V>) -> (extended: RequestInfo<V>)
        ensures
            extended@ == request_info@.with_parameter(
                param_key(self.inner.created().key(), self.arg.info.key()),
                self.arg,
            ),
    {
        let mut extended = request_info.duplicate();
        let name = Arg::<V>::param_name(self.inner.typed_result(), self.arg.info);
        let _ = extended.insert_parameter(name.as_str(), self.arg.clone_dyn());
        extended
    }

    /// Provides what the inner provider does, with the argument in the
    /// information of the request.
    pub fn provide_typed(
        &mut self,
        injector: &mut Injector<V, F, C>,
        request_info: &RequestInfo<V>,
    ) -> (provided: InjectResult<DynSvc<V>>)
        ensures
            final(injector).framed(old(injector)),
            final(self).arg == old(self).arg,
            old(self).inner.evolves_to(*final(self).inner),
            provider_outcome(old(injector).slots(), Provider::Arg(*old(self)), request_info@)
                is Some ==> final(injector).slots() == old(injector).slots() && *final(self)
                == *old(self),
            decided(
                provider_outcome(old(injector).slots(), Provider::Arg(*old(self)), request_info@),
                provided,
            ),
            old(self).inner.keeps() ==> (provided matches Ok(service) ==> Provider::Arg(
                *final(self),
            ).kept() == Some(service)),
        decreases present_count(old(injector).slots()), 6nat, 3 * old(self).inner.depth() + 1,
    {
        proof {
            injector.lemma_finite();
        }
        let extended = self.with_argument(request_info);
        self.inner.provide(injector, &extended)
    }

    /// Provides what the inner provider does for its owner, with the
    /// argument in the information of the request.
    pub fn provide_owned_typed(
        &mut self,
        injector: &mut Injector<V, F, C>,
        request_info: &RequestInfo<V>,
    ) -> (provided: InjectResult<OwnedDynSvc<V>>)
        ensures
            final(injector).framed(old(injector)),
            final(self).arg == old(self).arg,
            old(self).inner.evolves_to(*final(self).inner),
            provider_owned_outcome(old(injector).slots(), Provider::Arg(*old(self)), request_info@)
                is Some ==> final(injector).slots() == old(injector).slots() && *final(self)
                == *old(self),
            decided(
                provider_owned_outcome(
                    old(injector).slots(),
                    Provider::Arg(*old(self)),
                    request_info@,
                ),
                provided,
            ),
        decreases present_count(old(injector).slots()), 6nat, 3 * old(self).inner.depth() + 1,
    {
        proof {
            injector.lemma_finite();
        }
        let extended = self.with_argument(request_info);
        self.inner.provide_owned(injector, &extended)
    }
}

impl<V, F: ServiceFactory<V, Result = V>, C: Condition<V, F>> Provider<V, F, C> {
    /// Provides the service for the request `request_info`.
    pub fn provide(
        &mut self,
        injector: &mut Injector<V, F, C>,
        request_info: &RequestInfo<V>,
    ) -> (provided: InjectResult<DynSvc<V>>)
        ensures
            final(injector).framed(old(injector)),
            old(self).evolves_to(*final(self)),
            provider_outcome(old(injector).slots(), *old(self), request_info@) is Some ==>
                final(injector).slots() == old(injector).slots() && *final(self) == *old(self),
            decided(provider_outcome(old(injector).slots(), *old(self), request_info@), provided),
            old(self).keeps() ==> (provided matches Ok(service) ==> final(self).kept() == Some(
                service,
            )),
        decreases present_count(old(injector).slots()), 6nat, 3 * old(self).depth(),
    {
        proof {
            injector.lemma_finite();
            lemma_evolved_itself(injector.slots());
        }
        match self {
            Provider::Transient(provider) => {
                let info = provider.result;
                match provider.provide_typed(injector, request_info) {
                    Ok(service) => Ok(DynSvc { info, service }),
                    Err(error) => Err(error),
                }
            },
            Provider::Singleton(provider) => {
                let info = provider.result;
                match provider.provide_typed(injector, request_info) {
                    Ok(service) => Ok(DynSvc { info, service }),
                    Err(error) => Err(error),
                }
            },
            Provider::Constant(provider) => Ok(
                DynSvc { info: provider.result, service: provider.provide_typed() },
            ),
            Provider::Conditional(provider) => provider.provide_typed(injector, request_info),
            Provider::Interface(provider) => provider.provide_typed(injector, request_info),
            Provider::Arg(provider) => provider.provide_typed(injector, request_info),
        }
    }

    /// Provides the service for the request `request_info`, as an instance
    /// that its requester owns. Providers that keep the instances they
    /// create cannot give one away.
    pub fn provide_owned(
        &mut self,
        injector: &mut Injector<V, F, C>,
        request_info: &RequestInfo<V>,
    ) -> (provided: InjectResult<OwnedDynSvc<V>>)
        ensures
            final(injector).framed(old(injector)),
            old(self).evolves_to(*final(self)),
            provider_owned_outcome(old(injector).slots(), *old(self), request_info@)
                is Some ==> final(injector).slots() == old(injector).slots() && *final(self)
                == *old(self),
            decided(
                provider_owned_outcome(old(injector).slots(), *old(self), request_info@),
                provided,
            ),
        decreases present_count(old(injector).slots()), 6nat, 3 * old(self).depth(),
    {
        proof {
            injector.lemma_finite();
            lemma_evolved_itself(injector.slots());
        }
        match self {
            Provider::Transient(provider) => {
                let info = provider.result;
                match provider.provide_owned_typed(injector, request_info) {
                    Ok(service) => Ok(OwnedDynSvc { info, service }),
                    Err(error) => Err(error),
                }
            },
            Provider::Singleton(provider) => Err(
                InjectError::OwnedNotSupported { service_info: provider.result },
            ),
            Provider::Constant(provider) => Err(
                InjectError::OwnedNotSupported { service_info: provider.result },
            ),
            Provider::Conditional(provider) => provider.provide_owned_typed(injector, request_info),
            Provider::Interface(provider) => provider.provide_owned_typed(injector, request_info),
            Provider::Arg(provider) => provider.provide_owned_typed(injector, request_info),
        }
    }
}

} // verus!
