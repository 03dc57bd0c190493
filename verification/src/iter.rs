//! The implementations of a service, activated one at a time.
use vstd::prelude::*;
use crate::factory::{Condition, ServiceFactory};
use crate::info::{RequestInfo, RequestInfoView};
use crate::injector::Injector;
use crate::report::{collection_error, downcast, downcast_owned, owned_collection_error};
use crate::provider_registry::{ProviderRegistry, Slots};
use crate::providers::Provider;
use crate::evolution::{
    each_evolved, evolved, lemma_each_evolved_at, lemma_each_evolved_itself, lemma_each_evolved_on,
    lemma_evolved_empty_slot, lemma_evolved_itself, lemma_evolved_on, lemma_evolved_reclaim,
};
use crate::resolution::{
    all_outcome, all_owned_outcome, decided_all, from_provided, from_provided_owned,
    in_activation_of, provider_outcome, provider_owned_outcome,
};
use crate::service::{InjectError, InjectErrorView, InjectResult, ServiceInfo, Svc};

verus! {

/// What the next step through the checked out `providers` yields, from
/// `position` on, and where the step ends: the first service or failure of a
/// provider whose conditions are met, or nothing after the last provider.
pub open spec fn next_outcome<V, F, C>(
    slots: Slots<V, F, C>,
    providers: Seq<Provider<V, F, C>>,
    position: int,
    info: RequestInfoView<V>,
    service: ServiceInfo,
) -> Option<(Option<Result<Svc<V>, InjectErrorView>>, int)>
    decreases providers.len() - position,
{
    if position < 0 || position >= providers.len() {
        Some((None, position))
    } else {
        match provider_outcome(slots, providers[position], info) {
            None => None,
            Some(Err(InjectErrorView::ConditionsNotMet { .. })) => next_outcome(
                slots,
                providers,
                position + 1,
                info,
                service,
            ),
            Some(Err(error)) => Some((Some(Err(in_activation_of(error, service))), position + 1)),
            Some(Ok(provided)) => Some((Some(from_provided(provided, service)), position + 1)),
        }
    }
}

/// What the next step through the checked out `providers` yields to a
/// request for owned instances, from `position` on, and where the step ends.
/// Providers that keep their instances are passed over.
pub open spec fn next_owned_outcome<V, F, C>(
    slots: Slots<V, F, C>,
    providers: Seq<Provider<V, F, C>>,
    position: int,
    info: RequestInfoView<V>,
    service: ServiceInfo,
) -> Option<(Option<Result<Box<V>, InjectErrorView>>, int)>
    decreases providers.len() - position,
{
    if position < 0 || position >= providers.len() {
        Some((None, position))
    } else {
        match provider_owned_outcome(slots, providers[position], info) {
            None => None,
            Some(Err(InjectErrorView::ConditionsNotMet { .. })) => next_owned_outcome(
                slots,
                providers,
                position + 1,
                info,
                service,
            ),
            Some(Err(InjectErrorView::OwnedNotSupported { .. })) => next_owned_outcome(
                slots,
                providers,
                position + 1,
                info,
                service,
            ),
            Some(Err(error)) => Some((Some(Err(in_activation_of(error, service))), position + 1)),
            Some(Ok(provided)) => Some(
                (Some(from_provided_owned(provided, service)), position + 1),
            ),
        }
    }
}

/// Whether `step` is what `expected` says.
pub open spec fn step_decided<T>(
    expected: Option<Result<T, InjectErrorView>>,
    step: Option<InjectResult<T>>,
) -> bool {
    match expected {
        None => step is None,
        Some(Ok(service)) => step == Some(Ok::<T, InjectError>(service)),
        Some(Err(error)) => step matches Some(Err(reported)) && reported@ == error,
    }
}

/// All the providers of a service, checked out of the injector.
///
/// As long as this exists, requests for the service fail as part of a cycle.
/// [`release`](Services::release) hands the providers back.
pub struct Services<V, F, C> {
    service_info: ServiceInfo,
    request_info: RequestInfo<V>,
    providers: Vec<Provider<V, F, C>>,
}

/// The implementations of a service, one after the other: a single pass
/// through the providers of the service, each activated when its turn comes.
pub struct ServicesIter<V, F, C> {
    services: Services<V, F, C>,
    position: usize,
}

/// Owned instances of the implementations of a service, one after the
/// other: a single pass through the providers of the service, each
/// activated when its turn comes.
pub struct OwnedServicesIter<V, F, C> {
    services: Services<V, F, C>,
    position: usize,
}

impl<V, F, C> Services<V, F, C> {
    /// The service whose providers these are.
    pub closed spec fn service(&self) -> ServiceInfo {
        self.service_info
    }

    /// The providers that are checked out.
    pub closed spec fn providers(&self) -> Seq<Provider<V, F, C>> {
        self.providers@
    }

    /// The information of the request that the services are activated for.
    pub closed spec fn info(&self) -> RequestInfoView<V> {
        self.request_info@
    }

    /// Checks the providers of `service_info` out of `injector`, to be
    /// activated for the request `request_info`.
    pub fn new(
        injector: &mut Injector<V, F, C>,
        service_info: ServiceInfo,
        request_info: RequestInfo<V>,
    ) -> (services: InjectResult<Self>)
        ensures
            final(injector).root() == old(injector).root(),
            match ProviderRegistry::checkout_outcome(old(injector).slots(), service_info) {
                Ok(expected) => services is Ok && services->Ok_0.providers() == expected
                    && services->Ok_0.service() == service_info && services->Ok_0.info()
                    == request_info@ && final(injector).slots() == old(injector).slots().insert(
                    service_info.key(),
                    None,
                ),
                Err(expected) => services is Err && services->Err_0@ == expected
                    && final(injector).slots() == old(injector).slots(),
            },
    {
        match injector.checkout(service_info) {
            Ok(providers) => Ok(Services { service_info, request_info, providers }),
            Err(error) => Err(error),
        }
    }

    /// Gets the number of providers of the service.
    pub fn len(&self) -> (len: usize)
        ensures
            len == self.providers().len(),
    {
        self.providers.len()
    }

    /// Returns `true` if the service has no providers.
    pub fn is_empty(&self) -> (empty: bool)
        ensures
            empty == (self.providers().len() == 0),
    {
        self.providers.len() == 0
    }

    /// Hands the providers back to `injector`. This fails where their slot
    /// holds providers again, and where the service is no longer
    /// registered.
    pub fn release(self, injector: &mut Injector<V, F, C>) -> (done: InjectResult<()>)
        ensures
            final(injector).root() == old(injector).root(),
            match ProviderRegistry::reclaim_failure(old(injector).slots(), self.service()) {
                None => done is Ok && final(injector).slots() == old(injector).slots().insert(
                    self.service().key(),
                    Some(self.providers()),
                ),
                Some(error) => done is Err && done->Err_0@ == error && final(injector).slots()
                    == old(injector).slots(),
            },
    {
        injector.reclaim(self.service_info, self.providers)
    }

    /// Starts the pass through the implementations of the service.
    pub fn iter(self) -> (iter: ServicesIter<V, F, C>)
        ensures
            iter.services() == self,
            iter.position() == 0,
    {
        ServicesIter { services: self, position: 0 }
    }

    /// Starts the pass through owned instances of the implementations of
    /// the service.
    pub fn iter_owned(self) -> (iter: OwnedServicesIter<V, F, C>)
        ensures
            iter.services() == self,
            iter.position() == 0,
    {
        OwnedServicesIter { services: self, position: 0 }
    }
}

impl<V, F, C> ServicesIter<V, F, C> {
    /// The providers that this pass goes through.
    pub closed spec fn services(&self) -> Services<V, F, C> {
        self.services
    }

    /// How many providers this pass has left behind.
    pub closed spec fn position(&self) -> int {
        self.position as int
    }

    /// Ends the pass.
    pub fn into_services(self) -> (services: Services<V, F, C>)
        ensures
            services == self.services(),
    {
        self.services
    }
}

impl<V, F, C> OwnedServicesIter<V, F, C> {
    /// The providers that this pass goes through.
    pub closed spec fn services(&self) -> Services<V, F, C> {
        self.services
    }

    /// How many providers this pass has left behind.
    pub closed spec fn position(&self) -> int {
        self.position as int
    }

    /// Ends the pass.
    pub fn into_services(self) -> (services: Services<V, F, C>)
        ensures
            services == self.services(),
    {
        self.services
    }
}

impl<V, F: ServiceFactory<V, Result = V>, C: Condition<V, F>> ServicesIter<V, F, C> {
    /// Activates the next implementation of the service. Providers whose
    /// conditions are not met are passed over. Returns `None` after the last
    /// provider.
    pub fn next(&mut self, injector: &mut Injector<V, F, C>) -> (step: Option<InjectResult<Svc<V>>>)
        ensures
            final(injector).framed(old(injector)),
            old(self).position() <= final(self).position(),
            each_evolved(old(self).services().providers(), final(self).services().providers()),
            final(self).services().service() == old(self).services().service(),
            final(self).services().info() == old(self).services().info(),
            step is Some ==> old(self).position() < final(self).position(),
            step matches Some(Err(error)) ==> !(error@ is ConditionsNotMet),
            next_outcome(
                old(injector).slots(),
                old(self).services().providers(),
                old(self).position(),
                old(self).services().info(),
                old(self).services().service(),
            ) matches Some((expected, position)) ==> step_decided(expected, step)
                && final(self).position() == position && final(self).services().providers()
                == old(self).services().providers() && final(injector).slots()
                == old(injector).slots(),
    {
        proof {
            injector.lemma_finite();
        }
        let ghost slots = injector.slots();
        let ghost providers = self.services.providers@;
        let ghost start = self.position as int;
        let ghost decided_so_far = true;
        proof {
            lemma_evolved_itself(slots);
            lemma_each_evolved_itself(providers);
        }
        while self.position < self.services.providers.len()
            invariant
                injector.framed(old(injector)),
                slots == old(injector).slots(),
                providers == old(self).services.providers@,
                start == old(self).position,
                start <= self.position,
                each_evolved(providers, self.services.providers@),
                self.services.service_info == old(self).services.service_info,
                self.services.request_info == old(self).services.request_info,
                decided_so_far ==> injector.slots() == slots && self.services.providers@
                    == providers,
                decided_so_far ==> next_outcome(
                    slots,
                    providers,
                    start,
                    self.services.request_info@,
                    self.services.service_info,
                ) == next_outcome(
                    slots,
                    providers,
                    self.position as int,
                    self.services.request_info@,
                    self.services.service_info,
                ),
                !decided_so_far ==> next_outcome(
                    slots,
                    providers,
                    start,
                    self.services.request_info@,
                    self.services.service_info,
                ) is None,
            decreases self.services.providers.len() - self.position,
        {
            proof {
                injector.lemma_finite();
            }
            let i = self.position;
            let ghost outcome = provider_outcome(
                injector.slots(),
                self.services.providers@[i as int],
                self.services.request_info@,
            );
            self.position = self.position + 1;
            let ghost between = injector.slots();
            let ghost previous = self.services.providers@;
            let provided = self.services.providers[i].provide(
                injector,
                &self.services.request_info,
            );
            proof {
                lemma_evolved_on(slots, between, injector.slots());
                lemma_each_evolved_at(previous, self.services.providers@, i as int);
                lemma_each_evolved_on(providers, previous, self.services.providers@);
                if decided_so_far && outcome is None {
                    decided_so_far = false;
                }
                if decided_so_far {
                    assert(self.services.providers@ =~= providers);
                }
            }
            match provided {
                Ok(provided) => {
                    let step = downcast(provided, self.services.service_info);
                    return Some(step);
                },
                Err(error) => match collection_error(error, self.services.service_info) {
                    None => {},
                    Some(error) => {
                        return Some(Err(error));
                    },
                },
            }
        }
        None
    }

    /// Ends the pass and hands the providers back to `injector`.
    pub fn release(self, injector: &mut Injector<V, F, C>) -> (done: InjectResult<()>)
        ensures
            final(injector).root() == old(injector).root(),
            match ProviderRegistry::reclaim_failure(
                old(injector).slots(),
                self.services().service(),
            ) {
                None => done is Ok && final(injector).slots() == old(injector).slots().insert(
                    self.services().service().key(),
                    Some(self.services().providers()),
                ),
                Some(error) => done is Err && done->Err_0@ == error && final(injector).slots()
                    == old(injector).slots(),
            },
    {
        self.services.release(injector)
    }
}

impl<V, F: ServiceFactory<V, Result = V>, C: Condition<V, F>> OwnedServicesIter<V, F, C> {
    /// Activates the next implementation of the service for its owner.
    /// Providers whose conditions are not met, and providers that keep their
    /// instances, are passed over. Returns `None` after the last provider.
    pub fn next(&mut self, injector: &mut Injector<V, F, C>) -> (step: Option<InjectResult<Box<V>>>)
        ensures
            final(injector).framed(old(injector)),
            old(self).position() <= final(self).position(),
            each_evolved(old(self).services().providers(), final(self).services().providers()),
            final(self).services().service() == old(self).services().service(),
            final(self).services().info() == old(self).services().info(),
            step is Some ==> old(self).position() < final(self).position(),
            step matches Some(Err(error)) ==> !(error@ is ConditionsNotMet),
            next_owned_outcome(
                old(injector).slots(),
                old(self).services().providers(),
                old(self).position(),
                old(self).services().info(),
                old(self).services().service(),
            ) matches Some((expected, position)) ==> step_decided(expected, step)
                && final(self).position() == position && final(self).services().providers()
                == old(self).services().providers() && final(injector).slots()
                == old(injector).slots(),
    {
        proof {
            injector.lemma_finite();
        }
        let ghost slots = injector.slots();
        let ghost providers = self.services.providers@;
        let ghost start = self.position as int;
        let ghost decided_so_far = true;
        proof {
            lemma_evolved_itself(slots);
            lemma_each_evolved_itself(providers);
        }
        while self.position < self.services.providers.len()
            invariant
                injector.framed(old(injector)),
                slots == old(injector).slots(),
                providers == old(self).services.providers@,
                start == old(self).position,
                start <= self.position,
                each_evolved(providers, self.services.providers@),
                self.services.service_info == old(self).services.service_info,
                self.services.request_info == old(self).services.request_info,
                decided_so_far ==> injector.slots() == slots && self.services.providers@
                    == providers,
                decided_so_far ==> next_owned_outcome(
                    slots,
                    providers,
                    start,
                    self.services.request_info@,
                    self.services.service_info,
                ) == next_owned_outcome(
                    slots,
                    providers,
                    self.position as int,
                    self.services.request_info@,
                    self.services.service_info,
                ),
                !decided_so_far ==> next_owned_outcome(
                    slots,
                    providers,
                    start,
                    self.services.request_info@,
                    self.services.service_info,
                ) is None,
            decreases self.services.providers.len() - self.position,
        {
            proof {
                injector.lemma_finite();
            }
            let i = self.position;
            let ghost outcome = provider_owned_outcome(
                injector.slots(),
                self.services.providers@[i as int],
                self.services.request_info@,
            );
            self.position = self.position + 1;
            let ghost between = injector.slots();
            let ghost previous = self.services.providers@;
            let provided = self.services.providers[i].provide_owned(
                injector,
                &self.services.request_info,
            );
            proof {
                lemma_evolved_on(slots, between, injector.slots());
                lemma_each_evolved_at(previous, self.services.providers@, i as int);
                lemma_each_evolved_on(providers, previous, self.services.providers@);
                if decided_so_far && outcome is None {
                    decided_so_far = false;
                }
                if decided_so_far {
                    assert(self.services.providers@ =~= providers);
                }
            }
            match provided {
                Ok(provided) => {
                    let step = downcast_owned(provided, self.services.service_info);
                    return Some(step);
                },
                Err(error) => match owned_collection_error(error, self.services.service_info) {
                    None => {},
                    Some(error) => {
                        return Some(Err(error));
                    },
                },
            }
        }
        None
    }

    /// Ends the pass and hands the providers back to `injector`.
    pub fn release(self, injector: &mut Injector<V, F, C>) -> (done: InjectResult<()>)
        ensures
            final(injector).root() == old(injector).root(),
            match ProviderRegistry::reclaim_failure(
                old(injector).slots(),
                self.services().service(),
            ) {
                None => done is Ok && final(injector).slots() == old(injector).slots().insert(
                    self.services().service().key(),
                    Some(self.services().providers()),
                ),
                Some(error) => done is Err && done->Err_0@ == error && final(injector).slots()
                    == old(injector).slots(),
            },
    {
        self.services.release(injector)
    }
}

impl<V, F: ServiceFactory<V, Result = V>, C: Condition<V, F>> Services<V, F, C> {
    /// Activates all the implementations of the service, collects them, and
    /// hands the providers back to `injector`.
    pub fn get_all(self, injector: &mut Injector<V, F, C>) -> (services: InjectResult<Vec<Svc<V>>>)
        ensures
            final(injector).root() == old(injector).root(),
            services matches Err(error) ==> !(error@ is ConditionsNotMet),
            services matches Ok(found) ==> found.len() <= self.providers().len(),
            old(injector).slots().get(self.service().key()) == Some(
                None::<Seq<Provider<V, F, C>>>,
            ) ==> evolved(
                old(injector).slots().insert(self.service().key(), Some(self.providers())),
                final(injector).slots(),
            ),
            old(injector).slots().get(self.service().key()) == Some(
                None::<Seq<Provider<V, F, C>>>,
            ) ==> (all_outcome(
                old(injector).slots(),
                self.providers(),
                0,
                Seq::empty(),
                self.info(),
                self.service(),
            ) matches Some(outcome) ==> decided_all(Some(outcome), services)
                && final(injector).slots() == old(injector).slots().insert(
                self.service().key(),
                Some(self.providers()),
            )),
    {
        let mut lease = self;
        let services = injector.collect(
            &mut lease.providers,
            lease.service_info,
            &lease.request_info,
        );
        proof {
            if old(injector).slots().get(self.service().key()) == Some(
                None::<Seq<Provider<V, F, C>>>,
            ) {
                lemma_evolved_empty_slot(
                    old(injector).slots(),
                    injector.slots(),
                    self.service().key(),
                );
            }
        }
        let ghost current = injector.slots();
        let ghost providers = lease.providers@;
        let released = injector.reclaim(lease.service_info, lease.providers);
        proof {
            if old(injector).slots().get(self.service().key()) == Some(
                None::<Seq<Provider<V, F, C>>>,
            ) {
                let key = self.service().key();
                let before = old(injector).slots().insert(key, Some(self.providers()));
                assert(before.insert(key, None) =~= old(injector).slots());
                lemma_evolved_reclaim(before, current, key, providers);
            }
        }
        match released {
            Ok(()) => services,
            Err(error) => Err(error),
        }
    }

    /// Activates all the implementations of the service for their owner,
    /// collects them, and hands the providers back to `injector`.
    pub fn get_all_owned(self, injector: &mut Injector<V, F, C>) -> (services: InjectResult<
        Vec<Box<V>>,
    >)
        ensures
            final(injector).root() == old(injector).root(),
            services matches Err(error) ==> !(error@ is ConditionsNotMet),
            services matches Ok(found) ==> found.len() <= self.providers().len(),
            old(injector).slots().get(self.service().key()) == Some(
                None::<Seq<Provider<V, F, C>>>,
            ) ==> evolved(
                old(injector).slots().insert(self.service().key(), Some(self.providers())),
                final(injector).slots(),
            ),
            old(injector).slots().get(self.service().key()) == Some(
                None::<Seq<Provider<V, F, C>>>,
            ) ==> (all_owned_outcome(
                old(injector).slots(),
                self.providers(),
                0,
                Seq::empty(),
                self.info(),
                self.service(),
            ) matches Some(outcome) ==> decided_all(Some(outcome), services)
                && final(injector).slots() == old(injector).slots().insert(
                self.service().key(),
                Some(self.providers()),
            )),
    {
        let mut lease = self;
        let services = injector.collect_owned(
            &mut lease.providers,
            lease.service_info,
            &lease.request_info,
        );
        proof {
            if old(injector).slots().get(self.service().key()) == Some(
                None::<Seq<Provider<V, F, C>>>,
            ) {
                lemma_evolved_empty_slot(
                    old(injector).slots(),
                    injector.slots(),
                    self.service().key(),
                );
            }
        }
        let ghost current = injector.slots();
        let ghost providers = lease.providers@;
        let released = injector.reclaim(lease.service_info, lease.providers);
        proof {
            if old(injector).slots().get(self.service().key()) == Some(
                None::<Seq<Provider<V, F, C>>>,
            ) {
                let key = self.service().key();
                let before = old(injector).slots().insert(key, Some(self.providers()));
                assert(before.insert(key, None) =~= old(injector).slots());
                lemma_evolved_reclaim(before, current, key, providers);
            }
        }
        match released {
            Ok(()) => services,
            Err(error) => Err(error),
        }
    }
}

} // verus!
