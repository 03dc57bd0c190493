//! The injector: the registry of providers behind a single operation that
//! resolves requests.
use vstd::prelude::*;
use crate::arg::Arg;
use crate::builder::InjectorBuilder;
use crate::factory::{Condition, ServiceFactory};
use crate::info::{RequestInfo, RequestInfoView};
use crate::iter::Services;
use crate::provider_registry::{ProviderRegistry, Slots};
use crate::providers::Provider;
use crate::request::{Request, Resolved, ResolvedView};
use crate::report::{
    collection_error, dependency_error, downcast, downcast_owned, owned_collection_error,
    single_error,
};
use crate::evolution::{
    each_evolved, evolved, lemma_each_evolved_at, lemma_each_evolved_itself, lemma_each_evolved_on,
    lemma_evolved_count, lemma_evolved_empty_slot, lemma_evolved_itself, lemma_evolved_on,
    lemma_evolved_reclaim,
};
use crate::resolution::{
    activation_failure, all_outcome, all_owned_outcome, answers_view, collection_outcome,
    collection_owned_outcome, decided, decided_all, decided_answer, decided_answers, exact_outcome,
    exact_owned_outcome, group_outcome, keeps_instance, lemma_checkout_decreases,
    lemma_reclaim_restores, present_count, provider_outcome, provider_owned_outcome,
    request_outcome, single_outcome, single_owned_outcome,
};
use crate::service::{DynSvc, InjectError, InjectResult, OwnedDynSvc, ServiceInfo, Svc};

verus! {

/// A runtime dependency injection container: the providers that were
/// registered, and the information that every request starts out with.
///
/// While a request for a service is being resolved, the providers of that
/// service are checked out of the registry. A request for the same service
/// from within its own activation finds them gone and fails with the cycle,
/// and so every request returns. When a request returns, every provider is
/// back in its place.
pub struct Injector<V, F, C> {
    registry: ProviderRegistry<V, F, C>,
    root_info: RequestInfo<V>,
}

impl<V, F, C> Injector<V, F, C> {
    /// What the registry of this injector holds.
    pub closed spec fn slots(&self) -> Slots<V, F, C> {
        self.registry@
    }

    /// The information that requests to this injector start out with.
    pub closed spec fn root(&self) -> RequestInfoView<V> {
        self.root_info@
    }

    /// Whether this injector is `before` at a later time: it has the same
    /// services, each with its providers in their slot where they were in
    /// `before`, every provider is what the provider in its place has
    /// become, and the root information is the same.
    pub open spec fn framed(&self, before: &Self) -> bool {
        &&& evolved(before.slots(), self.slots())
        &&& self.root() == before.root()
    }

    /// An injector holds finitely many services.
    pub proof fn lemma_finite(&self)
        ensures
            self.slots().dom().finite(),
    {
        self.registry.lemma_finite();
    }

    /// Creates an injector directly from its providers and the information
    /// that its requests start out with.
    pub fn new(registry: ProviderRegistry<V, F, C>, root_info: RequestInfo<V>) -> (injector: Self)
        ensures
            injector.slots() == registry@,
            injector.root() == root_info@,
    {
        Injector { registry, root_info }
    }

    /// Creates a builder for an injector. This is the preferred way of
    /// creating an injector.
    pub fn builder() -> (builder: InjectorBuilder<V, F, C>)
        ensures
            builder.slots() == Map::<u64, Option<Seq<Provider<V, F, C>>>>::empty(),
            builder.root() == RequestInfoView::<V>::empty(),
    {
        InjectorBuilder::new()
    }

    /// Gets the information that requests to this injector start out with.
    pub fn root_info(&self) -> (info: &RequestInfo<V>)
        ensures
            info@ == self.root(),
    {
        &self.root_info
    }

    /// Checks out the providers of `service_info`: takes them out of their
    /// slot, which stays empty until they are reclaimed.
    pub fn checkout(&mut self, service_info: ServiceInfo) -> (providers: InjectResult<
        Vec<Provider<V, F, C>>,
    >)
        ensures
            final(self).root() == old(self).root(),
            match ProviderRegistry::checkout_outcome(old(self).slots(), service_info) {
                Ok(expected) => providers is Ok && providers->Ok_0@ == expected
                    && final(self).slots() == old(self).slots().insert(service_info.key(), None),
                Err(expected) => providers is Err && providers->Err_0@ == expected
                    && final(self).slots() == old(self).slots(),
            },
    {
        self.registry.checkout(service_info)
    }

    /// Puts the providers of `service_info` back into their slot. This fails
    /// where the slot holds providers, and where the service is no longer
    /// registered; the injector is then left as it was.
    pub fn reclaim(
        &mut self,
        service_info: ServiceInfo,
        providers: Vec<Provider<V, F, C>>,
    ) -> (done: InjectResult<()>)
        ensures
            final(self).root() == old(self).root(),
            match ProviderRegistry::reclaim_failure(old(self).slots(), service_info) {
                None => done is Ok && final(self).slots() == old(self).slots().insert(
                    service_info.key(),
                    Some(providers@),
                ),
                Some(error) => done is Err && done->Err_0@ == error && final(self).slots()
                    == old(self).slots(),
            },
    {
        self.registry.reclaim(service_info, providers)
    }

    /// Whether `service_info` is registered with this injector.
    pub fn is_registered(&self, service_info: ServiceInfo) -> (registered: bool)
        ensures
            registered == self.slots().contains_key(service_info.key()),
    {
        self.registry.contains(service_info)
    }
}

impl<V, F: ServiceFactory<V, Result = V>, C: Condition<V, F>> Injector<V, F, C> {
    /// Performs a group of requests, each with the given request
    /// information, one after the other. The first failure ends it.
    pub fn get_group(&mut self, requests: &Vec<Request>, request_info: &RequestInfo<V>) -> (answers:
        InjectResult<Vec<Resolved<V>>>)
        ensures
            final(self).framed(old(self)),
            group_outcome(old(self).slots(), requests@, 0, Seq::empty(), request_info@)
                is Some ==> final(self).slots() == old(self).slots(),
            decided_answers(
                group_outcome(old(self).slots(), requests@, 0, Seq::empty(), request_info@),
                answers,
            ),
            answers matches Ok(resolved) ==> resolved.len() == requests.len() && forall|i: int|
                0 <= i < resolved.len() ==> (#[trigger] resolved[i])@.answers(requests[i]),
            answers matches Err(error) ==> !(error@ is ConditionsNotMet),
        decreases present_count(old(self).slots()), 4nat, 0nat,
    {
        proof {
            self.lemma_finite();
        }
        let ghost before = self.slots();
        let ghost decided_so_far = true;
        proof {
            lemma_evolved_itself(before);
        }
        let mut answers: Vec<Resolved<V>> = Vec::new();
        proof {
            assert(answers_view(answers@) =~= Seq::<ResolvedView<V>>::empty());
        }
        let mut i: usize = 0;
        while i < requests.len()
            invariant
                i <= requests.len(),
                self.framed(old(self)),
                before == old(self).slots(),
                before.dom().finite(),
                answers.len() == i,
                forall|j: int| 0 <= j < i ==> (#[trigger] answers[j])@.answers(requests[j]),
                decided_so_far ==> self.slots() == before && group_outcome(
                    before,
                    requests@,
                    0,
                    Seq::empty(),
                    request_info@,
                ) == group_outcome(
                    before,
                    requests@,
                    i as int,
                    answers_view(answers@),
                    request_info@,
                ),
                !decided_so_far ==> group_outcome(
                    before,
                    requests@,
                    0,
                    Seq::empty(),
                    request_info@,
                ) is None,
            decreases requests.len() - i,
        {
            proof {
                lemma_evolved_count(before, self.slots());
            }
            let ghost outcome = request_outcome(self.slots(), requests@[i as int], request_info@);
            let ghost between = self.slots();
            let ghost collected = answers@;
            let answer = self.get_with(&requests[i], request_info);
            proof {
                lemma_evolved_on(before, between, self.slots());
            }
            match answer {
                Ok(answer) => {
                    answers.push(answer);
                    proof {
                        assert(answers_view(answers@) =~= answers_view(collected).push(answer@));
                        if decided_so_far && outcome is None {
                            decided_so_far = false;
                        }
                    }
                },
                Err(error) => {
                    return Err(error);
                },
            }
            i += 1;
        }
        Ok(answers)
    }

    /// Activates `service`: resolves its dependencies for the request
    /// `request_info`, one service deeper, and invokes `factory` with them.
    pub fn activate(
        &mut self,
        factory: &mut F,
        service: ServiceInfo,
        dependencies: &Vec<Request>,
        request_info: &RequestInfo<V>,
    ) -> (created: InjectResult<V>)
        ensures
            final(self).framed(old(self)),
            activation_failure(
                old(self).slots(),
                service,
                dependencies@,
                request_info@,
            ) matches Some(error) ==> created is Err && created->Err_0@ == error
                && final(self).slots() == old(self).slots() && *final(factory) == *old(factory),
        decreases present_count(old(self).slots()), 5nat, 0nat,
    {
        proof {
            self.lemma_finite();
        }
        let child = request_info.with_request(service);
        match self.get_group(dependencies, &child) {
            Ok(answers) => factory.invoke(answers, &child),
            Err(error) => Err(dependency_error(error, service)),
        }
    }

    /// Requests the one implementation of `service_info`, as it is provided.
    ///
    /// The providers of the service are checked out while the one among them
    /// is asked, and reclaimed before this returns, whatever the provider
    /// answered.
    pub fn get_dyn_exact(
        &mut self,
        service_info: ServiceInfo,
        request_info: &RequestInfo<V>,
    ) -> (provided: InjectResult<DynSvc<V>>)
        ensures
            final(self).framed(old(self)),
            exact_outcome(old(self).slots(), service_info, request_info@) is Some ==>
                final(self).slots() == old(self).slots(),
            decided(exact_outcome(old(self).slots(), service_info, request_info@), provided),
            provided matches Err(error) ==> !(error@ is ConditionsNotMet),
            provided matches Ok(kept) ==> (kept.info.key() == service_info.key() ==> keeps_instance(
                old(self).slots(),
                final(self).slots(),
                service_info,
                kept.service,
            )),
        decreases present_count(old(self).slots()), 2nat, 0nat,
    {
        proof {
            self.lemma_finite();
            lemma_evolved_itself(self.slots());
        }
        let ghost before = self.slots();
        let mut providers = match self.registry.checkout(service_info) {
            Ok(providers) => providers,
            Err(error) => {
                return Err(error);
            },
        };
        let ghost inner = self.slots();
        let ghost checked_out = providers@;
        proof {
            lemma_checkout_decreases(before, service_info.key());
        }
        let provided = if providers.len() > 1 {
            Err(InjectError::MultipleProviders { service_info, providers: providers.len() })
        } else if providers.len() == 0 {
            Err(InjectError::MissingProvider { service_info })
        } else {
            let provided = providers[0].provide(self, request_info);
            proof {
                lemma_each_evolved_at(checked_out, providers@, 0);
            }
            match provided {
                Ok(provided) => Ok(provided),
                Err(error) => Err(single_error(error, service_info)),
            }
        };
        proof {
            lemma_evolved_empty_slot(inner, self.slots(), service_info.key());
        }
        let ghost current = self.slots();
        let ghost reclaimed_providers = providers@;
        let reclaimed = self.registry.reclaim(service_info, providers);
        proof {
            if reclaimed_providers == checked_out {
                lemma_each_evolved_itself(checked_out);
            }
            lemma_evolved_reclaim(before, current, service_info.key(), reclaimed_providers);
            if exact_outcome(before, service_info, request_info@) is Some {
                assert(current == inner);
                assert(reclaimed_providers =~= checked_out);
                lemma_reclaim_restores(before, service_info.key());
            }
        }
        match reclaimed {
            Ok(()) => provided,
            Err(error) => Err(error),
        }
    }

    /// Requests an owned instance of the one implementation of
    /// `service_info`, as it is provided.
    pub fn get_dyn_exact_owned(
        &mut self,
        service_info: ServiceInfo,
        request_info: &RequestInfo<V>,
    ) -> (provided: InjectResult<OwnedDynSvc<V>>)
        ensures
            final(self).framed(old(self)),
            exact_owned_outcome(old(self).slots(), service_info, request_info@) is Some ==>
                final(self).slots() == old(self).slots(),
            decided(exact_owned_outcome(old(self).slots(), service_info, request_info@), provided),
            provided matches Err(error) ==> !(error@ is ConditionsNotMet),
        decreases present_count(old(self).slots()), 2nat, 0nat,
    {
        proof {
            self.lemma_finite();
            lemma_evolved_itself(self.slots());
        }
        let ghost before = self.slots();
        let mut providers = match self.registry.checkout(service_info) {
            Ok(providers) => providers,
            Err(error) => {
                return Err(error);
            },
        };
        let ghost inner = self.slots();
        let ghost checked_out = providers@;
        proof {
            lemma_checkout_decreases(before, service_info.key());
        }
        let provided = if providers.len() > 1 {
            Err(InjectError::MultipleProviders { service_info, providers: providers.len() })
        } else if providers.len() == 0 {
            Err(InjectError::MissingProvider { service_info })
        } else {
            let provided = providers[0].provide_owned(self, request_info);
            proof {
                lemma_each_evolved_at(checked_out, providers@, 0);
            }
            match provided {
                Ok(provided) => Ok(provided),
                Err(error) => Err(single_error(error, service_info)),
            }
        };
        proof {
            lemma_evolved_empty_slot(inner, self.slots(), service_info.key());
        }
        let ghost current = self.slots();
        let ghost reclaimed_providers = providers@;
        let reclaimed = self.registry.reclaim(service_info, providers);
        proof {
            if reclaimed_providers == checked_out {
                lemma_each_evolved_itself(checked_out);
            }
            lemma_evolved_reclaim(before, current, service_info.key(), reclaimed_providers);
            if exact_owned_outcome(before, service_info, request_info@) is Some {
                assert(current == inner);
                assert(reclaimed_providers =~= checked_out);
                lemma_reclaim_restores(before, service_info.key());
            }
        }
        match reclaimed {
            Ok(()) => provided,
            Err(error) => Err(error),
        }
    }

    /// Requests a pointer to the one implementation of `service_info`.
    pub fn get_exact(
        &mut self,
        service_info: ServiceInfo,
        request_info: &RequestInfo<V>,
    ) -> (service: InjectResult<Svc<V>>)
        ensures
            final(self).framed(old(self)),
            single_outcome(old(self).slots(), service_info, request_info@) is Some ==>
                final(self).slots() == old(self).slots(),
            decided(single_outcome(old(self).slots(), service_info, request_info@), service),
            service matches Err(error) ==> !(error@ is ConditionsNotMet),
            service matches Ok(pointer) ==> keeps_instance(
                old(self).slots(),
                final(self).slots(),
                service_info,
                pointer,
            ),
        decreases present_count(old(self).slots()), 3nat, 0nat,
    {
        proof {
            self.lemma_finite();
        }
        match self.get_dyn_exact(service_info, request_info) {
            Ok(provided) => downcast(provided, service_info),
            Err(error) => Err(error),
        }
    }

    /// Requests an owned instance of the one implementation of
    /// `service_info`.
    pub fn get_exact_owned(
        &mut self,
        service_info: ServiceInfo,
        request_info: &RequestInfo<V>,
    ) -> (service: InjectResult<Box<V>>)
        ensures
            final(self).framed(old(self)),
            single_owned_outcome(old(self).slots(), service_info, request_info@) is Some ==>
                final(self).slots() == old(self).slots(),
            decided(single_owned_outcome(old(self).slots(), service_info, request_info@), service),
            service matches Err(error) ==> !(error@ is ConditionsNotMet),
        decreases present_count(old(self).slots()), 3nat, 0nat,
    {
        proof {
            self.lemma_finite();
        }
        match self.get_dyn_exact_owned(service_info, request_info) {
            Ok(provided) => downcast_owned(provided, service_info),
            Err(error) => Err(error),
        }
    }

    /// Activates the checked out `providers` of `service_info` one after the
    /// other, and collects their services. Providers whose conditions are
    /// not met add nothing; the first failure of another kind ends it.
    pub fn collect(
        &mut self,
        providers: &mut Vec<Provider<V, F, C>>,
        service_info: ServiceInfo,
        request_info: &RequestInfo<V>,
    ) -> (services: InjectResult<Vec<Svc<V>>>)
        ensures
            final(self).framed(old(self)),
            each_evolved(old(providers)@, final(providers)@),
            all_outcome(
                old(self).slots(),
                old(providers)@,
                0,
                Seq::empty(),
                request_info@,
                service_info,
            ) is Some ==> final(self).slots() == old(self).slots() && final(providers)@
                == old(providers)@,
            decided_all(
                all_outcome(
                    old(self).slots(),
                    old(providers)@,
                    0,
                    Seq::empty(),
                    request_info@,
                    service_info,
                ),
                services,
            ),
            services matches Err(error) ==> !(error@ is ConditionsNotMet),
            services matches Ok(found) ==> found.len() <= old(providers).len(),
        decreases present_count(old(self).slots()), 7nat, 0nat,
    {
        proof {
            self.lemma_finite();
        }
        let ghost inner = self.slots();
        let ghost checked_out = providers@;
        proof {
            lemma_evolved_itself(inner);
            lemma_each_evolved_itself(checked_out);
        }
        let mut collected: Vec<Svc<V>> = Vec::new();
        let mut failure: Option<InjectError> = None;
        let ghost decided_so_far = true;
        let mut i: usize = 0;
        while i < providers.len() && failure.is_none()
            invariant
                i <= providers.len(),
                each_evolved(checked_out, providers@),
                self.framed(old(self)),
                inner == old(self).slots(),
                inner.dom().finite(),
                collected.len() <= i,
                failure matches Some(error) ==> !(error@ is ConditionsNotMet),
                decided_so_far ==> self.slots() == inner && providers@ == checked_out,
                decided_so_far ==> all_outcome(
                    inner,
                    checked_out,
                    0,
                    Seq::empty(),
                    request_info@,
                    service_info,
                ) == (match failure {
                    None => all_outcome(
                        inner,
                        checked_out,
                        i as int,
                        collected@,
                        request_info@,
                        service_info,
                    ),
                    Some(error) => Some(Err(error@)),
                }),
                !decided_so_far ==> all_outcome(
                    inner,
                    checked_out,
                    0,
                    Seq::empty(),
                    request_info@,
                    service_info,
                ) is None,
            decreases providers.len() - i + (if failure is None { 1nat } else { 0nat }),
        {
            proof {
                lemma_evolved_count(inner, self.slots());
                self.lemma_finite();
            }
            let ghost outcome = provider_outcome(self.slots(), providers@[i as int], request_info@);
            let ghost between = self.slots();
            let ghost previous = providers@;
            let provided = providers[i].provide(self, request_info);
            proof {
                lemma_evolved_on(inner, between, self.slots());
                lemma_each_evolved_at(previous, providers@, i as int);
                lemma_each_evolved_on(checked_out, previous, providers@);
            }
            match provided {
                Ok(provided) => match downcast(provided, service_info) {
                    Ok(service) => {
                        collected.push(service);
                    },
                    Err(error) => {
                        failure = Some(error);
                    },
                },
                Err(error) => {
                    failure = collection_error(error, service_info);
                },
            }
            proof {
                if decided_so_far && outcome is None {
                    decided_so_far = false;
                }
                if decided_so_far {
                    assert(providers@ =~= checked_out);
                }
            }
            i += 1;
        }
        match failure {
            Some(error) => Err(error),
            None => Ok(collected),
        }
    }

    /// Activates the checked out `providers` of `service_info` one after the
    /// other, and collects the instances that they give away. Providers
    /// whose conditions are not met, and providers that keep their
    /// instances, add nothing; the first failure of another kind ends it.
    pub fn collect_owned(
        &mut self,
        providers: &mut Vec<Provider<V, F, C>>,
        service_info: ServiceInfo,
        request_info: &RequestInfo<V>,
    ) -> (services: InjectResult<Vec<Box<V>>>)
        ensures
            final(self).framed(old(self)),
            each_evolved(old(providers)@, final(providers)@),
            all_owned_outcome(
                old(self).slots(),
                old(providers)@,
                0,
                Seq::empty(),
                request_info@,
                service_info,
            ) is Some ==> final(self).slots() == old(self).slots() && final(providers)@
                == old(providers)@,
            decided_all(
                all_owned_outcome(
                    old(self).slots(),
                    old(providers)@,
                    0,
                    Seq::empty(),
                    request_info@,
                    service_info,
                ),
                services,
            ),
            services matches Err(error) ==> !(error@ is ConditionsNotMet),
            services matches Ok(found) ==> found.len() <= old(providers).len(),
        decreases present_count(old(self).slots()), 7nat, 0nat,
    {
        proof {
            self.lemma_finite();
        }
        let ghost inner = self.slots();
        let ghost checked_out = providers@;
        proof {
            lemma_evolved_itself(inner);
            lemma_each_evolved_itself(checked_out);
        }
        let mut collected: Vec<Box<V>> = Vec::new();
        let mut failure: Option<InjectError> = None;
        let ghost decided_so_far = true;
        let mut i: usize = 0;
        while i < providers.len() && failure.is_none()
            invariant
                i <= providers.len(),
                each_evolved(checked_out, providers@),
                self.framed(old(self)),
                inner == old(self).slots(),
                inner.dom().finite(),
                collected.len() <= i,
                failure matches Some(error) ==> !(error@ is ConditionsNotMet),
                decided_so_far ==> self.slots() == inner && providers@ == checked_out,
                decided_so_far ==> all_owned_outcome(
                    inner,
                    checked_out,
                    0,
                    Seq::empty(),
                    request_info@,
                    service_info,
                ) == (match failure {
                    None => all_owned_outcome(
                        inner,
                        checked_out,
                        i as int,
                        collected@,
                        request_info@,
                        service_info,
                    ),
                    Some(error) => Some(Err(error@)),
                }),
                !decided_so_far ==> all_owned_outcome(
                    inner,
                    checked_out,
                    0,
                    Seq::empty(),
                    request_info@,
                    service_info,
                ) is None,
            decreases providers.len() - i + (if failure is None { 1nat } else { 0nat }),
        {
            proof {
                lemma_evolved_count(inner, self.slots());
                self.lemma_finite();
            }
            let ghost outcome = provider_owned_outcome(
                self.slots(),
                providers@[i as int],
                request_info@,
            );
            let ghost between = self.slots();
            let ghost previous = providers@;
            let provided = providers[i].provide_owned(self, request_info);
            proof {
                lemma_evolved_on(inner, between, self.slots());
                lemma_each_evolved_at(previous, providers@, i as int);
                lemma_each_evolved_on(checked_out, previous, providers@);
            }
            match provided {
                Ok(provided) => match downcast_owned(provided, service_info) {
                    Ok(service) => {
                        collected.push(service);
                    },
                    Err(error) => {
                        failure = Some(error);
                    },
                },
                Err(error) => {
                    failure = owned_collection_error(error, service_info);
                },
            }
            proof {
                if decided_so_far && outcome is None {
                    decided_so_far = false;
                }
                if decided_so_far {
                    assert(providers@ =~= checked_out);
                }
            }
            i += 1;
        }
        match failure {
            Some(error) => Err(error),
            None => Ok(collected),
        }
    }

    /// Requests pointers to all the implementations of `service_info`, in
    /// the order in which their providers were registered. Providers whose
    /// conditions are not met add nothing; the first failure of another kind
    /// ends the request.
    pub fn get_all(
        &mut self,
        service_info: ServiceInfo,
        request_info: &RequestInfo<V>,
    ) -> (services: InjectResult<Vec<Svc<V>>>)
        ensures
            final(self).framed(old(self)),
            collection_outcome(old(self).slots(), service_info, request_info@) is Some ==>
                final(self).slots() == old(self).slots(),
            decided_all(
                collection_outcome(old(self).slots(), service_info, request_info@),
                services,
            ),
            services matches Err(error) ==> !(error@ is ConditionsNotMet),
            services matches Ok(found) ==> old(self).slots().get(service_info.key()) matches Some(
                Some(providers),
            ) && found.len() <= providers.len(),
        decreases present_count(old(self).slots()), 3nat, 0nat,
    {
        proof {
            self.lemma_finite();
            lemma_evolved_itself(self.slots());
        }
        let ghost before = self.slots();
        let mut providers = match self.registry.checkout(service_info) {
            Ok(providers) => providers,
            Err(error) => {
                return Err(error);
            },
        };
        let ghost inner = self.slots();
        let ghost checked_out = providers@;
        proof {
            lemma_checkout_decreases(before, service_info.key());
        }
        let services = self.collect(&mut providers, service_info, request_info);
        proof {
            lemma_evolved_empty_slot(inner, self.slots(), service_info.key());
        }
        let ghost current = self.slots();
        let ghost reclaimed_providers = providers@;
        let reclaimed = self.registry.reclaim(service_info, providers);
        proof {
            if reclaimed_providers == checked_out {
                lemma_each_evolved_itself(checked_out);
            }
            lemma_evolved_reclaim(before, current, service_info.key(), reclaimed_providers);
            if collection_outcome(before, service_info, request_info@) is Some {
                assert(current == inner);
                assert(reclaimed_providers =~= checked_out);
                lemma_reclaim_restores(before, service_info.key());
            }
        }
        match reclaimed {
            Ok(()) => services,
            Err(error) => Err(error),
        }
    }

    /// Requests owned instances of all the implementations of
    /// `service_info`, in the order in which their providers were
    /// registered. Providers whose conditions are not met, and providers
    /// that keep their instances, add nothing; the first failure of another
    /// kind ends the request.
    pub fn get_all_owned(
        &mut self,
        service_info: ServiceInfo,
        request_info: &RequestInfo<V>,
    ) -> (services: InjectResult<Vec<Box<V>>>)
        ensures
            final(self).framed(old(self)),
            collection_owned_outcome(old(self).slots(), service_info, request_info@)
                is Some ==> final(self).slots() == old(self).slots(),
            decided_all(
                collection_owned_outcome(old(self).slots(), service_info, request_info@),
                services,
            ),
            services matches Err(error) ==> !(error@ is ConditionsNotMet),
            services matches Ok(found) ==> old(self).slots().get(service_info.key()) matches Some(
                Some(providers),
            ) && found.len() <= providers.len(),
        decreases present_count(old(self).slots()), 3nat, 0nat,
    {
        proof {
            self.lemma_finite();
            lemma_evolved_itself(self.slots());
        }
        let ghost before = self.slots();
        let mut providers = match self.registry.checkout(service_info) {
            Ok(providers) => providers,
            Err(error) => {
                return Err(error);
            },
        };
        let ghost inner = self.slots();
        let ghost checked_out = providers@;
        proof {
            lemma_checkout_decreases(before, service_info.key());
        }
        let services = self.collect_owned(&mut providers, service_info, request_info);
        proof {
            lemma_evolved_empty_slot(inner, self.slots(), service_info.key());
        }
        let ghost current = self.slots();
        let ghost reclaimed_providers = providers@;
        let reclaimed = self.registry.reclaim(service_info, providers);
        proof {
            if reclaimed_providers == checked_out {
                lemma_each_evolved_itself(checked_out);
            }
            lemma_evolved_reclaim(before, current, service_info.key(), reclaimed_providers);
            if collection_owned_outcome(before, service_info, request_info@) is Some {
                assert(current == inner);
                assert(reclaimed_providers =~= checked_out);
                lemma_reclaim_restores(before, service_info.key());
            }
        }
        match reclaimed {
            Ok(()) => services,
            Err(error) => Err(error),
        }
    }

    /// Checks the providers of `service_info` out of this injector, to be
    /// activated one at a time for the request `request_info`.
    pub fn get_service(
        &mut self,
        service_info: ServiceInfo,
        request_info: RequestInfo<V>,
    ) -> (services: InjectResult<Services<V, F, C>>)
        ensures
            final(self).root() == old(self).root(),
            match ProviderRegistry::checkout_outcome(old(self).slots(), service_info) {
                Ok(expected) => services is Ok && services->Ok_0.providers() == expected
                    && services->Ok_0.service() == service_info && services->Ok_0.info()
                    == request_info@ && final(self).slots() == old(self).slots().insert(
                    service_info.key(),
                    None,
                ),
                Err(expected) => services is Err && services->Err_0@ == expected
                    && final(self).slots() == old(self).slots(),
            },
    {
        Services::new(self, service_info, request_info)
    }

    /// Performs a request with the given request information.
    ///
    /// Wherever the result does not depend on a factory or a condition, it
    /// is the one that [`request_outcome`] gives, and the injector is left
    /// exactly as it was. Whatever factories and conditions do, every
    /// provider is back in its slot when this returns, and a provider whose
    /// conditions are not met is never reported as such.
    pub fn get_with(&mut self, request: &Request, request_info: &RequestInfo<V>) -> (answer:
        InjectResult<Resolved<V>>)
        ensures
            final(self).framed(old(self)),
            request_outcome(old(self).slots(), *request, request_info@) is Some ==>
                final(self).slots() == old(self).slots(),
            decided_answer(request_outcome(old(self).slots(), *request, request_info@), answer),
            answer matches Err(error) ==> !(error@ is ConditionsNotMet),
            answer matches Ok(resolved) ==> resolved@.answers(*request),
            answer matches Ok(Resolved::Service(pointer)) ==> (*request matches Request::Service(
                service,
            ) ==> keeps_instance(old(self).slots(), final(self).slots(), service, pointer)),
            answer matches Err(error) ==> (error@ is MissingProvider ==> !(*request is Optional)
                && !(*request is OptionalOwned)),
            answer matches Ok(Resolved::All(found)) ==> (*request matches Request::All(service)
                ==> old(self).slots().get(service.key()) matches Some(Some(providers))
                && found.len() <= providers.len()),
            answer matches Ok(Resolved::AllOwned(found)) ==> (*request matches Request::AllOwned(
                service,
            ) ==> old(self).slots().get(service.key()) matches Some(Some(providers))
                && found.len() <= providers.len()),
        decreases present_count(old(self).slots()), 3nat, 1nat,
    {
        proof {
            self.lemma_finite();
            lemma_evolved_itself(self.slots());
        }
        match *request {
            Request::Service(service) => match self.get_exact(service, request_info) {
                Ok(service) => Ok(Resolved::Service(service)),
                Err(error) => Err(error),
            },
            Request::Optional(service) => match self.get_exact(service, request_info) {
                Ok(service) => Ok(Resolved::Optional(Some(service))),
                Err(InjectError::MissingProvider { .. }) => Ok(Resolved::Optional(None)),
                Err(error) => Err(error),
            },
            Request::Owned(service) => match self.get_exact_owned(service, request_info) {
                Ok(service) => Ok(Resolved::Owned(service)),
                Err(error) => Err(error),
            },
            Request::OptionalOwned(service) => match self.get_exact_owned(service, request_info) {
                Ok(service) => Ok(Resolved::OptionalOwned(Some(service))),
                Err(InjectError::MissingProvider { .. }) => Ok(Resolved::OptionalOwned(None)),
                Err(error) => Err(error),
            },
            Request::All(service) => match self.get_all(service, request_info) {
                Ok(services) => Ok(Resolved::All(services)),
                Err(error) => Err(error),
            },
            Request::AllOwned(service) => match self.get_all_owned(service, request_info) {
                Ok(services) => Ok(Resolved::AllOwned(services)),
                Err(error) => Err(error),
            },
            Request::Arg { arg_info, value_info } => match Arg::request(
                arg_info,
                value_info,
                request_info,
            ) {
                Ok(arg) => Ok(Resolved::Arg(arg)),
                Err(error) => Err(error),
            },
            Request::Injector => Ok(Resolved::Injector),
            Request::Info => Ok(Resolved::Info(request_info.duplicate())),
        }
    }

    /// Performs a request with the information that requests to this
    /// injector start out with.
    pub fn get(&mut self, request: &Request) -> (answer: InjectResult<Resolved<V>>)
        ensures
            final(self).framed(old(self)),
            request_outcome(old(self).slots(), *request, old(self).root()) is Some ==>
                final(self).slots() == old(self).slots(),
            decided_answer(request_outcome(old(self).slots(), *request, old(self).root()), answer),
            answer matches Err(error) ==> !(error@ is ConditionsNotMet),
            answer matches Ok(resolved) ==> resolved@.answers(*request),
            answer matches Ok(Resolved::Service(pointer)) ==> (*request matches Request::Service(
                service,
            ) ==> keeps_instance(old(self).slots(), final(self).slots(), service, pointer)),
            answer matches Err(error) ==> (error@ is MissingProvider ==> !(*request is Optional)
                && !(*request is OptionalOwned)),
            answer matches Ok(Resolved::All(found)) ==> (*request matches Request::All(service)
                ==> old(self).slots().get(service.key()) matches Some(Some(providers))
                && found.len() <= providers.len()),
            answer matches Ok(Resolved::AllOwned(found)) ==> (*request matches Request::AllOwned(
                service,
            ) ==> old(self).slots().get(service.key()) matches Some(Some(providers))
                && found.len() <= providers.len()),
    {
        proof {
            self.lemma_finite();
        }
        let request_info = self.root_info.duplicate();
        self.get_with(request, &request_info)
    }
}

} // verus!
