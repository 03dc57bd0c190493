//! What holds of every registry and every request.
use vstd::prelude::*;
use crate::arg::{lemma_param_key_injective, param_key, Arg};
use crate::info::RequestInfoView;
use crate::parameter::RequestParameter;
use crate::provider_registry::{ProviderRegistry, Slots};
use crate::providers::Provider;
use crate::request::{Request, ResolvedView};
use crate::resolution::{
    activation_failure, all_outcome, collection_outcome, exact_outcome, group_outcome,
    keeps_instance, lemma_checkout_decreases, provider_outcome, request_outcome, single_outcome,
};
use crate::service::{
    ActivationErrorView, ArgRequestError, DynSvc, InjectErrorView, ServiceInfo, Svc,
};

verus! {

/// Whether `provider` invokes a factory, with a pointer to `dependency` as
/// the first of its dependencies, and without asking a condition first.
pub open spec fn requires_first<V, F, C>(
    provider: Provider<V, F, C>,
    dependency: ServiceInfo,
) -> bool
    decreases provider,
{
    match provider {
        Provider::Transient(transient) => transient.dependencies@.len() > 0
            && transient.dependencies@[0] == Request::Service(dependency),
        Provider::Singleton(singleton) => singleton.cached is None
            && singleton.dependencies@.len() > 0 && singleton.dependencies@[0]
            == Request::Service(dependency),
        Provider::Constant(_) => false,
        Provider::Conditional(_) => false,
        Provider::Interface(wrapper) => requires_first(*wrapper.inner, dependency),
        Provider::Arg(wrapper) => requires_first(*wrapper.inner, dependency),
    }
}

/// What `provider` yields where its first dependency is decided to fail,
/// whatever the request carries.
proof fn lemma_first_dependency_fails<V, F, C>(
    slots: Slots<V, F, C>,
    provider: Provider<V, F, C>,
    dependency: ServiceInfo,
    error: InjectErrorView,
    info: RequestInfoView<V>,
)
    requires
        slots.dom().finite(),
        requires_first(provider, dependency),
        !(error is MissingProvider),
        forall|any: RequestInfoView<V>| #[trigger]
            request_outcome(slots, Request::Service(dependency), any) == Some(
                Err::<ResolvedView<V>, _>(error),
            ),
    ensures
        provider_outcome(slots, provider, info) == Some(Err::<DynSvc<V>, _>(error)),
    decreases provider.depth(),
{
    match provider {
        Provider::Transient(transient) => {
            assert(request_outcome(
                slots,
                Request::Service(dependency),
                info.with_request(transient.result),
            ) == Some(Err::<ResolvedView<V>, _>(error)));
            assert(group_outcome(
                slots,
                transient.dependencies@,
                0,
                Seq::empty(),
                info.with_request(transient.result),
            ) == Some(Err::<Seq<ResolvedView<V>>, _>(error)));
            assert(activation_failure(slots, transient.result, transient.dependencies@, info)
                == Some(error));
        },
        Provider::Singleton(singleton) => {
            assert(request_outcome(
                slots,
                Request::Service(dependency),
                info.with_request(singleton.result),
            ) == Some(Err::<ResolvedView<V>, _>(error)));
            assert(group_outcome(
                slots,
                singleton.dependencies@,
                0,
                Seq::empty(),
                info.with_request(singleton.result),
            ) == Some(Err::<Seq<ResolvedView<V>>, _>(error)));
            assert(activation_failure(slots, singleton.result, singleton.dependencies@, info)
                == Some(error));
        },
        Provider::Interface(wrapper) => {
            lemma_first_dependency_fails(slots, *wrapper.inner, dependency, error, info);
        },
        Provider::Arg(wrapper) => {
            lemma_first_dependency_fails(
                slots,
                *wrapper.inner,
                dependency,
                error,
                info.with_parameter(
                    param_key(wrapper.inner.created().key(), wrapper.arg.info.key()),
                    wrapper.arg,
                ),
            );
        },
        _ => {},
    }
}

/// Two services that each need the other first cannot be created: a request
/// for one of them fails with the cycle, whose chain names the requested
/// service, the other one, and the requested service again.
pub proof fn law_mutual_dependency_is_a_cycle<V, F, C>(
    slots: Slots<V, F, C>,
    a: ServiceInfo,
    b: ServiceInfo,
    info: RequestInfoView<V>,
)
    requires
        slots.dom().finite(),
        a.key() != b.key(),
        slots.get(a.key()) matches Some(Some(providers)) && providers.len() == 1 && requires_first(
            providers[0],
            b,
        ),
        slots.get(b.key()) matches Some(Some(providers)) && providers.len() == 1 && requires_first(
            providers[0],
            a,
        ),
    ensures
        request_outcome(slots, Request::Service(a), info) == Some(
            Err::<ResolvedView<V>, _>(
                InjectErrorView::CycleDetected { service_info: a, cycle: seq![a, b, a] },
            ),
        ),
{
    let for_a = slots[a.key()]->Some_0[0];
    let for_b = slots[b.key()]->Some_0[0];
    let without_a = slots.insert(a.key(), None);
    let without_both = without_a.insert(b.key(), None);
    lemma_checkout_decreases(slots, a.key());
    lemma_checkout_decreases(without_a, b.key());

    let innermost = InjectErrorView::CycleDetected { service_info: a, cycle: seq![a] };
    assert forall|any: RequestInfoView<V>| #[trigger]
        request_outcome(without_both, Request::Service(a), any) == Some(
            Err::<ResolvedView<V>, _>(innermost),
        ) by {
        assert(exact_outcome(without_both, a, any) == Some(Err::<DynSvc<V>, _>(innermost)));
        assert(single_outcome(without_both, a, any) == Some(Err::<Svc<V>, _>(innermost)));
    }

    let inner = InjectErrorView::CycleDetected { service_info: b, cycle: seq![a, b] };
    assert(seq![a].push(b) =~= seq![a, b]);
    assert forall|any: RequestInfoView<V>| #[trigger]
        request_outcome(without_a, Request::Service(b), any) == Some(
            Err::<ResolvedView<V>, _>(inner),
        ) by {
        lemma_first_dependency_fails(without_both, for_b, a, innermost, any);
        assert(exact_outcome(without_a, b, any) == Some(Err::<DynSvc<V>, _>(inner)));
        assert(single_outcome(without_a, b, any) == Some(Err::<Svc<V>, _>(inner)));
    }

    let outer = InjectErrorView::CycleDetected { service_info: a, cycle: seq![a, b, a] };
    assert(seq![a, b].push(a) =~= seq![a, b, a]);
    lemma_first_dependency_fails(without_a, for_a, b, inner, info);
    assert(exact_outcome(slots, a, info) == Some(Err::<DynSvc<V>, _>(outer)));
    assert(single_outcome(slots, a, info) == Some(Err::<Svc<V>, _>(outer)));
}

/// A provider that keeps an instance hands it to every request, whatever
/// else is registered.
pub proof fn lemma_kept_instance_is_provided<V, F, C>(
    slots: Slots<V, F, C>,
    provider: Provider<V, F, C>,
    info: RequestInfoView<V>,
)
    requires
        slots.dom().finite(),
        provider.kept() is Some,
    ensures
        provider_outcome(slots, provider, info) == Some(
            Ok::<_, InjectErrorView>(provider.kept()->Some_0),
        ),
    decreases provider.depth(),
{
    match provider {
        Provider::Interface(wrapper) => {
            lemma_kept_instance_is_provided(slots, *wrapper.inner, info);
        },
        Provider::Arg(wrapper) => {
            lemma_kept_instance_is_provided(
                slots,
                *wrapper.inner,
                info.with_parameter(
                    param_key(wrapper.inner.created().key(), wrapper.arg.info.key()),
                    wrapper.arg,
                ),
            );
        },
        _ => {},
    }
}

/// A singleton is created once: after a request for a service has been
/// answered by the one provider of the service, and that provider keeps the
/// first instance it creates, every later request for the service is
/// answered with the same instance, and without invoking any factory.
pub proof fn law_singleton_is_created_once<V, F, C>(
    before: Slots<V, F, C>,
    after: Slots<V, F, C>,
    service: ServiceInfo,
    pointer: Svc<V>,
    info: RequestInfoView<V>,
)
    requires
        after.dom().finite(),
        keeps_instance(before, after, service, pointer),
        before[service.key()]->Some_0[0].keeps(),
    ensures
        request_outcome(after, Request::Service(service), info) == Some(
            Ok::<_, InjectErrorView>(ResolvedView::Service(pointer)),
        ),
{
    let provider = after[service.key()]->Some_0[0];
    lemma_checkout_decreases(after, service.key());
    lemma_kept_instance_is_provided(after.insert(service.key(), None), provider, info);
    assert(exact_outcome(after, service, info) == Some(
        Ok::<_, InjectErrorView>(provider.kept()->Some_0),
    ));
    assert(single_outcome(after, service, info) == Some(Ok::<_, InjectErrorView>(pointer)));
}

/// A service with several providers cannot be requested as one: the request
/// fails with the number of providers that are registered, whether or not
/// their conditions would be met.
pub proof fn law_several_providers_refuse_a_single_request<V, F, C>(
    slots: Slots<V, F, C>,
    service: ServiceInfo,
    info: RequestInfoView<V>,
)
    requires
        slots.dom().finite(),
        slots.get(service.key()) matches Some(Some(providers)) && providers.len() > 1,
    ensures
        request_outcome(slots, Request::Service(service), info) == Some(
            Err::<ResolvedView<V>, _>(
                InjectErrorView::MultipleProviders {
                    service_info: service,
                    providers: slots[service.key()]->Some_0.len(),
                },
            ),
        ),
{
    assert(exact_outcome(slots, service, info) is Some);
    assert(single_outcome(slots, service, info) is Some);
}

/// Where two providers are registered for a service and each keeps an
/// instance of it, a request for all implementations yields exactly these
/// two, in the order of registration.
pub proof fn law_two_providers_yield_two_services<V, F, C>(
    slots: Slots<V, F, C>,
    service: ServiceInfo,
    info: RequestInfoView<V>,
)
    requires
        slots.dom().finite(),
        slots.get(service.key()) matches Some(Some(providers)) && providers.len() == 2
            && (providers[0].kept() matches Some(first) && first.info.key() == service.key())
            && (providers[1].kept() matches Some(second) && second.info.key() == service.key()),
    ensures
        request_outcome(slots, Request::All(service), info) == Some(
            Ok::<_, InjectErrorView>(
                ResolvedView::All(
                    seq![
                        slots[service.key()]->Some_0[0].kept()->Some_0.service,
                        slots[service.key()]->Some_0[1].kept()->Some_0.service,
                    ],
                ),
            ),
        ),
{
    let providers = slots[service.key()]->Some_0;
    let first = providers[0].kept()->Some_0.service;
    let second = providers[1].kept()->Some_0.service;
    let inner = slots.insert(service.key(), None);
    lemma_checkout_decreases(slots, service.key());
    lemma_kept_instance_is_provided(inner, providers[0], info);
    lemma_kept_instance_is_provided(inner, providers[1], info);
    assert(Seq::<Svc<V>>::empty().push(first).push(second) =~= seq![first, second]);
    assert(all_outcome(inner, providers, 2, seq![first, second], info, service) == Some(
        Ok::<_, InjectErrorView>(seq![first, second]),
    ));
    assert(all_outcome(inner, providers, 1, Seq::empty().push(first), info, service) == Some(
        Ok::<_, InjectErrorView>(seq![first, second]),
    ));
    assert(all_outcome(inner, providers, 0, Seq::empty(), info, service) == Some(
        Ok::<_, InjectErrorView>(seq![first, second]),
    ));
    assert(collection_outcome(slots, service, info) == Some(
        Ok::<_, InjectErrorView>(seq![first, second]),
    ));
}

/// An argument reaches the service it was set aside for: in the request
/// that activates `service`, a request for an argument of the type of `arg`
/// yields the value of `arg`.
pub proof fn law_argument_reaches_its_service<V>(
    info: RequestInfoView<V>,
    service: ServiceInfo,
    arg: RequestParameter<V>,
    arg_info: ServiceInfo,
)
    ensures
        Arg::outcome(
            info.with_parameter(param_key(service.key(), arg.info.key()), arg).with_request(
                service,
            ),
            arg_info,
            arg.info,
        ) == Ok::<_, InjectErrorView>(Arg { value: arg.value }),
{
    let extended = info.with_parameter(param_key(service.key(), arg.info.key()), arg).with_request(
        service,
    );
    assert(extended.path.last() == service);
}

/// The factory of a service with an argument is handed the argument: where
/// the service declares the argument as its one dependency, what is resolved
/// for its factory is the value that was set aside, whatever is registered.
pub proof fn law_argument_is_handed_to_the_factory<V, F, C>(
    slots: Slots<V, F, C>,
    info: RequestInfoView<V>,
    service: ServiceInfo,
    arg: RequestParameter<V>,
    arg_info: ServiceInfo,
)
    requires
        slots.dom().finite(),
    ensures
        group_outcome(
            slots,
            seq![Request::Arg { arg_info, value_info: arg.info }],
            0,
            Seq::empty(),
            info.with_parameter(param_key(service.key(), arg.info.key()), arg).with_request(
                service,
            ),
        ) == Some(
            Ok::<_, InjectErrorView>(seq![ResolvedView::Arg(Arg { value: arg.value })]),
        ),
{
    let requests = seq![Request::Arg { arg_info, value_info: arg.info }];
    let extended = info.with_parameter(param_key(service.key(), arg.info.key()), arg).with_request(
        service,
    );
    let handed = ResolvedView::Arg(Arg { value: arg.value });
    law_argument_reaches_its_service(info, service, arg, arg_info);
    assert(request_outcome(slots, requests[0], extended) == Some(
        Ok::<_, InjectErrorView>(handed),
    ));
    assert(Seq::<ResolvedView<V>>::empty().push(handed) =~= seq![handed]);
    assert(group_outcome(slots, requests, 1, seq![handed], extended) == Some(
        Ok::<_, InjectErrorView>(seq![handed]),
    ));
}

/// An argument of one type is no argument of another: where only an
/// argument of another type was set aside for `service`, a request for an
/// argument of the type `value_info` finds none.
pub proof fn law_argument_of_another_type_is_missing<V>(
    info: RequestInfoView<V>,
    service: ServiceInfo,
    arg: RequestParameter<V>,
    arg_info: ServiceInfo,
    value_info: ServiceInfo,
)
    requires
        arg.info.key() != value_info.key(),
        !info.parameters.contains_key(param_key(service.key(), value_info.key())),
    ensures
        Arg::outcome(
            info.with_parameter(param_key(service.key(), arg.info.key()), arg).with_request(
                service,
            ),
            arg_info,
            value_info,
        ) == Err::<Arg<V>, _>(
            InjectErrorView::ActivationFailed {
                service_info: arg_info,
                inner: ActivationErrorView::Arg(ArgRequestError::MissingParameter),
            },
        ),
{
    let extended = info.with_parameter(param_key(service.key(), arg.info.key()), arg).with_request(
        service,
    );
    assert(extended.path.last() == service);
    if param_key(service.key(), arg.info.key()) == param_key(service.key(), value_info.key()) {
        lemma_param_key_injective(service.key(), arg.info.key(), service.key(), value_info.key());
    }
}

/// An argument of one service is no argument of another: where an argument
/// was set aside for `service` only, the activation of `other` finds none.
pub proof fn law_argument_of_another_service_is_missing<V>(
    info: RequestInfoView<V>,
    service: ServiceInfo,
    other: ServiceInfo,
    arg: RequestParameter<V>,
    arg_info: ServiceInfo,
)
    requires
        service.key() != other.key(),
        !info.parameters.contains_key(param_key(other.key(), arg.info.key())),
    ensures
        Arg::outcome(
            info.with_parameter(param_key(service.key(), arg.info.key()), arg).with_request(other),
            arg_info,
            arg.info,
        ) == Err::<Arg<V>, _>(
            InjectErrorView::ActivationFailed {
                service_info: arg_info,
                inner: ActivationErrorView::Arg(ArgRequestError::MissingParameter),
            },
        ),
{
    let extended = info.with_parameter(param_key(service.key(), arg.info.key()), arg).with_request(
        other,
    );
    assert(extended.path.last() == other);
    if param_key(service.key(), arg.info.key()) == param_key(other.key(), arg.info.key()) {
        lemma_param_key_injective(service.key(), arg.info.key(), other.key(), arg.info.key());
    }
}

/// Whatever is requested, a provider stays registered for its service, goes
/// on creating instances of the same service, and goes on handing out the
/// instance it keeps.
pub proof fn law_providers_stay_what_they_are<V, F, C>(
    provider: Provider<V, F, C>,
    later: Provider<V, F, C>,
)
    requires
        provider.evolves_to(later),
    ensures
        later.registered() == provider.registered(),
        later.created() == provider.created(),
        later.depth() == provider.depth(),
        later.keeps() == provider.keeps(),
        provider.kept() is Some ==> later.kept() == provider.kept(),
    decreases provider,
{
    match (provider, later) {
        (Provider::Conditional(first), Provider::Conditional(second)) => {
            law_providers_stay_what_they_are(*first.inner, *second.inner)
        },
        (Provider::Interface(first), Provider::Interface(second)) => {
            law_providers_stay_what_they_are(*first.inner, *second.inner);
            assert forall|service: ServiceInfo|
                first.interface.accepts(service) == second.interface.accepts(service) by {
                if first.interface.accepts(service) {
                    let i = choose|i: int|
                        0 <= i < first.interface.implementations.len() && (
                        #[trigger] first.interface.implementations[i]).key() == service.key();
                    assert(second.interface.implementations[i].key() == service.key());
                }
                if second.interface.accepts(service) {
                    let i = choose|i: int|
                        0 <= i < second.interface.implementations.len() && (
                        #[trigger] second.interface.implementations[i]).key() == service.key();
                    assert(first.interface.implementations[i].key() == service.key());
                }
            }
        },
        (Provider::Arg(first), Provider::Arg(second)) => {
            law_providers_stay_what_they_are(*first.inner, *second.inner)
        },
        _ => {},
    }
}

/// Providers that are reclaimed right after they were checked out are in
/// their slot again, and the registry is what it was.
pub proof fn law_reclaim_undoes_checkout<V, F, C>(slots: Slots<V, F, C>, service: ServiceInfo)
    requires
        ProviderRegistry::checkout_outcome(slots, service) is Ok,
    ensures
        ProviderRegistry::reclaim_failure(slots.insert(service.key(), None), service) is None,
        slots.insert(service.key(), None).insert(
            service.key(),
            Some(ProviderRegistry::checkout_outcome(slots, service)->Ok_0),
        ) == slots,
{
    assert(slots.insert(service.key(), None).insert(
        service.key(),
        Some(ProviderRegistry::checkout_outcome(slots, service)->Ok_0),
    ) =~= slots);
}

/// While the providers of a service are checked out, whoever asks for them
/// is told of the cycle, and whoever asks for the service as well.
pub proof fn law_checked_out_service_is_a_cycle<V, F, C>(
    slots: Slots<V, F, C>,
    service: ServiceInfo,
    info: RequestInfoView<V>,
)
    requires
        slots.dom().finite(),
        ProviderRegistry::checkout_outcome(slots, service) is Ok,
    ensures
        ProviderRegistry::checkout_outcome(slots.insert(service.key(), None), service) == Err::<
            Seq<Provider<V, F, C>>,
            _,
        >(InjectErrorView::CycleDetected { service_info: service, cycle: seq![service] }),
        request_outcome(slots.insert(service.key(), None), Request::Service(service), info)
            == Some(
            Err::<ResolvedView<V>, _>(
                InjectErrorView::CycleDetected { service_info: service, cycle: seq![service] },
            ),
        ),
{
    let inner = slots.insert(service.key(), None);
    assert(exact_outcome(inner, service, info) is Some);
    assert(single_outcome(inner, service, info) is Some);
}

/// A request for an optional service does not fail for want of a provider.
pub proof fn law_optional_request_needs_no_provider<V, F, C>(
    slots: Slots<V, F, C>,
    service: ServiceInfo,
    info: RequestInfoView<V>,
)
    requires
        slots.dom().finite(),
    ensures
        !(request_outcome(slots, Request::Optional(service), info) matches Some(Err(error))
            && error is MissingProvider),
        !slots.contains_key(service.key()) ==> request_outcome(
            slots,
            Request::Optional(service),
            info,
        ) == Some(Ok::<_, InjectErrorView>(ResolvedView::<V>::Optional(None))),
{
    if !slots.contains_key(service.key()) {
        assert(exact_outcome(slots, service, info) is Some);
        assert(single_outcome(slots, service, info) is Some);
    }
}

/// Merging keeps the providers of both: where both registries have
/// providers for a service, the merged registry has those of the first
/// followed by those of the second.
pub proof fn law_merge_keeps_the_providers_of_both<V, F, C>(
    first: Slots<V, F, C>,
    second: Slots<V, F, C>,
    key: u64,
)
    requires
        first.get(key) matches Some(Some(_)),
        second.get(key) matches Some(Some(_)),
    ensures
        ProviderRegistry::merged(first, second).get(key) == Some(
            Some(first[key]->Some_0 + second[key]->Some_0),
        ),
{
}

/// Merging loses no service: every service of either registry is a service
/// of the merged registry, unless its providers are checked out of the
/// second and the first does not know it.
pub proof fn law_merge_loses_no_service<V, F, C>(
    first: Slots<V, F, C>,
    second: Slots<V, F, C>,
    key: u64,
)
    requires
        first.contains_key(key) || second.get(key) matches Some(Some(_)),
    ensures
        ProviderRegistry::merged(first, second).contains_key(key),
{
}

/// The later module wins: where two modules set the same parameter and are
/// added one after the other, the parameter has the value of the second.
pub proof fn law_later_module_wins<V>(
    root: Map<Seq<char>, RequestParameter<V>>,
    first: Map<Seq<char>, RequestParameter<V>>,
    second: Map<Seq<char>, RequestParameter<V>>,
    key: Seq<char>,
)
    requires
        second.contains_key(key),
    ensures
        root.union_prefer_right(first).union_prefer_right(second).contains_key(key),
        root.union_prefer_right(first).union_prefer_right(second)[key] == second[key],
{
}

} // verus!
