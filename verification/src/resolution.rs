//! What a request yields, as far as the registry alone decides it.
//!
//! Resolving a request runs the factories and conditions that users of the
//! container supply, and nothing is known of what those return. But much is
//! decided before any of them runs: a missing provider, a cycle, a constant,
//! a singleton that exists already, an argument. The functions here say what
//! a request yields wherever it is decided that way, and `None` wherever a
//! factory or a condition has the word.
//!
//! The functions call one another as the injector does. They are well
//! defined because every activation checks the providers of one more service
//! out: the first measure of each function is the number of services that
//! can still be checked out, the second orders the functions that work on
//! the same slots, and the third counts what is left to do in one of them.
use vstd::prelude::*;
use crate::arg::{param_key, Arg};
use crate::info::RequestInfoView;
use crate::provider_registry::{ProviderRegistry, Slots};
use crate::providers::Provider;
use crate::request::{Request, Resolved, ResolvedView};
use crate::service::{
    DynSvc, InjectError, InjectErrorView, InjectResult, OwnedDynSvc, ServiceInfo, Svc,
};

verus! {

/// What is decided of a request: nothing, or its result.
pub type Outcome<T> = Option<Result<T, InjectErrorView>>;

/// Whether `result` is what `outcome` decides, where it decides anything.
pub open spec fn decided<T>(outcome: Outcome<T>, result: InjectResult<T>) -> bool {
    match outcome {
        None => true,
        Some(Ok(value)) => result == Ok::<T, InjectError>(value),
        Some(Err(error)) => result is Err && result->Err_0@ == error,
    }
}

/// Whether the values of `result` are what `outcome` decides, where it
/// decides anything.
pub open spec fn decided_all<T>(outcome: Outcome<Seq<T>>, result: InjectResult<Vec<T>>) -> bool {
    match outcome {
        None => true,
        Some(Ok(values)) => result is Ok && result->Ok_0@ == values,
        Some(Err(error)) => result is Err && result->Err_0@ == error,
    }
}

/// The values of the answers.
pub open spec fn answers_view<V>(answers: Seq<Resolved<V>>) -> Seq<ResolvedView<V>> {
    answers.map_values(|answer: Resolved<V>| answer@)
}

/// Whether the values of the answers in `result` are what `outcome` decides,
/// where it decides anything.
pub open spec fn decided_answers<V>(
    outcome: Outcome<Seq<ResolvedView<V>>>,
    result: InjectResult<Vec<Resolved<V>>>,
) -> bool {
    match outcome {
        None => true,
        Some(Ok(answers)) => result is Ok && answers_view(result->Ok_0@) == answers,
        Some(Err(error)) => result is Err && result->Err_0@ == error,
    }
}

/// Whether the value of `result` is what `outcome` decides, where it decides
/// anything.
pub open spec fn decided_answer<V>(
    outcome: Outcome<ResolvedView<V>>,
    result: InjectResult<Resolved<V>>,
) -> bool {
    match outcome {
        None => true,
        Some(Ok(answer)) => result is Ok && result->Ok_0@ == answer,
        Some(Err(error)) => result is Err && result->Err_0@ == error,
    }
}

/// Whether the one provider of `service` in `before` is still its one
/// provider in `after` and, where it keeps the first instance that it
/// creates, now keeps the instance behind `pointer`.
pub open spec fn keeps_instance<V, F, C>(
    before: Slots<V, F, C>,
    after: Slots<V, F, C>,
    service: ServiceInfo,
    pointer: Svc<V>,
) -> bool {
    &&& before.get(service.key()) matches Some(Some(providers)) && providers.len() == 1
    &&& after.get(service.key()) matches Some(Some(providers)) && providers.len() == 1
    &&& before[service.key()]->Some_0[0].keeps() ==>
        (after[service.key()]->Some_0[0].kept() matches Some(
        kept,
    ) && kept.service == pointer && kept.info.key() == service.key())
}

/// The services whose providers are in their slots.
pub open spec fn present<V, F, C>(slots: Slots<V, F, C>) -> Set<u64> {
    slots.dom().filter(|key: u64| slots[key] is Some)
}

/// How many services can still be checked out. Every activation checks one
/// out, so no chain of activations is longer than this.
pub open spec fn present_count<V, F, C>(slots: Slots<V, F, C>) -> nat {
    present(slots).len()
}

/// Checking providers out leaves fewer services that can be checked out.
pub proof fn lemma_checkout_decreases<V, F, C>(slots: Slots<V, F, C>, key: u64)
    requires
        slots.dom().finite(),
        slots.get(key) matches Some(Some(_)),
    ensures
        present_count(slots.insert(key, None)) < present_count(slots),
        slots.insert(key, None).dom().finite(),
{
    let before = present(slots);
    let after = present(slots.insert(key, None));
    slots.dom().lemma_len_filter(|key: u64| slots[key] is Some);
    assert(before.finite());
    assert(after =~= before.remove(key));
    assert(before.contains(key));
}

/// Reclaiming the providers that were checked out restores the slots.
pub proof fn lemma_reclaim_restores<V, F, C>(before: Slots<V, F, C>, key: u64)
    requires
        before.get(key) matches Some(Some(_)),
    ensures
        before.insert(key, None).insert(key, before[key]) == before,
{
    assert(before.insert(key, None).insert(key, before[key]) =~= before);
}

/// The error that a failed dependency of `service` is reported as: a
/// dependency without a provider is reported as missing for `service`.
pub open spec fn as_dependency_of(error: InjectErrorView, service: ServiceInfo) -> InjectErrorView {
    match error {
        InjectErrorView::MissingProvider { service_info } => InjectErrorView::MissingDependency {
            service_info: service,
            dependency_info: service_info,
        },
        _ => error,
    }
}

/// The error that a failed activation on behalf of `service` is reported as:
/// a cycle is reported for `service`, with `service` at the end of its chain.
pub open spec fn in_activation_of(error: InjectErrorView, service: ServiceInfo) -> InjectErrorView {
    match error {
        InjectErrorView::CycleDetected { service_info, cycle } => InjectErrorView::CycleDetected {
            service_info: service,
            cycle: cycle.push(service),
        },
        _ => error,
    }
}

/// What a provided service yields to a request for `service`.
pub open spec fn from_provided<V>(provided: DynSvc<V>, service: ServiceInfo) -> Result<
    Svc<V>,
    InjectErrorView,
> {
    if provided.info.key() == service.key() {
        Ok(provided.service)
    } else {
        Err(InjectErrorView::InvalidProvider { service_info: service })
    }
}

/// What a provided owned service yields to a request for `service`.
pub open spec fn from_provided_owned<V>(provided: OwnedDynSvc<V>, service: ServiceInfo) -> Result<
    Box<V>,
    InjectErrorView,
> {
    if provided.info.key() == service.key() {
        Ok(provided.service)
    } else {
        Err(InjectErrorView::InvalidProvider { service_info: service })
    }
}

/// What the one provider of `service` yields to a request for exactly one
/// implementation: a provider whose conditions are not met counts as none.
pub open spec fn single_result<T>(
    provided: Result<T, InjectErrorView>,
    service: ServiceInfo,
) -> Result<T, InjectErrorView> {
    match provided {
        Ok(provided) => Ok(provided),
        Err(InjectErrorView::ConditionsNotMet { .. }) => Err(
            InjectErrorView::MissingProvider { service_info: service },
        ),
        Err(error) => Err(in_activation_of(error, service)),
    }
}

/// What a request for an optional service makes of the result for the
/// service: a missing provider is no error.
pub open spec fn optional_result<T>(single: Result<T, InjectErrorView>) -> Result<
    Option<T>,
    InjectErrorView,
> {
    match single {
        Ok(service) => Ok(Some(service)),
        Err(InjectErrorView::MissingProvider { .. }) => Ok(None),
        Err(error) => Err(error),
    }
}

/// What a group of requests yields, from `position` on and after
/// `resolved`: the requests are resolved one after the other, each with the
/// same information, and the first failure is the failure of the group.
pub open spec fn group_outcome<V, F, C>(
    slots: Slots<V, F, C>,
    requests: Seq<Request>,
    position: int,
    resolved: Seq<ResolvedView<V>>,
    info: RequestInfoView<V>,
) -> Outcome<Seq<ResolvedView<V>>>
    decreases present_count(slots), 4nat, requests.len() - position,
    when slots.dom().finite()
{
    if position < 0 || position >= requests.len() {
        Some(Ok(resolved))
    } else {
        match request_outcome(slots, requests[position], info) {
            None => None,
            Some(Err(error)) => Some(Err(error)),
            Some(Ok(answer)) => group_outcome(
                slots,
                requests,
                position + 1,
                resolved.push(answer),
                info,
            ),
        }
    }
}

/// The failure of activating `service` with `dependencies` that is decided
/// before its factory is invoked: that of a dependency, where one is decided
/// to fail and all before it are decided to succeed.
pub open spec fn activation_failure<V, F, C>(
    slots: Slots<V, F, C>,
    service: ServiceInfo,
    dependencies: Seq<Request>,
    info: RequestInfoView<V>,
) -> Option<InjectErrorView>
    decreases present_count(slots), 5nat, 0nat,
    when slots.dom().finite()
{
    match group_outcome(slots, dependencies, 0, Seq::empty(), info.with_request(service)) {
        Some(Err(error)) => Some(as_dependency_of(error, service)),
        _ => None,
    }
}

/// What `provider` yields to a request with the value `info`.
pub open spec fn provider_outcome<V, F, C>(
    slots: Slots<V, F, C>,
    provider: Provider<V, F, C>,
    info: RequestInfoView<V>,
) -> Outcome<DynSvc<V>>
    decreases present_count(slots), 6nat, provider.depth(),
    when slots.dom().finite()
{
    match provider {
        Provider::Transient(transient) => match activation_failure(
            slots,
            transient.result,
            transient.dependencies@,
            info,
        ) {
            Some(error) => Some(Err(error)),
            None => None,
        },
        Provider::Singleton(singleton) => match singleton.cached {
            Some(service) => Some(Ok(DynSvc { info: singleton.result, service })),
            None => match activation_failure(
                slots,
                singleton.result,
                singleton.dependencies@,
                info,
            ) {
                Some(error) => Some(Err(error)),
                None => None,
            },
        },
        Provider::Constant(constant) => Some(
            Ok(DynSvc { info: constant.result, service: constant.value }),
        ),
        Provider::Conditional(_) => None,
        Provider::Interface(wrapper) => match provider_outcome(slots, *wrapper.inner, info) {
            None => None,
            Some(Err(error)) => Some(Err(error)),
            Some(Ok(provided)) => Some(wrapper.interface.cast(provided)),
        },
        Provider::Arg(wrapper) => provider_outcome(
            slots,
            *wrapper.inner,
            info.with_parameter(
                param_key(wrapper.inner.created().key(), wrapper.arg.info.key()),
                wrapper.arg,
            ),
        ),
    }
}

/// What `provider` yields to a request for an owned service.
pub open spec fn provider_owned_outcome<V, F, C>(
    slots: Slots<V, F, C>,
    provider: Provider<V, F, C>,
    info: RequestInfoView<V>,
) -> Outcome<OwnedDynSvc<V>>
    decreases present_count(slots), 6nat, provider.depth(),
    when slots.dom().finite()
{
    match provider {
        Provider::Transient(transient) => match activation_failure(
            slots,
            transient.result,
            transient.dependencies@,
            info,
        ) {
            Some(error) => Some(Err(error)),
            None => None,
        },
        Provider::Singleton(singleton) => Some(
            Err(InjectErrorView::OwnedNotSupported { service_info: singleton.result }),
        ),
        Provider::Constant(constant) => Some(
            Err(InjectErrorView::OwnedNotSupported { service_info: constant.result }),
        ),
        Provider::Conditional(_) => None,
        Provider::Interface(wrapper) => match provider_owned_outcome(slots, *wrapper.inner, info) {
            None => None,
            Some(Err(error)) => Some(Err(error)),
            Some(Ok(provided)) => Some(wrapper.interface.cast_owned(provided)),
        },
        Provider::Arg(wrapper) => provider_owned_outcome(
            slots,
            *wrapper.inner,
            info.with_parameter(
                param_key(wrapper.inner.created().key(), wrapper.arg.info.key()),
                wrapper.arg,
            ),
        ),
    }
}

/// What the checked out `providers` of `service` yield to a request for all
/// implementations, from `position` on and after `collected`. Providers whose
/// conditions are not met are passed over.
pub open spec fn all_outcome<V, F, C>(
    slots: Slots<V, F, C>,
    providers: Seq<Provider<V, F, C>>,
    position: int,
    collected: Seq<Svc<V>>,
    info: RequestInfoView<V>,
    service: ServiceInfo,
) -> Outcome<Seq<Svc<V>>>
    decreases present_count(slots), 7nat, providers.len() - position,
    when slots.dom().finite()
{
    if position < 0 || position >= providers.len() {
        Some(Ok(collected))
    } else {
        match provider_outcome(slots, providers[position], info) {
            None => None,
            Some(Err(InjectErrorView::ConditionsNotMet { .. })) => all_outcome(
                slots,
                providers,
                position + 1,
                collected,
                info,
                service,
            ),
            Some(Err(error)) => Some(Err(in_activation_of(error, service))),
            Some(Ok(provided)) => match from_provided(provided, service) {
                Err(error) => Some(Err(error)),
                Ok(next) => all_outcome(
                    slots,
                    providers,
                    position + 1,
                    collected.push(next),
                    info,
                    service,
                ),
            },
        }
    }
}

/// What the checked out `providers` of `service` yield to a request for
/// owned instances of all implementations, from `position` on and after
/// `collected`. Providers whose conditions are not met, and providers that
/// cannot provide owned instances, are passed over.
pub open spec fn all_owned_outcome<V, F, C>(
    slots: Slots<V, F, C>,
    providers: Seq<Provider<V, F, C>>,
    position: int,
    collected: Seq<Box<V>>,
    info: RequestInfoView<V>,
    service: ServiceInfo,
) -> Outcome<Seq<Box<V>>>
    decreases present_count(slots), 7nat, providers.len() - position,
    when slots.dom().finite()
{
    if position < 0 || position >= providers.len() {
        Some(Ok(collected))
    } else {
        match provider_owned_outcome(slots, providers[position], info) {
            None => None,
            Some(Err(InjectErrorView::ConditionsNotMet { .. })) => all_owned_outcome(
                slots,
                providers,
                position + 1,
                collected,
                info,
                service,
            ),
            Some(Err(InjectErrorView::OwnedNotSupported { .. })) => all_owned_outcome(
                slots,
                providers,
                position + 1,
                collected,
                info,
                service,
            ),
            Some(Err(error)) => Some(Err(in_activation_of(error, service))),
            Some(Ok(provided)) => match from_provided_owned(provided, service) {
                Err(error) => Some(Err(error)),
                Ok(next) => all_owned_outcome(
                    slots,
                    providers,
                    position + 1,
                    collected.push(next),
                    info,
                    service,
                ),
            },
        }
    }
}

/// What a request for the one implementation of `service` yields, as it was
/// provided.
pub open spec fn exact_outcome<V, F, C>(
    slots: Slots<V, F, C>,
    service: ServiceInfo,
    info: RequestInfoView<V>,
) -> Outcome<DynSvc<V>>
    decreases present_count(slots), 2nat, 0nat,
    when slots.dom().finite()
{
    match ProviderRegistry::checkout_outcome(slots, service) {
        Err(error) => Some(Err(error)),
        Ok(providers) => {
            if providers.len() > 1 {
                Some(
                    Err(
                        InjectErrorView::MultipleProviders {
                            service_info: service,
                            providers: providers.len(),
                        },
                    ),
                )
            } else if providers.len() == 0 {
                Some(Err(InjectErrorView::MissingProvider { service_info: service }))
            } else {
                proof {
                    lemma_checkout_decreases(slots, service.key());
                }
                match provider_outcome(slots.insert(service.key(), None), providers[0], info) {
                    None => None,
                    Some(provided) => Some(single_result(provided, service)),
                }
            }
        },
    }
}

/// What a request for an owned instance of the one implementation of
/// `service` yields, as it was provided.
pub open spec fn exact_owned_outcome<V, F, C>(
    slots: Slots<V, F, C>,
    service: ServiceInfo,
    info: RequestInfoView<V>,
) -> Outcome<OwnedDynSvc<V>>
    decreases present_count(slots), 2nat, 0nat,
    when slots.dom().finite()
{
    match ProviderRegistry::checkout_outcome(slots, service) {
        Err(error) => Some(Err(error)),
        Ok(providers) => {
            if providers.len() > 1 {
                Some(
                    Err(
                        InjectErrorView::MultipleProviders {
                            service_info: service,
                            providers: providers.len(),
                        },
                    ),
                )
            } else if providers.len() == 0 {
                Some(Err(InjectErrorView::MissingProvider { service_info: service }))
            } else {
                proof {
                    lemma_checkout_decreases(slots, service.key());
                }
                match provider_owned_outcome(
                    slots.insert(service.key(), None),
                    providers[0],
                    info,
                ) {
                    None => None,
                    Some(provided) => Some(single_result(provided, service)),
                }
            }
        },
    }
}

/// What a request for the one implementation of `service` yields.
pub open spec fn single_outcome<V, F, C>(
    slots: Slots<V, F, C>,
    service: ServiceInfo,
    info: RequestInfoView<V>,
) -> Outcome<Svc<V>>
    decreases present_count(slots), 3nat, 0nat,
    when slots.dom().finite()
{
    match exact_outcome(slots, service, info) {
        None => None,
        Some(Err(error)) => Some(Err(error)),
        Some(Ok(provided)) => Some(from_provided(provided, service)),
    }
}

/// What a request for an owned instance of the one implementation of
/// `service` yields.
pub open spec fn single_owned_outcome<V, F, C>(
    slots: Slots<V, F, C>,
    service: ServiceInfo,
    info: RequestInfoView<V>,
) -> Outcome<Box<V>>
    decreases present_count(slots), 3nat, 0nat,
    when slots.dom().finite()
{
    match exact_owned_outcome(slots, service, info) {
        None => None,
        Some(Err(error)) => Some(Err(error)),
        Some(Ok(provided)) => Some(from_provided_owned(provided, service)),
    }
}

/// What a request for all implementations of `service` yields.
pub open spec fn collection_outcome<V, F, C>(
    slots: Slots<V, F, C>,
    service: ServiceInfo,
    info: RequestInfoView<V>,
) -> Outcome<Seq<Svc<V>>>
    decreases present_count(slots), 3nat, 0nat,
    when slots.dom().finite()
{
    match ProviderRegistry::checkout_outcome(slots, service) {
        Err(error) => Some(Err(error)),
        Ok(providers) => {
            proof {
                lemma_checkout_decreases(slots, service.key());
            }
            all_outcome(
                slots.insert(service.key(), None),
                providers,
                0,
                Seq::empty(),
                info,
                service,
            )
        },
    }
}

/// What a request for owned instances of all implementations of `service`
/// yields.
pub open spec fn collection_owned_outcome<V, F, C>(
    slots: Slots<V, F, C>,
    service: ServiceInfo,
    info: RequestInfoView<V>,
) -> Outcome<Seq<Box<V>>>
    decreases present_count(slots), 3nat, 0nat,
    when slots.dom().finite()
{
    match ProviderRegistry::checkout_outcome(slots, service) {
        Err(error) => Some(Err(error)),
        Ok(providers) => {
            proof {
                lemma_checkout_decreases(slots, service.key());
            }
            all_owned_outcome(
                slots.insert(service.key(), None),
                providers,
                0,
                Seq::empty(),
                info,
                service,
            )
        },
    }
}

/// What `request` yields in a request with the value `info`.
pub open spec fn request_outcome<V, F, C>(
    slots: Slots<V, F, C>,
    request: Request,
    info: RequestInfoView<V>,
) -> Outcome<ResolvedView<V>>
    decreases present_count(slots), 3nat, 1nat,
    when slots.dom().finite()
{
    match request {
        Request::Service(service) => match single_outcome(slots, service, info) {
            None => None,
            Some(Ok(service)) => Some(Ok(ResolvedView::Service(service))),
            Some(Err(error)) => Some(Err(error)),
        },
        Request::Optional(service) => match single_outcome(slots, service, info) {
            None => None,
            Some(single) => Some(
                match optional_result(single) {
                    Ok(service) => Ok(ResolvedView::Optional(service)),
                    Err(error) => Err(error),
                },
            ),
        },
        Request::Owned(service) => match single_owned_outcome(slots, service, info) {
            None => None,
            Some(Ok(service)) => Some(Ok(ResolvedView::Owned(service))),
            Some(Err(error)) => Some(Err(error)),
        },
        Request::OptionalOwned(service) => match single_owned_outcome(slots, service, info) {
            None => None,
            Some(single) => Some(
                match optional_result(single) {
                    Ok(service) => Ok(ResolvedView::OptionalOwned(service)),
                    Err(error) => Err(error),
                },
            ),
        },
        Request::All(service) => match collection_outcome(slots, service, info) {
            None => None,
            Some(Ok(services)) => Some(Ok(ResolvedView::All(services))),
            Some(Err(error)) => Some(Err(error)),
        },
        Request::AllOwned(service) => match collection_owned_outcome(slots, service, info) {
            None => None,
            Some(Ok(services)) => Some(Ok(ResolvedView::AllOwned(services))),
            Some(Err(error)) => Some(Err(error)),
        },
        Request::Arg { arg_info, value_info } => Some(
            match Arg::outcome(info, arg_info, value_info) {
                Ok(arg) => Ok(ResolvedView::Arg(arg)),
                Err(error) => Err(error),
            },
        ),
        Request::Injector => Some(Ok(ResolvedView::Injector)),
        Request::Info => Some(Ok(ResolvedView::Info(info))),
    }
}

} // verus!
