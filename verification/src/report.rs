//! How what a provider answers becomes what a request answers.
use vstd::prelude::*;
use crate::resolution::{
    as_dependency_of, decided, from_provided, from_provided_owned, in_activation_of,
    single_result,
};
use crate::service::{DynSvc, InjectError, InjectResult, OwnedDynSvc, ServiceInfo, Svc};

verus! {

/// Reports `error`, the failure of a dependency of `service`.
pub fn dependency_error(error: InjectError, service: ServiceInfo) -> (reported: InjectError)
    ensures
        reported@ == as_dependency_of(error@, service),
{
    match error {
        InjectError::MissingProvider { service_info } => InjectError::MissingDependency {
            service_info: service,
            dependency_info: service_info,
        },
        error => error,
    }
}

/// Reports `error`, the failure of the one provider of `service`.
pub fn single_error(error: InjectError, service: ServiceInfo) -> (reported: InjectError)
    ensures
        Err::<(), _>(reported@) == single_result(Err::<(), _>(error@), service),
        !(reported@ is ConditionsNotMet),
{
    match error {
        InjectError::ConditionsNotMet { .. } => InjectError::MissingProvider {
            service_info: service,
        },
        InjectError::CycleDetected { service_info: _, cycle } => {
            let mut cycle = cycle;
            cycle.push(service);
            InjectError::CycleDetected { service_info: service, cycle }
        },
        error => error,
    }
}

/// Reports `error`, the failure of one of the providers of `service`, to a
/// request for all of them: nothing, where the conditions of the provider
/// are not met.
pub fn collection_error(error: InjectError, service: ServiceInfo) -> (reported: Option<InjectError>)
    ensures
        match reported {
            None => error@ is ConditionsNotMet,
            Some(reported) => !(error@ is ConditionsNotMet) && reported@ == in_activation_of(
                error@,
                service,
            ) && !(reported@ is ConditionsNotMet),
        },
{
    match error {
        InjectError::ConditionsNotMet { .. } => None,
        InjectError::CycleDetected { service_info: _, cycle } => {
            let mut cycle = cycle;
            cycle.push(service);
            Some(InjectError::CycleDetected { service_info: service, cycle })
        },
        error => Some(error),
    }
}

/// Reports `error`, the failure of one of the providers of `service`, to a
/// request for owned instances from all of them: nothing, where the
/// conditions of the provider are not met or it keeps its instances.
pub fn owned_collection_error(error: InjectError, service: ServiceInfo) -> (reported: Option<
    InjectError,
>)
    ensures
        match reported {
            None => error@ is ConditionsNotMet || error@ is OwnedNotSupported,
            Some(reported) => !(error@ is ConditionsNotMet) && !(error@ is OwnedNotSupported)
                && reported@ == in_activation_of(error@, service) && !(reported@
                is ConditionsNotMet),
        },
{
    match error {
        InjectError::ConditionsNotMet { .. } => None,
        InjectError::OwnedNotSupported { .. } => None,
        InjectError::CycleDetected { service_info: _, cycle } => {
            let mut cycle = cycle;
            cycle.push(service);
            Some(InjectError::CycleDetected { service_info: service, cycle })
        },
        error => Some(error),
    }
}

/// Hands a provided service to a request for `service`. This fails where
/// the service was provided as an instance of another service.
pub fn downcast<V>(provided: DynSvc<V>, service: ServiceInfo) -> (service_pointer: InjectResult<
    Svc<V>,
>)
    ensures
        decided(Some(from_provided(provided, service)), service_pointer),
        service_pointer matches Err(error) ==> !(error@ is ConditionsNotMet),
{
    if provided.info.id() == service.id() {
        Ok(provided.service)
    } else {
        Err(InjectError::InvalidProvider { service_info: service })
    }
}

/// Hands a provided owned service to a request for `service`. This fails
/// where the service was provided as an instance of another service.
pub fn downcast_owned<V>(provided: OwnedDynSvc<V>, service: ServiceInfo) -> (owned: InjectResult<
    Box<V>,
>)
    ensures
        decided(Some(from_provided_owned(provided, service)), owned),
        owned matches Err(error) ==> !(error@ is ConditionsNotMet),
{
    if provided.info.id() == service.id() {
        Ok(provided.service)
    } else {
        Err(InjectError::InvalidProvider { service_info: service })
    }
}

} // verus!
