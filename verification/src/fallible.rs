//! Factories that may fail.
use vstd::prelude::*;
use crate::factory::ServiceFactory;
use crate::info::RequestInfo;
use crate::request::Resolved;
use crate::service::{
    ActivationError, ActivationErrorView, InjectError, InjectErrorView, InjectResult, ServiceInfo,
};

verus! {

/// A factory that creates its service from a factory that may fail with a
/// description of what went wrong.
pub struct FallibleServiceFactory<F> {
    pub inner: F,
    pub result: ServiceInfo,
}

/// What the activation of `service` yields where its fallible factory has
/// returned `produced`: the service where it succeeded, a failed activation
/// of `service` with its description where it failed, and the error of the
/// injection where that ended before the factory had its say.
pub open spec fn activation_result<R>(
    service: ServiceInfo,
    produced: InjectResult<Result<R, String>>,
) -> Result<R, InjectErrorView> {
    match produced {
        Ok(Ok(created)) => Ok(created),
        Ok(Err(description)) => Err(
            InjectErrorView::ActivationFailed {
                service_info: service,
                inner: ActivationErrorView::Factory(description@),
            },
        ),
        Err(error) => Err(error@),
    }
}

/// Turns what a fallible factory of `service` has returned into the result
/// of the activation.
pub fn into_activation_result<R>(
    service: ServiceInfo,
    produced: InjectResult<Result<R, String>>,
) -> (result: InjectResult<R>)
    ensures
        match activation_result(service, produced) {
            Ok(created) => result == Ok::<R, InjectError>(created),
            Err(error) => result is Err && result->Err_0@ == error,
        },
{
    match produced {
        Ok(Ok(created)) => Ok(created),
        Ok(Err(description)) => Err(
            InjectError::ActivationFailed {
                service_info: service,
                inner: ActivationError::Factory(description),
            },
        ),
        Err(error) => Err(error),
    }
}

impl<V, R, F: ServiceFactory<V, Result = Result<R, String>>> ServiceFactory<
    V,
> for FallibleServiceFactory<F> {
    type Result = R;

    /// Invokes the inner factory with the same dependencies, for the same
    /// request, and turns what it returns into the result of the activation:
    /// the service where it succeeded, a failed activation of the service
    /// with its description where it failed.
    fn invoke(
        &mut self,
        dependencies: Vec<Resolved<V>>,
        request_info: &RequestInfo<V>,
    ) -> (result: InjectResult<R>)
        ensures
            final(self).result == old(self).result,
            exists|inner: &mut F, produced: InjectResult<Result<R, String>>|
                mut_ref_current(inner) == old(self).inner
                    && mut_ref_future(inner) == final(self).inner
                    && call_ensures(F::invoke, (inner, dependencies, request_info), produced)
                    && match activation_result(old(self).result, produced) {
                    Ok(created) => result == Ok::<R, InjectError>(created),
                    Err(error) => result is Err && result->Err_0@ == error,
                },
    {
        let produced = self.inner.invoke(dependencies, request_info);
        into_activation_result(self.result, produced)
    }
}

/// Defines a conversion of a factory that may fail into a factory of the
/// service.
pub trait IntoFallible<V, R>: ServiceFactory<V, Result = Result<R, String>> + Sized {
    /// Creates a factory of `result` whose activations fail where this
    /// factory fails.
    fn fallible(self, result: ServiceInfo) -> (factory: FallibleServiceFactory<Self>)
        ensures
            factory.inner == self,
            factory.result == result,
    {
        FallibleServiceFactory { inner: self, result }
    }
}

impl<V, R, F: ServiceFactory<V, Result = Result<R, String>>> IntoFallible<V, R> for F {

}

} // verus!
