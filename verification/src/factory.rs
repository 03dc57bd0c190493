//! What users of the container supply: the factories that create services
//! and the conditions under which providers apply.
use vstd::prelude::*;
use crate::info::RequestInfo;
use crate::injector::Injector;
use crate::request::Resolved;
use crate::service::InjectResult;

verus! {

/// A factory for creating instances of a service.
///
/// The dependencies that a factory needs are declared where the factory is
/// made into a provider. The injector resolves them, in the declared order,
/// and hands the answers to [`invoke`](ServiceFactory::invoke). Nothing is
/// assumed of what a factory returns.
pub trait ServiceFactory<V> {
    /// What the factory creates.
    type Result;

    /// Creates an instance from the resolved dependencies. `request_info` is
    /// the information of the request on whose behalf the service is
    /// activated, with the service at the end of its path.
    fn invoke(
        &mut self,
        dependencies: Vec<Resolved<V>>,
        request_info: &RequestInfo<V>,
    ) -> InjectResult<Self::Result>;
}

/// A condition under which a provider applies. Nothing is assumed of what a
/// condition answers.
pub trait Condition<V, F>: Sized {
    /// Decides whether the provider applies to the request.
    fn check(&mut self, injector: &Injector<V, F, Self>, request_info: &RequestInfo<V>) -> bool;
}

} // verus!
