//! Requests that are made later.
use vstd::prelude::*;
use crate::arg::{param_key, Arg};
use crate::factory::{Condition, ServiceFactory};
use crate::info::{RequestInfo, RequestInfoView};
use crate::injector::Injector;
use crate::parameter::RequestParameter;
use crate::request::{Request, Resolved};
use crate::resolution::{decided_answer, request_outcome};
use crate::service::{InjectResult, ServiceInfo};

verus! {

/// A request that is made later, and as often as needed: the request and
/// the information it is to be resolved with.
pub struct Factory<V> {
    request: Request,
    request_info: RequestInfo<V>,
}

impl<V> Factory<V> {
    /// What is requested.
    pub closed spec fn request(&self) -> Request {
        self.request
    }

    /// The information that the request is resolved with.
    pub closed spec fn info(&self) -> RequestInfoView<V> {
        self.request_info@
    }

    /// Creates the factory for `request`, to be resolved with a copy of
    /// `request_info`.
    pub fn new(request: Request, request_info: &RequestInfo<V>) -> (factory: Self)
        ensures
            factory.request() == request,
            factory.info() == request_info@,
    {
        Factory { request, request_info: request_info.duplicate() }
    }

    /// Gets the information that the request is resolved with.
    pub fn request_info(&self) -> (info: &RequestInfo<V>)
        ensures
            info@ == self.info(),
    {
        &self.request_info
    }

    /// Mutably gets the information that the request is resolved with.
    pub fn request_info_mut(&mut self) -> (info: &mut RequestInfo<V>)
        ensures
            info@ == old(self).info(),
            final(self).info() == final(info)@,
            final(self).request() == old(self).request(),
    {
        &mut self.request_info
    }

    /// Creates a factory for the same request, with `value`, of the type
    /// `value_info`, as the argument of that type for the service `target`.
    pub fn with_arg(
        &self,
        target: ServiceInfo,
        value_info: ServiceInfo,
        value: V,
    ) -> (factory: Self)
        ensures
            factory.request() == self.request(),
            factory.info().path == self.info().path,
            factory.info().parameters.dom() == self.info().parameters.dom().insert(
                param_key(target.key(), value_info.key()),
            ),
            forall|key: Seq<char>|
                key != param_key(target.key(), value_info.key())
                    && self.info().parameters.contains_key(
                    key,
                ) ==> factory.info().parameters[key] == self.info().parameters[key],
            factory.info().parameters[param_key(target.key(), value_info.key())].info
                == value_info,
            *factory.info().parameters[param_key(target.key(), value_info.key())].value == value,
    {
        let mut request_info = self.request_info.duplicate();
        let name = Arg::<V>::param_name(target, value_info);
        let _ = request_info.insert_parameter(
            name.as_str(),
            RequestParameter::new(value_info, value),
        );
        Factory { request: self.request, request_info }
    }

    /// Performs the request.
    pub fn get<F: ServiceFactory<V, Result = V>, C: Condition<V, F>>(
        &self,
        injector: &mut Injector<V, F, C>,
    ) -> (answer: InjectResult<Resolved<V>>)
        ensures
            final(injector).framed(old(injector)),
            request_outcome(old(injector).slots(), self.request(), self.info()) is Some ==>
                final(injector).slots() == old(injector).slots(),
            decided_answer(
                request_outcome(old(injector).slots(), self.request(), self.info()),
                answer,
            ),
            answer matches Err(error) ==> !(error@ is ConditionsNotMet),
            answer matches Ok(resolved) ==> resolved@.answers(self.request()),
    {
        injector.get_with(&self.request, &self.request_info)
    }
}

} // verus!
