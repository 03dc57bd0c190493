//! Factories whose results are mapped.
use vstd::prelude::*;
use std::marker::PhantomData;
use crate::factory::ServiceFactory;
use crate::info::RequestInfo;
use crate::request::Resolved;
use crate::service::{InjectError, InjectResult};

verus! {

/// A function that accepts every value of its argument type.
#[verifier::reject_recursive_types(R)]
#[verifier::reject_recursive_types(T)]
pub struct Mapping<R, T, M: Fn(T) -> R> {
    map: M,
    marker: PhantomData<(T, R)>,
}

impl<R, T, M: Fn(T) -> R> Mapping<R, T, M> {
    #[verifier::type_invariant]
    spec fn accepts_every_value(&self) -> bool {
        forall|value: T| call_requires(self.map, (value,))
    }

    /// The function.
    pub closed spec fn function(&self) -> M {
        self.map
    }

    /// Wraps `map`, which must accept every value.
    pub fn new(map: M) -> (mapping: Self)
        requires
            forall|value: T| call_requires(map, (value,)),
        ensures
            mapping.function() == map,
    {
        Mapping { map, marker: PhantomData }
    }

    /// Applies the function to `value`.
    pub fn apply(&self, value: T) -> (result: R)
        ensures
            call_ensures(self.function(), (value,), result),
    {
        proof {
            use_type_invariant(self);
        }
        (self.map)(value)
    }
}

/// A factory that creates what a function makes of the results of another
/// factory.
#[verifier::reject_recursive_types(R)]
#[verifier::reject_recursive_types(T)]
pub struct MappedServiceFactory<R, T, I, M: Fn(T) -> R> {
    pub inner: I,
    pub mapping: Mapping<R, T, M>,
}

impl<R, T, I, M: Fn(T) -> R> MappedServiceFactory<R, T, I, M> {
    /// Creates a factory of what `map` makes of the results of `inner`.
    /// `map` must accept whatever `inner` may create.
    pub fn new(inner: I, map: M) -> (factory: Self)
        requires
            forall|created: T| call_requires(map, (created,)),
        ensures
            factory.inner == inner,
            factory.mapping.function() == map,
    {
        MappedServiceFactory { inner, mapping: Mapping::new(map) }
    }

    /// Maps what the inner factory has returned: a created instance goes
    /// through the function, and a failure stays what it is.
    pub fn map_result(&self, produced: InjectResult<T>) -> (mapped: InjectResult<R>)
        ensures
            match produced {
                Ok(created) => mapped matches Ok(result) && call_ensures(
                    self.mapping.function(),
                    (created,),
                    result,
                ),
                Err(error) => mapped == Err::<R, _>(error),
            },
    {
        match produced {
            Ok(created) => Ok(self.mapping.apply(created)),
            Err(error) => Err(error),
        }
    }
}

impl<V, R, T, I: ServiceFactory<V, Result = T>, M: Fn(T) -> R> ServiceFactory<
    V,
> for MappedServiceFactory<R, T, I, M> {
    type Result = R;

    /// Invokes the inner factory with the same dependencies, for the same
    /// request, and maps what it returns: an instance that it created goes
    /// through the function, and a failure stays what it is.
    fn invoke(
        &mut self,
        dependencies: Vec<Resolved<V>>,
        request_info: &RequestInfo<V>,
    ) -> (result: InjectResult<R>)
        ensures
            final(self).mapping == old(self).mapping,
            exists|inner: &mut I, produced: InjectResult<T>|
                mut_ref_current(inner) == old(self).inner
                    && mut_ref_future(inner) == final(self).inner
                    && call_ensures(I::invoke, (inner, dependencies, request_info), produced)
                    && match produced {
                    Ok(created) => result matches Ok(mapped) && call_ensures(
                        old(self).mapping.function(),
                        (created,),
                        mapped,
                    ),
                    Err(error) => result == Err::<R, InjectError>(error),
                },
    {
        let produced = self.inner.invoke(dependencies, request_info);
        self.map_result(produced)
    }
}

} // verus!
