//! Providers: the units that produce services, each with its lifecycle.
use vstd::prelude::*;
use std::marker::PhantomData;
use crate::factory::ServiceFactory;
use crate::interface::Interface;
use crate::parameter::RequestParameter;
use crate::request::Request;
use crate::service::{DynSvc, InjectError, InjectErrorView, InjectResult, ServiceInfo, Svc};

verus! {

/// A provider that creates an instance of its service each time one is
/// requested.
pub struct TransientProvider<V, F> {
    pub result: ServiceInfo,
    pub dependencies: Vec<Request>,
    pub factory: F,
    /// Ties the provider to the services of its injector.
    pub marker: PhantomData<V>,
}

/// A provider that creates an instance of its service the first time one is
/// requested, and hands out that instance from then on.
pub struct SingletonProvider<V, F> {
    pub result: ServiceInfo,
    pub dependencies: Vec<Request>,
    pub factory: F,
    pub cached: Option<Svc<V>>,
}

/// A provider that hands out an instance made ahead of time.
pub struct ConstantProvider<V> {
    pub result: ServiceInfo,
    pub value: Svc<V>,
}

/// A provider that applies only while its condition holds.
pub struct ConditionalProvider<V, F, C> {
    pub inner: Box<Provider<V, F, C>>,
    pub condition: C,
}

/// A provider whose services are handed out in the name of an interface.
pub struct InterfaceProvider<V, F, C> {
    pub inner: Box<Provider<V, F, C>>,
    pub interface: Interface,
}

/// A provider that supplies an argument to the service it provides.
pub struct ArgProvider<V, F, C> {
    pub inner: Box<Provider<V, F, C>>,
    pub arg: RequestParameter<V>,
}

/// Any provider.
pub enum Provider<V, F, C> {
    Transient(TransientProvider<V, F>),
    Singleton(SingletonProvider<V, F>),
    Constant(ConstantProvider<V>),
    Conditional(ConditionalProvider<V, F, C>),
    Interface(InterfaceProvider<V, F, C>),
    Arg(ArgProvider<V, F, C>),
}

impl<V, F, C> Provider<V, F, C> {
    /// The service that this provider is registered for.
    pub open spec fn registered(self) -> ServiceInfo
        decreases self,
    {
        match self {
            Provider::Transient(provider) => provider.result,
            Provider::Singleton(provider) => provider.result,
            Provider::Constant(provider) => provider.result,
            Provider::Conditional(provider) => provider.inner.registered(),
            Provider::Interface(provider) => provider.interface.info,
            Provider::Arg(provider) => provider.inner.registered(),
        }
    }

    /// The service that this provider creates instances of, whatever
    /// interface they are handed out under.
    pub open spec fn created(self) -> ServiceInfo
        decreases self,
    {
        match self {
            Provider::Transient(provider) => provider.result,
            Provider::Singleton(provider) => provider.result,
            Provider::Constant(provider) => provider.result,
            Provider::Conditional(provider) => provider.inner.created(),
            Provider::Interface(provider) => provider.inner.created(),
            Provider::Arg(provider) => provider.inner.created(),
        }
    }

    /// The instance that this provider hands out whoever asks, if it keeps
    /// one: a constant, or a singleton that has been created.
    pub open spec fn kept(self) -> Option<DynSvc<V>>
        decreases self,
    {
        match self {
            Provider::Transient(_) => None,
            Provider::Singleton(provider) => match provider.cached {
                Some(service) => Some(DynSvc { info: provider.result, service }),
                None => None,
            },
            Provider::Constant(provider) => Some(
                DynSvc { info: provider.result, service: provider.value },
            ),
            Provider::Conditional(_) => None,
            Provider::Interface(provider) => match provider.inner.kept() {
                Some(service) => match provider.interface.cast(service) {
                    Ok(cast) => Some(cast),
                    Err(_) => None,
                },
                None => None,
            },
            Provider::Arg(provider) => provider.inner.kept(),
        }
    }

    /// Whether this provider keeps the first instance that it creates.
    pub open spec fn keeps(self) -> bool
        decreases self,
    {
        match self {
            Provider::Transient(_) => false,
            Provider::Singleton(_) => true,
            Provider::Constant(_) => true,
            Provider::Conditional(_) => false,
            Provider::Interface(provider) => provider.inner.keeps(),
            Provider::Arg(provider) => provider.inner.keeps(),
        }
    }

    /// How many providers are wrapped in this one.
    pub open spec fn depth(self) -> nat
        decreases self,
    {
        match self {
            Provider::Transient(_) => 0,
            Provider::Singleton(_) => 0,
            Provider::Constant(_) => 0,
            Provider::Conditional(provider) => provider.inner.depth() + 1,
            Provider::Interface(provider) => provider.inner.depth() + 1,
            Provider::Arg(provider) => provider.inner.depth() + 1,
        }
    }

    /// Gets the service that this provider is to be registered for.
    pub fn result(&self) -> (info: ServiceInfo)
        ensures
            info == self.registered(),
        decreases self,
    {
        match self {
            Provider::Transient(provider) => provider.result,
            Provider::Singleton(provider) => provider.result,
            Provider::Constant(provider) => provider.result,
            Provider::Conditional(provider) => provider.inner.result(),
            Provider::Interface(provider) => provider.interface.info,
            Provider::Arg(provider) => provider.inner.result(),
        }
    }

    /// Gets the service that this provider creates instances of.
    pub fn typed_result(&self) -> (info: ServiceInfo)
        ensures
            info == self.created(),
        decreases self,
    {
        match self {
            Provider::Transient(provider) => provider.result,
            Provider::Singleton(provider) => provider.result,
            Provider::Constant(provider) => provider.result,
            Provider::Conditional(provider) => provider.inner.typed_result(),
            Provider::Interface(provider) => provider.inner.typed_result(),
            Provider::Arg(provider) => provider.inner.typed_result(),
        }
    }
}

impl<V, F> TransientProvider<V, F> {
    /// Creates a provider of `result` that invokes `factory`, with the
    /// answers to `dependencies`, each time the service is requested.
    pub fn new(result: ServiceInfo, dependencies: Vec<Request>, factory: F) -> (provider: Self)
        ensures
            provider.result == result,
            provider.dependencies == dependencies,
            provider.factory == factory,
    {
        TransientProvider { result, dependencies, factory, marker: PhantomData }
    }
}

impl<V, F> SingletonProvider<V, F> {
    /// Creates a provider of `result` that invokes `factory`, with the
    /// answers to `dependencies`, the first time the service is requested.
    pub fn new(result: ServiceInfo, dependencies: Vec<Request>, factory: F) -> (provider: Self)
        ensures
            provider.result == result,
            provider.dependencies == dependencies,
            provider.factory == factory,
            provider.cached is None,
    {
        SingletonProvider { result, dependencies, factory, cached: None }
    }
}

impl<V> ConstantProvider<V> {
    /// Creates a provider of `result` that always hands out `value`.
    pub fn new(result: ServiceInfo, value: V) -> (provider: Self)
        ensures
            provider.result == result,
            *provider.value == value,
    {
        ConstantProvider { result, value: Svc::new(value) }
    }
}

/// Creates a provider of `result` that always hands out `value`.
pub fn constant<V>(result: ServiceInfo, value: V) -> (provider: ConstantProvider<V>)
    ensures
        provider.result == result,
        *provider.value == value,
{
    ConstantProvider::new(result, value)
}

/// A provider of one particular kind, which can stand wherever any provider
/// can.
pub trait TypedProvider<V, F, C>: Sized {
    /// This provider as any provider.
    spec fn erased(self) -> Provider<V, F, C>;

    /// Forgets which kind of provider this is.
    fn into_provider(self) -> (provider: Provider<V, F, C>)
        ensures
            provider == self.erased(),
    ;
}

impl<V, F, C> TypedProvider<V, F, C> for Provider<V, F, C> {
    open spec fn erased(self) -> Provider<V, F, C> {
        self
    }

    fn into_provider(self) -> (provider: Provider<V, F, C>) {
        self
    }
}

impl<V, F, C> TypedProvider<V, F, C> for TransientProvider<V, F> {
    open spec fn erased(self) -> Provider<V, F, C> {
        Provider::Transient(self)
    }

    fn into_provider(self) -> (provider: Provider<V, F, C>) {
        Provider::Transient(self)
    }
}

impl<V, F, C> TypedProvider<V, F, C> for SingletonProvider<V, F> {
    open spec fn erased(self) -> Provider<V, F, C> {
        Provider::Singleton(self)
    }

    fn into_provider(self) -> (provider: Provider<V, F, C>) {
        Provider::Singleton(self)
    }
}

impl<V, F, C> TypedProvider<V, F, C> for ConstantProvider<V> {
    open spec fn erased(self) -> Provider<V, F, C> {
        Provider::Constant(self)
    }

    fn into_provider(self) -> (provider: Provider<V, F, C>) {
        Provider::Constant(self)
    }
}

impl<V, F, C> TypedProvider<V, F, C> for ConditionalProvider<V, F, C> {
    open spec fn erased(self) -> Provider<V, F, C> {
        Provider::Conditional(self)
    }

    fn into_provider(self) -> (provider: Provider<V, F, C>) {
        Provider::Conditional(self)
    }
}

impl<V, F, C> TypedProvider<V, F, C> for InterfaceProvider<V, F, C> {
    open spec fn erased(self) -> Provider<V, F, C> {
        Provider::Interface(self)
    }

    fn into_provider(self) -> (provider: Provider<V, F, C>) {
        Provider::Interface(self)
    }
}

impl<V, F, C> TypedProvider<V, F, C> for ArgProvider<V, F, C> {
    open spec fn erased(self) -> Provider<V, F, C> {
        Provider::Arg(self)
    }

    fn into_provider(self) -> (provider: Provider<V, F, C>) {
        Provider::Arg(self)
    }
}

/// Defines a conversion of a factory into a transient provider.
pub trait IntoTransient<V>: ServiceFactory<V, Result = V> + Sized {
    /// Creates a transient provider of `result` from this factory.
    fn transient(self, result: ServiceInfo, dependencies: Vec<Request>) -> (provider:
        TransientProvider<V, Self>)
        ensures
            provider.result == result,
            provider.dependencies == dependencies,
            provider.factory == self,
    {
        TransientProvider::new(result, dependencies, self)
    }
}

impl<V, F: ServiceFactory<V, Result = V>> IntoTransient<V> for F {

}

/// Defines a conversion of a factory into a singleton provider.
pub trait IntoSingleton<V>: ServiceFactory<V, Result = V> + Sized {
    /// Creates a singleton provider of `result` from this factory.
    fn singleton(self, result: ServiceInfo, dependencies: Vec<Request>) -> (provider:
        SingletonProvider<V, Self>)
        ensures
            provider.result == result,
            provider.dependencies == dependencies,
            provider.factory == self,
            provider.cached is None,
    {
        SingletonProvider::new(result, dependencies, self)
    }
}

impl<V, F: ServiceFactory<V, Result = V>> IntoSingleton<V> for F {

}

/// Defines a conversion of a provider into a conditional provider.
pub trait WithCondition<V, F, C>: TypedProvider<V, F, C> {
    /// Creates a provider that applies only while `condition` holds, and
    /// then provides what this provider does.
    fn with_condition(self, condition: C) -> (provider: ConditionalProvider<V, F, C>)
        ensures
            *provider.inner == self.erased(),
            provider.condition == condition,
    {
        ConditionalProvider { inner: Box::new(self.into_provider()), condition }
    }
}

impl<V, F, C, P: TypedProvider<V, F, C>> WithCondition<V, F, C> for P {

}

/// Defines a conversion of a provider into a provider of an interface.
pub trait WithInterface<V, F, C>: TypedProvider<V, F, C> {
    /// Creates a provider of `interface` that hands out what this provider
    /// creates. This fails where the service that this provider creates is
    /// not declared as an implementation of the interface.
    fn with_interface(self, interface: &Interface) -> (provider: InjectResult<
        InterfaceProvider<V, F, C>,
    >)
        ensures
            interface.accepts(self.erased().created()) ==> provider is Ok
                && *provider->Ok_0.inner == self.erased() && provider->Ok_0.interface.info
                == interface.info && provider->Ok_0.interface.implementations@
                == interface.implementations@,
            !interface.accepts(self.erased().created()) ==> provider is Err && provider->Err_0@
                == (InjectErrorView::InvalidImplementation {
                service_info: interface.info,
                implementation: self.erased().created(),
            }),
    {
        let inner = self.into_provider();
        let implementation = inner.typed_result();
        if interface.is_interface_for(implementation) {
            Ok(InterfaceProvider { inner: Box::new(inner), interface: interface.duplicate() })
        } else {
            Err(
                InjectError::InvalidImplementation {
                    service_info: interface.info,
                    implementation,
                },
            )
        }
    }
}

impl<V, F, C, P: TypedProvider<V, F, C>> WithInterface<V, F, C> for P {

}

/// Defines a conversion of a provider into a provider with an argument.
pub trait WithArgument<V, F, C>: TypedProvider<V, F, C> {
    /// Creates a provider that provides what this provider does, with
    /// `value`, of the type `value_info`, as the argument of that type for
    /// the service it creates.
    fn with_arg(self, value_info: ServiceInfo, value: V) -> (provider: ArgProvider<V, F, C>)
        ensures
            *provider.inner == self.erased(),
            provider.arg.info == value_info,
            *provider.arg.value == value,
    {
        ArgProvider {
            inner: Box::new(self.into_provider()),
            arg: RequestParameter::new(value_info, value),
        }
    }
}

impl<V, F, C, P: TypedProvider<V, F, C>> WithArgument<V, F, C> for P {

}

} // verus!
