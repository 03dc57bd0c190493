//! A runtime dependency injection container.
//!
//! Providers are registered under the identity of the service they provide.
//! An [`Injector`] activates them on request: it resolves the dependencies
//! that each provider declares, keeps what the lifecycle of the provider
//! asks it to keep, and reports missing providers and dependency cycles as
//! values.
use vstd::prelude::*;

pub mod activation;
pub mod arg;
pub mod builder;
pub mod deferred;
pub mod evolution;
pub mod factory;
pub mod fallible;
pub mod info;
pub mod injector;
pub mod interface;
pub mod iter;
pub mod laws;
pub mod map;
pub mod module;
pub mod parameter;
pub mod provider_registry;
pub mod providers;
pub mod report;
pub mod request;
pub mod resolution;
pub mod service;
pub mod text;

pub use arg::{Arg, WithArg};
pub use builder::InjectorBuilder;
pub use deferred::Factory;
pub use factory::{Condition, ServiceFactory};
pub use fallible::{FallibleServiceFactory, IntoFallible};
pub use info::{RequestInfo, RequestInfoView};
pub use injector::Injector;
pub use interface::Interface;
pub use iter::{OwnedServicesIter, Services, ServicesIter};
pub use map::MappedServiceFactory;
pub use module::Module;
pub use parameter::{Parameters, RequestParameter};
pub use provider_registry::ProviderRegistry;
pub use providers::{
    constant, ArgProvider, ConditionalProvider, ConstantProvider, InterfaceProvider,
    IntoSingleton, IntoTransient, Provider, SingletonProvider, TransientProvider, TypedProvider,
    WithArgument, WithCondition, WithInterface,
};
pub use request::{Request, Resolved, ResolvedView};
pub use service::{
    fmt_cycle, ActivationError, ArgRequestError, DynSvc, InjectError, InjectErrorView,
    InjectResult, OwnedDynSvc, ServiceInfo, Svc,
};
