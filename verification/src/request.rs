//! What can be asked of an injector, and what it answers.
use vstd::prelude::*;
use crate::arg::Arg;
use crate::info::{RequestInfo, RequestInfoView};
use crate::service::{ServiceInfo, Svc};

verus! {

/// A request to an injector: what is wanted, and in which shape.
#[derive(Clone, Copy, Debug)]
pub enum Request {
    /// A pointer to the one implementation of a service.
    Service(ServiceInfo),
    /// A pointer to the one implementation of a service, if it has a provider.
    Optional(ServiceInfo),
    /// An exclusively owned instance of a service.
    Owned(ServiceInfo),
    /// An exclusively owned instance of a service, if it has a provider.
    OptionalOwned(ServiceInfo),
    /// Pointers to all the implementations of a service.
    All(ServiceInfo),
    /// Exclusively owned instances of all the implementations of a service.
    AllOwned(ServiceInfo),
    /// The argument of type `value_info` of the service being activated.
    /// `arg_info` identifies the request itself in errors.
    Arg { arg_info: ServiceInfo, value_info: ServiceInfo },
    /// The injector that is resolving the request.
    Injector,
    /// The information about the request that is being resolved.
    Info,
}

/// The answer to a [`Request`]. Each shape of request has its shape of answer.
pub enum Resolved<V> {
    Service(Svc<V>),
    Optional(Option<Svc<V>>),
    Owned(Box<V>),
    OptionalOwned(Option<Box<V>>),
    All(Vec<Svc<V>>),
    AllOwned(Vec<Box<V>>),
    Arg(Arg<V>),
    /// Stands for the injector that resolved the request. Whoever holds that
    /// injector holds what this answer stands for.
    Injector,
    Info(RequestInfo<V>),
}

/// The mathematical value of a [`Resolved`].
pub enum ResolvedView<V> {
    Service(Svc<V>),
    Optional(Option<Svc<V>>),
    Owned(Box<V>),
    OptionalOwned(Option<Box<V>>),
    All(Seq<Svc<V>>),
    AllOwned(Seq<Box<V>>),
    Arg(Arg<V>),
    Injector,
    Info(RequestInfoView<V>),
}

impl<V> View for Resolved<V> {
    type V = ResolvedView<V>;

    open spec fn view(&self) -> ResolvedView<V> {
        match self {
            Resolved::Service(service) => ResolvedView::Service(*service),
            Resolved::Optional(service) => ResolvedView::Optional(*service),
            Resolved::Owned(service) => ResolvedView::Owned(*service),
            Resolved::OptionalOwned(service) => ResolvedView::OptionalOwned(*service),
            Resolved::All(services) => ResolvedView::All(services@),
            Resolved::AllOwned(services) => ResolvedView::AllOwned(services@),
            Resolved::Arg(arg) => ResolvedView::Arg(*arg),
            Resolved::Injector => ResolvedView::Injector,
            Resolved::Info(info) => ResolvedView::Info(info@),
        }
    }
}

impl<V> ResolvedView<V> {
    /// Whether this answer has the shape that `request` asks for.
    pub open spec fn answers(self, request: Request) -> bool {
        match request {
            Request::Service(_) => self is Service,
            Request::Optional(_) => self is Optional,
            Request::Owned(_) => self is Owned,
            Request::OptionalOwned(_) => self is OptionalOwned,
            Request::All(_) => self is All,
            Request::AllOwned(_) => self is AllOwned,
            Request::Arg { .. } => self is Arg,
            Request::Injector => self is Injector,
            Request::Info => self is Info,
        }
    }
}

impl<V> Resolved<V> {
    /// The service pointer in this answer, if it holds one.
    pub fn into_service(self) -> (service: Option<Svc<V>>)
        ensures
            service == match self {
                Resolved::Service(service) => Some(service),
                Resolved::Optional(service) => service,
                _ => None,
            },
    {
        match self {
            Resolved::Service(service) => Some(service),
            Resolved::Optional(service) => service,
            _ => None,
        }
    }

    /// The owned service in this answer, if it holds one.
    pub fn into_owned(self) -> (service: Option<Box<V>>)
        ensures
            service == match self {
                Resolved::Owned(service) => Some(service),
                Resolved::OptionalOwned(service) => service,
                _ => None,
            },
    {
        match self {
            Resolved::Owned(service) => Some(service),
            Resolved::OptionalOwned(service) => service,
            _ => None,
        }
    }

    /// The service pointers in this answer: all of them where all were
    /// asked for, the one or none where one was asked for.
    pub fn into_all(self) -> (services: Vec<Svc<V>>)
        ensures
            services@ == match self {
                Resolved::All(services) => services@,
                Resolved::Service(service) => seq![service],
                Resolved::Optional(Some(service)) => seq![service],
                _ => Seq::empty(),
            },
    {
        match self {
            Resolved::All(services) => services,
            Resolved::Service(service) => {
                let mut services = Vec::new();
                services.push(service);
                assert(services@ =~= seq![service]);
                services
            },
            Resolved::Optional(Some(service)) => {
                let mut services = Vec::new();
                services.push(service);
                assert(services@ =~= seq![service]);
                services
            },
            _ => Vec::new(),
        }
    }

    /// The argument in this answer, if it holds one.
    pub fn into_arg(self) -> (arg: Option<Arg<V>>)
        ensures
            arg == match self {
                Resolved::Arg(arg) => Some(arg),
                _ => None,
            },
    {
        match self {
            Resolved::Arg(arg) => Some(arg),
            _ => None,
        }
    }
}

} // verus!
