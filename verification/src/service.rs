//! Service identities, service pointers and the errors of injection.
use vstd::prelude::*;
use vstd::string::StringExecFns;
use std::sync::Arc;
use crate::text::{decimal, decimal_string};

verus! {

/// A shared, reference-counted pointer to a service.
pub type Svc<V> = Arc<V>;

/// The result of a request to the injector.
pub type InjectResult<T> = Result<T, InjectError>;

/// Hands out another pointer to the service that `service` points to.
///
/// Trusted: this is `Arc::clone`, which returns a pointer to the same
/// allocation, so the value behind the new pointer is the value behind the
/// old one.
#[verifier::external_body]
pub(crate) fn share<V>(service: &Svc<V>) -> (shared: Svc<V>)
    ensures
        shared == *service,
{
    Arc::clone(service)
}

/// The identity of a service: the key it is registered and requested under,
/// and a name for diagnostics. Two identities are the same service when their
/// keys are equal.
#[derive(Clone, Copy, Debug)]
pub struct ServiceInfo {
    id: u64,
    name: &'static str,
}

impl ServiceInfo {
    /// The key of this identity.
    pub closed spec fn key(&self) -> u64 {
        self.id
    }

    /// The characters of this identity's name.
    pub closed spec fn label(&self) -> Seq<char> {
        self.name@
    }

    /// Creates the identity with the given key and name.
    pub fn of(id: u64, name: &'static str) -> (info: ServiceInfo)
        ensures
            info.key() == id,
            info.label() == name@,
    {
        ServiceInfo { id, name }
    }

    /// Gets the key of this identity.
    #[verifier::when_used_as_spec(key)]
    pub fn id(&self) -> (id: u64)
        ensures
            id == self.key(),
    {
        self.id
    }

    /// Gets the name of this identity.
    pub fn name(&self) -> (name: &'static str)
        ensures
            name@ == self.label(),
    {
        self.name
    }
}

impl PartialEq for ServiceInfo {
    fn eq(&self, other: &ServiceInfo) -> (equal: bool) {
        self.id == other.id
    }
}

impl Eq for ServiceInfo {

}

impl vstd::std_specs::cmp::PartialEqSpecImpl for ServiceInfo {
    open spec fn obeys_eq_spec() -> bool {
        true
    }

    open spec fn eq_spec(&self, other: &ServiceInfo) -> bool {
        self.key() == other.key()
    }
}

/// A service together with the identity of what it is an instance of.
pub struct DynSvc<V> {
    pub info: ServiceInfo,
    pub service: Svc<V>,
}

/// An exclusively owned service together with the identity of what it is an
/// instance of.
pub struct OwnedDynSvc<V> {
    pub info: ServiceInfo,
    pub service: Box<V>,
}

/// Why a request for an argument failed.
#[derive(Clone, Copy, Debug, PartialEq, Eq, Structural)]
pub enum ArgRequestError {
    /// No value is assigned for the argument.
    MissingParameter,
    /// The value assigned for the argument is of another type.
    ParameterTypeInvalid,
    /// The argument was requested directly, outside of any service.
    NoParentRequest,
}

impl ArgRequestError {
    /// The text of this error.
    pub open spec fn text(self) -> Seq<char> {
        match self {
            ArgRequestError::MissingParameter => "no value assigned for this argument"@,
            ArgRequestError::ParameterTypeInvalid => "argument value is the wrong type"@,
            ArgRequestError::NoParentRequest => "no parent request was found"@,
        }
    }

    /// Describes this error.
    pub fn message(&self) -> (message: String)
        ensures
            message@ == self.text(),
    {
        match self {
            ArgRequestError::MissingParameter => String::from_str(
                "no value assigned for this argument",
            ),
            ArgRequestError::ParameterTypeInvalid => String::from_str(
                "argument value is the wrong type",
            ),
            ArgRequestError::NoParentRequest => String::from_str("no parent request was found"),
        }
    }
}

/// What went wrong while a service was being activated.
#[derive(Debug)]
pub enum ActivationError {
    /// An argument of the service could not be supplied.
    Arg(ArgRequestError),
    /// The factory of the service failed, with this description.
    Factory(String),
}

/// The mathematical value of an [`ActivationError`].
pub enum ActivationErrorView {
    Arg(ArgRequestError),
    Factory(Seq<char>),
}

impl View for ActivationError {
    type V = ActivationErrorView;

    open spec fn view(&self) -> ActivationErrorView {
        match self {
            ActivationError::Arg(error) => ActivationErrorView::Arg(*error),
            ActivationError::Factory(message) => ActivationErrorView::Factory(message@),
        }
    }
}

impl ActivationErrorView {
    /// The text of this error.
    pub open spec fn text(self) -> Seq<char> {
        match self {
            ActivationErrorView::Arg(error) => error.text(),
            ActivationErrorView::Factory(message) => message,
        }
    }
}

impl ActivationError {
    /// Describes this error.
    pub fn message(&self) -> (message: String)
        ensures
            message@ == self@.text(),
    {
        match self {
            ActivationError::Arg(error) => error.message(),
            ActivationError::Factory(message) => message.clone(),
        }
    }
}

/// An error that has occurred during creation of a service.
#[derive(Debug)]
pub enum InjectError {
    /// Failed to find a provider for the requested service.
    MissingProvider { service_info: ServiceInfo },
    /// A provider for a dependency of the requested service is missing.
    MissingDependency { service_info: ServiceInfo, dependency_info: ServiceInfo },
    /// A cycle was detected during activation of a service. The chain holds
    /// the services that were being activated, the one that closed the cycle
    /// first.
    CycleDetected { service_info: ServiceInfo, cycle: Vec<ServiceInfo> },
    /// The requested implementer is not valid for the requested service.
    InvalidImplementation { service_info: ServiceInfo, implementation: ServiceInfo },
    /// The registered provider returned the wrong service type.
    InvalidProvider { service_info: ServiceInfo },
    /// The requested service has too many providers registered.
    MultipleProviders { service_info: ServiceInfo, providers: usize },
    /// The registered provider can't provide an owned variant of the
    /// requested service.
    OwnedNotSupported { service_info: ServiceInfo },
    /// This provider's conditions for providing its service have not been
    /// met and it should be ignored.
    ConditionsNotMet { service_info: ServiceInfo },
    /// An error occurred during activation of a service.
    ActivationFailed { service_info: ServiceInfo, inner: ActivationError },
    /// An invariant of the container itself was violated.
    InternalError(String),
}

/// The mathematical value of an [`InjectError`].
pub enum InjectErrorView {
    MissingProvider { service_info: ServiceInfo },
    MissingDependency { service_info: ServiceInfo, dependency_info: ServiceInfo },
    CycleDetected { service_info: ServiceInfo, cycle: Seq<ServiceInfo> },
    InvalidImplementation { service_info: ServiceInfo, implementation: ServiceInfo },
    InvalidProvider { service_info: ServiceInfo },
    MultipleProviders { service_info: ServiceInfo, providers: nat },
    OwnedNotSupported { service_info: ServiceInfo },
    ConditionsNotMet { service_info: ServiceInfo },
    ActivationFailed { service_info: ServiceInfo, inner: ActivationErrorView },
    InternalError(Seq<char>),
}

impl View for InjectError {
    type V = InjectErrorView;

    open spec fn view(&self) -> InjectErrorView {
        match self {
            InjectError::MissingProvider { service_info } => InjectErrorView::MissingProvider {
                service_info: *service_info,
            },
            InjectError::MissingDependency {
                service_info,
                dependency_info,
            } => InjectErrorView::MissingDependency {
                service_info: *service_info,
                dependency_info: *dependency_info,
            },
            InjectError::CycleDetected { service_info, cycle } => InjectErrorView::CycleDetected {
                service_info: *service_info,
                cycle: cycle@,
            },
            InjectError::InvalidImplementation {
                service_info,
                implementation,
            } => InjectErrorView::InvalidImplementation {
                service_info: *service_info,
                implementation: *implementation,
            },
            InjectError::InvalidProvider { service_info } => InjectErrorView::InvalidProvider {
                service_info: *service_info,
            },
            InjectError::MultipleProviders {
                service_info,
                providers,
            } => InjectErrorView::MultipleProviders {
                service_info: *service_info,
                providers: *providers as nat,
            },
            InjectError::OwnedNotSupported { service_info } => InjectErrorView::OwnedNotSupported {
                service_info: *service_info,
            },
            InjectError::ConditionsNotMet { service_info } => InjectErrorView::ConditionsNotMet {
                service_info: *service_info,
            },
            InjectError::ActivationFailed { service_info, inner } => {
                InjectErrorView::ActivationFailed { service_info: *service_info, inner: inner@ }
            },
            InjectError::InternalError(message) => InjectErrorView::InternalError(message@),
        }
    }
}

/// The names of a cycle's services, last first, joined by arrows.
pub open spec fn cycle_text(cycle: Seq<ServiceInfo>) -> Seq<char>
    decreases cycle.len(),
{
    if cycle.len() == 0 {
        Seq::empty()
    } else if cycle.len() == 1 {
        cycle[0].label()
    } else {
        cycle.last().label() + " -> "@ + cycle_text(cycle.drop_last())
    }
}

/// Joins the names of a cycle's services, last first, by arrows.
pub fn fmt_cycle(cycle: &[ServiceInfo]) -> (joined: String)
    ensures
        joined@ == cycle_text(cycle@),
{
    let mut joined = String::new();
    let mut i: usize = 0;
    while i < cycle.len()
        invariant
            i <= cycle.len(),
            joined@ == cycle_text(cycle@.subrange(0, i as int)),
        decreases cycle.len() - i,
    {
        let ghost before = cycle@.subrange(0, i as int);
        let ghost after = cycle@.subrange(0, i + 1);
        assert(after.drop_last() =~= before);
        assert(after.last() == cycle@[i as int]);
        let mut next = String::from_str(cycle[i].name());
        if i > 0 {
            next.append(" -> ");
            next.append(joined.as_str());
        }
        assert(next@ =~= cycle_text(after));
        joined = next;
        i += 1;
    }
    assert(cycle@.subrange(0, cycle.len() as int) =~= cycle@);
    joined
}

impl InjectErrorView {
    /// What the error says after the common prefix.
    pub open spec fn detail(self) -> Seq<char> {
        match self {
            InjectErrorView::MissingProvider { service_info } => service_info.label()
                + " has no provider"@,
            InjectErrorView::MissingDependency { service_info, dependency_info } =>
                dependency_info.label() + " has no provider (required by "@ + service_info.label()
                    + ")"@,
            InjectErrorView::CycleDetected { service_info, cycle } =>
                "a cycle was detected during activation of "@ + service_info.label() + " ["@
                    + cycle_text(cycle) + "]"@,
            InjectErrorView::InvalidImplementation { service_info, implementation } =>
                implementation.label() + " is not registered as an implementer of "@
                    + service_info.label(),
            InjectErrorView::InvalidProvider { service_info } =>
                "the registered provider for "@ + service_info.label()
                    + " returned the wrong type"@,
            InjectErrorView::MultipleProviders { service_info, providers } =>
                "the requested service "@ + service_info.label() + " has "@ + decimal(providers)
                    + " providers registered (did you mean to request all of them instead?)"@,
            InjectErrorView::OwnedNotSupported { service_info } =>
                "the registered provider can't provide an owned variant of "@
                    + service_info.label(),
            InjectErrorView::ConditionsNotMet { service_info } =>
                "the conditions for providing the service "@ + service_info.label()
                    + " have not been met"@,
            InjectErrorView::ActivationFailed { service_info, inner } =>
                "an error occurred during activation of "@ + service_info.label() + ": "@
                    + inner.text(),
            InjectErrorView::InternalError(message) =>
                "an unexpected error occurred (please report this): "@ + message,
        }
    }

    /// The full text of the error.
    pub open spec fn text(self) -> Seq<char> {
        "an error occurred during injection: "@ + self.detail()
    }
}

impl InjectError {
    /// Describes this error.
    pub fn message(&self) -> (message: String)
        ensures
            message@ == self@.text(),
    {
        let mut message = String::from_str("an error occurred during injection: ");
        let ghost prefix = message@;
        match self {
            InjectError::MissingProvider { service_info } => {
                message.append(service_info.name());
                message.append(" has no provider");
            },
            InjectError::MissingDependency { service_info, dependency_info } => {
                message.append(dependency_info.name());
                message.append(" has no provider (required by ");
                message.append(service_info.name());
                message.append(")");
            },
            InjectError::CycleDetected { service_info, cycle } => {
                message.append("a cycle was detected during activation of ");
                message.append(service_info.name());
                message.append(" [");
                let joined = fmt_cycle(cycle.as_slice());
                message.append(joined.as_str());
                message.append("]");
            },
            InjectError::InvalidImplementation { service_info, implementation } => {
                message.append(implementation.name());
                message.append(" is not registered as an implementer of ");
                message.append(service_info.name());
            },
            InjectError::InvalidProvider { service_info } => {
                message.append("the registered provider for ");
                message.append(service_info.name());
                message.append(" returned the wrong type");
            },
            InjectError::MultipleProviders { service_info, providers } => {
                message.append("the requested service ");
                message.append(service_info.name());
                message.append(" has ");
                let count = decimal_string(*providers as u64);
                message.append(count.as_str());
                message.append(
                    " providers registered (did you mean to request all of them instead?)",
                );
            },
            InjectError::OwnedNotSupported { service_info } => {
                message.append("the registered provider can't provide an owned variant of ");
                message.append(service_info.name());
            },
            InjectError::ConditionsNotMet { service_info } => {
                message.append("the conditions for providing the service ");
                message.append(service_info.name());
                message.append(" have not been met");
            },
            InjectError::ActivationFailed { service_info, inner } => {
                message.append("an error occurred during activation of ");
                message.append(service_info.name());
                message.append(": ");
                let cause = inner.message();
                message.append(cause.as_str());
            },
            InjectError::InternalError(text) => {
                message.append("an unexpected error occurred (please report this): ");
                message.append(text.as_str());
            },
        }
        assert(message@ =~= prefix + self@.detail());
        message
    }
}

} // verus!
