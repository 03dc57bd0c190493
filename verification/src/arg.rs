//! Arguments: values that a request carries for one particular service.
use vstd::prelude::*;
use vstd::string::StringExecFns;
use crate::info::{RequestInfo, RequestInfoView};
use crate::parameter::RequestParameter;
use crate::service::{
    share, ActivationError, ActivationErrorView, ArgRequestError, InjectError, InjectErrorView,
    InjectResult, ServiceInfo, Svc,
};
use crate::text::{decimal, decimal_string, is_digit, lemma_decimal_digits, lemma_decimal_injective};

verus! {

/// The name of the parameter that holds the argument of the type with key
/// `value` for the service with key `target`.
pub open spec fn param_key(target: u64, value: u64) -> Seq<char> {
    "runtime_injector::Arg[target="@ + decimal(target as nat) + ",type="@ + decimal(value as nat)
        + "]"@
}

/// Different services, and different argument types, have different
/// parameter names: an argument meant for one service can never be handed to
/// another, nor be taken for an argument of another type.
pub proof fn lemma_param_key_injective(target_a: u64, value_a: u64, target_b: u64, value_b: u64)
    requires
        param_key(target_a, value_a) == param_key(target_b, value_b),
    ensures
        target_a == target_b,
        value_a == value_b,
{
    reveal_strlit("runtime_injector::Arg[target=");
    reveal_strlit(",type=");
    reveal_strlit("]");
    let head = "runtime_injector::Arg[target="@;
    let mid = ",type="@;
    let tail = "]"@;
    let ta = decimal(target_a as nat);
    let tb = decimal(target_b as nat);
    let va = decimal(value_a as nat);
    let vb = decimal(value_b as nat);
    let a = param_key(target_a, value_a);
    let b = param_key(target_b, value_b);
    lemma_decimal_digits(target_a as nat);
    lemma_decimal_digits(target_b as nat);
    lemma_decimal_digits(value_a as nat);
    lemma_decimal_digits(value_b as nat);
    let h = head.len() as int;
    assert(a.len() == h + ta.len() + mid.len() + va.len() + 1);
    assert(b.len() == h + tb.len() + mid.len() + vb.len() + 1);
    assert forall|i: int| 0 <= i < ta.len() implies a[h + i] == ta[i] by {}
    assert forall|i: int| 0 <= i < tb.len() implies b[h + i] == tb[i] by {}
    assert(a[h + ta.len()] == ',');
    assert(b[h + tb.len()] == ',');
    if ta.len() < tb.len() {
        assert(b[h + ta.len()] == tb[ta.len() as int]);
        assert(is_digit(tb[ta.len() as int]));
        assert(false);
    }
    if tb.len() < ta.len() {
        assert(a[h + tb.len()] == ta[tb.len() as int]);
        assert(is_digit(ta[tb.len() as int]));
        assert(false);
    }
    assert(ta =~= tb) by {
        assert forall|i: int| 0 <= i < ta.len() implies ta[i] == tb[i] by {
            assert(a[h + i] == b[h + i]);
        }
    }
    lemma_decimal_injective(target_a as nat, target_b as nat);
    let m = h + ta.len() + mid.len();
    assert(va.len() == vb.len());
    assert(va =~= vb) by {
        assert forall|i: int| 0 <= i < va.len() implies va[i] == vb[i] by {
            assert(a[m + i] == va[i]);
            assert(b[m + i] == vb[i]);
        }
    }
    lemma_decimal_injective(value_a as nat, value_b as nat);
}

/// An argument of a service: a value that was set aside for it when the
/// container was configured, handed over when the service is activated.
pub struct Arg<V> {
    pub value: Svc<V>,
}

impl<V> Arg<V> {
    /// The name of the parameter that holds the argument of type
    /// `value_info` for the service `target`.
    pub fn param_name(target: ServiceInfo, value_info: ServiceInfo) -> (name: String)
        ensures
            name@ == param_key(target.key(), value_info.key()),
    {
        let mut name = String::from_str("runtime_injector::Arg[target=");
        let target_key = decimal_string(target.id());
        name.append(target_key.as_str());
        name.append(",type=");
        let value_key = decimal_string(value_info.id());
        name.append(value_key.as_str());
        name.append("]");
        assert(name@ =~= param_key(target.key(), value_info.key()));
        name
    }

    /// Converts an argument into its inner value.
    pub fn into_inner(arg: Self) -> (value: Svc<V>)
        ensures
            value == arg.value,
    {
        arg.value
    }

    /// What a request for the argument of type `value_info` yields in a
    /// request with the value `info`: the argument set aside for the service
    /// at the end of the path, or the reason why there is none.
    pub open spec fn outcome(
        info: RequestInfoView<V>,
        arg_info: ServiceInfo,
        value_info: ServiceInfo,
    ) -> Result<Arg<V>, InjectErrorView> {
        if info.path.len() == 0 {
            Err(
                InjectErrorView::ActivationFailed {
                    service_info: arg_info,
                    inner: ActivationErrorView::Arg(ArgRequestError::NoParentRequest),
                },
            )
        } else {
            let key = param_key(info.path.last().key(), value_info.key());
            if !info.parameters.contains_key(key) {
                Err(
                    InjectErrorView::ActivationFailed {
                        service_info: arg_info,
                        inner: ActivationErrorView::Arg(ArgRequestError::MissingParameter),
                    },
                )
            } else if info.parameters[key].info.key() != value_info.key() {
                Err(
                    InjectErrorView::ActivationFailed {
                        service_info: arg_info,
                        inner: ActivationErrorView::Arg(ArgRequestError::ParameterTypeInvalid),
                    },
                )
            } else {
                Ok(Arg { value: info.parameters[key].value })
            }
        }
    }

    /// Requests the argument of type `value_info` for the service that is
    /// being activated. `arg_info` identifies the argument in errors.
    pub fn request(arg_info: ServiceInfo, value_info: ServiceInfo, info: &RequestInfo<V>) -> (arg:
        InjectResult<Arg<V>>)
        ensures
            match Self::outcome(info@, arg_info, value_info) {
                Ok(expected) => arg == Ok::<Arg<V>, InjectError>(expected),
                Err(expected) => arg is Err && arg->Err_0@ == expected,
            },
    {
        let path = info.service_path();
        if path.len() == 0 {
            return Err(
                InjectError::ActivationFailed {
                    service_info: arg_info,
                    inner: ActivationError::Arg(ArgRequestError::NoParentRequest),
                },
            );
        }
        let parent = path[path.len() - 1];
        let name = Self::param_name(parent, value_info);
        match info.get_parameter(name.as_str()) {
            None => Err(
                InjectError::ActivationFailed {
                    service_info: arg_info,
                    inner: ActivationError::Arg(ArgRequestError::MissingParameter),
                },
            ),
            Some(parameter) => match parameter.downcast_ref(value_info) {
                None => Err(
                    InjectError::ActivationFailed {
                        service_info: arg_info,
                        inner: ActivationError::Arg(ArgRequestError::ParameterTypeInvalid),
                    },
                ),
                Some(value) => Ok(Arg { value: share(value) }),
            },
        }
    }
}

/// Allows arguments to be set aside for services.
pub trait WithArg<V> {
    /// The parameters that the arguments are kept in.
    spec fn arguments(&self) -> Map<Seq<char>, RequestParameter<V>>;

    /// Sets `value`, of the type `value_info`, aside as the argument of that
    /// type for the service `target`. Returns the argument it replaces.
    fn with_arg(&mut self, target: ServiceInfo, value_info: ServiceInfo, value: V) -> (previous:
        Option<RequestParameter<V>>)
        ensures
            final(self).arguments().dom() == old(self).arguments().dom().insert(
                param_key(target.key(), value_info.key()),
            ),
            forall|key: Seq<char>|
                key != param_key(target.key(), value_info.key())
                    && old(self).arguments().contains_key(
                    key,
                ) ==> final(self).arguments()[key] == old(self).arguments()[key],
            final(self).arguments()[param_key(target.key(), value_info.key())].info == value_info,
            *final(self).arguments()[param_key(target.key(), value_info.key())].value == value,
            previous == if old(self).arguments().contains_key(
                param_key(target.key(), value_info.key()),
            ) {
                Some(old(self).arguments()[param_key(target.key(), value_info.key())])
            } else {
                None
            },
    ;
}

impl<V> WithArg<V> for RequestInfo<V> {
    open spec fn arguments(&self) -> Map<Seq<char>, RequestParameter<V>> {
        self@.parameters
    }

    fn with_arg(&mut self, target: ServiceInfo, value_info: ServiceInfo, value: V) -> (previous:
        Option<RequestParameter<V>>)
        ensures
            final(self)@.path == old(self)@.path,
    {
        let name = Arg::<V>::param_name(target, value_info);
        self.insert_parameter(name.as_str(), RequestParameter::new(value_info, value))
    }
}

} // verus!
