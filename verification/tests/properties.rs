use runtime_injector::text::decimal_string;
use runtime_injector::{
    constant, fmt_cycle, ActivationError, Arg, ArgRequestError, Condition, Factory, InjectError,
    InjectResult, Injector, InjectorBuilder, Interface, IntoFallible, IntoSingleton,
    IntoTransient, Module, Provider, ProviderRegistry, Request, RequestInfo, RequestParameter,
    Resolved, ServiceFactory, ServiceInfo, Svc, TypedProvider, WithArg, WithArgument,
    WithCondition, WithInterface,
};
use std::sync::{Arc, Mutex};

enum Value {
    Number(i32),
    Counter(Mutex<i32>),
    Pair(Svc<Value>, Svc<Value>),
}

impl Value {
    fn number(&self) -> i32 {
        match self {
            Value::Number(value) => *value,
            Value::Counter(value) => *value.lock().unwrap(),
            Value::Pair(..) => panic!("not a number"),
        }
    }
}

struct Make(Box<dyn FnMut(Vec<Resolved<Value>>) -> InjectResult<Value>>);

impl ServiceFactory<Value> for Make {
    type Result = Value;

    fn invoke(
        &mut self,
        dependencies: Vec<Resolved<Value>>,
        _request_info: &RequestInfo<Value>,
    ) -> InjectResult<Value> {
        (self.0)(dependencies)
    }
}

struct When(Box<dyn FnMut() -> bool>);

impl Condition<Value, Make> for When {
    fn check(
        &mut self,
        _injector: &Injector<Value, Make, When>,
        _request_info: &RequestInfo<Value>,
    ) -> bool {
        (self.0)()
    }
}

type Builder = InjectorBuilder<Value, Make, When>;

fn make(mut factory: impl FnMut(Vec<Resolved<Value>>) -> Value + 'static) -> Make {
    Make(Box::new(move |dependencies| Ok(factory(dependencies))))
}

fn number(value: i32) -> Make {
    make(move |_| Value::Number(value))
}

fn a() -> ServiceInfo {
    ServiceInfo::of(1, "A")
}

fn b() -> ServiceInfo {
    ServiceInfo::of(2, "B")
}

fn c() -> ServiceInfo {
    ServiceInfo::of(3, "C")
}

fn shape() -> ServiceInfo {
    ServiceInfo::of(4, "dyn Shape")
}

fn count() -> ServiceInfo {
    ServiceInfo::of(5, "Mutex<i32>")
}

fn get(injector: &mut Injector<Value, Make, When>, info: ServiceInfo) -> Svc<Value> {
    injector.get(&Request::Service(info)).unwrap().into_service().unwrap()
}

fn error_of<T>(result: InjectResult<T>) -> InjectError {
    match result {
        Ok(_) => panic!("request should have failed"),
        Err(error) => error,
    }
}

#[test]
fn service_info_is_compared_by_key() {
    assert_eq!(ServiceInfo::of(7, "one name"), ServiceInfo::of(7, "another name"));
    assert_ne!(ServiceInfo::of(7, "name"), ServiceInfo::of(8, "name"));
    assert_eq!(7, ServiceInfo::of(7, "name").id());
    assert_eq!("name", ServiceInfo::of(7, "name").name());
}

#[test]
fn decimal_string_renders_numbers() {
    assert_eq!("0", decimal_string(0));
    assert_eq!("7", decimal_string(7));
    assert_eq!("10", decimal_string(10));
    assert_eq!("1203", decimal_string(1203));
    assert_eq!("18446744073709551615", decimal_string(u64::MAX));
}

#[test]
fn param_name_is_made_of_both_keys() {
    let name = Arg::<Value>::param_name(ServiceInfo::of(7, "Foo"), ServiceInfo::of(12, "i32"));
    assert_eq!("runtime_injector::Arg[target=7,type=12]", name);
    assert_ne!(name, Arg::<Value>::param_name(ServiceInfo::of(71, "Foo"), ServiceInfo::of(2, "i32")));
}

#[test]
fn fmt_cycle_joins_names_last_first() {
    assert_eq!("", fmt_cycle(&[]));
    assert_eq!("A", fmt_cycle(&[a()]));
    assert_eq!("A -> B -> A", fmt_cycle(&[a(), b(), a()]));
    assert_eq!("C -> B -> A", fmt_cycle(&[a(), b(), c()]));
}

#[test]
fn errors_describe_themselves() {
    let prefix = "an error occurred during injection: ";
    let cases = vec![
        (InjectError::MissingProvider { service_info: a() }, "A has no provider".to_string()),
        (
            InjectError::MissingDependency { service_info: a(), dependency_info: b() },
            "B has no provider (required by A)".to_string(),
        ),
        (
            InjectError::CycleDetected { service_info: a(), cycle: vec![a(), b(), a()] },
            "a cycle was detected during activation of A [A -> B -> A]".to_string(),
        ),
        (
            InjectError::InvalidImplementation { service_info: shape(), implementation: a() },
            "A is not registered as an implementer of dyn Shape".to_string(),
        ),
        (
            InjectError::InvalidProvider { service_info: a() },
            "the registered provider for A returned the wrong type".to_string(),
        ),
        (
            InjectError::MultipleProviders { service_info: a(), providers: 12 },
            "the requested service A has 12 providers registered (did you mean to request all of them instead?)"
                .to_string(),
        ),
        (
            InjectError::OwnedNotSupported { service_info: a() },
            "the registered provider can't provide an owned variant of A".to_string(),
        ),
        (
            InjectError::ConditionsNotMet { service_info: a() },
            "the conditions for providing the service A have not been met".to_string(),
        ),
        (
            InjectError::ActivationFailed {
                service_info: a(),
                inner: ActivationError::Factory("out of cheese".to_string()),
            },
            "an error occurred during activation of A: out of cheese".to_string(),
        ),
        (
            InjectError::ActivationFailed {
                service_info: a(),
                inner: ActivationError::Arg(ArgRequestError::NoParentRequest),
            },
            "an error occurred during activation of A: no parent request was found".to_string(),
        ),
        (
            InjectError::InternalError("oops".to_string()),
            "an unexpected error occurred (please report this): oops".to_string(),
        ),
    ];
    for (error, detail) in cases {
        assert_eq!(format!("{}{}", prefix, detail), error.message());
    }
    assert_eq!("no value assigned for this argument", ArgRequestError::MissingParameter.message());
    assert_eq!("argument value is the wrong type", ArgRequestError::ParameterTypeInvalid.message());
}

#[test]
fn registry_checks_providers_out_and_takes_them_back() {
    let mut registry: ProviderRegistry<Value, Make, When> = ProviderRegistry::new();
    registry.add_provider_for(a(), constant(a(), Value::Number(1)).into_provider());
    registry.add_provider_for(a(), constant(a(), Value::Number(2)).into_provider());

    match error_of(registry.checkout(b())) {
        InjectError::MissingProvider { service_info } => assert_eq!(b(), service_info),
        error => panic!("{:?}", error),
    }

    let providers = registry.checkout(a()).unwrap();
    assert_eq!(2, providers.len());
    assert!(registry.contains(a()));

    match error_of(registry.checkout(a())) {
        InjectError::CycleDetected { service_info, cycle } => {
            assert_eq!(a(), service_info);
            assert_eq!(vec![a()], cycle);
        }
        error => panic!("{:?}", error),
    }

    registry.reclaim(a(), providers).unwrap();
    assert_eq!(2, registry.checkout(a()).unwrap().len());
}

#[test]
fn reclaim_fails_on_an_occupied_slot_and_on_a_missing_service() {
    let mut registry: ProviderRegistry<Value, Make, When> = ProviderRegistry::new();
    registry.add_provider_for(a(), constant(a(), Value::Number(1)).into_provider());

    let occupied = registry.reclaim(a(), Vec::new());
    assert!(matches!(error_of(occupied), InjectError::InternalError(_)));
    assert_eq!(1, registry.checkout(a()).unwrap().len());

    let missing = registry.reclaim(b(), Vec::new());
    assert!(matches!(error_of(missing), InjectError::InternalError(_)));
    assert!(!registry.contains(b()));
}

#[test]
fn registering_during_activation_is_found_out() {
    let mut registry: ProviderRegistry<Value, Make, When> = ProviderRegistry::new();
    registry.add_provider_for(a(), constant(a(), Value::Number(1)).into_provider());
    let providers = registry.checkout(a()).unwrap();
    registry.add_provider_for(a(), constant(a(), Value::Number(2)).into_provider());
    assert!(matches!(error_of(registry.reclaim(a(), providers)), InjectError::InternalError(_)));
}

#[test]
fn removed_providers_are_gone() {
    let mut builder: Builder = Injector::builder();
    builder.provide(number(1).transient(a(), Vec::new()));
    builder.provide(number(2).transient(a(), Vec::new()));
    builder.provide(number(3).transient(b(), Vec::new()));

    assert_eq!(2, builder.remove_providers(a()).len());
    assert_eq!(0, builder.remove_providers(a()).len());

    let mut injector = builder.build();
    assert!(!injector.is_registered(a()));
    assert_eq!(3, get(&mut injector, b()).number());

    let mut builder: Builder = Injector::builder();
    builder.provide(number(1).transient(a(), Vec::new()));
    builder.clear_providers();
    assert!(!builder.build().is_registered(a()));
}

#[test]
fn singleton_is_the_same_instance_and_transient_is_not() {
    let mut builder: Builder = Injector::builder();
    builder.provide(number(1).singleton(a(), Vec::new()));
    builder.provide(number(2).transient(b(), Vec::new()));

    let mut injector = builder.build();
    let first = get(&mut injector, a());
    let second = get(&mut injector, a());
    assert!(Arc::ptr_eq(&first, &second));

    let first = get(&mut injector, b());
    let second = get(&mut injector, b());
    assert!(!Arc::ptr_eq(&first, &second));
}

#[test]
fn constant_is_always_the_same_instance() {
    let mut builder: Builder = Injector::builder();
    builder.provide(constant(a(), Value::Number(5)));

    let mut injector = builder.build();
    let first = get(&mut injector, a());
    let second = get(&mut injector, a());
    assert!(Arc::ptr_eq(&first, &second));
    assert_eq!(5, first.number());
}

#[test]
fn singleton_factory_runs_once_and_again_after_a_failure() {
    let calls = Arc::new(Mutex::new(0));
    let seen = Arc::clone(&calls);
    let mut builder: Builder = Injector::builder();
    builder.provide(
        Make(Box::new(move |_| {
            let mut calls = seen.lock().unwrap();
            *calls += 1;
            if *calls == 1 {
                Err(InjectError::InternalError("not yet".to_string()))
            } else {
                Ok(Value::Number(*calls))
            }
        }))
        .singleton(a(), Vec::new()),
    );

    let mut injector = builder.build();
    assert!(injector.get(&Request::Service(a())).is_err());
    assert_eq!(2, get(&mut injector, a()).number());
    assert_eq!(2, get(&mut injector, a()).number());
    assert_eq!(2, *calls.lock().unwrap());
}

#[test]
fn condition_alternates() {
    let mut calls = 0;
    let mut builder: Builder = Injector::builder();
    builder.provide(number(1).transient(a(), Vec::new()).with_condition(When(Box::new(
        move || {
            calls += 1;
            calls % 2 == 1
        },
    ))));

    let mut injector = builder.build();
    assert!(injector.get(&Request::Optional(a())).unwrap().into_service().is_some());
    assert!(injector.get(&Request::Optional(a())).unwrap().into_service().is_none());
    assert!(injector.get(&Request::Optional(a())).unwrap().into_service().is_some());
}

#[test]
fn unmet_conditions_are_never_reported_to_the_requester() {
    let mut builder: Builder = Injector::builder();
    builder.provide(number(1).transient(a(), Vec::new()).with_condition(When(Box::new(|| false))));
    builder.provide(number(2).transient(b(), vec![Request::Service(a())]));

    let mut injector = builder.build();
    match error_of(injector.get(&Request::Service(a()))) {
        InjectError::MissingProvider { service_info } => assert_eq!(a(), service_info),
        error => panic!("{:?}", error),
    }
    match error_of(injector.get(&Request::Service(b()))) {
        InjectError::MissingDependency { service_info, dependency_info } => {
            assert_eq!(b(), service_info);
            assert_eq!(a(), dependency_info);
        }
        error => panic!("{:?}", error),
    }
    assert_eq!(0, injector.get(&Request::All(a())).unwrap().into_all().len());
}

#[test]
fn provider_with_unmet_condition_reports_it() {
    let mut provider: Provider<Value, Make, When> = number(1)
        .transient(a(), Vec::new())
        .with_condition(When(Box::new(|| false)))
        .into_provider();
    let mut injector: Injector<Value, Make, When> = Injector::builder().build();
    match error_of(provider.provide(&mut injector, &RequestInfo::new())) {
        InjectError::ConditionsNotMet { service_info } => assert_eq!(a(), service_info),
        error => panic!("{:?}", error),
    }
}

#[test]
fn two_providers_for_an_interface() {
    let interface = Interface::new(shape(), vec![a(), b()]);
    let mut builder: Builder = Injector::builder();
    builder.provide(number(1).transient(a(), Vec::new()).with_interface(&interface).unwrap());
    builder.provide(number(2).transient(b(), Vec::new()).with_interface(&interface).unwrap());

    let mut injector = builder.build();
    match error_of(injector.get(&Request::Service(shape()))) {
        InjectError::MultipleProviders { service_info, providers } => {
            assert_eq!(shape(), service_info);
            assert_eq!(2, providers);
        }
        error => panic!("{:?}", error),
    }

    let all = injector.get(&Request::All(shape())).unwrap().into_all();
    assert_eq!(2, all.len());
    assert_eq!(1, all[0].number());
    assert_eq!(2, all[1].number());
}

#[test]
fn interface_accepts_only_its_implementations() {
    let interface = Interface::new(shape(), vec![a()]);
    assert!(interface.is_interface_for(a()));
    assert!(!interface.is_interface_for(b()));

    let refused: InjectResult<_> = WithInterface::<Value, Make, When>::with_interface(
        number(2).transient(b(), Vec::new()),
        &interface,
    );
    match error_of(refused) {
        InjectError::InvalidImplementation { service_info, implementation } => {
            assert_eq!(shape(), service_info);
            assert_eq!(b(), implementation);
        }
        error => panic!("{:?}", error),
    }
}

#[test]
fn counter_counts_activations() {
    let mut builder: Builder = Injector::builder();
    builder.provide(make(|_| Value::Counter(Mutex::new(0))).singleton(count(), Vec::new()));
    builder.provide(
        make(|mut dependencies| {
            let counter = dependencies.remove(0).into_service().unwrap();
            match &*counter {
                Value::Counter(counter) => {
                    let mut counter = counter.lock().unwrap();
                    *counter += 1;
                    Value::Number(*counter)
                }
                _ => panic!("not a counter"),
            }
        })
        .transient(a(), vec![Request::Service(count())]),
    );

    let mut injector = builder.build();
    assert_eq!(1, get(&mut injector, a()).number());
    assert_eq!(2, get(&mut injector, a()).number());
    assert_eq!(3, get(&mut injector, a()).number());
}

#[test]
fn argument_end_to_end() {
    let int = ServiceInfo::of(10, "i32");
    let arg_int = ServiceInfo::of(11, "Arg<i32>");
    let mut builder: Builder = Injector::builder();
    builder.provide(
        make(|mut dependencies| {
            let arg = dependencies.remove(0).into_arg().unwrap();
            Value::Number(Arg::into_inner(arg).number())
        })
        .transient(a(), vec![Request::Arg { arg_info: arg_int, value_info: int }])
        .with_arg(int, Value::Number(42)),
    );

    let mut injector = builder.build();
    assert_eq!(42, get(&mut injector, a()).number());
}

#[test]
fn argument_of_the_wrong_type_is_invalid() {
    let int = ServiceInfo::of(10, "i32");
    let text = ServiceInfo::of(12, "&str");
    let arg_int = ServiceInfo::of(11, "Arg<i32>");

    let mut info: RequestInfo<Value> = RequestInfo::new().with_request(a());
    let name = Arg::<Value>::param_name(a(), int);
    info.insert_parameter(&name, RequestParameter::new(text, Value::Number(1)));
    match error_of(Arg::request(arg_int, int, &info)) {
        InjectError::ActivationFailed { service_info, inner } => {
            assert_eq!(arg_int, service_info);
            assert!(matches!(
                inner,
                ActivationError::Arg(ArgRequestError::ParameterTypeInvalid)
            ));
        }
        error => panic!("{:?}", error),
    }

    info.insert_parameter(&name, RequestParameter::new(int, Value::Number(2)));
    assert_eq!(2, Arg::request(arg_int, int, &info).unwrap().value.number());
}

#[test]
fn parameters_are_inserted_replaced_and_removed() {
    let text = ServiceInfo::of(12, "&str");
    let mut info: RequestInfo<Value> = RequestInfo::new();
    assert!(info.get_parameter("foo").is_none());
    assert!(info.insert_parameter("foo", RequestParameter::new(text, Value::Number(1))).is_none());
    let previous = info.insert_parameter("foo", RequestParameter::new(text, Value::Number(2)));
    assert_eq!(1, previous.unwrap().value.number());
    assert_eq!(2, info.get_parameter("foo").unwrap().value.number());
    assert!(info.get_parameter("foo").unwrap().downcast_ref(text).is_some());
    assert!(info.get_parameter("foo").unwrap().downcast_ref(a()).is_none());

    let child = info.with_request(a());
    assert_eq!(vec![a()], child.service_path().to_vec());
    assert_eq!(0, info.service_path().len());
    assert_eq!(2, child.get_parameter("foo").unwrap().value.number());

    assert_eq!(2, info.remove_parameter("foo").unwrap().value.number());
    assert!(info.get_parameter("foo").is_none());
    assert!(info.remove_parameter("foo").is_none());
    assert_eq!(2, child.get_parameter("foo").unwrap().value.number());
}

#[test]
fn merged_modules_keep_both_providers_and_the_later_parameter() {
    let interface = Interface::new(shape(), vec![a(), b()]);
    let text = ServiceInfo::of(12, "&str");

    let mut first: Module<Value, Make, When> = Module::new();
    first.provide(number(1).transient(a(), Vec::new()).with_interface(&interface).unwrap());
    first.insert_parameter("name", RequestParameter::new(text, Value::Number(10)));
    first.insert_parameter("first", RequestParameter::new(text, Value::Number(11)));

    let mut second: Module<Value, Make, When> = Module::new();
    second.provide(number(2).transient(b(), Vec::new()).with_interface(&interface).unwrap());
    second.insert_parameter("name", RequestParameter::new(text, Value::Number(20)));
    second.with_arg(a(), text, Value::Number(21));
    assert!(second.remove_parameter("nothing").is_none());

    let mut builder: Builder = Injector::builder();
    builder.add_module(first);
    builder.add_module(second);
    assert_eq!(20, builder.root_info().get_parameter("name").unwrap().value.number());
    assert_eq!(11, builder.root_info().get_parameter("first").unwrap().value.number());
    builder.root_info_mut().insert_parameter("late", RequestParameter::new(text, Value::Number(30)));

    let mut injector = builder.build();
    assert_eq!(30, injector.root_info().get_parameter("late").unwrap().value.number());
    let all = injector.get(&Request::All(shape())).unwrap().into_all();
    assert_eq!(2, all.len());
    assert_eq!(1, all[0].number());
    assert_eq!(2, all[1].number());
}

#[test]
fn owned_instances_come_from_transient_providers_only() {
    let mut builder: Builder = Injector::builder();
    builder.provide(number(1).transient(a(), Vec::new()));
    builder.provide(number(2).singleton(b(), Vec::new()));
    builder.provide(number(3).singleton(c(), Vec::new()));
    builder.provide(number(4).transient(c(), Vec::new()));

    let mut injector = builder.build();
    let owned = injector.get(&Request::Owned(a())).unwrap().into_owned().unwrap();
    assert_eq!(1, owned.number());

    match error_of(injector.get(&Request::Owned(b()))) {
        InjectError::OwnedNotSupported { service_info } => assert_eq!(b(), service_info),
        error => panic!("{:?}", error),
    }
    assert!(injector.get(&Request::OptionalOwned(shape())).unwrap().into_owned().is_none());

    match injector.get(&Request::AllOwned(c())).unwrap() {
        Resolved::AllOwned(all) => {
            assert_eq!(1, all.len());
            assert_eq!(4, all[0].number());
        }
        _ => panic!("wrong shape"),
    }
    assert_eq!(2, injector.get(&Request::All(c())).unwrap().into_all().len());
}

#[test]
fn injector_and_request_info_can_be_requested() {
    let mut builder: Builder = Injector::builder();
    builder.provide(
        make(|mut dependencies| {
            assert!(matches!(dependencies.remove(0), Resolved::Injector));
            match dependencies.remove(0) {
                Resolved::Info(info) => Value::Number(info.service_path().len() as i32),
                _ => panic!("wrong shape"),
            }
        })
        .transient(a(), vec![Request::Injector, Request::Info]),
    );
    builder.provide(
        make(|mut dependencies| {
            let first = dependencies.remove(0).into_service().unwrap();
            let second = dependencies.remove(0).into_service().unwrap();
            Value::Pair(first, second)
        })
        .transient(b(), vec![Request::Service(a()), Request::Service(a())]),
    );

    let mut injector = builder.build();
    assert_eq!(1, get(&mut injector, a()).number());
    match &*get(&mut injector, b()) {
        Value::Pair(first, second) => {
            assert_eq!(2, first.number());
            assert_eq!(2, second.number());
        }
        _ => panic!("not a pair"),
    }
}

#[test]
fn lazy_services_release_their_providers() {
    let mut builder: Builder = Injector::builder();
    builder.provide(number(1).transient(a(), Vec::new()));
    builder.provide(number(2).transient(a(), Vec::new()).with_condition(When(Box::new(|| false))));
    builder.provide(number(3).transient(a(), Vec::new()));

    let mut injector = builder.build();
    let services = injector.get_service(a(), RequestInfo::new()).unwrap();
    assert_eq!(3, services.len());
    assert!(!services.is_empty());
    assert!(matches!(
        error_of(injector.get(&Request::Service(a()))),
        InjectError::CycleDetected { .. }
    ));

    let mut iter = services.iter();
    assert_eq!(1, iter.next(&mut injector).unwrap().unwrap().number());
    iter.release(&mut injector).unwrap();

    let services = injector.get_service(a(), RequestInfo::new()).unwrap();
    let mut iter = services.iter();
    assert_eq!(1, iter.next(&mut injector).unwrap().unwrap().number());
    assert_eq!(3, iter.next(&mut injector).unwrap().unwrap().number());
    assert!(iter.next(&mut injector).is_none());
    assert!(iter.next(&mut injector).is_none());
    iter.into_services().release(&mut injector).unwrap();

    let services = injector.get_service(a(), RequestInfo::new()).unwrap();
    let mut owned = services.iter_owned();
    assert_eq!(1, owned.next(&mut injector).unwrap().unwrap().number());
    owned.release(&mut injector).unwrap();

    let services = injector.get_service(a(), RequestInfo::new()).unwrap();
    assert_eq!(2, services.get_all_owned(&mut injector).unwrap().len());
    assert_eq!(2, injector.get(&Request::All(a())).unwrap().into_all().len());
}

#[test]
fn fallible_factory_failure_is_an_activation_failure() {
    struct TryMake;
    impl ServiceFactory<Value> for TryMake {
        type Result = Result<Value, String>;

        fn invoke(
            &mut self,
            _dependencies: Vec<Resolved<Value>>,
            _request_info: &RequestInfo<Value>,
        ) -> InjectResult<Result<Value, String>> {
            Ok(Err("out of cheese".to_string()))
        }
    }
    struct Always;
    impl<F> Condition<Value, F> for Always {
        fn check(&mut self, _: &Injector<Value, F, Always>, _: &RequestInfo<Value>) -> bool {
            true
        }
    }

    let mut builder: InjectorBuilder<Value, _, Always> = Injector::builder();
    builder.provide(TryMake.fallible(a()).transient(a(), Vec::new()));
    let mut injector = builder.build();
    match error_of(injector.get(&Request::Service(a()))) {
        InjectError::ActivationFailed { service_info, inner } => {
            assert_eq!(a(), service_info);
            match inner {
                ActivationError::Factory(description) => assert_eq!("out of cheese", description),
                inner => panic!("{:?}", inner),
            }
        }
        error => panic!("{:?}", error),
    }
}

#[test]
fn deferred_request_is_made_when_asked() {
    let int = ServiceInfo::of(10, "i32");
    let arg_int = ServiceInfo::of(11, "Arg<i32>");
    let mut builder: Builder = Injector::builder();
    builder.provide(
        make(|mut dependencies| {
            let arg = dependencies.remove(0).into_arg().unwrap();
            Value::Number(arg.value.number())
        })
        .transient(a(), vec![Request::Arg { arg_info: arg_int, value_info: int }]),
    );

    let mut injector = builder.build();
    let factory = Factory::new(Request::Service(a()), &RequestInfo::new());
    assert!(factory.get(&mut injector).is_err());

    let one = factory.with_arg(a(), int, Value::Number(1));
    let mut two = factory.with_arg(a(), int, Value::Number(2));
    assert_eq!(1, one.get(&mut injector).unwrap().into_service().unwrap().number());
    assert_eq!(2, two.get(&mut injector).unwrap().into_service().unwrap().number());
    assert_eq!(1, one.get(&mut injector).unwrap().into_service().unwrap().number());
    assert!(one.request_info().get_parameter(&Arg::<Value>::param_name(a(), int)).is_some());

    two.request_info_mut().remove_parameter(&Arg::<Value>::param_name(a(), int));
    assert!(two.get(&mut injector).is_err());
}

#[test]
fn cycle_through_three_services_names_them_all() {
    let mut builder: Builder = Injector::builder();
    builder.provide(number(1).transient(a(), vec![Request::Service(b())]));
    builder.provide(number(2).transient(b(), vec![Request::Service(c())]));
    builder.provide(number(3).transient(c(), vec![Request::Service(a())]));

    let mut injector = builder.build();
    match error_of(injector.get(&Request::Service(a()))) {
        InjectError::CycleDetected { service_info, cycle } => {
            assert_eq!(a(), service_info);
            assert_eq!(vec![a(), c(), b(), a()], cycle);
        }
        error => panic!("{:?}", error),
    }
    match error_of(injector.get(&Request::Optional(b()))) {
        InjectError::CycleDetected { service_info, cycle } => {
            assert_eq!(b(), service_info);
            assert_eq!(vec![b(), a(), c(), b()], cycle);
        }
        error => panic!("{:?}", error),
    }
}

#[test]
fn group_of_requests_is_resolved_in_order() {
    let mut builder: Builder = Injector::builder();
    builder.provide(number(1).transient(a(), Vec::new()));
    builder.provide(number(2).transient(b(), Vec::new()));

    let mut injector = builder.build();
    let info = RequestInfo::new();
    let group = vec![Request::Service(b()), Request::Optional(c()), Request::Service(a())];
    let mut answers = injector.get_group(&group, &info).unwrap();
    assert_eq!(3, answers.len());
    assert_eq!(1, answers.remove(2).into_service().unwrap().number());
    assert!(answers.remove(1).into_service().is_none());
    assert_eq!(2, answers.remove(0).into_service().unwrap().number());

    let failing = vec![Request::Service(a()), Request::Service(c()), Request::Service(b())];
    match error_of(injector.get_group(&failing, &info)) {
        InjectError::MissingProvider { service_info } => assert_eq!(c(), service_info),
        error => panic!("{:?}", error),
    }
    assert_eq!(0, injector.get_group(&Vec::new(), &info).unwrap().len());
}
