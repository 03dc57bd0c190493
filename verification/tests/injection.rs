use runtime_injector::{
    constant, Condition, InjectError, InjectResult, Injector, InjectorBuilder, Interface,
    IntoSingleton, IntoTransient, ProviderRegistry, Request, RequestInfo, Resolved,
    ServiceFactory, ServiceInfo, Svc, TypedProvider, WithCondition, WithInterface,
};
use std::sync::atomic::{AtomicBool, Ordering};
use std::sync::Mutex;

enum Value {
    Svc1(i32),
    Svc2 { dep1: Svc<Value> },
    Svc3 { dep1: Svc<Value>, _dep2: Svc<Value> },
    Svc4 { foo: Svc<Value> },
    Counter(Mutex<i32>),
    Flag(AtomicBool),
    Unit,
    Foo(i32),
    LockedFoo(Mutex<i32>),
    Holder(Svc<Value>),
    Number(u32),
    Text(&'static str),
    Increment(Box<dyn Fn(u32) -> u32>),
    Describe(Box<dyn Fn(&'static str) -> String>),
    Float(f32),
}

impl Value {
    fn number(&self) -> i32 {
        match self {
            Value::Svc1(value) => *value,
            Value::Foo(value) => *value,
            _ => panic!("not a number"),
        }
    }

    fn dep1(&self) -> &Svc<Value> {
        match self {
            Value::Svc2 { dep1 } => dep1,
            Value::Svc3 { dep1, .. } => dep1,
            Value::Svc4 { foo } => foo,
            _ => panic!("no dependency"),
        }
    }

    fn counter(&self) -> &Mutex<i32> {
        match self {
            Value::Counter(counter) => counter,
            Value::LockedFoo(counter) => counter,
            _ => panic!("not a counter"),
        }
    }

    fn flag(&self) -> &AtomicBool {
        match self {
            Value::Flag(flag) => flag,
            _ => panic!("not a flag"),
        }
    }

    fn bar(&self) -> i32 {
        match self {
            Value::Svc1(_) => 4,
            Value::Svc2 { .. } => 5,
            _ => panic!("not a Foo"),
        }
    }
}

struct Make(Box<dyn FnMut(Vec<Resolved<Value>>) -> Value>);

impl ServiceFactory<Value> for Make {
    type Result = Value;

    fn invoke(
        &mut self,
        dependencies: Vec<Resolved<Value>>,
        _request_info: &RequestInfo<Value>,
    ) -> InjectResult<Value> {
        Ok((self.0)(dependencies))
    }
}

struct When(Box<dyn FnMut() -> bool>);

impl Condition<Value, Make> for When {
    fn check(
        &mut self,
        _injector: &Injector<Value, Make, When>,
        _request_info: &RequestInfo<Value>,
    ) -> bool {
        (self.0)()
    }
}

type Builder = InjectorBuilder<Value, Make, When>;

fn make(factory: impl FnMut(Vec<Resolved<Value>>) -> Value + 'static) -> Make {
    Make(Box::new(factory))
}

fn services(dependencies: Vec<Resolved<Value>>) -> Vec<Svc<Value>> {
    dependencies
        .into_iter()
        .map(|dependency| dependency.into_service().unwrap())
        .collect()
}

fn get(injector: &mut Injector<Value, Make, When>, info: ServiceInfo) -> Svc<Value> {
    injector.get(&Request::Service(info)).unwrap().into_service().unwrap()
}

fn svc1() -> ServiceInfo {
    ServiceInfo::of(1, "Svc1")
}

fn svc2() -> ServiceInfo {
    ServiceInfo::of(2, "Svc2")
}

fn svc3() -> ServiceInfo {
    ServiceInfo::of(3, "Svc3")
}

fn svc4() -> ServiceInfo {
    ServiceInfo::of(4, "Svc4")
}

fn counter() -> ServiceInfo {
    ServiceInfo::of(5, "Mutex<i32>")
}

fn foo() -> ServiceInfo {
    ServiceInfo::of(6, "Foo")
}

fn bar() -> ServiceInfo {
    ServiceInfo::of(7, "Bar")
}

fn dyn_foo() -> ServiceInfo {
    ServiceInfo::of(8, "dyn Foo")
}

fn flag() -> ServiceInfo {
    ServiceInfo::of(9, "AtomicBool")
}

fn default_svc1() -> Make {
    make(|_| Value::Svc1(0))
}

fn new_svc2() -> Make {
    make(|dependencies| {
        let mut dependencies = services(dependencies);
        Value::Svc2 { dep1: dependencies.remove(0) }
    })
}

fn new_svc3() -> Make {
    make(|dependencies| {
        let mut dependencies = services(dependencies);
        let dep1 = dependencies.remove(0);
        let dep2 = dependencies.remove(0);
        Value::Svc3 { dep1, _dep2: dep2 }
    })
}

fn make_svc1() -> Make {
    make(|dependencies| {
        let counter = services(dependencies).remove(0);
        let mut counter = counter.counter().lock().unwrap();
        *counter += 1;
        Value::Svc1(*counter)
    })
}

fn provide_svc2_and_svc3(builder: &mut Builder) {
    builder.provide(new_svc2().transient(svc2(), vec![Request::Service(svc1())]));
    builder.provide(
        new_svc3().transient(svc3(), vec![Request::Service(svc1()), Request::Service(svc2())]),
    );
}

#[test]
fn can_make_svc1() {
    let mut builder: Builder = Injector::builder();
    builder.provide(default_svc1().transient(svc1(), Vec::new()));

    let mut injector = builder.build();
    let _service: Svc<Value> = get(&mut injector, svc1());
}

#[test]
fn cant_make_svc1_when_no_provider() {
    let mut injector: Injector<Value, Make, When> = Injector::builder().build();
    match injector.get(&Request::Service(svc1())) {
        Err(InjectError::MissingProvider { service_info }) if service_info == svc1() => {}
        Err(error) => panic!("{:?}", error),
        Ok(_) => unreachable!(),
    }

    let svc = injector.get(&Request::Optional(svc1())).unwrap().into_service();
    match svc {
        None => {}
        Some(_) => panic!("service should not have been created"),
    }
}

#[test]
fn can_make_svc3() {
    let mut builder: Builder = Injector::builder();
    builder.provide(default_svc1().transient(svc1(), Vec::new()));
    provide_svc2_and_svc3(&mut builder);

    let mut injector = builder.build();
    let _service: Svc<Value> = get(&mut injector, svc3());
}

#[test]
fn cant_make_svc3_when_no_provider_for_dependency() {
    let mut builder: Builder = Injector::builder();
    provide_svc2_and_svc3(&mut builder);

    let mut injector = builder.build();
    match injector.get(&Request::Service(svc3())) {
        Err(InjectError::MissingDependency { dependency_info, .. })
            if dependency_info == svc1() => {}
        Err(error) => panic!("{:?}", error),
        Ok(_) => unreachable!("service should not be able to be activated"),
    }
}

#[test]
fn singleton() {
    let mut builder: Builder = Injector::builder();
    builder.provide(make(|_| Value::Counter(Mutex::new(0))).singleton(counter(), Vec::new()));
    builder.provide(make_svc1().transient(svc1(), vec![Request::Service(counter())]));
    provide_svc2_and_svc3(&mut builder);

    let mut injector = builder.build();
    let svc1 = get(&mut injector, svc1());
    let svc2 = get(&mut injector, svc2());
    let svc3 = get(&mut injector, svc3());

    assert_ne!(svc1.number(), svc2.dep1().number());
    assert_ne!(svc1.number(), svc3.dep1().number());
    assert_ne!(svc2.dep1().number(), svc3.dep1().number());
}

#[test]
fn constants() {
    let mut builder: Builder = Injector::builder();
    builder.provide(constant(counter(), Value::Counter(Mutex::new(0))));
    builder.provide(make_svc1().transient(svc1(), vec![Request::Service(counter())]));
    provide_svc2_and_svc3(&mut builder);

    let mut injector = builder.build();
    let svc1 = get(&mut injector, svc1());
    let svc2 = get(&mut injector, svc2());
    let svc3 = get(&mut injector, svc3());

    assert_ne!(svc1.number(), svc2.dep1().number());
    assert_ne!(svc1.number(), svc3.dep1().number());
    assert_ne!(svc2.dep1().number(), svc3.dep1().number());
}

#[test]
fn interfaces() {
    let interface = Interface::new(dyn_foo(), vec![svc1(), svc2()]);

    // Svc1
    let mut builder: Builder = Injector::builder();
    builder.provide(
        default_svc1().transient(svc1(), Vec::new()).with_interface(&interface).unwrap(),
    );

    let mut injector = builder.build();
    let svc = get(&mut injector, dyn_foo());

    assert_eq!(4, svc.bar());

    // Svc2
    let mut builder: Builder = Injector::builder();
    builder.provide(default_svc1().transient(svc1(), Vec::new()));
    builder.provide(
        new_svc2()
            .transient(svc2(), vec![Request::Service(svc1())])
            .with_interface(&interface)
            .unwrap(),
    );

    let mut injector = builder.build();
    let svc = get(&mut injector, dyn_foo());

    assert_eq!(5, svc.bar());

    // Svc4
    let mut builder: Builder = Injector::builder();
    builder.provide(default_svc1().transient(svc1(), Vec::new()));
    builder.provide(
        new_svc2()
            .transient(svc2(), vec![Request::Service(svc1())])
            .with_interface(&interface)
            .unwrap(),
    );
    builder.provide(
        make(|dependencies| Value::Svc4 { foo: services(dependencies).remove(0) })
            .transient(svc4(), vec![Request::Service(dyn_foo())]),
    );

    let mut injector = builder.build();
    let svc = get(&mut injector, svc4());

    assert_eq!(5, svc.dep1().bar());
}

#[test]
fn multi_injection() {
    let interface = Interface::new(dyn_foo(), vec![svc1(), svc2(), svc3()]);

    let mut builder: Builder = Injector::builder();
    builder.provide(
        default_svc1().transient(svc1(), Vec::new()).with_interface(&interface).unwrap(),
    );

    let mut injector = builder.build();
    let foos = injector.get_service(dyn_foo(), RequestInfo::new()).unwrap();
    assert_eq!(1, foos.len());

    let foos: Vec<Svc<Value>> = foos.get_all(&mut injector).unwrap();
    assert_eq!(1, foos.len());
}

#[test]
fn injector_returns_error_on_cycles() {
    let mut builder: Builder = Injector::builder();
    builder.provide(
        make(|dependencies| Value::Holder(services(dependencies).remove(0)))
            .singleton(foo(), vec![Request::Service(bar())]),
    );
    builder.provide(
        make(|dependencies| Value::Holder(services(dependencies).remove(0)))
            .singleton(bar(), vec![Request::Service(foo())]),
    );

    let mut injector = builder.build();
    match injector.get(&Request::Service(foo())) {
        Err(InjectError::CycleDetected { service_info, cycle }) if service_info == foo() => {
            assert_eq!(3, cycle.len());
            assert_eq!(foo(), cycle[0]);
            assert_eq!(bar(), cycle[1]);
            assert_eq!(foo(), cycle[2]);
        }
        Ok(_) => panic!("somehow created a Foo with a cyclic dependency"),
        Err(error) => panic!("{:?}", error),
    }
}

#[test]
fn injector_get_exact_returns_error_on_invalid_provider() {
    let int = ServiceInfo::of(20, "i32");
    let float = ServiceInfo::of(21, "f32");

    let mut registry: ProviderRegistry<Value, Make, When> = ProviderRegistry::new();
    registry.add_provider_for(int, constant(float, Value::Float(1.2f32)).into_provider());

    let mut injector = Injector::new(registry, RequestInfo::new());
    let bad = injector.get_exact(int, &RequestInfo::new());

    match bad {
        Err(InjectError::InvalidProvider { service_info }) if service_info == int => {}
        Err(error) => panic!("{:?}", error),
        Ok(value) => match &*value {
            Value::Float(value) => {
                panic!("Value of {} was provided by an invalid provider", value)
            }
            _ => unreachable!(),
        },
    }
}

#[test]
fn service_initialized_only_on_iteration() {
    let counter_info = ServiceInfo::of(30, "Counter");

    // Setup injector
    let mut builder: Builder = Injector::builder();
    builder.provide(
        make(|dependencies| {
            let flag = services(dependencies).remove(0);
            flag.flag().store(true, Ordering::Relaxed);
            Value::Unit
        })
        .singleton(counter_info, vec![Request::Service(flag())]),
    );
    builder.provide(constant(flag(), Value::Flag(AtomicBool::new(false))));

    let mut injector = builder.build();
    let services = injector.get_service(counter_info, RequestInfo::new()).unwrap();
    let initialized = get(&mut injector, flag());

    // Check that it isn't initialized yet
    assert!(!initialized.flag().load(Ordering::Relaxed));

    // Check that it is initialized after iteration
    let mut iter = services.iter();
    let _next = iter.next(&mut injector).unwrap().unwrap();
    assert!(initialized.flag().load(Ordering::Relaxed));

    iter.release(&mut injector).unwrap();
    assert!(injector.get(&Request::Service(counter_info)).is_ok());
}

#[test]
fn singleton_singleton_provider_provides_correct_value() {
    let mut builder: Builder = Injector::builder();
    builder.provide(make(|_| Value::Foo(42)).singleton(foo(), Vec::new()));

    let mut injector = builder.build();
    let foo = get(&mut injector, foo());
    assert_eq!(42, foo.number());
}

#[test]
fn singleton_singleton_provider_returns_mutated_value() {
    let mut builder: Builder = Injector::builder();
    builder.provide(make(|_| Value::LockedFoo(Mutex::new(0))).singleton(foo(), Vec::new()));

    let mut injector = builder.build();
    let first = get(&mut injector, foo());
    let mut locked = first.counter().lock().unwrap();
    *locked = 42;
    drop(locked);

    let second = get(&mut injector, foo());
    let locked = second.counter().lock().unwrap();
    assert_eq!(42, *locked);
}

#[test]
fn test_condition_true() {
    let mut builder: Builder = Injector::builder();
    builder.provide(
        make(|_| Value::Foo(0))
            .singleton(foo(), Vec::new())
            .with_condition(When(Box::new(|| true))),
    );

    let mut injector = builder.build();
    let foo = injector.get(&Request::Optional(foo())).unwrap().into_service();

    assert!(foo.is_some());
}

#[test]
fn test_condition_true_once() {
    let mut builder: Builder = Injector::builder();
    let mut provided = false;
    builder.provide(make(|_| Value::Foo(0)).singleton(foo(), Vec::new()).with_condition(When(
        Box::new(move || {
            if provided {
                return false;
            }
            provided = true;
            true
        }),
    )));

    // Create first value
    let mut injector = builder.build();
    let first = injector.get(&Request::Optional(foo())).unwrap().into_service();
    assert!(first.is_some());

    // Create second value
    let second = injector.get(&Request::Optional(foo())).unwrap().into_service();
    assert!(second.is_none());
}

#[test]
fn test_condition_true_after_false() {
    let mut builder: Builder = Injector::builder();
    let mut provided = false;
    builder.provide(make(|_| Value::Foo(0)).singleton(foo(), Vec::new()).with_condition(When(
        Box::new(move || {
            if provided {
                return true;
            }
            provided = true;
            false
        }),
    )));

    // Create first value
    let mut injector = builder.build();
    let first = injector.get(&Request::Optional(foo())).unwrap().into_service();
    assert!(first.is_none());

    // Create second value
    let second = injector.get(&Request::Optional(foo())).unwrap().into_service();
    assert!(second.is_some());
}

#[test]
fn a_impl_can_be_provided_as_a() {
    let a = ServiceInfo::of(40, "dyn A");
    let a_impl = ServiceInfo::of(41, "AImpl");
    let interface = Interface::new(a, vec![a_impl]);

    let mut builder: Builder = Injector::builder();
    builder.provide(constant(a_impl, Value::Unit).with_interface(&interface).unwrap());

    let mut injector = builder.build();
    let _a: Svc<Value> = get(&mut injector, a);
}

#[test]
fn b_impl_can_be_provided_as_b() {
    let b_u32 = ServiceInfo::of(50, "dyn B<u32>");
    let b_str = ServiceInfo::of(51, "dyn B<&str>");
    let b_impl_u32 = ServiceInfo::of(52, "BImpl<u32>");
    let b_impl_str = ServiceInfo::of(53, "BImpl<&str>");

    let mut builder: Builder = Injector::builder();
    builder.provide(
        constant(b_impl_u32, Value::Number(42))
            .with_interface(&Interface::new(b_u32, vec![b_impl_u32]))
            .unwrap(),
    );
    builder.provide(
        constant(b_impl_str, Value::Text("hello, world!"))
            .with_interface(&Interface::new(b_str, vec![b_impl_str]))
            .unwrap(),
    );

    let mut injector = builder.build();
    let b = get(&mut injector, b_u32);
    match &*b {
        Value::Number(value) => assert_eq!(42, *value),
        _ => panic!("wrong implementation"),
    }

    let b = get(&mut injector, b_str);
    match &*b {
        Value::Text(value) => assert_eq!("hello, world!", *value),
        _ => panic!("wrong implementation"),
    }
}

#[test]
fn c_impl_can_be_provided_as_c() {
    let c_u32 = ServiceInfo::of(60, "dyn C<u32, Out = u32>");
    let c_str = ServiceInfo::of(61, "dyn C<&str, Out = String>");
    let c_impl_u32 = ServiceInfo::of(62, "CImpl<u32, u32>");
    let c_impl_str = ServiceInfo::of(63, "CImpl<&str, String>");

    let mut builder: Builder = Injector::builder();
    builder.provide(
        constant(c_impl_u32, Value::Increment(Box::new(|x| x + 1)))
            .with_interface(&Interface::new(c_u32, vec![c_impl_u32]))
            .unwrap(),
    );
    builder.provide(
        constant(c_impl_str, Value::Describe(Box::new(|x| format!("input: {x}"))))
            .with_interface(&Interface::new(c_str, vec![c_impl_str]))
            .unwrap(),
    );

    let mut injector = builder.build();
    let c = get(&mut injector, c_u32);
    match &*c {
        Value::Increment(function) => assert_eq!(43, function(42)),
        _ => panic!("wrong implementation"),
    }

    let c = get(&mut injector, c_str);
    match &*c {
        Value::Describe(function) => assert_eq!("input: 42", function("42")),
        _ => panic!("wrong implementation"),
    }
}
