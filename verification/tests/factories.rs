use runtime_injector::{
    constant, Condition, FallibleServiceFactory, InjectResult, Injector, InjectorBuilder,
    IntoFallible, IntoSingleton, IntoTransient, MappedServiceFactory, Request, RequestInfo,
    Resolved, ServiceFactory, ServiceInfo, Svc,
};
use std::sync::Mutex;

enum Value {
    Foo,
    Bool(bool),
    Switch(Mutex<bool>),
    Locked(Mutex<Raw>),
}

impl Value {
    fn is_true(&self) -> bool {
        match self {
            Value::Bool(value) => *value,
            Value::Switch(value) => *value.lock().unwrap(),
            _ => panic!("not a bool"),
        }
    }
}

struct Raw;

struct TryMake(Box<dyn FnMut(Vec<Resolved<Value>>) -> Result<Value, String>>);

impl ServiceFactory<Value> for TryMake {
    type Result = Result<Value, String>;

    fn invoke(
        &mut self,
        dependencies: Vec<Resolved<Value>>,
        _request_info: &RequestInfo<Value>,
    ) -> InjectResult<Result<Value, String>> {
        Ok((self.0)(dependencies))
    }
}

type Fallible = FallibleServiceFactory<TryMake>;

struct Always;

impl<F> Condition<Value, F> for Always {
    fn check(
        &mut self,
        _injector: &Injector<Value, F, Always>,
        _request_info: &RequestInfo<Value>,
    ) -> bool {
        true
    }
}

type Builder = InjectorBuilder<Value, Fallible, Always>;

fn foo_info() -> ServiceInfo {
    ServiceInfo::of(1, "Foo")
}

fn boolean() -> ServiceInfo {
    ServiceInfo::of(2, "bool")
}

fn switch() -> ServiceInfo {
    ServiceInfo::of(3, "Mutex<bool>")
}

fn make_foo() -> TryMake {
    TryMake(Box::new(|mut dependencies| {
        let succeed = dependencies.remove(0).into_service().unwrap();
        if succeed.is_true() {
            Ok(Value::Foo)
        } else {
            Err("An error occurred while creating a Foo".to_string())
        }
    }))
}

fn read_switch() -> TryMake {
    TryMake(Box::new(|mut dependencies| {
        let should_succeed = dependencies.remove(0).into_service().unwrap();
        Ok(Value::Bool(should_succeed.is_true()))
    }))
}

fn set_switch(injector: &mut Injector<Value, Fallible, Always>, value: bool) {
    let should_succeed: Svc<Value> =
        injector.get(&Request::Service(switch())).unwrap().into_service().unwrap();
    match &*should_succeed {
        Value::Switch(switch) => *switch.lock().unwrap() = value,
        _ => panic!("not a switch"),
    }
}

#[test]
fn test_fallible_service_factory_success() {
    let mut builder: Builder = Injector::builder();
    builder.provide(make_foo().fallible(foo_info()).transient(foo_info(), vec![Request::Service(boolean())]));
    builder.provide(constant(boolean(), Value::Bool(true)));

    let mut injector = builder.build();
    let _foo: Svc<Value> =
        injector.get(&Request::Service(foo_info())).unwrap().into_service().unwrap();
}

#[test]
fn test_fallible_service_factory_failure() {
    let mut builder: Builder = Injector::builder();
    builder.provide(make_foo().fallible(foo_info()).transient(foo_info(), vec![Request::Service(boolean())]));
    builder.provide(constant(boolean(), Value::Bool(false)));

    let mut injector = builder.build();
    let foo_result = injector.get(&Request::Service(foo_info()));
    assert!(foo_result.is_err());
}

#[test]
fn test_fallible_service_factory_failure_after_success() {
    let mut builder: Builder = Injector::builder();
    builder.provide(make_foo().fallible(foo_info()).transient(foo_info(), vec![Request::Service(boolean())]));
    builder.provide(constant(switch(), Value::Switch(Mutex::new(true))));
    builder.provide(
        read_switch().fallible(boolean()).transient(boolean(), vec![Request::Service(switch())]),
    );

    // First request succeeds
    let mut injector = builder.build();
    let foo_result = injector.get(&Request::Service(foo_info()));
    assert!(foo_result.is_ok());

    // Second request fails
    set_switch(&mut injector, false);
    let foo_result = injector.get(&Request::Service(foo_info()));
    assert!(foo_result.is_err());
}

#[test]
fn test_fallible_service_factory_success_after_failure() {
    let mut builder: Builder = Injector::builder();
    builder.provide(make_foo().fallible(foo_info()).transient(foo_info(), vec![Request::Service(boolean())]));
    builder.provide(constant(switch(), Value::Switch(Mutex::new(false))));
    builder.provide(
        read_switch().fallible(boolean()).transient(boolean(), vec![Request::Service(switch())]),
    );

    // First request fails
    let mut injector = builder.build();
    let foo_result = injector.get(&Request::Service(foo_info()));
    assert!(foo_result.is_err());

    // Second request succeeds
    set_switch(&mut injector, true);
    let foo_result = injector.get(&Request::Service(foo_info()));
    assert!(foo_result.is_ok());
}

struct MakeRaw;

impl ServiceFactory<Value> for MakeRaw {
    type Result = Raw;

    fn invoke(
        &mut self,
        _dependencies: Vec<Resolved<Value>>,
        _request_info: &RequestInfo<Value>,
    ) -> InjectResult<Raw> {
        Ok(Raw)
    }
}

fn lock(raw: Raw) -> Value {
    Value::Locked(Mutex::new(raw))
}

type Mapped = MappedServiceFactory<Value, Raw, MakeRaw, fn(Raw) -> Value>;

#[test]
fn foo() {
    let locked = ServiceInfo::of(4, "Mutex<Foo>");

    let mut builder: InjectorBuilder<Value, Mapped, Always> = Injector::builder();
    builder.provide(
        MappedServiceFactory::new(MakeRaw, lock as fn(Raw) -> Value).singleton(locked, Vec::new()),
    );

    let mut injector = builder.build();
    let service = injector.get(&Request::Service(locked)).unwrap().into_service().unwrap();
    assert!(matches!(&*service, Value::Locked(_)));
}
