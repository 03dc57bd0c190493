use runtime_injector::{
    ActivationError, ArgRequestError, Condition, InjectError, InjectResult, Injector,
    InjectorBuilder, Interface, IntoSingleton, Module, Request, RequestInfo, Resolved,
    ServiceFactory, ServiceInfo, Svc, WithArg, WithArgument, WithInterface,
};

enum Value {
    Int(i32),
    UInt(u32),
    Text(&'static str),
    Foo(i32),
    Bar(i32, &'static str),
}

impl Value {
    fn value(&self) -> i32 {
        match self {
            Value::Foo(value) => *value,
            Value::Bar(value, _) => *value,
            _ => panic!("not a Foo"),
        }
    }

    fn text(&self) -> &'static str {
        match self {
            Value::Bar(_, text) => text,
            _ => panic!("not a Bar"),
        }
    }
}

struct Make(Box<dyn FnMut(Vec<Resolved<Value>>) -> Value>);

impl ServiceFactory<Value> for Make {
    type Result = Value;

    fn invoke(
        &mut self,
        dependencies: Vec<Resolved<Value>>,
        _request_info: &RequestInfo<Value>,
    ) -> InjectResult<Value> {
        Ok((self.0)(dependencies))
    }
}

struct Always;

impl Condition<Value, Make> for Always {
    fn check(
        &mut self,
        _injector: &Injector<Value, Make, Always>,
        _request_info: &RequestInfo<Value>,
    ) -> bool {
        true
    }
}

type Builder = InjectorBuilder<Value, Make, Always>;

fn foo() -> ServiceInfo {
    ServiceInfo::of(1, "Foo")
}

fn bar() -> ServiceInfo {
    ServiceInfo::of(2, "Bar")
}

fn fooable() -> ServiceInfo {
    ServiceInfo::of(3, "dyn Fooable")
}

fn int_info() -> ServiceInfo {
    ServiceInfo::of(10, "i32")
}

fn uint_info() -> ServiceInfo {
    ServiceInfo::of(11, "u32")
}

fn text_info() -> ServiceInfo {
    ServiceInfo::of(12, "&str")
}

fn arg_int() -> ServiceInfo {
    ServiceInfo::of(20, "Arg<i32>")
}

fn arg_text() -> ServiceInfo {
    ServiceInfo::of(22, "Arg<&str>")
}

fn request_int() -> Request {
    Request::Arg { arg_info: arg_int(), value_info: int_info() }
}

fn request_text() -> Request {
    Request::Arg { arg_info: arg_text(), value_info: text_info() }
}

fn argument(resolved: Resolved<Value>) -> Svc<Value> {
    resolved.into_arg().unwrap().value
}

fn new_foo() -> Make {
    Make(Box::new(|mut dependencies| match &*argument(dependencies.remove(0)) {
        Value::Int(value) => Value::Foo(*value),
        _ => panic!("not an i32"),
    }))
}

fn new_bar() -> Make {
    Make(Box::new(|mut dependencies| {
        let number = argument(dependencies.remove(0));
        let text = argument(dependencies.remove(0));
        match (&*number, &*text) {
            (Value::Int(number), Value::Text(text)) => Value::Bar(*number, text),
            _ => panic!("wrong arguments"),
        }
    }))
}

fn get(injector: &mut Injector<Value, Make, Always>, info: ServiceInfo) -> Svc<Value> {
    injector.get(&Request::Service(info)).unwrap().into_service().unwrap()
}

fn expect_arg_error(
    result: InjectResult<Resolved<Value>>,
    expected: ArgRequestError,
) {
    match result {
        Ok(_) => unreachable!("request should have failed"),
        Err(InjectError::ActivationFailed { service_info, inner }) => {
            assert_eq!(arg_int(), service_info);
            match inner {
                ActivationError::Arg(inner) => assert_eq!(expected, inner),
                inner => panic!("unexpected error: {:?}", inner),
            }
        }
        Err(error) => panic!("unexpected error: {:?}", error),
    }
}

#[test]
fn arg_request_fails_if_missing_arg() {
    // Create a module with a single service.
    let mut module = Module::new();
    module.provide(new_foo().singleton(foo(), vec![request_int()]));

    // Create an injector with the module.
    let mut builder: Builder = Injector::builder();
    builder.add_module(module);

    // Attempt to get the service.
    let mut injector = builder.build();
    let result = injector.get(&Request::Service(foo()));
    expect_arg_error(result, ArgRequestError::MissingParameter);
}

#[test]
fn arg_request_fails_if_arg_has_no_parent_request() {
    let builder: Builder = Injector::builder();
    let mut injector = builder.build();
    let result = injector.get(&request_int());
    expect_arg_error(result, ArgRequestError::NoParentRequest);
}

#[test]
fn arg_request_fails_if_arg_is_wrong_type() {
    // The argument is given with the provider.
    let mut builder: Builder = Injector::builder();
    builder.provide(
        new_foo().singleton(foo(), vec![request_int()]).with_arg(uint_info(), Value::UInt(42)),
    );

    let mut injector = builder.build();
    let result = injector.get(&Request::Service(foo()));
    expect_arg_error(result, ArgRequestError::MissingParameter);

    // The argument is given with the module.
    let mut module = Module::new();
    module.provide(new_foo().singleton(foo(), vec![request_int()]));
    module.with_arg(foo(), uint_info(), Value::UInt(42));

    let mut builder: Builder = Injector::builder();
    builder.add_module(module);

    let mut injector = builder.build();
    let result = injector.get(&Request::Service(foo()));
    expect_arg_error(result, ArgRequestError::MissingParameter);
}

#[test]
fn arg_request_succeeds_if_arg_is_correct_type() {
    // The argument is given with the provider.
    let mut builder: Builder = Injector::builder();
    builder.provide(new_foo().singleton(foo(), vec![request_int()]).with_arg(int_info(), Value::Int(42)));

    let mut injector = builder.build();
    let service = get(&mut injector, foo());
    assert_eq!(42, service.value());

    // The argument is given with the module.
    let mut module = Module::new();
    module.provide(new_foo().singleton(foo(), vec![request_int()]));
    module.with_arg(foo(), int_info(), Value::Int(42));

    let mut builder: Builder = Injector::builder();
    builder.add_module(module);

    let mut injector = builder.build();
    let service = get(&mut injector, foo());
    assert_eq!(42, service.value());
}

#[test]
fn request_succeeds_with_interface_provider() {
    let interface = Interface::new(fooable(), vec![foo()]);

    let mut builder: Builder = Injector::builder();
    builder.provide(
        new_foo()
            .singleton(foo(), vec![request_int()])
            .with_arg(int_info(), Value::Int(42))
            .with_interface(&interface)
            .unwrap(),
    );

    let mut injector = builder.build();
    let service = get(&mut injector, fooable());
    assert_eq!(42, service.value());
}

#[test]
fn request_succeeds_with_multiple_providers() {
    let mut builder: Builder = Injector::builder();
    builder.provide(new_foo().singleton(foo(), vec![request_int()]).with_arg(int_info(), Value::Int(1)));
    builder.provide(new_foo().singleton(foo(), vec![request_int()]).with_arg(int_info(), Value::Int(2)));

    let mut injector = builder.build();
    let foos = injector.get(&Request::All(foo())).unwrap().into_all();
    assert_eq!(2, foos.len());
    assert!(foos.iter().any(|foo| foo.value() == 1));
    assert!(foos.iter().any(|foo| foo.value() == 2));
}

#[test]
fn request_succeeds_with_multiple_args() {
    let mut builder: Builder = Injector::builder();
    builder.provide(
        new_bar()
            .singleton(bar(), vec![request_int(), request_text()])
            .with_arg(int_info(), Value::Int(1))
            .with_arg(text_info(), Value::Text("foo")),
    );

    let mut injector = builder.build();
    let bar = get(&mut injector, bar());
    assert_eq!(1, bar.value());
    assert_eq!("foo", bar.text());
}
