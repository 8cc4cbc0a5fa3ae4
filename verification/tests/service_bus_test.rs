use stateless_architecture::{Blob, Json, JsonNumber, Service, ServiceError, ServiceManifest, ServiceRegistry};

fn obj(pairs: Vec<(&str, Json)>) -> Json {
    let mut j = Json::new_object();
    for (k, v) in pairs {
        j.insert(k, v);
    }
    j
}

fn num(v: i64) -> Json {
    if v >= 0 {
        Json::Number(JsonNumber::PosInt(v as u64))
    } else {
        Json::Number(JsonNumber::NegInt(v))
    }
}

fn manifest(name: &str, description: &str) -> ServiceManifest {
    ServiceManifest {
        name: name.into(),
        version: "0.1.0".into(),
        description: description.into(),
        input_schema: None,
        output_schema: None,
        capabilities: vec![],
    }
}

/// A test service that increments a counter in the blob payload.
struct CounterService;

impl Service for CounterService {
    fn name(&self) -> &str {
        "counter"
    }
    fn version(&self) -> &str {
        "0.1.0"
    }
    fn invoke(&self, blob: &Blob, input: &Json) -> Result<(Blob, Json), ServiceError> {
        let delta = input.get("delta").and_then(|v| v.as_i64()).unwrap_or(1);
        let current = blob.payload.get("count").and_then(|v| v.as_i64()).unwrap_or(0);
        let new_count = current + delta;
        let new_payload = obj(vec![("count", num(new_count))]);
        let new_blob = blob.child(new_payload).map_err(ServiceError::Blob)?;
        Ok((new_blob, obj(vec![("result", num(new_count))])))
    }
}

/// A service that always fails.
struct FailingService;

impl Service for FailingService {
    fn name(&self) -> &str {
        "failing"
    }
    fn version(&self) -> &str {
        "0.1.0"
    }
    fn invoke(&self, _blob: &Blob, _input: &Json) -> Result<(Blob, Json), ServiceError> {
        Err(ServiceError::UnknownService("inner".into()))
    }
}

#[test]
fn counter_service_increments() {
    let mut reg = ServiceRegistry::new();
    reg.register(Box::new(CounterService), manifest("counter", "test counter"));

    let blob = Blob::new("test://schema", obj(vec![("count", num(0))]));
    let (new_blob, output) = reg.invoke("counter", &blob, &obj(vec![("delta", num(5))])).unwrap();

    assert_eq!(new_blob.payload.get("count").and_then(|v| v.as_i64()), Some(5));
    assert_eq!(output.get("result").and_then(|v| v.as_i64()), Some(5));
}

#[test]
fn registry_returns_unknown_service_error() {
    let reg = ServiceRegistry::new();
    let blob = Blob::new("test://schema", Json::new_object());
    match reg.invoke("nonexistent", &blob, &Json::new_object()) {
        Err(ServiceError::UnknownService(_)) => (),
        other => panic!("expected UnknownService, got {:?}", other.map(|(_, o)| o)),
    }
}

#[test]
fn service_is_deterministic() {
    let mut reg = ServiceRegistry::new();
    reg.register(Box::new(CounterService), manifest("counter", "test"));

    let blob = Blob::new("test://schema", obj(vec![("count", num(10))]));
    let (b1, o1) = reg.invoke("counter", &blob, &obj(vec![("delta", num(1))])).unwrap();
    let (b2, o2) = reg.invoke("counter", &blob, &obj(vec![("delta", num(1))])).unwrap();

    assert_eq!(b1.payload, b2.payload);
    assert_eq!(o1, o2);
}

#[test]
fn registry_lookup_and_list() {
    let mut reg = ServiceRegistry::new();
    assert!(reg.get("counter").is_none());
    reg.register(Box::new(CounterService), manifest("counter", "first"));
    reg.register(Box::new(FailingService), manifest("failing", "second"));
    reg.register(Box::new(CounterService), manifest("counter", "replaced"));
    assert_eq!(reg.get("counter").map(|s| s.name()), Some("counter"));
    assert_eq!(reg.get("failing").map(|s| s.name()), Some("failing"));
    let listed: Vec<(String, String)> =
        reg.list().iter().map(|m| (m.name.clone(), m.description.clone())).collect();
    assert_eq!(
        listed,
        vec![("counter".to_string(), "replaced".to_string()), ("failing".to_string(), "second".to_string())]
    );
}

#[test]
fn registry_reports_a_failing_service_by_name() {
    let mut reg = ServiceRegistry::default();
    reg.register(Box::new(FailingService), manifest("failing", "fails"));
    let blob = Blob::new("test://schema", Json::new_object());
    match reg.invoke("failing", &blob, &Json::Null) {
        Err(e) => {
            assert_eq!(
                e,
                ServiceError::Invocation {
                    name: "failing".into(),
                    reason: "unknown service: inner".into()
                }
            );
            assert_eq!(e.message(), "service failing failed: unknown service: inner");
        }
        Ok(_) => panic!("expected an invocation error"),
    }
}

#[test]
fn service_error_messages() {
    let e: ServiceError = stateless_architecture::BlobError::Validation("x".into()).into();
    assert_eq!(e.message(), "blob error: validation failed: x");
    assert_eq!(ServiceError::UnknownService("s".into()).message(), "unknown service: s");
}

#[test]
fn reregistering_replaces_the_service() {
    let mut reg = ServiceRegistry::new();
    reg.register(Box::new(CounterService), manifest("svc", "first"));
    reg.register(Box::new(FailingService), manifest("svc", "second"));
    let blob = Blob::new("test://schema", Json::new_object());
    assert!(matches!(reg.invoke("svc", &blob, &Json::Null), Err(ServiceError::Invocation { .. })));
    assert_eq!(reg.get("svc").map(|s| s.name()), Some("failing"));
}
