use stateless_architecture::{
    Blob, BusError, CapabilityToken, Endpoint, Json, JsonNumber, Service, ServiceBus, ServiceError,
};

fn obj(pairs: Vec<(&str, Json)>) -> Json {
    let mut j = Json::new_object();
    for (k, v) in pairs {
        j.insert(k, v);
    }
    j
}

fn num(v: i64) -> Json {
    if v >= 0 {
        Json::Number(JsonNumber::PosInt(v as u64))
    } else {
        Json::Number(JsonNumber::NegInt(v))
    }
}

struct EchoService;

impl Service for EchoService {
    fn name(&self) -> &str {
        "echo"
    }
    fn version(&self) -> &str {
        "0.1.0"
    }
    fn invoke(&self, blob: &Blob, input: &Json) -> Result<(Blob, Json), ServiceError> {
        let new_blob = blob
            .child(obj(vec![("echo", input.duplicate())]))
            .map_err(|e| ServiceError::Invocation { name: "echo".into(), reason: e.message() })?;
        Ok((new_blob, input.duplicate()))
    }
}

struct CounterService;

impl Service for CounterService {
    fn name(&self) -> &str {
        "counter"
    }
    fn version(&self) -> &str {
        "0.1.0"
    }
    fn invoke(&self, blob: &Blob, input: &Json) -> Result<(Blob, Json), ServiceError> {
        let delta = input.get("delta").and_then(|v| v.as_i64()).unwrap_or(1);
        let current = blob.payload.get("count").and_then(|v| v.as_i64()).unwrap_or(0);
        let new_count = current + delta;
        let new_blob = blob
            .child(obj(vec![("count", num(new_count))]))
            .map_err(|e| ServiceError::Invocation { name: "counter".into(), reason: e.message() })?;
        Ok((new_blob, obj(vec![("result", num(new_count))])))
    }
}

struct FailingService;

impl Service for FailingService {
    fn name(&self) -> &str {
        "failing"
    }
    fn version(&self) -> &str {
        "0.1.0"
    }
    fn invoke(&self, _blob: &Blob, _input: &Json) -> Result<(Blob, Json), ServiceError> {
        Err(ServiceError::UnknownService("x".into()))
    }
}

fn token(scope: &[&str]) -> CapabilityToken {
    CapabilityToken::issue(
        "user:alice",
        "service:echo",
        scope.iter().map(|s| s.to_string()).collect(),
        None,
        None,
    )
}

#[test]
fn service_bus_local_invoke() {
    let mut bus = ServiceBus::new();
    bus.register("echo", Box::new(EchoService));

    let token = token(&["invoke"]);
    let blob = Blob::new("test://schema", obj(vec![("x", num(1))]));
    let (new_blob, output) = bus
        .invoke("echo", &blob, &obj(vec![("msg", Json::from_str_value("hello"))]), &token)
        .unwrap();

    let echoed = new_blob.payload.get("echo").and_then(|e| e.get("msg")).and_then(|m| m.as_str());
    assert_eq!(echoed, Some("hello"));
    assert_eq!(output.get("msg").and_then(|m| m.as_str()), Some("hello"));
}

#[test]
fn capability_rejects_wrong_scope() {
    let mut bus = ServiceBus::new();
    bus.register("echo", Box::new(EchoService));

    // Token has "stream" scope, but we're calling "invoke"
    let token = token(&["stream"]);
    let blob = Blob::new("test://schema", Json::new_object());

    match bus.invoke("echo", &blob, &Json::new_object(), &token) {
        Err(BusError::CapabilityRejected(_)) => (),
        other => panic!("expected CapabilityRejected, got {:?}", other.map(|(_, o)| o)),
    }
}

#[test]
fn resolve_priority() {
    let mut bus = ServiceBus::new();
    bus.register("echo", Box::new(EchoService));
    bus.register_cloud("echo", "https://example.com/echo");

    // Local takes priority over cloud
    assert_eq!(bus.resolve("echo").unwrap(), Endpoint::Local);
}

#[test]
fn resolve_not_found() {
    let bus = ServiceBus::new();
    assert!(matches!(bus.resolve("nonexistent"), Err(BusError::NotFound(_))));
}

#[test]
fn capability_enforcement() {
    let mut bus = ServiceBus::new();
    bus.register("counter", Box::new(CounterService));

    // Token with wrong scope.
    let token = CapabilityToken::issue(
        "user:alice",
        "service:counter",
        vec!["stream".into()],
        None,
        None,
    );

    let blob = Blob::new("test://app", obj(vec![("count", num(0))]));

    assert!(bus.invoke("counter", &blob, &Json::new_object(), &token).is_err());
}

#[test]
fn token_id_is_the_hash_of_its_content() {
    let t = token(&["invoke"]);
    assert_eq!(t.id, "sha256:bbd13c288b3bc836e9118b6df5de977db8cea3187f2b062c2cf33854621d2ff3");
    assert_eq!(t.signature, "unsigned");
    assert_eq!(t.expires, None);
    let t2 = CapabilityToken::issue(
        "i",
        "s",
        vec!["invoke".into(), "stream".into()],
        Some(5),
        Some(1024),
    );
    assert_eq!(t2.id, "sha256:05d3c915ddf3a17ef15afc74e76c50c014fc5d399ef653e06f5836529f3ae472");
    assert_eq!(t.id.len(), 71);
    assert_eq!(t2.id.len(), 71);
}

#[test]
fn rejection_message_names_the_scope() {
    let mut bus = ServiceBus::new();
    bus.register("echo", Box::new(EchoService));
    let blob = Blob::new("test://schema", Json::new_object());
    let err = bus.invoke("echo", &blob, &Json::Null, &token(&["stream", "read"])).err().unwrap();
    assert_eq!(err, BusError::CapabilityRejected("invoke not in scope [\"stream\", \"read\"]".into()));
    assert_eq!(err.message(), "capability rejected: invoke not in scope [\"stream\", \"read\"]");
    let err = bus.stream("echo", &blob, &Json::Null, &token(&[])).err().unwrap();
    assert_eq!(err, BusError::CapabilityRejected("stream not in scope []".into()));
}

#[test]
fn mesh_and_cloud_resolution() {
    let mut bus = ServiceBus::default();
    bus.register_mesh_peer("peer-1", vec!["a".into(), "b".into()]);
    bus.register_mesh_peer("peer-2", vec!["b".into(), "c".into()]);
    bus.register_cloud("c", "https://c.example");
    bus.register_cloud("d", "https://d.example");
    bus.register_cloud("d", "https://d2.example");
    assert_eq!(bus.resolve("a").unwrap(), Endpoint::Mesh { peer_id: "peer-1".into() });
    assert_eq!(bus.resolve("b").unwrap(), Endpoint::Mesh { peer_id: "peer-1".into() });
    assert_eq!(bus.resolve("c").unwrap(), Endpoint::Mesh { peer_id: "peer-2".into() });
    assert_eq!(bus.resolve("d").unwrap(), Endpoint::Cloud { url: "https://d2.example".into() });
    assert_eq!(bus.resolve("e"), Err(BusError::NotFound("e".into())));
    bus.register_mesh_peer("peer-1", vec![]);
    assert_eq!(bus.resolve("a"), Err(BusError::NotFound("a".into())));
}

#[test]
fn remote_endpoints_are_not_yet_callable() {
    let mut bus = ServiceBus::new();
    bus.register_mesh_peer("peer-1", vec!["m".into()]);
    bus.register_cloud("c", "https://c.example");
    let blob = Blob::new("test://schema", Json::new_object());
    let all = token(&["invoke", "stream"]);
    assert_eq!(
        bus.invoke("m", &blob, &Json::Null, &all).err(),
        Some(BusError::Network("mesh invocation to peer-1 not yet implemented".into()))
    );
    assert_eq!(
        bus.invoke("c", &blob, &Json::Null, &all).err(),
        Some(BusError::Network("cloud invocation to https://c.example not yet implemented".into()))
    );
    let err = bus.stream("c", &blob, &Json::Null, &all).err().unwrap();
    assert_eq!(err, BusError::Network("streaming not yet implemented for remote endpoints".into()));
    assert_eq!(err.message(), "network error: streaming not yet implemented for remote endpoints");
    assert_eq!(bus.invoke("z", &blob, &Json::Null, &all).err(), Some(BusError::NotFound("z".into())));
}

#[test]
fn local_stream_is_one_final_chunk() {
    let mut bus = ServiceBus::new();
    bus.register("counter", Box::new(CounterService));
    let blob = Blob::new("test://schema", obj(vec![("count", num(2))]));
    let chunks = bus.stream("counter", &blob, &obj(vec![("delta", num(3))]), &token(&["stream"])).unwrap();
    assert_eq!(chunks.len(), 1);
    assert!(chunks[0].done);
    assert_eq!(chunks[0].blob.payload.get("count").and_then(|c| c.as_i64()), Some(5));
    assert_eq!(chunks[0].output.get("result").and_then(|c| c.as_i64()), Some(5));
}

#[test]
fn local_failure_is_a_service_error() {
    let mut bus = ServiceBus::new();
    bus.register("failing", Box::new(FailingService));
    let blob = Blob::new("test://schema", Json::new_object());
    assert_eq!(
        bus.invoke("failing", &blob, &Json::Null, &token(&["invoke"])).err(),
        Some(BusError::Service("service failing failed: unknown service: x".into()))
    );
}

#[test]
fn reregistering_a_local_name_replaces_the_service() {
    let mut bus = ServiceBus::new();
    bus.register("svc", Box::new(CounterService));
    bus.register("svc", Box::new(EchoService));
    let blob = Blob::new("test://schema", obj(vec![("count", num(1))]));
    let input = obj(vec![("msg", Json::from_str_value("hi"))]);
    let (nb, out) = bus.invoke("svc", &blob, &input, &token(&["invoke"])).unwrap();
    assert_eq!(out, input);
    assert_eq!(nb.payload.get("echo"), Some(&input));
    assert_eq!(nb.parent, Some(blob.hash().unwrap()));
}

#[test]
fn local_stream_failure_carries_the_message() {
    let mut bus = ServiceBus::new();
    bus.register("failing", Box::new(FailingService));
    let blob = Blob::new("test://schema", Json::new_object());
    assert_eq!(
        bus.stream("failing", &blob, &Json::Null, &token(&["stream"])).err(),
        Some(BusError::Service("service failing failed: unknown service: x".into()))
    );
}

fn limited_token(
    scope: &[&str],
    max_invocations: Option<u64>,
    max_bytes: Option<u64>,
    expires: Option<&str>,
) -> CapabilityToken {
    let mut t = CapabilityToken::issue(
        "user:alice",
        "service:echo",
        scope.iter().map(|s| s.to_string()).collect(),
        max_invocations,
        max_bytes,
    );
    t.expires = expires.map(|e| e.to_string());
    t
}

#[test]
fn zero_invocation_limit_authorizes_nothing() {
    let mut bus = ServiceBus::new();
    bus.register("echo", Box::new(EchoService));
    let blob = Blob::new("test://schema", Json::new_object());
    let t = limited_token(&["invoke", "stream"], Some(0), None, None);
    assert_eq!(bus.invoke("echo", &blob, &Json::new_object(), &t).err(), Some(BusError::InvocationLimit));
    assert_eq!(bus.stream("echo", &blob, &Json::new_object(), &t).err(), Some(BusError::InvocationLimit));
    let t = limited_token(&["invoke"], Some(1), None, None);
    assert!(bus.invoke("echo", &blob, &Json::new_object(), &t).is_ok());
    assert_eq!(BusError::InvocationLimit.message(), "invocation limit exceeded");
}

#[test]
fn byte_limit_counts_blob_and_input_bytes() {
    let mut bus = ServiceBus::new();
    bus.register("echo", Box::new(EchoService));
    let blob = Blob::new_at("test://schema", obj(vec![("x", num(1))]), 0);
    let input = obj(vec![("msg", Json::from_str_value("hello"))]);
    let size = (blob.serialize().unwrap().len() + input.to_text().len()) as u64;
    assert_eq!(size, 123 + 15);
    let exact = limited_token(&["invoke"], None, Some(size), None);
    assert!(bus.invoke("echo", &blob, &input, &exact).is_ok());
    let short = limited_token(&["invoke"], None, Some(size - 1), None);
    assert_eq!(bus.invoke("echo", &blob, &input, &short).err(), Some(BusError::ByteLimit));
    assert_eq!(BusError::ByteLimit.message(), "byte limit exceeded");
}

#[test]
fn expired_token_is_refused_first() {
    let mut bus = ServiceBus::new();
    bus.register("echo", Box::new(EchoService));
    let blob = Blob::new("test://schema", Json::new_object());
    let past = limited_token(&["stream"], Some(0), Some(0), Some("2000-01-01T00:00:00Z"));
    assert_eq!(bus.invoke("echo", &blob, &Json::Null, &past).err(), Some(BusError::TokenExpired));
    assert_eq!(bus.stream("echo", &blob, &Json::Null, &past).err(), Some(BusError::TokenExpired));
    let future = limited_token(&["invoke"], None, None, Some("9999-12-31T23:59:59Z"));
    assert!(bus.invoke("echo", &blob, &Json::Null, &future).is_ok());
    let t = limited_token(&["invoke"], None, None, Some("2000-01-01T00:00:00Z"));
    assert!(bus.invoke_at("echo", &blob, &Json::Null, &t, 946684799).is_ok());
    assert_eq!(bus.invoke_at("echo", &blob, &Json::Null, &t, 946684800).err(), Some(BusError::TokenExpired));
    assert_eq!(BusError::TokenExpired.message(), "token expired");
}
