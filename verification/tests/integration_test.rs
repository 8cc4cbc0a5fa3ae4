use stateless_architecture::{
    restore, Blob, CapabilityToken, HtmlRenderer, Json, JsonNumber, Service, ServiceBus, ServiceError,
};

fn obj(pairs: Vec<(&str, Json)>) -> Json {
    let mut j = Json::new_object();
    for (k, v) in pairs {
        j.insert(k, v);
    }
    j
}

fn num(v: i64) -> Json {
    if v >= 0 {
        Json::Number(JsonNumber::PosInt(v as u64))
    } else {
        Json::Number(JsonNumber::NegInt(v))
    }
}

struct CounterService;

impl Service for CounterService {
    fn name(&self) -> &str {
        "counter"
    }
    fn version(&self) -> &str {
        "0.1.0"
    }
    fn invoke(&self, blob: &Blob, input: &Json) -> Result<(Blob, Json), ServiceError> {
        let delta = input.get("delta").and_then(|v| v.as_i64()).unwrap_or(1);
        let current = blob.payload.get("count").and_then(|v| v.as_i64()).unwrap_or(0);
        let new_count = current + delta;
        let new_blob = blob
            .child(obj(vec![("count", num(new_count))]))
            .map_err(|e| ServiceError::Invocation { name: "counter".into(), reason: e.message() })?;
        Ok((new_blob, obj(vec![("result", num(new_count))])))
    }
}

struct TitleService;

impl Service for TitleService {
    fn name(&self) -> &str {
        "title-updater"
    }
    fn version(&self) -> &str {
        "0.1.0"
    }
    fn invoke(&self, blob: &Blob, input: &Json) -> Result<(Blob, Json), ServiceError> {
        let mut new_payload = blob.payload.duplicate();
        if let Some(title) = input.get("title").and_then(|v| v.as_str()) {
            new_payload.insert("title", Json::from_str_value(title));
        }
        let new_blob = blob
            .child(new_payload)
            .map_err(|e| ServiceError::Invocation { name: "title-updater".into(), reason: e.message() })?;
        Ok((new_blob, obj(vec![("updated", Json::Bool(true))])))
    }
}

fn invoke_token(subject: &str) -> CapabilityToken {
    CapabilityToken::issue("user:alice", subject, vec!["invoke".into()], None, None)
}

#[test]
fn bus_transform_serialize_and_restore_in_stages() {
    let blob = Blob::new("test://app", obj(vec![("count", num(0))]));
    let mut bus = ServiceBus::new();
    bus.register("counter", Box::new(CounterService));
    let (transformed, out) = bus
        .invoke("counter", &blob, &obj(vec![("delta", num(42))]), &invoke_token("service:counter"))
        .unwrap();
    assert_eq!(transformed.payload.get("count"), Some(&num(42)));
    assert_eq!(out.get("result"), Some(&num(42)));
    assert_eq!(transformed.parent, Some(blob.hash().unwrap()));

    let bytes = transformed.serialize().unwrap();
    assert_eq!(bytes, transformed.to_json_text().into_bytes());

    let final_blob = restore(&transformed).unwrap();
    assert_eq!(final_blob.payload.get("count"), Some(&num(42)));
    assert_eq!(final_blob.schema, "test://app");
}

#[test]
fn core_loop_through_bus_and_renderer() {
    let blob = Blob::new(
        "demo://minimal",
        obj(vec![("title", Json::from_str_value("Hello")), ("body", Json::from_str_value("World"))]),
    );
    let html1 = HtmlRenderer::render(&blob);
    assert!(html1.contains("Hello"));
    assert!(html1.contains("World"));

    let mut bus = ServiceBus::new();
    bus.register("title-updater", Box::new(TitleService));
    let (transformed, out) = bus
        .invoke(
            "title-updater",
            &blob,
            &obj(vec![("title", Json::from_str_value("Goodbye"))]),
            &invoke_token("service:title-updater"),
        )
        .unwrap();
    assert_eq!(transformed.payload.get("title").and_then(|t| t.as_str()), Some("Goodbye"));
    assert_eq!(out.get("updated"), Some(&Json::Bool(true)));

    let html2 = HtmlRenderer::render(&transformed);
    assert!(html2.contains("Goodbye"));
    assert!(html2.contains("World"));
}

#[test]
fn sealed_payload_opens_with_the_passphrase_and_renders_alike() {
    let blob = Blob::new(
        "test://app",
        obj(vec![("title", Json::from_str_value("My App")), ("count", num(7))]),
    );
    let bytes = blob.hibernate("correct-horse-battery-staple").unwrap();
    assert!(!bytes.is_empty());

    let mut sealed = blob.sealed("correct-horse-battery-staple");
    assert_eq!(HtmlRenderer::render(&sealed).contains("<title>My App</title>"), false);
    let opened = sealed.unseal("correct-horse-battery-staple").unwrap().unwrap();
    assert_eq!(opened, blob.payload.to_text().into_bytes());
    assert_eq!(sealed.schema, blob.schema);

    sealed.payload = blob.payload.duplicate();
    let first_html = HtmlRenderer::render(&blob);
    assert_eq!(first_html, HtmlRenderer::render(&sealed));
    assert!(first_html.contains("<title>My App</title>"));
    assert!(first_html.contains("<p>"));
}
