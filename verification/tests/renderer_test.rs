use stateless_architecture::{Blob, HtmlRenderer, Json, JsonNumber, TextRenderer};

fn obj(pairs: Vec<(&str, Json)>) -> Json {
    let mut j = Json::new_object();
    for (k, v) in pairs {
        j.insert(k, v);
    }
    j
}

fn text(s: &str) -> Json {
    Json::from_str_value(s)
}

#[test]
fn html_renderer_basic() {
    let blob = Blob::new(
        "test://page",
        obj(vec![("title", text("My Page")), ("body", text("Hello World"))]),
    );
    let html = HtmlRenderer::render(&blob);
    assert!(html.contains("<title>My Page</title>"));
    assert!(html.contains("<h1>My Page</h1>"));
    assert!(html.contains("<p>Hello World</p>"));
}

#[test]
fn html_renderer_with_items() {
    let blob = Blob::new(
        "test://page",
        obj(vec![
            ("title", text("List")),
            ("body", text("My items:")),
            ("items", Json::Array(vec![text("one"), text("two"), text("three")])),
        ]),
    );
    let html = HtmlRenderer::render(&blob);
    assert!(html.contains("<li>one</li>"));
    assert!(html.contains("<li>two</li>"));
    assert!(html.contains("<li>three</li>"));
}

#[test]
fn html_renderer_defaults() {
    let blob = Blob::new("test://page", Json::new_object());
    let html = HtmlRenderer::render(&blob);
    assert!(html.contains("<title>Untitled</title>"));
}

#[test]
fn text_renderer_basic() {
    let blob = Blob::new(
        "test://page",
        obj(vec![("title", text("My Page")), ("body", text("Hello World"))]),
    );
    let text = TextRenderer::render(&blob);
    assert!(text.contains("My Page"));
    assert!(text.contains("Hello World"));
}

#[test]
fn html_renderer_whole_page() {
    let blob = Blob::new(
        "test://page",
        obj(vec![("title", text("My Page")), ("body", text("Hello World"))]),
    );
    assert_eq!(
        HtmlRenderer::render(&blob),
        "<!DOCTYPE html><html><head><title>My Page</title></head><body><h1>My Page</h1><p>Hello World</p></body></html>"
    );
}

#[test]
fn html_renderer_writes_other_items_as_json() {
    let blob = Blob::new(
        "test://page",
        obj(vec![(
            "items",
            Json::Array(vec![
                Json::Number(JsonNumber::PosInt(1)),
                Json::Bool(true),
                obj(vec![("a", text("b\"c"))]),
                Json::Null,
            ]),
        )]),
    );
    assert_eq!(
        HtmlRenderer::render(&blob),
        "<!DOCTYPE html><html><head><title>Untitled</title></head><body><h1>Untitled</h1><p></p><ul><li>1</li><li>true</li><li>{\"a\":\"b\\\"c\"}</li><li>null</li></ul></body></html>"
    );
}

#[test]
fn html_renderer_ignores_non_string_title_and_non_array_items() {
    let blob = Blob::new(
        "test://page",
        obj(vec![("title", Json::Number(JsonNumber::NegInt(-3))), ("items", text("x"))]),
    );
    assert_eq!(
        HtmlRenderer::render(&blob),
        "<!DOCTYPE html><html><head><title>Untitled</title></head><body><h1>Untitled</h1><p></p></body></html>"
    );
}

#[test]
fn text_renderer_exact() {
    let blob = Blob::new("test://page", obj(vec![("title", text("T")), ("body", text("B"))]));
    assert_eq!(TextRenderer::render(&blob), "T\n\nB");
    let empty = Blob::new("test://page", Json::Null);
    assert_eq!(TextRenderer::render(&empty), "Untitled\n\n");
}

#[test]
fn rendering_depends_on_payload_only() {
    let a = Blob::new("s://a", obj(vec![("title", text("Same"))]));
    let mut b = Blob::new("s://b", obj(vec![("title", text("Same"))]));
    b.timestamp = "1970-01-01T00:00:00Z".to_string();
    assert_eq!(HtmlRenderer::render(&a), HtmlRenderer::render(&b));
}
