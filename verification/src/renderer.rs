//! Renderers: a renderer is a function from a blob to text, with no state of
//! its own. What it writes depends on the blob's payload alone.
use vstd::prelude::*;
use crate::json::{get_spec, items_view, json_text, Json, JsonV};
use crate::state_blob::Blob;

verus! {

/// The page title: the payload's string member `title`, or `Untitled`.
pub open spec fn title_of(p: JsonV) -> Seq<char> {
    match get_spec(p, "title"@) {
        Some(JsonV::Str(s)) => s,
        _ => "Untitled"@,
    }
}

/// The page body: the payload's string member `body`, or nothing.
pub open spec fn body_of(p: JsonV) -> Seq<char> {
    match get_spec(p, "body"@) {
        Some(JsonV::Str(s)) => s,
        _ => Seq::empty(),
    }
}

/// One list item: a string as it is, any other value as its JSON text.
pub open spec fn item_html(i: JsonV) -> Seq<char> {
    "<li>"@ + match i {
        JsonV::Str(s) => s,
        _ => json_text(i),
    } + "</li>"@
}

/// The list items, in order.
pub open spec fn items_html(items: Seq<JsonV>) -> Seq<char>
    decreases items.len(),
{
    if items.len() == 0 {
        Seq::empty()
    } else {
        items_html(items.drop_last()) + item_html(items.last())
    }
}

/// The list: present when the payload's member `items` is an array.
pub open spec fn list_html(p: JsonV) -> Seq<char> {
    match get_spec(p, "items"@) {
        Some(JsonV::Array(items)) => "<ul>"@ + items_html(items) + "</ul>"@,
        _ => Seq::empty(),
    }
}

/// The HTML page for a payload.
pub open spec fn html_text(p: JsonV) -> Seq<char> {
    "<!DOCTYPE html><html><head><title>"@ + title_of(p) + "</title></head><body>"@ + "<h1>"@
        + title_of(p) + "</h1>"@ + "<p>"@ + body_of(p) + "</p>"@ + list_html(p)
        + "</body></html>"@
}

/// The plain-text page for a payload: the title, a blank line, the body.
pub open spec fn plain_text(p: JsonV) -> Seq<char> {
    title_of(p) + "\n\n"@ + body_of(p)
}

fn title_member(payload: &Json) -> (r: &str)
    ensures
        r@ == title_of(payload.deep_view()),
{
    match payload.get("title") {
        Some(v) => match v.as_str() {
            Some(s) => s,
            None => "Untitled",
        },
        None => "Untitled",
    }
}

fn body_member(payload: &Json) -> (r: &str)
    ensures
        r@ == body_of(payload.deep_view()),
{
    proof {
        reveal_strlit("");
    }
    match payload.get("body") {
        Some(v) => match v.as_str() {
            Some(s) => s,
            None => "",
        },
        None => "",
    }
}

/// A minimal HTML renderer.
pub struct HtmlRenderer;

impl HtmlRenderer {
    /// Render a blob to an HTML string, from the payload's `title`, `body`
    /// and `items`.
    pub fn render(blob: &Blob) -> (r: String)
        ensures
            r@ == html_text(blob.payload.deep_view()),
    {
        let ghost p = blob.payload.deep_view();
        let title = title_member(&blob.payload);
        let body = body_member(&blob.payload);
        let items = match blob.payload.get("items") {
            Some(v) => v.as_array(),
            None => None,
        };
        let mut html = String::new();
        html.append("<!DOCTYPE html><html><head><title>");
        html.append(title);
        html.append("</title></head><body>");
        html.append("<h1>");
        html.append(title);
        html.append("</h1>");
        html.append("<p>");
        html.append(body);
        html.append("</p>");
        let ghost before_list = html@;
        match items {
            Some(items) => {
                let ghost iv = items_view(items@);
                html.append("<ul>");
                let ghost start = html@;
                let n = items.len();
                for i in 0..n
                    invariant
                        n == items@.len(),
                        iv == items_view(items@),
                        html@ == start + items_html(iv.take(i as int)),
                {
                    let item = &items[i];
                    html.append("<li>");
                    match item.as_str() {
                        Some(s) => html.append(s),
                        None => {
                            let t = item.to_text();
                            html.append(t.as_str());
                        },
                    }
                    html.append("</li>");
                    assert(iv.take(i + 1).drop_last() =~= iv.take(i as int));
                    assert(iv[i as int] == item.deep_view());
                }
                assert(iv.take(n as int) =~= iv);
                html.append("</ul>");
                assert(html@ =~= before_list + list_html(p));
            },
            None => {
                assert(list_html(p) =~= Seq::<char>::empty());
                assert(html@ =~= before_list + list_html(p));
            },
        }
        html.append("</body></html>");
        assert(Seq::<char>::empty() + "<!DOCTYPE html><html><head><title>"@
            =~= "<!DOCTYPE html><html><head><title>"@);
        html
    }
}

/// Render a blob as plain text (for non-HTML contexts).
pub struct TextRenderer;

impl TextRenderer {
    /// The payload's title, a blank line, and its body.
    pub fn render(blob: &Blob) -> (r: String)
        ensures
            r@ == plain_text(blob.payload.deep_view()),
    {
        let title = title_member(&blob.payload);
        let body = body_member(&blob.payload);
        let mut out = String::from_str(title);
        out.append("\n\n");
        out.append(body);
        out
    }
}

} // verus!
