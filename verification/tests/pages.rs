use tmux_otg::pages::{escape_html, page, render_error, render_index, render_view, STYLE};

#[test]
fn escape_html_neutralizes_markup() {
    assert_eq!(escape_html("<script>&\"'"), "&lt;script&gt;&amp;&quot;&#x27;");
    // allowlisted session characters are passed through untouched
    assert_eq!(escape_html("public-insecure-demo_1"), "public-insecure-demo_1");
}

#[test]
fn index_renders_links_and_empty_state() {
    let html = render_index(&["public-insecure-a".to_string()]);
    assert!(html.contains("href=\"/view/public-insecure-a\""));

    let empty = render_index(&[]);
    assert!(empty.contains("No <code>public-insecure-*</code> sessions"));
    assert!(!empty.contains("<ul>"));
}

#[test]
fn pages_link_the_favicon_and_touch_icon() {
    // Every page goes through `page()`, so checking one is enough to pin the
    // icon links into the shared <head>.
    let html = render_index(&[]);
    assert!(html.contains(r#"<link rel="icon" type="image/svg+xml" href="/favicon.svg">"#));
    assert!(html.contains(r#"<link rel="icon" type="image/png" href="/favicon.png">"#));
    assert!(html.contains(r#"<link rel="apple-touch-icon" href="/apple-touch-icon.png">"#));
}

#[test]
fn view_embeds_the_stream_url_as_json() {
    let html = render_view("public-insecure-demo");
    assert!(html.contains(r#"const url = "/stream/public-insecure-demo""#));
    assert!(html.contains("new EventSource(url)"));
}

#[test]
fn view_only_autoscrolls_when_pinned_to_bottom() {
    let html = render_view("public-insecure-demo");
    // The tail view must not snap to the bottom on every refresh; it only
    // follows new output when the viewer is already near the bottom, and
    // otherwise restores their scroll position so reading scrollback (e.g.
    // on a phone) is not interrupted every refresh.
    assert!(html.contains("function atBottom()"));
    assert!(html.contains("const pinned = atBottom();"));
    assert!(html.contains("out.scrollTop = prevTop;"));
    // It must still follow the tail when the viewer is pinned to the bottom.
    assert!(html.contains("out.scrollTop = out.scrollHeight;"));
}

#[test]
fn pages_have_a_fixed_frame() {
    let expected = format!(
        "<!doctype html>\n<html lang=\"en\">\n<head>\n<meta charset=\"utf-8\">\n\
         <meta name=\"viewport\" content=\"width=device-width, initial-scale=1\">\n\
         <title>a &amp; b</title>\n\
         <link rel=\"icon\" type=\"image/svg+xml\" href=\"/favicon.svg\">\n\
         <link rel=\"icon\" type=\"image/png\" href=\"/favicon.png\">\n\
         <link rel=\"apple-touch-icon\" href=\"/apple-touch-icon.png\">\n\
         <style>{STYLE}</style>\n</head>\n<body>\n<p>body</p>\n</body>\n</html>\n"
    );
    assert_eq!(page("a & b", "<p>body</p>"), expected);
}

#[test]
fn index_lists_sessions_in_order() {
    let html = render_index(&["a<".to_string(), "b".to_string()]);
    assert!(html.contains(
        "<ul><li><a href=\"/view/a&lt;\">a&lt;</a></li><li><a href=\"/view/b\">b</a></li></ul>"
    ));
    assert!(html.contains("<title>tmux-otg — sessions</title>"));
    assert!(html.contains(
        "<p class=\"note\">Read-only. Listing tmux sessions named <code>public-insecure-*</code>.</p>\n<ul>"
    ));
}

#[test]
fn view_escapes_what_it_embeds() {
    let html = render_view("x\"<y");
    assert!(html.contains("<title>tmux-otg — x&quot;&lt;y</title>"));
    assert!(html.contains("<div class=\"topbar\">\n  <h1>x&quot;&lt;y</h1>\n  <a href=\"/\">← all sessions</a>"));
    assert!(html.contains("const url = \"/stream/x\\\"<y\";\n// Each refresh"));
    assert!(html.contains("es.onerror = () => { status.textContent = 'disconnected — retrying…'; };\n</script>\n</body>"));
}

#[test]
fn errors_are_escaped() {
    let html = render_error("h<", "d>");
    assert!(html.contains("<title>h&lt;</title>"));
    assert!(html.contains(
        "<h1>h&lt;</h1>\n<p class=\"note\">d&gt;</p>\n<p><a href=\"/\">← back to sessions</a></p>"
    ));
}
