use std::sync::Arc;
use std::time::Duration;

use tmux_otg::http::{
    apple_touch_icon, fallback, favicon_png, favicon_svg, health, index, internal_error,
    list_sessions, on_closed, on_update, open_stream, security_headers, stream, view, Body, Reply,
    Route, StreamStep, CSP,
};
use tmux_otg::hub::{Hub, PaneUpdate};
use tmux_otg::pages::{render_error, render_index, render_view};
use tmux_otg::tmux::{list_allowed_sessions, TmuxError, TmuxOutput};

fn html(reply: &Reply) -> &str {
    match &reply.body {
        Body::Html(html) => html,
        _ => panic!("not a page"),
    }
}

fn header(reply: &Reply, name: &str) -> &'static str {
    reply.headers.iter().find(|h| h.name == name).unwrap().value
}

#[test]
fn healthz_returns_ok() {
    let res = health();
    assert_eq!(res.status, 200);
    assert!(matches!(res.body, Body::Text("ok\n")));
    assert!(res.headers.is_empty());
}

#[test]
fn view_rejects_non_allowlisted_name() {
    assert_eq!(view("private-session").status, 404);
}

#[test]
fn view_accepts_allowlisted_name() {
    let res = view("public-insecure-demo");
    assert_eq!(res.status, 200);
    assert_eq!(html(&res), render_view("public-insecure-demo"));
}

#[test]
fn stream_rejects_non_allowlisted_name() {
    assert_eq!(stream("not-allowed").unwrap_err_status(), 404);
    assert!(stream("public-insecure-demo").is_ok());
}

trait Refusal {
    fn unwrap_err_status(self) -> u16;
}

impl Refusal for Result<(), Reply> {
    fn unwrap_err_status(self) -> u16 {
        match self {
            Ok(()) => panic!("not refused"),
            Err(reply) => reply.status,
        }
    }
}

#[test]
fn unknown_route_is_not_found() {
    let res = fallback();
    assert_eq!(res.status, 404);
    assert_eq!(
        html(&res),
        render_error(
            "404 — not found",
            "No such session, or it is not in the public-insecure-* allowlist."
        )
    );
}

#[test]
fn responses_carry_security_headers() {
    let headers = security_headers();
    let got: Vec<(&str, &str)> = headers.iter().map(|h| (h.name, h.value)).collect();
    assert_eq!(
        got,
        vec![
            ("content-security-policy", CSP),
            ("x-content-type-options", "nosniff"),
            ("referrer-policy", "no-referrer"),
        ]
    );
    // Pin the exact policy: these specific directives matter (no external
    // resources, same-origin SSE only, no framing).
    assert_eq!(
        CSP,
        "default-src 'none'; img-src 'self'; style-src 'unsafe-inline'; \
         script-src 'unsafe-inline'; connect-src 'self'; base-uri 'none'; \
         form-action 'none'; frame-ancestors 'none'"
    );
    assert!(CSP.contains("default-src 'none'"));
    assert!(CSP.contains("connect-src 'self'"));
    assert!(CSP.contains("frame-ancestors 'none'"));
    // The favicon is served from our own origin, so images are confined
    // to `'self'`.
    assert!(CSP.contains("img-src 'self'"));
}

#[test]
fn edge_rejects_prefixed_names_with_target_or_injection_chars() {
    // A name can carry the allowlisted prefix yet still smuggle a tmux target
    // separator (`:` / `.`). Both /view and /stream must reject these.
    for name in ["public-insecure-a:1", "public-insecure-a.0"] {
        assert_eq!(view(name).status, 404, "{name} must be rejected at the edge");
        assert_eq!(stream(name).unwrap_err_status(), 404, "{name} must be rejected at the edge");
    }
}

#[test]
fn favicon_svg_is_served_as_svg() {
    let res = favicon_svg(b"<svg/>");
    assert_eq!(res.status, 200);
    assert_eq!(header(&res, "content-type"), "image/svg+xml");
    assert!(matches!(res.body, Body::Asset(b"<svg/>")));
}

#[test]
fn favicon_is_served_as_a_png() {
    let res = favicon_png(b"\x89PNG\r\n\x1a\n");
    assert_eq!(res.status, 200);
    assert_eq!(header(&res, "content-type"), "image/png");
    // A cache hint so browsers don't refetch the icon on every page load.
    assert_eq!(header(&res, "cache-control"), "public, max-age=86400");
    assert!(matches!(res.body, Body::Asset(b"\x89PNG\r\n\x1a\n")));
}

#[test]
fn apple_touch_icon_is_served_as_a_png() {
    let res = apple_touch_icon(b"\x89PNG\r\n\x1a\n");
    assert_eq!(res.status, 200);
    assert_eq!(header(&res, "content-type"), "image/png");
    assert!(matches!(res.body, Body::Asset(b"\x89PNG\r\n\x1a\n")));
}

#[test]
fn refused_names_look_alike() {
    let a = view("private");
    let b = view("public-insecure-");
    assert_eq!(html(&a), html(&b));
    assert_eq!(html(&a), html(&fallback()));
}

#[test]
fn index_lists_what_was_listed() {
    let names = vec!["public-insecure-a".to_string()];
    let r = index(Ok(names.clone()));
    assert_eq!(r.reply.status, 200);
    assert_eq!(html(&r.reply), render_index(&names));
    assert!(r.log.is_none());
}

#[test]
fn index_without_a_server_is_the_empty_page() {
    let ran = Ok(TmuxOutput {
        success: false,
        code: Some(1),
        stdout: Vec::new(),
        stderr: b"error connecting to /tmp/x (No such file or directory)".to_vec(),
    });
    let r = index(list_allowed_sessions(ran));
    assert_eq!(r.reply.status, 200);
    assert_eq!(html(&r.reply), render_index(&[]));
}

#[test]
fn index_reports_failures_generically() {
    let r = index(list_sessions(Err("cancelled".to_string())));
    assert_eq!(r.reply.status, 500);
    assert_eq!(html(&r.reply), render_error("500 — error", "could not list tmux sessions"));
    assert_eq!(
        r.log.unwrap(),
        "tmux-otg: error listing sessions: tmux task failed: cancelled"
    );
    assert_eq!(html(&internal_error("x<")), render_error("500 — error", "x<"));
}

#[test]
fn finished_listing_is_passed_on() {
    assert_eq!(list_sessions(Ok(Ok(vec!["a".to_string()]))).unwrap(), vec!["a"]);
    let err = list_sessions(Ok(Err(TmuxError::Spawn("x".to_string())))).unwrap_err();
    assert!(matches!(err, TmuxError::Spawn(_)));
}

#[test]
fn refused_streams_leave_the_hub_alone() {
    let mut hub: Hub<u32> = Hub::new(Duration::from_secs(2), 0);
    for name in ["not-allowed", "public-insecure-", "public-insecure-a:0"] {
        match open_stream(&mut hub, name, |_| panic!("nothing is opened")) {
            Ok(_) => panic!("{name} must be refused"),
            Err(reply) => {
                assert_eq!(reply.status, 404);
                assert_eq!(html(&reply), html(&view(name)));
            }
        }
    }
    assert_eq!(hub.active_count(), 0);
    let sub = hub.subscribe("public-insecure-a", |_| 1);
    assert_eq!(sub.start, Some(0));
}

#[test]
fn allowed_streams_share_a_subscription() {
    let mut hub: Hub<u32> = Hub::new(Duration::from_secs(2), 0);
    match open_stream(&mut hub, "public-insecure-a", |first| match on_update(first) {
        StreamStep::Wait => 7,
        _ => panic!("a new channel has nothing to send"),
    }) {
        Ok(sub) => {
            assert_eq!(sub.start, Some(0));
            assert_eq!(*sub.tx, 7);
        }
        Err(_) => panic!("the name is allowed"),
    }
    match open_stream(&mut hub, "public-insecure-a", |_| panic!("a channel is open already")) {
        Ok(sub) => {
            assert_eq!(sub.start, None);
            assert_eq!(*sub.tx, 7);
        }
        Err(_) => panic!("the name is allowed"),
    }
    assert_eq!(hub.active_count(), 1);
}

#[test]
fn streams_relay_states() {
    assert!(matches!(on_update(PaneUpdate::Pending), StreamStep::Wait));
    let payload: Arc<str> = Arc::from("\"x\"");
    match on_update(PaneUpdate::Pane(payload.clone())) {
        StreamStep::Send(e) => {
            assert_eq!(e.event, "pane");
            assert_eq!(&*e.data, "\"x\"");
        }
        _ => panic!("a pane is sent"),
    }
    match on_update(PaneUpdate::Gone(payload)) {
        StreamStep::Finish(e) => {
            assert_eq!(e.event, "gone");
            assert_eq!(&*e.data, "\"x\"");
        }
        _ => panic!("the stream ends"),
    }
    let last = on_closed();
    assert_eq!(last.event, "gone");
    assert_eq!(&*last.data, "\"session unavailable\"");
}

#[test]
fn endpoints_have_their_paths() {
    let paths: Vec<&str> = [
        Route::Index,
        Route::View,
        Route::Stream,
        Route::Health,
        Route::FaviconSvg,
        Route::FaviconPng,
        Route::AppleTouchIcon,
    ]
    .iter()
    .map(|r| r.pattern())
    .collect();
    assert_eq!(
        paths,
        vec![
            "/",
            "/view/{name}",
            "/stream/{name}",
            "/healthz",
            "/favicon.svg",
            "/favicon.png",
            "/apple-touch-icon.png"
        ]
    );
}
