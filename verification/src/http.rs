//! What each endpoint answers. Nothing here can mutate a session: the only tmux
//! operations behind these endpoints are `list-sessions` and `capture-pane`.

use std::sync::Arc;

use vstd::prelude::*;

use crate::hub;
use crate::hub::{Hub, PaneUpdate, Subscription};
use crate::json;
use crate::pages;
use crate::tmux;
use crate::tmux::TmuxError;
use crate::validation;

verus! {

/// Restrictive Content-Security-Policy for the tiny self-contained UI: no
/// external resources at all, inline `<style>`/`<script>` only, the favicon and
/// other images from our own origin (`img-src 'self'`), same-origin connections
/// (for the SSE stream), and no framing (anti-clickjacking).
pub const CSP: &'static str = "default-src 'none'; img-src 'self'; style-src 'unsafe-inline'; \
     script-src 'unsafe-inline'; connect-src 'self'; base-uri 'none'; \
     form-action 'none'; frame-ancestors 'none'";

/// The endpoints. The server registers each of them for `GET`.
#[derive(Debug, Clone, Copy, PartialEq, Eq, Structural)]
pub enum Route {
    Index,
    View,
    Stream,
    Health,
    FaviconSvg,
    FaviconPng,
    AppleTouchIcon,
}

impl Route {
    /// The path of the endpoint; `{name}` stands for a session name.
    pub open spec fn path(self) -> Seq<char> {
        match self {
            Route::Index => "/"@,
            Route::View => "/view/{name}"@,
            Route::Stream => "/stream/{name}"@,
            Route::Health => "/healthz"@,
            Route::FaviconSvg => "/favicon.svg"@,
            Route::FaviconPng => "/favicon.png"@,
            Route::AppleTouchIcon => "/apple-touch-icon.png"@,
        }
    }

    /// The path of the endpoint; `{name}` stands for a session name.
    pub fn pattern(self) -> (pattern: &'static str)
        ensures
            pattern@ == self.path(),
    {
        match self {
            Route::Index => "/",
            Route::View => "/view/{name}",
            Route::Stream => "/stream/{name}",
            Route::Health => "/healthz",
            Route::FaviconSvg => "/favicon.svg",
            Route::FaviconPng => "/favicon.png",
            Route::AppleTouchIcon => "/apple-touch-icon.png",
        }
    }
}

/// A header field to set on a response, in place of any field of that name.
pub struct Header {
    pub name: &'static str,
    pub value: &'static str,
}

/// What a response carries.
pub enum Body {
    /// An HTML page.
    Html(String),
    /// Plain text.
    Text(&'static str),
    /// An embedded static asset.
    Asset(&'static [u8]),
}

/// A response.
pub struct Reply {
    pub status: u16,
    pub body: Body,
    /// Header fields to set in addition to what the body implies.
    pub headers: Vec<Header>,
}

/// The mathematical counterpart of [`Body`].
pub enum BodyView {
    Html(Seq<char>),
    Text(Seq<char>),
    Asset(Seq<u8>),
}

/// The mathematical counterpart of [`Reply`].
pub struct ReplyView {
    pub status: u16,
    pub body: BodyView,
    pub headers: Seq<(Seq<char>, Seq<char>)>,
}

/// The names and values of header fields, in order.
pub open spec fn fields(headers: Seq<Header>) -> Seq<(Seq<char>, Seq<char>)> {
    headers.map_values(|h: Header| (h.name@, h.value@))
}

impl View for Reply {
    type V = ReplyView;

    open spec fn view(&self) -> ReplyView {
        ReplyView {
            status: self.status,
            body: match self.body {
                Body::Html(html) => BodyView::Html(html@),
                Body::Text(text) => BodyView::Text(text@),
                Body::Asset(bytes) => BodyView::Asset(bytes@),
            },
            headers: fields(self.headers@),
        }
    }
}

/// A response that is an HTML page.
pub open spec fn html_reply(status: u16, html: Seq<char>) -> ReplyView {
    ReplyView { status, body: BodyView::Html(html), headers: seq![] }
}

/// A response that is an HTML page.
fn html(status: u16, page: String) -> (reply: Reply)
    ensures
        reply@ == html_reply(status, page@),
{
    let reply = Reply { status, body: Body::Html(page), headers: Vec::new() };
    assert(fields(reply.headers@) =~= seq![]);
    reply
}

/// The defense-in-depth header fields of every response.
pub open spec fn security_fields() -> Seq<(Seq<char>, Seq<char>)> {
    seq![
        ("content-security-policy"@, CSP@),
        ("x-content-type-options"@, "nosniff"@),
        ("referrer-policy"@, "no-referrer"@),
    ]
}

/// The defense-in-depth header fields to set on every response.
pub fn security_headers() -> (headers: Vec<Header>)
    ensures
        fields(headers@) == security_fields(),
{
    let mut headers: Vec<Header> = Vec::new();
    headers.push(Header { name: "content-security-policy", value: CSP });
    headers.push(Header { name: "x-content-type-options", value: "nosniff" });
    headers.push(Header { name: "referrer-policy", value: "no-referrer" });
    assert(fields(headers@) =~= security_fields());
    headers
}

/// The answer of the liveness check.
pub fn health() -> (reply: Reply)
    ensures
        reply@ == (ReplyView { status: 200, body: BodyView::Text("ok\n"@), headers: seq![] }),
{
    let reply = Reply { status: 200, body: Body::Text("ok\n"), headers: Vec::new() };
    assert(fields(reply.headers@) =~= seq![]);
    reply
}

/// A response for an embedded static asset.
pub open spec fn asset_reply(bytes: Seq<u8>, content_type: Seq<char>) -> ReplyView {
    ReplyView {
        status: 200,
        body: BodyView::Asset(bytes),
        headers: seq![
            ("content-type"@, content_type),
            ("cache-control"@, "public, max-age=86400"@),
        ],
    }
}

/// Builds a response for an embedded static asset, with its content type and a
/// day-long cache hint so browsers don't refetch the icon on every page load.
pub fn static_asset(bytes: &'static [u8], content_type: &'static str) -> (reply: Reply)
    ensures
        reply@ == asset_reply(bytes@, content_type@),
{
    let mut headers: Vec<Header> = Vec::new();
    headers.push(Header { name: "content-type", value: content_type });
    headers.push(Header { name: "cache-control", value: "public, max-age=86400" });
    let reply = Reply { status: 200, body: Body::Asset(bytes), headers };
    assert(fields(reply.headers@) =~= asset_reply(bytes@, content_type@).headers);
    reply
}

/// Serves the browser-tab favicon as SVG, the primary icon.
pub fn favicon_svg(bytes: &'static [u8]) -> (reply: Reply)
    ensures
        reply@ == asset_reply(bytes@, "image/svg+xml"@),
{
    static_asset(bytes, "image/svg+xml")
}

/// Serves the PNG favicon, a fallback for browsers without SVG-favicon support.
pub fn favicon_png(bytes: &'static [u8]) -> (reply: Reply)
    ensures
        reply@ == asset_reply(bytes@, "image/png"@),
{
    static_asset(bytes, "image/png")
}

/// Serves the iOS "add to home screen" icon.
pub fn apple_touch_icon(bytes: &'static [u8]) -> (reply: Reply)
    ensures
        reply@ == asset_reply(bytes@, "image/png"@),
{
    static_asset(bytes, "image/png")
}

/// The response to a request for something that does not exist or is not
/// exposed.
pub open spec fn not_found_reply() -> ReplyView {
    html_reply(
        404,
        pages::error_html(
            "404 — not found"@,
            "No such session, or it is not in the public-insecure-* allowlist."@,
        ),
    )
}

/// The response to a request for something that does not exist or is not
/// exposed.
pub fn not_found() -> (reply: Reply)
    ensures
        reply@ == not_found_reply(),
{
    html(
        404,
        pages::render_error(
            "404 — not found",
            "No such session, or it is not in the public-insecure-* allowlist.",
        ),
    )
}

/// The response to a request for any path that is not an endpoint.
pub fn fallback() -> (reply: Reply)
    ensures
        reply@ == not_found_reply(),
{
    not_found()
}

/// The response to a request that failed on the server's side.
pub open spec fn internal_error_reply(detail: Seq<char>) -> ReplyView {
    html_reply(500, pages::error_html("500 — error"@, detail))
}

/// The response to a request that failed on the server's side.
pub fn internal_error(detail: &str) -> (reply: Reply)
    ensures
        reply@ == internal_error_reply(detail@),
{
    html(500, pages::render_error("500 — error", detail))
}

/// The outcome of listing the sessions in a background task, which gave a result
/// or failed with the given description.
pub fn list_sessions(task: Result<Result<Vec<String>, TmuxError>, String>) -> (r: Result<
    Vec<String>,
    TmuxError,
>)
    ensures
        task matches Ok(res) ==> r == res,
        task matches Err(join) ==> r is Err && r->Err_0@ == tmux::TmuxErrorView::Task(join@),
{
    match task {
        Ok(res) => res,
        Err(join) => Err(TmuxError::Task(join)),
    }
}

/// A response, with what to report on the server's side.
pub struct Logged {
    pub reply: Reply,
    pub log: Option<String>,
}

/// The response for the index page, given the outcome of listing the sessions.
pub open spec fn index_reply(
    listed: Result<Seq<Seq<char>>, tmux::TmuxErrorView>,
) -> ReplyView {
    match listed {
        Ok(sessions) => html_reply(200, pages::index_html(sessions)),
        Err(_) => internal_error_reply("could not list tmux sessions"@),
    }
}

/// Index page: lists the allowlisted sessions currently running, given the
/// outcome of listing them.
pub fn index(listed: Result<Vec<String>, TmuxError>) -> (r: Logged)
    ensures
        r.reply@ == index_reply(tmux::listing_view(listed)),
        listed is Ok ==> r.log is None,
        listed matches Err(err) ==> r.log is Some && r.log->0@
            == "tmux-otg: error listing sessions: "@ + err@.message(),
{
    match listed {
        Ok(sessions) => Logged {
            reply: html(200, pages::render_index(sessions.as_slice())),
            log: None,
        },
        Err(err) => Logged {
            reply: internal_error("could not list tmux sessions"),
            log: Some(
                "tmux-otg: error listing sessions: ".to_owned().concat(err.to_string().as_str()),
            ),
        },
    }
}

/// The response for the view page of a session.
pub open spec fn view_reply(name: Seq<char>) -> ReplyView {
    if validation::allowed_name(name) {
        html_reply(200, pages::view_html(name))
    } else {
        not_found_reply()
    }
}

/// Session view page: a thin shell that subscribes to the SSE stream.
pub fn view(name: &str) -> (reply: Reply)
    ensures
        reply@ == view_reply(name@),
{
    if !validation::is_allowed_session(name) {
        return not_found();
    }
    html(200, pages::render_view(name))
}

/// Decides on a request for the stream of a session, before anything is captured
/// for it: the stream goes ahead only for an allowed name, and any other is
/// answered as if nothing were there.
pub fn stream(name: &str) -> (r: Result<(), Reply>)
    ensures
        validation::allowed_name(name@) ==> r is Ok,
        !validation::allowed_name(name@) ==> r is Err && r->Err_0@ == not_found_reply(),
{
    if !validation::is_allowed_session(name) {
        return Err(not_found());
    }
    Ok(())
}

/// Whether only names that may be exposed have a capturer.
pub open spec fn allowlisted<C>(sessions: Map<Seq<char>, hub::Session<C>>) -> bool {
    forall|name: Seq<char>| #[trigger]
        sessions.contains_key(name) ==> validation::allowed_name(name)
}

/// Answers a request for the stream of a session: an allowed name is subscribed
/// to, as [`Hub::subscribe`] does it, and any other is answered as if nothing
/// were there and leaves the hub alone.
pub fn open_stream<'a, C, F: FnOnce(PaneUpdate) -> C>(
    hub: &'a mut Hub<C>,
    name: &str,
    open: F,
) -> (r: Result<Subscription<'a, C>, Reply>)
    requires
        open.requires((PaneUpdate::Pending,)),
    ensures
        final(hub).same_settings(old(hub)),
        !validation::allowed_name(name@) ==> {
            &&& r is Err
            &&& r->Err_0@ == not_found_reply()
            &&& final(hub).sessions() == old(hub).sessions()
            &&& final(hub).next_epoch() == old(hub).next_epoch()
            &&& forall|running: Map<u64, Seq<char>>| #[trigger]
                final(hub).fleet(running) == old(hub).fleet(running)
        },
        validation::allowed_name(name@) ==> {
            &&& r is Ok
            &&& final(hub).sessions() == hub::registered(
                old(hub).sessions(),
                name@,
                old(hub).next_epoch(),
                *r->Ok_0.tx,
            )
        },
        validation::allowed_name(name@) && old(hub).sessions().contains_key(name@) ==> {
            &&& r->Ok_0.start is None
            &&& *r->Ok_0.tx == old(hub).sessions()[name@].tx
            &&& final(hub).next_epoch() == old(hub).next_epoch()
        },
        validation::allowed_name(name@) && !old(hub).sessions().contains_key(name@) ==> {
            &&& r->Ok_0.start == Some(old(hub).next_epoch())
            &&& open.ensures((PaneUpdate::Pending,), *r->Ok_0.tx)
            &&& final(hub).next_epoch() == hub::following(old(hub).next_epoch())
        },
        validation::allowed_name(name@) ==> forall|running: Map<u64, Seq<char>>| #[trigger]
            old(hub).fleet(running).subscribed(name@, *r->Ok_0.tx) == final(hub).fleet(
                hub::started(running, r->Ok_0.start, name@),
            ),
        allowlisted(old(hub).sessions()) ==> allowlisted(final(hub).sessions()),
{
    if let Err(refusal) = stream(name) {
        return Err(refusal);
    }
    Ok(hub.subscribe(name, open))
}

/// An event of a stream.
pub struct StreamEvent {
    pub event: &'static str,
    pub data: Arc<str>,
}

/// What a stream does with a state of the session's pane.
pub enum StreamStep {
    /// Wait for the next state.
    Wait,
    /// Send an event, then wait for the next state.
    Send(StreamEvent),
    /// Send an event and end.
    Finish(StreamEvent),
}

/// The mathematical counterpart of [`StreamStep`]; an event is its kind and its
/// data.
pub enum StreamStepView {
    Wait,
    Send(Seq<char>, Seq<char>),
    Finish(Seq<char>, Seq<char>),
}

impl View for StreamStep {
    type V = StreamStepView;

    open spec fn view(&self) -> StreamStepView {
        match self {
            StreamStep::Wait => StreamStepView::Wait,
            StreamStep::Send(e) => StreamStepView::Send(e.event@, e.data@),
            StreamStep::Finish(e) => StreamStepView::Finish(e.event@, e.data@),
        }
    }
}

/// What a stream does with a state of the session's pane.
pub open spec fn step(update: hub::PaneUpdateView) -> StreamStepView {
    match update {
        hub::PaneUpdateView::Pending => StreamStepView::Wait,
        hub::PaneUpdateView::Pane(payload) => StreamStepView::Send("pane"@, payload),
        hub::PaneUpdateView::Gone(payload) => StreamStepView::Finish("gone"@, payload),
    }
}

/// What a stream does with the latest state of the session's pane.
pub fn on_update(update: PaneUpdate) -> (next: StreamStep)
    ensures
        next@ == step(update@),
{
    match update {
        PaneUpdate::Pending => StreamStep::Wait,
        PaneUpdate::Pane(payload) => StreamStep::Send(StreamEvent { event: "pane", data: payload }),
        PaneUpdate::Gone(payload) => StreamStep::Finish(
            StreamEvent { event: "gone", data: payload },
        ),
    }
}

/// The last event of a stream whose capturer went away without a terminal state.
pub fn on_closed() -> (last: StreamEvent)
    ensures
        last.event@ == "gone"@,
        last.data@ == json::literal("session unavailable"@),
{
    StreamEvent { event: "gone", data: hub::encode("session unavailable") }
}

/// The events that a stream sends for the states that it sees one after the
/// other, up to and including the first terminal one; if there is none, the
/// capturer goes away after the last of them.
pub open spec fn events(updates: Seq<hub::PaneUpdateView>) -> Seq<(Seq<char>, Seq<char>)>
    decreases updates.len(),
{
    if updates.len() == 0 {
        seq![("gone"@, json::literal("session unavailable"@))]
    } else {
        match step(updates[0]) {
            StreamStepView::Wait => events(updates.drop_first()),
            StreamStepView::Send(event, data) => seq![(event, data)] + events(
                updates.drop_first(),
            ),
            StreamStepView::Finish(event, data) => seq![(event, data)],
        }
    }
}

/// Names that are not exposed all look alike, and look like nothing at all:
/// their answer does not tell whether such a session exists. Only exposed names
/// get a page.
pub proof fn unexposed_names_look_alike(a: Seq<char>, b: Seq<char>)
    requires
        !validation::allowed_name(a),
        !validation::allowed_name(b),
    ensures
        view_reply(a) == view_reply(b),
        view_reply(a) == not_found_reply(),
        view_reply(a).status == 404,
{
}

/// The view page is served exactly for the names that may be exposed.
pub proof fn view_is_allowlisted(name: Seq<char>)
    ensures
        view_reply(name).status == 200 <==> validation::allowed_name(name),
        view_reply(name).status == 404 <==> !validation::allowed_name(name),
{
}

/// A new hub has no capturer for a name that may not be exposed, and none comes
/// about when a capturer leaves.
pub proof fn leaving_keeps_allowlisted<C>(
    sessions: Map<Seq<char>, hub::Session<C>>,
    name: Seq<char>,
    epoch: u64,
)
    requires
        allowlisted(sessions),
    ensures
        allowlisted(Map::<Seq<char>, hub::Session<C>>::empty()),
        allowlisted(hub::deregistered(sessions, name, epoch)),
{
}

/// If no tmux server is running, the index page is the normal empty page rather
/// than an error.
pub proof fn index_of_idle_server_is_empty(output: tmux::TmuxOutput)
    ensures
        !output.success && tmux::idle_server(tmux::lossy_text(output.stderr@)) ==> index_reply(
            tmux::listing(Ok(output)),
        ) == html_reply(200, pages::index_html(seq![])),
{
}

/// Whatever tmux answers, the index page is the page of some allowed sessions,
/// or a generic error that says nothing of the sessions or of tmux.
pub proof fn index_is_allowlisted(ran: Result<tmux::TmuxOutput, String>)
    ensures
        match tmux::listing(ran) {
            Ok(sessions) => {
                &&& index_reply(tmux::listing(ran)) == html_reply(
                    200,
                    pages::index_html(sessions),
                )
                &&& forall|i: int|
                    0 <= i < sessions.len() ==> validation::allowed_name(#[trigger] sessions[i])
            },
            Err(_) => index_reply(tmux::listing(ran)) == internal_error_reply(
                "could not list tmux sessions"@,
            ),
        },
{
    tmux::listing_is_allowlisted(ran);
}

/// A stream ends with one `gone` event, and every event before it is a `pane`
/// event.
pub proof fn stream_ends_with_gone(updates: Seq<hub::PaneUpdateView>)
    ensures
        events(updates).len() > 0,
        events(updates).last().0 == "gone"@,
        forall|i: int|
            0 <= i < events(updates).len() - 1 ==> (#[trigger] events(updates)[i]).0 == "pane"@,
    decreases updates.len(),
{
    if updates.len() > 0 {
        stream_ends_with_gone(updates.drop_first());
        let rest = events(updates.drop_first());
        if step(updates[0]) is Send {
            assert forall|i: int| 0 <= i < events(updates).len() - 1 implies (
            #[trigger] events(updates)[i]).0 == "pane"@ by {
                if i > 0 {
                    assert(events(updates)[i] == rest[i - 1]);
                }
            }
        }
    }
}

/// A stream does nothing with the state before the first capture, sends one `pane`
/// event with the payload of a captured pane, whatever it is, and ends with one
/// `gone` event with the payload of a terminal state.
pub proof fn every_state_is_relayed(update: PaneUpdate, next: StreamStep)
    requires
        call_ensures(on_update, (update,), next),
    ensures
        match update {
            PaneUpdate::Pending => next is Wait,
            PaneUpdate::Pane(payload) => match next {
                StreamStep::Send(e) => e.event@ == "pane"@ && e.data@ == payload@,
                _ => false,
            },
            PaneUpdate::Gone(payload) => match next {
                StreamStep::Finish(e) => e.event@ == "gone"@ && e.data@ == payload@,
                _ => false,
            },
        },
{
    assert(next@ == step(update@));
}

/// The `pane` events of a stream carry exactly the payloads of the captured panes
/// before the first terminal state, in order. The `gone` event after them carries
/// the payload of that state or, where there is none, says that the session is
/// unavailable. Here `end` is the position of the first terminal state, or the
/// number of states where there is none.
pub proof fn stream_relays_every_pane(updates: Seq<hub::PaneUpdateView>, end: int)
    requires
        0 <= end <= updates.len(),
        forall|i: int| 0 <= i < end ==> (#[trigger] updates[i]) !is Gone,
        end < updates.len() ==> updates[end] is Gone,
    ensures
        events(updates).len() > 0,
        events(updates).drop_last() == updates.take(end).filter(
            |u: hub::PaneUpdateView| u is Pane,
        ).map_values(|u: hub::PaneUpdateView| ("pane"@, u->Pane_0)),
        events(updates).last().0 == "gone"@,
        end < updates.len() ==> events(updates).last().1 == updates[end]->Gone_0,
        end == updates.len() ==> json::parsed(events(updates).last().1) == Some(
            "session unavailable"@,
        ),
    decreases updates.len(),
{
    let is_pane = |u: hub::PaneUpdateView| u is Pane;
    let event_of = |u: hub::PaneUpdateView| ("pane"@, u->Pane_0);
    let seen = updates.take(end);
    json::parsed_literal("session unavailable"@);
    if end == 0 {
        reveal(Seq::filter);
        assert(seen =~= seq![]);
        assert(seen.filter(is_pane) =~= seq![]);
        assert(events(updates).drop_last() =~= seq![]);
    } else {
        let rest = updates.drop_first();
        assert forall|i: int| 0 <= i < end - 1 implies (#[trigger] rest[i]) !is Gone by {
            assert(rest[i] == updates[i + 1]);
        }
        stream_relays_every_pane(rest, end - 1);
        let later = rest.take(end - 1);
        assert(seen =~= seq![updates[0]] + later);
        Seq::filter_distributes_over_add(seq![updates[0]], later, is_pane);
        reveal_with_fuel(Seq::filter, 2);
        assert(seq![updates[0]].drop_last() =~= seq![]);
        assert(updates[0] !is Gone);
        if updates[0] is Pane {
            assert(seq![updates[0]].filter(is_pane) =~= seq![updates[0]]);
            assert(events(updates).drop_last() =~= seq![event_of(updates[0])] + events(
                rest,
            ).drop_last());
            assert(seen.filter(is_pane).map_values(event_of) =~= seq![event_of(updates[0])]
                + later.filter(is_pane).map_values(event_of));
        } else {
            assert(seq![updates[0]].filter(is_pane) =~= seq![]);
            assert(seen.filter(is_pane) =~= later.filter(is_pane));
        }
    }
}

/// Whether a state carries data that was written as a JSON string literal.
pub open spec fn encoded(update: hub::PaneUpdateView) -> bool {
    match update {
        hub::PaneUpdateView::Pending => true,
        hub::PaneUpdateView::Pane(payload) => exists|t: Seq<char>| payload == json::literal(t),
        hub::PaneUpdateView::Gone(payload) => exists|t: Seq<char>| payload == json::literal(t),
    }
}

/// The data of every event stands on one line, so that it cannot break the
/// framing of the stream, and reads back as the text that was encoded.
pub proof fn stream_data_is_one_line(updates: Seq<hub::PaneUpdateView>)
    requires
        forall|i: int| 0 <= i < updates.len() ==> encoded(#[trigger] updates[i]),
    ensures
        forall|i: int|
            0 <= i < events(updates).len() ==> {
                &&& !(#[trigger] events(updates)[i]).1.contains('\n')
                &&& !events(updates)[i].1.contains('\r')
                &&& json::parsed(events(updates)[i].1) is Some
            },
    decreases updates.len(),
{
    let gone = "session unavailable"@;
    json::literal_is_one_line(gone);
    json::parsed_literal(gone);
    if updates.len() > 0 {
        let rest = updates.drop_first();
        assert forall|i: int| 0 <= i < rest.len() implies encoded(#[trigger] rest[i]) by {
            assert(rest[i] == updates[i + 1]);
        }
        stream_data_is_one_line(rest);
        assert(encoded(updates[0]));
        if updates[0] !is Pending {
            let payload = match updates[0] {
                hub::PaneUpdateView::Pane(payload) => payload,
                hub::PaneUpdateView::Gone(payload) => payload,
                hub::PaneUpdateView::Pending => seq![],
            };
            let t = choose|t: Seq<char>| payload == json::literal(t);
            json::literal_is_one_line(t);
            json::parsed_literal(t);
            assert forall|i: int| 0 <= i < events(updates).len() implies !(
            #[trigger] events(updates)[i]).1.contains('\n') && !events(updates)[i].1.contains('\r')
                && json::parsed(events(updates)[i].1) is Some by {
                if i > 0 {
                    assert(events(updates)[i] == events(rest)[i - 1]);
                }
            }
        }
    }
}

/// What capturers publish is encoded.
pub proof fn published_updates_are_encoded(
    session: Seq<char>,
    captured: hub::CaptureView,
    i: int,
)
    requires
        0 <= i < hub::after_attempt(session, captured).len(),
        hub::after_attempt(session, captured)[i] is Publish,
    ensures
        encoded(hub::after_attempt(session, captured)[i]->Publish_0),
{
    match captured {
        hub::CaptureView::Text(text) => {
            let payload = json::literal(text);
            assert(payload == json::literal(text));
        },
        _ => {
            let payload = json::literal("session unavailable"@);
            assert(payload == json::literal("session unavailable"@));
        },
    }
}

/// No two endpoints have the same path.
pub proof fn endpoints_are_distinct(a: Route, b: Route)
    requires
        a != b,
    ensures
        a.path() != b.path(),
{
    reveal_strlit("/");
    reveal_strlit("/view/{name}");
    reveal_strlit("/stream/{name}");
    reveal_strlit("/healthz");
    reveal_strlit("/favicon.svg");
    reveal_strlit("/favicon.png");
    reveal_strlit("/apple-touch-icon.png");
    assert("/"@.len() == 1);
    assert("/view/{name}"@.len() == 12);
    assert("/stream/{name}"@.len() == 14);
    assert("/healthz"@.len() == 8);
    assert("/favicon.svg"@.len() == 12);
    assert("/favicon.png"@.len() == 12);
    assert("/apple-touch-icon.png"@.len() == 21);
    assert("/view/{name}"@[1] == 'v');
    assert("/favicon.svg"@[1] == 'f');
    assert("/favicon.png"@[1] == 'f');
    assert("/favicon.svg"@[9] == 's');
    assert("/favicon.png"@[9] == 'p');
}

/// The three security header fields do not overwrite one another.
pub proof fn security_fields_are_distinct()
    ensures
        security_fields()[0].0 != security_fields()[1].0,
        security_fields()[0].0 != security_fields()[2].0,
        security_fields()[1].0 != security_fields()[2].0,
{
    reveal_strlit("content-security-policy");
    reveal_strlit("x-content-type-options");
    reveal_strlit("referrer-policy");
    assert("content-security-policy"@[0] == 'c');
    assert("x-content-type-options"@[0] == 'x');
    assert("referrer-policy"@[0] == 'r');
}

/// The view of a session that may be exposed is its view page, and that of any
/// other session is the answer that any unknown path gets.
pub proof fn view_is_the_view_page(name: &str, reply: Reply, page: String, unknown: Reply)
    requires
        call_ensures(view, (name,), reply),
        call_ensures(pages::render_view, (name,), page),
        call_ensures(fallback, (), unknown),
    ensures
        unknown.status == 404,
        validation::allowed_name(name@) ==> {
            &&& reply.status == 200
            &&& reply.body is Html
            &&& reply.body->Html_0@ == page@
            &&& reply.headers@.len() == 0
        },
        !validation::allowed_name(name@) ==> reply@ == unknown@,
{
    assert(reply@ == view_reply(name@));
    assert(reply@.headers.len() == reply.headers@.len());
}

/// The index of a successful listing is the index page of exactly the listed
/// sessions, and nothing is logged. A failed listing is answered by one and the
/// same page whatever the error, and the error is logged.
pub proof fn index_is_the_index_page(
    listed: Result<Vec<String>, TmuxError>,
    sessions: &[String],
    r: Logged,
    page: String,
    problem: Reply,
)
    requires
        call_ensures(index, (listed,), r),
        listed is Ok ==> sessions@ == listed->Ok_0@,
        call_ensures(pages::render_index, (sessions,), page),
        call_ensures(internal_error, ("could not list tmux sessions",), problem),
    ensures
        problem.status == 500,
        match listed {
            Ok(_) => {
                &&& r.reply.status == 200
                &&& r.reply.body is Html
                &&& r.reply.body->Html_0@ == page@
                &&& r.reply.headers@.len() == 0
                &&& r.log is None
            },
            Err(err) => {
                &&& r.reply@ == problem@
                &&& r.log is Some
                &&& r.log->0@ == "tmux-otg: error listing sessions: "@ + err@.message()
            },
        },
{
    assert(r.reply@ == index_reply(tmux::listing_view(listed)));
    assert(r.reply@.headers.len() == r.reply.headers@.len());
}

/// A listing task that ended gives its result, and one that failed an error with
/// the reason.
pub proof fn listing_tasks_are_awaited(
    task: Result<Result<Vec<String>, TmuxError>, String>,
    r: Result<Vec<String>, TmuxError>,
)
    requires
        call_ensures(list_sessions, (task,), r),
    ensures
        match task {
            Ok(result) => r == result,
            Err(why) => match r {
                Err(TmuxError::Task(reason)) => reason@ == why@,
                _ => false,
            },
        },
{
}

/// A problem is answered by its page, with the status of a server error.
pub proof fn problems_are_answered_by_their_page(detail: &str, reply: Reply, page: String)
    requires
        call_ensures(internal_error, (detail,), reply),
        call_ensures(pages::render_error, ("500 — error", detail), page),
    ensures
        reply.status == 500,
        reply.body is Html,
        reply.body->Html_0@ == page@,
        reply.headers@.len() == 0,
{
    assert(reply@ == internal_error_reply(detail@));
    assert(reply@.headers.len() == reply.headers@.len());
}

/// An asset is served as it is, under its content type and with a cache hint of one
/// day.
pub proof fn assets_are_served_as_they_are(
    bytes: &'static [u8],
    content_type: &'static str,
    reply: Reply,
)
    requires
        call_ensures(static_asset, (bytes, content_type), reply),
    ensures
        reply.status == 200,
        reply.body is Asset,
        reply.body->Asset_0@ == bytes@,
        reply.headers@.len() == 2,
        reply.headers@[0].name@ == "content-type"@,
        reply.headers@[0].value@ == content_type@,
        reply.headers@[1].name@ == "cache-control"@,
        reply.headers@[1].value@ == "public, max-age=86400"@,
{
    assert(reply@ == asset_reply(bytes@, content_type@));
    assert(reply@.headers.len() == reply.headers@.len());
    assert(fields(reply.headers@)[0] == (reply.headers@[0].name@, reply.headers@[0].value@));
    assert(fields(reply.headers@)[1] == (reply.headers@[1].name@, reply.headers@[1].value@));
}

/// The three icons are served as they are, each as an image of its kind.
pub proof fn icons_are_served_as_images(
    bytes: &'static [u8],
    svg: Reply,
    png: Reply,
    touch: Reply,
    svg_asset: Reply,
    png_asset: Reply,
)
    requires
        call_ensures(favicon_svg, (bytes,), svg),
        call_ensures(favicon_png, (bytes,), png),
        call_ensures(apple_touch_icon, (bytes,), touch),
        call_ensures(static_asset, (bytes, "image/svg+xml"), svg_asset),
        call_ensures(static_asset, (bytes, "image/png"), png_asset),
    ensures
        svg@ == svg_asset@,
        png@ == png_asset@,
        touch@ == png_asset@,
{
}

/// A stream goes ahead exactly for the names whose view page is served, and any
/// other is answered in the same way as its view.
pub proof fn streams_go_with_views(name: &str, r: Result<(), Reply>, reply: Reply)
    requires
        call_ensures(stream, (name,), r),
        call_ensures(view, (name,), reply),
    ensures
        r is Ok <==> reply.status == 200,
        r is Ok <==> validation::allowed_name(name@),
        r is Err ==> r->Err_0@ == reply@,
{
    assert(reply@ == view_reply(name@));
}

/// A stream whose capturer went away ends with a `gone` event that says that the
/// session is unavailable.
pub proof fn closed_streams_say_so(last: StreamEvent)
    requires
        call_ensures(on_closed, (), last),
    ensures
        last.event@ == "gone"@,
        json::parsed(last.data@) == Some("session unavailable"@),
{
    json::parsed_literal("session unavailable"@);
}

/// A stream is opened exactly for the names that may be exposed, and then it is a
/// subscription to that session; for any other name nothing changes in the hub, and
/// the answer is that of the view.
pub proof fn streams_are_opened_for_exposed_names<C, F: FnOnce(PaneUpdate) -> C>(
    hub: &mut Hub<C>,
    name: &str,
    open: F,
    r: Result<Subscription<'_, C>, Reply>,
    reply: Reply,
)
    requires
        call_ensures(open_stream::<C, F>, (hub, name, open), r),
        call_ensures(view, (name,), reply),
    ensures
        r is Ok <==> reply.status == 200,
        r is Ok <==> validation::allowed_name(name@),
        r is Err ==> {
            &&& r->Err_0@ == reply@
            &&& final(hub).sessions() == old(hub).sessions()
            &&& final(hub).next_epoch() == old(hub).next_epoch()
        },
        r is Ok ==> {
            &&& final(hub).sessions().contains_key(name@)
            &&& final(hub).sessions()[name@].tx == *r->Ok_0.tx
            &&& r->Ok_0.start is None <==> old(hub).sessions().contains_key(name@)
        },
{
    assert(reply@ == view_reply(name@));
}

} // verus!
