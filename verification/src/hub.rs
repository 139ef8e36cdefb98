//! Per-session pane capturing with subscriber fan-out.
//!
//! The first client to view a session starts a single background "capturer" for
//! it. Every additional client subscribes to that same capturer, so the number of
//! concurrent `tmux` processes is bounded by the number of *distinct* sessions
//! being watched, not by the number of connected clients. When the last
//! subscriber for a session disconnects, its capturer stops and the registry
//! entry is removed.
//!
//! The registry decides; tasks, channels and the lock around it are its
//! caller's.

use std::sync::Arc;
use std::time::Duration;

use tokio::sync::watch;

use vstd::hash_map::StringHashMap;
use vstd::prelude::*;

use crate::json;
use crate::text;
use crate::tmux;
use crate::tmux::TmuxError;
use crate::validation;

verus! {

/// The latest known state of a session's pane, broadcast to all subscribers.
#[derive(Clone)]
pub enum PaneUpdate {
    /// No capture has completed yet; subscribers wait without emitting.
    Pending,
    /// A JSON-encoded pane snapshot, ready to place in an SSE `pane` event.
    /// Encoded once per capture and shared (`Arc`) across all subscribers.
    Pane(Arc<str>),
    /// Terminal state: a JSON-encoded reason, ready for an SSE `gone` event.
    /// No further updates follow.
    Gone(Arc<str>),
}

/// The mathematical counterpart of [`PaneUpdate`].
pub enum PaneUpdateView {
    Pending,
    Pane(Seq<char>),
    Gone(Seq<char>),
}

impl View for PaneUpdate {
    type V = PaneUpdateView;

    open spec fn view(&self) -> PaneUpdateView {
        match self {
            PaneUpdate::Pending => PaneUpdateView::Pending,
            PaneUpdate::Pane(payload) => PaneUpdateView::Pane(payload@),
            PaneUpdate::Gone(payload) => PaneUpdateView::Gone(payload@),
        }
    }
}

impl PaneUpdate {
    /// The first state of every channel: nothing has been captured yet.
    pub fn initial() -> (first: PaneUpdate)
        ensures
            first == PaneUpdate::Pending,
            first@ is Pending,
    {
        PaneUpdate::Pending
    }
}

/// `Arc::<str>::from` on an owned string: the shared string holds the same text.
#[verifier::external_body]
fn shared(s: String) -> (r: Arc<str>)
    ensures
        r@ == s@,
{
    Arc::from(s)
}

/// JSON-encodes `text` into a single line so embedded newlines cannot break SSE
/// framing; the client parses it back into the original multi-line text.
pub fn encode(text: &str) -> (payload: Arc<str>)
    ensures
        payload@ == json::literal(text@),
{
    shared(json::json_literal(text))
}

/// A registered capturer: the channel that feeds its subscribers, tagged with a
/// unique `epoch` so a capturer only ever removes *its own* registry entry.
pub struct Session<C> {
    pub epoch: u64,
    pub tx: C,
}

/// Registry of active per-session capturers, each with a channel of type `C`.
#[verifier::reject_recursive_types(C)]
pub struct Hub<C> {
    sessions: StringHashMap<Session<C>>,
    next_epoch: u64,
    interval: Duration,
    scrollback: u32,
}

/// The channel that a new subscriber listens to.
pub struct Subscription<'a, C> {
    pub tx: &'a C,
    /// The epoch of the capturer that has to be started for this subscriber;
    /// `None` if one is running already.
    pub start: Option<u64>,
}

/// The epoch after `epoch`.
pub open spec fn following(epoch: u64) -> u64 {
    if epoch == u64::MAX {
        0
    } else {
        (epoch + 1) as u64
    }
}

/// The registry after a subscriber came for `session`: if there was no entry for
/// it, there is one with the given epoch and channel.
pub open spec fn registered<C>(
    sessions: Map<Seq<char>, Session<C>>,
    session: Seq<char>,
    epoch: u64,
    tx: C,
) -> Map<Seq<char>, Session<C>> {
    if sessions.contains_key(session) {
        sessions
    } else {
        sessions.insert(session, Session { epoch, tx })
    }
}

/// The running capturers after a subscription to `session`: one more if `start`
/// gives an epoch to start it with.
pub open spec fn started(
    running: Map<u64, Seq<char>>,
    start: Option<u64>,
    session: Seq<char>,
) -> Map<u64, Seq<char>> {
    match start {
        Some(epoch) => running.insert(epoch, session),
        None => running,
    }
}

/// The registry after the capturer `epoch` of `session` took its own entry out.
pub open spec fn deregistered<C>(
    sessions: Map<Seq<char>, Session<C>>,
    session: Seq<char>,
    epoch: u64,
) -> Map<Seq<char>, Session<C>> {
    if sessions.contains_key(session) && sessions[session].epoch == epoch {
        sessions.remove(session)
    } else {
        sessions
    }
}

impl<C> Hub<C> {
    /// The registered capturers, by session name.
    pub closed spec fn sessions(&self) -> Map<Seq<char>, Session<C>> {
        self.sessions@
    }

    /// The epoch that the next capturer gets.
    pub closed spec fn next_epoch(&self) -> u64 {
        self.next_epoch
    }

    /// The time between two captures of a session.
    pub closed spec fn spec_interval(&self) -> Duration {
        self.interval
    }

    /// The number of history lines that a capture asks for.
    pub closed spec fn spec_scrollback(&self) -> u32 {
        self.scrollback
    }

    /// The hub together with the capturers that run for it, by epoch.
    pub open spec fn fleet(&self, running: Map<u64, Seq<char>>) -> Fleet<C> {
        Fleet { sessions: self.sessions(), next_epoch: self.next_epoch(), running }
    }

    /// Whether the two hubs capture in the same way.
    pub open spec fn same_settings(&self, other: &Hub<C>) -> bool {
        &&& self.spec_interval() == other.spec_interval()
        &&& self.spec_scrollback() == other.spec_scrollback()
    }

    /// Creates an empty hub. `interval` and `scrollback` are applied to every
    /// capturer.
    pub fn new(interval: Duration, scrollback: u32) -> (hub: Hub<C>)
        ensures
            hub.sessions() == Map::<Seq<char>, Session<C>>::empty(),
            hub.next_epoch() == 0,
            hub.fleet(Map::empty()) == Fleet::<C>::initial(),
            hub.spec_interval() == interval,
            hub.spec_scrollback() == scrollback,
    {
        Hub { sessions: StringHashMap::new(), next_epoch: 0, interval, scrollback }
    }

    /// Subscribes to live updates for `session`. If this is the first
    /// subscriber, a channel is opened with `open`, which is handed the channel's
    /// first state, and registered under a fresh epoch, and the caller has to
    /// start the capturer that will feed every subscriber.
    pub fn subscribe<F: FnOnce(PaneUpdate) -> C>(
        &mut self,
        session: &str,
        open: F,
    ) -> (sub: Subscription<'_, C>)
        requires
            open.requires((PaneUpdate::Pending,)),
        ensures
            final(self).same_settings(old(self)),
            final(self).sessions() == registered(
                old(self).sessions(),
                session@,
                old(self).next_epoch(),
                *sub.tx,
            ),
            old(self).sessions().contains_key(session@) ==> {
                &&& sub.start is None
                &&& *sub.tx == old(self).sessions()[session@].tx
                &&& final(self).next_epoch() == old(self).next_epoch()
            },
            !old(self).sessions().contains_key(session@) ==> {
                &&& sub.start == Some(old(self).next_epoch())
                &&& open.ensures((PaneUpdate::Pending,), *sub.tx)
                &&& final(self).next_epoch() == following(old(self).next_epoch())
            },
            forall|running: Map<u64, Seq<char>>| #[trigger]
                old(self).fleet(running).subscribed(session@, *sub.tx) == final(self).fleet(
                    started(running, sub.start, session@),
                ),
    {
        let mut start: Option<u64> = None;
        if !self.sessions.contains_key(session) {
            let epoch: u64 = self.next_epoch;
            self.next_epoch = epoch.wrapping_add(1);
            let tx = open(PaneUpdate::initial());
            self.sessions.insert(session.to_owned(), Session { epoch, tx });
            start = Some(epoch);
        }
        let entry = self.sessions.get(session).unwrap();
        Subscription { tx: &entry.tx, start }
    }

    /// Removes this capturer's entry for `session` on a terminal state, but only
    /// if the registered entry is still its own (matching `epoch`), so that it
    /// can never delete a successor's freshly inserted entry.
    pub fn remove(&mut self, session: &str, epoch: u64)
        ensures
            final(self).sessions() == deregistered(old(self).sessions(), session@, epoch),
            final(self).next_epoch() == old(self).next_epoch(),
            final(self).same_settings(old(self)),
            forall|running: Map<u64, Seq<char>>|
                running.contains_key(epoch) && running[epoch] == session@
                    ==> #[trigger] old(self).fleet(running).ended(epoch) == final(self).fleet(
                    running.remove(epoch),
                ),
    {
        let ours = match self.sessions.get(session) {
            Some(entry) => entry.epoch == epoch,
            None => false,
        };
        if ours {
            self.sessions.remove(session);
        }
    }

    /// Removes this capturer's entry and returns `true` iff no subscribers
    /// remain, given how many there are.
    pub fn retire_if_idle(&mut self, session: &str, subscribers: usize, epoch: u64) -> (idle: bool)
        ensures
            idle == (subscribers == 0),
            final(self).sessions() == (if idle {
                deregistered(old(self).sessions(), session@, epoch)
            } else {
                old(self).sessions()
            }),
            final(self).next_epoch() == old(self).next_epoch(),
            final(self).same_settings(old(self)),
            forall|running: Map<u64, Seq<char>>|
                idle && running.contains_key(epoch) && running[epoch] == session@
                    ==> #[trigger] old(self).fleet(running).ended(epoch) == final(self).fleet(
                    running.remove(epoch),
                ),
            forall|running: Map<u64, Seq<char>>|
                !idle ==> #[trigger] final(self).fleet(running) == old(self).fleet(running),
    {
        if subscribers == 0 {
            self.remove(session, epoch);
            true
        } else {
            false
        }
    }

    /// The number of sessions with a live capturer.
    pub fn active_count(&self) -> (n: usize)
        ensures
            n == self.sessions().len(),
    {
        self.sessions.len()
    }

    /// The time to wait between two captures of a session.
    pub fn interval(&self) -> (interval: Duration)
        ensures
            interval == self.spec_interval(),
    {
        self.interval
    }

    /// The arguments with which tmux captures `session` for this hub's
    /// capturers, or a refusal if the name is not allowlisted.
    pub fn capture_args(&self, session: &str) -> (r: Result<Vec<String>, TmuxError>)
        ensures
            validation::allowed_name(session@) ==> r is Ok && text::texts(r->Ok_0@)
                == tmux::capture_arguments(session@, self.spec_scrollback() as nat),
            !validation::allowed_name(session@) ==> r is Err && r->Err_0@
                == tmux::TmuxErrorView::Rejected(session@),
    {
        tmux::capture_pane(session, self.scrollback)
    }
}

/// The sending half of a `tokio` watch channel, carried as a handle.
#[verifier::external_type_specification]
#[verifier::external_body]
#[verifier::reject_recursive_types(T)]
pub struct ExWatchSender<T>(watch::Sender<T>);

/// `watch::Sender::receiver_count`: how many receivers the channel has at the
/// moment. Nothing is claimed of the number: other tasks come and go meanwhile.
pub assume_specification<T>[ watch::Sender::<T>::receiver_count ](
    tx: &watch::Sender<T>,
) -> usize;

impl Hub<watch::Sender<PaneUpdate>> {
    /// Removes this capturer's entry and returns `true` iff no receiver of `tx`
    /// remains, by the count that `receiver_count` gives for it.
    ///
    /// Called with the registry locked, this closes the race with
    /// [`Hub::subscribe`]: either a newly arriving subscriber has already been
    /// counted, or it will find the entry gone and start a fresh capturer.
    pub fn stop_if_idle(
        &mut self,
        session: &str,
        tx: &watch::Sender<PaneUpdate>,
        epoch: u64,
    ) -> (idle: bool)
        ensures
            exists|n: usize|
                #[trigger] call_ensures(watch::Sender::<PaneUpdate>::receiver_count, (tx,), n)
                    && idle == (n == 0),
            final(self).sessions() == (if idle {
                deregistered(old(self).sessions(), session@, epoch)
            } else {
                old(self).sessions()
            }),
            final(self).next_epoch() == old(self).next_epoch(),
            final(self).same_settings(old(self)),
            forall|running: Map<u64, Seq<char>>|
                idle && running.contains_key(epoch) && running[epoch] == session@
                    ==> #[trigger] old(self).fleet(running).ended(epoch) == final(self).fleet(
                    running.remove(epoch),
                ),
            forall|running: Map<u64, Seq<char>>|
                !idle ==> #[trigger] final(self).fleet(running) == old(self).fleet(running),
    {
        let subscribers: usize = tx.receiver_count();
        self.retire_if_idle(session, subscribers, epoch)
    }
}

/// What a capturer does next; it takes the actions of a list one after the
/// other.
pub enum CapturerAction {
    /// Report a problem on the server's side.
    Log(String),
    /// Make this the latest state that subscribers see.
    Publish(PaneUpdate),
    /// Wait for the hub's interval.
    Sleep,
    /// Leave the registry if no subscriber remains, and go on as
    /// [`after_idle_check`] says.
    StopIfIdle,
    /// Take the own entry out of the registry.
    Remove,
    /// End the task.
    Stop,
}

/// The mathematical counterpart of [`CapturerAction`].
pub enum CapturerActionView {
    Log(Seq<char>),
    Publish(PaneUpdateView),
    Sleep,
    StopIfIdle,
    Remove,
    Stop,
}

impl View for CapturerAction {
    type V = CapturerActionView;

    open spec fn view(&self) -> CapturerActionView {
        match self {
            CapturerAction::Log(line) => CapturerActionView::Log(line@),
            CapturerAction::Publish(update) => CapturerActionView::Publish(update@),
            CapturerAction::Sleep => CapturerActionView::Sleep,
            CapturerAction::StopIfIdle => CapturerActionView::StopIfIdle,
            CapturerAction::Remove => CapturerActionView::Remove,
            CapturerAction::Stop => CapturerActionView::Stop,
        }
    }
}

/// What a list of actions stands for.
pub open spec fn actions_view(actions: Seq<CapturerAction>) -> Seq<CapturerActionView> {
    actions.map_values(|a: CapturerAction| a@)
}

/// How an attempt to capture a pane ended: with the pane's text, with an error
/// of tmux, or with the failure of the task that made the attempt.
pub enum CaptureView {
    Text(Seq<char>),
    Failed(tmux::TmuxErrorView),
    Crashed(Seq<char>),
}

/// How an attempt to capture a pane ended.
pub open spec fn capture_view(captured: Result<Result<String, TmuxError>, String>) -> CaptureView {
    match captured {
        Ok(Ok(text)) => CaptureView::Text(text@),
        Ok(Err(err)) => CaptureView::Failed(err@),
        Err(join) => CaptureView::Crashed(join@),
    }
}

/// What subscribers are told when a session can no longer be captured.
pub open spec fn gone_notice() -> PaneUpdateView {
    PaneUpdateView::Gone(json::literal("session unavailable"@))
}

/// What the capturer of `session` does after an attempt to capture the pane. A
/// text is published, and the next attempt follows after a pause. Anything else
/// is terminal: subscribers are told so while the channel is still open, and
/// only then does the entry leave the registry.
pub open spec fn after_attempt(session: Seq<char>, captured: CaptureView) -> Seq<
    CapturerActionView,
> {
    match captured {
        CaptureView::Text(text) => seq![
            CapturerActionView::Publish(PaneUpdateView::Pane(json::literal(text))),
            CapturerActionView::Sleep,
            CapturerActionView::StopIfIdle,
        ],
        CaptureView::Failed(err) => seq![
            CapturerActionView::Log(
                "tmux-otg: capture failed for "@ + session + ": "@ + err.message(),
            ),
            CapturerActionView::Publish(gone_notice()),
            CapturerActionView::Remove,
            CapturerActionView::Stop,
        ],
        CaptureView::Crashed(join) => seq![
            CapturerActionView::Log(
                "tmux-otg: capture task for "@ + session + " failed: "@ + join,
            ),
            CapturerActionView::Publish(gone_notice()),
            CapturerActionView::Remove,
            CapturerActionView::Stop,
        ],
    }
}

/// What the capturer of `session` does after an attempt to capture the pane,
/// which ended with a text, with an error of tmux, or with the failure (and its
/// description) of the task that made the attempt.
pub fn after_capture(session: &str, captured: Result<Result<String, TmuxError>, String>) -> (out:
    Vec<CapturerAction>)
    ensures
        actions_view(out@) == after_attempt(session@, capture_view(captured)),
{
    let mut out: Vec<CapturerAction> = Vec::new();
    let line = match captured {
        Ok(Ok(text)) => {
            out.push(CapturerAction::Publish(PaneUpdate::Pane(encode(text.as_str()))));
            out.push(CapturerAction::Sleep);
            out.push(CapturerAction::StopIfIdle);
            assert(actions_view(out@) =~= after_attempt(session@, capture_view(captured)));
            return out;
        },
        Ok(Err(err)) => "tmux-otg: capture failed for ".to_owned().concat(session).concat(
            ": ",
        ).concat(err.to_string().as_str()),
        Err(join) => "tmux-otg: capture task for ".to_owned().concat(session).concat(
            " failed: ",
        ).concat(join.as_str()),
    };
    out.push(CapturerAction::Log(line));
    out.push(CapturerAction::Publish(PaneUpdate::Gone(encode("session unavailable"))));
    out.push(CapturerAction::Remove);
    out.push(CapturerAction::Stop);
    assert(actions_view(out@) =~= after_attempt(session@, capture_view(captured)));
    out
}

/// How a capturer goes on after it looked whether any subscriber remains.
pub enum NextStep {
    /// End the task.
    Stop,
    /// Capture the pane again.
    Capture,
}

/// A capturer stops if it is `idle`, that is without subscribers, and captures
/// again if it is not.
pub open spec fn next_step(idle: bool) -> NextStep {
    if idle {
        NextStep::Stop
    } else {
        NextStep::Capture
    }
}

/// How a capturer goes on after [`Hub::stop_if_idle`]: it stops if it is `idle`
/// and captures again if it is not.
pub fn after_idle_check(idle: bool) -> (next: NextStep)
    ensures
        next == next_step(idle),
        next is Stop <==> idle,
        next is Capture <==> !idle,
{
    if idle {
        NextStep::Stop
    } else {
        NextStep::Capture
    }
}

/// A capturer ends exactly when a capture fails or nobody listens any more, and
/// captures again otherwise.
pub proof fn capturer_runs_while_watched(session: Seq<char>, captured: CaptureView, idle: bool)
    ensures
        ({
            let last = after_attempt(session, captured).last();
            let ends = last is Stop || last is StopIfIdle && next_step(idle) is Stop;
            let again = last is StopIfIdle && next_step(idle) is Capture;
            &&& ends <==> idle || !(captured is Text)
            &&& again <==> !ends
        }),
{
}

/// What is made of a text for subscribers stands on one line and reads back as that
/// text.
pub proof fn encoded_text_reads_back(text: &str, payload: Arc<str>)
    requires
        call_ensures(encode, (text,), payload),
    ensures
        json::parsed(payload@) == Some(text@),
        !payload@.contains('\n'),
        !payload@.contains('\r'),
{
    json::parsed_literal(text@);
    json::literal_is_one_line(text@);
}

/// After a successful capture, whatever its text, subscribers get that text, then
/// the capturer pauses once, and only then does it look whether anybody still
/// listens; it does nothing else. So two captures of a session are always the
/// hub's interval apart.
pub proof fn captures_are_an_interval_apart(
    session: &str,
    text: String,
    actions: Vec<CapturerAction>,
)
    requires
        call_ensures(after_capture, (session, Ok(Ok(text))), actions),
    ensures
        exists|i: int| 0 <= i < actions@.len() && (#[trigger] actions@[i]) is Publish,
        exists|i: int| 0 <= i < actions@.len() && (#[trigger] actions@[i]) is Sleep,
        exists|i: int| 0 <= i < actions@.len() && (#[trigger] actions@[i]) is StopIfIdle,
        forall|i: int, k: int|
            #![trigger actions@[i], actions@[k]]
            0 <= i < actions@.len() && 0 <= k < actions@.len() ==> {
                &&& actions@[i] is Publish && actions@[k] is Publish ==> i == k
                &&& actions@[i] is Sleep && actions@[k] is Sleep ==> i == k
                &&& actions@[i] is StopIfIdle && actions@[k] is StopIfIdle ==> i == k
                &&& actions@[i] is Publish && actions@[k] is Sleep ==> i < k
                &&& actions@[i] is Sleep && actions@[k] is StopIfIdle ==> i < k
            },
        forall|i: int|
            0 <= i < actions@.len() ==> match #[trigger] actions@[i] {
                CapturerAction::Publish(update) => match update {
                    PaneUpdate::Pane(payload) => json::parsed(payload@) == Some(text@),
                    _ => false,
                },
                CapturerAction::Sleep => true,
                CapturerAction::StopIfIdle => true,
                _ => false,
            },
{
    let views = actions_view(actions@);
    assert(views == after_attempt(session@, CaptureView::Text(text@)));
    assert(actions@.len() == views.len());
    assert forall|i: int| 0 <= i < actions@.len() implies (#[trigger] actions@[i])@ == views[i] by {
    }
    json::parsed_literal(text@);
    assert(actions@[0] is Publish);
    assert(actions@[1] is Sleep);
    assert(actions@[2] is StopIfIdle);
}

/// After anything but a successful capture the capturer reports the problem, with
/// the session and the reason, tells subscribers that the session is unavailable,
/// then leaves the registry and then ends, each once; it neither pauses nor goes
/// on.
pub proof fn failed_captures_end_the_capturer(
    session: &str,
    captured: Result<Result<String, TmuxError>, String>,
    actions: Vec<CapturerAction>,
)
    requires
        call_ensures(after_capture, (session, captured), actions),
        captured is Err || captured->Ok_0 is Err,
    ensures
        exists|i: int| 0 <= i < actions@.len() && (#[trigger] actions@[i]) is Log,
        exists|i: int| 0 <= i < actions@.len() && (#[trigger] actions@[i]) is Publish,
        exists|i: int| 0 <= i < actions@.len() && (#[trigger] actions@[i]) is Remove,
        exists|i: int| 0 <= i < actions@.len() && (#[trigger] actions@[i]) is Stop,
        forall|i: int, k: int|
            #![trigger actions@[i], actions@[k]]
            0 <= i < actions@.len() && 0 <= k < actions@.len() ==> {
                &&& actions@[i] is Log && actions@[k] is Log ==> i == k
                &&& actions@[i] is Publish && actions@[k] is Publish ==> i == k
                &&& actions@[i] is Remove && actions@[k] is Remove ==> i == k
                &&& actions@[i] is Stop && actions@[k] is Stop ==> i == k
                &&& actions@[i] is Publish && actions@[k] is Remove ==> i < k
                &&& actions@[i] is Remove && actions@[k] is Stop ==> i < k
            },
        forall|i: int|
            0 <= i < actions@.len() ==> match #[trigger] actions@[i] {
                CapturerAction::Log(line) => line@ == (match captured {
                    Ok(Err(err)) => "tmux-otg: capture failed for "@ + session@ + ": "@
                        + err@.message(),
                    Err(join) => "tmux-otg: capture task for "@ + session@ + " failed: "@ + join@,
                    Ok(Ok(_)) => seq![],
                }),
                CapturerAction::Publish(update) => match update {
                    PaneUpdate::Gone(payload) => json::parsed(payload@) == Some(
                        "session unavailable"@,
                    ),
                    _ => false,
                },
                CapturerAction::Remove => true,
                CapturerAction::Stop => true,
                _ => false,
            },
{
    let views = actions_view(actions@);
    assert(views == after_attempt(session@, capture_view(captured)));
    assert(actions@.len() == views.len());
    assert forall|i: int| 0 <= i < actions@.len() implies (#[trigger] actions@[i])@ == views[i] by {
    }
    json::parsed_literal("session unavailable"@);
    assert(actions@[0] is Log);
    assert(actions@[1] is Publish);
    assert(actions@[2] is Remove);
    assert(actions@[3] is Stop);
}

/// A subscription concerns one session only: it has an entry afterwards, the one
/// that it had or else a new one with the given epoch and channel, and every
/// other session has what it had.
pub proof fn subscribing_concerns_one_session<C>(
    sessions: Map<Seq<char>, Session<C>>,
    session: Seq<char>,
    epoch: u64,
    tx: C,
    other: Seq<char>,
)
    requires
        other != session,
    ensures
        ({
            let after = registered(sessions, session, epoch, tx);
            &&& after.contains_key(session)
            &&& sessions.contains_key(session) ==> after[session] == sessions[session]
            &&& !sessions.contains_key(session) ==> after[session].epoch == epoch
                && after[session].tx == tx
            &&& after.contains_key(other) <==> sessions.contains_key(other)
            &&& sessions.contains_key(other) ==> after[other] == sessions[other]
        }),
{
}

/// A capturer that leaves concerns one session only, and only its own entry: that
/// one is gone afterwards, an entry of another capturer stays, and every other
/// session has what it had.
pub proof fn leaving_concerns_one_session<C>(
    sessions: Map<Seq<char>, Session<C>>,
    session: Seq<char>,
    epoch: u64,
    other: Seq<char>,
)
    requires
        other != session,
    ensures
        ({
            let after = deregistered(sessions, session, epoch);
            &&& after.contains_key(session) <==> sessions.contains_key(session)
                && sessions[session].epoch != epoch
            &&& after.contains_key(session) ==> after[session] == sessions[session]
            &&& after.contains_key(other) <==> sessions.contains_key(other)
            &&& sessions.contains_key(other) ==> after[other] == sessions[other]
        }),
{
}

/// What a hub was made with reaches every capture: its interval is what capturers
/// wait for, and its scrollback what tmux is asked for.
pub proof fn hub_settings_reach_the_captures<C>(
    interval: Duration,
    scrollback: u32,
    hub: Hub<C>,
    waited: Duration,
    session: &str,
    args: Result<Vec<String>, TmuxError>,
    pane_args: Result<Vec<String>, TmuxError>,
)
    requires
        call_ensures(Hub::<C>::new, (interval, scrollback), hub),
        call_ensures(Hub::<C>::interval, (&hub,), waited),
        call_ensures(Hub::<C>::capture_args, (&hub, session), args),
        call_ensures(tmux::capture_pane, (session, scrollback), pane_args),
    ensures
        waited == interval,
        args is Ok <==> pane_args is Ok,
        args is Ok ==> text::texts(args->Ok_0@) == text::texts(pane_args->Ok_0@),
        args is Err ==> args->Err_0@ == pane_args->Err_0@,
{
}

/// A captured pane reaches subscribers as one line, and reads back as the text
/// that was captured.
pub proof fn published_pane_reads_back(session: Seq<char>, text: Seq<char>)
    ensures
        ({
            let first = after_attempt(session, CaptureView::Text(text))[0];
            &&& first is Publish
            &&& first->Publish_0 is Pane
            &&& json::parsed(first->Publish_0->Pane_0) == Some(text)
            &&& !first->Publish_0->Pane_0.contains('\n')
            &&& !first->Publish_0->Pane_0.contains('\r')
        }),
{
    json::parsed_literal(text);
    json::literal_is_one_line(text);
}

/// Whether `actions` makes `update` visible at position `i`.
pub open spec fn publishes(
    actions: Seq<CapturerActionView>,
    i: int,
    update: PaneUpdateView,
) -> bool {
    0 <= i < actions.len() && actions[i] == CapturerActionView::Publish(update)
}

/// Subscribers see that a session is gone before its entry leaves the registry
/// and before the task ends, and only a failed capture makes a capturer do
/// either.
pub proof fn gone_is_published_before_the_capturer_leaves(
    session: Seq<char>,
    captured: CaptureView,
    i: int,
)
    requires
        0 <= i < after_attempt(session, captured).len(),
        after_attempt(session, captured)[i] is Remove || after_attempt(
            session,
            captured,
        )[i] is Stop,
    ensures
        captured !is Text,
        exists|k: int| k < i && publishes(after_attempt(session, captured), k, gone_notice()),
{
    assert(publishes(after_attempt(session, captured), 1, gone_notice()));
}

/// Every attempt makes exactly one new state visible, and the pause comes after
/// it.
pub proof fn every_attempt_is_published(session: Seq<char>, captured: CaptureView)
    ensures
        exists|i: int|
            0 <= i < after_attempt(session, captured).len() && #[trigger] after_attempt(
                session,
                captured,
            )[i] is Publish,
        forall|i: int, k: int|
            0 <= i < after_attempt(session, captured).len() && 0 <= k < after_attempt(
                session,
                captured,
            ).len() && #[trigger] after_attempt(session, captured)[i] is Publish
                && #[trigger] after_attempt(session, captured)[k] is Publish ==> i == k,
        forall|i: int, k: int|
            0 <= i < after_attempt(session, captured).len() && 0 <= k < after_attempt(
                session,
                captured,
            ).len() && #[trigger] after_attempt(session, captured)[i] is Publish
                && #[trigger] after_attempt(session, captured)[k] is Sleep ==> i < k,
{
    let actions = after_attempt(session, captured);
    assert(actions[0] is Publish || actions[1] is Publish);
}

/// The epoch of the `n`-th capturer that a hub starts, counted from zero.
pub open spec fn nth_epoch(n: nat) -> u64 {
    (n % 0x1_0000_0000_0000_0000) as u64
}

/// A hub hands out the epochs in turn, and no epoch twice within as many
/// capturers as there are epochs.
pub proof fn epochs_are_unique(i: nat, k: nat)
    requires
        i < k < i + 0x1_0000_0000_0000_0000,
    ensures
        nth_epoch(0) == 0,
        following(nth_epoch(i)) == nth_epoch(i + 1),
        nth_epoch(i) != nth_epoch(k),
{
}

/// A hub together with the capturers that have been started for it and have not
/// ended, by epoch.
#[verifier::reject_recursive_types(C)]
pub struct Fleet<C> {
    pub sessions: Map<Seq<char>, Session<C>>,
    pub next_epoch: u64,
    pub running: Map<u64, Seq<char>>,
}

impl<C> Fleet<C> {
    /// A new hub, without capturers.
    pub open spec fn initial() -> Fleet<C> {
        Fleet { sessions: Map::empty(), next_epoch: 0, running: Map::empty() }
    }

    /// What happens when a client subscribes to `session`; `tx` is the channel
    /// that is opened if there is none.
    pub open spec fn subscribed(self, session: Seq<char>, tx: C) -> Fleet<C> {
        let known = self.sessions.contains_key(session);
        Fleet {
            sessions: registered(self.sessions, session, self.next_epoch, tx),
            next_epoch: if known {
                self.next_epoch
            } else {
                following(self.next_epoch)
            },
            running: if known {
                self.running
            } else {
                self.running.insert(self.next_epoch, session)
            },
        }
    }

    /// What happens when the capturer `epoch` ends, because it failed or because
    /// no subscriber remained.
    pub open spec fn ended(self, epoch: u64) -> Fleet<C> {
        Fleet {
            sessions: deregistered(self.sessions, self.running[epoch], epoch),
            next_epoch: self.next_epoch,
            running: self.running.remove(epoch),
        }
    }

    /// Registered sessions and running capturers match one to one.
    pub open spec fn in_order(self) -> bool {
        &&& forall|s: Seq<char>| #[trigger]
            self.sessions.contains_key(s) ==> {
                &&& self.running.contains_key(self.sessions[s].epoch)
                &&& self.running[self.sessions[s].epoch] == s
            }
        &&& forall|e: u64| #[trigger]
            self.running.contains_key(e) ==> {
                &&& e < self.next_epoch
                &&& self.sessions.contains_key(self.running[e])
                &&& self.sessions[self.running[e]].epoch == e
            }
    }
}

/// A new hub is in order.
pub proof fn new_fleet_is_in_order<C>()
    ensures
        Fleet::<C>::initial().in_order(),
{
}

/// A hub stays in order when a client subscribes, as long as it has not run out
/// of epochs.
pub proof fn subscribing_keeps_order<C>(fleet: Fleet<C>, session: Seq<char>, tx: C)
    requires
        fleet.in_order(),
        fleet.sessions.contains_key(session) || fleet.next_epoch < u64::MAX,
    ensures
        fleet.subscribed(session, tx).in_order(),
{
}

/// A hub stays in order when a capturer ends.
pub proof fn ending_keeps_order<C>(fleet: Fleet<C>, epoch: u64)
    requires
        fleet.in_order(),
        fleet.running.contains_key(epoch),
    ensures
        fleet.ended(epoch).in_order(),
{
}

/// No session ever has two running capturers.
pub proof fn one_capturer_per_session<C>(fleet: Fleet<C>, a: u64, b: u64)
    requires
        fleet.in_order(),
        fleet.running.contains_key(a),
        fleet.running.contains_key(b),
        fleet.running[a] == fleet.running[b],
    ensures
        a == b,
{
}

/// A subscriber is never stranded: whoever subscribes is attached to a capturer
/// that runs for this session.
pub proof fn subscriber_has_a_running_capturer<C>(fleet: Fleet<C>, session: Seq<char>, tx: C)
    requires
        fleet.in_order(),
    ensures
        ({
            let after = fleet.subscribed(session, tx);
            &&& after.sessions.contains_key(session)
            &&& after.running.contains_key(after.sessions[session].epoch)
            &&& after.running[after.sessions[session].epoch] == session
        }),
{
}

/// A second subscriber to a session shares the capturer and the channel of the
/// first, and starts nothing.
pub proof fn second_subscriber_shares_the_capturer<C>(
    fleet: Fleet<C>,
    session: Seq<char>,
    first: C,
    second: C,
)
    ensures
        fleet.subscribed(session, first).subscribed(session, second) == fleet.subscribed(
            session,
            first,
        ),
{
}

/// An ended capturer leaves the entries of all other sessions alone, and also
/// the entry that a successor made for its own session.
pub proof fn ended_capturer_disturbs_nobody<C>(fleet: Fleet<C>, epoch: u64, session: Seq<char>)
    requires
        fleet.sessions.contains_key(session),
        fleet.sessions[session].epoch != epoch,
    ensures
        fleet.ended(epoch).sessions.contains_key(session),
        fleet.ended(epoch).sessions[session] == fleet.sessions[session],
{
}

/// There are as many running capturers as sessions being watched, however many
/// clients watch them.
pub proof fn capturers_are_bounded_by_sessions<C>(fleet: Fleet<C>)
    requires
        fleet.in_order(),
        fleet.sessions.dom().finite(),
    ensures
        fleet.running.dom().finite(),
        fleet.running.len() == fleet.sessions.len(),
{
    let epoch_of = |s: Seq<char>| fleet.sessions[s].epoch;
    let epochs = fleet.sessions.dom().map(epoch_of);
    assert forall|e: u64| fleet.running.dom().contains(e) implies epochs.contains(e) by {
        assert(fleet.sessions.dom().contains(fleet.running[e]));
        assert(epoch_of(fleet.running[e]) == e);
    }
    assert(epochs =~= fleet.running.dom());
    vstd::set_lib::lemma_map_size(fleet.sessions.dom(), fleet.running.dom(), epoch_of);
}

/// A capturer retires exactly if nobody listens. Then its own entry, and no other,
/// leaves the registry; otherwise the registry stays as it is.
pub proof fn capturers_retire_when_nobody_listens<C>(
    hub: &mut Hub<C>,
    session: &str,
    subscribers: usize,
    epoch: u64,
    idle: bool,
    other: Seq<char>,
)
    requires
        call_ensures(Hub::<C>::retire_if_idle, (hub, session, subscribers, epoch), idle),
    ensures
        idle <==> subscribers == 0,
        final(hub).sessions().contains_key(other) <==> old(hub).sessions().contains_key(other) && !(
        subscribers == 0 && other == session@ && old(hub).sessions()[other].epoch == epoch),
        final(hub).sessions().contains_key(other) ==> final(hub).sessions()[other] == old(hub).sessions()[other],
        final(hub).next_epoch() == old(hub).next_epoch(),
{
}

/// A capturer that removes its entry concerns nobody else: its own entry is gone
/// afterwards, and every other one is what it was.
pub proof fn capturers_remove_their_own_entry<C>(
    hub: &mut Hub<C>,
    session: &str,
    epoch: u64,
    other: Seq<char>,
)
    requires
        call_ensures(Hub::<C>::remove, (hub, session, epoch), ()),
    ensures
        final(hub).sessions().contains_key(other) <==> old(hub).sessions().contains_key(other) && !(
        other == session@ && old(hub).sessions()[other].epoch == epoch),
        final(hub).sessions().contains_key(other) ==> final(hub).sessions()[other] == old(hub).sessions()[other],
        final(hub).next_epoch() == old(hub).next_epoch(),
{
}

/// A subscriber listens to the channel that is registered for the session. If there
/// was one, it stays and nothing is started; if there was none, a channel is opened
/// in its first state and a capturer is started under the next epoch. Every other
/// session has what it had.
pub proof fn subscribers_share_the_channel<C, F: FnOnce(PaneUpdate) -> C>(
    hub: &mut Hub<C>,
    session: &str,
    open: F,
    sub: Subscription<'_, C>,
    other: Seq<char>,
)
    requires
        call_ensures(Hub::<C>::subscribe::<F>, (hub, session, open), sub),
    ensures
        final(hub).sessions().contains_key(session@),
        final(hub).sessions()[session@].tx == *sub.tx,
        sub.start is None <==> old(hub).sessions().contains_key(session@),
        sub.start is None ==> final(hub).sessions() == old(hub).sessions() && final(hub).next_epoch() == old(hub).next_epoch(),
        sub.start matches Some(epoch) ==> {
            &&& epoch == old(hub).next_epoch()
            &&& final(hub).sessions()[session@].epoch == epoch
            &&& final(hub).next_epoch() != epoch
            &&& open.ensures((PaneUpdate::Pending,), *sub.tx)
        },
        other != session@ ==> {
            &&& final(hub).sessions().contains_key(other) <==> old(hub).sessions().contains_key(
                other,
            )
            &&& old(hub).sessions().contains_key(other) ==> final(hub).sessions()[other] == old(hub).sessions()[other]
        },
{
}

} // verus!
