use std::time::Duration;

use tmux_otg::hub::{
    after_capture, after_idle_check, encode, CapturerAction, Hub, NextStep, PaneUpdate,
};
use tmux_otg::json::json_literal;
use tmux_otg::tmux::TmuxError;
use tokio::sync::watch;

#[test]
fn encode_produces_a_parseable_json_string() {
    let got = encode("line one\nline two");
    // Must be a single JSON string literal (no raw newline) so SSE framing
    // is preserved; round-trips back to the original text.
    assert!(!got.contains('\n'));
    let back: String = serde_json::from_str(&got).unwrap();
    assert_eq!(back, "line one\nline two");
}

#[test]
fn second_subscriber_shares_one_capturer() {
    let mut hub: Hub<watch::Sender<PaneUpdate>> = Hub::new(Duration::from_secs(60), 0);
    let first = hub.subscribe("public-insecure-shared-capturer-test", |first| {
        watch::channel(first).0
    });
    assert_eq!(first.start, Some(0));
    let tx = first.tx.clone();
    let second = hub.subscribe("public-insecure-shared-capturer-test", |_| {
        panic!("a channel is open already")
    });
    assert_eq!(second.start, None);
    assert!(second.tx.same_channel(&tx));
    assert_eq!(hub.active_count(), 1, "both subscribers share one capturer");
}

#[test]
fn new_channels_start_out_pending() {
    assert!(matches!(PaneUpdate::initial(), PaneUpdate::Pending));
    let mut hub: Hub<watch::Sender<PaneUpdate>> = Hub::new(Duration::from_secs(2), 0);
    let sub = hub.subscribe("public-insecure-a", |first| watch::channel(first).0);
    assert!(matches!(*sub.tx.borrow(), PaneUpdate::Pending));
}

#[test]
fn literals_escape_what_json_requires() {
    assert_eq!(json_literal("a\"b\\c/d"), r#""a\"b\\c/d""#);
    assert_eq!(json_literal("\u{8}\t\n\u{c}\r"), r#""\b\t\n\f\r""#);
    assert_eq!(json_literal("\0\u{1f}\u{7f}é"), "\"\\u0000\\u001f\u{7f}é\"");
    assert_eq!(json_literal(""), "\"\"");
}

#[test]
fn literals_read_back() {
    let mut all = String::new();
    for code in 0u32..0x300 {
        if let Some(c) = char::from_u32(code) {
            all.push(c);
        }
    }
    all.push('\u{2028}');
    all.push('\u{1f600}');
    let literal = json_literal(&all);
    assert!(literal.chars().all(|c| c >= ' '));
    let back: String = serde_json::from_str(&literal).unwrap();
    assert_eq!(back, all);
}

#[test]
fn capturer_stops_only_when_nobody_listens() {
    let mut hub: Hub<watch::Sender<PaneUpdate>> = Hub::new(Duration::from_secs(2), 0);
    let (tx, rx) = watch::channel(PaneUpdate::Pending);
    let epoch = hub.subscribe("public-insecure-a", |_| tx.clone()).start.unwrap();
    assert!(!hub.stop_if_idle("public-insecure-a", &tx, epoch));
    assert_eq!(hub.active_count(), 1);
    drop(rx);
    assert!(hub.stop_if_idle("public-insecure-a", &tx, epoch));
    assert_eq!(hub.active_count(), 0);
}

#[test]
fn capturer_goes_on_while_somebody_listens() {
    assert!(matches!(after_idle_check(true), NextStep::Stop));
    assert!(matches!(after_idle_check(false), NextStep::Capture));
}

#[test]
fn late_capturer_leaves_its_successor_alone() {
    let mut hub: Hub<u32> = Hub::new(Duration::from_secs(2), 0);
    let old = hub.subscribe("s", |_| 10).start.unwrap();
    hub.remove("s", old);
    let sub = hub.subscribe("s", |_| 20);
    let new = sub.start.unwrap();
    assert_eq!(*sub.tx, 20);
    assert_ne!(old, new);
    hub.remove("s", old);
    assert!(hub.retire_if_idle("s", 0, old));
    assert_eq!(hub.active_count(), 1);
    assert!(!hub.retire_if_idle("s", 3, new));
    assert_eq!(hub.active_count(), 1);
    assert!(hub.retire_if_idle("s", 0, new));
    assert_eq!(hub.active_count(), 0);
}

#[test]
fn sessions_have_capturers_of_their_own() {
    let mut hub: Hub<u32> = Hub::new(Duration::from_secs(2), 0);
    assert_eq!(hub.subscribe("a", |_| 1).start, Some(0));
    assert_eq!(hub.subscribe("b", |_| 2).start, Some(1));
    assert_eq!(*hub.subscribe("a", |_| 3).tx, 1);
    assert_eq!(hub.active_count(), 2);
    hub.remove("a", 0);
    assert_eq!(hub.active_count(), 1);
    assert_eq!(*hub.subscribe("b", |_| 4).tx, 2);
}

#[test]
fn hub_settings_reach_the_capture() {
    let hub: Hub<u32> = Hub::new(Duration::from_secs(5), 12);
    assert_eq!(hub.interval(), Duration::from_secs(5));
    assert_eq!(
        hub.capture_args("public-insecure-a").unwrap(),
        vec!["capture-pane", "-p", "-J", "-S", "-12", "-t", "public-insecure-a"]
    );
    assert!(matches!(hub.capture_args("a"), Err(TmuxError::Rejected(_))));
}

#[test]
fn captured_text_is_published_then_paused() {
    let actions = after_capture("s", Ok(Ok("x\n\"y\"".to_string())));
    assert_eq!(actions.len(), 3);
    match &actions[0] {
        CapturerAction::Publish(PaneUpdate::Pane(p)) => assert_eq!(&**p, r#""x\n\"y\"""#),
        _ => panic!("a pane is published first"),
    }
    assert!(matches!(actions[1], CapturerAction::Sleep));
    assert!(matches!(actions[2], CapturerAction::StopIfIdle));
}

#[test]
fn failed_capture_is_announced_before_the_entry_goes() {
    let failed = after_capture("s", Ok(Err(TmuxError::Rejected("s".to_string()))));
    let crashed = after_capture("s", Err("panic".to_string()));
    for (actions, line) in [
        (failed, "tmux-otg: capture failed for s: session name not allowed: s"),
        (crashed, "tmux-otg: capture task for s failed: panic"),
    ] {
        assert_eq!(actions.len(), 4);
        match &actions[0] {
            CapturerAction::Log(l) => assert_eq!(l, line),
            _ => panic!("the problem is reported first"),
        }
        match &actions[1] {
            CapturerAction::Publish(PaneUpdate::Gone(p)) => {
                assert_eq!(&**p, "\"session unavailable\"")
            }
            _ => panic!("subscribers are told next"),
        }
        assert!(matches!(actions[2], CapturerAction::Remove));
        assert!(matches!(actions[3], CapturerAction::Stop));
    }
}
