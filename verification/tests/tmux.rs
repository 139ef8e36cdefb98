use tmux_otg::tmux::{
    capture_pane, captured_pane, failed_listing, is_idle_server_stderr, list_allowed_sessions,
    list_args, listed_sessions, version_args, TmuxError, TmuxOutput,
};

fn output(success: bool, code: Option<i32>, stdout: &[u8], stderr: &[u8]) -> TmuxOutput {
    TmuxOutput { success, code, stdout: stdout.to_vec(), stderr: stderr.to_vec() }
}

#[test]
fn capture_rejects_non_allowlisted_names_without_spawning() {
    // These must fail fast on validation, never reaching tmux.
    let err = capture_pane("private-session", 0).unwrap_err();
    assert!(matches!(err, TmuxError::Rejected(_)));

    let err = capture_pane("public-insecure-a;rm -rf /", 0).unwrap_err();
    assert!(matches!(err, TmuxError::Rejected(_)));
}

#[test]
fn idle_stderr_covers_the_no_server_family() {
    // macOS / tmux with a missing socket: this message contains neither "no
    // server running" nor "no sessions".
    assert!(is_idle_server_stderr(
        "error connecting to /private/tmp/tmux-501/default (No such file or directory)"
    ));
    // Linux / default-socket phrasing.
    assert!(is_idle_server_stderr("no server running on /tmp/tmux-1000/default"));
    // Stale socket left by a dead server.
    assert!(is_idle_server_stderr(
        "error connecting to /tmp/tmux-1000/default (Connection refused)"
    ));
    // Server up but empty (older tmux).
    assert!(is_idle_server_stderr("no sessions"));
    // Capitalization must not matter.
    assert!(is_idle_server_stderr("No Server Running on /tmp/x"));
}

#[test]
fn idle_stderr_does_not_swallow_real_errors() {
    assert!(!is_idle_server_stderr("server exited unexpectedly"));
    assert!(!is_idle_server_stderr("out of memory"));
    assert!(!is_idle_server_stderr("protocol version mismatch"));
    assert!(!is_idle_server_stderr(""));
}

#[test]
fn error_display_is_readable() {
    let e = TmuxError::Command { code: Some(1), stderr: "  can't find session  ".to_string() };
    assert_eq!(e.to_string(), "tmux exited with status 1: can't find session");

    let e = TmuxError::Rejected("nope".to_string());
    assert_eq!(e.to_string(), "session name not allowed: nope");
}

#[test]
fn error_display_covers_signal_and_task() {
    // A signal-terminated tmux has no exit code and renders as "signal".
    let e = TmuxError::Command { code: None, stderr: "  killed  ".to_string() };
    assert_eq!(e.to_string(), "tmux exited with status signal: killed");

    let e = TmuxError::Task("join panicked".to_string());
    assert_eq!(e.to_string(), "tmux task failed: join panicked");
}

#[test]
fn error_display_covers_spawn_and_negative_codes() {
    let e = TmuxError::Spawn("No such file or directory (os error 2)".to_string());
    assert_eq!(e.to_string(), "failed to run tmux: No such file or directory (os error 2)");

    let e = TmuxError::Command { code: Some(-7), stderr: "\u{a0}odd\n".to_string() };
    assert_eq!(e.to_string(), "tmux exited with status -7: odd");
}

#[test]
fn capture_arguments_name_the_session_last() {
    assert_eq!(
        capture_pane("public-insecure-demo", 0).unwrap(),
        vec!["capture-pane", "-p", "-J", "-t", "public-insecure-demo"]
    );
    assert_eq!(
        capture_pane("public-insecure-demo", 500).unwrap(),
        vec!["capture-pane", "-p", "-J", "-S", "-500", "-t", "public-insecure-demo"]
    );
}

#[test]
fn only_reading_commands_are_formed() {
    assert_eq!(version_args(), vec!["-V"]);
    assert_eq!(list_args(), vec!["list-sessions", "-F", "#{session_name}"]);
}

#[test]
fn listing_keeps_allowed_names() {
    let ran = Ok(output(true, Some(0), b"public-insecure-b\nprivate\npublic-insecure-a\n", b""));
    assert_eq!(
        list_allowed_sessions(ran).unwrap(),
        vec!["public-insecure-b", "public-insecure-a"]
    );
    assert_eq!(listed_sessions("public-insecure-z\r\nx"), vec!["public-insecure-z"]);
}

#[test]
fn listing_of_an_idle_server_is_empty() {
    let ran = Ok(output(false, Some(1), b"", b"no server running on /tmp/tmux-0/default\n"));
    assert!(list_allowed_sessions(ran).unwrap().is_empty());
    assert!(failed_listing(Some(1), "No Sessions".to_string()).unwrap().is_empty());
}

#[test]
fn listing_reports_failures() {
    let ran = Ok(output(false, Some(1), b"public-insecure-a\n", b"out of memory"));
    match list_allowed_sessions(ran) {
        Err(TmuxError::Command { code, stderr }) => {
            assert_eq!(code, Some(1));
            assert_eq!(stderr, "out of memory");
        }
        other => panic!("{other:?}"),
    }
    match list_allowed_sessions(Err("not found".to_string())) {
        Err(TmuxError::Spawn(why)) => assert_eq!(why, "not found"),
        other => panic!("{other:?}"),
    }
}

#[test]
fn captured_text_keeps_newlines_and_replaces_bad_bytes() {
    let ran = Ok(output(true, Some(0), "one\ntwo é\n".as_bytes(), b""));
    assert_eq!(captured_pane(ran).unwrap(), "one\ntwo é\n");

    let ran = Ok(output(true, Some(0), b"a\xffb", b""));
    assert_eq!(captured_pane(ran).unwrap(), "a\u{fffd}b");
}

#[test]
fn capture_reports_failures() {
    let ran = Ok(output(false, None, b"text", b"can't find session: \xff"));
    match captured_pane(ran) {
        Err(TmuxError::Command { code, stderr }) => {
            assert_eq!(code, None);
            assert_eq!(stderr, "can't find session: \u{fffd}");
        }
        other => panic!("{other:?}"),
    }
    match captured_pane(Err("gone".to_string())) {
        Err(TmuxError::Spawn(why)) => assert_eq!(why, "gone"),
        other => panic!("{other:?}"),
    }
}
