use std::time::Duration;

use tmux_otg::config::{Config, ConfigError, Host, SocketAddr, DEFAULT_HOST};
use tmux_otg::startup::{announce, check_tmux, fatal};

const LOCALHOST: Host = Host::V4([127, 0, 0, 1]);

#[test]
fn defaults_are_localhost_8080() {
    let cfg = Config::default();
    assert_eq!(cfg.host, LOCALHOST);
    assert_eq!(cfg.port, 8080);
    assert_eq!(cfg.interval_secs, 2);
    assert_eq!(cfg.scrollback, 0);
    assert_eq!(cfg.socket_addr(), SocketAddr { ip: LOCALHOST, port: 8080 });
}

#[test]
fn flags_override_defaults() {
    let cfg = Config::new(Host::V4([0, 0, 0, 0]), 9000, 5, 500).unwrap();
    assert_eq!(cfg.host, Host::V4([0, 0, 0, 0]));
    assert_eq!(cfg.port, 9000);
    assert_eq!(cfg.interval(), Duration::from_secs(5));
    assert_eq!(cfg.scrollback, 500);
}

#[test]
fn rejects_interval_below_minimum() {
    assert!(Config::new(LOCALHOST, 8080, 0, 0).is_err());
}

#[test]
fn default_address_text_denotes_the_default_host() {
    match Config::default().host {
        Host::V4([a, b, c, d]) => assert_eq!(DEFAULT_HOST, format!("{a}.{b}.{c}.{d}")),
        Host::V6(_) => panic!("the default is an IPv4 address"),
    }
}

#[test]
fn ranges_are_inclusive() {
    assert!(Config::new(LOCALHOST, 0, 1, 0).is_ok());
    assert!(Config::new(LOCALHOST, 65535, 3600, 100_000).is_ok());
    assert!(matches!(Config::new(LOCALHOST, 1, 3601, 0), Err(ConfigError::Interval(3601))));
    assert!(matches!(Config::new(LOCALHOST, 1, 2, 100_001), Err(ConfigError::Scrollback(100_001))));
}

#[test]
fn loopback_covers_both_address_families() {
    for octets in [[127, 0, 0, 1], [127, 255, 3, 4], [0, 0, 0, 0], [128, 0, 0, 1], [100, 64, 0, 1]] {
        assert_eq!(Host::V4(octets).is_loopback(), octets[0] == 127);
    }
    assert!(Host::V6([0, 0, 0, 0, 0, 0, 0, 1]).is_loopback());
    assert!(!Host::V6([0, 0, 0, 0, 0, 0, 0, 0]).is_loopback());
    assert!(!Host::V6([0, 0, 0, 0, 0, 0xffff, 0x7f00, 1]).is_loopback());
}

#[test]
fn startup_announces_the_address() {
    let lines = announce("127.0.0.1:8080", &LOCALHOST, Ok(())).unwrap();
    assert_eq!(
        lines,
        vec!["tmux-otg: listening on http://127.0.0.1:8080  (read-only; allowlist: public-insecure-*)"]
    );
}

#[test]
fn startup_warns_of_exposure() {
    let lines = announce("0.0.0.0:80", &Host::V4([0, 0, 0, 0]), Ok(())).unwrap();
    assert_eq!(lines.len(), 2);
    assert_eq!(
        lines[1],
        "tmux-otg: WARNING: bound to non-loopback address 0.0.0.0:80 with NO authentication — \
         every public-insecure-* pane is readable by anyone who can reach it."
    );
}

#[test]
fn startup_failures_are_explained() {
    assert!(check_tmux(Ok(())).is_ok());
    assert_eq!(
        check_tmux(Err("not found".to_string())).unwrap_err(),
        "could not execute `tmux` (is it installed and on PATH?): not found"
    );
    assert_eq!(
        announce("127.0.0.1:1", &LOCALHOST, Err("denied".to_string())).unwrap_err(),
        "failed to bind 127.0.0.1:1: denied"
    );
    assert_eq!(fatal("x"), "tmux-otg: fatal: x");
}
