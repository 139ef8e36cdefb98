//! Runtime configuration.

use std::time::Duration;

use vstd::prelude::*;

use crate::text;

verus! {

/// The address that is bound by default: localhost.
pub const DEFAULT_HOST: &'static str = "127.0.0.1";

/// The TCP port that is bound by default.
pub const DEFAULT_PORT: u16 = 8080;

/// The default number of seconds between pane refreshes.
pub const DEFAULT_INTERVAL_SECS: u64 = 2;

/// The least number of seconds between pane refreshes.
pub const MIN_INTERVAL_SECS: u64 = 1;

/// The greatest number of seconds between pane refreshes.
pub const MAX_INTERVAL_SECS: u64 = 3600;

/// The default number of scrollback lines: the visible pane only.
pub const DEFAULT_SCROLLBACK: u32 = 0;

/// The greatest number of scrollback lines.
pub const MAX_SCROLLBACK: u32 = 100_000;

/// An IP address.
#[derive(Debug, Clone, Copy, PartialEq, Eq)]
pub enum Host {
    /// The four octets of an IPv4 address.
    V4([u8; 4]),
    /// The eight segments of an IPv6 address.
    V6([u16; 8]),
}

impl Host {
    /// Whether the address reaches the local machine only: 127.0.0.0/8 or ::1.
    pub open spec fn loopback(self) -> bool {
        match self {
            Host::V4(octets) => octets@[0] == 127,
            Host::V6(segments) => segments@ == seq![0u16, 0, 0, 0, 0, 0, 0, 1],
        }
    }

    /// Whether the address reaches the local machine only: 127.0.0.0/8 or ::1.
    pub fn is_loopback(&self) -> (b: bool)
        ensures
            b == self.loopback(),
    {
        match self {
            Host::V4(octets) => octets[0] == 127,
            Host::V6(segments) => {
                let one = segments[0] == 0 && segments[1] == 0 && segments[2] == 0 && segments[3]
                    == 0 && segments[4] == 0 && segments[5] == 0 && segments[6] == 0 && segments[7]
                    == 1;
                proof {
                    if one {
                        assert(segments@ =~= seq![0u16, 0, 0, 0, 0, 0, 0, 1]);
                    }
                }
                one
            },
        }
    }
}

/// The usual notation of an IPv4 address: its octets in decimal, joined by dots.
pub open spec fn dotted(octets: [u8; 4]) -> Seq<char> {
    text::decimal(octets@[0] as nat) + seq!['.'] + text::decimal(octets@[1] as nat) + seq!['.']
        + text::decimal(octets@[2] as nat) + seq!['.'] + text::decimal(octets@[3] as nat)
}

/// The text of the default address denotes 127.0.0.1, which reaches the local
/// machine only.
pub proof fn default_host_is_localhost()
    ensures
        DEFAULT_HOST@ == dotted([127u8, 0, 0, 1]),
        Host::V4([127u8, 0, 0, 1]).loopback(),
{
    reveal_strlit("127.0.0.1");
    reveal_with_fuel(text::decimal, 3);
    assert(DEFAULT_HOST@ =~= dotted([127u8, 0, 0, 1]));
}

/// An IP address and a TCP port.
#[derive(Debug, Clone, Copy, PartialEq, Eq)]
pub struct SocketAddr {
    pub ip: Host,
    pub port: u16,
}

/// What `Duration::from_secs` makes of a number of seconds.
pub uninterp spec fn seconds(secs: u64) -> Duration;

/// `Duration::from_secs`: the result is a function of the number of seconds.
pub assume_specification[ Duration::from_secs ](secs: u64) -> (d: Duration)
    ensures
        d == seconds(secs),
;

/// Runtime configuration.
#[derive(Debug, Clone)]
pub struct Config {
    /// Host/IP address to bind. Defaults to localhost.
    pub host: Host,
    /// TCP port to listen on.
    pub port: u16,
    /// Seconds between pane refreshes pushed over SSE.
    pub interval_secs: u64,
    /// Extra scrollback history lines to include above the visible pane
    /// (0 = visible pane only).
    pub scrollback: u32,
}

/// Why a configuration is not acceptable.
#[derive(Debug)]
pub enum ConfigError {
    /// The number of seconds between pane refreshes is out of range.
    Interval(u64),
    /// The number of scrollback lines is out of range.
    Scrollback(u32),
}

impl Config {
    /// Whether all settings are in their ranges.
    pub open spec fn valid(self) -> bool {
        &&& MIN_INTERVAL_SECS <= self.interval_secs <= MAX_INTERVAL_SECS
        &&& self.scrollback <= MAX_SCROLLBACK
    }

    /// A configuration with the given settings, if they are in their ranges.
    pub fn new(host: Host, port: u16, interval_secs: u64, scrollback: u32) -> (r: Result<
        Config,
        ConfigError,
    >)
        ensures
            (Config { host, port, interval_secs, scrollback }).valid() ==> r is Ok && r->Ok_0 == (
            Config { host, port, interval_secs, scrollback }),
            !(MIN_INTERVAL_SECS <= interval_secs <= MAX_INTERVAL_SECS) ==> r is Err && r->Err_0
                == ConfigError::Interval(interval_secs),
            MIN_INTERVAL_SECS <= interval_secs <= MAX_INTERVAL_SECS && scrollback > MAX_SCROLLBACK
                ==> r is Err && r->Err_0 == ConfigError::Scrollback(scrollback),
    {
        if interval_secs < MIN_INTERVAL_SECS || interval_secs > MAX_INTERVAL_SECS {
            return Err(ConfigError::Interval(interval_secs));
        }
        if scrollback > MAX_SCROLLBACK {
            return Err(ConfigError::Scrollback(scrollback));
        }
        Ok(Config { host, port, interval_secs, scrollback })
    }

    /// The socket address the server should bind to.
    pub fn socket_addr(&self) -> (addr: SocketAddr)
        ensures
            addr == (SocketAddr { ip: self.host, port: self.port }),
    {
        SocketAddr { ip: self.host, port: self.port }
    }

    /// The refresh interval as a [`Duration`].
    pub fn interval(&self) -> (d: Duration)
        ensures
            d == seconds(self.interval_secs),
    {
        Duration::from_secs(self.interval_secs)
    }
}

impl Default for Config {
    fn default() -> (config: Config)
        ensures
            config.host == Host::V4([127u8, 0, 0, 1]),
            config.host is V4 && DEFAULT_HOST@ == dotted(config.host->V4_0),
            config.port == 8080,
            config.interval_secs == 2,
            config.scrollback == 0,
            config.valid(),
            config.host.loopback(),
    {
        proof {
            default_host_is_localhost();
        }
        Config {
            host: Host::V4([127, 0, 0, 1]),
            port: DEFAULT_PORT,
            interval_secs: DEFAULT_INTERVAL_SECS,
            scrollback: DEFAULT_SCROLLBACK,
        }
    }
}

/// Settings are accepted exactly if the interval is between one second and one hour
/// and the scrollback at most a hundred thousand lines, and they are then kept as
/// given; a setting out of range is named by the error.
pub proof fn settings_are_kept_if_in_range(
    host: Host,
    port: u16,
    interval_secs: u64,
    scrollback: u32,
    r: Result<Config, ConfigError>,
)
    requires
        call_ensures(Config::new, (host, port, interval_secs, scrollback), r),
    ensures
        r is Ok <==> 1 <= interval_secs <= 3600 && scrollback <= 100_000,
        match r {
            Ok(config) => {
                &&& config.host == host
                &&& config.port == port
                &&& config.interval_secs == interval_secs
                &&& config.scrollback == scrollback
            },
            Err(ConfigError::Interval(secs)) => {
                &&& secs == interval_secs
                &&& !(1 <= secs <= 3600)
            },
            Err(ConfigError::Scrollback(lines)) => {
                &&& lines == scrollback
                &&& lines > 100_000
            },
        },
{
}

/// A configuration binds its host and port and refreshes at its interval.
pub proof fn configuration_is_followed(config: Config, addr: SocketAddr, interval: Duration)
    requires
        call_ensures(Config::socket_addr, (&config,), addr),
        call_ensures(Config::interval, (&config,), interval),
    ensures
        addr.ip == config.host,
        addr.port == config.port,
        interval == seconds(config.interval_secs),
{
}

/// The IPv4 addresses that reach the local machine only are those whose first octet
/// is 127, and there is one such IPv6 address: zeros and then a one.
pub proof fn loopback_addresses(octets: [u8; 4], segments: [u16; 8])
    ensures
        Host::V4(octets).loopback() <==> octets@[0] == 127,
        Host::V6(segments).loopback() <==> segments@[7] == 1 && forall|i: int|
            0 <= i < 7 ==> #[trigger] segments@[i] == 0,
{
    let one = seq![0u16, 0, 0, 0, 0, 0, 0, 1];
    if segments@[7] == 1 && forall|i: int| 0 <= i < 7 ==> #[trigger] segments@[i] == 0 {
        assert(segments@ =~= one);
    }
    if Host::V6(segments).loopback() {
        assert forall|i: int| 0 <= i < 7 implies #[trigger] segments@[i] == 0 by {
            assert(one[i] == 0);
        }
    }
}

} // verus!
