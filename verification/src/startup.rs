//! What the server says and decides while it starts.

use vstd::prelude::*;

use crate::config::Host;
use crate::text;
use crate::validation;

verus! {

/// What is reported if tmux cannot be executed, and why it cannot.
pub open spec fn unusable_tmux(why: Seq<char>) -> Seq<char> {
    "could not execute `tmux` (is it installed and on PATH?): "@ + why
}

/// Decides whether to start at all, given whether tmux could be executed or why
/// it could not: without a usable tmux the server fails fast with a clear
/// message, rather than on the first request.
pub fn check_tmux(executed: Result<(), String>) -> (r: Result<(), String>)
    ensures
        executed is Ok ==> r is Ok,
        executed matches Err(why) ==> r is Err && r->Err_0@ == unusable_tmux(why@),
{
    match executed {
        Ok(()) => Ok(()),
        Err(why) => Err(
            "could not execute `tmux` (is it installed and on PATH?): ".to_owned().concat(
                why.as_str(),
            ),
        ),
    }
}

/// What is reported if the address cannot be bound, and why it cannot.
pub open spec fn unusable_address(addr: Seq<char>, why: Seq<char>) -> Seq<char> {
    "failed to bind "@ + addr + ": "@ + why
}

/// The line that tells where the server listens.
pub open spec fn listening(addr: Seq<char>) -> Seq<char> {
    "tmux-otg: listening on http://"@ + addr + "  (read-only; allowlist: "@
        + validation::ALLOWED_PREFIX@ + "*)"@
}

/// The line that warns of an address that others can reach.
pub open spec fn exposure(addr: Seq<char>) -> Seq<char> {
    "tmux-otg: WARNING: bound to non-loopback address "@ + addr
        + " with NO authentication — every "@ + validation::ALLOWED_PREFIX@
        + "* pane is readable by anyone who can reach it."@
}

/// What is printed once the address is bound: where the server listens and, if
/// others than the local machine can reach it, a warning.
pub open spec fn announcement(addr: Seq<char>, host: Host) -> Seq<Seq<char>> {
    if host.loopback() {
        seq![listening(addr)]
    } else {
        seq![listening(addr), exposure(addr)]
    }
}

/// Decides what follows the attempt to bind `addr`, whose IP address is `host`:
/// the lines to print, or why the server cannot start.
pub fn announce(addr: &str, host: &Host, bound: Result<(), String>) -> (r: Result<
    Vec<String>,
    String,
>)
    ensures
        bound is Ok ==> r is Ok && text::texts(r->Ok_0@) == announcement(addr@, *host),
        bound matches Err(why) ==> r is Err && r->Err_0@ == unusable_address(addr@, why@),
{
    if let Err(why) = bound {
        return Err("failed to bind ".to_owned().concat(addr).concat(": ").concat(why.as_str()));
    }
    let mut lines: Vec<String> = Vec::new();
    lines.push(
        "tmux-otg: listening on http://".to_owned().concat(addr).concat(
            "  (read-only; allowlist: ",
        ).concat(validation::ALLOWED_PREFIX).concat("*)"),
    );
    if !host.is_loopback() {
        lines.push(
            "tmux-otg: WARNING: bound to non-loopback address ".to_owned().concat(addr).concat(
                " with NO authentication — every ",
            ).concat(validation::ALLOWED_PREFIX).concat(
                "* pane is readable by anyone who can reach it.",
            ),
        );
    }
    assert(text::texts(lines@) =~= announcement(addr@, *host));
    Ok(lines)
}

/// The line that reports why the server gave up.
pub fn fatal(why: &str) -> (line: String)
    ensures
        line@ == "tmux-otg: fatal: "@ + why@,
{
    "tmux-otg: fatal: ".to_owned().concat(why)
}

/// The warning is printed exactly for addresses that are not loopback addresses.
pub proof fn exposure_is_announced(addr: Seq<char>, host: Host)
    ensures
        announcement(addr, host).contains(exposure(addr)) <==> !host.loopback(),
{
    reveal_strlit("tmux-otg: listening on http://");
    reveal_strlit("tmux-otg: WARNING: bound to non-loopback address ");
    assert(listening(addr)[10] == 'l');
    assert(exposure(addr)[10] == 'W');
    if !host.loopback() {
        assert(announcement(addr, host)[1] == exposure(addr));
    }
}

/// The server starts exactly if tmux could be executed, and otherwise says why it
/// could not.
pub proof fn server_needs_tmux(executed: Result<(), String>, r: Result<(), String>)
    requires
        call_ensures(check_tmux, (executed,), r),
    ensures
        match executed {
            Ok(_) => r is Ok,
            Err(why) => r is Err && r->Err_0@
                == "could not execute `tmux` (is it installed and on PATH?): "@ + why@,
        },
{
}

/// An address that cannot be bound is reported with the reason. One that is bound
/// is announced, and there is a second line exactly if it reaches further than the
/// local machine: a warning that names the address.
pub proof fn bound_addresses_are_announced(
    addr: &str,
    host: &Host,
    bound: Result<(), String>,
    r: Result<Vec<String>, String>,
)
    requires
        call_ensures(announce, (addr, host, bound), r),
    ensures
        match bound {
            Err(why) => r is Err && r->Err_0@ == "failed to bind "@ + addr@ + ": "@ + why@,
            Ok(_) => {
                let local = match *host {
                    Host::V4(octets) => octets@[0] == 127,
                    Host::V6(segments) => segments@[7] == 1 && forall|i: int|
                        0 <= i < 7 ==> #[trigger] segments@[i] == 0,
                };
                &&& r is Ok
                &&& r->Ok_0@.len() == (if local {
                    1int
                } else {
                    2int
                })
                &&& r->Ok_0@[0]@ == "tmux-otg: listening on http://"@ + addr@
                    + "  (read-only; allowlist: "@ + "public-insecure-"@ + "*)"@
                &&& !local ==> r->Ok_0@[1]@ == "tmux-otg: WARNING: bound to non-loopback address "@
                    + addr@ + " with NO authentication — every "@ + "public-insecure-"@
                    + "* pane is readable by anyone who can reach it."@
            },
        },
{
    match *host {
        Host::V4(octets) => {
            crate::config::loopback_addresses(octets, [0, 0, 0, 0, 0, 0, 0, 0]);
        },
        Host::V6(segments) => {
            crate::config::loopback_addresses([0, 0, 0, 0], segments);
        },
    }
    if bound is Ok {
        let lines = r->Ok_0@;
        text::texts_are_those_of_the_entries(lines);
        assert(text::texts(lines) == announcement(addr@, *host));
        assert(text::texts(lines)[0] == lines[0]@);
        if lines.len() == 2 {
            assert(text::texts(lines)[1] == lines[1]@);
        }
    }
}

} // verus!
