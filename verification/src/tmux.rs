//! What is asked of the `tmux` program, and what its answers mean.
//!
//! Every invocation is a list of separate arguments, never a shell string, so a
//! session name cannot be read as part of a command or as additional flags. A
//! caller runs `tmux` with such a list and hands the outcome back.

use vstd::prelude::*;

use crate::text;
use crate::validation;

verus! {

/// Errors that can arise while talking to tmux.
#[derive(Debug)]
pub enum TmuxError {
    /// The `tmux` binary could not be executed at all (e.g. not installed); the
    /// text is the system's description of why.
    Spawn(String),
    /// tmux ran but reported failure. `stderr` is lossily decoded UTF-8.
    Command { code: Option<i32>, stderr: String },
    /// A caller passed a name that is not allowlisted.
    Rejected(String),
    /// A background task running a tmux command panicked or was cancelled
    /// before it could report a result. tmux itself may never have been run.
    Task(String),
}

/// The mathematical counterpart of [`TmuxError`].
pub enum TmuxErrorView {
    Spawn(Seq<char>),
    Command { code: Option<i32>, stderr: Seq<char> },
    Rejected(Seq<char>),
    Task(Seq<char>),
}

impl View for TmuxError {
    type V = TmuxErrorView;

    open spec fn view(&self) -> TmuxErrorView {
        match self {
            TmuxError::Spawn(e) => TmuxErrorView::Spawn(e@),
            TmuxError::Command { code, stderr } => TmuxErrorView::Command {
                code: *code,
                stderr: stderr@,
            },
            TmuxError::Rejected(name) => TmuxErrorView::Rejected(name@),
            TmuxError::Task(msg) => TmuxErrorView::Task(msg@),
        }
    }
}

impl TmuxErrorView {
    /// The message for people.
    pub open spec fn message(self) -> Seq<char> {
        match self {
            TmuxErrorView::Spawn(e) => "failed to run tmux: "@ + e,
            TmuxErrorView::Command { code, stderr } => "tmux exited with status "@ + (match code {
                Some(c) => text::signed_decimal(c as int),
                None => "signal"@,
            }) + ": "@ + text::trimmed(stderr),
            TmuxErrorView::Rejected(name) => "session name not allowed: "@ + name,
            TmuxErrorView::Task(msg) => "tmux task failed: "@ + msg,
        }
    }
}

impl TmuxError {
    /// The message for people. Captured error output appears without
    /// surrounding white space, and a missing exit code as `signal`.
    pub fn to_string(&self) -> (out: String)
        ensures
            out@ == self@.message(),
    {
        match self {
            TmuxError::Spawn(e) => "failed to run tmux: ".to_owned().concat(e.as_str()),
            TmuxError::Command { code, stderr } => {
                let status = match code {
                    Some(c) => text::signed_decimal_string(*c),
                    None => "signal".to_owned(),
                };
                "tmux exited with status ".to_owned().concat(status.as_str()).concat(": ").concat(
                    text::trim(stderr.as_str()).as_str(),
                )
            },
            TmuxError::Rejected(name) => "session name not allowed: ".to_owned().concat(
                name.as_str(),
            ),
            TmuxError::Task(msg) => "tmux task failed: ".to_owned().concat(msg.as_str()),
        }
    }
}

/// What a finished tmux process left behind.
pub struct TmuxOutput {
    /// Whether the process reported success.
    pub success: bool,
    /// The exit code; `None` if a signal ended the process.
    pub code: Option<i32>,
    pub stdout: Vec<u8>,
    pub stderr: Vec<u8>,
}

/// What `String::from_utf8_lossy` makes of a byte sequence.
pub uninterp spec fn lossy_text(bytes: Seq<u8>) -> Seq<char>;

/// `String::from_utf8_lossy`, as an owned string. The result is a function of
/// the bytes, and for valid UTF-8 it is the text that they encode. How many
/// replacement characters stand for an invalid sequence is left unsaid.
#[verifier::external_body]
fn decode_lossy(bytes: &[u8]) -> (s: String)
    ensures
        s@ == lossy_text(bytes@),
        vstd::utf8::valid_utf8(bytes@) ==> s@ == vstd::utf8::decode_utf8(bytes@),
{
    String::from_utf8_lossy(bytes).into_owned()
}

/// Error output that says that there is no server to talk to or nothing to
/// list, as opposed to a real failure. Capitalization does not matter.
pub open spec fn idle_server(stderr: Seq<char>) -> bool {
    let s = text::ascii_lower(stderr);
    ||| text::occurs_in("no server running"@, s)
    ||| text::occurs_in("no sessions"@, s)
    ||| text::occurs_in("error connecting to"@, s)
}

/// Recognizes the benign "there is no server to talk to / nothing to list"
/// stderr from `tmux list-sessions`, as opposed to a real failure.
///
/// tmux phrases this several ways depending on platform and version:
/// * `no server running on <socket>`: the server was never started.
/// * `error connecting to <socket> (No such file or directory)`: the socket
///   file is absent, or `(Connection refused)` for a stale socket left behind
///   by a server that has since exited.
/// * `no sessions`: the server is up but empty (older tmux).
pub fn is_idle_server_stderr(stderr: &str) -> (idle: bool)
    ensures
        idle == idle_server(stderr@),
{
    let s = text::ascii_lower_chars(stderr);
    text::contains(&s, "no server running") || text::contains(&s, "no sessions") || text::contains(
        &s,
        "error connecting to",
    )
}

/// The arguments that make tmux print its version.
pub open spec fn version_arguments() -> Seq<Seq<char>> {
    seq!["-V"@]
}

/// The arguments that make tmux print the names of all sessions, one per line.
pub open spec fn list_arguments() -> Seq<Seq<char>> {
    seq!["list-sessions"@, "-F"@, "#{session_name}"@]
}

/// The arguments that make tmux print the contents of the active pane of
/// `session`, wrapped lines rejoined, with `scrollback` history lines above it.
pub open spec fn capture_arguments(session: Seq<char>, scrollback: nat) -> Seq<Seq<char>> {
    seq!["capture-pane"@, "-p"@, "-J"@] + (if scrollback > 0 {
        seq!["-S"@, seq!['-'] + text::decimal(scrollback)]
    } else {
        seq![]
    }) + seq!["-t"@, session]
}

/// The arguments with which tmux shows that it can be executed.
pub fn version_args() -> (args: Vec<String>)
    ensures
        text::texts(args@) == version_arguments(),
{
    let mut args: Vec<String> = Vec::new();
    args.push("-V".to_owned());
    assert(text::texts(args@) =~= version_arguments());
    args
}

/// The arguments with which tmux lists its sessions.
pub fn list_args() -> (args: Vec<String>)
    ensures
        text::texts(args@) == list_arguments(),
{
    let mut args: Vec<String> = Vec::new();
    args.push("list-sessions".to_owned());
    args.push("-F".to_owned());
    args.push("#{session_name}".to_owned());
    assert(text::texts(args@) =~= list_arguments());
    args
}

/// The session names in the output of a successful listing that may be exposed,
/// in the order of the output.
pub fn listed_sessions(stdout: &str) -> (sessions: Vec<String>)
    ensures
        text::texts(sessions@) == validation::allowed_of(text::lines(stdout@)),
{
    let names = text::split_lines(stdout);
    assert(validation::names_of(names@) =~= text::texts(names@));
    validation::filter_allowed(names)
}

/// What a failed listing amounts to: nothing to show if no server is running,
/// an error otherwise.
pub open spec fn failure(code: Option<i32>, stderr: Seq<char>) -> Result<
    Seq<Seq<char>>,
    TmuxErrorView,
> {
    if idle_server(stderr) {
        Ok(seq![])
    } else {
        Err(TmuxErrorView::Command { code, stderr })
    }
}

/// What a failed listing amounts to: nothing to show if no server is running,
/// an error otherwise.
pub fn failed_listing(code: Option<i32>, stderr: String) -> (r: Result<Vec<String>, TmuxError>)
    ensures
        listing_view(r) == failure(code, stderr@),
{
    if is_idle_server_stderr(stderr.as_str()) {
        let none: Vec<String> = Vec::new();
        assert(text::texts(none@) =~= seq![]);
        return Ok(none);
    }
    Err(TmuxError::Command { code, stderr })
}

/// What a listing amounts to, given how the run of tmux ended.
pub open spec fn listing(ran: Result<TmuxOutput, String>) -> Result<
    Seq<Seq<char>>,
    TmuxErrorView,
> {
    match ran {
        Err(why) => Err(TmuxErrorView::Spawn(why@)),
        Ok(output) => if output.success {
            Ok(validation::allowed_of(text::lines(lossy_text(output.stdout@))))
        } else {
            failure(output.code, lossy_text(output.stderr@))
        },
    }
}

/// The mathematical counterpart of the result of a listing.
pub open spec fn listing_view(r: Result<Vec<String>, TmuxError>) -> Result<
    Seq<Seq<char>>,
    TmuxErrorView,
> {
    match r {
        Ok(sessions) => Ok(text::texts(sessions@)),
        Err(e) => Err(e@),
    }
}

/// Lists the names of all tmux sessions that are allowed to be exposed, from the
/// outcome of running tmux with [`list_args`]: the process's output, or why it
/// could not be started.
///
/// If no tmux server is running, this is an empty list rather than an error:
/// the normal "nothing to show yet" state.
pub fn list_allowed_sessions(ran: Result<TmuxOutput, String>) -> (r: Result<
    Vec<String>,
    TmuxError,
>)
    ensures
        listing_view(r) == listing(ran),
        ran is Ok && ran->Ok_0.success && vstd::utf8::valid_utf8(ran->Ok_0.stdout@)
            ==> listing_view(r) == Ok::<Seq<Seq<char>>, TmuxErrorView>(
            validation::allowed_of(text::lines(vstd::utf8::decode_utf8(ran->Ok_0.stdout@))),
        ),
        ran is Ok && !ran->Ok_0.success && vstd::utf8::valid_utf8(ran->Ok_0.stderr@)
            ==> listing_view(r) == failure(
            ran->Ok_0.code,
            vstd::utf8::decode_utf8(ran->Ok_0.stderr@),
        ),
{
    let output = match ran {
        Err(why) => return Err(TmuxError::Spawn(why)),
        Ok(output) => output,
    };
    if !output.success {
        let stderr = decode_lossy(output.stderr.as_slice());
        return failed_listing(output.code, stderr);
    }
    let stdout = decode_lossy(output.stdout.as_slice());
    Ok(listed_sessions(stdout.as_str()))
}

/// The arguments with which tmux captures the active pane of `session`, or a
/// refusal if the name is not allowlisted: tmux is never run for such a name.
///
/// `scrollback` requests that many extra history lines above the visible pane
/// (0 = visible pane only).
pub fn capture_pane(session: &str, scrollback: u32) -> (r: Result<Vec<String>, TmuxError>)
    ensures
        validation::allowed_name(session@) ==> r is Ok && text::texts(r->Ok_0@)
            == capture_arguments(session@, scrollback as nat),
        !validation::allowed_name(session@) ==> r is Err && r->Err_0@ == TmuxErrorView::Rejected(
            session@,
        ),
{
    if !validation::is_allowed_session(session) {
        return Err(TmuxError::Rejected(session.to_owned()));
    }
    let mut args: Vec<String> = Vec::new();
    args.push("capture-pane".to_owned());
    args.push("-p".to_owned());
    args.push("-J".to_owned());
    if scrollback > 0 {
        args.push("-S".to_owned());
        let mut start = String::new();
        start.push('-');
        start.append(text::decimal_string(scrollback).as_str());
        assert(start@ =~= seq!['-'] + text::decimal(scrollback as nat));
        args.push(start);
    }
    args.push("-t".to_owned());
    args.push(session.to_owned());
    assert(text::texts(args@) =~= capture_arguments(session@, scrollback as nat));
    Ok(args)
}

/// The text of a captured pane, from the outcome of running tmux with the
/// arguments of [`capture_pane`]: the process's output, or why it could not be
/// started. Newlines are preserved.
pub fn captured_pane(ran: Result<TmuxOutput, String>) -> (r: Result<String, TmuxError>)
    ensures
        match ran {
            Err(why) => r is Err && r->Err_0@ == TmuxErrorView::Spawn(why@),
            Ok(output) => if output.success {
                r is Ok && r->Ok_0@ == lossy_text(output.stdout@)
            } else {
                r is Err && r->Err_0@ == (TmuxErrorView::Command {
                    code: output.code,
                    stderr: lossy_text(output.stderr@),
                })
            },
        },
        ran is Ok && ran->Ok_0.success && vstd::utf8::valid_utf8(ran->Ok_0.stdout@) ==> r is Ok
            && r->Ok_0@ == vstd::utf8::decode_utf8(ran->Ok_0.stdout@),
        ran is Ok && !ran->Ok_0.success && vstd::utf8::valid_utf8(ran->Ok_0.stderr@) ==> r is Err
            && r->Err_0@ == (TmuxErrorView::Command {
            code: ran->Ok_0.code,
            stderr: vstd::utf8::decode_utf8(ran->Ok_0.stderr@),
        }),
{
    let output = match ran {
        Err(why) => return Err(TmuxError::Spawn(why)),
        Ok(output) => output,
    };
    if !output.success {
        return Err(
            TmuxError::Command {
                code: output.code,
                stderr: decode_lossy(output.stderr.as_slice()),
            },
        );
    }
    Ok(decode_lossy(output.stdout.as_slice()))
}

/// Everything that tmux is ever asked to do only reads: it prints its version,
/// lists sessions or captures a pane.
pub proof fn commands_only_read(session: Seq<char>, scrollback: nat)
    ensures
        version_arguments()[0] == "-V"@,
        list_arguments()[0] == "list-sessions"@,
        capture_arguments(session, scrollback)[0] == "capture-pane"@,
{
}

/// The session name is the value of `-t` and nothing else: it is the last
/// argument, `-t` stands right before it, no other argument equals it, and the
/// arguments before it do not depend on it.
pub proof fn session_is_only_the_target(session: Seq<char>, other: Seq<char>, scrollback: nat)
    requires
        validation::allowed_name(session),
    ensures
        ({
            let args = capture_arguments(session, scrollback);
            &&& args.last() == session
            &&& args[args.len() - 2] == "-t"@
            &&& forall|i: int| 0 <= i < args.len() - 1 ==> #[trigger] args[i] != session
            &&& args.drop_last() == capture_arguments(other, scrollback).drop_last()
        }),
{
    let args = capture_arguments(session, scrollback);
    validation::allowed_name_is_no_flag(session);
    validation::allowed_name_is_short(session);
    reveal_strlit("capture-pane");
    reveal_strlit("-p");
    reveal_strlit("-J");
    reveal_strlit("-S");
    reveal_strlit("-t");
    assert(args.drop_last() =~= capture_arguments(other, scrollback).drop_last());
    assert forall|i: int| 0 <= i < args.len() - 1 implies #[trigger] args[i] != session by {
        if i == 0 {
            assert(args[i].len() == 12);
        } else {
            assert(args[i][0] == '-');
        }
    }
}

/// A listing shows allowed names only, whatever tmux answered.
pub proof fn listing_is_allowlisted(ran: Result<TmuxOutput, String>)
    ensures
        listing(ran) is Ok ==> forall|i: int|
            0 <= i < listing(ran)->Ok_0.len() ==> validation::allowed_name(
                #[trigger] listing(ran)->Ok_0[i],
            ),
{
    if ran is Ok && ran->Ok_0.success {
        validation::filter_is_sound_and_complete(text::lines(lossy_text(ran->Ok_0.stdout@)));
    }
}

/// If tmux prints the names of its sessions, one per line, the listing shows
/// exactly the allowed ones among them, in the same order.
pub proof fn listing_shows_the_allowed_sessions(names: Seq<Seq<char>>, output: TmuxOutput)
    requires
        forall|i: int, k: int|
            0 <= i < names.len() && 0 <= k < names[i].len() ==> #[trigger] names[i][k] != '\n',
        forall|i: int|
            0 <= i < names.len() && #[trigger] names[i].len() > 0 ==> names[i].last() != '\r',
    ensures
        output.success && lossy_text(output.stdout@) == text::unlines(names) ==> listing(Ok(output))
            == Ok::<Seq<Seq<char>>, TmuxErrorView>(validation::allowed_of(names)),
{
    text::lines_of_unlines(names);
}

/// Whether error output means that no server is running does not depend on
/// capitalization.
pub proof fn idle_server_ignores_case(a: Seq<char>, b: Seq<char>)
    requires
        text::ascii_lower(a) == text::ascii_lower(b),
    ensures
        idle_server(a) == idle_server(b),
{
}

/// The message of an error carries what the error carries: why tmux could not be
/// run, the exit code (or that there is none) and the trimmed error output, the
/// refused name, or why the task failed.
pub proof fn messages_carry_the_details(err: TmuxError, message: String)
    requires
        call_ensures(TmuxError::to_string, (&err,), message),
    ensures
        message@ == err@.message(),
        match err {
            TmuxError::Spawn(why) => message@ == "failed to run tmux: "@ + why@,
            TmuxError::Command { code, stderr } => message@ == "tmux exited with status "@ + (
            match code {
                Some(c) => text::signed_decimal(c as int),
                None => "signal"@,
            }) + ": "@ + text::trimmed(stderr@),
            TmuxError::Rejected(name) => message@ == "session name not allowed: "@ + name@,
            TmuxError::Task(why) => message@ == "tmux task failed: "@ + why@,
        },
{
}

/// However many history lines are asked for, tmux is asked for exactly those: `-S`
/// stands among the arguments once, and the argument after it is a minus sign and a
/// decimal numeral whose value is their number. For none of them there is no `-S`.
///
/// The other arguments are the same for every number: the command first, `-p` and
/// `-J` once each, and `-t` and the session last.
pub proof fn scrollback_is_asked_for(
    session: &str,
    scrollback: u32,
    r: Result<Vec<String>, TmuxError>,
)
    requires
        call_ensures(capture_pane, (session, scrollback), r),
        validation::allowed_name(session@),
    ensures
        r is Ok,
        ({
            let args = r->Ok_0@;
            let n = args.len();
            &&& n >= 5
            &&& args[0]@ == "capture-pane"@
            &&& args[n - 2]@ == "-t"@
            &&& args[n - 1]@ == session@
            &&& exists|i: int| 0 < i < n - 2 && (#[trigger] args[i])@ == "-p"@
            &&& exists|i: int| 0 < i < n - 2 && (#[trigger] args[i])@ == "-J"@
            &&& scrollback > 0 <==> exists|i: int| 0 <= i < n && (#[trigger] args[i])@ == "-S"@
            &&& forall|i: int|
                0 <= i < n && (#[trigger] args[i])@ == "-S"@ ==> {
                    &&& 0 < i < n - 3
                    &&& args[i + 1]@.len() > 1
                    &&& args[i + 1]@[0] == '-'
                    &&& forall|k: int|
                        1 <= k < args[i + 1]@.len() ==> '0' <= #[trigger] args[i + 1]@[k] <= '9'
                    &&& args[i + 1]@[1] != '0'
                    &&& text::numeral_value(args[i + 1]@.skip(1)) == scrollback
                }
            &&& forall|i: int, k: int|
                #![trigger args[i], args[k]]
                0 <= i < n && 0 <= k < n && args[i]@ == args[k]@ ==> i == k
            &&& forall|i: int|
                0 < i < n - 2 ==> {
                    ||| (#[trigger] args[i])@ == "-p"@
                    ||| args[i]@ == "-J"@
                    ||| args[i]@ == "-S"@
                    ||| args[i - 1]@ == "-S"@
                }
        }),
{
    let args = r->Ok_0@;
    let want = capture_arguments(session@, scrollback as nat);
    assert(text::texts(args) == want);
    assert(args.len() == want.len());
    assert forall|i: int| 0 <= i < args.len() implies (#[trigger] args[i])@ == want[i] by {
        assert(text::texts(args)[i] == args[i]@);
    }
    reveal_strlit("capture-pane");
    reveal_strlit("-p");
    reveal_strlit("-J");
    reveal_strlit("-S");
    reveal_strlit("-t");
    assert("capture-pane"@[0] == 'c');
    assert("capture-pane"@.len() == 12);
    assert("-p"@[1] == 'p');
    assert("-J"@[1] == 'J');
    assert("-S"@[1] == 'S');
    assert("-t"@[1] == 't');
    session_is_only_the_target(session@, session@, scrollback as nat);
    assert(args[1]@ == "-p"@);
    assert(args[2]@ == "-J"@);
    if scrollback > 0 {
        let digits = text::decimal(scrollback as nat);
        text::decimal_is_faithful(scrollback as nat);
        assert(args[3]@ == "-S"@);
        assert(args[4]@ == seq!['-'] + digits);
        assert(args[4]@.skip(1) =~= digits);
        assert(args[4]@[1] == digits[0]);
        assert forall|k: int| 1 <= k < args[4]@.len() implies '0' <= #[trigger] args[4]@[k]
            <= '9' by {
            assert(args[4]@[k] == digits[k - 1]);
        }
        assert(args[5]@ == "-t"@);
        assert(args[6]@ == session@);
        assert(args.len() == 7);
    } else {
        assert(args[3]@ == "-t"@);
        assert(args[4]@ == session@);
        assert(args.len() == 5);
    }
    validation::allowed_name_is_no_flag(session@);
    assert forall|i: int, k: int|
        #![trigger args[i], args[k]]
        0 <= i < args.len() && 0 <= k < args.len() && args[i]@ == args[k]@ implies i == k by {
        assert(want.drop_last().len() == args.len() - 1);
        if i == args.len() - 1 || k == args.len() - 1 {
            assert(want[i] == want[k]);
        } else {
            assert(args[i]@[0] == args[k]@[0]);
            assert(args[i]@[1] == args[k]@[1]);
        }
    }
}

/// For a name that is not allowed there are no arguments at all, only the refusal
/// of that name.
pub proof fn unexposed_sessions_are_never_captured(
    session: &str,
    scrollback: u32,
    r: Result<Vec<String>, TmuxError>,
)
    requires
        call_ensures(capture_pane, (session, scrollback), r),
        !validation::allowed_name(session@),
    ensures
        match r {
            Err(TmuxError::Rejected(name)) => name@ == session@,
            _ => false,
        },
{
}

/// A captured pane is what tmux printed, byte for byte where that is UTF-8. If tmux
/// failed, its exit code and what it printed as error output are reported; if it
/// could not be run, why not.
pub proof fn captured_panes_are_what_tmux_printed(
    ran: Result<TmuxOutput, String>,
    r: Result<String, TmuxError>,
)
    requires
        call_ensures(captured_pane, (ran,), r),
    ensures
        r is Ok <==> ran is Ok && ran->Ok_0.success,
        match (ran, r) {
            (Ok(output), Ok(pane)) => {
                &&& pane@ == lossy_text(output.stdout@)
                &&& vstd::utf8::valid_utf8(output.stdout@) ==> vstd::utf8::encode_utf8(pane@)
                    == output.stdout@
            },
            (Ok(output), Err(TmuxError::Command { code, stderr })) => {
                &&& code == output.code
                &&& stderr@ == lossy_text(output.stderr@)
                &&& vstd::utf8::valid_utf8(output.stderr@) ==> vstd::utf8::encode_utf8(stderr@)
                    == output.stderr@
            },
            (Err(why), Err(TmuxError::Spawn(reason))) => reason@ == why@,
            _ => false,
        },
{
    if let Ok(output) = ran {
        if vstd::utf8::valid_utf8(output.stdout@) {
            vstd::utf8::decode_utf8_encode_utf8(output.stdout@);
        }
        if vstd::utf8::valid_utf8(output.stderr@) {
            vstd::utf8::decode_utf8_encode_utf8(output.stderr@);
        }
    }
}

/// Error output means that no server is running exactly if one of three phrases
/// stands somewhere in it, in whatever capitalization.
pub proof fn idle_server_is_told_by_three_phrases(stderr: Seq<char>)
    ensures
        idle_server(stderr) <==> exists|before: Seq<char>, phrase: Seq<char>, after: Seq<char>|
            stderr == #[trigger] (before + phrase + after) && {
                ||| text::ascii_lower(phrase) == "no server running"@
                ||| text::ascii_lower(phrase) == "no sessions"@
                ||| text::ascii_lower(phrase) == "error connecting to"@
            },
{
    let lower = text::ascii_lower(stderr);
    assert forall|before: Seq<char>, phrase: Seq<char>, after: Seq<char>|
        stderr == #[trigger] (before + phrase + after) implies text::occurs_in(
        text::ascii_lower(phrase),
        lower,
    ) by {
        assert(lower =~= text::ascii_lower(before) + text::ascii_lower(phrase) + text::ascii_lower(
            after,
        ));
        text::lemma_occurs_between(
            text::ascii_lower(before),
            text::ascii_lower(phrase),
            text::ascii_lower(after),
        );
    }
    if idle_server(stderr) {
        let told = if text::occurs_in("no server running"@, lower) {
            "no server running"@
        } else if text::occurs_in("no sessions"@, lower) {
            "no sessions"@
        } else {
            "error connecting to"@
        };
        let at = choose|at: int| text::occurs_at(lower, told, at);
        let phrase = stderr.subrange(at, at + told.len());
        assert(stderr =~= stderr.take(at) + phrase + stderr.skip(at + told.len()));
        assert(text::ascii_lower(phrase) =~= lower.subrange(at, at + told.len()));
    }
}

/// A listing fails if tmux could not be run, and says why, and if tmux failed for
/// another reason than that no server is running: then it says how. That no server
/// is running makes the listing empty, and success never makes it fail. What is
/// handed out are the listed names, each in its place.
pub proof fn listing_fails_only_with_tmux(
    ran: Result<TmuxOutput, String>,
    r: Result<Vec<String>, TmuxError>,
)
    requires
        call_ensures(list_allowed_sessions, (ran,), r),
    ensures
        match ran {
            Err(why) => match r {
                Err(TmuxError::Spawn(reason)) => reason@ == why@,
                _ => false,
            },
            Ok(output) => {
                let idle = idle_server(lossy_text(output.stderr@));
                &&& r is Ok <==> output.success || idle
                &&& !output.success && idle ==> r->Ok_0@.len() == 0
                &&& r is Err ==> match r {
                    Err(TmuxError::Command { code, stderr }) => code == output.code && stderr@
                        == lossy_text(output.stderr@),
                    _ => false,
                }
            },
        },
        r is Ok ==> {
            &&& listing(ran) is Ok
            &&& r->Ok_0@.len() == listing(ran)->Ok_0.len()
            &&& forall|i: int|
                0 <= i < r->Ok_0@.len() ==> (#[trigger] r->Ok_0@[i])@ == listing(ran)->Ok_0[i]
        },
{
    assert(listing_view(r) == listing(ran));
    if r is Ok {
        text::texts_are_those_of_the_entries(r->Ok_0@);
        assert forall|i: int| 0 <= i < r->Ok_0@.len() implies (#[trigger] r->Ok_0@[i])@ == listing(
            ran,
        )->Ok_0[i] by {
            assert(text::texts(r->Ok_0@)[i] == r->Ok_0@[i]@);
        }
    }
}

/// Two outputs, of which the first ends with a line ending, list together what they
/// list by themselves, one after the other.
pub proof fn listing_of_two_outputs(whole: TmuxOutput, first: TmuxOutput, second: TmuxOutput)
    requires
        whole.success,
        first.success,
        second.success,
        lossy_text(whole.stdout@) == lossy_text(first.stdout@) + lossy_text(second.stdout@),
        lossy_text(first.stdout@).len() == 0 || lossy_text(first.stdout@).last() == '\n',
    ensures
        listing(Ok(whole)) is Ok,
        listing(Ok(first)) is Ok,
        listing(Ok(second)) is Ok,
        listing(Ok(whole))->Ok_0 == listing(Ok(first))->Ok_0 + listing(Ok(second))->Ok_0,
{
    text::lines_of_two_texts(lossy_text(first.stdout@), lossy_text(second.stdout@));
    validation::filter_preserves_order(
        text::lines(lossy_text(first.stdout@)),
        text::lines(lossy_text(second.stdout@)),
    );
}

/// An output of one line, whatever ends it, lists the session of that name if it
/// may be exposed, and nothing otherwise. (A `\r` before a `\n` belongs to what ends
/// the line.)
pub proof fn listing_of_one_line(output: TmuxOutput, name: Seq<char>, ending: Seq<char>)
    requires
        output.success,
        lossy_text(output.stdout@) == name + ending,
        !name.contains('\n'),
        ending == Seq::<char>::empty() || ending == seq!['\n'] || ending == seq!['\r', '\n'],
        ending == seq!['\n'] && name.len() > 0 ==> name.last() != '\r',
    ensures
        listing(Ok(output)) is Ok,
        validation::allowed_name(name) ==> listing(Ok(output))->Ok_0 == seq![name],
        !validation::allowed_name(name) ==> listing(Ok(output))->Ok_0.len() == 0,
{
    let none = Seq::<char>::empty();
    let printed = lossy_text(output.stdout@);
    text::lines_are_what_line_endings_separate(name, none);
    validation::filter_of_one_name(name);
    assert(seq![name] + text::lines(none) =~= seq![name]);
    if ending.len() == 0 {
        assert(printed =~= name);
        if validation::allowed_name(name) {
            validation::allowed_name_is_short(name);
        }
        if name.len() == 0 {
            assert(name =~= none);
        }
    } else {
        assert(printed =~= name + ending + none);
    }
}

/// Every allowed name that stands on a line of its own in what tmux prints is
/// listed, wherever that line stands.
pub proof fn every_allowed_line_is_listed(
    output: TmuxOutput,
    before: Seq<char>,
    name: Seq<char>,
    after: Seq<char>,
    r: Result<Vec<String>, TmuxError>,
)
    requires
        call_ensures(list_allowed_sessions, (Ok(output),), r),
        output.success,
        lossy_text(output.stdout@) == before + name + after,
        before.len() == 0 || before.last() == '\n',
        after.len() == 0 || after[0] == '\n' || after.len() > 1 && after[0] == '\r' && after[1]
            == '\n',
        validation::allowed_name(name),
    ensures
        r is Ok,
        exists|i: int| 0 <= i < r->Ok_0@.len() && (#[trigger] r->Ok_0@[i])@ == name,
{
    let printed = lossy_text(output.stdout@);
    let tail = name + after;
    assert(printed =~= before + tail);
    text::lines_of_two_texts(before, tail);
    validation::allowed_name_is_harmless(name, '\n');
    validation::allowed_name_is_short(name);
    assert(validation::name_char(name[name.len() - 1]));
    if after.len() == 0 {
        text::lines_are_what_line_endings_separate(name, after);
        assert(tail =~= name);
    } else if after[0] == '\n' {
        text::lines_are_what_line_endings_separate(name, after.skip(1));
        assert(tail =~= name + seq!['\n'] + after.skip(1));
    } else {
        text::lines_are_what_line_endings_separate(name, after.skip(2));
        assert(tail =~= name + seq!['\r', '\n'] + after.skip(2));
    }
    assert(text::lines(tail)[0] == name);
    let at = text::lines(before).len() as int;
    assert(text::lines(printed)[at] == name);
    assert(text::lines(printed).contains(name));
    validation::filter_is_sound_and_complete(text::lines(printed));
    let listed = validation::allowed_of(text::lines(printed));
    assert(listing_view(r) == listing(Ok(output)));
    assert(listed.contains(name));
    let i = listed.index_of(name);
    assert(text::texts(r->Ok_0@)[i] == r->Ok_0@[i]@);
}

} // verus!
