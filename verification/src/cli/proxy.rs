//! Starting and stopping the proxy on the machine of a helper.

use vstd::prelude::*;

use crate::cli::proc_manager::{self, ProcessRecord};
use crate::cli::types::{self, CliEnvelope, EnvelopeView};
use crate::json::{self, Json, JsonObject, Tree};
use crate::text::chars::{self, cat2, cat3, push_text};
use crate::text::number::{self, number_text};
use crate::text::search::{self, includes};

verus! {

/// How far stopping a process has come.
#[derive(Debug, Clone, Copy, PartialEq, Eq, Structural)]
pub enum TerminateState {
    /// Nothing was done yet.
    Checking,
    /// It was asked to end, and was seen running this many times since.
    Asked(u32),
    /// It was killed, and was seen running this many times since.
    Killed(u32),
}

/// What is done next to stop a process.
#[derive(Debug, Clone, Copy, PartialEq, Eq, Structural)]
pub enum TerminateAction {
    /// It is over: the process ended, or it did not.
    Done(bool),
    /// The process is asked to end.
    Ask,
    /// A pause of 100 milliseconds.
    Pause,
    /// The same pause; then the process is killed.
    PauseAndKill,
    /// The same pause; then it is over, and the process did not end.
    PauseAndGiveUp,
}

/// How often a process is looked at after each signal.
pub const EXIT_CHECKS: u32 = 10;

/// What is done after a process was looked at, and seen running or not.
pub open spec fn terminate_next(state: TerminateState, running: bool) -> (
    TerminateState,
    TerminateAction,
) {
    if !running {
        (state, TerminateAction::Done(true))
    } else {
        match state {
            TerminateState::Checking => (TerminateState::Asked(0), TerminateAction::Ask),
            TerminateState::Asked(n) => if n + 1 < EXIT_CHECKS {
                (TerminateState::Asked((n + 1) as u32), TerminateAction::Pause)
            } else {
                (TerminateState::Killed(0), TerminateAction::PauseAndKill)
            },
            TerminateState::Killed(n) => if n + 1 < EXIT_CHECKS {
                (TerminateState::Killed((n + 1) as u32), TerminateAction::Pause)
            } else {
                (state, TerminateAction::PauseAndGiveUp)
            },
        }
    }
}

/// How many more looks stopping a process can take.
pub open spec fn looks_left(state: TerminateState) -> int {
    match state {
        TerminateState::Checking => 21,
        TerminateState::Asked(n) => 20 - n,
        TerminateState::Killed(n) => 10 - n,
    }
}

/// A process is never killed before it was asked to end, and stopping it always comes
/// to an end.
pub proof fn lemma_terminate_progress(state: TerminateState, running: bool)
    requires
        0 < looks_left(state) <= 21,
        state is Asked ==> state->Asked_0 < EXIT_CHECKS,
        state is Killed ==> state->Killed_0 < EXIT_CHECKS,
    ensures
        ({
            let (next, action) = terminate_next(state, running);
            &&& action is PauseAndKill ==> state is Asked
            &&& !(action is Done) && !(action is PauseAndGiveUp) ==> 0 < looks_left(next)
                < looks_left(state)
        }),
{
}

/// What is done after a process was looked at, and seen running or not.
pub fn terminate_pid(state: TerminateState, running: bool) -> (r: (TerminateState, TerminateAction))
    requires
        state is Asked ==> state->Asked_0 < EXIT_CHECKS,
        state is Killed ==> state->Killed_0 < EXIT_CHECKS,
    ensures
        r == terminate_next(state, running),
{
    if !running {
        return (state, TerminateAction::Done(true));
    }
    match state {
        TerminateState::Checking => (TerminateState::Asked(0), TerminateAction::Ask),
        TerminateState::Asked(n) => if n + 1 < EXIT_CHECKS {
            (TerminateState::Asked(n + 1), TerminateAction::Pause)
        } else {
            (TerminateState::Killed(0), TerminateAction::PauseAndKill)
        },
        TerminateState::Killed(n) => if n + 1 < EXIT_CHECKS {
            (TerminateState::Killed(n + 1), TerminateAction::Pause)
        } else {
            (state, TerminateAction::PauseAndGiveUp)
        },
    }
}

/// Whether the command line of a process is one of the proxy.
pub open spec fn looks_like_proxy(cmdline: Option<Seq<char>>) -> bool {
    match cmdline {
        Some(text) => search::contains(text, "csswitch_proxy.py"@) || search::contains(
            text,
            "csswitch_proxy"@,
        ),
        None => false,
    }
}

/// Whether the command line of a process is one of the proxy.
pub fn pid_looks_like_recorded_proxy(cmdline: Option<&str>) -> (r: bool)
    ensures
        r == looks_like_proxy(chars::opt_str(cmdline)),
{
    match cmdline {
        Some(text) => includes(text, "csswitch_proxy.py") || includes(text, "csswitch_proxy"),
        None => false,
    }
}

/// Whether what is noted of a process is that of the proxy to stop: it has the port, or
/// it was started as a proxy.
pub open spec fn notes_proxy(p: ProcessRecord, port: u16) -> bool {
    p.port == port || search::contains(p.command@, "csswitch_proxy"@)
}

/// A proxy that was noted when it was started is the one to stop, whatever the port is
/// by then.
pub proof fn lemma_noted_proxy_is_stopped(
    r: ProcessRecord,
    pid: u32,
    port: u16,
    secret: Seq<char>,
    now: i64,
    later_port: u16,
)
    requires
        proc_manager::is_proxy_record(r, pid, port, secret, now),
    ensures
        notes_proxy(r, later_port),
        r.pid == pid,
{
    reveal_strlit("python3 csswitch_proxy.py");
    reveal_strlit("csswitch_proxy");
    assert("python3 csswitch_proxy.py"@.subrange(8, 22) =~= "csswitch_proxy"@);
    assert(search::occurs_at(r.command@, "csswitch_proxy"@, 8));
}

/// The process that was noted as the proxy, if it is the one to stop.
pub open spec fn noted_proxy(record: Option<&ProcessRecord>, port: u16) -> Option<u32> {
    match record {
        Some(p) => if notes_proxy(*p, port) {
            Some(p.pid)
        } else {
            None
        },
        None => None,
    }
}

/// The process that was noted as the proxy, if it is the one to stop.
pub fn recorded_proxy(record: Option<&ProcessRecord>, port: u16) -> (r: Option<u32>)
    ensures
        r == noted_proxy(record, port),
{
    match record {
        Some(p) => if p.port == port || includes(p.command.as_str(), "csswitch_proxy") {
            Some(p.pid)
        } else {
            None
        },
        None => None,
    }
}

/// What comes of stopping the noted process: whether its record is removed, and whether
/// it was stopped.
pub open spec fn after_stopping(ended: Option<bool>) -> (bool, bool) {
    match ended {
        None => (true, false),
        Some(b) => (b, b),
    }
}

/// What comes of stopping the noted process: whether its record is removed, and whether
/// it was stopped. `ended` is `None` where the process is no proxy and was left alone.
pub fn stop_recorded_proxy(ended: Option<bool>) -> (r: (bool, bool))
    ensures
        r == after_stopping(ended),
{
    match ended {
        None => (true, false),
        Some(b) => (b, b),
    }
}

/// How far freeing a port has come: which look at it is next.
#[derive(Debug, Clone, Copy, PartialEq, Eq, Structural)]
pub enum ClearState {
    First,
    Second,
    Last,
}

/// What is done next to free a port.
#[derive(Debug)]
pub enum ClearAction {
    /// The port is looked at again.
    Look,
    /// A program is run; after a pause of the given milliseconds the port is looked at
    /// again.
    Run { program: String, args: Vec<String>, pause_ms: u64 },
    /// It is over: the port is free, or it is not.
    Done(bool),
}

/// The contents of an action.
pub enum ClearView {
    Look,
    Run { program: Seq<char>, args: Seq<Seq<char>>, pause_ms: u64 },
    Done(bool),
}

impl View for ClearAction {
    type V = ClearView;

    open spec fn view(&self) -> ClearView {
        match *self {
            ClearAction::Look => ClearView::Look,
            ClearAction::Run { program, args, pause_ms } => ClearView::Run {
                program: program@,
                args: chars::texts(args@),
                pause_ms,
            },
            ClearAction::Done(b) => ClearView::Done(b),
        }
    }
}

/// The name of a port for `fuser`.
pub open spec fn tcp_port(port: u16) -> Seq<char> {
    number::decimal(port as nat) + "/tcp"@
}

/// What is done after a port was looked at, and seen in use or not.
pub open spec fn clear_next(state: ClearState, port: u16, open: bool) -> (ClearState, ClearView) {
    match state {
        ClearState::First => (
            ClearState::Second,
            if open {
                ClearView::Run {
                    program: "fuser"@,
                    args: seq!["-k"@, tcp_port(port)],
                    pause_ms: 500,
                }
            } else {
                ClearView::Look
            },
        ),
        ClearState::Second => (
            ClearState::Last,
            if open {
                ClearView::Run {
                    program: "sh"@,
                    args: seq![
                        "-c"@,
                        "lsof -ti:"@ + number::decimal(port as nat)
                            + " | xargs -r kill 2>/dev/null; true"@,
                    ],
                    pause_ms: 500,
                }
            } else {
                ClearView::Look
            },
        ),
        ClearState::Last => (ClearState::Last, ClearView::Done(!open)),
    }
}

/// The first thing that is done to free a port: who uses it is asked to end.
pub open spec fn clear_first(port: u16) -> (ClearState, ClearView) {
    (
        ClearState::First,
        ClearView::Run {
            program: "fuser"@,
            args: seq!["-TERM"@, tcp_port(port)],
            pause_ms: 1000,
        },
    )
}

/// The first thing that is done to free a port: who uses it is asked to end.
pub fn clear_unhealthy_proxy_port(port: u16) -> (r: (ClearState, ClearAction))
    ensures
        (r.0, r.1@) == clear_first(port),
{
    let shown = number_text(port as u64);
    let name = cat2(shown.as_str(), "/tcp");
    let mut args: Vec<String> = Vec::new();
    push_text(&mut args, "-TERM");
    push_text(&mut args, name.as_str());
    assert(chars::texts(args@) =~= seq!["-TERM"@, tcp_port(port)]);
    (ClearState::First, ClearAction::Run { program: "fuser".to_string(), args, pause_ms: 1000 })
}

/// What is done after a port was looked at, and seen in use or not.
pub fn clear_port_step(state: ClearState, port: u16, open: bool) -> (r: (ClearState, ClearAction))
    ensures
        (r.0, r.1@) == clear_next(state, port, open),
{
    let shown = number_text(port as u64);
    match state {
        ClearState::First => {
            if !open {
                return (ClearState::Second, ClearAction::Look);
            }
            let name = cat2(shown.as_str(), "/tcp");
            let mut args: Vec<String> = Vec::new();
            push_text(&mut args, "-k");
            push_text(&mut args, name.as_str());
            assert(chars::texts(args@) =~= seq!["-k"@, tcp_port(port)]);
            (
                ClearState::Second,
                ClearAction::Run { program: "fuser".to_string(), args, pause_ms: 500 },
            )
        },
        ClearState::Second => {
            if !open {
                return (ClearState::Last, ClearAction::Look);
            }
            let script = cat3(
                "lsof -ti:",
                shown.as_str(),
                " | xargs -r kill 2>/dev/null; true",
            );
            let mut args: Vec<String> = Vec::new();
            push_text(&mut args, "-c");
            push_text(&mut args, script.as_str());
            assert(chars::texts(args@) =~= seq!["-c"@, script@]);
            (ClearState::Last, ClearAction::Run { program: "sh".to_string(), args, pause_ms: 500 })
        },
        ClearState::Last => (ClearState::Last, ClearAction::Done(!open)),
    }
}

/// What is reported of a proxy.
pub open spec fn proxy_status(port: u16, running: bool, healthy: bool) -> Seq<(Seq<char>, Tree)> {
    if running {
        seq![
            ("running"@, Tree::Bool(true)),
            ("port"@, Tree::Unsigned(port as u64)),
            ("healthy"@, Tree::Bool(healthy)),
        ]
    } else {
        seq![
            ("running"@, Tree::Bool(false)),
            ("healthy"@, Tree::Bool(false)),
            ("message"@, Tree::Text("代理未在运行。请使用 `proxy start` 启动。"@)),
        ]
    }
}

/// The reply to `proxy status`.
pub fn cmd_proxy_status(port: u16, running: bool, healthy: bool) -> (r: CliEnvelope)
    ensures
        r@ == types::success(Tree::Object(proxy_status(port, running, healthy))),
{
    let mut o = JsonObject::new();
    o.put("running", Json::Bool(running));
    if running {
        o.put("port", Json::number(port as u64));
        o.put("healthy", Json::Bool(healthy));
        assert(o@ =~= seq![
            ("running"@, Tree::Bool(true)),
            ("port"@, Tree::Unsigned(port as u64)),
            ("healthy"@, Tree::Bool(healthy)),
        ]);
    } else {
        o.put("healthy", Json::Bool(false));
        o.put("message", Json::text("代理未在运行。请使用 `proxy start` 启动。"));
        assert(o@ =~= seq![
            ("running"@, Tree::Bool(false)),
            ("healthy"@, Tree::Bool(false)),
            ("message"@, Tree::Text("代理未在运行。请使用 `proxy start` 启动。"@)),
        ]);
    }
    CliEnvelope::ok(o.done())
}

/// What is reported of a proxy that was stopped.
pub open spec fn stop_report(message: Seq<char>, port: u16) -> EnvelopeView {
    types::success(
        Tree::Object(
            seq![
                ("message"@, Tree::Text(message)),
                ("port"@, Tree::Unsigned(port as u64)),
                ("stopped"@, Tree::Bool(true)),
            ],
        ),
    )
}

/// What is reported of a proxy that was stopped.
fn stopped_reply(message: &str, port: u16) -> (r: CliEnvelope)
    ensures
        r@ == stop_report(message@, port),
{
    let mut o = JsonObject::new();
    o.put("message", Json::text(message));
    o.put("port", Json::number(port as u64));
    o.put("stopped", Json::Bool(true));
    assert(o@ =~= seq![
        ("message"@, Tree::Text(message@)),
        ("port"@, Tree::Unsigned(port as u64)),
        ("stopped"@, Tree::Bool(true)),
    ]);
    CliEnvelope::ok(o.done())
}

/// The reply to `proxy stop`: by whether the noted process was stopped, whether the port
/// was in use after that, and whether it was then freed.
pub open spec fn proxy_stop_reply(
    port: u16,
    stopped: bool,
    in_use: bool,
    cleared: bool,
) -> EnvelopeView {
    if !in_use {
        stop_report(
            if stopped {
                "已停止记录中的代理进程。"@
            } else {
                "端口上没有运行中的代理。"@
            },
            port,
        )
    } else if cleared || stopped {
        stop_report("端口 "@ + number::decimal(port as nat) + " 上的代理已停止"@, port)
    } else {
        types::failure_with_hint(
            "proxy_stop_failed"@,
            "端口 "@ + number::decimal(port as nat) + " 可能未被完全停止。"@,
            "请手动检查该端口上的进程，确认旧代理已停止后再重试。"@,
        )
    }
}

/// What is logged once a proxy was stopped on a port that was in use.
pub open spec fn proxy_stop_note(port: u16, stopped: bool, cleared: bool) -> Option<Seq<char>> {
    if cleared || stopped {
        Some("proxy stopped on port "@ + number::decimal(port as nat))
    } else {
        None
    }
}

/// How far `proxy stop` has come.
#[derive(Debug, Clone, Copy, PartialEq, Eq, Structural)]
pub enum ProxyStopState {
    /// The noted process is to be stopped.
    Noted,
    /// It was stopped or not; the port is to be looked at.
    Looking { stopped: bool },
    /// The port is in use, and is to be freed.
    Clearing { stopped: bool },
}

/// What `proxy stop` does next.
#[derive(Debug)]
pub enum ProxyStopAction {
    /// Stop the noted process, and tell whether that was done.
    StopNoted,
    /// Tell whether the port is in use.
    Look,
    /// Free the port, and tell whether that was done.
    Clear,
    /// Reply. With a message, the record of the proxy is removed, and the message logged.
    Reply { reply: CliEnvelope, note: Option<String> },
}

/// The contents of an action.
pub enum ProxyStopView {
    StopNoted,
    Look,
    Clear,
    Reply { reply: EnvelopeView, note: Option<Seq<char>> },
}

impl View for ProxyStopAction {
    type V = ProxyStopView;

    open spec fn view(&self) -> ProxyStopView {
        match *self {
            ProxyStopAction::StopNoted => ProxyStopView::StopNoted,
            ProxyStopAction::Look => ProxyStopView::Look,
            ProxyStopAction::Clear => ProxyStopView::Clear,
            ProxyStopAction::Reply { reply, note } => ProxyStopView::Reply {
                reply: reply@,
                note: chars::opt_text(note),
            },
        }
    }
}

/// The next step of `proxy stop`, by what was told of the last one.
pub open spec fn proxy_stop_next(state: ProxyStopState, told: bool, port: u16) -> (
    ProxyStopState,
    ProxyStopView,
) {
    match state {
        ProxyStopState::Noted => (ProxyStopState::Looking { stopped: told }, ProxyStopView::Look),
        ProxyStopState::Looking { stopped } => if told {
            (ProxyStopState::Clearing { stopped }, ProxyStopView::Clear)
        } else {
            (
                state,
                ProxyStopView::Reply {
                    reply: proxy_stop_reply(port, stopped, false, false),
                    note: None,
                },
            )
        },
        ProxyStopState::Clearing { stopped } => (
            state,
            ProxyStopView::Reply {
                reply: proxy_stop_reply(port, stopped, true, told),
                note: proxy_stop_note(port, stopped, told),
            },
        ),
    }
}

/// The beginning of `proxy stop`.
pub fn begin_proxy_stop() -> (r: (ProxyStopState, ProxyStopAction))
    ensures
        r.0 == ProxyStopState::Noted,
        r.1 is StopNoted,
{
    (ProxyStopState::Noted, ProxyStopAction::StopNoted)
}

/// The next step of `proxy stop`, by what was told of the last one: first the noted
/// process is stopped, and only if the port is in use after that is the port freed.
pub fn cmd_proxy_stop(state: ProxyStopState, told: bool, port: u16) -> (r: (
    ProxyStopState,
    ProxyStopAction,
))
    ensures
        (r.0, r.1@) == proxy_stop_next(state, told, port),
{
    match state {
        ProxyStopState::Noted => (ProxyStopState::Looking { stopped: told }, ProxyStopAction::Look),
        ProxyStopState::Looking { stopped } => if told {
            (ProxyStopState::Clearing { stopped }, ProxyStopAction::Clear)
        } else {
            let message = if stopped {
                "已停止记录中的代理进程。"
            } else {
                "端口上没有运行中的代理。"
            };
            (state, ProxyStopAction::Reply { reply: stopped_reply(message, port), note: None })
        },
        ProxyStopState::Clearing { stopped } => {
            let shown = number_text(port as u64);
            if told || stopped {
                let message = cat3("端口 ", shown.as_str(), " 上的代理已停止");
                let note = cat2("proxy stopped on port ", shown.as_str());
                let reply = stopped_reply(message.as_str(), port);
                (state, ProxyStopAction::Reply { reply, note: Some(note) })
            } else {
                let message = cat3("端口 ", shown.as_str(), " 可能未被完全停止。");
                let reply = CliEnvelope::err_with_hint(
                    "proxy_stop_failed",
                    message.as_str(),
                    "请手动检查该端口上的进程，确认旧代理已停止后再重试。",
                );
                (state, ProxyStopAction::Reply { reply, note: None })
            }
        },
    }
}

/// A process that ended is stopped, however far that had come. One that runs is asked to
/// end, killed after ten looks, and given up after ten more.
pub proof fn lemma_terminate_order(state: TerminateState, n: u32)
    requires
        n < 10,
    ensures
        terminate_next(state, false).1 == TerminateAction::Done(true),
        terminate_next(TerminateState::Checking, true) == (
            TerminateState::Asked(0),
            TerminateAction::Ask,
        ),
        n < 9 ==> terminate_next(TerminateState::Asked(n), true) == (
            TerminateState::Asked((n + 1) as u32),
            TerminateAction::Pause,
        ),
        n == 9 ==> terminate_next(TerminateState::Asked(n), true) == (
            TerminateState::Killed(0),
            TerminateAction::PauseAndKill,
        ),
        n < 9 ==> terminate_next(TerminateState::Killed(n), true) == (
            TerminateState::Killed((n + 1) as u32),
            TerminateAction::Pause,
        ),
        n == 9 ==> terminate_next(TerminateState::Killed(n), true).1
            == TerminateAction::PauseAndGiveUp,
{
}

/// A process is a proxy exactly if its command line names the script of the proxy; where
/// its command line is not known, it is not taken for one.
pub proof fn lemma_looks_like_proxy(cmdline: Seq<char>, before: Seq<char>, after: Seq<char>)
    ensures
        looks_like_proxy(Some(cmdline)) <==> search::contains(cmdline, "csswitch_proxy"@),
        looks_like_proxy(Some(before + "csswitch_proxy.py"@ + after)),
        !looks_like_proxy(None),
{
    reveal_strlit("csswitch_proxy.py");
    reveal_strlit("csswitch_proxy");
    if search::contains(cmdline, "csswitch_proxy.py"@) {
        let i = choose|i: int| search::occurs_at(cmdline, "csswitch_proxy.py"@, i);
        assert(cmdline.subrange(i, i + 14) =~= "csswitch_proxy"@) by {
            let w = cmdline.subrange(i, i + 17);
            assert forall|k: int| 0 <= k < 14 implies cmdline[i + k] == "csswitch_proxy"@[k] by {
                assert(w[k] == "csswitch_proxy.py"@[k]);
            }
        }
        assert(search::occurs_at(cmdline, "csswitch_proxy"@, i));
    }
    let line = before + "csswitch_proxy.py"@ + after;
    let k = before.len() as int;
    assert(line.subrange(k, k + 17) =~= "csswitch_proxy.py"@);
    assert(search::occurs_at(line, "csswitch_proxy.py"@, k));
}

/// A noted process is the one to stop if its port is the one in question, or if it was
/// started as a proxy; nothing else is. Its record goes with it, and also where it turned
/// out to be no proxy; only a process that ended counts as stopped.
pub proof fn lemma_noted_proxy(record: ProcessRecord, port: u16, ended: bool)
    ensures
        record.port == port ==> noted_proxy(Some(&record), port) == Some(record.pid),
        record.port != port && !search::contains(record.command@, "csswitch_proxy"@)
            ==> noted_proxy(Some(&record), port) is None,
        noted_proxy(None, port) is None,
        after_stopping(Some(ended)) == (ended, ended),
        after_stopping(None) == (true, false),
{
}

/// To free a port, its users are asked to end, then killed, each time under the number of
/// that very port; a port that is free is left alone, and whether it is free is told last.
pub proof fn lemma_clearing(port: u16, open: bool)
    ensures
        number::parse_unsigned(number::decimal(port as nat), 65535) == Some(port as nat),
        clear_first(port).1 == (ClearView::Run {
            program: "fuser"@,
            args: seq!["-TERM"@, number::decimal(port as nat) + "/tcp"@],
            pause_ms: 1000,
        }),
        clear_next(clear_first(port).0, port, true) == (
            ClearState::Second,
            ClearView::Run {
                program: "fuser"@,
                args: seq!["-k"@, number::decimal(port as nat) + "/tcp"@],
                pause_ms: 500,
            },
        ),
        clear_next(ClearState::Second, port, true).0 == ClearState::Last,
        clear_next(ClearState::Second, port, true).1 matches ClearView::Run {
            program,
            args,
            pause_ms,
        } && program == "sh"@ && args.len() == 2 && args[0] == "-c"@ && pause_ms == 500
            && search::begins(args[1], "lsof -ti:"@ + number::decimal(port as nat) + " "@),
        clear_next(ClearState::First, port, false) == (ClearState::Second, ClearView::Look),
        clear_next(ClearState::Second, port, false) == (ClearState::Last, ClearView::Look),
        clear_next(ClearState::Last, port, open).1 == ClearView::Done(!open),
{
    number::lemma_parse_decimal(port as nat, 65535);
    reveal_strlit(" ");
    reveal_strlit(" | xargs -r kill 2>/dev/null; true");
    let head = "lsof -ti:"@ + number::decimal(port as nat) + " "@;
    let script = "lsof -ti:"@ + number::decimal(port as nat) + " | xargs -r kill 2>/dev/null; true"@;
    assert(script.take(head.len() as int) =~= head);
}

/// A proxy that runs is reported with its port and whether it is well; one that does not
/// run is not well.
pub proof fn lemma_proxy_status(port: u16, running: bool, healthy: bool)
    ensures
        ({
            let report = Tree::Object(proxy_status(port, running, healthy));
            &&& json::bool_field(report, "running"@) == Some(running)
            &&& json::bool_field(report, "healthy"@) == Some(running && healthy)
            &&& running ==> json::number_field(report, "port"@) == Some(port as u64)
        }),
{
    let m = proxy_status(port, running, healthy);
    reveal_strlit("running");
    reveal_strlit("port");
    reveal_strlit("healthy");
    assert("running"@.len() != "port"@.len());
    assert("running"@[0] != "healthy"@[0]);
    assert("port"@.len() != "healthy"@.len());
    json::lemma_member(m, "running"@, 0);
    json::lemma_member(
        m,
        "healthy"@,
        if running {
            2
        } else {
            1
        },
    );
    if running {
        json::lemma_member(m, "port"@, 1);
    }
}

/// A stop succeeds exactly if the port is free after it, or the noted proxy was stopped;
/// the port is then told, and only where it had to be freed is a line logged.
pub proof fn lemma_proxy_stop(port: u16, stopped: bool, told: bool)
    ensures
        ({
            let looking = proxy_stop_next(ProxyStopState::Noted, stopped, port);
            let free = proxy_stop_next(looking.0, false, port);
            let used = proxy_stop_next(looking.0, true, port);
            let over = proxy_stop_next(used.0, told, port);
            &&& looking.1 is Look
            &&& used.1 is Clear
            &&& free.1 matches ProxyStopView::Reply { reply, note }
            &&& reply.ok && note is None
            &&& json::bool_field(reply.data->0, "stopped"@) == Some(true)
            &&& json::number_field(reply.data->0, "port"@) == Some(port as u64)
            &&& over.1 matches ProxyStopView::Reply { reply, note }
            &&& reply.ok == (told || stopped)
            &&& note is Some == (told || stopped)
            &&& note is Some ==> note == Some(
                "proxy stopped on port "@ + number::decimal(port as nat),
            )
            &&& reply.ok ==> json::number_field(reply.data->0, "port"@) == Some(port as u64)
            &&& !reply.ok ==> reply.error->0.code == "proxy_stop_failed"@
        }),
{
    assert forall|message: Seq<char>|
        json::bool_field((#[trigger] stop_report(message, port)).data->0, "stopped"@) == Some(true)
            && json::number_field(stop_report(message, port).data->0, "port"@) == Some(
            port as u64,
        ) by {
        let m = stop_report(message, port).data->0->Object_0;
        reveal_strlit("message");
        reveal_strlit("port");
        reveal_strlit("stopped");
        assert("message"@.len() != "port"@.len());
        assert("message"@[0] != "stopped"@[0]);
        assert("port"@.len() != "stopped"@.len());
        json::lemma_member(m, "port"@, 1);
        json::lemma_member(m, "stopped"@, 2);
    }
}

} // verus!
