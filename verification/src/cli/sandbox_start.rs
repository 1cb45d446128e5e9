//! Starting the sandbox on the machine of a helper: what is done in which order, and
//! what is replied.

use vstd::prelude::*;

use crate::cli::commands::{self, validate_managed_port};
use crate::cli::proxy_start::LogFault;
use crate::cli::sandbox::{self, daemon_args, serve_args, serve_env};
use crate::cli::types::{self, CliEnvelope, EnvelopeView};
use crate::json::{self, Json, JsonObject, Tree};
use crate::product::{self, not_found, Product};
use crate::text::chars::{self, cat2, cat3};
use crate::text::number::{self, number_text};
use crate::text::search;

verus! {

/// How often it is looked whether an earlier sandbox has gone.
pub const GONE_CHECKS: u32 = 20;

/// What the start of a sandbox waits for. All but the first hold where its program is.
#[derive(Debug)]
pub enum SandboxState {
    /// Where the program of the sandbox is.
    Program,
    /// Whether the port is in use or an earlier sandbox is there.
    Busy(String),
    /// The same, after an earlier sandbox was stopped and seen this many times since.
    Leaving(String, u32),
    /// Whether the port is in use after all.
    Port(String),
    /// Whether a login could be prepared.
    Login(String),
    /// Whether the log can be written.
    Log(String),
    /// Whether the sandbox runs.
    Spawning(String),
    /// Whether the sandbox is ready.
    Ready(String),
    /// Nothing.
    Over,
}

/// The contents of a state.
pub enum SandboxStateView {
    Program,
    Busy(Seq<char>),
    Leaving(Seq<char>, u32),
    Port(Seq<char>),
    Login(Seq<char>),
    Log(Seq<char>),
    Spawning(Seq<char>),
    Ready(Seq<char>),
    Over,
}

impl View for SandboxState {
    type V = SandboxStateView;

    open spec fn view(&self) -> SandboxStateView {
        match *self {
            SandboxState::Program => SandboxStateView::Program,
            SandboxState::Busy(p) => SandboxStateView::Busy(p@),
            SandboxState::Leaving(p, n) => SandboxStateView::Leaving(p@, n),
            SandboxState::Port(p) => SandboxStateView::Port(p@),
            SandboxState::Login(p) => SandboxStateView::Login(p@),
            SandboxState::Log(p) => SandboxStateView::Log(p@),
            SandboxState::Spawning(p) => SandboxStateView::Spawning(p@),
            SandboxState::Ready(p) => SandboxStateView::Ready(p@),
            SandboxState::Over => SandboxStateView::Over,
        }
    }
}

/// What was found.
#[derive(Debug)]
pub enum SandboxEvent {
    Command(Option<String>),
    /// Whether the port is in use or a process of the sandbox is there.
    Busy(bool),
    Port(bool),
    /// What went wrong with the login, if anything did.
    Login(Option<String>),
    Log(Option<LogFault>),
    Spawned(Result<(), String>),
    /// The link to the sandbox.
    Ready(Result<String, String>),
}

/// What is done next.
#[derive(Debug)]
pub enum SandboxAction {
    /// The program of the sandbox is looked for.
    FindProgram,
    /// The data directory is made; then the port and the processes are looked at.
    LookAround,
    /// The program is run to stop an earlier sandbox, and its processes are stopped;
    /// then the port and the processes are looked at.
    StopAndLook { program: String, args: Vec<String>, home: String },
    /// The port and the processes are looked at after a pause of 250 milliseconds.
    PauseAndLook,
    /// The port is looked at.
    LookAtPort,
    /// The port is looked at after the same pause.
    PauseAndLookAtPort,
    /// A login is prepared.
    PrepareLogin,
    /// A warning is logged, if there is one; then the log of the sandbox is opened.
    OpenLog { warning: Option<String> },
    /// The sandbox is started.
    Spawn { program: String, args: Vec<String>, env: Vec<(String, String)> },
    /// It is asked for a link, then for its health.
    AwaitReady,
    /// The program is run to stop the sandbox, and its processes are stopped; then this
    /// is replied.
    StopAndReply { program: String, args: Vec<String>, home: String, reply: CliEnvelope },
    /// This is replied.
    Reply(CliEnvelope),
}

/// The contents of an action.
pub enum SandboxActionView {
    FindProgram,
    LookAround,
    StopAndLook { program: Seq<char>, args: Seq<Seq<char>>, home: Seq<char> },
    PauseAndLook,
    LookAtPort,
    PauseAndLookAtPort,
    PrepareLogin,
    OpenLog { warning: Option<Seq<char>> },
    Spawn { program: Seq<char>, args: Seq<Seq<char>>, env: Seq<(Seq<char>, Seq<char>)> },
    AwaitReady,
    StopAndReply {
        program: Seq<char>,
        args: Seq<Seq<char>>,
        home: Seq<char>,
        reply: EnvelopeView,
    },
    Reply(EnvelopeView),
}

impl View for SandboxAction {
    type V = SandboxActionView;

    open spec fn view(&self) -> SandboxActionView {
        match *self {
            SandboxAction::FindProgram => SandboxActionView::FindProgram,
            SandboxAction::LookAround => SandboxActionView::LookAround,
            SandboxAction::StopAndLook { program, args, home } => SandboxActionView::StopAndLook {
                program: program@,
                args: chars::texts(args@),
                home: home@,
            },
            SandboxAction::PauseAndLook => SandboxActionView::PauseAndLook,
            SandboxAction::LookAtPort => SandboxActionView::LookAtPort,
            SandboxAction::PauseAndLookAtPort => SandboxActionView::PauseAndLookAtPort,
            SandboxAction::PrepareLogin => SandboxActionView::PrepareLogin,
            SandboxAction::OpenLog { warning } => SandboxActionView::OpenLog {
                warning: chars::opt_text(warning),
            },
            SandboxAction::Spawn { program, args, env } => SandboxActionView::Spawn {
                program: program@,
                args: chars::texts(args@),
                env: chars::pairs(env@),
            },
            SandboxAction::AwaitReady => SandboxActionView::AwaitReady,
            SandboxAction::StopAndReply { program, args, home, reply } => {
                SandboxActionView::StopAndReply {
                    program: program@,
                    args: chars::texts(args@),
                    home: home@,
                    reply: reply@,
                }
            },
            SandboxAction::Reply(reply) => SandboxActionView::Reply(reply@),
        }
    }
}

/// Whether an event is one that a state waits for.
pub open spec fn fits(state: SandboxStateView, event: SandboxEvent) -> bool {
    match state {
        SandboxStateView::Program => event is Command,
        SandboxStateView::Busy(_) => event is Busy,
        SandboxStateView::Leaving(_, n) => event is Busy && n < GONE_CHECKS,
        SandboxStateView::Port(_) => event is Port,
        SandboxStateView::Login(_) => event is Login,
        SandboxStateView::Log(_) => event is Log,
        SandboxStateView::Spawning(_) => event is Spawned,
        SandboxStateView::Ready(_) => event is Ready,
        SandboxStateView::Over => false,
    }
}

/// The end of a start with a reply.
pub open spec fn end(reply: EnvelopeView) -> (SandboxStateView, SandboxActionView) {
    (SandboxStateView::Over, SandboxActionView::Reply(reply))
}

/// The reply where the log cannot be written.
pub open spec fn log_failure(fault: LogFault) -> EnvelopeView {
    types::failure(
        "sandbox_log_error"@,
        match fault {
            LogFault::Folder(e) => "创建沙箱日志目录失败："@ + e@,
            LogFault::Open(e) => "打开 sandbox.log 失败："@ + e@,
            LogFault::Copy(e) => "复制 sandbox.log 句柄失败："@ + e@,
        },
    )
}

/// The reply where the sandbox was started.
pub open spec fn started_report(port: u16, url: Seq<char>) -> EnvelopeView {
    types::success(
        Tree::Object(
            seq![
                (
                    "message"@,
                    Tree::Text("沙箱已启动，端口 "@ + number::decimal(port as nat)),
                ),
                ("port"@, Tree::Unsigned(port as u64)),
                ("url"@, Tree::Text(url)),
            ],
        ),
    )
}

/// What comes of whether the sandbox is ready.
pub open spec fn after_ready(
    names: Product,
    program: Seq<char>,
    ready: Result<String, String>,
    port: u16,
    home: Seq<char>,
    data_dir: Seq<char>,
) -> (SandboxStateView, SandboxActionView) {
    match ready {
        Ok(url) => end(started_report(port, url@)),
        Err(e) => (
            SandboxStateView::Over,
            SandboxActionView::StopAndReply {
                program,
                args: sandbox::daemon_arguments("stop"@, data_dir),
                home,
                reply: types::failure_with_hint(
                    "sandbox_start_timeout"@,
                    "沙箱启动后未就绪："@ + e@,
                    "请查看 helper 的 sandbox.log，确认 "@ + names.program@ + " 是否启动成功。"@,
                ),
            },
        ),
    }
}

/// What comes of an event.
pub open spec fn sandbox_next(
    names: Product,
    state: SandboxStateView,
    event: SandboxEvent,
    port: u16,
    proxy_url: Seq<char>,
    home: Seq<char>,
    data_dir: Seq<char>,
) -> (SandboxStateView, SandboxActionView) {
    let shown = number::decimal(port as nat);
    match (state, event) {
        (SandboxStateView::Program, SandboxEvent::Command(found)) => match found {
            Some(p) => (SandboxStateView::Busy(p@), SandboxActionView::LookAround),
            None => end(
                types::failure_with_hint(
                    "science_not_found"@,
                    product::missing(names.program@),
                    "请在服务器上安装 "@ + names.title@ + " 并确保其在 PATH 中。"@,
                ),
            ),
        },
        (SandboxStateView::Busy(p), SandboxEvent::Busy(busy)) => if busy {
            (
                SandboxStateView::Leaving(p, 0),
                SandboxActionView::StopAndLook {
                    program: p,
                    args: sandbox::daemon_arguments("stop"@, data_dir),
                    home,
                },
            )
        } else {
            (SandboxStateView::Login(p), SandboxActionView::PrepareLogin)
        },
        (SandboxStateView::Leaving(p, n), SandboxEvent::Busy(busy)) => if !busy {
            (SandboxStateView::Port(p), SandboxActionView::LookAtPort)
        } else if n + 1 < GONE_CHECKS {
            (SandboxStateView::Leaving(p, (n + 1) as u32), SandboxActionView::PauseAndLook)
        } else {
            (SandboxStateView::Port(p), SandboxActionView::PauseAndLookAtPort)
        },
        (SandboxStateView::Port(p), SandboxEvent::Port(open)) => if open {
            end(
                types::failure_with_hint(
                    "port_in_use"@,
                    "端口 "@ + shown + " 已被占用，无法启动 Science 沙箱。"@,
                    "请先停止占用该端口的进程，或在高级设置里更换沙箱端口。"@,
                ),
            )
        } else {
            (SandboxStateView::Login(p), SandboxActionView::PrepareLogin)
        },
        (SandboxStateView::Login(p), SandboxEvent::Login(fault)) => (
            SandboxStateView::Log(p),
            SandboxActionView::OpenLog {
                warning: match fault {
                    Some(e) => Some(
                        "OAuth 虚拟登录失败（沙箱启动后可能无凭证）: "@ + e@,
                    ),
                    None => None,
                },
            },
        ),
        (SandboxStateView::Log(p), SandboxEvent::Log(fault)) => match fault {
            None => (
                SandboxStateView::Spawning(p),
                SandboxActionView::Spawn {
                    program: p,
                    args: sandbox::serve_arguments(data_dir, port),
                    env: sandbox::serve_environment(home, proxy_url),
                },
            ),
            Some(f) => end(log_failure(f)),
        },
        (SandboxStateView::Spawning(p), SandboxEvent::Spawned(outcome)) => match outcome {
            Ok(_) => (SandboxStateView::Ready(p), SandboxActionView::AwaitReady),
            Err(e) => end(
                types::failure_with_hint(
                    "sandbox_start_failed"@,
                    "启动沙箱失败："@ + e@,
                    "请检查端口 "@ + shown + " 是否被占用。"@,
                ),
            ),
        },
        (SandboxStateView::Ready(p), SandboxEvent::Ready(ready)) => after_ready(
            names,
            p,
            ready,
            port,
            home,
            data_dir,
        ),
        _ => (state, SandboxActionView::FindProgram),
    }
}

/// How many more events a start can take.
pub open spec fn events_left(state: SandboxStateView) -> int {
    match state {
        SandboxStateView::Program => 27,
        SandboxStateView::Busy(_) => 26,
        SandboxStateView::Leaving(_, n) => 25 - n,
        SandboxStateView::Port(_) => 5,
        SandboxStateView::Login(_) => 4,
        SandboxStateView::Log(_) => 3,
        SandboxStateView::Spawning(_) => 2,
        SandboxStateView::Ready(_) => 1,
        SandboxStateView::Over => 0,
    }
}

/// Each event brings a start nearer to its end, so it ends after at most 27 of them, and
/// it ends with a reply. It goes on to a login only where nothing was in its way or the
/// port was found free, and a sandbox that did not become ready is stopped again.
pub proof fn lemma_sandbox_progress(
    names: Product,
    state: SandboxStateView,
    event: SandboxEvent,
    port: u16,
    proxy_url: Seq<char>,
    home: Seq<char>,
    data_dir: Seq<char>,
)
    requires
        fits(state, event),
    ensures
        ({
            let (next, action) = sandbox_next(names, state, event, port, proxy_url, home, data_dir);
            &&& 0 <= events_left(next) < events_left(state)
            &&& next is Over <==> (action is Reply || action is StopAndReply)
            &&& next is Over <==> events_left(next) == 0
            &&& next is Login ==> event == SandboxEvent::Busy(false) || event
                == SandboxEvent::Port(false)
            &&& state is Ready && event->Ready_0 is Err ==> action is StopAndReply
        }),
{
}

/// The first step of a start: a port that may not be used is refused.
pub fn begin_sandbox_start(port: u16) -> (r: (SandboxState, SandboxAction))
    ensures
        (r.0@, r.1@) == match commands::port_fault(port) {
            None => (SandboxStateView::Program, SandboxActionView::FindProgram),
            Some(fault) => end(fault),
        },
{
    match validate_managed_port(port) {
        Ok(()) => (SandboxState::Program, SandboxAction::FindProgram),
        Err(reply) => (SandboxState::Over, SandboxAction::Reply(reply)),
    }
}

/// The end of a start with a failure and a hint.
fn fail_with_hint(code: &str, message: &str, hint: &str) -> (r: (SandboxState, SandboxAction))
    ensures
        (r.0@, r.1@) == end(types::failure_with_hint(code@, message@, hint@)),
{
    (SandboxState::Over, SandboxAction::Reply(CliEnvelope::err_with_hint(code, message, hint)))
}

/// What comes of whether the log can be written.
fn logged(
    program: String,
    fault: Option<LogFault>,
    port: u16,
    proxy_url: &str,
    home: &str,
    data_dir: &str,
) -> (r: (SandboxState, SandboxAction))
    ensures
        (r.0@, r.1@) == match fault {
            None => (
                SandboxStateView::Spawning(program@),
                SandboxActionView::Spawn {
                    program: program@,
                    args: sandbox::serve_arguments(data_dir@, port),
                    env: sandbox::serve_environment(home@, proxy_url@),
                },
            ),
            Some(f) => end(log_failure(f)),
        },
{
    match fault {
        None => {
            let args = serve_args(data_dir, port);
            let env = serve_env(home, proxy_url);
            let copy = program.as_str().to_string();
            (SandboxState::Spawning(copy), SandboxAction::Spawn { program, args, env })
        },
        Some(f) => {
            let message = match f {
                LogFault::Folder(e) => cat2("创建沙箱日志目录失败：", e.as_str()),
                LogFault::Open(e) => cat2("打开 sandbox.log 失败：", e.as_str()),
                LogFault::Copy(e) => cat2("复制 sandbox.log 句柄失败：", e.as_str()),
            };
            (
                SandboxState::Over,
                SandboxAction::Reply(CliEnvelope::err("sandbox_log_error", message.as_str())),
            )
        },
    }
}

/// What comes of whether the sandbox is ready.
fn ready(
    names: &Product,
    program: String,
    outcome: Result<String, String>,
    port: u16,
    home: &str,
    data_dir: &str,
) -> (r: (SandboxState, SandboxAction))
    ensures
        (r.0@, r.1@) == after_ready(*names, program@, outcome, port, home@, data_dir@),
{
    match outcome {
        Ok(url) => {
            let shown = number_text(port as u64);
            let message = cat2("沙箱已启动，端口 ", shown.as_str());
            let mut o = JsonObject::new();
            o.put("message", Json::text(message.as_str()));
            o.put("port", Json::number(port as u64));
            o.put("url", Json::text(url.as_str()));
            assert(o@ =~= seq![
                (
                    "message"@,
                    Tree::Text("沙箱已启动，端口 "@ + number::decimal(port as nat)),
                ),
                ("port"@, Tree::Unsigned(port as u64)),
                ("url"@, Tree::Text(url@)),
            ]);
            (SandboxState::Over, SandboxAction::Reply(CliEnvelope::ok(o.done())))
        },
        Err(e) => {
            let message = cat2("沙箱启动后未就绪：", e.as_str());
            let hint = cat3(
                "请查看 helper 的 sandbox.log，确认 ",
                names.program.as_str(),
                " 是否启动成功。",
            );
            let reply = CliEnvelope::err_with_hint(
                "sandbox_start_timeout",
                message.as_str(),
                hint.as_str(),
            );
            let args = daemon_args("stop", data_dir);
            (
                SandboxState::Over,
                SandboxAction::StopAndReply { program, args, home: home.to_string(), reply },
            )
        },
    }
}

/// What comes of an event.
pub fn cmd_sandbox_start(
    names: &Product,
    state: SandboxState,
    event: SandboxEvent,
    port: u16,
    proxy_url: &str,
    home: &str,
    data_dir: &str,
) -> (r: (SandboxState, SandboxAction))
    requires
        fits(state@, event),
    ensures
        (r.0@, r.1@) == sandbox_next(
            *names,
            state@,
            event,
            port,
            proxy_url@,
            home@,
            data_dir@,
        ),
{
    let shown = number_text(port as u64);
    match (state, event) {
        (SandboxState::Program, SandboxEvent::Command(found)) => match found {
            Some(p) => (SandboxState::Busy(p), SandboxAction::LookAround),
            None => {
                let message = not_found(names.program.as_str());
                let hint = cat3(
                    "请在服务器上安装 ",
                    names.title.as_str(),
                    " 并确保其在 PATH 中。",
                );
                fail_with_hint("science_not_found", message.as_str(), hint.as_str())
            },
        },
        (SandboxState::Busy(p), SandboxEvent::Busy(busy)) => {
            if !busy {
                return (SandboxState::Login(p), SandboxAction::PrepareLogin);
            }
            let args = daemon_args("stop", data_dir);
            let program = p.as_str().to_string();
            (
                SandboxState::Leaving(p, 0),
                SandboxAction::StopAndLook { program, args, home: home.to_string() },
            )
        },
        (SandboxState::Leaving(p, n), SandboxEvent::Busy(busy)) => if !busy {
            (SandboxState::Port(p), SandboxAction::LookAtPort)
        } else if n + 1 < GONE_CHECKS {
            (SandboxState::Leaving(p, n + 1), SandboxAction::PauseAndLook)
        } else {
            (SandboxState::Port(p), SandboxAction::PauseAndLookAtPort)
        },
        (SandboxState::Port(p), SandboxEvent::Port(open)) => {
            if !open {
                return (SandboxState::Login(p), SandboxAction::PrepareLogin);
            }
            let message = cat3("端口 ", shown.as_str(), " 已被占用，无法启动 Science 沙箱。");
            fail_with_hint(
                "port_in_use",
                message.as_str(),
                "请先停止占用该端口的进程，或在高级设置里更换沙箱端口。",
            )
        },
        (SandboxState::Login(p), SandboxEvent::Login(fault)) => {
            let warning = match fault {
                Some(e) => Some(
                    cat2("OAuth 虚拟登录失败（沙箱启动后可能无凭证）: ", e.as_str()),
                ),
                None => None,
            };
            (SandboxState::Log(p), SandboxAction::OpenLog { warning })
        },
        (SandboxState::Log(p), SandboxEvent::Log(fault)) => logged(
            p,
            fault,
            port,
            proxy_url,
            home,
            data_dir,
        ),
        (SandboxState::Spawning(p), SandboxEvent::Spawned(outcome)) => match outcome {
            Ok(_) => (SandboxState::Ready(p), SandboxAction::AwaitReady),
            Err(e) => {
                let message = cat2("启动沙箱失败：", e.as_str());
                let hint = cat3("请检查端口 ", shown.as_str(), " 是否被占用。");
                fail_with_hint("sandbox_start_failed", message.as_str(), hint.as_str())
            },
        },
        (SandboxState::Ready(p), SandboxEvent::Ready(outcome)) => ready(
            names,
            p,
            outcome,
            port,
            home,
            data_dir,
        ),
        (other, _) => (other, SandboxAction::FindProgram),
    }
}

/// A sandbox is started by the program that was found, with the arguments for its data
/// directory and its port, and with the environment for its home and its proxy; its link
/// is then reported with its port.
pub proof fn lemma_sandbox_is_started(
    names: Product,
    program: String,
    url: String,
    port: u16,
    proxy_url: Seq<char>,
    home: Seq<char>,
    data_dir: Seq<char>,
)
    ensures
        ({
            let step = |s: SandboxStateView, e: SandboxEvent|
                sandbox_next(names, s, e, port, proxy_url, home, data_dir);
            let found = step(SandboxStateView::Program, SandboxEvent::Command(Some(program)));
            let free = step(found.0, SandboxEvent::Busy(false));
            let login = step(free.0, SandboxEvent::Login(None));
            let log = step(login.0, SandboxEvent::Log(None));
            let spawned = step(log.0, SandboxEvent::Spawned(Ok(())));
            let ready = step(spawned.0, SandboxEvent::Ready(Ok(url)));
            &&& found.1 is LookAround
            &&& free.1 is PrepareLogin
            &&& login.1 == SandboxActionView::OpenLog { warning: None }
            &&& log.1 == (SandboxActionView::Spawn {
                program: program@,
                args: sandbox::serve_arguments(data_dir, port),
                env: sandbox::serve_environment(home, proxy_url),
            })
            &&& spawned.1 is AwaitReady
            &&& ready.0 is Over
            &&& ready.1 matches SandboxActionView::Reply(reply)
            &&& reply.ok && reply.error is None
            &&& json::number_field(reply.data->0, "port"@) == Some(port as u64)
            &&& json::text_field(reply.data->0, "url"@) == Some(url@)
        }),
{
    let m = started_report(port, url@).data->0->Object_0;
    reveal_strlit("message");
    reveal_strlit("port");
    reveal_strlit("url");
    assert("message"@.len() != "port"@.len());
    assert("message"@.len() != "url"@.len());
    assert("port"@.len() != "url"@.len());
    json::lemma_member(m, "port"@, 1);
    json::lemma_member(m, "url"@, 2);
}

/// An earlier sandbox that is in the way is stopped by the program that was found, for the
/// same data directory; a start goes on once it has gone, and looks at the port after it
/// was seen twenty times.
pub proof fn lemma_earlier_sandbox_is_stopped(
    names: Product,
    program: Seq<char>,
    seen: u32,
    port: u16,
    proxy_url: Seq<char>,
    home: Seq<char>,
    data_dir: Seq<char>,
)
    requires
        seen < 20,
    ensures
        ({
            let step = |s: SandboxStateView, e: SandboxEvent|
                sandbox_next(names, s, e, port, proxy_url, home, data_dir);
            let leaving = SandboxStateView::Leaving(program, seen);
            let port_state = SandboxStateView::Port(program);
            &&& step(SandboxStateView::Busy(program), SandboxEvent::Busy(true)) == (
                SandboxStateView::Leaving(program, 0),
                SandboxActionView::StopAndLook {
                    program,
                    args: sandbox::daemon_arguments("stop"@, data_dir),
                    home,
                },
            )
            &&& step(leaving, SandboxEvent::Busy(false)) == (
                port_state,
                SandboxActionView::LookAtPort,
            )
            &&& seen < 19 ==> step(leaving, SandboxEvent::Busy(true)) == (
                SandboxStateView::Leaving(program, (seen + 1) as u32),
                SandboxActionView::PauseAndLook,
            )
            &&& seen == 19 ==> step(leaving, SandboxEvent::Busy(true)) == (
                port_state,
                SandboxActionView::PauseAndLookAtPort,
            )
            &&& step(port_state, SandboxEvent::Port(false)) == (
                SandboxStateView::Login(program),
                SandboxActionView::PrepareLogin,
            )
        }),
{
}

/// What goes wrong is told: that the program is not there, that the port is in use, that
/// the log cannot be written, that the sandbox did not start, and that it did not become
/// ready, in which case it is stopped again. What went wrong with a login is only logged.
pub proof fn lemma_sandbox_start_failures(
    names: Product,
    program: Seq<char>,
    error: String,
    fault: LogFault,
    port: u16,
    proxy_url: Seq<char>,
    home: Seq<char>,
    data_dir: Seq<char>,
)
    ensures
        ({
            let step = |s: SandboxStateView, e: SandboxEvent|
                sandbox_next(names, s, e, port, proxy_url, home, data_dir);
            let absent = step(SandboxStateView::Program, SandboxEvent::Command(None)).1;
            let used = step(SandboxStateView::Port(program), SandboxEvent::Port(true)).1;
            let login = step(
                SandboxStateView::Login(program),
                SandboxEvent::Login(Some(error)),
            );
            let log = step(SandboxStateView::Log(program), SandboxEvent::Log(Some(fault))).1;
            let spawn = step(
                SandboxStateView::Spawning(program),
                SandboxEvent::Spawned(Err(error)),
            ).1;
            let ready = step(SandboxStateView::Ready(program), SandboxEvent::Ready(Err(error))).1;
            &&& absent is Reply && !absent->Reply_0.ok && absent->Reply_0.error->0.code
                == "science_not_found"@
            &&& used is Reply && !used->Reply_0.ok && used->Reply_0.error->0.code == "port_in_use"@
            &&& login.0 == SandboxStateView::Log(program)
            &&& login.1->warning is Some && search::ends(login.1->warning->0, error@)
            &&& log is Reply && !log->Reply_0.ok && log->Reply_0.error->0.code
                == "sandbox_log_error"@
            &&& spawn is Reply && !spawn->Reply_0.ok && spawn->Reply_0.error->0.code
                == "sandbox_start_failed"@
            &&& search::ends(spawn->Reply_0.error->0.message, error@)
            &&& ready matches SandboxActionView::StopAndReply {
                program: stopped,
                args,
                home: there,
                reply,
            }
            &&& stopped == program && there == home
            &&& args == sandbox::daemon_arguments("stop"@, data_dir)
            &&& !reply.ok && reply.error->0.code == "sandbox_start_timeout"@
            &&& search::ends(reply.error->0.message, error@)
        }),
{
    search::lemma_ends_joined("OAuth 虚拟登录失败（沙箱启动后可能无凭证）: "@, error@);
    search::lemma_ends_joined("启动沙箱失败："@, error@);
    search::lemma_ends_joined("沙箱启动后未就绪："@, error@);
}

} // verus!
