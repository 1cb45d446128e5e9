//! Starting the proxy on the machine of a helper: what is done in which order, and what
//! is replied.

use vstd::prelude::*;

use crate::cli::commands::{self, validate_managed_port};
use crate::cli::types::{self, CliEnvelope, EnvelopeView};
use crate::json::{self, Json, JsonObject, Tree};
use crate::launch::{self, proxy_arguments, proxy_environment, LaunchView, ProxyLaunch};
use crate::text::chars::{self, cat2, cat3, cat4};
use crate::text::number::{self, exit_code_text, number_text};
use crate::text::options;
use crate::text::search::{self, includes};
use crate::text::split::{self, joined_tail};
use crate::text::trim::{self, blank};

verus! {

/// How often a proxy that was started is looked at.
pub const START_PROBES: u32 = 20;

/// How many lines of its log are shown of a proxy that ended.
pub const SHOWN_LOG_LINES: usize = 20;

/// What the start of a proxy waits for.
#[derive(Debug)]
pub enum StartState {
    /// Whether the port is in use.
    Port,
    /// Whether a healthy proxy uses the port.
    Health,
    /// Whether the port could be freed.
    Freeing,
    /// How the proxy is started, by the configuration.
    Config,
    /// Where `python3` is.
    FirstPython(ProxyLaunch),
    /// Where `python` is.
    SecondPython(ProxyLaunch),
    /// Where the script of the proxy is; the interpreter is known.
    Script(ProxyLaunch, String),
    /// Whether the log can be written; the interpreter and the script are known.
    Log(ProxyLaunch, String, String),
    /// Whether the proxy runs.
    Spawning,
    /// How the proxy of this process identifier fares; it was looked at this many times.
    Probing(u32, u32),
    /// Nothing.
    Over,
}

/// The contents of a state.
pub enum StateView {
    Port,
    Health,
    Freeing,
    Config,
    FirstPython(LaunchView),
    SecondPython(LaunchView),
    Script(LaunchView, Seq<char>),
    Log(LaunchView, Seq<char>, Seq<char>),
    Spawning,
    Probing(u32, u32),
    Over,
}

impl View for StartState {
    type V = StateView;

    open spec fn view(&self) -> StateView {
        match *self {
            StartState::Port => StateView::Port,
            StartState::Health => StateView::Health,
            StartState::Freeing => StateView::Freeing,
            StartState::Config => StateView::Config,
            StartState::FirstPython(l) => StateView::FirstPython(l@),
            StartState::SecondPython(l) => StateView::SecondPython(l@),
            StartState::Script(l, p) => StateView::Script(l@, p@),
            StartState::Log(l, p, s) => StateView::Log(l@, p@, s@),
            StartState::Spawning => StateView::Spawning,
            StartState::Probing(pid, n) => StateView::Probing(pid, n),
            StartState::Over => StateView::Over,
        }
    }
}

/// Why the log of a program cannot be written.
#[derive(Debug)]
pub enum LogFault {
    /// Its directory cannot be made.
    Folder(String),
    /// It cannot be opened.
    Open(String),
    /// Its handle cannot be copied.
    Copy(String),
}

/// How a proxy that was started fares.
#[derive(Debug)]
pub enum Probe {
    /// It answers.
    Healthy,
    /// It ended with this exit code; the log holds this, if it can be read.
    Exited { log: Option<String>, code: Option<i32> },
    /// It cannot be looked at.
    Unknown(String),
    /// It runs, and does not answer yet.
    Running,
}

/// What was found.
#[derive(Debug)]
pub enum StartEvent {
    Port(bool),
    Health(bool),
    Freed(bool),
    Launch(Result<Option<ProxyLaunch>, String>),
    Command(Option<String>),
    Script(Result<String, String>),
    Log(Option<LogFault>),
    Spawned(Result<u32, String>),
    Probed(Probe),
}

/// What is done next.
#[derive(Debug)]
pub enum StartAction {
    /// The port is looked at.
    LookAtPort,
    /// Whoever uses the port is asked for its health.
    AskHealth,
    /// The noted proxy is stopped, then the port is freed.
    FreePort,
    /// The configuration is read.
    ReadConfig,
    /// A command is looked for.
    FindCommand(&'static str),
    /// The script of the proxy is looked for.
    FindScript,
    /// The log is opened.
    OpenLog,
    /// The proxy is started.
    Spawn { program: String, args: Vec<String>, env: Vec<(String, String)> },
    /// The proxy is looked at.
    Probe,
    /// The proxy is looked at after a pause of 100 milliseconds.
    PauseAndProbe,
    /// After the same pause the process is stopped; then this is replied.
    PauseAndEnd { pid: u32, reply: CliEnvelope },
    /// The secret is kept, the process is noted, a message is logged; then this is
    /// replied.
    Started { pid: u32, note: String, reply: CliEnvelope },
    /// This is replied.
    Reply(CliEnvelope),
}

/// The contents of an action.
pub enum ActionView {
    LookAtPort,
    AskHealth,
    FreePort,
    ReadConfig,
    FindCommand(Seq<char>),
    FindScript,
    OpenLog,
    Spawn { program: Seq<char>, args: Seq<Seq<char>>, env: Seq<(Seq<char>, Seq<char>)> },
    Probe,
    PauseAndProbe,
    PauseAndEnd { pid: u32, reply: EnvelopeView },
    Started { pid: u32, note: Seq<char>, reply: EnvelopeView },
    Reply(EnvelopeView),
}

impl View for StartAction {
    type V = ActionView;

    open spec fn view(&self) -> ActionView {
        match *self {
            StartAction::LookAtPort => ActionView::LookAtPort,
            StartAction::AskHealth => ActionView::AskHealth,
            StartAction::FreePort => ActionView::FreePort,
            StartAction::ReadConfig => ActionView::ReadConfig,
            StartAction::FindCommand(name) => ActionView::FindCommand(name@),
            StartAction::FindScript => ActionView::FindScript,
            StartAction::OpenLog => ActionView::OpenLog,
            StartAction::Spawn { program, args, env } => ActionView::Spawn {
                program: program@,
                args: chars::texts(args@),
                env: chars::pairs(env@),
            },
            StartAction::Probe => ActionView::Probe,
            StartAction::PauseAndProbe => ActionView::PauseAndProbe,
            StartAction::PauseAndEnd { pid, reply } => ActionView::PauseAndEnd {
                pid,
                reply: reply@,
            },
            StartAction::Started { pid, note, reply } => ActionView::Started {
                pid,
                note: note@,
                reply: reply@,
            },
            StartAction::Reply(reply) => ActionView::Reply(reply@),
        }
    }
}

/// Whether an event is one that a state waits for.
pub open spec fn fits(state: StateView, event: StartEvent) -> bool {
    match state {
        StateView::Port => event is Port,
        StateView::Health => event is Health,
        StateView::Freeing => event is Freed,
        StateView::Config => event is Launch,
        StateView::FirstPython(_) => event is Command,
        StateView::SecondPython(_) => event is Command,
        StateView::Script(_, _) => event is Script,
        StateView::Log(_, _, _) => event is Log,
        StateView::Spawning => event is Spawned,
        StateView::Probing(_, n) => event is Probed && n < START_PROBES,
        StateView::Over => false,
    }
}

/// The end of a start with a reply.
pub open spec fn end(reply: EnvelopeView) -> (StateView, ActionView) {
    (StateView::Over, ActionView::Reply(reply))
}

/// What is shown of a proxy that ended.
pub open spec fn exit_detail(log: Option<String>, code: Option<i32>) -> Seq<char> {
    match log {
        Some(content) => {
            let tail = split::join(
                split::last_pieces(split::lines(content@), SHOWN_LOG_LINES as nat),
                "\n"@,
            );
            if trim::is_blank(tail) {
                "代理进程退出码 "@ + number::option_debug(code)
            } else {
                tail
            }
        },
        None => "代理进程退出码 "@ + number::option_debug(code),
    }
}

/// The reply where the log cannot be written.
pub open spec fn log_failure(fault: LogFault) -> EnvelopeView {
    types::failure(
        "proxy_log_error"@,
        match fault {
            LogFault::Folder(e) => "创建代理日志目录失败："@ + e@,
            LogFault::Open(e) => "打开 proxy.log 失败："@ + e@,
            LogFault::Copy(e) => "复制 proxy.log 句柄失败："@ + e@,
        },
    )
}

/// The reply where the proxy cannot be run.
pub open spec fn spawn_failure(port: u16, error: Seq<char>) -> EnvelopeView {
    types::failure_with_hint(
        "proxy_start_failed"@,
        "启动代理失败："@ + error,
        if search::contains(error, "AddrInUse"@) || search::contains(error, "address in use"@) {
            "端口 "@ + number::decimal(port as nat) + " 已被占用。请更改端口或停止占用程序。"@
        } else {
            "启动代理失败："@ + error
        },
    )
}

/// The reply where the proxy was started.
pub open spec fn started_report(port: u16, pid: u32) -> EnvelopeView {
    types::success(
        Tree::Object(
            seq![
                ("port"@, Tree::Unsigned(port as u64)),
                ("pid"@, Tree::Unsigned(pid as u64)),
                ("message"@, Tree::Text("代理已启动"@)),
            ],
        ),
    )
}

/// What comes of a look at a proxy that was started.
pub open spec fn after_probe(port: u16, pid: u32, n: u32, probe: Probe) -> (StateView, ActionView) {
    match probe {
        Probe::Healthy => (
            StateView::Over,
            ActionView::Started {
                pid,
                note: "proxy started pid="@ + number::decimal(pid as nat) + " port="@
                    + number::decimal(port as nat),
                reply: started_report(port, pid),
            },
        ),
        Probe::Exited { log, code } => end(
            types::failure_with_hint(
                "proxy_start_failed"@,
                "代理启动后立即退出："@ + exit_detail(log, code),
                "请查看 helper 的 proxy.log，确认 Python、端口和 provider 配置是否正常。"@,
            ),
        ),
        Probe::Unknown(e) => end(
            types::failure("proxy_start_failed"@, "检查代理进程状态失败："@ + e@),
        ),
        Probe::Running => if n + 1 < START_PROBES {
            (StateView::Probing(pid, (n + 1) as u32), ActionView::PauseAndProbe)
        } else {
            (
                StateView::Over,
                ActionView::PauseAndEnd {
                    pid,
                    reply: types::failure_with_hint(
                        "proxy_start_timeout"@,
                        "代理启动后未通过健康检查，端口 "@ + number::decimal(port as nat)
                            + " 未就绪。"@,
                        "请查看 helper 的 proxy.log，确认代理是否能监听端口。"@,
                    ),
                },
            )
        },
    }
}

/// What comes of an event.
pub open spec fn start_next(
    state: StateView,
    event: StartEvent,
    provider: Seq<char>,
    port: u16,
    secret: Seq<char>,
) -> (StateView, ActionView) {
    let shown = number::decimal(port as nat);
    match (state, event) {
        (StateView::Port, StartEvent::Port(open)) => if open {
            (StateView::Health, ActionView::AskHealth)
        } else {
            (StateView::Config, ActionView::ReadConfig)
        },
        (StateView::Health, StartEvent::Health(healthy)) => if healthy {
            end(types::failure("proxy_already_running"@, "代理已在端口 "@ + shown + " 上运行"@))
        } else {
            (StateView::Freeing, ActionView::FreePort)
        },
        (StateView::Freeing, StartEvent::Freed(freed)) => if freed {
            (StateView::Config, ActionView::ReadConfig)
        } else {
            end(
                types::failure_with_hint(
                    "port_in_use"@,
                    "端口 "@ + shown + " 上已有进程，但不是当前可用的 CSSwitch 代理。"@,
                    "请先停止占用该端口的进程，或在高级设置中换一个代理端口。"@,
                ),
            )
        },
        (StateView::Config, StartEvent::Launch(read)) => match read {
            Ok(Some(l)) => (StateView::FirstPython(l@), ActionView::FindCommand("python3"@)),
            Ok(None) => end(
                types::failure_with_hint(
                    "key_not_found"@,
                    "配置中未找到 "@ + provider + " 的 API key"@,
                    "请先在客户端面板填写并保存 API Key。"@,
                ),
            ),
            Err(e) => end(types::failure("config_read_error"@, e@)),
        },
        (StateView::FirstPython(l), StartEvent::Command(found)) => match found {
            Some(p) => (StateView::Script(l, p@), ActionView::FindScript),
            None => (StateView::SecondPython(l), ActionView::FindCommand("python"@)),
        },
        (StateView::SecondPython(l), StartEvent::Command(found)) => match found {
            Some(p) => (StateView::Script(l, p@), ActionView::FindScript),
            None => end(
                types::failure_with_hint(
                    "python_not_found"@,
                    "远程服务器上未找到 Python 3。"@,
                    "请在服务器上安装 Python 3.8+（apt install python3 或 yum install python3）。"@,
                ),
            ),
        },
        (StateView::Script(l, p), StartEvent::Script(found)) => match found {
            Ok(s) => (StateView::Log(l, p, s@), ActionView::OpenLog),
            Err(e) => end(types::failure("proxy_script_not_found"@, e@)),
        },
        (StateView::Log(l, p, s), StartEvent::Log(fault)) => match fault {
            None => (
                StateView::Spawning,
                ActionView::Spawn {
                    program: p,
                    args: launch::proxy_args(s, l, port, secret),
                    env: launch::proxy_env(l),
                },
            ),
            Some(f) => end(log_failure(f)),
        },
        (StateView::Spawning, StartEvent::Spawned(spawned)) => match spawned {
            Ok(pid) => (StateView::Probing(pid, 0), ActionView::Probe),
            Err(e) => end(spawn_failure(port, e@)),
        },
        (StateView::Probing(pid, n), StartEvent::Probed(probe)) => after_probe(
            port,
            pid,
            n,
            probe,
        ),
        _ => (state, ActionView::LookAtPort),
    }
}

/// How many more events a start can take.
pub open spec fn events_left(state: StateView) -> int {
    match state {
        StateView::Port => 29,
        StateView::Health => 28,
        StateView::Freeing => 27,
        StateView::Config => 26,
        StateView::FirstPython(_) => 25,
        StateView::SecondPython(_) => 24,
        StateView::Script(_, _) => 23,
        StateView::Log(_, _, _) => 22,
        StateView::Spawning => 21,
        StateView::Probing(_, n) => 20 - n,
        StateView::Over => 0,
    }
}

/// Each event brings a start nearer to its end, so it ends after at most 29 of them, and
/// it ends with a reply. A proxy is run only where nothing uses the port or the port was
/// freed; one that is healthy is left alone.
pub proof fn lemma_start_progress(
    state: StateView,
    event: StartEvent,
    provider: Seq<char>,
    port: u16,
    secret: Seq<char>,
)
    requires
        fits(state, event),
    ensures
        ({
            let (next, action) = start_next(state, event, provider, port, secret);
            &&& 0 <= events_left(next) < events_left(state)
            &&& next is Over <==> (action is Reply || action is Started || action is PauseAndEnd)
            &&& next is Over <==> events_left(next) == 0
            &&& action is Spawn ==> state is Log
            &&& next is Config ==> event == StartEvent::Port(false) || event == StartEvent::Freed(
                true,
            )
            &&& event == StartEvent::Health(true) ==> next is Over && action is Reply
        }),
{
}

/// The first step of a start: a port that may not be used is refused.
pub fn begin_proxy_start(port: u16) -> (r: (StartState, StartAction))
    ensures
        (r.0@, r.1@) == match commands::port_fault(port) {
            None => (StateView::Port, ActionView::LookAtPort),
            Some(fault) => end(fault),
        },
{
    match validate_managed_port(port) {
        Ok(()) => (StartState::Port, StartAction::LookAtPort),
        Err(reply) => (StartState::Over, StartAction::Reply(reply)),
    }
}

/// What is shown of a proxy that ended.
fn shown_exit(log: Option<String>, code: Option<i32>) -> (r: String)
    ensures
        r@ == exit_detail(log, code),
{
    if let Some(content) = log {
        let tail = joined_tail(content.as_str(), SHOWN_LOG_LINES);
        if !blank(tail.as_str()) {
            return tail;
        }
    }
    let shown = exit_code_text(code);
    cat2("代理进程退出码 ", shown.as_str())
}

/// The end of a start with a failure.
fn fail(code: &str, message: &str) -> (r: (StartState, StartAction))
    ensures
        (r.0@, r.1@) == end(types::failure(code@, message@)),
{
    (StartState::Over, StartAction::Reply(CliEnvelope::err(code, message)))
}

/// The end of a start with a failure and a hint.
fn fail_with_hint(code: &str, message: &str, hint: &str) -> (r: (StartState, StartAction))
    ensures
        (r.0@, r.1@) == end(types::failure_with_hint(code@, message@, hint@)),
{
    (StartState::Over, StartAction::Reply(CliEnvelope::err_with_hint(code, message, hint)))
}

/// What comes of a look at a proxy that was started.
fn probed(port: u16, pid: u32, n: u32, probe: Probe) -> (r: (StartState, StartAction))
    requires
        n < START_PROBES,
    ensures
        (r.0@, r.1@) == after_probe(port, pid, n, probe),
{
    let shown = number_text(port as u64);
    match probe {
        Probe::Healthy => {
            let mut o = JsonObject::new();
            o.put("port", Json::number(port as u64));
            o.put("pid", Json::number(pid as u64));
            o.put("message", Json::text("代理已启动"));
            assert(o@ =~= seq![
                ("port"@, Tree::Unsigned(port as u64)),
                ("pid"@, Tree::Unsigned(pid as u64)),
                ("message"@, Tree::Text("代理已启动"@)),
            ]);
            let process = number_text(pid as u64);
            let note = cat4("proxy started pid=", process.as_str(), " port=", shown.as_str());
            (StartState::Over, StartAction::Started { pid, note, reply: CliEnvelope::ok(o.done()) })
        },
        Probe::Exited { log, code } => {
            let detail = shown_exit(log, code);
            let message = cat2("代理启动后立即退出：", detail.as_str());
            fail_with_hint(
                "proxy_start_failed",
                message.as_str(),
                "请查看 helper 的 proxy.log，确认 Python、端口和 provider 配置是否正常。",
            )
        },
        Probe::Unknown(e) => {
            let message = cat2("检查代理进程状态失败：", e.as_str());
            fail("proxy_start_failed", message.as_str())
        },
        Probe::Running => {
            if n + 1 < START_PROBES {
                return (StartState::Probing(pid, n + 1), StartAction::PauseAndProbe);
            }
            let message = cat3(
                "代理启动后未通过健康检查，端口 ",
                shown.as_str(),
                " 未就绪。",
            );
            let reply = CliEnvelope::err_with_hint(
                "proxy_start_timeout",
                message.as_str(),
                "请查看 helper 的 proxy.log，确认代理是否能监听端口。",
            );
            (StartState::Over, StartAction::PauseAndEnd { pid, reply })
        },
    }
}

/// What comes of whether the log can be written.
fn logged(
    launch: ProxyLaunch,
    python: String,
    script: String,
    fault: Option<LogFault>,
    port: u16,
    secret: &str,
) -> (r: (StartState, StartAction))
    ensures
        (r.0@, r.1@) == match fault {
            None => (
                StateView::Spawning,
                ActionView::Spawn {
                    program: python@,
                    args: launch::proxy_args(script@, launch@, port, secret@),
                    env: launch::proxy_env(launch@),
                },
            ),
            Some(f) => end(log_failure(f)),
        },
{
    match fault {
        None => {
            let args = proxy_arguments(script.as_str(), &launch, port, secret);
            let env = proxy_environment(&launch);
            (StartState::Spawning, StartAction::Spawn { program: python, args, env })
        },
        Some(f) => {
            let message = match f {
                LogFault::Folder(e) => cat2("创建代理日志目录失败：", e.as_str()),
                LogFault::Open(e) => cat2("打开 proxy.log 失败：", e.as_str()),
                LogFault::Copy(e) => cat2("复制 proxy.log 句柄失败：", e.as_str()),
            };
            fail("proxy_log_error", message.as_str())
        },
    }
}

/// What comes of whether the proxy runs.
fn spawned(port: u16, outcome: Result<u32, String>) -> (r: (StartState, StartAction))
    ensures
        (r.0@, r.1@) == match outcome {
            Ok(pid) => (StateView::Probing(pid, 0), ActionView::Probe),
            Err(e) => end(spawn_failure(port, e@)),
        },
{
    match outcome {
        Ok(pid) => (StartState::Probing(pid, 0), StartAction::Probe),
        Err(e) => {
            let shown = number_text(port as u64);
            let message = cat2("启动代理失败：", e.as_str());
            let hint = if includes(e.as_str(), "AddrInUse") || includes(
                e.as_str(),
                "address in use",
            ) {
                cat3("端口 ", shown.as_str(), " 已被占用。请更改端口或停止占用程序。")
            } else {
                cat2("启动代理失败：", e.as_str())
            };
            fail_with_hint("proxy_start_failed", message.as_str(), hint.as_str())
        },
    }
}

/// What comes of an event.
pub fn cmd_proxy_start(
    state: StartState,
    event: StartEvent,
    provider: &str,
    port: u16,
    secret: &str,
) -> (r: (StartState, StartAction))
    requires
        fits(state@, event),
    ensures
        (r.0@, r.1@) == start_next(state@, event, provider@, port, secret@),
{
    let shown = number_text(port as u64);
    match (state, event) {
        (StartState::Port, StartEvent::Port(open)) => if open {
            (StartState::Health, StartAction::AskHealth)
        } else {
            (StartState::Config, StartAction::ReadConfig)
        },
        (StartState::Health, StartEvent::Health(healthy)) => {
            if !healthy {
                return (StartState::Freeing, StartAction::FreePort);
            }
            let message = cat3("代理已在端口 ", shown.as_str(), " 上运行");
            fail("proxy_already_running", message.as_str())
        },
        (StartState::Freeing, StartEvent::Freed(freed)) => {
            if freed {
                return (StartState::Config, StartAction::ReadConfig);
            }
            let message = cat3(
                "端口 ",
                shown.as_str(),
                " 上已有进程，但不是当前可用的 CSSwitch 代理。",
            );
            fail_with_hint(
                "port_in_use",
                message.as_str(),
                "请先停止占用该端口的进程，或在高级设置中换一个代理端口。",
            )
        },
        (StartState::Config, StartEvent::Launch(read)) => match read {
            Ok(Some(l)) => (StartState::FirstPython(l), StartAction::FindCommand("python3")),
            Ok(None) => {
                let message = cat3("配置中未找到 ", provider, " 的 API key");
                fail_with_hint(
                    "key_not_found",
                    message.as_str(),
                    "请先在客户端面板填写并保存 API Key。",
                )
            },
            Err(e) => fail("config_read_error", e.as_str()),
        },
        (StartState::FirstPython(l), StartEvent::Command(found)) => match found {
            Some(p) => (StartState::Script(l, p), StartAction::FindScript),
            None => (StartState::SecondPython(l), StartAction::FindCommand("python")),
        },
        (StartState::SecondPython(l), StartEvent::Command(found)) => match found {
            Some(p) => (StartState::Script(l, p), StartAction::FindScript),
            None => fail_with_hint(
                "python_not_found",
                "远程服务器上未找到 Python 3。",
                "请在服务器上安装 Python 3.8+（apt install python3 或 yum install python3）。",
            ),
        },
        (StartState::Script(l, p), StartEvent::Script(found)) => match found {
            Ok(s) => (StartState::Log(l, p, s), StartAction::OpenLog),
            Err(e) => fail("proxy_script_not_found", e.as_str()),
        },
        (StartState::Log(l, p, s), StartEvent::Log(fault)) => logged(l, p, s, fault, port, secret),
        (StartState::Spawning, StartEvent::Spawned(outcome)) => spawned(port, outcome),
        (StartState::Probing(pid, n), StartEvent::Probed(probe)) => probed(port, pid, n, probe),
        (other, _) => (other, StartAction::LookAtPort),
    }
}

/// The proxy is run by the interpreter that was found, with the script that was found, on
/// the port and with the secret that were asked for; and its environment holds the key, and
/// the address of a source whose address it does not know, as they are configured.
pub proof fn lemma_spawn_is_as_configured(
    l: LaunchView,
    python: Seq<char>,
    script: Seq<char>,
    provider: Seq<char>,
    port: u16,
    secret: Seq<char>,
)
    requires
        l.key_env == launch::key_variable(l.adapter),
    ensures
        start_next(
            StateView::Log(l, python, script),
            StartEvent::Log(None),
            provider,
            port,
            secret,
        ).1 matches ActionView::Spawn { program, args, env } && {
            let given = options::in_pairs(args.skip(1));
            &&& program == python && args.len() > 0 && args[0] == script
            &&& options::sets(given, "--provider"@, l.adapter)
            &&& options::sets(given, "--auth-token"@, secret)
            &&& options::sets(given, "--port"@, given[1].1)
            &&& number::parse_unsigned(given[1].1, 65535) == Some(port as nat)
            &&& l.adapter == "deepseek"@ ==> options::sets(env, "DEEPSEEK_API_KEY"@, l.key)
            &&& l.adapter == "qwen"@ ==> options::sets(env, "DASHSCOPE_API_KEY"@, l.key)
            &&& l.adapter == "openai-custom"@ || l.adapter == "openai-responses"@ ==> options::sets(
                env,
                "CSSWITCH_OPENAI_KEY"@,
                l.key,
            ) && options::sets(env, "CSSWITCH_OPENAI_BASE_URL"@, l.base_url)
            &&& l.adapter == "relay"@ ==> options::sets(env, "CSSWITCH_RELAY_KEY"@, l.key)
                && options::sets(env, "CSSWITCH_RELAY_BASE_URL"@, l.base_url)
        },
{
    reveal_strlit("relay");
    reveal_strlit("deepseek");
    reveal_strlit("qwen");
    reveal_strlit("openai-custom");
    reveal_strlit("openai-responses");
    assert("relay"@.len() != "deepseek"@.len() && "relay"@.len() != "qwen"@.len() && "relay"@.len()
        != "openai-custom"@.len() && "relay"@.len() != "openai-responses"@.len());
    launch::lemma_arguments(script, l, port, secret);
    if l.adapter == "deepseek"@ || l.adapter == "qwen"@ {
        launch::lemma_native_environment(l);
    } else if l.adapter == "openai-custom"@ || l.adapter == "openai-responses"@ {
        launch::lemma_openai_environment(l);
    } else {
        launch::lemma_relay_environment(l);
    }
}

/// What is replied where the proxy was started names its port and its process, and that
/// process is the one that is noted.
pub proof fn lemma_started(port: u16, pid: u32, n: u32)
    ensures
        after_probe(port, pid, n, Probe::Healthy).1 matches ActionView::Started {
            pid: noted,
            note,
            reply,
        } && noted == pid && reply.ok && reply.data is Some && json::number_field(
            reply.data->0,
            "port"@,
        ) == Some(port as u64) && json::number_field(reply.data->0, "pid"@) == Some(pid as u64),
{
    let m = started_report(port, pid).data->0->Object_0;
    reveal_strlit("port");
    reveal_strlit("pid");
    reveal_strlit("message");
    assert("port"@.len() != "pid"@.len());
    assert("port"@.len() != "message"@.len());
    assert("pid"@.len() != "message"@.len());
    json::lemma_member(m, "port"@, 0);
    json::lemma_member(m, "pid"@, 1);
    json::lemma_member(m, "message"@, 2);
}

/// What stands in the way of a start is told by the code of the reply.
pub proof fn lemma_start_refusals(
    l: LaunchView,
    python: Seq<char>,
    provider: Seq<char>,
    port: u16,
    secret: Seq<char>,
)
    ensures
        ({
            let reply = |s: StateView, e: StartEvent|
                start_next(s, e, provider, port, secret).1->Reply_0.error->0.code;
            &&& reply(StateView::Health, StartEvent::Health(true)) == "proxy_already_running"@
            &&& reply(StateView::Freeing, StartEvent::Freed(false)) == "port_in_use"@
            &&& reply(StateView::Config, StartEvent::Launch(Ok(None))) == "key_not_found"@
            &&& reply(StateView::SecondPython(l), StartEvent::Command(None))
                == "python_not_found"@
        }),
        start_next(StateView::Port, StartEvent::Port(true), provider, port, secret).1
            == ActionView::AskHealth,
        start_next(StateView::Port, StartEvent::Port(false), provider, port, secret).1
            == ActionView::ReadConfig,
        start_next(StateView::Health, StartEvent::Health(false), provider, port, secret).1
            == ActionView::FreePort,
        start_next(StateView::Freeing, StartEvent::Freed(true), provider, port, secret).1
            == ActionView::ReadConfig,
        start_next(
            StateView::FirstPython(l),
            StartEvent::Command(None),
            provider,
            port,
            secret,
        ).1 == ActionView::FindCommand("python"@),
{
}

/// What the configuration says is what the proxy is started with: it is kept until then.
pub proof fn lemma_configured_launch_is_kept(
    l: ProxyLaunch,
    python: String,
    script: String,
    provider: Seq<char>,
    port: u16,
    secret: Seq<char>,
)
    ensures
        ({
            let next = |s: StateView, e: StartEvent| start_next(s, e, provider, port, secret).0;
            let a = next(StateView::Config, StartEvent::Launch(Ok(Some(l))));
            let b = next(a, StartEvent::Command(Some(python)));
            let c = next(b, StartEvent::Script(Ok(script)));
            c == StateView::Log(l@, python@, script@)
        }),
{
}

/// A proxy that runs and does not answer is looked at twenty times, and then ended.
pub proof fn lemma_slow_start(port: u16, pid: u32, n: u32)
    requires
        n < START_PROBES,
    ensures
        n + 1 < 20 ==> after_probe(port, pid, n, Probe::Running) == (
            StateView::Probing(pid, (n + 1) as u32),
            ActionView::PauseAndProbe,
        ),
        n + 1 == 20 ==> (after_probe(port, pid, n, Probe::Running).1 matches
            ActionView::PauseAndEnd { pid: ended, reply } && ended == pid && !reply.ok
            && reply.error->0.code == "proxy_start_timeout"@),
{
}

/// What a proxy that ended left in its log is told, its last twenty lines; where it left
/// nothing, its exit code is.
pub proof fn lemma_exit_detail(content: String, code: Option<i32>)
    ensures
        ({
            let tail = split::join(split::last_pieces(split::lines(content@), 20), "\n"@);
            &&& !trim::is_blank(tail) ==> exit_detail(Some(content), code) == tail
            &&& trim::is_blank(tail) ==> search::ends(
                exit_detail(Some(content), code),
                number::option_debug(code),
            )
        }),
        search::ends(exit_detail(None, code), number::option_debug(code)),
{
    search::lemma_ends_joined("代理进程退出码 "@, number::option_debug(code));
}

/// What goes wrong before a proxy runs is told behind what was done; a port that is in use
/// is named.
pub proof fn lemma_start_failures(fault: LogFault, port: u16, error: Seq<char>)
    ensures
        !log_failure(fault).ok && log_failure(fault).error->0.code == "proxy_log_error"@,
        fault matches LogFault::Folder(e) ==> search::ends(log_failure(fault).error->0.message, e@),
        fault matches LogFault::Open(e) ==> search::ends(log_failure(fault).error->0.message, e@),
        fault matches LogFault::Copy(e) ==> search::ends(log_failure(fault).error->0.message, e@),
        !spawn_failure(port, error).ok,
        spawn_failure(port, error).error->0.code == "proxy_start_failed"@,
        search::ends(spawn_failure(port, error).error->0.message, error),
        search::contains(error, "AddrInUse"@) || search::contains(error, "address in use"@) ==>
            search::contains(
            spawn_failure(port, error).error->0.suggestion->0,
            number::decimal(port as nat),
        ),
{
    match fault {
        LogFault::Folder(e) => {
            search::lemma_ends_joined("创建代理日志目录失败："@, e@);
        },
        LogFault::Open(e) => {
            search::lemma_ends_joined("打开 proxy.log 失败："@, e@);
        },
        LogFault::Copy(e) => {
            search::lemma_ends_joined("复制 proxy.log 句柄失败："@, e@);
        },
    }
    search::lemma_ends_joined("启动代理失败："@, error);
    let shown = number::decimal(port as nat);
    let hint = "端口 "@ + shown + " 已被占用。请更改端口或停止占用程序。"@;
    let k = "端口 "@.len() as int;
    assert(hint.subrange(k, k + shown.len()) =~= shown);
    assert(search::occurs_at(hint, shown, k));
}

} // verus!
