//! Starting the sandbox on this machine with one click: what is done in which order, and
//! what the user is told.

use vstd::prelude::*;

use crate::desktop::proxy::{LaunchFault, ProxyAction};
use crate::desktop::shown::{self, redact, tail_file};
use crate::desktop::state::{self, AppState, AppView, SandboxStop};
use crate::json::{self, Json, JsonObject, Tree};
use crate::paths::{self, join_path};
use crate::text::chars::{self, cat2, cat3, cat4, push_text};
use crate::text::encode;
use crate::text::number::{self, number_text};
use crate::text::options;
use crate::text::search;
use crate::text::split;
use crate::text::trim;

verus! {

/// Where the script that starts the sandbox is, below the root of this program's files.
pub const LAUNCH_SCRIPT: &'static str = "scripts/launch-virtual-sandbox.sh";

/// How often a sandbox that was started is asked for its health.
pub const SANDBOX_CHECKS: u32 = 80;

/// How many bytes of its log are shown of a sandbox that failed.
pub const SHOWN_SANDBOX_BYTES: usize = 600;

/// What the sandbox is started with: the proxy, which is running, and its own port.
#[derive(Debug)]
pub struct OneClick {
    pub proxy_port: u16,
    pub secret: String,
    pub proxy_action: ProxyAction,
    pub port: u16,
}

/// What was done about the login of the sandbox.
#[derive(Debug, Clone, Copy, PartialEq, Eq, Structural)]
pub enum LoginAction {
    /// The one that was there is used.
    Reused,
    /// It was mended; the organisation stays.
    Repaired,
    /// A new one was made.
    Created,
}

/// The login of the sandbox.
#[derive(Debug)]
pub struct ForgedLogin {
    pub action: LoginAction,
    pub auth_dir: String,
    pub account_uuid: String,
    pub org_uuid: String,
    pub enc_file: String,
}

/// The name of what was done about the login.
pub open spec fn action_name(a: LoginAction) -> Seq<char> {
    match a {
        LoginAction::Reused => "Reused"@,
        LoginAction::Repaired => "Repaired"@,
        LoginAction::Created => "Created"@,
    }
}

/// What is logged of a login.
pub open spec fn login_note(l: ForgedLogin) -> Seq<char> {
    "[oauth] 虚拟登录已就绪（Rust，零 node；action="@ + action_name(l.action)
        + "）：auth_dir="@ + l.auth_dir@ + (" account="@ + l.account_uuid@ + " org="@ + l.org_uuid@)
        + (" enc="@ + l.enc_file@)
}

/// What is logged of a login.
pub fn note_login(l: &ForgedLogin) -> (r: String)
    ensures
        r@ == login_note(*l),
{
    let name = match l.action {
        LoginAction::Reused => "Reused",
        LoginAction::Repaired => "Repaired",
        LoginAction::Created => "Created",
    };
    let head = cat4(
        "[oauth] 虚拟登录已就绪（Rust，零 node；action=",
        name,
        "）：auth_dir=",
        l.auth_dir.as_str(),
    );
    let middle = cat4(" account=", l.account_uuid.as_str(), " org=", l.org_uuid.as_str());
    let tail = cat2(" enc=", l.enc_file.as_str());
    cat3(head.as_str(), middle.as_str(), tail.as_str())
}

/// What the start waits for.
#[derive(Debug)]
pub enum ClickState {
    /// Whether the sandbox of this program runs.
    Running,
    /// Whether its login is in order.
    Intact,
    /// That a sandbox without a login was stopped.
    StoppingOld,
    /// Where the files of this program are.
    Root,
    /// A login; where the script that starts the sandbox would be is known.
    Login(String),
    /// Whether that script is there.
    Script(String, ForgedLogin),
    /// How the script ended.
    Launching(LoginAction),
    /// What is in the log, after the script failed.
    ScriptLog,
    /// Whether the sandbox is healthy; it was asked this many times.
    Probing(LoginAction, u32),
    /// What is in the log, after the sandbox did not answer.
    SlowLog,
    /// That a sandbox that did not answer was stopped; the end of its log is known.
    StoppingSlow(String),
    /// Whether it is the sandbox of this program that answers.
    Confirm(LoginAction),
    /// That the sandbox was stopped because something else answered.
    StoppingFalse,
    /// The address of the sandbox, and what was done about its login if it was started.
    Url(Option<LoginAction>),
    /// Whether the address could be opened.
    Opening(Option<LoginAction>, String),
    /// Nothing.
    Over,
}

/// The contents of a state.
pub enum ClickView {
    Running,
    Intact,
    StoppingOld,
    Root,
    Login(Seq<char>),
    Script(Seq<char>, ForgedLogin),
    Launching(LoginAction),
    ScriptLog,
    Probing(LoginAction, u32),
    SlowLog,
    StoppingSlow(Seq<char>),
    Confirm(LoginAction),
    StoppingFalse,
    Url(Option<LoginAction>),
    Opening(Option<LoginAction>, Seq<char>),
    Over,
}

impl View for ClickState {
    type V = ClickView;

    open spec fn view(&self) -> ClickView {
        match *self {
            ClickState::Running => ClickView::Running,
            ClickState::Intact => ClickView::Intact,
            ClickState::StoppingOld => ClickView::StoppingOld,
            ClickState::Root => ClickView::Root,
            ClickState::Login(s) => ClickView::Login(s@),
            ClickState::Script(s, l) => ClickView::Script(s@, l),
            ClickState::Launching(a) => ClickView::Launching(a),
            ClickState::ScriptLog => ClickView::ScriptLog,
            ClickState::Probing(a, n) => ClickView::Probing(a, n),
            ClickState::SlowLog => ClickView::SlowLog,
            ClickState::StoppingSlow(t) => ClickView::StoppingSlow(t@),
            ClickState::Confirm(a) => ClickView::Confirm(a),
            ClickState::StoppingFalse => ClickView::StoppingFalse,
            ClickState::Url(a) => ClickView::Url(a),
            ClickState::Opening(a, u) => ClickView::Opening(a, u@),
            ClickState::Over => ClickView::Over,
        }
    }
}

/// What was found.
#[derive(Debug)]
pub enum ClickEvent {
    Running(bool),
    Intact(bool),
    Stopped(SandboxStop),
    Root(Option<String>),
    Login(Result<ForgedLogin, String>),
    Script(bool),
    /// Whether the script succeeded.
    Launched(Result<bool, LaunchFault>),
    Log(Option<Vec<u8>>),
    Probed(bool),
    Url(String),
    Opened(bool),
}

/// What is done next.
#[derive(Debug)]
pub enum ClickAction {
    /// It is looked whether the sandbox of this program runs.
    LookForSandbox,
    /// The login is looked at.
    LookAtLogin,
    /// The sandbox is stopped.
    StopSandbox,
    /// The files of this program are looked for.
    FindRoot,
    /// A login is made, or the one that is there is kept or mended.
    PrepareLogin,
    /// It is looked whether this file is there.
    LookForFile(String),
    /// A note is written to the log of the sandbox; then the script is run.
    Launch { note: String, args: Vec<String> },
    /// The log of the sandbox is read.
    ReadLog,
    /// After a pause of 100 milliseconds the sandbox is asked for its health.
    PauseAndProbe,
    /// The program of the sandbox is asked for its address.
    AskUrl,
    /// An address is opened.
    OpenUrl(String),
    /// It is over.
    Done(Result<Json, String>),
}

/// The contents of an action.
pub enum ClickActionView {
    LookForSandbox,
    LookAtLogin,
    StopSandbox,
    FindRoot,
    PrepareLogin,
    LookForFile(Seq<char>),
    Launch { note: Seq<char>, args: Seq<Seq<char>> },
    ReadLog,
    PauseAndProbe,
    AskUrl,
    OpenUrl(Seq<char>),
    Done(Result<Tree, Seq<char>>),
}

impl View for ClickAction {
    type V = ClickActionView;

    open spec fn view(&self) -> ClickActionView {
        match *self {
            ClickAction::LookForSandbox => ClickActionView::LookForSandbox,
            ClickAction::LookAtLogin => ClickActionView::LookAtLogin,
            ClickAction::StopSandbox => ClickActionView::StopSandbox,
            ClickAction::FindRoot => ClickActionView::FindRoot,
            ClickAction::PrepareLogin => ClickActionView::PrepareLogin,
            ClickAction::LookForFile(s) => ClickActionView::LookForFile(s@),
            ClickAction::Launch { note, args } => ClickActionView::Launch {
                note: note@,
                args: chars::texts(args@),
            },
            ClickAction::ReadLog => ClickActionView::ReadLog,
            ClickAction::PauseAndProbe => ClickActionView::PauseAndProbe,
            ClickAction::AskUrl => ClickActionView::AskUrl,
            ClickAction::OpenUrl(s) => ClickActionView::OpenUrl(s@),
            ClickAction::Done(Ok(j)) => ClickActionView::Done(Ok(j@)),
            ClickAction::Done(Err(e)) => ClickActionView::Done(Err(e@)),
        }
    }
}

/// Whether an event is one that a state waits for.
pub open spec fn fits(state: ClickView, event: ClickEvent) -> bool {
    match state {
        ClickView::Running => event is Running,
        ClickView::Intact => event is Intact,
        ClickView::StoppingOld => event is Stopped,
        ClickView::Root => event is Root,
        ClickView::Login(_) => event is Login,
        ClickView::Script(_, _) => event is Script,
        ClickView::Launching(_) => event is Launched,
        ClickView::ScriptLog => event is Log,
        ClickView::Probing(_, n) => event is Probed && n < SANDBOX_CHECKS,
        ClickView::SlowLog => event is Log,
        ClickView::StoppingSlow(_) => event is Stopped,
        ClickView::Confirm(_) => event is Running,
        ClickView::StoppingFalse => event is Stopped,
        ClickView::Url(_) => event is Url,
        ClickView::Opening(_, _) => event is Opened,
        ClickView::Over => false,
    }
}

/// The end with an error.
pub open spec fn failed(error: Seq<char>, app: AppView) -> (ClickView, ClickActionView, AppView) {
    (ClickView::Over, ClickActionView::Done(Err(error)), app)
}

/// The address of the proxy, as the sandbox is told it.
pub open spec fn proxy_url(c: OneClick) -> Seq<char> {
    "http://127.0.0.1:"@ + number::decimal(c.proxy_port as nat) + "/"@ + c.secret@
}

/// The arguments of the shell that runs the script.
pub open spec fn launch_arguments(script: Seq<char>, c: OneClick) -> Seq<Seq<char>> {
    seq![
        script,
        "--port"@,
        number::decimal(c.port as nat),
        "--proxy-url"@,
        proxy_url(c),
        "--skip-oauth-forge"@,
    ]
}

/// The end of the log, without the secret.
pub open spec fn log_tail(content: Option<Vec<u8>>, c: OneClick) -> Seq<char> {
    shown::redacted(
        match content {
            Some(b) => trim::trim(
                encode::decoded(split::last_pieces(b@, SHOWN_SANDBOX_BYTES as nat)),
            ),
            None => Seq::empty(),
        },
        c.secret@,
    )
}

/// What the user is told once the address was opened, or could not be.
pub open spec fn final_message(
    c: OneClick,
    started: Option<LoginAction>,
    url: Seq<char>,
    opened: bool,
) -> Seq<char> {
    let head = match started {
        Some(LoginAction::Created) => "已启动"@,
        Some(_) => "沙箱已重新启动，沿用原有对话"@,
        None => match c.proxy_action {
            ProxyAction::Reused => "已在运行"@,
            ProxyAction::Restarted => "已用新配置重启代理，Science 沿用不变"@,
        },
    };
    if !opened {
        head + "，服务已就绪，请手动打开："@ + url
    } else if started is Some {
        head + "。"@
    } else {
        head + "，已重新打开 Science。"@
    }
}

/// What is reported at the end.
pub open spec fn final_report(
    c: OneClick,
    started: Option<LoginAction>,
    url: Seq<char>,
    opened: bool,
) -> Tree {
    Tree::Object(
        seq![
            ("url"@, Tree::Text(url)),
            ("msg"@, Tree::Text(final_message(c, started, url, opened))),
            (
                "action"@,
                Tree::Text(
                    if started is Some {
                        "started"@
                    } else {
                        "reopened"@
                    },
                ),
            ),
        ],
    )
}

/// What comes of an event: the next state, the next action, and what is then known of
/// the proxy and the sandbox.
pub open spec fn click_next(c: OneClick, state: ClickView, event: ClickEvent, app: AppView) -> (
    ClickView,
    ClickActionView,
    AppView,
) {
    let shown = number::decimal(c.port as nat);
    match (state, event) {
        (ClickView::Running, ClickEvent::Running(ours)) => if ours {
            (ClickView::Intact, ClickActionView::LookAtLogin, app)
        } else {
            (ClickView::Root, ClickActionView::FindRoot, app)
        },
        (ClickView::Intact, ClickEvent::Intact(intact)) => if intact {
            (ClickView::Url(None), ClickActionView::AskUrl, app)
        } else {
            (ClickView::StoppingOld, ClickActionView::StopSandbox, app)
        },
        (ClickView::StoppingOld, ClickEvent::Stopped(_)) => (
            ClickView::Root,
            ClickActionView::FindRoot,
            state::without_sandbox(app),
        ),
        (ClickView::Root, ClickEvent::Root(root)) => match root {
            Some(dir) => (
                ClickView::Login(paths::join(dir@, LAUNCH_SCRIPT@)),
                ClickActionView::PrepareLogin,
                app,
            ),
            None => failed(
                "找不到 scripts/launch-virtual-sandbox.sh（打包资源或仓库根均未命中）。"@,
                app,
            ),
        },
        (ClickView::Login(script), ClickEvent::Login(made)) => match made {
            Ok(login) => (
                ClickView::Script(script, login),
                ClickActionView::LookForFile(script),
                app,
            ),
            Err(e) => failed("写虚拟登录失败："@ + e@, app),
        },
        (ClickView::Script(script, login), ClickEvent::Script(found)) => if found {
            (
                ClickView::Launching(login.action),
                ClickActionView::Launch {
                    note: login_note(login),
                    args: launch_arguments(script, c),
                },
                app,
            )
        } else {
            failed("找不到 scripts/launch-virtual-sandbox.sh。"@, app)
        },
        (ClickView::Launching(action), ClickEvent::Launched(outcome)) => match outcome {
            Ok(true) => (ClickView::Probing(action, 0), ClickActionView::PauseAndProbe, app),
            Ok(false) => (ClickView::ScriptLog, ClickActionView::ReadLog, app),
            Err(LaunchFault::Log(e)) => failed("建日志失败："@ + e@, app),
            Err(LaunchFault::Copy(e)) => failed(e@, app),
            Err(LaunchFault::Spawn(e)) => failed("起沙箱失败："@ + e@, app),
        },
        (ClickView::ScriptLog, ClickEvent::Log(content)) => failed(
            "起沙箱脚本失败。\n"@ + log_tail(content, c),
            app,
        ),
        (ClickView::Probing(action, n), ClickEvent::Probed(healthy)) => if healthy {
            (ClickView::Confirm(action), ClickActionView::LookForSandbox, app)
        } else if n + 1 < SANDBOX_CHECKS {
            (ClickView::Probing(action, (n + 1) as u32), ClickActionView::PauseAndProbe, app)
        } else {
            (ClickView::SlowLog, ClickActionView::ReadLog, app)
        },
        (ClickView::SlowLog, ClickEvent::Log(content)) => (
            ClickView::StoppingSlow(log_tail(content, c)),
            ClickActionView::StopSandbox,
            app,
        ),
        (ClickView::StoppingSlow(tail), ClickEvent::Stopped(_)) => failed(
            "沙箱起后探活超时（端口 "@ + shown + "）。已尝试停掉刚起的沙箱。\n"@ + tail,
            state::without_sandbox(app),
        ),
        (ClickView::Confirm(action), ClickEvent::Running(ours)) => if ours {
            (ClickView::Url(Some(action)), ClickActionView::AskUrl, app)
        } else {
            (ClickView::StoppingFalse, ClickActionView::StopSandbox, app)
        },
        (ClickView::StoppingFalse, ClickEvent::Stopped(_)) => failed(
            "端口 "@ + shown
                + " 有服务响应，但按 data-dir 确认不是本沙箱 Science（疑似被其它服务占用）。已尝试停掉刚起的沙箱。"@,
            state::without_sandbox(app),
        ),
        (ClickView::Url(started), ClickEvent::Url(url)) => (
            ClickView::Opening(started, url@),
            ClickActionView::OpenUrl(url@),
            AppView { sandbox_port: c.port, sandbox_url: Some(url@), ..app },
        ),
        (ClickView::Opening(started, url), ClickEvent::Opened(opened)) => (
            ClickView::Over,
            ClickActionView::Done(Ok(final_report(c, started, url, opened))),
            app,
        ),
        _ => (state, ClickActionView::ReadLog, app),
    }
}

/// How many more events the start can take.
pub open spec fn events_left(state: ClickView) -> int {
    match state {
        ClickView::Running => 92,
        ClickView::Intact => 91,
        ClickView::StoppingOld => 90,
        ClickView::Root => 89,
        ClickView::Login(_) => 88,
        ClickView::Script(_, _) => 87,
        ClickView::Launching(_) => 86,
        ClickView::ScriptLog => 1,
        ClickView::Probing(_, n) => 85 - n,
        ClickView::SlowLog => 2,
        ClickView::StoppingSlow(_) => 1,
        ClickView::Confirm(_) => 3,
        ClickView::StoppingFalse => 1,
        ClickView::Url(_) => 2,
        ClickView::Opening(_, _) => 1,
        ClickView::Over => 0,
    }
}

/// Each event brings the end nearer, so it comes after at most 92 of them, and it comes
/// with a result. A sandbox that runs with its login in order is opened again, and
/// nothing of it is touched: neither its login nor its processes. The proxy is left as it
/// is throughout. An address is opened only after the sandbox was found to be the one of
/// this program.
pub proof fn lemma_click_progress(c: OneClick, state: ClickView, event: ClickEvent, app: AppView)
    requires
        fits(state, event),
    ensures
        ({
            let (next, action, after) = click_next(c, state, event, app);
            &&& 0 <= events_left(next) < events_left(state)
            &&& next is Over <==> action is Done
            &&& next is Over <==> events_left(next) == 0
            &&& event == ClickEvent::Intact(true) ==> next == ClickView::Url(None) && after == app
            &&& after.proxy == app.proxy && after.secret == app.secret && after.provider
                == app.provider && after.key_fp == app.key_fp && after.proxy_port == app.proxy_port
            &&& next is Url ==> event == ClickEvent::Intact(true) || event == ClickEvent::Running(
                true,
            )
            &&& next is Opening ==> state is Url
            &&& action is PrepareLogin ==> state is Root
        }),
{
}

/// The end with an error.
fn give_up(error: String) -> (r: (ClickState, ClickAction))
    ensures
        r.0@ == ClickView::Over,
        r.1@ == ClickActionView::Done(Err(error@)),
{
    (ClickState::Over, ClickAction::Done(Err(error)))
}

/// The arguments of the shell that runs the script.
fn launch_args(script: &str, c: &OneClick) -> (r: Vec<String>)
    ensures
        chars::texts(r@) == launch_arguments(script@, *c),
{
    let port = number_text(c.port as u64);
    let proxy = number_text(c.proxy_port as u64);
    let url = cat4("http://127.0.0.1:", proxy.as_str(), "/", c.secret.as_str());
    let mut args: Vec<String> = Vec::new();
    push_text(&mut args, script);
    push_text(&mut args, "--port");
    push_text(&mut args, port.as_str());
    push_text(&mut args, "--proxy-url");
    push_text(&mut args, url.as_str());
    push_text(&mut args, "--skip-oauth-forge");
    assert(chars::texts(args@) =~= launch_arguments(script@, *c));
    args
}

/// The end of the log, without the secret.
fn shown_log(content: Option<Vec<u8>>, c: &OneClick) -> (r: String)
    ensures
        r@ == log_tail(content, *c),
{
    let tail = match &content {
        Some(b) => tail_file(Some(b.as_slice()), SHOWN_SANDBOX_BYTES),
        None => tail_file(None, SHOWN_SANDBOX_BYTES),
    };
    redact(tail.as_str(), c.secret.as_str())
}

/// What is reported at the end.
fn report(c: &OneClick, started: Option<LoginAction>, url: &str, opened: bool) -> (r: Json)
    ensures
        r@ == final_report(*c, started, url@, opened),
{
    let head = match started {
        Some(LoginAction::Created) => "已启动",
        Some(_) => "沙箱已重新启动，沿用原有对话",
        None => match c.proxy_action {
            ProxyAction::Reused => "已在运行",
            ProxyAction::Restarted => "已用新配置重启代理，Science 沿用不变",
        },
    };
    let msg = if !opened {
        cat3(head, "，服务已就绪，请手动打开：", url)
    } else if started.is_some() {
        cat2(head, "。")
    } else {
        cat2(head, "，已重新打开 Science。")
    };
    let action = if started.is_some() {
        "started"
    } else {
        "reopened"
    };
    let mut o = JsonObject::new();
    o.put("url", Json::text(url));
    o.put("msg", Json::text(msg.as_str()));
    o.put("action", Json::text(action));
    assert(o@ =~= seq![
        ("url"@, Tree::Text(url@)),
        ("msg"@, Tree::Text(final_message(*c, started, url@, opened))),
        ("action"@, Tree::Text(action@)),
    ]);
    o.done()
}

/// What comes of how the script ended.
fn launched(action: LoginAction, outcome: Result<bool, LaunchFault>) -> (r: (
    ClickState,
    ClickAction,
))
    ensures
        forall|c: OneClick, app: AppView|
            (r.0@, r.1@, app) == #[trigger] click_next(
                c,
                ClickView::Launching(action),
                ClickEvent::Launched(outcome),
                app,
            ),
{
    match outcome {
        Ok(true) => (ClickState::Probing(action, 0), ClickAction::PauseAndProbe),
        Ok(false) => (ClickState::ScriptLog, ClickAction::ReadLog),
        Err(LaunchFault::Log(e)) => give_up(cat2("建日志失败：", e.as_str())),
        Err(LaunchFault::Copy(e)) => give_up(e),
        Err(LaunchFault::Spawn(e)) => give_up(cat2("起沙箱失败：", e.as_str())),
    }
}

/// The first step.
pub fn begin_one_click() -> (r: (ClickState, ClickAction))
    ensures
        r.0@ == ClickView::Running,
        r.1@ == ClickActionView::LookForSandbox,
{
    (ClickState::Running, ClickAction::LookForSandbox)
}

/// What comes of an event.
pub fn one_click_login(c: &OneClick, state: ClickState, event: ClickEvent, app: &mut AppState)
    -> (r: (ClickState, ClickAction))
    requires
        fits(state@, event),
    ensures
        (r.0@, r.1@, final(app)@) == click_next(*c, state@, event, old(app)@),
{
    let shown = number_text(c.port as u64);
    match (state, event) {
        (ClickState::Running, ClickEvent::Running(ours)) => if ours {
            (ClickState::Intact, ClickAction::LookAtLogin)
        } else {
            (ClickState::Root, ClickAction::FindRoot)
        },
        (ClickState::Intact, ClickEvent::Intact(intact)) => if intact {
            (ClickState::Url(None), ClickAction::AskUrl)
        } else {
            (ClickState::StoppingOld, ClickAction::StopSandbox)
        },
        (ClickState::StoppingOld, ClickEvent::Stopped(outcome)) => {
            let _ = app.stop_sandbox_inner(outcome);
            (ClickState::Root, ClickAction::FindRoot)
        },
        (ClickState::Root, ClickEvent::Root(root)) => match root {
            Some(dir) => (
                ClickState::Login(join_path(dir.as_str(), LAUNCH_SCRIPT)),
                ClickAction::PrepareLogin,
            ),
            None => give_up(
                "找不到 scripts/launch-virtual-sandbox.sh（打包资源或仓库根均未命中）。".to_string(),
            ),
        },
        (ClickState::Login(script), ClickEvent::Login(made)) => match made {
            Ok(login) => {
                let path = script.as_str().to_string();
                (ClickState::Script(script, login), ClickAction::LookForFile(path))
            },
            Err(e) => give_up(cat2("写虚拟登录失败：", e.as_str())),
        },
        (ClickState::Script(script, login), ClickEvent::Script(found)) => {
            if !found {
                return give_up("找不到 scripts/launch-virtual-sandbox.sh。".to_string());
            }
            let note = note_login(&login);
            let args = launch_args(script.as_str(), c);
            (ClickState::Launching(login.action), ClickAction::Launch { note, args })
        },
        (ClickState::Launching(action), ClickEvent::Launched(outcome)) => launched(action, outcome),
        (ClickState::ScriptLog, ClickEvent::Log(content)) => {
            let tail = shown_log(content, c);
            give_up(cat2("起沙箱脚本失败。\n", tail.as_str()))
        },
        (ClickState::Probing(action, n), ClickEvent::Probed(healthy)) => if healthy {
            (ClickState::Confirm(action), ClickAction::LookForSandbox)
        } else if n + 1 < SANDBOX_CHECKS {
            (ClickState::Probing(action, n + 1), ClickAction::PauseAndProbe)
        } else {
            (ClickState::SlowLog, ClickAction::ReadLog)
        },
        (ClickState::SlowLog, ClickEvent::Log(content)) => (
            ClickState::StoppingSlow(shown_log(content, c)),
            ClickAction::StopSandbox,
        ),
        (ClickState::StoppingSlow(tail), ClickEvent::Stopped(outcome)) => {
            let _ = app.stop_sandbox_inner(outcome);
            give_up(
                cat4(
                    "沙箱起后探活超时（端口 ",
                    shown.as_str(),
                    "）。已尝试停掉刚起的沙箱。\n",
                    tail.as_str(),
                ),
            )
        },
        (ClickState::Confirm(action), ClickEvent::Running(ours)) => if ours {
            (ClickState::Url(Some(action)), ClickAction::AskUrl)
        } else {
            (ClickState::StoppingFalse, ClickAction::StopSandbox)
        },
        (ClickState::StoppingFalse, ClickEvent::Stopped(outcome)) => {
            let _ = app.stop_sandbox_inner(outcome);
            give_up(
                cat3(
                    "端口 ",
                    shown.as_str(),
                    " 有服务响应，但按 data-dir 确认不是本沙箱 Science（疑似被其它服务占用）。已尝试停掉刚起的沙箱。",
                ),
            )
        },
        (ClickState::Url(started), ClickEvent::Url(url)) => {
            app.note_sandbox(c.port, url.as_str());
            let copy = url.as_str().to_string();
            (ClickState::Opening(started, url), ClickAction::OpenUrl(copy))
        },
        (ClickState::Opening(started, url), ClickEvent::Opened(opened)) => (
            ClickState::Over,
            ClickAction::Done(Ok(report(c, started, url.as_str(), opened))),
        ),
        (other, _) => (other, ClickAction::ReadLog),
    }
}

/// The script that starts the sandbox is run with the port of the sandbox, and with the
/// address of the proxy that runs, which names its port and its secret; a login is not made
/// by it.
pub proof fn lemma_launch_arguments(script: Seq<char>, c: OneClick)
    ensures
        ({
            let args = launch_arguments(script, c);
            let given = options::in_pairs(args.subrange(1, 5));
            &&& args.len() == 6 && args[0] == script && args[5] == "--skip-oauth-forge"@
            &&& options::sets(given, "--port"@, given[0].1)
            &&& number::parse_unsigned(given[0].1, 65535) == Some(c.port as nat)
            &&& options::sets(
                given,
                "--proxy-url"@,
                "http://127.0.0.1:"@ + number::decimal(c.proxy_port as nat) + "/"@ + c.secret@,
            )
        }),
{
    reveal_strlit("--port");
    reveal_strlit("--proxy-url");
    reveal_strlit("--skip-oauth-forge");
    assert("--port"@.len() != "--proxy-url"@.len());
    assert("--port"@.len() != "--skip-oauth-forge"@.len());
    assert("--proxy-url"@.len() != "--skip-oauth-forge"@.len());
    number::lemma_parse_decimal(c.port as nat, 65535);
    let args = launch_arguments(script, c);
    let given = options::in_pairs(args.subrange(1, 5));
    assert(given.len() == 2);
    assert(given[0] == ("--port"@, number::decimal(c.port as nat)));
    assert(given[1] == ("--proxy-url"@, proxy_url(c)));
    options::lemma_sets(given, 0);
    options::lemma_sets(given, 1);
}

/// At the end the user is told the address of the sandbox, and whether it was started or
/// opened again. Where the address could not be opened, it is told in words too.
pub proof fn lemma_final_report(
    c: OneClick,
    started: Option<LoginAction>,
    url: Seq<char>,
    opened: bool,
)
    ensures
        ({
            let report = final_report(c, started, url, opened);
            &&& json::text_field(report, "url"@) == Some(url)
            &&& started is Some ==> json::text_field(report, "action"@) == Some("started"@)
            &&& started is None ==> json::text_field(report, "action"@) == Some("reopened"@)
            &&& !opened ==> search::ends(json::text_field(report, "msg"@)->0, url)
        }),
{
    let m = final_report(c, started, url, opened)->Object_0;
    reveal_strlit("url");
    reveal_strlit("msg");
    reveal_strlit("action");
    assert("url"@[0] != "msg"@[0]);
    assert("url"@.len() != "action"@.len());
    assert("msg"@.len() != "action"@.len());
    json::lemma_member(m, "url"@, 0);
    json::lemma_member(m, "msg"@, 1);
    json::lemma_member(m, "action"@, 2);
    let s = final_message(c, started, url, opened);
    if !opened {
        assert(s.skip(s.len() - url.len()) =~= url);
    }
}

/// The address that the sandbox reports is the one that is opened and noted, with the port
/// of the sandbox, and the one that is reported at the end.
pub proof fn lemma_address_is_noted(
    c: OneClick,
    started: Option<LoginAction>,
    url: String,
    opened: bool,
    app: AppView,
)
    ensures
        ({
            let (next, action, after) = click_next(
                c,
                ClickView::Url(started),
                ClickEvent::Url(url),
                app,
            );
            let (_, done, end) = click_next(c, next, ClickEvent::Opened(opened), after);
            &&& action == ClickActionView::OpenUrl(url@)
            &&& after.sandbox_url == Some(url@) && after.sandbox_port == c.port
            &&& end == after
            &&& done matches ClickActionView::Done(Ok(report)) && json::text_field(report, "url"@)
                == Some(url@)
        }),
{
    lemma_final_report(c, started, url@, opened);
}

/// A sandbox that runs is opened again where its login is in order, and else stopped and
/// started anew; one that does not run is started. It is asked for its health at most
/// eighty times, and then stopped; one that answers but is not the one of this program is
/// stopped too.
pub proof fn lemma_click_order(c: OneClick, action: LoginAction, n: u32, app: AppView)
    requires
        n < SANDBOX_CHECKS,
    ensures
        click_next(c, ClickView::Running, ClickEvent::Running(true), app).1
            == ClickActionView::LookAtLogin,
        click_next(c, ClickView::Running, ClickEvent::Running(false), app).1
            == ClickActionView::FindRoot,
        click_next(c, ClickView::Intact, ClickEvent::Intact(true), app).1 == ClickActionView::AskUrl,
        click_next(c, ClickView::Intact, ClickEvent::Intact(false), app).1
            == ClickActionView::StopSandbox,
        click_next(c, ClickView::Launching(action), ClickEvent::Launched(Ok(true)), app).0
            == ClickView::Probing(action, 0),
        click_next(c, ClickView::Probing(action, n), ClickEvent::Probed(true), app).0
            == ClickView::Confirm(action),
        n + 1 < 80 ==> click_next(
            c,
            ClickView::Probing(action, n),
            ClickEvent::Probed(false),
            app,
        ).0 == ClickView::Probing(action, (n + 1) as u32),
        n + 1 == 80 ==> click_next(
            c,
            ClickView::Probing(action, n),
            ClickEvent::Probed(false),
            app,
        ).0 == ClickView::SlowLog,
        click_next(c, ClickView::Confirm(action), ClickEvent::Running(true), app).0
            == ClickView::Url(Some(action)),
        click_next(c, ClickView::Confirm(action), ClickEvent::Running(false), app).1
            == ClickActionView::StopSandbox,
{
}

/// What is shown of the log is its end, with the secret hidden.
pub proof fn lemma_log_tail(b: Vec<u8>, c: OneClick)
    ensures
        log_tail(Some(b), c) == shown::redacted(shown::file_end(Some(b@), 600), c.secret@),
        log_tail(None, c) == shown::redacted(Seq::empty(), c.secret@),
        c.secret@.len() > 0 && !c.secret@.contains('*') ==> !search::contains(
            log_tail(Some(b), c),
            c.secret@,
        ),
{
    if c.secret@.len() > 0 && !c.secret@.contains('*') {
        shown::lemma_redacted_hides(shown::file_end(Some(b@), 600), c.secret@);
    }
}

/// What is logged of a login names what was done, and each part under its own name.
pub proof fn lemma_login_note(l: ForgedLogin)
    ensures
        search::ends(
            login_note(l),
            " account="@ + l.account_uuid@ + " org="@ + l.org_uuid@ + " enc="@ + l.enc_file@,
        ),
        search::contains(login_note(l), "auth_dir="@ + l.auth_dir@),
        l.action is Reused ==> search::contains(login_note(l), "action="@ + "Reused"@),
        l.action is Repaired ==> search::contains(login_note(l), "action="@ + "Repaired"@),
        l.action is Created ==> search::contains(login_note(l), "action="@ + "Created"@),
{
    reveal_strlit("[oauth] 虚拟登录已就绪（Rust，零 node；action=");
    reveal_strlit("action=");
    reveal_strlit("）：auth_dir=");
    reveal_strlit("auth_dir=");
    let note = login_note(l);
    let name = action_name(l.action);
    let head = "[oauth] 虚拟登录已就绪（Rust，零 node；action="@ + name
        + "）：auth_dir="@ + l.auth_dir@;
    let tail = " account="@ + l.account_uuid@ + " org="@ + l.org_uuid@ + " enc="@ + l.enc_file@;
    assert(note =~= head + tail);
    search::lemma_ends_joined(head, tail);
    let k = "[oauth] 虚拟登录已就绪（Rust，零 node；action="@.len() - 7;
    let done = "action="@ + name;
    assert(note.subrange(k, k + done.len()) =~= done);
    assert(search::occurs_at(note, done, k));
    let m = k + done.len() + 2;
    let dir = "auth_dir="@ + l.auth_dir@;
    assert(note.subrange(m, m + dir.len()) =~= dir);
    assert(search::occurs_at(note, dir, m));
}

/// The user is told what was done: that the sandbox was started, that it was started again
/// for the same work, that it was running, or that its proxy was started again.
pub proof fn lemma_final_message(c: OneClick, url: Seq<char>, opened: bool)
    ensures
        search::begins(final_message(c, Some(LoginAction::Created), url, opened), "已启动"@),
        search::begins(
            final_message(c, Some(LoginAction::Reused), url, opened),
            "沙箱已重新启动"@,
        ),
        c.proxy_action is Reused ==> search::begins(
            final_message(c, None, url, opened),
            "已在运行"@,
        ),
        c.proxy_action is Restarted ==> search::begins(
            final_message(c, None, url, opened),
            "已用新配置重启代理"@,
        ),
        search::contains(final_message(c, None, url, true), "已重新打开"@),
        final_message(c, Some(LoginAction::Created), url, true) == "已启动"@ + "。"@,
{
    reveal_strlit("已启动");
    reveal_strlit("沙箱已重新启动");
    reveal_strlit("沙箱已重新启动，沿用原有对话");
    reveal_strlit("已在运行");
    reveal_strlit("已用新配置重启代理");
    reveal_strlit("已用新配置重启代理，Science 沿用不变");
    reveal_strlit("，已重新打开 Science。");
    reveal_strlit("已重新打开");
    let a = final_message(c, Some(LoginAction::Created), url, opened);
    assert(a.take(3) =~= "已启动"@);
    let b = final_message(c, Some(LoginAction::Reused), url, opened);
    assert(b.take(7) =~= "沙箱已重新启动"@);
    let d = final_message(c, None, url, opened);
    match c.proxy_action {
        ProxyAction::Reused => {
            assert(d.take(4) =~= "已在运行"@);
        },
        ProxyAction::Restarted => {
            assert(d.take(9) =~= "已用新配置重启代理"@);
        },
    }
    let e = final_message(c, None, url, true);
    let k = e.len() - "，已重新打开 Science。"@.len() + 1;
    assert(e.subrange(k, k + 5) =~= "已重新打开"@);
    assert(search::occurs_at(e, "已重新打开"@, k));
}

} // verus!
