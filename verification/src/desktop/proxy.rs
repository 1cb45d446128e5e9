//! The proxy on this machine: when it is used as it is, when it is started anew, and what
//! is said where that fails.

use vstd::prelude::*;

use crate::config::{self, Config, ConfigView};
use crate::desktop::checks::{
    self, assert_profile_runnable, key_fingerprint, proxy_launch_for,
};
use crate::desktop::shown::{self, orphan_pattern, redact, tail_file};
use crate::desktop::state::{AppState, AppView};
use crate::launch::{self, proxy_arguments, proxy_environment, LaunchView, ProxyLaunch};
use crate::paths::{self, join_path};
use crate::text::chars::{self, cat2, cat4, same};
use crate::text::encode;
use crate::text::number::{self, number_text};
use crate::text::options;
use crate::text::search;
use crate::text::split;
use crate::text::trim;

verus! {

/// Where the script of the proxy is, below the root of this program's files.
pub const PROXY_SCRIPT: &'static str = "proxy/csswitch_proxy.py";

/// How often a proxy that was started is asked for its health.
pub const HEALTH_CHECKS: u32 = 40;

/// How many bytes of its log are shown of a proxy that does not answer.
pub const SHOWN_LOG_BYTES: usize = 500;

/// A directory in which the files of this program may be.
#[derive(Debug)]
pub struct Candidate {
    pub dir: String,
    /// Whether the script of the proxy is there.
    pub found: bool,
}

/// The first of the directories in which the script of the proxy is.
pub open spec fn first_found(v: Seq<Candidate>) -> Option<Seq<char>>
    decreases v.len(),
{
    if v.len() == 0 {
        None
    } else if v[0].found {
        Some(v[0].dir@)
    } else {
        first_found(v.drop_first())
    }
}

/// The root of this program's files: the first of the given directories in which the
/// script of the proxy is.
pub fn asset_root(v: &Vec<Candidate>) -> (r: Option<String>)
    ensures
        chars::opt_text(r) == first_found(v@),
{
    let n = v.len();
    let mut i: usize = 0;
    assert(v@.skip(0) =~= v@);
    while i < n
        invariant
            n == v@.len(),
            i <= n,
            first_found(v@) == first_found(v@.skip(i as int)),
        decreases n - i,
    {
        proof {
            assert(v@.skip(i as int)[0] == v@[i as int]);
            assert(v@.skip(i as int).drop_first() =~= v@.skip(i + 1));
        }
        if v[i].found {
            return Some(v[i].dir.clone());
        }
        i = i + 1;
    }
    None
}

/// How the proxy is to be started.
#[derive(Debug)]
pub struct ProxyPlan {
    pub launch: ProxyLaunch,
    pub key_fp: u64,
    pub port: u16,
    pub script: String,
    pub python: String,
}

/// The contents of a plan.
pub struct PlanView {
    pub launch: LaunchView,
    pub key_fp: u64,
    pub port: u16,
    pub script: Seq<char>,
    pub python: Seq<char>,
}

impl View for ProxyPlan {
    type V = PlanView;

    open spec fn view(&self) -> PlanView {
        PlanView {
            launch: self.launch@,
            key_fp: self.key_fp,
            port: self.port,
            script: self.script@,
            python: self.python@,
        }
    }
}

/// How the proxy is to be started, by the configuration and what is installed. `adapter`
/// and `thinking_policy` are those of the template of the profile in use.
pub open spec fn plan(
    cfg: ConfigView,
    adapter: Seq<char>,
    thinking_policy: Seq<char>,
    root: Option<Seq<char>>,
    python: Option<Seq<char>>,
) -> Result<PlanView, Seq<char>> {
    match config::find(cfg.profiles, cfg.active_id) {
        None => Err("没有生效的配置 Profile。请先「＋ 新建」或「设为当前」。"@),
        Some(p) => match (checks::run_fault(p, adapter), root, python) {
            (Some(fault), _, _) => Err(fault),
            (None, None, _) => Err(
                "找不到代理脚本 proxy/csswitch_proxy.py（打包资源或仓库根均未命中）。开发态可设 CSSWITCH_REPO。"@,
            ),
            (None, Some(_), None) => Err(
                "缺少依赖 python3（起翻译代理需要）。已查 PATH、常见目录与登录 shell 仍未找到；macOS 一般自带 /usr/bin/python3（装 Xcode 命令行工具：xcode-select --install）。"@,
            ),
            (None, Some(dir), Some(program)) => Ok(
                PlanView {
                    launch: checks::launch_for(p, adapter, thinking_policy),
                    key_fp: checks::fnv(vstd::utf8::encode_utf8(p.api_key)),
                    port: cfg.proxy_port,
                    script: paths::join(dir, PROXY_SCRIPT@),
                    python: program,
                },
            ),
        },
    }
}

/// How the proxy is to be started, by the configuration and what is installed.
pub fn proxy_plan(
    cfg: &Config,
    adapter: &str,
    thinking_policy: &str,
    root: Option<&str>,
    python: Option<&str>,
) -> (r: Result<ProxyPlan, String>)
    ensures
        match r {
            Ok(p) => plan(
                cfg@,
                adapter@,
                thinking_policy@,
                chars::opt_str(root),
                chars::opt_str(python),
            ) == Ok::<PlanView, Seq<char>>(p@),
            Err(e) => plan(
                cfg@,
                adapter@,
                thinking_policy@,
                chars::opt_str(root),
                chars::opt_str(python),
            ) == Err::<PlanView, Seq<char>>(e@),
        },
{
    let profile = match cfg.active_profile() {
        Some(p) => p,
        None => {
            return Err(
                "没有生效的配置 Profile。请先「＋ 新建」或「设为当前」。".to_string(),
            );
        },
    };
    if let Err(e) = assert_profile_runnable(profile, adapter) {
        return Err(e);
    }
    let dir = match root {
        Some(d) => d,
        None => {
            return Err(
                "找不到代理脚本 proxy/csswitch_proxy.py（打包资源或仓库根均未命中）。开发态可设 CSSWITCH_REPO。".to_string(),
            );
        },
    };
    let program = match python {
        Some(p) => p,
        None => {
            return Err(
                "缺少依赖 python3（起翻译代理需要）。已查 PATH、常见目录与登录 shell 仍未找到；macOS 一般自带 /usr/bin/python3（装 Xcode 命令行工具：xcode-select --install）。".to_string(),
            );
        },
    };
    Ok(
        ProxyPlan {
            launch: proxy_launch_for(profile, adapter, thinking_policy),
            key_fp: key_fingerprint(profile.api_key.as_str()),
            port: cfg.proxy_port,
            script: join_path(dir, PROXY_SCRIPT),
            python: program.to_string(),
        },
    )
}

/// What was done about the proxy.
#[derive(Debug, Clone, Copy, PartialEq, Eq, Structural)]
pub enum ProxyAction {
    /// The one that was running is used as it is.
    Reused,
    /// It was started anew.
    Restarted,
}

/// What comes of making sure that the proxy runs: its port, its secret, and what was
/// done; or what is wrong.
pub open spec fn outcome_view(r: Result<(u16, String, ProxyAction), String>) -> Result<
    (u16, Seq<char>, ProxyAction),
    Seq<char>,
> {
    match r {
        Ok((port, secret, action)) => Ok((port, secret@, action)),
        Err(e) => Err(e@),
    }
}

/// Why there is no secret.
#[derive(Debug)]
pub enum SecretFault {
    /// None could be made.
    Generate(String),
    /// It could not be stored.
    Store(String),
}

/// Why the proxy was not started.
#[derive(Debug)]
pub enum LaunchFault {
    /// Its log cannot be opened.
    Log(String),
    /// The handle of its log cannot be copied.
    Copy(String),
    /// It cannot be run.
    Spawn(String),
}

/// What making sure that the proxy runs waits for.
#[derive(Debug)]
pub enum EnsureState {
    /// A secret.
    Secret(ProxyPlan),
    /// Whether the proxy that is running is healthy; the secret for a new one is known.
    Health(ProxyPlan, String),
    /// Whether the proxy runs.
    Spawning(ProxyPlan, String),
    /// Whether the proxy with this port and secret is healthy; it was asked this many
    /// times.
    Probing(u16, String, u32),
    /// What is in the log of a proxy that does not answer.
    Failing(u16, String),
    /// Whether the proxy was stopped or replaced meanwhile.
    Generation(u16, String),
    /// Nothing.
    Over,
}

/// The contents of a state.
pub enum EnsureView {
    Secret(PlanView),
    Health(PlanView, Seq<char>),
    Spawning(PlanView, Seq<char>),
    Probing(u16, Seq<char>, u32),
    Failing(u16, Seq<char>),
    Generation(u16, Seq<char>),
    Over,
}

impl View for EnsureState {
    type V = EnsureView;

    open spec fn view(&self) -> EnsureView {
        match *self {
            EnsureState::Secret(p) => EnsureView::Secret(p@),
            EnsureState::Health(p, s) => EnsureView::Health(p@, s@),
            EnsureState::Spawning(p, s) => EnsureView::Spawning(p@, s@),
            EnsureState::Probing(port, s, n) => EnsureView::Probing(port, s@, n),
            EnsureState::Failing(port, s) => EnsureView::Failing(port, s@),
            EnsureState::Generation(port, s) => EnsureView::Generation(port, s@),
            EnsureState::Over => EnsureView::Over,
        }
    }
}

/// What was found.
#[derive(Debug)]
pub enum EnsureEvent {
    Secret(Result<String, SecretFault>),
    Health(bool),
    Spawned(Result<(), LaunchFault>),
    Probed(bool),
    /// What is in the log, if it can be read.
    Log(Option<Vec<u8>>),
    /// Whether nothing was stopped or replaced since the start.
    Generation(bool),
}

/// What is done next.
#[derive(Debug)]
pub enum EnsureAction {
    /// A secret is made and stored.
    MakeSecret,
    /// The proxy on this port is asked for its health.
    AskHealth { port: u16, secret: String },
    /// Processes that match the pattern are ended; then the proxy is started.
    Launch {
        pattern: String,
        program: String,
        args: Vec<String>,
        env: Vec<(String, String)>,
    },
    /// After a pause of 100 milliseconds the proxy is asked for its health.
    PauseAndProbe { port: u16, secret: String },
    /// The log of the proxy is read.
    ReadLog,
    /// It is looked whether the proxy was stopped or replaced meanwhile.
    ReadGeneration,
    /// It is over.
    Done(Result<(u16, String, ProxyAction), String>),
}

/// The contents of an action.
pub enum EnsureActionView {
    MakeSecret,
    AskHealth { port: u16, secret: Seq<char> },
    Launch {
        pattern: Seq<char>,
        program: Seq<char>,
        args: Seq<Seq<char>>,
        env: Seq<(Seq<char>, Seq<char>)>,
    },
    PauseAndProbe { port: u16, secret: Seq<char> },
    ReadLog,
    ReadGeneration,
    Done(Result<(u16, Seq<char>, ProxyAction), Seq<char>>),
}

impl View for EnsureAction {
    type V = EnsureActionView;

    open spec fn view(&self) -> EnsureActionView {
        match *self {
            EnsureAction::MakeSecret => EnsureActionView::MakeSecret,
            EnsureAction::AskHealth { port, secret } => EnsureActionView::AskHealth {
                port,
                secret: secret@,
            },
            EnsureAction::Launch { pattern, program, args, env } => EnsureActionView::Launch {
                pattern: pattern@,
                program: program@,
                args: chars::texts(args@),
                env: chars::pairs(env@),
            },
            EnsureAction::PauseAndProbe { port, secret } => EnsureActionView::PauseAndProbe {
                port,
                secret: secret@,
            },
            EnsureAction::ReadLog => EnsureActionView::ReadLog,
            EnsureAction::ReadGeneration => EnsureActionView::ReadGeneration,
            EnsureAction::Done(r) => EnsureActionView::Done(outcome_view(r)),
        }
    }
}

/// Whether the proxy that is running was started with this port, provider and key.
pub open spec fn fits_plan(app: AppView, p: PlanView) -> bool {
    app.proxy && app.proxy_port == p.port && app.provider == p.launch.adapter && app.key_fp
        == p.key_fp
}

/// The proxy is started anew; one that is running is ended.
pub open spec fn relaunch(p: PlanView, secret: Seq<char>, app: AppView) -> (
    EnsureView,
    EnsureActionView,
    AppView,
) {
    (
        EnsureView::Spawning(p, secret),
        EnsureActionView::Launch {
            pattern: shown::escaped(p.script) + ".*--port "@ + number::decimal(p.port as nat),
            program: p.python,
            args: launch::proxy_args(p.script, p.launch, p.port, secret),
            env: launch::proxy_env(p.launch),
        },
        AppView { proxy: false, ..app },
    )
}

/// What is done once a secret is known.
pub open spec fn with_secret(p: PlanView, secret: Seq<char>, app: AppView) -> (
    EnsureView,
    EnsureActionView,
    AppView,
) {
    if fits_plan(app, p) {
        (
            EnsureView::Health(p, secret),
            EnsureActionView::AskHealth { port: p.port, secret: app.secret },
            app,
        )
    } else {
        relaunch(p, secret, app)
    }
}

/// The end with an error.
pub open spec fn failed(error: Seq<char>, app: AppView) -> (EnsureView, EnsureActionView, AppView) {
    (EnsureView::Over, EnsureActionView::Done(Err(error)), app)
}

/// Whether an event is one that a state waits for.
pub open spec fn fits(state: EnsureView, event: EnsureEvent) -> bool {
    match state {
        EnsureView::Secret(_) => event is Secret,
        EnsureView::Health(_, _) => event is Health,
        EnsureView::Spawning(_, _) => event is Spawned,
        EnsureView::Probing(_, _, n) => event is Probed && n < HEALTH_CHECKS,
        EnsureView::Failing(_, _) => event is Log,
        EnsureView::Generation(_, _) => event is Generation,
        EnsureView::Over => false,
    }
}

/// What is said of a proxy that does not answer; `content` is its log.
pub open spec fn timeout_error(
    port: u16,
    secret: Seq<char>,
    content: Option<Vec<u8>>,
) -> Seq<char> {
    "代理起后探活超时（端口 "@ + number::decimal(port as nat)
        + " 可能被占用，或 key 无效）。\n"@ + shown::redacted(
        match content {
            Some(b) => trim::trim(
                encode::decoded(split::last_pieces(b@, SHOWN_LOG_BYTES as nat)),
            ),
            None => Seq::empty(),
        },
        secret,
    )
}

/// What comes of an event: the next state, the next action, and what is then known of
/// the proxy.
pub open spec fn ensure_next(state: EnsureView, event: EnsureEvent, app: AppView) -> (
    EnsureView,
    EnsureActionView,
    AppView,
) {
    match (state, event) {
        (EnsureView::Secret(p), EnsureEvent::Secret(made)) => match made {
            Ok(secret) => with_secret(p, secret@, app),
            Err(SecretFault::Generate(e)) => failed("无法生成安全 secret："@ + e@, app),
            Err(SecretFault::Store(e)) => failed(e@, app),
        },
        (EnsureView::Health(p, secret), EnsureEvent::Health(healthy)) => if healthy {
            (
                EnsureView::Over,
                EnsureActionView::Done(Ok((p.port, app.secret, ProxyAction::Reused))),
                app,
            )
        } else {
            relaunch(p, secret, app)
        },
        (EnsureView::Spawning(p, secret), EnsureEvent::Spawned(outcome)) => match outcome {
            Ok(_) => (
                EnsureView::Probing(p.port, secret, 0),
                EnsureActionView::PauseAndProbe { port: p.port, secret },
                AppView {
                    proxy: true,
                    proxy_port: p.port,
                    secret,
                    provider: p.launch.adapter,
                    key_fp: p.key_fp,
                    ..app
                },
            ),
            Err(LaunchFault::Log(e)) => failed("建日志失败："@ + e@, app),
            Err(LaunchFault::Copy(e)) => failed(e@, app),
            Err(LaunchFault::Spawn(e)) => failed("启动代理失败："@ + e@, app),
        },
        (EnsureView::Probing(port, secret, n), EnsureEvent::Probed(healthy)) => if healthy {
            (EnsureView::Generation(port, secret), EnsureActionView::ReadGeneration, app)
        } else if n + 1 < HEALTH_CHECKS {
            (
                EnsureView::Probing(port, secret, (n + 1) as u32),
                EnsureActionView::PauseAndProbe { port, secret },
                app,
            )
        } else {
            (
                EnsureView::Failing(port, secret),
                EnsureActionView::ReadLog,
                if app.secret == secret {
                    AppView { proxy: false, ..app }
                } else {
                    app
                },
            )
        },
        (EnsureView::Failing(port, secret), EnsureEvent::Log(content)) => failed(
            timeout_error(port, secret, content),
            app,
        ),
        (EnsureView::Generation(port, secret), EnsureEvent::Generation(same)) => if same {
            (
                EnsureView::Over,
                EnsureActionView::Done(Ok((port, secret, ProxyAction::Restarted))),
                app,
            )
        } else {
            failed(
                "代理启动已被更新的停止/切换操作取代，请重试。"@,
                if app.secret == secret {
                    AppView { proxy: false, provider: Seq::empty(), key_fp: 0, ..app }
                } else {
                    app
                },
            )
        },
        _ => (state, EnsureActionView::ReadLog, app),
    }
}

/// How many more events making sure that the proxy runs can take.
pub open spec fn events_left(state: EnsureView) -> int {
    match state {
        EnsureView::Secret(_) => 44,
        EnsureView::Health(_, _) => 43,
        EnsureView::Spawning(_, _) => 42,
        EnsureView::Probing(_, _, n) => 41 - n,
        EnsureView::Failing(_, _) => 1,
        EnsureView::Generation(_, _) => 1,
        EnsureView::Over => 0,
    }
}

/// Each event brings the end nearer, so it comes after at most 44 of them, and it comes
/// with a result. A proxy is used as it is only where it was found healthy; where
/// anything but health is missing it is ended before a new one is started. A proxy that
/// someone else started since, with another secret, is left alone.
pub proof fn lemma_ensure_progress(state: EnsureView, event: EnsureEvent, app: AppView)
    requires
        fits(state, event),
    ensures
        ({
            let (next, action, after) = ensure_next(state, event, app);
            &&& 0 <= events_left(next) < events_left(state)
            &&& next is Over <==> action is Done
            &&& next is Over <==> events_left(next) == 0
            &&& next is Health ==> fits_plan(app, next->Health_0) && after == app
            &&& action matches EnsureActionView::Done(Ok((_, _, ProxyAction::Reused)))
                ==> event == EnsureEvent::Health(true) && after == app
            &&& action is Launch ==> !after.proxy && next is Spawning
            &&& (state is Probing && app.secret != state->Probing_1) ==> after == app
            &&& (state is Generation && app.secret != state->Generation_1) ==> after == app
        }),
{
}

/// A proxy with another port, provider or key is never used: whatever is known of the
/// proxy that runs, if one of the three differs from the plan, a new one is started.
pub proof fn lemma_changed_plan_restarts(p: PlanView, secret: Seq<char>, app: AppView)
    requires
        app.proxy_port != p.port || app.provider != p.launch.adapter || app.key_fp != p.key_fp,
    ensures
        with_secret(p, secret, app) == relaunch(p, secret, app),
{
}

/// Once the proxy is healthy and nothing replaced it, what is known of it is the plan,
/// so that the next time it is used as it is.
pub proof fn lemma_started_proxy_is_reused(p: PlanView, secret: Seq<char>, app: AppView)
    ensures
        ({
            let (_, _, after) = ensure_next(
                EnsureView::Spawning(p, secret),
                EnsureEvent::Spawned(Ok(())),
                app,
            );
            &&& fits_plan(after, p)
            &&& with_secret(p, secret, after).0 == EnsureView::Health(p, secret)
            &&& after.secret == secret
        }),
{
}

/// The proxy is started anew; one that is running is ended.
fn start_anew(p: ProxyPlan, secret: String, app: &mut AppState) -> (r: (EnsureState, EnsureAction))
    ensures
        (r.0@, r.1@, final(app)@) == relaunch(p@, secret@, old(app)@),
{
    app.proxy = false;
    let pattern = orphan_pattern(p.script.as_str(), p.port);
    let args = proxy_arguments(p.script.as_str(), &p.launch, p.port, secret.as_str());
    let env = proxy_environment(&p.launch);
    let program = p.python.as_str().to_string();
    (EnsureState::Spawning(p, secret), EnsureAction::Launch { pattern, program, args, env })
}

/// What is done once a secret is known.
fn secret_known(p: ProxyPlan, secret: String, app: &mut AppState) -> (r: (
    EnsureState,
    EnsureAction,
))
    ensures
        (r.0@, r.1@, final(app)@) == with_secret(p@, secret@, old(app)@),
{
    if app.proxy && app.proxy_port == p.port && same(
        app.provider.as_str(),
        p.launch.adapter.as_str(),
    ) && app.key_fp == p.key_fp {
        let port = p.port;
        let known = app.secret.as_str().to_string();
        (EnsureState::Health(p, secret), EnsureAction::AskHealth { port, secret: known })
    } else {
        start_anew(p, secret, app)
    }
}

/// The first step, once it is planned how the proxy is started: the stored secret is
/// used, or one is made where none is stored.
pub fn begin_ensure_proxy(p: ProxyPlan, stored_secret: &str, app: &mut AppState) -> (r: (
    EnsureState,
    EnsureAction,
))
    ensures
        (r.0@, r.1@, final(app)@) == if stored_secret@.len() == 0 {
            (EnsureView::Secret(p@), EnsureActionView::MakeSecret, old(app)@)
        } else {
            with_secret(p@, stored_secret@, old(app)@)
        },
{
    if stored_secret.is_empty() {
        (EnsureState::Secret(p), EnsureAction::MakeSecret)
    } else {
        secret_known(p, stored_secret.to_string(), app)
    }
}

/// The end with an error.
fn give_up(error: String) -> (r: (EnsureState, EnsureAction))
    ensures
        r.0@ == EnsureView::Over,
        r.1@ == EnsureActionView::Done(Err(error@)),
{
    (EnsureState::Over, EnsureAction::Done(Err(error)))
}

/// What comes of whether the proxy runs.
fn spawned(p: ProxyPlan, secret: String, outcome: Result<(), LaunchFault>, app: &mut AppState)
    -> (r: (EnsureState, EnsureAction))
    ensures
        (r.0@, r.1@, final(app)@) == ensure_next(
            EnsureView::Spawning(p@, secret@),
            EnsureEvent::Spawned(outcome),
            old(app)@,
        ),
{
    match outcome {
        Ok(_) => {
            app.proxy = true;
            app.proxy_port = p.port;
            app.secret = secret.as_str().to_string();
            app.key_fp = p.key_fp;
            app.provider = p.launch.adapter.as_str().to_string();
            let copy = secret.as_str().to_string();
            (
                EnsureState::Probing(p.port, secret, 0),
                EnsureAction::PauseAndProbe { port: p.port, secret: copy },
            )
        },
        Err(LaunchFault::Log(e)) => give_up(cat2("建日志失败：", e.as_str())),
        Err(LaunchFault::Copy(e)) => give_up(e),
        Err(LaunchFault::Spawn(e)) => give_up(cat2("启动代理失败：", e.as_str())),
    }
}

/// What comes of whether the proxy that was started is healthy.
fn probed(port: u16, secret: String, n: u32, healthy: bool, app: &mut AppState) -> (r: (
    EnsureState,
    EnsureAction,
))
    requires
        n < HEALTH_CHECKS,
    ensures
        (r.0@, r.1@, final(app)@) == ensure_next(
            EnsureView::Probing(port, secret@, n),
            EnsureEvent::Probed(healthy),
            old(app)@,
        ),
{
    if healthy {
        return (EnsureState::Generation(port, secret), EnsureAction::ReadGeneration);
    }
    if n + 1 < HEALTH_CHECKS {
        let copy = secret.as_str().to_string();
        return (
            EnsureState::Probing(port, secret, n + 1),
            EnsureAction::PauseAndProbe { port, secret: copy },
        );
    }
    if same(app.secret.as_str(), secret.as_str()) {
        app.proxy = false;
    }
    (EnsureState::Failing(port, secret), EnsureAction::ReadLog)
}

/// What is said of a proxy that does not answer; `content` is its log.
fn timed_out(port: u16, secret: &str, content: Option<Vec<u8>>) -> (r: String)
    ensures
        r@ == timeout_error(port, secret@, content),
{
    let tail = match &content {
        Some(b) => tail_file(Some(b.as_slice()), SHOWN_LOG_BYTES),
        None => tail_file(None, SHOWN_LOG_BYTES),
    };
    let hidden = redact(tail.as_str(), secret);
    let shown = number_text(port as u64);
    cat4(
        "代理起后探活超时（端口 ",
        shown.as_str(),
        " 可能被占用，或 key 无效）。\n",
        hidden.as_str(),
    )
}

/// What comes of whether the proxy was stopped or replaced meanwhile.
fn checked(port: u16, secret: String, unchanged: bool, app: &mut AppState) -> (r: (
    EnsureState,
    EnsureAction,
))
    ensures
        (r.0@, r.1@, final(app)@) == ensure_next(
            EnsureView::Generation(port, secret@),
            EnsureEvent::Generation(unchanged),
            old(app)@,
        ),
{
    if unchanged {
        return (
            EnsureState::Over,
            EnsureAction::Done(Ok((port, secret, ProxyAction::Restarted))),
        );
    }
    if same(app.secret.as_str(), secret.as_str()) {
        let none = String::new();
        assert(none@ =~= Seq::empty());
        app.proxy = false;
        app.provider = none;
        app.key_fp = 0;
    }
    give_up("代理启动已被更新的停止/切换操作取代，请重试。".to_string())
}

/// What comes of an event.
pub fn ensure_proxy(state: EnsureState, event: EnsureEvent, app: &mut AppState) -> (r: (
    EnsureState,
    EnsureAction,
))
    requires
        fits(state@, event),
    ensures
        (r.0@, r.1@, final(app)@) == ensure_next(state@, event, old(app)@),
{
    match (state, event) {
        (EnsureState::Secret(p), EnsureEvent::Secret(made)) => match made {
            Ok(secret) => secret_known(p, secret, app),
            Err(SecretFault::Generate(e)) => give_up(
                cat2("无法生成安全 secret：", e.as_str()),
            ),
            Err(SecretFault::Store(e)) => give_up(e),
        },
        (EnsureState::Health(p, secret), EnsureEvent::Health(healthy)) => if healthy {
            let known = app.secret.as_str().to_string();
            (EnsureState::Over, EnsureAction::Done(Ok((p.port, known, ProxyAction::Reused))))
        } else {
            start_anew(p, secret, app)
        },
        (EnsureState::Spawning(p, secret), EnsureEvent::Spawned(outcome)) => spawned(
            p,
            secret,
            outcome,
            app,
        ),
        (EnsureState::Probing(port, secret, n), EnsureEvent::Probed(healthy)) => probed(
            port,
            secret,
            n,
            healthy,
            app,
        ),
        (EnsureState::Failing(port, secret), EnsureEvent::Log(content)) => give_up(
            timed_out(port, secret.as_str(), content),
        ),
        (EnsureState::Generation(port, secret), EnsureEvent::Generation(unchanged)) => checked(
            port,
            secret,
            unchanged,
            app,
        ),
        (other, _) => (other, EnsureAction::ReadLog),
    }
}

/// How the proxy is to be started follows from the profile in use: with its key, address
/// and model, on the port of the configuration. It is planned exactly where the profile
/// can be run, and the script and its interpreter are there.
pub proof fn lemma_plan(
    cfg: ConfigView,
    adapter: Seq<char>,
    thinking_policy: Seq<char>,
    root: Option<Seq<char>>,
    python: Option<Seq<char>>,
)
    ensures
        plan(cfg, adapter, thinking_policy, root, python) is Ok <==> {
            &&& config::find(cfg.profiles, cfg.active_id) is Some
            &&& checks::run_fault(config::find(cfg.profiles, cfg.active_id)->0, adapter) is None
            &&& root is Some && python is Some
        },
        plan(cfg, adapter, thinking_policy, root, python) matches Ok(p) ==> {
            let profile = config::find(cfg.profiles, cfg.active_id)->0;
            &&& p.launch.key == profile.api_key
            &&& p.launch.base_url == profile.base_url
            &&& p.launch.model == profile.model
            &&& p.launch.adapter == adapter && p.launch.thinking_policy == thinking_policy
            &&& p.launch.key_env == launch::key_variable(adapter)
            &&& p.port == cfg.proxy_port
            &&& p.key_fp == checks::fnv(vstd::utf8::encode_utf8(profile.api_key))
            &&& p.script == paths::join(root->0, "proxy/csswitch_proxy.py"@)
            &&& p.python == python->0
        },
{
}

/// A proxy that is started anew gets, by its environment and its arguments, what was
/// planned: the key under the variable of its adapter, the address and the model of a
/// source whose address it does not know, the port, and the secret.
pub proof fn lemma_launch_is_as_planned(p: PlanView, secret: Seq<char>, app: AppView)
    requires
        p.launch.key_env == launch::key_variable(p.launch.adapter),
    ensures
        relaunch(p, secret, app).1 matches EnsureActionView::Launch { pattern, program, args, env }
            && {
            let given = options::in_pairs(args.skip(1));
            let adapter = p.launch.adapter;
            &&& program == p.python && args.len() > 0 && args[0] == p.script
            &&& options::sets(given, "--provider"@, adapter)
            &&& options::sets(given, "--auth-token"@, secret)
            &&& number::parse_unsigned(given[1].1, 65535) == Some(p.port as nat)
            &&& options::sets(given, "--port"@, given[1].1)
            &&& adapter == "deepseek"@ ==> options::sets(env, "DEEPSEEK_API_KEY"@, p.launch.key)
            &&& adapter == "qwen"@ ==> options::sets(env, "DASHSCOPE_API_KEY"@, p.launch.key)
            &&& adapter == "openai-custom"@ || adapter == "openai-responses"@ ==> options::sets(
                env,
                "CSSWITCH_OPENAI_KEY"@,
                p.launch.key,
            ) && options::sets(env, "CSSWITCH_OPENAI_BASE_URL"@, p.launch.base_url)
            &&& adapter == "relay"@ ==> options::sets(env, "CSSWITCH_RELAY_KEY"@, p.launch.key)
                && options::sets(env, "CSSWITCH_RELAY_BASE_URL"@, p.launch.base_url)
        },
        !relaunch(p, secret, app).2.proxy,
{
    reveal_strlit("relay");
    reveal_strlit("deepseek");
    reveal_strlit("qwen");
    reveal_strlit("openai-custom");
    reveal_strlit("openai-responses");
    assert("relay"@.len() != "deepseek"@.len() && "relay"@.len() != "qwen"@.len() && "relay"@.len()
        != "openai-custom"@.len() && "relay"@.len() != "openai-responses"@.len());
    launch::lemma_arguments(p.script, p.launch, p.port, secret);
    if p.launch.adapter == "deepseek"@ || p.launch.adapter == "qwen"@ {
        launch::lemma_native_environment(p.launch);
    } else if p.launch.adapter == "openai-custom"@ || p.launch.adapter == "openai-responses"@ {
        launch::lemma_openai_environment(p.launch);
    } else {
        launch::lemma_relay_environment(p.launch);
    }
}

/// Making sure that the proxy runs ends with the port and the secret of the proxy that
/// runs: of the one that was found healthy under the secret that is known of it, or of the
/// one that was started with the new secret, was asked under it and found healthy.
pub proof fn lemma_ensure_names_the_proxy(
    p: PlanView,
    port: u16,
    secret: Seq<char>,
    n: u32,
    app: AppView,
)
    requires
        n < HEALTH_CHECKS,
    ensures
        fits_plan(app, p) ==> with_secret(p, secret, app).1 == (EnsureActionView::AskHealth {
            port: p.port,
            secret: app.secret,
        }),
        ensure_next(EnsureView::Health(p, secret), EnsureEvent::Health(true), app).1
            == EnsureActionView::Done(Ok((p.port, app.secret, ProxyAction::Reused))),
        ensure_next(EnsureView::Health(p, secret), EnsureEvent::Health(false), app).1 is Launch,
        ensure_next(EnsureView::Spawning(p, secret), EnsureEvent::Spawned(Ok(())), app).1 == (
        EnsureActionView::PauseAndProbe { port: p.port, secret }),
        ensure_next(EnsureView::Spawning(p, secret), EnsureEvent::Spawned(Ok(())), app).0
            == EnsureView::Probing(p.port, secret, 0),
        ensure_next(EnsureView::Probing(port, secret, n), EnsureEvent::Probed(true), app).0
            == EnsureView::Generation(port, secret),
        n + 1 < 40 ==> ensure_next(
            EnsureView::Probing(port, secret, n),
            EnsureEvent::Probed(false),
            app,
        ).1 == (EnsureActionView::PauseAndProbe { port, secret }),
        n + 1 == 40 ==> ensure_next(
            EnsureView::Probing(port, secret, n),
            EnsureEvent::Probed(false),
            app,
        ).0 == EnsureView::Failing(port, secret),
        ensure_next(EnsureView::Generation(port, secret), EnsureEvent::Generation(true), app).1
            == EnsureActionView::Done(Ok((port, secret, ProxyAction::Restarted))),
        ensure_next(EnsureView::Generation(port, secret), EnsureEvent::Generation(false), app).1
            is Done,
        ensure_next(
            EnsureView::Generation(port, secret),
            EnsureEvent::Generation(false),
            app,
        ).1->Done_0 is Err,
{
}

/// The files of this program are where the script of the proxy is first found.
pub proof fn lemma_first_found(v: Seq<Candidate>, k: int)
    requires
        0 <= k < v.len(),
        v[k].found,
        forall|i: int| 0 <= i < k ==> !(#[trigger] v[i]).found,
    ensures
        first_found(v) == Some(v[k].dir@),
    decreases k,
{
    if k > 0 {
        let w = v.drop_first();
        assert(!v[0].found);
        assert forall|i: int| 0 <= i < k - 1 implies !(#[trigger] w[i]).found by {
            assert(w[i] == v[i + 1]);
        }
        assert(w[k - 1] == v[k]);
        lemma_first_found(w, k - 1);
    }
}

/// A proxy that did not answer in time is told with its port and the end of its log, in
/// which its secret is hidden.
pub proof fn lemma_timeout_error(port: u16, secret: Seq<char>, b: Vec<u8>)
    ensures
        search::contains(timeout_error(port, secret, None), number::decimal(port as nat)),
        search::ends(
            timeout_error(port, secret, Some(b)),
            shown::redacted(shown::file_end(Some(b@), 500), secret),
        ),
{
    let shown_port = number::decimal(port as nat);
    let message = timeout_error(port, secret, None);
    let k = "代理起后探活超时（端口 "@.len() as int;
    assert(message.subrange(k, k + shown_port.len()) =~= shown_port);
    assert(search::occurs_at(message, shown_port, k));
    search::lemma_ends_joined(
        "代理起后探活超时（端口 "@ + shown_port + " 可能被占用，或 key 无效）。\n"@,
        shown::redacted(shown::file_end(Some(b@), 500), secret),
    );
}

} // verus!
