//! What the desktop shell knows of the proxy and the sandbox that it started.

use vstd::prelude::*;

use crate::cli::commands::REAL_SCIENCE_PORT;
use crate::config::{Config, ConfigView};
use crate::text::chars::{self, cat2, cat3, same};
use crate::text::number::{self, exit_code_text};

verus! {

/// What is known of the proxy and the sandbox.
#[derive(Debug)]
pub struct AppState {
    /// Whether a proxy of this process is running. Where it is not, the process is ended.
    pub proxy: bool,
    pub proxy_port: u16,
    pub secret: String,
    pub provider: String,
    /// The fingerprint of the key that the proxy has.
    pub key_fp: u64,
    pub sandbox_port: u16,
    pub sandbox_url: Option<String>,
}

/// The contents of the state.
pub struct AppView {
    pub proxy: bool,
    pub proxy_port: u16,
    pub secret: Seq<char>,
    pub provider: Seq<char>,
    pub key_fp: u64,
    pub sandbox_port: u16,
    pub sandbox_url: Option<Seq<char>>,
}

impl View for AppState {
    type V = AppView;

    open spec fn view(&self) -> AppView {
        AppView {
            proxy: self.proxy,
            proxy_port: self.proxy_port,
            secret: self.secret@,
            provider: self.provider@,
            key_fp: self.key_fp,
            sandbox_port: self.sandbox_port,
            sandbox_url: chars::opt_text(self.sandbox_url),
        }
    }
}

/// An empty text.
fn nothing() -> (r: String)
    ensures
        r@ == Seq::<char>::empty(),
{
    let r = String::new();
    assert(r@ =~= Seq::empty());
    r
}

impl Default for AppState {
    fn default() -> (r: AppState)
        ensures
            r@ == (AppView {
                proxy: false,
                proxy_port: 0,
                secret: Seq::empty(),
                provider: Seq::empty(),
                key_fp: 0,
                sandbox_port: 0,
                sandbox_url: None,
            }),
    {
        AppState {
            proxy: false,
            proxy_port: 0,
            secret: nothing(),
            provider: nothing(),
            key_fp: 0,
            sandbox_port: 0,
            sandbox_url: None,
        }
    }
}

/// The state after the proxy was stopped and forgotten.
pub open spec fn without_proxy(s: AppView) -> AppView {
    AppView { proxy: false, secret: Seq::empty(), provider: Seq::empty(), key_fp: 0, ..s }
}

/// The state after the sandbox was stopped.
pub open spec fn without_sandbox(s: AppView) -> AppView {
    AppView { sandbox_url: None, ..s }
}

/// The state at the end of this program: the proxy is stopped, the sandbox is left alone.
pub open spec fn after_quit(s: AppView) -> AppView {
    AppView { proxy: false, secret: Seq::empty(), ..s }
}

/// The state with the sandbox at an address and on a port.
pub open spec fn with_sandbox_at(s: AppView, port: u16, url: Seq<char>) -> AppView {
    AppView { sandbox_port: port, sandbox_url: Some(url), ..s }
}

/// The state after the proxy and the sandbox were given up for the official mode, or could
/// not be.
pub open spec fn after_leaving_mode(s: AppView, stopped: bool) -> AppView {
    if stopped {
        without_proxy(without_sandbox(s))
    } else {
        without_sandbox(s)
    }
}

/// The state after the proxy and the sandbox were given up for new ports, or could not be.
pub open spec fn after_leaving_ports(s: AppView, stopped: bool) -> AppView {
    if stopped {
        AppView { sandbox_port: 0, ..without_proxy(without_sandbox(s)) }
    } else {
        without_sandbox(s)
    }
}

/// Whether a mode is one that there is, and whether the proxy and the sandbox are to be
/// stopped before it is entered.
pub open spec fn mode_stops(mode: Seq<char>) -> Option<bool> {
    if mode == "proxy"@ {
        Some(false)
    } else if mode == "official"@ {
        Some(true)
    } else {
        None
    }
}

/// Whether new ports make the proxy and the sandbox useless that were started with the
/// old ones.
pub open spec fn ports_change(
    old_proxy: u16,
    new_proxy: u16,
    old_sandbox: u16,
    new_sandbox: u16,
) -> bool {
    old_proxy != new_proxy || old_sandbox != new_sandbox
}

/// The configuration with other ports.
pub open spec fn with_ports(cfg: ConfigView, proxy_port: u16, sandbox_port: u16) -> ConfigView {
    ConfigView { proxy_port, sandbox_port, ..cfg }
}

/// What became of stopping the sandbox.
#[derive(Debug)]
pub enum SandboxStop {
    /// It was stopped, or there is none on this system.
    Stopped,
    /// The script ended with this exit code.
    Failed(Option<i32>),
    /// The script could not be run.
    NotRun(String),
    /// There is no script at this path.
    NoScript(String),
    /// The script cannot be found.
    NoRoot,
}

/// Why it is not known that the sandbox was stopped.
pub open spec fn sandbox_fault(outcome: SandboxStop) -> Option<Seq<char>> {
    match outcome {
        SandboxStop::Stopped => None,
        SandboxStop::Failed(code) => Some(
            "停止沙箱脚本非零退出（"@ + number::option_debug(code) + "）。"@,
        ),
        SandboxStop::NotRun(e) => Some("调用停止沙箱脚本失败："@ + e@),
        SandboxStop::NoScript(path) => Some(
            "找不到停止脚本 "@ + path@ + "，无法确认沙箱已停止（沙箱可能仍在运行）。"@,
        ),
        SandboxStop::NoRoot => Some(
            "定位不到资源根，取不到停止脚本，无法确认沙箱已停止（沙箱可能仍在运行）。"@,
        ),
    }
}

impl AppState {
    /// Notes that the proxy is stopped, and forgets what it was started with.
    pub fn stop_proxy_state(&mut self)
        ensures
            final(self)@ == without_proxy(old(self)@),
    {
        self.proxy = false;
        self.provider = nothing();
        self.secret = nothing();
        self.key_fp = 0;
    }

    /// Notes what became of stopping the sandbox. An error says that it may still run.
    pub fn stop_sandbox_inner(&mut self, outcome: SandboxStop) -> (r: Result<(), String>)
        ensures
            final(self)@ == without_sandbox(old(self)@),
            match r {
                Ok(()) => sandbox_fault(outcome) is None,
                Err(e) => sandbox_fault(outcome) == Some(e@),
            },
    {
        self.sandbox_url = None;
        match outcome {
            SandboxStop::Stopped => Ok(()),
            SandboxStop::Failed(code) => {
                let shown = exit_code_text(code);
                Err(cat3("停止沙箱脚本非零退出（", shown.as_str(), "）。"))
            },
            SandboxStop::NotRun(e) => Err(cat2("调用停止沙箱脚本失败：", e.as_str())),
            SandboxStop::NoScript(path) => Err(
                cat3(
                    "找不到停止脚本 ",
                    path.as_str(),
                    "，无法确认沙箱已停止（沙箱可能仍在运行）。",
                ),
            ),
            SandboxStop::NoRoot => Err(
                "定位不到资源根，取不到停止脚本，无法确认沙箱已停止（沙箱可能仍在运行）。".to_string(),
            ),
        }
    }

    /// Notes that this program ends: the proxy is stopped, the sandbox is left alone.
    pub fn quit_app(&mut self)
        ensures
            final(self)@ == after_quit(old(self)@),
    {
        self.proxy = false;
        self.secret = nothing();
    }

    /// Notes where the sandbox is.
    pub fn note_sandbox(&mut self, port: u16, url: &str)
        ensures
            final(self)@ == with_sandbox_at(old(self)@, port, url@),
    {
        self.sandbox_port = port;
        self.sandbox_url = Some(url.to_string());
    }

    /// Stops everything. The proxy is stopped in any case; an error says that the
    /// sandbox may still run.
    pub fn stop_all(&mut self, outcome: SandboxStop) -> (r: Result<(), String>)
        ensures
            final(self)@ == without_proxy(without_sandbox(old(self)@)),
            match r {
                Ok(()) => sandbox_fault(outcome) is None,
                Err(e) => sandbox_fault(outcome) is Some && e@ == "代理已停；但"@ + sandbox_fault(
                    outcome,
                )->Some_0 + "真实实例 8765 未受影响。"@,
            },
    {
        let stopped = self.stop_sandbox_inner(outcome);
        self.stop_proxy_state();
        match stopped {
            Ok(()) => Ok(()),
            Err(e) => Err(
                cat3("代理已停；但", e.as_str(), "真实实例 8765 未受影响。"),
            ),
        }
    }
}

/// Whether a mode is one that there is, and whether the proxy and the sandbox are to be
/// stopped before it is entered.
pub fn set_mode(mode: &str) -> (r: Result<bool, String>)
    ensures
        match r {
            Ok(b) => mode_stops(mode@) == Some(b),
            Err(e) => mode_stops(mode@) is None && e@ == "未知模式："@ + mode@
                + "（只支持 proxy / official）。"@,
        },
{
    proof {
        reveal_strlit("proxy");
        reveal_strlit("official");
        assert("proxy"@.len() != "official"@.len());
    }
    if !same(mode, "proxy") && !same(mode, "official") {
        return Err(cat3("未知模式：", mode, "（只支持 proxy / official）。"));
    }
    Ok(same(mode, "official"))
}

/// Gives up the proxy and the sandbox for the official mode. Where the sandbox may still
/// run, the proxy is left alone and the mode stays as it is.
pub fn leave_proxy_mode(state: &mut AppState, outcome: SandboxStop) -> (r: Result<(), String>)
    ensures
        match r {
            Ok(()) => sandbox_fault(outcome) is None && final(state)@ == after_leaving_mode(
                old(state)@,
                true,
            ),
            Err(e) => sandbox_fault(outcome) is Some && final(state)@ == after_leaving_mode(
                old(state)@,
                false,
            ) && e@ == "停止沙箱失败，未切换到官方模式："@ + sandbox_fault(outcome)->Some_0
                + "（真实实例 8765 未受影响）"@,
        },
{
    match state.stop_sandbox_inner(outcome) {
        Ok(()) => {
            state.stop_proxy_state();
            Ok(())
        },
        Err(e) => Err(
            cat3(
                "停止沙箱失败，未切换到官方模式：",
                e.as_str(),
                "（真实实例 8765 未受影响）",
            ),
        ),
    }
}

/// Whether two ports may be the new ports of the proxy and the sandbox.
pub open spec fn settings_fault(proxy_port: u16, sandbox_port: u16) -> Option<Seq<char>> {
    if proxy_port == REAL_SCIENCE_PORT || sandbox_port == REAL_SCIENCE_PORT {
        Some("端口 8765 是真实 Science 实例保留端口，不能用。"@)
    } else if proxy_port == 0 || sandbox_port == 0 {
        Some("端口不能为 0。"@)
    } else if proxy_port == sandbox_port {
        Some("代理端口与沙箱端口不能相同。"@)
    } else {
        None
    }
}

/// Whether two ports may be the new ports of the proxy and the sandbox.
pub fn check_settings(proxy_port: u16, sandbox_port: u16) -> (r: Result<(), String>)
    ensures
        match r {
            Ok(()) => settings_fault(proxy_port, sandbox_port) is None,
            Err(e) => settings_fault(proxy_port, sandbox_port) == Some(e@),
        },
{
    if proxy_port == REAL_SCIENCE_PORT || sandbox_port == REAL_SCIENCE_PORT {
        return Err("端口 8765 是真实 Science 实例保留端口，不能用。".to_string());
    }
    if proxy_port == 0 || sandbox_port == 0 {
        return Err("端口不能为 0。".to_string());
    }
    if proxy_port == sandbox_port {
        return Err("代理端口与沙箱端口不能相同。".to_string());
    }
    Ok(())
}

/// Whether new ports make the proxy and the sandbox useless that were started with the
/// old ones.
pub fn settings_change_needs_teardown(
    old_proxy: u16,
    new_proxy: u16,
    old_sandbox: u16,
    new_sandbox: u16,
) -> (r: bool)
    ensures
        r == ports_change(old_proxy, new_proxy, old_sandbox, new_sandbox),
{
    old_proxy != new_proxy || old_sandbox != new_sandbox
}

/// Gives up the proxy and the sandbox for new ports. Where the sandbox may still run, the
/// proxy is left alone and the ports stay as they are.
pub fn leave_ports(state: &mut AppState, outcome: SandboxStop) -> (r: Result<(), String>)
    ensures
        match r {
            Ok(()) => sandbox_fault(outcome) is None && final(state)@ == after_leaving_ports(
                old(state)@,
                true,
            ),
            Err(e) => sandbox_fault(outcome) is Some && final(state)@ == after_leaving_ports(
                old(state)@,
                false,
            ) && e@ == "端口未更改：无法停止指向旧端口的沙箱（"@ + sandbox_fault(outcome)->Some_0
                + "），为避免留下失效链路，端口保持不变。（真实实例 8765 未受影响）"@,
        },
{
    match state.stop_sandbox_inner(outcome) {
        Ok(()) => {
            state.stop_proxy_state();
            state.sandbox_port = 0;
            Ok(())
        },
        Err(e) => Err(
            cat3(
                "端口未更改：无法停止指向旧端口的沙箱（",
                e.as_str(),
                "），为避免留下失效链路，端口保持不变。（真实实例 8765 未受影响）",
            ),
        ),
    }
}

/// Stores new ports.
pub fn set_settings(cfg: &mut Config, proxy_port: u16, sandbox_port: u16)
    ensures
        final(cfg)@.proxy_port == proxy_port,
        final(cfg)@.sandbox_port == sandbox_port,
        final(cfg)@ == with_ports(old(cfg)@, proxy_port, sandbox_port),
{
    cfg.proxy_port = proxy_port;
    cfg.sandbox_port = sandbox_port;
}

/// Ports that are accepted differ from each other and from the port of the real
/// instance, and are none of them 0; each is one that a helper accepts too.
pub proof fn lemma_accepted_ports(proxy_port: u16, sandbox_port: u16)
    requires
        settings_fault(proxy_port, sandbox_port) is None,
    ensures
        proxy_port != sandbox_port,
        crate::cli::commands::port_fault(proxy_port) is None,
        crate::cli::commands::port_fault(sandbox_port) is None,
{
}

/// Once the proxy is forgotten, nothing of its secret or its key is left, whatever
/// becomes of the sandbox; what is known of the sandbox's port is kept.
pub proof fn lemma_forgotten_proxy(s: AppView)
    ensures
        !without_proxy(s).proxy,
        without_proxy(s).secret.len() == 0,
        without_proxy(s).key_fp == 0,
        without_proxy(s).sandbox_port == s.sandbox_port,
        without_proxy(s).sandbox_url == s.sandbox_url,
        without_proxy(without_sandbox(s)) == without_sandbox(without_proxy(s)),
{
}

/// The proxy is given up only where the sandbox was stopped: where it may still run, the
/// proxy that it talks to is left as it is, on its port and with its secret.
pub proof fn lemma_proxy_outlives_the_sandbox(s: AppView, stopped: bool)
    ensures
        ({
            let mode = after_leaving_mode(s, stopped);
            let ports = after_leaving_ports(s, stopped);
            &&& mode.proxy == (s.proxy && !stopped) && ports.proxy == (s.proxy && !stopped)
            &&& !stopped ==> mode.secret == s.secret && mode.provider == s.provider && mode.key_fp
                == s.key_fp && mode.proxy_port == s.proxy_port && ports == mode
            &&& stopped ==> mode.secret.len() == 0 && ports.secret.len() == 0
                && ports.sandbox_port == 0 && mode.sandbox_port == s.sandbox_port
            &&& mode.sandbox_url is None && ports.sandbox_url is None
        }),
{
}

/// It is known that the sandbox was stopped exactly where its script succeeded.
pub proof fn lemma_sandbox_fault(outcome: SandboxStop)
    ensures
        sandbox_fault(outcome) is None <==> outcome == SandboxStop::Stopped,
{
}

/// There are two modes; the official one is entered without the proxy and the sandbox.
pub proof fn lemma_modes(mode: Seq<char>)
    ensures
        mode_stops("official"@) == Some(true),
        mode_stops("proxy"@) == Some(false),
        mode_stops(mode) is Some ==> mode == "proxy"@ || mode == "official"@,
{
    reveal_strlit("proxy");
    reveal_strlit("official");
    assert("proxy"@.len() != "official"@.len());
}

/// Ports that stay leave the proxy and the sandbox alone; a change of one of them does not.
pub proof fn lemma_ports_change(a: u16, b: u16, c: u16)
    ensures
        !ports_change(a, a, b, b),
        a != c ==> ports_change(a, c, b, b) && ports_change(b, b, a, c),
{
}

/// New ports are stored, each in its place, and nothing else of the configuration changes.
pub proof fn lemma_stored_ports(cfg: ConfigView, proxy_port: u16, sandbox_port: u16)
    ensures
        ({
            let after = with_ports(cfg, proxy_port, sandbox_port);
            &&& after.proxy_port == proxy_port && after.sandbox_port == sandbox_port
            &&& after.profiles == cfg.profiles && after.active_id == cfg.active_id
            &&& after.secret == cfg.secret && after.mode == cfg.mode && after.schema_version
                == cfg.schema_version && after.pending_notice == cfg.pending_notice
        }),
{
}

/// At the end of this program nothing of the proxy's secret is left, and the sandbox is
/// still known; a sandbox that was noted is known by its port and its address.
pub proof fn lemma_quit_and_note(s: AppView, port: u16, url: Seq<char>)
    ensures
        !after_quit(s).proxy && after_quit(s).secret.len() == 0,
        after_quit(s).sandbox_url == s.sandbox_url && after_quit(s).sandbox_port == s.sandbox_port,
        with_sandbox_at(s, port, url).sandbox_url == Some(url),
        with_sandbox_at(s, port, url).sandbox_port == port,
        with_sandbox_at(s, port, url).proxy == s.proxy && with_sandbox_at(s, port, url).secret
            == s.secret && with_sandbox_at(s, port, url).proxy_port == s.proxy_port,
{
}

/// Ports are refused exactly if one of them is 0 or that of the real instance, or if they
/// are the same.
pub proof fn lemma_refused_ports(proxy_port: u16, sandbox_port: u16)
    ensures
        settings_fault(proxy_port, sandbox_port) is Some <==> proxy_port == 0 || sandbox_port == 0
            || proxy_port == 8765 || sandbox_port == 8765 || proxy_port == sandbox_port,
{
}

} // verus!
