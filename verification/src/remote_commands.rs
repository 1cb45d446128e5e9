//! What the desktop asks of a helper, and what it makes of the answers.

use vstd::prelude::*;

use crate::config::{self, Config, ConfigView};
use crate::json::{self, Json, JsonObject, Tree};
use crate::remote::credentials::{self, credential_kind_from_parts, CredentialKind, KindView};
use crate::remote::types::{
    self, required_capability_names, AuthView, ErrorView, HealthView, HostView, RemoteAuthMethod,
    RemoteError, RemoteHealth, RemoteHostProfile,
};
use crate::text::chars::{self, cat2, cat3, cat4, holds_text, push_text, same};
use crate::text::number::{self, number_text};
use crate::text::search::{self, starts};
use crate::text::split::{self, joined};
use crate::text::table::Table;
use crate::text::trim::{self, blank};

verus! {

/// How long the result of a health check is used again, in seconds.
pub const HEALTH_CACHE_TTL_SECS: u64 = 5;

/// `url` is an HTTP address.
pub open spec fn is_http(url: Seq<char>) -> bool {
    search::begins(url, "http://"@) || search::begins(url, "https://"@)
}

/// Whether `url` is an HTTP address.
pub fn http_url(url: &str) -> (r: bool)
    ensures
        r == is_http(url@),
{
    starts(url, "http://") || starts(url, "https://")
}

/// `required` capabilities are all among those of a helper.
pub open spec fn has_all(required: Seq<Seq<char>>, capabilities: Seq<Seq<char>>) -> bool {
    forall|i: int| 0 <= i < required.len() ==> capabilities.contains(#[trigger] required[i])
}

/// The capabilities that a status names.
pub open spec fn named_capabilities(status: Tree) -> Seq<Seq<char>> {
    match json::list_field(status, "capabilities"@) {
        Some(v) => json::texts_in(v),
        None => Seq::empty(),
    }
}

/// What is known of a target whose helper reported a status.
pub open spec fn status_health(status: Tree, version: Seq<char>, now: i64) -> HealthView {
    HealthView {
        reachable: true,
        helper_installed: true,
        helper_version: json::text_field(status, "version"@),
        desktop_version: version,
        compatible: has_all(types::required_capabilities(), named_capabilities(status)),
        platform: json::text_field(status, "platform"@),
        arch: json::text_field(status, "arch"@),
        capabilities: named_capabilities(status),
        proxy_running: json::bool_field(status, "proxy_running"@) == Some(true),
        sandbox_running: json::bool_field(status, "sandbox_running"@) == Some(true),
        last_error: None,
        last_check: now,
    }
}

/// What is known of a target without a helper that answers.
pub open spec fn failed_health(
    reachable: bool,
    error: Seq<char>,
    version: Seq<char>,
    now: i64,
) -> HealthView {
    HealthView {
        reachable,
        helper_installed: false,
        helper_version: None,
        desktop_version: version,
        compatible: false,
        platform: None,
        arch: None,
        capabilities: Seq::empty(),
        proxy_running: false,
        sandbox_running: false,
        last_error: Some(error),
        last_check: now,
    }
}

/// What is known of a target after its helper was asked for its status.
pub open spec fn result_health(
    result: Result<Tree, ErrorView>,
    version: Seq<char>,
    now: i64,
) -> HealthView {
    match result {
        Ok(status) => status_health(status, version, now),
        Err(e) => if e.code == "helper_not_found"@ {
            failed_health(true, "Helper 不存在或无法执行："@ + e.message, version, now)
        } else {
            failed_health(
                false,
                "无法通过 SSH 连接到服务器。请检查地址、端口和认证配置："@ + e.message,
                version,
                now,
            )
        },
    }
}

/// A target whose helper is missing can be reached; one that cannot be logged in to
/// cannot. Neither is compatible.
pub proof fn lemma_failed_health(e: ErrorView, version: Seq<char>, now: i64)
    ensures
        result_health(Err(e), version, now).reachable == (e.code == "helper_not_found"@),
        !result_health(Err(e), version, now).helper_installed,
        !result_health(Err(e), version, now).compatible,
        result_health(Err(e), version, now).last_check == now,
{
}

/// What is known of a target whose helper reported a status.
pub fn parse_health_from_status(status: &Json, desktop_version: &str, now: i64) -> (r: RemoteHealth)
    ensures
        r@ == status_health(status@, desktop_version@, now),
{
    let capabilities = status.get_texts("capabilities");
    let required = required_capability_names();
    let ghost all = types::required_capabilities();
    let ghost given = named_capabilities(status@);
    let mut compatible = true;
    let mut i: usize = 0;
    while i < required.len()
        invariant
            i <= required@.len(),
            all == chars::texts(required@),
            given == chars::texts(capabilities@),
            compatible == (forall|j: int| 0 <= j < i ==> given.contains(#[trigger] all[j])),
        decreases required@.len() - i,
    {
        let held = holds_text(&capabilities, required[i].as_str());
        assert(held == given.contains(all[i as int]));
        compatible = compatible && held;
        i = i + 1;
    }
    RemoteHealth {
        reachable: true,
        helper_installed: true,
        helper_version: status.get_text("version"),
        desktop_version: desktop_version.to_string(),
        compatible,
        platform: status.get_text("platform"),
        arch: status.get_text("arch"),
        capabilities,
        proxy_running: match status.get_bool("proxy_running") {
            Some(b) => b,
            None => false,
        },
        sandbox_running: match status.get_bool("sandbox_running") {
            Some(b) => b,
            None => false,
        },
        last_error: None,
        last_check: now,
    }
}

/// What is known of a target without a helper that answers.
fn health_of_failure(reachable: bool, error: String, desktop_version: &str, now: i64) -> (r:
    RemoteHealth)
    ensures
        r@ == failed_health(reachable, error@, desktop_version@, now),
{
    let r = RemoteHealth {
        reachable,
        helper_installed: false,
        helper_version: None,
        desktop_version: desktop_version.to_string(),
        compatible: false,
        platform: None,
        arch: None,
        capabilities: Vec::new(),
        proxy_running: false,
        sandbox_running: false,
        last_error: Some(error),
        last_check: now,
    };
    assert(r@.capabilities =~= Seq::empty());
    r
}

/// What is known of a target after its helper was asked for its status.
pub fn health_from_status_result(
    status_result: Result<Json, RemoteError>,
    desktop_version: &str,
    now: i64,
) -> (r: RemoteHealth)
    ensures
        r@ == result_health(
            match status_result {
                Ok(status) => Ok(status@),
                Err(e) => Err(e@),
            },
            desktop_version@,
            now,
        ),
{
    match status_result {
        Ok(status) => parse_health_from_status(&status, desktop_version, now),
        Err(e) => {
            if same(e.code.as_str(), "helper_not_found") {
                let error = cat2("Helper 不存在或无法执行：", e.message.as_str());
                health_of_failure(true, error, desktop_version, now)
            } else {
                let error = cat2(
                    "无法通过 SSH 连接到服务器。请检查地址、端口和认证配置：",
                    e.message.as_str(),
                );
                health_of_failure(false, error, desktop_version, now)
            }
        },
    }
}

/// The result of a health check, and when it was made, in milliseconds of a clock
/// that never goes back.
#[derive(Debug)]
pub struct CachedHealth {
    pub health: RemoteHealth,
    pub at_ms: u64,
}

/// Whether a result of the time `at` is still used at the time `now`: for less than
/// five whole seconds.
pub open spec fn is_fresh(at: u64, now: u64) -> bool {
    (if now >= at {
        (now - at) as int
    } else {
        0int
    }) / 1000 < HEALTH_CACHE_TTL_SECS
}

/// The result of the last health check of a profile, if it is still used.
pub fn cached_health(cache: &Table<CachedHealth>, id: &str, now_ms: u64) -> (r: Option<
    RemoteHealth,
>)
    ensures
        match r {
            Some(h) => cache@.contains_key(id@) && is_fresh(cache@[id@].at_ms, now_ms) && h@
                == cache@[id@].health@,
            None => !cache@.contains_key(id@) || !is_fresh(cache@[id@].at_ms, now_ms),
        },
{
    match cache.get(id) {
        Some(entry) => {
            let age: u64 = if now_ms >= entry.at_ms {
                now_ms - entry.at_ms
            } else {
                0
            };
            if age / 1000 < HEALTH_CACHE_TTL_SECS {
                Some(entry.health.clone())
            } else {
                None
            }
        },
        None => None,
    }
}

/// Notes the result of a health check of a profile.
pub fn cache_health(cache: &mut Table<CachedHealth>, id: &str, health: &RemoteHealth, now_ms: u64)
    requires
        old(cache).wf(),
    ensures
        final(cache).wf(),
        final(cache)@.remove(id@) == old(cache)@.remove(id@),
        final(cache)@.contains_key(id@),
        final(cache)@[id@].health@ == health@,
        final(cache)@[id@].at_ms == now_ms,
{
    cache.insert(id, CachedHealth { health: health.clone(), at_ms: now_ms });
    assert(cache@.remove(id@) =~= old(cache)@.remove(id@));
}

/// A result that was just noted is used, and it is no longer used five seconds
/// later.
pub proof fn lemma_cache_lifetime(at: u64, now: u64)
    ensures
        is_fresh(at, at),
        now >= at + 5000 ==> !is_fresh(at, now),
        at <= now < at + 5000 ==> is_fresh(at, now),
{
}

/// What the message says where installing a helper failed.
pub open spec fn install_message(e: ErrorView) -> Seq<char> {
    "Helper 安装失败。请确认远程服务器可以访问 GitHub："@ + e.message
}

/// What the message says where a helper command failed.
pub open spec fn call_message(failure: Seq<char>, e: ErrorView) -> Seq<char> {
    failure + e.message
}

/// What went wrong is told behind what was done.
pub proof fn lemma_failure_messages(failure: Seq<char>, e: ErrorView, version: Seq<char>, now: i64)
    ensures
        search::ends(install_message(e), e.message),
        search::begins(call_message(failure, e), failure),
        search::ends(call_message(failure, e), e.message),
        result_health(Err(e), version, now).last_error matches Some(told) && search::ends(
            told,
            e.message,
        ),
        result_health(Err(e), version, now).desktop_version == version,
        !result_health(Err(e), version, now).proxy_running,
        !result_health(Err(e), version, now).sandbox_running,
{
    search::lemma_ends_joined(
        "Helper 安装失败。请确认远程服务器可以访问 GitHub："@,
        e.message,
    );
    search::lemma_ends_joined(failure, e.message);
    search::lemma_ends_joined("Helper 不存在或无法执行："@, e.message);
    search::lemma_ends_joined(
        "无法通过 SSH 连接到服务器。请检查地址、端口和认证配置："@,
        e.message,
    );
}

/// What a helper reports of itself is what is known of its target, each thing under its
/// own name; what it does not report is not known, or not so.
pub proof fn lemma_reported_health(status: Tree, version: Seq<char>, now: i64)
    ensures
        ({
            let health = result_health(Ok(status), version, now);
            &&& health.reachable && health.helper_installed && health.last_error is None
            &&& health.desktop_version == version && health.last_check == now
            &&& health.helper_version == json::text_field(status, "version"@)
            &&& health.platform == json::text_field(status, "platform"@)
            &&& health.arch == json::text_field(status, "arch"@)
            &&& json::bool_field(status, "proxy_running"@) matches Some(b) ==> health.proxy_running
                == b
            &&& json::bool_field(status, "proxy_running"@) is None ==> !health.proxy_running
            &&& json::bool_field(status, "sandbox_running"@) matches Some(
                b,
            ) ==> health.sandbox_running == b
            &&& json::bool_field(status, "sandbox_running"@) is None ==> !health.sandbox_running
            &&& health.compatible <==> (health.capabilities.contains("proxy"@)
                && health.capabilities.contains("config"@) && health.capabilities.contains("logs"@)
                && health.capabilities.contains("doctor"@) && health.capabilities.contains(
                "verify"@,
            ))
        }),
{
    let required = types::required_capabilities();
    assert(required[0] == "proxy"@ && required[1] == "config"@ && required[2] == "logs"@
        && required[3] == "doctor"@ && required[4] == "verify"@);
}

/// A proxy is started for the profile in use exactly if there is one that has a key and is
/// of the source that is asked for, if one is; one that relays also needs an HTTP address
/// and a model.
pub proof fn lemma_startable(cfg: ConfigView, adapter: Seq<char>, provider: Seq<char>)
    ensures
        start_fault(cfg, adapter, provider) is None <==> {
            &&& config::find(cfg.profiles, cfg.active_id) matches Some(active)
            &&& provider.len() == 0 || provider == adapter || provider == active.template_id
            &&& !trim::is_blank(active.api_key)
            &&& adapter == "relay"@ ==> (search::begins(active.base_url, "http://"@)
                || search::begins(active.base_url, "https://"@)) && !trim::is_blank(active.model)
        },
{
    if let Some(active) = config::find(cfg.profiles, cfg.active_id) {
        if is_http(active.base_url) {
            reveal_strlit("http://");
            reveal_strlit("https://");
            let url = active.base_url;
            trim::lemma_blank(url);
            if search::begins(url, "http://"@) {
                assert(url.take(7)[0] == 'h');
            } else {
                assert(url.take(8)[0] == 'h');
            }
            assert(url[0] == 'h');
        }
    }
}

/// A key whose masked form was not reported is shown as four dots alone; the colour of a
/// light tells whether something is on.
pub proof fn lemma_shown(result: Tree, masked: Seq<char>)
    ensures
        json::text_field(result, "masked"@) == Some(masked) ==> shown_key(result) == masked,
        json::text_field(result, "masked"@) is None ==> shown_key(result) == "••••"@,
        light(true) == "green"@,
        light(false) == "amber"@,
{
}

/// What the message says where installing a helper failed.
pub fn install_error(e: &RemoteError) -> (r: String)
    ensures
        r@ == install_message(e@),
{
    cat2("Helper 安装失败。请确认远程服务器可以访问 GitHub：", e.message.as_str())
}

/// The secret that a user wants to keep or to delete.
pub open spec fn login_kind(
    profile_id: Seq<char>,
    kind: Seq<char>,
    key_path: Option<Seq<char>>,
) -> Result<KindView, Seq<char>> {
    if trim::is_blank(profile_id) {
        Err("远程服务器 ID 不能为空"@)
    } else {
        credentials::named_kind(kind, key_path)
    }
}

/// A secret belongs to a profile: without its id there is none to keep or to delete; with
/// it, it is the secret that is named.
pub proof fn lemma_login_kind(profile_id: Seq<char>, path: Seq<char>)
    requires
        !trim::is_blank(path),
    ensures
        trim::is_blank(profile_id) ==> login_kind(profile_id, "password"@, None) is Err
            && login_kind(profile_id, "keyPassword"@, Some(path)) is Err,
        !trim::is_blank(profile_id) ==> login_kind(profile_id, "password"@, None) == Ok::<
            KindView,
            Seq<char>,
        >(KindView::Password) && login_kind(profile_id, "keyPassword"@, Some(path)) == Ok::<
            KindView,
            Seq<char>,
        >(KindView::KeyPassword(trim::trim(path))),
{
    credentials::lemma_named_kinds("password"@, path);
}

/// The secret that a user wants to keep or to delete.
pub fn login_secret_kind<'a>(profile_id: &str, kind: &str, key_path: Option<&'a str>) -> (r: Result<
    CredentialKind<'a>,
    String,
>)
    ensures
        match r {
            Ok(k) => login_kind(profile_id@, kind@, chars::opt_str(key_path)) == Ok::<
                KindView,
                Seq<char>,
            >(k@),
            Err(e) => login_kind(profile_id@, kind@, chars::opt_str(key_path)) == Err::<
                KindView,
                Seq<char>,
            >(e@),
        },
{
    if blank(profile_id) {
        return Err("远程服务器 ID 不能为空".to_string());
    }
    credential_kind_from_parts(kind, key_path)
}

/// What is wrong with starting a proxy for the profile in use, on a target; `None`,
/// if nothing is. `adapter` is the one of the profile's template.
pub open spec fn start_fault(
    cfg: ConfigView,
    adapter: Seq<char>,
    provider: Seq<char>,
) -> Option<Seq<char>> {
    match config::find(cfg.profiles, cfg.active_id) {
        None => Some("没有生效的配置 Profile。请先在本地配置里选择当前模型来源。"@),
        Some(active) => if provider.len() > 0 && provider != adapter && provider
            != active.template_id {
            Some(
                "远程启动来源不匹配：当前 Profile 是 "@ + active.template_id
                    + "，但启动请求是 "@ + provider + "。"@,
            )
        } else if trim::is_blank(active.api_key) {
            Some("当前 Profile 未填写 API Key。请填写后重试。"@)
        } else if adapter == "relay"@ && (trim::is_blank(active.base_url) || !is_http(
            active.base_url,
        )) {
            Some("relay 配置需要 http(s):// 开头的 base_url。"@)
        } else if adapter == "relay"@ && trim::is_blank(active.model) {
            Some("relay 配置需要选择或填写模型。"@)
        } else {
            None
        },
    }
}

/// The configuration that a target gets: the profile in use alone.
pub open spec fn start_config(
    cfg: ConfigView,
    schema_version: u32,
    proxy_port: u16,
    sandbox_port: Option<u16>,
    secret: Seq<char>,
) -> ConfigView {
    let active = config::find(cfg.profiles, cfg.active_id)->0;
    ConfigView {
        schema_version,
        profiles: seq![active],
        active_id: active.id,
        proxy_port,
        sandbox_port: match sandbox_port {
            Some(port) => port,
            None => cfg.sandbox_port,
        },
        secret,
        mode: cfg.mode,
        pending_notice: None,
    }
}

/// The configuration that a target gets, if a proxy can be started with it.
pub fn remote_active_config_for_start(
    cfg: &Config,
    schema_version: u32,
    adapter: &str,
    provider: &str,
    proxy_port: u16,
    sandbox_port: Option<u16>,
    secret: &str,
) -> (r: Result<Config, String>)
    ensures
        match r {
            Ok(c) => start_fault(cfg@, adapter@, provider@) is None && c@ == start_config(
                cfg@,
                schema_version,
                proxy_port,
                sandbox_port,
                secret@,
            ),
            Err(e) => start_fault(cfg@, adapter@, provider@) == Some(e@),
        },
{
    let active = match cfg.active_profile() {
        Some(p) => p,
        None => {
            return Err(
                "没有生效的配置 Profile。请先在本地配置里选择当前模型来源。".to_string(),
            );
        },
    };
    if !provider.is_empty() && !same(provider, adapter) && !same(
        provider,
        active.template_id.as_str(),
    ) {
        let head = cat3(
            "远程启动来源不匹配：当前 Profile 是 ",
            active.template_id.as_str(),
            "，但启动请求是 ",
        );
        return Err(cat3(head.as_str(), provider, "。"));
    }
    if blank(active.api_key.as_str()) {
        return Err("当前 Profile 未填写 API Key。请填写后重试。".to_string());
    }
    if same(adapter, "relay") {
        if blank(active.base_url.as_str()) || !http_url(active.base_url.as_str()) {
            return Err("relay 配置需要 http(s):// 开头的 base_url。".to_string());
        }
        if blank(active.model.as_str()) {
            return Err("relay 配置需要选择或填写模型。".to_string());
        }
    }
    let mut profiles = Vec::new();
    profiles.push(active.clone());
    let c = Config {
        schema_version,
        profiles,
        active_id: active.id.clone(),
        proxy_port,
        sandbox_port: match sandbox_port {
            Some(port) => port,
            None => cfg.sandbox_port,
        },
        secret: secret.to_string(),
        mode: cfg.mode.clone(),
        pending_notice: None,
    };
    assert(c@.profiles =~= seq![active@]);
    Ok(c)
}

/// A helper command, and what the message begins with if it fails.
#[derive(Debug)]
pub struct HelperCall {
    pub args: Vec<String>,
    pub failure: String,
}

/// The contents of a list of helper commands.
pub open spec fn calls(v: Seq<HelperCall>) -> Seq<(Seq<Seq<char>>, Seq<char>)> {
    Seq::new(v.len(), |i: int| (chars::texts(v[i].args@), v[i].failure@))
}

/// The message for a helper command that failed.
pub fn call_error(call: &HelperCall, e: &RemoteError) -> (r: String)
    ensures
        r@ == call_message(call.failure@, e@),
{
    cat2(call.failure.as_str(), e.message.as_str())
}

/// A helper command of two words.
fn call_of_two(a: &str, b: &str, failure: &str) -> (r: HelperCall)
    ensures
        chars::texts(r.args@) == seq![a@, b@],
        r.failure@ == failure@,
{
    let mut args: Vec<String> = Vec::new();
    push_text(&mut args, a);
    push_text(&mut args, b);
    assert(chars::texts(args@) =~= seq![a@, b@]);
    HelperCall { args, failure: failure.to_string() }
}

/// A helper command of three words.
fn call_of_three(a: &str, b: &str, c: &str, failure: &str) -> (r: HelperCall)
    ensures
        chars::texts(r.args@) == seq![a@, b@, c@],
        r.failure@ == failure@,
{
    let mut call = call_of_two(a, b, failure);
    push_text(&mut call.args, c);
    assert(chars::texts(call.args@) =~= seq![a@, b@, c@]);
    call
}

/// The arguments that start a proxy.
pub open spec fn proxy_start_args(adapter: Seq<char>, port: u16, secret: Seq<char>) -> Seq<
    Seq<char>,
> {
    seq!["proxy"@, "start"@, adapter, number::decimal(port as nat), secret]
}

/// The arguments that start a sandbox.
pub open spec fn sandbox_start_args(port: u16, proxy_url: Seq<char>) -> Seq<Seq<char>> {
    seq!["sandbox"@, "start"@, number::decimal(port as nat), proxy_url]
}

/// The arguments that store a configuration.
pub open spec fn config_set_args(config_json: Seq<char>) -> Seq<Seq<char>> {
    seq!["config"@, "set"@, config_json]
}

/// The arguments that store a key.
pub open spec fn save_key_args(provider: Seq<char>, key: Seq<char>) -> Seq<Seq<char>> {
    seq!["config"@, "save-key"@, provider, key]
}

/// The arguments that ask for a log.
pub open spec fn logs_args(name: Seq<char>, lines: Option<u32>) -> Seq<Seq<char>> {
    match lines {
        Some(n) => seq!["logs"@, name, number::decimal(n as nat)],
        None => seq!["logs"@, name],
    }
}

/// The arguments that have a key verified.
pub open spec fn verify_args(port: u16, secret: Seq<char>) -> Seq<Seq<char>> {
    seq!["verify"@, number::decimal(port as nat), secret]
}

/// The commands that start a proxy on a target, and what is said if one of them fails.
pub open spec fn start_proxy_calls(
    config_json: Seq<char>,
    adapter: Seq<char>,
    port: u16,
    secret: Seq<char>,
) -> Seq<(Seq<Seq<char>>, Seq<char>)> {
    seq![
        (config_set_args(config_json), "同步当前 Profile 到服务器失败："@),
        (seq!["proxy"@, "stop"@], "停止旧远程代理失败："@),
        (proxy_start_args(adapter, port, secret), ""@),
    ]
}

/// The commands that start everything on a target, and what is said if one of them fails.
pub open spec fn one_click_calls(
    config_json: Seq<char>,
    adapter: Seq<char>,
    proxy_port: u16,
    sandbox_port: u16,
    secret: Seq<char>,
) -> Seq<(Seq<Seq<char>>, Seq<char>)> {
    seq![
        (config_set_args(config_json), "同步当前 Profile 到服务器失败："@),
        (seq!["proxy"@, "stop"@], "停止旧远程代理失败："@),
        (seq!["sandbox"@, "stop"@], "停止旧远程沙箱失败："@),
        (proxy_start_args(adapter, proxy_port, secret), "启动远程代理失败："@),
        (
            sandbox_start_args(sandbox_port, proxy_url(proxy_port, secret)),
            "启动远程沙箱失败："@,
        ),
    ]
}

/// The address of a proxy on its own machine.
pub open spec fn proxy_url(port: u16, secret: Seq<char>) -> Seq<char> {
    "http://127.0.0.1:"@ + number::decimal(port as nat) + "/"@ + secret
}

/// The command that starts a proxy.
fn proxy_start_call(adapter: &str, port: u16, secret: &str, failure: &str) -> (r: HelperCall)
    ensures
        chars::texts(r.args@) == proxy_start_args(adapter@, port, secret@),
        r.failure@ == failure@,
{
    let number = number_text(port as u64);
    let mut call = call_of_three("proxy", "start", adapter, failure);
    push_text(&mut call.args, number.as_str());
    push_text(&mut call.args, secret);
    assert(chars::texts(call.args@) =~= proxy_start_args(adapter@, port, secret@));
    call
}

/// What is done on a target to start a proxy there, in this order: the configuration
/// is stored, the old proxy is stopped, and the new one is started.
pub fn remote_start_proxy(config_json: &str, adapter: &str, port: u16, secret: &str) -> (r: Vec<
    HelperCall,
>)
    ensures
        calls(r@) == start_proxy_calls(config_json@, adapter@, port, secret@),
{
    let mut v: Vec<HelperCall> = Vec::new();
    v.push(call_of_three("config", "set", config_json, "同步当前 Profile 到服务器失败："));
    v.push(call_of_two("proxy", "stop", "停止旧远程代理失败："));
    v.push(proxy_start_call(adapter, port, secret, ""));
    assert(calls(v@) =~= start_proxy_calls(config_json@, adapter@, port, secret@));
    v
}

/// What is done on a target to start everything there, in this order: the
/// configuration is stored, the old proxy and the old sandbox are stopped, and the
/// new ones are started.
pub fn remote_one_click(
    config_json: &str,
    adapter: &str,
    proxy_port: u16,
    sandbox_port: u16,
    secret: &str,
) -> (r: Vec<HelperCall>)
    ensures
        calls(r@) == one_click_calls(
            config_json@,
            adapter@,
            proxy_port,
            sandbox_port,
            secret@,
        ),
{
    let url = remote_proxy_url(proxy_port, secret);
    let number = number_text(sandbox_port as u64);
    let mut last = call_of_three("sandbox", "start", number.as_str(), "启动远程沙箱失败：");
    push_text(&mut last.args, url.as_str());
    assert(chars::texts(last.args@) =~= sandbox_start_args(
        sandbox_port,
        proxy_url(proxy_port, secret@),
    ));
    let mut v: Vec<HelperCall> = Vec::new();
    v.push(call_of_three("config", "set", config_json, "同步当前 Profile 到服务器失败："));
    v.push(call_of_two("proxy", "stop", "停止旧远程代理失败："));
    v.push(call_of_two("sandbox", "stop", "停止旧远程沙箱失败："));
    v.push(proxy_start_call(adapter, proxy_port, secret, "启动远程代理失败："));
    v.push(last);
    assert(calls(v@) =~= one_click_calls(
        config_json@,
        adapter@,
        proxy_port,
        sandbox_port,
        secret@,
    ));
    v
}

/// The address of a proxy on its own machine.
pub fn remote_proxy_url(port: u16, secret: &str) -> (r: String)
    ensures
        r@ == proxy_url(port, secret@),
{
    let number = number_text(port as u64);
    cat4("http://127.0.0.1:", number.as_str(), "/", secret)
}

/// The words of the `ssh` command that makes a sandbox on a target available here.
pub open spec fn tunnel_words(p: HostView, sandbox_port: u16) -> Seq<Seq<char>> {
    let number = number::decimal(sandbox_port as nat);
    let key = match p.auth {
        AuthView::KeyFile { path, .. } => seq!["-i"@, path],
        _ => Seq::empty(),
    };
    seq!["ssh"@] + key + seq![
        "-p"@,
        number::decimal(p.port as nat),
        "-N"@,
        "-L"@,
        number + ":127.0.0.1:"@ + number,
        p.username + "@"@ + p.host,
    ]
}

/// The `ssh` command that makes a sandbox on a target available here.
pub fn remote_tunnel_hint(profile: &RemoteHostProfile, sandbox_port: u16) -> (r: String)
    ensures
        r@ == split::join(tunnel_words(profile@, sandbox_port), " "@),
{
    let mut parts: Vec<String> = Vec::new();
    push_text(&mut parts, "ssh");
    if let RemoteAuthMethod::KeyFile { path, .. } = &profile.auth_method {
        push_text(&mut parts, "-i");
        push_text(&mut parts, path.as_str());
    }
    let port = number_text(profile.port as u64);
    let number = number_text(sandbox_port as u64);
    let forward = cat3(number.as_str(), ":127.0.0.1:", number.as_str());
    let target = cat3(profile.username.as_str(), "@", profile.host.as_str());
    push_text(&mut parts, "-p");
    push_text(&mut parts, port.as_str());
    push_text(&mut parts, "-N");
    push_text(&mut parts, "-L");
    push_text(&mut parts, forward.as_str());
    push_text(&mut parts, target.as_str());
    assert(chars::texts(parts@) =~= tunnel_words(profile@, sandbox_port));
    joined(&parts, " ")
}

/// The address of a sandbox on its own machine: the one that it reported, if any.
pub open spec fn local_url(sandbox: Tree, port: u16) -> Seq<char> {
    match json::text_field(sandbox, "url"@) {
        Some(url) => url,
        None => "http://127.0.0.1:"@ + number::decimal(port as nat),
    }
}

/// What is reported once everything was started on a target.
pub open spec fn one_click_report(
    p: HostView,
    proxy_port: u16,
    sandbox_port: u16,
    secret: Seq<char>,
    proxy: Tree,
    sandbox: Tree,
) -> Seq<(Seq<char>, Tree)> {
    seq![
        ("ok"@, Tree::Bool(true)),
        ("proxy_port"@, Tree::Unsigned(proxy_port as u64)),
        ("sandbox_port"@, Tree::Unsigned(sandbox_port as u64)),
        ("proxy_url"@, Tree::Text(proxy_url(proxy_port, secret))),
        ("local_url"@, Tree::Text(local_url(sandbox, sandbox_port))),
        (
            "remote_url"@,
            Tree::Text("http://"@ + p.host + ":"@ + number::decimal(sandbox_port as nat)),
        ),
        ("tunnel_hint"@, Tree::Text(split::join(tunnel_words(p, sandbox_port), " "@))),
        ("proxy"@, proxy),
        ("sandbox"@, sandbox),
    ]
}

/// What is reported once everything was started on a target.
pub fn one_click_result(
    profile: &RemoteHostProfile,
    proxy_port: u16,
    sandbox_port: u16,
    secret: &str,
    proxy_result: Json,
    sandbox_result: Json,
) -> (r: Json)
    ensures
        r@ == Tree::Object(
            one_click_report(
                profile@,
                proxy_port,
                sandbox_port,
                secret@,
                proxy_result@,
                sandbox_result@,
            ),
        ),
{
    let number = number_text(sandbox_port as u64);
    let url = remote_proxy_url(proxy_port, secret);
    let local = match sandbox_result.get_text("url") {
        Some(url) => url,
        None => cat2("http://127.0.0.1:", number.as_str()),
    };
    assert(local@ == local_url(sandbox_result@, sandbox_port));
    let remote = cat4("http://", profile.host.as_str(), ":", number.as_str());
    let hint = remote_tunnel_hint(profile, sandbox_port);
    let mut o = JsonObject::new();
    o.put("ok", Json::Bool(true));
    o.put("proxy_port", Json::number(proxy_port as u64));
    o.put("sandbox_port", Json::number(sandbox_port as u64));
    o.put("proxy_url", Json::text(url.as_str()));
    o.put("local_url", Json::text(local.as_str()));
    o.put("remote_url", Json::text(remote.as_str()));
    o.put("tunnel_hint", Json::text(hint.as_str()));
    o.put("proxy", proxy_result);
    o.put("sandbox", sandbox_result);
    let r = o.done();
    assert(r@->Object_0 =~= one_click_report(
        profile@,
        proxy_port,
        sandbox_port,
        secret@,
        proxy_result@,
        sandbox_result@,
    ));
    r
}

/// The colour of a light.
pub open spec fn light(on: bool) -> Seq<char> {
    if on {
        "green"@
    } else {
        "amber"@
    }
}

/// The colour of a light.
pub fn light_text(on: bool) -> (r: Json)
    ensures
        r@ == Tree::Text(light(on)),
{
    if on {
        Json::text("green")
    } else {
        Json::text("amber")
    }
}

/// The three lights of a target, from the status of its helper.
pub open spec fn target_lights(status: Tree) -> Tree {
    Tree::Object(
        seq![
            ("proxy"@, Tree::Text(light(json::bool_field(status, "proxy_running"@) == Some(true)))),
            (
                "sandbox"@,
                Tree::Text(light(json::bool_field(status, "sandbox_running"@) == Some(true))),
            ),
            ("upstream"@, Tree::Text(light(json::text_field(status, "platform"@) is Some))),
            ("remote"@, Tree::Bool(true)),
        ],
    )
}

/// The three lights of a target, from the status of its helper.
pub fn remote_status(status: &Json) -> (r: Json)
    ensures
        r@ == target_lights(status@),
{
    let proxy = match status.get_bool("proxy_running") {
        Some(b) => b,
        None => false,
    };
    let sandbox = match status.get_bool("sandbox_running") {
        Some(b) => b,
        None => false,
    };
    let upstream = status.get_text("platform").is_some();
    let mut o = JsonObject::new();
    o.put("proxy", light_text(proxy));
    o.put("sandbox", light_text(sandbox));
    o.put("upstream", light_text(upstream));
    o.put("remote", Json::Bool(true));
    let r = o.done();
    assert(r@->Object_0 =~= seq![
        ("proxy"@, Tree::Text(light(proxy))),
        ("sandbox"@, Tree::Text(light(sandbox))),
        ("upstream"@, Tree::Text(light(upstream))),
        ("remote"@, Tree::Bool(true)),
    ]);
    r
}

/// The arguments that ask for a log of a target.
pub fn remote_logs(name: &str, lines: Option<u32>) -> (r: Vec<String>)
    ensures
        chars::texts(r@) == logs_args(name@, lines),
{
    let mut args: Vec<String> = Vec::new();
    push_text(&mut args, "logs");
    push_text(&mut args, name);
    if let Some(n) = lines {
        let number = number_text(n as u64);
        push_text(&mut args, number.as_str());
    }
    assert(chars::texts(args@) =~= logs_args(name@, lines));
    args
}

/// The arguments that have a key verified on a target.
pub fn remote_verify_key(port: u16, secret: &str) -> (r: Vec<String>)
    ensures
        chars::texts(r@) == verify_args(port, secret@),
{
    let number = number_text(port as u64);
    let call = call_of_three("verify", number.as_str(), secret, "");
    call.args
}

/// The arguments that store a key on a target.
pub fn remote_save_provider_key(provider: &str, key: &str) -> (r: Vec<String>)
    ensures
        chars::texts(r@) == save_key_args(provider@, key@),
{
    let mut call = call_of_three("config", "save-key", provider, "");
    push_text(&mut call.args, key);
    assert(chars::texts(call.args@) =~= save_key_args(provider@, key@));
    call.args
}

/// The key that was stored on a target, as it may be shown.
pub open spec fn shown_key(result: Tree) -> Seq<char> {
    match json::text_field(result, "masked"@) {
        Some(masked) => masked,
        None => "••••"@,
    }
}

/// The key that was stored on a target, as it may be shown.
pub fn masked_key_of(result: &Json) -> (r: String)
    ensures
        r@ == shown_key(result@),
{
    match result.get_text("masked") {
        Some(masked) => masked,
        None => "••••".to_string(),
    }
}

} // verus!
