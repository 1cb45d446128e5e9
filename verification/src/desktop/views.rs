//! What the desktop shell shows of the configuration, of its state and of itself.

use vstd::prelude::*;

use crate::config::{self, Config, ConfigView, Profile, ProfileView, Template, TemplateView};
use crate::desktop::state::{AppState, AppView};
use crate::json::{self, json_list, json_texts, Json, JsonNumber, JsonObject, Tree};
use crate::launch::{self, key_env_for_adapter};
use crate::remote_commands::{self, light_text};
use crate::text::chars::{self, cat2, cat3, cat4, cat5, push_pair, same};
use crate::text::encode::{self, lossy_text, lowered_ascii};
use crate::text::number::{self, exit_code_text, number_text};
use crate::text::options;
use crate::text::search::{self, starts};
use crate::text::trim::{self, blank, trimmed};

verus! {

/// What is shown of a template.
pub open spec fn template_tree(t: TemplateView) -> Tree {
    Tree::Object(
        seq![
            ("id"@, Tree::Text(t.id)),
            ("name"@, Tree::Text(t.name)),
            ("category"@, Tree::Text(t.category)),
            ("api_format"@, Tree::Text(t.api_format)),
            ("adapter"@, Tree::Text(t.adapter)),
            ("base_url"@, Tree::Text(t.base_url)),
            ("base_url_editable"@, Tree::Bool(t.base_url_editable)),
            ("requires_model_override"@, Tree::Bool(t.requires_model_override)),
            ("builtin_models"@, Tree::List(json::text_items(t.builtin_models))),
            ("website_url"@, Tree::Text(t.website_url)),
            ("icon"@, Tree::Text(t.icon)),
            ("icon_color"@, Tree::Text(t.icon_color)),
            ("thinking_policy"@, Tree::Text(t.thinking_policy)),
        ],
    )
}

/// What is shown of templates.
pub open spec fn template_trees(v: Seq<Template>) -> Seq<Tree> {
    Seq::new(v.len(), |i: int| template_tree(v[i]@))
}

/// What is shown of a template.
fn template_json(t: &Template) -> (r: Json)
    ensures
        r@ == template_tree(t@),
{
    let mut o = JsonObject::new();
    o.put("id", Json::text(t.id.as_str()));
    o.put("name", Json::text(t.name.as_str()));
    o.put("category", Json::text(t.category.as_str()));
    o.put("api_format", Json::text(t.api_format.as_str()));
    o.put("adapter", Json::text(t.adapter.as_str()));
    o.put("base_url", Json::text(t.base_url.as_str()));
    o.put("base_url_editable", Json::Bool(t.base_url_editable));
    o.put("requires_model_override", Json::Bool(t.requires_model_override));
    o.put("builtin_models", json_texts(&t.builtin_models));
    o.put("website_url", Json::text(t.website_url.as_str()));
    o.put("icon", Json::text(t.icon.as_str()));
    o.put("icon_color", Json::text(t.icon_color.as_str()));
    o.put("thinking_policy", Json::text(t.thinking_policy.as_str()));
    assert(o@ =~= template_tree(t@)->Object_0);
    o.done()
}

/// What is shown of templates.
pub fn build_list_templates(v: &Vec<Template>) -> (r: Json)
    ensures
        r@ == Tree::List(template_trees(v@)),
{
    let mut out: Vec<Json> = Vec::new();
    let ghost all = template_trees(v@);
    let n = v.len();
    let mut i: usize = 0;
    assert(json::trees(out@) =~= all.take(0));
    while i < n
        invariant
            n == v@.len(),
            i <= n,
            all == template_trees(v@),
            json::trees(out@) == all.take(i as int),
        decreases n - i,
    {
        let ghost before = json::trees(out@);
        let item = template_json(&v[i]);
        out.push(item);
        assert(json::trees(out@) =~= before.push(template_tree(v@[i as int]@)));
        i = i + 1;
        assert(json::trees(out@) =~= all.take(i as int));
    }
    assert(all.take(n as int) =~= all);
    json_list(out)
}

/// What is shown of a signed number that may be missing.
pub open spec fn opt_signed_tree(n: Option<i64>) -> Tree {
    match n {
        Some(n) => if n >= 0 {
            Tree::Unsigned(n as u64)
        } else {
            Tree::Negative(n)
        },
        None => Tree::Null,
    }
}

/// What is shown of a profile, in place of whose key stands `masked`.
pub open spec fn profile_tree(p: ProfileView, masked: Seq<char>) -> Tree {
    Tree::Object(
        seq![
            ("id"@, Tree::Text(p.id)),
            ("name"@, Tree::Text(p.name)),
            ("template_id"@, Tree::Text(p.template_id)),
            ("category"@, Tree::Text(p.category)),
            ("api_format"@, Tree::Text(p.api_format)),
            ("base_url"@, Tree::Text(p.base_url)),
            ("model"@, Tree::Text(p.model)),
            ("key"@, Tree::Text(masked)),
            ("website_url"@, json::opt_text_tree(p.website_url)),
            ("icon"@, json::opt_text_tree(p.icon)),
            ("icon_color"@, json::opt_text_tree(p.icon_color)),
            ("sort_index"@, opt_signed_tree(p.sort_index)),
            ("notes"@, json::opt_text_tree(p.notes)),
        ],
    )
}

/// What is shown of profiles.
pub open spec fn profile_trees(v: Seq<ProfileView>, masked: Seq<Seq<char>>) -> Seq<Tree> {
    Seq::new(v.len(), |i: int| profile_tree(v[i], masked[i]))
}

/// What is shown of the configuration.
pub open spec fn config_tree(
    cfg: ConfigView,
    templates: Seq<Template>,
    masked: Seq<Seq<char>>,
) -> Tree {
    Tree::Object(
        seq![
            ("schema_version"@, Tree::Unsigned(cfg.schema_version as u64)),
            ("active_id"@, Tree::Text(cfg.active_id)),
            ("proxy_port"@, Tree::Unsigned(cfg.proxy_port as u64)),
            ("sandbox_port"@, Tree::Unsigned(cfg.sandbox_port as u64)),
            ("mode"@, Tree::Text(cfg.mode)),
            ("pending_notice"@, json::opt_text_tree(cfg.pending_notice)),
            ("templates"@, Tree::List(template_trees(templates))),
            ("profiles"@, Tree::List(profile_trees(cfg.profiles, masked))),
        ],
    )
}

/// A text that may be missing.
fn opt_json(s: &Option<String>) -> (r: Json)
    ensures
        r@ == json::opt_text_tree(chars::opt_text(*s)),
{
    match s {
        Some(t) => Json::text(t.as_str()),
        None => Json::Null,
    }
}

/// A signed number that may be missing.
fn opt_signed(n: Option<i64>) -> (r: Json)
    ensures
        r@ == opt_signed_tree(n),
{
    match n {
        Some(n) => if n >= 0 {
            Json::Number(JsonNumber::Unsigned(n as u64))
        } else {
            Json::Number(JsonNumber::Negative(n))
        },
        None => Json::Null,
    }
}

/// What is shown of a profile, in place of whose key stands `masked`.
fn profile_json(p: &Profile, masked: &str) -> (r: Json)
    ensures
        r@ == profile_tree(p@, masked@),
{
    let mut o = JsonObject::new();
    o.put("id", Json::text(p.id.as_str()));
    o.put("name", Json::text(p.name.as_str()));
    o.put("template_id", Json::text(p.template_id.as_str()));
    o.put("category", Json::text(p.category.as_str()));
    o.put("api_format", Json::text(p.api_format.as_str()));
    o.put("base_url", Json::text(p.base_url.as_str()));
    o.put("model", Json::text(p.model.as_str()));
    o.put("key", Json::text(masked));
    o.put("website_url", opt_json(&p.website_url));
    o.put("icon", opt_json(&p.icon));
    o.put("icon_color", opt_json(&p.icon_color));
    o.put("sort_index", opt_signed(p.sort_index));
    o.put("notes", opt_json(&p.notes));
    assert(o@ =~= profile_tree(p@, masked@)->Object_0);
    o.done()
}

/// What is shown of profiles.
fn profiles_json(v: &Vec<Profile>, masked: &Vec<String>) -> (r: Json)
    requires
        masked@.len() == v@.len(),
    ensures
        r@ == Tree::List(profile_trees(config::profile_views(v@), chars::texts(masked@))),
{
    let mut out: Vec<Json> = Vec::new();
    let ghost all = profile_trees(config::profile_views(v@), chars::texts(masked@));
    let n = v.len();
    let mut i: usize = 0;
    assert(json::trees(out@) =~= all.take(0));
    while i < n
        invariant
            n == v@.len(),
            masked@.len() == n,
            i <= n,
            all == profile_trees(config::profile_views(v@), chars::texts(masked@)),
            json::trees(out@) == all.take(i as int),
        decreases n - i,
    {
        let ghost before = json::trees(out@);
        let item = profile_json(&v[i], masked[i].as_str());
        out.push(item);
        assert(json::trees(out@) =~= before.push(
            profile_tree(v@[i as int]@, masked@[i as int]@),
        ));
        i = i + 1;
        assert(json::trees(out@) =~= all.take(i as int));
    }
    assert(all.take(n as int) =~= all);
    json_list(out)
}

/// What is shown of the configuration; `masked` holds what stands in place of each key.
pub fn build_get_config(cfg: &Config, templates: &Vec<Template>, masked: &Vec<String>) -> (r: Json)
    requires
        masked@.len() == cfg.profiles@.len(),
    ensures
        r@ == config_tree(cfg@, templates@, chars::texts(masked@)),
{
    let mut o = JsonObject::new();
    o.put("schema_version", Json::number(cfg.schema_version as u64));
    o.put("active_id", Json::text(cfg.active_id.as_str()));
    o.put("proxy_port", Json::number(cfg.proxy_port as u64));
    o.put("sandbox_port", Json::number(cfg.sandbox_port as u64));
    o.put("mode", Json::text(cfg.mode.as_str()));
    o.put("pending_notice", opt_json(&cfg.pending_notice));
    o.put("templates", build_list_templates(templates));
    o.put("profiles", profiles_json(&cfg.profiles, masked));
    assert(o@ =~= config_tree(cfg@, templates@, chars::texts(masked@))->Object_0);
    o.done()
}

/// The configuration once its notice was shown.
pub open spec fn without_notice(cfg: ConfigView) -> ConfigView {
    ConfigView { pending_notice: None, ..cfg }
}

/// A notice is shown once, and nothing else of a configuration changes with it.
pub proof fn lemma_notice(cfg: ConfigView)
    ensures
        ({
            let after = without_notice(cfg);
            &&& after.pending_notice is None
            &&& after.profiles == cfg.profiles && after.active_id == cfg.active_id
            &&& after.proxy_port == cfg.proxy_port && after.sandbox_port == cfg.sandbox_port
            &&& after.secret == cfg.secret && after.mode == cfg.mode && after.schema_version
                == cfg.schema_version
        }),
{
}

/// Forgets the notice for the user, once it is shown. The result tells whether there was
/// one.
pub fn take_notice(cfg: &mut Config) -> (r: bool)
    ensures
        r == (old(cfg)@.pending_notice is Some),
        final(cfg)@ == without_notice(old(cfg)@),
{
    let had = cfg.pending_notice.is_some();
    cfg.pending_notice = None;
    had
}

/// What is shown of the configuration tells nothing of a key but what stands in its
/// place, and nothing of the proxy's secret.
pub proof fn lemma_view_hides_keys(
    cfg: ConfigView,
    other: ConfigView,
    templates: Seq<Template>,
    masked: Seq<Seq<char>>,
)
    requires
        other == (ConfigView { profiles: other.profiles, secret: other.secret, ..cfg }),
        other.profiles.len() == cfg.profiles.len(),
        forall|i: int|
            0 <= i < cfg.profiles.len() ==> #[trigger] other.profiles[i] == (ProfileView {
                api_key: other.profiles[i].api_key,
                ..cfg.profiles[i]
            }),
    ensures
        config_tree(other, templates, masked) == config_tree(cfg, templates, masked),
{
    assert(profile_trees(other.profiles, masked) =~= profile_trees(cfg.profiles, masked));
}

/// The ports whose state is shown: those of the proxy and of the sandbox.
pub open spec fn shown_ports(app: AppView, cfg: ConfigView) -> (u16, u16) {
    (
        if app.proxy_port != 0 {
            app.proxy_port
        } else {
            cfg.proxy_port
        },
        if app.sandbox_port != 0 {
            app.sandbox_port
        } else {
            cfg.sandbox_port
        },
    )
}

/// The ports whose state is shown: those that the proxy and the sandbox were started
/// with, or else those of the configuration.
pub fn status_ports(app: &AppState, cfg: &Config) -> (r: (u16, u16))
    ensures
        r == shown_ports(app@, cfg@),
{
    let proxy = if app.proxy_port != 0 {
        app.proxy_port
    } else {
        cfg.proxy_port
    };
    let sandbox = if app.sandbox_port != 0 {
        app.sandbox_port
    } else {
        cfg.sandbox_port
    };
    (proxy, sandbox)
}

/// What is shown of the state.
pub open spec fn status_tree(
    secret: Seq<char>,
    proxy_healthy: bool,
    sandbox_ours: bool,
    adapter: Seq<char>,
    reached: bool,
) -> Tree {
    Tree::Object(
        seq![
            ("proxy"@, Tree::Text(remote_commands::light(secret.len() > 0 && proxy_healthy))),
            ("sandbox"@, Tree::Text(remote_commands::light(sandbox_ours))),
            ("upstream"@, Tree::Text(remote_commands::light(adapter.len() > 0 && reached))),
        ],
    )
}

/// What is shown of the state: whether the proxy answers to its secret, whether the
/// sandbox of this program runs, and whether the source in use, if any, can be reached.
pub fn status(secret: &str, proxy_healthy: bool, sandbox_ours: bool, adapter: &str, reached: bool)
    -> (r: Json)
    ensures
        r@ == status_tree(secret@, proxy_healthy, sandbox_ours, adapter@, reached),
{
    let mut o = JsonObject::new();
    o.put("proxy", light_text(!secret.is_empty() && proxy_healthy));
    o.put("sandbox", light_text(sandbox_ours));
    o.put("upstream", light_text(!adapter.is_empty() && reached));
    assert(o@ =~= seq![
        ("proxy"@, Tree::Text(remote_commands::light(secret@.len() > 0 && proxy_healthy))),
        ("sandbox"@, Tree::Text(remote_commands::light(sandbox_ours))),
        ("upstream"@, Tree::Text(remote_commands::light(adapter@.len() > 0 && reached))),
    ]);
    o.done()
}

/// Whether an address is one of this machine.
pub open spec fn is_local(url: Seq<char>) -> bool {
    let lower = encode::ascii_lower(url);
    search::begins(lower, "http://127.0.0.1:"@) || search::begins(lower, "http://localhost:"@)
        || search::begins(lower, "http://[::1]:"@)
}

/// The address that is opened: the given one, if it is one of this machine, or else the
/// one of the sandbox.
pub open spec fn opened_url(url: Option<Seq<char>>, sandbox: Option<Seq<char>>) -> Result<
    Seq<char>,
    Seq<char>,
> {
    match url {
        Some(u) => if trim::trim(u) != u {
            Err("URL 不能包含首尾空白。"@)
        } else if !is_local(u) {
            Err("只允许打开本地沙箱 URL。"@)
        } else {
            Ok(u)
        },
        None => match sandbox {
            Some(u) => Ok(u),
            None => Err("还没有沙箱 URL，请先「一键开始」。"@),
        },
    }
}

/// The address that is opened.
pub fn open_url(url: Option<&str>, app: &AppState) -> (r: Result<String, String>)
    ensures
        chars::result_text(r) == opened_url(chars::opt_str(url), app@.sandbox_url),
{
    match url {
        Some(u) => {
            let inner = trimmed(u);
            if !same(inner.as_str(), u) {
                return Err("URL 不能包含首尾空白。".to_string());
            }
            let lower = lowered_ascii(u);
            if starts(lower.as_str(), "http://127.0.0.1:") || starts(
                lower.as_str(),
                "http://localhost:",
            ) || starts(lower.as_str(), "http://[::1]:") {
                Ok(u.to_string())
            } else {
                Err("只允许打开本地沙箱 URL。".to_string())
            }
        },
        None => match &app.sandbox_url {
            Some(u) => Ok(u.as_str().to_string()),
            None => Err("还没有沙箱 URL，请先「一键开始」。".to_string()),
        },
    }
}

/// An address that someone asks for is opened only if it is one of this machine.
pub proof fn lemma_only_local_urls(url: Seq<char>, sandbox: Option<Seq<char>>)
    ensures
        opened_url(Some(url), sandbox) is Ok <==> is_local(url) && trim::trim(url) == url,
        opened_url(Some(url), sandbox) is Ok ==> opened_url(Some(url), sandbox)->Ok_0 == url,
{
}

/// What became of running the program that opens addresses.
#[derive(Debug)]
pub enum BrowserRun {
    Opened,
    Failed(Option<i32>),
    NotRun(String),
}

/// Whether an address was opened with a program.
pub fn open_in_browser(program: &str, run: BrowserRun) -> (r: Result<(), String>)
    ensures
        match r {
            Ok(()) => run is Opened,
            Err(e) => match run {
                BrowserRun::Opened => false,
                BrowserRun::Failed(code) => e@ == program@ + " 非零退出（"@ + number::option_debug(
                    code,
                ) + "）"@,
                BrowserRun::NotRun(fault) => e@ == "打开浏览器失败："@ + fault@,
            },
        },
{
    match run {
        BrowserRun::Opened => Ok(()),
        BrowserRun::Failed(code) => {
            let shown = exit_code_text(code);
            let head = cat2(program, " 非零退出（");
            Err(cat3(head.as_str(), shown.as_str(), "）"))
        },
        BrowserRun::NotRun(fault) => Err(cat2("打开浏览器失败：", fault.as_str())),
    }
}

/// What is wrong with opening the official product, if anything is.
pub open spec fn opening_fault(title: Seq<char>, run: BrowserRun) -> Option<Seq<char>> {
    match run {
        BrowserRun::Opened => None,
        BrowserRun::Failed(_) => Some(
            "未能打开 "@ + title + "。请确认已安装官方 "@ + title + "。"@,
        ),
        BrowserRun::NotRun(fault) => Some("打开官方 "@ + title + " 失败："@ + fault@),
    }
}

/// The product was opened exactly if its program ran and succeeded; else it is named, and
/// so is what went wrong.
pub proof fn lemma_opening(title: Seq<char>, code: Option<i32>, fault: String)
    ensures
        opening_fault(title, BrowserRun::Opened) is None,
        opening_fault(title, BrowserRun::Failed(code)) matches Some(e) && search::contains(
            e,
            title,
        ),
        opening_fault(title, BrowserRun::NotRun(fault)) matches Some(e) && search::contains(
            e,
            title,
        ) && search::ends(e, fault@),
{
    let a = opening_fault(title, BrowserRun::Failed(code))->0;
    let k = "未能打开 "@.len() as int;
    assert(a.subrange(k, k + title.len()) =~= title);
    assert(search::occurs_at(a, title, k));
    let b = opening_fault(title, BrowserRun::NotRun(fault))->0;
    let m = "打开官方 "@.len() as int;
    assert(b.subrange(m, m + title.len()) =~= title);
    assert(search::occurs_at(b, title, m));
    search::lemma_ends_joined("打开官方 "@ + title + " 失败："@, fault@);
}

/// Whether the official program was opened.
pub fn open_official(title: &str, run: BrowserRun) -> (r: Result<(), String>)
    ensures
        match r {
            Ok(()) => opening_fault(title@, run) is None,
            Err(e) => opening_fault(title@, run) == Some(e@),
        },
{
    match run {
        BrowserRun::Opened => Ok(()),
        BrowserRun::Failed(_) => Err(
            cat5("未能打开 ", title, "。请确认已安装官方 ", title, "。"),
        ),
        BrowserRun::NotRun(fault) => Err(
            cat4("打开官方 ", title, " 失败：", fault.as_str()),
        ),
    }
}

/// What stands in place of a key that is there.
pub const KEY_PRESENT: &'static str = "***present***";

/// The environment of the self-test: it learns whether there is a key, not which.
pub open spec fn doctor_environment(
    adapter: Seq<char>,
    proxy_port: u16,
    sandbox_port: u16,
    has_key: bool,
) -> Seq<(Seq<char>, Seq<char>)> {
    seq![
        ("CSSWITCH_PROVIDER"@, adapter),
        ("CSSWITCH_PROXY_PORT"@, number::decimal(proxy_port as nat)),
        ("CSSWITCH_SANDBOX_PORT"@, number::decimal(sandbox_port as nat)),
    ] + if has_key {
        seq![(launch::key_variable(adapter), KEY_PRESENT@)]
    } else {
        Seq::empty()
    }
}

/// Whether the profile in use has a key.
pub open spec fn has_active_key(cfg: ConfigView) -> bool {
    match config::find(cfg.profiles, cfg.active_id) {
        Some(p) => p.api_key.len() > 0,
        None => false,
    }
}

/// The environment of the self-test; `adapter` is the one of the profile in use, empty
/// where there is none.
pub fn doctor_env(cfg: &Config, adapter: &str) -> (r: Vec<(String, String)>)
    ensures
        chars::pairs(r@) == doctor_environment(
            adapter@,
            cfg@.proxy_port,
            cfg@.sandbox_port,
            has_active_key(cfg@),
        ),
{
    let proxy = number_text(cfg.proxy_port as u64);
    let sandbox = number_text(cfg.sandbox_port as u64);
    let mut env: Vec<(String, String)> = Vec::new();
    push_pair(&mut env, "CSSWITCH_PROVIDER", adapter);
    push_pair(&mut env, "CSSWITCH_PROXY_PORT", proxy.as_str());
    push_pair(&mut env, "CSSWITCH_SANDBOX_PORT", sandbox.as_str());
    let has_key = match cfg.active_profile() {
        Some(p) => !p.api_key.as_str().is_empty(),
        None => false,
    };
    if has_key {
        push_pair(&mut env, key_env_for_adapter(adapter), KEY_PRESENT);
    }
    assert(chars::pairs(env@) =~= doctor_environment(
        adapter@,
        cfg@.proxy_port,
        cfg@.sandbox_port,
        has_active_key(cfg@),
    ));
    env
}

/// The self-test learns of a key only whether there is one.
pub proof fn lemma_self_test_hides_keys(cfg: ConfigView, other: ConfigView, adapter: Seq<char>)
    requires
        other == (ConfigView { profiles: other.profiles, secret: other.secret, ..cfg }),
        other.profiles.len() == cfg.profiles.len(),
        forall|i: int|
            0 <= i < cfg.profiles.len() ==> #[trigger] other.profiles[i] == (ProfileView {
                api_key: other.profiles[i].api_key,
                ..cfg.profiles[i]
            }),
        forall|i: int|
            0 <= i < cfg.profiles.len() ==> ((#[trigger] other.profiles[i]).api_key.len() == 0)
                == (cfg.profiles[i].api_key.len() == 0),
    ensures
        doctor_environment(
            adapter,
            other.proxy_port,
            other.sandbox_port,
            has_active_key(other),
        ) == doctor_environment(
            adapter,
            cfg.proxy_port,
            cfg.sandbox_port,
            has_active_key(cfg),
        ),
{
    let (v, w, id) = (cfg.profiles, other.profiles, cfg.active_id);
    config::lemma_place_of(v, id);
    config::lemma_place_of(w, id);
    let (a, b) = (config::place_of(v, id), config::place_of(w, id));
    if a < v.len() {
        assert(w[a].id == v[a].id);
    }
    if b < w.len() {
        assert(w[b].id == v[b].id);
    }
    assert(a == b);
}

/// What is shown of the self-test: what it printed, and then its errors, if any.
pub fn run_doctor(stdout: &[u8], stderr: &[u8]) -> (r: String)
    ensures
        r@ == {
            let out = encode::decoded(stdout@);
            let err = encode::decoded(stderr@);
            if trim::is_blank(err) {
                out
            } else {
                out + "\n[stderr] "@ + trim::trim(err)
            }
        },
{
    let out = lossy_text(stdout);
    let err = lossy_text(stderr);
    if blank(err.as_str()) {
        return out;
    }
    let tail = trimmed(err.as_str());
    cat3(out.as_str(), "\n[stderr] ", tail.as_str())
}

/// A template is shown with what it holds, each part under its name.
pub proof fn lemma_template_is_shown(t: TemplateView)
    ensures
        ({
            let shown = template_tree(t);
            &&& json::text_field(shown, "id"@) == Some(t.id)
            &&& json::text_field(shown, "name"@) == Some(t.name)
            &&& json::text_field(shown, "category"@) == Some(t.category)
            &&& json::text_field(shown, "api_format"@) == Some(t.api_format)
            &&& json::text_field(shown, "adapter"@) == Some(t.adapter)
            &&& json::text_field(shown, "base_url"@) == Some(t.base_url)
            &&& json::bool_field(shown, "base_url_editable"@) == Some(t.base_url_editable)
            &&& json::bool_field(shown, "requires_model_override"@) == Some(
                t.requires_model_override,
            )
            &&& json::list_field(shown, "builtin_models"@) == Some(
                json::text_items(t.builtin_models),
            )
            &&& json::text_field(shown, "website_url"@) == Some(t.website_url)
            &&& json::text_field(shown, "icon"@) == Some(t.icon)
            &&& json::text_field(shown, "icon_color"@) == Some(t.icon_color)
            &&& json::text_field(shown, "thinking_policy"@) == Some(t.thinking_policy)
        }),
{
    let m = template_tree(t)->Object_0;
    reveal_strlit("id");
    reveal_strlit("name");
    reveal_strlit("category");
    reveal_strlit("api_format");
    reveal_strlit("adapter");
    reveal_strlit("base_url");
    reveal_strlit("base_url_editable");
    reveal_strlit("requires_model_override");
    reveal_strlit("builtin_models");
    reveal_strlit("website_url");
    reveal_strlit("icon");
    reveal_strlit("icon_color");
    reveal_strlit("thinking_policy");
    assert("id"@.len() != "name"@.len());
    assert("id"@.len() != "category"@.len());
    assert("id"@.len() != "api_format"@.len());
    assert("id"@.len() != "adapter"@.len());
    assert("id"@.len() != "base_url"@.len());
    assert("id"@.len() != "base_url_editable"@.len());
    assert("id"@.len() != "requires_model_override"@.len());
    assert("id"@.len() != "builtin_models"@.len());
    assert("id"@.len() != "website_url"@.len());
    assert("id"@.len() != "icon"@.len());
    assert("id"@.len() != "icon_color"@.len());
    assert("id"@.len() != "thinking_policy"@.len());
    assert("name"@.len() != "category"@.len());
    assert("name"@.len() != "api_format"@.len());
    assert("name"@.len() != "adapter"@.len());
    assert("name"@.len() != "base_url"@.len());
    assert("name"@.len() != "base_url_editable"@.len());
    assert("name"@.len() != "requires_model_override"@.len());
    assert("name"@.len() != "builtin_models"@.len());
    assert("name"@.len() != "website_url"@.len());
    assert("name"@[0] != "icon"@[0]);
    assert("name"@.len() != "icon_color"@.len());
    assert("name"@.len() != "thinking_policy"@.len());
    assert("category"@.len() != "api_format"@.len());
    assert("category"@.len() != "adapter"@.len());
    assert("category"@[0] != "base_url"@[0]);
    assert("category"@.len() != "base_url_editable"@.len());
    assert("category"@.len() != "requires_model_override"@.len());
    assert("category"@.len() != "builtin_models"@.len());
    assert("category"@.len() != "website_url"@.len());
    assert("category"@.len() != "icon"@.len());
    assert("category"@.len() != "icon_color"@.len());
    assert("category"@.len() != "thinking_policy"@.len());
    assert("api_format"@.len() != "adapter"@.len());
    assert("api_format"@.len() != "base_url"@.len());
    assert("api_format"@.len() != "base_url_editable"@.len());
    assert("api_format"@.len() != "requires_model_override"@.len());
    assert("api_format"@.len() != "builtin_models"@.len());
    assert("api_format"@.len() != "website_url"@.len());
    assert("api_format"@.len() != "icon"@.len());
    assert("api_format"@[0] != "icon_color"@[0]);
    assert("api_format"@.len() != "thinking_policy"@.len());
    assert("adapter"@.len() != "base_url"@.len());
    assert("adapter"@.len() != "base_url_editable"@.len());
    assert("adapter"@.len() != "requires_model_override"@.len());
    assert("adapter"@.len() != "builtin_models"@.len());
    assert("adapter"@.len() != "website_url"@.len());
    assert("adapter"@.len() != "icon"@.len());
    assert("adapter"@.len() != "icon_color"@.len());
    assert("adapter"@.len() != "thinking_policy"@.len());
    assert("base_url"@.len() != "base_url_editable"@.len());
    assert("base_url"@.len() != "requires_model_override"@.len());
    assert("base_url"@.len() != "builtin_models"@.len());
    assert("base_url"@.len() != "website_url"@.len());
    assert("base_url"@.len() != "icon"@.len());
    assert("base_url"@.len() != "icon_color"@.len());
    assert("base_url"@.len() != "thinking_policy"@.len());
    assert("base_url_editable"@.len() != "requires_model_override"@.len());
    assert("base_url_editable"@.len() != "builtin_models"@.len());
    assert("base_url_editable"@.len() != "website_url"@.len());
    assert("base_url_editable"@.len() != "icon"@.len());
    assert("base_url_editable"@.len() != "icon_color"@.len());
    assert("base_url_editable"@.len() != "thinking_policy"@.len());
    assert("requires_model_override"@.len() != "builtin_models"@.len());
    assert("requires_model_override"@.len() != "website_url"@.len());
    assert("requires_model_override"@.len() != "icon"@.len());
    assert("requires_model_override"@.len() != "icon_color"@.len());
    assert("requires_model_override"@.len() != "thinking_policy"@.len());
    assert("builtin_models"@.len() != "website_url"@.len());
    assert("builtin_models"@.len() != "icon"@.len());
    assert("builtin_models"@.len() != "icon_color"@.len());
    assert("builtin_models"@.len() != "thinking_policy"@.len());
    assert("website_url"@.len() != "icon"@.len());
    assert("website_url"@.len() != "icon_color"@.len());
    assert("website_url"@.len() != "thinking_policy"@.len());
    assert("icon"@.len() != "icon_color"@.len());
    assert("icon"@.len() != "thinking_policy"@.len());
    assert("icon_color"@.len() != "thinking_policy"@.len());
    json::lemma_member(m, "id"@, 0);
    json::lemma_member(m, "name"@, 1);
    json::lemma_member(m, "category"@, 2);
    json::lemma_member(m, "api_format"@, 3);
    json::lemma_member(m, "adapter"@, 4);
    json::lemma_member(m, "base_url"@, 5);
    json::lemma_member(m, "base_url_editable"@, 6);
    json::lemma_member(m, "requires_model_override"@, 7);
    json::lemma_member(m, "builtin_models"@, 8);
    json::lemma_member(m, "website_url"@, 9);
    json::lemma_member(m, "icon"@, 10);
    json::lemma_member(m, "icon_color"@, 11);
    json::lemma_member(m, "thinking_policy"@, 12);
}

/// A profile is shown with what it holds, each part under its name, and with the mask in
/// place of its key.
pub proof fn lemma_profile_is_shown(p: ProfileView, masked: Seq<char>)
    ensures
        ({
            let shown = profile_tree(p, masked);
            &&& json::text_field(shown, "id"@) == Some(p.id)
            &&& json::text_field(shown, "name"@) == Some(p.name)
            &&& json::text_field(shown, "template_id"@) == Some(p.template_id)
            &&& json::text_field(shown, "category"@) == Some(p.category)
            &&& json::text_field(shown, "api_format"@) == Some(p.api_format)
            &&& json::text_field(shown, "base_url"@) == Some(p.base_url)
            &&& json::text_field(shown, "model"@) == Some(p.model)
            &&& json::text_field(shown, "key"@) == Some(masked)
            &&& json::field(shown, "api_key"@) is None
            &&& json::text_field(shown, "website_url"@) == p.website_url
            &&& json::text_field(shown, "icon"@) == p.icon
            &&& json::text_field(shown, "icon_color"@) == p.icon_color
            &&& json::text_field(shown, "notes"@) == p.notes
        }),
{
    let m = profile_tree(p, masked)->Object_0;
    reveal_strlit("id");
    reveal_strlit("name");
    reveal_strlit("template_id");
    reveal_strlit("category");
    reveal_strlit("api_format");
    reveal_strlit("base_url");
    reveal_strlit("model");
    reveal_strlit("key");
    reveal_strlit("website_url");
    reveal_strlit("icon");
    reveal_strlit("icon_color");
    reveal_strlit("sort_index");
    reveal_strlit("notes");
    assert("id"@.len() != "name"@.len());
    assert("id"@.len() != "template_id"@.len());
    assert("id"@.len() != "category"@.len());
    assert("id"@.len() != "api_format"@.len());
    assert("id"@.len() != "base_url"@.len());
    assert("id"@.len() != "model"@.len());
    assert("id"@.len() != "key"@.len());
    assert("id"@.len() != "website_url"@.len());
    assert("id"@.len() != "icon"@.len());
    assert("id"@.len() != "icon_color"@.len());
    assert("id"@.len() != "sort_index"@.len());
    assert("id"@.len() != "notes"@.len());
    assert("name"@.len() != "template_id"@.len());
    assert("name"@.len() != "category"@.len());
    assert("name"@.len() != "api_format"@.len());
    assert("name"@.len() != "base_url"@.len());
    assert("name"@.len() != "model"@.len());
    assert("name"@.len() != "key"@.len());
    assert("name"@.len() != "website_url"@.len());
    assert("name"@[0] != "icon"@[0]);
    assert("name"@.len() != "icon_color"@.len());
    assert("name"@.len() != "sort_index"@.len());
    assert("name"@.len() != "notes"@.len());
    assert("template_id"@.len() != "category"@.len());
    assert("template_id"@.len() != "api_format"@.len());
    assert("template_id"@.len() != "base_url"@.len());
    assert("template_id"@.len() != "model"@.len());
    assert("template_id"@.len() != "key"@.len());
    assert("template_id"@[0] != "website_url"@[0]);
    assert("template_id"@.len() != "icon"@.len());
    assert("template_id"@.len() != "icon_color"@.len());
    assert("template_id"@.len() != "sort_index"@.len());
    assert("template_id"@.len() != "notes"@.len());
    assert("category"@.len() != "api_format"@.len());
    assert("category"@[0] != "base_url"@[0]);
    assert("category"@.len() != "model"@.len());
    assert("category"@.len() != "key"@.len());
    assert("category"@.len() != "website_url"@.len());
    assert("category"@.len() != "icon"@.len());
    assert("category"@.len() != "icon_color"@.len());
    assert("category"@.len() != "sort_index"@.len());
    assert("category"@.len() != "notes"@.len());
    assert("api_format"@.len() != "base_url"@.len());
    assert("api_format"@.len() != "model"@.len());
    assert("api_format"@.len() != "key"@.len());
    assert("api_format"@.len() != "website_url"@.len());
    assert("api_format"@.len() != "icon"@.len());
    assert("api_format"@[0] != "icon_color"@[0]);
    assert("api_format"@[0] != "sort_index"@[0]);
    assert("api_format"@.len() != "notes"@.len());
    assert("base_url"@.len() != "model"@.len());
    assert("base_url"@.len() != "key"@.len());
    assert("base_url"@.len() != "website_url"@.len());
    assert("base_url"@.len() != "icon"@.len());
    assert("base_url"@.len() != "icon_color"@.len());
    assert("base_url"@.len() != "sort_index"@.len());
    assert("base_url"@.len() != "notes"@.len());
    assert("model"@.len() != "key"@.len());
    assert("model"@.len() != "website_url"@.len());
    assert("model"@.len() != "icon"@.len());
    assert("model"@.len() != "icon_color"@.len());
    assert("model"@.len() != "sort_index"@.len());
    assert("model"@[0] != "notes"@[0]);
    assert("key"@.len() != "website_url"@.len());
    assert("key"@.len() != "icon"@.len());
    assert("key"@.len() != "icon_color"@.len());
    assert("key"@.len() != "sort_index"@.len());
    assert("key"@.len() != "notes"@.len());
    assert("website_url"@.len() != "icon"@.len());
    assert("website_url"@.len() != "icon_color"@.len());
    assert("website_url"@.len() != "sort_index"@.len());
    assert("website_url"@.len() != "notes"@.len());
    assert("icon"@.len() != "icon_color"@.len());
    assert("icon"@.len() != "sort_index"@.len());
    assert("icon"@.len() != "notes"@.len());
    assert("icon_color"@[0] != "sort_index"@[0]);
    assert("icon_color"@.len() != "notes"@.len());
    assert("sort_index"@.len() != "notes"@.len());
    json::lemma_member(m, "id"@, 0);
    json::lemma_member(m, "name"@, 1);
    json::lemma_member(m, "template_id"@, 2);
    json::lemma_member(m, "category"@, 3);
    json::lemma_member(m, "api_format"@, 4);
    json::lemma_member(m, "base_url"@, 5);
    json::lemma_member(m, "model"@, 6);
    json::lemma_member(m, "key"@, 7);
    json::lemma_member(m, "website_url"@, 8);
    json::lemma_member(m, "icon"@, 9);
    json::lemma_member(m, "icon_color"@, 10);
    json::lemma_member(m, "sort_index"@, 11);
    json::lemma_member(m, "notes"@, 12);
    reveal_strlit("api_key");
    assert("api_key"@.len() != "id"@.len());
    assert("api_key"@.len() != "name"@.len());
    assert("api_key"@.len() != "template_id"@.len());
    assert("api_key"@.len() != "category"@.len());
    assert("api_key"@.len() != "api_format"@.len());
    assert("api_key"@.len() != "base_url"@.len());
    assert("api_key"@.len() != "model"@.len());
    assert("api_key"@.len() != "key"@.len());
    assert("api_key"@.len() != "website_url"@.len());
    assert("api_key"@.len() != "icon"@.len());
    assert("api_key"@.len() != "icon_color"@.len());
    assert("api_key"@.len() != "sort_index"@.len());
    assert("api_key"@.len() != "notes"@.len());
    json::lemma_member(m, "api_key"@, 13);
}

/// The configuration is shown with its ports, its mode and the id of the profile in use,
/// and with its profiles in their order, each with its own mask.
pub proof fn lemma_config_is_shown(
    cfg: ConfigView,
    templates: Seq<Template>,
    masked: Seq<Seq<char>>,
    i: int,
)
    requires
        masked.len() == cfg.profiles.len(),
        0 <= i < cfg.profiles.len(),
    ensures
        ({
            let shown = config_tree(cfg, templates, masked);
            &&& json::text_field(shown, "active_id"@) == Some(cfg.active_id)
            &&& json::number_field(shown, "schema_version"@) == Some(cfg.schema_version as u64)
            &&& json::number_field(shown, "proxy_port"@) == Some(cfg.proxy_port as u64)
            &&& json::number_field(shown, "sandbox_port"@) == Some(cfg.sandbox_port as u64)
            &&& json::text_field(shown, "mode"@) == Some(cfg.mode)
            &&& json::text_field(shown, "pending_notice"@) == cfg.pending_notice
            &&& json::list_field(shown, "templates"@) matches Some(list) && list.len()
                == templates.len()
            &&& json::list_field(shown, "profiles"@) matches Some(list) && list.len()
                == cfg.profiles.len() && json::text_field(list[i], "id"@) == Some(
                cfg.profiles[i].id,
            ) && json::text_field(list[i], "key"@) == Some(masked[i])
            &&& json::field(shown, "secret"@) is None
        }),
{
    let m = config_tree(cfg, templates, masked)->Object_0;
    reveal_strlit("schema_version");
    reveal_strlit("active_id");
    reveal_strlit("proxy_port");
    reveal_strlit("sandbox_port");
    reveal_strlit("mode");
    reveal_strlit("pending_notice");
    reveal_strlit("templates");
    reveal_strlit("profiles");
    assert("schema_version"@.len() != "active_id"@.len());
    assert("schema_version"@.len() != "proxy_port"@.len());
    assert("schema_version"@.len() != "sandbox_port"@.len());
    assert("schema_version"@.len() != "mode"@.len());
    assert("schema_version"@[0] != "pending_notice"@[0]);
    assert("schema_version"@.len() != "templates"@.len());
    assert("schema_version"@.len() != "profiles"@.len());
    assert("active_id"@.len() != "proxy_port"@.len());
    assert("active_id"@.len() != "sandbox_port"@.len());
    assert("active_id"@.len() != "mode"@.len());
    assert("active_id"@.len() != "pending_notice"@.len());
    assert("active_id"@[0] != "templates"@[0]);
    assert("active_id"@.len() != "profiles"@.len());
    assert("proxy_port"@.len() != "sandbox_port"@.len());
    assert("proxy_port"@.len() != "mode"@.len());
    assert("proxy_port"@.len() != "pending_notice"@.len());
    assert("proxy_port"@.len() != "templates"@.len());
    assert("proxy_port"@.len() != "profiles"@.len());
    assert("sandbox_port"@.len() != "mode"@.len());
    assert("sandbox_port"@.len() != "pending_notice"@.len());
    assert("sandbox_port"@.len() != "templates"@.len());
    assert("sandbox_port"@.len() != "profiles"@.len());
    assert("mode"@.len() != "pending_notice"@.len());
    assert("mode"@.len() != "templates"@.len());
    assert("mode"@.len() != "profiles"@.len());
    assert("pending_notice"@.len() != "templates"@.len());
    assert("pending_notice"@.len() != "profiles"@.len());
    assert("templates"@.len() != "profiles"@.len());
    json::lemma_member(m, "schema_version"@, 0);
    json::lemma_member(m, "active_id"@, 1);
    json::lemma_member(m, "proxy_port"@, 2);
    json::lemma_member(m, "sandbox_port"@, 3);
    json::lemma_member(m, "mode"@, 4);
    json::lemma_member(m, "pending_notice"@, 5);
    json::lemma_member(m, "templates"@, 6);
    json::lemma_member(m, "profiles"@, 7);
    reveal_strlit("secret");
    assert("secret"@.len() != "schema_version"@.len());
    assert("secret"@.len() != "active_id"@.len());
    assert("secret"@.len() != "proxy_port"@.len());
    assert("secret"@.len() != "sandbox_port"@.len());
    assert("secret"@.len() != "mode"@.len());
    assert("secret"@.len() != "pending_notice"@.len());
    assert("secret"@.len() != "templates"@.len());
    assert("secret"@.len() != "profiles"@.len());
    json::lemma_member(m, "secret"@, 8);
    lemma_profile_is_shown(cfg.profiles[i], masked[i]);
}

/// The lights are green exactly for a proxy that has a secret and answers to it, for a
/// sandbox that is the one of this program, and for a source in use that can be reached.
pub proof fn lemma_status_lights(
    secret: Seq<char>,
    proxy_healthy: bool,
    sandbox_ours: bool,
    adapter: Seq<char>,
    reached: bool,
)
    ensures
        ({
            let shown = status_tree(secret, proxy_healthy, sandbox_ours, adapter, reached);
            &&& (json::text_field(shown, "proxy"@) == Some("green"@)) == (secret.len() > 0
                && proxy_healthy)
            &&& (json::text_field(shown, "sandbox"@) == Some("green"@)) == sandbox_ours
            &&& (json::text_field(shown, "upstream"@) == Some("green"@)) == (adapter.len() > 0
                && reached)
        }),
{
    reveal_strlit("green");
    reveal_strlit("amber");
    assert("green"@[0] != "amber"@[0]);
    let m = status_tree(secret, proxy_healthy, sandbox_ours, adapter, reached)->Object_0;
    reveal_strlit("proxy");
    reveal_strlit("sandbox");
    reveal_strlit("upstream");
    assert("proxy"@.len() != "sandbox"@.len());
    assert("proxy"@.len() != "upstream"@.len());
    assert("sandbox"@.len() != "upstream"@.len());
    json::lemma_member(m, "proxy"@, 0);
    json::lemma_member(m, "sandbox"@, 1);
    json::lemma_member(m, "upstream"@, 2);
}

/// The ports whose state is shown are those that the proxy and the sandbox were started
/// with; of one that was not started, that of the configuration.
pub proof fn lemma_shown_ports(app: AppView, cfg: ConfigView)
    ensures
        app.proxy_port != 0 ==> shown_ports(app, cfg).0 == app.proxy_port,
        app.proxy_port == 0 ==> shown_ports(app, cfg).0 == cfg.proxy_port,
        app.sandbox_port != 0 ==> shown_ports(app, cfg).1 == app.sandbox_port,
        app.sandbox_port == 0 ==> shown_ports(app, cfg).1 == cfg.sandbox_port,
{
}

/// The self-test is told the source, the two ports, and under the variable of the source
/// whether there is a key.
pub proof fn lemma_self_test_environment(
    adapter: Seq<char>,
    proxy_port: u16,
    sandbox_port: u16,
    has_key: bool,
)
    ensures
        ({
            let env = doctor_environment(adapter, proxy_port, sandbox_port, has_key);
            &&& options::sets(env, "CSSWITCH_PROVIDER"@, adapter)
            &&& options::sets(env, "CSSWITCH_PROXY_PORT"@, env[1].1)
            &&& number::parse_unsigned(env[1].1, 65535) == Some(proxy_port as nat)
            &&& options::sets(env, "CSSWITCH_SANDBOX_PORT"@, env[2].1)
            &&& number::parse_unsigned(env[2].1, 65535) == Some(sandbox_port as nat)
            &&& has_key ==> options::sets(env, launch::key_variable(adapter), "***present***"@)
            &&& !has_key ==> env.len() == 3
        }),
{
    reveal_strlit("CSSWITCH_PROVIDER");
    reveal_strlit("CSSWITCH_PROXY_PORT");
    reveal_strlit("CSSWITCH_SANDBOX_PORT");
    reveal_strlit("DEEPSEEK_API_KEY");
    reveal_strlit("DASHSCOPE_API_KEY");
    reveal_strlit("CSSWITCH_OPENAI_KEY");
    reveal_strlit("CSSWITCH_RELAY_KEY");
    assert("CSSWITCH_PROVIDER"@.len() != "CSSWITCH_PROXY_PORT"@.len());
    assert("CSSWITCH_PROVIDER"@.len() != "CSSWITCH_SANDBOX_PORT"@.len());
    assert("CSSWITCH_PROVIDER"@.len() != "DEEPSEEK_API_KEY"@.len());
    assert("CSSWITCH_PROVIDER"@[0] != "DASHSCOPE_API_KEY"@[0]);
    assert("CSSWITCH_PROVIDER"@.len() != "CSSWITCH_OPENAI_KEY"@.len());
    assert("CSSWITCH_PROVIDER"@.len() != "CSSWITCH_RELAY_KEY"@.len());
    assert("CSSWITCH_PROXY_PORT"@.len() != "CSSWITCH_SANDBOX_PORT"@.len());
    assert("CSSWITCH_PROXY_PORT"@.len() != "DEEPSEEK_API_KEY"@.len());
    assert("CSSWITCH_PROXY_PORT"@.len() != "DASHSCOPE_API_KEY"@.len());
    assert("CSSWITCH_PROXY_PORT"@[9] != "CSSWITCH_OPENAI_KEY"@[9]);
    assert("CSSWITCH_PROXY_PORT"@.len() != "CSSWITCH_RELAY_KEY"@.len());
    assert("CSSWITCH_SANDBOX_PORT"@.len() != "DEEPSEEK_API_KEY"@.len());
    assert("CSSWITCH_SANDBOX_PORT"@.len() != "DASHSCOPE_API_KEY"@.len());
    assert("CSSWITCH_SANDBOX_PORT"@.len() != "CSSWITCH_OPENAI_KEY"@.len());
    assert("CSSWITCH_SANDBOX_PORT"@.len() != "CSSWITCH_RELAY_KEY"@.len());
    assert("DEEPSEEK_API_KEY"@.len() != "DASHSCOPE_API_KEY"@.len());
    assert("DEEPSEEK_API_KEY"@.len() != "CSSWITCH_OPENAI_KEY"@.len());
    assert("DEEPSEEK_API_KEY"@.len() != "CSSWITCH_RELAY_KEY"@.len());
    assert("DASHSCOPE_API_KEY"@.len() != "CSSWITCH_OPENAI_KEY"@.len());
    assert("DASHSCOPE_API_KEY"@.len() != "CSSWITCH_RELAY_KEY"@.len());
    assert("CSSWITCH_OPENAI_KEY"@.len() != "CSSWITCH_RELAY_KEY"@.len());
    number::lemma_parse_decimal(proxy_port as nat, 65535);
    number::lemma_parse_decimal(sandbox_port as nat, 65535);
    let env = doctor_environment(adapter, proxy_port, sandbox_port, has_key);
    assert(env[0] == ("CSSWITCH_PROVIDER"@, adapter));
    assert(env[1] == ("CSSWITCH_PROXY_PORT"@, number::decimal(proxy_port as nat)));
    assert(env[2] == ("CSSWITCH_SANDBOX_PORT"@, number::decimal(sandbox_port as nat)));
    if has_key {
        assert(env[3] == (launch::key_variable(adapter), KEY_PRESENT@));
        options::lemma_sets(env, 3);
    }
    options::lemma_sets(env, 0);
    options::lemma_sets(env, 1);
    options::lemma_sets(env, 2);
}

/// An address of this machine is one on the loopback interface, with a port.
pub proof fn lemma_local_address(rest: Seq<char>)
    ensures
        is_local("http://127.0.0.1:"@ + rest),
        is_local("http://localhost:"@ + rest),
        is_local("http://[::1]:"@ + rest),
        !is_local("https://"@ + rest),
        !is_local("http://1.2.3.4:"@ + rest),
{
    reveal_strlit("http://127.0.0.1:");
    reveal_strlit("http://localhost:");
    reveal_strlit("http://[::1]:");
    reveal_strlit("https://");
    reveal_strlit("http://1.2.3.4:");
    let a = encode::ascii_lower("http://127.0.0.1:"@ + rest);
    assert(a.take(17) =~= "http://127.0.0.1:"@);
    let b = encode::ascii_lower("http://localhost:"@ + rest);
    assert(b.take(17) =~= "http://localhost:"@);
    let c = encode::ascii_lower("http://[::1]:"@ + rest);
    assert(c.take(13) =~= "http://[::1]:"@);
    let d = encode::ascii_lower("https://"@ + rest);
    assert(d[4] == 's');
    let e = encode::ascii_lower("http://1.2.3.4:"@ + rest);
    assert(e[7] == '1' && e[8] == '.');
    assert(!is_local("https://"@ + rest)) by {
        if search::begins(d, "http://127.0.0.1:"@) {
            assert(d.take(17)[4] == d[4]);
        }
        if search::begins(d, "http://localhost:"@) {
            assert(d.take(17)[4] == d[4]);
        }
        if search::begins(d, "http://[::1]:"@) {
            assert(d.take(13)[4] == d[4]);
        }
    }
    assert(!is_local("http://1.2.3.4:"@ + rest)) by {
        if search::begins(e, "http://127.0.0.1:"@) {
            assert(e.take(17)[8] == e[8]);
        }
        if search::begins(e, "http://localhost:"@) {
            assert(e.take(17)[7] == e[7]);
        }
        if search::begins(e, "http://[::1]:"@) {
            assert(e.take(13)[7] == e[7]);
        }
    }
}

/// The templates and the profiles are shown in their order, each profile with the masked
/// form of its own key; a number is shown with its sign.
pub proof fn lemma_shown_lists(
    templates: Seq<Template>,
    profiles: Seq<ProfileView>,
    masked: Seq<Seq<char>>,
    i: int,
    n: i64,
)
    requires
        0 <= i < templates.len(),
        0 <= i < profiles.len(),
        masked.len() == profiles.len(),
    ensures
        template_trees(templates).len() == templates.len(),
        template_trees(templates)[i] == template_tree(templates[i]@),
        profile_trees(profiles, masked).len() == profiles.len(),
        profile_trees(profiles, masked)[i] == profile_tree(profiles[i], masked[i]),
        n >= 0 ==> opt_signed_tree(Some(n)) == Tree::Unsigned(n as u64),
        n < 0 ==> opt_signed_tree(Some(n)) == Tree::Negative(n),
        opt_signed_tree(None) == Tree::Null,
{
}

} // verus!
