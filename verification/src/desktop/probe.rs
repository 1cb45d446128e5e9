//! Trying a source of models: what is asked of it, and what its answer means.

use vstd::prelude::*;

use crate::config::{self, Config, ConfigView, Template, TemplateView};
use crate::desktop::checks::{self, reject_openai_custom_anthropic_base};
use crate::desktop::models::{self, merge_and_sort_models, ModelEntry, ModelView};
use crate::desktop::profiles;
use crate::desktop::proxy::PROXY_SCRIPT;
use crate::json::{self, json_list, parse_json, Json, JsonObject, Tree};
use crate::launch::{self, key_env_for_adapter};
use crate::paths::{self, join_path};
use crate::remote_commands::{self, http_url};
use crate::text::chars::{self, cat2, cat3, same};
use crate::text::number::{self, number_text};
use crate::text::search;
use crate::text::trim::{self, blank, trimmed};

verus! {

/// What the answer of a source shows.
#[derive(Debug, Clone, Copy, PartialEq, Eq, Structural)]
pub enum ProbeOutcome {
    /// It accepts.
    Accepted,
    /// It refuses the key.
    Auth(u16),
    /// It refuses the model.
    ModelError(u16),
    /// It is not clear.
    Ambiguous(Option<u16>),
    /// It does not have what was asked for.
    Unsupported(u16),
    /// There was none.
    NoResponse,
}

/// Why a profile is not used after it was tried, if it is not.
pub open spec fn verdict(outcome: ProbeOutcome, can_skip: bool) -> Option<Seq<char>> {
    match outcome {
        ProbeOutcome::Accepted => None,
        ProbeOutcome::Auth(code) => Some(
            "上游拒绝（"@ + number::decimal(code as nat) + "），key/权限有误，配置未保存。"@,
        ),
        ProbeOutcome::ModelError(code) => Some(
            "上游拒绝该模型（"@ + number::decimal(code as nat)
                + "），请换一个模型或核对 base_url，配置未保存。"@,
        ),
        ProbeOutcome::Ambiguous(code) => Some(
            (match code {
                Some(c) => "上游返回 "@ + number::decimal(c as nat),
                None => "上游响应不明确"@,
            }) + (if can_skip {
                "，未切换；确认无误后可选择跳过校验。"@
            } else {
                "，连接未保存，请稍后重试。"@
            }),
        ),
        ProbeOutcome::Unsupported(code) => Some(
            "上游不支持当前探测端点（"@ + number::decimal(code as nat) + (if can_skip {
                "），未切换；确认无误后可选择跳过校验。"@
            } else {
                "），连接未保存。"@
            }),
        ),
        ProbeOutcome::NoResponse => Some(
            if can_skip {
                "临时校验无响应，未切换；确认网络和配置无误后可选择跳过校验。"@
            } else {
                "临时校验无响应，连接未保存。"@
            },
        ),
    }
}

/// Whether a profile is used after it was tried. `can_skip` tells whether a user may use
/// it without.
pub fn validate_profile_with_scratch(outcome: ProbeOutcome, can_skip: bool) -> (r: Result<
    bool,
    String,
>)
    ensures
        match r {
            Ok(b) => b && verdict(outcome, can_skip) is None,
            Err(e) => verdict(outcome, can_skip) == Some(e@),
        },
{
    match outcome {
        ProbeOutcome::Accepted => Ok(true),
        ProbeOutcome::Auth(code) => {
            let shown = number_text(code as u64);
            Err(cat3("上游拒绝（", shown.as_str(), "），key/权限有误，配置未保存。"))
        },
        ProbeOutcome::ModelError(code) => {
            let shown = number_text(code as u64);
            Err(
                cat3(
                    "上游拒绝该模型（",
                    shown.as_str(),
                    "），请换一个模型或核对 base_url，配置未保存。",
                ),
            )
        },
        ProbeOutcome::Ambiguous(code) => {
            let head = match code {
                Some(c) => {
                    let shown = number_text(c as u64);
                    cat2("上游返回 ", shown.as_str())
                },
                None => "上游响应不明确".to_string(),
            };
            if can_skip {
                Err(cat2(head.as_str(), "，未切换；确认无误后可选择跳过校验。"))
            } else {
                Err(cat2(head.as_str(), "，连接未保存，请稍后重试。"))
            }
        },
        ProbeOutcome::Unsupported(code) => {
            let shown = number_text(code as u64);
            if can_skip {
                Err(
                    cat3(
                        "上游不支持当前探测端点（",
                        shown.as_str(),
                        "），未切换；确认无误后可选择跳过校验。",
                    ),
                )
            } else {
                Err(
                    cat3("上游不支持当前探测端点（", shown.as_str(), "），连接未保存。"),
                )
            }
        },
        ProbeOutcome::NoResponse => if can_skip {
            Err(
                "临时校验无响应，未切换；确认网络和配置无误后可选择跳过校验。".to_string(),
            )
        } else {
            Err("临时校验无响应，连接未保存。".to_string())
        },
    }
}

/// What is said where there is no key.
pub const KEY_MISSING: &'static str = "请先填写 API Key / Token。";

/// The contents of a configuration that may not be readable.
pub open spec fn read_config(cfg: Result<Config, String>) -> Result<ConfigView, Seq<char>> {
    match cfg {
        Ok(c) => Ok(c@),
        Err(e) => Err(e@),
    }
}

/// The key that a source is tried with: the one that was given, or else the one of a
/// profile.
pub open spec fn probe_key(
    profile_id: Option<Seq<char>>,
    candidate: Seq<char>,
    cfg: Result<ConfigView, Seq<char>>,
) -> Result<Seq<char>, Seq<char>> {
    if !trim::is_blank(candidate) {
        Ok(trim::trim(candidate))
    } else {
        match (profile_id, cfg) {
            (None, _) => Err(KEY_MISSING@),
            (Some(_), Err(e)) => Err(e),
            (Some(id), Ok(c)) => match config::find(c.profiles, id) {
                Some(p) => if p.api_key.len() > 0 {
                    Ok(p.api_key)
                } else {
                    Err(KEY_MISSING@)
                },
                None => Err(KEY_MISSING@),
            },
        }
    }
}

/// The key that a source is tried with: the one that was given, or else the one of a
/// profile.
pub fn resolve_probe_key(
    profile_id: Option<&str>,
    candidate: &str,
    cfg: &Result<Config, String>,
) -> (r: Result<String, String>)
    ensures
        chars::result_text(r) == probe_key(
            chars::opt_str(profile_id),
            candidate@,
            read_config(*cfg),
        ),
{
    if !blank(candidate) {
        return Ok(trimmed(candidate));
    }
    let id = match profile_id {
        Some(id) => id,
        None => {
            return Err(KEY_MISSING.to_string());
        },
    };
    match cfg {
        Err(e) => Err(e.as_str().to_string()),
        Ok(c) => match c.profile_by_id(id) {
            Some(p) => if p.api_key.as_str().is_empty() {
                Err(KEY_MISSING.to_string())
            } else {
                Ok(p.api_key.as_str().to_string())
            },
            None => Err(KEY_MISSING.to_string()),
        },
    }
}

/// A request for the models of a source.
#[derive(Debug)]
pub struct FetchModelsReq {
    pub template_id: String,
    pub base_url: String,
    pub key: String,
    pub profile_id: Option<String>,
}

/// How a source is tried.
#[derive(Debug)]
pub struct ScratchTarget {
    pub provider: String,
    pub key_env: &'static str,
    pub base_url: String,
    pub key: String,
    pub relay_thinking: String,
    pub python: String,
    pub script: String,
}

/// The contents of a target.
pub struct TargetView {
    pub provider: Seq<char>,
    pub key_env: Seq<char>,
    pub base_url: Seq<char>,
    pub key: Seq<char>,
    pub relay_thinking: Seq<char>,
    pub python: Seq<char>,
    pub script: Seq<char>,
}

impl View for ScratchTarget {
    type V = TargetView;

    open spec fn view(&self) -> TargetView {
        TargetView {
            provider: self.provider@,
            key_env: self.key_env@,
            base_url: self.base_url@,
            key: self.key@,
            relay_thinking: self.relay_thinking@,
            python: self.python@,
            script: self.script@,
        }
    }
}

/// The address at which the models of a source are asked for.
pub open spec fn models_address(t: TemplateView, base_url: Seq<char>) -> Seq<char> {
    if t.base_url_editable {
        trim::trim(base_url)
    } else {
        t.base_url
    }
}

/// How a source is asked for its models, or why it is not asked. `tpl` is the template
/// that the request names, which has the given adapter.
pub open spec fn models_target(
    tpl: Option<TemplateView>,
    req: FetchModelsReq,
    adapter: Seq<char>,
    cfg: Result<ConfigView, Seq<char>>,
    root: Option<Seq<char>>,
    python: Option<Seq<char>>,
) -> Result<TargetView, Seq<char>> {
    let tid = trim::trim(req.template_id@);
    match tpl {
        None => Err("未知模板："@ + tid),
        Some(t) => {
            let address = models_address(t, req.base_url@);
            let key = probe_key(chars::opt_text(req.profile_id), req.key@, cfg);
            if !remote_commands::is_http(address) {
                Err("请先填写 base_url（http:// 或 https:// 开头）。"@)
            } else if checks::wrong_form(tid, address) {
                Err(checks::WRONG_FORM@)
            } else {
                match (key, root, python) {
                    (Err(e), _, _) => Err(e),
                    (Ok(_), None, _) => Err("找不到代理脚本 proxy/csswitch_proxy.py。"@),
                    (Ok(_), Some(_), None) => Err("缺少依赖 python3（起临时代理需要）。"@),
                    (Ok(k), Some(dir), Some(program)) => Ok(
                        TargetView {
                            provider: adapter,
                            key_env: launch::key_variable(adapter),
                            base_url: address,
                            key: k,
                            relay_thinking: t.thinking_policy,
                            python: program,
                            script: paths::join(dir, PROXY_SCRIPT@),
                        },
                    ),
                }
            }
        },
    }
}

/// How a source is asked for its models, or why it is not asked.
pub fn models_request(
    tpl: Option<&Template>,
    req: &FetchModelsReq,
    adapter: &str,
    cfg: &Result<Config, String>,
    root: Option<&str>,
    python: Option<&str>,
) -> (r: Result<ScratchTarget, String>)
    ensures
        match r {
            Ok(t) => models_target(
                profiles::opt_template(tpl),
                *req,
                adapter@,
                read_config(*cfg),
                chars::opt_str(root),
                chars::opt_str(python),
            ) == Ok::<TargetView, Seq<char>>(t@),
            Err(e) => models_target(
                profiles::opt_template(tpl),
                *req,
                adapter@,
                read_config(*cfg),
                chars::opt_str(root),
                chars::opt_str(python),
            ) == Err::<TargetView, Seq<char>>(e@),
        },
{
    let tid = trimmed(req.template_id.as_str());
    let t = match tpl {
        Some(t) => t,
        None => {
            return Err(cat2("未知模板：", tid.as_str()));
        },
    };
    let address = if t.base_url_editable {
        trimmed(req.base_url.as_str())
    } else {
        t.base_url.as_str().to_string()
    };
    if !http_url(address.as_str()) {
        return Err("请先填写 base_url（http:// 或 https:// 开头）。".to_string());
    }
    if let Err(e) = reject_openai_custom_anthropic_base(tid.as_str(), address.as_str()) {
        return Err(e);
    }
    let profile_id = match &req.profile_id {
        Some(s) => Some(s.as_str()),
        None => None,
    };
    let key = match resolve_probe_key(profile_id, req.key.as_str(), cfg) {
        Ok(k) => k,
        Err(e) => {
            return Err(e);
        },
    };
    let dir = match root {
        Some(d) => d,
        None => {
            return Err("找不到代理脚本 proxy/csswitch_proxy.py。".to_string());
        },
    };
    let program = match python {
        Some(p) => p,
        None => {
            return Err("缺少依赖 python3（起临时代理需要）。".to_string());
        },
    };
    Ok(
        ScratchTarget {
            provider: adapter.to_string(),
            key_env: key_env_for_adapter(adapter),
            base_url: address,
            key,
            relay_thinking: t.thinking_policy.as_str().to_string(),
            python: program.to_string(),
            script: join_path(dir, PROXY_SCRIPT),
        },
    )
}

/// The models among the items of a list: those that have a name.
pub open spec fn models_in(v: Seq<Tree>) -> Seq<ModelView>
    decreases v.len(),
{
    if v.len() == 0 {
        Seq::empty()
    } else {
        let before = models_in(v.drop_last());
        match json::text_field(v.last(), "id"@) {
            Some(id) => before.push(
                ModelView { id, supports_tools: json::bool_field(v.last(), "supports_tools"@) },
            ),
            None => before,
        }
    }
}

/// The models that a source listed.
pub open spec fn listed_models(t: Tree) -> Seq<ModelView> {
    match json::list_field(t, "data"@) {
        Some(v) => models_in(v),
        None => Seq::empty(),
    }
}

/// The models that a source listed.
pub fn live_models(j: &Json) -> (r: Vec<ModelEntry>)
    ensures
        models::model_views(r@) == listed_models(j@),
{
    let mut out: Vec<ModelEntry> = Vec::new();
    assert(models::model_views(out@) =~= Seq::empty());
    match j.get("data") {
        Some(Json::List(v)) => {
            let ghost items = json::list_field(j@, "data"@)->Some_0;
            let n = v.len();
            let mut i: usize = 0;
            assert(items.take(0) =~= Seq::<Tree>::empty());
            while i < n
                invariant
                    n == v@.len(),
                    i <= n,
                    items.len() == n,
                    forall|k: int| 0 <= k < n ==> #[trigger] items[k] == v@[k]@,
                    models::model_views(out@) == models_in(items.take(i as int)),
                decreases n - i,
            {
                proof {
                    assert(items.take(i + 1).drop_last() =~= items.take(i as int));
                    assert(items.take(i + 1).last() == v@[i as int]@);
                }
                if let Some(id) = v[i].get_text("id") {
                    let ghost before = models::model_views(out@);
                    let entry = ModelEntry { id, supports_tools: v[i].get_bool("supports_tools") };
                    let ghost added = entry@;
                    out.push(entry);
                    assert(models::model_views(out@) =~= before.push(added));
                }
                i = i + 1;
            }
            assert(items.take(n as int) =~= items);
            out
        },
        _ => out,
    }
}

/// What is reported of the models of a source.
pub open spec fn models_report(
    offered: Seq<ModelView>,
    source: Seq<char>,
    error_kind: Option<Seq<char>>,
    status: Option<u16>,
) -> Tree {
    Tree::Object(
        seq![
            ("models"@, Tree::List(models::model_trees(offered))),
            ("source"@, Tree::Text(source)),
            ("error_kind"@, json::opt_text_tree(error_kind)),
            ("upstream_status"@, opt_number_tree(status)),
        ],
    )
}

/// What is reported of a number that may be missing.
pub open spec fn opt_number_tree(n: Option<u16>) -> Tree {
    match n {
        Some(n) => Tree::Unsigned(n as u64),
        None => Tree::Null,
    }
}

/// What is reported of the models of a source.
fn models_json(
    families: &Vec<String>,
    live: &Vec<ModelEntry>,
    builtin: &Vec<String>,
    source: &str,
    error_kind: Option<&str>,
    status: Option<u16>,
) -> (r: Json)
    ensures
        r@ == models_report(
            models::offered(
                chars::texts(families@),
                models::model_views(live@),
                chars::texts(builtin@),
            ),
            source@,
            chars::opt_str(error_kind),
            status,
        ),
{
    let items = merge_and_sort_models(families, live, builtin);
    let list = json_list(items);
    let ghost offered = models::offered(
                chars::texts(families@),
                models::model_views(live@),
                chars::texts(builtin@),
            );
    let kind = Json::opt_text(error_kind);
    let code = match status {
        Some(n) => Json::number(n as u64),
        None => Json::Null,
    };
    let mut o = JsonObject::new();
    o.put("models", list);
    o.put("source", Json::text(source));
    o.put("error_kind", kind);
    o.put("upstream_status", code);
    assert(o@ =~= seq![
        ("models"@, Tree::List(models::model_trees(offered))),
        ("source"@, Tree::Text(source@)),
        ("error_kind"@, json::opt_text_tree(chars::opt_str(error_kind))),
        ("upstream_status"@, opt_number_tree(status)),
    ]);
    o.done()
}

/// What is replied where a source answered with a list, which parses to `parsed`: the
/// models known of the source stand in where it listed none.
pub open spec fn listed_reply(
    families: Seq<Seq<char>>,
    parsed: Result<Tree, Seq<char>>,
    builtin: Seq<Seq<char>>,
) -> Result<Tree, Seq<char>> {
    match parsed {
        Err(e) => Err("解析模型列表失败："@ + e),
        Ok(t) => Ok(
            models_report(
                models::offered(families, listed_models(t), builtin),
                if listed_models(t).len() == 0 {
                    "builtin"@
                } else {
                    "live"@
                },
                None,
                Some(200),
            ),
        ),
    }
}

/// The contents of what a text parses to.
pub open spec fn parsed_tree(parsed: Result<Json, String>) -> Result<Tree, Seq<char>> {
    match parsed {
        Ok(j) => Ok(j@),
        Err(e) => Err(e@),
    }
}

/// What is replied where a source answered with a list, which parses to `parsed`.
pub fn models_from_list(
    families: &Vec<String>,
    parsed: Result<Json, String>,
    builtin: &Vec<String>,
) -> (r: Result<Json, String>)
    ensures
        parsed_tree(r) == listed_reply(
            chars::texts(families@),
            parsed_tree(parsed),
            chars::texts(builtin@),
        ),
{
    match parsed {
        Err(e) => Err(cat2("解析模型列表失败：", e.as_str())),
        Ok(j) => {
            let live = live_models(&j);
            assert(models::model_views(live@).len() == live@.len());
            if live.len() == 0 {
                Ok(models_json(families, &live, builtin, "builtin", None, Some(200)))
            } else {
                Ok(models_json(families, &live, builtin, "live", None, Some(200)))
            }
        },
    }
}

/// What is replied to a request for models. `source` tells where the models are from
/// that stand in where the source gave none.
pub open spec fn models_answer(
    families: Seq<Seq<char>>,
    outcome: ProbeOutcome,
    body: Seq<char>,
    builtin: Seq<Seq<char>>,
    source: Seq<char>,
    status: Option<u16>,
) -> Result<Tree, Seq<char>> {
    match outcome {
        ProbeOutcome::Accepted => listed_reply(families, json::json_text(body), builtin),
        ProbeOutcome::Auth(code) => Err(
            "上游拒绝（"@ + number::decimal(code as nat) + "），key 或权限可能有误。"@,
        ),
        _ => Ok(
            models_report(
                models::offered(families, Seq::empty(), builtin),
                source,
                if source == "network"@ {
                    Some("network"@)
                } else {
                    None
                },
                status,
            ),
        ),
    }
}

/// What is replied to a request for models. `source` tells where the models are from
/// that stand in where the source gave none.
pub fn fetch_models(
    families: &Vec<String>,
    outcome: ProbeOutcome,
    body: &str,
    builtin: &Vec<String>,
    source: &str,
    status: Option<u16>,
) -> (r: Result<Json, String>)
    ensures
        parsed_tree(r) == models_answer(
            chars::texts(families@),
            outcome,
            body@,
            chars::texts(builtin@),
            source@,
            status,
        ),
{
    match outcome {
        ProbeOutcome::Accepted => {
            let parsed = parse_json(body);
            models_from_list(families, parsed, builtin)
        },
        ProbeOutcome::Auth(code) => {
            let shown = number_text(code as u64);
            Err(cat3("上游拒绝（", shown.as_str(), "），key 或权限可能有误。"))
        },
        _ => {
            let none: Vec<ModelEntry> = Vec::new();
            assert(models::model_views(none@) =~= Seq::empty());
            let kind = if same(source, "network") {
                Some("network")
            } else {
                None
            };
            Ok(models_json(families, &none, builtin, source, kind, status))
        },
    }
}

/// What stands before the model in the request with which a key is tried.
pub const PING_HEAD: &'static str = r#"{"model":""#;

/// What stands behind the model in the request with which a key is tried.
pub const PING_TAIL: &'static str = r#"","max_tokens":1,"messages":[{"role":"user","content":"ping"}]}"#;

/// The request with which a key is tried.
pub open spec fn ping_text(model: Seq<char>) -> Seq<char> {
    PING_HEAD@ + model + PING_TAIL@
}

/// A key is tried with the model that is given, for an answer of one token.
pub proof fn lemma_ping(model: Seq<char>)
    ensures
        search::begins(ping_text(model), "{\"model\":\""@ + model + "\",\"max_tokens\":1,"@),
{
    reveal_strlit("{\"model\":\"");
    reveal_strlit(r#"{"model":""#);
    reveal_strlit("\",\"max_tokens\":1,");
    reveal_strlit(
        r#"","max_tokens":1,"messages":[{"role":"user","content":"ping"}]}"#,
    );
    let head = "{\"model\":\""@ + model + "\",\"max_tokens\":1,"@;
    assert("{\"model\":\""@ =~= PING_HEAD@);
    assert(ping_text(model).take(head.len() as int) =~= head);
}

/// A list that can be read is answered by the models in it and those built in, and it is
/// told whether it had any; one that cannot be read is an error.
pub proof fn lemma_listed_reply(
    families: Seq<Seq<char>>,
    t: Tree,
    error: Seq<char>,
    builtin: Seq<Seq<char>>,
)
    ensures
        listed_models(t).len() > 0 ==> listed_reply(families, Ok(t), builtin) == Ok::<
            Tree,
            Seq<char>,
        >(
            models_report(
                models::offered(families, listed_models(t), builtin),
                "live"@,
                None,
                Some(200),
            ),
        ),
        listed_models(t).len() == 0 ==> listed_reply(families, Ok(t), builtin) == Ok::<
            Tree,
            Seq<char>,
        >(
            models_report(
                models::offered(families, Seq::empty(), builtin),
                "builtin"@,
                None,
                Some(200),
            ),
        ),
        listed_reply(families, Err(error), builtin) matches Err(e) && search::ends(e, error),
{
    search::lemma_ends_joined("解析模型列表失败："@, error);
    if listed_models(t).len() == 0 {
        assert(listed_models(t) =~= Seq::empty());
    }
}

/// The request with which a key is tried: the shortest answer to the shortest question.
pub fn ping(model: &str) -> (r: String)
    requires
        crate::product::is_plain_name(model@),
    ensures
        r@ == ping_text(model@),
{
    cat3(PING_HEAD, model, PING_TAIL)
}

/// What is said of a key after it was tried, and whether it is accepted.
pub open spec fn key_verdict(code: u16) -> (bool, Seq<char>) {
    if code == 200 {
        (true, "key 有效，上游已接受。"@)
    } else if code == 401 || code == 403 {
        (
            false,
            "上游拒绝（"@ + number::decimal(code as nat) + "），key 可能无效或无权限。"@,
        )
    } else {
        (
            false,
            "上游返回 "@ + number::decimal(code as nat)
                + "，可能是 key 无效、额度不足或上游异常。"@,
        )
    }
}

/// What is reported of a key.
pub open spec fn key_report(code: u16) -> Tree {
    Tree::Object(
        seq![
            ("ok"@, Tree::Bool(key_verdict(code).0)),
            ("hint"@, Tree::Text(key_verdict(code).1)),
        ],
    )
}

/// What is reported of a key, by the status of the answer to a request with it.
pub fn verify_key(status: Option<u16>) -> (r: Result<Json, String>)
    ensures
        parsed_tree(r) == match status {
            Some(code) => Ok(key_report(code)),
            None => Err("验证请求无响应（多为网络或上游不通）。"@),
        },
{
    match status {
        None => Err("验证请求无响应（多为网络或上游不通）。".to_string()),
        Some(code) => {
            let shown = number_text(code as u64);
            let hint = if code == 200 {
                "key 有效，上游已接受。".to_string()
            } else if code == 401 || code == 403 {
                cat3("上游拒绝（", shown.as_str(), "），key 可能无效或无权限。")
            } else {
                cat3(
                    "上游返回 ",
                    shown.as_str(),
                    "，可能是 key 无效、额度不足或上游异常。",
                )
            };
            let mut o = JsonObject::new();
            o.put("ok", Json::Bool(code == 200));
            o.put("hint", Json::text(hint.as_str()));
            assert(o@ =~= seq![
                ("ok"@, Tree::Bool(key_verdict(code).0)),
                ("hint"@, Tree::Text(key_verdict(code).1)),
            ]);
            Ok(o.done())
        },
    }
}

/// A profile is used after it was tried exactly if its source accepted; else what is said
/// tells the status of the answer, where there was one.
pub proof fn lemma_verdict(outcome: ProbeOutcome, can_skip: bool)
    ensures
        verdict(outcome, can_skip) is None <==> outcome == ProbeOutcome::Accepted,
        outcome matches ProbeOutcome::Auth(code) ==> search::contains(
            verdict(outcome, can_skip)->0,
            number::decimal(code as nat),
        ),
        outcome matches ProbeOutcome::ModelError(code) ==> search::contains(
            verdict(outcome, can_skip)->0,
            number::decimal(code as nat),
        ),
        outcome matches ProbeOutcome::Unsupported(code) ==> search::contains(
            verdict(outcome, can_skip)->0,
            number::decimal(code as nat),
        ),
        outcome matches ProbeOutcome::Ambiguous(Some(code)) ==> search::contains(
            verdict(outcome, can_skip)->0,
            number::decimal(code as nat),
        ),
{
    if let ProbeOutcome::Auth(code) = outcome {
        lemma_told(
            "上游拒绝（"@,
            number::decimal(code as nat),
            "），key/权限有误，配置未保存。"@,
        );
    }
    if let ProbeOutcome::ModelError(code) = outcome {
        lemma_told(
            "上游拒绝该模型（"@,
            number::decimal(code as nat),
            "），请换一个模型或核对 base_url，配置未保存。"@,
        );
    }
    if let ProbeOutcome::Unsupported(code) = outcome {
        lemma_told(
            "上游不支持当前探测端点（"@,
            number::decimal(code as nat),
            if can_skip {
                "），未切换；确认无误后可选择跳过校验。"@
            } else {
                "），连接未保存。"@
            },
        );
    }
    if let ProbeOutcome::Ambiguous(Some(code)) = outcome {
        lemma_told(
            "上游返回 "@,
            number::decimal(code as nat),
            if can_skip {
                "，未切换；确认无误后可选择跳过校验。"@
            } else {
                "，连接未保存，请稍后重试。"@
            },
        );
    }
}

/// What stands between two texts is told.
proof fn lemma_told(before: Seq<char>, text: Seq<char>, after: Seq<char>)
    ensures
        search::contains(before + text + after, text),
{
    let s = before + text + after;
    assert(s.subrange(before.len() as int, (before.len() + text.len()) as int) =~= text);
    assert(search::occurs_at(s, text, before.len() as int));
}

/// A source is tried with the key that was given, without white space around it; where none
/// was given, with the key of the profile, if that has one; and else not at all.
pub proof fn lemma_probe_key(
    id: Seq<char>,
    candidate: Seq<char>,
    cfg: ConfigView,
)
    ensures
        !trim::is_blank(candidate) ==> probe_key(Some(id), candidate, Ok(cfg)) == Ok::<
            Seq<char>,
            Seq<char>,
        >(trim::trim(candidate)) && probe_key(None, candidate, Ok(cfg)) == Ok::<
            Seq<char>,
            Seq<char>,
        >(trim::trim(candidate)),
        trim::is_blank(candidate) ==> probe_key(None, candidate, Ok(cfg)) is Err,
        trim::is_blank(candidate) ==> match config::find(cfg.profiles, id) {
            Some(p) => if p.api_key.len() > 0 {
                probe_key(Some(id), candidate, Ok(cfg)) == Ok::<Seq<char>, Seq<char>>(p.api_key)
            } else {
                probe_key(Some(id), candidate, Ok(cfg)) is Err
            },
            None => probe_key(Some(id), candidate, Ok(cfg)) is Err,
        },
{
}

/// A source is asked for its models under the address that was given, where the template
/// lets one be given, and else under its own; with the key that it is tried with, through
/// the adapter of the template.
pub proof fn lemma_models_target(
    tpl: Option<TemplateView>,
    req: FetchModelsReq,
    adapter: Seq<char>,
    cfg: Result<ConfigView, Seq<char>>,
    root: Option<Seq<char>>,
    python: Option<Seq<char>>,
)
    ensures
        models_target(tpl, req, adapter, cfg, root, python) matches Ok(target) ==> {
            &&& tpl matches Some(t) && target.base_url == (if t.base_url_editable {
                trim::trim(req.base_url@)
            } else {
                t.base_url
            }) && target.relay_thinking == t.thinking_policy
            &&& search::begins(target.base_url, "http://"@) || search::begins(
                target.base_url,
                "https://"@,
            )
            &&& probe_key(chars::opt_text(req.profile_id), req.key@, cfg) == Ok::<
                Seq<char>,
                Seq<char>,
            >(target.key)
            &&& target.provider == adapter && target.key_env == launch::key_variable(adapter)
            &&& python == Some(target.python) && root is Some && target.script == paths::join(
                root->0,
                "proxy/csswitch_proxy.py"@,
            )
        },
{
}

/// The models of a list are those that have a name, each as it is listed.
pub proof fn lemma_listed_models(v: Seq<Tree>, i: int, id: Seq<char>)
    requires
        0 <= i < v.len(),
        json::text_field(v[i], "id"@) == Some(id),
    ensures
        models_in(v).contains(
            ModelView { id, supports_tools: json::bool_field(v[i], "supports_tools"@) },
        ),
    decreases v.len(),
{
    let m = ModelView { id, supports_tools: json::bool_field(v[i], "supports_tools"@) };
    let before = models_in(v.drop_last());
    let all = models_in(v);
    if i < v.len() - 1 {
        assert(v.drop_last()[i] == v[i]);
        lemma_listed_models(v.drop_last(), i, id);
        let k = choose|k: int| 0 <= k < before.len() && before[k] == m;
        assert(all[k] == m);
    } else {
        assert(all[before.len() as int] == m);
    }
}

/// What is reported of the models of a source: the models, where they are from, and the
/// status of the answer.
pub proof fn lemma_models_report(
    offered: Seq<ModelView>,
    source: Seq<char>,
    error_kind: Option<Seq<char>>,
    status: Option<u16>,
)
    ensures
        ({
            let report = models_report(offered, source, error_kind, status);
            &&& json::list_field(report, "models"@) == Some(models::model_trees(offered))
            &&& json::text_field(report, "source"@) == Some(source)
            &&& json::text_field(report, "error_kind"@) == error_kind
            &&& status matches Some(n) ==> json::number_field(report, "upstream_status"@) == Some(
                n as u64,
            )
            &&& status is None ==> json::field(report, "upstream_status"@) == Some(Tree::Null)
        }),
{
    let m = models_report(offered, source, error_kind, status)->Object_0;
    reveal_strlit("models");
    reveal_strlit("source");
    reveal_strlit("error_kind");
    reveal_strlit("upstream_status");
    assert("models"@[0] != "source"@[0]);
    assert("models"@.len() != "error_kind"@.len());
    assert("models"@.len() != "upstream_status"@.len());
    assert("source"@.len() != "error_kind"@.len());
    assert("source"@.len() != "upstream_status"@.len());
    assert("error_kind"@.len() != "upstream_status"@.len());
    json::lemma_member(m, "models"@, 0);
    json::lemma_member(m, "source"@, 1);
    json::lemma_member(m, "error_kind"@, 2);
    json::lemma_member(m, "upstream_status"@, 3);
}

/// A request for models that the source refuses for its key fails; one that it accepts
/// brings the models that it listed, and is told to be live where there are any; any other
/// brings the models that are known of the source.
pub proof fn lemma_models_answer(
    families: Seq<Seq<char>>,
    body: Seq<char>,
    builtin: Seq<Seq<char>>,
    source: Seq<char>,
    status: Option<u16>,
    code: u16,
)
    ensures
        models_answer(families, ProbeOutcome::Auth(code), body, builtin, source, status) is Err,
        json::json_text(body) matches Ok(t) ==> {
            let reply = models_answer(
                families,
                ProbeOutcome::Accepted,
                body,
                builtin,
                source,
                status,
            );
            &&& reply is Ok
            &&& json::list_field(reply->Ok_0, "models"@) == Some(
                models::model_trees(models::offered(families, listed_models(t), builtin)),
            )
            &&& (json::text_field(reply->Ok_0, "source"@) == Some("live"@)) == (listed_models(
                t,
            ).len() > 0)
            &&& json::number_field(reply->Ok_0, "upstream_status"@) == Some(200u64)
        },
        json::json_text(body) is Err ==> models_answer(
            families,
            ProbeOutcome::Accepted,
            body,
            builtin,
            source,
            status,
        ) is Err,
        models_answer(families, ProbeOutcome::NoResponse, body, builtin, source, status) matches Ok(
            t,
        ) && json::list_field(t, "models"@) == Some(
            models::model_trees(models::offered(families, Seq::empty(), builtin)),
        ) && json::text_field(t, "source"@) == Some(source),
{
    reveal_strlit("live");
    reveal_strlit("builtin");
    assert("live"@.len() != "builtin"@.len());
    if let Ok(t) = json::json_text(body) {
        lemma_models_report(
            models::offered(families, listed_models(t), builtin),
            if listed_models(t).len() == 0 {
                "builtin"@
            } else {
                "live"@
            },
            None,
            Some(200),
        );
    }
    lemma_models_report(
        models::offered(families, Seq::empty(), builtin),
        source,
        if source == "network"@ {
            Some("network"@)
        } else {
            None
        },
        status,
    );
}

/// A key is accepted exactly if the answer to a request with it has the status 200.
pub proof fn lemma_key_report(code: u16)
    ensures
        json::bool_field(key_report(code), "ok"@) == Some(code == 200),
        code != 200 ==> search::contains(
            json::text_field(key_report(code), "hint"@)->0,
            number::decimal(code as nat),
        ),
{
    let m = key_report(code)->Object_0;
    reveal_strlit("ok");
    reveal_strlit("hint");
    assert("ok"@.len() != "hint"@.len());
    json::lemma_member(m, "ok"@, 0);
    json::lemma_member(m, "hint"@, 1);
    if code == 401 || code == 403 {
        lemma_told("上游拒绝（"@, number::decimal(code as nat), "），key 可能无效或无权限。"@);
    } else {
        lemma_told(
            "上游返回 "@,
            number::decimal(code as nat),
            "，可能是 key 无效、额度不足或上游异常。"@,
        );
    }
}

} // verus!
