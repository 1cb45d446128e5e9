//! The commands of a helper that report or change what is stored: its status, its
//! configuration, its logs, and a check of what it needs.

use vstd::prelude::*;

use crate::cli::types::{self, CliEnvelope, EnvelopeView};
use crate::config::{self, Config, ConfigView, ProfileView};
use crate::json::{self, json_list, json_texts, parse_json, Json, JsonObject, Tree};
use crate::launch::{self, is_native_adapter, key_env_for_adapter, LaunchView, ProxyLaunch};
use crate::paths::{self, join_path, join_path2};
use crate::product::{self, data_dir_name};
use crate::remote_commands::{self, http_url};
use crate::text::bytes::{self, byte_count, next_cut, tail_bytes};
use crate::text::chars::{self, cat2, cat3, cat4, chars_of, push_text, same, string_from};
use crate::text::encode::{self, lossy_text};
use crate::text::number::{self, exit_code_text, number_text, read_port};
use crate::text::search::{self, cut_around};
use crate::text::split::{self, joined_tail, split_at_each, split_lines, split_words};
use crate::text::trim::{self, blank, trimmed};

verus! {

/// The port of the real Science, which is never touched.
pub const REAL_SCIENCE_PORT: u16 = 8765;

/// The port of the proxy where the configuration names none.
pub const DEFAULT_PROXY_PORT: u16 = 18991;

/// The port of the sandbox where the configuration names none.
pub const DEFAULT_SANDBOX_PORT: u16 = 8990;

/// What is wrong with a port; `None`, if nothing is.
pub open spec fn port_fault(port: u16) -> Option<EnvelopeView> {
    if port == 0 {
        Some(types::failure("invalid_port"@, "端口不能为 0。"@))
    } else if port == REAL_SCIENCE_PORT {
        Some(
            types::failure(
                "reserved_port"@,
                "端口 8765 是真实 Science 实例保留端口，不能用。"@,
            ),
        )
    } else {
        None
    }
}

/// Whether a port may be used.
pub fn validate_managed_port(port: u16) -> (r: Result<(), CliEnvelope>)
    ensures
        match r {
            Ok(()) => port_fault(port) is None,
            Err(e) => port_fault(port) == Some(e@),
        },
{
    if port == 0 {
        return Err(CliEnvelope::err("invalid_port", "端口不能为 0。"));
    }
    if port == REAL_SCIENCE_PORT {
        return Err(
            CliEnvelope::err("reserved_port", "端口 8765 是真实 Science 实例保留端口，不能用。"),
        );
    }
    Ok(())
}

/// The directory of this program, below the home directory.
pub fn config_dir(home: Option<&str>) -> (r: String)
    ensures
        r@ == paths::join(
            match home {
                Some(h) => h@,
                None => "."@,
            },
            ".csswitch"@,
        ),
{
    match home {
        Some(h) => join_path(h, ".csswitch"),
        None => join_path(".", ".csswitch"),
    }
}

/// The file with the configuration.
pub fn config_path(config_dir: &str) -> (r: String)
    ensures
        r@ == paths::join(config_dir@, "config.json"@),
{
    join_path(config_dir, "config.json")
}

/// The script of the proxy that this program keeps.
pub fn managed_proxy_path(config_dir: &str) -> (r: String)
    ensures
        r@ == paths::join2(config_dir@, "proxy"@, "csswitch_proxy.py"@),
{
    join_path2(config_dir, "proxy", "csswitch_proxy.py")
}

/// A file beside that script.
pub fn managed_proxy_file(config_dir: &str, name: &str) -> (r: String)
    ensures
        r@ == paths::join2(config_dir@, "proxy"@, name@),
{
    join_path2(config_dir, "proxy", name)
}

/// The directory of the logs.
pub fn logs_dir(config_dir: &str) -> (r: String)
    ensures
        r@ == paths::join(config_dir@, "logs"@),
{
    join_path(config_dir, "logs")
}

/// The file with the secret of the proxy that was started last.
pub fn secret_file(config_dir: &str) -> (r: String)
    ensures
        r@ == paths::join(config_dir@, "proxy.secret"@),
{
    join_path(config_dir, "proxy.secret")
}

/// The home directory of the sandbox, and the directory of its program's data.
pub fn sandbox_paths(config_dir: &str, program: &str) -> (r: (String, String))
    ensures
        r.0@ == paths::join2(config_dir@, "sandbox"@, "home"@),
        r.1@ == paths::join(r.0@, product::data_name(program@)),
{
    let home = join_path2(config_dir, "sandbox", "home");
    let name = data_dir_name(program);
    let data = join_path(home.as_str(), name.as_str());
    (home, data)
}

/// What a file held when it was read.
#[derive(Debug)]
pub enum FileRead {
    Found(Vec<u8>),
    Missing,
    Failed { error: String },
}

/// Whether a file that this program keeps must be written, to hold `desired`.
pub open spec fn must_write(path: Seq<char>, read: FileRead, desired: Seq<u8>) -> Result<
    bool,
    Seq<char>,
> {
    match read {
        FileRead::Found(existing) => Ok(existing@ != desired),
        FileRead::Missing => Ok(true),
        FileRead::Failed { error } => Err("读取 "@ + path + " 失败："@ + error@),
    }
}

/// A file that holds what it should is left alone; one that holds anything else, or is not
/// there, is written. One that cannot be read is told with its path.
pub proof fn lemma_must_write(path: Seq<char>, existing: Vec<u8>, desired: Seq<u8>, error: String)
    ensures
        existing@ == desired ==> must_write(path, FileRead::Found(existing), desired) == Ok::<
            bool,
            Seq<char>,
        >(false),
        existing@ != desired ==> must_write(path, FileRead::Found(existing), desired) == Ok::<
            bool,
            Seq<char>,
        >(true),
        must_write(path, FileRead::Missing, desired) == Ok::<bool, Seq<char>>(true),
        must_write(path, FileRead::Failed { error }, desired) matches Err(e) && search::contains(
            e,
            path,
        ) && search::ends(e, error@),
{
    let e = "读取 "@ + path + " 失败："@ + error@;
    let k = "读取 "@.len() as int;
    assert(e.subrange(k, k + path.len()) =~= path);
    assert(search::occurs_at(e, path, k));
    search::lemma_ends_joined("读取 "@ + path + " 失败："@, error@);
}

/// Whether a file that this program keeps must be written, to hold `desired`.
pub fn needs_managed_write(path: &str, read: &FileRead, desired: &[u8]) -> (r: Result<bool, String>)
    ensures
        match r {
            Ok(b) => must_write(path@, *read, desired@) == Ok::<bool, Seq<char>>(b),
            Err(e) => must_write(path@, *read, desired@) == Err::<bool, Seq<char>>(e@),
        },
{
    match read {
        FileRead::Found(existing) => {
            if existing.len() != desired.len() {
                return Ok(true);
            }
            let n = existing.len();
            let mut i: usize = 0;
            while i < n
                invariant
                    i <= n,
                    n == existing@.len(),
                    n == desired@.len(),
                    *read == FileRead::Found(*existing),
                    forall|j: int| 0 <= j < i ==> existing@[j] == desired@[j],
                decreases n - i,
            {
                if existing[i] != desired[i] {
                    assert(existing@[i as int] != desired@[i as int]);
                    return Ok(true);
                }
                i = i + 1;
            }
            assert(existing@ =~= desired@);
            Ok(false)
        },
        FileRead::Missing => Ok(true),
        FileRead::Failed { error } => Err(cat4("读取 ", path, " 失败：", error.as_str())),
    }
}

/// The script of the proxy in the directory that the user chose.
pub fn chosen_proxy_script(dir: &str) -> (r: String)
    ensures
        r@ == paths::join(dir@, "csswitch_proxy.py"@),
{
    join_path(dir, "csswitch_proxy.py")
}

/// The script of the proxy: the one that the user chose, if it is a file, and else the
/// one that this program keeps.
pub open spec fn script_in_use(
    chosen: Option<Seq<char>>,
    chosen_is_file: bool,
    managed: Result<Seq<char>, Seq<char>>,
) -> Result<Seq<char>, Seq<char>> {
    match chosen {
        Some(path) if chosen_is_file => Ok(path),
        _ => managed,
    }
}

/// The script that the user chose is used, if it is there, and else the one that this
/// program keeps.
pub proof fn lemma_script_in_use(path: Seq<char>, managed: Result<Seq<char>, Seq<char>>)
    ensures
        script_in_use(Some(path), true, managed) == Ok::<Seq<char>, Seq<char>>(path),
        script_in_use(Some(path), false, managed) == managed,
        script_in_use(None, true, managed) == managed,
        script_in_use(None, false, managed) == managed,
{
}

/// The script of the proxy: the one that the user chose, if it is a file, and else the
/// one that this program keeps.
pub fn proxy_script_path(
    chosen: Option<String>,
    chosen_is_file: bool,
    managed: Result<String, String>,
) -> (r: Result<String, String>)
    ensures
        chars::result_text(r) == script_in_use(
            chars::opt_text(chosen),
            chosen_is_file,
            chars::result_text(managed),
        ),
{
    match chosen {
        Some(path) => if chosen_is_file {
            Ok(path)
        } else {
            managed
        },
        None => managed,
    }
}

/// What the proxy is started with for the profile in use, whose template has the given
/// adapter: nothing where there is no profile or no key.
pub open spec fn configured_launch(
    cfg: ConfigView,
    adapter: Seq<char>,
    thinking_policy: Seq<char>,
    provider: Seq<char>,
) -> Result<Option<LaunchView>, Seq<char>> {
    match config::find(cfg.profiles, cfg.active_id) {
        None => Ok(None),
        Some(p) => if provider != adapter && provider != p.template_id {
            Err("当前生效 Profile 是 "@ + p.template_id + "，不能作为 "@ + provider + " 启动。"@)
        } else if trim::is_blank(p.api_key) {
            Ok(None)
        } else if !launch::is_native(adapter) && (trim::is_blank(p.base_url)
            || !remote_commands::is_http(p.base_url)) {
            Err("当前配置需要 http(s):// 开头的 base_url。"@)
        } else if !launch::is_native(adapter) && trim::is_blank(p.model) {
            Err("当前配置需要选择或填写模型。"@)
        } else {
            Ok(
                Some(
                    LaunchView {
                        adapter,
                        base_url: p.base_url,
                        model: p.model,
                        key: trim::trim(p.api_key),
                        key_env: launch::key_variable(adapter),
                        thinking_policy,
                    },
                ),
            )
        },
    }
}

/// What the proxy is started with for the profile in use.
pub fn proxy_launch_from_config(
    cfg: &Config,
    adapter: &str,
    thinking_policy: &str,
    provider: &str,
) -> (r: Result<Option<ProxyLaunch>, String>)
    ensures
        match r {
            Ok(Some(l)) => configured_launch(cfg@, adapter@, thinking_policy@, provider@) == Ok::<
                Option<LaunchView>,
                Seq<char>,
            >(Some(l@)),
            Ok(None) => configured_launch(cfg@, adapter@, thinking_policy@, provider@) == Ok::<
                Option<LaunchView>,
                Seq<char>,
            >(None),
            Err(e) => configured_launch(cfg@, adapter@, thinking_policy@, provider@) == Err::<
                Option<LaunchView>,
                Seq<char>,
            >(e@),
        },
{
    let p = match cfg.active_profile() {
        Some(p) => p,
        None => return Ok(None),
    };
    if !same(provider, adapter) && !same(provider, p.template_id.as_str()) {
        let head = cat2("当前生效 Profile 是 ", p.template_id.as_str());
        return Err(cat4(head.as_str(), "，不能作为 ", provider, " 启动。"));
    }
    if blank(p.api_key.as_str()) {
        return Ok(None);
    }
    if !is_native_adapter(adapter) {
        if blank(p.base_url.as_str()) || !http_url(p.base_url.as_str()) {
            return Err("当前配置需要 http(s):// 开头的 base_url。".to_string());
        }
        if blank(p.model.as_str()) {
            return Err("当前配置需要选择或填写模型。".to_string());
        }
    }
    Ok(
        Some(
            ProxyLaunch {
                adapter: adapter.to_string(),
                base_url: p.base_url.clone(),
                model: p.model.clone(),
                key: trimmed(p.api_key.as_str()),
                key_env: key_env_for_adapter(adapter),
                thinking_policy: thinking_policy.to_string(),
            },
        ),
    )
}

/// The request that asks a proxy whether it is well.
pub open spec fn health_question(secret: Seq<char>) -> Seq<char> {
    "GET /"@ + secret + "/health HTTP/1.0\r\nHost: 127.0.0.1\r\nConnection: close\r\n\r\n"@
}

/// The request that asks a proxy whether it is well.
pub fn health_request(secret: &str) -> (r: String)
    ensures
        r@ == health_question(secret@),
{
    cat3("GET /", secret, "/health HTTP/1.0\r\nHost: 127.0.0.1\r\nConnection: close\r\n\r\n")
}

/// The second word of the first line of an HTTP answer.
pub open spec fn status_word(head: Seq<char>) -> Option<Seq<char>> {
    let lines = split::lines(head);
    if lines.len() > 0 && split::words(lines[0]).len() > 1 {
        Some(split::words(lines[0])[1])
    } else {
        None
    }
}

/// The second word of the first line of an HTTP answer.
pub fn http_status_word(head: &str) -> (r: Option<String>)
    ensures
        chars::opt_text(r) == status_word(head@),
{
    let lines = split_lines(head);
    if lines.len() == 0 {
        return None;
    }
    let words = split_words(lines[0].as_str());
    if words.len() > 1 {
        Some(words[1].clone())
    } else {
        None
    }
}

/// Whether the beginning of an answer says that a proxy is well.
pub open spec fn says_well(head: Seq<char>) -> bool {
    status_word(head) == Some("200"@)
}

/// Whether the first bytes of an answer say that a proxy is well.
pub fn health_answer_ok(head: &[u8]) -> (r: bool)
    ensures
        r == says_well(encode::decoded(head@)),
{
    let text = lossy_text(head);
    match http_status_word(text.as_str()) {
        Some(word) => same(word.as_str(), "200"),
        None => false,
    }
}

/// The status of an answer over HTTP, where it has one, and what follows its head.
pub open spec fn answer_parts(text: Seq<char>) -> (Option<nat>, Seq<char>) {
    (
        match status_word(text) {
            Some(word) => number::parse_unsigned(word, 65535),
            None => None,
        },
        match search::around(text, "\r\n\r\n"@) {
            Some((_, body)) => body,
            None => Seq::empty(),
        },
    )
}

/// The status of an answer over HTTP, where it has one, and what follows its head.
pub fn http_answer(raw: &[u8]) -> (r: (Option<u16>, String))
    ensures
        ({
            let parts = answer_parts(encode::decoded(raw@));
            &&& r.0 is Some == parts.0 is Some
            &&& r.0 is Some ==> r.0->0 == parts.0->0
            &&& r.1@ == parts.1
        }),
{
    let text = lossy_text(raw);
    let status = match http_status_word(text.as_str()) {
        Some(word) => read_port(word.as_str()),
        None => None,
    };
    let body = match cut_around(text.as_str(), "\r\n\r\n") {
        Some((_, body)) => body,
        None => {
            let none = String::new();
            assert(none@ =~= Seq::empty());
            none
        },
    };
    (status, body)
}

/// What a helper can do.
pub open spec fn helper_capabilities() -> Seq<Seq<char>> {
    seq!["proxy"@, "sandbox"@, "config"@, "logs"@, "doctor"@, "verify"@]
}

/// What `status` reports.
pub open spec fn status_report(
    version: Seq<char>,
    platform: Seq<char>,
    arch: Seq<char>,
    proxy_running: bool,
    sandbox_running: bool,
) -> Tree {
    Tree::Object(
        seq![
            ("version"@, Tree::Text(version)),
            ("platform"@, Tree::Text(platform)),
            ("arch"@, Tree::Text(arch)),
            ("capabilities"@, Tree::List(json::text_items(helper_capabilities()))),
            ("proxy_running"@, Tree::Bool(proxy_running)),
            ("sandbox_running"@, Tree::Bool(sandbox_running)),
        ],
    )
}

/// The reply to `status`.
pub fn cmd_status(
    version: &str,
    platform: &str,
    arch: &str,
    proxy_running: bool,
    sandbox_running: bool,
) -> (r: CliEnvelope)
    ensures
        r@ == types::success(
            status_report(version@, platform@, arch@, proxy_running, sandbox_running),
        ),
{
    let mut names: Vec<String> = Vec::new();
    push_text(&mut names, "proxy");
    push_text(&mut names, "sandbox");
    push_text(&mut names, "config");
    push_text(&mut names, "logs");
    push_text(&mut names, "doctor");
    push_text(&mut names, "verify");
    assert(chars::texts(names@) =~= helper_capabilities());
    let mut o = JsonObject::new();
    o.put("version", Json::text(version));
    o.put("platform", Json::text(platform));
    o.put("arch", Json::text(arch));
    o.put("capabilities", json_texts(&names));
    o.put("proxy_running", Json::Bool(proxy_running));
    o.put("sandbox_running", Json::Bool(sandbox_running));
    assert(o@ =~= seq![
        ("version"@, Tree::Text(version@)),
        ("platform"@, Tree::Text(platform@)),
        ("arch"@, Tree::Text(arch@)),
        ("capabilities"@, Tree::List(json::text_items(helper_capabilities()))),
        ("proxy_running"@, Tree::Bool(proxy_running)),
        ("sandbox_running"@, Tree::Bool(sandbox_running)),
    ]);
    CliEnvelope::ok(o.done())
}

/// A helper can do all that the desktop needs of it.
pub proof fn lemma_helper_is_compatible()
    ensures
        remote_commands::has_all(
            crate::remote::types::required_capabilities(),
            helper_capabilities(),
        ),
{
    let c = helper_capabilities();
    assert(c[0] == "proxy"@ && c[2] == "config"@ && c[3] == "logs"@ && c[4] == "doctor"@ && c[5]
        == "verify"@);
}

/// `n` bullets.
pub open spec fn bullets(n: nat) -> Seq<char> {
    Seq::new(n, |i: int| '•')
}

/// Where the part of a key begins that is shown: at most four bytes before its end, at
/// the beginning of a character.
pub open spec fn shown_from(key: Seq<char>) -> int {
    bytes::cut_after(key, bytes::size(key) - 4)
}

/// A key as it is shown: the characters within its last four bytes, and a bullet for
/// each byte before them. Of a key of four bytes or less nothing is shown.
pub open spec fn masked(key: Seq<char>) -> Seq<char> {
    if bytes::size(key) > 4 {
        bullets(shown_from(key) as nat) + bytes::tail(key, shown_from(key))
    } else {
        "••••"@
    }
}

/// A key as it is shown.
pub fn mask_key(key: &str) -> (r: String)
    ensures
        r@ == masked(key@),
{
    let n = byte_count(key);
    if n > 4 {
        let from: usize = next_cut(key, n - 4);
        let mut out = String::new();
        let mut i: usize = 0;
        while i < from
            invariant
                i <= from,
                out@ == bullets(i as nat),
            decreases from - i,
        {
            out.push('•');
            i = i + 1;
            assert(out@ =~= bullets(i as nat));
        }
        let tail = tail_bytes(key, from);
        out.append(tail.as_str());
        out
    } else {
        "••••".to_string()
    }
}

/// `members` with the value of the first one under `key` replaced.
pub open spec fn with_member(
    members: Seq<(Seq<char>, Tree)>,
    key: Seq<char>,
    value: Tree,
) -> Seq<(Seq<char>, Tree)>
    decreases members.len(),
{
    if members.len() == 0 {
        members
    } else if members[0].0 == key {
        members.update(0, (key, value))
    } else {
        seq![members[0]] + with_member(members.drop_first(), key, value)
    }
}

/// An object with the key that it holds under `name` masked. What holds no text there
/// stays as it is.
pub open spec fn masked_under(t: Tree, name: Seq<char>) -> Tree {
    match t {
        Tree::Object(members) => match json::member(members, name) {
            Some(Tree::Text(key)) => Tree::Object(
                with_member(members, name, Tree::Text(masked(key))),
            ),
            _ => t,
        },
        _ => t,
    }
}

/// What is stored of one provider, with its key masked.
pub open spec fn masked_provider(t: Tree) -> Tree {
    masked_under(t, "key"@)
}

/// What is stored of one profile, with its key masked.
pub open spec fn masked_profile(t: Tree) -> Tree {
    masked_under(t, "api_key"@)
}

/// What is stored of the providers, with their keys masked.
pub open spec fn masked_providers(t: Tree) -> Tree {
    match t {
        Tree::Object(v) => Tree::Object(
            v.map_values(|p: (Seq<char>, Tree)| (p.0, masked_provider(p.1))),
        ),
        _ => t,
    }
}

/// What is stored of the profiles, with their keys masked.
pub open spec fn masked_profiles(t: Tree) -> Tree {
    match t {
        Tree::List(v) => Tree::List(v.map_values(|p: Tree| masked_profile(p))),
        _ => t,
    }
}

/// `t` with the value under `key` replaced, if it is an object that has one.
pub open spec fn with_field(t: Tree, key: Seq<char>, value: Tree) -> Tree {
    match t {
        Tree::Object(members) => Tree::Object(with_member(members, key, value)),
        _ => t,
    }
}

/// A configuration with the keys of its providers masked.
pub open spec fn with_masked_providers(t: Tree) -> Tree {
    match json::field(t, "providers"@) {
        Some(p) => with_field(t, "providers"@, masked_providers(p)),
        None => t,
    }
}

/// A configuration with the keys of its profiles masked.
pub open spec fn with_masked_profiles(t: Tree) -> Tree {
    match json::field(t, "profiles"@) {
        Some(p) => with_field(t, "profiles"@, masked_profiles(p)),
        None => t,
    }
}

/// A configuration with the keys of its providers and of its profiles masked.
pub open spec fn masked_config(t: Tree) -> Tree {
    with_masked_profiles(with_masked_providers(t))
}

/// The mask of a key shows at most its last four bytes, and of a key of four bytes or
/// less none. But for what it shows, it tells only how long the key is.
pub proof fn lemma_mask_hides_key(a: Seq<char>, b: Seq<char>)
    requires
        (bytes::size(a) <= 4 && bytes::size(b) <= 4) || (bytes::size(a) == bytes::size(b)
            && bytes::size(a) > 4 && bytes::tail(a, shown_from(a)) == bytes::tail(
            b,
            shown_from(b),
        )),
    ensures
        masked(a) == masked(b),
        bytes::size(a) > 4 ==> bytes::size(bytes::tail(a, shown_from(a))) <= 4,
        bytes::size(a) <= 4 ==> masked(a) == "••••"@,
{
    if bytes::size(a) > 4 {
        bytes::lemma_cut_after(a, bytes::size(a) - 4);
        bytes::lemma_cut_after(b, bytes::size(b) - 4);
        bytes::lemma_tail_size(a, shown_from(a));
        bytes::lemma_tail_size(b, shown_from(b));
    }
}

/// Replacing a member changes what is found under its key, and nothing else.
proof fn lemma_member_after_replacing(
    m: Seq<(Seq<char>, Tree)>,
    key: Seq<char>,
    value: Tree,
    name: Seq<char>,
)
    ensures
        json::member(with_member(m, key, value), name) == if name == key && json::member(
            m,
            key,
        ) is Some {
            Some(value)
        } else {
            json::member(m, name)
        },
    decreases m.len(),
{
    if m.len() > 0 {
        let after = with_member(m, key, value);
        if m[0].0 == key {
            assert(after.drop_first() =~= m.drop_first());
        } else {
            assert(after.drop_first() =~= with_member(m.drop_first(), key, value));
            lemma_member_after_replacing(m.drop_first(), key, value, name);
        }
    }
}

/// Masking the providers changes what is found under a name into its mask.
proof fn lemma_masked_member(providers: Seq<(Seq<char>, Tree)>, name: Seq<char>)
    ensures
        json::member(
            providers.map_values(|p: (Seq<char>, Tree)| (p.0, masked_provider(p.1))),
            name,
        ) == match json::member(providers, name) {
            Some(p) => Some(masked_provider(p)),
            None => None,
        },
    decreases providers.len(),
{
    let f = |p: (Seq<char>, Tree)| (p.0, masked_provider(p.1));
    if providers.len() > 0 {
        assert(providers.map_values(f).drop_first() =~= providers.drop_first().map_values(f));
        lemma_masked_member(providers.drop_first(), name);
    }
}

/// What is found in an object after a value in it was replaced.
proof fn lemma_field_after_replacing(t: Tree, key: Seq<char>, value: Tree, name: Seq<char>)
    ensures
        json::field(with_field(t, key, value), name) == if name == key && json::field(
            t,
            key,
        ) is Some {
            Some(value)
        } else {
            json::field(t, name)
        },
{
    if let Tree::Object(members) = t {
        lemma_member_after_replacing(members, key, value, name);
    }
}

/// The key of an object is masked where it stands.
proof fn lemma_masked_under(t: Tree, name: Seq<char>, key: Seq<char>)
    requires
        json::text_field(t, name) == Some(key),
    ensures
        json::text_field(masked_under(t, name), name) == Some(masked(key)),
{
    lemma_member_after_replacing(t->Object_0, name, Tree::Text(masked(key)), name);
}

/// What a configuration is shown with under its names.
proof fn lemma_masked_fields(t: Tree)
    ensures
        json::field(masked_config(t), "providers"@) == match json::field(t, "providers"@) {
            Some(p) => Some(masked_providers(p)),
            None => None,
        },
        json::field(masked_config(t), "profiles"@) == match json::field(t, "profiles"@) {
            Some(p) => Some(masked_profiles(p)),
            None => None,
        },
        forall|other: Seq<char>|
            other != "providers"@ && other != "profiles"@ ==> #[trigger] json::field(
                masked_config(t),
                other,
            ) == json::field(t, other),
{
    reveal_strlit("providers");
    reveal_strlit("profiles");
    assert("providers"@.len() != "profiles"@.len());
    let half = with_masked_providers(t);
    assert forall|name: Seq<char>| #[trigger] json::field(half, name) == if name == "providers"@
        && json::field(t, name) is Some {
        Some(masked_providers(json::field(t, name)->0))
    } else {
        json::field(t, name)
    } by {
        if let Some(p) = json::field(t, "providers"@) {
            lemma_field_after_replacing(t, "providers"@, masked_providers(p), name);
        }
    }
    assert forall|name: Seq<char>| #[trigger] json::field(masked_config(t), name) == if name
        == "profiles"@ && json::field(half, name) is Some {
        Some(masked_profiles(json::field(half, name)->0))
    } else {
        json::field(half, name)
    } by {
        if let Some(p) = json::field(half, "profiles"@) {
            lemma_field_after_replacing(half, "profiles"@, masked_profiles(p), name);
        }
    }
}

/// A configuration is shown with the mask of each provider's key in its place, and
/// outside its providers and profiles it is shown as it is.
pub proof fn lemma_config_keys_are_masked(
    t: Tree,
    providers: Tree,
    name: Seq<char>,
    provider: Tree,
    key: Seq<char>,
)
    requires
        json::field(t, "providers"@) == Some(providers),
        json::field(providers, name) == Some(provider),
        json::text_field(provider, "key"@) == Some(key),
    ensures
        json::field(masked_config(t), "providers"@) matches Some(shown) && json::field(
            shown,
            name,
        ) matches Some(one) && json::text_field(one, "key"@) == Some(masked(key)),
        forall|other: Seq<char>|
            other != "providers"@ && other != "profiles"@ ==> #[trigger] json::field(
                masked_config(t),
                other,
            ) == json::field(t, other),
{
    lemma_masked_fields(t);
    lemma_masked_member(providers->Object_0, name);
    lemma_masked_under(provider, "key"@, key);
}

/// A configuration is shown with the mask of each profile's key in its place, and with
/// as many profiles as it has.
pub proof fn lemma_profile_keys_are_masked(t: Tree, profiles: Seq<Tree>, i: int, key: Seq<char>)
    requires
        json::field(t, "profiles"@) == Some(Tree::List(profiles)),
        0 <= i < profiles.len(),
        json::text_field(profiles[i], "api_key"@) == Some(key),
    ensures
        json::field(masked_config(t), "profiles"@) matches Some(Tree::List(shown)) && shown.len()
            == profiles.len() && json::text_field(shown[i], "api_key"@) == Some(masked(key)),
{
    lemma_masked_fields(t);
    lemma_masked_under(profiles[i], "api_key"@, key);
}

/// The configuration of a helper that has none.
pub open spec fn default_config() -> Tree {
    Tree::Object(
        seq![
            ("provider"@, Tree::Text("deepseek"@)),
            ("proxy_port"@, Tree::Unsigned(18991)),
            ("sandbox_port"@, Tree::Unsigned(8990)),
            ("mode"@, Tree::Text("proxy"@)),
            ("keys"@, Tree::Object(Seq::empty())),
        ],
    )
}

/// The members of an object with the value of the first one under `key` replaced.
fn replace_member(v: Vec<(String, Json)>, key: &str, value: Json) -> (r: Vec<(String, Json)>)
    ensures
        json::tree(Json::Object(r)) == Tree::Object(
            with_member(json::tree(Json::Object(v))->Object_0, key@, value@),
        ),
{
    let ghost m = json::tree(Json::Object(v))->Object_0;
    let mut v = v;
    let n = v.len();
    let mut i: usize = 0;
    while i < n && !same(v[i].0.as_str(), key)
        invariant
            i <= n,
            n == v@.len(),
            m == json::tree(Json::Object(v))->Object_0,
            forall|j: int| 0 <= j < i ==> (#[trigger] m[j]).0 != key@,
        decreases n - i,
    {
        assert(m[i as int].0 == v@[i as int].0@);
        i = i + 1;
    }
    if i < n {
        assert(m[i as int].0 == v@[i as int].0@);
    }
    proof {
        lemma_with_member(m, key@, value@, i as int);
    }
    if i < n {
        v.set(i, (key.to_string(), value));
    }
    assert(json::tree(Json::Object(v))->Object_0 =~= with_member(m, key@, value@));
    v
}

/// The member that is replaced is the first one under the key.
proof fn lemma_with_member(m: Seq<(Seq<char>, Tree)>, key: Seq<char>, value: Tree, k: int)
    requires
        0 <= k <= m.len(),
        forall|j: int| 0 <= j < k ==> (#[trigger] m[j]).0 != key,
        k < m.len() ==> m[k].0 == key,
    ensures
        with_member(m, key, value) == if k < m.len() {
            m.update(k, (key, value))
        } else {
            m
        },
    decreases m.len(),
{
    if k > 0 {
        let rest = m.drop_first();
        assert(m[0].0 != key);
        assert forall|j: int| 0 <= j < k - 1 implies (#[trigger] rest[j]).0 != key by {
            assert(rest[j] == m[j + 1]);
        }
        lemma_with_member(rest, key, value, k - 1);
        assert(with_member(m, key, value) =~= if k < m.len() {
            m.update(k, (key, value))
        } else {
            m
        });
    }
}

/// An object with the key that it holds under `name` masked.
fn mask_under(j: Json, name: &str) -> (r: Json)
    ensures
        r@ == masked_under(j@, name@),
{
    let key = match j.get_text(name) {
        Some(key) => key,
        None => return j,
    };
    let shown = mask_key(key.as_str());
    match j {
        Json::Object(v) => {
            let members = replace_member(v, name, Json::Text(shown));
            Json::Object(members)
        },
        other => other,
    }
}

/// What is stored of the providers, with their keys masked.
fn mask_providers(j: Json) -> (r: Json)
    ensures
        r@ == masked_providers(j@),
{
    let list = match j {
        Json::Object(list) => list,
        other => return other,
    };
    let ghost p = json::tree(Json::Object(list))->Object_0;
    let ghost want = p.map_values(|q: (Seq<char>, Tree)| (q.0, masked_provider(q.1)));
    let mut rest = list;
    let mut out = JsonObject::new();
    let ghost mut k: int = 0;
    assert(out@ =~= want.take(0));
    while rest.len() > 0
        invariant
            0 <= k,
            k + rest@.len() == p.len(),
            forall|j: int|
                0 <= j < rest@.len() ==> p[k + j] == (
                    (#[trigger] rest@[j]).0@,
                    json::tree(rest@[j].1),
                ),
            want == p.map_values(|q: (Seq<char>, Tree)| (q.0, masked_provider(q.1))),
            out@ == want.take(k),
        decreases rest@.len(),
    {
        let ghost before = rest@;
        assert(p[k + 0] == (before[0].0@, json::tree(before[0].1)));
        let (provider, stored) = rest.remove(0);
        let shown = mask_under(stored, "key");
        out.put(provider.as_str(), shown);
        proof {
            assert forall|j: int| 0 <= j < rest@.len() implies p[k + 1 + j] == (
                (#[trigger] rest@[j]).0@,
                json::tree(rest@[j].1),
            ) by {
                assert(rest@[j] == before[j + 1]);
                assert(p[k + (j + 1)] == (before[j + 1].0@, json::tree(before[j + 1].1)));
            }
            k = k + 1;
            assert(out@ =~= want.take(k));
        }
    }
    assert(want.take(k) =~= want);
    out.done()
}

/// What is stored of the profiles, with their keys masked.
fn mask_profiles(j: Json) -> (r: Json)
    ensures
        r@ == masked_profiles(j@),
{
    let list = match j {
        Json::List(list) => list,
        other => return other,
    };
    let ghost p = json::tree(Json::List(list))->List_0;
    let ghost want = p.map_values(|q: Tree| masked_profile(q));
    let mut rest = list;
    let mut out: Vec<Json> = Vec::new();
    let ghost mut k: int = 0;
    assert(json::trees(out@) =~= want.take(0));
    while rest.len() > 0
        invariant
            0 <= k,
            k + rest@.len() == p.len(),
            forall|j: int| 0 <= j < rest@.len() ==> p[k + j] == json::tree(#[trigger] rest@[j]),
            want == p.map_values(|q: Tree| masked_profile(q)),
            json::trees(out@) == want.take(k),
        decreases rest@.len(),
    {
        let ghost before = rest@;
        let ghost done = out@;
        assert(p[k + 0] == json::tree(before[0]));
        let stored = rest.remove(0);
        out.push(mask_under(stored, "api_key"));
        proof {
            assert forall|j: int| 0 <= j < rest@.len() implies p[k + 1 + j] == json::tree(
                #[trigger] rest@[j],
            ) by {
                assert(rest@[j] == before[j + 1]);
                assert(p[k + (j + 1)] == json::tree(before[j + 1]));
            }
            k = k + 1;
            assert(json::trees(out@) =~= json::trees(done).push(out@.last()@));
            assert(json::trees(out@) =~= want.take(k));
        }
    }
    assert(want.take(k) =~= want);
    json_list(out)
}

/// Takes the value under `key` out of an object; null stands there meanwhile.
fn take_field(j: Json, key: &str) -> (r: (Json, Option<Json>))
    ensures
        json::opt_tree(r.1) == json::field(j@, key@),
        r.0@ == match json::field(j@, key@) {
            Some(_) => with_field(j@, key@, Tree::Null),
            None => j@,
        },
{
    let mut members = match j {
        Json::Object(v) => v,
        other => return (other, None),
    };
    let ghost m = json::tree(Json::Object(members))->Object_0;
    let n = members.len();
    let mut i: usize = 0;
    while i < n && !same(members[i].0.as_str(), key)
        invariant
            i <= n,
            n == members@.len(),
            m == json::tree(Json::Object(members))->Object_0,
            forall|j: int| 0 <= j < i ==> (#[trigger] m[j]).0 != key@,
        decreases n - i,
    {
        assert(m[i as int].0 == members@[i as int].0@);
        i = i + 1;
    }
    proof {
        if i < n {
            assert(m[i as int].0 == members@[i as int].0@);
        }
        json::lemma_member(m, key@, i as int);
        lemma_with_member(m, key@, Tree::Null, i as int);
    }
    if i == n {
        return (Json::Object(members), None);
    }
    let (name, value) = members.remove(i);
    assert(value@ == m[i as int].1);
    assert(name@ == m[i as int].0);
    let empty = Json::Null;
    assert(json::tree(empty) == Tree::Null);
    members.insert(i, (name, empty));
    let rest = Json::Object(members);
    assert(rest@->Object_0 =~= with_member(m, key@, Tree::Null));
    (rest, Some(value))
}

/// Puts a value under `key` in an object that has one there.
fn put_field(j: Json, key: &str, value: Json) -> (r: Json)
    ensures
        r@ == with_field(j@, key@, value@),
{
    match j {
        Json::Object(v) => Json::Object(replace_member(v, key, value)),
        other => other,
    }
}

/// A value that is put in the place of another leaves nothing of it.
proof fn lemma_replace_twice(m: Seq<(Seq<char>, Tree)>, key: Seq<char>, a: Tree, b: Tree)
    ensures
        with_member(with_member(m, key, a), key, b) == with_member(m, key, b),
    decreases m.len(),
{
    if m.len() > 0 {
        let first = with_member(m, key, a);
        if m[0].0 == key {
            assert(first.update(0, (key, b)) =~= m.update(0, (key, b)));
        } else {
            assert(first.drop_first() =~= with_member(m.drop_first(), key, a));
            lemma_replace_twice(m.drop_first(), key, a, b);
        }
    }
}

/// A configuration with the keys of its providers and of its profiles masked.
pub fn mask_config(cfg: Json) -> (r: Json)
    ensures
        r@ == masked_config(cfg@),
{
    let ghost t = cfg@;
    let half = match take_field(cfg, "providers") {
        (rest, Some(providers)) => {
            proof {
                lemma_replace_twice(
                    t->Object_0,
                    "providers"@,
                    Tree::Null,
                    masked_providers(providers@),
                );
            }
            put_field(rest, "providers", mask_providers(providers))
        },
        (rest, None) => rest,
    };
    let ghost h = half@;
    assert(h == with_masked_providers(t));
    match take_field(half, "profiles") {
        (rest, Some(profiles)) => {
            proof {
                lemma_replace_twice(
                    h->Object_0,
                    "profiles"@,
                    Tree::Null,
                    masked_profiles(profiles@),
                );
            }
            put_field(rest, "profiles", mask_profiles(profiles))
        },
        (rest, None) => rest,
    }
}

/// What the file with the configuration held when it was read.
#[derive(Debug)]
pub enum ConfigRead {
    Missing,
    Failed { error: String },
    Text(String),
}

/// The reply to `config get`.
pub open spec fn config_get_reply(read: ConfigRead) -> EnvelopeView {
    match read {
        ConfigRead::Missing => types::success(default_config()),
        ConfigRead::Failed { error } => types::failure(
            "config_read_error"@,
            "无法读取配置文件："@ + error@,
        ),
        ConfigRead::Text(raw) => match json::json_text(raw@) {
            Ok(cfg) => types::success(masked_config(cfg)),
            Err(e) => types::failure("config_parse_error"@, "配置文件格式错误："@ + e),
        },
    }
}

/// The configuration of a helper that has none.
fn default_config_json() -> (r: Json)
    ensures
        r@ == default_config(),
{
    let mut o = JsonObject::new();
    o.put("provider", Json::text("deepseek"));
    o.put("proxy_port", Json::number(18991));
    o.put("sandbox_port", Json::number(8990));
    o.put("mode", Json::text("proxy"));
    o.put("keys", JsonObject::new().done());
    assert(o@ =~= default_config()->Object_0);
    o.done()
}

/// The reply to `config get`, with the keys masked.
pub fn cmd_config_get(read: ConfigRead) -> (r: CliEnvelope)
    ensures
        r@ == config_get_reply(read),
{
    match read {
        ConfigRead::Missing => CliEnvelope::ok(default_config_json()),
        ConfigRead::Failed { error } => {
            let message = cat2("无法读取配置文件：", error.as_str());
            CliEnvelope::err("config_read_error", message.as_str())
        },
        ConfigRead::Text(raw) => match parse_json(raw.as_str()) {
            Ok(cfg) => CliEnvelope::ok(mask_config(cfg)),
            Err(e) => {
                let message = cat2("配置文件格式错误：", e.as_str());
                CliEnvelope::err("config_parse_error", message.as_str())
            },
        },
    }
}

/// The configuration that a text holds, as JSON, or the reply that refuses the text.
pub fn read_config_text(text: &str) -> (r: Result<Json, CliEnvelope>)
    ensures
        match json::json_text(text@) {
            Ok(t) => r is Ok && r->Ok_0@ == t,
            Err(e) => r is Err && r->Err_0@ == types::failure(
                "config_parse_error"@,
                "JSON 解析失败："@ + e,
            ),
        },
{
    match parse_json(text) {
        Ok(cfg) => Ok(cfg),
        Err(e) => {
            let message = cat2("JSON 解析失败：", e.as_str());
            Err(CliEnvelope::err("config_parse_error", message.as_str()))
        },
    }
}

/// What came of storing JSON as a configuration.
#[derive(Debug)]
pub enum ConfigSet {
    /// The JSON is no configuration.
    NoConfig { error: String },
    NotWritten { error: String },
    Written,
}

/// The reply to `config set`, by the text that is to be stored and by what came of
/// storing it. Text that is no JSON is refused, whatever came of it.
pub open spec fn config_set_reply(text: Seq<char>, outcome: ConfigSet) -> EnvelopeView {
    match json::json_text(text) {
        Ok(_) => match outcome {
            ConfigSet::NoConfig { error } => types::failure(
                "config_parse_error"@,
                "配置格式错误："@ + error@,
            ),
            ConfigSet::NotWritten { error } => types::failure(
                "config_write_error"@,
                "写入配置失败："@ + error@,
            ),
            ConfigSet::Written => types::silent_success(),
        },
        Err(e) => types::failure("config_parse_error"@, "JSON 解析失败："@ + e),
    }
}

/// The reply to `config set`.
pub fn cmd_config_set(text: &str, outcome: ConfigSet) -> (r: CliEnvelope)
    ensures
        r@ == config_set_reply(text@, outcome),
{
    if let Err(refusal) = read_config_text(text) {
        return refusal;
    }
    match outcome {
        ConfigSet::NoConfig { error } => {
            let message = cat2("配置格式错误：", error.as_str());
            CliEnvelope::err("config_parse_error", message.as_str())
        },
        ConfigSet::NotWritten { error } => {
            let message = cat2("写入配置失败：", error.as_str());
            CliEnvelope::err("config_write_error", message.as_str())
        },
        ConfigSet::Written => CliEnvelope::ok_empty(),
    }
}

/// A configuration whose profile in use has a new key, if it is one of the provider.
pub open spec fn with_key(
    cfg: ConfigView,
    adapter: Seq<char>,
    provider: Seq<char>,
    key: Seq<char>,
) -> ConfigView {
    let i = config::place_of(cfg.profiles, cfg.active_id);
    if i < cfg.profiles.len() && (cfg.profiles[i].template_id == provider || adapter == provider) {
        ConfigView {
            profiles: cfg.profiles.update(i, ProfileView { api_key: key, ..cfg.profiles[i] }),
            ..cfg
        }
    } else {
        cfg
    }
}

/// Gives the profile in use a new key, if it is one of the provider; `adapter` is the
/// one of its template.
pub fn store_key(cfg: &mut Config, adapter: &str, provider: &str, key: &str)
    ensures
        final(cfg)@ == with_key(old(cfg)@, adapter@, provider@, key@),
{
    let i = cfg.position_of(cfg.active_id.as_str());
    if i < cfg.profiles.len() {
        let mut p = cfg.profiles[i].clone();
        if same(p.template_id.as_str(), provider) || same(adapter, provider) {
            let ghost before = cfg@;
            p.api_key = key.to_string();
            cfg.profiles.set(i, p);
            assert(cfg@.profiles =~= with_key(before, adapter@, provider@, key@).profiles);
        }
    }
}

/// The key that was stored for a provider is the one that its proxy is started with; a
/// key for another provider changes nothing.
pub proof fn lemma_stored_key_is_used(
    cfg: ConfigView,
    adapter: Seq<char>,
    thinking_policy: Seq<char>,
    provider: Seq<char>,
    key: Seq<char>,
)
    ensures
        configured_launch(
            with_key(cfg, adapter, provider, key),
            adapter,
            thinking_policy,
            provider,
        ) matches Ok(Some(l)) ==> l.key == trim::trim(key),
        config::find(cfg.profiles, cfg.active_id) matches Some(p) ==> p.template_id != provider
            && adapter != provider ==> with_key(cfg, adapter, provider, key) == cfg,
{
    let after = with_key(cfg, adapter, provider, key);
    let i = config::place_of(cfg.profiles, cfg.active_id);
    let k = config::place_of(after.profiles, cfg.active_id);
    config::lemma_place_of(cfg.profiles, cfg.active_id);
    config::lemma_place_of(after.profiles, cfg.active_id);
    if after != cfg {
        assert(after.profiles[i].id == cfg.profiles[i].id);
        if k < i {
            assert(after.profiles[k] == cfg.profiles[k]);
        }
        assert(k == i);
    }
}

/// The reply to `config save-key`, where a key was stored or not.
pub open spec fn save_key_reply(key: Seq<char>, stored: Result<(), String>) -> EnvelopeView {
    match stored {
        Err(e) => types::failure("config_write_error"@, "保存 key 失败："@ + e@),
        Ok(()) => types::success(Tree::Object(seq![("masked"@, Tree::Text(masked(key)))])),
    }
}

/// The reply to `config save-key`, where a key was stored or not.
pub fn cmd_config_save_key(key: &str, stored: Result<(), String>) -> (r: CliEnvelope)
    ensures
        r@ == save_key_reply(key@, stored),
{
    match stored {
        Err(e) => {
            let message = cat2("保存 key 失败：", e.as_str());
            CliEnvelope::err("config_write_error", message.as_str())
        },
        Ok(()) => {
            let shown = mask_key(key);
            let mut o = JsonObject::new();
            o.put("masked", Json::text(shown.as_str()));
            assert(o@ =~= seq![("masked"@, Tree::Text(masked(key@)))]);
            CliEnvelope::ok(o.done())
        },
    }
}

/// The port that a configuration names under `key`.
pub open spec fn configured_port(raw: Option<Seq<char>>, key: Seq<char>, default: u16) -> u16 {
    match raw {
        Some(text) => match json::json_text(text) {
            Ok(t) => match json::number_field(t, key) {
                Some(n) => (n as int % 65536) as u16,
                None => default,
            },
            Err(_) => default,
        },
        None => default,
    }
}

/// The port that a configuration names under `key`, once it was read as JSON; a number
/// is cut to 16 bits.
pub fn port_in_config(cfg: &Json, key: &str, default: u16) -> (r: u16)
    ensures
        r == match json::number_field(cfg@, key@) {
            Some(n) => (n as int % 65536) as u16,
            None => default,
        },
{
    match cfg.get_number(key) {
        Some(n) => (n % 65536) as u16,
        None => default,
    }
}

/// The port that a configuration names under `key`; a number is cut to 16 bits.
pub fn get_configured_u16(raw: Option<&str>, key: &str, default: u16) -> (r: u16)
    ensures
        r == configured_port(chars::opt_str(raw), key@, default),
{
    match raw {
        Some(text) => match parse_json(text) {
            Ok(cfg) => port_in_config(&cfg, key, default),
            Err(_) => default,
        },
        None => default,
    }
}

/// The port of the proxy.
pub open spec fn proxy_port_in(raw: Option<Seq<char>>) -> u16 {
    configured_port(raw, "proxy_port"@, DEFAULT_PROXY_PORT)
}

/// The port of the sandbox.
pub open spec fn sandbox_port_in(raw: Option<Seq<char>>) -> u16 {
    configured_port(raw, "sandbox_port"@, DEFAULT_SANDBOX_PORT)
}

/// The port of the proxy.
pub fn get_configured_port(raw: Option<&str>) -> (r: u16)
    ensures
        r == proxy_port_in(chars::opt_str(raw)),
{
    get_configured_u16(raw, "proxy_port", DEFAULT_PROXY_PORT)
}

/// The port of the sandbox.
pub fn get_configured_sandbox_port(raw: Option<&str>) -> (r: u16)
    ensures
        r == sandbox_port_in(chars::opt_str(raw)),
{
    get_configured_u16(raw, "sandbox_port", DEFAULT_SANDBOX_PORT)
}

/// The secret of the proxy that was started last, from the file that holds it.
pub fn load_proxy_secret(found: bool, read: Result<String, String>) -> (r: Result<String, String>)
    ensures
        if !found {
            r matches Err(e) && e@ == "secret 文件不存在"@
        } else {
            match read {
                Ok(text) => r matches Ok(secret) && secret@ == trim::trim(text@),
                Err(why) => r matches Err(e) && e@ == "读 secret 文件失败："@ + why@,
            }
        },
{
    if !found {
        return Err("secret 文件不存在".to_string());
    }
    match read {
        Ok(text) => Ok(trimmed(text.as_str())),
        Err(why) => Err(cat2("读 secret 文件失败：", why.as_str())),
    }
}

/// The file of a log.
pub fn log_file_path(config_dir: &str, name: &str) -> (r: String)
    ensures
        r@ == paths::join2(config_dir@, "logs"@, name@ + ".log"@),
{
    let file = cat2(name, ".log");
    join_path2(config_dir, "logs", file.as_str())
}

/// The reply to `logs`.
pub open spec fn logs_reply(found: bool, read: Result<String, String>, lines: nat) -> EnvelopeView {
    if !found {
        types::success(
            Tree::Object(
                seq![("content"@, Tree::Text(""@)), ("exists"@, Tree::Bool(false))],
            ),
        )
    } else {
        match read {
            Ok(content) => types::success(
                Tree::Object(
                    seq![
                        (
                            "content"@,
                            Tree::Text(
                                split::join(
                                    split::last_pieces(split::lines(content@), lines),
                                    "\n"@,
                                ),
                            ),
                        ),
                        ("exists"@, Tree::Bool(true)),
                    ],
                ),
            ),
            Err(e) => types::failure("log_read_error"@, "无法读取日志："@ + e@),
        }
    }
}

/// How many lines of a log are shown: as many as are asked for, or else a hundred.
pub open spec fn shown_lines(lines: Option<usize>) -> nat {
    match lines {
        Some(n) => n as nat,
        None => 100,
    }
}

/// The reply to `logs`: the last lines of a log, a hundred if the number is not given.
pub fn cmd_logs(found: bool, read: Result<String, String>, lines: Option<usize>) -> (r: CliEnvelope)
    ensures
        r@ == logs_reply(found, read, shown_lines(lines)),
{
    if !found {
        let mut o = JsonObject::new();
        o.put("content", Json::text(""));
        o.put("exists", Json::Bool(false));
        assert(o@ =~= seq![("content"@, Tree::Text(""@)), ("exists"@, Tree::Bool(false))]);
        return CliEnvelope::ok(o.done());
    }
    match read {
        Ok(content) => {
            let n: usize = match lines {
                Some(n) => n,
                None => 100,
            };
            let tail = joined_tail(content.as_str(), n);
            let mut o = JsonObject::new();
            o.put("content", Json::text(tail.as_str()));
            o.put("exists", Json::Bool(true));
            assert(o@ =~= seq![("content"@, Tree::Text(tail@)), ("exists"@, Tree::Bool(true))]);
            CliEnvelope::ok(o.done())
        },
        Err(e) => {
            let message = cat2("无法读取日志：", e.as_str());
            CliEnvelope::err("log_read_error", message.as_str())
        },
    }
}

/// One finding of `doctor`.
pub open spec fn finding(name: Seq<char>, ok: bool, detail: Seq<char>) -> Tree {
    Tree::Object(
        seq![("name"@, Tree::Text(name)), ("ok"@, Tree::Bool(ok)), ("detail"@, Tree::Text(detail))],
    )
}

/// One finding of `doctor`.
fn finding_json(name: &str, ok: bool, detail: &str) -> (r: Json)
    ensures
        r@ == finding(name@, ok, detail@),
{
    let mut o = JsonObject::new();
    o.put("name", Json::text(name));
    o.put("ok", Json::Bool(ok));
    o.put("detail", Json::text(detail));
    assert(o@ =~= finding(name@, ok, detail@)->Object_0);
    o.done()
}

/// The findings of `doctor`: the interpreter, the script of the proxy, the
/// configuration, and whether the proxy is running.
pub open spec fn findings(
    python: Option<Seq<char>>,
    script: Result<Seq<char>, Seq<char>>,
    config_path: Seq<char>,
    config_exists: bool,
    port: u16,
    proxy_running: bool,
) -> Seq<Tree> {
    seq![
        finding(
            "Python 3"@,
            python is Some,
            match python {
                Some(path) => path,
                None => "未找到"@,
            },
        ),
        finding(
            "代理脚本 csswitch_proxy.py"@,
            script is Ok,
            match script {
                Ok(path) => path,
                Err(e) => e,
            },
        ),
        finding("配置文件 config.json"@, config_exists, config_path),
        finding(
            "代理运行状态"@,
            proxy_running,
            if proxy_running {
                "端口 "@ + number::decimal(port as nat)
            } else {
                "未运行"@
            },
        ),
    ]
}

/// The reply to `doctor`.
pub fn cmd_doctor(
    python: Option<String>,
    script: Result<String, String>,
    config_path: &str,
    config_exists: bool,
    port: u16,
    proxy_running: bool,
) -> (r: CliEnvelope)
    ensures
        r@ == types::success(
            Tree::Object(
                seq![
                    (
                        "checks"@,
                        Tree::List(
                            findings(
                                chars::opt_text(python),
                                chars::result_text(script),
                                config_path@,
                                config_exists,
                                port,
                                proxy_running,
                            ),
                        ),
                    ),
                ],
            ),
        ),
{
    let ghost want = findings(
        chars::opt_text(python),
        chars::result_text(script),
        config_path@,
        config_exists,
        port,
        proxy_running,
    );
    let mut checks: Vec<Json> = Vec::new();
    match &python {
        Some(path) => checks.push(finding_json("Python 3", true, path.as_str())),
        None => checks.push(finding_json("Python 3", false, "未找到")),
    }
    match &script {
        Ok(path) => checks.push(finding_json("代理脚本 csswitch_proxy.py", true, path.as_str())),
        Err(e) => checks.push(finding_json("代理脚本 csswitch_proxy.py", false, e.as_str())),
    }
    checks.push(finding_json("配置文件 config.json", config_exists, config_path));
    if proxy_running {
        let shown = number_text(port as u64);
        let detail = cat2("端口 ", shown.as_str());
        checks.push(finding_json("代理运行状态", true, detail.as_str()));
    } else {
        checks.push(finding_json("代理运行状态", false, "未运行"));
    }
    assert(json::trees(checks@) =~= want);
    let mut o = JsonObject::new();
    o.put("checks", json_list(checks));
    assert(o@ =~= seq![("checks"@, Tree::List(want))]);
    CliEnvelope::ok(o.done())
}

/// The request that has a proxy verify its key, with the given body.
pub open spec fn verify_question(secret: Seq<char>, body: Seq<char>) -> Seq<char> {
    "POST /"@ + secret
        + "/v1/messages HTTP/1.0\r\nHost: 127.0.0.1\r\nContent-Type: application/json\r\nContent-Length: "@
        + number::decimal(bytes::size(body)) + ("\r\nConnection: close\r\n\r\n"@ + body)
}

/// The request that has a proxy verify its key, with the given body.
pub fn verify_request(secret: &str, body: &str) -> (r: String)
    ensures
        r@ == verify_question(secret@, body@),
{
    let size = number_text(byte_count(body) as u64);
    let head = cat4(
        "POST /",
        secret,
        "/v1/messages HTTP/1.0\r\nHost: 127.0.0.1\r\nContent-Type: application/json\r\nContent-Length: ",
        size.as_str(),
    );
    let tail = cat2("\r\nConnection: close\r\n\r\n", body);
    cat2(head.as_str(), tail.as_str())
}

/// What became of the request that has a proxy verify its key.
#[derive(Debug)]
pub enum VerifyExchange {
    NotReachable,
    NotSent,
    NoAnswer,
    Answer(Vec<u8>),
}

/// Whether the key is good, and why, as an HTTP status shows it.
pub open spec fn verdict(code: u16) -> (bool, Seq<char>) {
    let shown = number::decimal(code as nat);
    if code == 200 {
        (true, "key 有效，上游已接受。"@)
    } else if code == 401 || code == 403 {
        (false, "上游拒绝（"@ + shown + "），key 可能无效或无权限。"@)
    } else {
        (false, "上游返回 "@ + shown + "，可能是 key 无效或上游异常。"@)
    }
}

/// The reply to `verify` for the beginning of an answer.
pub open spec fn verify_reply(head: Seq<char>) -> EnvelopeView {
    match status_word(head) {
        Some(word) => match number::parse_unsigned(word, 65535) {
            Some(code) => types::success(
                Tree::Object(
                    seq![
                        ("ok"@, Tree::Bool(verdict(code as u16).0)),
                        ("hint"@, Tree::Text(verdict(code as u16).1)),
                    ],
                ),
            ),
            None => types::failure("proxy_invalid_response"@, "代理返回了无效的 HTTP 响应"@),
        },
        None => types::failure("proxy_invalid_response"@, "代理返回了无效的 HTTP 响应"@),
    }
}

/// The reply to `verify` for the beginning of an answer.
pub fn verify_answer(head: &str) -> (r: CliEnvelope)
    ensures
        r@ == verify_reply(head@),
{
    let code = match http_status_word(head) {
        Some(word) => read_port(word.as_str()),
        None => None,
    };
    match code {
        Some(c) => {
            let shown = number_text(c as u64);
            let hint = if c == 200 {
                "key 有效，上游已接受。".to_string()
            } else if c == 401 || c == 403 {
                cat3("上游拒绝（", shown.as_str(), "），key 可能无效或无权限。")
            } else {
                cat3("上游返回 ", shown.as_str(), "，可能是 key 无效或上游异常。")
            };
            let mut o = JsonObject::new();
            o.put("ok", Json::Bool(c == 200));
            o.put("hint", Json::text(hint.as_str()));
            assert(o@ =~= seq![
                ("ok"@, Tree::Bool(verdict(c).0)),
                ("hint"@, Tree::Text(verdict(c).1)),
            ]);
            CliEnvelope::ok(o.done())
        },
        None => CliEnvelope::err("proxy_invalid_response", "代理返回了无效的 HTTP 响应"),
    }
}

/// The reply to `verify`, by what became of the request.
pub open spec fn exchange_reply(port: u16, exchange: VerifyExchange) -> EnvelopeView {
    match exchange {
        VerifyExchange::NotReachable => types::failure(
            "proxy_not_reachable"@,
            "无法连接到代理端口 "@ + number::decimal(port as nat),
        ),
        VerifyExchange::NotSent => types::failure("proxy_io_error"@, "发送验证请求失败"@),
        VerifyExchange::NoAnswer => types::failure("proxy_no_response"@, "代理未响应验证请求"@),
        VerifyExchange::Answer(head) => verify_reply(encode::decoded(head@)),
    }
}

/// The reply to `verify`.
pub fn cmd_verify(port: u16, exchange: VerifyExchange) -> (r: CliEnvelope)
    ensures
        r@ == exchange_reply(port, exchange),
{
    match exchange {
        VerifyExchange::NotReachable => {
            let shown = number_text(port as u64);
            let message = cat2("无法连接到代理端口 ", shown.as_str());
            CliEnvelope::err("proxy_not_reachable", message.as_str())
        },
        VerifyExchange::NotSent => CliEnvelope::err("proxy_io_error", "发送验证请求失败"),
        VerifyExchange::NoAnswer => CliEnvelope::err("proxy_no_response", "代理未响应验证请求"),
        VerifyExchange::Answer(head) => {
            let text = lossy_text(head.as_slice());
            verify_answer(text.as_str())
        },
    }
}

/// The error of a command that failed: what it wrote, or else its exit code.
pub fn command_output_error(command: &str, stdout: &[u8], stderr: &[u8], code: Option<i32>) -> (r:
    String)
    ensures
        r@ == output_error(command@, encode::decoded(stdout@), encode::decoded(stderr@), code),
{
    let all = lossy_text(stderr);
    let error = trimmed(all.as_str());
    if !error.as_str().is_empty() {
        return error;
    }
    let all = lossy_text(stdout);
    let output = trimmed(all.as_str());
    if !output.as_str().is_empty() {
        return output;
    }
    let shown = exit_code_text(code);
    cat3(command, " 退出码 ", shown.as_str())
}

/// The error of a command that failed: what it wrote, or else its exit code.
pub open spec fn output_error(
    command: Seq<char>,
    stdout: Seq<char>,
    stderr: Seq<char>,
    code: Option<i32>,
) -> Seq<char> {
    if !trim::is_blank(stderr) {
        trim::trim(stderr)
    } else if !trim::is_blank(stdout) {
        trim::trim(stdout)
    } else {
        command + " 退出码 "@ + number::option_debug(code)
    }
}

/// The last `max_chars` characters of a text, without white space around them.
pub fn tail_file(content: &str, max_chars: usize) -> (r: String)
    ensures
        r@ == trim::trim(split::last_pieces(content@, max_chars as nat)),
{
    let cs = chars_of(content);
    let n = cs.len();
    if n <= max_chars {
        return trimmed(content);
    }
    let tail = string_from(&cs, n - max_chars, n);
    assert(cs@.subrange(n - max_chars, n as int) =~= content@.skip(n - max_chars));
    trimmed(tail.as_str())
}

/// The directories in which a command is looked for: those of `PATH`, some below the
/// home directory, and one of Conda.
pub open spec fn search_dirs(path: Option<Seq<char>>, home: Option<Seq<char>>) -> Seq<Seq<char>> {
    let listed = match path {
        Some(path) => filled_pieces(split::split_on(path, ':')),
        None => Seq::empty(),
    };
    let own = match home {
        Some(home) => seq![
            paths::join2(home, ".local"@, "bin"@),
            paths::join(home, "bin"@),
            paths::join2(home, "miniconda3"@, "bin"@),
            paths::join2(home, "anaconda3"@, "bin"@),
        ],
        None => Seq::empty(),
    };
    listed + own + seq!["/opt/conda/bin"@]
}

/// The pieces that are not empty.
pub open spec fn filled_pieces(v: Seq<Seq<char>>) -> Seq<Seq<char>>
    decreases v.len(),
{
    if v.len() == 0 {
        Seq::empty()
    } else if v.last().len() == 0 {
        filled_pieces(v.drop_last())
    } else {
        filled_pieces(v.drop_last()).push(v.last())
    }
}

/// The paths under which a command is looked for, in this order.
pub fn command_paths(name: &str, path: Option<&str>, home: Option<&str>) -> (r: Vec<String>)
    ensures
        chars::texts(r@) == search_dirs(chars::opt_str(path), chars::opt_str(home)).map_values(
            |dir: Seq<char>| paths::join(dir, name@),
        ),
{
    let mut dirs: Vec<String> = Vec::new();
    assert(chars::texts(dirs@) =~= Seq::empty());
    if let Some(path) = path {
        let pieces = split_at_each(path, ':');
        let ghost t = split::split_on(path@, ':');
        let mut i: usize = 0;
        assert(t.take(0) =~= Seq::empty());
        while i < pieces.len()
            invariant
                i <= pieces@.len(),
                t == chars::texts(pieces@),
                chars::texts(dirs@) == filled_pieces(t.take(i as int)),
            decreases pieces@.len() - i,
        {
            assert(t.take(i + 1).drop_last() =~= t.take(i as int));
            assert(t.take(i + 1).last() == pieces@[i as int]@);
            if !pieces[i].as_str().is_empty() {
                push_text(&mut dirs, pieces[i].as_str());
            }
            i = i + 1;
        }
        assert(t.take(i as int) =~= t);
    }
    if let Some(home) = home {
        let a = join_path2(home, ".local", "bin");
        let b = join_path(home, "bin");
        let c = join_path2(home, "miniconda3", "bin");
        let d = join_path2(home, "anaconda3", "bin");
        push_text(&mut dirs, a.as_str());
        push_text(&mut dirs, b.as_str());
        push_text(&mut dirs, c.as_str());
        push_text(&mut dirs, d.as_str());
    }
    push_text(&mut dirs, "/opt/conda/bin");
    let ghost all = search_dirs(chars::opt_str(path), chars::opt_str(home));
    assert(chars::texts(dirs@) =~= all);
    let ghost want = all.map_values(|dir: Seq<char>| paths::join(dir, name@));
    let mut out: Vec<String> = Vec::new();
    let mut i: usize = 0;
    assert(chars::texts(out@) =~= want.take(0));
    while i < dirs.len()
        invariant
            i <= dirs@.len(),
            all == chars::texts(dirs@),
            want == all.map_values(|dir: Seq<char>| paths::join(dir, name@)),
            chars::texts(out@) == want.take(i as int),
        decreases dirs@.len() - i,
    {
        let full = join_path(dirs[i].as_str(), name);
        push_text(&mut out, full.as_str());
        i = i + 1;
        assert(chars::texts(out@) =~= want.take(i as int));
    }
    assert(want.take(i as int) =~= want);
    out
}

/// A port may be used exactly if it is neither 0 nor that of the real instance.
pub proof fn lemma_usable_port(port: u16)
    ensures
        port_fault(port) is None <==> port != 0 && port != 8765,
        port_fault(port) matches Some(reply) ==> !reply.ok,
{
}

/// The ports are those that the configuration names, each under its own name, and else the
/// usual ones.
pub proof fn lemma_configured_ports(raw: Seq<char>, cfg: Tree, proxy: u16, sandbox: u16)
    requires
        json::json_text(raw) == Ok::<Tree, Seq<char>>(cfg),
    ensures
        json::number_field(cfg, "proxy_port"@) == Some(proxy as u64) ==> proxy_port_in(Some(raw))
            == proxy,
        json::number_field(cfg, "sandbox_port"@) == Some(sandbox as u64) ==> sandbox_port_in(
            Some(raw),
        ) == sandbox,
        json::field(cfg, "proxy_port"@) is None ==> proxy_port_in(Some(raw)) == 18991,
        json::field(cfg, "sandbox_port"@) is None ==> sandbox_port_in(Some(raw)) == 8990,
        proxy_port_in(None) == 18991,
        sandbox_port_in(None) == 8990,
{
}

/// The status of an answer is the word behind the protocol in its first line.
pub proof fn lemma_status_word(
    protocol: Seq<char>,
    status: Seq<char>,
    reason: Seq<char>,
    more: Seq<char>,
)
    requires
        protocol.len() > 0 && status.len() > 0,
        forall|i: int| 0 <= i < protocol.len() ==> !chars::is_space(#[trigger] protocol[i]),
        forall|i: int| 0 <= i < status.len() ==> !chars::is_space(#[trigger] status[i]),
        forall|i: int| 0 <= i < reason.len() ==> reason[i] != '\n' && reason[i] != '\r',
    ensures
        status_word(protocol.push(' ') + status.push(' ') + reason + "\r\n"@ + more) == Some(status),
        says_well(protocol.push(' ') + status.push(' ') + reason + "\r\n"@ + more) == (status
            == "200"@),
{
    reveal_strlit("\r\n");
    let line = protocol.push(' ') + (status.push(' ') + reason);
    let text = protocol.push(' ') + status.push(' ') + reason + "\r\n"@ + more;
    let k = line.len() as int + 1;
    assert(text =~= line + "\r\n"@ + more);
    assert forall|i: int| 0 <= i < k implies text[i] != '\n' by {
        let n = protocol.len() as int;
        let m = n + 1 + status.len() as int;
        if i < n {
            assert(text[i] == protocol[i]);
        } else if n < i < m {
            assert(text[i] == status[i - n - 1]);
        } else if m < i < line.len() {
            assert(text[i] == reason[i - m - 1]);
        }
    }
    assert(text[k] == '\n');
    search::lemma_index_of_is(text, '\n', k);
    assert(text.take(k) =~= line.push('\r'));
    assert(split::without_cr(line.push('\r')) =~= line);
    assert(split::lines(text)[0] == line);
    split::lemma_words_first(protocol, status.push(' ') + reason);
    split::lemma_words_first(status, reason);
}

/// A key is good exactly if the proxy answers with the status 200; an answer without a
/// status, like none at all, is a failure.
pub proof fn lemma_verify(head: Seq<char>, code: u16, port: u16)
    requires
        status_word(head) == Some(number::decimal(code as nat)),
    ensures
        verify_reply(head).ok,
        json::bool_field(verify_reply(head).data->0, "ok"@) == Some(code == 200),
        !exchange_reply(port, VerifyExchange::NotReachable).ok,
        !exchange_reply(port, VerifyExchange::NotSent).ok,
        !exchange_reply(port, VerifyExchange::NoAnswer).ok,
        exchange_reply(port, VerifyExchange::NotReachable).error->0.code == "proxy_not_reachable"@,
        exchange_reply(port, VerifyExchange::NoAnswer).error->0.code == "proxy_no_response"@,
{
    number::lemma_parse_decimal(code as nat, 65535);
    let m = verify_reply(head).data->0->Object_0;
    reveal_strlit("ok");
    reveal_strlit("hint");
    assert("ok"@.len() != "hint"@.len());
    json::lemma_member(m, "ok"@, 0);
    json::lemma_member(m, "hint"@, 1);
}

/// A request to verify a key goes to the proxy under its secret, says how many bytes its
/// body has, and ends in its body; so does a question for its health go under its secret.
pub proof fn lemma_requests(secret: Seq<char>, body: Seq<char>)
    ensures
        search::begins(verify_question(secret, body), "POST /"@ + secret + "/v1/messages "@),
        search::ends(verify_question(secret, body), "\r\n\r\n"@ + body),
        search::contains(
            verify_question(secret, body),
            "Content-Length: "@ + number::decimal(bytes::size(body)) + "\r\n"@,
        ),
        search::begins(health_question(secret), "GET /"@ + secret + "/health "@),
{
    reveal_strlit("/v1/messages ");
    reveal_strlit("/health ");
    reveal_strlit("\r\n\r\n");
    reveal_strlit("\r\n");
    reveal_strlit("Content-Length: ");
    reveal_strlit(
        "/v1/messages HTTP/1.0\r\nHost: 127.0.0.1\r\nContent-Type: application/json\r\nContent-Length: ",
    );
    reveal_strlit("\r\nConnection: close\r\n\r\n");
    reveal_strlit("/health HTTP/1.0\r\nHost: 127.0.0.1\r\nConnection: close\r\n\r\n");
    let s = verify_question(secret, body);
    let a = "POST /"@ + secret + "/v1/messages "@;
    assert(s.take(a.len() as int) =~= a);
    let b = "\r\n\r\n"@ + body;
    assert(s.skip(s.len() - b.len()) =~= b);
    let c = "Content-Length: "@ + number::decimal(bytes::size(body)) + "\r\n"@;
    let i = "POST /"@.len() + secret.len()
        + "/v1/messages HTTP/1.0\r\nHost: 127.0.0.1\r\nContent-Type: application/json\r\nContent-Length: "@.len()
        - 16;
    assert(s.subrange(i, i + c.len()) =~= c);
    assert(search::occurs_at(s, c, i));
    let h = health_question(secret);
    let d = "GET /"@ + secret + "/health "@;
    assert(h.take(d.len() as int) =~= d);
}

/// Of a log the last lines are shown, as many as are asked for or else a hundred; of one
/// that is not there, that it is not.
pub proof fn lemma_logs(content: String, lines: Option<usize>)
    ensures
        shown_lines(None) == 100,
        lines matches Some(n) ==> shown_lines(lines) == n,
        logs_reply(true, Ok(content), shown_lines(lines)).ok,
        json::text_field(logs_reply(true, Ok(content), shown_lines(lines)).data->0, "content"@)
            == Some(
            split::join(
                split::last_pieces(split::lines(content@), shown_lines(lines)),
                "\n"@,
            ),
        ),
        json::bool_field(logs_reply(true, Ok(content), shown_lines(lines)).data->0, "exists"@)
            == Some(true),
        json::bool_field(logs_reply(false, Ok(content), shown_lines(lines)).data->0, "exists"@)
            == Some(false),
        !logs_reply(true, Err(content), shown_lines(lines)).ok,
{
    let m = logs_reply(true, Ok(content), shown_lines(lines)).data->0->Object_0;
    let n = logs_reply(false, Ok(content), shown_lines(lines)).data->0->Object_0;
    reveal_strlit("content");
    reveal_strlit("exists");
    assert("content"@.len() != "exists"@.len());
    json::lemma_member(m, "content"@, 0);
    json::lemma_member(m, "exists"@, 1);
    json::lemma_member(n, "exists"@, 1);
}

/// The self-test finds in order what is there: the interpreter, the script, the
/// configuration, and a proxy that runs.
pub proof fn lemma_findings(
    python: Option<Seq<char>>,
    script: Result<Seq<char>, Seq<char>>,
    config_path: Seq<char>,
    config_exists: bool,
    port: u16,
    proxy_running: bool,
)
    ensures
        ({
            let v = findings(python, script, config_path, config_exists, port, proxy_running);
            &&& v.len() == 4
            &&& json::bool_field(v[0], "ok"@) == Some(python is Some)
            &&& python matches Some(p) ==> json::text_field(v[0], "detail"@) == Some(p)
            &&& json::bool_field(v[1], "ok"@) == Some(script is Ok)
            &&& script matches Ok(s) ==> json::text_field(v[1], "detail"@) == Some(s)
            &&& script matches Err(e) ==> json::text_field(v[1], "detail"@) == Some(e)
            &&& json::bool_field(v[2], "ok"@) == Some(config_exists)
            &&& json::text_field(v[2], "detail"@) == Some(config_path)
            &&& json::bool_field(v[3], "ok"@) == Some(proxy_running)
        }),
{
    let v = findings(python, script, config_path, config_exists, port, proxy_running);
    assert forall|name: Seq<char>, ok: bool, detail: Seq<char>|
        json::bool_field(#[trigger] finding(name, ok, detail), "ok"@) == Some(ok)
            && json::text_field(finding(name, ok, detail), "detail"@) == Some(detail)
            && json::text_field(finding(name, ok, detail), "name"@) == Some(name) by {
        let m = finding(name, ok, detail)->Object_0;
        reveal_strlit("name");
        reveal_strlit("ok");
        reveal_strlit("detail");
        assert("name"@.len() != "ok"@.len());
        assert("name"@.len() != "detail"@.len());
        assert("ok"@.len() != "detail"@.len());
        json::lemma_member(m, "name"@, 0);
        json::lemma_member(m, "ok"@, 1);
        json::lemma_member(m, "detail"@, 2);
    }
}

/// What a command that failed wrote to its standard error is its error; where it wrote
/// nothing there, what it wrote to its standard output; and else its exit code is told.
pub proof fn lemma_output_error(
    command: Seq<char>,
    stdout: Seq<char>,
    stderr: Seq<char>,
    code: Option<i32>,
)
    ensures
        !trim::is_blank(stderr) ==> output_error(command, stdout, stderr, code) == trim::trim(
            stderr,
        ),
        trim::is_blank(stderr) && !trim::is_blank(stdout) ==> output_error(
            command,
            stdout,
            stderr,
            code,
        ) == trim::trim(stdout),
        trim::is_blank(stderr) && trim::is_blank(stdout) ==> search::begins(
            output_error(command, stdout, stderr, code),
            command,
        ) && search::ends(
            output_error(command, stdout, stderr, code),
            number::option_debug(code),
        ),
{
    let s = command + " 退出码 "@ + number::option_debug(code);
    assert(s.take(command.len() as int) =~= command);
    assert(s.skip(s.len() - number::option_debug(code).len()) =~= number::option_debug(code));
}

/// The pieces that are not empty are those of a list that are not.
proof fn lemma_filled_pieces(v: Seq<Seq<char>>, piece: Seq<char>)
    requires
        v.contains(piece),
        piece.len() > 0,
    ensures
        filled_pieces(v).contains(piece),
    decreases v.len(),
{
    let rest = v.drop_last();
    let i = choose|i: int| 0 <= i < v.len() && v[i] == piece;
    if i < rest.len() {
        assert(rest[i] == piece);
        lemma_filled_pieces(rest, piece);
        let before = filled_pieces(rest);
        let k = choose|k: int| 0 <= k < before.len() && before[k] == piece;
        assert(filled_pieces(v)[k] == piece);
    } else {
        assert(filled_pieces(v)[filled_pieces(rest).len() as int] == piece);
    }
}

/// A command is looked for in each directory of `PATH`, in the places below the home
/// directory, and in that of Conda.
pub proof fn lemma_search_dirs(dirs: Seq<Seq<char>>, dir: Seq<char>, home: Seq<char>)
    requires
        dirs.contains(dir),
        dir.len() > 0,
        forall|i: int| 0 <= i < dirs.len() ==> !(#[trigger] dirs[i]).contains(':'),
    ensures
        ({
            let v = search_dirs(Some(split::join(dirs, seq![':'])), Some(home));
            &&& v.contains(dir)
            &&& v.contains(paths::join2(home, ".local"@, "bin"@))
            &&& v.contains(paths::join(home, "bin"@))
            &&& v.contains(paths::join2(home, "miniconda3"@, "bin"@))
            &&& v.contains(paths::join2(home, "anaconda3"@, "bin"@))
            &&& v.last() == "/opt/conda/bin"@
        }),
{
    split::lemma_split_joined(dirs, ':');
    lemma_filled_pieces(dirs, dir);
    let listed = filled_pieces(dirs);
    let v = search_dirs(Some(split::join(dirs, seq![':'])), Some(home));
    let k = choose|k: int| 0 <= k < listed.len() && listed[k] == dir;
    let n = listed.len() as int;
    assert(v[k] == dir);
    assert(v[n] == paths::join2(home, ".local"@, "bin"@));
    assert(v[n + 1] == paths::join(home, "bin"@));
    assert(v[n + 2] == paths::join2(home, "miniconda3"@, "bin"@));
    assert(v[n + 3] == paths::join2(home, "anaconda3"@, "bin"@));
}

/// A configuration that was read is shown with its keys masked; one that was written is
/// accepted, and nothing else is.
pub proof fn lemma_config_replies(raw: String, cfg: Tree, outcome: ConfigSet)
    requires
        json::json_text(raw@) == Ok::<Tree, Seq<char>>(cfg),
    ensures
        config_get_reply(ConfigRead::Text(raw)).ok,
        config_get_reply(ConfigRead::Text(raw)).data == Some(masked_config(cfg)),
        config_set_reply(raw@, outcome).ok == (outcome is Written),
        !config_get_reply(ConfigRead::Failed { error: raw }).ok,
        config_get_reply(ConfigRead::Missing).ok,
{
}

/// The key that is stored is put in the profile in use, if it is one of the provider;
/// nothing else of that profile changes, and no other profile does.
pub proof fn lemma_stored_key_changes_nothing_else(
    cfg: ConfigView,
    adapter: Seq<char>,
    provider: Seq<char>,
    key: Seq<char>,
    other: Seq<char>,
)
    requires
        config::find(cfg.profiles, cfg.active_id) is Some,
    ensures
        ({
            let before = config::find(cfg.profiles, cfg.active_id)->0;
            let after = with_key(cfg, adapter, provider, key);
            let found = config::find(after.profiles, after.active_id);
            &&& before.template_id == provider || adapter == provider ==> found == Some(
                ProfileView { api_key: key, ..before },
            )
            &&& before.template_id != provider && adapter != provider ==> found == Some(before)
            &&& other != cfg.active_id ==> config::find(after.profiles, other) == config::find(
                cfg.profiles,
                other,
            )
            &&& after.active_id == cfg.active_id && after.proxy_port == cfg.proxy_port
                && after.sandbox_port == cfg.sandbox_port && after.secret == cfg.secret
        }),
{
    let after = with_key(cfg, adapter, provider, key);
    let (v, w) = (cfg.profiles, after.profiles);
    let i = config::place_of(v, cfg.active_id);
    config::lemma_place_of(v, cfg.active_id);
    config::lemma_place_of(v, other);
    assert(w.len() == v.len() && w[i].id == v[i].id);
    assert forall|j: int| 0 <= j < v.len() implies (#[trigger] w[j]).id == v[j].id by {}
    assert forall|j: int| 0 <= j < i implies (#[trigger] w[j]).id != cfg.active_id by {
        assert(v[j].id != cfg.active_id);
    }
    config::lemma_place_of_is(w, cfg.active_id, i);
    let k = config::place_of(v, other);
    assert forall|j: int| 0 <= j < k implies (#[trigger] w[j]).id != other by {
        assert(v[j].id != other);
    }
    config::lemma_place_of_is(w, other, k);
}

/// The last four bytes of a key are shown, if a character ends before them; a bullet stands
/// for each byte before them.
pub proof fn lemma_mask_shows_the_end(a: Seq<char>, b: Seq<char>)
    requires
        a.len() > 0,
        bytes::size(b) == 4,
    ensures
        masked(a + b) == bullets(bytes::size(a)) + b,
        bullets(bytes::size(a)).len() == bytes::size(a),
        forall|i: int| 0 <= i < bytes::size(a) ==> bullets(bytes::size(a))[i] == '•',
{
    bytes::lemma_cut(a, b);
}

/// A helper without a configuration has the usual ports, and none but the proxy's mode.
pub proof fn lemma_default_config()
    ensures
        json::text_field(default_config(), "provider"@) == Some("deepseek"@),
        json::number_field(default_config(), "proxy_port"@) == Some(18991u64),
        json::number_field(default_config(), "sandbox_port"@) == Some(8990u64),
        json::text_field(default_config(), "mode"@) == Some("proxy"@),
{
    let m = default_config()->Object_0;
    reveal_strlit("provider");
    reveal_strlit("proxy_port");
    reveal_strlit("sandbox_port");
    reveal_strlit("mode");
    assert("provider"@.len() != "proxy_port"@.len());
    assert("provider"@.len() != "sandbox_port"@.len());
    assert("provider"@.len() != "mode"@.len());
    assert("proxy_port"@.len() != "sandbox_port"@.len());
    assert("proxy_port"@.len() != "mode"@.len());
    assert("sandbox_port"@.len() != "mode"@.len());
    json::lemma_member(m, "provider"@, 0);
    json::lemma_member(m, "proxy_port"@, 1);
    json::lemma_member(m, "sandbox_port"@, 2);
    json::lemma_member(m, "mode"@, 3);
}

/// The body of an answer is what stands behind its first empty line, and its status the
/// number behind the protocol.
pub proof fn lemma_answer_parts(head: Seq<char>, body: Seq<char>, code: u16)
    requires
        status_word(head + "\r\n\r\n"@ + body) == Some(number::decimal(code as nat)),
        forall|j: int|
            0 <= j < head.len() ==> !search::occurs_at(
                head + "\r\n\r\n"@ + body,
                "\r\n\r\n"@,
                j,
            ),
    ensures
        answer_parts(head + "\r\n\r\n"@ + body) == (Some(code as nat), body),
{
    number::lemma_parse_decimal(code as nat, 65535);
    let text = head + "\r\n\r\n"@ + body;
    let k = head.len() as int;
    let n = "\r\n\r\n"@.len() as int;
    assert(text.subrange(k, k + n) =~= "\r\n\r\n"@);
    search::lemma_around(text, "\r\n\r\n"@, k);
    assert(text.skip(k + n) =~= body);
}

/// A proxy is started with the address, the model and the key of the profile in use. The
/// profile must be of the source that is asked for; one without a key leaves the choice to
/// the environment, and a source without an address of its own needs an HTTP address and a
/// model.
pub proof fn lemma_configured_launch(
    cfg: ConfigView,
    adapter: Seq<char>,
    thinking_policy: Seq<char>,
    provider: Seq<char>,
)
    ensures
        ({
            let found = config::find(cfg.profiles, cfg.active_id);
            let r = configured_launch(cfg, adapter, thinking_policy, provider);
            let native = adapter == "deepseek"@ || adapter == "qwen"@;
            &&& found is None ==> r == Ok::<Option<LaunchView>, Seq<char>>(None)
            &&& found matches Some(p) ==> {
                let asked = provider == adapter || provider == p.template_id;
                let http = search::begins(p.base_url, "http://"@) || search::begins(
                    p.base_url,
                    "https://"@,
                );
                &&& !asked ==> r is Err
                &&& asked && trim::is_blank(p.api_key) ==> r == Ok::<
                    Option<LaunchView>,
                    Seq<char>,
                >(None)
                &&& asked && !trim::is_blank(p.api_key) && !native && (!http || trim::is_blank(
                    p.model,
                )) ==> r is Err
                &&& asked && !trim::is_blank(p.api_key) && (native || http && !trim::is_blank(
                    p.model,
                ) && !trim::is_blank(p.base_url)) ==> {
                    &&& r matches Ok(Some(l))
                    &&& l.adapter == adapter && l.thinking_policy == thinking_policy
                    &&& l.base_url == p.base_url && l.model == p.model
                    &&& l.key == trim::trim(p.api_key)
                }
            }
        }),
{
}

/// A configuration that cannot be read, is no JSON, is none of this program, or cannot be
/// written is refused, each under its own code, with what went wrong.
pub proof fn lemma_config_refusals(raw: String, error: String, why: Seq<char>)
    ensures
        config_get_reply(ConfigRead::Failed { error }).error matches Some(e) && e.code
            == "config_read_error"@ && search::ends(e.message, error@),
        json::json_text(raw@) == Err::<Tree, Seq<char>>(why) ==> (config_get_reply(
            ConfigRead::Text(raw),
        ).error matches Some(e) && e.code == "config_parse_error"@ && search::ends(e.message, why)),
        json::json_text(raw@) == Err::<Tree, Seq<char>>(why) ==> (config_set_reply(
            raw@,
            ConfigSet::Written,
        ).error matches Some(e) && e.code == "config_parse_error"@ && search::ends(e.message, why)),
        json::json_text(raw@) is Ok ==> (config_set_reply(
            raw@,
            ConfigSet::NoConfig { error },
        ).error matches Some(e) && e.code == "config_parse_error"@ && search::ends(
            e.message,
            error@,
        )),
        json::json_text(raw@) is Ok ==> (config_set_reply(
            raw@,
            ConfigSet::NotWritten { error },
        ).error matches Some(e) && e.code == "config_write_error"@ && search::ends(
            e.message,
            error@,
        )),
        save_key_reply(raw@, Err(error)).error matches Some(e) && e.code == "config_write_error"@
            && search::ends(e.message, error@),
{
    search::lemma_ends_joined("无法读取配置文件："@, error@);
    search::lemma_ends_joined("配置文件格式错误："@, why);
    search::lemma_ends_joined("JSON 解析失败："@, why);
    search::lemma_ends_joined("配置格式错误："@, error@);
    search::lemma_ends_joined("写入配置失败："@, error@);
    search::lemma_ends_joined("保存 key 失败："@, error@);
}

} // verus!
