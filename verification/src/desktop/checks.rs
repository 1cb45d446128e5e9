//! Whether a source of models may be used, and how the proxy is started for it.

use vstd::prelude::*;

use crate::config::{Profile, ProfileView};
use crate::launch::{self, is_native_adapter, key_env_for_adapter, LaunchView, ProxyLaunch};
use crate::remote_commands::{self, http_url};
use crate::text::chars::{self, cat3, chars_of, same, string_from};
use crate::text::encode::{self, lowered_ascii};
use crate::text::search::{self, includes, stripped};
use crate::text::trim::{self, blank, end_char_trimmed, trimmed};

verus! {

/// The start value of a fingerprint.
pub const FNV_OFFSET: u64 = 0xcbf29ce484222325;

/// The factor of a fingerprint.
pub const FNV_PRIME: u64 = 0x100000001b3;

/// The FNV-1a hash of bytes.
pub open spec fn fnv(b: Seq<u8>) -> u64
    decreases b.len(),
{
    if b.len() == 0 {
        FNV_OFFSET
    } else {
        (fnv(b.drop_last()) ^ (b.last() as u64)).wrapping_mul(FNV_PRIME)
    }
}

/// The fingerprint of a key: the FNV-1a hash of its UTF-8 form.
pub fn key_fingerprint(s: &str) -> (r: u64)
    ensures
        r == fnv(vstd::utf8::encode_utf8(s@)),
{
    let b = s.as_bytes();
    let mut hash: u64 = FNV_OFFSET;
    let n = b.len();
    let mut i: usize = 0;
    while i < n
        invariant
            n == b@.len(),
            i <= n,
            hash == fnv(b@.take(i as int)),
        decreases n - i,
    {
        proof {
            assert(b@.take(i + 1).drop_last() =~= b@.take(i as int));
            assert(b@.take(i + 1).last() == b@[i as int]);
        }
        hash = (hash ^ (b[i] as u64)).wrapping_mul(FNV_PRIME);
        i = i + 1;
    }
    assert(b@.take(n as int) =~= b@);
    hash
}

/// Whether an address looks like one of the Anthropic form.
pub open spec fn anthropic_address(base_url: Seq<char>) -> bool {
    search::contains(
        encode::ascii_lower(trim::trim_end_char(trim::trim(base_url), '/')),
        "/anthropic"@,
    )
}

/// Whether an address looks like one of the Anthropic form.
pub fn looks_like_anthropic_endpoint(base_url: &str) -> (r: bool)
    ensures
        r == anthropic_address(base_url@),
{
    let inner = trimmed(base_url);
    let root = end_char_trimmed(inner.as_str(), '/');
    let lower = lowered_ascii(root.as_str());
    includes(lower.as_str(), "/anthropic")
}

/// What is said where an address of the Anthropic form is given for a source of the
/// OpenAI form.
pub const WRONG_FORM: &'static str = "这个地址看起来是 Anthropic 兼容端点。请改选「自定义 Anthropic」，或使用 OpenAI 兼容 base root（如 https://api.moonshot.cn/v1）。";

/// Whether an address is of the wrong form for a template.
pub open spec fn wrong_form(template_id: Seq<char>, base_url: Seq<char>) -> bool {
    (template_id == "custom-openai"@ || template_id == "custom-openai-responses"@)
        && anthropic_address(base_url)
}

/// Refuses an address of the wrong form for a template.
pub fn reject_openai_custom_anthropic_base(template_id: &str, base_url: &str) -> (r: Result<
    (),
    String,
>)
    ensures
        match r {
            Ok(()) => !wrong_form(template_id@, base_url@),
            Err(e) => wrong_form(template_id@, base_url@) && e@ == WRONG_FORM@,
        },
{
    if (same(template_id, "custom-openai") || same(template_id, "custom-openai-responses"))
        && looks_like_anthropic_endpoint(base_url) {
        Err(WRONG_FORM.to_string())
    } else {
        Ok(())
    }
}

/// Whether a character ends the host in an address.
pub open spec fn ends_host(c: char) -> bool {
    c == '/' || c == ':' || c == '?' || c == '#'
}

/// How many characters stand before the first that ends a host.
pub open spec fn host_len(s: Seq<char>) -> nat
    decreases s.len(),
{
    if s.len() == 0 || ends_host(s[0]) {
        0
    } else {
        1 + host_len(s.drop_first())
    }
}

/// The host in an address of the form `http://` or `https://`, if it is not empty.
pub open spec fn host_of(url: Seq<char>) -> Option<Seq<char>> {
    let rest = match search::after_prefix(url, "https://"@) {
        Some(s) => Some(s),
        None => search::after_prefix(url, "http://"@),
    };
    match rest {
        Some(s) => if host_len(s) == 0 {
            None
        } else {
            Some(s.take(host_len(s) as int))
        },
        None => None,
    }
}

/// The characters before the first that ends a host are as many as a scan passes.
proof fn lemma_host_len(s: Seq<char>, k: int)
    requires
        0 <= k <= s.len(),
        forall|j: int| 0 <= j < k ==> !ends_host(#[trigger] s[j]),
        k < s.len() ==> ends_host(s[k]),
    ensures
        host_len(s) == k,
    decreases s.len(),
{
    if k > 0 {
        assert forall|j: int| 0 <= j < k - 1 implies !ends_host(#[trigger] s.drop_first()[j]) by {
            assert(s.drop_first()[j] == s[j + 1]);
        }
        assert(!ends_host(s[0]));
        lemma_host_len(s.drop_first(), k - 1);
    }
}

/// The host in an address of the form `http://` or `https://`, if it is not empty.
pub fn parse_host(url: &str) -> (r: Option<String>)
    ensures
        chars::opt_text(r) == host_of(url@),
{
    let rest = match stripped(url, "https://") {
        Some(s) => s,
        None => match stripped(url, "http://") {
            Some(s) => s,
            None => return None,
        },
    };
    let cs = chars_of(rest.as_str());
    let n = cs.len();
    let mut k: usize = 0;
    while k < n && cs[k] != '/' && cs[k] != ':' && cs[k] != '?' && cs[k] != '#'
        invariant
            n == cs@.len(),
            k <= n,
            forall|j: int| 0 <= j < k ==> !ends_host(#[trigger] cs@[j]),
        decreases n - k,
    {
        k = k + 1;
    }
    proof {
        lemma_host_len(cs@, k as int);
        assert(cs@.subrange(0, k as int) =~= rest@.take(k as int));
    }
    if k == 0 {
        None
    } else {
        Some(string_from(&cs, 0, k))
    }
}

/// The host that a source of models is reached at.
pub open spec fn source_host(adapter: Seq<char>, base_url: Seq<char>) -> Seq<char> {
    if adapter == "deepseek"@ {
        "api.deepseek.com"@
    } else if adapter == "qwen"@ {
        "dashscope.aliyuncs.com"@
    } else {
        match host_of(base_url) {
            Some(h) => h,
            None => Seq::empty(),
        }
    }
}

/// The host that a source of models is reached at.
pub fn upstream_host(adapter: &str, base_url: &str) -> (r: String)
    ensures
        r@ == source_host(adapter@, base_url@),
{
    if same(adapter, "deepseek") {
        "api.deepseek.com".to_string()
    } else if same(adapter, "qwen") {
        "dashscope.aliyuncs.com".to_string()
    } else {
        match parse_host(base_url) {
            Some(h) => h,
            None => {
                let none = String::new();
                assert(none@ =~= Seq::empty());
                none
            },
        }
    }
}

/// What the proxy is started with for a profile, whose template has the given adapter.
pub open spec fn launch_for(
    p: ProfileView,
    adapter: Seq<char>,
    thinking_policy: Seq<char>,
) -> LaunchView {
    LaunchView {
        adapter,
        base_url: p.base_url,
        model: p.model,
        key: p.api_key,
        key_env: launch::key_variable(adapter),
        thinking_policy,
    }
}

/// What the proxy is started with for a profile, whose template has the given adapter.
pub fn proxy_launch_for(profile: &Profile, adapter: &str, thinking_policy: &str) -> (r: ProxyLaunch)
    ensures
        r@ == launch_for(profile@, adapter@, thinking_policy@),
{
    ProxyLaunch {
        key_env: key_env_for_adapter(adapter),
        adapter: adapter.to_string(),
        base_url: profile.base_url.clone(),
        model: profile.model.clone(),
        key: profile.api_key.clone(),
        thinking_policy: thinking_policy.to_string(),
    }
}

/// Whether an address can be reached: it is not blank and has the form `http://` or
/// `https://`.
pub open spec fn reachable(base_url: Seq<char>) -> bool {
    !trim::is_blank(base_url) && remote_commands::is_http(base_url)
}

/// Whether an interface of a source is one that the proxy speaks.
pub open spec fn known_format(api_format: Seq<char>) -> bool {
    api_format == "anthropic"@ || api_format == "openai_chat"@ || api_format == "openai_responses"@
}

/// What keeps the proxy from being started for a profile, if anything does.
pub open spec fn run_fault(p: ProfileView, adapter: Seq<char>) -> Option<Seq<char>> {
    if !known_format(p.api_format) {
        Some(
            "api_format `"@ + p.api_format
                + "` 暂不支持，请选 anthropic、openai_chat 或 openai_responses。"@,
        )
    } else if trim::is_blank(p.api_key) {
        Some("当前 Profile 未填写 API Key。请填写后重试。"@)
    } else if launch::is_native(adapter) {
        None
    } else if !reachable(p.base_url) {
        Some("relay 配置需要 http(s):// 开头的 base_url。"@)
    } else if trim::is_blank(p.model) {
        Some("relay 配置需要选择或填写模型。"@)
    } else {
        None
    }
}

/// Whether the proxy can be started for a profile, whose template has the given adapter.
pub fn assert_profile_runnable(profile: &Profile, adapter: &str) -> (r: Result<(), String>)
    ensures
        match r {
            Ok(()) => run_fault(profile@, adapter@) is None,
            Err(e) => run_fault(profile@, adapter@) == Some(e@),
        },
{
    let format = profile.api_format.as_str();
    if !same(format, "anthropic") && !same(format, "openai_chat") && !same(
        format,
        "openai_responses",
    ) {
        return Err(
            cat3(
                "api_format `",
                format,
                "` 暂不支持，请选 anthropic、openai_chat 或 openai_responses。",
            ),
        );
    }
    if blank(profile.api_key.as_str()) {
        return Err("当前 Profile 未填写 API Key。请填写后重试。".to_string());
    }
    if !is_native_adapter(adapter) {
        if blank(profile.base_url.as_str()) || !http_url(profile.base_url.as_str()) {
            return Err("relay 配置需要 http(s):// 开头的 base_url。".to_string());
        }
        if blank(profile.model.as_str()) {
            return Err("relay 配置需要选择或填写模型。".to_string());
        }
    }
    Ok(())
}

/// What is wrong with the address of a profile, if anything is.
pub open spec fn address_fault(p: ProfileView, adapter: Seq<char>) -> Option<Seq<char>> {
    if !launch::is_native(adapter) && !reachable(p.base_url) {
        Some("base_url 必须以 http:// 或 https:// 开头。"@)
    } else if wrong_form(p.template_id, p.base_url) {
        Some(WRONG_FORM@)
    } else {
        None
    }
}

/// Whether a profile, whose template has the given adapter, has an address that can be
/// used.
pub fn validate_base_url_for_profile(profile: &Profile, adapter: &str) -> (r: Result<(), String>)
    ensures
        match r {
            Ok(()) => address_fault(profile@, adapter@) is None,
            Err(e) => address_fault(profile@, adapter@) == Some(e@),
        },
{
    if !is_native_adapter(adapter) && (blank(profile.base_url.as_str()) || !http_url(
        profile.base_url.as_str(),
    )) {
        return Err("base_url 必须以 http:// 或 https:// 开头。".to_string());
    }
    reject_openai_custom_anthropic_base(profile.template_id.as_str(), profile.base_url.as_str())
}

/// A profile can be run exactly if its interface is one of three, it has a key and, unless
/// its source is DeepSeek or Qwen, an HTTP address and a model.
pub proof fn lemma_runnable(p: ProfileView, adapter: Seq<char>)
    ensures
        run_fault(p, adapter) is None <==> {
            &&& p.api_format == "anthropic"@ || p.api_format == "openai_chat"@ || p.api_format
                == "openai_responses"@
            &&& !trim::is_blank(p.api_key)
            &&& adapter == "deepseek"@ || adapter == "qwen"@ || ((search::begins(
                p.base_url,
                "http://"@,
            ) || search::begins(p.base_url, "https://"@)) && !trim::is_blank(p.model))
        },
{
    lemma_http_is_not_blank(p.base_url);
}

/// An HTTP address is not blank.
proof fn lemma_http_is_not_blank(url: Seq<char>)
    ensures
        search::begins(url, "http://"@) || search::begins(url, "https://"@) ==> !trim::is_blank(url),
{
    reveal_strlit("http://");
    reveal_strlit("https://");
    trim::lemma_blank(url);
    if search::begins(url, "http://"@) {
        assert(url[0] == url.take("http://"@.len() as int)[0]);
        assert(!chars::is_space(url[0]));
    }
    if search::begins(url, "https://"@) {
        assert(url[0] == url.take("https://"@.len() as int)[0]);
        assert(!chars::is_space(url[0]));
    }
}

/// The address of a profile can be used exactly if it is an HTTP address, unless its source
/// is DeepSeek or Qwen, and is not one of the Anthropic form for a source of the OpenAI form
/// that the user set up.
pub proof fn lemma_usable_address(p: ProfileView, adapter: Seq<char>)
    ensures
        address_fault(p, adapter) is None <==> {
            &&& adapter == "deepseek"@ || adapter == "qwen"@ || search::begins(
                p.base_url,
                "http://"@,
            ) || search::begins(p.base_url, "https://"@)
            &&& p.template_id == "custom-openai"@ || p.template_id == "custom-openai-responses"@
                ==> !anthropic_address(p.base_url)
        },
{
    lemma_http_is_not_blank(p.base_url);
}

/// The host of an address is what stands between its scheme and its port, path, query or
/// fragment.
pub proof fn lemma_host(host: Seq<char>, rest: Seq<char>)
    requires
        host.len() > 0,
        forall|i: int| 0 <= i < host.len() ==> !ends_host(#[trigger] host[i]),
        rest.len() > 0 ==> ends_host(rest[0]),
    ensures
        host_of("https://"@ + host + rest) == Some(host),
        host_of("http://"@ + host + rest) == Some(host),
        source_host("relay"@, "https://"@ + host + rest) == host,
        source_host("deepseek"@, "https://"@ + host + rest) == "api.deepseek.com"@,
        source_host("qwen"@, "https://"@ + host + rest) == "dashscope.aliyuncs.com"@,
{
    reveal_strlit("https://");
    reveal_strlit("http://");
    reveal_strlit("relay");
    reveal_strlit("deepseek");
    reveal_strlit("qwen");
    assert("relay"@.len() != "deepseek"@.len() && "relay"@.len() != "qwen"@.len()
        && "deepseek"@.len() != "qwen"@.len());
    let s = host + rest;
    let secure = "https://"@ + host + rest;
    let plain = "http://"@ + host + rest;
    assert(secure.take(8) =~= "https://"@);
    assert(secure.skip(8) =~= s);
    assert(plain.take(7) =~= "http://"@);
    assert(plain.skip(7) =~= s);
    assert(!search::begins(plain, "https://"@)) by {
        assert(plain[4] == ':');
        if search::begins(plain, "https://"@) {
            assert(plain.take(8)[4] == "https://"@[4]);
        }
    }
    assert forall|i: int| 0 <= i < host.len() implies !ends_host(#[trigger] s[i]) by {
        assert(s[i] == host[i]);
    }
    lemma_host_len(s, host.len() as int);
    assert(s.take(host.len() as int) =~= host);
}

/// What the proxy is started with for a profile is what the profile says.
pub proof fn lemma_launch_for(p: ProfileView, adapter: Seq<char>, thinking_policy: Seq<char>)
    ensures
        ({
            let l = launch_for(p, adapter, thinking_policy);
            &&& l.key == p.api_key && l.base_url == p.base_url && l.model == p.model
            &&& l.adapter == adapter && l.thinking_policy == thinking_policy
            &&& l.key_env == launch::key_variable(adapter)
        }),
{
}

/// A fingerprint is made byte by byte, as FNV-1a is.
pub proof fn lemma_fingerprint(b: Seq<u8>, x: u8)
    ensures
        fnv(Seq::empty()) == 0xcbf29ce484222325,
        fnv(b.push(x)) == (fnv(b) ^ (x as u64)).wrapping_mul(0x100000001b3u64),
{
    assert(b.push(x).drop_last() =~= b);
}

/// An address of the Anthropic form is refused for the two custom sources of the other
/// form, whatever its case and the slashes behind it, and for no other source.
pub proof fn lemma_wrong_form(template_id: Seq<char>, base_url: Seq<char>)
    ensures
        wrong_form("custom-openai"@, base_url) == anthropic_address(base_url),
        wrong_form("custom-openai-responses"@, base_url) == anthropic_address(base_url),
        template_id != "custom-openai"@ && template_id != "custom-openai-responses"@
            ==> !wrong_form(template_id, base_url),
        anthropic_address(base_url) <==> search::contains(
            encode::ascii_lower(trim::trim_end_char(trim::trim(base_url), '/')),
            "/anthropic"@,
        ),
{
}

} // verus!
