//! How the proxy is started that talks to a source of models.

use vstd::prelude::*;

use crate::text::chars::{self, push_pair, push_text, same};
use crate::text::number::{self, number_text};
use crate::text::options;

verus! {

/// What the proxy is started with.
#[derive(Debug)]
pub struct ProxyLaunch {
    pub adapter: String,
    pub base_url: String,
    pub model: String,
    pub key: String,
    /// The name of the variable that holds the key.
    pub key_env: &'static str,
    pub thinking_policy: String,
}

/// The contents of a launch.
pub struct LaunchView {
    pub adapter: Seq<char>,
    pub base_url: Seq<char>,
    pub model: Seq<char>,
    pub key: Seq<char>,
    pub key_env: Seq<char>,
    pub thinking_policy: Seq<char>,
}

impl View for ProxyLaunch {
    type V = LaunchView;

    open spec fn view(&self) -> LaunchView {
        LaunchView {
            adapter: self.adapter@,
            base_url: self.base_url@,
            model: self.model@,
            key: self.key@,
            key_env: self.key_env@,
            thinking_policy: self.thinking_policy@,
        }
    }
}

/// The name of the variable that holds the key.
pub open spec fn key_variable(adapter: Seq<char>) -> Seq<char> {
    if adapter == "deepseek"@ {
        "DEEPSEEK_API_KEY"@
    } else if adapter == "qwen"@ {
        "DASHSCOPE_API_KEY"@
    } else if is_openai(adapter) {
        "CSSWITCH_OPENAI_KEY"@
    } else {
        "CSSWITCH_RELAY_KEY"@
    }
}

/// An adapter for one source, whose address it knows.
pub open spec fn is_native(adapter: Seq<char>) -> bool {
    adapter == "deepseek"@ || adapter == "qwen"@
}

/// An adapter for sources that speak as OpenAI does.
pub open spec fn is_openai(adapter: Seq<char>) -> bool {
    adapter == "openai-custom"@ || adapter == "openai-responses"@
}

/// A variable with a value, if the value is not empty.
pub open spec fn variable_if_set(name: Seq<char>, value: Seq<char>) -> Seq<
    (Seq<char>, Seq<char>),
> {
    if value.len() > 0 {
        seq![(name, value)]
    } else {
        Seq::empty()
    }
}

/// The environment of the proxy.
pub open spec fn proxy_env(launch: LaunchView) -> Seq<(Seq<char>, Seq<char>)> {
    let source = if is_native(launch.adapter) {
        Seq::empty()
    } else if is_openai(launch.adapter) {
        seq![("CSSWITCH_OPENAI_BASE_URL"@, launch.base_url)] + variable_if_set(
            "CSSWITCH_OPENAI_MODEL"@,
            launch.model,
        )
    } else {
        seq![("CSSWITCH_RELAY_BASE_URL"@, launch.base_url)] + variable_if_set(
            "CSSWITCH_RELAY_MODEL"@,
            launch.model,
        ) + variable_if_set("CSSWITCH_RELAY_THINKING"@, launch.thinking_policy)
    };
    seq![(launch.key_env, launch.key)] + source
}

/// The arguments of the interpreter that runs the proxy.
pub open spec fn proxy_args(
    script: Seq<char>,
    launch: LaunchView,
    port: u16,
    secret: Seq<char>,
) -> Seq<Seq<char>> {
    seq![
        script,
        "--provider"@,
        launch.adapter,
        "--port"@,
        number::decimal(port as nat),
        "--auth-token"@,
        secret,
    ]
}

/// The key never reaches the command line: the arguments are the same whatever the
/// key is. It stands in the environment, under the name for the adapter.
pub proof fn lemma_key_stays_out_of_arguments(
    script: Seq<char>,
    launch: LaunchView,
    port: u16,
    secret: Seq<char>,
    other_key: Seq<char>,
)
    ensures
        proxy_args(script, LaunchView { key: other_key, ..launch }, port, secret) == proxy_args(
            script,
            launch,
            port,
            secret,
        ),
        proxy_env(launch).contains((launch.key_env, launch.key)),
{
    assert(proxy_env(launch)[0] == (launch.key_env, launch.key));
}

/// The variables of the proxy are told apart by their names.
proof fn lemma_variable_names()
    ensures
        "CSSWITCH_OPENAI_KEY"@ != "CSSWITCH_OPENAI_BASE_URL"@,
        "CSSWITCH_OPENAI_KEY"@ != "CSSWITCH_OPENAI_MODEL"@,
        "CSSWITCH_OPENAI_BASE_URL"@ != "CSSWITCH_OPENAI_MODEL"@,
        "CSSWITCH_RELAY_KEY"@ != "CSSWITCH_RELAY_BASE_URL"@,
        "CSSWITCH_RELAY_KEY"@ != "CSSWITCH_RELAY_MODEL"@,
        "CSSWITCH_RELAY_KEY"@ != "CSSWITCH_RELAY_THINKING"@,
        "CSSWITCH_RELAY_BASE_URL"@ != "CSSWITCH_RELAY_MODEL"@,
        "CSSWITCH_RELAY_BASE_URL"@ != "CSSWITCH_RELAY_THINKING"@,
        "CSSWITCH_RELAY_MODEL"@ != "CSSWITCH_RELAY_THINKING"@,
{
    reveal_strlit("CSSWITCH_OPENAI_KEY");
    reveal_strlit("CSSWITCH_OPENAI_BASE_URL");
    reveal_strlit("CSSWITCH_OPENAI_MODEL");
    reveal_strlit("CSSWITCH_RELAY_KEY");
    reveal_strlit("CSSWITCH_RELAY_BASE_URL");
    reveal_strlit("CSSWITCH_RELAY_MODEL");
    reveal_strlit("CSSWITCH_RELAY_THINKING");
    assert("CSSWITCH_OPENAI_KEY"@.len() != "CSSWITCH_OPENAI_BASE_URL"@.len());
    assert("CSSWITCH_OPENAI_KEY"@.len() != "CSSWITCH_OPENAI_MODEL"@.len());
    assert("CSSWITCH_OPENAI_BASE_URL"@.len() != "CSSWITCH_OPENAI_MODEL"@.len());
    assert("CSSWITCH_RELAY_KEY"@.len() != "CSSWITCH_RELAY_BASE_URL"@.len());
    assert("CSSWITCH_RELAY_KEY"@.len() != "CSSWITCH_RELAY_MODEL"@.len());
    assert("CSSWITCH_RELAY_KEY"@.len() != "CSSWITCH_RELAY_THINKING"@.len());
    assert("CSSWITCH_RELAY_BASE_URL"@.len() != "CSSWITCH_RELAY_MODEL"@.len());
    assert("CSSWITCH_RELAY_BASE_URL"@[15] != "CSSWITCH_RELAY_THINKING"@[15]);
    assert("CSSWITCH_RELAY_MODEL"@.len() != "CSSWITCH_RELAY_THINKING"@.len());
}

/// The adapters are told apart by their names.
proof fn lemma_adapter_names()
    ensures
        "deepseek"@ != "qwen"@,
        "deepseek"@ != "openai-custom"@,
        "deepseek"@ != "openai-responses"@,
        "qwen"@ != "openai-custom"@,
        "qwen"@ != "openai-responses"@,
        "openai-custom"@ != "openai-responses"@,
{
    reveal_strlit("deepseek");
    reveal_strlit("qwen");
    reveal_strlit("openai-custom");
    reveal_strlit("openai-responses");
    assert("deepseek"@.len() != "qwen"@.len());
    assert("deepseek"@.len() != "openai-custom"@.len());
    assert("deepseek"@.len() != "openai-responses"@.len());
    assert("qwen"@.len() != "openai-custom"@.len());
    assert("qwen"@.len() != "openai-responses"@.len());
    assert("openai-custom"@.len() != "openai-responses"@.len());
}

/// A proxy for DeepSeek or Qwen gets its key under the name that this source gives it, and
/// nothing else.
pub proof fn lemma_native_environment(launch: LaunchView)
    requires
        launch.key_env == key_variable(launch.adapter),
        launch.adapter == "deepseek"@ || launch.adapter == "qwen"@,
    ensures
        proxy_env(launch).len() == 1,
        launch.adapter == "deepseek"@ ==> options::sets(
            proxy_env(launch),
            "DEEPSEEK_API_KEY"@,
            launch.key,
        ),
        launch.adapter == "qwen"@ ==> options::sets(
            proxy_env(launch),
            "DASHSCOPE_API_KEY"@,
            launch.key,
        ),
{
    lemma_adapter_names();
    let env = proxy_env(launch);
    assert(env[0] == (launch.key_env, launch.key));
    options::lemma_sets(env, 0);
}

/// A proxy for a source that speaks as OpenAI does gets the key, the address and, where one
/// is chosen, the model of the source, each under its own variable, and nothing else.
pub proof fn lemma_openai_environment(launch: LaunchView)
    requires
        launch.key_env == key_variable(launch.adapter),
        launch.adapter == "openai-custom"@ || launch.adapter == "openai-responses"@,
    ensures
        ({
            let env = proxy_env(launch);
            &&& options::sets(env, "CSSWITCH_OPENAI_KEY"@, launch.key)
            &&& options::sets(env, "CSSWITCH_OPENAI_BASE_URL"@, launch.base_url)
            &&& if launch.model.len() > 0 {
                options::sets(env, "CSSWITCH_OPENAI_MODEL"@, launch.model) && env.len() == 3
            } else {
                options::lacks(env, "CSSWITCH_OPENAI_MODEL"@) && env.len() == 2
            }
        }),
{
    lemma_adapter_names();
    lemma_variable_names();
    let env = proxy_env(launch);
    assert(env[0] == (launch.key_env, launch.key));
    assert(env[1] == ("CSSWITCH_OPENAI_BASE_URL"@, launch.base_url));
    if launch.model.len() > 0 {
        assert(env[2] == ("CSSWITCH_OPENAI_MODEL"@, launch.model));
        options::lemma_sets(env, 2);
    }
    options::lemma_sets(env, 0);
    options::lemma_sets(env, 1);
}

/// A proxy for any other source gets the key, the address and, where they are chosen, the
/// model of the source and how it thinks, each under its own variable, and nothing else.
pub proof fn lemma_relay_environment(launch: LaunchView)
    requires
        launch.key_env == key_variable(launch.adapter),
        launch.adapter != "deepseek"@ && launch.adapter != "qwen"@,
        launch.adapter != "openai-custom"@ && launch.adapter != "openai-responses"@,
    ensures
        ({
            let env = proxy_env(launch);
            &&& options::sets(env, "CSSWITCH_RELAY_KEY"@, launch.key)
            &&& options::sets(env, "CSSWITCH_RELAY_BASE_URL"@, launch.base_url)
            &&& if launch.model.len() > 0 {
                options::sets(env, "CSSWITCH_RELAY_MODEL"@, launch.model)
            } else {
                options::lacks(env, "CSSWITCH_RELAY_MODEL"@)
            }
            &&& if launch.thinking_policy.len() > 0 {
                options::sets(env, "CSSWITCH_RELAY_THINKING"@, launch.thinking_policy)
            } else {
                options::lacks(env, "CSSWITCH_RELAY_THINKING"@)
            }
            &&& env.len() <= 4
        }),
{
    lemma_variable_names();
    let env = proxy_env(launch);
    assert(env[0] == (launch.key_env, launch.key));
    assert(env[1] == ("CSSWITCH_RELAY_BASE_URL"@, launch.base_url));
    let k = if launch.model.len() > 0 {
        3int
    } else {
        2int
    };
    if launch.model.len() > 0 {
        assert(env[2] == ("CSSWITCH_RELAY_MODEL"@, launch.model));
        options::lemma_sets(env, 2);
    }
    if launch.thinking_policy.len() > 0 {
        assert(env[k] == ("CSSWITCH_RELAY_THINKING"@, launch.thinking_policy));
        options::lemma_sets(env, k);
    }
    options::lemma_sets(env, 0);
    options::lemma_sets(env, 1);
}

/// The script of the proxy is run with three options: the adapter, a port that reads as the
/// one that was meant, and the secret.
pub proof fn lemma_arguments(script: Seq<char>, launch: LaunchView, port: u16, secret: Seq<char>)
    ensures
        ({
            let args = proxy_args(script, launch, port, secret);
            let given = options::in_pairs(args.skip(1));
            &&& args.len() == 7 && args[0] == script
            &&& options::sets(given, "--provider"@, launch.adapter)
            &&& options::sets(given, "--port"@, given[1].1)
            &&& number::parse_unsigned(given[1].1, 65535) == Some(port as nat)
            &&& options::sets(given, "--auth-token"@, secret)
        }),
{
    reveal_strlit("--provider");
    reveal_strlit("--port");
    reveal_strlit("--auth-token");
    assert("--provider"@.len() != "--port"@.len());
    assert("--provider"@.len() != "--auth-token"@.len());
    assert("--port"@.len() != "--auth-token"@.len());
    number::lemma_parse_decimal(port as nat, 65535);
    let args = proxy_args(script, launch, port, secret);
    let given = options::in_pairs(args.skip(1));
    assert(given.len() == 3);
    assert(given[0] == ("--provider"@, launch.adapter));
    assert(given[1] == ("--port"@, number::decimal(port as nat)));
    assert(given[2] == ("--auth-token"@, secret));
    options::lemma_sets(given, 0);
    options::lemma_sets(given, 1);
    options::lemma_sets(given, 2);
}

/// The name of the variable that holds the key.
pub fn key_env_for_adapter(adapter: &str) -> (r: &'static str)
    ensures
        r@ == key_variable(adapter@),
{
    if same(adapter, "deepseek") {
        "DEEPSEEK_API_KEY"
    } else if same(adapter, "qwen") {
        "DASHSCOPE_API_KEY"
    } else if is_openai_adapter(adapter) {
        "CSSWITCH_OPENAI_KEY"
    } else {
        "CSSWITCH_RELAY_KEY"
    }
}

/// Whether an adapter is for one source, whose address it knows.
pub fn is_native_adapter(adapter: &str) -> (r: bool)
    ensures
        r == is_native(adapter@),
{
    same(adapter, "deepseek") || same(adapter, "qwen")
}

/// Whether an adapter is for sources that speak as OpenAI does.
pub fn is_openai_adapter(adapter: &str) -> (r: bool)
    ensures
        r == is_openai(adapter@),
{
    same(adapter, "openai-custom") || same(adapter, "openai-responses")
}

/// Appends a variable, if its value is not empty.
fn push_if_set(env: &mut Vec<(String, String)>, name: &str, value: &str)
    ensures
        chars::pairs(final(env)@) == chars::pairs(old(env)@) + variable_if_set(name@, value@),
{
    if !value.is_empty() {
        push_pair(env, name, value);
    }
    assert(chars::pairs(env@) =~= chars::pairs(old(env)@) + variable_if_set(name@, value@));
}

/// The environment of the proxy.
pub fn proxy_environment(launch: &ProxyLaunch) -> (r: Vec<(String, String)>)
    ensures
        chars::pairs(r@) == proxy_env(launch@),
{
    let mut env: Vec<(String, String)> = Vec::new();
    push_pair(&mut env, launch.key_env, launch.key.as_str());
    let adapter = launch.adapter.as_str();
    if !is_native_adapter(adapter) {
        if is_openai_adapter(adapter) {
            push_pair(&mut env, "CSSWITCH_OPENAI_BASE_URL", launch.base_url.as_str());
            push_if_set(&mut env, "CSSWITCH_OPENAI_MODEL", launch.model.as_str());
        } else {
            push_pair(&mut env, "CSSWITCH_RELAY_BASE_URL", launch.base_url.as_str());
            push_if_set(&mut env, "CSSWITCH_RELAY_MODEL", launch.model.as_str());
            push_if_set(&mut env, "CSSWITCH_RELAY_THINKING", launch.thinking_policy.as_str());
        }
    }
    assert(chars::pairs(env@) =~= proxy_env(launch@));
    env
}

/// The arguments of the interpreter that runs the proxy.
pub fn proxy_arguments(script: &str, launch: &ProxyLaunch, port: u16, secret: &str) -> (r: Vec<
    String,
>)
    ensures
        chars::texts(r@) == proxy_args(script@, launch@, port, secret@),
{
    let number = number_text(port as u64);
    let mut args: Vec<String> = Vec::new();
    push_text(&mut args, script);
    push_text(&mut args, "--provider");
    push_text(&mut args, launch.adapter.as_str());
    push_text(&mut args, "--port");
    push_text(&mut args, number.as_str());
    push_text(&mut args, "--auth-token");
    push_text(&mut args, secret);
    assert(chars::texts(args@) =~= proxy_args(script@, launch@, port, secret@));
    args
}

} // verus!
