//! Which command the arguments of a helper name.

use vstd::prelude::*;

use crate::cli::types::{self, CliEnvelope, EnvelopeView};
use crate::remote::shell;
use crate::remote_commands;
use crate::text::chars::{self, cat4, push_text, same};
use crate::text::number::{self, read_port, read_unsigned};
use crate::text::search;

verus! {

/// A command with its parameters.
#[derive(Debug)]
pub enum CliCommand {
    Status,
    ConfigGet,
    ConfigSet { json: String },
    ConfigSaveKey { provider: String, key: String },
    ProxyStart { provider: String, port: u16, secret: String },
    ProxyStop,
    ProxyStatus,
    SandboxStatus,
    SandboxStart { port: u16, proxy_url: String },
    SandboxStop,
    Logs { name: String, lines: Option<usize> },
    Doctor,
    Verify { port: u16, secret: String },
}

/// The contents of a command.
pub enum CommandView {
    Status,
    ConfigGet,
    ConfigSet { json: Seq<char> },
    ConfigSaveKey { provider: Seq<char>, key: Seq<char> },
    ProxyStart { provider: Seq<char>, port: u16, secret: Seq<char> },
    ProxyStop,
    ProxyStatus,
    SandboxStatus,
    SandboxStart { port: u16, proxy_url: Seq<char> },
    SandboxStop,
    Logs { name: Seq<char>, lines: Option<usize> },
    Doctor,
    Verify { port: u16, secret: Seq<char> },
}

impl View for CliCommand {
    type V = CommandView;

    open spec fn view(&self) -> CommandView {
        match *self {
            CliCommand::Status => CommandView::Status,
            CliCommand::ConfigGet => CommandView::ConfigGet,
            CliCommand::ConfigSet { json } => CommandView::ConfigSet { json: json@ },
            CliCommand::ConfigSaveKey { provider, key } => CommandView::ConfigSaveKey {
                provider: provider@,
                key: key@,
            },
            CliCommand::ProxyStart { provider, port, secret } => CommandView::ProxyStart {
                provider: provider@,
                port,
                secret: secret@,
            },
            CliCommand::ProxyStop => CommandView::ProxyStop,
            CliCommand::ProxyStatus => CommandView::ProxyStatus,
            CliCommand::SandboxStatus => CommandView::SandboxStatus,
            CliCommand::SandboxStart { port, proxy_url } => CommandView::SandboxStart {
                port,
                proxy_url: proxy_url@,
            },
            CliCommand::SandboxStop => CommandView::SandboxStop,
            CliCommand::Logs { name, lines } => CommandView::Logs { name: name@, lines },
            CliCommand::Doctor => CommandView::Doctor,
            CliCommand::Verify { port, secret } => CommandView::Verify { port, secret: secret@ },
        }
    }
}

/// The argument at position `i`; nothing, if there are fewer.
pub open spec fn word(args: Seq<Seq<char>>, i: int) -> Seq<char> {
    if i < args.len() {
        args[i]
    } else {
        Seq::empty()
    }
}

/// The reply to a command with too few arguments.
pub open spec fn missing(message: Seq<char>) -> Result<CommandView, EnvelopeView> {
    Err(types::failure("missing_argument"@, message))
}

/// The port that an argument names.
pub open spec fn port_of(arg: Seq<char>) -> Option<u16> {
    match number::parse_unsigned(arg, 65535) {
        Some(n) => Some(n as u16),
        None => None,
    }
}

/// The reply to a command with a port that is none.
pub open spec fn bad_port() -> Result<CommandView, EnvelopeView> {
    Err(types::failure("invalid_port"@, "端口号无效"@))
}

/// How many lines an argument asks for, if there is one that is a number.
pub open spec fn lines_of(args: Seq<Seq<char>>) -> Option<usize> {
    if args.len() >= 3 {
        match number::parse_unsigned(args[2], usize::MAX as nat) {
            Some(n) => Some(n as usize),
            None => None,
        }
    } else {
        None
    }
}

/// The command that the arguments name: a group, an action, and what the action
/// needs.
pub open spec fn routed(args: Seq<Seq<char>>) -> Result<CommandView, EnvelopeView> {
    let group = word(args, 0);
    let action = word(args, 1);
    let n = args.len();
    if group == "status"@ {
        Ok(CommandView::Status)
    } else if group == "config"@ && action == "get"@ {
        Ok(CommandView::ConfigGet)
    } else if group == "config"@ && action == "set"@ {
        if n >= 3 {
            Ok(CommandView::ConfigSet { json: args[2] })
        } else {
            missing("config set 需要 JSON 参数"@)
        }
    } else if group == "config"@ && action == "save-key"@ {
        if n >= 4 {
            Ok(CommandView::ConfigSaveKey { provider: args[2], key: args[3] })
        } else {
            missing("config save-key 需要 <provider> <key> 参数"@)
        }
    } else if group == "proxy"@ && action == "start"@ {
        if n >= 5 {
            match port_of(args[3]) {
                Some(port) => Ok(
                    CommandView::ProxyStart { provider: args[2], port, secret: args[4] },
                ),
                None => bad_port(),
            }
        } else {
            missing("proxy start 需要 <provider> <port> <secret> 参数"@)
        }
    } else if group == "proxy"@ && action == "stop"@ {
        Ok(CommandView::ProxyStop)
    } else if group == "proxy"@ && action == "status"@ {
        Ok(CommandView::ProxyStatus)
    } else if group == "sandbox"@ && action == "status"@ {
        Ok(CommandView::SandboxStatus)
    } else if group == "sandbox"@ && action == "start"@ {
        if n >= 4 {
            match port_of(args[2]) {
                Some(port) => Ok(CommandView::SandboxStart { port, proxy_url: args[3] }),
                None => bad_port(),
            }
        } else {
            missing("sandbox start 需要 <port> <proxy_url> 参数"@)
        }
    } else if group == "sandbox"@ && action == "stop"@ {
        Ok(CommandView::SandboxStop)
    } else if group == "logs"@ {
        Ok(CommandView::Logs { name: action, lines: lines_of(args) })
    } else if group == "doctor"@ {
        Ok(CommandView::Doctor)
    } else if group == "verify"@ {
        if n >= 3 {
            match port_of(args[1]) {
                Some(port) => Ok(CommandView::Verify { port, secret: args[2] }),
                None => bad_port(),
            }
        } else {
            missing("verify 需要 <port> <secret> 参数"@)
        }
    } else {
        Err(types::failure("unknown_command"@, "未知命令："@ + group + " "@ + action))
    }
}

/// The texts without those that are `--json`.
pub open spec fn without_flag(args: Seq<Seq<char>>) -> Seq<Seq<char>>
    decreases args.len(),
{
    if args.len() == 0 {
        Seq::empty()
    } else if args.last() == "--json"@ {
        without_flag(args.drop_last())
    } else {
        without_flag(args.drop_last()).push(args.last())
    }
}

/// The flag in front is dropped.
proof fn lemma_without_flag_front(args: Seq<Seq<char>>)
    requires
        !args.contains("--json"@),
    ensures
        without_flag(seq!["--json"@] + args) == args,
    decreases args.len(),
{
    let all = seq!["--json"@] + args;
    if args.len() > 0 {
        let rest = args.drop_last();
        assert(args[args.len() - 1] == args.last());
        assert(!rest.contains("--json"@)) by {
            if rest.contains("--json"@) {
                let i = choose|i: int| 0 <= i < rest.len() && rest[i] == "--json"@;
                assert(args[i] == "--json"@);
            }
        }
        lemma_without_flag_front(rest);
        assert(all.drop_last() =~= seq!["--json"@] + rest);
        assert(all.last() == args.last());
        assert(rest.push(args.last()) =~= args);
    } else {
        assert(all.drop_last() =~= Seq::empty());
        assert(without_flag(all.drop_last()) =~= Seq::empty());
        assert(all.last() == "--json"@);
        assert(args =~= Seq::empty());
    }
}

/// A helper that is called through a shell, by any path, routes exactly the arguments that
/// were meant, if none of them is `--json` and none is one that the shell expands.
pub proof fn lemma_shell_reaches_dispatch(
    path: Seq<char>,
    args: Seq<Seq<char>>,
    home: spec_fn(Seq<char>) -> Seq<char>,
)
    requires
        forall|i: int| 0 <= i < args.len() ==> !shell::is_home_path(#[trigger] args[i]),
        !args.contains("--json"@),
    ensures
        ({
            let words = shell::sh_words(shell::helper_command(path, args), home);
            &&& words is Some
            &&& words->0.len() > 0
            &&& words->0[0] == shell::sh_value(path, home)
            &&& without_flag(words->0.drop_first()) == args
        }),
{
    shell::lemma_helper_command_words(path, args, home);
    shell::lemma_plain_values(args, home);
    let words = seq![shell::sh_value(path, home), "--json"@] + args;
    assert(words.drop_first() =~= seq!["--json"@] + args);
    lemma_without_flag_front(args);
}

/// The groups of commands are told apart by their names.
proof fn lemma_groups()
    ensures
        "status"@ != "config"@,
        "status"@ != "proxy"@,
        "status"@ != "sandbox"@,
        "status"@ != "logs"@,
        "status"@ != "doctor"@,
        "status"@ != "verify"@,
        "config"@ != "proxy"@,
        "config"@ != "sandbox"@,
        "config"@ != "logs"@,
        "config"@ != "doctor"@,
        "config"@ != "verify"@,
        "proxy"@ != "sandbox"@,
        "proxy"@ != "logs"@,
        "proxy"@ != "doctor"@,
        "proxy"@ != "verify"@,
        "sandbox"@ != "logs"@,
        "sandbox"@ != "doctor"@,
        "sandbox"@ != "verify"@,
        "logs"@ != "doctor"@,
        "logs"@ != "verify"@,
        "doctor"@ != "verify"@,
{
    reveal_strlit("status");
    reveal_strlit("config");
    reveal_strlit("proxy");
    reveal_strlit("sandbox");
    reveal_strlit("logs");
    reveal_strlit("doctor");
    reveal_strlit("verify");
    assert("status"@[0] != "config"@[0]);
    assert("status"@.len() != "proxy"@.len());
    assert("status"@.len() != "sandbox"@.len());
    assert("status"@.len() != "logs"@.len());
    assert("status"@[0] != "doctor"@[0]);
    assert("status"@[0] != "verify"@[0]);
    assert("config"@.len() != "proxy"@.len());
    assert("config"@.len() != "sandbox"@.len());
    assert("config"@.len() != "logs"@.len());
    assert("config"@[0] != "doctor"@[0]);
    assert("config"@[0] != "verify"@[0]);
    assert("proxy"@.len() != "sandbox"@.len());
    assert("proxy"@.len() != "logs"@.len());
    assert("proxy"@.len() != "doctor"@.len());
    assert("proxy"@.len() != "verify"@.len());
    assert("sandbox"@.len() != "logs"@.len());
    assert("sandbox"@.len() != "doctor"@.len());
    assert("sandbox"@.len() != "verify"@.len());
    assert("logs"@.len() != "doctor"@.len());
    assert("logs"@.len() != "verify"@.len());
    assert("doctor"@[0] != "verify"@[0]);
}

/// The actions of a group are told apart by their names.
proof fn lemma_actions()
    ensures
        "get"@ != "set"@,
        "get"@ != "save-key"@,
        "get"@ != "start"@,
        "get"@ != "stop"@,
        "get"@ != "status"@,
        "set"@ != "save-key"@,
        "set"@ != "start"@,
        "set"@ != "stop"@,
        "set"@ != "status"@,
        "save-key"@ != "start"@,
        "save-key"@ != "stop"@,
        "save-key"@ != "status"@,
        "start"@ != "stop"@,
        "start"@ != "status"@,
        "stop"@ != "status"@,
{
    reveal_strlit("get");
    reveal_strlit("set");
    reveal_strlit("save-key");
    reveal_strlit("start");
    reveal_strlit("stop");
    reveal_strlit("status");
    assert("get"@[0] != "set"@[0]);
    assert("get"@.len() != "save-key"@.len());
    assert("get"@.len() != "start"@.len());
    assert("get"@.len() != "stop"@.len());
    assert("get"@.len() != "status"@.len());
    assert("set"@.len() != "save-key"@.len());
    assert("set"@.len() != "start"@.len());
    assert("set"@.len() != "stop"@.len());
    assert("set"@.len() != "status"@.len());
    assert("save-key"@.len() != "start"@.len());
    assert("save-key"@.len() != "stop"@.len());
    assert("save-key"@.len() != "status"@.len());
    assert("start"@.len() != "stop"@.len());
    assert("start"@.len() != "status"@.len());
    assert("stop"@.len() != "status"@.len());
}

/// Each command without parameters is reached by its name, whatever else is said.
pub proof fn lemma_plain_commands_route(more: Seq<Seq<char>>)
    ensures
        routed(seq!["status"@] + more) == Ok::<CommandView, EnvelopeView>(CommandView::Status),
        routed(seq!["config"@, "get"@] + more) == Ok::<CommandView, EnvelopeView>(
            CommandView::ConfigGet,
        ),
        routed(seq!["proxy"@, "stop"@] + more) == Ok::<CommandView, EnvelopeView>(
            CommandView::ProxyStop,
        ),
        routed(seq!["proxy"@, "status"@] + more) == Ok::<CommandView, EnvelopeView>(
            CommandView::ProxyStatus,
        ),
        routed(seq!["sandbox"@, "stop"@] + more) == Ok::<CommandView, EnvelopeView>(
            CommandView::SandboxStop,
        ),
        routed(seq!["sandbox"@, "status"@] + more) == Ok::<CommandView, EnvelopeView>(
            CommandView::SandboxStatus,
        ),
        routed(seq!["doctor"@] + more) == Ok::<CommandView, EnvelopeView>(CommandView::Doctor),
{
    lemma_groups();
    lemma_actions();
    assert((seq!["status"@] + more)[0] == "status"@);
    assert((seq!["doctor"@] + more)[0] == "doctor"@);
    assert((seq!["config"@, "get"@] + more)[0] == "config"@);
    assert((seq!["config"@, "get"@] + more)[1] == "get"@);
    assert((seq!["proxy"@, "stop"@] + more)[0] == "proxy"@);
    assert((seq!["proxy"@, "stop"@] + more)[1] == "stop"@);
    assert((seq!["proxy"@, "status"@] + more)[0] == "proxy"@);
    assert((seq!["proxy"@, "status"@] + more)[1] == "status"@);
    assert((seq!["sandbox"@, "stop"@] + more)[0] == "sandbox"@);
    assert((seq!["sandbox"@, "stop"@] + more)[1] == "stop"@);
    assert((seq!["sandbox"@, "status"@] + more)[0] == "sandbox"@);
    assert((seq!["sandbox"@, "status"@] + more)[1] == "status"@);
}

/// A command is never taken for another: each that is run was named, and has the words
/// behind its name for its parameters, in their order.
pub proof fn lemma_routed_as_named(args: Seq<Seq<char>>)
    ensures
        match routed(args) {
            Ok(CommandView::Status) => args[0] == "status"@,
            Ok(CommandView::ConfigGet) => args[0] == "config"@ && args[1] == "get"@,
            Ok(CommandView::ConfigSet { json }) => args.len() >= 3 && args.take(3) == seq![
                "config"@,
                "set"@,
                json,
            ],
            Ok(CommandView::ConfigSaveKey { provider, key }) => args.len() >= 4 && args.take(4)
                == seq!["config"@, "save-key"@, provider, key],
            Ok(CommandView::ProxyStart { provider, port, secret }) => args.len() >= 5
                && number::parse_unsigned(args[3], 65535) == Some(port as nat) && args.take(5)
                == seq!["proxy"@, "start"@, provider, args[3], secret],
            Ok(CommandView::ProxyStop) => args[0] == "proxy"@ && args[1] == "stop"@,
            Ok(CommandView::ProxyStatus) => args[0] == "proxy"@ && args[1] == "status"@,
            Ok(CommandView::SandboxStatus) => args[0] == "sandbox"@ && args[1] == "status"@,
            Ok(CommandView::SandboxStart { port, proxy_url }) => args.len() >= 4
                && number::parse_unsigned(args[2], 65535) == Some(port as nat) && args.take(4)
                == seq!["sandbox"@, "start"@, args[2], proxy_url],
            Ok(CommandView::SandboxStop) => args[0] == "sandbox"@ && args[1] == "stop"@,
            Ok(CommandView::Logs { name, lines }) => {
                &&& args[0] == "logs"@
                &&& name == word(args, 1)
                &&& lines matches Some(n) ==> args.len() >= 3 && number::parse_unsigned(
                    args[2],
                    usize::MAX as nat,
                ) == Some(n as nat)
            },
            Ok(CommandView::Doctor) => args[0] == "doctor"@,
            Ok(CommandView::Verify { port, secret }) => args.len() >= 3 && number::parse_unsigned(
                args[1],
                65535,
            ) == Some(port as nat) && args.take(3) == seq!["verify"@, args[1], secret],
            Err(e) => !e.ok,
        },
{
    lemma_groups();
    lemma_actions();
    reveal_strlit("status");
    reveal_strlit("config");
    reveal_strlit("proxy");
    reveal_strlit("sandbox");
    reveal_strlit("logs");
    reveal_strlit("doctor");
    reveal_strlit("verify");
    reveal_strlit("get");
    reveal_strlit("set");
    reveal_strlit("save-key");
    reveal_strlit("start");
    reveal_strlit("stop");
    match routed(args) {
        Ok(CommandView::ConfigSet { json }) => {
            assert(args.take(3) =~= seq!["config"@, "set"@, json]);
        },
        Ok(CommandView::ConfigSaveKey { provider, key }) => {
            assert(args.take(4) =~= seq!["config"@, "save-key"@, provider, key]);
        },
        Ok(CommandView::ProxyStart { provider, port, secret }) => {
            assert(args.take(5) =~= seq!["proxy"@, "start"@, provider, args[3], secret]);
        },
        Ok(CommandView::SandboxStart { port, proxy_url }) => {
            assert(args.take(4) =~= seq!["sandbox"@, "start"@, args[2], proxy_url]);
        },
        Ok(CommandView::Verify { port, secret }) => {
            assert(args.take(3) =~= seq!["verify"@, args[1], secret]);
        },
        _ => {},
    }
}

/// The arguments with which the desktop stores a configuration store that configuration.
pub proof fn lemma_config_set_args_route(json: Seq<char>)
    ensures
        routed(remote_commands::config_set_args(json)) == Ok::<CommandView, EnvelopeView>(
            CommandView::ConfigSet { json },
        ),
        routed(seq!["config"@, "set"@, json]) == Ok::<CommandView, EnvelopeView>(
            CommandView::ConfigSet { json },
        ),
{
    lemma_groups();
    lemma_actions();
}

/// The arguments with which the desktop stores a key store that key for that provider.
pub proof fn lemma_save_key_args_route(provider: Seq<char>, key: Seq<char>)
    ensures
        routed(remote_commands::save_key_args(provider, key)) == Ok::<CommandView, EnvelopeView>(
            CommandView::ConfigSaveKey { provider, key },
        ),
        routed(seq!["config"@, "save-key"@, provider, key]) == Ok::<CommandView, EnvelopeView>(
            CommandView::ConfigSaveKey { provider, key },
        ),
{
    lemma_groups();
    lemma_actions();
}

/// The arguments with which the desktop asks for a log ask for that log, and for as many
/// lines as the desktop means.
pub proof fn lemma_logs_args_route(name: Seq<char>, lines: Option<u32>)
    ensures
        routed(remote_commands::logs_args(name, lines)) == Ok::<CommandView, EnvelopeView>(
            CommandView::Logs {
                name,
                lines: match lines {
                    Some(n) => Some(n as usize),
                    None => None,
                },
            },
        ),
        routed(seq!["logs"@, name]) == Ok::<CommandView, EnvelopeView>(
            CommandView::Logs { name, lines: None },
        ),
{
    lemma_groups();
    if let Some(n) = lines {
        number::lemma_parse_decimal(n as nat, usize::MAX as nat);
    }
}

/// The arguments with which the desktop starts a proxy start it with the adapter, the
/// port and the secret that the desktop means.
pub proof fn lemma_proxy_start_args_route(adapter: Seq<char>, port: u16, secret: Seq<char>)
    ensures
        routed(remote_commands::proxy_start_args(adapter, port, secret)) == Ok::<
            CommandView,
            EnvelopeView,
        >(CommandView::ProxyStart { provider: adapter, port, secret }),
        routed(seq!["proxy"@, "start"@, adapter, number::decimal(port as nat), secret]) == Ok::<
            CommandView,
            EnvelopeView,
        >(CommandView::ProxyStart { provider: adapter, port, secret }),
{
    lemma_groups();
    lemma_actions();
    number::lemma_parse_decimal(port as nat, 65535);
}

/// The arguments with which the desktop starts a sandbox start it on the port and with
/// the proxy that the desktop means.
pub proof fn lemma_sandbox_start_args_route(port: u16, url: Seq<char>)
    ensures
        routed(remote_commands::sandbox_start_args(port, url)) == Ok::<CommandView, EnvelopeView>(
            CommandView::SandboxStart { port, proxy_url: url },
        ),
        routed(seq!["sandbox"@, "start"@, number::decimal(port as nat), url]) == Ok::<
            CommandView,
            EnvelopeView,
        >(CommandView::SandboxStart { port, proxy_url: url }),
{
    lemma_groups();
    lemma_actions();
    number::lemma_parse_decimal(port as nat, 65535);
}

/// The arguments with which the desktop has a key verified have it verified on the
/// port and with the secret that the desktop means.
pub proof fn lemma_verify_args_route(port: u16, secret: Seq<char>)
    ensures
        routed(remote_commands::verify_args(port, secret)) == Ok::<CommandView, EnvelopeView>(
            CommandView::Verify { port, secret },
        ),
        routed(seq!["verify"@, number::decimal(port as nat), secret]) == Ok::<
            CommandView,
            EnvelopeView,
        >(CommandView::Verify { port, secret }),
{
    lemma_groups();
    number::lemma_parse_decimal(port as nat, 65535);
}

/// To start a proxy on a target, the desktop has its helper store the configuration, then
/// stop the old proxy, and then start the one that is meant.
pub proof fn lemma_start_proxy_calls_route(
    config_json: Seq<char>,
    adapter: Seq<char>,
    port: u16,
    secret: Seq<char>,
)
    ensures
        ({
            let calls = remote_commands::start_proxy_calls(config_json, adapter, port, secret);
            &&& calls.len() == 3
            &&& routed(calls[0].0) == Ok::<CommandView, EnvelopeView>(
                CommandView::ConfigSet { json: config_json },
            )
            &&& routed(calls[1].0) == Ok::<CommandView, EnvelopeView>(CommandView::ProxyStop)
            &&& routed(calls[2].0) == Ok::<CommandView, EnvelopeView>(
                CommandView::ProxyStart { provider: adapter, port, secret },
            )
        }),
{
    lemma_config_set_args_route(config_json);
    lemma_plain_commands_route(Seq::empty());
    lemma_proxy_start_args_route(adapter, port, secret);
    assert(seq!["proxy"@, "stop"@] + Seq::<Seq<char>>::empty() =~= seq!["proxy"@, "stop"@]);
}

/// To start everything on a target, the desktop has its helper store the configuration,
/// then stop the old proxy and the old sandbox, and then start the proxy that is meant, and
/// a sandbox on the port that is meant, which talks to that proxy.
pub proof fn lemma_one_click_calls_route(
    config_json: Seq<char>,
    adapter: Seq<char>,
    proxy_port: u16,
    sandbox_port: u16,
    secret: Seq<char>,
)
    ensures
        ({
            let calls = remote_commands::one_click_calls(
                config_json,
                adapter,
                proxy_port,
                sandbox_port,
                secret,
            );
            &&& calls.len() == 5
            &&& routed(calls[0].0) == Ok::<CommandView, EnvelopeView>(
                CommandView::ConfigSet { json: config_json },
            )
            &&& routed(calls[1].0) == Ok::<CommandView, EnvelopeView>(CommandView::ProxyStop)
            &&& routed(calls[2].0) == Ok::<CommandView, EnvelopeView>(CommandView::SandboxStop)
            &&& routed(calls[3].0) == Ok::<CommandView, EnvelopeView>(
                CommandView::ProxyStart { provider: adapter, port: proxy_port, secret },
            )
            &&& routed(calls[4].0) == Ok::<CommandView, EnvelopeView>(
                CommandView::SandboxStart {
                    port: sandbox_port,
                    proxy_url: "http://127.0.0.1:"@ + number::decimal(proxy_port as nat) + "/"@
                        + secret,
                },
            )
        }),
{
    lemma_config_set_args_route(config_json);
    lemma_plain_commands_route(Seq::empty());
    lemma_proxy_start_args_route(adapter, proxy_port, secret);
    lemma_sandbox_start_args_route(
        sandbox_port,
        remote_commands::proxy_url(proxy_port, secret),
    );
    assert(seq!["proxy"@, "stop"@] + Seq::<Seq<char>>::empty() =~= seq!["proxy"@, "stop"@]);
    assert(seq!["sandbox"@, "stop"@] + Seq::<Seq<char>>::empty() =~= seq!["sandbox"@, "stop"@]);
}

/// The argument at position `i`.
fn word_at(args: &Vec<String>, i: usize) -> (r: String)
    ensures
        r@ == word(chars::texts(args@), i as int),
{
    if i < args.len() {
        args[i].clone()
    } else {
        let r = String::new();
        assert(r@ =~= Seq::empty());
        r
    }
}

/// The reply to a command with too few arguments.
fn missing_argument(message: &str) -> (r: Result<CliCommand, CliEnvelope>)
    ensures
        r matches Err(e) && e@ == types::failure("missing_argument"@, message@),
{
    Err(CliEnvelope::err("missing_argument", message))
}

/// The reply to a command with a port that is none.
fn invalid_port() -> (r: Result<CliCommand, CliEnvelope>)
    ensures
        r matches Err(e) && e@ == types::failure("invalid_port"@, "端口号无效"@),
{
    Err(CliEnvelope::err("invalid_port", "端口号无效"))
}

/// The command that the arguments name.
pub fn dispatch(args: &Vec<String>) -> (r: Result<CliCommand, CliEnvelope>)
    ensures
        match r {
            Ok(c) => routed(chars::texts(args@)) == Ok::<CommandView, EnvelopeView>(c@),
            Err(e) => routed(chars::texts(args@)) == Err::<CommandView, EnvelopeView>(e@),
        },
{
    let group = word_at(args, 0);
    let action = word_at(args, 1);
    let n = args.len();
    let g = group.as_str();
    let a = action.as_str();
    if same(g, "status") {
        return Ok(CliCommand::Status);
    }
    if same(g, "config") && same(a, "get") {
        return Ok(CliCommand::ConfigGet);
    }
    if same(g, "config") && same(a, "set") {
        if n >= 3 {
            return Ok(CliCommand::ConfigSet { json: args[2].clone() });
        }
        return missing_argument("config set 需要 JSON 参数");
    }
    if same(g, "config") && same(a, "save-key") {
        if n >= 4 {
            return Ok(
                CliCommand::ConfigSaveKey { provider: args[2].clone(), key: args[3].clone() },
            );
        }
        return missing_argument("config save-key 需要 <provider> <key> 参数");
    }
    if same(g, "proxy") && same(a, "start") {
        if n >= 5 {
            return match read_port(args[3].as_str()) {
                Some(port) => Ok(
                    CliCommand::ProxyStart {
                        provider: args[2].clone(),
                        port,
                        secret: args[4].clone(),
                    },
                ),
                None => invalid_port(),
            };
        }
        return missing_argument("proxy start 需要 <provider> <port> <secret> 参数");
    }
    if same(g, "proxy") && same(a, "stop") {
        return Ok(CliCommand::ProxyStop);
    }
    if same(g, "proxy") && same(a, "status") {
        return Ok(CliCommand::ProxyStatus);
    }
    if same(g, "sandbox") && same(a, "status") {
        return Ok(CliCommand::SandboxStatus);
    }
    if same(g, "sandbox") && same(a, "start") {
        if n >= 4 {
            return match read_port(args[2].as_str()) {
                Some(port) => Ok(CliCommand::SandboxStart { port, proxy_url: args[3].clone() }),
                None => invalid_port(),
            };
        }
        return missing_argument("sandbox start 需要 <port> <proxy_url> 参数");
    }
    if same(g, "sandbox") && same(a, "stop") {
        return Ok(CliCommand::SandboxStop);
    }
    if same(g, "logs") {
        let lines: Option<usize> = if n >= 3 {
            match read_unsigned(args[2].as_str(), usize::MAX as u64) {
                Some(k) => Some(k as usize),
                None => None,
            }
        } else {
            None
        };
        return Ok(CliCommand::Logs { name: action, lines });
    }
    if same(g, "doctor") {
        return Ok(CliCommand::Doctor);
    }
    if same(g, "verify") {
        if n >= 3 {
            return match read_port(a) {
                Some(port) => Ok(CliCommand::Verify { port, secret: args[2].clone() }),
                None => invalid_port(),
            };
        }
        return missing_argument("verify 需要 <port> <secret> 参数");
    }
    let message = cat4("未知命令：", g, " ", a);
    Err(CliEnvelope::err("unknown_command", message.as_str()))
}

/// How a helper is called.
#[derive(Debug)]
pub struct Invocation {
    /// Whether it answers in JSON.
    pub use_json: bool,
    /// Whether it serves a session.
    pub serve: bool,
    pub args: Vec<String>,
}

/// How a helper is called, from its arguments without its own name.
pub fn parse_invocation(args: &Vec<String>) -> (r: Invocation)
    ensures
        r.use_json == (word(chars::texts(args@), 0) == "--json"@),
        chars::texts(r.args@) == without_flag(chars::texts(args@)),
        r.serve == (word(without_flag(chars::texts(args@)), 0) == "serve"@),
{
    proof {
        reveal_strlit("--json");
        reveal_strlit("serve");
    }
    let ghost given = chars::texts(args@);
    let first = word_at(args, 0);
    let use_json = same(first.as_str(), "--json");
    let mut kept: Vec<String> = Vec::new();
    let mut i: usize = 0;
    assert(chars::texts(kept@) =~= without_flag(given.take(0)));
    while i < args.len()
        invariant
            i <= args@.len(),
            given == chars::texts(args@),
            chars::texts(kept@) == without_flag(given.take(i as int)),
        decreases args@.len() - i,
    {
        proof {
            assert(given.take(i + 1).drop_last() =~= given.take(i as int));
            assert(given.take(i + 1).last() == args@[i as int]@);
        }
        if !same(args[i].as_str(), "--json") {
            push_text(&mut kept, args[i].as_str());
        }
        i = i + 1;
    }
    assert(given.take(i as int) =~= given);
    let head = word_at(&kept, 0);
    Invocation { use_json, serve: same(head.as_str(), "serve"), args: kept }
}

/// A port that is no number up to 65535 is refused, whatever command it is for.
pub proof fn lemma_bad_ports(text: Seq<char>, a: Seq<char>, b: Seq<char>)
    requires
        number::parse_unsigned(text, 65535) is None,
    ensures
        routed(seq!["verify"@, text, a]) matches Err(reply) && !reply.ok && reply.error->0.code
            == "invalid_port"@,
        routed(seq!["proxy"@, "start"@, a, text, b]) matches Err(reply) && !reply.ok
            && reply.error->0.code == "invalid_port"@,
        routed(seq!["sandbox"@, "start"@, text, a]) matches Err(reply) && !reply.ok
            && reply.error->0.code == "invalid_port"@,
{
    lemma_groups();
    lemma_actions();
}

/// A command with too few arguments is refused, and so is one that there is not; the two
/// are told apart.
pub proof fn lemma_refused_commands(a: Seq<char>, b: Seq<char>, group: Seq<char>)
    requires
        group != "status"@ && group != "config"@ && group != "proxy"@ && group != "sandbox"@,
        group != "logs"@ && group != "doctor"@ && group != "verify"@,
    ensures
        ({
            let short = |args: Seq<Seq<char>>|
                routed(args) matches Err(reply) && !reply.ok && reply.error->0.code
                    == "missing_argument"@;
            &&& short(seq!["config"@, "set"@])
            &&& short(seq!["config"@, "save-key"@, a])
            &&& short(seq!["proxy"@, "start"@, a, b])
            &&& short(seq!["sandbox"@, "start"@, a])
            &&& short(seq!["verify"@, a])
        }),
        routed(seq![group, a]) matches Err(reply) && !reply.ok && reply.error->0.code
            == "unknown_command"@ && search::ends(reply.error->0.message, group + " "@ + a),
{
    lemma_groups();
    lemma_actions();
    assert("未知命令："@ + group + " "@ + a =~= "未知命令："@ + (group + " "@ + a));
    search::lemma_ends_joined("未知命令："@, group + " "@ + a);
}

} // verus!
