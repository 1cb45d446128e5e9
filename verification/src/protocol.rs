//! What the desktop and a helper promise each other: what one of them sends, the other
//! reads as it was meant.

use vstd::prelude::*;

use crate::cli::commands;
use crate::config::{self, ConfigView};
use crate::json::{self, Tree};
use crate::launch;
use crate::remote::ssh_output;
use crate::remote::types::{AuthView, ErrorView, HostView};
use crate::remote_commands;
use crate::text::number;
use crate::text::trim;

verus! {

/// A target is sent the profile that is in use here, as it is, and no other; and with it
/// the ports and the secret that it is to use.
pub proof fn lemma_profile_in_use_is_sent(
    cfg: ConfigView,
    schema_version: u32,
    adapter: Seq<char>,
    provider: Seq<char>,
    proxy_port: u16,
    sandbox_port: Option<u16>,
    secret: Seq<char>,
)
    requires
        remote_commands::start_fault(cfg, adapter, provider) is None,
    ensures
        ({
            let sent = remote_commands::start_config(
                cfg,
                schema_version,
                proxy_port,
                sandbox_port,
                secret,
            );
            &&& config::find(sent.profiles, sent.active_id) is Some
            &&& config::find(sent.profiles, sent.active_id) == config::find(
                cfg.profiles,
                cfg.active_id,
            )
            &&& sent.active_id == cfg.active_id
            &&& sent.profiles.len() == 1
            &&& sent.proxy_port == proxy_port && sent.secret == secret
            &&& sandbox_port matches Some(port) ==> sent.sandbox_port == port
            &&& sandbox_port is None ==> sent.sandbox_port == cfg.sandbox_port
            &&& sent.mode == cfg.mode && sent.schema_version == schema_version
        }),
{
    let active = config::find(cfg.profiles, cfg.active_id)->0;
    config::lemma_place_of(cfg.profiles, cfg.active_id);
    config::lemma_place_of_is(seq![active], cfg.active_id, 0);
}

/// Where a start is not refused here, the target can start the proxy that is meant from
/// what it was sent: with the key, the address and the model of the profile that is in use
/// here. A source whose address it does not know needs an address and a model for that.
pub proof fn lemma_target_starts_what_was_meant(
    cfg: ConfigView,
    schema_version: u32,
    adapter: Seq<char>,
    thinking_policy: Seq<char>,
    provider: Seq<char>,
    proxy_port: u16,
    sandbox_port: Option<u16>,
    secret: Seq<char>,
)
    requires
        remote_commands::start_fault(cfg, adapter, provider) is None,
    ensures
        ({
            let active = config::find(cfg.profiles, cfg.active_id)->0;
            let sent = remote_commands::start_config(
                cfg,
                schema_version,
                proxy_port,
                sandbox_port,
                secret,
            );
            adapter == "deepseek"@ || adapter == "qwen"@ || adapter == "relay"@ || (
            remote_commands::is_http(active.base_url) && !trim::is_blank(active.base_url)
                && !trim::is_blank(active.model)) ==> {
                &&& commands::configured_launch(
                    sent,
                    adapter,
                    thinking_policy,
                    adapter,
                ) matches Ok(Some(l))
                &&& l.key == trim::trim(active.api_key) && l.key.len() > 0
                &&& l.base_url == active.base_url && l.model == active.model
                &&& l.adapter == adapter && l.thinking_policy == thinking_policy
                &&& l.key_env == launch::key_variable(adapter)
            }
        }),
{
    lemma_profile_in_use_is_sent(
        cfg,
        schema_version,
        adapter,
        provider,
        proxy_port,
        sandbox_port,
        secret,
    );
}

/// What is found in the status of a helper.
proof fn lemma_status_fields(
    version: Seq<char>,
    platform: Seq<char>,
    arch: Seq<char>,
    proxy_running: bool,
    sandbox_running: bool,
)
    ensures
        ({
            let status = commands::status_report(
                version,
                platform,
                arch,
                proxy_running,
                sandbox_running,
            );
            &&& json::text_field(status, "version"@) == Some(version)
            &&& json::text_field(status, "platform"@) == Some(platform)
            &&& json::text_field(status, "arch"@) == Some(arch)
            &&& json::list_field(status, "capabilities"@) == Some(
                json::text_items(commands::helper_capabilities()),
            )
            &&& json::bool_field(status, "proxy_running"@) == Some(proxy_running)
            &&& json::bool_field(status, "sandbox_running"@) == Some(sandbox_running)
        }),
{
    let m = commands::status_report(
        version,
        platform,
        arch,
        proxy_running,
        sandbox_running,
    )->Object_0;
    reveal_strlit("version");
    reveal_strlit("platform");
    reveal_strlit("arch");
    reveal_strlit("capabilities");
    reveal_strlit("proxy_running");
    reveal_strlit("sandbox_running");
    assert("version"@.len() != "platform"@.len());
    assert("version"@.len() != "arch"@.len());
    assert("version"@.len() != "capabilities"@.len());
    assert("version"@.len() != "proxy_running"@.len());
    assert("version"@.len() != "sandbox_running"@.len());
    assert("platform"@.len() != "arch"@.len());
    assert("platform"@.len() != "capabilities"@.len());
    assert("platform"@.len() != "proxy_running"@.len());
    assert("platform"@.len() != "sandbox_running"@.len());
    assert("arch"@.len() != "capabilities"@.len());
    assert("arch"@.len() != "proxy_running"@.len());
    assert("arch"@.len() != "sandbox_running"@.len());
    assert("capabilities"@.len() != "proxy_running"@.len());
    assert("capabilities"@.len() != "sandbox_running"@.len());
    assert("proxy_running"@.len() != "sandbox_running"@.len());
    json::lemma_member(m, "version"@, 0);
    json::lemma_member(m, "platform"@, 1);
    json::lemma_member(m, "arch"@, 2);
    json::lemma_member(m, "capabilities"@, 3);
    json::lemma_member(m, "proxy_running"@, 4);
    json::lemma_member(m, "sandbox_running"@, 5);
}

/// The desktop reads the status of a helper as the helper means it: its version, platform
/// and processor, what it can do, and whether the proxy and the sandbox run. A helper of
/// this version has what the desktop needs.
pub proof fn lemma_status_is_read_as_meant(
    version: Seq<char>,
    platform: Seq<char>,
    arch: Seq<char>,
    proxy_running: bool,
    sandbox_running: bool,
    desktop_version: Seq<char>,
    now: i64,
)
    ensures
        ({
            let status = commands::status_report(
                version,
                platform,
                arch,
                proxy_running,
                sandbox_running,
            );
            let health = remote_commands::result_health(Ok(status), desktop_version, now);
            &&& health.reachable && health.helper_installed && health.compatible
            &&& health.helper_version == Some(version) && health.desktop_version == desktop_version
            &&& health.platform == Some(platform) && health.arch == Some(arch)
            &&& health.capabilities == commands::helper_capabilities()
            &&& health.proxy_running == proxy_running
            &&& health.sandbox_running == sandbox_running
            &&& health.last_error is None && health.last_check == now
        }),
{
    lemma_status_fields(version, platform, arch, proxy_running, sandbox_running);
    lemma_texts_in_items(commands::helper_capabilities());
    commands::lemma_helper_is_compatible();
}

/// The texts in a list of texts are those texts.
proof fn lemma_texts_in_items(v: Seq<Seq<char>>)
    ensures
        json::texts_in(json::text_items(v)) == v,
    decreases v.len(),
{
    let items = json::text_items(v);
    if v.len() > 0 {
        assert(items.drop_last() =~= json::text_items(v.drop_last()));
        lemma_texts_in_items(v.drop_last());
        assert(v.drop_last().push(v.last()) =~= v);
    } else {
        assert(v =~= Seq::empty());
    }
}

/// The lights of a target show what its helper reports: green for what runs.
pub proof fn lemma_lights_show_the_status(
    version: Seq<char>,
    platform: Seq<char>,
    arch: Seq<char>,
    proxy_running: bool,
    sandbox_running: bool,
)
    ensures
        ({
            let lights = remote_commands::target_lights(
                commands::status_report(version, platform, arch, proxy_running, sandbox_running),
            );
            &&& (json::text_field(lights, "proxy"@) == Some("green"@)) == proxy_running
            &&& (json::text_field(lights, "sandbox"@) == Some("green"@)) == sandbox_running
            &&& json::text_field(lights, "upstream"@) == Some("green"@)
            &&& json::bool_field(lights, "remote"@) == Some(true)
        }),
{
    lemma_status_fields(version, platform, arch, proxy_running, sandbox_running);
    reveal_strlit("green");
    reveal_strlit("amber");
    assert("green"@[0] != "amber"@[0]);
    let m = remote_commands::target_lights(
        commands::status_report(version, platform, arch, proxy_running, sandbox_running),
    )->Object_0;
    reveal_strlit("proxy");
    reveal_strlit("sandbox");
    reveal_strlit("upstream");
    reveal_strlit("remote");
    assert("proxy"@.len() != "sandbox"@.len());
    assert("proxy"@.len() != "upstream"@.len());
    assert("proxy"@.len() != "remote"@.len());
    assert("sandbox"@.len() != "upstream"@.len());
    assert("sandbox"@.len() != "remote"@.len());
    assert("upstream"@.len() != "remote"@.len());
    json::lemma_member(m, "proxy"@, 0);
    json::lemma_member(m, "sandbox"@, 1);
    json::lemma_member(m, "upstream"@, 2);
    json::lemma_member(m, "remote"@, 3);
}

/// After a key was stored on a target, the desktop shows the mask that the helper made of
/// it.
pub proof fn lemma_stored_key_is_shown_masked(key: Seq<char>)
    ensures
        ({
            let reply = commands::save_key_reply(key, Ok(()));
            &&& reply.ok && reply.data is Some
            &&& remote_commands::shown_key(reply.data->0) == commands::masked(key)
        }),
{
    let m = commands::save_key_reply(key, Ok(())).data->0->Object_0;
    json::lemma_member(m, "masked"@, 0);
}

/// Once everything was started on a target, the desktop reports the ports that it asked
/// for, the address of the proxy there, the address of the sandbox that the helper
/// reported, and what the helper replied.
pub proof fn lemma_start_is_reported(
    p: HostView,
    proxy_port: u16,
    sandbox_port: u16,
    secret: Seq<char>,
    proxy: Tree,
    sandbox: Tree,
)
    ensures
        ({
            let report = Tree::Object(
                remote_commands::one_click_report(
                    p,
                    proxy_port,
                    sandbox_port,
                    secret,
                    proxy,
                    sandbox,
                ),
            );
            &&& json::bool_field(report, "ok"@) == Some(true)
            &&& json::number_field(report, "proxy_port"@) == Some(proxy_port as u64)
            &&& json::number_field(report, "sandbox_port"@) == Some(sandbox_port as u64)
            &&& json::text_field(report, "proxy_url"@) == Some(
                "http://127.0.0.1:"@ + number::decimal(proxy_port as nat) + "/"@ + secret,
            )
            &&& json::text_field(sandbox, "url"@) matches Some(url) ==> json::text_field(
                report,
                "local_url"@,
            ) == Some(url)
            &&& json::text_field(sandbox, "url"@) is None ==> json::text_field(report, "local_url"@)
                == Some("http://127.0.0.1:"@ + number::decimal(sandbox_port as nat))
            &&& json::text_field(report, "remote_url"@) == Some(
                "http://"@ + p.host + ":"@ + number::decimal(sandbox_port as nat),
            )
            &&& json::field(report, "proxy"@) == Some(proxy)
            &&& json::field(report, "sandbox"@) == Some(sandbox)
        }),
{
    let m = remote_commands::one_click_report(
        p,
        proxy_port,
        sandbox_port,
        secret,
        proxy,
        sandbox,
    );
    reveal_strlit("ok");
    reveal_strlit("proxy_port");
    reveal_strlit("sandbox_port");
    reveal_strlit("proxy_url");
    reveal_strlit("local_url");
    reveal_strlit("remote_url");
    reveal_strlit("tunnel_hint");
    reveal_strlit("proxy");
    reveal_strlit("sandbox");
    assert("ok"@.len() != "proxy_port"@.len());
    assert("ok"@.len() != "sandbox_port"@.len());
    assert("ok"@.len() != "proxy_url"@.len());
    assert("ok"@.len() != "local_url"@.len());
    assert("ok"@.len() != "remote_url"@.len());
    assert("ok"@.len() != "tunnel_hint"@.len());
    assert("ok"@.len() != "proxy"@.len());
    assert("ok"@.len() != "sandbox"@.len());
    assert("proxy_port"@.len() != "sandbox_port"@.len());
    assert("proxy_port"@.len() != "proxy_url"@.len());
    assert("proxy_port"@.len() != "local_url"@.len());
    assert("proxy_port"@[0] != "remote_url"@[0]);
    assert("proxy_port"@.len() != "tunnel_hint"@.len());
    assert("proxy_port"@.len() != "proxy"@.len());
    assert("proxy_port"@.len() != "sandbox"@.len());
    assert("sandbox_port"@.len() != "proxy_url"@.len());
    assert("sandbox_port"@.len() != "local_url"@.len());
    assert("sandbox_port"@.len() != "remote_url"@.len());
    assert("sandbox_port"@.len() != "tunnel_hint"@.len());
    assert("sandbox_port"@.len() != "proxy"@.len());
    assert("sandbox_port"@.len() != "sandbox"@.len());
    assert("proxy_url"@[0] != "local_url"@[0]);
    assert("proxy_url"@.len() != "remote_url"@.len());
    assert("proxy_url"@.len() != "tunnel_hint"@.len());
    assert("proxy_url"@.len() != "proxy"@.len());
    assert("proxy_url"@.len() != "sandbox"@.len());
    assert("local_url"@.len() != "remote_url"@.len());
    assert("local_url"@.len() != "tunnel_hint"@.len());
    assert("local_url"@.len() != "proxy"@.len());
    assert("local_url"@.len() != "sandbox"@.len());
    assert("remote_url"@.len() != "tunnel_hint"@.len());
    assert("remote_url"@.len() != "proxy"@.len());
    assert("remote_url"@.len() != "sandbox"@.len());
    assert("tunnel_hint"@.len() != "proxy"@.len());
    assert("tunnel_hint"@.len() != "sandbox"@.len());
    assert("proxy"@.len() != "sandbox"@.len());
    json::lemma_member(m, "ok"@, 0);
    json::lemma_member(m, "proxy_port"@, 1);
    json::lemma_member(m, "sandbox_port"@, 2);
    json::lemma_member(m, "proxy_url"@, 3);
    json::lemma_member(m, "local_url"@, 4);
    json::lemma_member(m, "remote_url"@, 5);
    json::lemma_member(m, "tunnel_hint"@, 6);
    json::lemma_member(m, "proxy"@, 7);
    json::lemma_member(m, "sandbox"@, 8);
}

/// The command that makes a sandbox available here logs in as the user, on the port and
/// with the key of the profile, and joins the port of the sandbox here with the same port
/// there.
pub proof fn lemma_tunnel(p: HostView, sandbox_port: u16)
    ensures
        ({
            let words = remote_commands::tunnel_words(p, sandbox_port);
            let n = words.len() as int;
            let port = number::decimal(sandbox_port as nat);
            &&& n >= 7 && words[0] == "ssh"@
            &&& words[n - 1] == p.username + "@"@ + p.host
            &&& words[n - 3] == "-L"@ && words[n - 2] == port + ":127.0.0.1:"@ + port
            &&& words[n - 6] == "-p"@ && number::parse_unsigned(words[n - 5], 65535) == Some(
                p.port as nat,
            )
            &&& p.auth matches AuthView::KeyFile { path, .. } ==> words[1] == "-i"@ && words[2]
                == path
            &&& !(p.auth is KeyFile) ==> n == 7
        }),
{
    number::lemma_parse_decimal(p.port as nat, 65535);
}

/// The data of a reply that reports success are what the command yields.
pub proof fn lemma_data_of_a_reply(line: Seq<char>, reply: Tree, data: Tree)
    requires
        json::bool_field(reply, "ok"@) == Some(true),
        json::field(reply, "data"@) == Some(data),
    ensures
        ssh_output::reply_meaning(line, Ok(reply)) == Ok::<Tree, ErrorView>(data),
{
}

/// The error of a reply that reports none but a failure is the error of the command, with
/// its code, its message and its advice.
pub proof fn lemma_error_of_a_reply(line: Seq<char>, reply: Tree, error: Tree)
    requires
        json::bool_field(reply, "ok"@) != Some(true),
        json::field(reply, "error"@) == Some(error),
    ensures
        ssh_output::reply_meaning(line, Ok(reply)) matches Err(e) && {
            &&& json::text_field(error, "code"@) matches Some(code) ==> e.code == code
            &&& json::text_field(error, "message"@) matches Some(message) ==> e.message == message
            &&& e.details == json::text_field(error, "details"@)
            &&& e.suggestion == json::text_field(error, "suggestion"@)
        },
{
}


} // verus!
