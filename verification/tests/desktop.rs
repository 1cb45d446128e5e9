use csswitch::cli::commands::config_dir;
use csswitch::config::{Config, Profile, Template};
use csswitch::desktop::checks::{
    assert_profile_runnable, key_fingerprint, looks_like_anthropic_endpoint, parse_host,
    proxy_launch_for, reject_openai_custom_anthropic_base, upstream_host,
    validate_base_url_for_profile,
};
use csswitch::desktop::models::{is_main_list_model, merge_and_sort_models, ModelEntry};
use csswitch::desktop::one_click::{
    begin_one_click, note_login, one_click_login, ClickAction, ClickEvent, ClickState, ForgedLogin,
    LoginAction, OneClick,
};
use csswitch::desktop::probe::{
    fetch_models, live_models, models_request, ping, resolve_probe_key,
    validate_profile_with_scratch, verify_key, FetchModelsReq, ProbeOutcome,
};
use csswitch::desktop::profiles::{
    clear_profile_key_inner, connection_candidate, create_profile_inner, delete_profile_inner,
    new_profile, set_active_profile, template_default_model, update_profile_connection_inner,
    stops_proxy, update_profile_metadata_inner,
};
use csswitch::desktop::proxy::{
    asset_root, begin_ensure_proxy, ensure_proxy, proxy_plan, Candidate, EnsureAction, EnsureEvent,
    EnsureState, LaunchFault, ProxyAction, ProxyPlan, SecretFault,
};
use csswitch::desktop::sandbox::{
    log_path, sandbox_home, sandbox_running_ours, sandbox_url, DaemonAnswer,
};
use csswitch::desktop::shown::{ere_escape, first_http_url, orphan_pattern, redact, tail_file};
use csswitch::desktop::state::{
    check_settings, leave_ports, leave_proxy_mode, set_mode, set_settings,
    settings_change_needs_teardown, AppState, SandboxStop,
};
use csswitch::desktop::views::{
    build_get_config, build_list_templates, doctor_env, open_in_browser, open_official, open_url,
    run_doctor, status, status_ports, take_notice, BrowserRun,
};
use csswitch::json::{parse_json, Json};
use csswitch::launch::key_env_for_adapter;

fn strings(v: &[&str]) -> Vec<String> {
    v.iter().map(|s| s.to_string()).collect()
}

fn profile(id: &str) -> Profile {
    Profile {
        id: id.to_string(),
        name: "n".to_string(),
        template_id: "custom-openai-responses".to_string(),
        api_format: "openai_responses".to_string(),
        base_url: "https://api.openai.com/v1".to_string(),
        api_key: "sk-test".to_string(),
        model: "gpt-5.2".to_string(),
        ..Default::default()
    }
}

fn config(profiles: Vec<Profile>, active: &str) -> Config {
    Config {
        schema_version: 2,
        profiles,
        active_id: active.to_string(),
        proxy_port: 18991,
        sandbox_port: 8990,
        secret: "stored".to_string(),
        mode: "proxy".to_string(),
        pending_notice: Some("note".to_string()),
    }
}

fn template() -> Template {
    Template {
        id: "t".to_string(),
        name: "Template".to_string(),
        category: "c".to_string(),
        api_format: "anthropic".to_string(),
        adapter: "relay".to_string(),
        base_url: "https://t.example/v1".to_string(),
        base_url_editable: true,
        requires_model_override: true,
        builtin_models: strings(&["m1", "m2"]),
        website_url: "https://t.example".to_string(),
        icon: "i".to_string(),
        icon_color: "red".to_string(),
        thinking_policy: "off".to_string(),
    }
}

fn running() -> AppState {
    AppState {
        proxy: true,
        proxy_port: 18991,
        secret: "live".to_string(),
        provider: "openai-responses".to_string(),
        key_fp: key_fingerprint("sk-test"),
        sandbox_port: 8990,
        sandbox_url: Some("http://127.0.0.1:8990/x".to_string()),
    }
}

fn plan() -> ProxyPlan {
    let cfg = config(vec![profile("p")], "p");
    proxy_plan(&cfg, "openai-responses", "", Some("/r"), Some("/usr/bin/python3")).unwrap()
}

#[test]
fn first_http_url_takes_only_first_valid_url() {
    let multi = "http://127.0.0.1:8990/setup?nonce=abc123\n\
                 This is a single-use link, expires in 60 seconds.";
    assert_eq!(
        first_http_url(multi).as_deref(),
        Some("http://127.0.0.1:8990/setup?nonce=abc123"),
        "多行输出必须只取第一行 URL，丢弃说明文字"
    );
    let inline = "https://x.example/y?z=1  (single-use)";
    assert_eq!(
        first_http_url(inline).as_deref(),
        Some("https://x.example/y?z=1")
    );
    let lead = "Open this link in your browser:\nhttp://127.0.0.1:8990/a";
    assert_eq!(
        first_http_url(lead).as_deref(),
        Some("http://127.0.0.1:8990/a")
    );
    assert_eq!(first_http_url("no url here\nnor here"), None);
    assert_eq!(
        first_http_url("http://127.0.0.1:8990").as_deref(),
        Some("http://127.0.0.1:8990")
    );
}

#[test]
fn redact_scrubs_secret_and_is_noop_when_empty() {
    assert_eq!(
        redact("推理指向 http://127.0.0.1:18991/abcd1234 尾巴", "abcd1234"),
        "推理指向 http://127.0.0.1:18991/**** 尾巴"
    );
    assert_eq!(redact("原样返回", ""), "原样返回");
    assert!(!redact("leak abcd1234 leak abcd1234", "abcd1234").contains("abcd1234"));
}

#[test]
fn key_fingerprint_stable_and_distinct() {
    assert_eq!(key_fingerprint("sk-aaaa"), key_fingerprint("sk-aaaa"));
    assert_ne!(key_fingerprint("sk-aaaa"), key_fingerprint("sk-bbbb"));
    assert_ne!(key_fingerprint(""), key_fingerprint("x"));
}

#[test]
fn key_fingerprint_is_fnv_1a() {
    assert_eq!(key_fingerprint(""), 0xcbf29ce484222325);
    assert_eq!(key_fingerprint("a"), 0xaf63dc4c8601ec8c);
    assert_eq!(key_fingerprint("foobar"), 0x85944171f73967e8);
}

#[test]
fn lib_tauri_openai_adapters_use_openai_key_env() {
    assert_eq!(key_env_for_adapter("openai-custom"), "CSSWITCH_OPENAI_KEY");
    assert_eq!(key_env_for_adapter("openai-responses"), "CSSWITCH_OPENAI_KEY");
}

#[test]
fn openai_responses_profile_is_runnable() {
    let profile = Profile {
        template_id: "custom-openai-responses".into(),
        api_format: "openai_responses".into(),
        base_url: "https://api.openai.com/v1".into(),
        api_key: "sk-test".into(),
        model: "gpt-5.2".into(),
        ..Default::default()
    };
    assert!(assert_profile_runnable(&profile, "openai-responses").is_ok());
}

#[test]
fn profiles_that_cannot_run_say_why() {
    let with = |f: &dyn Fn(&mut Profile)| {
        let mut p = profile("p");
        f(&mut p);
        assert_profile_runnable(&p, "relay").unwrap_err()
    };
    assert_eq!(
        with(&|p| p.api_format = "grpc".to_string()),
        "api_format `grpc` 暂不支持，请选 anthropic、openai_chat 或 openai_responses。"
    );
    assert_eq!(
        with(&|p| p.api_key = " ".to_string()),
        "当前 Profile 未填写 API Key。请填写后重试。"
    );
    assert_eq!(
        with(&|p| p.base_url = "x".to_string()),
        "relay 配置需要 http(s):// 开头的 base_url。"
    );
    assert_eq!(with(&|p| p.model = "".to_string()), "relay 配置需要选择或填写模型。");
    let mut native = profile("p");
    native.base_url = String::new();
    assert!(assert_profile_runnable(&native, "deepseek").is_ok());
    assert!(validate_base_url_for_profile(&native, "deepseek").is_ok());
    assert_eq!(
        validate_base_url_for_profile(&native, "relay").unwrap_err(),
        "base_url 必须以 http:// 或 https:// 开头。"
    );
}

#[test]
fn addresses_of_the_wrong_form_are_refused() {
    assert!(looks_like_anthropic_endpoint(" https://x.example/Anthropic/ "));
    assert!(!looks_like_anthropic_endpoint("https://x.example/v1"));
    assert!(reject_openai_custom_anthropic_base("custom-openai", "https://x/anthropic").is_err());
    assert!(reject_openai_custom_anthropic_base("custom", "https://x/anthropic").is_ok());
}

#[test]
fn hosts_are_found_in_addresses() {
    assert_eq!(parse_host("https://a.example:8443/v1").as_deref(), Some("a.example"));
    assert_eq!(parse_host("http://a.example?q").as_deref(), Some("a.example"));
    assert_eq!(parse_host("https:///x"), None);
    assert_eq!(parse_host("a.example"), None);
    assert_eq!(upstream_host("deepseek", ""), "api.deepseek.com");
    assert_eq!(upstream_host("qwen", ""), "dashscope.aliyuncs.com");
    assert_eq!(upstream_host("relay", "https://r.example/v1"), "r.example");
    assert_eq!(upstream_host("relay", ""), "");
    let launch = proxy_launch_for(&profile("p"), "relay", "off");
    assert_eq!(launch.key_env, "CSSWITCH_RELAY_KEY");
    assert_eq!(launch.key, "sk-test");
}

#[test]
fn settings_change_tears_down_only_when_ports_change() {
    assert!(!settings_change_needs_teardown(18991, 18991, 8990, 8990));
    assert!(settings_change_needs_teardown(18991, 19000, 8990, 8990));
    assert!(settings_change_needs_teardown(18991, 18991, 8990, 9000));
    assert!(settings_change_needs_teardown(18991, 19000, 8990, 9000));
}

#[test]
fn sandbox_home_is_writable_under_config_dir() {
    let h = sandbox_home(&config_dir(Some("/home/u")));
    assert!(h.ends_with("sandbox/home"), "应以 sandbox/home 结尾：{h:?}");
    assert!(h.contains(".csswitch"), "应在 .csswitch 下：{h:?}");
}

#[test]
fn settings_are_checked() {
    assert!(check_settings(18991, 8990).is_ok());
    assert_eq!(check_settings(8765, 8990).unwrap_err(), "端口 8765 是真实 Science 实例保留端口，不能用。");
    assert_eq!(check_settings(18991, 0).unwrap_err(), "端口不能为 0。");
    assert_eq!(check_settings(9000, 9000).unwrap_err(), "代理端口与沙箱端口不能相同。");
    let mut cfg = config(vec![], "");
    set_settings(&mut cfg, 1, 2);
    assert_eq!((cfg.proxy_port, cfg.sandbox_port), (1, 2));
}

#[test]
fn the_mode_changes_only_after_the_sandbox_stopped() {
    assert_eq!(set_mode("official"), Ok(true));
    assert_eq!(set_mode("proxy"), Ok(false));
    assert_eq!(set_mode("x").unwrap_err(), "未知模式：x（只支持 proxy / official）。");
    let mut app = running();
    assert_eq!(
        leave_proxy_mode(&mut app, SandboxStop::Failed(Some(1))).unwrap_err(),
        "停止沙箱失败，未切换到官方模式：停止沙箱脚本非零退出（Some(1)）。（真实实例 8765 未受影响）"
    );
    assert!(app.proxy);
    assert_eq!(app.secret, "live");
    assert!(app.sandbox_url.is_none());
    leave_proxy_mode(&mut app, SandboxStop::Stopped).unwrap();
    assert!(!app.proxy);
    assert!(app.secret.is_empty());
    assert_eq!(app.key_fp, 0);
}

#[test]
fn ports_change_only_after_the_sandbox_stopped() {
    let mut app = running();
    assert!(leave_ports(&mut app, SandboxStop::NoRoot).unwrap_err().starts_with("端口未更改："));
    assert_eq!(app.sandbox_port, 8990);
    leave_ports(&mut app, SandboxStop::Stopped).unwrap();
    assert_eq!(app.sandbox_port, 0);
    assert!(!app.proxy);
}

#[test]
fn everything_is_stopped() {
    let mut app = running();
    assert_eq!(
        app.stop_all(SandboxStop::NotRun("e".to_string())).unwrap_err(),
        "代理已停；但调用停止沙箱脚本失败：e真实实例 8765 未受影响。"
    );
    assert!(!app.proxy && app.secret.is_empty());
    let mut app = running();
    app.stop_all(SandboxStop::Stopped).unwrap();
    let mut app = running();
    app.quit_app();
    assert!(!app.proxy && app.secret.is_empty());
    assert_eq!(app.sandbox_url.as_deref(), Some("http://127.0.0.1:8990/x"));
    let mut app = AppState::default();
    assert!(!app.proxy);
    assert!(app
        .stop_sandbox_inner(SandboxStop::NoScript("/s".to_string()))
        .unwrap_err()
        .starts_with("找不到停止脚本 /s，"));
    app.stop_proxy_state();
}

#[test]
fn the_plan_needs_everything() {
    let cfg = config(vec![profile("p")], "p");
    assert_eq!(plan().script, "/r/proxy/csswitch_proxy.py");
    assert_eq!(plan().key_fp, key_fingerprint("sk-test"));
    let none = config(vec![profile("p")], "q");
    let of = |c: &Config, root, py| proxy_plan(c, "openai-responses", "", root, py).unwrap_err();
    assert!(of(&none, Some("/r"), Some("/p")).starts_with("没有生效的配置 Profile"));
    assert!(of(&cfg, None, Some("/p")).starts_with("找不到代理脚本"));
    assert!(of(&cfg, Some("/r"), None).starts_with("缺少依赖 python3"));
    let v = vec![
        Candidate { dir: "/a".to_string(), found: false },
        Candidate { dir: "/b".to_string(), found: true },
        Candidate { dir: "/c".to_string(), found: true },
    ];
    assert_eq!(asset_root(&v).as_deref(), Some("/b"));
    assert_eq!(asset_root(&Vec::new()), None);
}

#[test]
fn a_proxy_that_fits_is_used_as_it_is() {
    let mut app = running();
    let (s, a) = begin_ensure_proxy(plan(), "stored", &mut app);
    match a {
        EnsureAction::AskHealth { port, secret } => {
            assert_eq!((port, secret.as_str()), (18991, "live"));
        }
        _ => panic!("it fits"),
    }
    let (_, a) = ensure_proxy(s, EnsureEvent::Health(true), &mut app);
    match a {
        EnsureAction::Done(Ok((port, secret, action))) => {
            assert_eq!((port, secret.as_str()), (18991, "live"));
            assert_eq!(action, ProxyAction::Reused);
        }
        _ => panic!("it is healthy"),
    }
}

#[test]
fn a_changed_key_starts_a_new_proxy() {
    let mut app = running();
    app.key_fp = key_fingerprint("sk-old");
    let (s, a) = begin_ensure_proxy(plan(), "stored", &mut app);
    assert!(!app.proxy);
    match a {
        EnsureAction::Launch { pattern, program, args, env } => {
            assert_eq!(pattern, "/r/proxy/csswitch_proxy\\.py.*--port 18991");
            assert_eq!(program, "/usr/bin/python3");
            assert!(args.contains(&"stored".to_string()));
            assert!(env.contains(&("CSSWITCH_OPENAI_KEY".to_string(), "sk-test".to_string())));
        }
        _ => panic!("the key differs"),
    }
    let (s, a) = ensure_proxy(s, EnsureEvent::Spawned(Ok(())), &mut app);
    assert!(matches!(a, EnsureAction::PauseAndProbe { .. }));
    assert!(app.proxy);
    assert_eq!(app.secret, "stored");
    let (s, a) = ensure_proxy(s, EnsureEvent::Probed(true), &mut app);
    assert!(matches!(a, EnsureAction::ReadGeneration));
    let (_, a) = ensure_proxy(s, EnsureEvent::Generation(true), &mut app);
    assert!(matches!(a, EnsureAction::Done(Ok((18991, _, ProxyAction::Restarted)))));
}

#[test]
fn a_proxy_that_does_not_answer_is_ended() {
    let mut app = running();
    app.secret = "tok".to_string();
    let s = EnsureState::Probing(18991, "tok".to_string(), 39);
    let (s, a) = ensure_proxy(s, EnsureEvent::Probed(false), &mut app);
    assert!(matches!(a, EnsureAction::ReadLog));
    assert!(!app.proxy);
    let (_, a) = ensure_proxy(s, EnsureEvent::Log(Some(b"bad tok \n".to_vec())), &mut app);
    match a {
        EnsureAction::Done(Err(e)) => {
            assert_eq!(e, "代理起后探活超时（端口 18991 可能被占用，或 key 无效）。\nbad ****");
        }
        _ => panic!("it does not answer"),
    }
    let mut app = running();
    let s = EnsureState::Probing(18991, "tok".to_string(), 39);
    let _ = ensure_proxy(s, EnsureEvent::Probed(false), &mut app);
    assert!(app.proxy);
}

#[test]
fn a_replaced_proxy_is_not_reported_as_started() {
    let mut app = running();
    let s = EnsureState::Generation(18991, "live".to_string());
    let (_, a) = ensure_proxy(s, EnsureEvent::Generation(false), &mut app);
    match a {
        EnsureAction::Done(Err(e)) => {
            assert_eq!(e, "代理启动已被更新的停止/切换操作取代，请重试。");
        }
        _ => panic!("it was replaced"),
    }
    assert!(!app.proxy && app.key_fp == 0);
}

#[test]
fn a_secret_is_made_once() {
    let mut app = AppState::default();
    let (s, a) = begin_ensure_proxy(plan(), "", &mut app);
    assert!(matches!(a, EnsureAction::MakeSecret));
    let (_, a) = ensure_proxy(
        s,
        EnsureEvent::Secret(Err(SecretFault::Generate("e".to_string()))),
        &mut app,
    );
    assert!(matches!(a, EnsureAction::Done(Err(ref e)) if e == "无法生成安全 secret：e"));
    for (fault, text) in [
        (LaunchFault::Log("e".to_string()), "建日志失败：e"),
        (LaunchFault::Copy("e".to_string()), "e"),
        (LaunchFault::Spawn("e".to_string()), "启动代理失败：e"),
    ] {
        let s = EnsureState::Spawning(plan(), "x".to_string());
        let (_, a) = ensure_proxy(s, EnsureEvent::Spawned(Err(fault)), &mut app);
        match a {
            EnsureAction::Done(Err(e)) => assert_eq!(e, text),
            _ => panic!("nothing was started"),
        }
    }
}

#[test]
fn patterns_match_only_what_they_say() {
    assert_eq!(ere_escape("/a.b(c)[d]"), "/a\\.b\\(c\\)\\[d\\]");
    assert_eq!(orphan_pattern("/x.py", 1), "/x\\.py.*--port 1");
    assert_eq!(tail_file(Some(b"  abcdef "), 4), "def");
    assert_eq!(tail_file(None, 4), "");
}

#[test]
fn profiles_are_made_from_templates() {
    let t = template();
    assert_eq!(template_default_model(&t), "m1");
    let make = |name: &str, base: Option<&str>, model: Option<&str>| {
        new_profile(Some(&t), "t", "relay", "id1", 5, name, Some(" k "), base, model)
    };
    let p = make(" ", None, None).unwrap();
    assert_eq!((p.name.as_str(), p.model.as_str(), p.api_key.as_str()), ("Template", "m1", "k"));
    assert_eq!(p.base_url, "https://t.example/v1");
    assert_eq!(p.created_at, Some(5));
    let p = make(" Mine ", Some(" https://b "), Some(" x ")).unwrap();
    assert_eq!((p.name.as_str(), p.base_url.as_str(), p.model.as_str()), ("Mine", "https://b", "x"));
    assert!(make("n", Some("nope"), None).is_err());
    assert_eq!(
        new_profile(None, "zz", "relay", "i", 0, "n", None, None, None).unwrap_err(),
        "未知模板：zz"
    );
    let mut bare = template();
    bare.builtin_models = Vec::new();
    assert_eq!(
        new_profile(Some(&bare), "t", "relay", "i", 0, "n", None, None, None).unwrap_err(),
        "该来源需要选择或填写模型。"
    );
    let mut cfg = config(vec![profile("a")], "a");
    create_profile_inner(&mut cfg, p);
    assert_eq!(cfg.profiles.len(), 2);
    assert_eq!(cfg.profiles[1].sort_index, Some(1));
}

#[test]
fn profiles_are_changed_and_removed() {
    let mut cfg = config(vec![profile("a"), profile("b")], "a");
    update_profile_metadata_inner(&mut cfg, "a", " New ", Some("  ")).unwrap();
    assert_eq!(cfg.profiles[0].name, "New");
    assert!(cfg.profiles[0].notes.is_none());
    assert_eq!(cfg.profiles[1].name, "n");
    assert_eq!(
        update_profile_metadata_inner(&mut cfg, "z", "x", None).unwrap_err(),
        "找不到 profile：z"
    );
    update_profile_connection_inner(
        &mut cfg, "b", Some(" https://n "), None, Some("m9"), Some("  "), "relay", Some(&template()),
    )
    .unwrap();
    assert_eq!(cfg.profiles[1].base_url, "https://n");
    assert_eq!(cfg.profiles[1].api_key, "sk-test");
    assert_eq!(
        update_profile_connection_inner(&mut cfg, "b", None, None, Some(""), None, "relay", None)
            .unwrap_err(),
        "该来源需要选择或填写模型。"
    );
    assert_eq!(cfg.profiles[1].model, "m9");
    assert!(connection_candidate(&cfg, "b", None, Some("grpc"), None, None, "relay").is_err());
    assert_eq!(
        connection_candidate(&cfg, "b", None, None, None, Some("k2"), "relay").unwrap().api_key,
        "k2"
    );
    clear_profile_key_inner(&mut cfg, "b").unwrap();
    assert!(cfg.profiles[1].api_key.is_empty());
    assert!(stops_proxy(&cfg, "a") && !stops_proxy(&cfg, "b"));
    delete_profile_inner(&mut cfg, "a").unwrap();
    assert!(cfg.active_id.is_empty());
    assert_eq!(cfg.profiles.len(), 1);
    assert!(delete_profile_inner(&mut cfg, "a").is_err());
    assert!(clear_profile_key_inner(&mut cfg, "a").is_err());
}

#[test]
fn a_profile_is_put_in_use_after_it_was_tried() {
    let mut cfg = config(vec![profile("a"), profile("b")], "a");
    let (reply, committed) =
        set_active_profile(&mut cfg, "b", false, Err("bad".to_string())).unwrap();
    assert!(!committed);
    assert_eq!(cfg.active_id, "a");
    assert_eq!(reply.get_text("hint").as_deref(), Some("bad"));
    let (reply, committed) = set_active_profile(&mut cfg, "b", true, Err("bad".to_string())).unwrap();
    assert!(committed);
    assert_eq!(cfg.active_id, "b");
    assert_eq!(reply.get_text("hint").as_deref(), Some("已跳过校验并设为当前。"));
    let (reply, _) = set_active_profile(&mut cfg, "a", false, Ok(())).unwrap();
    assert_eq!(reply.get_text("hint").as_deref(), Some("已设为当前。"));
    assert!(set_active_profile(&mut cfg, "z", true, Ok(())).is_err());
}

#[test]
fn models_are_merged_and_ordered() {
    let families = strings(&["big-opus-", "big-sonnet-"]);
    assert!(is_main_list_model(&families, "big-opus-4-1"));
    assert!(!is_main_list_model(&families, "big-opus-latest"));
    assert!(!is_main_list_model(&families, "small-1"));
    let entry = |id: &str, tools: Option<bool>| ModelEntry { id: id.to_string(), supports_tools: tools };
    let live = vec![
        entry("z", Some(false)),
        entry("y", None),
        entry("x", Some(true)),
        entry("big-opus-4", Some(true)),
        entry("y", Some(true)),
    ];
    let merged = merge_and_sort_models(&families, &live, &strings(&["x", "big-sonnet-4", "w"]));
    let ids: Vec<String> = merged.iter().map(|m| m.get_text("id").unwrap()).collect();
    assert_eq!(ids, vec!["big-opus-4", "x", "big-sonnet-4", "y", "w", "z"]);
    assert!(matches!(merged[3].get("supports_tools"), Some(Json::Null)));
    assert_eq!(merged[0].get_bool("supports_tools"), Some(true));
}

#[test]
fn models_are_fetched() {
    let families = strings(&["big-"]);
    let builtin = strings(&["m1"]);
    let body = r#"{"data":[{"id":"a","supports_tools":true},{"no":"id"},{"id":"b"}]}"#;
    assert_eq!(live_models(&parse_json(body).unwrap()).len(), 2);
    let listed =
        fetch_models(&families, ProbeOutcome::Accepted, body, &builtin, "x", Some(200)).unwrap();
    assert_eq!(listed.get_text("source").as_deref(), Some("live"));
    assert_eq!(listed.get_number("upstream_status"), Some(200));
    let empty =
        fetch_models(&families, ProbeOutcome::Accepted, "{}", &builtin, "x", Some(200)).unwrap();
    assert_eq!(empty.get_text("source").as_deref(), Some("builtin"));
    assert!(fetch_models(&families, ProbeOutcome::Accepted, "{", &builtin, "x", None)
        .unwrap_err()
        .starts_with("解析模型列表失败："));
    assert_eq!(
        fetch_models(&families, ProbeOutcome::Auth(401), "", &builtin, "x", Some(401)).unwrap_err(),
        "上游拒绝（401），key 或权限可能有误。"
    );
    let network =
        fetch_models(&families, ProbeOutcome::NoResponse, "", &builtin, "network", None).unwrap();
    assert_eq!(network.get_text("error_kind").as_deref(), Some("network"));
    assert!(matches!(network.get("upstream_status"), Some(Json::Null)));
}

#[test]
fn models_are_asked_for_with_a_key() {
    let cfg = Ok(config(vec![profile("p")], "p"));
    assert_eq!(resolve_probe_key(None, " k ", &cfg), Ok("k".to_string()));
    assert_eq!(resolve_probe_key(Some("p"), " ", &cfg), Ok("sk-test".to_string()));
    assert_eq!(resolve_probe_key(None, "", &cfg), Err("请先填写 API Key / Token。".to_string()));
    assert_eq!(resolve_probe_key(Some("z"), "", &cfg), Err("请先填写 API Key / Token。".to_string()));
    assert_eq!(resolve_probe_key(Some("p"), "", &Err("e".to_string())), Err("e".to_string()));
    let t = template();
    let req = |base: &str| FetchModelsReq {
        template_id: " t ".to_string(),
        base_url: base.to_string(),
        key: "k".to_string(),
        profile_id: None,
    };
    let target =
        models_request(Some(&t), &req(" https://b "), "relay", &cfg, Some("/r"), Some("/py")).unwrap();
    assert_eq!(target.base_url, "https://b");
    assert_eq!(target.key_env, "CSSWITCH_RELAY_KEY");
    assert_eq!(target.relay_thinking, "off");
    assert_eq!(
        models_request(Some(&t), &req(""), "relay", &cfg, Some("/r"), Some("/py")).unwrap_err(),
        "请先填写 base_url（http:// 或 https:// 开头）。"
    );
    assert_eq!(
        models_request(None, &req(""), "relay", &cfg, None, None).unwrap_err(),
        "未知模板：t"
    );
    assert!(models_request(Some(&t), &req("https://b"), "relay", &cfg, None, None).is_err());
    assert_eq!(
        models_request(Some(&t), &req("https://b"), "relay", &cfg, Some("/r"), None).unwrap_err(),
        "缺少依赖 python3（起临时代理需要）。"
    );
}

#[test]
fn trials_have_verdicts() {
    let v = |o, skip| validate_profile_with_scratch(o, skip);
    assert_eq!(v(ProbeOutcome::Accepted, false), Ok(true));
    assert_eq!(v(ProbeOutcome::Auth(403), false).unwrap_err(), "上游拒绝（403），key/权限有误，配置未保存。");
    assert_eq!(
        v(ProbeOutcome::ModelError(404), false).unwrap_err(),
        "上游拒绝该模型（404），请换一个模型或核对 base_url，配置未保存。"
    );
    assert_eq!(
        v(ProbeOutcome::Ambiguous(Some(500)), true).unwrap_err(),
        "上游返回 500，未切换；确认无误后可选择跳过校验。"
    );
    assert_eq!(
        v(ProbeOutcome::Ambiguous(None), false).unwrap_err(),
        "上游响应不明确，连接未保存，请稍后重试。"
    );
    assert_eq!(
        v(ProbeOutcome::Unsupported(405), false).unwrap_err(),
        "上游不支持当前探测端点（405），连接未保存。"
    );
    assert!(v(ProbeOutcome::NoResponse, true).is_err());
    assert_eq!(verify_key(Some(200)).unwrap().get_bool("ok"), Some(true));
    assert_eq!(
        verify_key(Some(403)).unwrap().get_text("hint").as_deref(),
        Some("上游拒绝（403），key 可能无效或无权限。")
    );
    assert_eq!(verify_key(Some(500)).unwrap().get_bool("ok"), Some(false));
    assert!(verify_key(None).is_err());
    assert_eq!(
        parse_json(&ping("m1")).unwrap().get_text("model").as_deref(),
        Some("m1")
    );
}

#[test]
fn the_sandbox_is_recognised() {
    assert_eq!(sandbox_url(8990, Some(b"http://a/b x\n")), "http://a/b");
    assert_eq!(sandbox_url(8990, Some(b"none")), "http://127.0.0.1:8990");
    assert_eq!(sandbox_url(8990, None), "http://127.0.0.1:8990");
    let said = |s: &str| DaemonAnswer::Printed(s.as_bytes().to_vec());
    assert!(sandbox_running_ours(said(r#"{"running":true}"#), true));
    assert!(!sandbox_running_ours(said(r#"{"running":false}"#), true));
    assert!(!sandbox_running_ours(said("oops"), true));
    assert!(sandbox_running_ours(DaemonAnswer::Missing, true));
    assert_eq!(log_path("/c", "proxy.log"), "/c/logs/proxy.log");
}

fn click() -> OneClick {
    OneClick {
        proxy_port: 18991,
        secret: "tok".to_string(),
        proxy_action: ProxyAction::Reused,
        port: 8990,
    }
}

fn login() -> ForgedLogin {
    ForgedLogin {
        action: LoginAction::Created,
        auth_dir: "/a".to_string(),
        account_uuid: "u".to_string(),
        org_uuid: "o".to_string(),
        enc_file: "/e".to_string(),
    }
}

#[test]
fn a_running_sandbox_is_opened_again() {
    let mut app = running();
    let (s, a) = begin_one_click();
    assert!(matches!(a, ClickAction::LookForSandbox));
    let (s, a) = one_click_login(&click(), s, ClickEvent::Running(true), &mut app);
    assert!(matches!(a, ClickAction::LookAtLogin));
    let (s, a) = one_click_login(&click(), s, ClickEvent::Intact(true), &mut app);
    assert!(matches!(a, ClickAction::AskUrl));
    let (s, _) = one_click_login(&click(), s, ClickEvent::Url("http://u".to_string()), &mut app);
    assert_eq!(app.sandbox_url.as_deref(), Some("http://u"));
    let (_, a) = one_click_login(&click(), s, ClickEvent::Opened(true), &mut app);
    match a {
        ClickAction::Done(Ok(j)) => {
            assert_eq!(j.get_text("msg").as_deref(), Some("已在运行，已重新打开 Science。"));
            assert_eq!(j.get_text("action").as_deref(), Some("reopened"));
        }
        _ => panic!("it is open"),
    }
}

#[test]
fn a_sandbox_is_launched_and_confirmed() {
    let mut app = AppState::default();
    let c = click();
    let (s, _) = begin_one_click();
    let (s, a) = one_click_login(&c, s, ClickEvent::Running(false), &mut app);
    assert!(matches!(a, ClickAction::FindRoot));
    let (s, a) = one_click_login(&c, s, ClickEvent::Root(Some("/r".to_string())), &mut app);
    assert!(matches!(a, ClickAction::PrepareLogin));
    let (s, a) = one_click_login(&c, s, ClickEvent::Login(Ok(login())), &mut app);
    assert!(matches!(a, ClickAction::LookForFile(ref f) if f == "/r/scripts/launch-virtual-sandbox.sh"));
    let (s, a) = one_click_login(&c, s, ClickEvent::Script(true), &mut app);
    match a {
        ClickAction::Launch { note, args } => {
            assert_eq!(note, note_login(&login()));
            assert!(note.contains("action=Created"));
            assert_eq!(args[2], "8990");
            assert_eq!(args[4], "http://127.0.0.1:18991/tok");
            assert_eq!(args[5], "--skip-oauth-forge");
        }
        _ => panic!("the script is there"),
    }
    let (s, a) = one_click_login(&c, s, ClickEvent::Launched(Ok(true)), &mut app);
    assert!(matches!(a, ClickAction::PauseAndProbe));
    let (s, _) = one_click_login(&c, s, ClickEvent::Probed(false), &mut app);
    let (s, a) = one_click_login(&c, s, ClickEvent::Probed(true), &mut app);
    assert!(matches!(a, ClickAction::LookForSandbox));
    let (s, _) = one_click_login(&c, s, ClickEvent::Running(true), &mut app);
    let (s, _) = one_click_login(&c, s, ClickEvent::Url("http://u".to_string()), &mut app);
    let (_, a) = one_click_login(&c, s, ClickEvent::Opened(false), &mut app);
    match a {
        ClickAction::Done(Ok(j)) => {
            assert_eq!(
                j.get_text("msg").as_deref(),
                Some("已启动，服务已就绪，请手动打开：http://u")
            );
        }
        _ => panic!("it was started"),
    }
}

#[test]
fn a_sandbox_that_fails_is_stopped() {
    let mut app = running();
    let c = click();
    let s = ClickState::Probing(LoginAction::Reused, 79);
    let (s, a) = one_click_login(&c, s, ClickEvent::Probed(false), &mut app);
    assert!(matches!(a, ClickAction::ReadLog));
    let (s, a) = one_click_login(&c, s, ClickEvent::Log(Some(b"x tok".to_vec())), &mut app);
    assert!(matches!(a, ClickAction::StopSandbox));
    let (_, a) = one_click_login(&c, s, ClickEvent::Stopped(SandboxStop::NoRoot), &mut app);
    match a {
        ClickAction::Done(Err(e)) => {
            assert_eq!(e, "沙箱起后探活超时（端口 8990）。已尝试停掉刚起的沙箱。\nx ****");
        }
        _ => panic!("it does not answer"),
    }
    assert!(app.sandbox_url.is_none());
    let error = |s, event| {
        let mut app = running();
        match one_click_login(&click(), s, event, &mut app).1 {
            ClickAction::Done(Err(e)) => e,
            _ => panic!("it failed"),
        }
    };
    assert_eq!(
        error(ClickState::Root, ClickEvent::Root(None)),
        "找不到 scripts/launch-virtual-sandbox.sh（打包资源或仓库根均未命中）。"
    );
    assert_eq!(
        error(ClickState::Login("s".to_string()), ClickEvent::Login(Err("e".to_string()))),
        "写虚拟登录失败：e"
    );
    assert_eq!(
        error(ClickState::Script("s".to_string(), login()), ClickEvent::Script(false)),
        "找不到 scripts/launch-virtual-sandbox.sh。"
    );
    assert_eq!(
        error(
            ClickState::Launching(LoginAction::Created),
            ClickEvent::Launched(Err(LaunchFault::Spawn("e".to_string())))
        ),
        "起沙箱失败：e"
    );
    assert_eq!(error(ClickState::ScriptLog, ClickEvent::Log(None)), "起沙箱脚本失败。\n");
    assert!(error(ClickState::StoppingFalse, ClickEvent::Stopped(SandboxStop::Stopped))
        .starts_with("端口 8990 有服务响应，"));
}

#[test]
fn the_configuration_is_shown_without_keys() {
    let mut cfg = config(vec![profile("a")], "a");
    let shown = build_get_config(&cfg, &vec![template()], &strings(&["•••"]));
    assert_eq!(shown.get_text("pending_notice").as_deref(), Some("note"));
    let profiles = shown.into_field("profiles").unwrap();
    match &profiles {
        Json::List(v) => {
            assert_eq!(v[0].get_text("key").as_deref(), Some("•••"));
            assert!(v[0].get("api_key").is_none());
        }
        _ => panic!("a list of profiles"),
    }
    match build_list_templates(&vec![template()]) {
        Json::List(v) => assert_eq!(v[0].get_texts("builtin_models"), vec!["m1", "m2"]),
        _ => panic!("a list of templates"),
    }
    assert!(take_notice(&mut cfg));
    assert!(!take_notice(&mut cfg));
}

#[test]
fn the_state_is_shown() {
    let cfg = config(vec![], "");
    assert_eq!(status_ports(&AppState::default(), &cfg), (18991, 8990));
    let lights = status("s", true, false, "", true);
    assert_eq!(lights.get_text("proxy").as_deref(), Some("green"));
    assert_eq!(lights.get_text("sandbox").as_deref(), Some("amber"));
    assert_eq!(lights.get_text("upstream").as_deref(), Some("amber"));
    assert_eq!(status("", true, true, "a", true).get_text("proxy").as_deref(), Some("amber"));
}

#[test]
fn only_local_addresses_are_opened() {
    let app = running();
    assert_eq!(open_url(Some("http://LOCALHOST:1/x"), &app), Ok("http://LOCALHOST:1/x".to_string()));
    assert_eq!(open_url(Some(" http://localhost:1"), &app), Err("URL 不能包含首尾空白。".to_string()));
    assert_eq!(open_url(Some("https://evil.example"), &app), Err("只允许打开本地沙箱 URL。".to_string()));
    assert_eq!(open_url(None, &app), Ok("http://127.0.0.1:8990/x".to_string()));
    assert!(open_url(None, &AppState::default()).is_err());
    assert!(open_in_browser("open", BrowserRun::Opened).is_ok());
    assert_eq!(
        open_in_browser("open", BrowserRun::Failed(Some(2))).unwrap_err(),
        "open 非零退出（Some(2)）"
    );
    assert_eq!(
        open_in_browser("open", BrowserRun::NotRun("e".to_string())).unwrap_err(),
        "打开浏览器失败：e"
    );
    assert_eq!(
        open_official("The Science", BrowserRun::Failed(None)).unwrap_err(),
        "未能打开 The Science。请确认已安装官方 The Science。"
    );
    assert_eq!(
        open_official("The Science", BrowserRun::NotRun("e".to_string())).unwrap_err(),
        "打开官方 The Science 失败：e"
    );
}

#[test]
fn the_self_test_never_sees_a_key() {
    let cfg = config(vec![profile("a")], "a");
    let env = doctor_env(&cfg, "deepseek");
    assert_eq!(env[3], ("DEEPSEEK_API_KEY".to_string(), "***present***".to_string()));
    assert!(!env.iter().any(|(_, v)| v.contains("sk-test")));
    assert_eq!(doctor_env(&config(vec![], ""), "").len(), 3);
    assert_eq!(run_doctor(b"ok", b" bad \n"), "ok\n[stderr] bad");
    assert_eq!(run_doctor(b"ok", b" "), "ok");
}
