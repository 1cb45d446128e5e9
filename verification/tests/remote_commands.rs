use csswitch::config::{Config, Profile};
use csswitch::json::parse_json;
use csswitch::remote::types::{
    RemoteAuthMethod, RemoteError, RemoteHostProfile, RemoteSshAdvancedOptions, RemoteTargetKind,
};
use csswitch::remote_commands::{
    cache_health, cached_health, call_error, health_from_status_result, http_url, install_error,
    login_secret_kind, masked_key_of, one_click_result, remote_active_config_for_start,
    remote_logs, remote_one_click, remote_proxy_url, remote_save_provider_key, remote_start_proxy,
    remote_status, remote_tunnel_hint, remote_verify_key,
};
use csswitch::text::table::Table;

fn remote_error(code: &str, message: &str) -> RemoteError {
    RemoteError {
        code: code.to_string(),
        message: message.to_string(),
        details: None,
        recoverable: false,
        suggestion: None,
    }
}

fn profile() -> RemoteHostProfile {
    RemoteHostProfile {
        id: "r1".to_string(),
        name: "lab".to_string(),
        kind: RemoteTargetKind::Ssh,
        host: "example.com".to_string(),
        port: 2222,
        distribution: None,
        username: "ubuntu".to_string(),
        auth_method: RemoteAuthMethod::SshAgent,
        helper_path: "/h".to_string(),
        last_connected: None,
        ssh_options: RemoteSshAdvancedOptions::default(),
        transient_password: None,
    }
}

fn config(template: &str, key: &str) -> Config {
    Config {
        schema_version: 2,
        profiles: vec![
            Profile {
                id: "x".to_string(),
                template_id: "other".to_string(),
                api_key: "other-key".to_string(),
                ..Default::default()
            },
            Profile {
                id: "p".to_string(),
                template_id: template.to_string(),
                api_key: key.to_string(),
                ..Default::default()
            },
        ],
        active_id: "p".to_string(),
        proxy_port: 18991,
        sandbox_port: 8990,
        secret: "local-secret".to_string(),
        mode: "proxy".to_string(),
        pending_notice: Some("hello".to_string()),
    }
}

#[test]
fn health_from_helper_missing_keeps_server_reachable() {
    let health = health_from_status_result(
        Err(remote_error("helper_not_found", "missing helper")),
        "0.3.0",
        123,
    );

    assert!(health.reachable);
    assert!(!health.helper_installed);
    assert_eq!(health.last_check, 123);
}

#[test]
fn health_from_auth_error_marks_server_unreachable() {
    let health = health_from_status_result(
        Err(remote_error("ssh_auth_failed", "bad password")),
        "0.3.0",
        123,
    );

    assert!(!health.reachable);
    assert!(!health.helper_installed);
    assert_eq!(health.last_check, 123);
}

#[test]
fn health_of_a_helper_is_read() {
    let status = parse_json(
        r#"{"version":"0.3.0","platform":"linux","arch":"x86_64","capabilities":["proxy","sandbox","config","logs","doctor","verify"],"proxy_running":true,"sandbox_running":false}"#,
    )
    .unwrap();
    let health = health_from_status_result(Ok(status), "0.3.0", 7);
    assert!(health.reachable && health.helper_installed && health.compatible);
    assert_eq!(health.helper_version.as_deref(), Some("0.3.0"));
    assert_eq!(health.platform.as_deref(), Some("linux"));
    assert!(health.proxy_running);
    assert!(!health.sandbox_running);
    assert!(health.last_error.is_none());
}

#[test]
fn health_is_kept_for_five_seconds() {
    let mut cache = Table::new();
    let health = health_from_status_result(Err(remote_error("x", "y")), "0.3.0", 1);
    cache_health(&mut cache, "a", &health, 1000);
    assert!(cached_health(&cache, "a", 1000).is_some());
    assert!(cached_health(&cache, "a", 5999).is_some());
    assert!(cached_health(&cache, "a", 6000).is_none());
    assert!(cached_health(&cache, "b", 1000).is_none());
}

#[test]
fn only_the_profile_in_use_is_sent() {
    let cfg = config("deepseek", "sk-1");
    let sent =
        remote_active_config_for_start(&cfg, 2, "deepseek", "deepseek", 19000, Some(9000), "s").unwrap();
    assert_eq!(sent.profiles.len(), 1);
    assert_eq!(sent.profiles[0].id, "p");
    assert_eq!(sent.active_id, "p");
    assert_eq!((sent.proxy_port, sent.sandbox_port), (19000, 9000));
    assert_eq!(sent.secret, "s");
    assert!(sent.pending_notice.is_none());
    assert!(remote_active_config_for_start(&cfg, 2, "deepseek", "qwen", 1, None, "s").is_err());
    assert_eq!(
        remote_active_config_for_start(&config("deepseek", " "), 2, "deepseek", "", 1, None, "s")
            .unwrap_err(),
        "当前 Profile 未填写 API Key。请填写后重试。"
    );
    assert_eq!(
        remote_active_config_for_start(&config("custom", "k"), 2, "relay", "", 1, None, "s").unwrap_err(),
        "relay 配置需要 http(s):// 开头的 base_url。"
    );
}

#[test]
fn everything_is_stopped_before_it_is_started() {
    let calls = remote_one_click("{}", "relay", 18991, 8990, "s3");
    let words: Vec<String> = calls.iter().map(|c| c.args.join(" ")).collect();
    assert_eq!(
        words,
        vec![
            "config set {}",
            "proxy stop",
            "sandbox stop",
            "proxy start relay 18991 s3",
            "sandbox start 8990 http://127.0.0.1:18991/s3",
        ]
    );
    assert_eq!(call_error(&calls[1], &remote_error("c", "m")), "停止旧远程代理失败：m");
    assert_eq!(remote_start_proxy("{}", "relay", 1, "s").len(), 3);
    assert_eq!(remote_proxy_url(1, "s"), "http://127.0.0.1:1/s");
}

#[test]
fn a_tunnel_is_suggested() {
    assert_eq!(
        remote_tunnel_hint(&profile(), 8990),
        "ssh -p 2222 -N -L 8990:127.0.0.1:8990 ubuntu@example.com"
    );
    let proxy = parse_json("{}").unwrap();
    let sandbox = parse_json(r#"{"url":"http://127.0.0.1:8990/x"}"#).unwrap();
    let report = one_click_result(&profile(), 18991, 8990, "s", proxy, sandbox);
    assert_eq!(report.get_text("local_url").as_deref(), Some("http://127.0.0.1:8990/x"));
    assert_eq!(report.get_text("remote_url").as_deref(), Some("http://example.com:8990"));
    assert_eq!(report.get_bool("ok"), Some(true));
}

#[test]
fn lights_follow_the_status() {
    let status = parse_json(r#"{"proxy_running":true,"sandbox_running":false,"platform":"linux"}"#).unwrap();
    let lights = remote_status(&status);
    assert_eq!(lights.get_text("proxy").as_deref(), Some("green"));
    assert_eq!(lights.get_text("sandbox").as_deref(), Some("amber"));
    assert_eq!(lights.get_text("upstream").as_deref(), Some("green"));
    assert_eq!(lights.get_bool("remote"), Some(true));
}

#[test]
fn helper_arguments_are_in_order() {
    assert_eq!(remote_logs("proxy", Some(50)), vec!["logs", "proxy", "50"]);
    assert_eq!(remote_verify_key(18991, "s"), vec!["verify", "18991", "s"]);
    assert_eq!(remote_save_provider_key("qwen", "k"), vec!["config", "save-key", "qwen", "k"]);
    assert_eq!(masked_key_of(&parse_json(r#"{"masked":"••••"}"#).unwrap()), "••••");
    assert_eq!(
        install_error(&remote_error("c", "m")),
        "Helper 安装失败。请确认远程服务器可以访问 GitHub：m"
    );
    assert!(login_secret_kind(" ", "password", None).is_err());
    assert!(login_secret_kind("p", "password", None).is_ok());
    assert!(http_url("https://x") && http_url("http://x") && !http_url("ftp://x"));
}
