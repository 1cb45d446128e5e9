use csswitch::cli::commands::{
    cmd_config_get, cmd_config_save_key, cmd_config_set, cmd_doctor, cmd_logs, cmd_status,
    cmd_verify, command_output_error, command_paths, config_dir, get_configured_port,
    get_configured_sandbox_port, health_answer_ok, health_request, http_answer, load_proxy_secret,
    mask_config, mask_key, needs_managed_write, proxy_launch_from_config, proxy_script_path,
    read_config_text, sandbox_paths, store_key, tail_file, validate_managed_port, verify_request,
    ConfigRead, ConfigSet, FileRead, VerifyExchange,
};
use csswitch::cli::dispatch::{dispatch, parse_invocation, CliCommand};
use csswitch::cli::logger::{info, log_path, timestamp_text, LogLevel};
use csswitch::cli::proc_manager::{
    record_proxy_start, record_proxy_stop, ProcessManager, ProcessRecord, ProcessStatus, RotateStep,
};
use csswitch::cli::proxy::recorded_proxy;
use csswitch::cli::serve::{respond, serve_line, unreadable_request, ServeStep};
use csswitch::cli::types::{CliEnvelope, CliServeRequest};
use csswitch::config::{Config, Profile};
use csswitch::json::{parse_json, Json};
use csswitch::launch::{key_env_for_adapter, proxy_arguments, proxy_environment};

fn strings(v: &[&str]) -> Vec<String> {
    v.iter().map(|s| s.to_string()).collect()
}

fn code_of(e: &CliEnvelope) -> &str {
    e.error.as_ref().unwrap().code.as_str()
}

fn config(template: &str, key: &str, base_url: &str, model: &str) -> Config {
    Config {
        schema_version: 2,
        profiles: vec![Profile {
            id: "p".to_string(),
            template_id: template.to_string(),
            api_key: key.to_string(),
            base_url: base_url.to_string(),
            model: model.to_string(),
            ..Default::default()
        }],
        active_id: "p".to_string(),
        proxy_port: 18991,
        sandbox_port: 8990,
        secret: String::new(),
        mode: "proxy".to_string(),
        pending_notice: None,
    }
}

#[test]
fn commands_openai_adapters_use_openai_key_env() {
    assert_eq!(key_env_for_adapter("openai-custom"), "CSSWITCH_OPENAI_KEY");
    assert_eq!(
        key_env_for_adapter("openai-responses"),
        "CSSWITCH_OPENAI_KEY"
    );
}

#[test]
fn key_variables_follow_the_adapter() {
    assert_eq!(key_env_for_adapter("deepseek"), "DEEPSEEK_API_KEY");
    assert_eq!(key_env_for_adapter("qwen"), "DASHSCOPE_API_KEY");
    assert_eq!(key_env_for_adapter("relay"), "CSSWITCH_RELAY_KEY");
}

#[test]
fn test_log_level_as_str() {
    assert_eq!(LogLevel::Info.as_str(), "INFO");
    assert_eq!(LogLevel::Warn.as_str(), "WARN");
    assert_eq!(LogLevel::Error.as_str(), "ERROR");
}

#[test]
fn log_lines_carry_the_time() {
    assert!(timestamp_text(0).starts_with("1970-01-01"));
    assert!(timestamp_text(951782400).starts_with("2000-02-29"));
    assert!(timestamp_text(1735689599).starts_with("2024-12-31"));
    assert!(timestamp_text(1735689599).contains("23:59:59"));
    let line = info("hello", 1700000000);
    assert!(line.contains("INFO") && line.contains("hello") && line.contains("2023-11-14"));
    assert!(log_path("/c").starts_with("/c/"));
}

#[test]
fn test_write_and_read_pid() {
    let record = ProcessRecord {
        pid: 12345,
        started_at: 1700000000,
        command: "test".to_string(),
        port: 18991,
        secret: Some("abc123".to_string()),
    };
    let pm = ProcessManager::new("proxy", "/c");
    let back = pm.write_pid(record.pid, record.port, &record.command, record.secret.as_deref(), record.started_at);
    assert_eq!(back.pid, 12345);
    assert_eq!(back.port, 18991);
    assert_eq!(back.secret.unwrap(), "abc123");
    assert_eq!(back.started_at, 1700000000);
}

#[test]
fn test_log_rotation_logic() {
    let pm = ProcessManager::new("proxy", "/c");
    assert!(pm.rotate_logs(Some(10), 10).is_empty());
    assert!(pm.rotate_logs(None, 10).is_empty());
    let steps = pm.rotate_logs(Some(11), 10);
    assert_eq!(steps.len(), 4);
    match &steps[3] {
        RotateStep::Rename { from, to } => {
            assert_eq!(from, "/c/logs/proxy.log");
            assert_eq!(to, "/c/logs/proxy.log.1");
        }
        RotateStep::Remove { .. } => panic!("the log itself is kept"),
    }
    assert!(pm.cleanup(ProcessStatus::Stopped));
    assert!(!pm.cleanup(ProcessStatus::Running(1)));
}

#[test]
fn records_tell_whether_a_process_runs() {
    let pm = ProcessManager::new("proxy", "/c");
    let record = record_proxy_start("/c", 7, 18991, "s", 1);
    assert_eq!(record.command, "python3 csswitch_proxy.py");
    assert_eq!(pm.status(Some(&record), true).0, ProcessStatus::Running(7));
    assert_eq!(pm.status(None, true).0, ProcessStatus::Stopped);
    assert_eq!(pm.status_unprobed(true), ProcessStatus::Unknown);
    assert_eq!(pm.status_unprobed(false), ProcessStatus::Stopped);
    assert!(pm.cleanup(ProcessStatus::Unknown));
    assert_eq!(recorded_proxy(Some(&record), 1), Some(7));
    assert_ne!(pm.pid_file(), ProcessManager::new("sandbox", "/c").pid_file());
    assert_eq!(pm.tail_logs(Some("a\nb\nc\n"), 2), vec!["b", "c"]);
    assert!(pm.tail_logs(None, 2).is_empty());
    assert!(!record_proxy_stop("/c", ProcessStatus::Running(7)));
}

#[test]
fn ports_of_the_real_instance_are_refused() {
    assert!(validate_managed_port(18991).is_ok());
    assert_eq!(code_of(&validate_managed_port(0).unwrap_err()), "invalid_port");
    assert_eq!(code_of(&validate_managed_port(8765).unwrap_err()), "reserved_port");
}

#[test]
fn arguments_are_routed() {
    assert!(matches!(dispatch(&strings(&["status"])), Ok(CliCommand::Status)));
    assert!(matches!(dispatch(&strings(&["config", "get"])), Ok(CliCommand::ConfigGet)));
    match dispatch(&strings(&["proxy", "start", "relay", "18991", "s"])) {
        Ok(CliCommand::ProxyStart { provider, port, secret }) => {
            assert_eq!((provider.as_str(), port, secret.as_str()), ("relay", 18991, "s"));
        }
        _ => panic!("a proxy is started"),
    }
    match dispatch(&strings(&["sandbox", "start", "8990", "http://127.0.0.1:1/s"])) {
        Ok(CliCommand::SandboxStart { port, proxy_url }) => {
            assert_eq!((port, proxy_url.as_str()), (8990, "http://127.0.0.1:1/s"));
        }
        _ => panic!("a sandbox is started"),
    }
    match dispatch(&strings(&["verify", "18991", "s"])) {
        Ok(CliCommand::Verify { port, secret }) => {
            assert_eq!((port, secret.as_str()), (18991, "s"));
        }
        _ => panic!("a key is verified"),
    }
    assert_eq!(
        code_of(&dispatch(&strings(&["proxy", "start", "relay"])).unwrap_err()),
        "missing_argument"
    );
    assert_eq!(
        code_of(&dispatch(&strings(&["proxy", "start", "relay", "99999", "s"])).unwrap_err()),
        "invalid_port"
    );
    let unknown = dispatch(&strings(&["fly", "away"])).unwrap_err();
    assert_eq!(code_of(&unknown), "unknown_command");
    assert_eq!(unknown.error.unwrap().message, "未知命令：fly away");
    let call = parse_invocation(&strings(&["--json", "status"]));
    assert!(call.use_json && !call.serve);
    assert_eq!(call.args, vec!["status"]);
}

#[test]
fn errors_are_shown_to_people() {
    let e = CliEnvelope::err_with_hint("c", "m", "h");
    assert_eq!(e.error.unwrap().shown(), vec!["错误 [c]: m", "建议: h"]);
    let e = CliEnvelope::err("c", "m");
    assert_eq!(e.error.unwrap().shown(), vec!["错误 [c]: m"]);
}

#[test]
fn session_requests_keep_their_id() {
    assert!(matches!(serve_line("  \n"), ServeStep::Skip));
    match serve_line(" {} \n") {
        ServeStep::Read(text) => assert_eq!(text, "{}"),
        ServeStep::Skip => panic!("the line is not blank"),
    }
    let request = CliServeRequest { id: "7".to_string(), command: strings(&["status"]) };
    let reply = respond(request, CliEnvelope::ok_empty());
    assert_eq!(reply.id, "7");
    assert!(reply.ok);
    let bad = unreadable_request("e");
    assert_eq!(bad.id, "unknown");
    assert_eq!(bad.error.unwrap().message, "无法解析请求 JSON：e");
}

#[test]
fn keys_are_masked() {
    assert_eq!(mask_key("sk-12345678"), "•••••••5678");
    assert_eq!(mask_key("abcd"), "••••");
    assert_eq!(mask_key(""), "••••");
    let read = ConfigRead::Text(
        r#"{"providers":{"a":{"key":"sk-12345678"},"b":{"key":"x"}},"proxy_port":1}"#.to_string(),
    );
    let shown = cmd_config_get(read).data.unwrap();
    let providers = shown.into_field("providers").unwrap();
    assert_eq!(providers.get("a").unwrap().get_text("key").as_deref(), Some("•••••••5678"));
    assert_eq!(providers.get("b").unwrap().get_text("key").as_deref(), Some("••••"));
    let stored = cmd_config_save_key("sk-12345678", Ok(()));
    assert_eq!(stored.data.unwrap().get_text("masked").as_deref(), Some("•••••••5678"));
    let failed = cmd_config_save_key("k", Err("e".to_string()));
    assert_eq!(code_of(&failed), "config_write_error");
    let wide = cmd_config_save_key("日本", Ok(()));
    assert_eq!(wide.data.unwrap().get_text("masked").as_deref(), Some("•••本"));
    assert_eq!(mask_key("k日本"), "••••本");
    assert_eq!(mask_key("abcde\u{1F511}"), "•••••\u{1F511}");
}

#[test]
fn every_key_of_a_configuration_is_masked() {
    let read = ConfigRead::Text(
        r#"{"profiles":[{"id":"a","api_key":"k1234567"}],"providers":{"deepseek":{"key":"p7654321"}}}"#
            .to_string(),
    );
    let reply = cmd_config_get(read);
    assert!(reply.ok);
    let data = reply.data.unwrap();
    let shown = format!("{data:?}");
    assert!(!shown.contains("k1234567") && !shown.contains("p7654321"));
    let provider = data.get("providers").unwrap().get("deepseek").unwrap();
    assert_eq!(provider.get_text("key").as_deref(), Some("••••4321"));
    match data.get("profiles") {
        Some(Json::List(v)) => {
            assert_eq!(v[0].get_text("api_key").as_deref(), Some("••••4567"));
            assert_eq!(v[0].get_text("id").as_deref(), Some("a"));
        }
        _ => panic!("the profiles are a list"),
    }
    let odd = parse_json(r#"{"profiles":{"api_key":"k1234567"},"providers":[1],"mode":"x"}"#);
    let kept = mask_config(odd.unwrap());
    assert_eq!(kept.get_text("mode").as_deref(), Some("x"));
    assert_eq!(kept.get("profiles").unwrap().get_text("api_key").as_deref(), Some("k1234567"));
}

#[test]
fn configurations_are_read_and_written() {
    let none = cmd_config_get(ConfigRead::Missing).data.unwrap();
    assert_eq!(none.get_number("proxy_port"), Some(18991));
    let failed = cmd_config_get(ConfigRead::Failed { error: "e".to_string() });
    assert_eq!(code_of(&failed), "config_read_error");
    let bad = cmd_config_get(ConfigRead::Text("{".to_string()));
    assert_eq!(code_of(&bad), "config_parse_error");
    assert!(cmd_config_set("{}", ConfigSet::Written).ok);
    let other = cmd_config_set("[]", ConfigSet::NoConfig { error: "e".to_string() });
    assert_eq!(code_of(&other), "config_parse_error");
    assert_eq!(other.error.unwrap().message, "配置格式错误：e");
    let unwritten = cmd_config_set("{}", ConfigSet::NotWritten { error: "e".to_string() });
    assert_eq!(code_of(&unwritten), "config_write_error");
    assert_eq!(unwritten.error.unwrap().message, "写入配置失败：e");
}

#[test]
fn text_that_is_no_json_is_no_configuration() {
    let read = read_config_text(r#"{"mode":"proxy","proxy_port":19000}"#).unwrap();
    assert_eq!(read.get_text("mode").as_deref(), Some("proxy"));
    assert_eq!(read.get_number("proxy_port"), Some(19000));
    let refusal = read_config_text("{\"mode\":").unwrap_err();
    assert!(!refusal.ok);
    assert_eq!(code_of(&refusal), "config_parse_error");
    assert_eq!(
        refusal.error.unwrap().message,
        "JSON 解析失败：EOF while parsing a value at line 1 column 8"
    );
    let refused = cmd_config_set("{\"mode\":", ConfigSet::Written);
    assert_eq!(code_of(&refused), "config_parse_error");
    assert!(refused.error.unwrap().message.starts_with("JSON 解析失败："));
}

#[test]
fn answers_are_taken_apart() {
    let (status, body) = http_answer(b"HTTP/1.1 404 Not Found\r\nA: b\r\n\r\n{}\r\n\r\nmore");
    assert_eq!((status, body.as_str()), (Some(404), "{}\r\n\r\nmore"));
    assert_eq!(http_answer(b"HTTP/1.1 90000 x\r\n"), (None, String::new()));
    assert_eq!(http_answer(b""), (None, String::new()));
    assert_eq!(http_answer("HTTP/1.1 200 OK\r\n\r\né".as_bytes()).1, "é");
}

#[test]
fn ports_come_from_the_configuration() {
    assert_eq!(get_configured_port(None), 18991);
    assert_eq!(get_configured_sandbox_port(None), 8990);
    assert_eq!(get_configured_port(Some(r#"{"proxy_port":19000}"#)), 19000);
    assert_eq!(get_configured_port(Some("nonsense")), 18991);
    assert_eq!(get_configured_sandbox_port(Some(r#"{"sandbox_port":65537}"#)), 1);
}

#[test]
fn a_key_is_stored_for_its_provider_only() {
    let mut cfg = config("deepseek", "old", "", "");
    store_key(&mut cfg, "deepseek", "qwen", "new");
    assert_eq!(cfg.profiles[0].api_key, "old");
    store_key(&mut cfg, "deepseek", "deepseek", "new");
    assert_eq!(cfg.profiles[0].api_key, "new");
    let launch = proxy_launch_from_config(&cfg, "deepseek", "", "deepseek").unwrap().unwrap();
    assert_eq!(launch.key, "new");
}

#[test]
fn launches_come_from_the_profile_in_use() {
    let cfg = config("deepseek", " sk-1 ", "", "");
    let launch = proxy_launch_from_config(&cfg, "deepseek", "", "deepseek").unwrap().unwrap();
    assert_eq!(launch.key, "sk-1");
    assert_eq!(launch.key_env, "DEEPSEEK_API_KEY");
    assert!(proxy_launch_from_config(&cfg, "deepseek", "", "qwen").is_err());
    let none = config("deepseek", " ", "", "");
    assert!(proxy_launch_from_config(&none, "deepseek", "", "deepseek").unwrap().is_none());
    let relay = config("custom", "k", "ftp://x", "m");
    assert_eq!(
        proxy_launch_from_config(&relay, "relay", "", "relay").unwrap_err(),
        "当前配置需要 http(s):// 开头的 base_url。"
    );
    let relay = config("custom", "k", "https://x", " ");
    assert_eq!(
        proxy_launch_from_config(&relay, "relay", "", "relay").unwrap_err(),
        "当前配置需要选择或填写模型。"
    );
}

#[test]
fn keys_reach_the_environment_and_not_the_arguments() {
    let cfg = config("custom", "sk-secret", "https://x", "m1");
    let launch = proxy_launch_from_config(&cfg, "relay", "off", "relay").unwrap().unwrap();
    let args = proxy_arguments("/p.py", &launch, 18991, "tok");
    assert_eq!(
        args,
        vec!["/p.py", "--provider", "relay", "--port", "18991", "--auth-token", "tok"]
    );
    let env = proxy_environment(&launch);
    assert_eq!(env[0], ("CSSWITCH_RELAY_KEY".to_string(), "sk-secret".to_string()));
    assert!(env.contains(&("CSSWITCH_RELAY_MODEL".to_string(), "m1".to_string())));
    assert!(env.contains(&("CSSWITCH_RELAY_THINKING".to_string(), "off".to_string())));
    assert!(!args.iter().any(|a| a.contains("sk-secret")));
}

#[test]
fn health_answers_are_read_strictly() {
    assert!(health_request("tok").starts_with("GET /tok/health HTTP/1.0\r\n"));
    assert!(health_answer_ok(b"HTTP/1.0 200 OK\r\n\r\n"));
    assert!(!health_answer_ok(b"HTTP/1.0 500 200\r\n\r\n"));
    assert!(!health_answer_ok(b""));
}

#[test]
fn verification_follows_the_status() {
    let answer = |head: &str| cmd_verify(18991, VerifyExchange::Answer(head.as_bytes().to_vec()));
    let good = answer("HTTP/1.1 200 OK\r\n").data.unwrap();
    assert_eq!(good.get_bool("ok"), Some(true));
    assert_eq!(good.get_text("hint").as_deref(), Some("key 有效，上游已接受。"));
    let bad = answer("HTTP/1.1 401 Unauthorized\r\n").data.unwrap();
    assert_eq!(bad.get_bool("ok"), Some(false));
    assert_eq!(
        bad.get_text("hint").as_deref(),
        Some("上游拒绝（401），key 可能无效或无权限。")
    );
    assert_eq!(code_of(&answer("garbage")), "proxy_invalid_response");
    assert_eq!(code_of(&cmd_verify(1, VerifyExchange::NotReachable)), "proxy_not_reachable");
    assert_eq!(code_of(&cmd_verify(1, VerifyExchange::NotSent)), "proxy_io_error");
    assert_eq!(code_of(&cmd_verify(1, VerifyExchange::NoAnswer)), "proxy_no_response");
    let request = verify_request("tok", "{}");
    assert!(request.starts_with("POST /tok/v1/messages HTTP/1.0\r\n"));
    assert!(request.contains("Content-Length: 2\r\n"));
    assert!(request.ends_with("\r\n\r\n{}"));
}

#[test]
fn logs_and_checks_are_reported() {
    let none = cmd_logs(false, Ok(String::new()), None).data.unwrap();
    assert_eq!(none.get_bool("exists"), Some(false));
    let some = cmd_logs(true, Ok("a\nb\nc".to_string()), Some(2)).data.unwrap();
    assert_eq!(some.get_text("content").as_deref(), Some("b\nc"));
    assert!(!cmd_logs(true, Err("e".to_string()), None).ok);
    let status = cmd_status("0.3.0", "linux", "x86_64", true, false).data.unwrap();
    assert_eq!(status.get_texts("capabilities"), vec!["proxy", "sandbox", "config", "logs", "doctor", "verify"]);
    assert_eq!(status.get_bool("proxy_running"), Some(true));
    assert!(cmd_doctor(None, Err("e".to_string()), "/c", false, 1, false).ok);
}

#[test]
fn files_and_paths_are_chosen() {
    assert_eq!(config_dir(Some("/home/u")), "/home/u/.csswitch");
    let (home, data) = sandbox_paths("/home/u/.csswitch", "science");
    assert_eq!(home, "/home/u/.csswitch/sandbox/home");
    assert_eq!(data, "/home/u/.csswitch/sandbox/home/.science");
    assert_eq!(needs_managed_write("/p", &FileRead::Missing, b"x"), Ok(true));
    assert_eq!(needs_managed_write("/p", &FileRead::Found(b"x".to_vec()), b"x"), Ok(false));
    assert_eq!(needs_managed_write("/p", &FileRead::Found(b"y".to_vec()), b"x"), Ok(true));
    assert!(needs_managed_write("/p", &FileRead::Failed { error: "e".to_string() }, b"x").is_err());
    assert_eq!(
        proxy_script_path(Some("/a".to_string()), true, Err("e".to_string())),
        Ok("/a".to_string())
    );
    assert_eq!(
        proxy_script_path(Some("/a".to_string()), false, Ok("/b".to_string())),
        Ok("/b".to_string())
    );
    let paths = command_paths("python3", Some("/usr/bin:/bin"), Some("/home/u"));
    assert_eq!(paths[0], "/usr/bin/python3");
    assert_eq!(paths[1], "/bin/python3");
    assert_eq!(load_proxy_secret(true, Ok(" s \n".to_string())), Ok("s".to_string()));
    assert!(load_proxy_secret(false, Ok(String::new())).is_err());
    assert_eq!(tail_file("  abcdef ", 4), "def");
    assert_eq!(command_output_error("x", b"out", b" ", Some(1)), "out");
    assert_eq!(command_output_error("x", b"", b"", None), "x 退出码 None");
    assert_eq!(command_output_error("x", b"o", b"e", Some(1)), "e");
}
