use csswitch::json::{Json, JsonNumber};
use csswitch::process::ProcessOutput;
use csswitch::remote::auth::AuthRuntimeOptions;
use csswitch::remote::prompt::{classify_prompt, PromptKind};
use csswitch::remote::shell::{helper_command_line, shell_quote};
use csswitch::remote::ssh::{
    askpass_session_dir, backoff_secs, build_helper_install_args, build_helper_stdin_install_args,
    build_ssh_args, build_ssh_command_spec, detect_remote_platform, helper_release_repo,
    helper_step, prompt_failed, prompt_unavailable, run_ssh_command, validate_repo_format,
    CommandOutcome, HelperStep,
};
use csswitch::remote::ssh_output::{
    data_parse_error, is_recoverable_error, map_ssh_error, parse_helper_response,
};
use csswitch::remote::transport::{helper_call, TargetCommand};
use csswitch::remote::types::{
    RemoteAuthMethod, RemoteHostProfile, RemoteSshAdvancedOptions, RemoteTargetKind,
};
use csswitch::remote::wsl::{
    build_wsl_args, decode_wsl_output, list_wsl_distributions, map_wsl_error,
    parse_wsl_list_verbose,
};

fn sample_profile() -> RemoteHostProfile {
    RemoteHostProfile {
        id: "test".to_string(),
        name: "Test".to_string(),
        kind: RemoteTargetKind::Ssh,
        host: "example.com".to_string(),
        port: 22,
        distribution: None,
        username: "testuser".to_string(),
        auth_method: RemoteAuthMethod::SshAgent,
        helper_path: "/usr/local/bin/csswitch-helper".to_string(),
        last_connected: None,
        ssh_options: RemoteSshAdvancedOptions::default(),
        transient_password: None,
    }
}

fn wsl_profile() -> RemoteHostProfile {
    RemoteHostProfile {
        id: "wsl".to_string(),
        name: "Ubuntu".to_string(),
        kind: RemoteTargetKind::Wsl,
        host: String::new(),
        port: 0,
        distribution: Some("Ubuntu".to_string()),
        username: "zhawei".to_string(),
        auth_method: RemoteAuthMethod::Recommended {
            use_saved_keys: true,
            use_default_key_files: true,
            allow_password: true,
            allow_verification_code: true,
            remember_connection: true,
            strict: false,
        },
        helper_path: "~/.csswitch/bin/csswitch-helper".to_string(),
        last_connected: None,
        ssh_options: RemoteSshAdvancedOptions::default(),
        transient_password: None,
    }
}

fn test_runtime() -> AuthRuntimeOptions {
    AuthRuntimeOptions {
        askpass_path: Some("csswitch-ssh-askpass".to_string()),
        askpass_session_dir: Some("csswitch-askpass-session".to_string()),
        askpass_env: Vec::new(),
        control_path: Some("csswitch-control.sock".to_string()),
        default_ssh_dir: None,
        default_key_names: Vec::new(),
    }
}

fn status_args() -> Vec<String> {
    vec!["status".to_string()]
}

fn assert_env(env: &[(String, String)], key: &str, value: &str) {
    assert_eq!(
        env.iter()
            .find(|(env_key, _)| env_key == key)
            .map(|(_, env_value)| env_value.as_str()),
        Some(value)
    );
}

#[test]
fn ssh_args_include_connect_timeout() {
    let args = build_ssh_args(&sample_profile(), &status_args(), test_runtime());
    assert!(args.contains(&"-o".to_string()));
    assert!(args.contains(&"ConnectTimeout=10".to_string()));
}

#[test]
fn ssh_args_include_batch_mode_for_sshagent() {
    let args = build_ssh_args(&sample_profile(), &status_args(), test_runtime());
    assert!(args.contains(&"BatchMode=yes".to_string()));
}

#[test]
fn ssh_args_include_keyfile_for_key_auth() {
    let mut p = sample_profile();
    p.auth_method = RemoteAuthMethod::KeyFile {
        path: "~/.ssh/id_ed25519".to_string(),
        save_key_password: true,
        allow_password_fallback: true,
        allow_verification_code: true,
        remember_connection: true,
    };
    let args = build_ssh_args(&p, &status_args(), test_runtime());
    assert!(args.contains(&"-i".to_string()));
    assert!(args.contains(&"~/.ssh/id_ed25519".to_string()));
}

#[test]
fn password_command_spec_uses_askpass_environment() {
    let mut p = sample_profile();
    p.auth_method = RemoteAuthMethod::Password {
        save_password: true,
        allow_verification_code: true,
        remember_connection: true,
    };

    let spec = build_ssh_command_spec(&p, &status_args(), test_runtime());

    assert!(spec.args.contains(&"BatchMode=no".to_string()));
    assert!(spec.args.contains(&"NumberOfPasswordPrompts=3".to_string()));
    assert_env(&spec.env, "SSH_ASKPASS", "csswitch-ssh-askpass");
    assert_env(&spec.env, "SSH_ASKPASS_REQUIRE", "force");
    assert_env(&spec.env, "DISPLAY", "csswitch");
    assert_env(&spec.env, "CSSWITCH_ASKPASS_PROFILE", "test");
    assert_env(
        &spec.env,
        "CSSWITCH_ASKPASS_DIR",
        "csswitch-askpass-session",
    );
}

#[test]
fn key_password_command_spec_passes_key_path_to_askpass() {
    let mut p = sample_profile();
    p.auth_method = RemoteAuthMethod::KeyFile {
        path: "~/.ssh/id_ed25519".to_string(),
        save_key_password: true,
        allow_password_fallback: false,
        allow_verification_code: false,
        remember_connection: false,
    };

    let spec = build_ssh_command_spec(&p, &status_args(), test_runtime());

    assert!(spec.args.contains(&"BatchMode=no".to_string()));
    assert_env(&spec.env, "CSSWITCH_ASKPASS_KEY_PATH", "~/.ssh/id_ed25519");
}

#[test]
fn ssh_agent_command_spec_stays_noninteractive() {
    let spec = build_ssh_command_spec(&sample_profile(), &status_args(), test_runtime());

    assert!(spec.args.contains(&"BatchMode=yes".to_string()));
    assert!(spec.args.contains(&"NumberOfPasswordPrompts=0".to_string()));
    assert!(spec.env.is_empty());
}

#[test]
fn shell_quote_leaves_safe_strings_unchanged() {
    assert_eq!(shell_quote("hello-world"), "hello-world");
    assert_eq!(
        shell_quote("/usr/local/bin/helper"),
        "/usr/local/bin/helper"
    );
}

#[test]
fn shell_quote_quotes_unsafe_strings() {
    let quoted = shell_quote("hello world");
    assert!(quoted.starts_with('\''));
    assert!(quoted.ends_with('\''));
}

#[test]
fn shell_quote_keeps_quotes_inside() {
    assert_eq!(shell_quote(""), "''");
    assert_eq!(shell_quote("it's"), "'it'\\''s'");
    assert_eq!(shell_quote("$(rm -rf /)"), "'$(rm -rf /)'");
    assert_eq!(shell_quote("~/bin/helper"), "~/bin/helper");
    assert_eq!(shell_quote("~/my bin"), "'~/my bin'");
    assert_eq!(
        helper_command_line("/opt/my helper", &vec!["config".to_string(), "{\"a\":1}".to_string()]),
        "'/opt/my helper' --json config '{\"a\":1}'"
    );
}

#[test]
fn parse_response_handles_ok() {
    let json = r#"{"ok":true,"data":{"status":"running"}}"#;
    let result = parse_helper_response(json).unwrap();
    assert_eq!(result.get_text("status").as_deref(), Some("running"));
}

#[test]
fn parse_response_handles_error() {
    let json = r#"{"ok":false,"error":{"code":"test_error","message":"something went wrong"}}"#;
    let result = parse_helper_response(json);
    assert!(result.is_err());
    let err = result.unwrap_err();
    assert_eq!(err.code, "test_error");
}

#[test]
fn parse_response_takes_last_nonempty_line() {
    let multi = "Login banner\n\n{\"ok\":true,\"data\":42}";
    let result = parse_helper_response(multi).unwrap();
    assert!(matches!(result, Json::Number(JsonNumber::Unsigned(42))));
}

#[test]
fn replies_that_are_no_json_are_errors() {
    let err = parse_helper_response("not json at all").unwrap_err();
    assert!(!err.recoverable);
    assert_eq!(parse_helper_response("").unwrap_err().code, "invalid_json");
    let err = parse_helper_response(&"码".repeat(67)).unwrap_err();
    assert_eq!(err.code, "invalid_json");
    assert!(!err.recoverable);
    assert_eq!(err.details, Some(format!("原始输出（截断）：{}", "码".repeat(66))));
    let err = parse_helper_response(&"x".repeat(300)).unwrap_err();
    assert_eq!(err.details, Some(format!("原始输出（截断）：{}", "x".repeat(200))));
    let err = data_parse_error("e");
    assert_eq!((err.code.as_str(), err.recoverable), ("data_parse_error", false));
    assert_eq!(err.message, "Helper 返回数据格式不匹配：e");
}

#[test]
fn recoverable_errors_are_marked_as_such() {
    let err = map_ssh_error(&sample_profile(), "Connection timed out", Some(255));
    assert!(err.recoverable);
    assert_eq!(err.code, "ssh_connection_failed");
    assert!(is_recoverable_error(&err));
}

#[test]
fn auth_errors_are_not_recoverable() {
    let err = map_ssh_error(
        &sample_profile(),
        "Permission denied (publickey)",
        Some(255),
    );
    assert!(!err.recoverable);
    assert_eq!(err.code, "ssh_auth_failed");
    assert!(!is_recoverable_error(&err));
}

#[test]
fn otp_like_prompts_are_not_password_prompts() {
    for prompt in [
        "One-time password:",
        "Verification code:",
        "Duo passcode:",
        "Enter token:",
        "请输入动态验证码",
        "短信验证",
        "双因素认证",
    ] {
        assert_eq!(classify_prompt(prompt), PromptKind::VerificationCode);
    }
}

#[test]
fn password_prompts_are_recognized_after_otp_words_are_excluded() {
    assert_eq!(
        classify_prompt("ubuntu@example.com's password:"),
        PromptKind::Password
    );
    assert_eq!(classify_prompt("Password:"), PromptKind::Password);
    assert_eq!(classify_prompt("请输入密码"), PromptKind::Password);
}

#[test]
fn parses_wsl_list_verbose_output() {
    let raw = "  NAME                  STATE           VERSION\n* Ubuntu 22.04 LTS     Running         2\n  Debian               Stopped         2\n  docker-desktop       Running         2\n";
    let distros = parse_wsl_list_verbose(raw);
    assert_eq!(
        distros.iter().map(|d| d.name.as_str()).collect::<Vec<_>>(),
        vec!["Ubuntu 22.04 LTS", "Debian"]
    );
    assert!(distros[0].is_default);
    assert_eq!(distros[0].state.as_deref(), Some("Running"));
    assert_eq!(distros[0].version, Some(2));
}

#[test]
fn decodes_utf16le_wsl_output() {
    let raw = "  NAME            STATE           VERSION\n* Ubuntu          Running         2\n";
    let bytes = raw
        .encode_utf16()
        .flat_map(|unit| unit.to_le_bytes())
        .collect::<Vec<_>>();
    let decoded = decode_wsl_output(&bytes);
    assert!(decoded.contains("Ubuntu"));
    assert_eq!(decoded, raw);
}

#[test]
fn builds_wsl_helper_args() {
    let profile = wsl_profile();
    let args = build_wsl_args(&profile, &status_args());
    assert_eq!(
        args,
        vec![
            "-d",
            "Ubuntu",
            "--user",
            "zhawei",
            "--",
            "sh",
            "-lc",
            "~/.csswitch/bin/csswitch-helper --json status"
        ]
    );
}

#[test]
fn wsl_lists_come_only_where_wsl_is() {
    let err = list_wsl_distributions(false, Err("unused".to_string())).unwrap_err();
    assert!(!err.code.is_empty());
    let out = ProcessOutput {
        success: true,
        code: Some(0),
        stdout: b"  NAME   STATE   VERSION\n* Ubuntu Running 2\n".to_vec(),
        stderr: Vec::new(),
    };
    assert_eq!(list_wsl_distributions(true, Ok(out)).unwrap().len(), 1);
    assert!(!map_wsl_error("no such distribution", Some(1), None).recoverable);
}

#[test]
fn commands_go_to_the_right_program() {
    let ssh: TargetCommand = helper_call(&sample_profile(), &status_args(), test_runtime());
    assert_eq!(ssh.program, "ssh");
    assert_eq!(ssh.args.last().unwrap(), "/usr/local/bin/csswitch-helper --json status");
    let wsl = helper_call(&wsl_profile(), &status_args(), test_runtime());
    assert_eq!(wsl.program, "wsl.exe");
    assert!(wsl.env.is_empty());
}

#[test]
fn release_repos_are_checked() {
    assert_eq!(validate_repo_format("owner/repo").as_deref(), Some("owner/repo"));
    assert!(validate_repo_format("owner/repo; rm -rf /").is_none());
    assert!(validate_repo_format("owner").is_none());
    assert_eq!(helper_release_repo(None), "SuperJJ007/CSswitch");
    assert_eq!(helper_release_repo(Some("a/b")), "a/b");
    let install = build_helper_install_args(&sample_profile(), test_runtime(), Some("a/b"));
    assert!(install.last().unwrap().contains("a/b"));
    let upload = build_helper_stdin_install_args(&sample_profile(), test_runtime());
    assert!(upload.last().unwrap().contains("cat > \"$TMP\""));
}

#[test]
fn platforms_are_read_from_two_lines() {
    let (os, arch) = detect_remote_platform("Linux\nx86_64\n").unwrap();
    assert_eq!((os.as_str(), arch.as_str()), ("linux", "x86_64"));
    assert!(detect_remote_platform("").is_err());
}

#[test]
fn failed_calls_are_tried_again_only_where_that_helps() {
    let slow = map_ssh_error(&sample_profile(), "Connection timed out", Some(255));
    match helper_step(0, 3, Err(slow)) {
        HelperStep::Retry { delay_secs } => assert_eq!((delay_secs, backoff_secs(3)), (2, 8)),
        HelperStep::Done(_) => panic!("a lost connection is tried again"),
    }
    let refused = map_ssh_error(&sample_profile(), "Permission denied (publickey)", Some(255));
    assert!(matches!(helper_step(0, 3, Err(refused)), HelperStep::Done(Err(_))));
    let last = map_ssh_error(&sample_profile(), "Connection timed out", Some(255));
    assert!(matches!(helper_step(3, 3, Err(last)), HelperStep::Done(Err(_))));
    let odd = "码".repeat(67);
    assert!(matches!(helper_step(0, 3, Ok(odd)), HelperStep::Done(Err(_))));
    let reply = "{\"ok\":true,\"data\":{}}".to_string();
    assert!(matches!(helper_step(0, 3, Ok(reply)), HelperStep::Done(Ok(_))));
}

#[test]
fn ssh_outcomes_have_codes() {
    let p = sample_profile();
    let run = |outcome| run_ssh_command(&p, outcome, 30, "status");
    assert_eq!(run(CommandOutcome::TimedOut).unwrap_err().code, "ssh_timeout");
    assert_eq!(
        run(CommandOutcome::SpawnFailed { error: "e".to_string() }).unwrap_err().code,
        "ssh_spawn_failed"
    );
    assert_eq!(
        run(CommandOutcome::WaitFailed { error: "e".to_string() }).unwrap_err().code,
        "ssh_io_error"
    );
    let done = CommandOutcome::Finished {
        success: true,
        code: Some(0),
        stdout: b"out".to_vec(),
        stderr: Vec::new(),
    };
    assert_eq!(run(done).unwrap(), "out");
    let big = CommandOutcome::Finished {
        success: true,
        code: Some(0),
        stdout: vec![b'x'; 1048577],
        stderr: Vec::new(),
    };
    assert_eq!(run(big).unwrap_err().code, "output_too_large");
}

#[test]
fn prompts_that_cannot_be_shown_are_errors() {
    assert!(!prompt_unavailable().code.is_empty());
    assert!(prompt_failed("why").message.contains("why") || prompt_failed("why").details.is_some());
    assert!(askpass_session_dir("/c", 7, 9).starts_with("/c/"));
}
