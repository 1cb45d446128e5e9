use csswitch::cli::proxy_start::LogFault;
use csswitch::cli::sandbox::{
    cmd_sandbox_status, cmd_sandbox_stop, daemon_args, daemon_state_of, first_url_line,
    is_sandbox_process, listed_pids, matching_sandbox_pids, not_ready_error, proxy_hostport,
    sandbox_daemon_running, sandbox_fresh_url, sandbox_is_running, sandbox_is_stopped, serve_args,
    serve_env, terminate_sandbox_processes, wait_for_sandbox_ready, ListedProcess, ReadyStep,
    SandboxStop, SweepAction, SweepState, UrlStep,
};
use csswitch::cli::sandbox_start::{
    begin_sandbox_start, cmd_sandbox_start, SandboxAction, SandboxEvent, SandboxState,
};
use csswitch::json::parse_json;
use csswitch::process::ProcessOutput;
use csswitch::product::{data_dir_name, not_found, plain_name, Product};

fn output(success: bool, stdout: &str, stderr: &str) -> ProcessOutput {
    ProcessOutput {
        success,
        code: Some(if success { 0 } else { 3 }),
        stdout: stdout.as_bytes().to_vec(),
        stderr: stderr.as_bytes().to_vec(),
    }
}

fn product() -> Product {
    Product {
        program: "science".to_string(),
        title: "The Science".to_string(),
        families: vec!["big-".to_string()],
        model: "big-1".to_string(),
    }
}

fn step(state: SandboxState, event: SandboxEvent) -> (SandboxState, SandboxAction) {
    cmd_sandbox_start(&product(), state, event, 8990, "http://127.0.0.1:18991/tok", "/h", "/h/.science")
}

fn error_of(action: SandboxAction) -> (String, String, Option<String>) {
    match action {
        SandboxAction::Reply(e) => {
            let e = e.error.unwrap();
            (e.code, e.message, e.suggestion)
        }
        SandboxAction::StopAndReply { reply, .. } => {
            let e = reply.error.unwrap();
            (e.code, e.message, e.suggestion)
        }
        _ => panic!("nothing failed"),
    }
}

#[test]
fn process_lists_are_read() {
    assert_eq!(listed_pids(b"12\n 34 \nx\n\n56\n", 34), vec![12, 56]);
    assert!(listed_pids(b"", 1).is_empty());
    assert!(is_sandbox_process(Some(b"/bin/science\0serve\0--data-dir\0/h/.science"), "science", "/h/.science"));
    assert!(!is_sandbox_process(Some(b"vi /h/.science"), "science", "/h/.science"));
    assert!(!is_sandbox_process(None, "science", "/h/.science"));
    let v = vec![
        ListedProcess { pid: 1, cmdline: Some(b"science serve /h/.science".to_vec()) },
        ListedProcess { pid: 2, cmdline: None },
        ListedProcess { pid: 3, cmdline: Some(b"cat /h/.science".to_vec()) },
    ];
    assert_eq!(matching_sandbox_pids(&v, "science", "/h/.science"), vec![1]);
}

#[test]
fn processes_are_swept() {
    assert_eq!(terminate_sandbox_processes(SweepState::First, true).1, SweepAction::Done(false));
    let (mut s, a) = terminate_sandbox_processes(SweepState::First, false);
    assert_eq!(a, SweepAction::Ask);
    for _ in 0..12 {
        let (next, a) = terminate_sandbox_processes(s, false);
        assert_eq!(a, SweepAction::Pause);
        s = next;
    }
    let (s, a) = terminate_sandbox_processes(s, false);
    assert_eq!(a, SweepAction::Again);
    let (s, a) = terminate_sandbox_processes(s, true);
    assert_eq!(a, SweepAction::Kill);
    assert_eq!(terminate_sandbox_processes(s, true).1, SweepAction::Done(true));
    assert_eq!(terminate_sandbox_processes(SweepState::Killed(8), false).1, SweepAction::Done(false));
}

#[test]
fn the_daemon_is_asked() {
    assert_eq!(daemon_args("stop", "/d"), vec!["stop", "--data-dir", "/d"]);
    assert_eq!(sandbox_daemon_running("science", Ok(output(true, r#"{"running":true}"#, ""))), Ok(true));
    assert_eq!(sandbox_daemon_running("science", Ok(output(true, "{}", ""))), Ok(false));
    assert_eq!(
        sandbox_daemon_running("science", Ok(output(true, " oops ", ""))),
        Err("science status 返回无法解析的输出：oops".to_string())
    );
    assert!(sandbox_daemon_running("science", Ok(output(true, "", ""))).unwrap_err().starts_with("science status 返回空输出："));
    assert_eq!(
        sandbox_daemon_running("science", Ok(output(false, "", ""))),
        Err("science status 退出码 Some(3)".to_string())
    );
    assert_eq!(
        sandbox_daemon_running("science", Err("e".to_string())),
        Err("无法执行 science status：e".to_string())
    );
    assert_eq!(daemon_state_of("science", "", parse_json(r#"{"running":false}"#)), Ok(false));
}

#[test]
fn links_are_asked_for_until_there_is_one() {
    assert_eq!(first_url_line("hi\n  http://a b \nhttp://c").as_deref(), Some("http://a b"));
    match sandbox_fresh_url("science", 0, Ok(output(true, "http://x\n", ""))) {
        UrlStep::Found(url) => assert_eq!(url, "http://x"),
        _ => panic!("there is a link"),
    }
    assert!(matches!(sandbox_fresh_url("science", 0, Ok(output(true, "", ""))), UrlStep::PauseAndAsk));
    let last = |run| match sandbox_fresh_url("science", 19, run) {
        UrlStep::PauseAndFail(e) => e,
        _ => panic!("that was the last time"),
    };
    assert_eq!(last(Ok(output(true, "", ""))), "science url 未返回可用 URL");
    assert_eq!(last(Ok(output(false, "", ""))), "science url 退出码 Some(3)");
    assert_eq!(last(Ok(output(false, "", " bad "))), "bad");
    assert_eq!(last(Err("e".to_string())), "无法执行 science url：e");
    assert_eq!(wait_for_sandbox_ready(0, true), ReadyStep::Ready);
    assert_eq!(wait_for_sandbox_ready(0, false), ReadyStep::PauseAndAsk);
    assert_eq!(wait_for_sandbox_ready(59, false), ReadyStep::PauseAndGiveUp);
    assert!(not_ready_error(8990, "tail").ends_with("\n--- sandbox.log ---\ntail"));
    assert_eq!(not_ready_error(8990, ""), "已拿到 Science 登录链接，但端口 8990 的 /health 一直未就绪");
}

#[test]
fn the_secret_stays_out_of_the_tunnel_settings() {
    assert_eq!(proxy_hostport("http://127.0.0.1:18991/tok"), "http://127.0.0.1:18991");
    assert_eq!(proxy_hostport("http://127.0.0.1:18991"), "http://127.0.0.1:18991");
    assert_eq!(proxy_hostport("nonsense"), "nonsense");
    let env = serve_env("/h", "http://127.0.0.1:18991/tok");
    assert_eq!(env[0], ("HOME".to_string(), "/h".to_string()));
    assert_eq!(env[1].1, "http://127.0.0.1:18991/tok");
    assert_eq!(env[2], ("https_proxy".to_string(), "http://127.0.0.1:18991".to_string()));
    assert_eq!(env[5], ("NO_PROXY".to_string(), "127.0.0.1,localhost,::1".to_string()));
    assert_eq!(
        serve_args("/d", 8990),
        vec![
            "serve", "--data-dir", "/d", "--port", "8990", "--host", "127.0.0.1", "--no-browser",
            "--no-auto-update", "--detached"
        ]
    );
}

#[test]
fn the_sandbox_is_reported() {
    let on = cmd_sandbox_status("science", 8990, true, true, Some(Ok(true))).data.unwrap();
    assert_eq!(on.get_bool("running"), Some(true));
    assert_eq!(on.get_text("message").as_deref(), Some("Science 沙箱正在端口 8990 上运行"));
    let unseen = cmd_sandbox_status("science", 8990, true, false, Some(Ok(true))).data.unwrap();
    assert_eq!(unseen.get_bool("running"), Some(true));
    assert_eq!(unseen.get_bool("process_found"), Some(false));
    let denied = cmd_sandbox_status("science", 8990, true, true, Some(Ok(false))).data.unwrap();
    assert_eq!(denied.get_bool("running"), Some(false));
    let silent = cmd_sandbox_status("science", 8990, false, true, Some(Ok(true))).data.unwrap();
    assert_eq!(silent.get_bool("running"), Some(false));
    let off = cmd_sandbox_status("science", 8990, true, false, None).data.unwrap();
    assert_eq!(off.get_bool("running"), Some(false));
    assert_eq!(off.get_text("status_error").as_deref(), Some("未找到 science 命令"));
    assert!(sandbox_is_running(true, true));
    assert!(!sandbox_is_running(true, false) && !sandbox_is_running(false, true));
    assert!(sandbox_is_stopped(false, false));
    assert!(!sandbox_is_stopped(false, true) && !sandbox_is_stopped(true, true));
    let idle = cmd_sandbox_stop("science", SandboxStop::NotRunning).data.unwrap();
    assert_eq!(idle.get_bool("stopped"), Some(false));
    let none = cmd_sandbox_stop("science", SandboxStop::NoProgram);
    assert_eq!(none.error.unwrap().code, "science_not_found");
    let ran = |run, cleaned| cmd_sandbox_stop("science", SandboxStop::Ran { run, cleaned });
    assert!(ran(Ok(output(true, "", "")), false).ok);
    assert!(ran(Ok(output(false, "", "e")), true).ok);
    assert_eq!(ran(Ok(output(false, "", "e")), false).error.unwrap().message, "停止沙箱失败：e");
    assert_eq!(
        ran(Err("e".to_string()), true).data.unwrap().get_text("message").as_deref(),
        Some("无法执行停止命令，已清理残留进程：e")
    );
    assert_eq!(ran(Err("e".to_string()), false).error.unwrap().message, "无法执行停止命令：e");
    assert_eq!(data_dir_name("science"), ".science");
    assert_eq!(not_found("science"), "未找到 science 命令");
}

#[test]
fn a_sandbox_is_started() {
    let (s, a) = begin_sandbox_start(8990);
    assert!(matches!(a, SandboxAction::FindProgram));
    let (s, a) = step(s, SandboxEvent::Command(Some("/bin/science".to_string())));
    assert!(matches!(a, SandboxAction::LookAround));
    let (s, a) = step(s, SandboxEvent::Busy(true));
    match a {
        SandboxAction::StopAndLook { program, args, home } => {
            assert_eq!(program, "/bin/science");
            assert_eq!(args, vec!["stop", "--data-dir", "/h/.science"]);
            assert_eq!(home, "/h");
        }
        _ => panic!("an earlier sandbox is stopped"),
    }
    let (s, a) = step(s, SandboxEvent::Busy(true));
    assert!(matches!(a, SandboxAction::PauseAndLook));
    let (s, a) = step(s, SandboxEvent::Busy(false));
    assert!(matches!(a, SandboxAction::LookAtPort));
    let (s, a) = step(s, SandboxEvent::Port(false));
    assert!(matches!(a, SandboxAction::PrepareLogin));
    let (s, a) = step(s, SandboxEvent::Login(Some("e".to_string())));
    match a {
        SandboxAction::OpenLog { warning } => {
            assert_eq!(warning.as_deref(), Some("OAuth 虚拟登录失败（沙箱启动后可能无凭证）: e"));
        }
        _ => panic!("the log is opened"),
    }
    let (s, a) = step(s, SandboxEvent::Log(None));
    match a {
        SandboxAction::Spawn { program, args, env } => {
            assert_eq!(program, "/bin/science");
            assert_eq!(args[0], "serve");
            assert_eq!(env[1].0, "ANTHROPIC_BASE_URL");
        }
        _ => panic!("the sandbox is started"),
    }
    let (s, a) = step(s, SandboxEvent::Spawned(Ok(())));
    assert!(matches!(a, SandboxAction::AwaitReady));
    let (s, a) = step(s, SandboxEvent::Ready(Ok("http://u".to_string())));
    assert!(matches!(s, SandboxState::Over));
    match a {
        SandboxAction::Reply(e) => {
            let data = e.data.unwrap();
            assert_eq!(data.get_text("url").as_deref(), Some("http://u"));
            assert_eq!(data.get_text("message").as_deref(), Some("沙箱已启动，端口 8990"));
        }
        _ => panic!("the sandbox is ready"),
    }
}

#[test]
fn a_sandbox_that_does_not_start_is_reported() {
    let (_, a) = begin_sandbox_start(0);
    assert_eq!(error_of(a).0, "invalid_port");
    let (_, a) = step(SandboxState::Program, SandboxEvent::Command(None));
    assert_eq!(
        error_of(a),
        (
            "science_not_found".to_string(),
            "未找到 science 命令".to_string(),
            Some("请在服务器上安装 The Science 并确保其在 PATH 中。".to_string())
        )
    );
    let (s, a) = step(SandboxState::Leaving("p".to_string(), 19), SandboxEvent::Busy(true));
    assert!(matches!(a, SandboxAction::PauseAndLookAtPort));
    let (_, a) = step(s, SandboxEvent::Port(true));
    assert_eq!(error_of(a).0, "port_in_use");
    let (_, a) = step(
        SandboxState::Log("p".to_string()),
        SandboxEvent::Log(Some(LogFault::Open("e".to_string()))),
    );
    assert_eq!(error_of(a).1, "打开 sandbox.log 失败：e");
    let (_, a) = step(
        SandboxState::Spawning("p".to_string()),
        SandboxEvent::Spawned(Err("e".to_string())),
    );
    assert_eq!(error_of(a).2.as_deref(), Some("请检查端口 8990 是否被占用。"));
    let (_, a) = step(SandboxState::Ready("p".to_string()), SandboxEvent::Ready(Err("e".to_string())));
    assert!(matches!(a, SandboxAction::StopAndReply { .. }));
    assert_eq!(error_of(a).1, "沙箱启动后未就绪：e");
}

#[test]
fn plain_names_need_no_escapes() {
    assert!(plain_name(""));
    assert!(plain_name("m-1.5 大"));
    assert!(!plain_name("a\"b"));
    assert!(!plain_name("a\\b"));
    assert!(!plain_name("a\nb"));
}
