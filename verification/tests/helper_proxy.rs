use csswitch::cli::proc_manager::ProcessRecord;
use csswitch::cli::proxy::{
    begin_proxy_stop, clear_port_step, clear_unhealthy_proxy_port, cmd_proxy_status,
    cmd_proxy_stop, pid_looks_like_recorded_proxy, recorded_proxy, stop_recorded_proxy,
    terminate_pid, ClearAction, ClearState, ProxyStopAction, TerminateAction, TerminateState,
};
use csswitch::cli::proxy_start::{
    begin_proxy_start, cmd_proxy_start, LogFault, Probe, StartAction, StartEvent, StartState,
};
use csswitch::cli::types::CliEnvelope;
use csswitch::launch::ProxyLaunch;

fn launch() -> ProxyLaunch {
    ProxyLaunch {
        adapter: "deepseek".to_string(),
        base_url: String::new(),
        model: String::new(),
        key: "sk-1".to_string(),
        key_env: "DEEPSEEK_API_KEY",
        thinking_policy: String::new(),
    }
}

fn step(state: StartState, event: StartEvent) -> (StartState, StartAction) {
    cmd_proxy_start(state, event, "deepseek", 18991, "tok")
}

fn code_of(action: &StartAction) -> String {
    match action {
        StartAction::Reply(e) => e.error.as_ref().unwrap().code.clone(),
        StartAction::PauseAndEnd { reply, .. } => reply.error.as_ref().unwrap().code.clone(),
        _ => String::new(),
    }
}

fn message_of(action: &StartAction) -> String {
    match action {
        StartAction::Reply(e) => e.error.as_ref().unwrap().message.clone(),
        _ => String::new(),
    }
}

fn spawned() -> (StartState, StartAction) {
    let (s, a) = begin_proxy_start(18991);
    assert!(matches!(a, StartAction::LookAtPort));
    let (s, a) = step(s, StartEvent::Port(false));
    assert!(matches!(a, StartAction::ReadConfig));
    let (s, a) = step(s, StartEvent::Launch(Ok(Some(launch()))));
    assert!(matches!(a, StartAction::FindCommand("python3")));
    let (s, a) = step(s, StartEvent::Command(Some("/usr/bin/python3".to_string())));
    assert!(matches!(a, StartAction::FindScript));
    let (s, a) = step(s, StartEvent::Script(Ok("/p.py".to_string())));
    assert!(matches!(a, StartAction::OpenLog));
    let (s, a) = step(s, StartEvent::Log(None));
    match a {
        StartAction::Spawn { program, args, env } => {
            assert_eq!(program, "/usr/bin/python3");
            assert_eq!(args[0], "/p.py");
            assert_eq!(args[6], "tok");
            assert_eq!(env, vec![("DEEPSEEK_API_KEY".to_string(), "sk-1".to_string())]);
        }
        _ => panic!("the proxy is started"),
    }
    step(s, StartEvent::Spawned(Ok(42)))
}

#[test]
fn a_proxy_is_started() {
    let (s, a) = spawned();
    assert!(matches!(a, StartAction::Probe));
    let (s, a) = step(s, StartEvent::Probed(Probe::Running));
    assert!(matches!(a, StartAction::PauseAndProbe));
    let (s, a) = step(s, StartEvent::Probed(Probe::Healthy));
    assert!(matches!(s, StartState::Over));
    match a {
        StartAction::Started { pid, note, reply } => {
            assert_eq!(pid, 42);
            assert_eq!(note, "proxy started pid=42 port=18991");
            let data = reply.data.unwrap();
            assert_eq!(data.get_number("pid"), Some(42));
            assert_eq!(data.get_text("message").as_deref(), Some("代理已启动"));
        }
        _ => panic!("the proxy answers"),
    }
}

#[test]
fn a_healthy_proxy_is_left_alone() {
    let (s, _) = begin_proxy_start(18991);
    let (s, a) = step(s, StartEvent::Port(true));
    assert!(matches!(a, StartAction::AskHealth));
    let (_, a) = step(s, StartEvent::Health(true));
    assert_eq!(code_of(&a), "proxy_already_running");
    assert_eq!(message_of(&a), "代理已在端口 18991 上运行");
}

#[test]
fn a_port_that_stays_in_use_is_reported() {
    let (s, a) = step(StartState::Health, StartEvent::Health(false));
    assert!(matches!(a, StartAction::FreePort));
    let (_, a) = step(s, StartEvent::Freed(false));
    assert_eq!(code_of(&a), "port_in_use");
    let (_, a) = step(StartState::Freeing, StartEvent::Freed(true));
    assert!(matches!(a, StartAction::ReadConfig));
}

#[test]
fn what_is_missing_for_a_start_is_reported() {
    let (_, a) = begin_proxy_start(8765);
    assert_eq!(code_of(&a), "reserved_port");
    let (_, a) = step(StartState::Config, StartEvent::Launch(Ok(None)));
    assert_eq!(code_of(&a), "key_not_found");
    assert_eq!(message_of(&a), "配置中未找到 deepseek 的 API key");
    let (_, a) = step(StartState::Config, StartEvent::Launch(Err("e".to_string())));
    assert_eq!(code_of(&a), "config_read_error");
    let (s, a) = step(StartState::FirstPython(launch()), StartEvent::Command(None));
    assert!(matches!(a, StartAction::FindCommand("python")));
    let (_, a) = step(s, StartEvent::Command(None));
    assert_eq!(code_of(&a), "python_not_found");
    let (_, a) = step(
        StartState::Script(launch(), "py".to_string()),
        StartEvent::Script(Err("e".to_string())),
    );
    assert_eq!(code_of(&a), "proxy_script_not_found");
    for (fault, text) in [
        (LogFault::Folder("e".to_string()), "创建代理日志目录失败：e"),
        (LogFault::Open("e".to_string()), "打开 proxy.log 失败：e"),
        (LogFault::Copy("e".to_string()), "复制 proxy.log 句柄失败：e"),
    ] {
        let (_, a) = step(
            StartState::Log(launch(), "py".to_string(), "s".to_string()),
            StartEvent::Log(Some(fault)),
        );
        assert_eq!(code_of(&a), "proxy_log_error");
        assert_eq!(message_of(&a), text);
    }
}

#[test]
fn a_proxy_that_ends_is_reported_with_its_log() {
    let exited = |log: Option<&str>| {
        let (_, a) = step(
            StartState::Probing(42, 3),
            StartEvent::Probed(Probe::Exited { log: log.map(|s| s.to_string()), code: Some(1) }),
        );
        message_of(&a)
    };
    assert_eq!(exited(Some("boom\n")), "代理启动后立即退出：boom");
    assert_eq!(exited(Some("  \n")), "代理启动后立即退出：代理进程退出码 Some(1)");
    assert_eq!(exited(None), "代理启动后立即退出：代理进程退出码 Some(1)");
    let long: String = (0..30).map(|i| format!("line{i}\n")).collect();
    assert!(exited(Some(&long)).starts_with("代理启动后立即退出：line10\n"));
    let (_, a) = step(
        StartState::Probing(42, 3),
        StartEvent::Probed(Probe::Unknown("e".to_string())),
    );
    assert_eq!(message_of(&a), "检查代理进程状态失败：e");
}

#[test]
fn a_proxy_that_never_answers_is_ended() {
    let (mut s, _) = spawned();
    for _ in 0..19 {
        let (next, a) = step(s, StartEvent::Probed(Probe::Running));
        assert!(matches!(a, StartAction::PauseAndProbe));
        s = next;
    }
    let (s, a) = step(s, StartEvent::Probed(Probe::Running));
    assert!(matches!(s, StartState::Over));
    assert!(matches!(a, StartAction::PauseAndEnd { pid: 42, .. }));
    assert_eq!(code_of(&a), "proxy_start_timeout");
}

#[test]
fn a_proxy_that_cannot_be_run_is_reported() {
    let hint = |error: &str| {
        let (_, a) = step(StartState::Spawning, StartEvent::Spawned(Err(error.to_string())));
        match a {
            StartAction::Reply(e) => e.error.unwrap().suggestion.unwrap(),
            _ => panic!("nothing runs"),
        }
    };
    assert_eq!(hint("no such file"), "启动代理失败：no such file");
    assert_eq!(hint("address in use"), "端口 18991 已被占用。请更改端口或停止占用程序。");
}

#[test]
fn a_process_is_asked_before_it_is_killed() {
    let (s, a) = terminate_pid(TerminateState::Checking, true);
    assert_eq!(a, TerminateAction::Ask);
    let mut s = s;
    for _ in 0..9 {
        let (next, a) = terminate_pid(s, true);
        assert_eq!(a, TerminateAction::Pause);
        s = next;
    }
    let (s, a) = terminate_pid(s, true);
    assert_eq!(a, TerminateAction::PauseAndKill);
    assert_eq!(terminate_pid(s, false).1, TerminateAction::Done(true));
    assert_eq!(terminate_pid(TerminateState::Killed(9), true).1, TerminateAction::PauseAndGiveUp);
    assert_eq!(terminate_pid(TerminateState::Checking, false).1, TerminateAction::Done(true));
}

#[test]
fn a_port_is_freed_step_by_step() {
    let (s, a) = clear_unhealthy_proxy_port(18991);
    match a {
        ClearAction::Run { program, args, pause_ms } => {
            assert_eq!(program, "fuser");
            assert_eq!(args, vec!["-TERM", "18991/tcp"]);
            assert_eq!(pause_ms, 1000);
        }
        _ => panic!("someone is asked to end"),
    }
    let (s, a) = clear_port_step(s, 18991, true);
    assert!(matches!(a, ClearAction::Run { pause_ms: 500, .. }));
    let (s, a) = clear_port_step(s, 18991, true);
    match a {
        ClearAction::Run { program, args, .. } => {
            assert_eq!(program, "sh");
            assert_eq!(args[1], "lsof -ti:18991 | xargs -r kill 2>/dev/null; true");
        }
        _ => panic!("the port is still in use"),
    }
    assert!(matches!(clear_port_step(s, 18991, true).1, ClearAction::Done(false)));
    assert!(matches!(clear_port_step(ClearState::Last, 18991, false).1, ClearAction::Done(true)));
    assert!(matches!(clear_port_step(ClearState::First, 18991, false).1, ClearAction::Look));
}

#[test]
fn only_a_noted_proxy_is_stopped() {
    let record = |port: u16, command: &str| ProcessRecord {
        pid: 7,
        started_at: 0,
        command: command.to_string(),
        port,
        secret: None,
    };
    assert_eq!(recorded_proxy(Some(&record(1, "x")), 1), Some(7));
    assert_eq!(recorded_proxy(Some(&record(2, "python3 csswitch_proxy.py")), 1), Some(7));
    assert_eq!(recorded_proxy(Some(&record(2, "x")), 1), None);
    assert_eq!(recorded_proxy(None, 1), None);
    assert!(pid_looks_like_recorded_proxy(Some("python3\0/p/csswitch_proxy.py")));
    assert!(!pid_looks_like_recorded_proxy(Some("nginx")));
    assert!(!pid_looks_like_recorded_proxy(None));
    assert_eq!(stop_recorded_proxy(None), (true, false));
    assert_eq!(stop_recorded_proxy(Some(false)), (false, false));
}

/// The reply to `proxy stop` and what is logged, by what is told at each step.
fn stopped(noted: bool, in_use: bool, cleared: bool) -> (CliEnvelope, Option<String>) {
    let (mut state, mut action) = begin_proxy_stop();
    loop {
        let told = match action {
            ProxyStopAction::StopNoted => noted,
            ProxyStopAction::Look => in_use,
            ProxyStopAction::Clear => cleared,
            ProxyStopAction::Reply { reply, note } => return (reply, note),
        };
        (state, action) = cmd_proxy_stop(state, told, 18991);
    }
}

#[test]
fn stopping_and_status_are_reported() {
    let (reply, note) = stopped(false, true, true);
    assert_eq!(note.as_deref(), Some("proxy stopped on port 18991"));
    let data = reply.data.unwrap();
    assert_eq!(data.get_text("message").as_deref(), Some("端口 18991 上的代理已停止"));
    assert_eq!(data.get_bool("stopped"), Some(true));
    let (reply, note) = stopped(false, true, false);
    assert!(note.is_none());
    assert_eq!(reply.error.unwrap().code, "proxy_stop_failed");
    assert!(stopped(true, true, false).1.is_some());
    let (reply, note) = stopped(true, false, false);
    assert!(note.is_none());
    let idle = reply.data.unwrap();
    assert_eq!(idle.get_text("message").as_deref(), Some("已停止记录中的代理进程。"));
    let idle = stopped(false, false, false).0.data.unwrap();
    assert_eq!(idle.get_text("message").as_deref(), Some("端口上没有运行中的代理。"));
    let status = cmd_proxy_status(18991, true, false).data.unwrap();
    assert_eq!(status.get_bool("running"), Some(true));
    assert_eq!(status.get_bool("healthy"), Some(false));
    let status = cmd_proxy_status(18991, false, true).data.unwrap();
    assert_eq!(status.get_bool("healthy"), Some(false));
    assert!(status.get("port").is_none());
}
