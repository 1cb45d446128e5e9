use csswitch::remote::askpass::{
    cli_answer, cli_request, new_session_id, note_request, prompt_payload, register_session,
    remember_secret, remembered_credential, request_path, respond, response_path, session_dir_of,
    try_auto_response, unregister_session, wait_step, AskpassRequest, AskpassResponse, WaitStep,
};
use csswitch::remote::credentials::CredentialKind;
use csswitch::text::table::Table;

#[test]
fn questions_have_files_of_their_own() {
    let req = AskpassRequest::new("Password:", "profile-1", None);
    assert_eq!(req.prompt, "Password:");
    assert_eq!(req.profile_id, "profile-1");
    assert_eq!(req.id.len(), 24);
    assert!(request_path("/s", &req.id).ends_with(&format!("{}.json", req.id)));
    let resp = AskpassResponse::secret("pw");
    assert_eq!(resp.secret.as_deref(), Some("pw"));
    assert!(!resp.cancelled);
}

#[test]
fn respond_rejects_unknown_session() {
    let sessions: Table<String> = Table::new();
    let err = session_dir_of(&sessions, "missing").unwrap_err();
    assert!(err.contains("登录会话"));
}

#[test]
fn the_file_of_an_answer_is_removed() {
    let req = AskpassRequest::new("Password:", "profile-1", None);
    match wait_step("/s", &req.id, true, Ok(AskpassResponse::secret("pw")), 10, 300) {
        WaitStep::Answered { response, spent } => {
            assert_eq!(response.secret.as_deref(), Some("pw"));
            assert_eq!(spent, response_path("/s", &req.id));
            assert_ne!(spent, request_path("/s", &req.id));
        }
        _ => panic!("there is an answer"),
    }
}

#[test]
fn wait_response_returns_when_session_dir_disappears() {
    let gone = wait_step("/s", "r", false, Err("no file".to_string()), 0, 300);
    assert!(matches!(gone, WaitStep::Failed { .. }));
    let pause = wait_step("/s", "r", true, Err("no file".to_string()), 0, 300);
    assert!(matches!(pause, WaitStep::Pause));
    let late = wait_step("/s", "r", true, Err("no file".to_string()), 300, 300);
    match late {
        WaitStep::Failed { error } => assert_eq!(error, "等待登录验证超时：no file"),
        _ => panic!("the time is up"),
    }
}

#[test]
fn sessions_are_found_until_they_end() {
    let mut sessions: Table<String> = Table::new();
    let id = new_session_id();
    assert_eq!(id.len(), 24);
    register_session(&mut sessions, &id, "/tmp/s".to_string());
    assert_eq!(session_dir_of(&sessions, &id).unwrap(), "/tmp/s");
    assert_eq!(unregister_session(&mut sessions, &id).as_deref(), Some("/tmp/s"));
    assert!(session_dir_of(&sessions, &id).is_err());
}

#[test]
fn codes_are_never_kept() {
    let code = AskpassRequest::new("Verification code:", "p", Some("~/.ssh/id_rsa".to_string()));
    assert!(remembered_credential(&code).is_none());
    let password = AskpassRequest::new("Password:", "p", None);
    assert_eq!(remembered_credential(&password), Some(CredentialKind::Password));
}

#[test]
fn answers_go_to_standard_output() {
    let (line, code) = cli_answer(Ok(AskpassResponse::secret("pw")));
    assert_eq!((line.as_deref(), code), (Some("pw"), 0));
    let (line, code) = cli_answer(Ok(AskpassResponse::cancelled()));
    assert!(line.is_none());
    assert_ne!(code, 0);
    assert!(cli_request("Password:", None, Some("p"), None).is_none());
    let (dir, req) = cli_request("Password:", Some("/s"), Some("p"), None).unwrap();
    assert_eq!((dir.as_str(), req.profile_id.as_str()), ("/s", "p"));
}

#[test]
fn remembered_answers_are_handed_on() {
    let question = AskpassRequest::new("Password:", "p", None);
    let secret = Some("pw".to_string());
    let kept = remember_secret(&question, &secret, false, true);
    assert_eq!(kept, Some((CredentialKind::Password, "pw".to_string())));
    assert_eq!(remember_secret(&question, &secret, true, true), None);
    assert_eq!(remember_secret(&question, &secret, false, false), None);
    assert_eq!(remember_secret(&question, &None, false, true), None);
    let resp = respond(&question, secret.clone(), false, true, Ok(())).unwrap();
    assert_eq!(resp.secret.as_deref(), Some("pw"));
    assert!(resp.remember && !resp.cancelled);
    let failed = respond(&question, secret.clone(), false, true, Err("e".to_string()));
    assert_eq!(failed.unwrap_err(), "e");
    let resp = respond(&question, secret, true, true, Err("e".to_string())).unwrap();
    assert!(resp.cancelled);
}

#[test]
fn only_passwords_are_kept() {
    let secret = Some("pw".to_string());
    let key = AskpassRequest::new(
        "Enter passphrase for key '/h/.ssh/id_rsa':",
        "p",
        Some("/h/.ssh/id_rsa".to_string()),
    );
    assert_eq!(
        remember_secret(&key, &secret, false, true),
        Some((CredentialKind::KeyPassword("/h/.ssh/id_rsa"), "pw".to_string()))
    );
    let lost = AskpassRequest::new("Enter passphrase for key '/h/.ssh/id_rsa':", "p", None);
    assert_eq!(remember_secret(&lost, &secret, false, true), None);
    let code = AskpassRequest::new("Verification code:", "p", None);
    assert_eq!(remember_secret(&code, &secret, false, true), None);
    assert!(respond(&code, secret, false, true, Err("e".to_string())).is_ok());
}

#[test]
fn kept_secrets_answer_for_the_user() {
    let kept = || Some("s".to_string());
    let password = AskpassRequest::new("Password:", "p", None);
    assert_eq!(try_auto_response(&password, kept()).unwrap().secret.as_deref(), Some("s"));
    assert_eq!(try_auto_response(&password, None).unwrap_err(), "no saved secret");
    let key = AskpassRequest::new("Enter passphrase for key:", "p", Some("/k".to_string()));
    assert_eq!(try_auto_response(&key, kept()).unwrap().secret.as_deref(), Some("s"));
    assert_eq!(try_auto_response(&key, None).unwrap_err(), "no saved secret");
    let lost = AskpassRequest::new("Enter passphrase for key:", "p", None);
    assert_eq!(try_auto_response(&lost, kept()).unwrap_err(), "missing key path");
    let code = AskpassRequest::new("Verification code:", "p", None);
    assert_eq!(try_auto_response(&code, kept()).unwrap_err(), "no saved secret");
}

#[test]
fn each_request_is_shown_once() {
    let mut seen = Vec::new();
    assert_eq!(note_request(&mut seen, "abc.json").as_deref(), Some("abc"));
    assert!(note_request(&mut seen, "abc.json").is_none());
    let req = AskpassRequest::new("Password:", "p", None);
    let payload = prompt_payload("s1", &req);
    assert_eq!(payload.session_id, "s1");
    assert_eq!(payload.request_id, req.id);
}
