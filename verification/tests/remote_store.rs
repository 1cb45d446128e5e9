use csswitch::remote::store::{
    delete_profile, is_empty_store, load_profiles, lock_step, profiles_lock_path, profiles_path,
    profiles_temp_path, save_profiles, save_step, store_error, stored_profiles, upsert_profile,
    validate_profile, validate_profiles, LockAttempt, StoreRead, StoreStep,
};
use csswitch::remote::types::{
    RemoteAuthMethod, RemoteHostProfile, RemoteSshAdvancedOptions, RemoteTargetKind,
};

fn sample_profile(id: &str) -> RemoteHostProfile {
    RemoteHostProfile {
        id: id.to_string(),
        name: "测试服务器".to_string(),
        kind: RemoteTargetKind::Ssh,
        host: "192.168.1.100".to_string(),
        port: 22,
        distribution: None,
        username: "testuser".to_string(),
        auth_method: RemoteAuthMethod::SshAgent,
        helper_path: "~/.csswitch/bin/csswitch-helper".to_string(),
        last_connected: None,
        ssh_options: RemoteSshAdvancedOptions::default(),
        transient_password: None,
    }
}

#[test]
fn test_crud_roundtrip() {
    let profile = sample_profile("test-01");
    validate_profile(&profile).unwrap();
    let mut loaded: Vec<RemoteHostProfile> = Vec::new();
    upsert_profile(&mut loaded, &profile).unwrap();
    assert_eq!(loaded.len(), 1);
    assert_eq!(loaded[0].id, "test-01");
    let (loaded, deleted) = delete_profile(loaded, "test-01");
    assert!(deleted);
    assert_eq!(loaded.len(), 0);
}

#[test]
fn test_validation_accepts_wsl_without_host_or_port() {
    let mut p = sample_profile("wsl-1");
    p.kind = RemoteTargetKind::Wsl;
    p.name = "Ubuntu".to_string();
    p.host = String::new();
    p.port = 0;
    p.distribution = Some("Ubuntu".to_string());
    p.username = "zhawei".to_string();
    validate_profile(&p).unwrap();
}

#[test]
fn test_validation_rejects_wsl_without_distribution() {
    let mut p = sample_profile("wsl-2");
    p.kind = RemoteTargetKind::Wsl;
    p.host = String::new();
    p.port = 0;
    p.distribution = None;
    assert!(validate_profile(&p).is_err());
}

#[test]
fn test_validation_rejects_empty_host() {
    let mut p = sample_profile("t1");
    p.host = "".to_string();
    assert!(validate_profile(&p).is_err());
}

#[test]
fn test_validation_rejects_empty_username() {
    let mut p = sample_profile("t2");
    p.username = "".to_string();
    assert!(validate_profile(&p).is_err());
}

#[test]
fn test_validation_rejects_zero_port() {
    let mut p = sample_profile("t3");
    p.port = 0;
    assert!(validate_profile(&p).is_err());
}

#[test]
fn test_validation_rejects_relative_helper_path() {
    let mut p = sample_profile("t4");
    p.helper_path = "csswitch-helper".to_string();
    assert!(validate_profile(&p).is_err());
}

#[test]
fn test_validation_rejects_empty_keyfile_path() {
    let mut p = sample_profile("t5");
    p.auth_method = RemoteAuthMethod::KeyFile {
        path: "".to_string(),
        save_key_password: true,
        allow_password_fallback: true,
        allow_verification_code: true,
        remember_connection: true,
    };
    assert!(validate_profile(&p).is_err());
}

#[test]
fn a_profile_replaces_the_one_with_its_id() {
    let mut v = Vec::new();
    upsert_profile(&mut v, &sample_profile("a")).unwrap();
    upsert_profile(&mut v, &sample_profile("b")).unwrap();
    let mut changed = sample_profile("a");
    changed.host = "10.0.0.1".to_string();
    upsert_profile(&mut v, &changed).unwrap();
    assert_eq!(v.len(), 2);
    assert_eq!(v.iter().find(|p| p.id == "a").unwrap().host, "10.0.0.1");
    assert_eq!(v.iter().find(|p| p.id == "b").unwrap().host, "192.168.1.100");
    assert!(validate_profiles(&v).is_ok());
    let mut bad = sample_profile("c");
    bad.port = 0;
    assert!(upsert_profile(&mut v, &bad).is_err());
    assert_eq!(v.len(), 2);
    let (v, deleted) = delete_profile(v, "z");
    assert!(!deleted);
    assert_eq!(v.len(), 2);
}

#[test]
fn locks_are_waited_for_only_so_long() {
    assert_eq!(lock_step(LockAttempt::Acquired, 0), Ok(true));
    assert_eq!(lock_step(LockAttempt::Held, 10), Ok(false));
    assert!(lock_step(LockAttempt::Held, 5000).is_err());
    assert!(lock_step(LockAttempt::Failed { error: "e".to_string() }, 0).is_err());
}

#[test]
fn store_files_have_names() {
    assert_eq!(profiles_path("/c"), "/c/remote-hosts.json");
    assert_ne!(profiles_lock_path("/c"), profiles_path("/c"));
    assert_ne!(profiles_temp_path("/c", 1, "t"), profiles_temp_path("/c", 2, "t"));
    assert!(is_empty_store(" \n"));
    assert!(!is_empty_store("[]"));
    assert_eq!(
        store_error(StoreStep::Read, "/c/x", "e"),
        "无法读取远程服务器配置 /c/x：e"
    );
}

#[test]
fn a_list_is_saved_step_by_step() {
    let v = vec![sample_profile("a")];
    let mut step = save_profiles(&v).unwrap();
    let mut taken = vec![step];
    while let Some(next) = save_step(step, "/c/x", Ok(())).unwrap() {
        taken.push(next);
        step = next;
    }
    assert_eq!(taken.len(), 10);
    assert_eq!(taken[0], StoreStep::CheckPath);
    assert_eq!(taken[8], StoreStep::Rename);
    assert_eq!(
        save_step(StoreStep::Rename, "/c/x", Err("e".to_string())).unwrap_err(),
        "替换远程配置文件失败：e"
    );
    let mut bad = sample_profile("b");
    bad.host = String::new();
    assert!(save_profiles(&vec![bad]).is_err());
}

#[test]
fn a_list_is_loaded() {
    assert!(load_profiles("/c/x", StoreRead::Missing).ok().unwrap().is_empty());
    assert!(load_profiles("/c/x", StoreRead::Blank).ok().unwrap().is_empty());
    assert_eq!(
        load_profiles("/c/x", StoreRead::Other { error: "e".to_string() }).err().unwrap(),
        "远程服务器配置格式错误 /c/x：e"
    );
    assert_eq!(
        load_profiles("/c/x", StoreRead::Failed { error: "e".to_string() }).err().unwrap(),
        "无法读取远程服务器配置 /c/x：e"
    );
    let v = load_profiles("/c/x", StoreRead::Profiles(vec![sample_profile("a")])).ok().unwrap();
    assert_eq!(v[0].id, "a");
    let mut bad = sample_profile("b");
    bad.port = 0;
    assert!(load_profiles("/c/x", StoreRead::Profiles(vec![bad])).is_err());
}

#[test]
fn passwords_for_one_connection_are_not_stored() {
    let mut p = sample_profile("a");
    p.transient_password = Some("server-password".to_string());
    let stored = stored_profiles(&vec![p, sample_profile("b")]);
    assert!(stored.iter().all(|p| p.transient_password.is_none()));
    let loaded = load_profiles("/c/x", StoreRead::Profiles(stored)).ok().unwrap();
    assert_eq!(loaded.iter().map(|p| p.id.as_str()).collect::<Vec<_>>(), ["a", "b"]);
}
