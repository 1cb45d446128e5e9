use csswitch::remote::auth::{
    control_path_for, order_default_key_names, AuthRuntimeOptions, SshAuthPlan,
};
use csswitch::remote::types::{
    RemoteAuthMethod, RemoteHostProfile, RemoteSshAdvancedOptions, RemoteTargetKind,
};

fn sample_profile(auth_method: RemoteAuthMethod) -> RemoteHostProfile {
    RemoteHostProfile {
        id: "profile-1".to_string(),
        name: "Test".to_string(),
        kind: RemoteTargetKind::Ssh,
        host: "example.com".to_string(),
        port: 22,
        distribution: None,
        username: "ubuntu".to_string(),
        auth_method,
        helper_path: "/usr/local/bin/csswitch-helper".to_string(),
        last_connected: None,
        ssh_options: RemoteSshAdvancedOptions::default(),
        transient_password: None,
    }
}

fn test_runtime() -> AuthRuntimeOptions {
    AuthRuntimeOptions {
        askpass_path: Some("csswitch-ssh-askpass".to_string()),
        askpass_session_dir: Some("csswitch-askpass-session".to_string()),
        askpass_env: Vec::new(),
        control_path: Some("csswitch-control.sock".to_string()),
        default_ssh_dir: None,
        default_key_names: Vec::new(),
    }
}

fn strings(v: &[&str]) -> Vec<String> {
    v.iter().map(|s| s.to_string()).collect()
}

#[test]
fn default_key_candidates_prefer_modern_keys() {
    let names = strings(&["id_rsa", "id_custom", "not_a_key", "id_ed25519", "id_ecdsa"]);

    let ordered = order_default_key_names(names);

    assert_eq!(
        ordered,
        vec!["id_ed25519", "id_ecdsa", "id_rsa", "id_custom"]
    );
}

#[test]
fn recommended_auth_uses_default_keys_askpass_and_connection_reuse() {
    let profile = sample_profile(RemoteAuthMethod::Recommended {
        use_saved_keys: true,
        use_default_key_files: true,
        allow_password: true,
        allow_verification_code: true,
        remember_connection: true,
        strict: false,
    });

    let plan = SshAuthPlan::from_profile(
        &profile,
        AuthRuntimeOptions {
            askpass_path: Some("C:/csswitch/csswitch-ssh-askpass.exe".to_string()),
            askpass_session_dir: Some("C:/Temp/csswitch-askpass".to_string()),
            askpass_env: Vec::new(),
            control_path: Some("C:/Temp/csswitch-control.sock".to_string()),
            default_ssh_dir: Some("/home/u/.ssh".to_string()),
            default_key_names: strings(&["id_rsa", "id_ed25519", "id_custom", "id_rsa.pub"]),
        },
    );

    assert!(plan.args.contains(&"BatchMode=no".to_string()));
    assert!(plan.args.contains(&"NumberOfPasswordPrompts=3".to_string()));
    assert!(plan.args.contains(&"ControlMaster=auto".to_string()));
    assert_eq!(plan.default_key_paths.len(), 3);
    assert!(plan.default_key_paths[0].ends_with("id_ed25519"));
    assert!(plan.default_key_paths[1].ends_with("id_rsa"));
    assert!(plan.default_key_paths[2].ends_with("id_custom"));
    assert!(plan.env.iter().any(|(key, _)| key == "SSH_ASKPASS"));
}

#[test]
fn key_file_without_fallback_stays_noninteractive() {
    let profile = sample_profile(RemoteAuthMethod::KeyFile {
        path: "~/.ssh/id_ed25519".to_string(),
        save_key_password: false,
        allow_password_fallback: false,
        allow_verification_code: false,
        remember_connection: false,
    });

    let plan = SshAuthPlan::from_profile(&profile, test_runtime());

    assert!(plan.args.contains(&"-i".to_string()));
    assert!(plan.args.contains(&"~/.ssh/id_ed25519".to_string()));
    assert!(plan.args.contains(&"BatchMode=yes".to_string()));
    assert!(plan.args.contains(&"NumberOfPasswordPrompts=0".to_string()));
}

#[test]
fn legacy_compat_args_are_opt_in() {
    let mut profile = sample_profile(RemoteAuthMethod::SshAgent);
    let plan = SshAuthPlan::from_profile(&profile, test_runtime());
    assert!(!plan.args.contains(&"HostKeyAlgorithms=+ssh-rsa".to_string()));

    profile.ssh_options.legacy_compat = true;
    let plan = SshAuthPlan::from_profile(&profile, test_runtime());
    assert!(plan.args.contains(&"HostKeyAlgorithms=+ssh-rsa".to_string()));
}

#[test]
fn a_plan_never_holds_the_transient_password() {
    let auth = || RemoteAuthMethod::Password {
        save_password: true,
        allow_verification_code: true,
        remember_connection: false,
    };
    let mut with = sample_profile(auth());
    with.transient_password = Some("hunter2-secret".to_string());
    let without = sample_profile(auth());
    let a = SshAuthPlan::from_profile(&with, test_runtime());
    let b = SshAuthPlan::from_profile(&without, test_runtime());
    assert_eq!(a.args, b.args);
    assert_eq!(a.env, b.env);
    assert!(!a.args.iter().any(|s| s.contains("hunter2-secret")));
    assert!(!a.env.iter().any(|(_, v)| v.contains("hunter2-secret")));
}

#[test]
fn a_silent_plan_asks_nothing() {
    let plan = SshAuthPlan::from_profile(&sample_profile(RemoteAuthMethod::SshAgent), test_runtime());
    assert!(!plan.interactive);
    assert!(plan.env.is_empty());
}

#[test]
fn control_paths_differ_between_targets_and_hide_them() {
    let mut p = sample_profile(RemoteAuthMethod::SshAgent);
    let a = control_path_for(&p, "/home/u/.csswitch");
    p.host = "other.example.com".to_string();
    let b = control_path_for(&p, "/home/u/.csswitch");
    assert_ne!(a, b);
    assert!(a.starts_with("/home/u/.csswitch"));
    assert!(!a.contains("example.com"));
}

#[test]
fn ordered_key_names_keep_unknown_ones_sorted_behind() {
    let ordered = order_default_key_names(strings(&["id_zeta", "id_alpha", "id_rsa", "known_hosts"]));
    assert_eq!(ordered, vec!["id_rsa", "id_alpha", "id_zeta"]);
}
