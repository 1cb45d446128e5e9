use csswitch::remote::credentials::{
    after_system_save, credential_kind_from_parts, credential_label, decrypt_local_secret,
    delete_local_secret, delete_secret_with_fallback, derive_local_key, encrypt_local_secret,
    local_key_body, local_store_error, parse_local_key, random_key_b64, read_local_secret,
    read_secret_with_fallback, save_file, save_local_secret, save_secret_with_fallback,
    seal_local_secret, AfterSystemSave, CredentialKind, LocalEncryptedCredentialStore,
    LocalSecretFile, LocalStoreStep, SecretFileChange, SecretFileRead,
};

#[test]
fn credential_labels_are_stable_and_secret_free() {
    let profile_id = "host.example.com/root/password-ish";
    let password = credential_label(profile_id, CredentialKind::Password);
    let key_pass = credential_label(
        profile_id,
        CredentialKind::KeyPassword("C:/Users/me/.ssh/id_ed25519"),
    );

    assert!(password.starts_with("remote:"));
    assert!(password.ends_with(":password"));
    assert!(!password.contains(profile_id));
    assert!(key_pass.starts_with("remote:"));
    assert!(key_pass.contains(":key-password:"));
    assert!(!key_pass.contains(profile_id));
    assert!(!key_pass.contains("id_ed25519"));
    assert!(!key_pass.contains(".ssh"));
    assert_eq!(password.len(), "remote:".len() + 64 + ":password".len());
    assert_eq!(
        key_pass.len(),
        "remote:".len() + 64 + ":key-password:".len() + 64
    );
}

#[test]
fn credential_label_is_the_hex_digest() {
    assert_eq!(
        credential_label("abc", CredentialKind::Password),
        "remote:ba7816bf8f01cfea414140de5dae2223b00361a396177a9cb410ff61f20015ad:password"
    );
}

#[test]
fn credential_kind_parser_rejects_unknown_kind() {
    assert!(credential_kind_from_parts("verificationCode", None).is_err());
}

#[test]
fn key_password_kind_requires_key_path() {
    assert!(credential_kind_from_parts("keyPassword", None).is_err());
    assert!(credential_kind_from_parts("keyPassword", Some("   ")).is_err());
    assert_eq!(
        credential_kind_from_parts("keyPassword", Some(" ~/.ssh/id_ed25519 ")).unwrap(),
        CredentialKind::KeyPassword("~/.ssh/id_ed25519")
    );
}

#[test]
fn memory_store_roundtrip_does_not_touch_system_credentials() {
    let key = random_key_b64();
    let kind = CredentialKind::Password;
    let label = credential_label("p2", kind);
    let other = credential_label("p1", kind);

    let store = save_local_secret(LocalSecretFile::default(), &other, "other", &key).unwrap();
    let store = save_local_secret(store, &label, "server-password", &key).unwrap();
    assert_eq!(
        read_local_secret(&store, &credential_label("p2", kind), &key).as_deref(),
        Some("server-password")
    );

    match delete_local_secret(store, &label) {
        SecretFileChange::Saved(left) => {
            assert!(read_local_secret(&left, &label, &key).is_none());
            assert_eq!(read_local_secret(&left, &other, &key).as_deref(), Some("other"));
        }
        _ => panic!("another secret is left"),
    }
}

#[test]
fn encrypted_fallback_roundtrip_when_system_store_is_unavailable() {
    let key = random_key_b64();
    let label = credential_label("profile-1", CredentialKind::Password);
    let refused = match after_system_save(Err("No default store has been set".to_string())) {
        AfterSystemSave::SaveLocal { system_error } => system_error,
        AfterSystemSave::DeleteLocal => panic!("the system refused"),
    };
    let file = save_local_secret(LocalSecretFile::default(), &label, "server-password", &key).unwrap();
    save_secret_with_fallback(&refused, Ok(())).unwrap();

    assert_eq!(
        read_secret_with_fallback(None, read_local_secret(&file, &label, &key)).as_deref(),
        Some("server-password")
    );
    let body = file.items.get(&label).unwrap();
    assert!(!body.contains("server-password"));
    assert!(body.contains("v1:"));
}

#[test]
fn encrypted_fallback_delete_works_even_when_system_store_is_unavailable() {
    let key = random_key_b64();
    let label = credential_label("profile-1", CredentialKind::Password);
    let file = save_local_secret(LocalSecretFile::default(), &label, "server-password", &key).unwrap();
    assert!(matches!(delete_local_secret(file, &label), SecretFileChange::Deleted));
    delete_secret_with_fallback(Err("No default store has been set".to_string()), Ok(())).unwrap();
    assert!(read_local_secret(&LocalSecretFile::default(), &label, &key).is_none());
}

#[test]
fn nothing_is_read_where_nothing_was_saved() {
    let store = LocalEncryptedCredentialStore::new("/home/u/.csswitch".to_string());
    assert_eq!(store.key_path(), "/home/u/.csswitch/encryption.key");
    assert_eq!(store.secrets_path(), "/home/u/.csswitch/remote-secrets.json");
    assert!(read_local_secret(&LocalSecretFile::default(), "remote:x:password", "").is_none());
    assert!(read_secret_with_fallback(None, None).is_none());
}

#[test]
fn saving_one_secret_keeps_the_others() {
    let key = random_key_b64();
    let file = save_local_secret(LocalSecretFile::default(), "a", "first", &key).unwrap();
    let file = save_local_secret(file, "b", "second", &key).unwrap();
    let file = save_local_secret(file, "a", "third", &key).unwrap();
    assert_eq!(file.version, 1);
    assert_eq!(read_local_secret(&file, "a", &key).as_deref(), Some("third"));
    assert_eq!(read_local_secret(&file, "b", &key).as_deref(), Some("second"));
    match delete_local_secret(file, "a") {
        SecretFileChange::Saved(left) => {
            assert!(read_local_secret(&left, "a", &key).is_none());
            assert_eq!(read_local_secret(&left, "b", &key).as_deref(), Some("second"));
            assert!(matches!(delete_local_secret(left, "c"), SecretFileChange::Unchanged));
        }
        _ => panic!("one secret is left"),
    }
}

#[test]
fn a_secret_opens_only_under_its_label_and_key() {
    let key = random_key_b64();
    let other = random_key_b64();
    let body = encrypt_local_secret("label", b"secret", &key).unwrap();
    assert_eq!(decrypt_local_secret("label", &body, &key).unwrap(), b"secret".to_vec());
    assert_eq!(decrypt_local_secret("other", &body, &key).unwrap_err(), "解密本机密码失败");
    assert_eq!(decrypt_local_secret("label", &body, &other).unwrap_err(), "解密本机密码失败");
    assert_eq!(
        decrypt_local_secret("label", &body[3..], &key).unwrap_err(),
        "本机密码密文缺少 v1 前缀"
    );
    assert_eq!(decrypt_local_secret("label", "v1:AAAA", &key).unwrap_err(), "本机密码密文过短");
    assert!(decrypt_local_secret("label", "v1:*", &key)
        .unwrap_err()
        .starts_with("本机密码密文不是合法 base64："));
}

#[test]
fn sealing_with_a_known_nonce_is_repeatable() {
    let key = "MDEyMzQ1Njc4OWFiY2RlZjAxMjM0NTY3ODlhYmNkZWY=";
    let nonce = vec![7u8; 12];
    let a = seal_local_secret("label", b"secret", key, &nonce).unwrap();
    let b = seal_local_secret("label", b"secret", key, &nonce).unwrap();
    assert_eq!(a, b);
    assert!(a.starts_with("v1:BwcHBwcHBwcHBwcH"));
    assert_ne!(a, seal_local_secret("label", b"other!", key, &nonce).unwrap());
}

#[test]
fn keys_that_cannot_be_used_are_refused() {
    assert!(derive_local_key("***").unwrap_err().starts_with("本机密码密钥不是合法 base64："));
    assert_eq!(derive_local_key("AAAA").unwrap_err(), "本机密码密钥长度不足");
    let derived = derive_local_key("MDEyMzQ1Njc4OWFiY2RlZjAxMjM0NTY3ODlhYmNkZWY=").unwrap();
    assert_eq!(derived.len(), 32);
    assert_ne!(derived, b"0123456789abcdef0123456789abcdef".to_vec());
    assert_eq!(encrypt_local_secret("l", b"s", "AAAA").unwrap_err(), "本机密码密钥长度不足");
}

#[test]
fn key_file_round_trip() {
    let key = random_key_b64();
    assert_eq!(key.len(), 44);
    assert_ne!(key, random_key_b64());
    assert_eq!(parse_local_key(&local_key_body(&key)), Some(key));
    assert_eq!(parse_local_key("# nothing here\n"), None);
}

#[test]
fn failures_name_both_stores() {
    assert_eq!(
        save_secret_with_fallback("a", Err("b".to_string())).unwrap_err(),
        "系统安全存储失败：a；本机加密存储也失败：b"
    );
    assert_eq!(
        delete_secret_with_fallback(Err("a".to_string()), Err("b".to_string())).unwrap_err(),
        "系统安全存储删除失败：a；本机加密存储删除失败：b"
    );
    assert!(delete_secret_with_fallback(Ok(()), Err("b".to_string())).is_ok());
    assert_eq!(
        read_secret_with_fallback(Some("s".to_string()), Some("l".to_string())).as_deref(),
        Some("s")
    );
    assert!(matches!(after_system_save(Ok(())), AfterSystemSave::DeleteLocal));
    assert!(local_store_error(LocalStoreStep::ReadFile, "/p", "e").ends_with("e"));
}

#[test]
fn a_key_is_made_once() {
    let store = LocalEncryptedCredentialStore::new("/c".to_string());
    let (key, body) = store.read_or_create_key(None);
    let body = body.unwrap();
    assert_eq!(body, format!("REMOTE_SECRET_ENCRYPTION_KEY={key}\n"));
    let (again, nothing) = store.read_or_create_key(Some(body.as_str()));
    assert_eq!(again, key);
    assert!(nothing.is_none());
    let (other, written) = store.read_or_create_key(Some("REMOTE_SECRET_ENCRYPTION_KEY=short\n"));
    assert_ne!(other, key);
    assert!(written.is_some());
}

#[test]
fn secrets_are_saved_step_by_step() {
    let mut step = LocalStoreStep::CheckDir;
    let mut taken = vec![step];
    while let Some(next) = save_file(step, "/c/x", Ok(())).unwrap() {
        taken.push(next);
        step = next;
    }
    assert_eq!(taken.len(), 9);
    assert_eq!(taken[6], LocalStoreStep::ProtectTemp);
    assert_eq!(taken[7], LocalStoreStep::RenameTemp);
    assert_eq!(
        save_file(LocalStoreStep::RenameTemp, "/c/x", Err("e".to_string())).unwrap_err(),
        "替换本机密码文件失败：e"
    );
}

#[test]
fn secrets_are_loaded() {
    let store = LocalEncryptedCredentialStore::new("/c".to_string());
    assert_eq!(store.load_file(SecretFileRead::Missing).unwrap().version, 1);
    let text = |raw: &str, found| SecretFileRead::Text { raw: raw.to_string(), found };
    let empty = store.load_file(text(" \n", Err("e".to_string()))).unwrap();
    assert!(empty.version == 1 && empty.items.is_empty());
    assert_eq!(
        store.load_file(SecretFileRead::Failed { error: "e".to_string() }).unwrap_err(),
        "读取本机密码文件 /c/remote-secrets.json 失败：e"
    );
    assert_eq!(
        store.load_file(text("{", Err("e".to_string()))).unwrap_err(),
        "解析本机密码文件失败：e"
    );
    let mut file = LocalSecretFile::default();
    file.version = 7;
    assert_eq!(store.load_file(text("{\"version\":7}", Ok(file))).unwrap().version, 7);
}
