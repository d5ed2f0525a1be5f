use lpop::error::KeychainError;
use lpop::model::{FindQuery, KeychainMetadata, KeychainOptions};
use lpop::platform::fallback::FallbackKeychain;
use lpop::platform::linux::LinuxKeychain;
use lpop::platform::{create_keychain, PlatformBackend, PlatformKeychain, TargetPlatform};
use lpop::Keychain;

const SERVICE: &str = "com.test.lpop";

fn store() -> FallbackKeychain {
    FallbackKeychain::new(None).unwrap()
}

fn no_options() -> KeychainOptions {
    KeychainOptions { team_id: None, access_group: None, synchronizable: None }
}

fn prefix_query(prefix: &str) -> FindQuery {
    FindQuery {
        account_prefix: Some(prefix.to_string()),
        environment: None,
        team_id: None,
        access_group: None,
    }
}

fn sample_metadata(label: &str, comment: &str) -> KeychainMetadata {
    KeychainMetadata {
        created_at: Some(1234567890),
        modified_at: Some(1234567891),
        label: Some(label.to_string()),
        comment: Some(comment.to_string()),
        team_id: Some("TEAM123".to_string()),
        code_signing_info: None,
        access_group: Some("com.test.app".to_string()),
        synchronizable: Some(true),
    }
}

#[test]
fn test_mock_keychain_basic_operations() {
    let mut keychain = store();
    keychain.set_password(SERVICE, "test_account", "test_password", None).unwrap();
    let password = keychain.get_password(SERVICE, "test_account").unwrap();
    assert_eq!(password, Some("test_password".to_string()));

    let password = keychain.get_password(SERVICE, "non_existent").unwrap();
    assert_eq!(password, None);

    let deleted = keychain.delete_password(SERVICE, "test_account").unwrap();
    assert!(deleted);

    let password = keychain.get_password(SERVICE, "test_account").unwrap();
    assert_eq!(password, None);
}

#[test]
fn test_mock_keychain_with_metadata() {
    let mut keychain = store();
    let metadata = sample_metadata("Test Label", "Test Comment");
    keychain
        .set_password(SERVICE, "test_account", "test_password", Some(metadata.clone()))
        .unwrap();

    let entry = keychain.get_entry(SERVICE, "test_account").unwrap().unwrap();
    assert_eq!(entry.password, "test_password");
    assert!(entry.metadata.is_some());

    let retrieved = entry.metadata.unwrap();
    assert_eq!(retrieved.label, metadata.label);
    assert_eq!(retrieved.team_id, metadata.team_id);
    assert_eq!(retrieved.access_group, metadata.access_group);
}

#[test]
fn test_mock_keychain_find_entries() {
    let mut keychain = store();
    keychain.set_password(SERVICE, "app_user1", "pass1", None).unwrap();
    keychain.set_password(SERVICE, "app_user2", "pass2", None).unwrap();
    keychain.set_password(SERVICE, "other_user", "pass3", None).unwrap();

    let entries = keychain.find_entries(None).unwrap();
    assert_eq!(entries.len(), 3);

    let entries = keychain.find_entries(Some(prefix_query("app_"))).unwrap();
    assert_eq!(entries.len(), 2);
}

#[test]
fn test_keychain_creation_with_minimal_options() {
    let keychain = Keychain::new(TargetPlatform::Other, Some(no_options()));
    assert!(keychain.is_ok());
}

#[test]
fn test_keychain_creation_with_full_options() {
    let options = KeychainOptions {
        team_id: Some("test".to_string()),
        access_group: Some("com.test.shared".to_string()),
        synchronizable: Some(true),
    };
    let keychain = Keychain::new(TargetPlatform::Other, Some(options));
    assert!(keychain.is_ok());
}

#[test]
fn test_keychain_password_lifecycle() {
    let mut keychain = store();
    let account = "integration_test_1";

    assert_eq!(keychain.delete_password(SERVICE, account).unwrap(), false);

    assert!(keychain.set_password(SERVICE, account, "test_password_123", None).is_ok());
    assert_eq!(
        keychain.get_password(SERVICE, account).unwrap(),
        Some("test_password_123".to_string())
    );

    assert!(keychain.set_password(SERVICE, account, "updated_password_456", None).is_ok());
    assert_eq!(
        keychain.get_password(SERVICE, account).unwrap(),
        Some("updated_password_456".to_string())
    );

    assert!(keychain.delete_password(SERVICE, account).unwrap());
    assert_eq!(keychain.get_password(SERVICE, account).unwrap(), None);
    assert!(!keychain.delete_password(SERVICE, account).unwrap());
}

#[test]
fn test_keychain_with_metadata() {
    let mut keychain = store();
    let account = "metadata_test_1";
    let metadata = KeychainMetadata {
        created_at: Some(1234567890),
        modified_at: Some(1234567891),
        label: Some("Integration Test Entry".to_string()),
        comment: Some("This is a test comment for integration testing".to_string()),
        team_id: None,
        code_signing_info: None,
        access_group: None,
        synchronizable: Some(false),
    };
    assert!(keychain.set_password(SERVICE, account, "metadata_password", Some(metadata)).is_ok());

    let entry = keychain.get_entry(SERVICE, account).unwrap();
    assert!(entry.is_some());
    let entry = entry.unwrap();
    assert_eq!(entry.account, account);
    assert_eq!(entry.password, "metadata_password");
    let retrieved = entry.metadata.unwrap();
    assert_eq!(retrieved.label, Some("Integration Test Entry".to_string()));
    assert_eq!(
        retrieved.comment,
        Some("This is a test comment for integration testing".to_string())
    );
}

#[test]
fn test_keychain_find_entries() {
    let mut keychain = store();
    let entries = [
        ("user_alice_1", "alice_password"),
        ("user_bob_1", "bob_password"),
        ("admin_charlie_1", "charlie_password"),
        ("admin_david_1", "david_password"),
    ];
    for (account, password) in &entries {
        keychain.set_password(SERVICE, account, password, None).unwrap();
    }

    assert_eq!(keychain.find_entries(None).unwrap().len(), 4);
    assert_eq!(keychain.find_entries(Some(prefix_query("user_"))).unwrap().len(), 2);
    assert_eq!(keychain.find_entries(Some(prefix_query("admin_"))).unwrap().len(), 2);
    assert_eq!(keychain.find_entries(Some(prefix_query("nonexistent_"))).unwrap().len(), 0);
}

#[test]
fn test_keychain_special_characters_in_password() {
    let mut keychain = store();
    let account = "special_test_1";
    let special_passwords = vec![
        "password with spaces",
        "p@ssw0rd!with#special$chars",
        "密码123",
        "emoji🔐password🎉",
        r#"{"json": "password", "with": "quotes"}"#,
        "multi\nline\npassword",
        "tab\tseparated\tpassword",
    ];
    for password in special_passwords {
        let _ = keychain.delete_password(SERVICE, account);
        let result = keychain.set_password(SERVICE, account, password, None);
        assert!(result.is_ok(), "Failed to set password: {}", password);
        let retrieved = keychain.get_password(SERVICE, account).unwrap();
        assert_eq!(retrieved, Some(password.to_string()), "Password mismatch for: {}", password);
    }
}

#[test]
fn test_keychain_concurrent_operations() {
    let mut keychain = store();
    let accounts: Vec<String> = (0..5).map(|i| format!("concurrent_account_{}_1", i)).collect();
    let passwords: Vec<String> = (0..5).map(|i| format!("password_{}", i)).collect();
    for i in 0..5 {
        let _ = keychain.delete_password(SERVICE, &accounts[i]);
        keychain.set_password(SERVICE, &accounts[i], &passwords[i], None).unwrap();
    }
    for i in 0..5 {
        let retrieved = keychain.get_password(SERVICE, &accounts[i]).unwrap();
        assert_eq!(retrieved, Some(passwords[i].clone()));
    }
    for i in 0..5 {
        assert!(keychain.delete_password(SERVICE, &accounts[i]).unwrap());
    }
}

#[test]
fn test_keychain_empty_values() {
    let mut keychain = store();
    assert!(keychain.set_password(SERVICE, "empty_test_1", "", None).is_ok());
    assert_eq!(keychain.get_password(SERVICE, "empty_test_1").unwrap(), Some(String::new()));
}

#[test]
fn test_keychain_large_password() {
    let mut keychain = store();
    let large_password = "x".repeat(1024 * 1024);
    let result = keychain.set_password(SERVICE, "large_test_1", &large_password, None);
    if result.is_ok() {
        let retrieved = keychain.get_password(SERVICE, "large_test_1").unwrap();
        assert_eq!(retrieved, Some(large_password));
    }
}

#[test]
fn absent_key_reads_none_and_deletes_false() {
    let mut keychain = store();
    assert_eq!(keychain.get_password("s", "a").unwrap(), None);
    assert_eq!(keychain.delete_password("s", "a").unwrap(), false);
    keychain.set_password("s", "a", "v", None).unwrap();
    keychain.delete_password("s", "a").unwrap();
    assert_eq!(keychain.get_password("s", "a").unwrap(), None);
    assert_eq!(keychain.delete_password("s", "a").unwrap(), false);
    assert!(keychain.get_entry("s", "a").unwrap().is_none());
}

#[test]
fn overwrite_replaces_password_and_metadata() {
    let mut keychain = store();
    keychain.set_password("s", "a", "secret1", Some(sample_metadata("one", "first"))).unwrap();
    keychain.set_password("s", "a", "secret2", None).unwrap();
    assert_eq!(keychain.get_password("s", "a").unwrap(), Some("secret2".to_string()));
    assert!(keychain.get_entry("s", "a").unwrap().unwrap().metadata.is_none());
    assert_eq!(keychain.find_entries(None).unwrap().len(), 1);
}

#[test]
fn prefix_search_is_case_sensitive_and_exact() {
    let mut keychain = store();
    keychain.set_password("s1", "app_one", "1", None).unwrap();
    keychain.set_password("s2", "app_two", "2", None).unwrap();
    keychain.set_password("s1", "APP_three", "3", None).unwrap();
    keychain.set_password("s1", "ap", "4", None).unwrap();
    let mut found: Vec<(String, String)> = keychain
        .find_entries(Some(prefix_query("app_")))
        .unwrap()
        .into_iter()
        .map(|e| (e.account, e.password))
        .collect();
    found.sort();
    assert_eq!(found, vec![("app_one".to_string(), "1".to_string()), ("app_two".to_string(), "2".to_string())]);
    let all = keychain.find_entries(Some(FindQuery {
        account_prefix: None,
        environment: Some("production".to_string()),
        team_id: None,
        access_group: None,
    }));
    assert_eq!(all.unwrap().len(), 4);
}

#[test]
fn distinct_keys_do_not_interfere() {
    let mut keychain = store();
    keychain.set_password("svc", "a", "pa", None).unwrap();
    keychain.set_password("svc", "b", "pb", None).unwrap();
    keychain.set_password("other", "a", "qa", None).unwrap();
    keychain.delete_password("svc", "b").unwrap();
    keychain.set_password("svc", "a", "pa2", None).unwrap();
    assert_eq!(keychain.get_password("other", "a").unwrap(), Some("qa".to_string()));
    assert_eq!(keychain.get_password("svc", "a").unwrap(), Some("pa2".to_string()));
    assert_eq!(keychain.get_password("svc", "b").unwrap(), None);
}

#[test]
fn search_by_service_and_by_account() {
    let mut keychain = store();
    keychain.set_password("svc", "a", "1", None).unwrap();
    keychain.set_password("svc", "b", "2", None).unwrap();
    keychain.set_password("other", "a", "3", None).unwrap();
    let by_service = keychain.find_credentials("svc").unwrap();
    assert_eq!(by_service.len(), 2);
    assert!(by_service.iter().all(|e| e.service == "svc"));
    let by_account = keychain.find_by_account("a").unwrap();
    let mut services: Vec<String> = by_account.into_iter().map(|e| e.service).collect();
    services.sort();
    assert_eq!(services, vec!["other".to_string(), "svc".to_string()]);
    assert_eq!(keychain.get_platform_info(), "fallback");
}

#[test]
fn separate_stores_do_not_share_entries() {
    let mut first = store();
    let second = store();
    first.set_password("s", "a", "v", None).unwrap();
    assert_eq!(second.get_password("s", "a").unwrap(), None);
}

#[test]
fn unsupported_platforms_fail_construction() {
    match LinuxKeychain::new(None) {
        Err(KeychainError::Unsupported(msg)) => {
            assert_eq!(msg, "Linux keychain support not yet implemented. Use fallback.")
        }
        _ => panic!("expected Unsupported"),
    }
    assert!(matches!(
        create_keychain(TargetPlatform::Linux, no_options()),
        Err(KeychainError::Unsupported(_))
    ));
    assert!(matches!(
        create_keychain(TargetPlatform::Windows, no_options()),
        Err(KeychainError::UnsupportedPlatform)
    ));
    assert!(matches!(Keychain::new(TargetPlatform::Linux, None), Err(KeychainError::Unsupported(_))));
}

#[test]
fn linux_stub_refuses_every_operation() {
    let mut stub = LinuxKeychain;
    let refused = |e: KeychainError| e == KeychainError::Unsupported("Not implemented".to_string());
    assert!(refused(stub.set_password("s", "a", "p", None).unwrap_err()));
    assert!(refused(stub.get_password("s", "a").unwrap_err()));
    assert!(refused(stub.delete_password("s", "a").unwrap_err()));
    assert!(refused(stub.get_entry("s", "a").unwrap_err()));
    assert!(refused(stub.find_entries(None).unwrap_err()));
    assert!(refused(stub.find_credentials("s").unwrap_err()));
    assert!(refused(stub.find_by_account("a").unwrap_err()));
    assert_eq!(stub.get_platform_info(), "linux");
}

#[test]
fn factory_selects_one_backend() {
    match Keychain::new(TargetPlatform::Other, None).unwrap().into_backend() {
        PlatformBackend::Fallback(f) => assert_eq!(f.find_entries(None).unwrap().len(), 0),
        PlatformBackend::MacOS(_) => panic!("expected the in-memory backend"),
    }
    let keychain = Keychain::new(TargetPlatform::MacOS, None).unwrap();
    assert!(matches!(keychain.backend(), PlatformBackend::MacOS(_)));
}
