use lpop::error::KeychainError;
use lpop::manager::{KeychainManager, StoreFailure};
use lpop::model::KeychainOptions;
use lpop::platform::macos::{
    MacOSKeychain, NativeRecord, QueryAttribute, QueryValue, ERR_SEC_ITEM_NOT_FOUND, ERR_SEC_SUCCESS,
};

fn text(s: &str) -> QueryValue {
    QueryValue::Text(s.to_string())
}

fn record(service: Option<&str>, account: Option<&str>, data: Option<&[u8]>) -> NativeRecord {
    NativeRecord {
        service: service.map(|s| s.to_string()),
        account: account.map(|s| s.to_string()),
        data: data.map(|d| d.to_vec()),
    }
}

#[test]
fn test_macos_keychain_creation() {
    let options = KeychainOptions { team_id: None, access_group: None, synchronizable: Some(false) };
    let keychain = MacOSKeychain::new(Some(options));
    assert!(keychain.is_ok());
    let keychain = keychain.unwrap();
    assert_eq!(keychain.get_platform_info(), "macos");
}

#[test]
fn test_macos_keychain_with_access_group() {
    let options = KeychainOptions {
        team_id: None,
        access_group: Some("TEAM123.com.test.shared".to_string()),
        synchronizable: Some(true),
    };
    let keychain = MacOSKeychain::new(Some(options));
    assert!(keychain.is_ok());
    let query = keychain.unwrap().build_base_query("com.test.lpop", Some("test"));
    assert_eq!(
        query,
        vec![
            (QueryAttribute::Class, QueryValue::GenericPassword),
            (QueryAttribute::Service, text("com.test.lpop")),
            (QueryAttribute::Account, text("test")),
            (QueryAttribute::AccessGroup, text("TEAM123.com.test.shared")),
            (QueryAttribute::Synchronizable, QueryValue::True),
        ]
    );
}

#[test]
fn team_id_qualifies_the_access_group() {
    let options = KeychainOptions {
        team_id: Some("ABC123XYZ".to_string()),
        access_group: Some("com.test.shared".to_string()),
        synchronizable: None,
    };
    let keychain = MacOSKeychain::new(Some(options)).unwrap();
    let query = keychain.build_base_query("svc", None);
    assert_eq!(
        query,
        vec![
            (QueryAttribute::Class, QueryValue::GenericPassword),
            (QueryAttribute::Service, text("svc")),
            (QueryAttribute::AccessGroup, text("ABC123XYZ.com.test.shared")),
        ]
    );
}

#[test]
fn add_and_copy_queries_extend_the_base_query() {
    let keychain = MacOSKeychain::new(None).unwrap();
    let add = keychain.add_query("svc", "acct", "pw");
    assert_eq!(
        add,
        vec![
            (QueryAttribute::Class, QueryValue::GenericPassword),
            (QueryAttribute::Service, text("svc")),
            (QueryAttribute::Account, text("acct")),
            (QueryAttribute::ValueData, text("pw")),
            (QueryAttribute::Label, text("svc (acct)")),
        ]
    );
    let copy = keychain.copy_query("svc", "acct");
    assert_eq!(copy.len(), 5);
    assert_eq!(copy[3], (QueryAttribute::ReturnData, QueryValue::True));
    assert_eq!(copy[4], (QueryAttribute::MatchLimit, QueryValue::MatchOne));
}

#[test]
fn add_outcome_maps_status() {
    assert!(MacOSKeychain::add_outcome(ERR_SEC_SUCCESS).is_ok());
    assert_eq!(
        MacOSKeychain::add_outcome(-25299),
        Err(KeychainError::PlatformError("Failed to add keychain item: OSStatus -25299".to_string()))
    );
}

#[test]
fn copy_outcome_treats_not_found_as_absent() {
    assert_eq!(MacOSKeychain::copy_outcome(ERR_SEC_ITEM_NOT_FOUND, None), Ok(None));
    assert_eq!(
        MacOSKeychain::copy_outcome(ERR_SEC_SUCCESS, Some("secret1".as_bytes().to_vec())),
        Ok(Some("secret1".to_string()))
    );
    assert_eq!(
        MacOSKeychain::copy_outcome(ERR_SEC_SUCCESS, Some("emoji🔐".as_bytes().to_vec())),
        Ok(Some("emoji🔐".to_string()))
    );
    assert_eq!(
        MacOSKeychain::copy_outcome(ERR_SEC_SUCCESS, Some(vec![0xff, b'a'])),
        Ok(Some("\u{fffd}a".to_string()))
    );
    assert_eq!(
        MacOSKeychain::copy_outcome(ERR_SEC_SUCCESS, None),
        Err(KeychainError::PlatformError("Failed to get keychain item: OSStatus 0".to_string()))
    );
    assert_eq!(
        MacOSKeychain::copy_outcome(-128, None),
        Err(KeychainError::PlatformError("Failed to get keychain item: OSStatus -128".to_string()))
    );
}

#[test]
fn delete_outcome_treats_not_found_as_false() {
    assert_eq!(MacOSKeychain::delete_outcome(ERR_SEC_SUCCESS), Ok(true));
    assert_eq!(MacOSKeychain::delete_outcome(ERR_SEC_ITEM_NOT_FOUND), Ok(false));
    assert_eq!(
        MacOSKeychain::delete_outcome(25),
        Err(KeychainError::PlatformError("Failed to delete keychain item: OSStatus 25".to_string()))
    );
}

#[test]
fn search_skips_incomplete_records() {
    let records = vec![
        record(None, Some("a"), Some(b"pa")),
        record(None, None, Some(b"orphan")),
        record(None, Some("b"), None),
        record(None, Some("c"), Some(b"pc")),
    ];
    let found = MacOSKeychain::credentials_outcome("svc", ERR_SEC_SUCCESS, records).unwrap();
    let triples: Vec<(String, String, String)> =
        found.into_iter().map(|e| (e.service, e.account, e.password)).collect();
    assert_eq!(
        triples,
        vec![
            ("svc".to_string(), "a".to_string(), "pa".to_string()),
            ("svc".to_string(), "c".to_string(), "pc".to_string()),
        ]
    );
    let by_account = MacOSKeychain::by_account_outcome(
        "acct",
        ERR_SEC_SUCCESS,
        vec![record(Some("s1"), None, Some(b"x")), record(None, Some("acct"), Some(b"y"))],
    )
    .unwrap();
    assert_eq!(by_account.len(), 1);
    assert_eq!(by_account[0].service, "s1");
    assert_eq!(by_account[0].account, "acct");
    assert!(MacOSKeychain::credentials_outcome("svc", ERR_SEC_ITEM_NOT_FOUND, vec![]).unwrap().is_empty());
    assert_eq!(
        MacOSKeychain::by_account_outcome("acct", -34018, vec![]),
        Err(KeychainError::PlatformError("Failed to search keychain: OSStatus -34018".to_string()))
    );
}

#[test]
fn manager_maps_store_outcomes() {
    let manager = KeychainManager::new("lpop-test-service".to_string());
    assert_eq!(manager.service_name(), "lpop-test-service");
    assert_eq!(manager.list_vars().unwrap().len(), 0);
    assert!(manager.clear_all().is_ok());
    assert_eq!(KeychainManager::get_var_outcome(Ok("test_value".to_string())), Ok(Some("test_value".to_string())));
    assert_eq!(KeychainManager::get_var_outcome(Err(StoreFailure::NoEntry)), Ok(None));
    assert_eq!(KeychainManager::delete_var_outcome(Ok(())), Ok(true));
    assert_eq!(KeychainManager::delete_var_outcome(Err(StoreFailure::NoEntry)), Ok(false));
    assert_eq!(
        KeychainManager::get_var_outcome(Err(StoreFailure::NoAccess("locked".to_string()))),
        Err(KeychainError::AccessDenied)
    );
    assert_eq!(
        KeychainManager::set_var_outcome("TEST_KEY", Err(StoreFailure::Other("boom".to_string()))),
        Err(KeychainError::PlatformError("Failed to set TEST_KEY in keychain: boom".to_string()))
    );
    assert_eq!(
        KeychainManager::delete_var_outcome(Err(StoreFailure::Other("gone".to_string()))),
        Err(KeychainError::PlatformError("Failed to delete from keychain: gone".to_string()))
    );
}
