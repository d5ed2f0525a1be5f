use lpop::model::FindQuery;
use lpop::platform::shared::SharedKeychain;

#[test]
fn interleaved_callers_on_distinct_keys_see_only_their_own_writes() {
    let keychain = SharedKeychain::new();
    let accounts: Vec<String> = (0..5).map(|i| format!("concurrent_account_{}", i)).collect();
    let passwords: Vec<String> = (0..5).map(|i| format!("password_{}", i)).collect();
    for i in 0..5 {
        assert_eq!(keychain.delete_password("svc", &accounts[i]).unwrap(), false);
    }
    for i in 0..5 {
        keychain.set_password("svc", &accounts[i], &passwords[i], None).unwrap();
    }
    for i in (0..5).rev() {
        assert_eq!(keychain.get_password("svc", &accounts[i]).unwrap(), Some(passwords[i].clone()));
        assert!(keychain.delete_password("svc", &accounts[i]).unwrap());
        for j in 0..i {
            assert_eq!(keychain.get_password("svc", &accounts[j]).unwrap(), Some(passwords[j].clone()));
        }
    }
    assert_eq!(keychain.find_entries(None).unwrap().len(), 0);
}

#[test]
fn shared_store_round_trip_and_prefix_search() {
    let keychain = SharedKeychain::new();
    keychain.set_password("s", "app_1", "secret1", None).unwrap();
    keychain.set_password("s", "app_1", "secret2", None).unwrap();
    keychain.set_password("s", "other", "x", None).unwrap();
    assert_eq!(keychain.get_password("s", "app_1").unwrap(), Some("secret2".to_string()));
    let query = FindQuery {
        account_prefix: Some("app_".to_string()),
        environment: None,
        team_id: None,
        access_group: None,
    };
    assert_eq!(keychain.find_entries(Some(query)).unwrap().len(), 1);
    assert_eq!(keychain.get_entry("s", "other").unwrap().unwrap().password, "x");
}
