use oauth2_mock::credentials::{
    link_access_token_with_user, make_uuids_per_key, CredentialIssuer,
};
use oauth2_mock::configuration::{RegisteredUsers, User};

fn user(login: &str, description: &str) -> User {
    User {
        login: login.to_string(),
        description: description.to_string(),
        user_info: vec![("login".to_string(), login.to_lowercase())],
    }
}

fn sample_directory() -> RegisteredUsers {
    RegisteredUsers::new(&vec![
        user("Admin", "Administrator of system"),
        user("Manager", "Manager works with orders"),
    ])
}

#[test]
fn uuids_per_key_preserve_keys() {
    let keys = vec!["Admin".to_string(), "Manager".to_string()];
    let table = make_uuids_per_key(&keys);
    assert_eq!(table.len(), 2);
    assert_eq!(table[0].0, "Admin");
    assert_eq!(table[1].0, "Manager");
    // The generated values are canonical hyphenated identifiers, not
    // echoes of the keys.
    assert_eq!(table[0].1.len(), 36);
    assert_eq!(table[1].1.len(), 36);
    assert_ne!(table[0].1, table[0].0);
    assert_ne!(table[0].1, table[1].1);
}

#[test]
fn link_resolves_tokens_and_records() {
    let directory = sample_directory();
    let codes = vec![
        ("Admin".to_string(), "c1".to_string()),
        ("Manager".to_string(), "c2".to_string()),
    ];
    let tokens = vec![
        ("c1".to_string(), "t1".to_string()),
        ("c2".to_string(), "t2".to_string()),
    ];
    let linked = link_access_token_with_user(&directory, &codes, &tokens);
    assert_eq!(linked.len(), 2);
    assert_eq!(linked[0].0, "t1");
    assert_eq!(linked[0].1.login, "Admin");
    assert_eq!(linked[1].0, "t2");
    assert_eq!(linked[1].1.login, "Manager");
}

#[test]
fn credentials_round_trip() {
    let directory = sample_directory();
    let issuer = CredentialIssuer::new(&directory);

    for login in ["Admin", "Manager"] {
        let login = login.to_string();
        let code = issuer.code_for(&login).unwrap();
        let access_token = issuer.access_token_for(&code).unwrap();
        let refresh_token = issuer.refresh_token_for(&access_token).unwrap();
        let record = issuer.user_for(&access_token).unwrap();

        assert_eq!(record.login, login);
        let stored = directory.load(&login);
        assert_eq!(record.description, stored.description);
        assert_eq!(record.user_info, stored.user_info);
        assert_eq!(refresh_token.len(), 36);
    }
}

#[test]
fn identifiers_do_not_collide_across_users() {
    let directory = sample_directory();
    let issuer = CredentialIssuer::new(&directory);
    assert!(issuer.is_collision_free());

    let admin = "Admin".to_string();
    let manager = "Manager".to_string();
    let admin_code = issuer.code_for(&admin).unwrap();
    let manager_code = issuer.code_for(&manager).unwrap();
    let admin_token = issuer.access_token_for(&admin_code).unwrap();
    let manager_token = issuer.access_token_for(&manager_code).unwrap();
    let admin_refresh = issuer.refresh_token_for(&admin_token).unwrap();
    let manager_refresh = issuer.refresh_token_for(&manager_token).unwrap();

    let all = [
        admin.as_str(),
        manager.as_str(),
        admin_code.as_str(),
        manager_code.as_str(),
        admin_token.as_str(),
        manager_token.as_str(),
        admin_refresh.as_str(),
        manager_refresh.as_str(),
    ];
    for i in 0..all.len() {
        for j in (i + 1)..all.len() {
            assert_ne!(all[i], all[j]);
        }
    }
}

#[test]
fn unknown_keys_resolve_to_nothing() {
    let directory = sample_directory();
    let issuer = CredentialIssuer::new(&directory);

    assert!(issuer.code_for(&"ghost".to_string()).is_none());
    assert!(issuer.access_token_for(&"no-such-code".to_string()).is_none());
    assert!(issuer.refresh_token_for(&"no-such-token".to_string()).is_none());
    assert!(issuer.user_for(&"no-such-token".to_string()).is_none());
}
