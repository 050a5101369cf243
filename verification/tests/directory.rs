use oauth2_mock::configuration::{ConfigurationError, RegisteredUsers, User};

/// The embedded sample configuration, as the configuration file ships
/// it: two users with their claims.
const SAMPLE_CONFIG: &str = r#"{
  "server": { "host": "127.0.0.1", "port": 3000 },
  "oauth2": { "authorization_header_prefix": "Bearer" },
  "users": [
    {
      "login": "Admin",
      "description": "Administrator of system",
      "userInfo": {
        "login": "admin",
        "id": "1",
        "first_name": "Michael",
        "last_name": "Johnson",
        "display_name": "Admin MJ",
        "default_email": "admin@company.com"
      }
    },
    {
      "login": "Manager",
      "description": "Manager works with orders",
      "userInfo": {
        "login": "admin",
        "id": "2",
        "first_name": "Sarah",
        "last_name": "Davis",
        "display_name": "Manager SD",
        "default_email": "manager@company.com"
      }
    }
  ]
}"#;

fn users_from_json(json: &str) -> Vec<User> {
    let value: serde_json::Value = serde_json::from_str(json).unwrap();
    let mut users = Vec::new();
    for entry in value.get("users").unwrap().as_array().unwrap() {
        let mut user_info = Vec::new();
        for (k, v) in entry.get("userInfo").unwrap().as_object().unwrap() {
            user_info.push((k.clone(), v.as_str().unwrap().to_string()));
        }
        users.push(User {
            login: entry.get("login").unwrap().as_str().unwrap().to_string(),
            description: entry.get("description").unwrap().as_str().unwrap().to_string(),
            user_info,
        });
    }
    users
}

fn claim<'a>(user: &'a User, name: &str) -> &'a str {
    for (k, v) in &user.user_info {
        if k == name {
            return v;
        }
    }
    panic!("claim {} not found", name);
}

#[test]
fn parse_config() {
    let users = users_from_json(SAMPLE_CONFIG);
    let user_config = RegisteredUsers::new(&users);

    assert_eq!(user_config.logins().len(), 2);
    let admin = user_config.find(&"Admin".to_string()).unwrap();
    assert_eq!(admin.login, "Admin");
    assert_eq!(admin.description, "Administrator of system");

    assert_eq!(claim(admin, "login"), "admin");
    assert_eq!(claim(admin, "id"), "1");
    assert_eq!(claim(admin, "first_name"), "Michael");
    assert_eq!(claim(admin, "last_name"), "Johnson");
    assert_eq!(claim(admin, "display_name"), "Admin MJ");
    assert_eq!(claim(admin, "default_email"), "admin@company.com");

    let manager = user_config.find(&"Manager".to_string()).unwrap();
    assert_eq!(manager.login, "Manager");
    assert_eq!(manager.description, "Manager works with orders");

    assert_eq!(claim(manager, "login"), "admin");
    assert_eq!(claim(manager, "id"), "2");
    assert_eq!(claim(manager, "first_name"), "Sarah");
    assert_eq!(claim(manager, "last_name"), "Davis");
    assert_eq!(claim(manager, "display_name"), "Manager SD");
    assert_eq!(claim(manager, "default_email"), "manager@company.com")
}

#[test]
fn directory_lookups() {
    let users = users_from_json(SAMPLE_CONFIG);
    let directory = RegisteredUsers::new(&users);

    assert!(directory.contains_login(&"Admin".to_string()));
    assert!(directory.contains_login(&"Manager".to_string()));
    assert!(!directory.contains_login(&"ghost".to_string()));
    assert!(directory.find(&"ghost".to_string()).is_none());

    let mut logins = directory.logins();
    logins.sort();
    assert_eq!(logins, vec!["Admin".to_string(), "Manager".to_string()]);

    let loaded = directory.load(&"Manager".to_string());
    assert_eq!(loaded.login, "Manager");

    let all = directory.all();
    assert_eq!(all.len(), 2);
    assert_eq!(all[0].login, "Admin");
    assert_eq!(all[1].login, "Manager");
}

#[test]
fn empty_directory() {
    let directory = RegisteredUsers::new(&Vec::new());
    assert_eq!(directory.logins().len(), 0);
    assert!(!directory.contains_login(&"Admin".to_string()));
    assert_eq!(directory.all().len(), 0);
}

#[test]
fn configuration_error_messages() {
    let missing = ConfigurationError::FileNotFound("config/nonexistent.json".to_string());
    assert_eq!(missing.message(), "File not found: config/nonexistent.json");

    let bad_path = ConfigurationError::CantBuildAbsolutePath("::".to_string());
    assert_eq!(bad_path.message(), "Cant build absolute path: ::");
}
