use oauth2_mock::configuration::{
    ApplicationConfiguration, OAuth2Configuration, ServerConfiguration, User,
};
use oauth2_mock::flow::{
    access_token, access_token_error, authorize, userinfo, AccessTokenRequest, AppState,
    AuthorizationCodeRequest, AuthorizationHeader, AuthorizeOutcome, TokenOutcome,
    UserInfoOutcome,
};

const REDIRECT_URI: &str = "http://example.com/callback";

fn admin_claims() -> Vec<(String, String)> {
    vec![
        ("login".to_string(), "admin".to_string()),
        ("id".to_string(), "1".to_string()),
        ("first_name".to_string(), "Michael".to_string()),
        ("last_name".to_string(), "Johnson".to_string()),
        ("display_name".to_string(), "Admin MJ".to_string()),
        ("default_email".to_string(), "admin@company.com".to_string()),
    ]
}

fn sample_state() -> AppState {
    let config = ApplicationConfiguration {
        server: ServerConfiguration { host: "127.0.0.1".to_string(), port: 3000 },
        oauth2: OAuth2Configuration { authorization_header_prefix: "Bearer".to_string() },
        users: vec![
            User {
                login: "Admin".to_string(),
                description: "Administrator of system".to_string(),
                user_info: admin_claims(),
            },
            User {
                login: "Manager".to_string(),
                description: "Manager works with orders".to_string(),
                user_info: vec![
                    ("login".to_string(), "admin".to_string()),
                    ("id".to_string(), "2".to_string()),
                ],
            },
        ],
    };
    AppState::new(&config)
}

fn request(
    response_type: &str,
    client_id: &str,
    redirect_uri: &str,
    state: Option<&str>,
    login: Option<&str>,
) -> AuthorizationCodeRequest {
    AuthorizationCodeRequest {
        response_type: response_type.to_string(),
        client_id: client_id.to_string(),
        redirect_uri: redirect_uri.to_string(),
        scope: None,
        state: state.map(|s| s.to_string()),
        login: login.map(|s| s.to_string()),
    }
}

#[test]
fn server_address_comes_from_configuration() {
    let config = ApplicationConfiguration {
        server: ServerConfiguration { host: "0.0.0.0".to_string(), port: 8080 },
        oauth2: OAuth2Configuration { authorization_header_prefix: "Bearer".to_string() },
        users: Vec::new(),
    };
    assert_eq!(config.server_address(), ("0.0.0.0".to_string(), 8080));
}

#[test]
fn authorize_rejects_empty_client_id() {
    let state = sample_state();
    let outcome = authorize(&state, &request("code", "", REDIRECT_URI, None, Some("Admin")));
    match outcome {
        AuthorizeOutcome::BadRequest { message } => {
            assert!(message.contains("client_id"));
        }
        other => panic!("expected a direct bad request, got {:?}", describe(&other)),
    }
}

#[test]
fn authorize_rejects_empty_redirect_uri() {
    let state = sample_state();
    let outcome = authorize(&state, &request("code", "test-client", "", None, Some("Admin")));
    match outcome {
        AuthorizeOutcome::BadRequest { message } => {
            assert!(message.contains("redirect_uri"));
        }
        other => panic!("expected a direct bad request, got {:?}", describe(&other)),
    }
}

#[test]
fn authorize_rejects_malformed_redirect_uri() {
    let state = sample_state();
    let outcome = authorize(&state, &request("code", "test-client", "not a url", None, Some("Admin")));
    match outcome {
        AuthorizeOutcome::BadRequest { message } => {
            assert!(message.contains("not a url"));
        }
        other => panic!("expected a direct bad request, got {:?}", describe(&other)),
    }
}

#[test]
fn authorize_redirects_on_wrong_response_type() {
    let state = sample_state();
    let outcome = authorize(&state, &request("token", "test-client", REDIRECT_URI, None, Some("Admin")));
    match outcome {
        AuthorizeOutcome::Redirect { location, .. } => {
            assert_eq!(location, format!("{}?error=unsupported_response_type", REDIRECT_URI));
        }
        other => panic!("expected a redirect, got {:?}", describe(&other)),
    }
}

#[test]
fn authorize_redirects_on_missing_login() {
    let state = sample_state();
    for login in [None, Some("")] {
        let outcome = authorize(&state, &request("code", "test-client", REDIRECT_URI, None, login));
        match outcome {
            AuthorizeOutcome::Redirect { location, .. } => {
                assert_eq!(location, format!("{}?error=invalid_request", REDIRECT_URI));
            }
            other => panic!("expected a redirect, got {:?}", describe(&other)),
        }
    }
}

#[test]
fn authorize_redirects_on_unknown_login() {
    let state = sample_state();
    let outcome = authorize(&state, &request("code", "test-client", REDIRECT_URI, None, Some("ghost")));
    match outcome {
        AuthorizeOutcome::Redirect { location, message } => {
            assert_eq!(location, format!("{}?error=access_denied", REDIRECT_URI));
            assert!(message.contains("ghost"));
        }
        other => panic!("expected a redirect, got {:?}", describe(&other)),
    }
}

#[test]
fn authorize_issues_code_and_keeps_state() {
    let state = sample_state();
    let code = state.issuer.code_for(&"Admin".to_string()).unwrap();
    let outcome = authorize(
        &state,
        &request("code", "test-client", REDIRECT_URI, Some("xyz"), Some("Admin")),
    );
    match outcome {
        AuthorizeOutcome::Redirect { location, message } => {
            assert_eq!(location, format!("{}?code={}&state=xyz", REDIRECT_URI, code));
            assert_eq!(message, "");
        }
        other => panic!("expected a redirect, got {:?}", describe(&other)),
    }
}

#[test]
fn authorize_percent_encodes_appended_parameters() {
    let state = sample_state();
    let code = state.issuer.code_for(&"Admin".to_string()).unwrap();
    let outcome = authorize(
        &state,
        &request("code", "test-client", REDIRECT_URI, Some("x y"), Some("Admin")),
    );
    match outcome {
        AuthorizeOutcome::Redirect { location, .. } => {
            assert_eq!(location, format!("{}?code={}&state=x+y", REDIRECT_URI, code));
        }
        other => panic!("expected a redirect, got {:?}", describe(&other)),
    }
}

#[test]
fn token_exchange_redeems_issued_code() {
    let state = sample_state();
    let code = state.issuer.code_for(&"Admin".to_string()).unwrap();
    let expected_token = state.issuer.access_token_for(&code).unwrap();
    let expected_refresh = state.issuer.refresh_token_for(&expected_token).unwrap();

    let outcome = access_token(
        &state,
        &AccessTokenRequest {
            grant_type: "authorization_code".to_string(),
            code,
            redirect_uri: None,
            client_id: None,
        },
    );
    match outcome {
        TokenOutcome::Success(body) => {
            assert_eq!(body.access_token, expected_token);
            assert_eq!(body.token_type, "bearer");
            assert_eq!(body.expires_in, 3600);
            assert_eq!(body.refresh_token, expected_refresh);
        }
        TokenOutcome::Error(body) => panic!("expected success, got error {}", body.error),
    }
}

#[test]
fn token_exchange_rejects_unknown_code() {
    let state = sample_state();
    let outcome = access_token(
        &state,
        &AccessTokenRequest {
            grant_type: "authorization_code".to_string(),
            code: "no-such-code".to_string(),
            redirect_uri: None,
            client_id: None,
        },
    );
    match outcome {
        TokenOutcome::Error(body) => assert_eq!(body.error, "invalid_grant"),
        TokenOutcome::Success(_) => panic!("expected an error"),
    }
}

#[test]
fn token_exchange_rejects_unknown_grant_type() {
    let state = sample_state();
    let outcome = access_token(
        &state,
        &AccessTokenRequest {
            grant_type: "client_credentials".to_string(),
            code: "whatever".to_string(),
            redirect_uri: None,
            client_id: None,
        },
    );
    match outcome {
        TokenOutcome::Error(body) => assert_eq!(body.error, "unsupported_grant_type"),
        TokenOutcome::Success(_) => panic!("expected an error"),
    }
}

#[test]
fn token_error_carries_its_text() {
    match access_token_error("invalid_grant") {
        TokenOutcome::Error(body) => assert_eq!(body.error, "invalid_grant"),
        TokenOutcome::Success(_) => panic!("expected an error"),
    }
}

#[test]
fn userinfo_returns_claims_for_issued_token() {
    let state = sample_state();
    let code = state.issuer.code_for(&"Admin".to_string()).unwrap();
    let token = state.issuer.access_token_for(&code).unwrap();

    let header = AuthorizationHeader::Text(format!("Bearer {}", token));
    match userinfo(&state, &header) {
        UserInfoOutcome::Success { user_info } => assert_eq!(user_info, admin_claims()),
        UserInfoOutcome::BadRequest { message } => panic!("bad request: {}", message),
        UserInfoOutcome::Unauthorized { message } => panic!("unauthorized: {}", message),
    }
}

#[test]
fn userinfo_rejects_unknown_token() {
    let state = sample_state();
    let header = AuthorizationHeader::Text(
        "Bearer 00000000-0000-4000-8000-000000000000".to_string(),
    );
    match userinfo(&state, &header) {
        UserInfoOutcome::Unauthorized { message } => assert_eq!(message, "Invalid token"),
        _ => panic!("expected unauthorized"),
    }
}

#[test]
fn userinfo_requires_the_header() {
    let state = sample_state();
    match userinfo(&state, &AuthorizationHeader::Absent) {
        UserInfoOutcome::BadRequest { message } => {
            assert_eq!(message, "Require authorization header");
        }
        _ => panic!("expected a bad request"),
    }
}

#[test]
fn userinfo_rejects_unreadable_header() {
    let state = sample_state();
    match userinfo(&state, &AuthorizationHeader::NotText) {
        UserInfoOutcome::BadRequest { message } => {
            assert!(message.contains("non-ASCII"));
        }
        _ => panic!("expected a bad request"),
    }
}

#[test]
fn userinfo_rejects_wrong_prefix() {
    let state = sample_state();
    let code = state.issuer.code_for(&"Admin".to_string()).unwrap();
    let token = state.issuer.access_token_for(&code).unwrap();

    let header = AuthorizationHeader::Text(format!("Token {}", token));
    match userinfo(&state, &header) {
        UserInfoOutcome::BadRequest { message } => {
            assert!(message.contains("Bearer "));
        }
        _ => panic!("expected a bad request"),
    }
}

fn describe(outcome: &AuthorizeOutcome) -> String {
    match outcome {
        AuthorizeOutcome::BadRequest { message } => format!("bad request: {}", message),
        AuthorizeOutcome::Redirect { location, message } => {
            format!("redirect to {}: {}", location, message)
        }
    }
}
