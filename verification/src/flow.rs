//! The flow validator: the three protocol operations — authorize,
//! token exchange and userinfo — as pure validation and lookup against
//! the user directory and the issued credentials.

use vstd::prelude::*;
use vstd::string::StringExecFns;

use crate::configuration::{
    distinct_logins, has_login, user_views, ApplicationConfiguration, RegisteredUsers,
};
use crate::credentials::{
    lemma_known_login_has_code, lemma_redeemed_token_has_refresh, pair_views, CredentialIssuer,
};
use crate::urls::{url_appended, url_append_pair, url_is_valid, url_ok};

verus! {

/// The decoded query parameters of an authorize request.
pub struct AuthorizationCodeRequest {
    pub response_type: String,
    pub client_id: String,
    pub redirect_uri: String,
    pub scope: Option<String>,
    pub state: Option<String>,
    pub login: Option<String>,
}

/// The mathematical value of an [`AuthorizationCodeRequest`].
pub struct AuthorizationCodeRequestView {
    pub response_type: Seq<char>,
    pub client_id: Seq<char>,
    pub redirect_uri: Seq<char>,
    pub scope: Option<Seq<char>>,
    pub state: Option<Seq<char>>,
    pub login: Option<Seq<char>>,
}

impl View for AuthorizationCodeRequest {
    type V = AuthorizationCodeRequestView;

    open spec fn view(&self) -> AuthorizationCodeRequestView {
        AuthorizationCodeRequestView {
            response_type: self.response_type@,
            client_id: self.client_id@,
            redirect_uri: self.redirect_uri@,
            scope: match self.scope {
                Some(s) => Some(s@),
                None => None,
            },
            state: match self.state {
                Some(s) => Some(s@),
                None => None,
            },
            login: match self.login {
                Some(s) => Some(s@),
                None => None,
            },
        }
    }
}

/// What the authorize operation decides: either a direct bad-request
/// answer (no trustworthy redirect target exists), or a redirect to
/// the validated target; on success the redirect body is empty.
pub enum AuthorizeOutcome {
    BadRequest { message: String },
    Redirect { location: String, message: String },
}

/// The mathematical value of an [`AuthorizeOutcome`].
pub enum AuthorizeOutcomeView {
    BadRequest { message: Seq<char> },
    Redirect { location: Seq<char>, message: Seq<char> },
}

impl View for AuthorizeOutcome {
    type V = AuthorizeOutcomeView;

    open spec fn view(&self) -> AuthorizeOutcomeView {
        match self {
            AuthorizeOutcome::BadRequest { message } => AuthorizeOutcomeView::BadRequest {
                message: message@,
            },
            AuthorizeOutcome::Redirect { location, message } => AuthorizeOutcomeView::Redirect {
                location: location@,
                message: message@,
            },
        }
    }
}

/// The decoded form fields of a token request.
pub struct AccessTokenRequest {
    pub grant_type: String,
    pub code: String,
    pub redirect_uri: Option<String>,
    pub client_id: Option<String>,
}

/// The success body of the token operation. `expires_in` is nominal:
/// no expiry is tracked or enforced.
pub struct AccessTokenResponse {
    pub access_token: String,
    pub token_type: String,
    pub expires_in: i64,
    pub refresh_token: String,
}

/// The error body of the token operation, answered with a bad-request
/// status.
pub struct AccessTokenError {
    pub error: String,
}

/// What the token operation decides.
pub enum TokenOutcome {
    Success(AccessTokenResponse),
    Error(AccessTokenError),
}

/// The mathematical value of an [`AccessTokenResponse`].
pub struct AccessTokenResponseView {
    pub access_token: Seq<char>,
    pub token_type: Seq<char>,
    pub expires_in: int,
    pub refresh_token: Seq<char>,
}

/// The mathematical value of a [`TokenOutcome`].
pub enum TokenOutcomeView {
    Success(AccessTokenResponseView),
    Error(Seq<char>),
}

impl View for TokenOutcome {
    type V = TokenOutcomeView;

    open spec fn view(&self) -> TokenOutcomeView {
        match self {
            TokenOutcome::Success(body) => TokenOutcomeView::Success(
                AccessTokenResponseView {
                    access_token: body.access_token@,
                    token_type: body.token_type@,
                    expires_in: body.expires_in as int,
                    refresh_token: body.refresh_token@,
                },
            ),
            TokenOutcome::Error(body) => TokenOutcomeView::Error(body.error@),
        }
    }
}

/// The `Authorization` header as the HTTP layer hands it over: absent,
/// present but not valid text, or its text.
pub enum AuthorizationHeader {
    Absent,
    NotText,
    Text(String),
}

/// The mathematical value of an [`AuthorizationHeader`].
pub enum AuthorizationHeaderView {
    Absent,
    NotText,
    Text(Seq<char>),
}

impl View for AuthorizationHeader {
    type V = AuthorizationHeaderView;

    open spec fn view(&self) -> AuthorizationHeaderView {
        match self {
            AuthorizationHeader::Absent => AuthorizationHeaderView::Absent,
            AuthorizationHeader::NotText => AuthorizationHeaderView::NotText,
            AuthorizationHeader::Text(h) => AuthorizationHeaderView::Text(h@),
        }
    }
}

/// What the userinfo operation decides: a malformed call, bad
/// credentials, or the identified user's claims.
pub enum UserInfoOutcome {
    BadRequest { message: String },
    Unauthorized { message: String },
    Success { user_info: Vec<(String, String)> },
}

/// The mathematical value of a [`UserInfoOutcome`].
pub enum UserInfoOutcomeView {
    BadRequest { message: Seq<char> },
    Unauthorized { message: Seq<char> },
    Success { user_info: Seq<(Seq<char>, Seq<char>)> },
}

impl View for UserInfoOutcome {
    type V = UserInfoOutcomeView;

    open spec fn view(&self) -> UserInfoOutcomeView {
        match self {
            UserInfoOutcome::BadRequest { message } => UserInfoOutcomeView::BadRequest {
                message: message@,
            },
            UserInfoOutcome::Unauthorized { message } => UserInfoOutcomeView::Unauthorized {
                message: message@,
            },
            UserInfoOutcome::Success { user_info } => UserInfoOutcomeView::Success {
                user_info: pair_views(user_info@),
            },
        }
    }
}

/// Everything a request handler consults: the directory, the issued
/// credentials, and the configured header prefix. Built once at
/// startup, never mutated afterwards.
pub struct AppState {
    pub users: RegisteredUsers,
    pub issuer: CredentialIssuer,
    pub authorization_header_prefix: String,
}

impl AppState {
    /// The directory's logins are unique and the issuer covers exactly
    /// the directory.
    pub open spec fn wf(&self) -> bool {
        &&& self.users.wf()
        &&& self.issuer.derived_from(self.users)
    }

    /// Build the whole request-handling state from the configuration:
    /// the directory, and one credential set per login.
    pub fn new(app_config: &ApplicationConfiguration) -> (r: Self)
        requires
            distinct_logins(user_views(app_config.users@)),
        ensures
            r.wf(),
            r.users@ == user_views(app_config.users@),
            r.authorization_header_prefix@
                == app_config.oauth2.authorization_header_prefix@,
    {
        let users = RegisteredUsers::new(&app_config.users);
        let issuer = CredentialIssuer::new(&users);
        AppState {
            users,
            issuer,
            authorization_header_prefix: app_config.oauth2.authorization_header_prefix.clone(),
        }
    }
}

/// The login parameter's text, or the empty text when it is absent.
pub open spec fn login_or_empty(login: Option<Seq<char>>) -> Seq<char> {
    match login {
        Some(l) => l,
        None => Seq::empty(),
    }
}

/// The authorize state machine. Until the redirect target is
/// validated, failures are direct bad-request answers; from then on
/// every failure is a redirect that carries an `error` query
/// parameter; on success the redirect carries the login's code and,
/// when one was supplied, the unchanged `state`.
pub open spec fn spec_authorize(
    state: AppState,
    req: AuthorizationCodeRequestView,
) -> AuthorizeOutcomeView {
    if req.client_id.len() == 0 {
        AuthorizeOutcomeView::BadRequest {
            message: "client_id is required and can't be empty string"@,
        }
    } else if req.redirect_uri.len() == 0 {
        AuthorizeOutcomeView::BadRequest {
            message: "redirect_uri is required and can't be empty string"@,
        }
    } else if !url_ok(req.redirect_uri) {
        AuthorizeOutcomeView::BadRequest {
            message: "Invalid redirect_uri: "@ + req.redirect_uri
                + ". Redirect URLs must be valid URLs."@,
        }
    } else if req.response_type != "code"@ {
        AuthorizeOutcomeView::Redirect {
            location: req.redirect_uri + "?error=unsupported_response_type"@,
            message: "Invalid response_type: "@ + req.response_type + ". Only code is allowed"@,
        }
    } else if login_or_empty(req.login).len() == 0 {
        AuthorizeOutcomeView::Redirect {
            location: req.redirect_uri + "?error=invalid_request"@,
            message: "login is required and can't be empty string"@,
        }
    } else if !has_login(state.users@, req.login.unwrap()) {
        AuthorizeOutcomeView::Redirect {
            location: req.redirect_uri + "?error=access_denied"@,
            message: "User "@ + req.login.unwrap() + " not found"@,
        }
    } else {
        let code = state.issuer.spec_code_for(req.login.unwrap()).unwrap();
        let with_code = url_appended(req.redirect_uri, "code"@, code);
        let location = match req.state {
            Some(st) => url_appended(with_code, "state"@, st),
            None => with_code,
        };
        AuthorizeOutcomeView::Redirect { location, message: Seq::empty() }
    }
}

/// The authorize operation: validate the request and answer with a
/// direct error or a redirect, as [`spec_authorize`] states.
pub fn authorize(state: &AppState, params: &AuthorizationCodeRequest) -> (r: AuthorizeOutcome)
    requires
        state.wf(),
    ensures
        r@ == spec_authorize(*state, params@),
{
    if params.client_id.as_str().is_empty() {
        return AuthorizeOutcome::BadRequest {
            message: String::from_str("client_id is required and can't be empty string"),
        };
    }
    if params.redirect_uri.as_str().is_empty() {
        return AuthorizeOutcome::BadRequest {
            message: String::from_str("redirect_uri is required and can't be empty string"),
        };
    }
    if !url_is_valid(&params.redirect_uri) {
        return AuthorizeOutcome::BadRequest {
            message: String::from_str("Invalid redirect_uri: ").concat(
                params.redirect_uri.as_str(),
            ).concat(". Redirect URLs must be valid URLs."),
        };
    }
    if !(params.response_type == String::from_str("code")) {
        return AuthorizeOutcome::Redirect {
            location: params.redirect_uri.clone().concat("?error=unsupported_response_type"),
            message: String::from_str("Invalid response_type: ").concat(
                params.response_type.as_str(),
            ).concat(". Only code is allowed"),
        };
    }
    let login = match &params.login {
        Some(l) => {
            if l.as_str().is_empty() {
                return AuthorizeOutcome::Redirect {
                    location: params.redirect_uri.clone().concat("?error=invalid_request"),
                    message: String::from_str("login is required and can't be empty string"),
                };
            }
            l
        },
        None => {
            return AuthorizeOutcome::Redirect {
                location: params.redirect_uri.clone().concat("?error=invalid_request"),
                message: String::from_str("login is required and can't be empty string"),
            };
        },
    };
    if !state.users.contains_login(login) {
        return AuthorizeOutcome::Redirect {
            location: params.redirect_uri.clone().concat("?error=access_denied"),
            message: String::from_str("User ").concat(login.as_str()).concat(" not found"),
        };
    }
    proof {
        lemma_known_login_has_code(state.issuer, state.users, login@);
    }
    let code = state.issuer.code_for(login).unwrap();
    let with_code = url_append_pair(&params.redirect_uri, "code", &code);
    let location = match &params.state {
        Some(st) => url_append_pair(&with_code, "state", st),
        None => with_code,
    };
    AuthorizeOutcome::Redirect { location, message: String::new() }
}

/// The token-exchange state machine: only the authorization-code grant
/// is supported, an unknown code is an invalid grant, and a known code
/// redeems for its access token, the bearer token type, a nominal
/// expiry and the matching refresh token.
pub open spec fn spec_access_token(state: AppState, req: AccessTokenRequest) -> TokenOutcomeView {
    if req.grant_type@ != "authorization_code"@ {
        TokenOutcomeView::Error("unsupported_grant_type"@)
    } else {
        match state.issuer.spec_access_token_for(req.code@) {
            None => TokenOutcomeView::Error("invalid_grant"@),
            Some(t) => TokenOutcomeView::Success(
                AccessTokenResponseView {
                    access_token: t,
                    token_type: "bearer"@,
                    expires_in: 3600,
                    refresh_token: state.issuer.spec_refresh_token_for(t).unwrap(),
                },
            ),
        }
    }
}

/// The error answer of the token operation, to be rendered as a JSON
/// body with a bad-request status.
pub fn access_token_error(error: &str) -> (r: TokenOutcome)
    ensures
        r@ == TokenOutcomeView::Error(error@),
{
    TokenOutcome::Error(AccessTokenError { error: error.to_owned() })
}

/// The token operation: exchange an authorization code for the issued
/// tokens, as [`spec_access_token`] states.
pub fn access_token(state: &AppState, token_request: &AccessTokenRequest) -> (r: TokenOutcome)
    requires
        state.wf(),
    ensures
        r@ == spec_access_token(*state, *token_request),
{
    if !(token_request.grant_type == String::from_str("authorization_code")) {
        return access_token_error("unsupported_grant_type");
    }
    match state.issuer.access_token_for(&token_request.code) {
        None => access_token_error("invalid_grant"),
        Some(token) => {
            proof {
                lemma_redeemed_token_has_refresh(state.issuer, token_request.code@);
            }
            let refresh_token = state.issuer.refresh_token_for(&token).unwrap();
            TokenOutcome::Success(
                AccessTokenResponse {
                    access_token: token,
                    token_type: String::from_str("bearer"),
                    expires_in: 3600,
                    refresh_token,
                },
            )
        },
    }
}

/// Split a text into the given prefix and the rest, when it starts
/// with the prefix.
fn strip_prefix_string(s: &String, prefix: &String) -> (r: Option<String>)
    ensures
        match r {
            Some(t) => s@.len() >= prefix@.len() && s@.subrange(0, prefix@.len() as int)
                == prefix@ && t@ == s@.skip(prefix@.len() as int),
            None => !(s@.len() >= prefix@.len() && s@.subrange(0, prefix@.len() as int)
                == prefix@),
        },
{
    let s_len = s.as_str().unicode_len();
    let p_len = prefix.as_str().unicode_len();
    if s_len < p_len {
        return None;
    }
    let head = s.as_str().substring_char(0, p_len);
    if String::from_str(head) == *prefix {
        let tail = s.as_str().substring_char(p_len, s_len);
        proof {
            assert(s@.subrange(p_len as int, s_len as int) =~= s@.skip(p_len as int));
        }
        Some(tail.to_owned())
    } else {
        None
    }
}

/// The userinfo state machine: a missing or unreadable header and a
/// wrong prefix are malformed calls; an unknown bearer token is
/// unauthorized; a known one answers with its user's claims.
pub open spec fn spec_userinfo(
    state: AppState,
    header: AuthorizationHeaderView,
) -> UserInfoOutcomeView {
    match header {
        AuthorizationHeaderView::Absent => UserInfoOutcomeView::BadRequest {
            message: "Require authorization header"@,
        },
        AuthorizationHeaderView::NotText => UserInfoOutcomeView::BadRequest {
            message: "Invalid authorization header format (contains non-ASCII symbols)"@,
        },
        AuthorizationHeaderView::Text(h) => {
            let prefix = state.authorization_header_prefix@ + " "@;
            if !(h.len() >= prefix.len() && h.subrange(0, prefix.len() as int) == prefix) {
                UserInfoOutcomeView::BadRequest {
                    message: "Authorization header must start with '"@ + prefix + "'"@,
                }
            } else {
                match state.issuer.spec_user_for(h.skip(prefix.len() as int)) {
                    None => UserInfoOutcomeView::Unauthorized { message: "Invalid token"@ },
                    Some(u) => UserInfoOutcomeView::Success { user_info: u.user_info },
                }
            }
        },
    }
}

/// The userinfo operation: identify the bearer of the access token in
/// the `Authorization` header, as [`spec_userinfo`] states.
pub fn userinfo(state: &AppState, header: &AuthorizationHeader) -> (r: UserInfoOutcome)
    requires
        state.wf(),
    ensures
        r@ == spec_userinfo(*state, header@),
{
    match header {
        AuthorizationHeader::Absent => UserInfoOutcome::BadRequest {
            message: String::from_str("Require authorization header"),
        },
        AuthorizationHeader::NotText => UserInfoOutcome::BadRequest {
            message: String::from_str(
                "Invalid authorization header format (contains non-ASCII symbols)",
            ),
        },
        AuthorizationHeader::Text(h) => {
            let prefix = state.authorization_header_prefix.clone().concat(" ");
            match strip_prefix_string(h, &prefix) {
                None => UserInfoOutcome::BadRequest {
                    message: String::from_str("Authorization header must start with '").concat(
                        prefix.as_str(),
                    ).concat("'"),
                },
                Some(token) => {
                    match state.issuer.user_for(&token) {
                        None => UserInfoOutcome::Unauthorized {
                            message: String::from_str("Invalid token"),
                        },
                        Some(u) => {
                            proof {
                                assert(pair_views(u.user_info@) =~= u@.user_info);
                            }
                            UserInfoOutcome::Success { user_info: u.user_info }
                        },
                    }
                },
            }
        },
    }
}

} // verus!
