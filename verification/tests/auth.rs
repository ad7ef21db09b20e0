use gavin::auth::{
    dev_user, AuthClient, AuthorizationRequest, CallbackStep, MeResponse, SessionData, User,
};
use gavin::config::AuthMode;
use gavin::error::AppError;

fn request() -> AuthorizationRequest {
    AuthorizationRequest {
        url: "https://issuer.example/auth?state=s1".to_string(),
        state: "s1".to_string(),
        nonce: "n1".to_string(),
    }
}

#[test]
fn test_dev_user() {
    let user = dev_user();
    assert_eq!(user.subject, "dev-admin");
    assert_eq!(user.email, Some("dev@localhost".to_string()));
    assert_eq!(user.name, Some("Development Admin".to_string()));
}

#[test]
fn test_dev_auth_requires_login() {
    let auth_client = AuthClient::Dev;
    let mut session = SessionData::new();

    assert!(auth_client.current_user(&session).is_none());

    auth_client.authorize_url(&mut session, request());
    let user = auth_client.current_user(&session).unwrap();
    assert_eq!(user.subject, "dev-admin");

    auth_client.logout(&mut session);
    assert!(auth_client.current_user(&session).is_none());
}

#[test]
fn test_oidc_ignores_dev_login_marker() {
    let auth_client = AuthClient::Oidc;
    let mut session = SessionData::new();

    session.dev_authenticated = Some(true);
    session.user = Some(dev_user());

    assert!(auth_client.current_user(&session).is_none());
}

#[test]
fn client_follows_auth_mode() {
    assert_eq!(AuthClient::new(AuthMode::Dev), AuthClient::Dev);
    assert_eq!(AuthClient::new(AuthMode::Oidc), AuthClient::Oidc);
}

#[test]
fn dev_login_redirects_home() {
    let mut session = SessionData::new();
    let url = AuthClient::Dev.authorize_url(&mut session, request());
    assert_eq!(url, "/");
    assert_eq!(session.dev_authenticated, Some(true));
}

#[test]
fn oidc_login_round_trip() {
    let client = AuthClient::Oidc;
    let mut session = SessionData::new();

    let url = client.authorize_url(&mut session, request());
    assert_eq!(url, "https://issuer.example/auth?state=s1");
    assert!(client.current_user(&session).is_none());

    let nonce = match client.begin_callback(&mut session, "s1") {
        Ok(CallbackStep::ExchangeCode { nonce }) => nonce,
        other => panic!("unexpected callback step: {:?}", other),
    };
    assert_eq!(nonce, "n1");

    let user = User {
        subject: "alice".to_string(),
        email: Some("alice@example.com".to_string()),
        name: None,
    };
    let done = client.complete_callback(&mut session, user);
    assert_eq!(done.subject, "alice");
    assert_eq!(session.oauth_state, None);
    assert_eq!(session.oauth_nonce, None);
    assert_eq!(client.current_user(&session).unwrap().subject, "alice");
    assert_eq!(client.require_user(&session).unwrap().email.as_deref(), Some("alice@example.com"));

    client.logout(&mut session);
    assert!(client.current_user(&session).is_none());
    assert!(session.user.is_none());
}

#[test]
fn oidc_callback_refuses_wrong_or_missing_state() {
    let client = AuthClient::Oidc;
    let mut session = SessionData::new();
    match client.begin_callback(&mut session, "s1") {
        Err(AppError::Oidc(m)) => assert_eq!(m, "No state found in session"),
        other => panic!("unexpected: {:?}", other),
    }

    client.authorize_url(&mut session, request());
    match client.begin_callback(&mut session, "forged") {
        Err(AppError::Oidc(m)) => assert_eq!(m, "State mismatch"),
        other => panic!("unexpected: {:?}", other),
    }

    session.oauth_nonce = None;
    match client.begin_callback(&mut session, "s1") {
        Err(AppError::Oidc(m)) => assert_eq!(m, "No nonce found in session"),
        other => panic!("unexpected: {:?}", other),
    }
}

#[test]
fn dev_callback_logs_in() {
    let mut session = SessionData::new();
    match AuthClient::Dev.begin_callback(&mut session, "anything") {
        Ok(CallbackStep::Authenticated(u)) => assert_eq!(u.subject, "dev-admin"),
        other => panic!("unexpected: {:?}", other),
    }
    assert!(AuthClient::Dev.current_user(&session).is_some());
}

#[test]
fn require_user_is_unauthorized_without_login() {
    let session = SessionData::new();
    assert!(matches!(AuthClient::Dev.require_user(&session), Err(AppError::Unauthorized)));
    assert!(matches!(AuthClient::Oidc.require_user(&session), Err(AppError::Unauthorized)));
}

#[test]
fn me_response_describes_the_user() {
    let me = MeResponse::from_user(Some(dev_user()));
    assert!(me.authenticated);
    assert_eq!(me.subject.as_deref(), Some("dev-admin"));
    assert_eq!(me.name.as_deref(), Some("Development Admin"));

    let anonymous = MeResponse::from_user(None);
    assert!(!anonymous.authenticated);
    assert!(anonymous.subject.is_none() && anonymous.email.is_none() && anonymous.name.is_none());
}
