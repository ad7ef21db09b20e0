//! Authentication decisions for OIDC and development mode.
//!
//! A browser session is modelled by the values stored under its keys
//! ([`SessionData`]); every operation here says how it reads and changes them.
use vstd::prelude::*;

use crate::config::{opt_view, AuthMode};
use crate::error::AppError;
use crate::text::{copy_opt_string, copy_string, owned, str_eq};

verus! {

/// Authenticated user information.
#[derive(Clone, Debug)]
pub struct User {
    pub subject: String,
    pub email: Option<String>,
    pub name: Option<String>,
}

/// The characters of a user's fields.
pub struct UserView {
    pub subject: Seq<char>,
    pub email: Option<Seq<char>>,
    pub name: Option<Seq<char>>,
}

impl View for User {
    type V = UserView;

    open spec fn view(&self) -> UserView {
        UserView { subject: self.subject@, email: opt_view(self.email), name: opt_view(self.name) }
    }
}

/// The view of an optional user.
pub open spec fn opt_user_view(u: Option<User>) -> Option<UserView> {
    match u {
        Some(u) => Some(u@),
        None => None,
    }
}

/// The fixed development-mode administrator.
pub open spec fn dev_user_view() -> UserView {
    UserView {
        subject: "dev-admin"@,
        email: Some("dev@localhost"@),
        name: Some("Development Admin"@),
    }
}

impl User {
    /// A copy of this user.
    pub fn duplicate(&self) -> (r: User)
        ensures
            r@ == self@,
    {
        User {
            subject: copy_string(&self.subject),
            email: copy_opt_string(&self.email),
            name: copy_opt_string(&self.name),
        }
    }
}

/// The development-mode administrator.
pub fn dev_user() -> (r: User)
    ensures
        r@ == dev_user_view(),
{
    User {
        subject: owned("dev-admin"),
        email: Some(owned("dev@localhost")),
        name: Some(owned("Development Admin")),
    }
}

/// The values a browser session holds under the keys that authentication uses.
#[derive(Clone, Debug)]
pub struct SessionData {
    /// `dev_authenticated`: set by a development-mode login.
    pub dev_authenticated: Option<bool>,
    /// `auth_mode`: `oidc` once an OIDC login completed.
    pub auth_mode: Option<String>,
    /// `user`: the user of a completed OIDC login.
    pub user: Option<User>,
    /// `oauth_state`: the CSRF state of a pending OIDC login.
    pub oauth_state: Option<String>,
    /// `oauth_nonce`: the nonce of a pending OIDC login.
    pub oauth_nonce: Option<String>,
}

/// The characters of what a session holds.
pub struct SessionView {
    pub dev_authenticated: Option<bool>,
    pub auth_mode: Option<Seq<char>>,
    pub user: Option<UserView>,
    pub oauth_state: Option<Seq<char>>,
    pub oauth_nonce: Option<Seq<char>>,
}

impl View for SessionData {
    type V = SessionView;

    open spec fn view(&self) -> SessionView {
        SessionView {
            dev_authenticated: self.dev_authenticated,
            auth_mode: opt_view(self.auth_mode),
            user: opt_user_view(self.user),
            oauth_state: opt_view(self.oauth_state),
            oauth_nonce: opt_view(self.oauth_nonce),
        }
    }
}

/// A session that holds nothing.
pub open spec fn empty_session_view() -> SessionView {
    SessionView {
        dev_authenticated: None,
        auth_mode: None,
        user: None,
        oauth_state: None,
        oauth_nonce: None,
    }
}

impl SessionData {
    /// A fresh session that holds nothing.
    pub fn new() -> (r: SessionData)
        ensures
            r@ == empty_session_view(),
    {
        SessionData {
            dev_authenticated: None,
            auth_mode: None,
            user: None,
            oauth_state: None,
            oauth_nonce: None,
        }
    }
}

/// Authentication client: OIDC (production) or development mode.
#[derive(Clone, Copy, Debug, PartialEq, Eq, Structural)]
pub enum AuthClient {
    /// OIDC authentication; the provider calls are made around these decisions.
    Oidc,
    /// Development mode: login enables a local dev-admin session.
    Dev,
}

/// An OIDC authorization request prepared for the provider: the URL to send the browser to,
/// with the CSRF state and nonce that it carries.
#[derive(Clone, Debug)]
pub struct AuthorizationRequest {
    pub url: String,
    pub state: String,
    pub nonce: String,
}

/// The next step of a login callback.
#[derive(Clone, Debug)]
pub enum CallbackStep {
    /// The user is authenticated (development mode).
    Authenticated(User),
    /// The authorization code must be exchanged, and the ID token checked against this nonce.
    ExchangeCode { nonce: String },
}

/// The user a session is authenticated as.
pub open spec fn current_user_of(client: AuthClient, s: SessionView) -> Option<UserView> {
    match client {
        AuthClient::Dev => if s.dev_authenticated == Some(true) {
            Some(dev_user_view())
        } else {
            None
        },
        AuthClient::Oidc => if s.auth_mode == Some("oidc"@) {
            s.user
        } else {
            None
        },
    }
}

/// The session after a development-mode login.
pub open spec fn dev_login_view(s: SessionView) -> SessionView {
    SessionView { dev_authenticated: Some(true), ..s }
}

/// The session after an OIDC authorization request was issued.
pub open spec fn authorization_recorded_view(
    s: SessionView,
    state: Seq<char>,
    nonce: Seq<char>,
) -> SessionView {
    SessionView { oauth_state: Some(state), oauth_nonce: Some(nonce), ..s }
}

/// The session after an OIDC login completed for `user`.
pub open spec fn login_completed_view(s: SessionView, user: UserView) -> SessionView {
    SessionView {
        user: Some(user),
        auth_mode: Some("oidc"@),
        oauth_state: None,
        oauth_nonce: None,
        ..s
    }
}

/// The session after logging out.
pub open spec fn logged_out_view(client: AuthClient, s: SessionView) -> SessionView {
    match client {
        AuthClient::Dev => SessionView { dev_authenticated: None, ..s },
        AuthClient::Oidc => empty_session_view(),
    }
}

/// How an OIDC callback's state is checked: the nonce to verify the ID token with,
/// or the error message.
pub open spec fn callback_check(s: SessionView, state: Seq<char>) -> Result<Seq<char>, Seq<char>> {
    match s.oauth_state {
        None => Err("No state found in session"@),
        Some(expected) => if state != expected {
            Err("State mismatch"@)
        } else {
            match s.oauth_nonce {
                None => Err("No nonce found in session"@),
                Some(n) => Ok(n),
            }
        },
    }
}

/// The message of an OIDC error.
pub open spec fn oidc_error_message(e: AppError) -> Option<Seq<char>> {
    match e {
        AppError::Oidc(m) => Some(m@),
        _ => None,
    }
}

impl AuthClient {
    /// The client for an authentication mode.
    pub fn new(mode: AuthMode) -> (r: AuthClient)
        ensures
            mode == AuthMode::Oidc ==> r == AuthClient::Oidc,
            mode == AuthMode::Dev ==> r == AuthClient::Dev,
    {
        match mode {
            AuthMode::Oidc => AuthClient::Oidc,
            AuthMode::Dev => AuthClient::Dev,
        }
    }

    /// Starts a login. In development mode this marks the session as logged in and sends the
    /// browser home (the request is not used); in OIDC mode it records the request's state
    /// and nonce and sends the browser to the provider.
    pub fn authorize_url(&self, session: &mut SessionData, request: AuthorizationRequest) -> (r:
        String)
        ensures
            *self == AuthClient::Dev ==> final(session)@ == dev_login_view(old(session)@) && r@
                == "/"@,
            *self == AuthClient::Oidc ==> final(session)@ == authorization_recorded_view(
                old(session)@,
                request.state@,
                request.nonce@,
            ) && r@ == request.url@,
    {
        match self {
            AuthClient::Dev => {
                session.dev_authenticated = Some(true);
                owned("/")
            },
            AuthClient::Oidc => {
                session.oauth_state = Some(request.state);
                session.oauth_nonce = Some(request.nonce);
                request.url
            },
        }
    }

    /// Checks a login callback. In development mode the session is marked as logged in and
    /// the dev-admin user is returned. In OIDC mode the callback's state must equal the
    /// recorded one and a nonce must be recorded; the session is left unchanged.
    pub fn begin_callback(&self, session: &mut SessionData, state: &str) -> (r: Result<
        CallbackStep,
        AppError,
    >)
        ensures
            *self == AuthClient::Dev ==> final(session)@ == dev_login_view(old(session)@) && (
            r matches Ok(CallbackStep::Authenticated(u)) && u@ == dev_user_view()),
            *self == AuthClient::Oidc ==> final(session)@ == old(session)@ && match callback_check(
                old(session)@,
                state@,
            ) {
                Ok(n) => r matches Ok(CallbackStep::ExchangeCode { nonce }) && nonce@ == n,
                Err(m) => r matches Err(e) && oidc_error_message(e) == Some(m),
            },
    {
        match self {
            AuthClient::Dev => {
                session.dev_authenticated = Some(true);
                Ok(CallbackStep::Authenticated(dev_user()))
            },
            AuthClient::Oidc => {
                let expected = match &session.oauth_state {
                    Some(s) => s,
                    None => {
                        return Err(AppError::Oidc(owned("No state found in session")));
                    },
                };
                if !str_eq(state, expected.as_str()) {
                    return Err(AppError::Oidc(owned("State mismatch")));
                }
                match &session.oauth_nonce {
                    Some(n) => Ok(CallbackStep::ExchangeCode { nonce: copy_string(n) }),
                    None => Err(AppError::Oidc(owned("No nonce found in session"))),
                }
            },
        }
    }

    /// Completes an OIDC login for the user whose ID token was verified: the session holds
    /// the user, is marked as an OIDC session, and forgets the pending state and nonce.
    pub fn complete_callback(&self, session: &mut SessionData, user: User) -> (r: User)
        ensures
            final(session)@ == login_completed_view(old(session)@, user@),
            r@ == user@,
    {
        let copy = user.duplicate();
        session.user = Some(user);
        session.auth_mode = Some(owned("oidc"));
        session.oauth_state = None;
        session.oauth_nonce = None;
        copy
    }

    /// The authenticated user, if any. Development mode honours only its own login marker;
    /// OIDC mode honours only sessions marked by a completed OIDC login.
    pub fn current_user(&self, session: &SessionData) -> (r: Option<User>)
        ensures
            opt_user_view(r) == current_user_of(*self, session@),
    {
        match self {
            AuthClient::Dev => {
                if session.dev_authenticated == Some(true) {
                    Some(dev_user())
                } else {
                    None
                }
            },
            AuthClient::Oidc => {
                let is_oidc = match &session.auth_mode {
                    Some(m) => str_eq(m.as_str(), "oidc"),
                    None => false,
                };
                if !is_oidc {
                    return None;
                }
                match &session.user {
                    Some(u) => Some(u.duplicate()),
                    None => None,
                }
            },
        }
    }

    /// The authenticated user, or `Unauthorized`.
    pub fn require_user(&self, session: &SessionData) -> (r: Result<User, AppError>)
        ensures
            match current_user_of(*self, session@) {
                Some(u) => r matches Ok(v) && v@ == u,
                None => r matches Err(AppError::Unauthorized),
            },
    {
        match self.current_user(session) {
            Some(u) => Ok(u),
            None => Err(AppError::Unauthorized),
        }
    }

    /// Logs out: development mode removes its login marker, OIDC mode clears the session.
    pub fn logout(&self, session: &mut SessionData)
        ensures
            final(session)@ == logged_out_view(*self, old(session)@),
    {
        match self {
            AuthClient::Dev => {
                session.dev_authenticated = None;
            },
            AuthClient::Oidc => {
                session.dev_authenticated = None;
                session.auth_mode = None;
                session.user = None;
                session.oauth_state = None;
                session.oauth_nonce = None;
            },
        }
    }
}

/// Development mode starts unauthenticated, a login authenticates the session as the
/// dev-admin user, and a logout makes it unauthenticated again.
pub proof fn dev_login_logout_cycle(s: SessionView)
    requires
        s.dev_authenticated != Some(true),
    ensures
        current_user_of(AuthClient::Dev, s) is None,
        current_user_of(AuthClient::Dev, dev_login_view(s)) == Some(dev_user_view()),
        current_user_of(AuthClient::Dev, logged_out_view(AuthClient::Dev, dev_login_view(s)))
            is None,
{
}

/// OIDC mode ignores the development login marker and any user stored without a completed
/// OIDC login: such a session is not authenticated.
pub proof fn oidc_ignores_dev_login_marker(s: SessionView)
    requires
        s.auth_mode != Some("oidc"@),
    ensures
        current_user_of(AuthClient::Oidc, s) is None,
        current_user_of(AuthClient::Oidc, dev_login_view(s)) is None,
{
}

/// An OIDC login whose callback carries the recorded state completes, and the session is then
/// authenticated as the verified user, with the pending state and nonce forgotten.
pub proof fn oidc_login_roundtrip(s: SessionView, state: Seq<char>, nonce: Seq<char>, user: UserView)
    ensures
        callback_check(authorization_recorded_view(s, state, nonce), state) == Ok::<
            Seq<char>,
            Seq<char>,
        >(nonce),
        current_user_of(
            AuthClient::Oidc,
            login_completed_view(authorization_recorded_view(s, state, nonce), user),
        ) == Some(user),
        login_completed_view(authorization_recorded_view(s, state, nonce), user).oauth_state
            is None,
{
}

/// A callback whose state differs from the recorded one is refused.
pub proof fn oidc_callback_rejects_wrong_state(s: SessionView, recorded: Seq<char>, nonce: Seq<char>, state: Seq<char>)
    requires
        state != recorded,
    ensures
        callback_check(authorization_recorded_view(s, recorded, nonce), state) == Err::<
            Seq<char>,
            Seq<char>,
        >("State mismatch"@),
{
}

/// After a logout, neither mode considers the session authenticated.
pub proof fn logout_unauthenticates(client: AuthClient, s: SessionView)
    ensures
        current_user_of(client, logged_out_view(client, s)) is None,
{
}


/// The parameters of a login callback.
#[derive(Clone, Debug)]
pub struct CallbackQuery {
    pub code: String,
    pub state: String,
}

/// Who the current visitor is.
#[derive(Clone, Debug)]
pub struct MeResponse {
    pub authenticated: bool,
    pub subject: Option<String>,
    pub email: Option<String>,
    pub name: Option<String>,
}

impl MeResponse {
    /// The answer for the current user, if any: authenticated with the user's subject, email
    /// and name, or anonymous.
    pub fn from_user(user: Option<User>) -> (r: MeResponse)
        ensures
            r.authenticated == user is Some,
            match user {
                Some(u) => opt_view(r.subject) == Some(u.subject@) && opt_view(r.email) == opt_view(
                    u.email,
                ) && opt_view(r.name) == opt_view(u.name),
                None => r.subject is None && r.email is None && r.name is None,
            },
    {
        match user {
            Some(u) => MeResponse {
                authenticated: true,
                subject: Some(u.subject),
                email: u.email,
                name: u.name,
            },
            None => MeResponse { authenticated: false, subject: None, email: None, name: None },
        }
    }
}

} // verus!
