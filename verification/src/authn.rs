//! The credential backend abstraction: the failure taxonomy every
//! backend maps into, backend selection, and the login orchestration
//! that turns backend verdicts into caller-visible responses.
//!
//! Transport-level failures never escape a backend; every failure path
//! becomes a member of the closed taxonomy below, and the orchestration
//! further collapses all members but `Error` into one uniform rejection
//! so that a caller learns neither which part of the credentials was
//! wrong nor whether the username exists.

use crate::ldap::LdapAuthnBackend;
use crate::openid::OpenIdAuthnBackend;
use crate::session::SessionManager;
use crate::simple::SimpleAuthnBackend;
use crate::types::WhoAmIMessage;
use crate::user::User;
use crate::util::str_eq;
use vstd::prelude::*;

verus! {

/// Why an authentication attempt was rejected.
#[derive(Debug, PartialEq, Eq, Structural, Clone, Copy)]
pub enum AuthnFailure {
    /// The username does not refer to a known account.
    InvalidUser,
    /// The account exists but the password does not match.
    InvalidPassword,
    /// The credentials are wrong, with no indication of which part;
    /// returned by backends that cannot and must not distinguish.
    InvalidUserOrPassword,
    /// This backend does not take a username and password.
    NotSupported,
    /// An infrastructure fault (storage or network), not a caller fault.
    Error,
}

/// Why a user could not be created.
#[derive(Debug, PartialEq, Eq, Structural, Clone, Copy)]
pub enum AuthnCreateError {
    ActionNotSupported,
    DatabaseFailure,
    NetworkFailure,
    Other,
}

/// The caller-visible outcome of a failed login.
#[derive(Debug, PartialEq, Eq, Structural, Clone, Copy)]
pub enum LoginError {
    /// An infrastructure fault; the only failure reported as a server
    /// error.
    InternalError,
    /// The uniform rejection for every credential fault.
    IncorrectCredentials,
    /// The authenticated identity is not a recognized application user.
    UnknownUser,
}

impl LoginError {
    /// The caller-visible message.
    pub fn message(&self) -> (r: &'static str)
        ensures
            *self == LoginError::InternalError ==> r@ == "internal server error"@,
            *self == LoginError::IncorrectCredentials ==> r@
                == "incorrect username or password"@,
            *self == LoginError::UnknownUser ==> r@ == "user does not exist"@,
    {
        match self {
            LoginError::InternalError => "internal server error",
            LoginError::IncorrectCredentials => "incorrect username or password",
            LoginError::UnknownUser => "user does not exist",
        }
    }

    /// The HTTP status class the failure is reported under: only an
    /// infrastructure fault is a server error.
    pub fn status_code(&self) -> (r: u16)
        ensures
            r == (match self {
                LoginError::InternalError => 500u16,
                LoginError::IncorrectCredentials => 403u16,
                LoginError::UnknownUser => 401u16,
            }),
    {
        match self {
            LoginError::InternalError => 500,
            LoginError::IncorrectCredentials => 403,
            LoginError::UnknownUser => 401,
        }
    }
}

/// Collapses a backend verdict for the caller: an identity passes
/// through, an infrastructure fault is reported as such, and every
/// other failure becomes the one uniform rejection.
pub fn login_decide_auth(auth_result: Result<String, AuthnFailure>) -> (r: Result<
    String,
    LoginError,
>)
    ensures
        r == (match auth_result {
            Ok(email) => Ok::<String, LoginError>(email),
            Err(AuthnFailure::Error) => Err::<String, LoginError>(LoginError::InternalError),
            Err(_) => Err::<String, LoginError>(LoginError::IncorrectCredentials),
        }),
{
    match auth_result {
        Ok(email) => Ok(email),
        Err(AuthnFailure::Error) => Err(LoginError::InternalError),
        Err(_) => Err(LoginError::IncorrectCredentials),
    }
}

/// Decides a login after the directory lookup of the authenticated
/// identity: an unknown identity is rejected, a recognized one gets
/// its identity summary.
pub fn login_decide_user(lookup: Option<User>) -> (r: Result<WhoAmIMessage, LoginError>)
    ensures
        lookup is None <==> r == Err::<WhoAmIMessage, LoginError>(LoginError::UnknownUser),
        lookup matches Some(u) ==> (r matches Ok(msg) && msg.email@ == u.email_view()
            && msg.name@ == u.full_name_view() && msg.user_type@ == crate::types::spec_user_type(
            u,
        )),
{
    match lookup {
        None => Err(LoginError::UnknownUser),
        Some(u) => Ok(crate::types::whoami(&u)),
    }
}

/// Which backend a configuration string selects. `aad` is the OpenID
/// backend pointed at a well-known provider.
#[derive(Debug, PartialEq, Eq, Structural, Clone, Copy)]
pub enum BackendKind {
    Simple,
    Ldap,
    OpenId,
}

/// Resolves the configured provider name to a backend; an unknown name
/// selects nothing.
pub fn select_backend(provider: &str) -> (r: Option<BackendKind>)
    ensures
        r == (if provider@ == "simple"@ {
            Some(BackendKind::Simple)
        } else if provider@ == "ldap"@ {
            Some(BackendKind::Ldap)
        } else if provider@ == "aad"@ || provider@ == "openid"@ {
            Some(BackendKind::OpenId)
        } else {
            None::<BackendKind>
        }),
{
    if str_eq(provider, "simple") {
        Some(BackendKind::Simple)
    } else if str_eq(provider, "ldap") {
        Some(BackendKind::Ldap)
    } else if str_eq(provider, "aad") || str_eq(provider, "openid") {
        Some(BackendKind::OpenId)
    } else {
        None
    }
}

/// What the capability-discovery entry point reports: the login
/// mechanism the client should present, and, for the federated flow,
/// the path that starts it.
#[derive(Clone, Debug)]
pub struct ClientMeta {
    pub auth: String,
    pub openid_url: Option<String>,
}

/// The discovery payload for a provider name: a well-known provider is
/// reported as the federated mechanism, and the federated mechanisms
/// advertise their login path.
pub fn client_meta(provider: &str) -> (r: ClientMeta)
    ensures
        r.auth@ == (if provider@ == "aad"@ {
            "openid"@
        } else {
            provider@
        }),
        r.openid_url is Some <==> (provider@ == "aad"@ || provider@ == "openid"@),
        r.openid_url matches Some(u) ==> u@ == "/api/authn/openid"@,
{
    let is_aad = str_eq(provider, "aad");
    let auth: String = if is_aad {
        "openid".to_owned()
    } else {
        provider.to_owned()
    };
    let openid_url: Option<String> = if is_aad || str_eq(provider, "openid") {
        Some("/api/authn/openid".to_owned())
    } else {
        None
    };
    ClientMeta { auth, openid_url }
}


/// The active credential backend. Exactly one variant is selected at
/// process start and holds all backend-specific state.
#[derive(Debug)]
pub enum AuthnHolder {
    Simple(SimpleAuthnBackend),
    Ldap(LdapAuthnBackend),
    OpenId(OpenIdAuthnBackend),
}

impl AuthnHolder {
    pub open spec fn wf(&self) -> bool {
        match self {
            AuthnHolder::Simple(b) => b.wf(),
            AuthnHolder::Ldap(b) => b.wf(),
            AuthnHolder::OpenId(b) => b.wf(),
        }
    }

    /// Creates a user where the backend supports it: only the password
    /// backend does; directory and federated accounts are provisioned
    /// externally.
    pub fn create_user(&mut self, username: &str, passwd: &str) -> (r: Result<
        (),
        AuthnCreateError,
    >)
        requires
            old(self).wf(),
        ensures
            final(self).wf(),
            (*old(self)) is Simple ==> (*final(self)) is Simple,
            !((*old(self)) is Simple) ==> r == Err::<(), AuthnCreateError>(
                AuthnCreateError::ActionNotSupported,
            ) && *final(self) == *old(self),
            (*old(self)) matches AuthnHolder::Simple(b) ==> ((*final(self))
                matches AuthnHolder::Simple(b2) && {
                &&& r is Ok <==> crate::util::has_at(crate::util::lower_seq(username@))
                &&& r is Ok ==> (b2.credentials.spec_get(crate::util::canonical_login(username@))
                    matches Some(c) && c.email@ == crate::util::lower_seq(username@) && (
                c.password matches Some(h) && h.spec_matches(passwd@)))
                &&& forall|q: Seq<char>|
                    q != crate::util::canonical_login(username@)
                        ==> #[trigger] b2.credentials.spec_get(q) == b.credentials.spec_get(q)
            }),
    {
        match self {
            AuthnHolder::Simple(b) => b.create_user(username, passwd),
            AuthnHolder::Ldap(_) => Err(AuthnCreateError::ActionNotSupported),
            AuthnHolder::OpenId(_) => Err(AuthnCreateError::ActionNotSupported),
        }
    }

    /// The backend's logout hook: only the federated backend does
    /// anything, returning a provider sign-out URL where one applies.
    pub fn on_logout(&mut self, email: &str) -> (r: Option<String>)
        requires
            old(self).wf(),
        ensures
            final(self).wf(),
            !((*old(self)) is OpenId) ==> r is None && *final(self) == *old(self),
            (*old(self)) matches AuthnHolder::OpenId(b) ==> ((*final(self))
                matches AuthnHolder::OpenId(b2) && {
                &&& OpenIdAuthnBackend::only_tokens_changed(b, b2)
                &&& b2.old_tokens.spec_get(email@) is None
                &&& forall|q: Seq<char>|
                    q != email@ ==> #[trigger] b2.old_tokens.spec_get(q)
                        == b.old_tokens.spec_get(q)
                &&& (r is Some <==> b.logout_url_base is Some)
                &&& (b.logout_url_base matches Some(base) ==> (match b.old_tokens.spec_get(
                    email@,
                ) {
                    Some(tok) => r matches Some(u) && u@ == crate::openid::url_with_query_pair(
                        base@,
                        "id_token_hint"@,
                        tok@,
                    ),
                    None => r matches Some(u) && u@ == base@,
                }))
            }),
    {
        match self {
            AuthnHolder::Simple(_) => None,
            AuthnHolder::Ldap(_) => None,
            AuthnHolder::OpenId(b) => b.on_logout(email),
        }
    }
}

/// Revokes an identity everywhere at once: every session belonging to
/// the email is removed from the table — a user may hold several
/// concurrent sessions across devices, and all are invalidated
/// together — and the active backend's logout hook is then invoked,
/// once, for any federated sign-out redirect.
pub fn revoke_sessions(
    manager: &mut SessionManager,
    backend: &mut AuthnHolder,
    email: &str,
) -> (r: Option<String>)
    requires
        old(manager).wf(),
        old(backend).wf(),
    ensures
        final(manager).wf(),
        final(backend).wf(),
        final(manager).max_age() == old(manager).max_age(),
        forall|t: Seq<char>|
            #[trigger] final(manager).spec_session(t) == (match old(manager).spec_session(t) {
                Some(s) => if s.email@ == email@ {
                    None
                } else {
                    Some(s)
                },
                None => None,
            }),
        !((*old(backend)) is OpenId) ==> r is None && *final(backend) == *old(backend),
        (*old(backend)) matches AuthnHolder::OpenId(b) ==> ((*final(backend))
            matches AuthnHolder::OpenId(b2) && {
            &&& b2.old_tokens.spec_get(email@) is None
            &&& (r is Some <==> b.logout_url_base is Some)
            &&& (b.logout_url_base matches Some(base) ==> (match b.old_tokens.spec_get(email@) {
                Some(tok) => r matches Some(u) && u@ == crate::openid::url_with_query_pair(
                    base@,
                    "id_token_hint"@,
                    tok@,
                ),
                None => r matches Some(u) && u@ == base@,
            }))
        }),
{
    manager.remove_session(email);
    backend.on_logout(email)
}

} // verus!
