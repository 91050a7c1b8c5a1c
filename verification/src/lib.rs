//! Verified core of the authentication subsystem and session lifecycle
//! manager of an honours-project allocation backend: pluggable
//! credential backends (password, LDAP bind, OpenID Connect), a session
//! store with expiry sweeping, and CSRF-protected external login flows.

pub mod authn;
pub mod config;
pub mod ldap;
pub mod models;
pub mod openid;
pub mod session;
pub mod simple;
pub mod strmap;
pub mod types;
pub mod user;
pub mod util;
