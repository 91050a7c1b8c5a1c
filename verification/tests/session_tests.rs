use hpas::authn::{revoke_sessions, AuthnHolder};
use hpas::ldap::{LdapAuthnBackend, LdapConfig};
use hpas::session::SessionManager;
use hpas::simple::SimpleAuthnBackend;

#[test]
fn session_resolve_round_trip() {
    let mut m = SessionManager::new(120);
    assert_eq!(m.max_age_seconds(), 120 * 60);
    let tok = m.new_session("user@example.com", 1000);
    assert_eq!(tok.len(), 32);
    let s = m.resolve(&tok).unwrap();
    assert_eq!(s.email, "user@example.com");
    assert_eq!(s.created, 1000);
    assert!(m.resolve("no-such-token").is_none());
}

#[test]
fn session_expiry_boundaries() {
    // A session created at time T with max age M survives a sweep just
    // inside the limit and is removed by the first sweep past it.
    let mut m = SessionManager::new(2);
    let max_age: u64 = 2 * 60;
    let created: u64 = 500;
    let tok = m.new_session("user@example.com", created);

    m.sweep(created + max_age - 1);
    assert!(m.resolve(&tok).is_some());

    m.sweep(created + max_age);
    assert!(m.resolve(&tok).is_some(), "age equal to the maximum is not yet expired");

    m.sweep(created + max_age + 1);
    assert!(m.resolve(&tok).is_none());
}

#[test]
fn sweep_removes_only_expired_sessions() {
    let mut m = SessionManager::new(1);
    let old_tok = m.new_session("old@example.com", 0);
    let new_tok = m.new_session("new@example.com", 1000);
    m.sweep(1030);
    assert!(m.resolve(&old_tok).is_none());
    assert!(m.resolve(&new_tok).is_some());
}

#[test]
fn revoke_removes_all_sessions_of_one_user() {
    let mut m = SessionManager::new(120);
    let phone = m.new_session("both@example.com", 10);
    let laptop = m.new_session("both@example.com", 20);
    let other = m.new_session("other@example.com", 30);
    let mut backend = AuthnHolder::Simple(SimpleAuthnBackend::new());

    let redirect = revoke_sessions(&mut m, &mut backend, "both@example.com");
    assert!(redirect.is_none());
    assert!(m.resolve(&phone).is_none());
    assert!(m.resolve(&laptop).is_none());
    assert!(m.resolve(&other).is_some());
}

#[test]
fn revoke_with_directory_backend_stays_local() {
    let cfg = LdapConfig {
        server_url: "ldap://directory.example.com".to_string(),
        search_base: "ou=people,dc=example,dc=com".to_string(),
        filter_field: None,
        email_field: None,
        domain: None,
        is_ad: None,
        normalize_logins: None,
    };
    let backend: LdapAuthnBackend = cfg.to_backend();
    let mut holder = AuthnHolder::Ldap(backend);
    let mut m = SessionManager::new(120);
    let tok = m.new_session("user@example.com", 0);
    assert!(revoke_sessions(&mut m, &mut holder, "user@example.com").is_none());
    assert!(m.resolve(&tok).is_none());
}
