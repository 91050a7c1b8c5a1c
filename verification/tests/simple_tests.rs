use hpas::authn::{AuthnCreateError, AuthnFailure, AuthnHolder};
use hpas::simple::SimpleAuthnBackend;

#[test]
fn simple_backend_end_to_end() {
    let mut backend = SimpleAuthnBackend::new();
    backend.create_user("j.doe@example.com", "correctpw").unwrap();

    // The display email is the lowercased name; lookup goes by the
    // canonical login, so dotted and case-shifted spellings all work.
    assert_eq!(
        backend.authenticate("J.Doe@example.com", "correctpw").unwrap(),
        "j.doe@example.com"
    );
    assert_eq!(
        backend.authenticate("jdoe@example.com", "correctpw").unwrap(),
        "j.doe@example.com"
    );

    match backend.authenticate("j.doe@example.com", "wrongpw") {
        Err(AuthnFailure::InvalidPassword) => {},
        other => panic!("expected InvalidPassword, got {:?}", other),
    }

    match backend.authenticate("nouser@example.com", "anything") {
        Err(AuthnFailure::InvalidUser) => {},
        other => panic!("expected InvalidUser, got {:?}", other),
    }
}

#[test]
fn simple_backend_rejects_non_email_usernames() {
    let mut backend = SimpleAuthnBackend::new();
    match backend.create_user("not-an-email", "pw") {
        Err(AuthnCreateError::Other) => {},
        other => panic!("expected Other, got {:?}", other),
    }
    match backend.authenticate("not-an-email", "pw") {
        Err(AuthnFailure::InvalidUser) => {},
        other => panic!("expected InvalidUser, got {:?}", other),
    }
}

#[test]
fn simple_backend_replaces_credentials() {
    let mut backend = SimpleAuthnBackend::new();
    backend.create_user("user@example.com", "first").unwrap();
    backend.create_user("user@example.com", "second").unwrap();
    assert!(backend.authenticate("user@example.com", "first").is_err());
    assert_eq!(backend.authenticate("user@example.com", "second").unwrap(), "user@example.com");
}

#[test]
fn holder_create_user_dispatch() {
    let mut holder = AuthnHolder::Simple(SimpleAuthnBackend::new());
    holder.create_user("a@b", "pw").unwrap();
    match &holder {
        AuthnHolder::Simple(b) => {
            assert_eq!(b.authenticate("a@b", "pw").unwrap(), "a@b");
        },
        _ => unreachable!(),
    }
}
