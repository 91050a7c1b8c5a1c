use base64::Engine;
use hpas::authn::{revoke_sessions, AuthnHolder};
use hpas::openid::{
    filter_algorithms, JwkEntry, OpenIdAuthnBackend, OpenIdCallbackError, OpenIdDiscoveryDocument,
    OpenIdInitError, SigAlg,
};
use hpas::session::SessionManager;

/// A self-signed RSA certificate (as base64 DER, the x5c form) and the
/// matching private key in PEM, for signing test tokens.
fn make_cert_and_key() -> (String, Vec<u8>) {
    let rsa = openssl::rsa::Rsa::generate(2048).unwrap();
    let key_pem = rsa.private_key_to_pem().unwrap();
    let pkey = openssl::pkey::PKey::from_rsa(rsa).unwrap();

    let mut name = openssl::x509::X509NameBuilder::new().unwrap();
    name.append_entry_by_text("CN", "unit-test").unwrap();
    let name = name.build();

    let mut builder = openssl::x509::X509::builder().unwrap();
    builder.set_version(2).unwrap();
    let serial = openssl::bn::BigNum::from_u32(1).unwrap().to_asn1_integer().unwrap();
    builder.set_serial_number(&serial).unwrap();
    builder.set_subject_name(&name).unwrap();
    builder.set_issuer_name(&name).unwrap();
    builder.set_pubkey(&pkey).unwrap();
    let not_before = openssl::asn1::Asn1Time::days_from_now(0).unwrap();
    builder.set_not_before(&not_before).unwrap();
    let not_after = openssl::asn1::Asn1Time::days_from_now(1).unwrap();
    builder.set_not_after(&not_after).unwrap();
    builder.sign(&pkey, openssl::hash::MessageDigest::sha256()).unwrap();
    let der = builder.build().to_der().unwrap();

    let b64 = base64::engine::general_purpose::STANDARD.encode(der);
    (b64, key_pem)
}

fn discovery_doc() -> OpenIdDiscoveryDocument {
    OpenIdDiscoveryDocument {
        authorization_endpoint: "https://login.example.com/authorize".to_string(),
        jwks_uri: "https://login.example.com/keys".to_string(),
        id_token_signing_alg_values_supported: vec![
            "RS256".to_string(),
            "HS256".to_string(),
            "none".to_string(),
        ],
        end_session_endpoint: Some("https://login.example.com/logout".to_string()),
    }
}

fn make_backend() -> (OpenIdAuthnBackend, Vec<u8>) {
    let (x5c, key_pem) = make_cert_and_key();
    let entries = vec![JwkEntry { kid: "key-1".to_string(), x5c: vec![x5c] }];
    let backend = OpenIdAuthnBackend::from_discovery(
        discovery_doc(),
        "https://app.example.com".to_string(),
        Some("client-1".to_string()),
        &entries,
    ).unwrap();
    (backend, key_pem)
}

fn make_token(key_pem: &[u8], kid: Option<&str>, nonce: &str) -> String {
    let mut claims = serde_json::Map::new();
    claims.insert("sub".to_string(), serde_json::Value::String("subject-1".to_string()));
    claims.insert("name".to_string(), serde_json::Value::String("J. Doe".to_string()));
    claims.insert(
        "email".to_string(),
        serde_json::Value::String("j.doe@example.com".to_string()),
    );
    claims.insert("nonce".to_string(), serde_json::Value::String(nonce.to_string()));
    claims.insert("aud".to_string(), serde_json::Value::String("client-1".to_string()));
    let exp = jsonwebtoken::get_current_timestamp() + 3600;
    claims.insert(
        "exp".to_string(),
        serde_json::Value::Number(serde_json::Number::from(exp)),
    );
    let claims = serde_json::Value::Object(claims);

    let mut header = jsonwebtoken::Header::new(jsonwebtoken::Algorithm::RS256);
    header.kid = kid.map(|k| k.to_string());
    let key = jsonwebtoken::EncodingKey::from_rsa_pem(key_pem).unwrap();
    jsonwebtoken::encode(&header, &claims, &key).unwrap()
}

#[test]
fn algorithm_filter_keeps_only_rsa() {
    let names = vec![
        "RS256".to_string(),
        "HS256".to_string(),
        "none".to_string(),
        "RS384".to_string(),
        "ES256".to_string(),
        "RS512".to_string(),
    ];
    assert_eq!(filter_algorithms(&names), vec![SigAlg::Rs256, SigAlg::Rs384, SigAlg::Rs512]);
    assert_eq!(filter_algorithms(&vec!["HS256".to_string()]), vec![]);
    assert_eq!(filter_algorithms(&vec![]), vec![]);
}

#[test]
fn initialization_failures_are_fatal() {
    let (x5c, _) = make_cert_and_key();
    let entries = vec![JwkEntry { kid: "key-1".to_string(), x5c: vec![x5c] }];

    // No usable key material.
    let r = OpenIdAuthnBackend::from_discovery(
        discovery_doc(),
        "https://app.example.com".to_string(),
        None,
        &vec![JwkEntry { kid: "key-1".to_string(), x5c: vec![] }],
    );
    assert_eq!(r.err().unwrap(), OpenIdInitError::EmptyKeySet);

    // No acceptable algorithm.
    let mut doc = discovery_doc();
    doc.id_token_signing_alg_values_supported = vec!["HS256".to_string(), "none".to_string()];
    let r = OpenIdAuthnBackend::from_discovery(
        doc,
        "https://app.example.com".to_string(),
        None,
        &entries,
    );
    assert_eq!(r.err().unwrap(), OpenIdInitError::NoAcceptableAlgorithms);

    // A malformed endpoint.
    let mut doc = discovery_doc();
    doc.authorization_endpoint = "not a url".to_string();
    let r = OpenIdAuthnBackend::from_discovery(
        doc,
        "https://app.example.com".to_string(),
        None,
        &entries,
    );
    assert_eq!(r.err().unwrap(), OpenIdInitError::InvalidUrl);
}

#[test]
fn login_redirect_carries_the_flow_parameters() {
    let (mut backend, _) = make_backend();
    let (url, sess) = backend.login_redirect(100);
    assert!(url.starts_with("https://login.example.com/authorize?"));
    assert!(url.contains("scope=openid"));
    assert!(url.contains("response_type=id_token"));
    assert!(url.contains("response_mode=form_post"));
    assert!(url.contains(&format!("state={}", sess.state_token)));
    assert!(url.contains(&format!("nonce={}", sess.nonce_token)));
    assert!(url.contains("client_id=client-1"));
    assert!(url.contains("redirect_uri=https%3A%2F%2Fapp.example.com%2Fapi%2Fauthn%2Fopenid"));
    assert_eq!(sess.state_token.len(), 32);
    assert_eq!(sess.nonce_token.len(), 32);
    assert_ne!(sess.state_token, sess.nonce_token);
}

#[test]
fn csrf_sessions_are_consumed_exactly_once() {
    let (mut backend, _) = make_backend();
    let sess = backend.new_csrf_session(50);
    let pulled = backend.pull_csrf_session(&sess.state_token).unwrap();
    assert_eq!(pulled.state_token, sess.state_token);
    assert_eq!(pulled.nonce_token, sess.nonce_token);
    assert_eq!(pulled.created, 50);

    // The first pull removed the session; a replay fails.
    assert!(backend.pull_csrf_session(&sess.state_token).is_err());
    assert!(backend.pull_csrf_session("never-issued").is_err());
}

#[test]
fn csrf_sweep_discards_stale_sessions() {
    let (mut backend, _) = make_backend();
    let stale = backend.new_csrf_session(0);
    let fresh = backend.new_csrf_session(290);
    backend.sweep_csrf(301);
    assert!(backend.pull_csrf_session(&stale.state_token).is_err());
    assert!(backend.pull_csrf_session(&fresh.state_token).is_ok());
}

#[test]
fn callback_accepts_a_matching_login() {
    let (mut backend, key_pem) = make_backend();
    let (_, sess) = backend.login_redirect(10);
    let token = make_token(&key_pem, Some("key-1"), &sess.nonce_token);
    let claims = backend.verify_callback(&sess.state_token, &token).unwrap();
    assert_eq!(claims.email, "j.doe@example.com");
    assert_eq!(claims.sub, "subject-1");
    assert_eq!(claims.nonce, sess.nonce_token);
}

#[test]
fn callback_accepts_tokens_without_a_key_id() {
    let (mut backend, key_pem) = make_backend();
    let (_, sess) = backend.login_redirect(10);
    let token = make_token(&key_pem, None, &sess.nonce_token);
    let claims = backend.verify_callback(&sess.state_token, &token).unwrap();
    assert_eq!(claims.email, "j.doe@example.com");
}

#[test]
fn callback_rejects_a_nonce_mismatch() {
    let (mut backend, key_pem) = make_backend();
    let (_, sess) = backend.login_redirect(10);
    // A validly signed token whose nonce belongs to no login this
    // service initiated: a forged or replayed callback.
    let token = make_token(&key_pem, Some("key-1"), "attacker-chosen-nonce");
    match backend.verify_callback(&sess.state_token, &token) {
        Err(OpenIdCallbackError::CsrfMismatch) => {},
        other => panic!("expected CsrfMismatch, got {:?}", other),
    }
    // The CSRF session was still consumed: no second try.
    let token = make_token(&key_pem, Some("key-1"), &sess.nonce_token);
    match backend.verify_callback(&sess.state_token, &token) {
        Err(OpenIdCallbackError::NoCsrfSession) => {},
        other => panic!("expected NoCsrfSession, got {:?}", other),
    }
}

#[test]
fn callback_rejects_an_unknown_state() {
    let (mut backend, key_pem) = make_backend();
    let token = make_token(&key_pem, Some("key-1"), "any");
    match backend.verify_callback("never-issued-state", &token) {
        Err(OpenIdCallbackError::NoCsrfSession) => {},
        other => panic!("expected NoCsrfSession, got {:?}", other),
    }
}

#[test]
fn callback_rejects_a_garbage_token() {
    let (mut backend, _) = make_backend();
    let (_, sess) = backend.login_redirect(10);
    match backend.verify_callback(&sess.state_token, "not.a.token") {
        Err(OpenIdCallbackError::TokenRejected) => {},
        other => panic!("expected TokenRejected, got {:?}", other),
    }
}

#[test]
fn symmetric_tokens_fail_regardless_of_signature() {
    let (backend, _) = make_backend();
    let mut claims = serde_json::Map::new();
    claims.insert("sub".to_string(), serde_json::Value::String("s".to_string()));
    claims.insert("name".to_string(), serde_json::Value::String("n".to_string()));
    claims.insert("email".to_string(), serde_json::Value::String("e@x".to_string()));
    claims.insert("nonce".to_string(), serde_json::Value::String("nn".to_string()));
    claims.insert("aud".to_string(), serde_json::Value::String("client-1".to_string()));
    let exp = jsonwebtoken::get_current_timestamp() + 3600;
    claims.insert("exp".to_string(), serde_json::Value::Number(serde_json::Number::from(exp)));
    let claims = serde_json::Value::Object(claims);

    // A correctly signed HS256 token: its signature is valid under the
    // shared secret, but the algorithm is outside the allow-list.
    let header = jsonwebtoken::Header::new(jsonwebtoken::Algorithm::HS256);
    let key = jsonwebtoken::EncodingKey::from_secret(b"shared-secret");
    let token = jsonwebtoken::encode(&header, &claims, &key).unwrap();
    assert!(backend.verify_token(&token).is_err());
}

#[test]
fn unsigned_tokens_fail() {
    let (backend, _) = make_backend();
    let b64url = base64::engine::general_purpose::URL_SAFE_NO_PAD;
    let header = b64url.encode(b"{\"alg\":\"none\",\"typ\":\"JWT\"}");
    let payload = b64url.encode(b"{\"sub\":\"s\",\"nonce\":\"nn\"}");
    let token = format!("{}.{}.", header, payload);
    assert!(backend.verify_token(&token).is_err());
}

#[test]
fn expired_tokens_fail() {
    let (mut backend, key_pem) = make_backend();
    let (_, sess) = backend.login_redirect(10);
    let mut claims = serde_json::Map::new();
    claims.insert("sub".to_string(), serde_json::Value::String("s".to_string()));
    claims.insert("name".to_string(), serde_json::Value::String("n".to_string()));
    claims.insert("email".to_string(), serde_json::Value::String("e@x".to_string()));
    claims.insert(
        "nonce".to_string(),
        serde_json::Value::String(sess.nonce_token.clone()),
    );
    claims.insert("aud".to_string(), serde_json::Value::String("client-1".to_string()));
    // Expired well past the clock-skew tolerance.
    let exp = jsonwebtoken::get_current_timestamp() - 7200;
    claims.insert("exp".to_string(), serde_json::Value::Number(serde_json::Number::from(exp)));
    let claims = serde_json::Value::Object(claims);
    let mut header = jsonwebtoken::Header::new(jsonwebtoken::Algorithm::RS256);
    header.kid = Some("key-1".to_string());
    let key = jsonwebtoken::EncodingKey::from_rsa_pem(&key_pem).unwrap();
    let token = jsonwebtoken::encode(&header, &claims, &key).unwrap();
    match backend.verify_callback(&sess.state_token, &token) {
        Err(OpenIdCallbackError::TokenRejected) => {},
        other => panic!("expected TokenRejected, got {:?}", other),
    }
}

#[test]
fn tokens_without_an_audience_fail() {
    // With an audience configured, a token that carries no aud claim
    // is rejected even though its signature and nonce are good.
    let (mut backend, key_pem) = make_backend();
    let (_, sess) = backend.login_redirect(10);
    let mut claims = serde_json::Map::new();
    claims.insert("sub".to_string(), serde_json::Value::String("s".to_string()));
    claims.insert("name".to_string(), serde_json::Value::String("n".to_string()));
    claims.insert("email".to_string(), serde_json::Value::String("e@x".to_string()));
    claims.insert(
        "nonce".to_string(),
        serde_json::Value::String(sess.nonce_token.clone()),
    );
    let exp = jsonwebtoken::get_current_timestamp() + 3600;
    claims.insert("exp".to_string(), serde_json::Value::Number(serde_json::Number::from(exp)));
    let claims = serde_json::Value::Object(claims);
    let mut header = jsonwebtoken::Header::new(jsonwebtoken::Algorithm::RS256);
    header.kid = Some("key-1".to_string());
    let key = jsonwebtoken::EncodingKey::from_rsa_pem(&key_pem).unwrap();
    let token = jsonwebtoken::encode(&header, &claims, &key).unwrap();
    match backend.verify_callback(&sess.state_token, &token) {
        Err(OpenIdCallbackError::TokenRejected) => {},
        other => panic!("expected TokenRejected, got {:?}", other),
    }
}

#[test]
fn tokens_with_an_unknown_key_id_fail() {
    let (mut backend, key_pem) = make_backend();
    let (_, sess) = backend.login_redirect(10);
    let mut header = jsonwebtoken::Header::new(jsonwebtoken::Algorithm::RS256);
    header.kid = Some("never-published".to_string());
    let mut claims = serde_json::Map::new();
    claims.insert("sub".to_string(), serde_json::Value::String("s".to_string()));
    claims.insert("name".to_string(), serde_json::Value::String("n".to_string()));
    claims.insert("email".to_string(), serde_json::Value::String("e@x".to_string()));
    claims.insert(
        "nonce".to_string(),
        serde_json::Value::String(sess.nonce_token.clone()),
    );
    claims.insert("aud".to_string(), serde_json::Value::String("client-1".to_string()));
    let exp = jsonwebtoken::get_current_timestamp() + 3600;
    claims.insert("exp".to_string(), serde_json::Value::Number(serde_json::Number::from(exp)));
    let claims = serde_json::Value::Object(claims);
    let key = jsonwebtoken::EncodingKey::from_rsa_pem(&key_pem).unwrap();
    let token = jsonwebtoken::encode(&header, &claims, &key).unwrap();
    // The named key id is not cached: rejected outright, no fallback.
    match backend.verify_callback(&sess.state_token, &token) {
        Err(OpenIdCallbackError::TokenRejected) => {},
        other => panic!("expected TokenRejected, got {:?}", other),
    }
}

#[test]
fn federated_logout_consumes_the_stored_hint() {
    let (mut backend, _) = make_backend();
    backend.record_identity_token("j.doe@example.com", "stored-id-token");

    let url = backend.on_logout("j.doe@example.com").unwrap();
    assert_eq!(url, "https://login.example.com/logout?id_token_hint=stored-id-token");

    // The hint was consumed; a second logout is endpoint-only.
    let url = backend.on_logout("j.doe@example.com").unwrap();
    assert_eq!(url, "https://login.example.com/logout");

    // An identity that never logged in gets the bare endpoint too.
    let url = backend.on_logout("other@example.com").unwrap();
    assert_eq!(url, "https://login.example.com/logout");
}

#[test]
fn revoking_two_devices_signs_out_once() {
    let (mut backend, _) = make_backend();
    backend.record_identity_token("j.doe@example.com", "hint-token");
    let mut holder = AuthnHolder::OpenId(backend);

    let mut manager = SessionManager::new(120);
    let phone = manager.new_session("j.doe@example.com", 10);
    let laptop = manager.new_session("j.doe@example.com", 20);

    let redirect = revoke_sessions(&mut manager, &mut holder, "j.doe@example.com");
    assert!(manager.resolve(&phone).is_none());
    assert!(manager.resolve(&laptop).is_none());
    // The single logout-hook invocation used the stored hint.
    assert_eq!(redirect.unwrap(), "https://login.example.com/logout?id_token_hint=hint-token");

    // A second revocation shows the hint is gone: the hook ran once.
    let redirect = revoke_sessions(&mut manager, &mut holder, "j.doe@example.com");
    assert_eq!(redirect.unwrap(), "https://login.example.com/logout");
}

#[test]
fn key_refresh_is_wholesale_and_keeps_old_keys_on_failure() {
    let (mut backend, key_pem) = make_backend();
    let (_, sess) = backend.login_redirect(10);
    let token = make_token(&key_pem, Some("key-1"), &sess.nonce_token);

    // An empty fetch is refused and the previous keys are retained.
    assert!(backend.replace_keys(&vec![]).is_err());
    assert!(backend.verify_token(&token).is_ok());

    // So is a fetch from which no usable key material comes: entries
    // whose certificate chains are empty or unreadable yield nothing.
    let unusable = vec![
        JwkEntry { kid: "key-9".to_string(), x5c: vec![] },
        JwkEntry { kid: "key-8".to_string(), x5c: vec!["not base64!!".to_string()] },
    ];
    assert!(backend.replace_keys(&unusable).is_err());
    assert!(backend.verify_token(&token).is_ok());

    // A successful refresh replaces the set wholesale: the old key is
    // gone and tokens signed under it no longer verify.
    let (other_x5c, _) = make_cert_and_key();
    let entries = vec![JwkEntry { kid: "key-2".to_string(), x5c: vec![other_x5c] }];
    assert!(backend.replace_keys(&entries).is_ok());
    assert!(backend.verify_token(&token).is_err());
}
