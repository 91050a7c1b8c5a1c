use hpas::authn::AuthnFailure;
use hpas::ldap::{
    escape_filter_value, map_authn_error, valid_username, LdapAuthnError, LdapConfig,
};

#[test]
fn username_alphabet_is_restricted() {
    assert!(valid_username("j.doe@example.com"));
    assert!(valid_username("user_name09"));
    assert!(!valid_username(""));
    assert!(!valid_username("user name"));
    assert!(!valid_username("user*"));
    assert!(!valid_username("a(b)c"));
    assert!(!valid_username("back\\slash"));
    assert!(!valid_username("semi;colon"));
}

#[test]
fn filter_escaping_hex_encodes_specials() {
    assert_eq!(escape_filter_value("plain"), "plain");
    assert_eq!(escape_filter_value("a*b"), "a\\2ab");
    assert_eq!(escape_filter_value("(x)"), "\\28x\\29");
    assert_eq!(escape_filter_value("a\\b"), "a\\5cb");
    assert_eq!(escape_filter_value("nul\u{0}byte"), "nul\\00byte");
    assert_eq!(escape_filter_value("*)(\\"), "\\2a\\29\\28\\5c");
    assert_eq!(escape_filter_value(""), "");
}

#[test]
fn escaped_values_contain_no_raw_structure() {
    let hostile = "*)(uid=*))(|(uid=*\u{0}";
    let escaped = escape_filter_value(hostile);
    assert!(!escaped.contains('('));
    assert!(!escaped.contains(')'));
    assert!(!escaped.contains('*'));
    assert!(!escaped.contains('\u{0}'));
}

fn ad_backend() -> hpas::ldap::LdapAuthnBackend {
    LdapConfig {
        server_url: "ldap://ad.example.com".to_string(),
        search_base: "dc=example,dc=com".to_string(),
        filter_field: None,
        email_field: None,
        domain: Some("EXAMPLE".to_string()),
        is_ad: Some(true),
        normalize_logins: None,
    }.to_backend()
}

#[test]
fn config_defaults_follow_target_kind() {
    let ad = ad_backend();
    assert_eq!(ad.filter_field, "sAMAccountName");
    assert_eq!(ad.email_field, "mail");
    assert!(ad.is_ad);
    assert!(!ad.normalize_logins);

    let plain = LdapConfig {
        server_url: "ldap://directory.example.com".to_string(),
        search_base: "dc=example,dc=com".to_string(),
        filter_field: Some("uid".to_string()),
        email_field: Some("mailAddr".to_string()),
        domain: None,
        is_ad: None,
        normalize_logins: Some(true),
    }.to_backend();
    assert_eq!(plain.filter_field, "uid");
    assert_eq!(plain.email_field, "mailAddr");
    assert!(!plain.is_ad);
    assert!(plain.normalize_logins);
}

#[test]
fn ad_bind_name_is_down_level() {
    let ad = ad_backend();
    let req = ad.prepare_bind("j.doe@example.com").unwrap();
    assert_eq!(req.bind_name, "EXAMPLE\\j.doe");
    assert_eq!(req.uid, "j.doe");
    assert_eq!(req.filter, "(sAMAccountName=j.doe)");

    let req = ad.prepare_bind("jdoe").unwrap();
    assert_eq!(req.bind_name, "EXAMPLE\\jdoe");
    assert_eq!(req.uid, "jdoe");
}

#[test]
fn plain_bind_uses_name_directly() {
    let plain = LdapConfig {
        server_url: "ldap://directory.example.com".to_string(),
        search_base: "dc=example,dc=com".to_string(),
        filter_field: Some("userPrincipalName".to_string()),
        email_field: None,
        domain: None,
        is_ad: None,
        normalize_logins: None,
    }.to_backend();
    let req = plain.prepare_bind("J.Doe@Example.com").unwrap();
    assert_eq!(req.bind_name, "J.Doe@Example.com");
    assert_eq!(req.uid, "J.Doe@Example.com");
    assert_eq!(req.filter, "(userPrincipalName=J.Doe@Example.com)");
}

#[test]
fn normalizing_backend_canonicalizes_first() {
    let b = LdapConfig {
        server_url: "ldap://directory.example.com".to_string(),
        search_base: "dc=example,dc=com".to_string(),
        filter_field: Some("uid".to_string()),
        email_field: None,
        domain: None,
        is_ad: None,
        normalize_logins: Some(true),
    }.to_backend();
    let req = b.prepare_bind("J.Doe@Example.com").unwrap();
    assert_eq!(req.bind_name, "jdoe@example.com");
    assert_eq!(req.uid, "jdoe@example.com");
}

#[test]
fn invalid_usernames_never_reach_a_filter() {
    let ad = ad_backend();
    match ad.prepare_bind("uid=*)(cn=admin") {
        Err(LdapAuthnError::InvalidLogin) => {},
        other => panic!("expected InvalidLogin, got {:?}", other),
    }
}

#[test]
fn search_interpretation() {
    let ad = ad_backend();
    assert!(matches!(ad.interpret_search(&vec![]), Err(LdapAuthnError::Other)));
    assert!(matches!(ad.interpret_search(&vec![vec![]]), Err(LdapAuthnError::Other)));
    assert_eq!(
        ad.interpret_search(&vec![vec!["one@example.com".to_string()]]).unwrap(),
        "one@example.com"
    );
    // Multiple entries are tolerated; the first is used.
    assert_eq!(
        ad.interpret_search(&vec![
            vec!["first@example.com".to_string()],
            vec!["second@example.com".to_string()],
        ]).unwrap(),
        "first@example.com"
    );
}

#[test]
fn directory_failures_map_into_the_taxonomy() {
    assert_eq!(map_authn_error(LdapAuthnError::ConnectionError), AuthnFailure::Error);
    assert_eq!(
        map_authn_error(LdapAuthnError::InvalidLogin),
        AuthnFailure::InvalidUserOrPassword
    );
    assert_eq!(map_authn_error(LdapAuthnError::Other), AuthnFailure::Error);
}
