use hpas::util::{
    canonicalize_login, check_password, eq_bytes, generate_rand_string, hash_password,
    sanitise_email, str_eq, to_lowercase,
};
use std::collections::HashSet;

#[test]
fn sanitise_email_strips_local_dots() {
    assert_eq!(sanitise_email("j.doe@example.com").unwrap(), "jdoe@example.com");
    assert_eq!(sanitise_email("a.b.c@d.e").unwrap(), "abc@d.e");
    assert_eq!(sanitise_email("nodots@example.com").unwrap(), "nodots@example.com");
}

#[test]
fn sanitise_email_splits_at_first_at() {
    assert_eq!(sanitise_email("a.b@c@d").unwrap(), "ab@c@d");
    assert_eq!(sanitise_email("@host").unwrap(), "@host");
    assert_eq!(sanitise_email("x@").unwrap(), "x@");
}

#[test]
fn sanitise_email_rejects_non_email() {
    assert!(sanitise_email("no-at-sign").is_err());
    assert!(sanitise_email("").is_err());
}

#[test]
fn canonicalize_lowercases_and_strips() {
    assert_eq!(canonicalize_login("J.Doe@Example.COM").unwrap(), "jdoe@example.com");
    assert!(canonicalize_login("notanemail").is_err());
}

#[test]
fn canonicalize_is_idempotent_on_samples() {
    let samples = ["J.Doe@Example.com", "a.b.c@D.E", "X@Y", "U.S.E.R@HOST.ORG"];
    for s in samples {
        let once = canonicalize_login(s).unwrap();
        let twice = canonicalize_login(&once).unwrap();
        assert_eq!(once, twice);
    }
}

#[test]
fn to_lowercase_ascii() {
    assert_eq!(to_lowercase("AbC09_Z"), "abc09_z");
    assert_eq!(to_lowercase(""), "");
}

#[test]
fn str_eq_and_eq_bytes() {
    assert!(str_eq("abc", "abc"));
    assert!(!str_eq("abc", "abd"));
    assert!(!str_eq("abc", "ab"));
    assert!(eq_bytes(&vec![1u8, 2, 3], &vec![1u8, 2, 3]));
    assert!(!eq_bytes(&vec![1u8, 2, 3], &vec![1u8, 2, 4]));
    assert!(!eq_bytes(&vec![1u8], &vec![]));
}

#[test]
fn password_hash_round_trip() {
    let h = hash_password("correct horse");
    assert!(check_password("correct horse", &h));
    assert!(!check_password("wrong horse", &h));
    assert!(!check_password("", &h));
}

#[test]
fn password_hashes_are_salted() {
    let a = hash_password("same password");
    let b = hash_password("same password");
    assert_ne!(a.salt, b.salt);
    assert_ne!(a.key, b.key);
    assert!(check_password("same password", &a));
    assert!(check_password("same password", &b));
}

#[test]
fn random_tokens_unique_and_alphanumeric() {
    let mut seen: HashSet<String> = HashSet::new();
    let mut freq: std::collections::HashMap<char, u32> = std::collections::HashMap::new();
    for _ in 0..200 {
        let t = generate_rand_string(32);
        assert_eq!(t.len(), 32);
        assert!(t.chars().all(|c| c.is_ascii_alphanumeric()));
        for c in t.chars() {
            *freq.entry(c).or_insert(0) += 1;
        }
        assert!(seen.insert(t), "duplicate token generated");
    }
    // A sanity check against gross bias, not a cryptographic proof:
    // 6400 draws from a 62-character alphabet should show most of the
    // alphabet, with no character far from its expected share (~103).
    assert!(freq.len() > 45, "only {} distinct characters", freq.len());
    for (c, n) in &freq {
        assert!(*n < 300, "character {:?} drawn {} times", c, n);
    }
}

#[test]
fn random_token_respects_length() {
    assert_eq!(generate_rand_string(0).len(), 0);
    assert_eq!(generate_rand_string(1).len(), 1);
    assert_eq!(generate_rand_string(64).len(), 64);
}
