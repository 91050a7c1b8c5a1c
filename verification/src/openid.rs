//! The OpenID Connect backend: provider configuration, signing-key
//! material, CSRF login sessions, token verification and federated
//! logout.
//!
//! The implicit flow is used: the provider POSTs an identity token
//! straight back to this service. The anti-replay guarantee rests on a
//! server-side CSRF session per login attempt, keyed by its `state`
//! token and consumed exactly once; the token's `nonce` claim must
//! equal the session's nonce. Token signatures are verified against
//! the provider's published keys under an algorithm allow-list that
//! admits only the asymmetric `RS256`, `RS384` and `RS512`: a party
//! without the provider's private key must not be able to forge an
//! acceptable token.

use crate::strmap::StrMap;
use crate::util::{generate_rand_string, is_token_char, str_eq};
use jsonwebtoken::{decode, decode_header, Algorithm, DecodingKey, Validation};
use serde_json::Value;
use vstd::prelude::*;

verus! {

/// How long a CSRF login session may stay unconsumed, in seconds.
pub const CSRF_LIFETIME_SECS: u64 = 300;

/// How long the maintenance loop sleeps between iterations, in
/// seconds.
pub const CLEANUP_PERIOD_SECS: u64 = 30;

/// Every how many maintenance iterations the key set is refreshed.
pub const JWKS_REFRESH_ITERATIONS: u32 = 60;

/// The length of the `state` and `nonce` tokens of a CSRF session.
pub const CSRF_TOKEN_LEN: usize = 32;

/// A signing algorithm this backend will accept: the asymmetric RSA
/// family only. Symmetric and `none` algorithms are never represented
/// here, so they can never enter a validation policy.
#[derive(Debug, PartialEq, Eq, Structural, Clone, Copy)]
pub enum SigAlg {
    Rs256,
    Rs384,
    Rs512,
}

impl SigAlg {
    /// The algorithm's name as a provider advertises it.
    pub open spec fn spec_name(&self) -> Seq<char> {
        match self {
            SigAlg::Rs256 => "RS256"@,
            SigAlg::Rs384 => "RS384"@,
            SigAlg::Rs512 => "RS512"@,
        }
    }
}

/// Whether an advertised algorithm name is in the allow-list.
pub open spec fn spec_alg_allowed(algs: Seq<SigAlg>, name: Seq<char>) -> bool {
    exists|i: int| 0 <= i < algs.len() && (#[trigger] algs[i]).spec_name() == name
}

/// The acceptable algorithms among advertised names, in order: the
/// RSA family names are kept, everything else (symmetric algorithms,
/// `none`, unknown names) is dropped.
pub open spec fn spec_filter_algs(names: Seq<Seq<char>>) -> Seq<SigAlg>
    decreases names.len(),
{
    if names.len() == 0 {
        Seq::<SigAlg>::empty()
    } else {
        (if names[0] == "RS256"@ {
            seq![SigAlg::Rs256]
        } else if names[0] == "RS384"@ {
            seq![SigAlg::Rs384]
        } else if names[0] == "RS512"@ {
            seq![SigAlg::Rs512]
        } else {
            Seq::<SigAlg>::empty()
        }) + spec_filter_algs(names.drop_first())
    }
}

pub proof fn lemma_filter_algs_concat(a: Seq<Seq<char>>, b: Seq<Seq<char>>)
    ensures
        spec_filter_algs(a + b) == spec_filter_algs(a) + spec_filter_algs(b),
    decreases a.len(),
{
    if a.len() == 0 {
        assert(a + b =~= b);
        assert(spec_filter_algs(a) + spec_filter_algs(b) =~= spec_filter_algs(b));
    } else {
        lemma_filter_algs_concat(a.drop_first(), b);
        assert((a + b).drop_first() =~= a.drop_first() + b);
        assert(spec_filter_algs(a + b) =~= spec_filter_algs(a) + spec_filter_algs(b));
    }
}

/// Every algorithm the filter admits is of the RSA family, so a policy
/// built from it can never accept a symmetric or `none` algorithm.
pub proof fn lemma_filter_algs_only_rsa(names: Seq<Seq<char>>, k: int)
    requires
        0 <= k < spec_filter_algs(names).len(),
    ensures
        spec_filter_algs(names)[k].spec_name() == "RS256"@ || spec_filter_algs(
            names,
        )[k].spec_name() == "RS384"@ || spec_filter_algs(names)[k].spec_name() == "RS512"@,
    decreases names.len(),
{
    if names.len() > 0 {
        let head = if names[0] == "RS256"@ {
            seq![SigAlg::Rs256]
        } else if names[0] == "RS384"@ {
            seq![SigAlg::Rs384]
        } else if names[0] == "RS512"@ {
            seq![SigAlg::Rs512]
        } else {
            Seq::<SigAlg>::empty()
        };
        if k >= head.len() {
            lemma_filter_algs_only_rsa(names.drop_first(), k - head.len());
        }
    }
}

/// Filters advertised algorithm names down to the acceptable set, in
/// order.
pub fn filter_algorithms(names: &Vec<String>) -> (r: Vec<SigAlg>)
    ensures
        r@ == spec_filter_algs(names@.map_values(|s: String| s@)),
{
    let mut out: Vec<SigAlg> = Vec::new();
    let n = names.len();
    let mut i: usize = 0;
    while i < n
        invariant
            i <= n,
            n == names@.len(),
            out@ == spec_filter_algs(names@.map_values(|s: String| s@).take(i as int)),
        decreases n - i,
    {
        let name = &names[i];
        if str_eq(name.as_str(), "RS256") {
            out.push(SigAlg::Rs256);
        } else if str_eq(name.as_str(), "RS384") {
            out.push(SigAlg::Rs384);
        } else if str_eq(name.as_str(), "RS512") {
            out.push(SigAlg::Rs512);
        }
        proof {
            let views = names@.map_values(|s: String| s@);
            lemma_filter_algs_concat(views.take(i as int), seq![views[i as int]]);
            assert(views.take(i + 1) =~= views.take(i as int) + seq![views[i as int]]);
            assert(seq![views[i as int]].drop_first() =~= Seq::<Seq<char>>::empty());
            assert(spec_filter_algs(Seq::<Seq<char>>::empty()) =~= Seq::<SigAlg>::empty());
            assert(out@ =~= spec_filter_algs(views.take(i + 1)));
        }
        i = i + 1;
    }
    proof {
        let views = names@.map_values(|s: String| s@);
        assert(views.take(n as int) =~= views);
    }
    out
}

/// The decoded protected header of a serialized token: its algorithm
/// name and its optional key id. A function of the token alone.
pub struct JwtHeaderView {
    pub alg: Seq<char>,
    pub kid: Option<Seq<char>>,
}

/// The identity claims of a serialized token's payload. A function of
/// the token alone.
pub struct JwtClaimsView {
    pub sub: Seq<char>,
    pub name: Seq<char>,
    pub email: Seq<char>,
    pub nonce: Seq<char>,
}

/// What reading a serialized token's header yields; absent when the
/// token is not shaped as three dot-separated parts with a readable
/// header.
pub uninterp spec fn jwt_header_info(token: Seq<char>) -> Option<JwtHeaderView>;

/// The identity claims of a serialized token's payload; absent when
/// the payload lacks one of the `sub`, `name`, `email` or `nonce`
/// claims.
pub uninterp spec fn jwt_claims_info(token: Seq<char>) -> Option<JwtClaimsView>;

/// The identity claims of a verified token.
#[derive(Clone, Debug)]
pub struct OpenIdClaims {
    pub sub: String,
    pub name: String,
    pub email: String,
    pub nonce: String,
}

/// Relies on jsonwebtoken::decode_header: it reads the token's
/// protected header without verifying anything; the result depends on
/// the token alone.
#[verifier::external_body]
fn jwt_decode_header(token: &str) -> (r: Result<Option<String>, ()>)
    ensures
        r is Ok <==> jwt_header_info(token@) is Some,
        r matches Ok(kid) ==> ({
            let h = jwt_header_info(token@).unwrap();
            &&& kid is Some <==> h.kid is Some
            &&& kid matches Some(k) ==> k@ == h.kid.unwrap()
        }),
{
    match decode_header(token) {
        Ok(h) => Ok(h.kid),
        Err(_) => Err(()),
    }
}

/// Relies on jsonwebtoken::decode with an RSA (DER) decoding key: on
/// success the signature verified under one allowed algorithm — the
/// token's header algorithm is checked against the policy's list, as
/// decode's algorithm check shows — and the returned claims are the
/// token's own, which depend on the token alone. With an audience
/// configured the `aud` claim is required and matched, since decode
/// checks only a claim that is present. Success additionally depends
/// on the clock (expiry, under the default 60-second leeway that
/// Validation::new sets) and on the key, so nothing is promised of
/// when the call succeeds.
#[verifier::external_body]
fn jwt_decode_verify(
    token: &str,
    key_der: &Vec<u8>,
    algs: &Vec<SigAlg>,
    audience: &Option<String>,
) -> (r: Result<OpenIdClaims, ()>)
    ensures
        r matches Ok(c) ==> ({
            let h = jwt_header_info(token@);
            let cl = jwt_claims_info(token@);
            &&& h matches Some(hv) && spec_alg_allowed(algs@, hv.alg)
            &&& cl matches Some(cv) && c.sub@ == cv.sub && c.name@ == cv.name && c.email@
                == cv.email && c.nonce@ == cv.nonce
        }),
{
    let mut v = Validation::new(Algorithm::RS256);
    // Indexed in SigAlg's declaration order.
    v.algorithms = algs.iter().map(|a| [Algorithm::RS256, Algorithm::RS384, Algorithm::RS512][*a as usize]).collect();
    match audience {
        Some(a) => {
            v.set_audience(&[a.as_str()]);
            v.set_required_spec_claims(&["exp", "aud"]);
        },
        None => v.validate_aud = false,
    }
    let c = decode::<Value>(token, &DecodingKey::from_rsa_der(key_der), &v).map_err(|_| ())?.claims;
    let field = |k| c[k].as_str().map(str::to_string).ok_or(());
    Ok(OpenIdClaims { sub: field("sub")?, name: field("name")?, email: field("email")?, nonce: field("nonce")? })
}

/// What decoding a standard-alphabet base64 text yields; absent when
/// the text is not valid base64. A function of the text alone.
pub uninterp spec fn base64_decoded(s: Seq<char>) -> Option<Seq<u8>>;

/// Relies on base64's standard-alphabet engine: decoding depends on
/// the text alone and fails exactly on text that is not valid base64.
#[verifier::external_body]
fn b64_decode(s: &str) -> (r: Result<Vec<u8>, ()>)
    ensures
        r is Ok <==> base64_decoded(s@) is Some,
        r matches Ok(b) ==> b@ == base64_decoded(s@).unwrap(),
{
    match base64::Engine::decode(&base64::engine::general_purpose::STANDARD, s) {
        Ok(b) => Ok(b),
        Err(_) => Err(()),
    }
}

/// The PKCS#1 DER encoding of the RSA public key inside a DER
/// certificate; absent when the bytes are not such a certificate. A
/// function of the bytes alone.
pub uninterp spec fn rsa_key_from_cert(der: Seq<u8>) -> Option<Seq<u8>>;

/// Relies on openssl's certificate parsing: X509::from_der reads the
/// certificate, public_key and rsa take its RSA public key, and
/// public_key_to_der_pkcs1 re-encodes it; the pipeline is a function
/// of the input bytes alone and fails exactly when they do not hold an
/// RSA certificate.
#[verifier::external_body]
fn cert_to_rsa_der(der: &Vec<u8>) -> (r: Result<Vec<u8>, ()>)
    ensures
        r is Ok <==> rsa_key_from_cert(der@) is Some,
        r matches Ok(b) ==> b@ == rsa_key_from_cert(der@).unwrap(),
{
    openssl::x509::X509::from_der(der.as_slice())
        .and_then(|crt| crt.public_key())
        .and_then(|pk| pk.rsa())
        .and_then(|pk| pk.public_key_to_der_pkcs1())
        .map_err(|_| ())
}

/// Whether a text parses as a URL. A function of the text alone.
pub uninterp spec fn url_is_valid(s: Seq<char>) -> bool;

/// Relies on url::Url::parse: whether a text is a URL depends on the
/// text alone.
#[verifier::external_body]
pub(crate) fn check_url(s: &str) -> (r: bool)
    ensures
        r == url_is_valid(s@),
{
    url::Url::parse(s).is_ok()
}

/// The URL with one more query pair appended, percent-encoded. A
/// function of the URL and the pair alone.
pub uninterp spec fn url_with_query_pair(u: Seq<char>, k: Seq<char>, v: Seq<char>) -> Seq<char>;

/// Relies on url::Url: parse reads the URL, append_pair of its query
/// serializer appends one percent-encoded pair, and the result is the
/// URL's serialization, which parses again, as the crate's
/// serialize-reparse round-trip shows.
#[verifier::external_body]
fn url_append_query_pair(u: &str, k: &str, v: &str) -> (r: Result<String, ()>)
    ensures
        r is Ok <==> url_is_valid(u@),
        r matches Ok(s) ==> s@ == url_with_query_pair(u@, k@, v@) && url_is_valid(s@),
{
    match url::Url::parse(u) {
        Ok(mut parsed) => {
            parsed.query_pairs_mut().append_pair(k, v);
            Ok(String::from(parsed))
        },
        Err(_) => Err(()),
    }
}

/// The URL with its path replaced. A function of the URL and the path
/// alone.
pub uninterp spec fn url_with_path(u: Seq<char>, p: Seq<char>) -> Seq<char>;

/// Relies on url::Url: parse reads the URL, set_path replaces its
/// path, and the result is the URL's serialization, which parses
/// again.
#[verifier::external_body]
fn url_set_path(u: &str, p: &str) -> (r: Result<String, ()>)
    ensures
        r is Ok <==> url_is_valid(u@),
        r matches Ok(s) ==> s@ == url_with_path(u@, p@) && url_is_valid(s@),
{
    match url::Url::parse(u) {
        Ok(mut parsed) => {
            parsed.set_path(p);
            Ok(String::from(parsed))
        },
        Err(_) => Err(()),
    }
}

/// The provider settings, either for a well-known Azure AD tenant or
/// for a generic provider with its own discovery document.
#[derive(Clone, Debug)]
pub enum ConfigWrapper {
    Aad(AadInnerConfig),
    OpenId(OpenIdInnerConfig),
}

/// Azure AD settings: the tenant to discover, and the application
/// (client) identifier every accepted token must name as audience.
#[derive(Clone, Debug)]
pub struct AadInnerConfig {
    pub tenant: String,
    pub application_id: String,
}

/// Generic provider settings: the discovery document URL, and an
/// optional expected audience.
#[derive(Clone, Debug)]
pub struct OpenIdInnerConfig {
    pub discovery_url: String,
    pub audience: Option<String>,
}

impl ConfigWrapper {
    /// The audience accepted tokens must carry: for Azure AD the
    /// application identifier, for a generic provider whatever was
    /// configured.
    pub fn get_audience(&self) -> (r: Option<String>)
        ensures
            r is Some <==> (match self {
                ConfigWrapper::Aad(_) => true,
                ConfigWrapper::OpenId(c) => c.audience is Some,
            }),
            r matches Some(a) ==> a@ == (match self {
                ConfigWrapper::Aad(c) => c.application_id@,
                ConfigWrapper::OpenId(c) => c.audience.unwrap()@,
            }),
    {
        match self {
            ConfigWrapper::Aad(c) => Some(c.application_id.clone()),
            ConfigWrapper::OpenId(c) => match &c.audience {
                Some(a) => Some(a.clone()),
                None => None,
            },
        }
    }

    /// Where the discovery document lives: the well-known Azure AD
    /// location for the tenant, or the configured URL.
    pub fn get_discovery_uri(&self) -> (r: String)
        ensures
            r@ == (match self {
                ConfigWrapper::Aad(c) => "https://login.microsoftonline.com/"@ + c.tenant@
                    + "/.well-known/openid-configuration"@,
                ConfigWrapper::OpenId(c) => c.discovery_url@,
            }),
    {
        match self {
            ConfigWrapper::Aad(c) => {
                let mut out = "https://login.microsoftonline.com/".to_owned();
                out.append(c.tenant.as_str());
                out.append("/.well-known/openid-configuration");
                out
            },
            ConfigWrapper::OpenId(c) => c.discovery_url.clone(),
        }
    }
}

/// The fields of a provider's discovery document that this backend
/// consumes.
#[derive(Clone, Debug)]
pub struct OpenIdDiscoveryDocument {
    pub authorization_endpoint: String,
    pub jwks_uri: String,
    pub id_token_signing_alg_values_supported: Vec<String>,
    pub end_session_endpoint: Option<String>,
}

/// One published signing key as the provider advertises it: its key
/// id, and its X.509 certificate chain in base64.
#[derive(Clone, Debug)]
pub struct JwkEntry {
    pub kid: String,
    pub x5c: Vec<String>,
}

/// The usable key material of one advertised key: the RSA public key
/// of the first certificate of its chain, absent when the chain is
/// empty or does not hold an RSA certificate.
pub open spec fn spec_jwk_key(e: JwkEntry) -> Option<Seq<u8>> {
    if e.x5c@.len() == 0 {
        None
    } else {
        match base64_decoded(e.x5c@[0]@) {
            None => None,
            Some(der) => rsa_key_from_cert(der),
        }
    }
}

/// The key stored under `kid` after indexing `entries` in order: the
/// latest entry with that id whose key material is usable; entries
/// without usable material are skipped.
pub open spec fn spec_lookup_key(entries: Seq<JwkEntry>, kid: Seq<char>) -> Option<Seq<u8>>
    decreases entries.len(),
{
    if entries.len() == 0 {
        None
    } else {
        let last = entries.last();
        if last.kid@ == kid && spec_jwk_key(last) is Some {
            spec_jwk_key(last)
        } else {
            spec_lookup_key(entries.drop_last(), kid)
        }
    }
}

/// Extracts the usable key material of one advertised key.
fn jwk_to_key(e: &JwkEntry) -> (r: Option<Vec<u8>>)
    ensures
        r is Some <==> spec_jwk_key(*e) is Some,
        r matches Some(b) ==> b@ == spec_jwk_key(*e).unwrap(),
{
    if e.x5c.len() == 0 {
        return None;
    }
    let der = match b64_decode(e.x5c[0].as_str()) {
        Ok(d) => d,
        Err(_) => {
            return None;
        },
    };
    match cert_to_rsa_der(&der) {
        Ok(k) => Some(k),
        Err(_) => None,
    }
}

/// Indexes advertised keys by key id, in order, skipping entries
/// without usable material; a later entry with the same id replaces an
/// earlier one.
pub fn build_key_set(entries: &Vec<JwkEntry>) -> (r: StrMap<Vec<u8>>)
    ensures
        r.wf(),
        forall|kid: Seq<char>|
            (#[trigger] r.spec_get(kid)) is Some <==> spec_lookup_key(entries@, kid) is Some,
        forall|kid: Seq<char>|
            (#[trigger] r.spec_get(kid)) matches Some(v) ==> spec_lookup_key(entries@, kid)
                == Some(v@),
{
    let mut out: StrMap<Vec<u8>> = StrMap::new();
    let n = entries.len();
    let mut i: usize = 0;
    while i < n
        invariant
            i <= n,
            n == entries@.len(),
            out.wf(),
            forall|kid: Seq<char>|
                (#[trigger] out.spec_get(kid)) is Some <==> spec_lookup_key(
                    entries@.take(i as int),
                    kid,
                ) is Some,
            forall|kid: Seq<char>|
                (#[trigger] out.spec_get(kid)) matches Some(v) ==> spec_lookup_key(
                    entries@.take(i as int),
                    kid,
                ) == Some(v@),
        decreases n - i,
    {
        let e = &entries[i];
        let ghost pre = out;
        match jwk_to_key(e) {
            Some(key) => {
                out.insert(e.kid.clone(), key);
            },
            None => {},
        }
        proof {
            assert(entries@.take(i + 1).drop_last() =~= entries@.take(i as int));
            assert(entries@.take(i + 1).last() == entries@[i as int]);
            assert forall|kid: Seq<char>|
                ((#[trigger] out.spec_get(kid)) is Some <==> spec_lookup_key(
                    entries@.take(i + 1),
                    kid,
                ) is Some) && ((out.spec_get(kid)) matches Some(v) ==> spec_lookup_key(
                    entries@.take(i + 1),
                    kid,
                ) == Some(v@)) by {
                if kid == entries@[i as int].kid@ && spec_jwk_key(entries@[i as int]) is Some {
                    assert(spec_lookup_key(entries@.take(i + 1), kid) == spec_jwk_key(
                        entries@[i as int],
                    ));
                } else {
                    assert(spec_lookup_key(entries@.take(i + 1), kid) == spec_lookup_key(
                        entries@.take(i as int),
                        kid,
                    ));
                    if kid != entries@[i as int].kid@ {
                        assert(out.spec_get(kid) == pre.spec_get(kid));
                    }
                }
            }
        }
        i = i + 1;
    }
    proof {
        assert(entries@.take(n as int) =~= entries@);
    }
    out
}


/// One CSRF login session: created when a login redirect is issued,
/// consumed exactly once when the provider's response returns.
#[derive(Debug)]
pub struct OpenIdCsrfSession {
    pub created: u64,
    pub state_token: String,
    pub nonce_token: String,
}

/// Why initialization from a discovery document failed. These are
/// unrecoverable configuration problems: without key material and an
/// acceptable algorithm no token can ever be validated.
#[derive(Debug, PartialEq, Eq, Structural, Clone, Copy)]
pub enum OpenIdInitError {
    /// No usable key material came from the provider's key set.
    EmptyKeySet,
    /// The provider advertises no acceptable signing algorithm.
    NoAcceptableAlgorithms,
    /// An advertised endpoint or the server's own address is not a URL.
    InvalidUrl,
}

/// Why a provider callback was rejected.
#[derive(Debug, PartialEq, Eq, Structural, Clone, Copy)]
pub enum OpenIdCallbackError {
    /// No CSRF session matches the callback's state: the callback does
    /// not belong to a login this service initiated, or the session
    /// was already consumed or expired.
    NoCsrfSession,
    /// The identity token could not be decoded and verified.
    TokenRejected,
    /// The token's nonce or the callback's state does not match the
    /// consumed CSRF session.
    CsrfMismatch,
}

/// The OpenID Connect backend's runtime state: the endpoints and
/// policy fixed at startup, the key cache, the CSRF-session store, and
/// the per-identity last-seen token used for federated logout.
#[derive(Debug)]
pub struct OpenIdAuthnBackend {
    /// The provider's authorization endpoint.
    pub redirect_url_base: String,
    /// The provider's key-set endpoint, for refreshes.
    pub jwks_update_url: String,
    /// This service's own externally visible address.
    pub server_url_base: String,
    /// The provider's end-session endpoint, if it advertises one.
    pub logout_url_base: Option<String>,
    /// The client identifier sent on login and expected as audience.
    pub client_id: Option<String>,
    /// The algorithm allow-list; never empty.
    pub allowed_algs: Vec<SigAlg>,
    /// The provider's public keys, by key id.
    pub jwks_keys: StrMap<Vec<u8>>,
    /// The open CSRF login sessions, by state token.
    pub csrf_sessions: StrMap<OpenIdCsrfSession>,
    /// The last-seen identity token per email, for logout hints.
    pub old_tokens: StrMap<String>,
}

impl OpenIdAuthnBackend {
    pub open spec fn wf(&self) -> bool {
        &&& self.jwks_keys.wf()
        &&& self.csrf_sessions.wf()
        &&& self.old_tokens.wf()
        &&& self.allowed_algs@.len() >= 1
        &&& url_is_valid(self.redirect_url_base@)
        &&& url_is_valid(self.server_url_base@)
        &&& (self.logout_url_base matches Some(u) ==> url_is_valid(u@))
    }

    /// The parts fixed at startup are equal; only the CSRF store may
    /// differ.
    pub open spec fn only_csrf_changed(pre: Self, post: Self) -> bool {
        post == (OpenIdAuthnBackend { csrf_sessions: post.csrf_sessions, ..pre })
    }

    /// Only the pending-logout-token map may differ.
    pub open spec fn only_tokens_changed(pre: Self, post: Self) -> bool {
        post == (OpenIdAuthnBackend { old_tokens: post.old_tokens, ..pre })
    }

    /// Only the key cache may differ.
    pub open spec fn only_keys_changed(pre: Self, post: Self) -> bool {
        post == (OpenIdAuthnBackend { jwks_keys: post.jwks_keys, ..pre })
    }

    /// Assembles the backend from a fetched discovery document and a
    /// fetched key set: the advertised algorithms are filtered to the
    /// acceptable set, the keys are indexed by id, and the endpoints
    /// are checked to be URLs. An empty key set, an empty algorithm
    /// list and a malformed endpoint are each fatal.
    pub fn from_discovery(
        doc: OpenIdDiscoveryDocument,
        server_address: String,
        audience: Option<String>,
        entries: &Vec<JwkEntry>,
    ) -> (r: Result<Self, OpenIdInitError>)
        ensures
            r matches Ok(b) ==> ({
                &&& b.wf()
                &&& b.redirect_url_base == doc.authorization_endpoint
                &&& b.jwks_update_url == doc.jwks_uri
                &&& b.server_url_base == server_address
                &&& b.logout_url_base == doc.end_session_endpoint
                &&& b.client_id == audience
                &&& b.allowed_algs@ == spec_filter_algs(
                    doc.id_token_signing_alg_values_supported@.map_values(|s: String| s@),
                )
                &&& forall|kid: Seq<char>|
                    (#[trigger] b.jwks_keys.spec_get(kid)) is Some <==> spec_lookup_key(
                        entries@,
                        kid,
                    ) is Some
                &&& forall|kid: Seq<char>|
                    (#[trigger] b.jwks_keys.spec_get(kid)) matches Some(v) ==> spec_lookup_key(
                        entries@,
                        kid,
                    ) == Some(v@)
                &&& forall|q: Seq<char>| #[trigger] b.csrf_sessions.spec_get(q) is None
                &&& forall|q: Seq<char>| #[trigger] b.old_tokens.spec_get(q) is None
            }),
            r is Ok <==> ((exists|kid: Seq<char>| #[trigger] spec_lookup_key(entries@, kid)
                is Some) && spec_filter_algs(
                doc.id_token_signing_alg_values_supported@.map_values(|s: String| s@),
            ).len() > 0 && url_is_valid(doc.authorization_endpoint@) && url_is_valid(
                server_address@,
            ) && (doc.end_session_endpoint matches Some(u) ==> url_is_valid(u@))),
            r == Err::<Self, OpenIdInitError>(OpenIdInitError::EmptyKeySet) <==> (forall|
                kid: Seq<char>,
            |
                #[trigger] spec_lookup_key(entries@, kid) is None),
            r == Err::<Self, OpenIdInitError>(OpenIdInitError::NoAcceptableAlgorithms) <==> ((
            exists|kid: Seq<char>| #[trigger] spec_lookup_key(entries@, kid) is Some)
                && spec_filter_algs(
                doc.id_token_signing_alg_values_supported@.map_values(|s: String| s@),
            ).len() == 0),
    {
        let keys = build_key_set(entries);
        if keys.len() == 0 {
            proof {
                assert forall|kid: Seq<char>| #[trigger] spec_lookup_key(entries@, kid) is None
                    by {
                    if spec_lookup_key(entries@, kid) is Some {
                        assert(keys.spec_get(kid) is Some);
                        let i = keys.spec_index_of(kid);
                        assert(false);
                    }
                }
            }
            return Err(OpenIdInitError::EmptyKeySet);
        }
        proof {
            keys.lemma_entry_get(0);
            assert(spec_lookup_key(entries@, keys.entry_seq()[0].0) is Some);
        }
        let algs = filter_algorithms(&doc.id_token_signing_alg_values_supported);
        if algs.len() == 0 {
            return Err(OpenIdInitError::NoAcceptableAlgorithms);
        }
        if !check_url(doc.authorization_endpoint.as_str()) {
            return Err(OpenIdInitError::InvalidUrl);
        }
        if !check_url(server_address.as_str()) {
            return Err(OpenIdInitError::InvalidUrl);
        }
        match &doc.end_session_endpoint {
            Some(u) => {
                if !check_url(u.as_str()) {
                    return Err(OpenIdInitError::InvalidUrl);
                }
            },
            None => {},
        }
        Ok(
            OpenIdAuthnBackend {
                redirect_url_base: doc.authorization_endpoint,
                jwks_update_url: doc.jwks_uri,
                server_url_base: server_address,
                logout_url_base: doc.end_session_endpoint,
                client_id: audience,
                allowed_algs: algs,
                jwks_keys: keys,
                csrf_sessions: StrMap::new(),
                old_tokens: StrMap::new(),
            },
        )
    }

    /// Opens a fresh CSRF login session at time `now`: two independent
    /// unguessable tokens, stored under the state token.
    pub fn new_csrf_session(&mut self, now: u64) -> (r: OpenIdCsrfSession)
        requires
            old(self).wf(),
        ensures
            final(self).wf(),
            Self::only_csrf_changed(*old(self), *final(self)),
            r.created == now,
            r.state_token@.len() == CSRF_TOKEN_LEN,
            r.nonce_token@.len() == CSRF_TOKEN_LEN,
            forall|i: int|
                0 <= i < r.state_token@.len() ==> is_token_char(#[trigger] r.state_token@[i]),
            forall|i: int|
                0 <= i < r.nonce_token@.len() ==> is_token_char(#[trigger] r.nonce_token@[i]),
            final(self).csrf_sessions.spec_get(r.state_token@) matches Some(s) && s.created
                == now && s.state_token@ == r.state_token@ && s.nonce_token@ == r.nonce_token@,
            forall|q: Seq<char>|
                q != r.state_token@ ==> #[trigger] final(self).csrf_sessions.spec_get(q) == old(
                    self,
                ).csrf_sessions.spec_get(q),
    {
        let state = generate_rand_string(CSRF_TOKEN_LEN);
        let nonce = generate_rand_string(CSRF_TOKEN_LEN);
        let stored = OpenIdCsrfSession {
            created: now,
            state_token: state.clone(),
            nonce_token: nonce.clone(),
        };
        self.csrf_sessions.insert(state.clone(), stored);
        OpenIdCsrfSession { created: now, state_token: state, nonce_token: nonce }
    }

    /// Atomically removes and returns the CSRF session stored under
    /// `state`. Consumption is exactly-once: a successful pull removes
    /// the session, so a second pull of the same state fails.
    pub fn pull_csrf_session(&mut self, state: &str) -> (r: Result<OpenIdCsrfSession, ()>)
        requires
            old(self).wf(),
        ensures
            final(self).wf(),
            Self::only_csrf_changed(*old(self), *final(self)),
            r is Ok <==> old(self).csrf_sessions.spec_get(state@) is Some,
            r matches Ok(s) ==> old(self).csrf_sessions.spec_get(state@) == Some(s),
            final(self).csrf_sessions.spec_get(state@) is None,
            forall|q: Seq<char>|
                q != state@ ==> #[trigger] final(self).csrf_sessions.spec_get(q) == old(
                    self,
                ).csrf_sessions.spec_get(q),
    {
        match self.csrf_sessions.remove(state) {
            Some(s) => Ok(s),
            None => Err(()),
        }
    }

    /// A verified acceptance of a token: its header names an allowed
    /// algorithm, and the returned claims are the token's own.
    pub open spec fn spec_token_accepted(&self, token: Seq<char>, c: OpenIdClaims) -> bool {
        &&& jwt_header_info(token) matches Some(h) && spec_alg_allowed(
            self.allowed_algs@,
            h.alg,
        )
        &&& jwt_claims_info(token) matches Some(cl) && c.sub@ == cl.sub && c.name@ == cl.name
            && c.email@ == cl.email && c.nonce@ == cl.nonce
    }

    /// Verifies a token against one cached key, named by its id. A
    /// key id that is not cached is rejected outright, with no
    /// fallback to other keys.
    fn decode_with_kid(&self, token: &str, kid: &str) -> (r: Result<OpenIdClaims, ()>)
        requires
            self.wf(),
        ensures
            r matches Ok(c) ==> self.spec_token_accepted(token@, c),
            self.jwks_keys.spec_get(kid@) is None ==> r is Err,
    {
        match self.jwks_keys.get(kid) {
            None => Err(()),
            Some(key) => jwt_decode_verify(token, key, &self.allowed_algs, &self.client_id),
        }
    }

    /// Verifies a token against every cached key in turn, for
    /// providers that omit the key id.
    fn decode_without_kid(&self, token: &str) -> (r: Result<OpenIdClaims, ()>)
        requires
            self.wf(),
        ensures
            r matches Ok(c) ==> self.spec_token_accepted(token@, c),
    {
        let n = self.jwks_keys.len();
        let mut i: usize = 0;
        while i < n
            invariant
                i <= n,
                n == self.jwks_keys.spec_len(),
                self.wf(),
            decreases n - i,
        {
            let key = self.jwks_keys.value_at(i);
            let attempt = jwt_decode_verify(token, key, &self.allowed_algs, &self.client_id);
            match attempt {
                Ok(c) => {
                    return Ok(c);
                },
                Err(_) => {},
            }
            i = i + 1;
        }
        Err(())
    }

    /// Decodes and cryptographically verifies an identity token: the
    /// header's key id selects the cached key, or every key is tried
    /// when the header names none. A token whose header algorithm is
    /// outside the allow-list is rejected regardless of its signature,
    /// as is one whose header cannot be read or whose named key id is
    /// not cached.
    pub fn verify_token(&self, token: &str) -> (r: Result<OpenIdClaims, ()>)
        requires
            self.wf(),
        ensures
            r matches Ok(c) ==> self.spec_token_accepted(token@, c),
            jwt_header_info(token@) is None ==> r is Err,
            (jwt_header_info(token@) matches Some(h) && !spec_alg_allowed(
                self.allowed_algs@,
                h.alg,
            )) ==> r is Err,
            (jwt_header_info(token@) matches Some(h) && h.kid matches Some(k)
                && self.jwks_keys.spec_get(k) is None) ==> r is Err,
    {
        let kid = match jwt_decode_header(token) {
            Ok(k) => k,
            Err(_) => {
                return Err(());
            },
        };
        match kid {
            Some(k) => self.decode_with_kid(token, k.as_str()),
            None => self.decode_without_kid(token),
        }
    }

    /// Decides a provider callback: the CSRF session matching `state`
    /// is consumed (absence is a hard failure: no replay, no
    /// guessing), the token is decoded and verified, and the token's
    /// nonce and the callback's state must equal the consumed
    /// session's pair. Acceptance therefore proves the callback
    /// belongs to a login this service itself initiated.
    pub fn verify_callback(&mut self, state: &str, id_token: &str) -> (r: Result<
        OpenIdClaims,
        OpenIdCallbackError,
    >)
        requires
            old(self).wf(),
        ensures
            final(self).wf(),
            Self::only_csrf_changed(*old(self), *final(self)),
            final(self).csrf_sessions.spec_get(state@) is None,
            forall|q: Seq<char>|
                q != state@ ==> #[trigger] final(self).csrf_sessions.spec_get(q) == old(
                    self,
                ).csrf_sessions.spec_get(q),
            old(self).csrf_sessions.spec_get(state@) is None <==> r == Err::<
                OpenIdClaims,
                OpenIdCallbackError,
            >(OpenIdCallbackError::NoCsrfSession),
            r matches Ok(c) ==> ({
                &&& old(self).csrf_sessions.spec_get(state@) matches Some(sess)
                    && sess.nonce_token@ == c.nonce@ && sess.state_token@ == state@
                &&& old(self).spec_token_accepted(id_token@, c)
            }),
            r == Err::<OpenIdClaims, OpenIdCallbackError>(OpenIdCallbackError::CsrfMismatch)
                ==> ({
                &&& old(self).csrf_sessions.spec_get(state@) matches Some(sess)
                    && jwt_claims_info(id_token@) matches Some(cv) && !(cv.nonce
                    == sess.nonce_token@ && sess.state_token@ == state@)
            }),
            r == Err::<OpenIdClaims, OpenIdCallbackError>(OpenIdCallbackError::TokenRejected)
                ==> old(self).csrf_sessions.spec_get(state@) is Some,
    {
        let sess = match self.pull_csrf_session(state) {
            Ok(s) => s,
            Err(_) => {
                return Err(OpenIdCallbackError::NoCsrfSession);
            },
        };
        let claims = match self.verify_token(id_token) {
            Ok(c) => c,
            Err(_) => {
                return Err(OpenIdCallbackError::TokenRejected);
            },
        };
        if !str_eq(sess.nonce_token.as_str(), claims.nonce.as_str()) || !str_eq(
            sess.state_token.as_str(),
            state,
        ) {
            return Err(OpenIdCallbackError::CsrfMismatch);
        }
        Ok(claims)
    }

    /// Records the identity token last seen for an email, to supply as
    /// a hint on federated logout.
    pub fn record_identity_token(&mut self, email: &str, id_token: &str)
        requires
            old(self).wf(),
        ensures
            final(self).wf(),
            Self::only_tokens_changed(*old(self), *final(self)),
            final(self).old_tokens.spec_get(email@) matches Some(t) && t@ == id_token@,
            forall|q: Seq<char>|
                q != email@ ==> #[trigger] final(self).old_tokens.spec_get(q) == old(
                    self,
                ).old_tokens.spec_get(q),
    {
        self.old_tokens.insert(email.to_owned(), id_token.to_owned());
    }

    /// Federated single sign-out: pops the stored identity token for
    /// the email and, when the provider advertises an end-session
    /// endpoint, returns that endpoint, with the token appended as
    /// `id_token_hint` when one was stored. Without an advertised
    /// endpoint, logout stays local.
    pub fn on_logout(&mut self, email: &str) -> (r: Option<String>)
        requires
            old(self).wf(),
        ensures
            final(self).wf(),
            Self::only_tokens_changed(*old(self), *final(self)),
            final(self).old_tokens.spec_get(email@) is None,
            forall|q: Seq<char>|
                q != email@ ==> #[trigger] final(self).old_tokens.spec_get(q) == old(
                    self,
                ).old_tokens.spec_get(q),
            r is Some <==> old(self).logout_url_base is Some,
            old(self).logout_url_base matches Some(base) ==> (match old(
                self,
            ).old_tokens.spec_get(email@) {
                Some(tok) => r matches Some(u) && u@ == url_with_query_pair(
                    base@,
                    "id_token_hint"@,
                    tok@,
                ),
                None => r matches Some(u) && u@ == base@,
            }),
    {
        let stored = self.old_tokens.remove(email);
        match &self.logout_url_base {
            None => None,
            Some(base) => match stored {
                Some(tok) => {
                    match url_append_query_pair(base.as_str(), "id_token_hint", tok.as_str()) {
                        Ok(u) => Some(u),
                        Err(_) => {
                            proof {
                                assert(false);
                            }
                            None
                        },
                    }
                },
                None => Some(base.clone()),
            },
        }
    }

    /// Replaces the whole key cache from a freshly fetched key set, in
    /// one wholesale swap. A fetch from which no usable key material
    /// comes is refused and the previous keys are retained,
    /// stale-but-valid keys being safer than none.
    pub fn replace_keys(&mut self, entries: &Vec<JwkEntry>) -> (r: Result<(), ()>)
        requires
            old(self).wf(),
        ensures
            final(self).wf(),
            Self::only_keys_changed(*old(self), *final(self)),
            r is Ok <==> (exists|kid: Seq<char>|
                #[trigger] spec_lookup_key(entries@, kid) is Some),
            r is Err ==> final(self).jwks_keys == old(self).jwks_keys,
            r is Ok ==> forall|kid: Seq<char>|
                (#[trigger] final(self).jwks_keys.spec_get(kid)) is Some <==> spec_lookup_key(
                    entries@,
                    kid,
                ) is Some,
            r is Ok ==> forall|kid: Seq<char>|
                (#[trigger] final(self).jwks_keys.spec_get(kid)) matches Some(v)
                    ==> spec_lookup_key(entries@, kid) == Some(v@),
    {
        let built = build_key_set(entries);
        if built.len() == 0 {
            proof {
                assert forall|kid: Seq<char>| #[trigger] spec_lookup_key(entries@, kid) is None
                    by {
                    if spec_lookup_key(entries@, kid) is Some {
                        assert(built.spec_get(kid) is Some);
                        let i = built.spec_index_of(kid);
                        assert(false);
                    }
                }
            }
            return Err(());
        }
        proof {
            built.lemma_entry_get(0);
            assert(spec_lookup_key(entries@, built.entry_seq()[0].0) is Some);
        }
        self.jwks_keys = built;
        Ok(())
    }

    /// The authorization URL a login redirect sends the caller to:
    /// the provider's authorization endpoint carrying the implicit
    /// flow's parameters, the fresh nonce and state, this service's
    /// callback address, and the client identifier when one is
    /// configured.
    pub open spec fn spec_authorize_url(&self, nonce: Seq<char>, state: Seq<char>) -> Seq<char> {
        let redir = url_with_path(self.server_url_base@, "api/authn/openid"@);
        let u1 = url_with_query_pair(self.redirect_url_base@, "scope"@, "openid"@);
        let u2 = url_with_query_pair(u1, "response_type"@, "id_token"@);
        let u3 = url_with_query_pair(u2, "nonce"@, nonce);
        let u4 = url_with_query_pair(u3, "redirect_uri"@, redir);
        let u5 = url_with_query_pair(u4, "response_mode"@, "form_post"@);
        let u6 = url_with_query_pair(u5, "state"@, state);
        match self.client_id {
            Some(id) => url_with_query_pair(u6, "client_id"@, id@),
            None => u6,
        }
    }

    /// Starts a login: opens a fresh CSRF session and builds the
    /// provider's authorization URL for it.
    pub fn login_redirect(&mut self, now: u64) -> (r: (String, OpenIdCsrfSession))
        requires
            old(self).wf(),
        ensures
            final(self).wf(),
            Self::only_csrf_changed(*old(self), *final(self)),
            r.1.created == now,
            r.1.state_token@.len() == CSRF_TOKEN_LEN,
            r.1.nonce_token@.len() == CSRF_TOKEN_LEN,
            final(self).csrf_sessions.spec_get(r.1.state_token@) matches Some(s) && s.created
                == now && s.state_token@ == r.1.state_token@ && s.nonce_token@
                == r.1.nonce_token@,
            forall|q: Seq<char>|
                q != r.1.state_token@ ==> #[trigger] final(self).csrf_sessions.spec_get(q)
                    == old(self).csrf_sessions.spec_get(q),
            r.0@ == old(self).spec_authorize_url(r.1.nonce_token@, r.1.state_token@),
    {
        let sess = self.new_csrf_session(now);
        let redir = match url_set_path(self.server_url_base.as_str(), "api/authn/openid") {
            Ok(u) => u,
            Err(_) => {
                proof {
                    assert(false);
                }
                String::new()
            },
        };
        let u1 = append_pair_checked(self.redirect_url_base.as_str(), "scope", "openid");
        let u2 = append_pair_checked(u1.as_str(), "response_type", "id_token");
        let u3 = append_pair_checked(u2.as_str(), "nonce", sess.nonce_token.as_str());
        let u4 = append_pair_checked(u3.as_str(), "redirect_uri", redir.as_str());
        let u5 = append_pair_checked(u4.as_str(), "response_mode", "form_post");
        let u6 = append_pair_checked(u5.as_str(), "state", sess.state_token.as_str());
        let url = match &self.client_id {
            Some(id) => append_pair_checked(u6.as_str(), "client_id", id.as_str()),
            None => u6,
        };
        (url, sess)
    }

    /// One CSRF sweep at time `now`: exactly the sessions that have
    /// sat unconsumed past their lifetime are removed.
    pub fn sweep_csrf(&mut self, now: u64)
        requires
            old(self).wf(),
        ensures
            final(self).wf(),
            Self::only_csrf_changed(*old(self), *final(self)),
            forall|t: Seq<char>|
                #[trigger] final(self).csrf_sessions.spec_get(t) == (match old(
                    self,
                ).csrf_sessions.spec_get(t) {
                    Some(s) => if now > s.created + CSRF_LIFETIME_SECS {
                        None
                    } else {
                        Some(s)
                    },
                    None => None,
                }),
    {
        let mut doomed: Vec<String> = Vec::new();
        let n = self.csrf_sessions.len();
        let mut i: usize = 0;
        while i < n
            invariant
                i <= n,
                n == self.csrf_sessions.spec_len(),
                self.csrf_sessions.wf(),
                forall|m: int|
                    0 <= m < doomed@.len() ==> (self.csrf_sessions.spec_get((
                    #[trigger] doomed@[m])@) matches Some(s) && now > s.created
                        + CSRF_LIFETIME_SECS),
                forall|idx: int|
                    0 <= idx < i && now > (#[trigger] self.csrf_sessions.entry_seq()[idx]).1.created
                        + CSRF_LIFETIME_SECS ==> exists|m: int|
                        0 <= m < doomed@.len() && (#[trigger] doomed@[m])@
                            == self.csrf_sessions.entry_seq()[idx].0,
            decreases n - i,
        {
            let is_expired = {
                let v = self.csrf_sessions.value_at(i);
                now >= v.created && now - v.created > CSRF_LIFETIME_SECS
            };
            let ghost doomed_pre = doomed@;
            if is_expired {
                let k = self.csrf_sessions.key_at(i).clone();
                proof {
                    self.csrf_sessions.lemma_entry_get(i as int);
                }
                doomed.push(k);
            }
            proof {
                assert forall|idx: int|
                    0 <= idx < i + 1 && now > (
                    #[trigger] self.csrf_sessions.entry_seq()[idx]).1.created
                        + CSRF_LIFETIME_SECS implies exists|m: int|
                    0 <= m < doomed@.len() && (#[trigger] doomed@[m])@
                        == self.csrf_sessions.entry_seq()[idx].0 by {
                    if idx == i {
                        assert(is_expired);
                        assert((doomed@[doomed@.len() - 1])@
                            == self.csrf_sessions.entry_seq()[idx].0);
                    } else {
                        let m = choose|m: int|
                            0 <= m < doomed_pre.len() && (#[trigger] doomed_pre[m])@
                                == self.csrf_sessions.entry_seq()[idx].0;
                        assert((doomed@[m])@ == self.csrf_sessions.entry_seq()[idx].0);
                    }
                }
            }
            i = i + 1;
        }
        self.csrf_sessions.remove_keys(&doomed);
        proof {
            let pre = old(self);
            assert forall|t: Seq<char>| true implies #[trigger] self.csrf_sessions.spec_get(t)
                == (match pre.csrf_sessions.spec_get(t) {
                Some(s) => if now > s.created + CSRF_LIFETIME_SECS {
                    None
                } else {
                    Some(s)
                },
                None => None,
            }) by {
                match pre.csrf_sessions.spec_get(t) {
                    Some(s) => {
                        if now > s.created + CSRF_LIFETIME_SECS {
                            let idx = pre.csrf_sessions.spec_index_of(t);
                            assert(pre.csrf_sessions.entry_seq()[idx].0 == t);
                            assert(pre.csrf_sessions.entry_seq()[idx].1 == s);
                            assert(exists|m: int|
                                0 <= m < doomed@.len() && (#[trigger] doomed@[m])@ == t);
                        } else {
                            if exists|m: int|
                                0 <= m < doomed@.len() && (#[trigger] doomed@[m])@ == t {
                                let m = choose|m: int|
                                    0 <= m < doomed@.len() && (#[trigger] doomed@[m])@ == t;
                                assert(pre.csrf_sessions.spec_get(doomed@[m]@) matches Some(s2)
                                    && now > s2.created + CSRF_LIFETIME_SECS);
                                assert(false);
                            }
                        }
                    },
                    None => {
                        if exists|m: int|
                            0 <= m < doomed@.len() && (#[trigger] doomed@[m])@ == t {
                            let m = choose|m: int|
                                0 <= m < doomed@.len() && (#[trigger] doomed@[m])@ == t;
                            assert(pre.csrf_sessions.spec_get(doomed@[m]@) matches Some(s2));
                            assert(false);
                        }
                    },
                }
            }
        }
    }
}

/// Appends one query pair to a URL known to be valid.
fn append_pair_checked(u: &str, k: &str, v: &str) -> (r: String)
    requires
        url_is_valid(u@),
    ensures
        r@ == url_with_query_pair(u@, k@, v@),
        url_is_valid(r@),
{
    match url_append_query_pair(u, k, v) {
        Ok(s) => s,
        Err(_) => {
            proof {
                assert(false);
            }
            String::new()
        },
    }
}

/// Every allow-list this backend can hold admits only the RSA family,
/// so a symmetric or `none` algorithm is never allowed: a token whose
/// header names one fails verification regardless of its signature.
pub proof fn lemma_algorithm_rejection(algs: Seq<SigAlg>, name: Seq<char>)
    requires
        name == "HS256"@ || name == "none"@,
    ensures
        !spec_alg_allowed(algs, name),
{
    reveal_strlit("HS256");
    reveal_strlit("none");
    reveal_strlit("RS256");
    reveal_strlit("RS384");
    reveal_strlit("RS512");
    if spec_alg_allowed(algs, name) {
        let i = choose|i: int| 0 <= i < algs.len() && (#[trigger] algs[i]).spec_name() == name;
        if name == "none"@ {
            assert(name.len() == 4);
            assert(algs[i].spec_name().len() == 5);
        } else {
            assert(name[0] == 'H');
            assert(algs[i].spec_name()[0] == 'R');
        }
    }
}

} // verus!
