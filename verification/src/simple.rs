//! The password backend: credential rows keyed by canonical login,
//! verified against a memory-hard password hash.

use crate::authn::{AuthnCreateError, AuthnFailure};
use crate::strmap::StrMap;
use crate::util::{
    canonical_login, canonicalize_login, check_password, has_at, hash_password, lower_seq,
    to_lowercase, PasswordHash,
};
use vstd::prelude::*;

verus! {

/// One stored credential row: the display email, the canonical login
/// it is found under, and the password verifier, if one was set.
#[derive(Debug)]
pub struct AuthnCredential {
    pub email: String,
    pub login_email: String,
    pub password: Option<PasswordHash>,
}

/// The password backend over its credential store, keyed by canonical
/// login.
#[derive(Debug)]
pub struct SimpleAuthnBackend {
    pub credentials: StrMap<AuthnCredential>,
}

impl SimpleAuthnBackend {
    pub open spec fn wf(&self) -> bool {
        self.credentials.wf()
    }

    /// A backend with an empty credential store.
    pub fn new() -> (r: Self)
        ensures
            r.wf(),
            forall|q: Seq<char>| #[trigger] r.credentials.spec_get(q) is None,
    {
        SimpleAuthnBackend { credentials: StrMap::new() }
    }

    /// What authentication decides: a name that does not canonicalize,
    /// an unknown login and a login without a stored hash are an
    /// invalid user; a stored hash decides between the display email
    /// and an invalid password.
    pub open spec fn spec_authenticate(&self, username: Seq<char>, passwd: Seq<char>) -> Result<
        String,
        AuthnFailure,
    > {
        if !has_at(lower_seq(username)) {
            Err(AuthnFailure::InvalidUser)
        } else {
            match self.credentials.spec_get(canonical_login(username)) {
                None => Err(AuthnFailure::InvalidUser),
                Some(c) => match c.password {
                    None => Err(AuthnFailure::InvalidUser),
                    Some(h) => if h.spec_matches(passwd) {
                        Ok(c.email)
                    } else {
                        Err(AuthnFailure::InvalidPassword)
                    },
                },
            }
        }
    }

    /// Canonicalizes the username, looks the credential row up, and
    /// verifies the password against the stored hash.
    pub fn authenticate(&self, username: &str, passwd: &str) -> (r: Result<String, AuthnFailure>)
        requires
            self.wf(),
        ensures
            r == self.spec_authenticate(username@, passwd@),
    {
        let login = match canonicalize_login(username) {
            Ok(l) => l,
            Err(_) => {
                return Err(AuthnFailure::InvalidUser);
            },
        };
        match self.credentials.get(login.as_str()) {
            None => Err(AuthnFailure::InvalidUser),
            Some(c) => match &c.password {
                None => Err(AuthnFailure::InvalidUser),
                Some(h) => if check_password(passwd, h) {
                    Ok(c.email.clone())
                } else {
                    Err(AuthnFailure::InvalidPassword)
                },
            },
        }
    }

    /// Creates a credential row: the password is hashed under a fresh
    /// salt and stored with the lowercased display email under the
    /// canonical login. A name that does not canonicalize is rejected.
    pub fn create_user(&mut self, username: &str, passwd: &str) -> (r: Result<
        (),
        AuthnCreateError,
    >)
        requires
            old(self).wf(),
        ensures
            final(self).wf(),
            r is Ok <==> has_at(lower_seq(username@)),
            r is Err ==> r == Err::<(), AuthnCreateError>(AuthnCreateError::Other)
                && *final(self) == *old(self),
            r is Ok ==> (final(self).credentials.spec_get(canonical_login(username@))
                matches Some(c) && c.email@ == lower_seq(username@) && c.login_email@
                == canonical_login(username@) && (c.password matches Some(h)
                && h.spec_matches(passwd@))),
            forall|q: Seq<char>|
                q != canonical_login(username@) ==> #[trigger] final(self).credentials.spec_get(
                    q,
                ) == old(self).credentials.spec_get(q),
    {
        let login = match canonicalize_login(username) {
            Ok(l) => l,
            Err(_) => {
                return Err(AuthnCreateError::Other);
            },
        };
        let display = to_lowercase(username);
        let hash = hash_password(passwd);
        let row = AuthnCredential {
            email: display,
            login_email: login.clone(),
            password: Some(hash),
        };
        self.credentials.insert(login, row);
        Ok(())
    }
}

} // verus!
