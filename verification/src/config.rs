//! Process configuration as the authentication core reads it: the
//! connection string, the cookie secret, the backend selection, the
//! server's own address, and the session expiry.

use crate::util::{lower_seq, to_lowercase};
use vstd::prelude::*;

verus! {

/// The session expiry applied when none is configured, in minutes.
pub const DEFAULT_SESSION_EXPIRY_MINUTES: u32 = 120;

/// The configuration the core consumes.
#[derive(Clone, Debug)]
pub struct Config {
    /// The database connection string, without its scheme prefix.
    pub database_string: String,
    /// The cookie-signing secret, if one is pinned.
    pub secret_key: Option<String>,
    /// The configured backend name; absent selects the password
    /// backend.
    pub authn_provider: Option<String>,
    /// The server's own externally visible address.
    pub server_address: String,
    /// The configured session expiry in minutes, if any.
    pub session_expiry_minutes: Option<u32>,
}

/// A string with its trailing slashes removed.
pub open spec fn trim_trailing_slashes(s: Seq<char>) -> Seq<char>
    decreases s.len(),
{
    if s.len() > 0 && s[s.len() - 1] == '/' {
        trim_trailing_slashes(s.drop_last())
    } else {
        s
    }
}

impl Config {
    /// The full database connection string.
    pub fn get_database_str(&self) -> (r: String)
        ensures
            r@ == "postgres://"@ + self.database_string@,
    {
        let mut out = "postgres://".to_owned();
        out.append(self.database_string.as_str());
        out
    }

    /// The configured cookie secret, if any.
    pub fn get_secret_key(&self) -> (r: Option<String>)
        ensures
            r is Some <==> self.secret_key is Some,
            r matches Some(k) ==> k@ == self.secret_key.unwrap()@,
    {
        match &self.secret_key {
            None => None,
            Some(key) => Some(key.clone()),
        }
    }

    /// The session expiry in minutes, defaulted when not configured.
    pub fn get_session_expiry(&self) -> (r: u32)
        ensures
            r == (match self.session_expiry_minutes {
                Some(m) => m,
                None => DEFAULT_SESSION_EXPIRY_MINUTES,
            }),
    {
        match self.session_expiry_minutes {
            Some(m) => m,
            None => DEFAULT_SESSION_EXPIRY_MINUTES,
        }
    }

    /// The configured backend name, lowercased; absent selects the
    /// password backend.
    pub fn get_authn_provider(&self) -> (r: String)
        ensures
            r@ == (match self.authn_provider {
                None => "simple"@,
                Some(p) => lower_seq(p@),
            }),
    {
        match &self.authn_provider {
            None => "simple".to_owned(),
            Some(p) => to_lowercase(p.as_str()),
        }
    }

    /// The server's own address with trailing slashes removed, ready
    /// for paths to be appended.
    pub fn get_server_address(&self) -> (r: String)
        ensures
            r@ == trim_trailing_slashes(self.server_address@),
    {
        let s = self.server_address.as_str();
        let len: usize = s.unicode_len();
        let mut end: usize = len;
        proof {
            assert(s@.take(len as int) =~= s@);
        }
        while end > 0 && s.get_char(end - 1) == '/'
            invariant
                end <= len,
                len == s@.len(),
                trim_trailing_slashes(s@) == trim_trailing_slashes(s@.take(end as int)),
            decreases end,
        {
            proof {
                assert(s@.take(end as int).drop_last() =~= s@.take(end - 1));
            }
            end = end - 1;
        }
        let kept = s.substring_char(0, end);
        proof {
            assert(s@.take(end as int) =~= s@.subrange(0, end as int));
            if end > 0 {
                assert(s@.take(end as int)[end - 1] != '/');
            }
        }
        kept.to_owned()
    }
}

/// The built-in fallback configuration, used when no configuration
/// can be read: a local development database and address, no secret,
/// the default backend and expiry.
pub fn default_config() -> (r: Config)
    ensures
        r.database_string@ == "postgres:banana@postgres/postgres"@,
        r.secret_key is None,
        r.authn_provider is None,
        r.server_address@ == "http://localhost:8888"@,
        r.session_expiry_minutes is None,
{
    Config {
        database_string: "postgres:banana@postgres/postgres".to_owned(),
        secret_key: None,
        authn_provider: None,
        server_address: "http://localhost:8888".to_owned(),
        session_expiry_minutes: None,
    }
}

} // verus!
