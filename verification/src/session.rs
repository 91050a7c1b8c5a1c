//! The session lifecycle manager.
//!
//! A session binds an opaque random token to an authenticated identity
//! from login until expiry or revocation. The table maps token to
//! session; a periodic sweep removes sessions older than the configured
//! maximum age, and revocation removes every session of one identity at
//! once. A removed session never becomes active again; a fresh login
//! makes a fresh token.

use crate::strmap::StrMap;
use crate::util::{generate_rand_string, is_token_char};
use vstd::prelude::*;

verus! {

/// The length of a session token: 32 characters from the alphanumeric
/// alphabet, wide enough to be non-enumerable.
pub const SESSION_TOKEN_LEN: usize = 32;

/// One active session: the identity it belongs to and when it began.
#[derive(Debug)]
pub struct Session {
    /// The externally visible email address of the authenticated user.
    pub email: String,
    /// Creation time, in seconds of the manager's clock.
    pub created: u64,
}

/// The session table and its expiry policy.
#[derive(Debug)]
pub struct SessionManager {
    /// The configured maximum session age, in seconds.
    pub max_age_secs: u64,
    /// The token-to-session table.
    pub sessions: StrMap<Session>,
}

impl SessionManager {
    pub open spec fn wf(&self) -> bool {
        self.sessions.wf()
    }

    /// The configured maximum session age, in seconds.
    pub open spec fn max_age(&self) -> u64 {
        self.max_age_secs
    }

    /// The session stored under a token, if any.
    pub open spec fn spec_session(&self, tok: Seq<char>) -> Option<Session> {
        self.sessions.spec_get(tok)
    }

    /// Whether a session's age exceeds the maximum at time `now`.
    pub open spec fn spec_expired(&self, s: Session, now: u64) -> bool {
        now > s.created + self.max_age_secs
    }

    /// A manager with an empty table. Does not start the sweep; the
    /// caller drives sweeping by calling `sweep` periodically.
    pub fn new(expiry_minutes: u32) -> (r: Self)
        ensures
            r.wf(),
            r.max_age() == expiry_minutes as u64 * 60,
            forall|t: Seq<char>| #[trigger] r.spec_session(t) is None,
    {
        SessionManager { max_age_secs: (expiry_minutes as u64) * 60, sessions: StrMap::new() }
    }

    /// Returns the configured maximum session age in seconds.
    pub fn max_age_seconds(&self) -> (r: u64)
        ensures
            r == self.max_age(),
    {
        self.max_age_secs
    }

    /// Creates a session for `email` at time `now` under a fresh random
    /// token and returns the token.
    pub fn new_session(&mut self, email: &str, now: u64) -> (tok: String)
        requires
            old(self).wf(),
        ensures
            final(self).wf(),
            final(self).max_age() == old(self).max_age(),
            tok@.len() == SESSION_TOKEN_LEN,
            forall|i: int| 0 <= i < tok@.len() ==> is_token_char(#[trigger] tok@[i]),
            final(self).spec_session(tok@) matches Some(s) && s.email@ == email@ && s.created
                == now,
            forall|q: Seq<char>|
                q != tok@ ==> #[trigger] final(self).spec_session(q) == old(self).spec_session(
                    q,
                ),
    {
        let tok = generate_rand_string(SESSION_TOKEN_LEN);
        let session = Session { email: email.to_owned(), created: now };
        self.sessions.insert(tok.clone(), session);
        tok
    }

    /// Looks a token up. An unknown token yields nothing, with no
    /// further distinction, so a caller can only treat it as
    /// "unauthenticated".
    pub fn resolve(&self, token: &str) -> (r: Option<Session>)
        requires
            self.wf(),
        ensures
            r is Some <==> self.spec_session(token@) is Some,
            r matches Some(s) ==> self.spec_session(token@) matches Some(t) && s.email@
                == t.email@ && s.created == t.created,
    {
        match self.sessions.get(token) {
            Some(s) => Some(Session { email: s.email.clone(), created: s.created }),
            None => None,
        }
    }

    /// Removes every session belonging to `email`; sessions of other
    /// identities are untouched. Visible to every later `resolve`.
    pub fn remove_session(&mut self, email: &str)
        requires
            old(self).wf(),
        ensures
            final(self).wf(),
            final(self).max_age() == old(self).max_age(),
            forall|t: Seq<char>|
                #[trigger] final(self).spec_session(t) == (match old(self).spec_session(t) {
                    Some(s) => if s.email@ == email@ {
                        None
                    } else {
                        Some(s)
                    },
                    None => None,
                }),
    {
        let mut doomed: Vec<String> = Vec::new();
        let n = self.sessions.len();
        let mut i: usize = 0;
        while i < n
            invariant
                i <= n,
                n == self.sessions.spec_len(),
                self.sessions.wf(),
                forall|m: int|
                    0 <= m < doomed@.len() ==> (self.sessions.spec_get((#[trigger] doomed@[m])@)
                        matches Some(s) && s.email@ == email@),
                forall|idx: int|
                    0 <= idx < i && (#[trigger] self.sessions.entry_seq()[idx]).1.email@
                        == email@ ==> exists|m: int|
                        0 <= m < doomed@.len() && (#[trigger] doomed@[m])@
                            == self.sessions.entry_seq()[idx].0,
            decreases n - i,
        {
            let matches_email = {
                let v = self.sessions.value_at(i);
                crate::util::str_eq(v.email.as_str(), email)
            };
            let ghost doomed_pre = doomed@;
            if matches_email {
                let k = self.sessions.key_at(i).clone();
                proof {
                    self.sessions.lemma_entry_get(i as int);
                }
                doomed.push(k);
            }
            proof {
                assert forall|idx: int|
                    0 <= idx < i + 1 && (#[trigger] self.sessions.entry_seq()[idx]).1.email@
                        == email@ implies exists|m: int|
                    0 <= m < doomed@.len() && (#[trigger] doomed@[m])@
                        == self.sessions.entry_seq()[idx].0 by {
                    if idx == i {
                        assert((doomed@[doomed@.len() - 1])@ == self.sessions.entry_seq()[idx].0);
                    } else {
                        let m = choose|m: int|
                            0 <= m < doomed_pre.len() && (#[trigger] doomed_pre[m])@
                                == self.sessions.entry_seq()[idx].0;
                        assert((doomed@[m])@ == self.sessions.entry_seq()[idx].0);
                    }
                }
            }
            i = i + 1;
        }
        self.sessions.remove_keys(&doomed);
        proof {
            let pre = old(self);
            assert forall|t: Seq<char>| true implies #[trigger] self.spec_session(t) == (
            match pre.spec_session(t) {
                Some(s) => if s.email@ == email@ {
                    None
                } else {
                    Some(s)
                },
                None => None,
            }) by {
                match pre.spec_session(t) {
                    Some(s) => {
                        if s.email@ == email@ {
                            let idx = pre.sessions.spec_index_of(t);
                            assert(pre.sessions.entry_seq()[idx].0 == t);
                            assert(pre.sessions.entry_seq()[idx].1 == s);
                            assert(exists|m: int|
                                0 <= m < doomed@.len() && (#[trigger] doomed@[m])@ == t);
                        } else {
                            if exists|m: int|
                                0 <= m < doomed@.len() && (#[trigger] doomed@[m])@ == t {
                                let m = choose|m: int|
                                    0 <= m < doomed@.len() && (#[trigger] doomed@[m])@ == t;
                                assert(pre.sessions.spec_get(doomed@[m]@) matches Some(s2)
                                    && s2.email@ == email@);
                                assert(false);
                            }
                        }
                    },
                    None => {
                        if exists|m: int|
                            0 <= m < doomed@.len() && (#[trigger] doomed@[m])@ == t {
                            let m = choose|m: int|
                                0 <= m < doomed@.len() && (#[trigger] doomed@[m])@ == t;
                            assert(pre.sessions.spec_get(doomed@[m]@) matches Some(s2));
                            assert(false);
                        }
                    },
                }
            }
        }
    }

    /// One expiry sweep at time `now`: exactly the sessions whose age
    /// exceeds the maximum are removed. This is garbage collection, not
    /// logout: no backend hook is called for swept sessions.
    pub fn sweep(&mut self, now: u64)
        requires
            old(self).wf(),
        ensures
            final(self).wf(),
            final(self).max_age() == old(self).max_age(),
            forall|t: Seq<char>|
                #[trigger] final(self).spec_session(t) == (match old(self).spec_session(t) {
                    Some(s) => if old(self).spec_expired(s, now) {
                        None
                    } else {
                        Some(s)
                    },
                    None => None,
                }),
    {
        let mut doomed: Vec<String> = Vec::new();
        let n = self.sessions.len();
        let max_age = self.max_age_secs;
        let mut i: usize = 0;
        while i < n
            invariant
                i <= n,
                n == self.sessions.spec_len(),
                max_age == self.max_age_secs,
                self.sessions.wf(),
                forall|m: int|
                    0 <= m < doomed@.len() ==> (self.sessions.spec_get((#[trigger] doomed@[m])@)
                        matches Some(s) && self.spec_expired(s, now)),
                forall|idx: int|
                    0 <= idx < i && now > (#[trigger] self.sessions.entry_seq()[idx]).1.created
                        + max_age ==> exists|m: int|
                        0 <= m < doomed@.len() && (#[trigger] doomed@[m])@
                            == self.sessions.entry_seq()[idx].0,
            decreases n - i,
        {
            let is_expired = {
                let v = self.sessions.value_at(i);
                now >= v.created && now - v.created > max_age
            };
            let ghost doomed_pre = doomed@;
            if is_expired {
                let k = self.sessions.key_at(i).clone();
                proof {
                    self.sessions.lemma_entry_get(i as int);
                }
                doomed.push(k);
            }
            proof {
                assert forall|idx: int|
                    0 <= idx < i + 1 && now > (
                    #[trigger] self.sessions.entry_seq()[idx]).1.created + max_age
                        implies exists|m: int|
                    0 <= m < doomed@.len() && (#[trigger] doomed@[m])@
                        == self.sessions.entry_seq()[idx].0 by {
                    if idx == i {
                        assert(is_expired);
                        assert((doomed@[doomed@.len() - 1])@ == self.sessions.entry_seq()[idx].0);
                    } else {
                        let m = choose|m: int|
                            0 <= m < doomed_pre.len() && (#[trigger] doomed_pre[m])@
                                == self.sessions.entry_seq()[idx].0;
                        assert((doomed@[m])@ == self.sessions.entry_seq()[idx].0);
                    }
                }
            }
            i = i + 1;
        }
        self.sessions.remove_keys(&doomed);
        proof {
            let pre = old(self);
            assert forall|t: Seq<char>| true implies #[trigger] self.spec_session(t) == (
            match pre.spec_session(t) {
                Some(s) => if pre.spec_expired(s, now) {
                    None
                } else {
                    Some(s)
                },
                None => None,
            }) by {
                match pre.spec_session(t) {
                    Some(s) => {
                        if pre.spec_expired(s, now) {
                            let idx = pre.sessions.spec_index_of(t);
                            assert(pre.sessions.entry_seq()[idx].0 == t);
                            assert(pre.sessions.entry_seq()[idx].1 == s);
                            assert(exists|m: int|
                                0 <= m < doomed@.len() && (#[trigger] doomed@[m])@ == t);
                        } else {
                            if exists|m: int|
                                0 <= m < doomed@.len() && (#[trigger] doomed@[m])@ == t {
                                let m = choose|m: int|
                                    0 <= m < doomed@.len() && (#[trigger] doomed@[m])@ == t;
                                assert(pre.sessions.spec_get(doomed@[m]@) matches Some(s2)
                                    && pre.spec_expired(s2, now));
                                assert(false);
                            }
                        }
                    },
                    None => {
                        if exists|m: int|
                            0 <= m < doomed@.len() && (#[trigger] doomed@[m])@ == t {
                            let m = choose|m: int|
                                0 <= m < doomed@.len() && (#[trigger] doomed@[m])@ == t;
                            assert(pre.sessions.spec_get(doomed@[m]@) matches Some(s2));
                            assert(false);
                        }
                    },
                }
            }
        }
    }
}

/// A session within its maximum age survives a sweep, and a sweep at
/// any time past the maximum age removes it: expiry is decided by the
/// session's creation time and the configured maximum alone.
pub proof fn lemma_session_expiry_bound(m: SessionManager, s: Session, before: u64, after: u64)
    requires
        before <= s.created + m.max_age(),
        after > s.created + m.max_age(),
    ensures
        !m.spec_expired(s, before),
        m.spec_expired(s, after),
{
}

} // verus!
