//! The directory backend: username vetting, filter escaping, bind-name
//! rewriting, and the interpretation of directory search results.
//!
//! Untrusted input never reaches a search filter unescaped: a username
//! is first held to a restrictive character set, and the value placed
//! into the filter is escaped so that it cannot alter the filter's
//! structure. The network steps (connect, bind, search) happen outside
//! this module; what the library provides is the exact request to make
//! and the exact reading of what came back.

use crate::authn::AuthnFailure;
use crate::util::{
    canonical_login, canonicalize_login, has_at, is_first_at, lemma_first_at_unique, lower_seq,
    push_char,
};
use vstd::prelude::*;

verus! {

/// A character a directory username may hold: an ASCII letter, digit,
/// underscore, dot or at-sign.
pub open spec fn is_valid_username_char(c: char) -> bool {
    ||| ('a' <= c && c <= 'z')
    ||| ('A' <= c && c <= 'Z')
    ||| ('0' <= c && c <= '9')
    ||| c == '_'
    ||| c == '.'
    ||| c == '@'
}

/// A username acceptable to the directory backend: non-empty and of
/// the restricted alphabet.
pub open spec fn valid_username_seq(s: Seq<char>) -> bool {
    s.len() > 0 && forall|i: int| 0 <= i < s.len() ==> is_valid_username_char(#[trigger] s[i])
}

/// Holds a username to the restricted alphabet before it is used in
/// any directory query.
pub fn valid_username(s: &str) -> (r: bool)
    ensures
        r == valid_username_seq(s@),
{
    let len: usize = s.unicode_len();
    if len == 0 {
        return false;
    }
    let mut i: usize = 0;
    while i < len
        invariant
            i <= len,
            len == s@.len(),
            forall|j: int| 0 <= j < i ==> is_valid_username_char(#[trigger] s@[j]),
        decreases len - i,
    {
        let c = s.get_char(i);
        let ok = ('a' <= c && c <= 'z') || ('A' <= c && c <= 'Z') || ('0' <= c && c <= '9') || c
            == '_' || c == '.' || c == '@';
        if !ok {
            return false;
        }
        i = i + 1;
    }
    true
}

/// A character that would alter a filter's structure if it reached the
/// filter raw.
pub open spec fn is_ldap_special(c: char) -> bool {
    c == '*' || c == '(' || c == ')' || c == '\\' || c == '\u{0}'
}

/// How one character appears in an escaped filter value: the five
/// structural characters become a backslash and two hex digits, every
/// other character stands for itself.
pub open spec fn ldap_escape_char(c: char) -> Seq<char> {
    if c == '\\' {
        seq!['\\', '5', 'c']
    } else if c == '*' {
        seq!['\\', '2', 'a']
    } else if c == '(' {
        seq!['\\', '2', '8']
    } else if c == ')' {
        seq!['\\', '2', '9']
    } else if c == '\u{0}' {
        seq!['\\', '0', '0']
    } else {
        seq![c]
    }
}

/// The escaped form of a whole filter value.
pub open spec fn ldap_escaped(s: Seq<char>) -> Seq<char>
    decreases s.len(),
{
    if s.len() == 0 {
        Seq::<char>::empty()
    } else {
        ldap_escape_char(s[0]) + ldap_escaped(s.drop_first())
    }
}

/// The character a two-hex-digit escape stands for, for the escapes
/// the escaping emits.
pub open spec fn ldap_unescape_pair(h1: char, h2: char) -> Option<char> {
    if h1 == '5' && h2 == 'c' {
        Some('\\')
    } else if h1 == '2' && h2 == 'a' {
        Some('*')
    } else if h1 == '2' && h2 == '8' {
        Some('(')
    } else if h1 == '2' && h2 == '9' {
        Some(')')
    } else if h1 == '0' && h2 == '0' {
        Some('\u{0}')
    } else {
        None
    }
}

/// Reads an escaped filter value back: a backslash must begin a
/// recognized escape, every other character stands for itself.
pub open spec fn ldap_unescaped(s: Seq<char>) -> Option<Seq<char>>
    decreases s.len(),
{
    if s.len() == 0 {
        Some(Seq::<char>::empty())
    } else if s[0] == '\\' {
        if s.len() >= 3 {
            match ldap_unescape_pair(s[1], s[2]) {
                Some(c) => match ldap_unescaped(s.skip(3)) {
                    Some(r) => Some(seq![c] + r),
                    None => None,
                },
                None => None,
            }
        } else {
            None
        }
    } else {
        match ldap_unescaped(s.drop_first()) {
            Some(r) => Some(seq![s[0]] + r),
            None => None,
        }
    }
}

pub proof fn lemma_ldap_escaped_concat(a: Seq<char>, b: Seq<char>)
    ensures
        ldap_escaped(a + b) == ldap_escaped(a) + ldap_escaped(b),
    decreases a.len(),
{
    if a.len() == 0 {
        assert(a + b =~= b);
        assert(ldap_escaped(a) + ldap_escaped(b) =~= ldap_escaped(b));
    } else {
        lemma_ldap_escaped_concat(a.drop_first(), b);
        assert((a + b).drop_first() =~= a.drop_first() + b);
        assert(ldap_escaped(a + b) =~= ldap_escaped(a) + ldap_escaped(b));
    }
}

pub proof fn lemma_ldap_escaped_single(c: char)
    ensures
        ldap_escaped(seq![c]) == ldap_escape_char(c),
{
    assert(seq![c].drop_first() =~= Seq::<char>::empty());
    assert(ldap_escaped(Seq::<char>::empty()) =~= Seq::<char>::empty());
    assert(ldap_escaped(seq![c]) =~= ldap_escape_char(c));
}

/// The escaped form of a value holds none of the structural characters
/// raw: every `*`, `(`, `)` and NUL is hex-encoded, and a backslash
/// occurs only as the head of an escape.
pub proof fn lemma_ldap_escaped_no_raw_specials(s: Seq<char>)
    ensures
        forall|k: int|
            0 <= k < ldap_escaped(s).len() ==> !(ldap_escaped(s)[k] == '*' || (
            #[trigger] ldap_escaped(s)[k]) == '(' || ldap_escaped(s)[k] == ')' || ldap_escaped(
                s,
            )[k] == '\u{0}'),
    decreases s.len(),
{
    if s.len() > 0 {
        lemma_ldap_escaped_no_raw_specials(s.drop_first());
        let head = ldap_escape_char(s[0]);
        assert forall|k: int|
            0 <= k < ldap_escaped(s).len() implies !(ldap_escaped(s)[k] == '*' || (
        #[trigger] ldap_escaped(s)[k]) == '(' || ldap_escaped(s)[k] == ')' || ldap_escaped(s)[k]
            == '\u{0}') by {
            if k < head.len() {
                assert(ldap_escaped(s)[k] == head[k]);
            } else {
                assert(ldap_escaped(s)[k] == ldap_escaped(s.drop_first())[k - head.len()]);
            }
        }
    }
}

/// Escaping round-trips: reading the escaped form back yields exactly
/// the original value, so no input can smuggle structure into a filter.
pub proof fn lemma_ldap_escape_round_trip(s: Seq<char>)
    ensures
        ldap_unescaped(ldap_escaped(s)) == Some(s),
    decreases s.len(),
{
    if s.len() == 0 {
        assert(ldap_unescaped(ldap_escaped(s)) == Some(Seq::<char>::empty()));
        assert(Seq::<char>::empty() =~= s);
    } else {
        lemma_ldap_escape_round_trip(s.drop_first());
        let c = s[0];
        let head = ldap_escape_char(c);
        let e = ldap_escaped(s);
        assert(e == head + ldap_escaped(s.drop_first()));
        if is_ldap_special(c) {
            assert(head.len() == 3);
            assert(e[0] == '\\');
            assert(e.len() >= 3);
            assert(e[1] == head[1] && e[2] == head[2]);
            assert(ldap_unescape_pair(e[1], e[2]) == Some(c));
            assert(e.skip(3) =~= ldap_escaped(s.drop_first()));
            assert(seq![c] + s.drop_first() =~= s);
        } else {
            assert(head =~= seq![c]);
            assert(e[0] == c);
            assert(c != '\\');
            assert(e.drop_first() =~= ldap_escaped(s.drop_first()));
            assert(seq![c] + s.drop_first() =~= s);
        }
    }
}

/// Escapes a value for use in a search filter.
pub fn escape_filter_value(s: &str) -> (r: String)
    ensures
        r@ == ldap_escaped(s@),
{
    let len: usize = s.unicode_len();
    let mut out = String::new();
    let mut i: usize = 0;
    while i < len
        invariant
            i <= len,
            len == s@.len(),
            out@ == ldap_escaped(s@.take(i as int)),
        decreases len - i,
    {
        let c = s.get_char(i);
        if c == '\\' {
            push_char(&mut out, '\\');
            push_char(&mut out, '5');
            push_char(&mut out, 'c');
        } else if c == '*' {
            push_char(&mut out, '\\');
            push_char(&mut out, '2');
            push_char(&mut out, 'a');
        } else if c == '(' {
            push_char(&mut out, '\\');
            push_char(&mut out, '2');
            push_char(&mut out, '8');
        } else if c == ')' {
            push_char(&mut out, '\\');
            push_char(&mut out, '2');
            push_char(&mut out, '9');
        } else if c == '\u{0}' {
            push_char(&mut out, '\\');
            push_char(&mut out, '0');
            push_char(&mut out, '0');
        } else {
            push_char(&mut out, c);
        }
        proof {
            lemma_ldap_escaped_concat(s@.take(i as int), seq![s@[i as int]]);
            lemma_ldap_escaped_single(s@[i as int]);
            assert(s@.take(i + 1) =~= s@.take(i as int) + seq![s@[i as int]]);
            assert(out@ =~= ldap_escaped(s@.take(i as int)) + ldap_escape_char(s@[i as int]));
        }
        i = i + 1;
    }
    proof {
        assert(s@.take(len as int) =~= s@);
    }
    out
}

/// The text before the first `@`, or the whole string if it has none.
pub open spec fn local_part(s: Seq<char>) -> Seq<char> {
    if has_at(s) {
        s.take(choose|i: int| is_first_at(s, i))
    } else {
        s
    }
}

/// Returns the text before the first `@`, or the whole string.
pub fn take_local_part(s: &str) -> (r: String)
    ensures
        r@ == local_part(s@),
{
    let len: usize = s.unicode_len();
    let mut at_pos: usize = len;
    let mut found = false;
    let mut i: usize = 0;
    while i < len
        invariant
            i <= len,
            len == s@.len(),
            !found ==> forall|j: int| 0 <= j < i ==> s@[j] != '@',
            found ==> is_first_at(s@, at_pos as int),
            found ==> at_pos < i,
        decreases len - i,
    {
        if !found {
            if s.get_char(i) == '@' {
                at_pos = i;
                found = true;
            }
        }
        i = i + 1;
    }
    proof {
        if found {
            let k = choose|k: int| is_first_at(s@, k);
            lemma_first_at_unique(s@, k, at_pos as int);
        } else {
            if exists|k: int| is_first_at(s@, k) {
                let k = choose|k: int| is_first_at(s@, k);
                assert(s@[k] != '@');
            }
            assert(!has_at(s@));
        }
    }
    let stop: usize = if found {
        at_pos
    } else {
        len
    };
    let mut out = String::new();
    let mut i: usize = 0;
    while i < stop
        invariant
            i <= stop,
            stop <= len,
            len == s@.len(),
            out@ == s@.take(i as int).map_values(|c: char| c),
        decreases stop - i,
    {
        push_char(&mut out, s.get_char(i));
        proof {
            assert(out@ =~= s@.take(i + 1).map_values(|c: char| c));
        }
        i = i + 1;
    }
    proof {
        assert(out@ =~= s@.take(stop as int));
        if !found {
            assert(s@.take(len as int) =~= s@);
        }
    }
    out
}

/// The directory backend's settings: where to connect, where to
/// search, which attributes to use, and how to shape the bind name.
#[derive(Clone, Debug)]
pub struct LdapConfig {
    pub server_url: String,
    pub search_base: String,
    pub filter_field: Option<String>,
    pub email_field: Option<String>,
    pub domain: Option<String>,
    pub is_ad: Option<bool>,
    pub normalize_logins: Option<bool>,
}

impl LdapConfig {
    /// Whether the settings name an Active Directory target.
    pub open spec fn spec_is_ad(&self) -> bool {
        self.is_ad == Some(true)
    }

    /// Fills the defaults in: the filter attribute follows the target
    /// kind, the mail attribute defaults to `mail`. An Active Directory
    /// target must name its domain.
    pub fn to_backend(self) -> (r: LdapAuthnBackend)
        requires
            self.spec_is_ad() ==> self.domain is Some,
        ensures
            r.wf(),
            r.server_url == self.server_url,
            r.search_base == self.search_base,
            r.filter_field@ == (match self.filter_field {
                Some(f) => f@,
                None => if self.spec_is_ad() {
                    "sAMAccountName"@
                } else {
                    "userPrincipalName"@
                },
            }),
            r.email_field@ == (match self.email_field {
                Some(f) => f@,
                None => "mail"@,
            }),
            r.domain == self.domain,
            r.is_ad == self.spec_is_ad(),
            r.normalize_logins == (self.normalize_logins == Some(true)),
    {
        let ad = match self.is_ad {
            Some(b) => b,
            None => false,
        };
        let filter_field = match self.filter_field {
            Some(f) => f,
            None => if ad {
                "sAMAccountName".to_owned()
            } else {
                "userPrincipalName".to_owned()
            },
        };
        let email_field = match self.email_field {
            Some(f) => f,
            None => "mail".to_owned(),
        };
        LdapAuthnBackend {
            server_url: self.server_url,
            search_base: self.search_base,
            filter_field,
            email_field,
            domain: self.domain,
            is_ad: ad,
            normalize_logins: match self.normalize_logins {
                Some(b) => b,
                None => false,
            },
        }
    }
}

/// The directory backend, ready to shape bind and search requests.
#[derive(Clone, Debug)]
pub struct LdapAuthnBackend {
    pub server_url: String,
    pub search_base: String,
    pub filter_field: String,
    pub email_field: String,
    pub domain: Option<String>,
    pub is_ad: bool,
    pub normalize_logins: bool,
}

/// Why a directory authentication attempt failed, before it is mapped
/// into the backend taxonomy.
#[derive(Debug, PartialEq, Eq, Structural, Clone, Copy)]
pub enum LdapAuthnError {
    /// The directory could not be reached.
    ConnectionError,
    /// The bind failed; which part of the credentials was wrong is
    /// deliberately not distinguished.
    InvalidLogin,
    /// The directory answered inconsistently (a bound user without a
    /// record, or a record without a mail attribute).
    Other,
}

/// The bind and search request authentication makes for one username.
#[derive(Clone, Debug)]
pub struct LdapBindRequest {
    /// The name to bind as: for Active Directory, the down-level
    /// `DOMAIN\user` form.
    pub bind_name: String,
    /// The value searched for under the filter attribute.
    pub uid: String,
    /// The search filter, with the uid escaped.
    pub filter: String,
}

impl LdapAuthnBackend {
    pub open spec fn wf(&self) -> bool {
        self.is_ad ==> self.domain is Some
    }

    /// The username after optional normalization.
    pub open spec fn spec_normalized(&self, u: Seq<char>) -> Seq<char> {
        if self.normalize_logins {
            canonical_login(u)
        } else {
            u
        }
    }

    /// The value searched for: on Active Directory the realm suffix is
    /// stripped first.
    pub open spec fn spec_uid(&self, n: Seq<char>) -> Seq<char> {
        if self.is_ad && self.domain is Some {
            local_part(n)
        } else {
            n
        }
    }

    /// The name bound as: Active Directory expects the down-level
    /// `DOMAIN\user` form for simple binds.
    pub open spec fn spec_bind_name(&self, n: Seq<char>) -> Seq<char> {
        if self.is_ad && self.domain is Some {
            self.domain.unwrap()@ + seq!['\\'] + local_part(n)
        } else {
            n
        }
    }

    /// The search filter for a uid: an equality filter on the
    /// configured attribute, with the uid escaped.
    pub open spec fn spec_filter(&self, uid: Seq<char>) -> Seq<char> {
        seq!['('] + self.filter_field@ + seq!['='] + ldap_escaped(uid) + seq![')']
    }

    /// Shapes the bind and search request for a username: the username
    /// is vetted against the restricted alphabet, optionally
    /// normalized, rewritten to the down-level form for Active
    /// Directory, and escaped into the filter.
    pub fn prepare_bind(&self, uname: &str) -> (r: Result<LdapBindRequest, LdapAuthnError>)
        ensures
            !valid_username_seq(uname@) ==> r == Err::<LdapBindRequest, LdapAuthnError>(
                LdapAuthnError::InvalidLogin,
            ),
            valid_username_seq(uname@) && self.normalize_logins && !has_at(lower_seq(uname@))
                ==> r == Err::<LdapBindRequest, LdapAuthnError>(LdapAuthnError::InvalidLogin),
            valid_username_seq(uname@) && (self.normalize_logins ==> has_at(lower_seq(uname@)))
                ==> (r matches Ok(req) && req.uid@ == self.spec_uid(
                self.spec_normalized(uname@),
            ) && req.bind_name@ == self.spec_bind_name(self.spec_normalized(uname@))
                && req.filter@ == self.spec_filter(self.spec_uid(self.spec_normalized(uname@)))),
    {
        if !valid_username(uname) {
            return Err(LdapAuthnError::InvalidLogin);
        }
        let normalized: String = if self.normalize_logins {
            match canonicalize_login(uname) {
                Ok(l) => l,
                Err(_) => {
                    return Err(LdapAuthnError::InvalidLogin);
                },
            }
        } else {
            uname.to_owned()
        };
        let mut uid = normalized.clone();
        let mut bind_name = normalized;
        if self.is_ad {
            match &self.domain {
                Some(domain) => {
                    let local = take_local_part(bind_name.as_str());
                    uid = local.clone();
                    let mut name = domain.clone();
                    push_char(&mut name, '\\');
                    name.append(local.as_str());
                    bind_name = name;
                },
                None => {},
            }
        }
        let mut filter = String::new();
        push_char(&mut filter, '(');
        filter.append(self.filter_field.as_str());
        push_char(&mut filter, '=');
        let escaped = escape_filter_value(uid.as_str());
        filter.append(escaped.as_str());
        push_char(&mut filter, ')');
        proof {
            assert(filter@ =~= self.spec_filter(uid@));
            if self.is_ad && self.domain is Some {
                assert(bind_name@ =~= self.spec_bind_name(self.spec_normalized(uname@)));
            }
        }
        Ok(LdapBindRequest { bind_name, uid, filter })
    }

    /// Reads a directory search result: each entry is given as the
    /// values of the configured mail attribute. A bound user with no
    /// record, or a record without a mail value, is an inconsistency,
    /// not a credentials problem; extra entries are tolerated and the
    /// first is used.
    pub fn interpret_search(&self, results: &Vec<Vec<String>>) -> (r: Result<
        String,
        LdapAuthnError,
    >)
        ensures
            results@.len() == 0 ==> r == Err::<String, LdapAuthnError>(LdapAuthnError::Other),
            results@.len() > 0 && results@[0]@.len() == 0 ==> r == Err::<String, LdapAuthnError>(
                LdapAuthnError::Other,
            ),
            results@.len() > 0 && results@[0]@.len() > 0 ==> r == Ok::<String, LdapAuthnError>(
                results@[0]@[0],
            ),
    {
        if results.len() == 0 {
            return Err(LdapAuthnError::Other);
        }
        let first = &results[0];
        if first.len() == 0 {
            return Err(LdapAuthnError::Other);
        }
        Ok(first[0].clone())
    }
}

/// Maps a directory failure into the backend taxonomy: a failed bind
/// is the undistinguished credentials rejection, everything else is an
/// infrastructure fault.
pub fn map_authn_error(e: LdapAuthnError) -> (r: AuthnFailure)
    ensures
        r == (match e {
            LdapAuthnError::ConnectionError => AuthnFailure::Error,
            LdapAuthnError::InvalidLogin => AuthnFailure::InvalidUserOrPassword,
            LdapAuthnError::Other => AuthnFailure::Error,
        }),
{
    match e {
        LdapAuthnError::ConnectionError => AuthnFailure::Error,
        LdapAuthnError::InvalidLogin => AuthnFailure::InvalidUserOrPassword,
        LdapAuthnError::Other => AuthnFailure::Error,
    }
}

} // verus!
