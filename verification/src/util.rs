//! Username canonicalization and the small string helpers the
//! authentication backends share.
//!
//! A login name is canonicalized by lowercasing it and removing every
//! dot from the local part, the text before the first `@`, which
//! matches the aliasing convention of common mail providers.
//!
//! Case folding here is deliberately ASCII-only: `A`..`Z` map to
//! `a`..`z` and every other character, non-ASCII letters included,
//! stands for itself. This keeps the folding exactly specified and
//! provably idempotent; the directory backend in any case vets
//! usernames to an ASCII alphabet before use, and provider names are
//! ASCII keywords. A deployment whose login names use non-ASCII
//! letters would need a wider folding and should treat this as the
//! place to change.

use rand::Rng;
use rand::RngCore;
use vstd::prelude::*;

verus! {

/// ASCII case folding of one character: `A`..`Z` map to `a`..`z`,
/// everything else is unchanged.
pub open spec fn lower_char(c: char) -> char {
    if 'A' <= c && c <= 'Z' {
        (((c as u32) + 32) as u8) as char
    } else {
        c
    }
}

/// ASCII case folding of a whole string.
pub open spec fn lower_seq(s: Seq<char>) -> Seq<char> {
    s.map_values(|c: char| lower_char(c))
}

/// The string with every `.` removed.
pub open spec fn strip_dots(s: Seq<char>) -> Seq<char>
    decreases s.len(),
{
    if s.len() == 0 {
        Seq::<char>::empty()
    } else {
        (if s[0] == '.' {
            Seq::<char>::empty()
        } else {
            seq![s[0]]
        }) + strip_dots(s.drop_first())
    }
}

/// `i` is the position of the first `@` in `s`.
pub open spec fn is_first_at(s: Seq<char>, i: int) -> bool {
    &&& 0 <= i < s.len()
    &&& s[i] == '@'
    &&& forall|j: int| 0 <= j < i ==> s[j] != '@'
}

/// Whether `s` holds an `@` at all, i.e. is shaped like an email address.
pub open spec fn has_at(s: Seq<char>) -> bool {
    exists|i: int| is_first_at(s, i)
}

/// The canonical form of an email-shaped name: the local part with its
/// dots removed, the first `@`, and the remainder unchanged.
pub open spec fn sanitised_email(s: Seq<char>) -> Seq<char> {
    let i = choose|i: int| is_first_at(s, i);
    strip_dots(s.take(i)) + seq!['@'] + s.skip(i + 1)
}

/// Full canonicalization: ASCII case folding, then dot removal in the
/// local part.
pub open spec fn canonical_login(s: Seq<char>) -> Seq<char> {
    sanitised_email(lower_seq(s))
}

pub proof fn lemma_first_at_unique(s: Seq<char>, i: int, j: int)
    requires
        is_first_at(s, i),
        is_first_at(s, j),
    ensures
        i == j,
{
    if i < j {
        assert(s[i] != '@');
    } else if j < i {
        assert(s[j] != '@');
    }
}

/// Appends one character.
/// Relies on String::push, which appends the character at the end.
#[verifier::external_body]
pub(crate) fn push_char(s: &mut String, c: char)
    ensures
        final(s)@ == old(s)@.push(c),
{
    s.push(c);
}

/// ASCII case folding of one character, executable form.
pub fn lower_char_exec(c: char) -> (r: char)
    ensures
        r == lower_char(c),
{
    if 'A' <= c && c <= 'Z' {
        let b: u8 = ((c as u32) + 32) as u8;
        b as char
    } else {
        c
    }
}

/// ASCII case folding of a whole string, executable form.
pub fn to_lowercase(s: &str) -> (r: String)
    ensures
        r@ == lower_seq(s@),
{
    let len: usize = s.unicode_len();
    let mut out = String::new();
    let mut i: usize = 0;
    while i < len
        invariant
            i <= len,
            len == s@.len(),
            out@ == lower_seq(s@.take(i as int)),
        decreases len - i,
    {
        let c = s.get_char(i);
        push_char(&mut out, lower_char_exec(c));
        proof {
            assert(s@.take(i + 1) =~= s@.take(i as int).push(s@[i as int]));
            assert(lower_seq(s@.take(i + 1)) =~= lower_seq(s@.take(i as int)).push(
                lower_char(s@[i as int]),
            ));
        }
        i = i + 1;
    }
    proof {
        assert(s@.take(len as int) =~= s@);
    }
    out
}

pub proof fn lemma_strip_dots_single(c: char)
    ensures
        c == '.' ==> strip_dots(seq![c]) == Seq::<char>::empty(),
        c != '.' ==> strip_dots(seq![c]) == seq![c],
{
    assert(seq![c].drop_first() =~= Seq::<char>::empty());
    assert(strip_dots(Seq::<char>::empty()) =~= Seq::<char>::empty());
    if c == '.' {
        assert(strip_dots(seq![c]) =~= Seq::<char>::empty());
    } else {
        assert(strip_dots(seq![c]) =~= seq![c]);
    }
}

pub proof fn lemma_strip_dots_concat(a: Seq<char>, b: Seq<char>)
    ensures
        strip_dots(a + b) == strip_dots(a) + strip_dots(b),
    decreases a.len(),
{
    if a.len() == 0 {
        assert(a + b =~= b);
        assert(strip_dots(a) + strip_dots(b) =~= strip_dots(b));
    } else {
        lemma_strip_dots_concat(a.drop_first(), b);
        assert((a + b).drop_first() =~= a.drop_first() + b);
        if a[0] == '.' {
            assert(strip_dots(a + b) =~= strip_dots(a) + strip_dots(b));
        } else {
            assert(strip_dots(a + b) =~= strip_dots(a) + strip_dots(b));
        }
    }
}

/// Every character of `strip_dots(s)` occurs in `s`, stated for the two
/// characters the canonicalization proof cares about.
pub proof fn lemma_strip_dots_chars(s: Seq<char>)
    ensures
        forall|k: int| 0 <= k < strip_dots(s).len() ==> strip_dots(s)[k] != '.',
        forall|k: int|
            0 <= k < strip_dots(s).len() ==> exists|j: int|
                0 <= j < s.len() && s[j] == #[trigger] strip_dots(s)[k],
    decreases s.len(),
{
    if s.len() > 0 {
        lemma_strip_dots_chars(s.drop_first());
        assert forall|k: int| 0 <= k < strip_dots(s).len() implies exists|j: int|
            0 <= j < s.len() && s[j] == #[trigger] strip_dots(s)[k] by {
            let head: Seq<char> = if s[0] == '.' {
                Seq::<char>::empty()
            } else {
                seq![s[0]]
            };
            if k < head.len() {
                assert(s[0] == strip_dots(s)[k]);
            } else {
                let k2 = k - head.len();
                assert(strip_dots(s.drop_first())[k2] == strip_dots(s)[k]);
                let j2 = choose|j2: int|
                    0 <= j2 < s.drop_first().len() && s.drop_first()[j2] == strip_dots(
                        s.drop_first(),
                    )[k2];
                assert(s[j2 + 1] == strip_dots(s)[k]);
            }
        }
    }
}

/// Removing dots from a dot-free string changes nothing.
pub proof fn lemma_strip_dots_id(s: Seq<char>)
    requires
        forall|k: int| 0 <= k < s.len() ==> s[k] != '.',
    ensures
        strip_dots(s) == s,
    decreases s.len(),
{
    if s.len() == 0 {
        assert(strip_dots(s) =~= s);
    } else {
        assert(forall|k: int| 0 <= k < s.drop_first().len() ==> s.drop_first()[k] != '.');
        lemma_strip_dots_id(s.drop_first());
        assert(strip_dots(s) =~= s);
    }
}

/// Case folding maps no character onto `.` or `@` that was not one already.
pub proof fn lemma_lower_char_fixed(c: char)
    ensures
        lower_char(c) == '.' <==> c == '.',
        lower_char(c) == '@' <==> c == '@',
        lower_char(lower_char(c)) == lower_char(c),
{
    if 'A' <= c && c <= 'Z' {
        let d = lower_char(c);
        assert('a' <= d && d <= 'z');
    }
}

/// Case folding and dot removal commute.
pub proof fn lemma_strip_lower_commute(s: Seq<char>)
    ensures
        strip_dots(lower_seq(s)) == lower_seq(strip_dots(s)),
    decreases s.len(),
{
    if s.len() == 0 {
        assert(strip_dots(lower_seq(s)) =~= lower_seq(strip_dots(s)));
    } else {
        lemma_strip_lower_commute(s.drop_first());
        lemma_lower_char_fixed(s[0]);
        assert(lower_seq(s).drop_first() =~= lower_seq(s.drop_first()));
        if s[0] == '.' {
            assert(strip_dots(lower_seq(s)) =~= lower_seq(strip_dots(s)));
        } else {
            lemma_strip_dots_concat(seq![s[0]], s.drop_first());
            lemma_strip_dots_single(s[0]);
            assert(strip_dots(s) =~= seq![s[0]] + strip_dots(s.drop_first()));
            assert(strip_dots(lower_seq(s)) =~= lower_seq(strip_dots(s)));
        }
    }
}

/// The canonical form of an email-shaped name, executable form.
/// Splits at the first `@`; names without an `@` are rejected.
pub fn sanitise_email(uname: &str) -> (r: Result<String, ()>)
    ensures
        r is Ok <==> has_at(uname@),
        r is Ok ==> r.unwrap()@ == sanitised_email(uname@),
{
    let len: usize = uname.unicode_len();
    let mut at_pos: usize = 0;
    let mut found = false;
    let mut i: usize = 0;
    while i < len
        invariant
            i <= len,
            len == uname@.len(),
            !found ==> forall|j: int| 0 <= j < i ==> uname@[j] != '@',
            found ==> is_first_at(uname@, at_pos as int),
            found ==> at_pos < i,
        decreases len - i,
    {
        if !found {
            if uname.get_char(i) == '@' {
                at_pos = i;
                found = true;
            }
        }
        i = i + 1;
    }
    if !found {
        assert(!has_at(uname@)) by {
            if exists|k: int| is_first_at(uname@, k) {
                let k = choose|k: int| is_first_at(uname@, k);
                assert(uname@[k] != '@');
            }
        }
        return Err(());
    }
    proof {
        let k = choose|k: int| is_first_at(uname@, k);
        lemma_first_at_unique(uname@, k, at_pos as int);
    }
    let mut out = String::new();
    let mut i: usize = 0;
    while i < at_pos
        invariant
            i <= at_pos,
            at_pos < len,
            len == uname@.len(),
            out@ == strip_dots(uname@.take(i as int)),
        decreases at_pos - i,
    {
        let c = uname.get_char(i);
        if c != '.' {
            push_char(&mut out, c);
        }
        proof {
            lemma_strip_dots_concat(uname@.take(i as int), seq![uname@[i as int]]);
            lemma_strip_dots_single(uname@[i as int]);
            assert(uname@.take(i + 1) =~= uname@.take(i as int) + seq![uname@[i as int]]);
            if uname@[i as int] == '.' {
                assert(strip_dots(uname@.take(i + 1)) =~= strip_dots(uname@.take(i as int)));
            } else {
                assert(strip_dots(uname@.take(i + 1)) =~= strip_dots(
                    uname@.take(i as int),
                ).push(uname@[i as int]));
            }
        }
        i = i + 1;
    }
    push_char(&mut out, '@');
    let mut i: usize = at_pos + 1;
    while i < len
        invariant
            at_pos < i <= len,
            len == uname@.len(),
            out@ == strip_dots(uname@.take(at_pos as int)) + seq!['@'] + uname@.subrange(
                at_pos + 1,
                i as int,
            ),
        decreases len - i,
    {
        push_char(&mut out, uname.get_char(i));
        proof {
            assert(uname@.subrange(at_pos + 1, i + 1) =~= uname@.subrange(
                at_pos + 1,
                i as int,
            ).push(uname@[i as int]));
            assert((strip_dots(uname@.take(at_pos as int)) + seq!['@'] + uname@.subrange(
                at_pos + 1,
                i as int,
            )).push(uname@[i as int]) =~= strip_dots(uname@.take(at_pos as int)) + seq!['@']
                + uname@.subrange(at_pos + 1, i + 1));
        }
        i = i + 1;
    }
    proof {
        assert(uname@.subrange(at_pos + 1, len as int) =~= uname@.skip(at_pos + 1));
    }
    Ok(out)
}

/// The canonical login form: case folding, then dot removal in the
/// local part.
pub fn canonicalize_login(uname: &str) -> (r: Result<String, ()>)
    ensures
        r is Ok <==> has_at(lower_seq(uname@)),
        r is Ok ==> r.unwrap()@ == canonical_login(uname@),
{
    let lowered = to_lowercase(uname);
    sanitise_email(lowered.as_str())
}


/// Case folding is idempotent.
pub proof fn lemma_lower_seq_idem(s: Seq<char>)
    ensures
        lower_seq(lower_seq(s)) == lower_seq(s),
{
    assert forall|k: int| 0 <= k < s.len() implies #[trigger] lower_seq(lower_seq(s))[k]
        == lower_seq(s)[k] by {
        lemma_lower_char_fixed(s[k]);
    }
    assert(lower_seq(lower_seq(s)) =~= lower_seq(s));
}

/// Case folding distributes over concatenation.
pub proof fn lemma_lower_seq_concat(a: Seq<char>, b: Seq<char>)
    ensures
        lower_seq(a + b) == lower_seq(a) + lower_seq(b),
{
    assert(lower_seq(a + b) =~= lower_seq(a) + lower_seq(b));
}

/// Canonicalizing a login name is idempotent: for any email-shaped
/// name, canonicalizing twice yields the same result as canonicalizing
/// once.
pub proof fn lemma_canonical_login_idempotent(s: Seq<char>)
    requires
        has_at(lower_seq(s)),
    ensures
        has_at(lower_seq(canonical_login(s))),
        canonical_login(canonical_login(s)) == canonical_login(s),
{
    let l = lower_seq(s);
    let i = choose|i: int| is_first_at(l, i);
    let a = strip_dots(l.take(i));
    let b = l.skip(i + 1);
    let r = canonical_login(s);
    assert(r == a + seq!['@'] + b);

    // The local part of the canonical form is itself case-folded.
    assert(l.take(i) =~= lower_seq(s.take(i)));
    lemma_strip_lower_commute(s.take(i));
    assert(a == lower_seq(strip_dots(s.take(i))));
    lemma_lower_seq_idem(strip_dots(s.take(i)));
    assert(lower_seq(a) == a);
    assert(b =~= lower_seq(s.skip(i + 1)));
    lemma_lower_seq_idem(s.skip(i + 1));
    assert(lower_seq(b) == b);

    // Hence the whole canonical form is fixed under case folding.
    lemma_lower_seq_concat(a + seq!['@'], b);
    lemma_lower_seq_concat(a, seq!['@']);
    lemma_lower_char_fixed('@');
    assert(lower_seq(seq!['@']) =~= seq!['@']);
    assert(lower_seq(r) == r);

    // The local part holds no `@` and no `.`, so the first `@` of the
    // canonical form is the one that was inserted.
    lemma_strip_dots_chars(l.take(i));
    assert forall|k: int| 0 <= k < a.len() implies a[k] != '@' by {
        let j = choose|j: int| 0 <= j < l.take(i).len() && l.take(i)[j] == a[k];
        assert(l[j] != '@');
    }
    assert(r[a.len() as int] == '@');
    assert forall|k: int| 0 <= k < a.len() implies r[k] != '@' by {
        assert(r[k] == a[k]);
    }
    assert(is_first_at(r, a.len() as int));
    assert(has_at(lower_seq(r)));

    // Canonicalizing the canonical form splits at that same position
    // and changes neither part.
    let i2 = choose|i2: int| is_first_at(lower_seq(r), i2);
    lemma_first_at_unique(lower_seq(r), i2, a.len() as int);
    assert(lower_seq(r).take(a.len() as int) =~= a);
    assert(lower_seq(r).skip(a.len() as int + 1) =~= b);
    lemma_strip_dots_id(a);
    assert(canonical_login(r) =~= a + seq!['@'] + b);
}


/// A character that may appear in a generated token: an ASCII letter
/// or digit.
pub open spec fn is_token_char(c: char) -> bool {
    ('a' <= c && c <= 'z') || ('A' <= c && c <= 'Z') || ('0' <= c && c <= '9')
}

/// Relies on rand's thread-local generator with the Alphanumeric
/// distribution: it yields exactly `len` characters, each an ASCII
/// letter or digit. Nothing further is assumed of a random value.
#[verifier::external_body]
pub fn generate_rand_string(len: usize) -> (r: String)
    ensures
        r@.len() == len as nat,
        forall|i: int| 0 <= i < r@.len() ==> is_token_char(#[trigger] r@[i]),
{
    rand::thread_rng()
        .sample_iter(&rand::distributions::Alphanumeric)
        .take(len)
        .map(char::from)
        .collect()
}

/// Relies on rand's fill_bytes: it fills the buffer from the
/// thread-local generator. Nothing is assumed of the bytes themselves.
#[verifier::external_body]
pub(crate) fn generate_salt() -> (r: Vec<u8>)
    ensures
        r@.len() == 16,
{
    let mut v = vec![0u8; 16];
    rand::thread_rng().fill_bytes(&mut v);
    v
}

/// What the scrypt key-derivation function yields for a password and a
/// salt at this library's fixed cost parameters.
pub uninterp spec fn scrypt_key(password: Seq<char>, salt: Seq<u8>) -> Seq<u8>;

/// Relies on scrypt::scrypt at cost 2^15, block size 8, parallelism 1,
/// with a 32-byte output: the derived key depends on the password and
/// salt alone. The parameter checks of scrypt::Params::new and of
/// scrypt::scrypt accept these fixed arguments, so neither call fails.
#[verifier::external_body]
fn scrypt_derive(password: &str, salt: &Vec<u8>) -> (r: Vec<u8>)
    ensures
        r@ == scrypt_key(password@, salt@),
        r@.len() == 32,
{
    let params = scrypt::Params::new(15, 8, 1).expect("scrypt parameters");
    let mut out = vec![0u8; 32];
    scrypt::scrypt(password.as_bytes(), salt.as_slice(), &params, &mut out)
        .expect("scrypt output length");
    out
}

/// A stored password verifier: the salt drawn when the password was
/// set, and the scrypt key derived from the password under that salt.
#[derive(Clone, Debug)]
pub struct PasswordHash {
    pub salt: Vec<u8>,
    pub key: Vec<u8>,
}

impl PasswordHash {
    /// The hash matches exactly the password it was derived from.
    pub open spec fn spec_matches(&self, password: Seq<char>) -> bool {
        self.key@ == scrypt_key(password, self.salt@)
    }
}

/// Byte-for-byte equality of two byte vectors.
pub fn eq_bytes(a: &Vec<u8>, b: &Vec<u8>) -> (r: bool)
    ensures
        r == (a@ == b@),
{
    if a.len() != b.len() {
        assert(a@ != b@) by {
            assert(a@.len() != b@.len());
        }
        return false;
    }
    let n = a.len();
    let mut i: usize = 0;
    while i < n
        invariant
            i <= n,
            n == a@.len() == b@.len(),
            forall|j: int| 0 <= j < i ==> a@[j] == b@[j],
        decreases n - i,
    {
        if a[i] != b[i] {
            return false;
        }
        i = i + 1;
    }
    proof {
        assert(a@ =~= b@);
    }
    true
}

/// Derives a key from the supplied password under the stored salt and
/// compares it with the stored key.
pub fn check_password(passwd: &str, stored: &PasswordHash) -> (r: bool)
    ensures
        r == stored.spec_matches(passwd@),
{
    let derived = scrypt_derive(passwd, &stored.salt);
    eq_bytes(&derived, &stored.key)
}

/// Hashes a password under a fresh random salt. The result matches
/// exactly the password it was derived from.
pub fn hash_password(passwd: &str) -> (r: PasswordHash)
    ensures
        r.spec_matches(passwd@),
{
    let salt = generate_salt();
    let key = scrypt_derive(passwd, &salt);
    PasswordHash { salt, key }
}


/// Character-for-character equality of two strings.
pub fn str_eq(a: &str, b: &str) -> (r: bool)
    ensures
        r == (a@ == b@),
{
    let alen: usize = a.unicode_len();
    let blen: usize = b.unicode_len();
    if alen != blen {
        assert(a@ != b@) by {
            assert(a@.len() != b@.len());
        }
        return false;
    }
    let mut i: usize = 0;
    while i < alen
        invariant
            i <= alen,
            alen == a@.len() == b@.len(),
            forall|j: int| 0 <= j < i ==> a@[j] == b@[j],
        decreases alen - i,
    {
        if a.get_char(i) != b.get_char(i) {
            return false;
        }
        i = i + 1;
    }
    proof {
        assert(a@ =~= b@);
    }
    true
}

} // verus!
