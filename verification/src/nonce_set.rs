//! The relying party's own tokens: issued when a login starts, carried
//! through the provider and back, and valid once, for five minutes.
//!
//! A [`NonceSet`] is plain data. Whoever shares one between requests puts it
//! behind a lock; each operation here is one step under that lock, so that a
//! token cannot be found by two requests and removed by both.

use crate::entries::{distinct_keys, key_index, keys, lemma_lookup_none, lemma_put, lemma_retain,
    lemma_without, lookup, put, retain, without};
use crate::response_nonce::now_millis;
use crate::text::{lemma_position_is, same_text};
use vstd::prelude::*;
use vstd::string::StringExecFns;

verus! {

/// How many random bytes make a token.
pub const NONCE_BYTES: usize = 36;

/// How old a token may be when it comes back, in milliseconds.
pub const NONCE_MAX_AGE_MS: i64 = 300_000;

/// How many characters write a token: four for every three bytes.
pub const NONCE_TEXT_LEN: usize = 48;

/// The text of `bytes` in base64 with the URL-safe alphabet and without
/// padding.
pub uninterp spec fn base64url(bytes: Seq<u8>) -> Seq<char>;

/// Whether `c` is of the URL-safe base64 alphabet: a letter, a digit, `-`
/// or `_`.
pub open spec fn is_url_safe(c: char) -> bool {
    let n = c as u32;
    (65 <= n <= 90) || (97 <= n <= 122) || (48 <= n <= 57) || n == 45 || n == 95
}

/// Whether `text` has the form of a token: 48 characters of the URL-safe
/// base64 alphabet.
pub open spec fn is_token(text: Seq<char>) -> bool {
    text.len() == NONCE_TEXT_LEN && forall|i: int|
        0 <= i < text.len() ==> is_url_safe(#[trigger] text[i])
}

/// `rand::RngCore::fill_bytes` on `rand::thread_rng()`: 36 bytes from the
/// thread's generator. Nothing is claimed of them.
#[verifier::external_body]
fn random_bytes() -> (bytes: [u8; 36]) {
    let mut bytes = [0u8; 36];
    rand::RngCore::fill_bytes(&mut rand::thread_rng(), &mut bytes);
    bytes
}

/// `base64::Engine::encode` of the engine `URL_SAFE_NO_PAD`: the result is
/// the base64 text of the bytes. Without padding 36 bytes make 48
/// characters, all of the engine's alphabet, `A` to `Z`, `a` to `z`, `0` to
/// `9`, `-` and `_`.
#[verifier::external_body]
fn encode_base64url(bytes: &[u8; 36]) -> (text: String)
    ensures
        text@ == base64url(bytes@),
        text@.len() == 48,
        forall|i: int| 0 <= i < text@.len() ==> is_url_safe(#[trigger] text@[i]),
{
    base64::Engine::encode(&base64::engine::general_purpose::URL_SAFE_NO_PAD, bytes)
}

/// A token that ties the start of a login to its callback.
#[derive(Debug, Clone, PartialEq, Eq, Hash)]
pub struct AuthRequestNonce {
    inner: String,
}

impl View for AuthRequestNonce {
    type V = Seq<char>;

    closed spec fn view(&self) -> Seq<char> {
        self.inner@
    }
}

impl AuthRequestNonce {
    /// The token of the text `text`, as it came back in a callback or out
    /// of a session.
    pub fn new(text: String) -> (nonce: AuthRequestNonce)
        ensures
            nonce@ == text@,
    {
        AuthRequestNonce { inner: text }
    }

    /// The token that the bytes `bytes` make.
    pub fn from_bytes(bytes: &[u8; 36]) -> (nonce: AuthRequestNonce)
        ensures
            nonce@ == base64url(bytes@),
            is_token(nonce@),
    {
        AuthRequestNonce { inner: encode_base64url(bytes) }
    }

    /// A token of 36 random bytes.
    pub fn random() -> (nonce: AuthRequestNonce)
        ensures
            exists|bytes: Seq<u8>| bytes.len() == 36 && nonce@ == base64url(bytes),
            is_token(nonce@),
    {
        let bytes = random_bytes();
        AuthRequestNonce::from_bytes(&bytes)
    }

    /// The text of the token.
    pub fn as_str(&self) -> (text: &str)
        ensures
            text@ == self@,
    {
        self.inner.as_str()
    }

    /// A copy of the token.
    pub fn duplicate(&self) -> (copy: AuthRequestNonce)
        ensures
            copy@ == self@,
    {
        AuthRequestNonce { inner: self.inner.clone() }
    }
}

/// What the set remembers of a token: when it was issued, in milliseconds
/// since the start of 1970.
#[derive(Debug, Clone, Copy, PartialEq, Eq)]
pub struct Metadata {
    pub time: i64,
}

/// Whether a token issued at `issued` is too old at `now`.
pub open spec fn expired(issued: int, now: int) -> bool {
    now - issued > NONCE_MAX_AGE_MS
}

impl Metadata {
    /// The metadata of a token issued at `now`.
    pub fn new(now: i64) -> (meta: Metadata)
        ensures
            meta.time == now,
    {
        Metadata { time: now }
    }

    /// Whether the token is more than five minutes old at `now`.
    pub fn is_expired(&self, now: i64) -> (old: bool)
        ensures
            old == expired(self.time as int, now as int),
    {
        let age: i128 = now as i128 - self.time as i128;
        age > NONCE_MAX_AGE_MS as i128
    }
}

/// Why a token is not accepted.
#[derive(Debug, Clone, Copy, PartialEq, Eq)]
pub enum NonceError {
    /// The set does not hold the token.
    Invalid,
    /// The set held the token, but it was issued too long ago.
    Expired,
}

/// The tokens that were issued and have not come back yet.
#[derive(Debug)]
pub struct NonceSet {
    entries: Vec<(AuthRequestNonce, Metadata)>,
}

/// The texts and times of a list of tokens.
pub open spec fn issued(v: Seq<(AuthRequestNonce, Metadata)>) -> Seq<(Seq<char>, int)> {
    v.map_values(|e: (AuthRequestNonce, Metadata)| (e.0@, e.1.time as int))
}

impl View for NonceSet {
    type V = Seq<(Seq<char>, int)>;

    closed spec fn view(&self) -> Seq<(Seq<char>, int)> {
        issued(self.entries@)
    }
}

/// Taking the token `text` out of `set` at the time `now`: the verdict, and
/// the set afterwards. A token that the set holds leaves it, expired or not.
pub open spec fn consume_spec(set: Seq<(Seq<char>, int)>, text: Seq<char>, now: int) -> (
    Result<(), NonceError>,
    Seq<(Seq<char>, int)>,
) {
    match lookup(set, text) {
        None => (Err(NonceError::Invalid), set),
        Some(time) => (
            if expired(time, now) {
                Err(NonceError::Expired)
            } else {
                Ok(())
            },
            without(set, text),
        ),
    }
}

/// Putting the token `new`, issued at `now`, in the place of the token
/// `old`: whether `old` was there, and the set afterwards.
pub open spec fn replace_spec(
    set: Seq<(Seq<char>, int)>,
    old: Seq<char>,
    new: Seq<char>,
    now: int,
) -> (Result<Seq<char>, NonceError>, Seq<(Seq<char>, int)>) {
    match lookup(set, old) {
        None => (Err(NonceError::Invalid), set),
        Some(_) => (Ok(new), put(without(set, old), new, now)),
    }
}

/// The set without the tokens that are too old at `now`.
pub open spec fn sweep_spec(set: Seq<(Seq<char>, int)>, now: int) -> Seq<(Seq<char>, int)> {
    retain(set, |time: int| !expired(time, now))
}

/// A token that was issued, or the reason why none was.
pub open spec fn nonce_outcome(r: Result<AuthRequestNonce, NonceError>) -> Result<
    Seq<char>,
    NonceError,
> {
    match r {
        Ok(nonce) => Ok(nonce@),
        Err(e) => Err(e),
    }
}

impl NonceSet {
    /// Whether no token occurs twice. The empty set is well formed and
    /// every operation keeps a set so.
    pub open spec fn wf(&self) -> bool {
        distinct_keys(self@)
    }

    /// The empty set.
    pub fn new() -> (set: NonceSet)
        ensures
            set@ == Seq::<(Seq<char>, int)>::empty(),
            set.wf(),
    {
        let set = NonceSet { entries: Vec::new() };
        assert(issued(set.entries@) =~= Seq::empty());
        assert(keys(set@) =~= Seq::empty());
        set
    }

    /// How many tokens the set holds.
    pub fn len(&self) -> (n: usize)
        ensures
            n == self@.len(),
    {
        self.entries.len()
    }

    /// Where the token `text` stands, or the number of tokens where the set
    /// does not hold it.
    fn find(&self, text: &str) -> (i: usize)
        ensures
            i == key_index(self@, text@),
            i <= self.entries.len(),
    {
        let ghost all = self@;
        let mut i: usize = 0;
        while i < self.entries.len()
            invariant
                0 <= i <= self.entries.len(),
                all == issued(self.entries@),
                forall|j: int| 0 <= j < i ==> keys(all)[j] != text@,
            decreases self.entries.len() - i,
        {
            if same_text(self.entries[i].0.as_str(), text) {
                proof {
                    assert(keys(all)[i as int] == text@);
                    lemma_position_is(keys(all), text@, i as int);
                }
                return i;
            }
            assert(keys(all)[i as int] != text@);
            i = i + 1;
        }
        proof {
            lemma_position_is(keys(all), text@, i as int);
        }
        i
    }

    /// Whether the set holds the token `text`. A token that it does not
    /// hold is reported as expired.
    pub fn validate(&self, text: &str) -> (r: Result<(), NonceError>)
        ensures
            r == (if lookup(self@, text@) is Some {
                Ok::<(), NonceError>(())
            } else {
                Err(NonceError::Expired)
            }),
    {
        if self.find(text) < self.entries.len() {
            Ok(())
        } else {
            Err(NonceError::Expired)
        }
    }

    /// Puts the token `nonce` into the set as issued at `now`, and hands it
    /// back.
    pub fn issue_with(&mut self, nonce: AuthRequestNonce, now: i64) -> (issued: AuthRequestNonce)
        ensures
            issued@ == nonce@,
            final(self)@ == put(old(self)@, nonce@, now as int),
            old(self).wf() ==> final(self).wf(),
    {
        proof {
            if self.wf() {
                lemma_put(self@, nonce@, now as int);
            }
        }
        let copy = nonce.duplicate();
        let ghost before = self@;
        let i = self.find(nonce.as_str());
        if i < self.entries.len() {
            self.entries.set(i, (nonce, Metadata::new(now)));
            assert(issued(self.entries@) =~= before.update(i as int, (copy@, now as int)));
        } else {
            self.entries.push((nonce, Metadata::new(now)));
            assert(issued(self.entries@) =~= before.push((copy@, now as int)));
        }
        copy
    }

    /// Issues a token: 36 random bytes, written in base64, remembered with
    /// the time of the clock.
    pub fn issue(&mut self) -> (issued: AuthRequestNonce)
        ensures
            is_token(issued@),
            exists|now: i64| final(self)@ == put(old(self)@, issued@, now as int),
            old(self).wf() ==> final(self).wf(),
    {
        let nonce = AuthRequestNonce::random();
        let now = now_millis();
        self.issue_with(nonce, now)
    }

    /// Takes the token `text` out of the set and says whether it was there
    /// and young enough at `now`. Finding and removing are one step.
    pub fn validate_and_consume_at(&mut self, text: &str, now: i64) -> (r: Result<
        (),
        NonceError,
    >)
        ensures
            (r, final(self)@) == consume_spec(old(self)@, text@, now as int),
            old(self).wf() ==> final(self).wf(),
    {
        proof {
            if self.wf() {
                lemma_without(self@, text@);
            }
        }
        let ghost before = self@;
        let i = self.find(text);
        if i >= self.entries.len() {
            return Err(NonceError::Invalid);
        }
        let entry = self.entries.remove(i);
        assert(issued(self.entries@) =~= before.remove(i as int));
        assert(before[i as int].1 == entry.1.time);
        if entry.1.is_expired(now) {
            return Err(NonceError::Expired);
        }
        Ok(())
    }

    /// Takes the token `text` out of the set and says whether it was there
    /// and young enough by the clock.
    pub fn validate_and_consume(&mut self, text: &str) -> (r: Result<(), NonceError>)
        ensures
            exists|now: i64| (r, final(self)@) == consume_spec(old(self)@, text@, now as int),
            old(self).wf() ==> final(self).wf(),
    {
        let now = now_millis();
        self.validate_and_consume_at(text, now)
    }

    /// Takes the token `old` out of the set and puts `new` in, issued at
    /// `now`; nothing changes where the set does not hold `old`.
    pub fn replace_with(&mut self, old_text: &str, new: AuthRequestNonce, now: i64) -> (r: Result<
        AuthRequestNonce,
        NonceError,
    >)
        ensures
            (nonce_outcome(r), final(self)@) == replace_spec(
                old(self)@,
                old_text@,
                new@,
                now as int,
            ),
            old(self).wf() ==> final(self).wf(),
    {
        proof {
            if self.wf() {
                lemma_without(self@, old_text@);
            }
        }
        let ghost before = self@;
        let i = self.find(old_text);
        if i >= self.entries.len() {
            return Err(NonceError::Invalid);
        }
        let _ = self.entries.remove(i);
        assert(issued(self.entries@) =~= before.remove(i as int));
        Ok(self.issue_with(new, now))
    }

    /// Gives a login that is under way a fresh token in place of the one it
    /// had.
    pub fn replace(&mut self, old_text: &str) -> (r: Result<AuthRequestNonce, NonceError>)
        ensures
            exists|new: Seq<char>, now: i64|
                is_token(new) && (nonce_outcome(r), final(self)@) == replace_spec(
                    old(self)@,
                    old_text@,
                    new,
                    now as int,
                ),
            old(self).wf() ==> final(self).wf(),
    {
        let new = AuthRequestNonce::random();
        let now = now_millis();
        let ghost text = new@;
        let r = self.replace_with(old_text, new, now);
        assert(is_token(text) && (nonce_outcome(r), self@) == replace_spec(
            old(self)@,
            old_text@,
            text,
            now as int,
        ));
        r
    }

    /// Removes the tokens that are too old at `now`.
    pub fn sweep_expired_at(&mut self, now: i64)
        ensures
            final(self)@ == sweep_spec(old(self)@, now as int),
            old(self).wf() ==> final(self).wf(),
    {
        proof {
            if self.wf() {
                lemma_retain(self@, |time: int| !expired(time, now as int));
            }
        }
        let ghost before = self@;
        let ghost keep = |time: int| !expired(time, now as int);
        let mut kept: Vec<(AuthRequestNonce, Metadata)> = Vec::new();
        let mut i: usize = 0;
        assert(before.take(0) =~= Seq::empty());
        assert(issued(kept@) =~= Seq::empty());
        while i < self.entries.len()
            invariant
                0 <= i <= self.entries.len(),
                before == issued(self.entries@),
                keep == (|time: int| !expired(time, now as int)),
                issued(kept@) == retain(before.take(i as int), keep),
            decreases self.entries.len() - i,
        {
            let ghost so_far = issued(kept@);
            proof {
                assert(before.take(i + 1).drop_last() =~= before.take(i as int));
                assert(before.take(i + 1).last() == before[i as int]);
            }
            if !self.entries[i].1.is_expired(now) {
                kept.push((self.entries[i].0.duplicate(), self.entries[i].1));
                assert(issued(kept@) =~= so_far.push(before[i as int]));
            }
            i = i + 1;
        }
        assert(before.take(i as int) =~= before);
        self.entries = kept;
    }

    /// Removes the tokens that are too old by the clock.
    pub fn sweep_expired(&mut self)
        ensures
            exists|now: i64| final(self)@ == sweep_spec(old(self)@, now as int),
            old(self).wf() ==> final(self).wf(),
    {
        let now = now_millis();
        self.sweep_expired_at(now);
    }
}

/// A token that was issued is accepted once, if it comes back within five
/// minutes, and never again: the second attempt finds the set without it.
pub proof fn lemma_single_use(
    set: Seq<(Seq<char>, int)>,
    nonce: Seq<char>,
    issued_at: int,
    now: int,
    later: int,
)
    requires
        distinct_keys(set),
        !expired(issued_at, now),
    ensures
        consume_spec(put(set, nonce, issued_at), nonce, now).0 == Ok::<(), NonceError>(()),
        consume_spec(consume_spec(put(set, nonce, issued_at), nonce, now).1, nonce, later).0
            == Err::<(), _>(NonceError::Invalid),
{
    lemma_put(set, nonce, issued_at);
    lemma_without(put(set, nonce, issued_at), nonce);
}

/// A token that comes back more than five minutes after it was issued is
/// refused as expired, and it is gone from the set all the same.
pub proof fn lemma_expired_is_refused(
    set: Seq<(Seq<char>, int)>,
    nonce: Seq<char>,
    issued_at: int,
    now: int,
)
    requires
        distinct_keys(set),
        expired(issued_at, now),
    ensures
        consume_spec(put(set, nonce, issued_at), nonce, now).0 == Err::<(), _>(
            NonceError::Expired,
        ),
        lookup(consume_spec(put(set, nonce, issued_at), nonce, now).1, nonce) is None,
{
    lemma_put(set, nonce, issued_at);
    lemma_without(put(set, nonce, issued_at), nonce);
}

/// A token that the set does not hold is refused as invalid and the set
/// stays as it is.
pub proof fn lemma_unknown_is_invalid(set: Seq<(Seq<char>, int)>, nonce: Seq<char>, now: int)
    requires
        !keys(set).contains(nonce),
    ensures
        consume_spec(set, nonce, now) == (Err::<(), _>(NonceError::Invalid), set),
{
    lemma_lookup_none(set, nonce);
}

impl NonceError {
    /// What the error says in words.
    pub open spec fn message_text(self) -> Seq<char> {
        match self {
            NonceError::Invalid => "the nonce is invalid"@,
            NonceError::Expired => "the nonce has expired"@,
        }
    }

    /// What the error says in words.
    pub fn message(&self) -> (text: String)
        ensures
            text@ == self.message_text(),
    {
        match self {
            NonceError::Invalid => String::from_str("the nonce is invalid"),
            NonceError::Expired => String::from_str("the nonce has expired"),
        }
    }
}

} // verus!
