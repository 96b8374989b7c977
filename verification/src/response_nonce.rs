//! The nonce that a provider puts into a positive assertion: the time of
//! the assertion in RFC 3339 form, ending in `Z`, followed by a salt.
//!
//! Nothing of it is stored. Whether it is still fresh is a comparison of its
//! time with the time of the check.

use crate::constants::OPENID_RESPONSE_NONCE_MAX_LEN;
use crate::text::{chars_of, find_char, position, string_of};
use vstd::prelude::*;
use vstd::string::StringExecFns;

verus! {

/// How old a provider's nonce may be when it is checked, in milliseconds.
pub const NONCE_MAX_AGE_MS: i64 = 30_000;

/// The time that `text` names in RFC 3339 form, in milliseconds since the
/// start of 1970 in UTC; `None` where `text` is no such time.
pub uninterp spec fn rfc3339_millis(text: Seq<char>) -> Option<i64>;

/// The RFC 3339 form, to the second and with `Z` for UTC, of the time
/// `millis` milliseconds after the start of 1970; `None` where that time is
/// out of the calendar's range.
pub uninterp spec fn rfc3339_text(millis: i64) -> Option<Seq<char>>;

/// `chrono::DateTime::parse_from_rfc3339`, read off in milliseconds with
/// `DateTime::timestamp_millis`: the result is the time that the text names,
/// and `None` where chrono rejects the text.
#[verifier::external_body]
fn parse_rfc3339(text: &str) -> (millis: Option<i64>)
    ensures
        millis == rfc3339_millis(text@),
{
    chrono::DateTime::parse_from_rfc3339(text).ok().map(|time| time.timestamp_millis())
}

/// `chrono::DateTime::to_rfc3339_opts` with whole seconds and `Z`, on the
/// time that `DateTime::from_timestamp_millis` makes of `millis`: the result
/// is that time's text, and `None` where chrono has no such time.
#[verifier::external_body]
fn format_rfc3339(millis: i64) -> (text: Option<String>)
    ensures
        match text {
            Some(t) => rfc3339_text(millis) == Some(t@),
            None => rfc3339_text(millis) is None,
        },
{
    chrono::DateTime::from_timestamp_millis(millis).map(
        |time| time.to_rfc3339_opts(chrono::SecondsFormat::Secs, true),
    )
}

/// `chrono::Utc::now`, read off in milliseconds with
/// `DateTime::timestamp_millis`. Nothing is claimed of the result: it is the
/// clock's.
#[verifier::external_body]
pub(crate) fn now_millis() -> (millis: i64) {
    chrono::Utc::now().timestamp_millis()
}

/// Why a text is no provider's nonce.
#[derive(Debug, Clone, Copy, PartialEq, Eq)]
pub enum ResponseNonceError {
    /// It is longer than 255 characters.
    TooLong,
    /// It holds no `Z`, so no time ends in it.
    MissingTime,
    /// Nothing follows the time.
    MissingSalt,
    /// What stands before the salt is no RFC 3339 time.
    InvalidTime,
}

/// A provider's nonce.
#[derive(Debug, Clone, PartialEq, Eq)]
pub struct ResponseNonce {
    /// Milliseconds since the start of 1970, UTC.
    pub time: i64,
    pub salt: String,
}

/// The mathematical value of a [`ResponseNonce`].
pub struct ResponseNonceView {
    pub time: int,
    pub salt: Seq<char>,
}

impl View for ResponseNonce {
    type V = ResponseNonceView;

    open spec fn view(&self) -> ResponseNonceView {
        ResponseNonceView { time: self.time as int, salt: self.salt@ }
    }
}

/// The two parts of the nonce `text`: its time is all up to the first `Z`,
/// that `Z` included, and its salt is the rest, which must not be empty.
pub open spec fn split_spec(text: Seq<char>) -> Result<(Seq<char>, Seq<char>), ResponseNonceError> {
    let z = position(text, 'Z');
    if text.len() > OPENID_RESPONSE_NONCE_MAX_LEN {
        Err(ResponseNonceError::TooLong)
    } else if z >= text.len() {
        Err(ResponseNonceError::MissingTime)
    } else if z + 1 == text.len() {
        Err(ResponseNonceError::MissingSalt)
    } else {
        Ok((text.take(z + 1), text.skip(z + 1)))
    }
}

/// The nonce that `text` writes.
pub open spec fn parse_spec(text: Seq<char>) -> Result<ResponseNonceView, ResponseNonceError> {
    match split_spec(text) {
        Err(e) => Err(e),
        Ok((time, salt)) => match rfc3339_millis(time) {
            None => Err(ResponseNonceError::InvalidTime),
            Some(millis) => Ok(ResponseNonceView { time: millis as int, salt }),
        },
    }
}

/// Whether a nonce of the time `time` is older than `max_age` at the time
/// `now`, all in milliseconds.
pub open spec fn older_than(time: int, now: int, max_age: int) -> bool {
    now - time > max_age
}

/// A nonce that was read, or the reason why none was.
pub open spec fn nonce_outcome(r: Result<ResponseNonce, ResponseNonceError>) -> Result<
    ResponseNonceView,
    ResponseNonceError,
> {
    match r {
        Ok(nonce) => Ok(nonce@),
        Err(e) => Err(e),
    }
}

impl ResponseNonce {
    /// The nonce of the salt `salt` and the time `time`, in milliseconds
    /// since the start of 1970.
    pub fn new(salt: String, time: i64) -> (nonce: ResponseNonce)
        ensures
            nonce.time == time,
            nonce.salt == salt,
    {
        ResponseNonce { time, salt }
    }

    /// Cuts a nonce into the text of its time and its salt.
    pub fn split(nonce: &str) -> (r: Result<(String, String), ResponseNonceError>)
        ensures
            match r {
                Ok(parts) => split_spec(nonce@) == Ok::<_, ResponseNonceError>(
                    (parts.0@, parts.1@),
                ),
                Err(e) => split_spec(nonce@) == Err::<(Seq<char>, Seq<char>), _>(e),
            },
    {
        let chars = chars_of(nonce);
        if chars.len() > OPENID_RESPONSE_NONCE_MAX_LEN {
            return Err(ResponseNonceError::TooLong);
        }
        let z = find_char(&chars, 0, 'Z');
        assert(chars@.skip(0) =~= chars@);
        if z == chars.len() {
            return Err(ResponseNonceError::MissingTime);
        }
        if z + 1 == chars.len() {
            return Err(ResponseNonceError::MissingSalt);
        }
        let time = string_of(&chars, 0, z + 1);
        let salt = string_of(&chars, z + 1, chars.len());
        assert(chars@.subrange(0, z + 1) =~= chars@.take(z + 1));
        assert(chars@.subrange(z + 1, chars.len() as int) =~= chars@.skip(z + 1));
        Ok((time, salt))
    }

    /// Reads a nonce.
    pub fn from_str(nonce: &str) -> (r: Result<ResponseNonce, ResponseNonceError>)
        ensures
            nonce_outcome(r) == parse_spec(nonce@),
    {
        let (time, salt) = match ResponseNonce::split(nonce) {
            Ok(parts) => parts,
            Err(e) => {
                return Err(e);
            },
        };
        match parse_rfc3339(time.as_str()) {
            None => Err(ResponseNonceError::InvalidTime),
            Some(millis) => Ok(ResponseNonce::new(salt, millis)),
        }
    }

    /// The text of the nonce, given the text of its time: the salt follows
    /// the time.
    pub fn write_after(&self, time: String) -> (text: String)
        ensures
            text@ == time@ + self.salt@,
    {
        let mut buffer = time;
        buffer.append(self.salt.as_str());
        buffer
    }

    /// Writes the nonce: its time to the second, then its salt. `None`
    /// where the time is out of the calendar's range.
    pub fn to_string(&self) -> (text: Option<String>)
        ensures
            match text {
                Some(t) => rfc3339_text(self.time) matches Some(time) && t@ == time + self.salt@,
                None => rfc3339_text(self.time) is None,
            },
    {
        match format_rfc3339(self.time) {
            None => None,
            Some(time) => Some(self.write_after(time)),
        }
    }

    /// The salt of the nonce.
    pub fn as_salt(&self) -> (salt: &str)
        ensures
            salt@ == self.salt@,
    {
        self.salt.as_str()
    }

    /// Whether the nonce is older than `max_age` milliseconds at the time
    /// `now`.
    pub fn is_older_than(&self, now: i64, max_age: i64) -> (old: bool)
        ensures
            old == older_than(self.time as int, now as int, max_age as int),
    {
        let age: i128 = now as i128 - self.time as i128;
        age > max_age as i128
    }

    /// Whether the nonce is more than 30 seconds old at the time `now`. A
    /// nonce of a time after `now` is not.
    pub fn is_expired_at(&self, now: i64) -> (expired: bool)
        ensures
            expired == older_than(self.time as int, now as int, NONCE_MAX_AGE_MS as int),
    {
        self.is_older_than(now, NONCE_MAX_AGE_MS)
    }

    /// Whether the nonce is more than 30 seconds old by the clock.
    pub fn is_expired(&self) -> (expired: bool)
        ensures
            exists|now: i64|
                expired == older_than(self.time as int, now as int, NONCE_MAX_AGE_MS as int),
    {
        let now = now_millis();
        self.is_expired_at(now)
    }
}

} // verus!
