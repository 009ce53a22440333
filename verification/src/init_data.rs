//! Validating a payload: canonical fields, signature, typed record.

use vstd::prelude::*;
use vstd::string::*;
use std::time::Duration;
use crate::clock::{nanos_of, seconds_of, span_between, unix_seconds};
use crate::error::{Error, Failure};
use crate::form::{form_pairs, parse_fields};
use crate::number::{decimal_u64, parse_decimal};
use crate::pairs::{pairs_map, signing_text, RawPairs};
use crate::signature::{signature_of, verify};
use crate::user::{decoded_user, UserView, WebAppUser};

verus! {

/// The typed record of a validated payload.
#[derive(Debug)]
pub struct WebAppInitData {
    user: Option<WebAppUser>,
    receiver: Option<WebAppUser>,
    auth_date: u64,
}

/// What a validated payload holds.
pub struct InitDataView {
    /// The user who opened the application.
    pub user: Option<UserView>,
    /// The other user of a chat between two, where the application was
    /// opened from one.
    pub receiver: Option<UserView>,
    /// When the payload was signed, in seconds since the epoch.
    pub auth_date: u64,
}

/// An optional user record as it is spoken of in contracts.
pub open spec fn optional_user(user: Option<WebAppUser>) -> Option<UserView> {
    match user {
        Some(u) => Some(u@),
        None => None,
    }
}

impl View for WebAppInitData {
    type V = InitDataView;

    closed spec fn view(&self) -> InitDataView {
        InitDataView {
            user: optional_user(self.user),
            receiver: optional_user(self.receiver),
            auth_date: self.auth_date,
        }
    }
}

/// The record in the field `name`, where the fields have it: the field's
/// value decoded, or the reason why it does not decode.
pub open spec fn decoded_record(fields: Map<Seq<char>, Seq<char>>, name: Seq<char>) -> Result<
    Option<UserView>,
    Failure,
> {
    if fields.contains_key(name) {
        match decoded_user(fields[name]) {
            Ok(user) => Ok(Some(user)),
            Err(fault) => Err(Failure::InvalidJson(name, fault)),
        }
    } else {
        Ok(None)
    }
}

/// The time of signing that the fields give.
pub open spec fn decoded_auth_date(fields: Map<Seq<char>, Seq<char>>) -> Result<u64, Failure> {
    if fields.contains_key("auth_date"@) {
        match decimal_u64(fields["auth_date"@]) {
            Some(seconds) => Ok(seconds),
            None => Err(Failure::InvalidNumericField("auth_date"@)),
        }
    } else {
        Err(Failure::MissingField("auth_date"@))
    }
}

/// The typed record of the fields, or the first thing that is wrong with
/// them: with `user`, then with `receiver`, then with `auth_date`. Fields of
/// other names are passed over.
pub open spec fn decoded_fields(fields: Map<Seq<char>, Seq<char>>) -> Result<
    InitDataView,
    Failure,
> {
    match decoded_record(fields, "user"@) {
        Err(failure) => Err(failure),
        Ok(user) => match decoded_record(fields, "receiver"@) {
            Err(failure) => Err(failure),
            Ok(receiver) => match decoded_auth_date(fields) {
                Err(failure) => Err(failure),
                Ok(auth_date) => Ok(InitDataView { user, receiver, auth_date }),
            },
        },
    }
}

/// What the validation of a payload's fields for the application with `token`
/// comes to. The field `hash` must be there, and must be the signature of the
/// other fields; then these decode.
pub open spec fn validated(token: Seq<char>, all: Map<Seq<char>, Seq<char>>) -> Result<
    InitDataView,
    Failure,
> {
    if !all.contains_key("hash"@) {
        Err(Failure::MissingField("hash"@))
    } else if all["hash"@] != signature_of(token, signing_text(all.remove("hash"@))) {
        Err(Failure::InvalidHash)
    } else {
        decoded_fields(all.remove("hash"@))
    }
}

/// What the validation of a URL-encoded payload comes to.
pub open spec fn validation(token: Seq<char>, raw: Seq<u8>) -> Result<InitDataView, Failure> {
    validated(token, pairs_map(form_pairs(raw)))
}

/// The validation came to a refusal for this reason.
pub open spec fn refused(result: Result<InitDataView, Failure>, failure: Failure) -> bool {
    result == Err::<InitDataView, Failure>(failure)
}

/// A result with its two sides as they are spoken of in contracts.
pub open spec fn outcome(result: Result<WebAppInitData, Error>) -> Result<InitDataView, Failure> {
    match result {
        Ok(data) => Ok(data@),
        Err(error) => Err(error@),
    }
}

fn decode_record(fields: &RawPairs, name: &'static str) -> (record: Result<
    Option<WebAppUser>,
    Error,
>)
    ensures
        match decoded_record(fields@, name@) {
            Ok(user) => record matches Ok(found) && optional_user(found) == user,
            Err(failure) => record matches Err(error) && error@ == failure,
        },
{
    match fields.get(name) {
        None => Ok(None),
        Some(text) => {
            let decoded = WebAppUser::from_json(text);
            match decoded {
                Ok(user) => Ok(Some(user)),
                Err(cause) => Err(Error::InvalidJson(name, cause)),
            }
        },
    }
}

fn decode_auth_date(fields: &RawPairs) -> (seconds: Result<u64, Error>)
    ensures
        match decoded_auth_date(fields@) {
            Ok(n) => seconds matches Ok(found) && found == n,
            Err(failure) => seconds matches Err(error) && error@ == failure,
        },
{
    match fields.get("auth_date") {
        None => Err(Error::MissingField("auth_date")),
        Some(text) => match parse_decimal(text) {
            Some(n) => Ok(n),
            None => Err(Error::InvalidNumericField("auth_date")),
        },
    }
}

impl WebAppInitData {
    /// Validates a URL-encoded payload for the application with `token`.
    ///
    /// The payload is split into its fields; where it names a field more than
    /// once, the last value counts. It is refused with the first of these
    /// that holds: it has no field `hash`; `hash` is not the signature of the
    /// other fields; `user` is there and does not decode; `receiver` is there
    /// and does not decode; `auth_date` is not there; `auth_date` is not a
    /// number.
    pub fn new(token: &str, raw: &[u8]) -> (result: Result<WebAppInitData, Error>)
        ensures
            outcome(result) == validation(token@, raw@),
    {
        WebAppInitData::from_fields(token, parse_fields(raw))
    }

    /// Validates the fields of a payload for the application with `token`, as
    /// `new` does once it has split the payload.
    pub fn from_fields(token: &str, fields: RawPairs) -> (result: Result<WebAppInitData, Error>)
        ensures
            outcome(result) == validated(token@, fields@),
    {
        let mut fields = fields;
        let claimed = match fields.remove("hash") {
            Some(claimed) => claimed,
            None => {
                return Err(Error::MissingField("hash"));
            },
        };
        let text = fields.signing_string();
        if !verify(token, text.as_str(), claimed.as_str()) {
            return Err(Error::InvalidHash);
        }
        WebAppInitData::decode(&fields)
    }

    /// Decodes the typed record from fields whose signature has been verified.
    /// This does not look at any signature: fields that did not come through
    /// `verify` prove nothing.
    pub fn decode(fields: &RawPairs) -> (result: Result<WebAppInitData, Error>)
        ensures
            outcome(result) == decoded_fields(fields@),
    {
        let user = decode_record(fields, "user")?;
        let receiver = decode_record(fields, "receiver")?;
        let auth_date = decode_auth_date(fields)?;
        Ok(WebAppInitData { user, receiver, auth_date })
    }

    /// The user who opened the application, if the payload names one.
    pub fn user(&self) -> (user: Option<&WebAppUser>)
        ensures
            user is Some <==> self@.user is Some,
            user matches Some(u) ==> self@.user == Some(u@),
    {
        self.user.as_ref()
    }

    /// The other user of a chat between two, if the payload names one.
    pub fn receiver(&self) -> (receiver: Option<&WebAppUser>)
        ensures
            receiver is Some <==> self@.receiver is Some,
            receiver matches Some(u) ==> self@.receiver == Some(u@),
    {
        self.receiver.as_ref()
    }

    /// When the payload was signed, in seconds since the epoch.
    pub fn auth_date(&self) -> (seconds: u64)
        ensures
            seconds == self@.auth_date,
    {
        self.auth_date
    }

    /// The time from the signing of the payload to `now`, given in seconds
    /// since the epoch: a span of whole seconds, and nothing where the
    /// payload claims to have been signed after `now`.
    pub fn elapsed_at(&self, now: u64) -> (elapsed: Option<Duration>)
        ensures
            elapsed is Some <==> self@.auth_date <= now,
            elapsed matches Some(span) ==> seconds_of(span) == now - self@.auth_date && nanos_of(
                span,
            ) == 0,
    {
        span_between(self.auth_date, now)
    }

    /// The time from the signing of the payload to this moment on the wall
    /// clock, read anew at each call: a span of whole seconds, and nothing
    /// where the clock stands before the epoch or before the signing.
    pub fn elapsed_since_auth(&self) -> (elapsed: Option<Duration>)
        ensures
            elapsed matches Some(span) ==> self@.auth_date + seconds_of(span) <= u64::MAX
                && nanos_of(span) == 0,
    {
        match unix_seconds() {
            Some(now) => self.elapsed_at(now),
            None => None,
        }
    }
}

} // verus!
