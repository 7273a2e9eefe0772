//! API tokens of users, and which of them have expired.

use crate::error::GoatNsError;
use vstd::prelude::*;

verus! {

/// The error `chrono` reports when text does not match a format.
#[verifier::external_type_specification]
#[verifier::external_body]
pub struct ExChronoParseError(chrono::format::ParseError);

/// The UTC time, in seconds since the epoch, that `chrono::NaiveDateTime::parse_from_str`
/// reads from `text` in the format `fmt`; `None` when the text does not match.
pub uninterp spec fn parsed_datetime(text: Seq<char>, fmt: Seq<char>) -> Option<i64>;

/// Calls `chrono::NaiveDateTime::parse_from_str` and takes the result's timestamp as UTC;
/// the outcome is named [parsed_datetime].
#[verifier::external_body]
fn parse_datetime(text: &str, fmt: &str) -> (r: Result<i64, chrono::format::ParseError>)
    ensures
        match parsed_datetime(text@, fmt@) {
            Some(t) => r matches Ok(v) && v == t,
            None => r is Err,
        },
{
    match chrono::NaiveDateTime::parse_from_str(text, fmt) {
        Ok(value) => Ok(value.and_utc().timestamp()),
        Err(e) => Err(e),
    }
}

/// An API token of a user; the times are seconds since the epoch.
#[derive(Debug, Clone)]
pub struct UserAuthToken {
    pub id: Option<i64>,
    pub name: String,
    pub issued: i64,
    pub expiry: Option<i64>,
    pub userid: i64,
    pub tokenkey: String,
    pub tokenhash: String,
}

impl UserAuthToken {
    /// Whether the periodic cleanup removes the token at time `now`: it has an expiry,
    /// and that is before `now`.
    pub fn is_expired(&self, now: i64) -> (r: bool)
        ensures
            r == (self.expiry matches Some(e) && e < now),
    {
        match self.expiry {
            Some(e) => e < now,
            None => false,
        }
    }

    /// The token a stored row describes: its times are stored as seconds-since-epoch text
    /// (`%s`); an error when one of them does not read as such.
    pub fn try_from_row(
        id: Option<i64>,
        name: String,
        issued: &str,
        expiry: Option<&str>,
        userid: i64,
        tokenkey: String,
        tokenhash: String,
    ) -> (r: Result<UserAuthToken, GoatNsError>)
        ensures
            r is Ok <==> (parsed_datetime(issued@, "%s"@) is Some && match expiry {
                Some(e) => parsed_datetime(e@, "%s"@) is Some,
                None => true,
            }),
            r matches Ok(t) ==> t.id == id && t.name@ == name@ && Some(t.issued) == parsed_datetime(issued@, "%s"@)
                && t.userid == userid && t.tokenkey@ == tokenkey@ && t.tokenhash@ == tokenhash@
                && match expiry {
                Some(e) => t.expiry == parsed_datetime(e@, "%s"@),
                None => t.expiry is None,
            },
            r matches Err(e) ==> e is DateParseError,
    {
        let expiry = match expiry {
            None => None,
            Some(val) => match parse_datetime(val, "%s") {
                Ok(t) => Some(t),
                Err(_) => {
                    return Err(GoatNsError::DateParseError(String::from_str("Failed to parse the expiry time")));
                },
            },
        };
        let issued = match parse_datetime(issued, "%s") {
            Ok(t) => t,
            Err(_) => {
                return Err(GoatNsError::DateParseError(String::from_str("Failed to parse the issue time")));
            },
        };
        Ok(UserAuthToken { id, name, issued, expiry, userid, tokenkey, tokenhash })
    }
}

} // verus!
