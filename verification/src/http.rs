//! What an HTTP exchange came to.

use vstd::prelude::*;

use crate::text::decimal;

verus! {

/// A status code between 100 and 999.
#[derive(Clone, Copy, Debug, PartialEq, Eq)]
pub struct HttpStatus {
    code: u16,
}

/// The codes that a status can have.
pub open spec fn is_status(code: u16) -> bool {
    100 <= code <= 999
}

/// The codes that report success.
pub open spec fn is_success_code(code: u16) -> bool {
    200 <= code <= 299
}

/// The words that follow the code where `reqwest::StatusCode` is displayed: the
/// standard phrase of the code, or a placeholder where there is none.
pub uninterp spec fn status_phrase(code: u16) -> Seq<char>;

/// How a status code is displayed.
pub open spec fn status_text(code: u16) -> Seq<char> {
    decimal(code as int) + seq![' '] + status_phrase(code)
}

/// Calls `reqwest::StatusCode::from_u16` and displays what it returns.
///
/// Trusted of it: a code from 100 to 999 is a status code and no other number is
/// one; it is displayed as its decimal digits, a space and its phrase.
#[verifier::external_body]
fn display_status(code: u16) -> (r: Option<String>)
    ensures
        r is Some <==> is_status(code),
        r matches Some(text) ==> text@ == decimal(code as int) + seq![' '] + status_phrase(
            code,
        ),
{
    reqwest::StatusCode::from_u16(code).ok().map(|status| status.to_string())
}

/// Calls `reqwest::StatusCode::is_success`.
///
/// Trusted of it: the codes from 200 to 299 are the successful ones; a number
/// that is no status code is not.
#[verifier::external_body]
fn status_is_success(code: u16) -> (r: bool)
    ensures
        r == is_success_code(code),
{
    reqwest::StatusCode::from_u16(code).is_ok_and(|status| status.is_success())
}

impl HttpStatus {
    #[verifier::type_invariant]
    spec fn valid(self) -> bool {
        is_status(self.code)
    }

    /// The status code.
    pub closed spec fn code(self) -> u16 {
        self.code
    }

    /// The status with code `code`, where there is one.
    pub fn new(code: u16) -> (r: Option<HttpStatus>)
        ensures
            r is Some <==> is_status(code),
            r matches Some(status) ==> status.code() == code,
    {
        match display_status(code) {
            Some(_) => Some(HttpStatus { code }),
            None => None,
        }
    }

    /// Whether the status reports success.
    pub fn is_success(&self) -> (r: bool)
        ensures
            r == is_success_code(self.code()),
    {
        status_is_success(self.code)
    }

    /// The status for a message: its code and its standard phrase.
    pub fn text(&self) -> (r: String)
        ensures
            r@ == status_text(self.code()),
    {
        proof {
            use_type_invariant(self);
        }
        match display_status(self.code) {
            Some(text) => text,
            None => String::new(),
        }
    }
}

/// What came of a request: the status of the answer, or why there is none.
pub type Exchange = Result<HttpStatus, String>;

/// The status codes are the numbers of three digits, those that begin with a two
/// report success, and a status reads as its digits, a space and its phrase.
pub proof fn law_status_codes(code: u16)
    ensures
        is_status(code) <==> 100 <= code < 1000,
        is_success_code(code) <==> code / 100 == 2,
        status_text(code) == decimal(code as int) + seq![' '] + status_phrase(code),
{
}

} // verus!
