//! What can go wrong.

use vstd::prelude::*;

use crate::links;
use crate::response::XiaoaiResponse;
use crate::text;

verus! {

/// What `cookie_store` reports of a cookie that it does not take.
#[verifier::external_type_specification]
#[verifier::external_body]
pub struct ExCookieError(cookie_store::CookieError);

/// The message that a `cookie_store::CookieError` prints.
pub uninterp spec fn cookie_error_text(error: cookie_store::CookieError) -> Seq<char>;

/// `ToString::to_string` of a `cookie_store::CookieError`: the message that
/// [`cookie_error_text`] names.
#[verifier::external_body]
fn cookie_error_message(error: &cookie_store::CookieError) -> (text: String)
    ensures
        text@ == cookie_error_text(*error),
{
    error.to_string()
}

/// Why a request failed.
#[derive(Debug)]
pub enum Error {
    /// The service answered with an error code.
    Api(XiaoaiResponse),
    /// The request did not get through; the text is what the transport reported.
    Reqwest(String),
    /// JSON could not be read; the text is what `serde_json` reported.
    Json(String),
    /// A cookie was not taken.
    Cookie(cookie_store::CookieError),
    /// A text is no address.
    Url(url::ParseError),
}

impl Error {
    /// The message of this error.
    pub open spec fn text(self) -> Seq<char> {
        match self {
            Error::Api(response) => "API 返回 "@ + text::decimal(response.code as int) + ": "@
                + response.message@,
            Error::Reqwest(report) => report@,
            Error::Json(report) => report@,
            Error::Cookie(error) => cookie_error_text(error),
            Error::Url(error) => links::url_error_text(error),
        }
    }

    /// The message of this error.
    pub fn message(&self) -> (r: String)
        ensures
            r@ == self.text(),
            match *self {
                Error::Api(response) => r@ == "API 返回 "@ + text::decimal(response.code as int)
                    + ": "@ + response.message@,
                Error::Reqwest(report) => r@ == report@,
                Error::Json(report) => r@ == report@,
                Error::Cookie(error) => r@ == cookie_error_text(error),
                Error::Url(error) => r@ == links::url_error_text(error),
            },
    {
        match self {
            Error::Api(response) => {
                let mut r: String = "API 返回 ".to_owned();
                r.append(text::signed(response.code).as_str());
                r.append(": ");
                r.append(response.message.as_str());
                r
            },
            Error::Reqwest(report) => report.clone(),
            Error::Json(report) => report.clone(),
            Error::Cookie(error) => cookie_error_message(error),
            Error::Url(error) => links::url_error_message(error),
        }
    }
}

/// The message of an answer with an error code tells the code and the message of the answer; any
/// other error is told as it was reported.
pub proof fn law_messages_tell_the_error(error: Error)
    ensures
        match error {
            Error::Api(response) => error.text() == "API 返回 "@ + text::decimal(
                response.code as int,
            ) + ": "@ + response.message@,
            Error::Reqwest(report) => error.text() == report@,
            Error::Json(report) => error.text() == report@,
            Error::Cookie(reported) => error.text() == cookie_error_text(reported),
            Error::Url(reported) => error.text() == links::url_error_text(reported),
        },
{
}

} // verus!
