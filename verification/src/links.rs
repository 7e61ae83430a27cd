//! Addresses as text, computed by the `url` crate.

use vstd::prelude::*;

verus! {

/// What the `url` crate reports of a text that is no address.
#[verifier::external_type_specification]
#[verifier::external_body]
pub struct ExParseError(url::ParseError);

/// The normal form of an address, as `url::Url::parse` gives it.
pub uninterp spec fn url_parsed(text: Seq<char>) -> Result<Seq<char>, url::ParseError>;

/// An address that is relative to another, as `url::Url::join` gives it.
pub uninterp spec fn url_joined(base: Seq<char>, reference: Seq<char>) -> Result<
    Seq<char>,
    url::ParseError,
>;

/// An address with one more query parameter, as `url::Url::parse_with_params` gives it.
pub uninterp spec fn url_with_param(
    base: Seq<char>,
    name: Seq<char>,
    value: Seq<char>,
) -> Result<Seq<char>, url::ParseError>;

/// The message that a `url::ParseError` prints.
pub uninterp spec fn url_error_text(error: url::ParseError) -> Seq<char>;

/// Whether a result is the one that is named.
pub open spec fn is_link(
    r: Result<String, url::ParseError>,
    named: Result<Seq<char>, url::ParseError>,
) -> bool {
    match r {
        Ok(link) => named == Ok::<Seq<char>, url::ParseError>(link@),
        Err(error) => named == Err::<Seq<char>, url::ParseError>(error),
    }
}

/// `url::Url::parse`, with the address as text: what it returns is what [`url_parsed`] names.
#[verifier::external_body]
pub(crate) fn parse_link(text: &str) -> (r: Result<String, url::ParseError>)
    ensures
        is_link(r, url_parsed(text@)),
{
    url::Url::parse(text).map(String::from)
}

/// `url::Url::join`, with both addresses as text: what it returns is what [`url_joined`] names.
/// Where the base is no address, the result is the error of `url::Url::parse` on it.
#[verifier::external_body]
pub(crate) fn join_link(base: &str, reference: &str) -> (r: Result<String, url::ParseError>)
    ensures
        is_link(r, url_joined(base@, reference@)),
{
    url::Url::parse(base)?.join(reference).map(String::from)
}

/// `url::Url::parse_with_params` with one parameter, with the address as text: what it returns
/// is what [`url_with_param`] names.
#[verifier::external_body]
pub(crate) fn link_with_param(base: &str, name: &str, value: &str) -> (r: Result<
    String,
    url::ParseError,
>)
    ensures
        is_link(r, url_with_param(base@, name@, value@)),
{
    url::Url::parse_with_params(base, [(name, value)]).map(String::from)
}

/// `url::ParseError::EmptyHost`, the error that prints "empty host".
#[verifier::external_body]
pub(crate) fn empty_host() -> (error: url::ParseError)
    ensures
        url_error_text(error) == "empty host"@,
{
    url::ParseError::EmptyHost
}

/// `ToString::to_string` of a `url::ParseError`: the message that [`url_error_text`] names.
#[verifier::external_body]
pub(crate) fn url_error_message(error: &url::ParseError) -> (text: String)
    ensures
        text@ == url_error_text(*error),
{
    error.to_string()
}

} // verus!
