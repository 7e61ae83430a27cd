//! Requests that are to be sent.

use vstd::prelude::*;

use crate::error::Error;
use crate::form::Form;

verus! {

/// A request.
#[derive(Debug)]
pub enum Request {
    /// Fetch an address.
    Get { url: String },
    /// Fetch an address with a `Cookie` header.
    GetWithCookie { url: String, cookie: String },
    /// Send a form to an address.
    Post { url: String, form: Form },
}

/// The content of a [`Request`].
pub enum RequestView {
    Get { url: Seq<char> },
    GetWithCookie { url: Seq<char>, cookie: Seq<char> },
    Post { url: Seq<char>, form: Map<Seq<char>, Seq<char>> },
}

impl View for Request {
    type V = RequestView;

    open spec fn view(&self) -> RequestView {
        match *self {
            Request::Get { url } => RequestView::Get { url: url@ },
            Request::GetWithCookie { url, cookie } => RequestView::GetWithCookie {
                url: url@,
                cookie: cookie@,
            },
            Request::Post { url, form } => RequestView::Post { url: url@, form: form@ },
        }
    }
}

/// Whether a result fetches an address, or is the error in it.
pub open spec fn gets(
    r: Result<Request, Error>,
    link: Result<Seq<char>, url::ParseError>,
) -> bool {
    match (r, link) {
        (Ok(request), Ok(url)) => request@ == (RequestView::Get { url }),
        (Err(Error::Url(error)), Err(expected)) => error == expected,
        _ => false,
    }
}

/// Whether a result sends a form to an address, or is the error in the address.
pub open spec fn posts(
    r: Result<Request, Error>,
    link: Result<Seq<char>, url::ParseError>,
    form: Map<Seq<char>, Seq<char>>,
) -> bool {
    match (r, link) {
        (Ok(request), Ok(url)) => request@ == (RequestView::Post { url, form }),
        (Err(Error::Url(error)), Err(expected)) => error == expected,
        _ => false,
    }
}

/// A result that fetches an address is a plain request for just that address; where the address is
/// an error, it is that error.
pub proof fn law_gets_fetch_the_address(
    r: Result<Request, Error>,
    link: Result<Seq<char>, url::ParseError>,
)
    requires
        gets(r, link),
    ensures
        match r {
            Ok(Request::Get { url }) => link == Ok::<Seq<char>, url::ParseError>(url@),
            Err(Error::Url(error)) => link == Err::<Seq<char>, url::ParseError>(error),
            _ => false,
        },
{
}

/// A result that sends a form sends just that form to just that address; where the address is an
/// error, it is that error.
pub proof fn law_posts_send_the_form(
    r: Result<Request, Error>,
    link: Result<Seq<char>, url::ParseError>,
    fields: Map<Seq<char>, Seq<char>>,
)
    requires
        posts(r, link, fields),
    ensures
        match r {
            Ok(Request::Post { url, form }) => link == Ok::<Seq<char>, url::ParseError>(url@)
                && form@ == fields,
            Err(Error::Url(error)) => link == Err::<Seq<char>, url::ParseError>(error),
            _ => false,
        },
{
}

/// The content of a request is all that it holds: two requests of one content are of one kind and
/// hold the same texts and fields.
pub proof fn law_content_is_all(a: Request, b: Request)
    requires
        a@ == b@,
    ensures
        match (a, b) {
            (Request::Get { url }, Request::Get { url: other }) => url@ == other@,
            (
                Request::GetWithCookie { url, cookie },
                Request::GetWithCookie { url: other, cookie: other_cookie },
            ) => url@ == other@ && cookie@ == other_cookie@,
            (Request::Post { url, form }, Request::Post { url: other, form: other_form }) => url@
                == other@ && form@ == other_form@,
            _ => false,
        },
{
}

} // verus!
