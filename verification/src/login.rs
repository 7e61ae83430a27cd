//! Logging in.
//!
//! A login takes three steps, one after the other: [`Login::raw_login`], [`Login::raw_auth`] and
//! [`Login::get_token`]. Each of them makes the request to send; what comes back is read by
//! [`read_body`] and [`read_token_body`].

use vstd::prelude::*;

use crate::cookies;
use crate::digest;
use crate::error::Error;
use crate::form::Form;
use crate::json;
use crate::json::{Json, JsonTree};
use crate::links;
use crate::request;
use crate::request::Request;
use crate::text;
use crate::util;

verus! {

/// Where to log in.
pub const LOGIN_SERVER: &'static str = "https://account.xiaomi.com/pass/";

/// The user agent to log in with.
pub const LOGIN_UA: &'static str =
    "APP/com.xiaomi.mihome APPV/6.0.103 iosPassportSDK/3.9.0 iOS/14.4 miHSTS";

/// What the first step tells, as far as the second needs it.
#[derive(Clone, Debug)]
pub struct LoginResponse {
    pub qs: String,
    pub sid: String,
    pub _sign: String,
    pub callback: String,
}

/// What the second step tells, as far as the third needs it.
#[derive(Clone, Debug)]
pub struct AuthResponse {
    pub location: String,
    pub nonce: Option<Json>,
    pub ssecurity: Option<String>,
    pub notification_url: Option<String>,
}

/// A login that is under way.
#[derive(Debug)]
pub struct Login {
    server: String,
    username: String,
    password_hash: String,
    cookie_store: cookie_store::CookieStore,
}

/// The state of a [`Login`].
pub struct LoginView {
    /// Where to log in.
    pub server: Seq<char>,
    /// Who logs in.
    pub username: Seq<char>,
    /// The digest of the password.
    pub password_hash: Seq<char>,
    /// The cookies to begin with.
    pub cookies: Map<cookies::CookieKey, cookies::StoredCookie>,
}

impl View for Login {
    type V = LoginView;

    closed spec fn view(&self) -> LoginView {
        LoginView {
            server: self.server@,
            username: self.username@,
            password_hash: self.password_hash@,
            cookies: cookies::cookies_in(self.cookie_store),
        }
    }
}

/// Bytes in capital hexadecimal digits.
pub open spec fn capital_hex(bytes: Seq<u8>) -> Seq<char> {
    text::upper(digest::hex(bytes))
}

/// The digest by which a password is sent.
pub open spec fn password_digest(password: Seq<u8>) -> Seq<char> {
    capital_hex(digest::md5_of(password))
}

/// Writes bytes in capital hexadecimal digits.
pub fn to_capital_hex(bytes: &[u8]) -> (r: String)
    requires
        bytes@.len() <= usize::MAX / 2,
    ensures
        r@ == capital_hex(bytes@),
        r@ == text::upper(digest::hex(bytes@)),
{
    text::to_upper(digest::hex_text(bytes).as_str())
}

/// The digest by which a password is sent: its MD5 digest in capital hexadecimal digits.
pub fn hash_password(password: &[u8]) -> (r: String)
    ensures
        r@ == password_digest(password@),
        r@ == text::upper(digest::hex(digest::md5_of(password@))),
        r@.len() == 32,
{
    to_capital_hex(digest::md5_digest(password).as_slice())
}

/// The text that a nonce is signed as.
pub open spec fn nonce_text(nonce: JsonTree) -> Seq<char> {
    match nonce {
        JsonTree::Text(nonce) => nonce,
        other => json::json_text(other),
    }
}

/// The text that is signed.
pub open spec fn signed_text(nonce: Seq<char>, ssecurity: Seq<char>) -> Seq<char> {
    "nonce="@ + nonce + "&"@ + ssecurity
}

/// The signature of a nonce: a SHA-1 digest in Base64.
pub open spec fn signature(nonce: Seq<char>, ssecurity: Seq<char>) -> Seq<char> {
    digest::base64(digest::sha1_of(vstd::utf8::encode_utf8(signed_text(nonce, ssecurity))))
}

/// Signs a nonce.
pub fn sign_nonce(nonce: &str, ssecurity: &str) -> (r: String)
    ensures
        r@ == signature(nonce@, ssecurity@),
        r@ == digest::base64(
            digest::sha1_of(
                vstd::utf8::encode_utf8("nonce="@ + nonce@ + "&"@ + ssecurity@),
            ),
        ),
        r@.len() == 28,
{
    let mut signed: String = "nonce=".to_owned();
    signed.append(nonce);
    signed.append("&");
    signed.append(ssecurity);
    let digest: Vec<u8> = digest::sha1_digest(signed.as_str().as_bytes());
    proof {
        digest::lemma_base64_len(digest@);
    }
    digest::base64_text(digest.as_slice())
}

/// The signature that the third step takes along, if the second told what it takes.
pub open spec fn client_signature(payload: AuthResponse) -> Option<Seq<char>> {
    match (payload.nonce, payload.ssecurity) {
        (Some(nonce), Some(ssecurity)) => Some(signature(nonce_text(nonce@), ssecurity@)),
        _ => None,
    }
}

/// The signature that the third step takes along. Where the second told no nonce or no secret,
/// the error is that of an address without a host.
pub fn client_sign(payload: &AuthResponse) -> (r: Result<String, Error>)
    ensures
        match (r, client_signature(*payload)) {
            (Ok(sign), Some(expected)) => sign@ == expected,
            (Err(Error::Url(error)), None) => links::url_error_text(error) == "empty host"@,
            _ => false,
        },
        match (payload.nonce, payload.ssecurity, r) {
            (Some(nonce), Some(ssecurity), Ok(sign)) => sign@ == digest::base64(
                digest::sha1_of(
                    vstd::utf8::encode_utf8(
                        "nonce="@ + (match nonce@ {
                            JsonTree::Text(nonce) => nonce,
                            nonce => json::json_text(nonce),
                        }) + "&"@ + ssecurity@,
                    ),
                ),
            ),
            (Some(_), Some(_), Err(_)) => false,
            (_, _, r) => r is Err,
        },
{
    match (&payload.nonce, &payload.ssecurity) {
        (Some(nonce), Some(ssecurity)) => {
            let nonce: String = match nonce {
                Json::Text(nonce) => nonce.clone(),
                other => other.to_text(),
            };
            Ok(sign_nonce(nonce.as_str(), ssecurity.as_str()))
        },
        _ => Err(Error::Url(links::empty_host())),
    }
}

/// The address that the third step fetches, before it is brought to its normal form.
///
/// It is the notification address where there is one, taken relative to `server` unless it begins
/// with "http"; else the location with the signature.
pub open spec fn token_link(server: Seq<char>, auth: AuthResponse) -> Result<
    Seq<char>,
    url::ParseError,
> {
    match auth.notification_url {
        Some(link) => if "http"@.is_prefix_of(link@) {
            Ok(link@)
        } else {
            links::url_joined(server, link@)
        },
        None => links::url_with_param(
            auth.location@,
            "clientSign"@,
            client_signature(auth)->0,
        ),
    }
}

/// The fields that the second step sends.
pub open spec fn auth_form(login: LoginView, response: LoginResponse) -> Map<
    Seq<char>,
    Seq<char>,
> {
    map![
        "_json"@ => "true"@,
        "qs"@ => response.qs@,
        "sid"@ => response.sid@,
        "_sign"@ => response._sign@,
        "callback"@ => response.callback@,
        "user"@ => login.username,
        "hash"@ => login.password_hash,
    ]
}

impl Login {
    #[verifier::type_invariant]
    spec fn well_formed(self) -> bool {
        cookies::writable(self.cookie_store)
    }

    /// Prepares a login with a random device ID.
    pub fn new(username: &str, password: &[u8]) -> (r: Result<Login, Error>)
        ensures
            match (
                r,
                links::url_parsed("https://account.xiaomi.com/pass/"@),
                cookies::url_host("https://account.xiaomi.com/pass/"@),
            ) {
                (Ok(login), Ok(server), Some(domain)) => {
                    &&& login@.server == server
                    &&& login@.username == username@
                    &&& login@.password_hash == text::upper(
                        digest::hex(digest::md5_of(password@)),
                    )
                    &&& exists|device_id: Seq<char>| #[trigger]
                        util::is_device_id(device_id) && login@.cookies == cookies::first_cookies(
                            domain,
                            device_id,
                        )
                },
                (Err(Error::Url(error)), Err(expected), _) => error == expected,
                (Err(Error::Cookie(_)), Ok(_), None) => true,
                _ => false,
            },
    {
        let device_id: String = util::random_device_id();
        Login::with_device_id(username, password, device_id.as_str())
    }

    /// Prepares a login with a given device ID.
    pub fn with_device_id(username: &str, password: &[u8], device_id: &str) -> (r: Result<
        Login,
        Error,
    >)
        ensures
            match (
                r,
                links::url_parsed("https://account.xiaomi.com/pass/"@),
                cookies::url_host("https://account.xiaomi.com/pass/"@),
            ) {
                (Ok(login), Ok(server), Some(domain)) => login@ == (LoginView {
                    server,
                    username: username@,
                    password_hash: text::upper(digest::hex(digest::md5_of(password@))),
                    cookies: cookies::first_cookies(domain, device_id@),
                }),
                (Err(Error::Url(error)), Err(expected), _) => error == expected,
                (Err(Error::Cookie(_)), Ok(_), None) => true,
                _ => false,
            },
    {
        let server: String = match links::parse_link(LOGIN_SERVER) {
            Ok(server) => server,
            Err(error) => {
                return Err(Error::Url(error));
            },
        };
        proof {
            reveal_strlit("https://");
            reveal_strlit("https://account.xiaomi.com/pass/");
            assert("https://"@.is_prefix_of(LOGIN_SERVER@));
        }
        match cookies::login_cookies(device_id, LOGIN_SERVER) {
            Ok(cookie_store) => Ok(
                Login {
                    server,
                    username: username.to_owned(),
                    password_hash: hash_password(password),
                    cookie_store,
                },
            ),
            Err(error) => Err(Error::Cookie(error)),
        }
    }

    /// The first step: asks for what the second needs.
    pub fn raw_login(&self) -> (r: Result<Request, Error>)
        ensures
            request::gets(
                r,
                links::url_joined(self@.server, "serviceLogin?sid=micoapi&_json=true"@),
            ),
            match r {
                Ok(Request::Get { url }) => links::url_joined(
                    self@.server,
                    "serviceLogin?sid=micoapi&_json=true"@,
                ) == Ok::<Seq<char>, url::ParseError>(url@),
                Err(Error::Url(error)) => links::url_joined(
                    self@.server,
                    "serviceLogin?sid=micoapi&_json=true"@,
                ) == Err::<Seq<char>, url::ParseError>(error),
                _ => false,
            },
    {
        match links::join_link(self.server.as_str(), "serviceLogin?sid=micoapi&_json=true") {
            Ok(url) => Ok(Request::Get { url }),
            Err(error) => Err(Error::Url(error)),
        }
    }

    /// The second step: sends the credentials with what the first told.
    pub fn raw_auth(&self, login_response: &LoginResponse) -> (r: Result<Request, Error>)
        ensures
            request::posts(
                r,
                links::url_joined(self@.server, "serviceLoginAuth2"@),
                auth_form(self@, *login_response),
            ),
            match r {
                Ok(Request::Post { url, form }) => {
                    &&& links::url_joined(self@.server, "serviceLoginAuth2"@) == Ok::<
                        Seq<char>,
                        url::ParseError,
                    >(url@)
                    &&& form@ == map![
                        "_json"@ => "true"@,
                        "qs"@ => login_response.qs@,
                        "sid"@ => login_response.sid@,
                        "_sign"@ => login_response._sign@,
                        "callback"@ => login_response.callback@,
                        "user"@ => self@.username,
                        "hash"@ => self@.password_hash,
                    ]
                },
                Err(Error::Url(error)) => links::url_joined(self@.server, "serviceLoginAuth2"@)
                    == Err::<Seq<char>, url::ParseError>(error),
                _ => false,
            },
    {
        let mut form: Form = Form::new();
        form.insert("_json", "true");
        form.insert("qs", login_response.qs.as_str());
        form.insert("sid", login_response.sid.as_str());
        form.insert("_sign", login_response._sign.as_str());
        form.insert("callback", login_response.callback.as_str());
        form.insert("user", self.username.as_str());
        form.insert("hash", self.password_hash.as_str());
        match links::join_link(self.server.as_str(), "serviceLoginAuth2") {
            Ok(url) => Ok(Request::Post { url, form }),
            Err(error) => Err(Error::Url(error)),
        }
    }

    /// The third step: asks for the token with what the second told.
    pub fn get_token(&self, auth_response: &AuthResponse) -> (r: Result<Request, Error>)
        ensures
            if auth_response.notification_url is None && client_signature(*auth_response) is None {
                r matches Err(Error::Url(error)) && links::url_error_text(error) == "empty host"@
            } else {
                request::gets(
                    r,
                    match token_link(self@.server, *auth_response) {
                        Ok(link) => links::url_parsed(link),
                        Err(error) => Err(error),
                    },
                )
            },
    {
        let link: Result<String, url::ParseError> = match &auth_response.notification_url {
            Some(link) => if text::starts_with(link.as_str(), "http") {
                Ok(link.clone())
            } else {
                links::join_link(self.server.as_str(), link.as_str())
            },
            None => match client_sign(auth_response) {
                Ok(sign) => links::link_with_param(
                    auth_response.location.as_str(),
                    "clientSign",
                    sign.as_str(),
                ),
                Err(error) => {
                    return Err(error);
                },
            },
        };
        match link {
            Ok(link) => match links::parse_link(link.as_str()) {
                Ok(url) => Ok(Request::Get { url }),
                Err(error) => Err(Error::Url(error)),
            },
            Err(error) => Err(Error::Url(error)),
        }
    }

    /// The cookies to begin with.
    pub fn cookies(&self) -> (r: &cookie_store::CookieStore)
        ensures
            cookies::cookies_in(*r) == self@.cookies,
            cookies::writable(*r),
    {
        proof {
            use_type_invariant(self);
        }
        &self.cookie_store
    }

    /// Gives up the login and hands out its cookies, which hold its state.
    pub fn into_cookie_store(self) -> (r: cookie_store::CookieStore)
        ensures
            cookies::cookies_in(r) == self@.cookies,
            cookies::writable(r),
    {
        proof {
            use_type_invariant(&self);
        }
        self.cookie_store
    }
}

/// Reads the body that answers the first or the second step: JSON behind 11 bytes.
pub fn read_body(bytes: &[u8]) -> (r: Result<Json, Error>)
    requires
        bytes@.len() >= 11,
    ensures
        match (r, json::json_read_bytes(bytes@.skip(11))) {
            (Ok(body), Ok(expected)) => body@ == expected,
            (Err(Error::Json(report)), Err(expected)) => report@ == expected,
            _ => false,
        },
{
    let body: &[u8] = vstd::slice::slice_subrange(bytes, 11, bytes.len());
    assert(body@ =~= bytes@.skip(11));
    match Json::parse_bytes(body) {
        Ok(body) => Ok(body),
        Err(report) => Err(Error::Json(report)),
    }
}

/// Reads the body that answers the third step; an empty object stands for one that is blank or
/// no JSON.
pub fn read_token_body(body: &str) -> (r: Json)
    ensures
        r@ == (match json::json_read(body@) {
            Ok(tree) if !text::is_blank(body@) => tree,
            _ => JsonTree::Object(Map::empty()),
        }),
{
    if text::blank(body) {
        Json::object()
    } else {
        or_empty(Json::parse(body))
    }
}

/// What was read, or an empty object where nothing could be read.
pub fn or_empty(read: Result<Json, String>) -> (r: Json)
    ensures
        r@ == (match read {
            Ok(json) => json@,
            Err(_) => JsonTree::Object(Map::empty()),
        }),
{
    match read {
        Ok(json) => json,
        Err(_) => Json::object(),
    }
}

/// The whole password counts: its digest is the MD5 of all its bytes, in hexadecimal digits that
/// are raised to capitals.
pub proof fn law_whole_password_counts(password: Seq<u8>)
    ensures
        password_digest(password) == text::upper(digest::hex(digest::md5_of(password))),
        password_digest(password).len() == 2 * digest::md5_of(password).len(),
{
}

/// A hexadecimal text has two digits for each byte, the high one first, in capitals: read back,
/// they give the byte.
pub proof fn law_capital_hex_tells_the_bytes(bytes: Seq<u8>, i: int)
    requires
        0 <= i < bytes.len(),
    ensures
        capital_hex(bytes).len() == 2 * bytes.len(),
        ({
            let high = capital_hex(bytes)[2 * i];
            let low = capital_hex(bytes)[2 * i + 1];
            let high_value = if '0' <= high && high <= '9' { high as int - 48 } else {
                high as int - 55
            };
            let low_value = if '0' <= low && low <= '9' { low as int - 48 } else {
                low as int - 55
            };
            &&& ('0' <= high && high <= '9') || ('A' <= high && high <= 'F')
            &&& ('0' <= low && low <= '9') || ('A' <= low && low <= 'F')
            &&& bytes[i] == 16 * high_value + low_value
        }),
{
    let b = bytes[i] as int;
    assert((2 * i) % 2 == 0 && (2 * i) / 2 == i);
    assert((2 * i + 1) % 2 == 1 && (2 * i + 1) / 2 == i);
    assert(0 <= b / 16 < 16 && 0 <= b % 16 < 16);
    assert(digest::hex(bytes)[2 * i] == digest::hex_digit(b / 16));
    assert(digest::hex(bytes)[2 * i + 1] == digest::hex_digit(b % 16));
    text::law_upper_changes_letters_alone(digest::hex(bytes), 2 * i);
    text::law_upper_changes_letters_alone(digest::hex(bytes), 2 * i + 1);
}

/// What is signed is the text "nonce=", the nonce, "&" and the secret, all of each; the signature
/// is the SHA-1 of its bytes in Base64.
pub proof fn law_signature_covers_nonce_and_secret(nonce: Seq<char>, ssecurity: Seq<char>)
    ensures
        signed_text(nonce, ssecurity).len() == 7 + nonce.len() + ssecurity.len(),
        signed_text(nonce, ssecurity).take(6) == "nonce="@,
        signed_text(nonce, ssecurity).subrange(6, 6 + nonce.len() as int) == nonce,
        signed_text(nonce, ssecurity)[6 + nonce.len() as int] == '&',
        signed_text(nonce, ssecurity).skip(7 + nonce.len() as int) == ssecurity,
        signature(nonce, ssecurity) == digest::base64(
            digest::sha1_of(vstd::utf8::encode_utf8(signed_text(nonce, ssecurity))),
        ),
{
    reveal_strlit("nonce=");
    reveal_strlit("&");
    let signed = signed_text(nonce, ssecurity);
    assert(signed.take(6) =~= "nonce="@);
    assert(signed.subrange(6, 6 + nonce.len() as int) =~= nonce);
    assert(signed.skip(7 + nonce.len() as int) =~= ssecurity);
}

/// A signature is made exactly where both a nonce and a secret were told, of just those: of a text
/// itself, and of any other nonce as the JSON text of it.
pub proof fn law_signature_needs_nonce_and_secret(payload: AuthResponse)
    ensures
        match (payload.nonce, payload.ssecurity) {
            (Some(nonce), Some(ssecurity)) => match nonce@ {
                JsonTree::Text(text) => client_signature(payload) == Some(
                    signature(text, ssecurity@),
                ),
                _ => client_signature(payload) == Some(
                    signature(json::json_text(nonce@), ssecurity@),
                ),
            },
            _ => client_signature(payload) is None,
        },
{
}

/// The second step sends who logs in, the digest of the password and all that the first step told,
/// each under its name, and nothing else.
pub proof fn law_auth_form_holds_all(login: LoginView, response: LoginResponse)
    ensures
        ({
            let form = auth_form(login, response);
            &&& form.dom() == set![
                "_json"@,
                "qs"@,
                "sid"@,
                "_sign"@,
                "callback"@,
                "user"@,
                "hash"@,
            ]
            &&& form["_json"@] == "true"@
            &&& form["qs"@] == response.qs@
            &&& form["sid"@] == response.sid@
            &&& form["_sign"@] == response._sign@
            &&& form["callback"@] == response.callback@
            &&& form["user"@] == login.username
            &&& form["hash"@] == login.password_hash
        }),
{
    reveal_strlit("_json");
    reveal_strlit("qs");
    reveal_strlit("sid");
    reveal_strlit("_sign");
    reveal_strlit("callback");
    reveal_strlit("user");
    reveal_strlit("hash");
    let form = auth_form(login, response);
    assert("_json"@[0] == '_' && "_json"@[1] == 'j');
    assert("_sign"@[0] == '_' && "_sign"@[1] == 's');
    assert("qs"@[0] == 'q' && "sid"@[0] == 's' && "callback"@[0] == 'c');
    assert("user"@[0] == 'u' && "hash"@[0] == 'h');
    assert(form.dom() =~= set![
        "_json"@,
        "qs"@,
        "sid"@,
        "_sign"@,
        "callback"@,
        "user"@,
        "hash"@,
    ]);
}

/// The third step fetches the notification address where one was told: as it is where it begins
/// with "http", else as one that is relative to the server. Where none was told, it fetches the
/// location with the signature as the parameter `clientSign`.
pub proof fn law_token_address(server: Seq<char>, auth: AuthResponse)
    ensures
        match auth.notification_url {
            Some(link) => {
                &&& link@.len() >= 4 && link@.take(4) == "http"@ ==> token_link(server, auth)
                    == Ok::<Seq<char>, url::ParseError>(link@)
                &&& !(link@.len() >= 4 && link@.take(4) == "http"@) ==> token_link(server, auth)
                    == links::url_joined(server, link@)
            },
            None => client_signature(auth) matches Some(sign) ==> token_link(server, auth)
                == links::url_with_param(auth.location@, "clientSign"@, sign),
        },
{
    reveal_strlit("http");
    assert("http"@.len() == 4);
    if let Some(link) = auth.notification_url {
        if link@.len() >= 4 && link@.take(4) == "http"@ {
            assert("http"@.is_prefix_of(link@));
        }
        if "http"@.is_prefix_of(link@) {
            assert(link@.take(4) =~= "http"@);
        }
    }
}

/// A login goes to one service and tells one user agent.
pub proof fn law_login_service()
    ensures
        LOGIN_SERVER@ == "https://account.xiaomi.com/pass/"@,
        LOGIN_UA@ == "APP/com.xiaomi.mihome APPV/6.0.103 iosPassportSDK/3.9.0 iOS/14.4 miHSTS"@,
{
}

} // verus!
