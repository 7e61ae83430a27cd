//! The cookies that make up a login, kept by `cookie_store`.

use vstd::prelude::*;

use crate::form;
use crate::links;
use crate::text;

verus! {

/// A store of cookies.
#[verifier::external_type_specification]
#[verifier::external_body]
pub struct ExCookieStore(cookie_store::CookieStore);

/// Where a store files a cookie.
pub struct CookieKey {
    pub domain: Seq<char>,
    pub path: Seq<char>,
    pub name: Seq<char>,
}

/// A moment to the second, as a calendar and a clock tell it.
pub struct Moment {
    pub year: int,
    pub month: int,
    pub day: int,
    pub hour: int,
    pub minute: int,
    pub second: int,
}

/// A cookie in a store.
pub struct StoredCookie {
    /// The value of the cookie.
    pub value: Seq<char>,
    /// Whether it is for its host alone, and not for the hosts below.
    pub host_only: bool,
    /// When it expires; none where it ends with the session.
    pub expiry: Option<Moment>,
}

/// The cookies in a store, expired ones among them.
pub uninterp spec fn cookies_in(store: cookie_store::CookieStore) -> Map<CookieKey, StoredCookie>;

/// Whether each `Expires` attribute in a store is a time that can be told in UTC. Only a cookie
/// that a program built with a time at the very end of the calendar has one that cannot.
pub uninterp spec fn writable(store: cookie_store::CookieStore) -> bool;

/// The cookies that `cookie_store::serde::json::load_all` reads from bytes; none where it fails.
pub uninterp spec fn cookies_read(bytes: Seq<u8>) -> Option<Map<CookieKey, StoredCookie>>;

/// The host under which `cookie_store` files a cookie that came from an address without saying for
/// which domain it is; none where it refuses such a cookie.
pub uninterp spec fn url_host(link: Seq<char>) -> Option<Seq<char>>;

/// The path of an address, as `url::Url::path` tells it.
pub uninterp spec fn url_path(link: Seq<char>) -> Seq<char>;

/// The cookies of a store that holds none.
pub open spec fn no_cookies() -> Map<CookieKey, StoredCookie> {
    Map::empty()
}

/// `cookie_store::CookieStore::new` without a list of public suffixes: a store without cookies.
#[verifier::external_body]
fn new_store() -> (store: cookie_store::CookieStore)
    ensures
        cookies_in(store) == no_cookies(),
        writable(store),
{
    cookie_store::CookieStore::new(None)
}

/// `cookie_store::CookieStore::insert_raw` of a cookie with a path and no other attribute, as if
/// it came from `link`.
///
/// Such a cookie is for its host alone and ends with the session. It is filed under the host that
/// [`url_host`] names, in place of an earlier one of that name and path, or refused where there is
/// none.
#[verifier::external_body]
fn put_cookie(
    store: &mut cookie_store::CookieStore,
    name: &str,
    value: &str,
    path: &str,
    link: &str,
) -> (r: Result<(), cookie_store::CookieError>)
    requires
        "/"@.is_prefix_of(path@),
        links::url_parsed(link@) is Ok,
        "https://"@.is_prefix_of(link@),
    ensures
        match url_host(link@) {
            Some(domain) => r is Ok && cookies_in(*final(store)) == cookies_in(*old(store)).insert(
                CookieKey { domain, path: path@, name: name@ },
                StoredCookie { value: value@, host_only: true, expiry: None },
            ),
            None => r is Err && cookies_in(*final(store)) == cookies_in(*old(store)),
        },
        writable(*old(store)) ==> writable(*final(store)),
{
    let cookie = cookie_store::RawCookie::build((name, value)).path(path).build();
    store.insert_raw(&cookie, &url::Url::parse(link).unwrap()).map(|_| ())
}

/// A store with the cookies that a login begins with.
pub open spec fn first_cookies(domain: Seq<char>, device_id: Seq<char>) -> Map<
    CookieKey,
    StoredCookie,
> {
    map![
        CookieKey { domain, path: "/"@, name: "sdkVersion"@ } => StoredCookie {
            value: "3.9"@,
            host_only: true,
            expiry: None,
        },
        CookieKey { domain, path: "/"@, name: "deviceId"@ } => StoredCookie {
            value: device_id,
            host_only: true,
            expiry: None,
        },
    ]
}

/// Sets up the cookies that a login at `link` begins with.
pub(crate) fn login_cookies(device_id: &str, link: &str) -> (r: Result<
    cookie_store::CookieStore,
    cookie_store::CookieError,
>)
    requires
        links::url_parsed(link@) is Ok,
        "https://"@.is_prefix_of(link@),
    ensures
        match (r, url_host(link@)) {
            (Ok(store), Some(domain)) => cookies_in(store) == first_cookies(domain, device_id@)
                && writable(store),
            (Err(_), None) => true,
            _ => false,
        },
{
    proof {
        reveal_strlit("/");
    }
    let mut store: cookie_store::CookieStore = new_store();
    match put_cookie(&mut store, "sdkVersion", "3.9", "/", link) {
        Ok(()) => {},
        Err(error) => {
            return Err(error);
        },
    }
    match put_cookie(&mut store, "deviceId", device_id, "/", link) {
        Ok(()) => {},
        Err(error) => {
            return Err(error);
        },
    }
    Ok(store)
}

/// Whether a text neither begins nor ends with whitespace.
pub open spec fn is_trimmed(text: Seq<char>) -> bool {
    text.len() > 0 ==> !text::is_white(text.first()) && !text::is_white(text.last())
}

/// Whether a cookie can be told from the text of a `Set-Cookie` header, and its expiry from a
/// date. Cookies that came in such a header can.
pub open spec fn is_plain(key: CookieKey, cookie: StoredCookie) -> bool {
    &&& key.name.len() > 0
    &&& is_trimmed(key.name)
    &&& !key.name.contains(';')
    &&& !key.name.contains('=')
    &&& is_trimmed(cookie.value)
    &&& !cookie.value.contains(';')
    &&& cookie.expiry matches Some(moment) ==> 0 <= moment.year <= 9999
}

/// Whether all cookies are plain.
pub open spec fn all_plain(cookies: Map<CookieKey, StoredCookie>) -> bool {
    forall|key: CookieKey| #[trigger]
        cookies.contains_key(key) ==> is_plain(key, cookies[key])
}

/// `cookie_store::serde::json::save_incl_expired_and_nonpersistent`, written to memory; an error
/// is told by its message.
///
/// It writes every cookie, in an order that is left to chance, as the text of its `Set-Cookie`
/// header with its path, domain and expiry; `load_all` reads each plain cookie back from that.
/// Writing to memory does not fail. Of the bytes themselves nothing else is said.
#[verifier::external_body]
pub(crate) fn write_cookies(store: &cookie_store::CookieStore) -> (r: Result<Vec<u8>, String>)
    requires
        writable(*store),
    ensures
        match r {
            Ok(bytes) => all_plain(cookies_in(*store)) ==> cookies_read(bytes@) == Some(
                cookies_in(*store),
            ),
            Err(_) => false,
        },
{
    let mut bytes = Vec::new();
    let saved = cookie_store::serde::json::save_incl_expired_and_nonpersistent(store, &mut bytes);
    saved.map(|()| bytes).map_err(|e| e.to_string())
}

/// `cookie_store::serde::json::load_all`, read from memory; an error is told by its message,
/// of which nothing is said.
///
/// The name and the value of each cookie are read from the text of a `Set-Cookie` header, and its
/// expiry from a date with a year of four digits, so that all of them are plain.
#[verifier::external_body]
pub(crate) fn read_cookies(bytes: &[u8]) -> (r: Result<cookie_store::CookieStore, String>)
    ensures
        match r {
            Ok(store) => cookies_read(bytes@) == Some(cookies_in(store)) && writable(store)
                && all_plain(cookies_in(store)),
            Err(_) => cookies_read(bytes@) is None,
        },
{
    cookie_store::serde::json::load_all(bytes).map_err(|e| e.to_string())
}

/// Whether a text is the name of a host in lower-case ASCII letters, digits and dots.
pub open spec fn is_host_name(host: Seq<char>) -> bool {
    &&& host.len() > 0
    &&& host[0] != '.'
    &&& forall|i: int|
        0 <= i < host.len() ==> ('a' <= #[trigger] host[i] && host[i] <= 'z') || ('0' <= host[i]
            && host[i] <= '9') || host[i] == '.'
}

/// Whether a domain is a host, or one that the host lies below.
pub open spec fn goes_to(domain: Seq<char>, host: Seq<char>) -> bool {
    domain == host || {
        let at = host.len() - domain.len();
        &&& at > 0
        &&& host.skip(at) == domain
        &&& host[at - 1] == '.'
    }
}

/// Whether a path is that of a request, or one that the path of the request lies below.
pub open spec fn covers(path: Seq<char>, request: Seq<char>) -> bool {
    path == request || {
        &&& path.is_prefix_of(request)
        &&& path.len() < request.len()
        &&& (path.len() > 0 && path.last() == '/') || request[path.len() as int] == '/'
    }
}

/// Whether a cookie may go with requests to an address of a path: its path covers that path, and
/// it is for the host of the address or, unless it is for its host alone, for a domain that this
/// host lies below.
pub open spec fn may_fit(
    key: CookieKey,
    cookie: StoredCookie,
    link: Seq<char>,
    path: Seq<char>,
) -> bool {
    &&& covers(key.path, path)
    &&& url_host(link) matches Some(host) ==> is_host_name(host) ==> if cookie.host_only {
        key.domain == host
    } else {
        goes_to(key.domain, host)
    }
}

/// Whether a cookie is sure to go with requests to an address: it may, the address is secure and
/// tells a name and not a number, and the cookie ends with the session.
pub open spec fn surely_fits(
    key: CookieKey,
    cookie: StoredCookie,
    link: Seq<char>,
    path: Seq<char>,
) -> bool {
    &&& "https://"@.is_prefix_of(link)
    &&& url_host(link) matches Some(host) && is_host_name(host) && 'a' <= host.last()
        && host.last() <= 'z' && if cookie.host_only {
        key.domain == host
    } else {
        goes_to(key.domain, host)
    }
    &&& is_host_name(key.domain)
    &&& key.path == "/"@ || "/"@.is_prefix_of(key.path) && covers(key.path, path)
    &&& cookie.expiry is None
}

/// Whether there is a cookie of a name and a value that may go with requests to an address.
pub open spec fn holds_fitting(
    cookies: Map<CookieKey, StoredCookie>,
    link: Seq<char>,
    path: Seq<char>,
    name: Seq<char>,
    value: Seq<char>,
) -> bool {
    exists|key: CookieKey| #[trigger]
        cookies.contains_key(key) && key.name == name && cookies[key].value == value && may_fit(
            key,
            cookies[key],
            link,
            path,
        )
}

/// Whether a list of names and values may be what a store finds for an address: all of it is held
/// by the store and may go with requests to the address, and all that is sure to is listed.
pub open spec fn may_be_found(
    listed: Seq<(Seq<char>, Seq<char>)>,
    cookies: Map<CookieKey, StoredCookie>,
    link: Seq<char>,
    path: Seq<char>,
) -> bool {
    &&& forall|i: int|
        0 <= i < listed.len() ==> holds_fitting(
            cookies,
            link,
            path,
            (#[trigger] listed[i]).0,
            listed[i].1,
        )
    &&& forall|key: CookieKey| #[trigger]
        cookies.contains_key(key) && surely_fits(key, cookies[key], link, path) ==> listed.contains(
            (key.name, cookies[key].value),
        )
}

/// `cookie_store::CookieStore::matches`, with the name and the value of each cookie.
///
/// The store hands out cookies that it holds for the host and the path of the address, among them
/// each such one that ends with the session, if the address is secure. Which of the others have
/// not expired yet is for the clock to say, and the order of all of them is left to chance. For a
/// host that is not one of those that [`is_host_name`] describes, such as an IPv6 address, nothing
/// is said of the domain.
#[verifier::external_body]
fn find_cookies(store: &cookie_store::CookieStore, link: &str) -> (found: Vec<(String, String)>)
    requires
        links::url_parsed(link@) is Ok,
    ensures
        may_be_found(
            form::field_texts(found@),
            cookies_in(*store),
            link@,
            url_path(link@),
        ),
{
    let found = store.matches(&url::Url::parse(link).unwrap());
    found.into_iter().map(|c| (c.name().to_string(), c.value().to_string())).collect()
}

/// The names and values of the cookies for an address.
pub(crate) fn matching_cookies(store: &cookie_store::CookieStore, link: &str) -> (r: Result<
    Vec<(String, String)>,
    url::ParseError,
>)
    ensures
        match r {
            Ok(found) => links::url_parsed(link@) is Ok && may_be_found(
                form::field_texts(found@),
                cookies_in(*store),
                link@,
                url_path(link@),
            ),
            Err(error) => links::url_parsed(link@) == Err::<Seq<char>, url::ParseError>(error),
        },
{
    match links::parse_link(link) {
        Ok(_) => Ok(find_cookies(store, link)),
        Err(error) => Err(error),
    }
}

/// The cookies that a login begins with are plain, so that saving and loading keeps them.
pub proof fn law_first_cookies_are_plain(domain: Seq<char>, device_id: Seq<char>)
    requires
        crate::util::is_device_id(device_id),
    ensures
        all_plain(first_cookies(domain, device_id)),
{
    reveal_strlit("sdkVersion");
    reveal_strlit("deviceId");
    reveal_strlit("3.9");
    assert forall|key: CookieKey| #[trigger]
        first_cookies(domain, device_id).contains_key(key) implies is_plain(
        key,
        first_cookies(domain, device_id)[key],
    ) by {
        assert(key.name == "sdkVersion"@ || key.name == "deviceId"@);
    }
}

/// A domain is one that a host lies below exactly where the host is some text, a dot and the
/// domain.
pub proof fn law_hosts_lie_below_domains(domain: Seq<char>, host: Seq<char>)
    ensures
        goes_to(domain, host) <==> domain == host || exists|above: Seq<char>| #[trigger]
            (above + seq!['.'] + domain) == host,
{
    let at = host.len() - domain.len();
    if goes_to(domain, host) && domain != host {
        let above = host.take(at - 1);
        assert(above + seq!['.'] + domain =~= host) by {
            assert(host.skip(at) == domain);
        }
    }
    if exists|above: Seq<char>| #[trigger] (above + seq!['.'] + domain) == host {
        let above = choose|above: Seq<char>| #[trigger] (above + seq!['.'] + domain) == host;
        assert(host.skip(at) =~= domain);
        assert(host[at - 1] == '.');
    }
}

/// A path covers another exactly where it is the same, or begins it and ends there at a slash.
pub proof fn law_paths_cover_paths_below(path: Seq<char>, request: Seq<char>)
    ensures
        covers(path, request) <==> path == request || exists|below: Seq<char>|
            below.len() > 0 && #[trigger] (path + below) == request && ((path.len() > 0
                && path.last() == '/') || below[0] == '/'),
{
    if covers(path, request) && path != request {
        let below = request.skip(path.len() as int);
        assert(path + below =~= request);
    }
    if exists|below: Seq<char>|
        below.len() > 0 && #[trigger] (path + below) == request && ((path.len() > 0 && path.last()
            == '/') || below[0] == '/') {
        let below = choose|below: Seq<char>|
            below.len() > 0 && #[trigger] (path + below) == request && ((path.len() > 0
                && path.last() == '/') || below[0] == '/');
        assert(path.is_prefix_of(request));
        assert(request[path.len() as int] == below[0]);
    }
}

/// A login begins with just two cookies, for its host alone, for all paths and until the session
/// ends: one tells the version, the other the device.
pub proof fn law_first_cookies_tell_version_and_device(
    domain: Seq<char>,
    device_id: Seq<char>,
    key: CookieKey,
)
    ensures
        ({
            let cookies = first_cookies(domain, device_id);
            let expected = key.domain == domain && key.path == "/"@ && (key.name == "sdkVersion"@
                || key.name == "deviceId"@);
            &&& cookies.contains_key(key) <==> expected
            &&& expected ==> cookies[key].host_only && cookies[key].expiry is None
            &&& expected && key.name == "sdkVersion"@ ==> cookies[key].value == "3.9"@
            &&& expected && key.name == "deviceId"@ ==> cookies[key].value == device_id
        }),
{
    reveal_strlit("sdkVersion");
    reveal_strlit("deviceId");
    assert("sdkVersion"@.len() == 10);
    assert("deviceId"@.len() == 8);
}

/// A cookie is plain where its name is neither empty nor holds `;` or `=`, its value does not hold
/// `;`, neither begins nor ends with whitespace, and the year of its expiry has at most four
/// digits.
pub proof fn law_plain_cookies(key: CookieKey, cookie: StoredCookie)
    requires
        key.name.len() > 0,
        !text::is_white(key.name[0]),
        !text::is_white(key.name[key.name.len() - 1]),
        !key.name.contains(';'),
        !key.name.contains('='),
        cookie.value.len() > 0 ==> !text::is_white(cookie.value[0]) && !text::is_white(
            cookie.value[cookie.value.len() - 1],
        ),
        !cookie.value.contains(';'),
        cookie.expiry is None || (0 <= cookie.expiry->0.year && cookie.expiry->0.year <= 9999),
    ensures
        is_plain(key, cookie),
        all_plain(Map::empty().insert(key, cookie)),
{
}

} // verus!
