//! Asking for the conversations with a speaker.

use vstd::prelude::*;

use crate::cookies;
use crate::cookies::{CookieKey, StoredCookie};
use crate::error::Error;
use crate::form;
use crate::json;
use crate::json::{Json, JsonTree};
use crate::links;
use crate::pairs;
use crate::records::{Conversation, ConversationData};
use crate::request::{Request, RequestView};
use crate::response::{ResponseView, XiaoaiResponse};
use crate::text;
use crate::xiaoai::Xiaoai;

verus! {

/// How many conversations are asked for where nothing else is said.
pub open spec fn limit_of(limit: Option<u32>) -> u32 {
    match limit {
        Some(limit) => limit,
        None => 2,
    }
}

/// The address of the conversations with a speaker of a model.
pub open spec fn conversation_link(hardware: Seq<char>, timestamp: u128, limit: u32) -> Seq<char> {
    "https://userprofile.mina.mi.com/device_profile/v2/conversation?source=dialogu&hardware="@
        + hardware + "&timestamp="@ + text::digits(timestamp as nat) + "&limit="@ + text::digits(
        limit as nat,
    )
}

/// The `Cookie` header that goes with it.
pub open spec fn conversation_cookie(
    device_id: Seq<char>,
    service_token: Seq<char>,
    user_id: Seq<char>,
) -> Seq<char> {
    "deviceId="@ + device_id + "; serviceToken="@ + service_token + "; userId="@ + user_id
}

/// The value of the last cookie of a name, empty where there is none.
pub open spec fn last_value(cookies: Seq<(Seq<char>, Seq<char>)>, name: Seq<char>) -> Seq<char> {
    if pairs::map_of(cookies).contains_key(name) {
        pairs::map_of(cookies)[name]
    } else {
        Seq::empty()
    }
}

/// The request for conversations, given the cookies for the service.
pub open spec fn conversation_request_view(
    device_id: Seq<char>,
    hardware: Seq<char>,
    limit: Option<u32>,
    timestamp: u128,
    cookies: Seq<(Seq<char>, Seq<char>)>,
) -> RequestView {
    RequestView::GetWithCookie {
        url: conversation_link(hardware, timestamp, limit_of(limit)),
        cookie: conversation_cookie(
            device_id,
            last_value(cookies, "serviceToken"@),
            last_value(cookies, "userId"@),
        ),
    }
}

fn find_last(cookies: &Vec<(String, String)>, name: &str) -> (r: String)
    ensures
        r@ == last_value(form::field_texts(cookies@), name@),
{
    let ghost listed = form::field_texts(cookies@);
    let wanted: String = name.to_owned();
    let mut i: usize = cookies.len();
    while i > 0
        invariant
            i <= cookies.len(),
            wanted@ == name@,
            listed == form::field_texts(cookies@),
            forall|j: int| i <= j < listed.len() ==> (#[trigger] listed[j]).0 != name@,
        decreases i,
    {
        i = i - 1;
        assert(listed[i as int] == (cookies[i as int].0@, cookies[i as int].1@));
        if cookies[i].0 == wanted {
            proof {
                pairs::lemma_last(listed, i as int);
            }
            return cookies[i].1.clone();
        }
    }
    proof {
        pairs::lemma_absent(listed, name@);
    }
    String::new()
}

/// Asks for conversations, given the cookies for the service.
pub fn conversation_request(
    device_id: &str,
    hardware: &str,
    limit: Option<u32>,
    timestamp: u128,
    cookies: &Vec<(String, String)>,
) -> (r: Request)
    ensures
        r@ == conversation_request_view(
            device_id@,
            hardware@,
            limit,
            timestamp,
            form::field_texts(cookies@),
        ),
        match r {
            Request::GetWithCookie { url, cookie } => {
                &&& url@
                    == "https://userprofile.mina.mi.com/device_profile/v2/conversation?source=dialogu&hardware="@
                    + hardware@ + "&timestamp="@ + text::digits(timestamp as nat) + "&limit="@
                    + text::digits(
                    (match limit {
                        Some(limit) => limit,
                        None => 2,
                    }) as nat,
                )
                &&& cookie@ == "deviceId="@ + device_id@ + "; serviceToken="@ + last_value(
                    form::field_texts(cookies@),
                    "serviceToken"@,
                ) + "; userId="@ + last_value(form::field_texts(cookies@), "userId"@)
            },
            _ => false,
        },
{
    let limit: u32 = match limit {
        Some(limit) => limit,
        None => 2,
    };
    let mut url: String =
        "https://userprofile.mina.mi.com/device_profile/v2/conversation?source=dialogu&hardware=".to_owned();
    url.append(hardware);
    url.append("&timestamp=");
    url.append(text::unsigned(timestamp).as_str());
    url.append("&limit=");
    url.append(text::unsigned(limit as u128).as_str());
    let mut cookie: String = "deviceId=".to_owned();
    cookie.append(device_id);
    cookie.append("; serviceToken=");
    cookie.append(find_last(cookies, "serviceToken").as_str());
    cookie.append("; userId=");
    cookie.append(find_last(cookies, "userId").as_str());
    Request::GetWithCookie { url, cookie }
}

impl Xiaoai {
    /// Asks for the latest conversations with a device, at the time `timestamp` in milliseconds.
    /// The credentials are those that the store holds for the service.
    pub fn get_conversations(
        &self,
        device_id: &str,
        hardware: &str,
        limit: Option<u32>,
        timestamp: u128,
        store: &cookie_store::CookieStore,
    ) -> (r: Result<Request, Error>)
        ensures
            match (r, links::url_parsed(self@)) {
                (Ok(request), Ok(_)) => exists|cookies: Seq<(Seq<char>, Seq<char>)>| #[trigger]
                    cookies::may_be_found(
                        cookies,
                        cookies::cookies_in(*store),
                        self@,
                        cookies::url_path(self@),
                    ) && request@ == conversation_request_view(
                        device_id@,
                        hardware@,
                        limit,
                        timestamp,
                        cookies,
                    ),
                (Err(Error::Url(error)), Err(expected)) => error == expected,
                _ => false,
            },
    {
        let server: &str = self.server();
        match cookies::matching_cookies(store, server) {
            Ok(cookies) => {
                Ok(conversation_request(device_id, hardware, limit, timestamp, &cookies))
            },
            Err(error) => Err(Error::Url(error)),
        }
    }
}

/// The first conversations, as many as were asked for, in order.
pub fn first_records(data: ConversationData, limit: Option<u32>) -> (records: Vec<Conversation>)
    ensures
        records@ == (if data.records@.len() <= limit_of(limit) {
            data.records@
        } else {
            data.records@.take(limit_of(limit) as int)
        }),
        records@.len() <= limit_of(limit),
        ({
            let most: int = match limit {
                Some(limit) => limit as int,
                None => 2,
            };
            &&& records@.len() == if data.records@.len() <= most {
                data.records@.len() as int
            } else {
                most
            }
            &&& forall|i: int|
                0 <= i < records@.len() ==> #[trigger] records@[i] == data.records@[i]
        }),
{
    let limit: u32 = match limit {
        Some(limit) => limit,
        None => 2,
    };
    let mut records: Vec<Conversation> = data.records;
    records.truncate(limit as usize);
    records
}

/// Whether an HTTP status tells of success.
pub fn is_success(status: u16) -> (r: bool)
    ensures
        r == (200 <= status < 300),
{
    200 <= status && status < 300
}

/// The error that stands for an HTTP status other than success. `status_text` is the status as
/// it is shown.
pub fn status_error(status: u16, status_text: &str, body: &str) -> (r: Error)
    ensures
        r matches Error::Api(response) && response@ == (ResponseView {
            code: status as i64,
            message: "HTTP "@ + status_text@ + ": "@ + body@,
            data: JsonTree::Null,
        }),
{
    let mut message: String = "HTTP ".to_owned();
    message.append(status_text);
    message.append(": ");
    message.append(body);
    Error::Api(XiaoaiResponse { code: status as i64, message, data: Json::Null })
}

/// The answer to a request for conversations.
#[derive(Clone, Debug)]
pub struct ConversationResponse {
    pub code: i32,
    pub data: Json,
}

/// The JSON text in which the conversations are told: the data itself where it is a text, else
/// the text of an object. Any other data tells of none.
pub open spec fn records_told(data: JsonTree) -> Option<Seq<char>> {
    match data {
        JsonTree::Text(records) => Some(records),
        JsonTree::Object(_) => Some(json::json_text(data)),
        _ => None,
    }
}

impl ConversationResponse {
    /// The JSON text in which the conversations are told, if any are. A code other than 0 is an
    /// error.
    pub fn records_text(self) -> (r: Result<Option<String>, Error>)
        ensures
            match r {
                Ok(Some(records)) => self.code == 0 && records_told(self.data@) == Some(records@),
                Ok(None) => self.code == 0 && records_told(self.data@) is None,
                Err(Error::Api(response)) => self.code != 0 && response@ == (ResponseView {
                    code: self.code as i64,
                    message: "Conversation API 返回错误码: "@ + text::decimal(self.code as int),
                    data: self.data@,
                }),
                Err(_) => false,
            },
            self.code == 0 ==> match (self.data@, r) {
                (JsonTree::Text(told), Ok(Some(records))) => records@ == told,
                (JsonTree::Text(_), _) => false,
                (JsonTree::Object(members), Ok(Some(records))) => records@ == json::json_text(
                    JsonTree::Object(members),
                ),
                (JsonTree::Object(_), _) => false,
                (_, r) => r is Ok && r->Ok_0 is None,
            },
    {
        if self.code != 0 {
            let mut message: String = "Conversation API 返回错误码: ".to_owned();
            message.append(text::signed(self.code as i64).as_str());
            return Err(
                Error::Api(XiaoaiResponse { code: self.code as i64, message, data: self.data }),
            );
        }
        if self.data.is_object() {
            return Ok(Some(self.data.to_text()));
        }
        match self.data {
            Json::Text(records) => Ok(Some(records)),
            _ => Ok(None),
        }
    }
}

/// A credential that a request for conversations carries is the value of a cookie that the store
/// holds for the service, or empty.
pub proof fn law_credentials_are_held(
    listed: Seq<(Seq<char>, Seq<char>)>,
    cookies: Map<CookieKey, StoredCookie>,
    link: Seq<char>,
    path: Seq<char>,
    name: Seq<char>,
)
    requires
        cookies::may_be_found(listed, cookies, link, path),
    ensures
        last_value(listed, name) == Seq::<char>::empty() || cookies::holds_fitting(
            cookies,
            link,
            path,
            name,
            last_value(listed, name),
        ),
{
    lemma_last_is_listed(listed, name);
}

/// A credential that the store holds in a cookie that is sure to go to the service is carried, if
/// no other cookie of that name that may go there has another value. Cookies for other hosts do not
/// matter.
pub proof fn law_credentials_are_carried(
    listed: Seq<(Seq<char>, Seq<char>)>,
    cookies: Map<CookieKey, StoredCookie>,
    link: Seq<char>,
    path: Seq<char>,
    key: CookieKey,
)
    requires
        cookies::may_be_found(listed, cookies, link, path),
        cookies.contains_key(key),
        cookies::surely_fits(key, cookies[key], link, path),
        forall|other: CookieKey| #[trigger]
            cookies.contains_key(other) && other.name == key.name && cookies::may_fit(
                other,
                cookies[other],
                link,
                path,
            ) ==> cookies[other].value == cookies[key].value,
    ensures
        last_value(listed, key.name) == cookies[key].value,
{
    let value = cookies[key].value;
    assert(listed.contains((key.name, value)));
    let i = choose|i: int| 0 <= i < listed.len() && listed[i] == (key.name, value);
    lemma_last_is_listed(listed, key.name);
    assert(listed[i].0 == key.name);
}

/// The last value of a name is listed, where any is.
proof fn lemma_last_is_listed(listed: Seq<(Seq<char>, Seq<char>)>, name: Seq<char>)
    ensures
        (exists|i: int| 0 <= i < listed.len() && (#[trigger] listed[i]).0 == name)
            ==> listed.contains((name, last_value(listed, name))),
        !(exists|i: int| 0 <= i < listed.len() && (#[trigger] listed[i]).0 == name)
            ==> last_value(listed, name) == Seq::<char>::empty(),
    decreases listed.len(),
{
    if listed.len() > 0 {
        let front = listed.drop_last();
        lemma_last_is_listed(front, name);
        if listed.last().0 == name {
            assert(listed[listed.len() - 1] == (name, last_value(listed, name)));
        } else {
            if exists|i: int| 0 <= i < listed.len() && (#[trigger] listed[i]).0 == name {
                let i = choose|i: int| 0 <= i < listed.len() && (#[trigger] listed[i]).0 == name;
                assert(front[i].0 == name);
                let k = choose|k: int|
                    0 <= k < front.len() && front[k] == (name, last_value(front, name));
                assert(listed[k] == (name, last_value(listed, name)));
            } else {
                assert forall|i: int| 0 <= i < front.len() implies (#[trigger] front[i]).0
                    != name by {
                    assert(front[i] == listed[i]);
                }
            }
        }
    }
}

/// Data that is a text tells the conversations in just that text, data that is an object in the
/// JSON text of all of it, and any other data tells of none.
pub proof fn law_records_are_what_was_told(told: Seq<char>, members: Map<Seq<char>, JsonTree>)
    ensures
        records_told(JsonTree::Text(told)) == Some(told),
        records_told(JsonTree::Object(members)) == Some(
            json::json_text(JsonTree::Object(members)),
        ),
        forall|data: JsonTree|
            !(data is Text) && !(data is Object) ==> #[trigger] records_told(data) is None,
{
}

/// A cookie that is listed behind the others gives its value to its name and leaves all other names
/// as they are; a name that is not listed has an empty value.
pub proof fn law_last_cookie_counts(
    listed: Seq<(Seq<char>, Seq<char>)>,
    added: (Seq<char>, Seq<char>),
    name: Seq<char>,
)
    ensures
        last_value(Seq::empty(), name) == Seq::<char>::empty(),
        last_value(listed.push(added), name) == (if added.0 == name {
            added.1
        } else {
            last_value(listed, name)
        }),
{
    pairs::law_last_pair_counts(listed, added.0, added.1);
    assert(listed.push(added) == listed.push((added.0, added.1)));
}

/// A request for conversations tells the model, the time and the limit in its address, and the
/// device and the credentials in its `Cookie` header, all of each. Two are asked for where no limit
/// is given.
pub proof fn law_conversation_requests_tell_all(
    device_id: Seq<char>,
    hardware: Seq<char>,
    limit: Option<u32>,
    timestamp: u128,
    listed: Seq<(Seq<char>, Seq<char>)>,
)
    ensures
        match conversation_request_view(device_id, hardware, limit, timestamp, listed) {
            RequestView::GetWithCookie { url, cookie } => {
                &&& url
                    == "https://userprofile.mina.mi.com/device_profile/v2/conversation?source=dialogu&hardware="@
                    + hardware + "&timestamp="@ + text::digits(timestamp as nat) + "&limit="@
                    + text::digits(
                    (match limit {
                        Some(limit) => limit,
                        None => 2,
                    }) as nat,
                )
                &&& cookie == "deviceId="@ + device_id + "; serviceToken="@ + last_value(
                    listed,
                    "serviceToken"@,
                ) + "; userId="@ + last_value(listed, "userId"@)
            },
            _ => false,
        },
{
}

/// A credential that is not empty comes from a cookie that is held for the host of the service, or
/// for a domain above it where the cookie is not for its host alone, and for a path above that of
/// the service: the credentials of another host are never sent.
pub proof fn law_credentials_are_for_the_host(
    listed: Seq<(Seq<char>, Seq<char>)>,
    cookies: Map<CookieKey, StoredCookie>,
    link: Seq<char>,
    path: Seq<char>,
    name: Seq<char>,
    host: Seq<char>,
)
    requires
        cookies::may_be_found(listed, cookies, link, path),
        cookies::url_host(link) == Some(host),
        host.len() > 0,
        host[0] != '.',
        forall|i: int|
            0 <= i < host.len() ==> ('a' <= #[trigger] host[i] && host[i] <= 'z') || ('0'
                <= host[i] && host[i] <= '9') || host[i] == '.',
        last_value(listed, name).len() > 0,
    ensures
        exists|key: CookieKey| #[trigger]
            cookies.contains_key(key) && key.name == name && cookies[key].value == last_value(
                listed,
                name,
            ) && key.path.is_prefix_of(path) && (key.domain == host || (!cookies[key].host_only
                && exists|above: Seq<char>| #[trigger] (above + seq!['.'] + key.domain) == host)),
{
    law_credentials_are_held(listed, cookies, link, path, name);
    let value = last_value(listed, name);
    let key = choose|key: CookieKey| #[trigger]
        cookies.contains_key(key) && key.name == name && cookies[key].value == value
            && cookies::may_fit(key, cookies[key], link, path);
    assert(cookies::is_host_name(host));
    if key.domain != host {
        let at = host.len() - key.domain.len();
        let above = host.take(at - 1);
        assert(above + seq!['.'] + key.domain =~= host) by {
            assert(host.skip(at) == key.domain);
        }
    }
}

/// A cookie for the very host of a secure service, for all its paths and until the session ends, is
/// what the request carries under its name, if every cookie of that name for this host or for a
/// domain above it has the same value.
pub proof fn law_session_credentials_are_carried(
    listed: Seq<(Seq<char>, Seq<char>)>,
    cookies: Map<CookieKey, StoredCookie>,
    link: Seq<char>,
    path: Seq<char>,
    key: CookieKey,
)
    requires
        cookies::may_be_found(listed, cookies, link, path),
        link.len() >= 8,
        link.take(8) == "https://"@,
        cookies::url_host(link) == Some(key.domain),
        key.domain.len() > 0,
        key.domain[0] != '.',
        'a' <= key.domain[key.domain.len() - 1] && key.domain[key.domain.len() - 1] <= 'z',
        forall|i: int|
            0 <= i < key.domain.len() ==> ('a' <= #[trigger] key.domain[i] && key.domain[i]
                <= 'z') || ('0' <= key.domain[i] && key.domain[i] <= '9') || key.domain[i] == '.',
        key.path == "/"@,
        cookies.contains_key(key),
        cookies[key].expiry is None,
        forall|other: CookieKey| #[trigger]
            cookies.contains_key(other) && other.name == key.name && (other.domain == key.domain
                || exists|above: Seq<char>| #[trigger]
                (above + seq!['.'] + other.domain) == key.domain) ==> cookies[other].value
                == cookies[key].value,
    ensures
        last_value(listed, key.name) == cookies[key].value,
{
    reveal_strlit("https://");
    assert("https://"@.len() == 8);
    assert("https://"@.is_prefix_of(link));
    assert(cookies::is_host_name(key.domain));
    assert(cookies::surely_fits(key, cookies[key], link, path));
    assert forall|other: CookieKey| #[trigger]
        cookies.contains_key(other) && other.name == key.name && cookies::may_fit(
            other,
            cookies[other],
            link,
            path,
        ) implies cookies[other].value == cookies[key].value by {
        cookies::law_hosts_lie_below_domains(other.domain, key.domain);
    }
    law_credentials_are_carried(listed, cookies, link, path, key);
}

} // verus!
