//! Requests to the service.

use vstd::prelude::*;

use crate::cookies;
use crate::error::Error;
use crate::form::Form;
use crate::json;
use crate::json::{Json, JsonTree, NumberTree};
use crate::links;
use crate::login::Login;
use crate::records;
use crate::records::{PlayState, PlayerStatus};
use crate::request;
use crate::request::Request;
use crate::response::XiaoaiResponse;
use crate::util;

verus! {

/// Where the service is.
pub const API_SERVER: &'static str = "https://api2.mina.mi.com/";

/// The user agent of requests to the service.
pub const API_UA: &'static str =
    "MiHome/6.0.103 (com.xiaomi.mihome; build:6.0.103.1; iOS 14.4.0) Alamofire/6.0.103 MICO/iOSApp/appStore/6.0.103";

/// The address of a request that fetches `uri`.
pub open spec fn get_link(server: Seq<char>, uri: Seq<char>, request_id: Seq<char>) -> Result<
    Seq<char>,
    url::ParseError,
> {
    match links::url_joined(server, uri) {
        Ok(link) => links::url_with_param(link, "requestId"@, request_id),
        Err(error) => Err(error),
    }
}

/// The fields of a UBUS call.
pub open spec fn ubus_form(
    device_id: Seq<char>,
    path: Seq<char>,
    method: Seq<char>,
    message: Seq<char>,
) -> Map<Seq<char>, Seq<char>> {
    map![
        "deviceId"@ => device_id,
        "method"@ => method,
        "path"@ => path,
        "message"@ => message,
    ]
}

/// Whether a result is the UBUS call with the given parts, under some request ID.
pub open spec fn calls_ubus(
    r: Result<Request, Error>,
    server: Seq<char>,
    device_id: Seq<char>,
    path: Seq<char>,
    method: Seq<char>,
    message: Seq<char>,
) -> bool {
    exists|request_id: Seq<char>| #[trigger]
        util::is_request_id(request_id) && request::posts(
            r,
            links::url_joined(server, "remote/ubus"@),
            ubus_form(device_id, path, method, message).insert("requestId"@, request_id),
        )
}

/// The names of the fields of a UBUS call differ.
pub proof fn lemma_names_differ()
    ensures
        "deviceId"@ != "method"@,
        "deviceId"@ != "path"@,
        "deviceId"@ != "message"@,
        "deviceId"@ != "requestId"@,
{
    reveal_strlit("deviceId");
    reveal_strlit("method");
    reveal_strlit("path");
    reveal_strlit("message");
    reveal_strlit("requestId");
    assert("deviceId"@.len() == 8);
    assert("requestId"@.len() == 9);
}

/// The message that has a text spoken.
pub open spec fn tts_tree(text: Seq<char>) -> JsonTree {
    JsonTree::Object(map!["text"@ => JsonTree::Text(text)])
}

/// The message that has an address played.
pub open spec fn play_url_tree(url: Seq<char>) -> JsonTree {
    JsonTree::Object(
        map![
            "url"@ => JsonTree::Text(url),
            "type"@ => JsonTree::Number(NumberTree::Integer(3)),
            "media"@ => JsonTree::Text("app_ios"@),
        ],
    )
}

/// The message that has music played.
pub open spec fn play_music_tree(url: Seq<char>) -> JsonTree {
    let audio_id = JsonTree::Text("1582971365183456177"@);
    let zero = JsonTree::Number(NumberTree::Integer(0));
    let source = JsonTree::Object(
        map![
            "album_id"@ => JsonTree::Text("-1"@),
            "episode_index"@ => zero,
            "id"@ => JsonTree::Text("355454500"@),
            "name"@ => JsonTree::Text("xiaowei"@),
        ],
    );
    let item = JsonTree::Object(
        map![
            "item_id"@ => JsonTree::Object(map!["audio_id"@ => audio_id, "cp"@ => source]),
            "stream"@ => JsonTree::Object(map!["url"@ => JsonTree::Text(url)]),
        ],
    );
    let list = JsonTree::Object(
        map![
            "listId"@ => JsonTree::Text("-1"@),
            "loadmore_offset"@ => zero,
            "origin"@ => JsonTree::Text("xiaowei"@),
            "type"@ => JsonTree::Text("MUSIC"@),
        ],
    );
    let payload = JsonTree::Object(
        map!["audio_items"@ => JsonTree::Array(seq![item]), "list_params"@ => list],
    );
    let music = JsonTree::Object(
        map!["payload"@ => payload, "play_behavior"@ => JsonTree::Text("REPLACE_ALL"@)],
    );
    JsonTree::Object(map!["startaudioid"@ => audio_id, "music"@ => music])
}

/// The message that sets the volume.
pub open spec fn volume_tree(volume: u32) -> JsonTree {
    JsonTree::Object(
        map![
            "volume"@ => JsonTree::Number(NumberTree::Integer(volume as int)),
            "media"@ => JsonTree::Text("app_ios"@),
        ],
    )
}

/// The message that has a text carried out as if it were said to the speaker.
pub open spec fn nlp_tree(text: Seq<char>) -> JsonTree {
    JsonTree::Object(
        map![
            "tts"@ => JsonTree::Number(NumberTree::Integer(1)),
            "nlp"@ => JsonTree::Number(NumberTree::Integer(1)),
            "nlp_text"@ => JsonTree::Text(text),
        ],
    )
}

/// The message that asks for the status of the player.
pub open spec fn status_query_tree() -> JsonTree {
    JsonTree::Object(map!["media"@ => JsonTree::Text("app_ios"@)])
}

/// The word by which the service knows a play state.
pub open spec fn action_word(state: PlayState) -> Seq<char> {
    match state {
        PlayState::Play => "play"@,
        PlayState::Pause => "pause"@,
        PlayState::Stop => "stop"@,
        PlayState::Toggle => "toggle"@,
    }
}

/// The message that sets the play state.
pub open spec fn play_state_tree(state: PlayState) -> JsonTree {
    JsonTree::Object(
        map!["action"@ => JsonTree::Text(action_word(state)), "media"@ => JsonTree::Text("app_ios"@)],
    )
}

/// The message that has a text spoken.
pub fn tts_message(text: &str) -> (r: Json)
    ensures
        r@ == tts_tree(text@),
{
    Json::object().with("text", Json::text(text))
}

/// The message that has an address played.
///
/// The type governs the light and which of pausing and stopping work; it differs from model to
/// model.
pub fn play_url_message(url: &str) -> (r: Json)
    ensures
        r@ == play_url_tree(url@),
{
    Json::object().with("url", Json::text(url)).with("type", Json::number(3)).with(
        "media",
        Json::text("app_ios"),
    )
}

/// The message that has music played.
pub fn play_music_message(url: &str) -> (r: Json)
    ensures
        r@ == play_music_tree(url@),
{
    let source: Json = Json::object().with("album_id", Json::text("-1")).with(
        "episode_index",
        Json::number(0),
    ).with("id", Json::text("355454500")).with("name", Json::text("xiaowei"));
    let item_id: Json = Json::object().with("audio_id", Json::text("1582971365183456177")).with(
        "cp",
        source,
    );
    let item: Json = Json::object().with("item_id", item_id).with(
        "stream",
        Json::object().with("url", Json::text(url)),
    );
    let list: Json = Json::object().with("listId", Json::text("-1")).with(
        "loadmore_offset",
        Json::number(0),
    ).with("origin", Json::text("xiaowei")).with("type", Json::text("MUSIC"));
    let payload: Json = Json::object().with("audio_items", Json::array_of(item)).with(
        "list_params",
        list,
    );
    let music: Json = Json::object().with("payload", payload).with(
        "play_behavior",
        Json::text("REPLACE_ALL"),
    );
    Json::object().with("startaudioid", Json::text("1582971365183456177")).with("music", music)
}

/// The message that sets the volume.
pub fn volume_message(volume: u32) -> (r: Json)
    ensures
        r@ == volume_tree(volume),
{
    Json::object().with("volume", Json::number(volume as u64)).with("media", Json::text("app_ios"))
}

/// The message that has a text carried out as if it were said to the speaker.
pub fn nlp_message(text: &str) -> (r: Json)
    ensures
        r@ == nlp_tree(text@),
{
    Json::object().with("tts", Json::number(1)).with("nlp", Json::number(1)).with(
        "nlp_text",
        Json::text(text),
    )
}

/// The message that asks for the status of the player.
pub fn status_query_message() -> (r: Json)
    ensures
        r@ == status_query_tree(),
{
    Json::object().with("media", Json::text("app_ios"))
}

/// The message that sets the play state.
pub fn play_state_message(state: PlayState) -> (r: Json)
    ensures
        r@ == play_state_tree(state),
{
    let action: &str = match state {
        PlayState::Play => "play",
        PlayState::Pause => "pause",
        PlayState::Stop => "stop",
        PlayState::Toggle => "toggle",
    };
    Json::object().with("action", Json::text(action)).with("media", Json::text("app_ios"))
}

/// The requests of one account.
///
/// The account itself is known by its cookies, which go with each request.
#[derive(Debug)]
pub struct Xiaoai {
    server: String,
}

impl View for Xiaoai {
    type V = Seq<char>;

    /// Where the service is.
    closed spec fn view(&self) -> Seq<char> {
        self.server@
    }
}

impl Clone for Xiaoai {
    fn clone(&self) -> (r: Self)
        ensures
            r@ == self@,
    {
        Xiaoai { server: self.server.clone() }
    }
}

impl Xiaoai {
    /// Requests to the service.
    pub fn new() -> (r: Result<Xiaoai, Error>)
        ensures
            match (r, links::url_parsed("https://api2.mina.mi.com/"@)) {
                (Ok(xiaoai), Ok(server)) => xiaoai@ == server,
                (Err(Error::Url(error)), Err(expected)) => error == expected,
                _ => false,
            },
    {
        match links::parse_link(API_SERVER) {
            Ok(server) => Ok(Xiaoai { server }),
            Err(error) => Err(Error::Url(error)),
        }
    }

    /// Where the service is.
    pub fn server(&self) -> (r: &str)
        ensures
            r@ == self@,
    {
        self.server.as_str()
    }

    /// Takes over from a login, with the cookies that hold its state.
    pub fn from_login(login: Login) -> (r: Result<(Xiaoai, cookie_store::CookieStore), Error>)
        ensures
            match (r, links::url_parsed("https://api2.mina.mi.com/"@)) {
                (Ok((xiaoai, store)), Ok(server)) => xiaoai@ == server && cookies::cookies_in(store)
                    == login@.cookies && cookies::writable(store),
                (Err(Error::Url(error)), Err(expected)) => error == expected,
                _ => false,
            },
    {
        match Xiaoai::new() {
            Ok(xiaoai) => Ok((xiaoai, login.into_cookie_store())),
            Err(error) => Err(error),
        }
    }

    /// Writes the state of a login: all its cookies, as JSON in plain text. What is written reads
    /// back as the same cookies, if all of them are plain.
    pub fn save(store: &cookie_store::CookieStore) -> (r: Result<Vec<u8>, String>)
        requires
            cookies::writable(*store),
        ensures
            match r {
                Ok(bytes) => cookies::all_plain(cookies::cookies_in(*store))
                    ==> cookies::cookies_read(bytes@) == Some(cookies::cookies_in(*store)),
                Err(_) => false,
            },
    {
        cookies::write_cookies(store)
    }

    /// Reads the state of a login. Whether the login still holds is not checked. What is read can
    /// be saved and read again as the same cookies.
    pub fn load(bytes: &[u8]) -> (r: Result<cookie_store::CookieStore, String>)
        ensures
            match r {
                Ok(store) => cookies::cookies_read(bytes@) == Some(cookies::cookies_in(store))
                    && cookies::writable(store) && cookies::all_plain(cookies::cookies_in(store)),
                Err(_) => cookies::cookies_read(bytes@) is None,
            },
    {
        cookies::read_cookies(bytes)
    }

    /// A request that fetches `uri`, under a given request ID.
    pub fn get_as(&self, uri: &str, request_id: &str) -> (r: Result<Request, Error>)
        ensures
            request::gets(r, get_link(self@, uri@, request_id@)),
    {
        let link: String = match links::join_link(self.server.as_str(), uri) {
            Ok(link) => link,
            Err(error) => {
                return Err(Error::Url(error));
            },
        };
        match links::link_with_param(link.as_str(), "requestId", request_id) {
            Ok(url) => Ok(Request::Get { url }),
            Err(error) => Err(Error::Url(error)),
        }
    }

    /// A request that fetches `uri`, under a random request ID.
    pub fn get(&self, uri: &str) -> (r: Result<Request, Error>)
        ensures
            exists|request_id: Seq<char>| #[trigger]
                util::is_request_id(request_id) && request::gets(
                    r,
                    get_link(self@, uri@, request_id),
                ),
    {
        let request_id: String = util::random_request_id();
        self.get_as(uri, request_id.as_str())
    }

    /// A request that sends a form to `uri`, under a given request ID.
    pub fn post_as(&self, uri: &str, form: Form, request_id: &str) -> (r: Result<Request, Error>)
        ensures
            request::posts(
                r,
                links::url_joined(self@, uri@),
                form@.insert("requestId"@, request_id@),
            ),
    {
        let mut form: Form = form;
        form.insert("requestId", request_id);
        match links::join_link(self.server.as_str(), uri) {
            Ok(url) => Ok(Request::Post { url, form }),
            Err(error) => Err(Error::Url(error)),
        }
    }

    /// A request that sends a form to `uri`, under a random request ID.
    pub fn post(&self, uri: &str, form: Form) -> (r: Result<Request, Error>)
        ensures
            exists|request_id: Seq<char>| #[trigger]
                util::is_request_id(request_id) && request::posts(
                    r,
                    links::url_joined(self@, uri@),
                    form@.insert("requestId"@, request_id),
                ),
    {
        let request_id: String = util::random_request_id();
        self.post_as(uri, form, request_id.as_str())
    }

    /// Asks for the devices of the account.
    pub fn raw_device_info(&self) -> (r: Result<Request, Error>)
        ensures
            exists|request_id: Seq<char>| #[trigger]
                util::is_request_id(request_id) && request::gets(
                    r,
                    get_link(self@, "admin/v2/device_list?master=0"@, request_id),
                ),
    {
        self.get("admin/v2/device_list?master=0")
    }

    /// An OpenWrt UBUS call on a device.
    pub fn ubus_call(&self, device_id: &str, path: &str, method: &str, message: &str) -> (r: Result<
        Request,
        Error,
    >)
        ensures
            calls_ubus(r, self@, device_id@, path@, method@, message@),
    {
        let mut form: Form = Form::new();
        form.insert("deviceId", device_id);
        form.insert("method", method);
        form.insert("path", path);
        form.insert("message", message);
        self.post("remote/ubus", form)
    }

    /// Has a device speak a text.
    pub fn tts(&self, device_id: &str, text: &str) -> (r: Result<Request, Error>)
        ensures
            calls_ubus(
                r,
                self@,
                device_id@,
                "mibrain"@,
                "text_to_speech"@,
                json::json_text(tts_tree(text@)),
            ),
    {
        let message: String = tts_message(text).to_text();
        self.ubus_call(device_id, "mibrain", "text_to_speech", message.as_str())
    }

    /// Has a device play an address.
    pub fn play_url(&self, device_id: &str, url: &str) -> (r: Result<Request, Error>)
        ensures
            calls_ubus(
                r,
                self@,
                device_id@,
                "mediaplayer"@,
                "player_play_url"@,
                json::json_text(play_url_tree(url@)),
            ),
    {
        let message: String = play_url_message(url).to_text();
        self.ubus_call(device_id, "mediaplayer", "player_play_url", message.as_str())
    }

    /// Has a device play music. It takes more than [`Xiaoai::play_url`], but not every model
    /// knows it.
    pub fn play_music(&self, device_id: &str, url: &str) -> (r: Result<Request, Error>)
        ensures
            calls_ubus(
                r,
                self@,
                device_id@,
                "mediaplayer"@,
                "player_play_music"@,
                json::json_text(play_music_tree(url@)),
            ),
    {
        let message: String = play_music_message(url).to_text();
        self.ubus_call(device_id, "mediaplayer", "player_play_music", message.as_str())
    }

    /// Sets the volume of a device.
    pub fn set_volume(&self, device_id: &str, volume: u32) -> (r: Result<Request, Error>)
        ensures
            calls_ubus(
                r,
                self@,
                device_id@,
                "mediaplayer"@,
                "player_set_volume"@,
                json::json_text(volume_tree(volume)),
            ),
    {
        let message: String = volume_message(volume).to_text();
        self.ubus_call(device_id, "mediaplayer", "player_set_volume", message.as_str())
    }

    /// Has a device carry out a text, as if it were said to it.
    pub fn nlp(&self, device_id: &str, text: &str) -> (r: Result<Request, Error>)
        ensures
            calls_ubus(
                r,
                self@,
                device_id@,
                "mibrain"@,
                "ai_service"@,
                json::json_text(nlp_tree(text@)),
            ),
    {
        let message: String = nlp_message(text).to_text();
        self.ubus_call(device_id, "mibrain", "ai_service", message.as_str())
    }

    /// Asks for the status of the player of a device.
    pub fn player_status(&self, device_id: &str) -> (r: Result<Request, Error>)
        ensures
            calls_ubus(
                r,
                self@,
                device_id@,
                "mediaplayer"@,
                "player_get_play_status"@,
                json::json_text(status_query_tree()),
            ),
    {
        let message: String = status_query_message().to_text();
        self.ubus_call(device_id, "mediaplayer", "player_get_play_status", message.as_str())
    }

    /// Reads the status of the player of a device from the answer to [`Xiaoai::player_status`].
    pub fn player_status_parsed(response: XiaoaiResponse) -> (status: PlayerStatus)
        ensures
            status.raw@ == records::status_tree(response.data@),
            match response.data@ {
                JsonTree::Object(members) => if members.contains_key("info"@)
                    && members["info"@] is Text {
                    match json::json_read(members["info"@]->Text_0) {
                        Ok(tree) => status.raw@ == JsonTree::Object(
                            members.insert("info"@, tree),
                        ),
                        Err(_) => status.raw@ == response.data@,
                    }
                } else {
                    status.raw@ == response.data@
                },
                _ => status.raw@ == response.data@,
            },
    {
        let data: Json = response.data;
        let info: Option<Json> = match data.get("info") {
            Some(info) => match info.as_str() {
                Some(info) => match Json::parse(info) {
                    Ok(info) => Some(info),
                    Err(_) => None,
                },
                None => None,
            },
            None => None,
        };
        PlayerStatus::with_info(data, info)
    }

    /// Sets the play state of a device.
    pub fn set_play_state(&self, device_id: &str, state: PlayState) -> (r: Result<Request, Error>)
        ensures
            calls_ubus(
                r,
                self@,
                device_id@,
                "mediaplayer"@,
                "player_play_operation"@,
                json::json_text(play_state_tree(state)),
            ),
    {
        let message: String = play_state_message(state).to_text();
        self.ubus_call(device_id, "mediaplayer", "player_play_operation", message.as_str())
    }

    /// Asks for the messages that a device received. The service keeps them so shortly that
    /// [`Xiaoai::get_conversations`] tells more.
    pub fn get_messages(&self, device_id: &str) -> (r: Result<Request, Error>)
        ensures
            calls_ubus(r, self@, device_id@, "mibrain"@, "nlp_result_get"@, "{}"@),
    {
        self.ubus_call(device_id, "mibrain", "nlp_result_get", "{}")
    }
}

/// The address of a request that fetches something is that of the service joined with it, with the
/// request ID as the parameter `requestId`.
pub proof fn law_get_address(server: Seq<char>, uri: Seq<char>, request_id: Seq<char>)
    ensures
        match links::url_joined(server, uri) {
            Ok(link) => get_link(server, uri, request_id) == links::url_with_param(
                link,
                "requestId"@,
                request_id,
            ),
            Err(error) => get_link(server, uri, request_id) == Err::<Seq<char>, url::ParseError>(
                error,
            ),
        },
{
}

/// A UBUS call is sent to `remote/ubus` and tells the device, the path, the method, the message and
/// a request ID, each under its name, and nothing else.
pub proof fn law_ubus_calls_tell_all(
    r: Result<Request, Error>,
    server: Seq<char>,
    device_id: Seq<char>,
    path: Seq<char>,
    method: Seq<char>,
    message: Seq<char>,
)
    requires
        calls_ubus(r, server, device_id, path, method, message),
    ensures
        match r {
            Ok(Request::Post { url, form }) => {
                &&& links::url_joined(server, "remote/ubus"@) == Ok::<Seq<char>, url::ParseError>(
                    url@,
                )
                &&& form@.dom() == set![
                    "deviceId"@,
                    "path"@,
                    "method"@,
                    "message"@,
                    "requestId"@,
                ]
                &&& form@["deviceId"@] == device_id
                &&& form@["path"@] == path
                &&& form@["method"@] == method
                &&& form@["message"@] == message
                &&& form@["requestId"@].len() == 38
                &&& form@["requestId"@].take(8) == "app_ios_"@
                &&& util::is_request_id(form@["requestId"@])
            },
            Err(Error::Url(error)) => links::url_joined(server, "remote/ubus"@) == Err::<
                Seq<char>,
                url::ParseError,
            >(error),
            _ => false,
        },
{
    let request_id = choose|request_id: Seq<char>| #[trigger]
        util::is_request_id(request_id) && request::posts(
            r,
            links::url_joined(server, "remote/ubus"@),
            ubus_form(device_id, path, method, message).insert("requestId"@, request_id),
        );
    util::law_request_ids(request_id);
    reveal_strlit("deviceId");
    reveal_strlit("method");
    reveal_strlit("path");
    reveal_strlit("message");
    reveal_strlit("requestId");
    assert("deviceId"@.len() == 8);
    assert("method"@.len() == 6);
    assert("path"@.len() == 4);
    assert("message"@.len() == 7);
    assert("requestId"@.len() == 9);
    if let Ok(Request::Post { url, form }) = r {
        assert(form@.dom() =~= set![
            "deviceId"@,
            "path"@,
            "method"@,
            "message"@,
            "requestId"@,
        ]);
    }
}

/// The message that has a text spoken tells just that text.
pub proof fn law_tts_message(text: Seq<char>, other: Seq<char>)
    ensures
        match tts_tree(text) {
            JsonTree::Object(members) => members.dom() == set!["text"@] && members["text"@]
                == JsonTree::Text(text),
            _ => false,
        },
        tts_tree(text) == tts_tree(other) ==> text == other,
{
    let members = tts_tree(text)->Object_0;
    assert(members.dom() =~= set!["text"@]);
    assert(members["text"@] == JsonTree::Text(text));
    assert(tts_tree(other)->Object_0["text"@] == JsonTree::Text(other));
}

/// The message that has an address played tells just that address, the type 3 and the medium.
pub proof fn law_play_url_message(url: Seq<char>, other: Seq<char>)
    ensures
        match play_url_tree(url) {
            JsonTree::Object(members) => {
                &&& members.dom() == set!["url"@, "type"@, "media"@]
                &&& members["url"@] == JsonTree::Text(url)
                &&& members["type"@] == JsonTree::Number(NumberTree::Integer(3))
                &&& members["media"@] == JsonTree::Text("app_ios"@)
            },
            _ => false,
        },
        play_url_tree(url) == play_url_tree(other) ==> url == other,
{
    reveal_strlit("url");
    reveal_strlit("type");
    reveal_strlit("media");
    assert("url"@.len() == 3 && "type"@.len() == 4 && "media"@.len() == 5);
    assert(play_url_tree(url)->Object_0.dom() =~= set!["url"@, "type"@, "media"@]);
    assert(play_url_tree(url)->Object_0["url"@] == JsonTree::Text(url));
    assert(play_url_tree(other)->Object_0["url"@] == JsonTree::Text(other));
}

/// The message that sets the volume tells just that volume and the medium.
pub proof fn law_volume_message(volume: u32, other: u32)
    ensures
        match volume_tree(volume) {
            JsonTree::Object(members) => {
                &&& members.dom() == set!["volume"@, "media"@]
                &&& members["volume"@] == JsonTree::Number(NumberTree::Integer(volume as int))
                &&& members["media"@] == JsonTree::Text("app_ios"@)
            },
            _ => false,
        },
        volume_tree(volume) == volume_tree(other) ==> volume == other,
{
    reveal_strlit("volume");
    reveal_strlit("media");
    assert("volume"@.len() == 6 && "media"@.len() == 5);
    assert(volume_tree(volume)->Object_0.dom() =~= set!["volume"@, "media"@]);
    assert(volume_tree(volume)->Object_0["volume"@] == JsonTree::Number(
        NumberTree::Integer(volume as int),
    ));
    assert(volume_tree(other)->Object_0["volume"@] == JsonTree::Number(
        NumberTree::Integer(other as int),
    ));
}

/// The message that has a text carried out tells just that text, and asks for it to be both carried
/// out and spoken.
pub proof fn law_nlp_message(text: Seq<char>, other: Seq<char>)
    ensures
        match nlp_tree(text) {
            JsonTree::Object(members) => {
                &&& members.dom() == set!["tts"@, "nlp"@, "nlp_text"@]
                &&& members["tts"@] == JsonTree::Number(NumberTree::Integer(1))
                &&& members["nlp"@] == JsonTree::Number(NumberTree::Integer(1))
                &&& members["nlp_text"@] == JsonTree::Text(text)
            },
            _ => false,
        },
        nlp_tree(text) == nlp_tree(other) ==> text == other,
{
    reveal_strlit("tts");
    reveal_strlit("nlp");
    reveal_strlit("nlp_text");
    assert("tts"@[0] == 't' && "nlp"@[0] == 'n' && "nlp_text"@.len() == 8 && "nlp"@.len() == 3);
    assert("tts"@.len() == 3);
    assert(nlp_tree(text)->Object_0.dom() =~= set!["tts"@, "nlp"@, "nlp_text"@]);
    assert(nlp_tree(text)->Object_0["nlp_text"@] == JsonTree::Text(text));
    assert(nlp_tree(other)->Object_0["nlp_text"@] == JsonTree::Text(other));
}

/// The message that asks for the status tells just the medium.
pub proof fn law_status_message()
    ensures
        match status_query_tree() {
            JsonTree::Object(members) => members.dom() == set!["media"@] && members["media"@]
                == JsonTree::Text("app_ios"@),
            _ => false,
        },
{
    assert(status_query_tree()->Object_0.dom() =~= set!["media"@]);
}

/// The message that sets the play state tells the word for just that state and the medium, and the
/// words for different states differ.
pub proof fn law_play_state_message(state: PlayState, other: PlayState)
    ensures
        match play_state_tree(state) {
            JsonTree::Object(members) => {
                &&& members.dom() == set!["action"@, "media"@]
                &&& members["action"@] == JsonTree::Text(
                    match state {
                        PlayState::Play => "play"@,
                        PlayState::Pause => "pause"@,
                        PlayState::Stop => "stop"@,
                        PlayState::Toggle => "toggle"@,
                    },
                )
                &&& members["media"@] == JsonTree::Text("app_ios"@)
            },
            _ => false,
        },
        play_state_tree(state) == play_state_tree(other) ==> state == other,
{
    reveal_strlit("action");
    reveal_strlit("media");
    reveal_strlit("play");
    reveal_strlit("pause");
    reveal_strlit("stop");
    reveal_strlit("toggle");
    assert("action"@.len() == 6 && "media"@.len() == 5);
    assert("play"@.len() == 4 && "pause"@.len() == 5 && "stop"@.len() == 4 && "toggle"@.len() == 6);
    assert("play"@[0] == 'p' && "stop"@[0] == 's');
    assert(play_state_tree(state)->Object_0.dom() =~= set!["action"@, "media"@]);
    assert(play_state_tree(state)->Object_0["action"@] == JsonTree::Text(action_word(state)));
    assert(play_state_tree(other)->Object_0["action"@] == JsonTree::Text(action_word(other)));
}

/// The message that has music played is a list of one item, whose stream has just the address that
/// is to be played; the list replaces all that was playing.
pub proof fn law_play_music_message(url: Seq<char>)
    ensures
        ({
            let audio_id = JsonTree::Text("1582971365183456177"@);
            let zero = JsonTree::Number(NumberTree::Integer(0));
            let top = play_music_tree(url)->Object_0;
            let music = top["music"@]->Object_0;
            let payload = music["payload"@]->Object_0;
            let items = payload["audio_items"@]->Array_0;
            let item = items[0]->Object_0;
            let item_id = item["item_id"@]->Object_0;
            let source = item_id["cp"@]->Object_0;
            let stream = item["stream"@]->Object_0;
            let list = payload["list_params"@]->Object_0;
            &&& play_music_tree(url) is Object
            &&& top.dom() == set!["startaudioid"@, "music"@]
            &&& top["startaudioid"@] == audio_id
            &&& top["music"@] is Object
            &&& music.dom() == set!["payload"@, "play_behavior"@]
            &&& music["play_behavior"@] == JsonTree::Text("REPLACE_ALL"@)
            &&& music["payload"@] is Object
            &&& payload.dom() == set!["audio_items"@, "list_params"@]
            &&& payload["audio_items"@] is Array
            &&& items.len() == 1
            &&& items[0] is Object
            &&& item.dom() == set!["item_id"@, "stream"@]
            &&& item["item_id"@] is Object
            &&& item_id.dom() == set!["audio_id"@, "cp"@]
            &&& item_id["audio_id"@] == audio_id
            &&& item_id["cp"@] is Object
            &&& source.dom() == set!["album_id"@, "episode_index"@, "id"@, "name"@]
            &&& source["album_id"@] == JsonTree::Text("-1"@)
            &&& source["episode_index"@] == zero
            &&& source["id"@] == JsonTree::Text("355454500"@)
            &&& source["name"@] == JsonTree::Text("xiaowei"@)
            &&& item["stream"@] is Object
            &&& stream.dom() == set!["url"@]
            &&& stream["url"@] == JsonTree::Text(url)
            &&& payload["list_params"@] is Object
            &&& list.dom() == set!["listId"@, "loadmore_offset"@, "origin"@, "type"@]
            &&& list["listId"@] == JsonTree::Text("-1"@)
            &&& list["loadmore_offset"@] == zero
            &&& list["origin"@] == JsonTree::Text("xiaowei"@)
            &&& list["type"@] == JsonTree::Text("MUSIC"@)
        }),
{
    reveal_strlit("startaudioid");
    reveal_strlit("music");
    reveal_strlit("payload");
    reveal_strlit("play_behavior");
    reveal_strlit("audio_items");
    reveal_strlit("list_params");
    reveal_strlit("item_id");
    reveal_strlit("stream");
    reveal_strlit("audio_id");
    reveal_strlit("cp");
    reveal_strlit("album_id");
    reveal_strlit("episode_index");
    reveal_strlit("id");
    reveal_strlit("name");
    reveal_strlit("listId");
    reveal_strlit("loadmore_offset");
    reveal_strlit("origin");
    reveal_strlit("type");
    assert("startaudioid"@.len() == 12 && "music"@.len() == 5);
    assert("payload"@.len() == 7 && "play_behavior"@.len() == 13);
    assert("audio_items"@[0] == 'a' && "list_params"@[0] == 'l');
    assert("item_id"@.len() == 7 && "stream"@.len() == 6);
    assert("audio_id"@.len() == 8 && "cp"@.len() == 2);
    assert("album_id"@.len() == 8 && "episode_index"@.len() == 13 && "id"@.len() == 2
        && "name"@.len() == 4);
    assert("listId"@[0] == 'l' && "listId"@.len() == 6 && "loadmore_offset"@.len() == 15
        && "origin"@[0] == 'o' && "origin"@.len() == 6 && "type"@.len() == 4);
    let top = play_music_tree(url)->Object_0;
    assert(top.dom() =~= set!["startaudioid"@, "music"@]);
    let music = top["music"@]->Object_0;
    assert(music.dom() =~= set!["payload"@, "play_behavior"@]);
    let payload = music["payload"@]->Object_0;
    assert(payload.dom() =~= set!["audio_items"@, "list_params"@]);
    let item = payload["audio_items"@]->Array_0[0]->Object_0;
    assert(item.dom() =~= set!["item_id"@, "stream"@]);
    let item_id = item["item_id"@]->Object_0;
    assert(item_id.dom() =~= set!["audio_id"@, "cp"@]);
    let source = item_id["cp"@]->Object_0;
    assert(source.dom() =~= set!["album_id"@, "episode_index"@, "id"@, "name"@]);
    let stream = item["stream"@]->Object_0;
    assert(stream.dom() =~= set!["url"@]);
    let list = payload["list_params"@]->Object_0;
    assert(list.dom() =~= set!["listId"@, "loadmore_offset"@, "origin"@, "type"@]);
}

/// The messages that have different addresses played as music differ.
pub proof fn law_play_music_messages_differ(url: Seq<char>, other: Seq<char>)
    requires
        url != other,
    ensures
        play_music_tree(url) != play_music_tree(other),
{
    law_play_music_message(url);
    law_play_music_message(other);
}

/// The requests go to one service and tell one user agent.
pub proof fn law_service()
    ensures
        API_SERVER@ == "https://api2.mina.mi.com/"@,
        API_UA@
            == "MiHome/6.0.103 (com.xiaomi.mihome; build:6.0.103.1; iOS 14.4.0) Alamofire/6.0.103 MICO/iOSApp/appStore/6.0.103"@,
{
}

} // verus!
