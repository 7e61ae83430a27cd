//! What clients of the server, and the command line, may ask for, and what they are answered.

use vstd::prelude::*;

use crate::error::Error;
use crate::json;
use crate::json::{Json, JsonNumber, JsonTree, NumberTree};
use crate::links;
use crate::records;
use crate::records::{DeviceInfo, PlayState, PlayerStatus};
use crate::request;
use crate::request::{Request, RequestView};
use crate::response::XiaoaiResponse;
use crate::util;
use crate::watcher::{KeywordMatch, MatchView};
use crate::xiaoai;
use crate::xiaoai::Xiaoai;

verus! {

/// What a client asks for.
#[derive(Debug)]
pub enum ApiRequest {
    /// Speak a text.
    Say { device_id: String, text: String },
    /// Play an address, or go on playing.
    Play { device_id: String, url: Option<String> },
    /// Pause.
    Pause { device_id: String },
    /// Stop.
    Stop { device_id: String },
    /// Set the volume.
    Volume { device_id: String, volume: u32 },
    /// Carry out a text.
    Ask { device_id: String, text: String },
    /// Tell the status of the player.
    Status { device_id: String },
    /// Tell the devices.
    GetDevices,
}

/// What is asked for on the command line.
#[derive(Debug)]
pub enum Command {
    /// Log in.
    Login,
    /// List the devices.
    Device,
    /// Speak a text.
    Say { text: String },
    /// Play an address, or go on playing.
    Play { url: Option<String> },
    /// Pause.
    Pause,
    /// Stop.
    Stop,
    /// Set the volume.
    Volume { volume: u32 },
    /// Carry out a text.
    Ask { text: String },
    /// Tell the status of the player.
    Status,
    /// Watch for keywords.
    Check,
    /// Serve clients.
    Wsapi,
}

/// A call that answers a request.
#[derive(Debug)]
pub enum DeviceCall {
    Tts { device_id: String, text: String },
    PlayUrl { device_id: String, url: String },
    SetPlayState { device_id: String, state: PlayState },
    SetVolume { device_id: String, volume: u32 },
    Nlp { device_id: String, text: String },
    PlayerStatus { device_id: String },
    DeviceInfo,
}

/// The call that answers a request.
pub open spec fn call_for(request: ApiRequest) -> DeviceCall {
    match request {
        ApiRequest::Say { device_id, text } => DeviceCall::Tts { device_id, text },
        ApiRequest::Play { device_id, url } => match url {
            Some(url) => DeviceCall::PlayUrl { device_id, url },
            None => DeviceCall::SetPlayState { device_id, state: PlayState::Play },
        },
        ApiRequest::Pause { device_id } => DeviceCall::SetPlayState {
            device_id,
            state: PlayState::Pause,
        },
        ApiRequest::Stop { device_id } => DeviceCall::SetPlayState {
            device_id,
            state: PlayState::Stop,
        },
        ApiRequest::Volume { device_id, volume } => DeviceCall::SetVolume { device_id, volume },
        ApiRequest::Ask { device_id, text } => DeviceCall::Nlp { device_id, text },
        ApiRequest::Status { device_id } => DeviceCall::PlayerStatus { device_id },
        ApiRequest::GetDevices => DeviceCall::DeviceInfo,
    }
}

impl ApiRequest {
    /// The call that answers this request.
    pub fn into_call(self) -> (r: DeviceCall)
        ensures
            r == call_for(self),
    {
        match self {
            ApiRequest::Say { device_id, text } => DeviceCall::Tts { device_id, text },
            ApiRequest::Play { device_id, url } => match url {
                Some(url) => DeviceCall::PlayUrl { device_id, url },
                None => DeviceCall::SetPlayState { device_id, state: PlayState::Play },
            },
            ApiRequest::Pause { device_id } => DeviceCall::SetPlayState {
                device_id,
                state: PlayState::Pause,
            },
            ApiRequest::Stop { device_id } => DeviceCall::SetPlayState {
                device_id,
                state: PlayState::Stop,
            },
            ApiRequest::Volume { device_id, volume } => DeviceCall::SetVolume {
                device_id,
                volume,
            },
            ApiRequest::Ask { device_id, text } => DeviceCall::Nlp { device_id, text },
            ApiRequest::Status { device_id } => DeviceCall::PlayerStatus { device_id },
            ApiRequest::GetDevices => DeviceCall::DeviceInfo,
        }
    }
}

/// What a command asks of a device; none for a command that is not for a device.
pub open spec fn device_request(command: Command, device_id: String) -> Option<ApiRequest> {
    match command {
        Command::Say { text } => Some(ApiRequest::Say { device_id, text }),
        Command::Play { url } => Some(ApiRequest::Play { device_id, url }),
        Command::Pause => Some(ApiRequest::Pause { device_id }),
        Command::Stop => Some(ApiRequest::Stop { device_id }),
        Command::Volume { volume } => Some(ApiRequest::Volume { device_id, volume }),
        Command::Ask { text } => Some(ApiRequest::Ask { device_id, text }),
        Command::Status => Some(ApiRequest::Status { device_id }),
        Command::Login | Command::Device | Command::Check | Command::Wsapi => None,
    }
}

impl Command {
    /// What this command asks of a device; none for a command that is not for a device.
    pub fn for_device(self, device_id: String) -> (r: Option<ApiRequest>)
        ensures
            r == device_request(self, device_id),
    {
        match self {
            Command::Say { text } => Some(ApiRequest::Say { device_id, text }),
            Command::Play { url } => Some(ApiRequest::Play { device_id, url }),
            Command::Pause => Some(ApiRequest::Pause { device_id }),
            Command::Stop => Some(ApiRequest::Stop { device_id }),
            Command::Volume { volume } => Some(ApiRequest::Volume { device_id, volume }),
            Command::Ask { text } => Some(ApiRequest::Ask { device_id, text }),
            Command::Status => Some(ApiRequest::Status { device_id }),
            Command::Login | Command::Device | Command::Check | Command::Wsapi => None,
        }
    }
}

/// Whether a result is the request that makes a call.
pub open spec fn makes_call(
    r: Result<Request, Error>,
    server: Seq<char>,
    call: DeviceCall,
) -> bool {
    match call {
        DeviceCall::Tts { device_id, text } => xiaoai::calls_ubus(
            r,
            server,
            device_id@,
            "mibrain"@,
            "text_to_speech"@,
            json::json_text(xiaoai::tts_tree(text@)),
        ),
        DeviceCall::PlayUrl { device_id, url } => xiaoai::calls_ubus(
            r,
            server,
            device_id@,
            "mediaplayer"@,
            "player_play_url"@,
            json::json_text(xiaoai::play_url_tree(url@)),
        ),
        DeviceCall::SetPlayState { device_id, state } => xiaoai::calls_ubus(
            r,
            server,
            device_id@,
            "mediaplayer"@,
            "player_play_operation"@,
            json::json_text(xiaoai::play_state_tree(state)),
        ),
        DeviceCall::SetVolume { device_id, volume } => xiaoai::calls_ubus(
            r,
            server,
            device_id@,
            "mediaplayer"@,
            "player_set_volume"@,
            json::json_text(xiaoai::volume_tree(volume)),
        ),
        DeviceCall::Nlp { device_id, text } => xiaoai::calls_ubus(
            r,
            server,
            device_id@,
            "mibrain"@,
            "ai_service"@,
            json::json_text(xiaoai::nlp_tree(text@)),
        ),
        DeviceCall::PlayerStatus { device_id } => xiaoai::calls_ubus(
            r,
            server,
            device_id@,
            "mediaplayer"@,
            "player_get_play_status"@,
            json::json_text(xiaoai::status_query_tree()),
        ),
        DeviceCall::DeviceInfo => exists|request_id: Seq<char>| #[trigger]
            util::is_request_id(request_id) && request::gets(
                r,
                xiaoai::get_link(server, "admin/v2/device_list?master=0"@, request_id),
            ),
    }
}

impl Xiaoai {
    /// The request that makes a call.
    pub fn request_for(&self, call: &DeviceCall) -> (r: Result<Request, Error>)
        ensures
            makes_call(r, self@, *call),
    {
        match call {
            DeviceCall::Tts { device_id, text } => self.tts(device_id.as_str(), text.as_str()),
            DeviceCall::PlayUrl { device_id, url } => self.play_url(
                device_id.as_str(),
                url.as_str(),
            ),
            DeviceCall::SetPlayState { device_id, state } => self.set_play_state(
                device_id.as_str(),
                *state,
            ),
            DeviceCall::SetVolume { device_id, volume } => self.set_volume(
                device_id.as_str(),
                *volume,
            ),
            DeviceCall::Nlp { device_id, text } => self.nlp(device_id.as_str(), text.as_str()),
            DeviceCall::PlayerStatus { device_id } => self.player_status(device_id.as_str()),
            DeviceCall::DeviceInfo => self.raw_device_info(),
        }
    }
}

/// The device that a call is for.
pub open spec fn device_of(call: DeviceCall) -> Option<Seq<char>> {
    match call {
        DeviceCall::Tts { device_id, .. } => Some(device_id@),
        DeviceCall::PlayUrl { device_id, .. } => Some(device_id@),
        DeviceCall::SetPlayState { device_id, .. } => Some(device_id@),
        DeviceCall::SetVolume { device_id, .. } => Some(device_id@),
        DeviceCall::Nlp { device_id, .. } => Some(device_id@),
        DeviceCall::PlayerStatus { device_id } => Some(device_id@),
        DeviceCall::DeviceInfo => None,
    }
}

/// The request of each call on a device names that device by its ID, and carries a request ID.
pub proof fn law_calls_name_their_device(
    r: Result<Request, Error>,
    server: Seq<char>,
    call: DeviceCall,
)
    requires
        makes_call(r, server, call),
        r is Ok,
        call !is DeviceInfo,
    ensures
        match r->Ok_0@ {
            RequestView::Post { form, .. } => {
                &&& form.contains_key("deviceId"@)
                &&& Some(form["deviceId"@]) == device_of(call)
                &&& form.contains_key("requestId"@)
                &&& util::is_request_id(form["requestId"@])
            },
            _ => false,
        },
{
    xiaoai::lemma_names_differ();
}

/// A command for a device is carried out on that very device.
pub proof fn law_commands_keep_their_device(command: Command, device_id: String)
    ensures
        device_request(command, device_id) matches Some(request) ==> device_of(call_for(request))
            == Some(device_id@),
{
}

/// A device, as clients are told of it.
#[derive(Debug)]
pub struct DeviceData {
    pub device_id: String,
    pub name: String,
    pub hardware: String,
}

/// What a client is told.
#[derive(Debug)]
pub enum ApiResponse {
    /// The answer of the service.
    Success { code: i64, message: String, data: Json },
    /// What went wrong.
    Error { error: String },
    /// The devices.
    Devices { devices: Vec<DeviceData> },
    /// A conversation triggered.
    KeywordMatch { timestamp: i64, query: String, matched_keyword: String, device_id: String },
}

/// The text with which an error is told.
pub open spec fn tells_error(response: ApiResponse, text: Seq<char>) -> bool {
    response matches ApiResponse::Error { error } && error@ == text
}

fn error_after(prefix: &str, text: &str) -> (r: ApiResponse)
    ensures
        tells_error(r, prefix@ + text@),
{
    let mut error: String = prefix.to_owned();
    error.append(text);
    ApiResponse::Error { error }
}

/// Answers a call that the service itself answers.
pub fn answer_response(result: Result<XiaoaiResponse, Error>) -> (r: ApiResponse)
    ensures
        match result {
            Ok(response) => r == (ApiResponse::Success {
                code: response.code,
                message: response.message,
                data: response.data,
            }),
            Err(error) => tells_error(r, error.text()),
        },
{
    match result {
        Ok(response) => ApiResponse::Success {
            code: response.code,
            message: response.message,
            data: response.data,
        },
        Err(error) => ApiResponse::Error { error: error.message() },
    }
}

/// Answers a call for the status of the player.
pub fn answer_status(result: Result<PlayerStatus, Error>) -> (r: ApiResponse)
    ensures
        match result {
            Ok(status) => r matches ApiResponse::Success { code, message, data } && code == 0
                && message@ == "OK"@ && data == status.raw,
            Err(error) => tells_error(r, "获取状态失败: "@ + error.text()),
        },
{
    match result {
        Ok(status) => ApiResponse::Success { code: 0, message: "OK".to_owned(), data: status.raw },
        Err(error) => error_after("获取状态失败: ", error.message().as_str()),
    }
}

/// Answers a call for the devices.
pub fn answer_devices(result: Result<Vec<DeviceInfo>, Error>) -> (r: ApiResponse)
    ensures
        match result {
            Ok(infos) => r matches ApiResponse::Devices { devices } && devices@
                == infos@.map_values(
                |info: DeviceInfo|
                    DeviceData {
                        device_id: info.device_id,
                        name: info.name,
                        hardware: info.hardware,
                    },
            ),
            Err(error) => tells_error(r, "获取设备列表失败: "@ + error.text()),
        },
{
    match result {
        Ok(infos) => {
            let ghost all = infos@;
            let mut devices: Vec<DeviceData> = Vec::new();
            for info in iter: infos.into_iter()
                invariant
                    iter.seq() == all,
                    devices.len() == iter.index(),
                    forall|j: int|
                        0 <= j < devices.len() ==> #[trigger] devices[j] == (DeviceData {
                            device_id: all[j].device_id,
                            name: all[j].name,
                            hardware: all[j].hardware,
                        }),
            {
                devices.push(
                    DeviceData {
                        device_id: info.device_id,
                        name: info.name,
                        hardware: info.hardware,
                    },
                );
            }
            assert(devices@ =~= all.map_values(
                |info: DeviceInfo|
                    DeviceData {
                        device_id: info.device_id,
                        name: info.name,
                        hardware: info.hardware,
                    },
            ));
            ApiResponse::Devices { devices }
        },
        Err(error) => error_after("获取设备列表失败: ", error.message().as_str()),
    }
}

/// What a call is answered.
#[derive(Debug)]
pub enum Answer {
    /// This.
    Given(ApiResponse),
    /// What [`answer_devices`] makes of the devices that are read from the data of this.
    Devices(XiaoaiResponse),
}

/// Whether an answer is that to a call, given what came of the call.
pub open spec fn is_answer(
    call: DeviceCall,
    result: Result<XiaoaiResponse, Error>,
    answer: Answer,
) -> bool {
    match (call, result) {
        (DeviceCall::DeviceInfo, Ok(response)) => answer == Answer::Devices(response),
        (DeviceCall::DeviceInfo, Err(error)) => answer matches Answer::Given(given)
            && tells_error(given, "获取设备列表失败: "@ + error.text()),
        (DeviceCall::PlayerStatus { .. }, Ok(response)) => match answer {
            Answer::Given(ApiResponse::Success { code, message, data }) => code == 0 && message@
                == "OK"@ && data@ == records::status_tree(response.data@),
            _ => false,
        },
        (DeviceCall::PlayerStatus { .. }, Err(error)) => answer matches Answer::Given(given)
            && tells_error(given, "获取状态失败: "@ + error.text()),
        (_, Ok(response)) => answer == Answer::Given(
            ApiResponse::Success {
                code: response.code,
                message: response.message,
                data: response.data,
            },
        ),
        (_, Err(error)) => answer matches Answer::Given(given) && tells_error(given, error.text()),
    }
}

/// Answers a call, given what came of it.
pub fn answer_call(call: &DeviceCall, result: Result<XiaoaiResponse, Error>) -> (answer: Answer)
    ensures
        is_answer(*call, result, answer),
{
    match call {
        DeviceCall::DeviceInfo => match result {
            Ok(response) => Answer::Devices(response),
            Err(error) => Answer::Given(answer_devices(Err(error))),
        },
        DeviceCall::PlayerStatus { .. } => match result {
            Ok(response) => Answer::Given(
                answer_status(Ok(Xiaoai::player_status_parsed(response))),
            ),
            Err(error) => Answer::Given(answer_status(Err(error))),
        },
        _ => Answer::Given(answer_response(result)),
    }
}

/// Answers a request that could not be read, given what was reported of it.
pub fn answer_invalid(report: &str) -> (r: ApiResponse)
    ensures
        tells_error(r, "无效的请求格式: "@ + report@),
{
    error_after("无效的请求格式: ", report)
}

/// Answers a request that took too long.
pub fn answer_timeout() -> (r: ApiResponse)
    ensures
        tells_error(r, "请求处理超时，请稍后重试"@),
{
    ApiResponse::Error { error: "请求处理超时，请稍后重试".to_owned() }
}

/// Tells clients of a conversation that triggered.
pub fn announce_match(keyword_match: &KeywordMatch, device_id: &str) -> (r: ApiResponse)
    ensures
        match r {
            ApiResponse::KeywordMatch { timestamp, query, matched_keyword, device_id: device } => {
                &&& timestamp == keyword_match@.conversation.time
                &&& query@ == keyword_match@.conversation.query
                &&& matched_keyword@ == keyword_match@.matched_keyword
                &&& device@ == device_id@
            },
            _ => false,
        },
{
    ApiResponse::KeywordMatch {
        timestamp: keyword_match.conversation.time,
        query: keyword_match.conversation.query.clone(),
        matched_keyword: keyword_match.matched_keyword.clone(),
        device_id: device_id.to_owned(),
    }
}

/// The object that tells of a conversation that triggered.
pub open spec fn match_tree(found: MatchView, device_id: Seq<char>) -> JsonTree {
    JsonTree::Object(
        map![
            "timestamp"@ => JsonTree::Number(NumberTree::Integer(found.conversation.time as int)),
            "query"@ => JsonTree::Text(found.conversation.query),
            "matched_keyword"@ => JsonTree::Text(found.matched_keyword),
            "device_id"@ => JsonTree::Text(device_id),
        ],
    )
}

/// The line that tells of a conversation that triggered.
pub fn match_line(keyword_match: &KeywordMatch, device_id: &str) -> (r: String)
    ensures
        r@ == json::json_text(match_tree(keyword_match@, device_id@)),
{
    match_json(keyword_match, device_id).to_text()
}

/// The object that tells of a conversation that triggered.
pub fn match_json(keyword_match: &KeywordMatch, device_id: &str) -> (r: Json)
    ensures
        r@ == match_tree(keyword_match@, device_id@),
{
    let time: i64 = keyword_match.conversation.time;
    let timestamp: Json = if time < 0 {
        Json::Number(JsonNumber::NegInt(time))
    } else {
        Json::Number(JsonNumber::PosInt(time as u64))
    };
    Json::object().with("timestamp", timestamp).with(
        "query",
        Json::text(keyword_match.conversation.query.as_str()),
    ).with("matched_keyword", Json::text(keyword_match.matched_keyword.as_str())).with(
        "device_id",
        Json::text(device_id),
    )
}

/// The request of each call is for the device of that very call and carries its payload: the text
/// that is to be spoken or carried out, the address that is to be played, the volume, or the word
/// for the play state. There is a request wherever the address of the calls can be told.
pub proof fn law_calls_carry_their_payload(
    r: Result<Request, Error>,
    server: Seq<char>,
    call: DeviceCall,
)
    requires
        makes_call(r, server, call),
        call !is DeviceInfo,
    ensures
        match r {
            Ok(Request::Post { url, form }) => {
                let sent = |
                    device_id: String,
                    path: Seq<char>,
                    method: Seq<char>,
                    members: Map<Seq<char>, JsonTree>,
                |
                    {
                        &&& form@["deviceId"@] == device_id@
                        &&& form@["path"@] == path
                        &&& form@["method"@] == method
                        &&& form@["message"@] == json::json_text(JsonTree::Object(members))
                    };
                &&& links::url_joined(server, "remote/ubus"@) == Ok::<Seq<char>, url::ParseError>(
                    url@,
                )
                &&& match call {
                    DeviceCall::Tts { device_id, text } => sent(
                        device_id,
                        "mibrain"@,
                        "text_to_speech"@,
                        map!["text"@ => JsonTree::Text(text@)],
                    ),
                    DeviceCall::PlayUrl { device_id, url } => sent(
                        device_id,
                        "mediaplayer"@,
                        "player_play_url"@,
                        map![
                            "url"@ => JsonTree::Text(url@),
                            "type"@ => JsonTree::Number(NumberTree::Integer(3)),
                            "media"@ => JsonTree::Text("app_ios"@),
                        ],
                    ),
                    DeviceCall::SetPlayState { device_id, state } => sent(
                        device_id,
                        "mediaplayer"@,
                        "player_play_operation"@,
                        map![
                            "action"@ => JsonTree::Text(
                                match state {
                                    PlayState::Play => "play"@,
                                    PlayState::Pause => "pause"@,
                                    PlayState::Stop => "stop"@,
                                    PlayState::Toggle => "toggle"@,
                                },
                            ),
                            "media"@ => JsonTree::Text("app_ios"@),
                        ],
                    ),
                    DeviceCall::SetVolume { device_id, volume } => sent(
                        device_id,
                        "mediaplayer"@,
                        "player_set_volume"@,
                        map![
                            "volume"@ => JsonTree::Number(NumberTree::Integer(volume as int)),
                            "media"@ => JsonTree::Text("app_ios"@),
                        ],
                    ),
                    DeviceCall::Nlp { device_id, text } => sent(
                        device_id,
                        "mibrain"@,
                        "ai_service"@,
                        map![
                            "tts"@ => JsonTree::Number(NumberTree::Integer(1)),
                            "nlp"@ => JsonTree::Number(NumberTree::Integer(1)),
                            "nlp_text"@ => JsonTree::Text(text@),
                        ],
                    ),
                    DeviceCall::PlayerStatus { device_id } => sent(
                        device_id,
                        "mediaplayer"@,
                        "player_get_play_status"@,
                        map!["media"@ => JsonTree::Text("app_ios"@)],
                    ),
                    DeviceCall::DeviceInfo => false,
                }
            },
            Err(Error::Url(error)) => links::url_joined(server, "remote/ubus"@) == Err::<
                Seq<char>,
                url::ParseError,
            >(error),
            _ => false,
        },
{
    let (device_id, path, method, message) = match call {
        DeviceCall::Tts { device_id, text } => (
            device_id@,
            "mibrain"@,
            "text_to_speech"@,
            json::json_text(xiaoai::tts_tree(text@)),
        ),
        DeviceCall::PlayUrl { device_id, url } => (
            device_id@,
            "mediaplayer"@,
            "player_play_url"@,
            json::json_text(xiaoai::play_url_tree(url@)),
        ),
        DeviceCall::SetPlayState { device_id, state } => (
            device_id@,
            "mediaplayer"@,
            "player_play_operation"@,
            json::json_text(xiaoai::play_state_tree(state)),
        ),
        DeviceCall::SetVolume { device_id, volume } => (
            device_id@,
            "mediaplayer"@,
            "player_set_volume"@,
            json::json_text(xiaoai::volume_tree(volume)),
        ),
        DeviceCall::Nlp { device_id, text } => (
            device_id@,
            "mibrain"@,
            "ai_service"@,
            json::json_text(xiaoai::nlp_tree(text@)),
        ),
        DeviceCall::PlayerStatus { device_id } => (
            device_id@,
            "mediaplayer"@,
            "player_get_play_status"@,
            json::json_text(xiaoai::status_query_tree()),
        ),
        DeviceCall::DeviceInfo => (Seq::empty(), Seq::empty(), Seq::empty(), Seq::empty()),
    };
    xiaoai::law_ubus_calls_tell_all(r, server, device_id, path, method, message);
}

/// The request for the devices fetches the list of devices of the service under a request ID,
/// wherever its address can be told.
pub proof fn law_devices_are_fetched(r: Result<Request, Error>, server: Seq<char>)
    requires
        makes_call(r, server, DeviceCall::DeviceInfo),
    ensures
        match r {
            Ok(Request::Get { url }) => exists|link: Seq<char>, request_id: Seq<char>|
                {
                    &&& links::url_joined(server, "admin/v2/device_list?master=0"@) == Ok::<
                        Seq<char>,
                        url::ParseError,
                    >(link)
                    &&& request_id.len() == 38
                    &&& request_id.take(8) == "app_ios_"@
                    &&& #[trigger] links::url_with_param(link, "requestId"@, request_id) == Ok::<
                        Seq<char>,
                        url::ParseError,
                    >(url@)
                },
            Err(Error::Url(error)) => match links::url_joined(
                server,
                "admin/v2/device_list?master=0"@,
            ) {
                Ok(link) => exists|request_id: Seq<char>|
                    request_id.len() == 38 && request_id.take(8) == "app_ios_"@
                        && #[trigger] links::url_with_param(link, "requestId"@, request_id)
                        == Err::<Seq<char>, url::ParseError>(error),
                Err(expected) => error == expected,
            },
            _ => false,
        },
{
    let uri = "admin/v2/device_list?master=0"@;
    let request_id = choose|request_id: Seq<char>| #[trigger]
        util::is_request_id(request_id) && request::gets(
            r,
            xiaoai::get_link(server, uri, request_id),
        );
    util::law_request_ids(request_id);
    let link = links::url_joined(server, uri)->Ok_0;
    match r {
        Ok(Request::Get { url }) => {
            assert(links::url_with_param(link, "requestId"@, request_id) == Ok::<
                Seq<char>,
                url::ParseError,
            >(url@));
        },
        Err(Error::Url(error)) => {
            if links::url_joined(server, uri) is Ok {
                assert(links::url_with_param(link, "requestId"@, request_id) == Err::<
                    Seq<char>,
                    url::ParseError,
                >(error));
            }
        },
        _ => {},
    }
}

/// Each request is answered by the call that does what it asks for, on the device that it names and
/// with all that it tells.
pub proof fn law_requests_become_their_calls(request: ApiRequest)
    ensures
        match (request, call_for(request)) {
            (
                ApiRequest::Say { device_id, text },
                DeviceCall::Tts { device_id: device, text: spoken },
            ) => device_id == device && text == spoken,
            (
                ApiRequest::Play { device_id, url: Some(url) },
                DeviceCall::PlayUrl { device_id: device, url: played },
            ) => device_id == device && url == played,
            (
                ApiRequest::Play { device_id, url: None },
                DeviceCall::SetPlayState { device_id: device, state },
            ) => device_id == device && state == PlayState::Play,
            (
                ApiRequest::Pause { device_id },
                DeviceCall::SetPlayState { device_id: device, state },
            ) => device_id == device && state == PlayState::Pause,
            (
                ApiRequest::Stop { device_id },
                DeviceCall::SetPlayState { device_id: device, state },
            ) => device_id == device && state == PlayState::Stop,
            (
                ApiRequest::Volume { device_id, volume },
                DeviceCall::SetVolume { device_id: device, volume: set },
            ) => device_id == device && volume == set,
            (
                ApiRequest::Ask { device_id, text },
                DeviceCall::Nlp { device_id: device, text: asked },
            ) => device_id == device && text == asked,
            (
                ApiRequest::Status { device_id },
                DeviceCall::PlayerStatus { device_id: device },
            ) => device_id == device,
            (ApiRequest::GetDevices, DeviceCall::DeviceInfo) => true,
            _ => false,
        },
{
}

/// Each command for a device asks for what it says, with all that it tells; the others ask nothing
/// of a device.
pub proof fn law_commands_become_their_requests(command: Command, device: String)
    ensures
        match (command, device_request(command, device)) {
            (Command::Say { text }, Some(ApiRequest::Say { device_id, text: said })) => device_id
                == device && text == said,
            (Command::Play { url }, Some(ApiRequest::Play { device_id, url: played })) => device_id
                == device && url == played,
            (Command::Pause, Some(ApiRequest::Pause { device_id })) => device_id == device,
            (Command::Stop, Some(ApiRequest::Stop { device_id })) => device_id == device,
            (
                Command::Volume { volume },
                Some(ApiRequest::Volume { device_id, volume: set }),
            ) => device_id == device && volume == set,
            (Command::Ask { text }, Some(ApiRequest::Ask { device_id, text: asked })) => device_id
                == device && text == asked,
            (Command::Status, Some(ApiRequest::Status { device_id })) => device_id == device,
            (Command::Login, None) => true,
            (Command::Device, None) => true,
            (Command::Check, None) => true,
            (Command::Wsapi, None) => true,
            _ => false,
        },
{
}

/// A call that failed is answered by an error that tells what went wrong, behind what it was about
/// for the devices and the status. One that succeeded is answered by the answer of the service; for
/// the status the data is opened, and the devices are still to be read.
pub proof fn law_answers_fit_their_calls(
    call: DeviceCall,
    result: Result<XiaoaiResponse, Error>,
    answer: Answer,
)
    requires
        is_answer(call, result, answer),
    ensures
        match (result, answer) {
            (Err(error), Answer::Given(ApiResponse::Error { error: told })) => told@ == (
            match call {
                DeviceCall::DeviceInfo => "获取设备列表失败: "@ + error.text(),
                DeviceCall::PlayerStatus { .. } => "获取状态失败: "@ + error.text(),
                _ => error.text(),
            }),
            (Ok(response), Answer::Devices(kept)) => call is DeviceInfo && kept == response,
            (Ok(response), Answer::Given(ApiResponse::Success { code, message, data })) =>
                if call is PlayerStatus {
                    code == 0 && message@ == "OK"@ && data@ == records::status_tree(response.data@)
                } else {
                    !(call is DeviceInfo) && code == response.code && message == response.message
                        && data == response.data
                },
            _ => false,
        },
{
}

/// A text that is told as an error is told in full.
pub proof fn law_errors_are_told(response: ApiResponse, text: Seq<char>)
    ensures
        tells_error(response, text) <==> match response {
            ApiResponse::Error { error } => error@ == text,
            _ => false,
        },
{
}

/// The line that tells of a match tells the time and the query of the conversation, the keyword and
/// the device, each under its name, and nothing else.
pub proof fn law_matches_are_told_in_full(found: MatchView, device_id: Seq<char>)
    ensures
        match match_tree(found, device_id) {
            JsonTree::Object(members) => {
                &&& members.dom() == set![
                    "timestamp"@,
                    "query"@,
                    "matched_keyword"@,
                    "device_id"@,
                ]
                &&& members["timestamp"@] == JsonTree::Number(
                    NumberTree::Integer(found.conversation.time as int),
                )
                &&& members["query"@] == JsonTree::Text(found.conversation.query)
                &&& members["matched_keyword"@] == JsonTree::Text(found.matched_keyword)
                &&& members["device_id"@] == JsonTree::Text(device_id)
            },
            _ => false,
        },
{
    reveal_strlit("timestamp");
    reveal_strlit("query");
    reveal_strlit("matched_keyword");
    reveal_strlit("device_id");
    assert("timestamp"@.len() == 9 && "query"@.len() == 5 && "matched_keyword"@.len() == 15);
    assert("device_id"@.len() == 9 && "timestamp"@[0] == 't' && "device_id"@[0] == 'd');
    assert(match_tree(found, device_id)->Object_0.dom() =~= set![
        "timestamp"@,
        "query"@,
        "matched_keyword"@,
        "device_id"@,
    ]);
}

} // verus!
