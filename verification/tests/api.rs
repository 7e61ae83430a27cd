use miai::api::{self, Answer, ApiRequest, ApiResponse, Command, DeviceCall};
use miai::json::Json;
use miai::request::Request;
use miai::{
    Conversation, DeviceInfo, Error, KeywordConfig, KeywordMatch, MatchMode, PlayState,
    PlayerStatus, Xiaoai, XiaoaiResponse,
};

fn id() -> String {
    "device".to_string()
}

fn error_of(response: ApiResponse) -> String {
    match response {
        ApiResponse::Error { error } => error,
        other => panic!("{:?}", other),
    }
}

fn found() -> KeywordMatch {
    KeywordMatch {
        config: KeywordConfig {
            keywords: vec!["请".to_string()],
            match_mode: MatchMode::StartsWith,
            enabled: true,
            description: String::new(),
        },
        matched_keyword: "请".to_string(),
        conversation: Conversation { time: 17, query: "请问".to_string(), answers: vec![] },
    }
}

#[test]
fn requests_become_calls() {
    let call = ApiRequest::Say { device_id: id(), text: "x".to_string() }.into_call();
    assert!(matches!(call, DeviceCall::Tts { device_id, text } if device_id == "device" && text == "x"));
    let call = ApiRequest::Play { device_id: id(), url: Some("u".to_string()) }.into_call();
    assert!(matches!(call, DeviceCall::PlayUrl { url, .. } if url == "u"));
    let call = ApiRequest::Play { device_id: id(), url: None }.into_call();
    assert!(matches!(call, DeviceCall::SetPlayState { state: PlayState::Play, .. }));
    let call = ApiRequest::Pause { device_id: id() }.into_call();
    assert!(matches!(call, DeviceCall::SetPlayState { state: PlayState::Pause, .. }));
    let call = ApiRequest::Stop { device_id: id() }.into_call();
    assert!(matches!(call, DeviceCall::SetPlayState { state: PlayState::Stop, .. }));
    let call = ApiRequest::Volume { device_id: id(), volume: 9 }.into_call();
    assert!(matches!(call, DeviceCall::SetVolume { volume: 9, .. }));
    let call = ApiRequest::Ask { device_id: id(), text: "x".to_string() }.into_call();
    assert!(matches!(call, DeviceCall::Nlp { text, .. } if text == "x"));
    let call = ApiRequest::Status { device_id: id() }.into_call();
    assert!(matches!(call, DeviceCall::PlayerStatus { device_id } if device_id == "device"));
    assert!(matches!(ApiRequest::GetDevices.into_call(), DeviceCall::DeviceInfo));
}

#[test]
fn commands_become_requests() {
    let request = Command::Say { text: "x".to_string() }.for_device(id());
    assert!(matches!(request, Some(ApiRequest::Say { device_id, text }) if device_id == "device" && text == "x"));
    let request = Command::Volume { volume: 3 }.for_device(id());
    assert!(matches!(request, Some(ApiRequest::Volume { volume: 3, .. })));
    assert!(matches!(Command::Pause.for_device(id()), Some(ApiRequest::Pause { .. })));
    assert!(matches!(Command::Stop.for_device(id()), Some(ApiRequest::Stop { .. })));
    assert!(matches!(Command::Status.for_device(id()), Some(ApiRequest::Status { .. })));
    assert!(matches!(
        Command::Play { url: None }.for_device(id()),
        Some(ApiRequest::Play { url: None, .. })
    ));
    assert!(matches!(
        Command::Ask { text: "x".to_string() }.for_device(id()),
        Some(ApiRequest::Ask { .. })
    ));
    for command in [Command::Login, Command::Device, Command::Check, Command::Wsapi] {
        assert!(command.for_device(id()).is_none());
    }
}

#[test]
fn calls_name_their_device() {
    let xiaoai = Xiaoai::new().unwrap();
    let calls = vec![
        DeviceCall::Tts { device_id: id(), text: "x".to_string() },
        DeviceCall::PlayUrl { device_id: id(), url: "u".to_string() },
        DeviceCall::SetPlayState { device_id: id(), state: PlayState::Toggle },
        DeviceCall::SetVolume { device_id: id(), volume: 1 },
        DeviceCall::Nlp { device_id: id(), text: "x".to_string() },
        DeviceCall::PlayerStatus { device_id: id() },
    ];
    let methods = [
        "text_to_speech",
        "player_play_url",
        "player_play_operation",
        "player_set_volume",
        "ai_service",
        "player_get_play_status",
    ];
    for (call, method) in calls.iter().zip(methods) {
        match xiaoai.request_for(call).unwrap() {
            Request::Post { form, .. } => {
                let fields = form.into_fields();
                assert!(fields.contains(&("deviceId".to_string(), "device".to_string())));
                assert!(fields.contains(&("method".to_string(), method.to_string())));
            }
            other => panic!("{:?}", other),
        }
    }
    assert!(matches!(
        xiaoai.request_for(&DeviceCall::DeviceInfo),
        Ok(Request::Get { url }) if url.contains("device_list?master=0&requestId=")
    ));
}

#[test]
fn answers_of_the_service() {
    let response =
        XiaoaiResponse { code: 0, message: "Success".to_string(), data: Json::number(1) };
    match api::answer_response(Ok(response)) {
        ApiResponse::Success { code, message, data } => {
            assert_eq!(code, 0);
            assert_eq!(message, "Success");
            assert_eq!(data.to_text(), "1");
        }
        other => panic!("{:?}", other),
    }
    assert_eq!(error_of(api::answer_response(Err(Error::Json("bad".to_string())))), "bad");
}

#[test]
fn answers_with_the_status() {
    let status = PlayerStatus { raw: Json::object() };
    match api::answer_status(Ok(status)) {
        ApiResponse::Success { code, message, data } => {
            assert_eq!(code, 0);
            assert_eq!(message, "OK");
            assert_eq!(data.to_text(), "{}");
        }
        other => panic!("{:?}", other),
    }
    let error = Error::Reqwest("lost".to_string());
    assert_eq!(error_of(api::answer_status(Err(error))), "获取状态失败: lost");
}

#[test]
fn answers_with_the_devices() {
    let info = DeviceInfo {
        device_id: id(),
        name: "小爱".to_string(),
        hardware: "LX06".to_string(),
    };
    match api::answer_devices(Ok(vec![info])) {
        ApiResponse::Devices { devices } => {
            assert_eq!(devices.len(), 1);
            assert_eq!(devices[0].device_id, "device");
            assert_eq!(devices[0].name, "小爱");
            assert_eq!(devices[0].hardware, "LX06");
        }
        other => panic!("{:?}", other),
    }
    let error = Error::Reqwest("lost".to_string());
    assert_eq!(error_of(api::answer_devices(Err(error))), "获取设备列表失败: lost");
}

#[test]
fn each_call_has_its_answer() {
    let response = || XiaoaiResponse {
        code: 0,
        message: "Success".to_string(),
        data: Json::object().with("info", Json::text("{\"volume\":5}")),
    };
    let lost = || Error::Reqwest("lost".to_string());
    let given = |call: &DeviceCall, result| match api::answer_call(call, result) {
        Answer::Given(response) => response,
        other => panic!("{:?}", other),
    };
    let status = DeviceCall::PlayerStatus { device_id: id() };
    match given(&status, Ok(response())) {
        ApiResponse::Success { code, message, data } => {
            assert_eq!((code, message.as_str()), (0, "OK"));
            assert_eq!(data.to_text(), "{\"info\":{\"volume\":5}}");
        }
        other => panic!("{:?}", other),
    }
    assert_eq!(error_of(given(&status, Err(lost()))), "获取状态失败: lost");
    let speak = DeviceCall::Tts { device_id: id(), text: "x".to_string() };
    match given(&speak, Ok(response())) {
        ApiResponse::Success { message, data, .. } => {
            assert_eq!(message, "Success");
            assert!(data.get("info").unwrap().is_string());
        }
        other => panic!("{:?}", other),
    }
    assert_eq!(error_of(given(&speak, Err(lost()))), "lost");
    assert_eq!(error_of(given(&DeviceCall::DeviceInfo, Err(lost()))), "获取设备列表失败: lost");
    assert!(matches!(
        api::answer_call(&DeviceCall::DeviceInfo, Ok(response())),
        Answer::Devices(response) if response.message == "Success"
    ));
}

#[test]
fn answers_to_bad_requests() {
    assert_eq!(error_of(api::answer_invalid("EOF")), "无效的请求格式: EOF");
    assert_eq!(error_of(api::answer_timeout()), "请求处理超时，请稍后重试");
}

#[test]
fn matches_are_announced() {
    match api::announce_match(&found(), "device") {
        ApiResponse::KeywordMatch { timestamp, query, matched_keyword, device_id } => {
            assert_eq!(timestamp, 17);
            assert_eq!(query, "请问");
            assert_eq!(matched_keyword, "请");
            assert_eq!(device_id, "device");
        }
        other => panic!("{:?}", other),
    }
}

#[test]
fn matches_are_told_in_a_line() {
    let line = "{\"device_id\":\"device\",\"matched_keyword\":\"请\",\"query\":\"请问\",\"timestamp\":17}";
    assert_eq!(api::match_line(&found(), "device"), line);
    let mut early = found();
    early.conversation.time = -1;
    assert!(api::match_line(&early, "device").ends_with("\"timestamp\":-1}"));
}
