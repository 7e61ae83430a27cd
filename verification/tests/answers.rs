use miai::json::Json;
use miai::records::DeviceInfo;
use miai::{messages, Error, PlayerStatus, Xiaoai, XiaoaiResponse};

fn response(code: i64) -> XiaoaiResponse {
    XiaoaiResponse { code, message: "Success".to_string(), data: Json::text("data") }
}

#[test]
fn codes_tell_of_errors() {
    assert_eq!(response(0).error_for_code().unwrap().code, 0);
    match response(-3).error_for_code() {
        Err(Error::Api(response)) => {
            assert_eq!(response.code, -3);
            assert_eq!(response.data.to_text(), "\"data\"");
        }
        other => panic!("{:?}", other),
    }
}

#[test]
fn errors_have_messages() {
    assert_eq!(Error::Api(response(-3)).message(), "API 返回 -3: Success");
    assert_eq!(Error::Reqwest("lost".to_string()).message(), "lost");
    assert_eq!(Error::Json("EOF".to_string()).message(), "EOF");
    assert_eq!(Error::Url(url::ParseError::InvalidPort).message(), "invalid port number");
    assert_eq!(
        Error::Cookie(cookie_store::CookieError::Expired).message(),
        "attempted to utilize an Expired Cookie"
    );
}

#[test]
fn data_is_handed_out() {
    assert_eq!(response(0).extract_data(), serde_json::Value::String("data".to_string()));
    assert_eq!(response(7).clone().code, 7);
}

fn parsed(data: Json) -> PlayerStatus {
    Xiaoai::player_status_parsed(XiaoaiResponse { code: 0, message: String::new(), data })
}

#[test]
fn the_status_opens_info() {
    let data = Json::parse("{\"code\":0,\"info\":\"{\\\"volume\\\":5}\"}").unwrap();
    let status = parsed(data);
    assert_eq!(status.raw.to_text(), "{\"code\":0,\"info\":{\"volume\":5}}");
}

#[test]
fn the_status_keeps_other_data() {
    for text in ["{\"info\":\"no json\"}", "{\"info\":3}", "{\"code\":0}", "[1]", "null", "\"info\""] {
        let status = parsed(Json::parse(text).unwrap());
        assert_eq!(status.raw.to_text(), text);
    }
}

#[test]
fn the_status_with_a_given_info() {
    let status = PlayerStatus::with_info(Json::object(), Some(Json::number(1)));
    assert_eq!(status.raw.to_text(), "{\"info\":1}");
    let status = PlayerStatus::with_info(Json::Null, Some(Json::number(1)));
    assert_eq!(status.raw.to_text(), "null");
    let status = PlayerStatus::with_info(Json::object(), None);
    assert_eq!(status.raw.to_text(), "{}");
}

fn data_with(info: Json) -> Json {
    Json::object().with("info", Json::text(&info.to_text()))
}

fn item(nlp: &str) -> Json {
    Json::object().with("nlp", Json::text(nlp))
}

const NLP: &str = "{\"meta\":{\"request_id\":\"r1\",\"timestamp\":1700000000123},\
    \"response\":{\"answer\":[{\"domain\":\"weather\",\"action\":\"query\",\
    \"content\":{\"to_speak\":\"晴\"},\"intention\":{\"query\":\"天气\"}},{}]}}";

#[test]
fn messages_are_read() {
    let items = Json::Array(vec![
        item(NLP),
        Json::object().with("nlp", Json::number(1)),
        Json::object(),
        item("{\"response\":{}}"),
        item("{\"response\":{\"answer\":[]}}"),
    ]);
    let data = data_with(Json::object().with("result", items));
    let read = messages::read_messages(&data).unwrap();
    assert_eq!(read.len(), 2);
    assert_eq!(read[0].request_id, "r1");
    assert_eq!(read[0].timestamp_ms, 1700000000123);
    assert_eq!(read[0].answers.len(), 2);
    assert_eq!(read[0].answers[0].domain, "weather");
    assert_eq!(read[0].answers[0].action, "query");
    assert_eq!(read[0].answers[0].content, "晴");
    assert_eq!(read[0].answers[0].question, "天气");
    assert_eq!(read[0].answers[1].domain, "");
    assert_eq!(read[1].request_id, "");
    assert_eq!(read[1].timestamp_ms, 0);
    assert_eq!(read[1].answers.len(), 0);
}

#[test]
fn messages_that_are_no_json_are_an_error() {
    let items = Json::Array(vec![item(NLP), item("{"), item("[")]);
    let data = data_with(Json::object().with("result", items));
    let report = Json::parse("{").unwrap_err();
    assert!(matches!(messages::read_messages(&data), Err(Error::Json(r)) if r == report));
    let data = Json::object().with("info", Json::text("["));
    assert!(matches!(messages::read_messages(&data), Err(Error::Json(_))));
}

#[test]
fn no_results_mean_no_messages() {
    assert_eq!(messages::read_messages(&Json::Null).unwrap().len(), 0);
    assert_eq!(messages::read_messages(&Json::object()).unwrap().len(), 0);
    let info = Json::object().with("result", Json::text("x"));
    assert_eq!(messages::read_messages(&data_with(info)).unwrap().len(), 0);
    assert_eq!(messages::read_results(&Json::object()).unwrap().len(), 0);
}

#[test]
fn devices_are_shown() {
    let device = DeviceInfo {
        device_id: "id".to_string(),
        name: "小爱".to_string(),
        hardware: "LX06".to_string(),
    };
    assert_eq!(device.clone().display(), "名称: 小爱\n设备 ID: id\n机型: LX06\n");
}

#[test]
fn answers_are_shown() {
    assert_eq!(response(-3).display(), "code: -3\nmessage: Success\ndata: \"data\"\n");
}
