use cookie_store::{CookieStore, RawCookie};
use miai::conversations;
use miai::json::Json;
use miai::request::Request;
use miai::{Conversation, ConversationData, ConversationResponse, Error, Xiaoai};

fn parts(request: Request) -> (String, String) {
    match request {
        Request::GetWithCookie { url, cookie } => (url, cookie),
        other => panic!("{:?}", other),
    }
}

fn pair(name: &str, value: &str) -> (String, String) {
    (name.to_string(), value.to_string())
}

#[test]
fn conversations_are_asked_for() {
    let cookies = vec![pair("userId", "42"), pair("x", "y"), pair("serviceToken", "t")];
    let request =
        conversations::conversation_request("device", "LX06", Some(5), 1700000000123, &cookies);
    let (url, cookie) = parts(request);
    assert_eq!(
        url,
        "https://userprofile.mina.mi.com/device_profile/v2/conversation?source=dialogu\
         &hardware=LX06&timestamp=1700000000123&limit=5"
    );
    assert_eq!(cookie, "deviceId=device; serviceToken=t; userId=42");
}

#[test]
fn two_conversations_unless_said_otherwise() {
    let cookies = Vec::new();
    let (url, cookie) = parts(conversations::conversation_request("d", "h", None, 0, &cookies));
    assert!(url.ends_with("&hardware=h&timestamp=0&limit=2"));
    assert_eq!(cookie, "deviceId=d; serviceToken=; userId=");
}

#[test]
fn the_last_cookie_of_a_name_counts() {
    let cookies = vec![pair("userId", "1"), pair("userId", "2")];
    let (_, cookie) = parts(conversations::conversation_request("d", "h", None, 0, &cookies));
    assert_eq!(cookie, "deviceId=d; serviceToken=; userId=2");
}

#[test]
fn credentials_come_from_the_store() {
    let mut store = CookieStore::new(None);
    let link = url::Url::parse("https://api2.mina.mi.com/sts").unwrap();
    for cookie in ["serviceToken=t; Path=/", "userId=42; Path=/"] {
        store.insert_raw(&RawCookie::parse(cookie).unwrap(), &link).unwrap();
    }
    let elsewhere = url::Url::parse("https://account.xiaomi.com/").unwrap();
    store.insert_raw(&RawCookie::parse("userId=43; Path=/").unwrap(), &elsewhere).unwrap();
    let xiaoai = Xiaoai::new().unwrap();
    let request = xiaoai.get_conversations("device", "LX06", Some(1), 7, &store).unwrap();
    let (_, cookie) = parts(request);
    assert_eq!(cookie, "deviceId=device; serviceToken=t; userId=42");
}

fn cookie_for(cookies: &[(&str, &str)]) -> String {
    let mut store = CookieStore::new(None);
    for (cookie, link) in cookies {
        let link = url::Url::parse(link).unwrap();
        store.insert_raw(&RawCookie::parse(cookie.to_string()).unwrap(), &link).unwrap();
    }
    let xiaoai = Xiaoai::new().unwrap();
    parts(xiaoai.get_conversations("d", "h", None, 0, &store).unwrap()).1
}

#[test]
fn credentials_for_other_hosts_are_not_sent() {
    let cookies = [
        ("userId=1; Path=/", "https://account.xiaomi.com/"),
        ("userId=2; Path=/", "https://mina.mi.com/"),
        ("userId=3; Path=/other", "https://api2.mina.mi.com/"),
        ("serviceToken=4; Domain=xiaomi.com; Path=/", "https://account.xiaomi.com/"),
    ];
    assert_eq!(cookie_for(&cookies), "deviceId=d; serviceToken=; userId=");
}

#[test]
fn credentials_for_the_domain_above_are_sent() {
    let cookies = [
        ("userId=1; Domain=mi.com; Path=/", "https://account.mi.com/"),
        ("serviceToken=2; Domain=mina.mi.com; Path=/", "https://api2.mina.mi.com/sts"),
        ("userId=3; Path=/", "https://account.mi.com/"),
    ];
    assert_eq!(cookie_for(&cookies), "deviceId=d; serviceToken=2; userId=1");
}

#[test]
fn no_more_conversations_than_asked_for() {
    let data = || ConversationData {
        records: [3, 2, 1]
            .into_iter()
            .map(|time| Conversation { time, query: String::new(), answers: vec![] })
            .collect(),
    };
    let times = |limit| -> Vec<i64> {
        conversations::first_records(data(), limit).iter().map(|c| c.time).collect()
    };
    assert_eq!(times(Some(1)), vec![3]);
    assert_eq!(times(None), vec![3, 2]);
    assert_eq!(times(Some(3)), vec![3, 2, 1]);
    assert_eq!(times(Some(u32::MAX)), vec![3, 2, 1]);
    assert!(times(Some(0)).is_empty());
}

#[test]
fn statuses() {
    assert!(conversations::is_success(200));
    assert!(conversations::is_success(299));
    assert!(!conversations::is_success(199));
    assert!(!conversations::is_success(300));
    match conversations::status_error(401, "401 Unauthorized", "no") {
        Error::Api(response) => {
            assert_eq!(response.code, 401);
            assert_eq!(response.message, "HTTP 401 Unauthorized: no");
            assert_eq!(response.data.to_text(), "null");
        }
        other => panic!("{:?}", other),
    }
}

#[test]
fn records_are_text_or_an_object() {
    let records = |data: Json| ConversationResponse { code: 0, data }.records_text().unwrap();
    assert_eq!(records(Json::text("{\"records\":[]}")), Some("{\"records\":[]}".to_string()));
    let object = Json::object().with("records", Json::Array(vec![]));
    assert_eq!(records(object), Some("{\"records\":[]}".to_string()));
    assert_eq!(records(Json::Null), None);
    assert_eq!(records(Json::Array(vec![])), None);
}

#[test]
fn a_code_other_than_zero_is_an_error() {
    let response = ConversationResponse { code: -5, data: Json::text("why") };
    match response.records_text() {
        Err(Error::Api(response)) => {
            assert_eq!(response.code, -5);
            assert_eq!(response.message, "Conversation API 返回错误码: -5");
            assert_eq!(response.data.to_text(), "\"why\"");
        }
        other => panic!("{:?}", other),
    }
}
