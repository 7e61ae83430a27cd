use miai::json::Json;
use miai::login::{self, AuthResponse, Login, LoginResponse};
use miai::request::Request;
use miai::{util, Error, Xiaoai};

fn get_url(request: Result<Request, Error>) -> String {
    match request.unwrap() {
        Request::Get { url } => url,
        other => panic!("{:?}", other),
    }
}

fn auth_response() -> AuthResponse {
    AuthResponse {
        location: "https://api2.mina.mi.com/sts?d=1".to_string(),
        nonce: Some(Json::number(123)),
        ssecurity: Some("secret".to_string()),
        notification_url: None,
    }
}

fn a_login() -> Login {
    Login::with_device_id("someone", b"password", "ABCDEFGH01234567").unwrap()
}

#[test]
fn passwords_are_hashed() {
    assert_eq!(login::hash_password(b"password"), "5F4DCC3B5AA765D61D8327DEB882CF99");
    assert_eq!(login::hash_password(b""), "D41D8CD98F00B204E9800998ECF8427E");
    assert_eq!(login::hash_password("密码".as_bytes()), "A8105204604A0B11E916F3879AAE3B0B");
    assert_eq!(login::to_capital_hex(&[0, 10, 255]), "000AFF");
}

#[test]
fn nonces_are_signed() {
    assert_eq!(login::sign_nonce("123", "secret"), "ktOMobA9fEl8pnCjbMztsFz2vXE=");
    assert_eq!(login::sign_nonce("nonce", "c2VjcmV0"), "ik9klZxkQ7A/dPJlPSivjHoCA0Q=");
    assert_eq!(login::sign_nonce("", ""), "KZ3kry7uO+G54rr9lvqP0n9sENE=");
    assert_eq!(login::sign_nonce("n", "s").len(), 28);
}

#[test]
fn a_nonce_is_signed_as_text() {
    let mut payload = auth_response();
    assert_eq!(login::client_sign(&payload).unwrap(), login::sign_nonce("123", "secret"));
    payload.nonce = Some(Json::text("nonce"));
    assert_eq!(login::client_sign(&payload).unwrap(), login::sign_nonce("nonce", "secret"));
    payload.nonce = Some(Json::array_of(Json::text("a")));
    assert_eq!(login::client_sign(&payload).unwrap(), login::sign_nonce("[\"a\"]", "secret"));
}

#[test]
fn without_nonce_or_secret_there_is_no_signature() {
    let mut payload = auth_response();
    payload.nonce = None;
    assert_eq!(login::client_sign(&payload).unwrap_err().message(), "empty host");
    let mut payload = auth_response();
    payload.ssecurity = None;
    assert!(matches!(
        login::client_sign(&payload),
        Err(Error::Url(url::ParseError::EmptyHost))
    ));
    assert!(matches!(
        a_login().get_token(&payload),
        Err(Error::Url(url::ParseError::EmptyHost))
    ));
}

#[test]
fn the_first_step() {
    assert_eq!(
        get_url(a_login().raw_login()),
        "https://account.xiaomi.com/pass/serviceLogin?sid=micoapi&_json=true"
    );
}

#[test]
fn the_second_step() {
    let response = LoginResponse {
        qs: "%3Fsid%3Dmicoapi".to_string(),
        sid: "micoapi".to_string(),
        _sign: "sign".to_string(),
        callback: "https://api2.mina.mi.com/sts".to_string(),
    };
    match a_login().raw_auth(&response).unwrap() {
        Request::Post { url, form } => {
            assert_eq!(url, "https://account.xiaomi.com/pass/serviceLoginAuth2");
            let mut fields = form.into_fields();
            fields.sort();
            let expected = [
                ("_json", "true"),
                ("_sign", "sign"),
                ("callback", "https://api2.mina.mi.com/sts"),
                ("hash", "5F4DCC3B5AA765D61D8327DEB882CF99"),
                ("qs", "%3Fsid%3Dmicoapi"),
                ("sid", "micoapi"),
                ("user", "someone"),
            ];
            let expected: Vec<(String, String)> =
                expected.iter().map(|(n, v)| (n.to_string(), v.to_string())).collect();
            assert_eq!(fields, expected);
        }
        other => panic!("{:?}", other),
    }
}

#[test]
fn the_third_step_takes_the_signature_along() {
    assert_eq!(
        get_url(a_login().get_token(&auth_response())),
        "https://api2.mina.mi.com/sts?d=1&clientSign=ktOMobA9fEl8pnCjbMztsFz2vXE%3D"
    );
}

#[test]
fn the_third_step_prefers_the_notification_address() {
    let mut response = auth_response();
    response.notification_url = Some("https://account.xiaomi.com/fe/x?y=1".to_string());
    assert_eq!(get_url(a_login().get_token(&response)), "https://account.xiaomi.com/fe/x?y=1");
    response.notification_url = Some("/identity/x".to_string());
    assert_eq!(get_url(a_login().get_token(&response)), "https://account.xiaomi.com/identity/x");
    response.notification_url = Some("next".to_string());
    assert_eq!(get_url(a_login().get_token(&response)), "https://account.xiaomi.com/pass/next");
    response.nonce = None;
    assert_eq!(get_url(a_login().get_token(&response)), "https://account.xiaomi.com/pass/next");
}

#[test]
fn addresses_that_are_none() {
    let mut response = auth_response();
    response.location = String::new();
    assert!(matches!(
        a_login().get_token(&response),
        Err(Error::Url(url::ParseError::RelativeUrlWithoutBase))
    ));
    response.notification_url = Some("http://".to_string());
    assert!(matches!(
        a_login().get_token(&response),
        Err(Error::Url(url::ParseError::EmptyHost))
    ));
}

#[test]
fn bodies_begin_after_a_prefix() {
    let body = login::read_body(b"&&&START&&&{\"qs\":\"q\"}").unwrap();
    assert_eq!(body.get("qs").unwrap().as_str(), Some("q"));
    assert!(matches!(login::read_body(b"&&&START&&&"), Err(Error::Json(_))));
}

#[test]
fn token_bodies_may_be_anything() {
    assert_eq!(login::read_token_body("").to_text(), "{}");
    assert_eq!(login::read_token_body(" \n").to_text(), "{}");
    assert_eq!(login::read_token_body("ok").to_text(), "{}");
    assert_eq!(login::read_token_body(" [1] ").to_text(), "[1]");
    assert_eq!(login::or_empty(Ok(Json::number(1))).to_text(), "1");
    assert_eq!(login::or_empty(Err("no".to_string())).to_text(), "{}");
}

#[test]
fn a_login_begins_with_cookies() {
    let store = a_login().into_cookie_store();
    let value = |name: &str| {
        store.get("account.xiaomi.com", "/", name).map(|cookie| cookie.value().to_string())
    };
    assert_eq!(value("sdkVersion"), Some("3.9".to_string()));
    assert_eq!(value("deviceId"), Some("ABCDEFGH01234567".to_string()));
    assert_eq!(store.iter_any().count(), 2);
}

#[test]
fn a_login_draws_a_device_id() {
    let login = Login::new("someone", b"password").unwrap();
    let id = login.cookies().get("account.xiaomi.com", "/", "deviceId").unwrap().value().to_string();
    assert_eq!(id.len(), 16);
    assert!(id.chars().all(|c| c.is_ascii_uppercase() || c.is_ascii_digit()));
    let other = Login::new("someone", b"password").unwrap();
    let other = other.cookies().get("account.xiaomi.com", "/", "deviceId").unwrap();
    assert_ne!(id, other.value());
}

#[test]
fn requests_go_on_with_the_cookies_of_the_login() {
    let (xiaoai, store) = Xiaoai::from_login(a_login()).unwrap();
    assert_eq!(xiaoai.server(), "https://api2.mina.mi.com/");
    assert_eq!(store.iter_any().count(), 2);
}

#[test]
fn random_ids_have_their_form() {
    assert_eq!(util::random_id(0), "");
    assert_eq!(util::random_id(64).chars().filter(|c| c.is_ascii_alphanumeric()).count(), 64);
    assert_eq!(util::random_device_id().len(), 16);
    let id = util::random_request_id();
    assert!(id.starts_with("app_ios_"));
    assert_eq!(id.len(), 38);
    assert_ne!(id, util::random_request_id());
}
