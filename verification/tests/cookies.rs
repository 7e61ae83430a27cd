use cookie_store::{CookieDomain, CookieStore, RawCookie};
use miai::login::Login;
use miai::Xiaoai;

type Told = (String, String, String, String, bool, String);

fn sorted(store: &CookieStore) -> Vec<Told> {
    let mut cookies: Vec<Told> = store
        .iter_any()
        .map(|c| {
            (
                String::from(&c.domain),
                String::from(&c.path),
                c.name().to_string(),
                c.value().to_string(),
                matches!(c.domain, CookieDomain::HostOnly(_)),
                format!("{:?}", c.expires),
            )
        })
        .collect();
    cookies.sort();
    cookies
}

#[test]
fn what_is_saved_is_loaded() {
    let login = Login::with_device_id("someone", b"password", "ABCDEFGH01234567").unwrap();
    let mut store = login.into_cookie_store();
    let link = url::Url::parse("https://api2.mina.mi.com/sts").unwrap();
    let cookies = [
        "serviceToken=a/b+c==; Path=/",
        "userId=42; Domain=mi.com; Path=/x; Expires=Tue, 03 Aug 2100 00:38:37 GMT",
        "gone=\"quoted value\"; Expires=Tue, 03 Aug 1999 00:38:37 GMT; Secure; HttpOnly",
    ];
    for cookie in cookies {
        let _ = store.insert_raw(&RawCookie::parse(cookie).unwrap(), &link);
    }
    let bytes = Xiaoai::save(&store).unwrap();
    let loaded = Xiaoai::load(&bytes).unwrap();
    assert_eq!(sorted(&loaded), sorted(&store));
    assert_eq!(sorted(&loaded).len(), 4);
    let again = Xiaoai::load(&Xiaoai::save(&loaded).unwrap()).unwrap();
    assert_eq!(sorted(&again), sorted(&loaded));
}

#[test]
fn saved_cookies_are_plain_json() {
    let login = Login::with_device_id("someone", b"password", "ABCDEFGH01234567").unwrap();
    let bytes = Xiaoai::save(login.cookies()).unwrap();
    let text = String::from_utf8(bytes).unwrap();
    assert!(text.contains("sdkVersion=3.9"));
    assert!(text.contains("deviceId=ABCDEFGH01234567"));
    assert!(miai::json::Json::parse(&text).is_ok());
}

#[test]
fn nothing_is_loaded_from_what_is_no_state() {
    assert!(Xiaoai::load(b"").is_err());
    assert!(Xiaoai::load(b"{}").is_err());
    assert_eq!(sorted(&Xiaoai::load(b"[]").unwrap()).len(), 0);
}
