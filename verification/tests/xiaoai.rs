use miai::form::Form;
use miai::request::Request;
use miai::{Error, PlayState, Xiaoai};

fn fields(form: Form) -> Vec<(String, String)> {
    let mut fields = form.into_fields();
    fields.sort();
    fields
}

fn field(fields: &[(String, String)], name: &str) -> String {
    let found: Vec<&(String, String)> = fields.iter().filter(|f| f.0 == name).collect();
    assert_eq!(found.len(), 1);
    found[0].1.clone()
}

fn check_call(request: Result<Request, Error>, path: &str, method: &str, message: &str) {
    match request.unwrap() {
        Request::Post { url, form } => {
            assert_eq!(url, "https://api2.mina.mi.com/remote/ubus");
            let fields = fields(form);
            assert_eq!(fields.len(), 5);
            assert_eq!(field(&fields, "deviceId"), "device");
            assert_eq!(field(&fields, "path"), path);
            assert_eq!(field(&fields, "method"), method);
            assert_eq!(field(&fields, "message"), message);
            assert!(field(&fields, "requestId").starts_with("app_ios_"));
            assert_eq!(field(&fields, "requestId").len(), 38);
        }
        other => panic!("{:?}", other),
    }
}

#[test]
fn speaking() {
    let xiaoai = Xiaoai::new().unwrap();
    check_call(xiaoai.tts("device", "你\"好"), "mibrain", "text_to_speech", "{\"text\":\"你\\\"好\"}");
}

#[test]
fn playing_an_address() {
    let xiaoai = Xiaoai::new().unwrap();
    check_call(
        xiaoai.play_url("device", "http://x/y.mp3"),
        "mediaplayer",
        "player_play_url",
        "{\"media\":\"app_ios\",\"type\":3,\"url\":\"http://x/y.mp3\"}",
    );
}

#[test]
fn playing_music() {
    let xiaoai = Xiaoai::new().unwrap();
    let message = "{\"music\":{\"payload\":{\"audio_items\":[{\"item_id\":{\"audio_id\":\
        \"1582971365183456177\",\"cp\":{\"album_id\":\"-1\",\"episode_index\":0,\"id\":\
        \"355454500\",\"name\":\"xiaowei\"}},\"stream\":{\"url\":\"http://x/y.mp3\"}}],\
        \"list_params\":{\"listId\":\"-1\",\"loadmore_offset\":0,\"origin\":\"xiaowei\",\
        \"type\":\"MUSIC\"}},\"play_behavior\":\"REPLACE_ALL\"},\"startaudioid\":\
        \"1582971365183456177\"}";
    check_call(
        xiaoai.play_music("device", "http://x/y.mp3"),
        "mediaplayer",
        "player_play_music",
        message,
    );
}

#[test]
fn setting_the_volume() {
    let xiaoai = Xiaoai::new().unwrap();
    check_call(
        xiaoai.set_volume("device", u32::MAX),
        "mediaplayer",
        "player_set_volume",
        "{\"media\":\"app_ios\",\"volume\":4294967295}",
    );
}

#[test]
fn asking() {
    let xiaoai = Xiaoai::new().unwrap();
    check_call(
        xiaoai.nlp("device", "几点了"),
        "mibrain",
        "ai_service",
        "{\"nlp\":1,\"nlp_text\":\"几点了\",\"tts\":1}",
    );
}

#[test]
fn asking_for_the_status() {
    let xiaoai = Xiaoai::new().unwrap();
    check_call(
        xiaoai.player_status("device"),
        "mediaplayer",
        "player_get_play_status",
        "{\"media\":\"app_ios\"}",
    );
}

#[test]
fn setting_the_play_state() {
    let xiaoai = Xiaoai::new().unwrap();
    let states = [
        (PlayState::Play, "play"),
        (PlayState::Pause, "pause"),
        (PlayState::Stop, "stop"),
        (PlayState::Toggle, "toggle"),
    ];
    for (state, word) in states {
        check_call(
            xiaoai.set_play_state("device", state),
            "mediaplayer",
            "player_play_operation",
            &format!("{{\"action\":\"{}\",\"media\":\"app_ios\"}}", word),
        );
    }
}

#[test]
fn asking_for_messages() {
    let xiaoai = Xiaoai::new().unwrap();
    check_call(xiaoai.get_messages("device"), "mibrain", "nlp_result_get", "{}");
}

#[test]
fn a_call_of_its_own() {
    let xiaoai = Xiaoai::new().unwrap();
    check_call(xiaoai.ubus_call("device", "p", "m", "x"), "p", "m", "x");
}

#[test]
fn fetching_under_a_request_id() {
    let xiaoai = Xiaoai::new().unwrap();
    match xiaoai.get_as("admin/v2/device_list?master=0", "app_ios_ä x").unwrap() {
        Request::Get { url } => assert_eq!(
            url,
            "https://api2.mina.mi.com/admin/v2/device_list?master=0&requestId=app_ios_%C3%A4+x"
        ),
        other => panic!("{:?}", other),
    }
}

#[test]
fn asking_for_the_devices() {
    let xiaoai = Xiaoai::new().unwrap();
    match xiaoai.raw_device_info().unwrap() {
        Request::Get { url } => {
            let prefix = "https://api2.mina.mi.com/admin/v2/device_list?master=0&requestId=app_ios_";
            assert!(url.starts_with(prefix));
            assert_eq!(url.len(), prefix.len() + 30);
        }
        other => panic!("{:?}", other),
    }
}

#[test]
fn addresses_that_cannot_be_joined() {
    let xiaoai = Xiaoai::new().unwrap();
    assert!(matches!(xiaoai.get("http://"), Err(Error::Url(url::ParseError::EmptyHost))));
    assert!(matches!(
        xiaoai.post("http://x:99999", Form::new()),
        Err(Error::Url(url::ParseError::InvalidPort))
    ));
}

#[test]
fn sending_a_form() {
    let xiaoai = Xiaoai::new().unwrap();
    let mut form = Form::new();
    form.insert("a", "1");
    form.insert("requestId", "mine");
    form.insert("a", "2");
    match xiaoai.post_as("x", form, "id").unwrap() {
        Request::Post { url, form } => {
            assert_eq!(url, "https://api2.mina.mi.com/x");
            let expected =
                vec![("a".to_string(), "2".to_string()), ("requestId".to_string(), "id".to_string())];
            assert_eq!(fields(form), expected);
        }
        other => panic!("{:?}", other),
    }
}
