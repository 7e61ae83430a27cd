//! What the service tells of devices, messages and conversations.

use vstd::prelude::*;

use crate::json;
use crate::json::{Json, JsonTree};

verus! {

/// The contents of some texts, in order.
pub open spec fn texts(list: Seq<String>) -> Seq<Seq<char>> {
    list.map_values(|s: String| s@)
}

/// A copy of some texts.
pub(crate) fn copy_texts(list: &Vec<String>) -> (copy: Vec<String>)
    ensures
        texts(copy@) == texts(list@),
        copy@.len() == list@.len(),
        forall|i: int| 0 <= i < list@.len() ==> (#[trigger] copy@[i])@ == list@[i]@,
{
    let mut copy: Vec<String> = Vec::new();
    for i in 0..list.len()
        invariant
            copy.len() == i,
            forall|j: int| 0 <= j < i ==> (#[trigger] copy[j])@ == list[j]@,
    {
        copy.push(list[i].clone());
    }
    assert(texts(copy@) =~= texts(list@));
    copy
}

/// What a player is told to do.
#[derive(Clone, Copy, Debug, PartialEq, Eq, Structural)]
pub enum PlayState {
    Play,
    Pause,
    Stop,
    /// Play where it is paused, pause where it plays.
    Toggle,
}

/// A device.
#[derive(Debug)]
pub struct DeviceInfo {
    /// The ID by which each request names the device that it is for.
    pub device_id: String,
    /// The name of the device.
    pub name: String,
    /// The model of the device.
    pub hardware: String,
}

/// The content of a [`DeviceInfo`].
pub struct DeviceView {
    pub device_id: Seq<char>,
    pub name: Seq<char>,
    pub hardware: Seq<char>,
}

impl View for DeviceInfo {
    type V = DeviceView;

    open spec fn view(&self) -> DeviceView {
        DeviceView { device_id: self.device_id@, name: self.name@, hardware: self.hardware@ }
    }
}

impl Clone for DeviceInfo {
    fn clone(&self) -> (r: Self)
        ensures
            r@ == self@,
            r.device_id@ == self.device_id@,
            r.name@ == self.name@,
            r.hardware@ == self.hardware@,
    {
        DeviceInfo {
            device_id: self.device_id.clone(),
            name: self.name.clone(),
            hardware: self.hardware.clone(),
        }
    }
}

impl DeviceInfo {
    /// The lines in which a device is shown.
    pub open spec fn shown(device: DeviceView) -> Seq<char> {
        "名称: "@ + device.name + "\n设备 ID: "@ + device.device_id + "\n机型: "@ + device.hardware
            + "\n"@
    }

    /// The lines in which this device is shown.
    pub fn display(&self) -> (r: String)
        ensures
            r@ == DeviceInfo::shown(self@),
            r@ == "名称: "@ + self.name@ + "\n设备 ID: "@ + self.device_id@ + "\n机型: "@
                + self.hardware@ + "\n"@,
    {
        let mut r: String = "名称: ".to_owned();
        r.append(self.name.as_str());
        r.append("\n设备 ID: ");
        r.append(self.device_id.as_str());
        r.append("\n机型: ");
        r.append(self.hardware.as_str());
        r.append("\n");
        r
    }
}

/// One answer in a [`MessageRecord`].
#[derive(Clone, Debug)]
pub struct AnswerRecord {
    /// The domain that the answer belongs to.
    pub domain: String,
    /// The action that was taken.
    pub action: String,
    /// What was said.
    pub content: String,
    /// What was asked.
    pub question: String,
}

/// The content of an [`AnswerRecord`].
pub struct AnswerView {
    pub domain: Seq<char>,
    pub action: Seq<char>,
    pub content: Seq<char>,
    pub question: Seq<char>,
}

impl View for AnswerRecord {
    type V = AnswerView;

    open spec fn view(&self) -> AnswerView {
        AnswerView {
            domain: self.domain@,
            action: self.action@,
            content: self.content@,
            question: self.question@,
        }
    }
}

/// A message that a speaker received, with its answers.
#[derive(Clone, Debug)]
pub struct MessageRecord {
    /// The ID of the request.
    pub request_id: String,
    /// When it was made, in milliseconds.
    pub timestamp_ms: i64,
    /// The answers to it.
    pub answers: Vec<AnswerRecord>,
}

/// The content of a [`MessageRecord`].
#[verifier::ext_equal]
pub struct MessageView {
    pub request_id: Seq<char>,
    pub timestamp_ms: i64,
    pub answers: Seq<AnswerView>,
}

impl View for MessageRecord {
    type V = MessageView;

    open spec fn view(&self) -> MessageView {
        MessageView {
            request_id: self.request_id@,
            timestamp_ms: self.timestamp_ms,
            answers: self.answers@.map_values(|answer: AnswerRecord| answer@),
        }
    }
}

/// A text that is spoken.
#[derive(Clone, Debug)]
pub struct TtsInfo {
    /// The text.
    pub text: String,
}

/// One answer in a [`Conversation`].
#[derive(Debug)]
pub struct ConversationAnswer {
    /// What was spoken, if anything.
    pub tts: Option<TtsInfo>,
}

impl View for ConversationAnswer {
    type V = Option<Seq<char>>;

    open spec fn view(&self) -> Option<Seq<char>> {
        match self.tts {
            Some(tts) => Some(tts.text@),
            None => None,
        }
    }
}

impl Clone for ConversationAnswer {
    fn clone(&self) -> (r: Self)
        ensures
            r@ == self@,
            match (r.tts, self.tts) {
                (Some(copy), Some(tts)) => copy.text@ == tts.text@,
                (None, None) => true,
                _ => false,
            },
    {
        match &self.tts {
            Some(tts) => ConversationAnswer { tts: Some(TtsInfo { text: tts.text.clone() }) },
            None => ConversationAnswer { tts: None },
        }
    }
}

/// A conversation with a speaker.
#[derive(Debug)]
pub struct Conversation {
    /// When it took place.
    pub time: i64,
    /// What was asked.
    pub query: String,
    /// What was answered.
    pub answers: Vec<ConversationAnswer>,
}

/// The content of a [`Conversation`].
#[verifier::ext_equal]
pub struct ConversationView {
    pub time: i64,
    pub query: Seq<char>,
    pub answers: Seq<Option<Seq<char>>>,
}

impl View for Conversation {
    type V = ConversationView;

    open spec fn view(&self) -> ConversationView {
        ConversationView {
            time: self.time,
            query: self.query@,
            answers: self.answers@.map_values(|answer: ConversationAnswer| answer@),
        }
    }
}

impl Clone for Conversation {
    fn clone(&self) -> (r: Self)
        ensures
            r@ == self@,
            r.time == self.time,
            r.query@ == self.query@,
            r.answers@.len() == self.answers@.len(),
            forall|i: int|
                0 <= i < r.answers@.len() ==> (#[trigger] r.answers@[i])@ == self.answers@[i]@,
    {
        let mut answers: Vec<ConversationAnswer> = Vec::new();
        for i in 0..self.answers.len()
            invariant
                answers.len() == i,
                forall|j: int| 0 <= j < i ==> (#[trigger] answers[j])@ == self.answers[j]@,
        {
            answers.push(self.answers[i].clone());
        }
        let r: Conversation = Conversation {
            time: self.time,
            query: self.query.clone(),
            answers,
        };
        assert(r@.answers =~= self@.answers);
        r
    }
}

/// The contents of some conversations, in order.
pub open spec fn conversation_views(list: Seq<Conversation>) -> Seq<ConversationView> {
    list.map_values(|conversation: Conversation| conversation@)
}

/// The records in the data of a conversation answer.
#[derive(Clone, Debug)]
pub struct ConversationData {
    pub records: Vec<Conversation>,
}

/// The status of a player.
#[derive(Clone, Debug)]
pub struct PlayerStatus {
    /// The data of the answer.
    pub raw: Json,
}

/// The status that the data of an answer tells, given what its member `info` reads as, if that is
/// JSON text: it then stands in the place of the text.
pub open spec fn status_with(data: JsonTree, info: Option<JsonTree>) -> JsonTree {
    match (data, info) {
        (JsonTree::Object(members), Some(info)) => JsonTree::Object(members.insert("info"@, info)),
        _ => data,
    }
}

/// What the member `info` of the data of an answer reads as, if that is JSON text.
pub open spec fn info_read(data: JsonTree) -> Option<JsonTree> {
    match data.member("info"@) {
        Some(JsonTree::Text(info)) => match json::json_read(info) {
            Ok(tree) => Some(tree),
            Err(_) => None,
        },
        _ => None,
    }
}

/// The status that the data of an answer tells: where its member `info` is JSON text, what that
/// text reads as stands in its place.
pub open spec fn status_tree(data: JsonTree) -> JsonTree {
    status_with(data, info_read(data))
}

impl PlayerStatus {
    /// The status that the data of an answer tells, given what its member `info` reads as.
    pub fn with_info(data: Json, info: Option<Json>) -> (status: PlayerStatus)
        ensures
            status.raw@ == status_with(
                data@,
                match info {
                    Some(info) => Some(info@),
                    None => None,
                },
            ),
            match (data@, info) {
                (JsonTree::Object(members), Some(info)) => status.raw@ == JsonTree::Object(
                    members.insert("info"@, info@),
                ),
                _ => status.raw@ == data@,
            },
    {
        match info {
            Some(info) => if data.is_object() {
                PlayerStatus { raw: data.with("info", info) }
            } else {
                PlayerStatus { raw: data }
            },
            None => PlayerStatus { raw: data },
        }
    }
}

/// Whatever `info` reads as, the status keeps the other members of the data, and data that is no
/// object is kept as it is.
pub proof fn law_status_keeps_the_rest(data: JsonTree, key: Seq<char>)
    requires
        key != "info"@,
    ensures
        status_tree(data).member(key) == data.member(key),
        !(data is Object) ==> status_tree(data) == data,
{
}

/// Where the member `info` of the data is a text that reads as JSON, the status has all of what it
/// reads as under `info`; where it cannot be read, is no text or is not there, the status is the
/// data as it is.
pub proof fn law_status_opens_info(members: Map<Seq<char>, JsonTree>)
    ensures
        ({
            let data = JsonTree::Object(members);
            let status = status_tree(data);
            if members.contains_key("info"@) && members["info"@] is Text {
                match json::json_read(members["info"@]->Text_0) {
                    Ok(tree) => match status {
                        JsonTree::Object(told) => told.contains_key("info"@) && told["info"@]
                            == tree && told.remove("info"@) == members.remove("info"@),
                        _ => false,
                    },
                    Err(_) => status == data,
                }
            } else {
                status == data
            }
        }),
        forall|tree: JsonTree| !(tree is Object) ==> #[trigger] status_tree(tree) == tree,
{
    let data = JsonTree::Object(members);
    if let JsonTree::Object(told) = status_tree(data) {
        assert(told.remove("info"@) =~= members.remove("info"@));
    }
}

/// The content of a device is its ID, its name and its model, each in its place.
pub proof fn law_device_content(device: DeviceInfo)
    ensures
        device@.device_id == device.device_id@,
        device@.name == device.name@,
        device@.hardware == device.hardware@,
{
}

/// The content of a message is its request, its time and the contents of its answers, in order.
pub proof fn law_message_content(message: MessageRecord, i: int)
    ensures
        message@.request_id == message.request_id@,
        message@.timestamp_ms == message.timestamp_ms,
        message@.answers.len() == message.answers@.len(),
        0 <= i < message.answers@.len() ==> {
            let told = message@.answers[i];
            let answer = message.answers@[i];
            &&& told.domain == answer.domain@
            &&& told.action == answer.action@
            &&& told.content == answer.content@
            &&& told.question == answer.question@
        },
{
}

/// The content of a conversation is its time, its query and what was spoken, in order.
pub proof fn law_conversation_content(conversation: Conversation, i: int)
    ensures
        conversation@.time == conversation.time,
        conversation@.query == conversation.query@,
        conversation@.answers.len() == conversation.answers@.len(),
        0 <= i < conversation.answers@.len() ==> match conversation.answers@[i].tts {
            Some(tts) => conversation@.answers[i] == Some(tts.text@),
            None => conversation@.answers[i] is None,
        },
{
}

/// The contents of a list of texts, or of conversations, are those of its elements, in order.
pub proof fn law_list_content(list: Seq<String>, conversations: Seq<Conversation>, i: int)
    ensures
        texts(list).len() == list.len(),
        0 <= i < list.len() ==> texts(list)[i] == list[i]@,
        conversation_views(conversations).len() == conversations.len(),
        0 <= i < conversations.len() ==> conversation_views(conversations)[i]
            == conversations[i]@,
{
}

} // verus!
