//! Reading the messages that a speaker received.

use vstd::prelude::*;

use crate::error::Error;
use crate::json;
use crate::json::{Json, JsonTree};
use crate::records::{AnswerRecord, AnswerView, MessageRecord, MessageView};

verus! {

/// The member `inner` of the member `outer`.
pub open spec fn inner_member(tree: JsonTree, outer: Seq<char>, inner: Seq<char>) -> Option<
    JsonTree,
> {
    match tree.member(outer) {
        Some(member) => member.member(inner),
        None => None,
    }
}

/// The text of a value, empty where there is none.
pub open spec fn text_or_empty(tree: Option<JsonTree>) -> Seq<char> {
    match tree {
        Some(JsonTree::Text(text)) => text,
        _ => Seq::empty(),
    }
}

/// The integer of a value, 0 where there is none.
pub open spec fn integer_or_zero(tree: Option<JsonTree>) -> i64 {
    match tree {
        Some(tree) => match tree.integer() {
            Some(n) => n,
            None => 0,
        },
        None => 0,
    }
}

/// The answer that one element of an `answer` array tells.
pub open spec fn answer_told(tree: JsonTree) -> AnswerView {
    AnswerView {
        domain: text_or_empty(tree.member("domain"@)),
        action: text_or_empty(tree.member("action"@)),
        content: text_or_empty(inner_member(tree, "content"@, "to_speak"@)),
        question: text_or_empty(inner_member(tree, "intention"@, "query"@)),
    }
}

/// The message that an NLP result tells; none where it has no array of answers.
pub open spec fn message_told(nlp: JsonTree) -> Option<MessageView> {
    match inner_member(nlp, "response"@, "answer"@) {
        Some(JsonTree::Array(answers)) => Some(
            MessageView {
                request_id: text_or_empty(inner_member(nlp, "meta"@, "request_id"@)),
                timestamp_ms: integer_or_zero(inner_member(nlp, "meta"@, "timestamp"@)),
                answers: answers.map_values(|answer: JsonTree| answer_told(answer)),
            },
        ),
        _ => None,
    }
}

/// The message of one item. Its member `nlp` is JSON text; an item without such a text is passed
/// over, and one whose text is not JSON is an error.
pub open spec fn item_told(item: JsonTree) -> Result<Option<MessageView>, Seq<char>> {
    match item.member("nlp"@) {
        Some(JsonTree::Text(nlp)) => match json::json_read(nlp) {
            Ok(nlp) => Ok(message_told(nlp)),
            Err(report) => Err(report),
        },
        _ => Ok(None),
    }
}

/// The messages of some items, in order, or the first error among them.
pub open spec fn items_told(items: Seq<JsonTree>) -> Result<Seq<MessageView>, Seq<char>>
    decreases items.len(),
{
    if items.len() == 0 {
        Ok(Seq::empty())
    } else {
        match items_told(items.drop_last()) {
            Ok(messages) => match item_told(items.last()) {
                Ok(Some(message)) => Ok(messages.push(message)),
                Ok(None) => Ok(messages),
                Err(report) => Err(report),
            },
            Err(report) => Err(report),
        }
    }
}

/// The messages that an answer tells, given what its JSON text reads as.
pub open spec fn results_told(info: JsonTree) -> Result<Seq<MessageView>, Seq<char>> {
    match info.member("result"@) {
        Some(JsonTree::Array(items)) => items_told(items),
        _ => Ok(Seq::empty()),
    }
}

/// The messages that the data of an answer tells. Its member `info` is JSON text; data without
/// such a text tells of none.
pub open spec fn messages_told(data: JsonTree) -> Result<Seq<MessageView>, Seq<char>> {
    match data.member("info"@) {
        Some(JsonTree::Text(info)) => match json::json_read(info) {
            Ok(info) => results_told(info),
            Err(report) => Err(report),
        },
        _ => Ok(Seq::empty()),
    }
}

/// The contents of some messages, in order.
pub open spec fn message_views(messages: Seq<MessageRecord>) -> Seq<MessageView> {
    messages.map_values(|message: MessageRecord| message@)
}

fn member_within<'a>(tree: &'a Json, outer: &str, inner: &str) -> (r: Option<&'a Json>)
    ensures
        match r {
            Some(json) => inner_member(tree@, outer@, inner@) == Some(json@),
            None => inner_member(tree@, outer@, inner@) is None,
        },
{
    match tree.get(outer) {
        Some(member) => member.get(inner),
        None => None,
    }
}

fn text_of(tree: Option<&Json>) -> (r: String)
    ensures
        r@ == text_or_empty(
            match tree {
                Some(json) => Some(json@),
                None => None,
            },
        ),
{
    match tree {
        Some(json) => match json.as_str() {
            Some(text) => text.to_owned(),
            None => String::new(),
        },
        None => String::new(),
    }
}

/// Reads one answer.
pub fn answer_of(tree: &Json) -> (answer: AnswerRecord)
    ensures
        answer@ == answer_told(tree@),
{
    AnswerRecord {
        domain: text_of(tree.get("domain")),
        action: text_of(tree.get("action")),
        content: text_of(member_within(tree, "content", "to_speak")),
        question: text_of(member_within(tree, "intention", "query")),
    }
}

/// Reads the message that an NLP result tells.
pub fn message_of(nlp: &Json) -> (r: Option<MessageRecord>)
    ensures
        match r {
            Some(message) => message_told(nlp@) == Some(message@),
            None => message_told(nlp@) is None,
        },
{
    let request_id: String = text_of(member_within(nlp, "meta", "request_id"));
    let timestamp_ms: i64 = match member_within(nlp, "meta", "timestamp") {
        Some(timestamp) => match timestamp.as_i64() {
            Some(n) => n,
            None => 0,
        },
        None => 0,
    };
    let told: &Vec<Json> = match member_within(nlp, "response", "answer") {
        Some(answer) => match answer.as_array() {
            Some(told) => told,
            None => {
                return None;
            },
        },
        None => {
            return None;
        },
    };
    let mut answers: Vec<AnswerRecord> = Vec::new();
    for i in 0..told.len()
        invariant
            answers.len() == i,
            forall|j: int| 0 <= j < i ==> (#[trigger] answers[j])@ == answer_told(told[j]@),
    {
        answers.push(answer_of(&told[i]));
    }
    let message: MessageRecord = MessageRecord { request_id, timestamp_ms, answers };
    assert(message@.answers =~= json::item_trees(told@).map_values(
        |answer: JsonTree| answer_told(answer),
    ));
    Some(message)
}

/// Whether a result is the one that is told.
pub open spec fn are_messages(
    r: Result<Vec<MessageRecord>, Error>,
    told: Result<Seq<MessageView>, Seq<char>>,
) -> bool {
    match (r, told) {
        (Ok(messages), Ok(expected)) => message_views(messages@) == expected,
        (Err(Error::Json(report)), Err(expected)) => report@ == expected,
        _ => false,
    }
}

/// Reads the messages that the data of an answer tells.
pub fn read_messages(data: &Json) -> (r: Result<Vec<MessageRecord>, Error>)
    ensures
        are_messages(r, messages_told(data@)),
{
    let info: Option<&str> = match data.get("info") {
        Some(info) => info.as_str(),
        None => None,
    };
    match info {
        Some(info) => match Json::parse(info) {
            Ok(info) => read_results(&info),
            Err(report) => Err(Error::Json(report)),
        },
        None => {
            let messages: Vec<MessageRecord> = Vec::new();
            assert(message_views(messages@) =~= Seq::empty());
            Ok(messages)
        },
    }
}

/// Reads the messages that an answer tells, given what its JSON text reads as.
pub fn read_results(info: &Json) -> (r: Result<Vec<MessageRecord>, Error>)
    ensures
        are_messages(r, results_told(info@)),
{
    let mut messages: Vec<MessageRecord> = Vec::new();
    assert(message_views(messages@) =~= Seq::empty());
    let items: &Vec<Json> = match info.get("result") {
        Some(items) => match items.as_array() {
            Some(items) => items,
            None => {
                return Ok(messages);
            },
        },
        None => {
            return Ok(messages);
        },
    };
    let ghost trees = json::item_trees(items@);
    assert(trees.take(0) =~= Seq::empty());
    for i in 0..items.len()
        invariant
            trees == json::item_trees(items@),
            results_told(info@) == items_told(trees),
            items_told(trees.take(i as int)) == Ok::<Seq<MessageView>, Seq<char>>(
                message_views(messages@),
            ),
    {
        let ghost before = message_views(messages@);
        proof {
            assert(trees.take(i + 1).drop_last() =~= trees.take(i as int));
            assert(trees.take(i + 1).last() == items[i as int]@);
        }
        let nlp: Option<&str> = match items[i].get("nlp") {
            Some(nlp) => nlp.as_str(),
            None => None,
        };
        if let Some(nlp) = nlp {
            match Json::parse(nlp) {
                Ok(nlp) => {
                    if let Some(message) = message_of(&nlp) {
                        messages.push(message);
                        assert(message_views(messages@) =~= before.push(message@));
                    }
                },
                Err(report) => {
                    proof {
                        lemma_error_stays(trees, i + 1, report@);
                    }
                    return Err(Error::Json(report));
                },
            }
        }
    }
    assert(trees.take(trees.len() as int) =~= trees);
    Ok(messages)
}

/// An error among the first items is the error of all items.
proof fn lemma_error_stays(items: Seq<JsonTree>, n: int, report: Seq<char>)
    requires
        0 <= n <= items.len(),
        items_told(items.take(n)) == Err::<Seq<MessageView>, Seq<char>>(report),
    ensures
        items_told(items) == Err::<Seq<MessageView>, Seq<char>>(report),
    decreases items.len() - n,
{
    if n < items.len() {
        assert(items.take(n + 1).drop_last() =~= items.take(n));
        lemma_error_stays(items, n + 1, report);
    } else {
        assert(items.take(n) =~= items);
    }
}

/// Each item gives one message at most, and an item without JSON text none: nothing is made up.
pub proof fn law_messages_come_from_items(items: Seq<JsonTree>)
    ensures
        items_told(items) matches Ok(messages) ==> messages.len() <= items.len() && forall|i: int|
            0 <= i < messages.len() ==> exists|j: int|
                0 <= j < items.len() && item_told(#[trigger] items[j]) == Ok::<
                    Option<MessageView>,
                    Seq<char>,
                >(Some(#[trigger] messages[i])),
    decreases items.len(),
{
    if items.len() > 0 {
        let front = items.drop_last();
        law_messages_come_from_items(front);
        if let Ok(messages) = items_told(items) {
            let before = items_told(front)->Ok_0;
            assert forall|i: int| 0 <= i < messages.len() implies exists|j: int|
                0 <= j < items.len() && item_told(#[trigger] items[j]) == Ok::<
                    Option<MessageView>,
                    Seq<char>,
                >(Some(#[trigger] messages[i])) by {
                if i < before.len() {
                    assert(messages[i] == before[i]);
                    let j = choose|j: int|
                        0 <= j < front.len() && item_told(#[trigger] front[j]) == Ok::<
                            Option<MessageView>,
                            Seq<char>,
                        >(Some(before[i]));
                    assert(items[j] == front[j]);
                } else {
                    assert(items[items.len() - 1] == items.last());
                }
            }
        }
    }
}

/// The text of a value is that of a string, and empty for anything else; the integer of a value is
/// that of a number that fits, and 0 for anything else.
pub proof fn law_missing_values(tree: JsonTree)
    ensures
        text_or_empty(None) == Seq::<char>::empty(),
        text_or_empty(Some(tree)) == (match tree {
            JsonTree::Text(text) => text,
            _ => Seq::empty(),
        }),
        integer_or_zero(None) == 0,
        match tree {
            JsonTree::Number(json::NumberTree::Integer(n)) if i64::MIN <= n <= i64::MAX =>
                integer_or_zero(Some(tree)) == n,
            _ => integer_or_zero(Some(tree)) == 0,
        },
{
}

/// An inner member is a member of a member, and there is none where either of them is missing.
pub proof fn law_inner_members(
    outer: Map<Seq<char>, JsonTree>,
    inner: Map<Seq<char>, JsonTree>,
    name: Seq<char>,
    key: Seq<char>,
)
    ensures
        outer.contains_key(name) && outer[name] == JsonTree::Object(inner) && inner.contains_key(
            key,
        ) ==> inner_member(JsonTree::Object(outer), name, key) == Some(inner[key]),
        outer.contains_key(name) && outer[name] == JsonTree::Object(inner) && !inner.contains_key(
            key,
        ) ==> inner_member(JsonTree::Object(outer), name, key) is None,
        outer.contains_key(name) && !(outer[name] is Object) ==> inner_member(
            JsonTree::Object(outer),
            name,
            key,
        ) is None,
        !outer.contains_key(name) ==> inner_member(JsonTree::Object(outer), name, key) is None,
        forall|tree: JsonTree|
            !(tree is Object) ==> #[trigger] inner_member(tree, name, key) is None,
{
}

/// An answer tells its domain and its action, what was spoken and what was asked: each the text of
/// the member of that name, and empty where that is missing or no text.
pub proof fn law_answers_tell_their_members(members: Map<Seq<char>, JsonTree>)
    ensures
        ({
            let answer = answer_told(JsonTree::Object(members));
            &&& answer.domain == (if members.contains_key("domain"@) && members["domain"@] is Text {
                members["domain"@]->Text_0
            } else {
                Seq::empty()
            })
            &&& answer.action == (if members.contains_key("action"@) && members["action"@] is Text {
                members["action"@]->Text_0
            } else {
                Seq::empty()
            })
            &&& answer.content == (if members.contains_key("content"@)
                && members["content"@] is Object
                && members["content"@]->Object_0.contains_key("to_speak"@)
                && members["content"@]->Object_0["to_speak"@] is Text {
                members["content"@]->Object_0["to_speak"@]->Text_0
            } else {
                Seq::empty()
            })
            &&& answer.question == (if members.contains_key("intention"@)
                && members["intention"@] is Object
                && members["intention"@]->Object_0.contains_key("query"@)
                && members["intention"@]->Object_0["query"@] is Text {
                members["intention"@]->Object_0["query"@]->Text_0
            } else {
                Seq::empty()
            })
        }),
        forall|tree: JsonTree|
            !(tree is Object) ==> {
                let answer = #[trigger] answer_told(tree);
                answer.domain.len() == 0 && answer.action.len() == 0 && answer.content.len() == 0
                    && answer.question.len() == 0
            },
{
}

/// An NLP result tells a message exactly where its member `response` has an array `answer`: the
/// message has an answer for each element of that array, in order, and the request and the time
/// that the member `meta` tells.
pub proof fn law_messages_tell_all_answers(members: Map<Seq<char>, JsonTree>)
    ensures
        ({
            let nlp = JsonTree::Object(members);
            let told = members.contains_key("response"@) && members["response"@] is Object
                && members["response"@]->Object_0.contains_key("answer"@)
                && members["response"@]->Object_0["answer"@] is Array;
            let answers = members["response"@]->Object_0["answer"@]->Array_0;
            let has_meta = members.contains_key("meta"@) && members["meta"@] is Object;
            let meta = members["meta"@]->Object_0;
            match message_told(nlp) {
                Some(message) => {
                    &&& told
                    &&& message.answers.len() == answers.len()
                    &&& forall|i: int|
                        0 <= i < answers.len() ==> #[trigger] message.answers[i] == answer_told(
                            answers[i],
                        )
                    &&& message.request_id == (if has_meta && meta.contains_key("request_id"@)
                        && meta["request_id"@] is Text {
                        meta["request_id"@]->Text_0
                    } else {
                        Seq::empty()
                    })
                    &&& message.timestamp_ms == (if has_meta && meta.contains_key("timestamp"@) {
                        integer_or_zero(Some(meta["timestamp"@]))
                    } else {
                        0
                    })
                },
                None => !told,
            }
        }),
        forall|tree: JsonTree| !(tree is Object) ==> #[trigger] message_told(tree) is None,
{
}

/// One more item adds the message that the JSON text in its member `nlp` tells, if it tells one,
/// behind the others. An item without such a text changes nothing, one whose text cannot be read is
/// an error, and an error stays.
pub proof fn law_one_more_item(items: Seq<JsonTree>, item: JsonTree)
    ensures
        items_told(Seq::empty()) == Ok::<Seq<MessageView>, Seq<char>>(Seq::empty()),
        ({
            let nlp = match item {
                JsonTree::Object(members) => if members.contains_key("nlp"@)
                    && members["nlp"@] is Text {
                    Some(members["nlp"@]->Text_0)
                } else {
                    None
                },
                _ => None,
            };
            match (items_told(items), nlp) {
                (Err(report), _) => items_told(items.push(item)) == Err::<
                    Seq<MessageView>,
                    Seq<char>,
                >(report),
                (Ok(messages), None) => items_told(items.push(item)) == Ok::<
                    Seq<MessageView>,
                    Seq<char>,
                >(messages),
                (Ok(messages), Some(nlp)) => match json::json_read(nlp) {
                    Err(report) => items_told(items.push(item)) == Err::<
                        Seq<MessageView>,
                        Seq<char>,
                    >(report),
                    Ok(tree) => match message_told(tree) {
                        Some(message) => items_told(items.push(item)) == Ok::<
                            Seq<MessageView>,
                            Seq<char>,
                        >(messages.push(message)),
                        None => items_told(items.push(item)) == Ok::<
                            Seq<MessageView>,
                            Seq<char>,
                        >(messages),
                    },
                },
            }
        }),
{
    assert(items.push(item).drop_last() =~= items);
    if let JsonTree::Object(members) = item {
        assert(item.member("nlp"@) == if members.contains_key("nlp"@) {
            Some(members["nlp"@])
        } else {
            None
        });
    }
}

/// The messages of an answer are those of the items in the array `result` of what its text `info`
/// reads as: all of them. Where there is no such text or no such array, there are none.
pub proof fn law_all_results_are_read(
    members: Map<Seq<char>, JsonTree>,
    info: Map<Seq<char>, JsonTree>,
)
    ensures
        results_told(JsonTree::Object(info)) == (if info.contains_key("result"@)
            && info["result"@] is Array {
            items_told(info["result"@]->Array_0)
        } else {
            Ok(Seq::empty())
        }),
        forall|tree: JsonTree|
            !(tree is Object) ==> #[trigger] results_told(tree) == Ok::<
                Seq<MessageView>,
                Seq<char>,
            >(Seq::empty()),
        messages_told(JsonTree::Object(members)) == (if members.contains_key("info"@)
            && members["info"@] is Text {
            match json::json_read(members["info"@]->Text_0) {
                Ok(tree) => results_told(tree),
                Err(report) => Err(report),
            }
        } else {
            Ok(Seq::empty())
        }),
        forall|tree: JsonTree|
            !(tree is Object) ==> #[trigger] messages_told(tree) == Ok::<
                Seq<MessageView>,
                Seq<char>,
            >(Seq::empty()),
{
}

/// A result that is the one that is told holds just the messages, or just the report.
pub proof fn law_results_are_told_in_full(
    r: Result<Vec<MessageRecord>, Error>,
    told: Result<Seq<MessageView>, Seq<char>>,
)
    requires
        are_messages(r, told),
    ensures
        match told {
            Ok(expected) => r is Ok && r->Ok_0@.len() == expected.len() && forall|i: int|
                0 <= i < expected.len() ==> (#[trigger] r->Ok_0@[i])@ == expected[i],
            Err(report) => match r {
                Err(Error::Json(text)) => text@ == report,
                _ => false,
            },
        },
{
    if let Ok(expected) = told {
        assert forall|i: int| 0 <= i < expected.len() implies (#[trigger] r->Ok_0@[i])@
            == expected[i] by {
            assert(message_views(r->Ok_0@)[i] == r->Ok_0@[i]@);
        }
    }
}

} // verus!
