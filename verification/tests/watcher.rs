use miai::json::Json;
use miai::watcher::{self, KeywordList, KeywordParts, MatchStep, Pace, WatchAction};
use miai::{
    Conversation, ConversationAnswer, ConversationWatcher, KeywordConfig, KeywordMatch, MatchMode,
    TtsInfo, WatcherConfig,
};

fn keywords(words: &[&str], match_mode: MatchMode, enabled: bool) -> KeywordConfig {
    KeywordConfig {
        keywords: words.iter().map(|w| w.to_string()).collect(),
        match_mode,
        enabled,
        description: "d".to_string(),
    }
}

fn watcher_for(keywords: Vec<KeywordConfig>) -> ConversationWatcher {
    ConversationWatcher::new(WatcherConfig {
        keywords,
        fetch_limit: 3,
        block_xiaoai_response: true,
    })
}

fn conversation(time: i64, query: &str) -> Conversation {
    let tts = Some(TtsInfo { text: "好".to_string() });
    Conversation { time, query: query.to_string(), answers: vec![ConversationAnswer { tts }] }
}

fn matched(watcher: &ConversationWatcher, query: &str) -> Option<String> {
    watcher.match_keywords(&conversation(1, query)).map(|m| m.matched_keyword)
}

fn told(watcher: &mut ConversationWatcher) -> Vec<KeywordMatch> {
    let mut matches = Vec::new();
    loop {
        match watcher.advance() {
            WatchAction::Notify { pause, keyword_match } => {
                assert!(pause);
                matches.push(keyword_match);
            }
            WatchAction::Sleep => return matches,
        }
    }
}

#[test]
fn defaults() {
    let config = WatcherConfig::default();
    assert!(config.keywords.is_empty());
    assert_eq!(config.fetch_limit, 5);
    assert!(config.block_xiaoai_response);
    assert_eq!(watcher::default_match_mode(), MatchMode::StartsWith);
    assert!(watcher::default_enabled());
    assert_eq!(watcher::default_fetch_limit(), 5);
    assert!(watcher::default_block_xiaoai());
}

#[test]
fn modes() {
    let starts = watcher_for(vec![keywords(&["请"], MatchMode::StartsWith, true)]);
    assert_eq!(matched(&starts, "请问"), Some("请".to_string()));
    assert_eq!(matched(&starts, "我请"), None);
    let contains = watcher_for(vec![keywords(&["请"], MatchMode::Contains, true)]);
    assert_eq!(matched(&contains, "我请客"), Some("请".to_string()));
    assert_eq!(matched(&contains, "我"), None);
    let exact = watcher_for(vec![keywords(&["请"], MatchMode::Exact, true)]);
    assert_eq!(matched(&exact, "请"), Some("请".to_string()));
    assert_eq!(matched(&exact, "请问"), None);
}

#[test]
fn modes_get_stricter() {
    for (keyword, query) in [("a", "a"), ("a", "ab"), ("", "x"), ("ab", "ab")] {
        let hit = |mode| matched(&watcher_for(vec![keywords(&[keyword], mode, true)]), query).is_some();
        assert!(!hit(MatchMode::Exact) || hit(MatchMode::StartsWith));
        assert!(!hit(MatchMode::StartsWith) || hit(MatchMode::Contains));
    }
}

#[test]
fn the_first_match_counts() {
    let watcher = watcher_for(vec![
        keywords(&["播放"], MatchMode::StartsWith, false),
        keywords(&["停", "播"], MatchMode::StartsWith, true),
        keywords(&["播放"], MatchMode::StartsWith, true),
    ]);
    let found = watcher.match_keywords(&conversation(9, "播放音乐")).unwrap();
    assert_eq!(found.matched_keyword, "播");
    assert_eq!(found.config.keywords, vec!["停".to_string(), "播".to_string()]);
    assert_eq!(found.config.match_mode, MatchMode::StartsWith);
    assert_eq!(found.config.description, "d");
    assert_eq!(found.conversation.time, 9);
    assert_eq!(found.conversation.query, "播放音乐");
    assert_eq!(found.conversation.answers[0].tts.as_ref().unwrap().text, "好");
    assert_eq!(matched(&watcher, "x"), None);
}

#[test]
fn enabled_keywords() {
    let watcher = watcher_for(vec![
        keywords(&["a", "b"], MatchMode::Exact, true),
        keywords(&["c"], MatchMode::Exact, false),
        keywords(&["d"], MatchMode::Exact, true),
    ]);
    assert_eq!(watcher.get_enabled_keywords(), vec!["a", "b", "d"]);
    assert_eq!(watcher.fetch_limit(), 3);
}

#[test]
fn matches_are_told_from_old_to_new() {
    let mut watcher = watcher_for(vec![keywords(&["k"], MatchMode::StartsWith, true)]);
    let fetched = vec![conversation(3, "k3"), conversation(2, "x"), conversation(1, "k1")];
    assert_eq!(watcher.fetched(&fetched), Pace::Shortest);
    let matches = told(&mut watcher);
    let queries: Vec<&str> = matches.iter().map(|m| m.conversation.query.as_str()).collect();
    assert_eq!(queries, vec!["k1", "k3"]);
    assert_eq!(watcher.processed_count(), 3);
}

#[test]
fn nothing_is_told_twice() {
    let mut watcher = watcher_for(vec![keywords(&["k"], MatchMode::StartsWith, true)]);
    let fetched = vec![conversation(2, "k2"), conversation(1, "k1")];
    assert_eq!(watcher.fetched(&fetched), Pace::Shortest);
    assert_eq!(told(&mut watcher).len(), 2);
    assert_eq!(watcher.fetched(&fetched), Pace::Longer);
    assert_eq!(told(&mut watcher).len(), 0);
    let later = vec![conversation(3, "k3"), conversation(2, "k2")];
    assert_eq!(watcher.fetched(&later), Pace::Shortest);
    let matches = told(&mut watcher);
    assert_eq!(matches.len(), 1);
    assert_eq!(matches[0].conversation.time, 3);
    assert_eq!(watcher.processed_count(), 3);
}

#[test]
fn what_was_left_is_fetched_again() {
    let mut watcher = watcher_for(vec![keywords(&["k"], MatchMode::StartsWith, true)]);
    let fetched = vec![conversation(2, "k2"), conversation(1, "k1")];
    watcher.fetched(&fetched);
    match watcher.advance() {
        WatchAction::Notify { keyword_match, .. } => assert_eq!(keyword_match.conversation.time, 1),
        other => panic!("{:?}", other),
    }
    assert_eq!(watcher.processed_count(), 1);
    assert_eq!(watcher.fetched(&fetched), Pace::Shortest);
    let matches = told(&mut watcher);
    assert_eq!(matches.len(), 1);
    assert_eq!(matches[0].conversation.time, 2);
}

#[test]
fn conversations_of_one_time_are_all_told() {
    let mut watcher = watcher_for(vec![keywords(&["k"], MatchMode::StartsWith, true)]);
    watcher.fetched(&vec![conversation(1, "k2"), conversation(1, "k1")]);
    assert_eq!(told(&mut watcher).len(), 2);
    assert_eq!(watcher.processed_count(), 2);
}

#[test]
fn conversations_are_counted_and_times_never_forgotten() {
    let mut watcher = ConversationWatcher::new(WatcherConfig::default());
    assert_eq!(watcher.processed_count(), 0);
    watcher.fetched(&vec![conversation(5, "p"), conversation(5, "q")]);
    assert!(told(&mut watcher).is_empty());
    assert_eq!(watcher.processed_count(), 2);
    watcher.fetched(&vec![conversation(6, "r")]);
    told(&mut watcher);
    assert_eq!(watcher.processed_count(), 3);
    assert_eq!(watcher.fetched(&vec![conversation(5, "s"), conversation(6, "t")]), Pace::Longer);
    told(&mut watcher);
    assert_eq!(watcher.processed_count(), 3);
}

#[test]
fn the_speaker_is_paused_before_a_match_is_told() {
    assert_eq!(watcher::match_steps(true), vec![MatchStep::Pause, MatchStep::Tell]);
    assert_eq!(watcher::match_steps(false), vec![MatchStep::Tell]);
}

#[test]
fn what_is_left_out_is_filled_in() {
    let parts = KeywordParts {
        keywords: vec!["请".to_string()],
        match_mode: None,
        enabled: None,
        description: None,
    };
    let config = parts.into_config();
    let plain = match watcher::deserialize_keywords(Json::array_of(Json::text("请"))) {
        Some(KeywordList::Plain(mut configs)) => configs.remove(0),
        other => panic!("{:?}", other),
    };
    assert_eq!(config.keywords, plain.keywords);
    assert_eq!(config.match_mode, plain.match_mode);
    assert_eq!(config.enabled, plain.enabled);
    assert_eq!(config.description, plain.description);
    let parts = KeywordParts {
        keywords: vec![],
        match_mode: Some(MatchMode::Exact),
        enabled: Some(false),
        description: Some("x".to_string()),
    };
    let config = parts.into_config();
    assert_eq!(config.match_mode, MatchMode::Exact);
    assert!(!config.enabled);
    assert_eq!(config.description, "x");
}

#[test]
fn plain_keywords() {
    let value = Json::Array(vec![Json::text("请"), Json::text("你")]);
    match watcher::deserialize_keywords(value) {
        Some(KeywordList::Plain(configs)) => {
            assert_eq!(configs.len(), 2);
            assert_eq!(configs[1].keywords, vec!["你".to_string()]);
            assert_eq!(configs[1].match_mode, MatchMode::StartsWith);
            assert!(configs[1].enabled);
            assert_eq!(configs[1].description, "");
        }
        other => panic!("{:?}", other),
    }
    match watcher::deserialize_keywords(Json::Array(vec![])) {
        Some(KeywordList::Plain(configs)) => assert!(configs.is_empty()),
        other => panic!("{:?}", other),
    }
}

#[test]
fn typed_keywords() {
    let value = Json::Array(vec![Json::text("请"), Json::object()]);
    match watcher::deserialize_keywords(value) {
        Some(KeywordList::Typed(values)) => {
            assert_eq!(values.len(), 2);
            assert_eq!(values[0].as_str(), Some("请"));
            assert!(values[1].is_object());
        }
        other => panic!("{:?}", other),
    }
}

fn part(keyword: &str, enabled: Option<bool>) -> KeywordParts {
    KeywordParts {
        keywords: vec![keyword.to_string()],
        match_mode: None,
        enabled,
        description: None,
    }
}

#[test]
fn typed_keywords_keep_their_order() {
    let parts = vec![Ok(part("a", None)), Ok(part("b", Some(false)))];
    let configs = watcher::typed_keywords(parts).unwrap();
    let told: Vec<(&str, bool)> =
        configs.iter().map(|c| (c.keywords[0].as_str(), c.enabled)).collect();
    assert_eq!(told, vec![("a", true), ("b", false)]);
    assert!(watcher::typed_keywords(vec![]).unwrap().is_empty());
}

#[test]
fn one_bad_keyword_fails_the_list() {
    let parts = vec![
        Ok(part("a", None)),
        Err("first".to_string()),
        Ok(part("b", None)),
        Err("second".to_string()),
    ];
    assert_eq!(watcher::typed_keywords(parts).unwrap_err(), "first");
}

#[test]
fn keywords_are_an_array() {
    assert!(watcher::deserialize_keywords(Json::text("请")).is_none());
    assert!(watcher::deserialize_keywords(Json::object()).is_none());
}
