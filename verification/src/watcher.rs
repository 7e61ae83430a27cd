//! Watching conversations for keywords.

use std::collections::HashSet;

use vstd::prelude::*;

use crate::json;
use crate::json::{Json, JsonTree};
use crate::records;
use crate::records::{Conversation, ConversationView};
use crate::text;

verus! {

broadcast use vstd::std_specs::hash::group_hash_axioms;

/// How a keyword is held against a query.
#[derive(Clone, Copy, Debug, PartialEq, Eq, Structural)]
pub enum MatchMode {
    /// The query begins with the keyword.
    StartsWith,
    /// The keyword occurs in the query.
    Contains,
    /// The query is the keyword.
    Exact,
}

/// Some keywords and how they are matched.
#[derive(Debug)]
pub struct KeywordConfig {
    /// The keywords, any of which triggers.
    pub keywords: Vec<String>,
    /// How they are matched.
    pub match_mode: MatchMode,
    /// Whether they are matched at all.
    pub enabled: bool,
    /// What they are for.
    pub description: String,
}

/// The content of a [`KeywordConfig`].
#[verifier::ext_equal]
pub struct KeywordView {
    pub keywords: Seq<Seq<char>>,
    pub match_mode: MatchMode,
    pub enabled: bool,
    pub description: Seq<char>,
}

impl View for KeywordConfig {
    type V = KeywordView;

    open spec fn view(&self) -> KeywordView {
        KeywordView {
            keywords: records::texts(self.keywords@),
            match_mode: self.match_mode,
            enabled: self.enabled,
            description: self.description@,
        }
    }
}

impl Clone for KeywordConfig {
    fn clone(&self) -> (r: Self)
        ensures
            r@ == self@,
            r.match_mode == self.match_mode,
            r.enabled == self.enabled,
            r.description@ == self.description@,
            r.keywords@.len() == self.keywords@.len(),
            forall|i: int|
                0 <= i < r.keywords@.len() ==> (#[trigger] r.keywords@[i])@ == self.keywords@[i]@,
    {
        KeywordConfig {
            keywords: records::copy_texts(&self.keywords),
            match_mode: self.match_mode,
            enabled: self.enabled,
            description: self.description.clone(),
        }
    }
}

/// What a configuration file tells of some keywords; what it leaves out is none.
#[derive(Debug)]
pub struct KeywordParts {
    /// The keywords.
    pub keywords: Vec<String>,
    /// How they are matched.
    pub match_mode: Option<MatchMode>,
    /// Whether they are matched at all.
    pub enabled: Option<bool>,
    /// What they are for.
    pub description: Option<String>,
}

/// The configuration of some keywords, with the defaults for what is left out.
pub open spec fn filled_in(
    keywords: Seq<Seq<char>>,
    match_mode: Option<MatchMode>,
    enabled: Option<bool>,
    description: Option<Seq<char>>,
) -> KeywordView {
    KeywordView {
        keywords,
        match_mode: match match_mode {
            Some(match_mode) => match_mode,
            None => MatchMode::StartsWith,
        },
        enabled: match enabled {
            Some(enabled) => enabled,
            None => true,
        },
        description: match description {
            Some(description) => description,
            None => Seq::empty(),
        },
    }
}

impl KeywordParts {
    /// The configuration that this stands for, with the defaults for what is left out.
    pub open spec fn meant(self) -> KeywordView {
        filled_in(
            records::texts(self.keywords@),
            self.match_mode,
            self.enabled,
            match self.description {
                Some(description) => Some(description@),
                None => None,
            },
        )
    }

    /// The configuration that this stands for, with the defaults for what is left out.
    pub fn into_config(self) -> (config: KeywordConfig)
        ensures
            config@ == self.meant(),
    {
        KeywordConfig {
            keywords: self.keywords,
            match_mode: match self.match_mode {
                Some(match_mode) => match_mode,
                None => default_match_mode(),
            },
            enabled: match self.enabled {
                Some(enabled) => enabled,
                None => default_enabled(),
            },
            description: match self.description {
                Some(description) => description,
                None => String::new(),
            },
        }
    }
}

/// The contents of some keyword configurations, in order.
pub open spec fn keyword_views(configs: Seq<KeywordConfig>) -> Seq<KeywordView> {
    configs.map_values(|config: KeywordConfig| config@)
}

/// The mode in which keywords are matched where nothing else is said.
pub fn default_match_mode() -> (r: MatchMode)
    ensures
        r == MatchMode::StartsWith,
{
    MatchMode::StartsWith
}

/// Keywords are matched where nothing else is said.
pub fn default_enabled() -> (r: bool)
    ensures
        r,
{
    true
}

/// How many conversations are fetched at a time where nothing else is said.
pub fn default_fetch_limit() -> (r: u32)
    ensures
        r == 5,
{
    5
}

/// The speaker is paused on a match where nothing else is said.
pub fn default_block_xiaoai() -> (r: bool)
    ensures
        r,
{
    true
}

/// What a watcher goes by.
#[derive(Clone, Debug)]
pub struct WatcherConfig {
    /// The keywords to watch for.
    pub keywords: Vec<KeywordConfig>,
    /// How many conversations are fetched at a time.
    pub fetch_limit: u32,
    /// Whether the speaker is paused on a match.
    pub block_xiaoai_response: bool,
}

impl Default for WatcherConfig {
    fn default() -> (r: Self)
        ensures
            r.keywords@.len() == 0,
            r.fetch_limit == 5,
            r.block_xiaoai_response,
    {
        WatcherConfig {
            keywords: Vec::new(),
            fetch_limit: default_fetch_limit(),
            block_xiaoai_response: default_block_xiaoai(),
        }
    }
}

/// Whether a keyword matches a query.
pub open spec fn matches_query(mode: MatchMode, keyword: Seq<char>, query: Seq<char>) -> bool {
    match mode {
        MatchMode::StartsWith => keyword.is_prefix_of(query),
        MatchMode::Contains => text::occurs_in(keyword, query),
        MatchMode::Exact => query == keyword,
    }
}

/// The first of some keywords that matches a query.
pub open spec fn first_keyword(
    mode: MatchMode,
    keywords: Seq<Seq<char>>,
    query: Seq<char>,
) -> Option<Seq<char>>
    decreases keywords.len(),
{
    if keywords.len() == 0 {
        None
    } else if matches_query(mode, keywords[0], query) {
        Some(keywords[0])
    } else {
        first_keyword(mode, keywords.drop_first(), query)
    }
}

/// The first keyword of an enabled configuration that matches a query, with its configuration.
pub open spec fn first_match(configs: Seq<KeywordView>, query: Seq<char>) -> Option<
    (KeywordView, Seq<char>),
>
    decreases configs.len(),
{
    if configs.len() == 0 {
        None
    } else {
        let first = configs[0];
        let keyword = first_keyword(first.match_mode, first.keywords, query);
        if first.enabled && keyword is Some {
            Some((first, keyword->0))
        } else {
            first_match(configs.drop_first(), query)
        }
    }
}

/// The keywords of the enabled configurations, in order.
pub open spec fn enabled_keywords(configs: Seq<KeywordView>) -> Seq<Seq<char>>
    decreases configs.len(),
{
    if configs.len() == 0 {
        Seq::empty()
    } else if configs.last().enabled {
        enabled_keywords(configs.drop_last()) + configs.last().keywords
    } else {
        enabled_keywords(configs.drop_last())
    }
}

/// A conversation that triggered.
#[derive(Clone, Debug)]
pub struct KeywordMatch {
    /// The configuration of the keyword.
    pub config: KeywordConfig,
    /// The keyword that matched.
    pub matched_keyword: String,
    /// The conversation.
    pub conversation: Conversation,
}

/// The content of a [`KeywordMatch`].
pub struct MatchView {
    pub config: KeywordView,
    pub matched_keyword: Seq<char>,
    pub conversation: ConversationView,
}

impl View for KeywordMatch {
    type V = MatchView;

    open spec fn view(&self) -> MatchView {
        MatchView {
            config: self.config@,
            matched_keyword: self.matched_keyword@,
            conversation: self.conversation@,
        }
    }
}

/// The match of a conversation, if it triggers.
pub open spec fn match_of(configs: Seq<KeywordView>, conversation: ConversationView) -> Option<
    MatchView,
> {
    match first_match(configs, conversation.query) {
        Some((config, matched_keyword)) => Some(
            MatchView { config, matched_keyword, conversation },
        ),
        None => None,
    }
}

fn matches(mode: MatchMode, keyword: &String, query: &String) -> (r: bool)
    ensures
        r == matches_query(mode, keyword@, query@),
{
    match mode {
        MatchMode::StartsWith => text::starts_with(query.as_str(), keyword.as_str()),
        MatchMode::Contains => text::contains(query.as_str(), keyword.as_str()),
        MatchMode::Exact => *query == *keyword,
    }
}

fn find_keyword(config: &KeywordConfig, query: &String) -> (r: Option<usize>)
    ensures
        match r {
            Some(i) => i < config.keywords.len() && first_keyword(
                config.match_mode,
                config@.keywords,
                query@,
            ) == Some(config.keywords[i as int]@),
            None => first_keyword(config.match_mode, config@.keywords, query@) is None,
        },
{
    let ghost keywords = config@.keywords;
    assert(keywords.skip(0) =~= keywords);
    for i in 0..config.keywords.len()
        invariant
            keywords == config@.keywords,
            first_keyword(config.match_mode, keywords, query@) == first_keyword(
                config.match_mode,
                keywords.skip(i as int),
                query@,
            ),
    {
        assert(keywords.skip(i as int)[0] == config.keywords[i as int]@);
        assert(keywords.skip(i as int).drop_first() =~= keywords.skip(i + 1));
        if matches(config.match_mode, &config.keywords[i], query) {
            return Some(i);
        }
    }
    None
}

/// How long to wait before the next poll.
#[derive(Clone, Copy, Debug, PartialEq, Eq, Structural)]
pub enum Pace {
    /// There was something new: wait as shortly as is allowed.
    Shortest,
    /// There was nothing new: wait longer than before, up to the longest that is allowed.
    Longer,
}

/// What is to be done next.
#[derive(Debug)]
pub enum WatchAction {
    /// Do what [`match_steps`] says.
    Notify { pause: bool, keyword_match: KeywordMatch },
    /// Nothing is left of this poll: wait and fetch again.
    Sleep,
}

/// One of the things to do on a match.
#[derive(Clone, Copy, Debug, PartialEq, Eq, Structural)]
pub enum MatchStep {
    /// Pause the speaker. That this fails changes nothing.
    Pause,
    /// Hand out the match.
    Tell,
}

/// What to do on a match, in order: the speaker is paused, where that is asked for, before the
/// match is handed out.
pub fn match_steps(pause: bool) -> (steps: Vec<MatchStep>)
    ensures
        steps@ == (if pause {
            seq![MatchStep::Pause, MatchStep::Tell]
        } else {
            seq![MatchStep::Tell]
        }),
{
    let mut steps: Vec<MatchStep> = Vec::new();
    if pause {
        steps.push(MatchStep::Pause);
    }
    steps.push(MatchStep::Tell);
    steps
}

/// A watcher of the conversations with a speaker.
#[derive(Debug)]
pub struct ConversationWatcher {
    config: WatcherConfig,
    seen_timestamps: HashSet<i64>,
    pending: Vec<Conversation>,
    processed: usize,
}

/// The state of a [`ConversationWatcher`].
#[verifier::ext_equal]
pub struct WatcherView {
    /// The keywords to watch for.
    pub keywords: Seq<KeywordView>,
    /// How many conversations are fetched at a time.
    pub fetch_limit: u32,
    /// Whether the speaker is paused on a match.
    pub pauses: bool,
    /// The times of the conversations that were dealt with.
    pub seen: Set<i64>,
    /// The new conversations of this poll that are still to be dealt with, the next one last.
    pub pending: Seq<ConversationView>,
    /// How many conversations were dealt with, up to the largest number that is told.
    pub processed: usize,
}

impl View for ConversationWatcher {
    type V = WatcherView;

    closed spec fn view(&self) -> WatcherView {
        WatcherView {
            keywords: keyword_views(self.config.keywords@),
            fetch_limit: self.config.fetch_limit,
            pauses: self.config.block_xiaoai_response,
            seen: self.seen_timestamps@,
            pending: records::conversation_views(self.pending@),
            processed: self.processed,
        }
    }
}

/// The conversations whose times were not seen, in the order in which they came.
pub open spec fn fresh(conversations: Seq<ConversationView>, seen: Set<i64>) -> Seq<
    ConversationView,
> {
    conversations.filter(|conversation: ConversationView| !seen.contains(conversation.time))
}

/// The times of some conversations.
pub open spec fn times(conversations: Seq<ConversationView>) -> Set<i64> {
    conversations.map_values(|conversation: ConversationView| conversation.time).to_set()
}

/// How many of the pending conversations are left once the next one that triggers has been
/// dealt with, or all of them.
pub open spec fn left_after(configs: Seq<KeywordView>, pending: Seq<ConversationView>) -> nat
    decreases pending.len(),
{
    if pending.len() == 0 {
        0
    } else if match_of(configs, pending.last()) is Some {
        (pending.len() - 1) as nat
    } else {
        left_after(configs, pending.drop_last())
    }
}

/// The next match among the pending conversations.
pub open spec fn next_match(
    configs: Seq<KeywordView>,
    pending: Seq<ConversationView>,
) -> Option<MatchView>
    decreases pending.len(),
{
    if pending.len() == 0 {
        None
    } else if match_of(configs, pending.last()) is Some {
        match_of(configs, pending.last())
    } else {
        next_match(configs, pending.drop_last())
    }
}

/// The state once the next pending conversation that triggers has been dealt with, or all of them.
pub open spec fn advanced(state: WatcherView) -> WatcherView {
    let left = left_after(state.keywords, state.pending) as int;
    WatcherView {
        seen: state.seen.union(times(state.pending.skip(left))),
        pending: state.pending.take(left),
        processed: count_on(state.processed, state.pending.len() - left),
        ..state
    }
}

/// A count that goes on by some more, up to the largest number that is told.
pub open spec fn count_on(count: usize, more: int) -> usize {
    if count + more <= usize::MAX {
        (count + more) as usize
    } else {
        usize::MAX
    }
}

/// The state once a poll has begun with the conversations that were fetched.
pub open spec fn polled(state: WatcherView, conversations: Seq<ConversationView>) -> WatcherView {
    WatcherView { pending: fresh(conversations, state.seen), ..state }
}

impl ConversationWatcher {
    #[verifier::type_invariant]
    spec fn well_formed(self) -> bool {
        self.seen_timestamps@.finite()
    }

    /// A watcher that has seen nothing yet.
    pub fn new(config: WatcherConfig) -> (r: ConversationWatcher)
        ensures
            r@ == (WatcherView {
                keywords: keyword_views(config.keywords@),
                fetch_limit: config.fetch_limit,
                pauses: config.block_xiaoai_response,
                seen: Set::empty(),
                pending: Seq::empty(),
                processed: 0,
            }),
            r@.seen.finite(),
    {
        let r: ConversationWatcher = ConversationWatcher {
            config,
            seen_timestamps: HashSet::new(),
            pending: Vec::new(),
            processed: 0,
        };
        assert(r@.pending =~= Seq::empty());
        r
    }

    /// How many conversations to fetch.
    pub fn fetch_limit(&self) -> (r: u32)
        ensures
            r == self@.fetch_limit,
    {
        self.config.fetch_limit
    }

    /// The match of a conversation, if it triggers.
    pub fn match_keywords(&self, conversation: &Conversation) -> (r: Option<KeywordMatch>)
        ensures
            match r {
                Some(found) => match_of(self@.keywords, conversation@) == Some(found@),
                None => match_of(self@.keywords, conversation@) is None,
            },
            r matches Some(found) ==> {
                let keyword = found.matched_keyword@;
                let query = conversation.query@;
                &&& found.conversation@ == conversation@
                &&& found.config.enabled
                &&& self@.keywords.contains(found.config@)
                &&& exists|j: int|
                    0 <= j < found.config.keywords@.len() && (
                    #[trigger] found.config.keywords@[j])@ == keyword
                &&& match found.config.match_mode {
                    MatchMode::StartsWith => keyword.len() <= query.len() && query.take(
                        keyword.len() as int,
                    ) == keyword,
                    MatchMode::Contains => exists|at: int|
                        0 <= at && at + keyword.len() <= query.len() && #[trigger] query.subrange(
                            at,
                            at + keyword.len(),
                        ) == keyword,
                    MatchMode::Exact => query == keyword,
                }
            },
            r is None ==> forall|i: int, j: int|
                0 <= i < self@.keywords.len() && self@.keywords[i].enabled && 0 <= j
                    < self@.keywords[i].keywords.len() ==> {
                    let keyword = #[trigger] self@.keywords[i].keywords[j];
                    let query = conversation.query@;
                    match self@.keywords[i].match_mode {
                        MatchMode::StartsWith => !(keyword.len() <= query.len() && query.take(
                            keyword.len() as int,
                        ) == keyword),
                        MatchMode::Contains => forall|at: int|
                            0 <= at && at + keyword.len() <= query.len()
                                ==> #[trigger] query.subrange(at, at + keyword.len()) != keyword,
                        MatchMode::Exact => query != keyword,
                    }
                },
    {
        let ghost configs = self@.keywords;
        let query: &String = &conversation.query;
        proof {
            law_match_stands_in_the_query(configs, query@);
            law_no_match_stands_in_the_query(configs, query@);
        }
        assert(configs.skip(0) =~= configs);
        for i in 0..self.config.keywords.len()
            invariant
                configs == self@.keywords,
                query@ == conversation@.query,
                first_match(configs, query@) == first_match(configs.skip(i as int), query@),
                match first_match(configs, query@) {
                    Some((config, keyword)) => {
                        &&& configs.contains(config)
                        &&& config.enabled
                        &&& config.keywords.contains(keyword)
                        &&& match config.match_mode {
                            MatchMode::StartsWith => keyword.len() <= query@.len() && query@.take(
                                keyword.len() as int,
                            ) == keyword,
                            MatchMode::Contains => exists|at: int|
                                0 <= at && at + keyword.len() <= query@.len()
                                    && #[trigger] query@.subrange(at, at + keyword.len())
                                    == keyword,
                            MatchMode::Exact => query@ == keyword,
                        }
                    },
                    None => true,
                },
        {
            let config: &KeywordConfig = &self.config.keywords[i];
            assert(configs.skip(i as int)[0] == config@);
            assert(configs.skip(i as int).drop_first() =~= configs.skip(i + 1));
            if config.enabled {
                if let Some(at) = find_keyword(config, query) {
                    let found: KeywordMatch = KeywordMatch {
                        config: config.clone(),
                        matched_keyword: config.keywords[at].clone(),
                        conversation: conversation.clone(),
                    };
                    assert(found.config.keywords@[at as int]@ == found.matched_keyword@);
                    return Some(found);
                }
            }
        }
        None
    }

    /// The keywords of the enabled configurations, in order.
    pub fn get_enabled_keywords(&self) -> (r: Vec<&str>)
        ensures
            r@.map_values(|keyword: &str| keyword@) == enabled_keywords(self@.keywords),
            r@.map_values(|keyword: &str| keyword@) == self@.keywords.filter(
                |config: KeywordView| config.enabled,
            ).map_values(|config: KeywordView| config.keywords).flatten(),
    {
        let ghost configs = self@.keywords;
        let mut r: Vec<&str> = Vec::new();
        assert(configs.take(0) =~= Seq::empty());
        assert(r@.map_values(|keyword: &str| keyword@) =~= Seq::<Seq<char>>::empty());
        for i in 0..self.config.keywords.len()
            invariant
                configs == self@.keywords,
                r@.map_values(|keyword: &str| keyword@) == enabled_keywords(
                    configs.take(i as int),
                ),
        {
            let config: &KeywordConfig = &self.config.keywords[i];
            let ghost before = enabled_keywords(configs.take(i as int));
            proof {
                assert(configs.take(i + 1).drop_last() =~= configs.take(i as int));
                assert(configs.take(i + 1).last() == config@);
            }
            if config.enabled {
                let ghost keywords = config@.keywords;
                assert(before + keywords.take(0) =~= before);
                for j in 0..config.keywords.len()
                    invariant
                        keywords == config@.keywords,
                        r@.map_values(|keyword: &str| keyword@) == before + keywords.take(
                            j as int,
                        ),
                {
                    let ghost r_before = r@.map_values(|keyword: &str| keyword@);
                    r.push(config.keywords[j].as_str());
                    assert(r@.map_values(|keyword: &str| keyword@) =~= r_before.push(keywords[j as int]));
                    assert(before + keywords.take(j + 1) =~= r_before.push(keywords[j as int]));
                }
                assert(keywords.take(keywords.len() as int) =~= keywords);
            }
        }
        assert(configs.take(configs.len() as int) =~= configs);
        proof {
            law_enabled_keywords_in_order(configs);
        }
        r
    }

    /// Begins a poll with the conversations that were fetched, and tells how long to wait once
    /// they have been dealt with.
    ///
    /// What an earlier poll left pending is dropped; it is fetched again.
    pub fn fetched(&mut self, conversations: &Vec<Conversation>) -> (pace: Pace)
        ensures
            final(self)@ == polled(old(self)@, records::conversation_views(conversations@)),
            final(self)@.pending == records::conversation_views(conversations@).filter(
                |conversation: ConversationView| !old(self)@.seen.contains(conversation.time),
            ),
            final(self)@.keywords == old(self)@.keywords,
            final(self)@.fetch_limit == old(self)@.fetch_limit,
            final(self)@.pauses == old(self)@.pauses,
            final(self)@.seen == old(self)@.seen,
            final(self)@.processed == old(self)@.processed,
            final(self)@.seen.finite(),
            pace == (if final(self)@.pending.len() == 0 {
                Pace::Longer
            } else {
                Pace::Shortest
            }),
    {
        proof {
            use_type_invariant(&*self);
        }
        let ghost all = records::conversation_views(conversations@);
        let ghost unseen = |conversation: ConversationView|
            !self@.seen.contains(conversation.time);
        let mut pending: Vec<Conversation> = Vec::new();
        assert(all.take(0).filter(unseen) =~= Seq::empty()) by {
            reveal(Seq::filter);
        }
        assert(records::conversation_views(pending@) =~= Seq::empty());
        for i in 0..conversations.len()
            invariant
                all == records::conversation_views(conversations@),
                unseen == (|conversation: ConversationView|
                    !self@.seen.contains(conversation.time)),
                records::conversation_views(pending@) == all.take(i as int).filter(unseen),
        {
            let ghost before = records::conversation_views(pending@);
            proof {
                reveal(Seq::filter);
                assert(all.take(i + 1).drop_last() =~= all.take(i as int));
                assert(all.take(i + 1).last() == conversations[i as int]@);
            }
            if !self.seen_timestamps.contains(&conversations[i].time) {
                pending.push(conversations[i].clone());
                assert(records::conversation_views(pending@) =~= before.push(
                    conversations[i as int]@,
                ));
            }
        }
        assert(all.take(all.len() as int) =~= all);
        self.pending = pending;
        if self.pending.len() == 0 {
            Pace::Longer
        } else {
            Pace::Shortest
        }
    }

    /// Deals with the pending conversations up to the next one that triggers.
    pub fn advance(&mut self) -> (action: WatchAction)
        ensures
            final(self)@ == advanced(old(self)@),
            final(self)@.keywords == old(self)@.keywords,
            final(self)@.fetch_limit == old(self)@.fetch_limit,
            final(self)@.pauses == old(self)@.pauses,
            final(self)@.seen.finite(),
            match action {
                WatchAction::Notify { pause, keyword_match } => pause == old(self)@.pauses
                    && next_match(old(self)@.keywords, old(self)@.pending) == Some(keyword_match@),
                WatchAction::Sleep => next_match(old(self)@.keywords, old(self)@.pending) is None,
            },
    {
        proof {
            use_type_invariant(&*self);
        }
        let ghost start = self@;
        let mut pending: Vec<Conversation> = Vec::new();
        std::mem::swap(&mut pending, &mut self.pending);
        let mut seen: HashSet<i64> = HashSet::new();
        std::mem::swap(&mut seen, &mut self.seen_timestamps);
        let mut processed: usize = self.processed;
        let mut found: Option<KeywordMatch> = None;
        assert(start.pending.take(start.pending.len() as int) =~= start.pending);
        assert(start.pending.skip(start.pending.len() as int) =~= Seq::empty());
        assert(seen@ =~= start.seen.union(times(Seq::empty())));
        while pending.len() > 0 && found.is_none()
            invariant
                start == old(self)@,
                self@.keywords == start.keywords,
                self@.fetch_limit == start.fetch_limit,
                self@.pauses == start.pauses,
                seen@.finite(),
                pending.len() <= start.pending.len(),
                records::conversation_views(pending@) == start.pending.take(pending.len() as int),
                seen@ == start.seen.union(times(start.pending.skip(pending.len() as int))),
                processed == count_on(start.processed, start.pending.len() - pending.len()),
                match found {
                    Some(keyword_match) => {
                        &&& left_after(start.keywords, start.pending) == pending.len()
                        &&& next_match(start.keywords, start.pending) == Some(keyword_match@)
                    },
                    None => {
                        let left = start.pending.take(pending.len() as int);
                        &&& left_after(start.keywords, start.pending) == left_after(
                            start.keywords,
                            left,
                        )
                        &&& next_match(start.keywords, start.pending) == next_match(
                            start.keywords,
                            left,
                        )
                    },
                },
            decreases pending.len(),
        {
            let ghost before = start.pending.take(pending.len() as int);
            if let Some(conversation) = pending.pop() {
                let ghost left = start.pending.take(pending.len() as int);
                proof {
                    assert(before.last() == conversation@);
                    assert(before.drop_last() =~= left);
                    assert(records::conversation_views(pending@) =~= left);
                    lemma_times_step(start.pending, pending.len() as int);
                }
                seen.insert(conversation.time);
                assert(seen@ =~= start.seen.union(
                    times(start.pending.skip(pending.len() as int)),
                ));
                processed = if processed < usize::MAX {
                    processed + 1
                } else {
                    usize::MAX
                };
                found = self.match_keywords(&conversation);
            }
        }
        self.pending = pending;
        self.seen_timestamps = seen;
        self.processed = processed;
        match found {
            Some(keyword_match) => WatchAction::Notify {
                pause: self.config.block_xiaoai_response,
                keyword_match,
            },
            None => WatchAction::Sleep,
        }
    }

    /// How many conversations were dealt with.
    pub fn processed_count(&self) -> (r: usize)
        ensures
            r == self@.processed,
    {
        self.processed
    }
}

/// One more conversation adds its time.
proof fn lemma_times_step(conversations: Seq<ConversationView>, at: int)
    requires
        0 <= at < conversations.len(),
    ensures
        times(conversations.skip(at)) == times(conversations.skip(at + 1)).insert(
            conversations[at].time,
        ),
{
    let here = conversations.skip(at).map_values(|c: ConversationView| c.time);
    let next = conversations.skip(at + 1).map_values(|c: ConversationView| c.time);
    assert(here =~= seq![conversations[at].time] + next);
    assert forall|t: i64| here.to_set().contains(t) == next.to_set().insert(
        conversations[at].time,
    ).contains(t) by {
        if here.contains(t) {
            let i = choose|i: int| 0 <= i < here.len() && here[i] == t;
            if i > 0 {
                assert(next[i - 1] == t);
            }
        }
        if next.contains(t) {
            let i = choose|i: int| 0 <= i < next.len() && next[i] == t;
            assert(here[i + 1] == t);
        }
        assert(here[0] == conversations[at].time);
    }
    assert(here.to_set() =~= next.to_set().insert(conversations[at].time));
}

/// The matches among some pending conversations, in the order in which they are dealt with.
pub open spec fn matches_in(
    configs: Seq<KeywordView>,
    pending: Seq<ConversationView>,
) -> Seq<MatchView>
    decreases pending.len(),
{
    if pending.len() == 0 {
        Seq::empty()
    } else {
        match match_of(configs, pending.last()) {
            Some(found) => seq![found] + matches_in(configs, pending.drop_last()),
            None => matches_in(configs, pending.drop_last()),
        }
    }
}

/// The keywords of a configuration as a configuration file may list them.
#[derive(Debug)]
pub enum KeywordList {
    /// They were plain texts.
    Plain(Vec<KeywordConfig>),
    /// They are values of which each is still to be read as a configuration.
    Typed(Vec<Json>),
}

/// The configuration that a plain keyword stands for.
pub open spec fn plain_keyword(keyword: Seq<char>) -> KeywordView {
    KeywordView {
        keywords: seq![keyword],
        match_mode: MatchMode::StartsWith,
        enabled: true,
        description: Seq::empty(),
    }
}

/// The texts of values that are texts.
pub open spec fn plain_texts(items: Seq<JsonTree>) -> Seq<Seq<char>> {
    items.map_values(|item: JsonTree| item->Text_0)
}

/// Sorts out the keywords of a configuration file: an array of texts stands for a list of
/// keywords to begin with, any other array for a list of configurations, and nothing but an array
/// is accepted.
pub fn deserialize_keywords(value: Json) -> (r: Option<KeywordList>)
    ensures
        match (value@, r) {
            (JsonTree::Array(items), Some(KeywordList::Plain(configs))) => {
                &&& forall|i: int| 0 <= i < items.len() ==> #[trigger] items[i] is Text
                &&& keyword_views(configs@) == plain_texts(items).map_values(
                    |keyword: Seq<char>| plain_keyword(keyword),
                )
            },
            (JsonTree::Array(items), Some(KeywordList::Typed(values))) => {
                &&& exists|i: int| 0 <= i < items.len() && !(#[trigger] items[i] is Text)
                &&& json::item_trees(values@) == items
            },
            (JsonTree::Array(_), None) => false,
            (_, r) => r is None,
        },
        match (value@, r) {
            (JsonTree::Array(items), Some(KeywordList::Plain(configs))) => {
                &&& configs@.len() == items.len()
                &&& forall|i: int|
                    0 <= i < items.len() ==> {
                        let config = #[trigger] configs@[i];
                        &&& config@.keywords.len() == 1
                        &&& JsonTree::Text(config@.keywords[0]) == items[i]
                        &&& config@.match_mode == MatchMode::StartsWith
                        &&& config@.enabled
                        &&& config@.description.len() == 0
                    }
            },
            (JsonTree::Array(items), Some(KeywordList::Typed(values))) => {
                &&& values@.len() == items.len()
                &&& forall|i: int| 0 <= i < items.len() ==> (#[trigger] values@[i])@ == items[i]
            },
            _ => r is None,
        },
{
    let plain: bool = match value.as_array() {
        Some(items) => all_texts(items),
        None => {
            return None;
        },
    };
    let ghost tree = value@;
    match value {
        Json::Array(items) => {
            proof {
                json::lemma_array_tree(items);
            }
            let ghost trees = json::item_trees(items@);
            if plain {
                let mut configs: Vec<KeywordConfig> = Vec::new();
                let ghost all = items@;
                for item in iter: items.into_iter()
                    invariant
                        iter.seq() == all,
                        trees == json::item_trees(all),
                        forall|i: int| 0 <= i < trees.len() ==> #[trigger] trees[i] is Text,
                        configs.len() == iter.index(),
                        forall|j: int|
                            0 <= j < configs.len() ==> (#[trigger] configs[j])@ == plain_keyword(
                                trees[j]->Text_0,
                            ),
                {
                    assert(item == all[iter.index() as int]);
                    assert(trees[iter.index() as int] == item@);
                    if let Json::Text(keyword) = item {
                        let mut keywords: Vec<String> = Vec::new();
                        keywords.push(keyword);
                        assert(records::texts(keywords@) =~= seq![keyword@]);
                        configs.push(
                            KeywordConfig {
                                keywords,
                                match_mode: default_match_mode(),
                                enabled: default_enabled(),
                                description: String::new(),
                            },
                        );
                    }
                }
                assert(keyword_views(configs@) =~= plain_texts(trees).map_values(
                    |keyword: Seq<char>| plain_keyword(keyword),
                ));
                Some(KeywordList::Plain(configs))
            } else {
                assert forall|i: int| 0 <= i < trees.len() implies (#[trigger] items@[i])@
                    == trees[i] by {}
                Some(KeywordList::Typed(items))
            }
        },
        _ => None,
    }
}

/// The first error of a list, as it is reported.
pub open spec fn first_error(parts: Seq<Result<KeywordParts, String>>) -> Option<Seq<char>>
    decreases parts.len(),
{
    if parts.len() == 0 {
        None
    } else {
        match (first_error(parts.drop_last()), parts.last()) {
            (Some(report), _) => Some(report),
            (None, Err(report)) => Some(report@),
            (None, Ok(_)) => None,
        }
    }
}

/// The configurations that a list of parts stands for, in order.
pub open spec fn all_meant(parts: Seq<Result<KeywordParts, String>>) -> Seq<KeywordView> {
    parts.map_values(|part: Result<KeywordParts, String>| part->Ok_0.meant())
}

/// The configurations of a list of objects, in order, given what each of them was read as, or the
/// first error among them.
pub fn typed_keywords(parts: Vec<Result<KeywordParts, String>>) -> (r: Result<
    Vec<KeywordConfig>,
    String,
>)
    ensures
        match (r, first_error(parts@)) {
            (Ok(configs), None) => keyword_views(configs@) == all_meant(parts@),
            (Err(report), Some(expected)) => report@ == expected,
            _ => false,
        },
{
    let ghost all = parts@;
    let mut configs: Vec<KeywordConfig> = Vec::new();
    let mut failed: Option<String> = None;
    for part in iter: parts.into_iter()
        invariant
            iter.seq() == all,
            match (failed, first_error(all.take(iter.index() as int))) {
                (Some(report), Some(expected)) => report@ == expected,
                (None, None) => {
                    &&& configs.len() == iter.index()
                    &&& forall|i: int|
                        0 <= i < configs.len() ==> (#[trigger] configs[i])@
                            == all[i]->Ok_0.meant()
                },
                _ => false,
            },
    {
        let ghost at = iter.index() as int;
        assert(part == all[at]);
        assert(all.take(at + 1).drop_last() =~= all.take(at));
        if failed.is_none() {
            match part {
                Ok(part) => {
                    configs.push(part.into_config());
                },
                Err(report) => {
                    failed = Some(report);
                },
            }
        }
    }
    assert(all.take(all.len() as int) =~= all);
    match failed {
        Some(report) => Err(report),
        None => {
            assert(keyword_views(configs@) =~= all_meant(all));
            Ok(configs)
        },
    }
}

fn all_texts(items: &Vec<Json>) -> (r: bool)
    ensures
        r == (forall|i: int|
            0 <= i < items.len() ==> #[trigger] json::item_trees(items@)[i] is Text),
{
    for i in 0..items.len()
        invariant
            forall|j: int| 0 <= j < i ==> #[trigger] json::item_trees(items@)[j] is Text,
    {
        if !items[i].is_string() {
            assert(!(json::item_trees(items@)[i as int] is Text));
            return false;
        }
    }
    true
}

/// A keyword that matches a query exactly begins it, and a keyword that begins a query occurs in
/// it: the modes are ordered by how strict they are.
pub proof fn law_modes_are_ordered(keyword: Seq<char>, query: Seq<char>)
    ensures
        matches_query(MatchMode::Exact, keyword, query) ==> matches_query(
            MatchMode::StartsWith,
            keyword,
            query,
        ),
        matches_query(MatchMode::StartsWith, keyword, query) ==> matches_query(
            MatchMode::Contains,
            keyword,
            query,
        ),
{
    if keyword.is_prefix_of(query) {
        assert(query.subrange(0, keyword.len() as int) =~= keyword);
        assert(text::occurs_at(keyword, query, 0));
    }
}

/// A match names a keyword of an enabled configuration which does match the query, so it is among
/// the enabled keywords.
pub proof fn law_match_is_enabled(configs: Seq<KeywordView>, query: Seq<char>)
    requires
        first_match(configs, query) is Some,
    ensures
        ({
            let (config, keyword) = first_match(configs, query)->0;
            &&& configs.contains(config)
            &&& config.enabled
            &&& config.keywords.contains(keyword)
            &&& matches_query(config.match_mode, keyword, query)
            &&& enabled_keywords(configs).contains(keyword)
        }),
    decreases configs.len(),
{
    let (config, keyword) = first_match(configs, query)->0;
    let first = configs[0];
    if first.enabled && first_keyword(first.match_mode, first.keywords, query) is Some {
        lemma_first_keyword_matches(first.match_mode, first.keywords, query);
        lemma_enabled_contains(configs, 0, keyword);
    } else {
        let rest = configs.drop_first();
        law_match_is_enabled(rest, query);
        let i = choose|i: int| 0 <= i < rest.len() && rest[i] == config;
        assert(configs[i + 1] == config);
        lemma_enabled_contains(configs, i + 1, keyword);
    }
}

/// There is no match exactly where no keyword of an enabled configuration matches the query.
pub proof fn law_no_match_means_none(configs: Seq<KeywordView>, query: Seq<char>)
    ensures
        first_match(configs, query) is None <==> forall|i: int, j: int|
            0 <= i < configs.len() && configs[i].enabled && 0 <= j < configs[i].keywords.len()
                ==> !matches_query(configs[i].match_mode, #[trigger] configs[i].keywords[j], query),
    decreases configs.len(),
{
    if configs.len() > 0 {
        let first = configs[0];
        let rest = configs.drop_first();
        law_no_match_means_none(rest, query);
        lemma_no_keyword(first.match_mode, first.keywords, query);
        if first_match(configs, query) is None {
            assert forall|i: int, j: int|
                0 <= i < configs.len() && configs[i].enabled && 0 <= j
                    < configs[i].keywords.len() implies !matches_query(
                configs[i].match_mode,
                #[trigger] configs[i].keywords[j],
                query,
            ) by {
                if i > 0 {
                    assert(rest[i - 1] == configs[i]);
                    assert(!matches_query(
                        rest[i - 1].match_mode,
                        rest[i - 1].keywords[j],
                        query,
                    ));
                }
            }
        } else if first.enabled && first_keyword(first.match_mode, first.keywords, query) is Some {
            let j = choose|j: int|
                0 <= j < first.keywords.len() && matches_query(
                    first.match_mode,
                    #[trigger] first.keywords[j],
                    query,
                );
            assert(matches_query(configs[0].match_mode, configs[0].keywords[j], query));
        } else {
            let (i, j) = choose|i: int, j: int|
                0 <= i < rest.len() && rest[i].enabled && 0 <= j < rest[i].keywords.len()
                    && matches_query(rest[i].match_mode, #[trigger] rest[i].keywords[j], query);
            assert(rest[i] == configs[i + 1]);
            assert(matches_query(configs[i + 1].match_mode, configs[i + 1].keywords[j], query));
        }
    }
}

/// Dealing with the pending conversations one match at a time tells each match once, in order,
/// and leaves nothing out.
pub proof fn law_matches_are_told_in_order(
    configs: Seq<KeywordView>,
    pending: Seq<ConversationView>,
)
    ensures
        left_after(configs, pending) <= pending.len(),
        match next_match(configs, pending) {
            Some(found) => {
                &&& left_after(configs, pending) < pending.len()
                &&& found.conversation == pending[left_after(configs, pending) as int]
                &&& matches_in(configs, pending) == seq![found] + matches_in(
                    configs,
                    pending.take(left_after(configs, pending) as int),
                )
            },
            None => left_after(configs, pending) == 0 && matches_in(configs, pending)
                == Seq::<MatchView>::empty(),
        },
    decreases pending.len(),
{
    if pending.len() > 0 {
        let rest = pending.drop_last();
        if match_of(configs, pending.last()) is Some {
            assert(pending.take(pending.len() - 1) =~= rest);
        } else {
            law_matches_are_told_in_order(configs, rest);
            let left = left_after(configs, rest) as int;
            assert(rest.take(left) =~= pending.take(left));
        }
    }
}

/// Dealing with pending conversations loses none of them: each is either marked as seen or still
/// pending. Each match takes at least one conversation off, and once there is no match left, all
/// that were pending are seen.
pub proof fn law_advancing_loses_nothing(state: WatcherView)
    ensures
        ({
            let next = advanced(state);
            &&& next.seen.union(times(next.pending)) == state.seen.union(times(state.pending))
            &&& match next_match(state.keywords, state.pending) {
                Some(_) => next.pending.len() < state.pending.len(),
                None => next.pending.len() == 0 && next.seen == state.seen.union(
                    times(state.pending),
                ),
            }
        }),
{
    law_matches_are_told_in_order(state.keywords, state.pending);
    let left = left_after(state.keywords, state.pending) as int;
    let next = advanced(state);
    lemma_times_split(state.pending, left);
    assert(next.seen.union(times(next.pending)) =~= state.seen.union(times(state.pending)));
    if left == 0 {
        assert(state.pending.skip(0) =~= state.pending);
    }
}

/// The times of some conversations are those of the first and those of the rest.
proof fn lemma_times_split(conversations: Seq<ConversationView>, at: int)
    requires
        0 <= at <= conversations.len(),
    ensures
        times(conversations) == times(conversations.take(at)).union(times(conversations.skip(at))),
{
    let all = conversations.map_values(|c: ConversationView| c.time);
    let first = conversations.take(at).map_values(|c: ConversationView| c.time);
    let rest = conversations.skip(at).map_values(|c: ConversationView| c.time);
    assert forall|t: i64| all.to_set().contains(t) == first.to_set().union(
        rest.to_set(),
    ).contains(t) by {
        if all.contains(t) {
            let i = choose|i: int| 0 <= i < all.len() && all[i] == t;
            if i < at {
                assert(first[i] == t);
            } else {
                assert(rest[i - at] == t);
            }
        }
        if first.contains(t) {
            let i = choose|i: int| 0 <= i < first.len() && first[i] == t;
            assert(all[i] == t);
        }
        if rest.contains(t) {
            let i = choose|i: int| 0 <= i < rest.len() && rest[i] == t;
            assert(all[i + at] == t);
        }
    }
    assert(all.to_set() =~= first.to_set().union(rest.to_set()));
}

/// Once the new conversations of a poll have been dealt with, no later poll takes a conversation
/// of one of their times, nor of a time seen before, for new; fetching the same conversations
/// again finds nothing new.
pub proof fn law_nothing_is_told_twice(
    conversations: Seq<ConversationView>,
    later: Seq<ConversationView>,
    seen: Set<i64>,
)
    ensures
        ({
            let seen_after = seen.union(times(fresh(conversations, seen)));
            &&& forall|i: int|
                0 <= i < fresh(later, seen_after).len() ==> {
                    let time = (#[trigger] fresh(later, seen_after)[i]).time;
                    !seen.contains(time) && !times(fresh(conversations, seen)).contains(time)
                }
            &&& fresh(conversations, seen_after) == Seq::<ConversationView>::empty()
        }),
{
    let seen_after = seen.union(times(fresh(conversations, seen)));
    let unseen_after = |c: ConversationView| !seen_after.contains(c.time);
    assert forall|i: int| 0 <= i < fresh(later, seen_after).len() implies {
        let time = (#[trigger] fresh(later, seen_after)[i]).time;
        !seen.contains(time) && !times(fresh(conversations, seen)).contains(time)
    } by {
        lemma_fresh_is_unseen(later, seen_after, i);
    }
    if fresh(conversations, seen_after).len() > 0 {
        let found = fresh(conversations, seen_after)[0];
        lemma_fresh_is_unseen(conversations, seen_after, 0);
        lemma_unseen_is_fresh(conversations, seen, found);
    }
}

/// Whether these can be the states of a watcher, one after the other: each follows from the one
/// before by beginning a poll or by dealing with pending conversations.
pub open spec fn is_record(states: Seq<WatcherView>) -> bool {
    forall|i: int| 0 < i < states.len() ==> follows(states[i - 1], #[trigger] states[i])
}

/// Whether a state follows from another.
pub open spec fn follows(before: WatcherView, after: WatcherView) -> bool {
    after == advanced(before) || exists|conversations: Seq<ConversationView>|
        after == #[trigger] polled(before, conversations)
}

/// Times once seen are never forgotten, finitely many times are seen, and the count of the
/// conversations that were dealt with never decreases.
pub proof fn law_nothing_is_forgotten(states: Seq<WatcherView>, earlier: int, later: int)
    requires
        is_record(states),
        0 <= earlier <= later < states.len(),
        states[earlier].seen.finite(),
    ensures
        states[earlier].seen.subset_of(states[later].seen),
        states[later].seen.finite(),
        states[earlier].seen.len() <= states[later].seen.len(),
        states[earlier].processed <= states[later].processed,
        states[earlier].keywords == states[later].keywords,
    decreases later - earlier,
{
    if earlier < later {
        law_nothing_is_forgotten(states, earlier, later - 1);
        let before = states[later - 1];
        let after = states[later];
        assert(follows(before, after));
        if after == advanced(before) {
            law_matches_are_told_in_order(before.keywords, before.pending);
            let left = left_after(before.keywords, before.pending) as int;
            vstd::seq_lib::seq_to_set_is_finite(
                before.pending.skip(left).map_values(|c: ConversationView| c.time),
            );
        }
        vstd::set_lib::lemma_len_subset(states[earlier].seen, after.seen);
    }
}

/// Once a time was seen, no conversation of that time is told by any later poll: from the next
/// poll on, none is ever pending.
pub proof fn law_seen_is_never_told_again(
    states: Seq<WatcherView>,
    poll: int,
    conversations: Seq<ConversationView>,
    later: int,
    time: i64,
)
    requires
        is_record(states),
        0 < poll <= later < states.len(),
        states[poll] == polled(states[poll - 1], conversations),
        states[poll - 1].seen.contains(time),
    ensures
        states[later].seen.contains(time),
        forall|i: int|
            0 <= i < states[later].pending.len() ==> (#[trigger] states[later].pending[i]).time
                != time,
        next_match(states[later].keywords, states[later].pending) matches Some(found)
            ==> found.conversation.time != time,
    decreases later - poll,
{
    let after = states[later];
    if later > poll {
        law_seen_is_never_told_again(states, poll, conversations, later - 1, time);
    }
    let before = states[later - 1];
    assert(follows(before, after));
    law_matches_are_told_in_order(before.keywords, before.pending);
    assert forall|i: int| 0 <= i < after.pending.len() implies (#[trigger] after.pending[i]).time
        != time by {
        if later > poll && after == advanced(before) {
            assert(after.pending[i] == before.pending[i]);
        } else {
            let fetched = if later > poll {
                choose|c: Seq<ConversationView>| after == #[trigger] polled(before, c)
            } else {
                conversations
            };
            lemma_fresh_is_unseen(fetched, before.seen, i);
        }
    }
    law_matches_are_told_in_order(after.keywords, after.pending);
}

/// A poll that fetches conversations of seen times alone counts as one without new ones.
pub proof fn law_seen_polls_are_idle(state: WatcherView, conversations: Seq<ConversationView>)
    requires
        forall|i: int|
            0 <= i < conversations.len() ==> state.seen.contains(
                (#[trigger] conversations[i]).time,
            ),
    ensures
        polled(state, conversations).pending.len() == 0,
{
    if fresh(conversations, state.seen).len() > 0 {
        lemma_fresh_is_unseen(conversations, state.seen, 0);
        let found = fresh(conversations, state.seen)[0];
        let i = choose|i: int| 0 <= i < conversations.len() && conversations[i] == found;
        assert(state.seen.contains(conversations[i].time));
    }
}

/// A list of plain keywords stands for the same configurations as a list of objects that tell one
/// keyword each and nothing else.
pub proof fn law_formats_agree(keywords: Seq<Seq<char>>)
    ensures
        keywords.map_values(|keyword: Seq<char>| plain_keyword(keyword)) == keywords.map_values(
            |keyword: Seq<char>| filled_in(seq![keyword], None, None, None),
        ),
        keywords.map_values(|keyword: Seq<char>| plain_keyword(keyword)).len() == keywords.len(),
{
    assert(keywords.map_values(|keyword: Seq<char>| plain_keyword(keyword))
        =~= keywords.map_values(
        |keyword: Seq<char>| filled_in(seq![keyword], None, None, None),
    ));
}

/// A conversation that is fetched while its time is unseen is among the new ones.
pub proof fn law_unseen_is_new(
    conversations: Seq<ConversationView>,
    seen: Set<i64>,
    conversation: ConversationView,
)
    requires
        conversations.contains(conversation),
        !seen.contains(conversation.time),
    ensures
        fresh(conversations, seen).contains(conversation),
{
    lemma_unseen_is_fresh(conversations, seen, conversation);
}

proof fn lemma_fresh_is_unseen(conversations: Seq<ConversationView>, seen: Set<i64>, i: int)
    requires
        0 <= i < fresh(conversations, seen).len(),
    ensures
        !seen.contains(fresh(conversations, seen)[i].time),
        conversations.contains(fresh(conversations, seen)[i]),
{
    let unseen = |c: ConversationView| !seen.contains(c.time);
    broadcast use vstd::seq_lib::group_seq_properties;

    conversations.lemma_filter_pred(unseen, i);
    conversations.lemma_filter_contains_rev(unseen, fresh(conversations, seen)[i]);
}

proof fn lemma_unseen_is_fresh(
    conversations: Seq<ConversationView>,
    seen: Set<i64>,
    conversation: ConversationView,
)
    requires
        conversations.contains(conversation),
        !seen.contains(conversation.time),
    ensures
        fresh(conversations, seen).contains(conversation),
        times(fresh(conversations, seen)).contains(conversation.time),
{
    let unseen = |c: ConversationView| !seen.contains(c.time);
    let at = choose|i: int| 0 <= i < conversations.len() && conversations[i] == conversation;
    conversations.lemma_filter_contains(unseen, at);
    let new = fresh(conversations, seen);
    let k = choose|k: int| 0 <= k < new.len() && new[k] == conversation;
    assert(new.map_values(|c: ConversationView| c.time)[k] == conversation.time);
}

proof fn lemma_first_keyword_matches(mode: MatchMode, keywords: Seq<Seq<char>>, query: Seq<char>)
    requires
        first_keyword(mode, keywords, query) is Some,
    ensures
        keywords.contains(first_keyword(mode, keywords, query)->0),
        matches_query(mode, first_keyword(mode, keywords, query)->0, query),
    decreases keywords.len(),
{
    if matches_query(mode, keywords[0], query) {
    } else {
        let rest = keywords.drop_first();
        lemma_first_keyword_matches(mode, rest, query);
        let i = choose|i: int|
            0 <= i < rest.len() && rest[i] == first_keyword(mode, rest, query)->0;
        assert(keywords[i + 1] == rest[i]);
    }
}

proof fn lemma_no_keyword(mode: MatchMode, keywords: Seq<Seq<char>>, query: Seq<char>)
    ensures
        first_keyword(mode, keywords, query) is None <==> forall|j: int|
            0 <= j < keywords.len() ==> !matches_query(mode, #[trigger] keywords[j], query),
    decreases keywords.len(),
{
    if keywords.len() > 0 {
        let rest = keywords.drop_first();
        lemma_no_keyword(mode, rest, query);
        if first_keyword(mode, keywords, query) is None {
            assert forall|j: int| 0 <= j < keywords.len() implies !matches_query(
                mode,
                #[trigger] keywords[j],
                query,
            ) by {
                if j > 0 {
                    assert(rest[j - 1] == keywords[j]);
                }
            }
        } else if !matches_query(mode, keywords[0], query) {
            let j = choose|j: int|
                0 <= j < rest.len() && matches_query(mode, #[trigger] rest[j], query);
            assert(keywords[j + 1] == rest[j]);
        }
    }
}

proof fn lemma_enabled_contains(configs: Seq<KeywordView>, i: int, keyword: Seq<char>)
    requires
        0 <= i < configs.len(),
        configs[i].enabled,
        configs[i].keywords.contains(keyword),
    ensures
        enabled_keywords(configs).contains(keyword),
    decreases configs.len(),
{
    let front = enabled_keywords(configs.drop_last());
    if i == configs.len() - 1 {
        let keywords = configs[i].keywords;
        let k = choose|k: int| 0 <= k < keywords.len() && keywords[k] == keyword;
        assert((front + keywords)[front.len() + k] == keyword);
    } else {
        assert(configs.drop_last()[i] == configs[i]);
        lemma_enabled_contains(configs.drop_last(), i, keyword);
        let k = choose|k: int| 0 <= k < front.len() && front[k] == keyword;
        assert(enabled_keywords(configs)[k] == keyword);
    }
}

/// A keyword matches a query in the mode `StartsWith` where the query begins with all of it, in the
/// mode `Contains` where the query holds all of it from some position on, and in the mode `Exact`
/// where it is the query.
pub proof fn law_keywords_match_in_full(mode: MatchMode, keyword: Seq<char>, query: Seq<char>)
    ensures
        matches_query(mode, keyword, query) <==> match mode {
            MatchMode::StartsWith => keyword.len() <= query.len() && query.take(
                keyword.len() as int,
            ) == keyword,
            MatchMode::Contains => exists|at: int|
                0 <= at && at + keyword.len() <= query.len() && #[trigger] query.subrange(
                    at,
                    at + keyword.len(),
                ) == keyword,
            MatchMode::Exact => query == keyword,
        },
{
    text::law_parts_stand_in_the_text(keyword, query);
    if keyword.len() <= query.len() {
        assert(query.take(keyword.len() as int) =~= query.subrange(0, keyword.len() as int));
    }
    if mode == MatchMode::StartsWith && keyword.is_prefix_of(query) {
        assert(query.take(keyword.len() as int) =~= keyword);
    }
    if keyword.len() <= query.len() && query.take(keyword.len() as int) == keyword {
        assert(keyword.is_prefix_of(query));
    }
}

/// A match names an enabled configuration and one of its keywords, all of which stands in the query
/// as the mode asks for.
pub proof fn law_match_stands_in_the_query(configs: Seq<KeywordView>, query: Seq<char>)
    ensures
        match first_match(configs, query) {
            Some((config, keyword)) => {
                &&& configs.contains(config)
                &&& config.enabled
                &&& config.keywords.contains(keyword)
                &&& match config.match_mode {
                    MatchMode::StartsWith => keyword.len() <= query.len() && query.take(
                        keyword.len() as int,
                    ) == keyword,
                    MatchMode::Contains => exists|at: int|
                        0 <= at && at + keyword.len() <= query.len() && #[trigger] query.subrange(
                            at,
                            at + keyword.len(),
                        ) == keyword,
                    MatchMode::Exact => query == keyword,
                }
            },
            None => true,
        },
{
    if let Some((config, keyword)) = first_match(configs, query) {
        law_match_is_enabled(configs, query);
        law_keywords_match_in_full(config.match_mode, keyword, query);
    }
}

/// Where there is no match, no keyword of an enabled configuration stands in the query as its mode
/// asks for.
pub proof fn law_no_match_stands_in_the_query(configs: Seq<KeywordView>, query: Seq<char>)
    ensures
        first_match(configs, query) is None ==> forall|i: int, j: int|
            0 <= i < configs.len() && configs[i].enabled && 0 <= j < configs[i].keywords.len()
                ==> {
                let keyword = #[trigger] configs[i].keywords[j];
                match configs[i].match_mode {
                    MatchMode::StartsWith => !(keyword.len() <= query.len() && query.take(
                        keyword.len() as int,
                    ) == keyword),
                    MatchMode::Contains => forall|at: int|
                        0 <= at && at + keyword.len() <= query.len() ==> #[trigger] query.subrange(
                            at,
                            at + keyword.len(),
                        ) != keyword,
                    MatchMode::Exact => query != keyword,
                }
            },
{
    law_no_match_means_none(configs, query);
    if first_match(configs, query) is None {
        assert forall|i: int, j: int|
            0 <= i < configs.len() && configs[i].enabled && 0 <= j
                < configs[i].keywords.len() implies {
            let keyword = #[trigger] configs[i].keywords[j];
            match configs[i].match_mode {
                MatchMode::StartsWith => !(keyword.len() <= query.len() && query.take(
                    keyword.len() as int,
                ) == keyword),
                MatchMode::Contains => forall|at: int|
                    0 <= at && at + keyword.len() <= query.len() ==> #[trigger] query.subrange(
                        at,
                        at + keyword.len(),
                    ) != keyword,
                MatchMode::Exact => query != keyword,
            }
        } by {
            law_keywords_match_in_full(configs[i].match_mode, configs[i].keywords[j], query);
        }
    }
}

/// The first configuration counts, and in it the first keyword: what comes before others is taken
/// where it matches and is enabled, and else passed over.
pub proof fn law_first_match_comes_first(
    config: KeywordView,
    configs: Seq<KeywordView>,
    keyword: Seq<char>,
    keywords: Seq<Seq<char>>,
    mode: MatchMode,
    query: Seq<char>,
)
    ensures
        first_keyword(mode, Seq::empty(), query) is None,
        first_keyword(mode, seq![keyword] + keywords, query) == (if matches_query(
            mode,
            keyword,
            query,
        ) {
            Some(keyword)
        } else {
            first_keyword(mode, keywords, query)
        }),
        first_match(Seq::empty(), query) is None,
        first_match(seq![config] + configs, query) == (if config.enabled && first_keyword(
            config.match_mode,
            config.keywords,
            query,
        ) is Some {
            Some((config, first_keyword(config.match_mode, config.keywords, query)->0))
        } else {
            first_match(configs, query)
        }),
{
    assert((seq![keyword] + keywords).drop_first() =~= keywords);
    assert((seq![config] + configs).drop_first() =~= configs);
}

/// The match of a conversation is the first match of its query, and tells that conversation.
pub proof fn law_match_tells_its_conversation(
    configs: Seq<KeywordView>,
    conversation: ConversationView,
)
    ensures
        match (match_of(configs, conversation), first_match(configs, conversation.query)) {
            (Some(found), Some((config, keyword))) => found.config == config
                && found.matched_keyword == keyword && found.conversation == conversation,
            (None, None) => true,
            _ => false,
        },
{
}

/// The enabled keywords are those of the enabled configurations, one after the other.
pub proof fn law_enabled_keywords_in_order(configs: Seq<KeywordView>)
    ensures
        enabled_keywords(configs) == configs.filter(
            |config: KeywordView| config.enabled,
        ).map_values(|config: KeywordView| config.keywords).flatten(),
    decreases configs.len(),
{
    let enabled = |config: KeywordView| config.enabled;
    let keywords = |config: KeywordView| config.keywords;
    reveal(Seq::filter);
    if configs.len() == 0 {
        assert(configs.filter(enabled).map_values(keywords) =~= Seq::empty());
        assert(configs.filter(enabled).map_values(keywords).flatten() =~= Seq::empty());
    } else {
        let front = configs.drop_last();
        law_enabled_keywords_in_order(front);
        let before = front.filter(enabled).map_values(keywords);
        if configs.last().enabled {
            assert(configs.filter(enabled).map_values(keywords) =~= before.push(
                configs.last().keywords,
            ));
            before.lemma_flatten_push(configs.last().keywords);
        }
    }
}

/// The content of a configuration is its keywords, in order, its mode, whether it is enabled and
/// its description; the contents of a list are those of its configurations, in order.
pub proof fn law_keyword_content(config: KeywordConfig, configs: Seq<KeywordConfig>, i: int)
    ensures
        config@.match_mode == config.match_mode,
        config@.enabled == config.enabled,
        config@.description == config.description@,
        config@.keywords.len() == config.keywords@.len(),
        0 <= i < config.keywords@.len() ==> config@.keywords[i] == config.keywords@[i]@,
        keyword_views(configs).len() == configs.len(),
        0 <= i < configs.len() ==> keyword_views(configs)[i] == configs[i]@,
{
}

/// The content of a match is its configuration, its keyword and its conversation.
pub proof fn law_match_content(found: KeywordMatch)
    ensures
        found@.config == found.config@,
        found@.matched_keyword == found.matched_keyword@,
        found@.conversation == found.conversation@,
{
}

/// The new conversations are just those whose times were not seen, in the order in which they came;
/// the times of some conversations are just the times that one of them has.
pub proof fn law_new_conversations_are_the_unseen(
    conversations: Seq<ConversationView>,
    seen: Set<i64>,
    time: i64,
)
    ensures
        fresh(conversations, seen) == conversations.filter(
            |conversation: ConversationView| !seen.contains(conversation.time),
        ),
        times(conversations).contains(time) <==> exists|i: int|
            0 <= i < conversations.len() && (#[trigger] conversations[i]).time == time,
{
    let listed = conversations.map_values(|conversation: ConversationView| conversation.time);
    if times(conversations).contains(time) {
        let i = choose|i: int| 0 <= i < listed.len() && listed[i] == time;
        assert(conversations[i].time == time);
    }
    if exists|i: int| 0 <= i < conversations.len() && (#[trigger] conversations[i]).time == time {
        let i = choose|i: int|
            0 <= i < conversations.len() && (#[trigger] conversations[i]).time == time;
        assert(listed[i] == time);
    }
}

/// The pending conversations are dealt with from the last to the first, up to the one that matches:
/// none behind it matches, and where none matches at all, none is left.
pub proof fn law_next_match_is_the_oldest(
    configs: Seq<KeywordView>,
    pending: Seq<ConversationView>,
)
    ensures
        ({
            let left = left_after(configs, pending) as int;
            &&& 0 <= left <= pending.len()
            &&& match next_match(configs, pending) {
                Some(found) => {
                    &&& left < pending.len()
                    &&& match_of(configs, pending[left]) == Some(found)
                    &&& forall|i: int|
                        left < i < pending.len() ==> match_of(
                            configs,
                            #[trigger] pending[i],
                        ) is None
                },
                None => left == 0 && forall|i: int|
                    0 <= i < pending.len() ==> match_of(configs, #[trigger] pending[i]) is None,
            }
        }),
    decreases pending.len(),
{
    if pending.len() > 0 && match_of(configs, pending.last()) is None {
        let rest = pending.drop_last();
        law_next_match_is_the_oldest(configs, rest);
        let left = left_after(configs, rest) as int;
        if next_match(configs, rest) is Some {
            assert forall|i: int| left < i < pending.len() implies match_of(
                configs,
                #[trigger] pending[i],
            ) is None by {
                if i < rest.len() {
                    assert(rest[i] == pending[i]);
                }
            }
        } else {
            assert forall|i: int| 0 <= i < pending.len() implies match_of(
                configs,
                #[trigger] pending[i],
            ) is None by {
                if i < rest.len() {
                    assert(rest[i] == pending[i]);
                }
            }
        }
    }
}

/// Dealing with pending conversations takes them off from the last on, marks the time of each as
/// seen, and counts each, up to the largest number that is told; nothing else changes.
pub proof fn law_advancing_marks_and_counts(state: WatcherView, time: i64)
    ensures
        ({
            let left = left_after(state.keywords, state.pending) as int;
            let next = advanced(state);
            &&& next.pending == state.pending.take(left)
            &&& next.seen.contains(time) <==> state.seen.contains(time) || exists|i: int|
                left <= i < state.pending.len() && (#[trigger] state.pending[i]).time == time
            &&& state.processed + (state.pending.len() - left) <= usize::MAX ==> next.processed
                == state.processed + (state.pending.len() - left)
            &&& state.processed + (state.pending.len() - left) > usize::MAX ==> next.processed
                == usize::MAX
            &&& next.keywords == state.keywords
            &&& next.fetch_limit == state.fetch_limit
            &&& next.pauses == state.pauses
        }),
{
    law_next_match_is_the_oldest(state.keywords, state.pending);
    let left = left_after(state.keywords, state.pending) as int;
    let taken = state.pending.skip(left);
    law_new_conversations_are_the_unseen(taken, state.seen, time);
    if exists|i: int| 0 <= i < taken.len() && (#[trigger] taken[i]).time == time {
        let i = choose|i: int| 0 <= i < taken.len() && (#[trigger] taken[i]).time == time;
        assert(state.pending[left + i].time == time);
    }
    if exists|i: int|
        left <= i < state.pending.len() && (#[trigger] state.pending[i]).time == time {
        let i = choose|i: int|
            left <= i < state.pending.len() && (#[trigger] state.pending[i]).time == time;
        assert(taken[i - left].time == time);
    }
}

/// Beginning a poll takes up the new conversations and changes nothing else.
pub proof fn law_polling_takes_up_the_new(
    state: WatcherView,
    conversations: Seq<ConversationView>,
)
    ensures
        ({
            let next = polled(state, conversations);
            &&& next.pending == conversations.filter(
                |conversation: ConversationView| !state.seen.contains(conversation.time),
            )
            &&& next.seen == state.seen
            &&& next.processed == state.processed
            &&& next.keywords == state.keywords
            &&& next.fetch_limit == state.fetch_limit
            &&& next.pauses == state.pauses
        }),
{
}

/// The states of a watcher go on with any poll and with any dealing with pending conversations.
pub proof fn law_records_grow(
    states: Seq<WatcherView>,
    conversations: Seq<ConversationView>,
)
    requires
        is_record(states),
        states.len() > 0,
    ensures
        is_record(states.push(advanced(states.last()))),
        is_record(states.push(polled(states.last(), conversations))),
        is_record(seq![states[0]]),
{
    let last = states.last();
    let dealt = states.push(advanced(last));
    assert forall|i: int| 0 < i < dealt.len() implies follows(
        dealt[i - 1],
        #[trigger] dealt[i],
    ) by {
        if i < states.len() {
            assert(follows(states[i - 1], states[i]));
        }
    }
    let begun = states.push(polled(last, conversations));
    assert forall|i: int| 0 < i < begun.len() implies follows(
        begun[i - 1],
        #[trigger] begun[i],
    ) by {
        if i < states.len() {
            assert(follows(states[i - 1], states[i]));
        } else {
            assert(begun[i] == polled(last, conversations));
        }
    }
}

/// The matches among pending conversations are told from the last to the first, each once.
pub proof fn law_one_more_pending(
    configs: Seq<KeywordView>,
    pending: Seq<ConversationView>,
    conversation: ConversationView,
)
    ensures
        matches_in(configs, Seq::empty()) == Seq::<MatchView>::empty(),
        matches_in(configs, pending.push(conversation)) == (match match_of(
            configs,
            conversation,
        ) {
            Some(found) => seq![found] + matches_in(configs, pending),
            None => matches_in(configs, pending),
        }),
{
    assert(pending.push(conversation).drop_last() =~= pending);
}

/// What is told of some keywords is kept, and what is left out is filled in: they then begin the
/// query, are matched, and have no description.
pub proof fn law_what_is_told_is_kept(parts: KeywordParts, i: int)
    ensures
        parts.meant().keywords.len() == parts.keywords@.len(),
        0 <= i < parts.keywords@.len() ==> parts.meant().keywords[i] == parts.keywords@[i]@,
        match parts.match_mode {
            Some(mode) => parts.meant().match_mode == mode,
            None => parts.meant().match_mode == MatchMode::StartsWith,
        },
        match parts.enabled {
            Some(enabled) => parts.meant().enabled == enabled,
            None => parts.meant().enabled,
        },
        match parts.description {
            Some(description) => parts.meant().description == description@,
            None => parts.meant().description.len() == 0,
        },
{
}

/// A plain keyword stands for a configuration of that keyword alone, which begins the query and is
/// matched.
pub proof fn law_plain_keywords(keyword: Seq<char>, items: Seq<JsonTree>, i: int)
    ensures
        plain_keyword(keyword).keywords.len() == 1,
        plain_keyword(keyword).keywords[0] == keyword,
        plain_keyword(keyword).match_mode == MatchMode::StartsWith,
        plain_keyword(keyword).enabled,
        plain_keyword(keyword).description.len() == 0,
        plain_texts(items).len() == items.len(),
        0 <= i < items.len() && items[i] is Text ==> JsonTree::Text(plain_texts(items)[i])
            == items[i],
{
}

/// The first error of a list stays the first whatever comes behind it, and one more error is the
/// first where there was none.
pub proof fn law_first_error_stays(
    parts: Seq<Result<KeywordParts, String>>,
    part: Result<KeywordParts, String>,
    i: int,
)
    ensures
        first_error(Seq::empty()) is None,
        match (first_error(parts), part) {
            (Some(report), _) => first_error(parts.push(part)) == Some(report),
            (None, Err(report)) => first_error(parts.push(part)) == Some(report@),
            (None, Ok(_)) => first_error(parts.push(part)) is None,
        },
        all_meant(parts).len() == parts.len(),
        0 <= i < parts.len() && parts[i] is Ok ==> all_meant(parts)[i] == parts[i]->Ok_0.meant(),
{
    assert(parts.push(part).drop_last() =~= parts);
}

} // verus!
