//! Requests, answers and decisions of a client for XiaoAi speakers.

pub mod api;
pub mod clients;
pub mod config;
pub mod connection;
pub mod conversations;
pub mod cookies;
pub mod digest;
pub mod error;
pub mod form;
pub mod json;
pub mod links;
pub mod login;
pub mod messages;
pub mod pairs;
pub mod records;
pub mod request;
pub mod response;
pub mod server;
pub mod text;
pub mod util;
pub mod watcher;
pub mod xiaoai;

pub use conversations::ConversationResponse;
pub use error::Error;
pub use records::{
    AnswerRecord, Conversation, ConversationAnswer, ConversationData, DeviceInfo, MessageRecord,
    PlayState, PlayerStatus, TtsInfo,
};
pub use response::XiaoaiResponse;
pub use server::WsConfig;
pub use watcher::{ConversationWatcher, KeywordConfig, KeywordMatch, MatchMode, WatcherConfig};
pub use xiaoai::Xiaoai;
