//! Wire-level message types.
//!
//! Two independent message families arrive on the same text channel: the
//! join/question family, discriminated by a `type` field, and the versioned
//! chat family, discriminated by a `version` tag.  The chat family's tags
//! and sender kinds are closed enumerations; a tag outside them means "not
//! this family" and is ignored.  Timestamps are carried as plain seconds
//! since the Unix epoch.

use vstd::prelude::*;
use vstd::string::StringExecFns;

verus! {

/// Discriminant of the versioned chat message family.
#[derive(Clone, Copy, Debug, PartialEq, Eq, Structural)]
pub enum Version {
    NewChatRoom,
    Message,
    ConfigUpdate,
    SystemPing,
    ContestUpdate,
    AiReply,
    ResponseFromMcp,
    GetUserDetails,
    GetNextQuestion,
}

/// Who sent a chat-family envelope.
#[derive(Clone, Copy, Debug, PartialEq, Eq, Structural)]
pub enum CommSender {
    System,
    User,
}

/// Who authored one chat message.
#[derive(Clone, Copy, Debug, PartialEq, Eq, Structural)]
pub enum MessageSender {
    Ai,
    User,
    System,
}

/// One chat message, with its timestamp as seconds since the Unix epoch.
#[derive(Clone, Debug)]
pub struct Message {
    pub id: String,
    pub text: String,
    pub sender: MessageSender,
    pub timestamp: i64,
    pub is_code: Option<bool>,
}

/// Per-user configuration carried by chat-family envelopes.
#[derive(Clone, Debug)]
pub struct UserConfig {
    pub explain_style: String,
}

/// A chat-family envelope: the version tag and sender are always present,
/// the remaining fields depend on the variant.
#[derive(Clone, Debug)]
pub struct CommMessage {
    pub version: Version,
    pub sender: CommSender,
    pub user_email: Option<String>,
    pub user_apikey: Option<String>,
    pub ai_response: Option<String>,
    pub messages: Option<Vec<Message>>,
    pub config: Option<UserConfig>,
    pub config_updated: Option<bool>,
}

/// A response from the answer generator, its candidates kept as opaque
/// JSON text.
#[derive(Clone, Debug)]
pub struct GeminiResponse {
    pub _candidates: Vec<String>,
}

/// The wire tag of each chat-family discriminant.
pub open spec fn version_tag(v: Version) -> Seq<char> {
    match v {
        Version::NewChatRoom => "new_chat_room"@,
        Version::Message => "message"@,
        Version::ConfigUpdate => "config_update"@,
        Version::SystemPing => "system_ping"@,
        Version::ContestUpdate => "contest_update"@,
        Version::AiReply => "ai_reply"@,
        Version::ResponseFromMcp => "response_from_mcp"@,
        Version::GetUserDetails => "get_user_details"@,
        Version::GetNextQuestion => "get_next_question"@,
    }
}

/// Which chat-family discriminant a wire tag denotes, if any.
pub open spec fn spec_version_of(s: Seq<char>) -> Option<Version> {
    if s == "new_chat_room"@ {
        Some(Version::NewChatRoom)
    } else if s == "message"@ {
        Some(Version::Message)
    } else if s == "config_update"@ {
        Some(Version::ConfigUpdate)
    } else if s == "system_ping"@ {
        Some(Version::SystemPing)
    } else if s == "contest_update"@ {
        Some(Version::ContestUpdate)
    } else if s == "ai_reply"@ {
        Some(Version::AiReply)
    } else if s == "response_from_mcp"@ {
        Some(Version::ResponseFromMcp)
    } else if s == "get_user_details"@ {
        Some(Version::GetUserDetails)
    } else if s == "get_next_question"@ {
        Some(Version::GetNextQuestion)
    } else {
        None
    }
}

/// Which sender kind a wire tag denotes, if any.
pub open spec fn spec_sender_of(s: Seq<char>) -> Option<CommSender> {
    if s == "system"@ {
        Some(CommSender::System)
    } else if s == "user"@ {
        Some(CommSender::User)
    } else {
        None
    }
}

/// Recognizes a chat-family version tag; anything else is "not this
/// family".
pub fn parse_version(s: &String) -> (r: Option<Version>)
    ensures
        r == spec_version_of(s@),
{
    if *s == String::from_str("new_chat_room") {
        Some(Version::NewChatRoom)
    } else if *s == String::from_str("message") {
        Some(Version::Message)
    } else if *s == String::from_str("config_update") {
        Some(Version::ConfigUpdate)
    } else if *s == String::from_str("system_ping") {
        Some(Version::SystemPing)
    } else if *s == String::from_str("contest_update") {
        Some(Version::ContestUpdate)
    } else if *s == String::from_str("ai_reply") {
        Some(Version::AiReply)
    } else if *s == String::from_str("response_from_mcp") {
        Some(Version::ResponseFromMcp)
    } else if *s == String::from_str("get_user_details") {
        Some(Version::GetUserDetails)
    } else if *s == String::from_str("get_next_question") {
        Some(Version::GetNextQuestion)
    } else {
        None
    }
}

/// Recognizes a sender tag.
pub fn parse_comm_sender(s: &String) -> (r: Option<CommSender>)
    ensures
        r == spec_sender_of(s@),
{
    if *s == String::from_str("system") {
        Some(CommSender::System)
    } else if *s == String::from_str("user") {
        Some(CommSender::User)
    } else {
        None
    }
}

/// The wire text of each chat-family discriminant, for building outbound
/// envelopes.
pub fn version_to_tag(v: Version) -> (r: String)
    ensures
        r@ == version_tag(v),
{
    match v {
        Version::NewChatRoom => String::from_str("new_chat_room"),
        Version::Message => String::from_str("message"),
        Version::ConfigUpdate => String::from_str("config_update"),
        Version::SystemPing => String::from_str("system_ping"),
        Version::ContestUpdate => String::from_str("contest_update"),
        Version::AiReply => String::from_str("ai_reply"),
        Version::ResponseFromMcp => String::from_str("response_from_mcp"),
        Version::GetUserDetails => String::from_str("get_user_details"),
        Version::GetNextQuestion => String::from_str("get_next_question"),
    }
}

} // verus!
