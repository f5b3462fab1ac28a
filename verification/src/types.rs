//! The data that the bot sends to and receives from the QQ open platform.

use vstd::prelude::*;

verus! {

/// The kind of a message, as the `msg_type` field carries it.
#[derive(Debug, Clone, Copy, PartialEq, Eq, Structural)]
pub enum MessageType {
    Text,
    Markdown,
    Ark,
    Embed,
    Media,
}

/// The `msg_type` code of each kind of message.
pub open spec fn message_type_code(t: MessageType) -> u8 {
    match t {
        MessageType::Text => 0,
        MessageType::Markdown => 2,
        MessageType::Ark => 3,
        MessageType::Embed => 4,
        MessageType::Media => 7,
    }
}

impl MessageType {
    /// The `msg_type` code of this kind of message.
    pub fn code(&self) -> (c: u8)
        ensures
            c == message_type_code(*self),
    {
        match self {
            MessageType::Text => 0,
            MessageType::Markdown => 2,
            MessageType::Ark => 3,
            MessageType::Embed => 4,
            MessageType::Media => 7,
        }
    }

    /// The kind of message that a `msg_type` code stands for, if any.
    pub fn from_code(c: u8) -> (t: Option<MessageType>)
        ensures
            t matches Some(k) ==> message_type_code(k) == c,
            t is None <==> (c != 0 && c != 2 && c != 3 && c != 4 && c != 7),
    {
        if c == 0 {
            Some(MessageType::Text)
        } else if c == 2 {
            Some(MessageType::Markdown)
        } else if c == 3 {
            Some(MessageType::Ark)
        } else if c == 4 {
            Some(MessageType::Embed)
        } else if c == 7 {
            Some(MessageType::Media)
        } else {
            None
        }
    }
}

/// The `stream` field of a streamed message chunk.
#[derive(Debug, Clone)]
pub struct StreamPayload {
    /// The stream's id, absent on the first chunk.
    pub id: Option<String>,
    /// The position of the chunk in its stream, from 0.
    pub index: u64,
    /// 1 while the stream goes on, 10 on its last chunk.
    pub state: u8,
    pub reset: bool,
}

/// What the bot remembers of a stream it is sending to one user.
#[derive(Debug, Clone)]
pub struct StreamState {
    pub id: Option<String>,
    pub index: u64,
    pub active: bool,
}

impl Default for StreamState {
    fn default() -> (s: StreamState)
        ensures
            s.id is None,
            s.index == 0,
            !s.active,
    {
        StreamState { id: None, index: 0, active: false }
    }
}

/// A media file that was uploaded beforehand.
#[derive(Debug, Clone)]
pub struct Media {
    pub file_info: String,
}

/// An Ark template message.
#[derive(Debug, Clone)]
pub struct Ark {
    pub template_id: u32,
    pub kv: Option<Vec<ArkKv>>,
}

#[derive(Debug, Clone)]
pub struct ArkKv {
    pub key: String,
    pub value: String,
    pub obj: Option<Vec<ArkObj>>,
}

#[derive(Debug, Clone)]
pub struct ArkObj {
    pub obj_kv: Vec<ArkObjKv>,
}

#[derive(Debug, Clone)]
pub struct ArkObjKv {
    pub key: String,
    pub value: String,
}

/// An Embed rich-text message.
#[derive(Debug, Clone)]
pub struct Embed {
    pub title: String,
    pub description: Option<String>,
    pub prompt: Option<String>,
    pub thumbnail: Option<MessageEmbedThumbnail>,
    pub fields: Option<Vec<MessageEmbedField>>,
}

#[derive(Debug, Clone)]
pub struct MessageEmbedThumbnail {
    pub url: String,
}

#[derive(Debug, Clone)]
pub struct MessageEmbedField {
    pub name: String,
    pub value: Option<String>,
}

/// A Markdown message.
#[derive(Debug, Clone)]
pub struct Markdown {
    pub content: String,
    pub custom_template_id: Option<String>,
    pub params: Option<Vec<MarkdownParam>>,
}

#[derive(Debug, Clone)]
pub struct MarkdownParam {
    pub key: String,
    pub values: Vec<String>,
}

/// A reference to an earlier message.
#[derive(Debug, Clone)]
pub struct MessageReference {
    pub message_id: String,
    pub ignore_get_message_error: Option<bool>,
}

/// A keyboard of buttons attached to a message.
#[derive(Debug, Clone)]
pub struct Keyboard {
    pub id: Option<String>,
    pub content: KeyboardContent,
}

#[derive(Debug, Clone)]
pub struct KeyboardContent {
    pub rows: Vec<KeyboardRow>,
}

#[derive(Debug, Clone)]
pub struct KeyboardRow {
    pub buttons: Vec<Button>,
}

#[derive(Debug, Clone)]
pub struct Button {
    pub id: String,
    pub render_data: RenderData,
    pub action: Action,
}

#[derive(Debug, Clone)]
pub struct RenderData {
    pub label: String,
    pub visited_label: String,
    /// 0 grey, 1 blue.
    pub style: u8,
}

#[derive(Debug, Clone)]
pub struct Action {
    /// 0 link, 1 callback, 2 command.
    pub action_type: u8,
    pub permission: Permission,
    pub data: Option<String>,
    pub reply: Option<bool>,
    pub enter: Option<bool>,
}

#[derive(Debug, Clone)]
pub struct Permission {
    /// 0 given users, 1 administrators, 2 everyone, 3 given roles.
    pub permission_type: u8,
    pub specify_role_ids: Option<Vec<String>>,
    pub specify_user_ids: Option<Vec<String>>,
}

/// An emoji reaction to a message.
#[derive(Debug, Clone)]
pub struct MessageReaction {
    pub emoji_id: String,
    /// 1 system emoji, 2 unicode emoji.
    pub emoji_type: u8,
}

/// A user.
#[derive(Debug, Clone)]
pub struct User {
    pub id: String,
    pub username: String,
    pub avatar: Option<String>,
    pub bot: Option<bool>,
    pub union_openid: Option<String>,
    pub union_user_account: Option<String>,
}

/// A member of a guild.
#[derive(Debug, Clone)]
pub struct Member {
    pub user: Option<User>,
    pub nick: Option<String>,
    pub roles: Vec<String>,
    pub joined_at: String,
}

/// A channel of a guild.
#[derive(Debug, Clone)]
pub struct Channel {
    pub id: String,
    pub guild_id: String,
    pub name: String,
    pub channel_type: u8,
    pub sub_type: u8,
    pub position: u32,
    pub owner_id: String,
    pub private_type: u8,
}

/// The permissions of a user or role in a channel.
#[derive(Debug, Clone)]
pub struct ChannelPermissions {
    pub channel_id: String,
    pub user_id: Option<String>,
    pub role_id: Option<String>,
    pub permissions: String,
}

/// A role of a guild.
#[derive(Debug, Clone)]
pub struct Role {
    pub id: String,
    pub name: String,
    pub color: u32,
    pub hoist: u8,
    pub number: u32,
    pub member_limit: u32,
}

/// How long to mute a member or a guild.
#[derive(Debug, Clone)]
pub struct MuteOptions {
    pub mute_end_timestamp: String,
    pub mute_seconds: Option<String>,
}

/// A guild announcement.
#[derive(Debug, Clone)]
pub struct Announce {
    pub guild_id: String,
    pub channel_id: String,
    pub message_id: String,
    pub announces_type: Option<u8>,
    pub recommend_channels: Option<Vec<RecommendChannel>>,
}

#[derive(Debug, Clone)]
pub struct RecommendChannel {
    pub channel_id: String,
    pub introduce: String,
}

/// The pinned messages of a channel.
#[derive(Debug, Clone)]
pub struct PinsMessage {
    pub guild_id: String,
    pub channel_id: String,
    pub message_ids: Vec<String>,
}

/// A scheduled event of a channel.
#[derive(Debug, Clone)]
pub struct Schedule {
    pub id: String,
    pub name: String,
    pub description: String,
    pub start_timestamp: String,
    pub end_timestamp: String,
    pub creator: Member,
    pub jump_channel_id: String,
    pub remind_type: String,
}

/// A response body taken as a whole.
#[derive(Debug)]
pub struct ApiResponse<T> {
    pub data: T,
}

/// The body of a message recall.
#[derive(Debug, Clone)]
pub struct MessageDelete {
    pub hidetip: Option<bool>,
}

/// What the platform answers when a message was sent.
#[derive(Debug, Clone)]
pub struct MessageResponse {
    pub id: String,
    pub timestamp: Option<String>,
}

/// A message read back from a channel or a direct-message session.
#[derive(Debug, Clone)]
pub struct Message {
    pub id: String,
    pub content: Option<String>,
    pub timestamp: Option<String>,
    pub author: Option<MessageAuthor>,
    pub attachments: Option<Vec<MessageAttachment>>,
    pub msg_seq: Option<i64>,
}

/// The author of a message read back from the platform.
#[derive(Debug, Clone)]
pub struct MessageAuthor {
    pub id: String,
    pub username: Option<String>,
    pub bot: Option<bool>,
}

/// An attachment of a message read back from the platform.
#[derive(Debug, Clone)]
pub struct MessageAttachment {
    pub url: String,
    pub filename: Option<String>,
    pub content_type: Option<String>,
    pub size: Option<u64>,
}


/// Every kind of message is read back from its own code.
pub proof fn lemma_message_type_code_distinct(a: MessageType, b: MessageType)
    ensures
        message_type_code(a) == message_type_code(b) ==> a == b,
{
}

} // verus!
