//! The HTTP requests of the open platform's API: method, path and body of
//! every call the bot makes.

use vstd::prelude::*;
use crate::text::{cat, concat_all, decimal, decimal_string};
use crate::types::{Ark, Keyboard, Markdown, Media, MessageDelete, MessageReaction, MessageReference, MuteOptions, Schedule, StreamPayload};

verus! {

/// The HTTP method of a call.
#[derive(Debug, Clone, Copy, PartialEq, Eq, Structural)]
pub enum HttpMethod {
    Get,
    Post,
    Put,
    Patch,
    Delete,
}

/// The body of a message send: every field is left out when absent.
#[derive(Debug, Clone)]
pub struct MessageRequest {
    pub content: Option<String>,
    pub msg_type: Option<u8>,
    pub markdown: Option<Markdown>,
    pub keyboard: Option<Keyboard>,
    pub ark: Option<Ark>,
    pub image: Option<String>,
    pub message_reference: Option<MessageReference>,
    pub event_id: Option<String>,
    pub msg_id: Option<String>,
    pub msg_seq: Option<i64>,
    pub media: Option<Media>,
    pub stream: Option<StreamPayload>,
}

/// A message body with no field set.
pub open spec fn empty_request() -> MessageRequest {
    MessageRequest {
        content: None,
        msg_type: None,
        markdown: None,
        keyboard: None,
        ark: None,
        image: None,
        message_reference: None,
        event_id: None,
        msg_id: None,
        msg_seq: None,
        media: None,
        stream: None,
    }
}

impl Default for MessageRequest {
    fn default() -> (r: MessageRequest)
        ensures
            r == empty_request(),
    {
        MessageRequest {
            content: None,
            msg_type: None,
            markdown: None,
            keyboard: None,
            ark: None,
            image: None,
            message_reference: None,
            event_id: None,
            msg_id: None,
            msg_seq: None,
            media: None,
            stream: None,
        }
    }
}

/// The channel that a role is given in.
#[derive(Debug, Clone)]
pub struct ChannelRef {
    pub id: String,
}

/// The body that gives a role to a member, optionally in one channel only.
#[derive(Debug, Clone)]
pub struct AddRoleMember {
    pub channel: Option<ChannelRef>,
}

/// The body that makes a message an announcement.
#[derive(Debug, Clone)]
pub struct CreateAnnounce {
    pub message_id: String,
    pub channel_id: String,
}

/// The credentials sent for an access token.
#[derive(Debug, Clone)]
pub struct AuthRequest {
    pub app_id: String,
    pub client_secret: String,
}

/// The JSON body of a call, if any.
#[derive(Debug, Clone)]
pub enum RequestBody {
    Empty,
    Message(MessageRequest),
    Recall(MessageDelete),
    Reaction(MessageReaction),
    RoleMember(AddRoleMember),
    Mute(MuteOptions),
    Announce(CreateAnnounce),
    Schedule(Schedule),
}

/// One call of the API: method, path below the base URL, and body.
#[derive(Debug, Clone)]
pub struct ApiCall {
    pub method: HttpMethod,
    pub path: String,
    pub body: RequestBody,
}


/// `/v2/users/{openid}/messages`
pub open spec fn user_messages_path(openid: Seq<char>) -> Seq<char> {
    "/v2/users/"@ + openid + "/messages"@
}

/// `/v2/groups/{openid}/messages`
pub open spec fn group_messages_path(openid: Seq<char>) -> Seq<char> {
    "/v2/groups/"@ + openid + "/messages"@
}

/// The messages path of a user, or of a group.
pub open spec fn messages_path(openid: Seq<char>, is_user: bool) -> Seq<char> {
    if is_user { user_messages_path(openid) } else { group_messages_path(openid) }
}

fn messages_path_exec(openid: &str, is_user: bool) -> (p: String)
    ensures
        p@ == messages_path(openid@, is_user),
{
    let p = if is_user { cat(&["/v2/users/", openid, "/messages"]) } else { cat(&["/v2/groups/", openid, "/messages"]) };
    proof {
        reveal_with_fuel(concat_all, 4);
    }
    p
}

/// A message body whose content is `content`, of the given type and sequence number.
pub open spec fn text_body(m: MessageRequest, content: Seq<char>, msg_type: u8, seq: i64) -> bool {
    &&& m.content matches Some(c) && c@ == content
    &&& m == MessageRequest { content: m.content, msg_type: Some(msg_type), msg_seq: Some(seq), ..empty_request() }
}

/// A POST of a text message (type 0) to a user or a group.
pub fn text_message(openid: &str, is_user: bool, content: &str, msg_seq: i64) -> (c: ApiCall)
    ensures
        c.method == HttpMethod::Post,
        c.path@ == messages_path(openid@, is_user),
        c.body matches RequestBody::Message(m) && text_body(m, content@, 0, msg_seq),
{
    let m = MessageRequest {
        content: Some(content.to_owned()),
        msg_type: Some(0),
        msg_seq: Some(msg_seq),
        ..Default::default()
    };
    ApiCall { method: HttpMethod::Post, path: messages_path_exec(openid, is_user), body: RequestBody::Message(m) }
}

/// A POST of a text message that answers the incoming message `msg_id` in a group.
pub fn group_reply(group_openid: &str, content: &str, msg_id: &str, msg_seq: i64) -> (c: ApiCall)
    ensures
        c.method == HttpMethod::Post,
        c.path@ == group_messages_path(group_openid@),
        c.body matches RequestBody::Message(m) && {
            &&& m.content matches Some(x) && x@ == content@
            &&& m.msg_id matches Some(x) && x@ == msg_id@
            &&& m == MessageRequest { content: m.content, msg_type: Some(0u8), msg_id: m.msg_id, msg_seq: Some(msg_seq), ..empty_request() }
        },
{
    let m = MessageRequest {
        content: Some(content.to_owned()),
        msg_type: Some(0),
        msg_id: Some(msg_id.to_owned()),
        msg_seq: Some(msg_seq),
        ..Default::default()
    };
    ApiCall { method: HttpMethod::Post, path: messages_path_exec(group_openid, false), body: RequestBody::Message(m) }
}

/// A POST of a Markdown message (type 2) to a user.
pub fn markdown_message(user_openid: &str, markdown: Markdown, msg_seq: i64) -> (c: ApiCall)
    ensures
        c.method == HttpMethod::Post,
        c.path@ == user_messages_path(user_openid@),
        c.body == RequestBody::Message(MessageRequest { msg_type: Some(2u8), markdown: Some(markdown), msg_seq: Some(msg_seq), ..empty_request() }),
{
    let m = MessageRequest { msg_type: Some(2), markdown: Some(markdown), msg_seq: Some(msg_seq), ..Default::default() };
    ApiCall { method: HttpMethod::Post, path: messages_path_exec(user_openid, true), body: RequestBody::Message(m) }
}

/// A POST of a text message with a keyboard to a user.
pub fn keyboard_message(user_openid: &str, content: &str, keyboard: Keyboard, msg_seq: i64) -> (c: ApiCall)
    ensures
        c.method == HttpMethod::Post,
        c.path@ == user_messages_path(user_openid@),
        c.body matches RequestBody::Message(m) && {
            &&& m.content matches Some(x) && x@ == content@
            &&& m == MessageRequest { content: m.content, msg_type: Some(0u8), keyboard: Some(keyboard), msg_seq: Some(msg_seq), ..empty_request() }
        },
{
    let m = MessageRequest {
        content: Some(content.to_owned()),
        msg_type: Some(0),
        keyboard: Some(keyboard),
        msg_seq: Some(msg_seq),
        ..Default::default()
    };
    ApiCall { method: HttpMethod::Post, path: messages_path_exec(user_openid, true), body: RequestBody::Message(m) }
}

/// A POST of an Ark template message (type 3) to a user.
pub fn ark_message(user_openid: &str, ark: Ark, msg_seq: i64) -> (c: ApiCall)
    ensures
        c.method == HttpMethod::Post,
        c.path@ == user_messages_path(user_openid@),
        c.body == RequestBody::Message(MessageRequest { msg_type: Some(3u8), ark: Some(ark), msg_seq: Some(msg_seq), ..empty_request() }),
{
    let m = MessageRequest { msg_type: Some(3), ark: Some(ark), msg_seq: Some(msg_seq), ..Default::default() };
    ApiCall { method: HttpMethod::Post, path: messages_path_exec(user_openid, true), body: RequestBody::Message(m) }
}

/// A POST of an image message (type 7) to a user.
pub fn image_message(user_openid: &str, image_url: &str, msg_seq: i64) -> (c: ApiCall)
    ensures
        c.method == HttpMethod::Post,
        c.path@ == user_messages_path(user_openid@),
        c.body matches RequestBody::Message(m) && {
            &&& m.image matches Some(x) && x@ == image_url@
            &&& m == MessageRequest { msg_type: Some(7u8), image: m.image, msg_seq: Some(msg_seq), ..empty_request() }
        },
{
    let m = MessageRequest { msg_type: Some(7), image: Some(image_url.to_owned()), msg_seq: Some(msg_seq), ..Default::default() };
    ApiCall { method: HttpMethod::Post, path: messages_path_exec(user_openid, true), body: RequestBody::Message(m) }
}

/// The "typing" notice (type 6) sent to a user or a group before a message.
pub fn typing_indicator(openid: &str, is_user: bool, msg_seq: i64) -> (c: ApiCall)
    ensures
        c.method == HttpMethod::Post,
        c.path@ == messages_path(openid@, is_user),
        c.body == RequestBody::Message(MessageRequest { msg_type: Some(6u8), msg_seq: Some(msg_seq), ..empty_request() }),
{
    let m = MessageRequest { msg_type: Some(6), msg_seq: Some(msg_seq), ..Default::default() };
    ApiCall { method: HttpMethod::Post, path: messages_path_exec(openid, is_user), body: RequestBody::Message(m) }
}

/// A chunk of a streamed message to a user: text (type 0), or Markdown (type 2)
/// whose content is the chunk with no template and no parameters.
pub fn stream_chunk_message(user_openid: &str, content: &str, markdown: bool, stream: StreamPayload, msg_seq: i64) -> (c: ApiCall)
    ensures
        c.method == HttpMethod::Post,
        c.path@ == user_messages_path(user_openid@),
        c.body matches RequestBody::Message(m) && if markdown {
            &&& m.markdown matches Some(md) && md.content@ == content@ && md.custom_template_id is None && md.params is None
            &&& m == MessageRequest { msg_type: Some(2u8), markdown: m.markdown, stream: Some(stream), msg_seq: Some(msg_seq), ..empty_request() }
        } else {
            &&& m.content matches Some(x) && x@ == content@
            &&& m == MessageRequest { content: m.content, msg_type: Some(0u8), stream: Some(stream), msg_seq: Some(msg_seq), ..empty_request() }
        },
{
    let m = if markdown {
        let md = Markdown { content: content.to_owned(), custom_template_id: None, params: None };
        MessageRequest { msg_type: Some(2), markdown: Some(md), stream: Some(stream), msg_seq: Some(msg_seq), ..Default::default() }
    } else {
        MessageRequest {
            content: Some(content.to_owned()),
            msg_type: Some(0),
            stream: Some(stream),
            msg_seq: Some(msg_seq),
            ..Default::default()
        }
    };
    ApiCall { method: HttpMethod::Post, path: messages_path_exec(user_openid, true), body: RequestBody::Message(m) }
}

/// `/v2/{users|groups}/{openid}/messages/{message_id}`
pub open spec fn message_path(openid: Seq<char>, is_user: bool, message_id: Seq<char>) -> Seq<char> {
    messages_path(openid, is_user) + "/"@ + message_id
}

/// A DELETE that recalls a message sent to a user or a group, hiding the
/// recall notice when `hidetip` is set.
pub fn recall_message(openid: &str, is_user: bool, message_id: &str, hidetip: bool) -> (c: ApiCall)
    ensures
        c.method == HttpMethod::Delete,
        c.path@ == message_path(openid@, is_user, message_id@),
        c.body == RequestBody::Recall(MessageDelete { hidetip: Some(hidetip) }),
{
    let p = if is_user {
        cat(&["/v2/users/", openid, "/messages/", message_id])
    } else {
        cat(&["/v2/groups/", openid, "/messages/", message_id])
    };
    proof {
        reveal_with_fuel(concat_all, 5);
        reveal_strlit("/messages/");
        reveal_strlit("/messages");
        reveal_strlit("/");
        assert("/messages/"@ =~= "/messages"@ + "/"@);
    }
    ApiCall { method: HttpMethod::Delete, path: p, body: RequestBody::Recall(MessageDelete { hidetip: Some(hidetip) }) }
}


/// `/channels/{channel_id}/messages/{message_id}/reactions/{emoji_type}/{emoji_id}`
pub open spec fn reaction_path(channel_id: Seq<char>, message_id: Seq<char>, emoji_type: u8, emoji_id: Seq<char>) -> Seq<char> {
    "/channels/"@ + channel_id + "/messages/"@ + message_id + "/reactions/"@ + decimal(emoji_type as nat) + "/"@ + emoji_id
}

fn reaction_path_exec(channel_id: &str, message_id: &str, emoji_type: u8, emoji_id: &str) -> (p: String)
    ensures
        p@ == reaction_path(channel_id@, message_id@, emoji_type, emoji_id@),
{
    let t = decimal_string(emoji_type as u128);
    let p = cat(&["/channels/", channel_id, "/messages/", message_id, "/reactions/", t.as_str(), "/", emoji_id]);
    proof {
        reveal_with_fuel(concat_all, 9);
    }
    p
}

/// A PUT that adds an emoji reaction to a channel message.
pub fn put_message_reaction(channel_id: &str, message_id: &str, emoji_type: u8, emoji_id: &str) -> (c: ApiCall)
    ensures
        c.method == HttpMethod::Put,
        c.path@ == reaction_path(channel_id@, message_id@, emoji_type, emoji_id@),
        c.body matches RequestBody::Reaction(r) && r.emoji_id@ == emoji_id@ && r.emoji_type == emoji_type,
{
    let r = MessageReaction { emoji_id: emoji_id.to_owned(), emoji_type };
    ApiCall {
        method: HttpMethod::Put,
        path: reaction_path_exec(channel_id, message_id, emoji_type, emoji_id),
        body: RequestBody::Reaction(r),
    }
}

/// A DELETE that removes an emoji reaction from a channel message.
pub fn delete_message_reaction(channel_id: &str, message_id: &str, emoji_type: u8, emoji_id: &str) -> (c: ApiCall)
    ensures
        c.method == HttpMethod::Delete,
        c.path@ == reaction_path(channel_id@, message_id@, emoji_type, emoji_id@),
        c.body == RequestBody::Empty,
{
    ApiCall {
        method: HttpMethod::Delete,
        path: reaction_path_exec(channel_id, message_id, emoji_type, emoji_id),
        body: RequestBody::Empty,
    }
}

/// A call with no body to a path made of `parts`.
fn bodiless(method: HttpMethod, parts: &[&str]) -> (c: ApiCall)
    ensures
        c.method == method,
        c.path@ == concat_all(parts@),
        c.body == RequestBody::Empty,
{
    ApiCall { method, path: cat(parts), body: RequestBody::Empty }
}

/// `/guilds/{guild_id}/members/{user_id}`
pub open spec fn member_path(guild_id: Seq<char>, user_id: Seq<char>) -> Seq<char> {
    "/guilds/"@ + guild_id + "/members/"@ + user_id
}

/// A GET of a guild member.
pub fn get_guild_member(guild_id: &str, user_id: &str) -> (c: ApiCall)
    ensures
        c.method == HttpMethod::Get,
        c.path@ == member_path(guild_id@, user_id@),
        c.body == RequestBody::Empty,
{
    let c = bodiless(HttpMethod::Get, &["/guilds/", guild_id, "/members/", user_id]);
    proof { reveal_with_fuel(concat_all, 5); }
    c
}

/// A GET of the roles of a guild: `/guilds/{guild_id}/roles`.
pub fn get_guild_roles(guild_id: &str) -> (c: ApiCall)
    ensures
        c.method == HttpMethod::Get,
        c.path@ == "/guilds/"@ + guild_id@ + "/roles"@,
        c.body == RequestBody::Empty,
{
    let c = bodiless(HttpMethod::Get, &["/guilds/", guild_id, "/roles"]);
    proof { reveal_with_fuel(concat_all, 4); }
    c
}

/// A PUT that gives the role `role_id` to a member, in one channel when `channel_id` is given:
/// `/guilds/{guild_id}/members/{user_id}/roles/{role_id}`.
pub fn add_guild_role_member(guild_id: &str, role_id: &str, user_id: &str, channel_id: Option<&str>) -> (c: ApiCall)
    ensures
        c.method == HttpMethod::Put,
        c.path@ == member_path(guild_id@, user_id@) + "/roles/"@ + role_id@,
        c.body matches RequestBody::RoleMember(b) && match channel_id {
            Some(id) => b.channel matches Some(ch) && ch.id@ == id@,
            None => b.channel is None,
        },
{
    let p = cat(&["/guilds/", guild_id, "/members/", user_id, "/roles/", role_id]);
    proof { reveal_with_fuel(concat_all, 7); }
    let channel = match channel_id {
        Some(id) => Some(ChannelRef { id: id.to_owned() }),
        None => None,
    };
    ApiCall { method: HttpMethod::Put, path: p, body: RequestBody::RoleMember(AddRoleMember { channel }) }
}

/// A mute for `seconds` seconds: no end time, the duration in decimal.
pub open spec fn mute_for(m: MuteOptions, seconds: u64) -> bool {
    &&& m.mute_end_timestamp@.len() == 0
    &&& m.mute_seconds matches Some(s) && s@ == decimal(seconds as nat)
}

fn mute_options(seconds: u64) -> (m: MuteOptions)
    ensures
        mute_for(m, seconds),
{
    MuteOptions { mute_end_timestamp: String::new(), mute_seconds: Some(decimal_string(seconds as u128)) }
}

/// A PATCH that mutes one member of a guild for `seconds` seconds:
/// `/guilds/{guild_id}/members/{user_id}/mute`.
pub fn mute_member(guild_id: &str, user_id: &str, seconds: u64) -> (c: ApiCall)
    ensures
        c.method == HttpMethod::Patch,
        c.path@ == member_path(guild_id@, user_id@) + "/mute"@,
        c.body matches RequestBody::Mute(m) && mute_for(m, seconds),
{
    let p = cat(&["/guilds/", guild_id, "/members/", user_id, "/mute"]);
    proof { reveal_with_fuel(concat_all, 6); }
    ApiCall { method: HttpMethod::Patch, path: p, body: RequestBody::Mute(mute_options(seconds)) }
}

/// A PATCH that mutes a whole guild for `seconds` seconds: `/guilds/{guild_id}/mute`.
pub fn mute_all(guild_id: &str, seconds: u64) -> (c: ApiCall)
    ensures
        c.method == HttpMethod::Patch,
        c.path@ == "/guilds/"@ + guild_id@ + "/mute"@,
        c.body matches RequestBody::Mute(m) && mute_for(m, seconds),
{
    let p = cat(&["/guilds/", guild_id, "/mute"]);
    proof { reveal_with_fuel(concat_all, 4); }
    ApiCall { method: HttpMethod::Patch, path: p, body: RequestBody::Mute(mute_options(seconds)) }
}

/// A POST that makes a channel message a guild announcement: `/guilds/{guild_id}/announces`.
pub fn create_announce(guild_id: &str, channel_id: &str, message_id: &str) -> (c: ApiCall)
    ensures
        c.method == HttpMethod::Post,
        c.path@ == "/guilds/"@ + guild_id@ + "/announces"@,
        c.body matches RequestBody::Announce(a) && a.message_id@ == message_id@ && a.channel_id@ == channel_id@,
{
    let p = cat(&["/guilds/", guild_id, "/announces"]);
    proof { reveal_with_fuel(concat_all, 4); }
    let a = CreateAnnounce { message_id: message_id.to_owned(), channel_id: channel_id.to_owned() };
    ApiCall { method: HttpMethod::Post, path: p, body: RequestBody::Announce(a) }
}

/// A DELETE of a guild announcement: `/guilds/{guild_id}/announces/{message_id}`.
pub fn delete_announce(guild_id: &str, message_id: &str) -> (c: ApiCall)
    ensures
        c.method == HttpMethod::Delete,
        c.path@ == "/guilds/"@ + guild_id@ + "/announces/"@ + message_id@,
        c.body == RequestBody::Empty,
{
    let c = bodiless(HttpMethod::Delete, &["/guilds/", guild_id, "/announces/", message_id]);
    proof { reveal_with_fuel(concat_all, 5); }
    c
}

/// `/channels/{channel_id}/pins/{message_id}`
pub open spec fn pin_path(channel_id: Seq<char>, message_id: Seq<char>) -> Seq<char> {
    "/channels/"@ + channel_id + "/pins/"@ + message_id
}

/// A PUT that pins a channel message.
pub fn add_pin(channel_id: &str, message_id: &str) -> (c: ApiCall)
    ensures
        c.method == HttpMethod::Put,
        c.path@ == pin_path(channel_id@, message_id@),
        c.body == RequestBody::Empty,
{
    let c = bodiless(HttpMethod::Put, &["/channels/", channel_id, "/pins/", message_id]);
    proof { reveal_with_fuel(concat_all, 5); }
    c
}

/// A DELETE that unpins a channel message.
pub fn delete_pin(channel_id: &str, message_id: &str) -> (c: ApiCall)
    ensures
        c.method == HttpMethod::Delete,
        c.path@ == pin_path(channel_id@, message_id@),
        c.body == RequestBody::Empty,
{
    let c = bodiless(HttpMethod::Delete, &["/channels/", channel_id, "/pins/", message_id]);
    proof { reveal_with_fuel(concat_all, 5); }
    c
}

/// A GET of the pinned messages of a channel: `/channels/{channel_id}/pins`.
pub fn get_pins(channel_id: &str) -> (c: ApiCall)
    ensures
        c.method == HttpMethod::Get,
        c.path@ == "/channels/"@ + channel_id@ + "/pins"@,
        c.body == RequestBody::Empty,
{
    let c = bodiless(HttpMethod::Get, &["/channels/", channel_id, "/pins"]);
    proof { reveal_with_fuel(concat_all, 4); }
    c
}

/// `/channels/{channel_id}/schedules`
pub open spec fn schedules_path(channel_id: Seq<char>) -> Seq<char> {
    "/channels/"@ + channel_id + "/schedules"@
}

/// A GET of the schedules of a channel, from the time `since` when given:
/// `/channels/{channel_id}/schedules?since={since}`.
pub fn get_schedules(channel_id: &str, since: Option<u64>) -> (c: ApiCall)
    ensures
        c.method == HttpMethod::Get,
        c.path@ == match since {
            Some(t) => schedules_path(channel_id@) + "?since="@ + decimal(t as nat),
            None => schedules_path(channel_id@),
        },
        c.body == RequestBody::Empty,
{
    match since {
        Some(t) => {
            let ts = decimal_string(t as u128);
            let c = bodiless(HttpMethod::Get, &["/channels/", channel_id, "/schedules?since=", ts.as_str()]);
            proof {
                reveal_with_fuel(concat_all, 5);
                reveal_strlit("/schedules?since=");
                reveal_strlit("/schedules");
                reveal_strlit("?since=");
                assert("/schedules?since="@ =~= "/schedules"@ + "?since="@);
            }
            c
        },
        None => {
            let c = bodiless(HttpMethod::Get, &["/channels/", channel_id, "/schedules"]);
            proof { reveal_with_fuel(concat_all, 4); }
            c
        },
    }
}

/// A POST of a new schedule to a channel.
pub fn create_schedule(channel_id: &str, schedule: Schedule) -> (c: ApiCall)
    ensures
        c.method == HttpMethod::Post,
        c.path@ == schedules_path(channel_id@),
        c.body == RequestBody::Schedule(schedule),
{
    let p = cat(&["/channels/", channel_id, "/schedules"]);
    proof { reveal_with_fuel(concat_all, 4); }
    ApiCall { method: HttpMethod::Post, path: p, body: RequestBody::Schedule(schedule) }
}

/// A DELETE of a schedule: `/channels/{channel_id}/schedules/{schedule_id}`.
pub fn delete_schedule(channel_id: &str, schedule_id: &str) -> (c: ApiCall)
    ensures
        c.method == HttpMethod::Delete,
        c.path@ == schedules_path(channel_id@) + "/"@ + schedule_id@,
        c.body == RequestBody::Empty,
{
    let c = bodiless(HttpMethod::Delete, &["/channels/", channel_id, "/schedules/", schedule_id]);
    proof {
        reveal_with_fuel(concat_all, 5);
        reveal_strlit("/schedules/");
        reveal_strlit("/schedules");
        reveal_strlit("/");
        assert("/schedules/"@ =~= "/schedules"@ + "/"@);
    }
    c
}

/// A GET of one channel message: `/channels/{channel_id}/messages/{message_id}`.
pub fn get_channel_message(channel_id: &str, message_id: &str) -> (c: ApiCall)
    ensures
        c.method == HttpMethod::Get,
        c.path@ == "/channels/"@ + channel_id@ + "/messages/"@ + message_id@,
        c.body == RequestBody::Empty,
{
    let c = bodiless(HttpMethod::Get, &["/channels/", channel_id, "/messages/", message_id]);
    proof { reveal_with_fuel(concat_all, 5); }
    c
}

/// A GET of one direct message: `/dms/{guild_id}/messages/{message_id}`.
pub fn get_dms_message(guild_id: &str, message_id: &str) -> (c: ApiCall)
    ensures
        c.method == HttpMethod::Get,
        c.path@ == "/dms/"@ + guild_id@ + "/messages/"@ + message_id@,
        c.body == RequestBody::Empty,
{
    let c = bodiless(HttpMethod::Get, &["/dms/", guild_id, "/messages/", message_id]);
    proof { reveal_with_fuel(concat_all, 5); }
    c
}

/// A GET of the address of the event gateway: `/gateway`.
pub fn get_gateway() -> (c: ApiCall)
    ensures
        c.method == HttpMethod::Get,
        c.path@ == "/gateway"@,
        c.body == RequestBody::Empty,
{
    let c = bodiless(HttpMethod::Get, &["/gateway"]);
    proof { reveal_with_fuel(concat_all, 2); }
    c
}

/// The full URL of a path below the base URL.
pub fn request_url(base_url: &str, path: &str) -> (u: String)
    ensures
        u@ == base_url@ + path@,
{
    let u = cat(&[base_url, path]);
    proof { reveal_with_fuel(concat_all, 3); }
    u
}

/// The `Authorization` header for an access token: `QQBot {token}`.
pub fn authorization(token: &str) -> (h: String)
    ensures
        h@ == "QQBot "@ + token@,
{
    let h = cat(&["QQBot ", token]);
    proof { reveal_with_fuel(concat_all, 3); }
    h
}

/// The credentials sent for an access token.
pub fn auth_request(app_id: &str, client_secret: &str) -> (r: AuthRequest)
    ensures
        r.app_id@ == app_id@,
        r.client_secret@ == client_secret@,
{
    AuthRequest { app_id: app_id.to_owned(), client_secret: client_secret.to_owned() }
}


/// A Markdown message made of `content` alone, with no template and no parameters.
pub fn plain_markdown(content: &str) -> (m: Markdown)
    ensures
        m.content@ == content@,
        m.custom_template_id is None,
        m.params is None,
{
    Markdown { content: content.to_owned(), custom_template_id: None, params: None }
}

} // verus!
