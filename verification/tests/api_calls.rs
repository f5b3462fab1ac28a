use qq_warning::api::{add_guild_role_member, add_pin, auth_request, authorization, create_announce, create_schedule, delete_announce, delete_message_reaction, delete_pin, delete_schedule, get_channel_message, get_dms_message, get_gateway, get_guild_member, get_guild_roles, get_pins, get_schedules, group_reply, image_message, markdown_message, mute_all, mute_member, put_message_reaction, recall_message, request_url, stream_chunk_message, text_message, typing_indicator, ApiCall, HttpMethod, MessageRequest, RequestBody};
use qq_warning::stream::StreamRegistry;
use qq_warning::types::{Markdown, Schedule, Member};

fn body_message(c: &ApiCall) -> &MessageRequest {
    match &c.body {
        RequestBody::Message(m) => m,
        _ => panic!("expected a message body"),
    }
}

#[test]
fn text_messages_to_users_and_groups() {
    let c = text_message("U1", true, "hello", 42);
    assert_eq!(c.method, HttpMethod::Post);
    assert_eq!(c.path, "/v2/users/U1/messages");
    let m = body_message(&c);
    assert_eq!(m.content.as_deref(), Some("hello"));
    assert_eq!(m.msg_type, Some(0));
    assert_eq!(m.msg_seq, Some(42));
    assert!(m.markdown.is_none() && m.stream.is_none() && m.msg_id.is_none());

    let c = text_message("G1", false, "hi", 7);
    assert_eq!(c.path, "/v2/groups/G1/messages");
}

#[test]
fn group_reply_carries_msg_id() {
    let c = group_reply("G1", "pong", "MSG9", 3);
    assert_eq!(c.path, "/v2/groups/G1/messages");
    let m = body_message(&c);
    assert_eq!(m.msg_id.as_deref(), Some("MSG9"));
    assert_eq!(m.content.as_deref(), Some("pong"));
}

#[test]
fn typed_messages() {
    let md = Markdown { content: "# t".to_string(), custom_template_id: None, params: None };
    let c = markdown_message("U", md, 5);
    assert_eq!(body_message(&c).msg_type, Some(2));
    assert_eq!(body_message(&c).markdown.as_ref().unwrap().content, "# t");
    let c = image_message("U", "http://i/p.png", 5);
    assert_eq!(body_message(&c).msg_type, Some(7));
    assert_eq!(body_message(&c).image.as_deref(), Some("http://i/p.png"));
    let c = typing_indicator("G", false, 9);
    assert_eq!(c.path, "/v2/groups/G/messages");
    assert_eq!(body_message(&c).msg_type, Some(6));
    assert!(body_message(&c).content.is_none());
}

#[test]
fn stream_chunk_bodies() {
    let mut r = StreamRegistry::new();
    let p = r.begin_chunk("U", false);
    let c = stream_chunk_message("U", "part", true, p, 11);
    let m = body_message(&c);
    assert_eq!(m.msg_type, Some(2));
    assert_eq!(m.markdown.as_ref().unwrap().content, "part");
    assert!(m.content.is_none());
    assert_eq!(m.stream.as_ref().unwrap().state, 1);
    let p = r.begin_chunk("U", true);
    let c = stream_chunk_message("U", "whole", false, p, 12);
    let m = body_message(&c);
    assert_eq!(m.content.as_deref(), Some("whole"));
    assert_eq!(m.stream.as_ref().unwrap().state, 10);
}

#[test]
fn recall_paths() {
    let c = recall_message("U", true, "M", true);
    assert_eq!(c.method, HttpMethod::Delete);
    assert_eq!(c.path, "/v2/users/U/messages/M");
    match c.body {
        RequestBody::Recall(d) => assert_eq!(d.hidetip, Some(true)),
        _ => panic!(),
    }
    assert_eq!(recall_message("G", false, "M", false).path, "/v2/groups/G/messages/M");
}

#[test]
fn guild_paths() {
    assert_eq!(put_message_reaction("C", "M", 1, "123").path, "/channels/C/messages/M/reactions/1/123");
    assert_eq!(delete_message_reaction("C", "M", 2, "e").method, HttpMethod::Delete);
    assert_eq!(get_guild_member("G", "U").path, "/guilds/G/members/U");
    assert_eq!(get_guild_roles("G").path, "/guilds/G/roles");
    let c = add_guild_role_member("G", "R", "U", Some("C"));
    assert_eq!(c.path, "/guilds/G/members/U/roles/R");
    match c.body {
        RequestBody::RoleMember(b) => assert_eq!(b.channel.unwrap().id, "C"),
        _ => panic!(),
    }
    let c = mute_member("G", "U", 60);
    assert_eq!((c.method, c.path.as_str()), (HttpMethod::Patch, "/guilds/G/members/U/mute"));
    match c.body {
        RequestBody::Mute(m) => {
            assert_eq!(m.mute_end_timestamp, "");
            assert_eq!(m.mute_seconds.as_deref(), Some("60"));
        },
        _ => panic!(),
    }
    assert_eq!(mute_all("G", 3600).path, "/guilds/G/mute");
    assert_eq!(create_announce("G", "C", "M").path, "/guilds/G/announces");
    assert_eq!(delete_announce("G", "M").path, "/guilds/G/announces/M");
    assert_eq!(add_pin("C", "M").path, "/channels/C/pins/M");
    assert_eq!(delete_pin("C", "M").path, "/channels/C/pins/M");
    assert_eq!(get_pins("C").path, "/channels/C/pins");
    assert_eq!(get_schedules("C", None).path, "/channels/C/schedules");
    assert_eq!(get_schedules("C", Some(1700000000)).path, "/channels/C/schedules?since=1700000000");
    assert_eq!(delete_schedule("C", "S").path, "/channels/C/schedules/S");
    assert_eq!(get_channel_message("C", "M").path, "/channels/C/messages/M");
    assert_eq!(get_dms_message("G", "M").path, "/dms/G/messages/M");
    assert_eq!(get_gateway().path, "/gateway");
    let s = Schedule {
        id: "1".into(),
        name: "n".into(),
        description: "d".into(),
        start_timestamp: "0".into(),
        end_timestamp: "1".into(),
        creator: Member { user: None, nick: None, roles: vec![], joined_at: "".into() },
        jump_channel_id: "0".into(),
        remind_type: "0".into(),
    };
    assert_eq!(create_schedule("C", s).path, "/channels/C/schedules");
}

#[test]
fn urls_and_headers() {
    assert_eq!(request_url("https://api.sgroup.qq.com", "/gateway"), "https://api.sgroup.qq.com/gateway");
    assert_eq!(authorization("abc"), "QQBot abc");
    let a = auth_request("1", "s");
    assert_eq!((a.app_id.as_str(), a.client_secret.as_str()), ("1", "s"));
}
