use qq_warning::config::{ApiConfig, BotConfig, Config, FeaturesConfig, LoggingConfig, NotificationConfig, RateLimitConfig};
use qq_warning::gateway::{ends_connection, reconnect_delay_secs, ConnectionEnd, file_name_of_url, heartbeat_period_ms, identify_payload, message_kind, plan_message_event, Attachment, Author, FrameData, FrameOutcome, GatewayFrame, GatewaySession, MessageData, GATEWAY_INTENTS};

fn frame(op: u8, s: Option<u64>, t: Option<&str>, data: Option<FrameData>) -> GatewayFrame {
    GatewayFrame { op, s, t: t.map(|x| x.to_string()), data }
}

fn no_data() -> FrameData {
    FrameData { heartbeat_interval: None, session_id: None, message: None }
}

fn message(content: &str, attachments: Vec<Attachment>) -> MessageData {
    MessageData {
        id: "MID".to_string(),
        content: content.to_string(),
        author: Author { id: "AID".to_string(), username: "alice".to_string() },
        attachments,
        msg_type: 0,
    }
}

fn config(auto_download: bool) -> Config {
    Config {
        bot: BotConfig { app_id: "1".into(), client_secret: "s".into() },
        api: ApiConfig { base_url: "https://api".into(), auth_url: "https://auth".into() },
        rate_limit: RateLimitConfig { min_interval_secs: 1 },
        notifications: NotificationConfig { enabled: true, sound: false, show_preview: true },
        logging: LoggingConfig { level: "info".into(), file: None },
        features: FeaturesConfig { auto_download_media: auto_download, media_dir: "./media".into() },
    }
}

#[test]
fn hello_starts_identify() {
    let mut s = GatewaySession::new();
    let d = FrameData { heartbeat_interval: Some(41250), ..no_data() };
    assert!(matches!(s.handle_frame(frame(10, None, None, Some(d))), FrameOutcome::Identify { heartbeat_interval: 41250 }));
    assert!(matches!(s.handle_frame(frame(10, None, None, None)), FrameOutcome::HelloWithoutData));
    assert!(matches!(s.handle_frame(frame(10, None, None, Some(no_data()))), FrameOutcome::MalformedHello));
    assert_eq!(heartbeat_period_ms(41250), 33000);
}

#[test]
fn sequence_and_session_tracking() {
    let mut s = GatewaySession::new();
    let d = FrameData { session_id: Some("sess".to_string()), ..no_data() };
    assert!(matches!(s.handle_frame(frame(0, Some(1), Some("READY"), Some(d))), FrameOutcome::Ready));
    assert_eq!(s.session_id.as_deref(), Some("sess"));
    assert_eq!(s.sequence, Some(1));
    assert!(matches!(s.handle_frame(frame(11, None, None, None)), FrameOutcome::HeartbeatAck));
    assert_eq!(s.sequence, Some(1));
    let h = s.heartbeat();
    assert_eq!((h.op, h.d), (1, Some(1)));
    match s.handle_frame(frame(0, Some(2), Some("GUILD_CREATE"), None)) {
        FrameOutcome::UnhandledEvent(t) => assert_eq!(t, "GUILD_CREATE"),
        _ => panic!(),
    }
    assert_eq!(s.heartbeat().d, Some(2));
    assert!(matches!(s.handle_frame(frame(7, None, None, None)), FrameOutcome::Reconnect));
    assert_eq!(s.session_id.as_deref(), Some("sess"));
    assert!(matches!(s.handle_frame(frame(9, None, None, None)), FrameOutcome::InvalidSession));
    assert!(s.session_id.is_none());
    assert!(matches!(s.handle_frame(frame(42, None, None, None)), FrameOutcome::UnknownOp(42)));
    assert!(matches!(s.handle_frame(frame(0, None, None, None)), FrameOutcome::Nothing));
}

#[test]
fn message_events_are_delivered() {
    let mut s = GatewaySession::new();
    for t in ["MESSAGE_CREATE", "C2C_MESSAGE_CREATE", "GROUP_AT_MESSAGE_CREATE"] {
        let d = FrameData { message: Some(message("hi", vec![])), ..no_data() };
        match s.handle_frame(frame(0, Some(5), Some(t), Some(d))) {
            FrameOutcome::Message(m) => assert_eq!(m.content, "hi"),
            _ => panic!(),
        }
    }
    // data that is no message is skipped
    assert!(matches!(s.handle_frame(frame(0, None, Some("C2C_MESSAGE_CREATE"), Some(no_data()))), FrameOutcome::Nothing));
}

#[test]
fn identify_frame() {
    let p = identify_payload("tok");
    assert_eq!(p.op, 2);
    assert_eq!(p.d.token, "QQBot tok");
    assert_eq!(p.d.intents, (1 << 25) | (1 << 30) | (1 << 12) | (1 << 26));
    assert_eq!(GATEWAY_INTENTS, (1 << 25) | (1 << 30) | (1 << 12) | (1 << 26));
    assert_eq!(p.d.shard, [0, 1]);
}

#[test]
fn file_names_from_urls() {
    assert_eq!(file_name_of_url("https://cdn.example.com/a/b/photo.jpg?x=1&y=2"), "photo.jpg");
    assert_eq!(file_name_of_url("https://cdn.example.com/a/b/"), "");
    assert_eq!(file_name_of_url("noslash?q"), "noslash");
    assert_eq!(file_name_of_url("http://h/p?a/b"), "b");
}

#[test]
fn message_kinds() {
    assert_eq!(message_kind(0), "文本");
    assert_eq!(message_kind(2), "Markdown");
    assert_eq!(message_kind(7), "富媒体");
    assert_eq!(message_kind(3), "未知");
}

#[test]
fn message_event_plan_with_attachments() {
    let atts = vec![
        Attachment { url: "https://x/y/a.png?sig=1".into(), filename: None, content_type: Some("image/png".into()), size: Some(104858) },
        Attachment { url: "https://x/doc".into(), filename: Some("doc.pdf".into()), content_type: None, size: None },
    ];
    let p = plan_message_event(&message("", atts), &config(true));
    assert_eq!(p.kind, "文本");
    assert_eq!(p.attachments.len(), 2);
    assert_eq!(p.attachments[0].position, 1);
    assert_eq!(p.attachments[0].filename, "未命名");
    assert_eq!(p.attachments[0].content_type, "image/png");
    assert_eq!(p.attachments[0].size, "102.40 KB");
    assert_eq!(p.attachments[1].filename, "doc.pdf");
    assert_eq!(p.attachments[1].content_type, "未知");
    assert_eq!(p.attachments[1].size, "未知");
    assert_eq!(p.downloads.len(), 2);
    assert_eq!(p.downloads[0].filename, "a.png");
    assert_eq!(p.downloads[0].msg_id, "MID");
    assert_eq!(p.downloads[0].media_dir, "./media");
    assert_eq!(p.downloads[1].filename, "doc.pdf");
    assert_eq!(p.notification_title, "来自 alice");
    assert_eq!(p.notification_body, "[2个附件]");
    assert!(p.notify);
    assert!(!p.sound);
}

#[test]
fn message_event_plan_text_and_empty() {
    let p = plan_message_event(&message("hello", vec![]), &config(false));
    assert_eq!(p.notification_body, "hello");
    assert!(p.downloads.is_empty());
    let atts = vec![Attachment { url: "u".into(), filename: None, content_type: None, size: Some(1) }];
    let p = plan_message_event(&message("", atts), &config(false));
    assert!(p.downloads.is_empty());
    assert_eq!(p.notification_body, "[1个附件]");
    let p = plan_message_event(&message("", vec![]), &config(true));
    assert_eq!(p.notification_body, "[空消息]");
}

#[test]
fn notification_hides_the_message_without_preview() {
    let mut cfg = config(false);
    cfg.notifications.show_preview = false;
    let p = plan_message_event(&message("secret", vec![]), &cfg);
    assert_eq!(p.notification_title, "来自 alice");
    assert_eq!(p.notification_body, "[新消息]");
    assert!(!p.notification_body.contains("secret"));
    let atts = vec![Attachment { url: "u".into(), filename: None, content_type: None, size: None }];
    let p = plan_message_event(&message("", atts), &cfg);
    assert_eq!(p.notification_body, "[新消息]");
}

#[test]
fn server_requests_reconnect_at_once() {
    assert!(ends_connection(&FrameOutcome::Reconnect));
    assert!(ends_connection(&FrameOutcome::InvalidSession));
    assert!(!ends_connection(&FrameOutcome::HeartbeatAck));
    assert!(!ends_connection(&FrameOutcome::UnknownOp(3)));
    assert_eq!(reconnect_delay_secs(ConnectionEnd::ServerAsked), 0);
    assert_eq!(reconnect_delay_secs(ConnectionEnd::Closed), 5);
    assert_eq!(reconnect_delay_secs(ConnectionEnd::Failed), 5);
    let mut s = GatewaySession::new();
    let out = s.handle_frame(frame(9, None, None, None));
    assert!(ends_connection(&out));
    assert!(s.session_id.is_none());
}
