//! The event gateway: what the bot does with each frame it receives, what it
//! sends to identify itself and to keep the connection alive, and what it
//! shows and stores of an incoming message.

use vstd::prelude::*;
use crate::api::authorization;
use crate::config::Config;
use crate::text::{chars_of, decimal, push_decimal, push_str, string_from_chars};
use crate::utils::{format_size, size_text};

verus! {

broadcast use vstd::string::group_string_axioms;

/// The author of an incoming message.
#[derive(Debug, Clone)]
pub struct Author {
    pub id: String,
    pub username: String,
}

/// A file attached to an incoming message.
#[derive(Debug, Clone)]
pub struct Attachment {
    pub url: String,
    pub filename: Option<String>,
    pub content_type: Option<String>,
    pub size: Option<u64>,
}

/// An incoming message event.
#[derive(Debug, Clone)]
pub struct MessageData {
    pub id: String,
    pub content: String,
    pub author: Author,
    pub attachments: Vec<Attachment>,
    pub msg_type: u8,
}

/// The readings of a frame's `d` field that the bot may need: the heartbeat
/// interval of a Hello, the session id of a READY event, and a message event.
/// Each is present when `d` has that shape.
#[derive(Debug, Clone)]
pub struct FrameData {
    pub heartbeat_interval: Option<u64>,
    pub session_id: Option<String>,
    pub message: Option<MessageData>,
}

/// A frame received on the gateway.
#[derive(Debug, Clone)]
pub struct GatewayFrame {
    /// The opcode.
    pub op: u8,
    /// The sequence number of a dispatched event.
    pub s: Option<u64>,
    /// The type of a dispatched event.
    pub t: Option<String>,
    /// What the frame's data holds, or `None` when the frame has no data.
    pub data: Option<FrameData>,
}

/// What the bot remembers of its gateway session.
#[derive(Debug, Clone)]
pub struct GatewaySession {
    pub session_id: Option<String>,
    pub sequence: Option<u64>,
}

/// What to do after a frame.
#[derive(Debug, Clone)]
pub enum FrameOutcome {
    /// Hello: identify, then send a heartbeat every 80% of this many milliseconds.
    Identify { heartbeat_interval: u64 },
    /// A Hello without data: the frame is refused.
    HelloWithoutData,
    /// A Hello whose data is not a heartbeat interval: the frame is refused.
    MalformedHello,
    /// The server acknowledged a heartbeat.
    HeartbeatAck,
    /// The bot is ready (its session id, when given, is now remembered).
    Ready,
    /// A message arrived.
    Message(MessageData),
    /// A dispatched event that the bot does not handle.
    UnhandledEvent(String),
    /// Nothing to do.
    Nothing,
    /// The server asks for a reconnection: the connection is dropped and opened again at once.
    Reconnect,
    /// The session is no longer valid: it is forgotten, and the connection is
    /// dropped and opened again at once, which authenticates anew.
    InvalidSession,
    /// An opcode that the bot does not know.
    UnknownOp(u8),
}

/// How a gateway connection came to an end.
#[derive(Debug, Clone, Copy, PartialEq, Eq, Structural)]
pub enum ConnectionEnd {
    /// The server closed the stream.
    Closed,
    /// Connecting, reading or authenticating failed.
    Failed,
    /// A frame asked for a new connection (a reconnection request or an invalid session).
    ServerAsked,
}

/// Whether an outcome ends the connection: a reconnection request or an invalid session.
pub fn ends_connection(out: &FrameOutcome) -> (b: bool)
    ensures
        b <==> (*out is Reconnect || *out is InvalidSession),
{
    match out {
        FrameOutcome::Reconnect => true,
        FrameOutcome::InvalidSession => true,
        _ => false,
    }
}

/// Seconds to wait before connecting again: none when the server asked for a
/// new connection, five otherwise.
pub fn reconnect_delay_secs(end: ConnectionEnd) -> (s: u64)
    ensures
        s == (if end == ConnectionEnd::ServerAsked { 0u64 } else { 5u64 }),
{
    if end == ConnectionEnd::ServerAsked { 0 } else { 5 }
}

/// The event types that carry a message.
pub open spec fn is_message_event(t: Seq<char>) -> bool {
    t == "MESSAGE_CREATE"@ || t == "C2C_MESSAGE_CREATE"@ || t == "GROUP_AT_MESSAGE_CREATE"@
}

/// The session id that a READY event carries.
pub open spec fn ready_session_id(f: GatewayFrame) -> Option<Seq<char>> {
    if f.op == 0 && f.t is Some && f.t.unwrap()@ == "READY"@ && f.data is Some && f.data.unwrap().session_id is Some {
        Some(f.data.unwrap().session_id.unwrap()@)
    } else {
        None
    }
}

/// The session after a frame: a sequence number is remembered whenever the
/// frame carries one; an invalid session forgets its id; a READY event with a
/// session id remembers it.
pub open spec fn session_after(old: GatewaySession, f: GatewayFrame) -> (Option<u64>, Option<Seq<char>>) {
    let seq = if f.s is Some { f.s } else { old.sequence };
    let old_id = match old.session_id { Some(x) => Some(x@), None => None };
    let id = if f.op == 9 {
        None
    } else if ready_session_id(f) is Some {
        ready_session_id(f)
    } else {
        old_id
    };
    (seq, id)
}

/// The outcome of a frame.
pub open spec fn frame_outcome_ok(out: FrameOutcome, f: GatewayFrame) -> bool {
    if f.op == 10 {
        match f.data {
            None => out == FrameOutcome::HelloWithoutData,
            Some(d) => match d.heartbeat_interval {
                Some(i) => out == FrameOutcome::Identify { heartbeat_interval: i },
                None => out == FrameOutcome::MalformedHello,
            },
        }
    } else if f.op == 11 {
        out == FrameOutcome::HeartbeatAck
    } else if f.op == 0 {
        match f.t {
            None => out == FrameOutcome::Nothing,
            Some(t) => if t@ == "READY"@ {
                out == FrameOutcome::Ready
            } else if is_message_event(t@) {
                match f.data {
                    Some(d) => match d.message {
                        Some(m) => out == FrameOutcome::Message(m),
                        None => out == FrameOutcome::Nothing,
                    },
                    None => out == FrameOutcome::Nothing,
                }
            } else {
                out matches FrameOutcome::UnhandledEvent(u) && u@ == t@
            },
        }
    } else if f.op == 7 {
        out == FrameOutcome::Reconnect
    } else if f.op == 9 {
        out == FrameOutcome::InvalidSession
    } else {
        out == FrameOutcome::UnknownOp(f.op)
    }
}

fn same_text(a: &String, lit: &str) -> (b: bool)
    ensures
        b == (a@ == lit@),
{
    *a == lit.to_string()
}

impl GatewaySession {
    /// A new session: no id, no sequence number.
    pub fn new() -> (s: GatewaySession)
        ensures
            s.session_id is None,
            s.sequence is None,
    {
        GatewaySession { session_id: None, sequence: None }
    }

    /// Takes in one frame: updates what is remembered of the session and says
    /// what to do next.
    pub fn handle_frame(&mut self, frame: GatewayFrame) -> (out: FrameOutcome)
        ensures
            final(self).sequence == session_after(*old(self), frame).0,
            (match final(self).session_id { Some(x) => Some(x@), None => None }) == session_after(*old(self), frame).1,
            frame_outcome_ok(out, frame),
    {
        if frame.s.is_some() {
            self.sequence = frame.s;
        }
        let op = frame.op;
        if op == 10 {
            match frame.data {
                None => FrameOutcome::HelloWithoutData,
                Some(d) => match d.heartbeat_interval {
                    Some(i) => FrameOutcome::Identify { heartbeat_interval: i },
                    None => FrameOutcome::MalformedHello,
                },
            }
        } else if op == 11 {
            FrameOutcome::HeartbeatAck
        } else if op == 0 {
            match frame.t {
                None => FrameOutcome::Nothing,
                Some(t) => {
                    if same_text(&t, "READY") {
                        match frame.data {
                            Some(d) => {
                                match d.session_id {
                                    Some(id) => {
                                        self.session_id = Some(id);
                                    },
                                    None => {},
                                }
                            },
                            None => {},
                        }
                        FrameOutcome::Ready
                    } else if same_text(&t, "MESSAGE_CREATE") || same_text(&t, "C2C_MESSAGE_CREATE")
                        || same_text(&t, "GROUP_AT_MESSAGE_CREATE") {
                        match frame.data {
                            Some(d) => match d.message {
                                Some(m) => FrameOutcome::Message(m),
                                None => FrameOutcome::Nothing,
                            },
                            None => FrameOutcome::Nothing,
                        }
                    } else {
                        FrameOutcome::UnhandledEvent(t)
                    }
                },
            }
        } else if op == 7 {
            FrameOutcome::Reconnect
        } else if op == 9 {
            self.session_id = None;
            FrameOutcome::InvalidSession
        } else {
            FrameOutcome::UnknownOp(op)
        }
    }

    /// The heartbeat to send now: it carries the last sequence number seen.
    pub fn heartbeat(&self) -> (h: HeartbeatPayload)
        ensures
            h.op == 1,
            h.d == self.sequence,
    {
        HeartbeatPayload { op: 1, d: self.sequence }
    }
}

/// The heartbeat frame.
#[derive(Debug, Clone)]
pub struct HeartbeatPayload {
    pub op: u8,
    pub d: Option<u64>,
}

/// The identify frame.
#[derive(Debug, Clone)]
pub struct IdentifyPayload {
    pub op: u8,
    pub d: IdentifyData,
}

#[derive(Debug, Clone)]
pub struct IdentifyData {
    pub token: String,
    pub intents: u32,
    pub shard: [u8; 2],
}

/// The events the bot subscribes to: bits 12 (guild messages), 25 (group and
/// direct messages), 26 and 30.
pub const GATEWAY_INTENTS: u32 = 1174409216;

/// The identify frame for an access token: op 2, the token as an
/// authorization value, the subscribed intents, and a single shard.
pub fn identify_payload(token: &str) -> (p: IdentifyPayload)
    ensures
        p.op == 2,
        p.d.token@ == "QQBot "@ + token@,
        p.d.intents == GATEWAY_INTENTS,
        p.d.shard@ == seq![0u8, 1u8],
{
    let shard: [u8; 2] = [0, 1];
    assert(shard@ =~= seq![0u8, 1u8]);
    IdentifyPayload { op: 2, d: IdentifyData { token: authorization(token), intents: GATEWAY_INTENTS, shard } }
}

/// The time between heartbeats: 80% of the interval that the server asked for.
pub fn heartbeat_period_ms(interval_ms: u64) -> (p: u64)
    requires
        interval_ms * 8 <= u64::MAX,
    ensures
        p == interval_ms * 8 / 10,
{
    interval_ms * 8 / 10
}


/// What follows the last `/` of `s` (all of `s` when it has none).
pub open spec fn after_last_slash(s: Seq<char>) -> Seq<char>
    decreases s.len(),
{
    if s.len() == 0 {
        s
    } else if s.last() == '/' {
        Seq::empty()
    } else {
        after_last_slash(s.drop_last()).push(s.last())
    }
}

/// What precedes the first `?` of `s` (all of `s` when it has none).
pub open spec fn before_question(s: Seq<char>) -> Seq<char>
    decreases s.len(),
{
    if s.len() == 0 {
        s
    } else if s[0] == '?' {
        Seq::empty()
    } else {
        seq![s[0]] + before_question(s.drop_first())
    }
}

/// The file name that a URL gives: its last path segment without the query.
pub open spec fn url_file_name(url: Seq<char>) -> Seq<char> {
    before_question(after_last_slash(url))
}

proof fn lemma_before_question_prefix(s: Seq<char>, k: int)
    requires
        0 <= k <= s.len(),
        forall|i: int| 0 <= i < k ==> s[i] != '?',
        k == s.len() || s[k] == '?',
    ensures
        before_question(s) == s.take(k),
    decreases k,
{
    if k == 0 {
        if s.len() == 0 {
            assert(s.take(0) =~= s);
        } else {
            assert(s.take(0) =~= Seq::<char>::empty());
        }
    } else {
        lemma_before_question_prefix(s.drop_first(), k - 1);
        assert(seq![s[0]] + s.drop_first().take(k - 1) =~= s.take(k));
    }
}

/// The file name that a URL gives: what follows its last `/`, up to the first `?`.
pub fn file_name_of_url(url: &str) -> (name: String)
    ensures
        name@ == url_file_name(url@),
{
    let cs = chars_of(url);
    let n = cs.len();
    let mut seg: Vec<char> = Vec::new();
    let mut i: usize = 0;
    while i < n
        invariant
            n == cs@.len(),
            i <= n,
            seg@ == after_last_slash(cs@.take(i as int)),
        decreases n - i,
    {
        assert(cs@.take(i + 1).drop_last() =~= cs@.take(i as int));
        if cs[i] == '/' {
            seg = Vec::new();
            assert(seg@ =~= Seq::<char>::empty());
        } else {
            seg.push(cs[i]);
        }
        i = i + 1;
    }
    assert(cs@.take(n as int) =~= url@);
    let m = seg.len();
    let mut k: usize = 0;
    while k < m && seg[k] != '?'
        invariant
            m == seg@.len(),
            k <= m,
            forall|j: int| 0 <= j < k ==> seg@[j] != '?',
        decreases m - k,
    {
        k = k + 1;
    }
    proof {
        lemma_before_question_prefix(seg@, k as int);
    }
    let mut out: Vec<char> = Vec::new();
    let mut j: usize = 0;
    while j < k
        invariant
            m == seg@.len(),
            k <= m,
            j <= k,
            out@ == seg@.take(j as int),
        decreases k - j,
    {
        out.push(seg[j]);
        assert(seg@.take(j as int).push(seg@[j as int]) =~= seg@.take(j + 1));
        j = j + 1;
    }
    string_from_chars(out.as_slice())
}

/// The label shown for a message type.
pub open spec fn message_kind_label(t: u8) -> Seq<char> {
    if t == 0 { "文本"@ } else if t == 2 { "Markdown"@ } else if t == 7 { "富媒体"@ } else { "未知"@ }
}

/// The label shown for a message type: text (0), Markdown (2), rich media (7), or unknown.
pub fn message_kind(t: u8) -> (s: String)
    ensures
        s@ == message_kind_label(t),
{
    if t == 0 {
        "文本".to_string()
    } else if t == 2 {
        "Markdown".to_string()
    } else if t == 7 {
        "富媒体".to_string()
    } else {
        "未知".to_string()
    }
}

/// How an attachment is listed.
#[derive(Debug, Clone)]
pub struct AttachmentLine {
    /// Its position, from 1.
    pub position: usize,
    pub filename: String,
    pub content_type: String,
    pub size: String,
}

/// A file to download: `url` saved as `media_dir/msg_id/filename`.
#[derive(Debug, Clone)]
pub struct DownloadJob {
    pub url: String,
    pub media_dir: String,
    pub msg_id: String,
    pub filename: String,
}

/// What to show, store and notify for an incoming message.
#[derive(Debug, Clone)]
pub struct MessageEventPlan {
    pub kind: String,
    pub attachments: Vec<AttachmentLine>,
    /// One job per attachment, in order, when media are downloaded; none otherwise.
    pub downloads: Vec<DownloadJob>,
    pub notify: bool,
    pub sound: bool,
    pub notification_title: String,
    pub notification_body: String,
}

/// An optional text, or a stand-in when it is absent.
pub open spec fn or_else(t: Option<String>, stand_in: Seq<char>) -> Seq<char> {
    match t { Some(x) => x@, None => stand_in }
}

/// `line` lists attachment `a` at position `i` (from 0).
pub open spec fn line_for(line: AttachmentLine, a: Attachment, i: int) -> bool {
    &&& line.position == i + 1
    &&& line.filename@ == or_else(a.filename, "未命名"@)
    &&& line.content_type@ == or_else(a.content_type, "未知"@)
    &&& line.size@ == (match a.size { Some(n) => size_text(n as nat), None => "未知"@ })
}

/// `job` downloads attachment `a` of message `msg_id` into `media_dir`.
pub open spec fn job_for(job: DownloadJob, a: Attachment, msg_id: Seq<char>, media_dir: Seq<char>) -> bool {
    &&& job.url@ == a.url@
    &&& job.media_dir@ == media_dir
    &&& job.msg_id@ == msg_id
    &&& job.filename@ == (match a.filename { Some(f) => f@, None => url_file_name(a.url@) })
}

/// The body of the notification of a message.  With previews on: its text,
/// else the number of attachments, else a note that it is empty.  With
/// previews off, nothing of the message is shown, only that one arrived.
pub open spec fn notification_text(msg: MessageData, show_preview: bool) -> Seq<char> {
    if !show_preview {
        "[新消息]"@
    } else if msg.content@.len() > 0 {
        msg.content@
    } else if msg.attachments@.len() > 0 {
        "["@ + decimal(msg.attachments@.len()) + "个附件]"@
    } else {
        "[空消息]"@
    }
}

/// `p` is the plan for `msg` under `config`.
pub open spec fn event_planned(p: MessageEventPlan, msg: MessageData, config: Config) -> bool {
    let atts = msg.attachments@;
    &&& p.kind@ == message_kind_label(msg.msg_type)
    &&& p.attachments@.len() == atts.len()
    &&& forall|i: int| 0 <= i < atts.len() ==> line_for(#[trigger] p.attachments@[i], atts[i], i)
    &&& p.downloads@.len() == (if config.features.auto_download_media { atts.len() } else { 0 })
    &&& forall|i: int| 0 <= i < p.downloads@.len() ==> job_for(#[trigger] p.downloads@[i], atts[i], msg.id@, config.features.media_dir@)
    &&& p.notify == config.notifications.enabled
    &&& p.sound == config.notifications.sound
    &&& p.notification_title@ == "来自 "@ + msg.author.username@
    &&& p.notification_body@ == notification_text(msg, config.notifications.show_preview)
}

fn text_or(t: &Option<String>, stand_in: &str) -> (s: String)
    ensures
        s@ == (match *t { Some(x) => x@, None => stand_in@ }),
{
    match t {
        Some(x) => x.clone(),
        None => stand_in.to_string(),
    }
}

/// Plans the handling of an incoming message: its kind, one line per
/// attachment (name, type and size, with stand-ins for what is missing), one
/// download per attachment when media are downloaded, and the notification,
/// which shows the message only when previews are on.
pub fn plan_message_event(msg: &MessageData, config: &Config) -> (p: MessageEventPlan)
    ensures
        event_planned(p, *msg, *config),
{
    let n = msg.attachments.len();
    let mut lines: Vec<AttachmentLine> = Vec::new();
    let mut downloads: Vec<DownloadJob> = Vec::new();
    let auto = config.features.auto_download_media;
    let mut i: usize = 0;
    while i < n
        invariant
            n == msg.attachments@.len(),
            auto == config.features.auto_download_media,
            i <= n,
            lines@.len() == i,
            forall|k: int| 0 <= k < i ==> line_for(#[trigger] lines@[k], msg.attachments@[k], k),
            downloads@.len() == (if auto { i } else { 0 }),
            forall|k: int| 0 <= k < downloads@.len() ==> job_for(#[trigger] downloads@[k], msg.attachments@[k], msg.id@, config.features.media_dir@),
        decreases n - i,
    {
        let a = &msg.attachments[i];
        let size = match a.size {
            Some(b) => format_size(b),
            None => "未知".to_string(),
        };
        lines.push(AttachmentLine {
            position: i + 1,
            filename: text_or(&a.filename, "未命名"),
            content_type: text_or(&a.content_type, "未知"),
            size,
        });
        if auto {
            let filename = match &a.filename {
                Some(f) => f.clone(),
                None => file_name_of_url(a.url.as_str()),
            };
            downloads.push(DownloadJob {
                url: a.url.clone(),
                media_dir: config.features.media_dir.clone(),
                msg_id: msg.id.clone(),
                filename,
            });
        }
        i = i + 1;
    }
    let mut title = "来自 ".to_string();
    push_str(&mut title, msg.author.username.as_str());
    let body = if !config.notifications.show_preview {
        "[新消息]".to_string()
    } else if !msg.content.as_str().is_empty() {
        msg.content.clone()
    } else if n > 0 {
        let mut b = "[".to_string();
        push_decimal(&mut b, n as u128);
        push_str(&mut b, "个附件]");
        b
    } else {
        "[空消息]".to_string()
    };
    MessageEventPlan {
        kind: message_kind(msg.msg_type),
        attachments: lines,
        downloads,
        notify: config.notifications.enabled,
        sound: config.notifications.sound,
        notification_title: title,
        notification_body: body,
    }
}


/// The next heartbeat carries the sequence number of the last frame that had
/// one; a frame without one leaves it as it was.
pub proof fn lemma_heartbeat_follows_sequence(old: GatewaySession, f: GatewayFrame)
    ensures
        f.s is Some ==> session_after(old, f).0 == f.s,
        f.s is None ==> session_after(old, f).0 == old.sequence,
{
}

/// An invalid session is forgotten; a reconnection request and a heartbeat
/// acknowledgement keep the session id.
pub proof fn lemma_invalid_session_forgotten(old: GatewaySession, f: GatewayFrame)
    ensures
        f.op == 9 ==> session_after(old, f).1 is None,
        (f.op == 7 || f.op == 11 || f.op == 10) ==> session_after(old, f).1 == (match old.session_id { Some(x) => Some(x@), None => None }),
{
}

/// The notification of a message names its sender.  With previews on, its
/// body is the message text whenever there is one, whatever the attachments;
/// the number of attachments only for a message without text; a note that
/// the message is empty when it has neither.  With previews off, the body is
/// the same note for every message, so nothing of the message shows.
pub proof fn lemma_notification_body(p: MessageEventPlan, msg: MessageData, config: Config, other: MessageData)
    requires
        event_planned(p, msg, config),
    ensures
        p.notify == config.notifications.enabled,
        p.notification_title@ == "来自 "@ + msg.author.username@,
        config.notifications.show_preview && msg.content@.len() > 0 ==> p.notification_body@ == msg.content@,
        config.notifications.show_preview && msg.content@.len() == 0 && msg.attachments@.len() > 0
            ==> p.notification_body@ == "["@ + decimal(msg.attachments@.len()) + "个附件]"@,
        config.notifications.show_preview && msg.content@.len() == 0 && msg.attachments@.len() == 0
            ==> p.notification_body@ == "[空消息]"@,
        !config.notifications.show_preview ==> p.notification_body@ == "[新消息]"@,
        !config.notifications.show_preview ==> p.notification_body@ == notification_text(other, false),
{
}

proof fn lemma_after_last_slash_shape(s: Seq<char>)
    ensures
        after_last_slash(s).len() <= s.len(),
        s.subrange(s.len() - after_last_slash(s).len(), s.len() as int) == after_last_slash(s),
        after_last_slash(s).len() == s.len() || s[s.len() - after_last_slash(s).len() - 1] == '/',
        forall|i: int| 0 <= i < after_last_slash(s).len() ==> #[trigger] after_last_slash(s)[i] != '/',
    decreases s.len(),
{
    if s.len() > 0 {
        if s.last() == '/' {
            assert(s.subrange(s.len() as int, s.len() as int) =~= Seq::<char>::empty());
        } else {
            let t = s.drop_last();
            lemma_after_last_slash_shape(t);
            let a = after_last_slash(t);
            assert(after_last_slash(s) == a.push(s.last()));
            assert(s.subrange(s.len() - a.len() - 1, s.len() as int) =~= a.push(s.last())) by {
                assert(t.subrange(t.len() - a.len(), t.len() as int) == a);
                assert forall|i: int| 0 <= i < a.len() + 1 implies s.subrange(s.len() - a.len() - 1, s.len() as int)[i] == a.push(s.last())[i] by {
                    if i < a.len() {
                        assert(t.subrange(t.len() - a.len(), t.len() as int)[i] == a[i]);
                    }
                }
            }
            if a.len() < t.len() {
                assert(s[s.len() - a.len() - 2] == t[t.len() - a.len() - 1]);
            }
        }
    }
}

proof fn lemma_before_question_shape(s: Seq<char>)
    ensures
        before_question(s).len() <= s.len(),
        before_question(s) == s.take(before_question(s).len() as int),
        before_question(s).len() == s.len() || s[before_question(s).len() as int] == '?',
        forall|i: int| 0 <= i < before_question(s).len() ==> #[trigger] before_question(s)[i] != '?',
    decreases s.len(),
{
    if s.len() > 0 && s[0] != '?' {
        let t = s.drop_first();
        lemma_before_question_shape(t);
        let b = before_question(t);
        assert(seq![s[0]] + b =~= s.take(b.len() + 1int)) by {
            assert forall|i: int| 0 <= i < b.len() + 1 implies (seq![s[0]] + b)[i] == s.take(b.len() + 1int)[i] by {
                if i > 0 {
                    assert(b[i - 1] == t.take(b.len() as int)[i - 1]);
                }
            }
        }
        if b.len() < t.len() {
            assert(s[b.len() + 1int] == t[b.len() as int]);
        }
        assert forall|i: int| 0 <= i < b.len() + 1 implies #[trigger] (seq![s[0]] + b)[i] != '?' by {
            if i > 0 {
                assert((seq![s[0]] + b)[i] == b[i - 1]);
            }
        }
    } else if s.len() > 0 {
        assert(s.take(0) =~= Seq::<char>::empty());
    } else {
        assert(s.take(0) =~= s);
    }
}

/// The file name that a URL gives is the stretch of the URL that starts
/// right after its last `/` (or at its start, when it has none) and ends at
/// the first `?` after that (or at its end): it holds neither `/` nor `?`.
pub proof fn lemma_url_file_name_shape(url: Seq<char>)
    ensures
        ({
            let f = url_file_name(url);
            &&& forall|i: int| 0 <= i < f.len() ==> #[trigger] f[i] != '/' && f[i] != '?'
            &&& exists|k: int| {
                &&& 0 <= k && k + f.len() <= url.len()
                &&& #[trigger] url.subrange(k, k + f.len()) == f
                &&& (k == 0 || url[k - 1] == '/')
                &&& (k + f.len() == url.len() || url[k + f.len()] == '?')
                &&& forall|j: int| k <= j < url.len() ==> url[j] != '/'
            }
        }),
{
    lemma_after_last_slash_shape(url);
    let a = after_last_slash(url);
    lemma_before_question_shape(a);
    let f = before_question(a);
    let k = url.len() - a.len();
    assert(f == url_file_name(url));
    assert forall|i: int| 0 <= i < f.len() implies #[trigger] f[i] != '/' && f[i] != '?' by {
        assert(f[i] == a.take(f.len() as int)[i]);
        assert(a.take(f.len() as int)[i] == a[i]);
    }
    assert(url.subrange(k, k + f.len()) =~= f) by {
        assert forall|i: int| 0 <= i < f.len() implies url.subrange(k, k + f.len())[i] == f[i] by {
            assert(url.subrange(k, url.len() as int)[i] == a[i]);
            assert(a.take(f.len() as int)[i] == a[i]);
        }
    }
    if f.len() < a.len() {
        assert(url[k + f.len()] == url.subrange(k, url.len() as int)[f.len() as int]);
    }
    assert forall|j: int| k <= j < url.len() implies url[j] != '/' by {
        assert(url.subrange(k, url.len() as int)[j - k] == a[j - k]);
    }
    assert(url.subrange(k, k + f.len()) == f);
}

/// A dispatched message of any of the three kinds the bot subscribes to
/// (guild, direct, and group `@` messages) is handed on whole; a READY event
/// makes the bot ready and remembers its session id; any other event is
/// reported by its name, and leaves the session id as it was.
pub proof fn lemma_dispatch_rule(out: FrameOutcome, old: GatewaySession, f: GatewayFrame, m: MessageData)
    requires
        frame_outcome_ok(out, f),
        f.op == 0,
        f.t is Some,
    ensures
        ({
            let t = f.t.unwrap()@;
            &&& (t == "MESSAGE_CREATE"@ || t == "C2C_MESSAGE_CREATE"@ || t == "GROUP_AT_MESSAGE_CREATE"@)
                && f.data is Some && f.data.unwrap().message == Some(m) ==> out == FrameOutcome::Message(m)
            &&& t == "READY"@ ==> out == FrameOutcome::Ready
            &&& t == "READY"@ && f.data is Some && f.data.unwrap().session_id is Some
                ==> session_after(old, f).1 == Some(f.data.unwrap().session_id.unwrap()@)
            &&& !(t == "READY"@ || t == "MESSAGE_CREATE"@ || t == "C2C_MESSAGE_CREATE"@ || t == "GROUP_AT_MESSAGE_CREATE"@)
                ==> (out matches FrameOutcome::UnhandledEvent(u) && u@ == t)
                    && session_after(old, f).1 == (match old.session_id { Some(x) => Some(x@), None => None })
        }),
{
    reveal_strlit("READY");
    reveal_strlit("MESSAGE_CREATE");
    reveal_strlit("C2C_MESSAGE_CREATE");
    reveal_strlit("GROUP_AT_MESSAGE_CREATE");
    let t = f.t.unwrap()@;
    if t == "MESSAGE_CREATE"@ || t == "C2C_MESSAGE_CREATE"@ || t == "GROUP_AT_MESSAGE_CREATE"@ {
        assert(t != "READY"@) by {
            if t == "READY"@ {
                assert(t[0] != "READY"@[0] || t.len() != "READY"@.len());
            }
        }
    }
}

} // verus!
