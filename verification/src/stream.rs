//! Streamed messages: splitting a text into the growing chunks that are sent
//! one after the other, and remembering, per user, where each stream stands.

use vstd::prelude::*;
use vstd::hash_map::StringHashMap;
use crate::text::chars_of;
use crate::types::{StreamPayload, StreamState};

verus! {

/// The most characters that one chunk shows.
pub const CHUNK_TEXT_LIMIT: usize = 4096;

/// Where chunk `j` ends, in characters, when `n` characters are sent `size` at a time.
pub open spec fn chunk_end(n: nat, size: nat, j: nat) -> nat {
    if (j + 1) * size >= n { n } else { (j + 1) * size }
}

/// The characters that a chunk ending at `end` shows: the text so far, cut
/// after 4096 characters.
pub open spec fn shown_text(c: Seq<char>, end: nat) -> Seq<char> {
    c.take(if end < 4096 { end as int } else { 4096 })
}

/// The last chunk closes with a newline unless what it shows already ends with one.
pub open spec fn closes_with_newline(c: Seq<char>, size: nat, j: nat) -> bool {
    let end = chunk_end(c.len(), size, j);
    let shown = shown_text(c, end);
    end >= c.len() && !(shown.len() > 0 && shown.last() == '\n')
}

/// The text of chunk `j`: what is shown so far; the last chunk ends with a
/// newline, which takes the place of the 4096th character when the text
/// fills the whole chunk, so that no chunk holds more than 4096 characters.
pub open spec fn chunk_text(c: Seq<char>, size: nat, j: nat) -> Seq<char> {
    let shown = shown_text(c, chunk_end(c.len(), size, j));
    if closes_with_newline(c, size, j) {
        shown.take(if shown.len() < 4096 { shown.len() as int } else { 4095 }).push('\n')
    } else {
        shown
    }
}

/// One chunk of a streamed message.
#[derive(Debug, Clone)]
pub struct StreamChunk {
    pub content: String,
    pub is_final: bool,
    /// How many characters of the message have been sent once this chunk is.
    pub sent: usize,
}

/// `chunks` is the plan for streaming `c` in pieces of `size` characters.
pub open spec fn chunks_planned(chunks: Seq<StreamChunk>, c: Seq<char>, size: nat) -> bool {
    &&& (c.len() == 0 ==> chunks.len() == 0)
    &&& (c.len() > 0 ==> chunks.len() * size >= c.len() && (chunks.len() - 1) * size < c.len())
    &&& forall|j: int| 0 <= j < chunks.len() ==> {
        &&& (#[trigger] chunks[j]).content@ == chunk_text(c, size, j as nat)
        &&& chunks[j].sent == chunk_end(c.len(), size, j as nat)
        &&& chunks[j].is_final == (chunk_end(c.len(), size, j as nat) >= c.len())
    }
}

/// A string of the first `k` characters of `cs`.
fn prefix_string(cs: &Vec<char>, k: usize) -> (s: String)
    requires
        k <= cs@.len(),
    ensures
        s@ == cs@.take(k as int),
{
    let mut s = String::new();
    let mut i: usize = 0;
    while i < k
        invariant
            k <= cs@.len(),
            i <= k,
            s@ == cs@.take(i as int),
        decreases k - i,
    {
        s.push(cs[i]);
        assert(cs@.take(i as int).push(cs@[i as int]) =~= cs@.take(i + 1));
        i = i + 1;
    }
    s
}

/// Splits a message into the chunks of a stream: chunk `j` carries the first
/// `(j + 1) * chunk_size` characters (all of them for the last chunk), cut
/// after 4096 characters; the last chunk ends with a newline, within the same
/// 4096 characters; each chunk says how much of the message has been sent.
pub fn plan_stream_chunks(content: &str, chunk_size: usize) -> (chunks: Vec<StreamChunk>)
    requires
        chunk_size > 0 || content@.len() == 0,
    ensures
        chunks_planned(chunks@, content@, chunk_size as nat),
{
    let cs = chars_of(content);
    let n = cs.len();
    let mut chunks: Vec<StreamChunk> = Vec::new();
    let mut pos: usize = 0;
    let ghost mut j: nat = 0;
    while pos < n
        invariant
            cs@ == content@,
            n == cs@.len(),
            n > 0 ==> chunk_size > 0,
            chunks@.len() == j,
            pos <= n,
            pos < n ==> pos == j * chunk_size,
            pos == n ==> (n > 0 ==> j * chunk_size >= n && (j - 1) * chunk_size < n),
            pos == n && n == 0 ==> j == 0,
            forall|i: int| 0 <= i < chunks@.len() ==> {
                &&& (#[trigger] chunks@[i]).content@ == chunk_text(content@, chunk_size as nat, i as nat)
                &&& chunks@[i].sent == chunk_end(n as nat, chunk_size as nat, i as nat)
                &&& chunks@[i].is_final == (chunk_end(n as nat, chunk_size as nat, i as nat) >= n)
            },
        decreases n - pos,
    {
        let end: usize = if chunk_size >= n - pos { n } else { pos + chunk_size };
        proof {
            assert((j + 1) * chunk_size == j * chunk_size + chunk_size) by (nonlinear_arith);
            assert(end == chunk_end(n as nat, chunk_size as nat, j));
        }
        let shown_len: usize = if end < CHUNK_TEXT_LIMIT { end } else { CHUNK_TEXT_LIMIT };
        let is_final = end >= n;
        let closes = is_final && !(shown_len > 0 && cs[shown_len - 1] == '\n');
        let k: usize = if closes && shown_len == CHUNK_TEXT_LIMIT { CHUNK_TEXT_LIMIT - 1 } else { shown_len };
        let mut text = prefix_string(&cs, k);
        if closes {
            text.push('\n');
        }
        proof {
            let shown = shown_text(content@, end as nat);
            assert(shown == cs@.take(shown_len as int));
            if shown_len > 0 {
                assert(cs@.take(shown_len as int).last() == cs@[shown_len - 1]);
            }
            assert(closes == closes_with_newline(content@, chunk_size as nat, j));
            assert(shown.take(k as int) =~= cs@.take(k as int));
            if !closes {
                assert(k == shown_len);
            }
        }
        chunks.push(StreamChunk { content: text, is_final, sent: end });
        proof {
            if end == n && n > 0 {
                assert(j * chunk_size < n);
                assert((j + 1) * chunk_size >= n);
            }
            j = j + 1;
        }
        pos = end;
    }
    chunks
}

/// The state of a stream that has not started.
pub open spec fn fresh_stream() -> StreamState {
    StreamState { id: None, index: 0, active: false }
}

/// Where the stream to `key` stands: its remembered state, or a fresh one.
pub open spec fn stream_state_of(m: Map<Seq<char>, StreamState>, key: Seq<char>) -> StreamState {
    if m.contains_key(key) { m[key] } else { fresh_stream() }
}

/// The streams after a chunk to `key` is begun: an unknown key is remembered as fresh.
pub open spec fn after_begin(m: Map<Seq<char>, StreamState>, key: Seq<char>) -> Map<Seq<char>, StreamState> {
    if m.contains_key(key) { m } else { m.insert(key, fresh_stream()) }
}

/// The `stream` field of the chunk that is begun to `key`.
pub open spec fn begin_payload(m: Map<Seq<char>, StreamState>, key: Seq<char>, is_final: bool) -> StreamPayload {
    let st = stream_state_of(m, key);
    StreamPayload { id: st.id, index: st.index, state: if is_final { 10 } else { 1 }, reset: false }
}

/// The streams after the platform accepted a chunk to `key` under the id `rid`:
/// the last chunk ends the stream, any other moves it one chunk on.
pub open spec fn after_accept(m: Map<Seq<char>, StreamState>, key: Seq<char>, is_final: bool, rid: String) -> Map<Seq<char>, StreamState> {
    if is_final {
        m.remove(key)
    } else {
        m.insert(key, StreamState { id: Some(rid), index: (stream_state_of(m, key).index + 1) as u64, active: true })
    }
}

/// The streams after a chunk to `key` failed: the stream is given up.
pub open spec fn after_failure(m: Map<Seq<char>, StreamState>, key: Seq<char>) -> Map<Seq<char>, StreamState> {
    m.remove(key)
}

/// Why a chunk was not accepted.
#[derive(Debug, Clone, Copy, PartialEq, Eq, Structural)]
pub enum ChunkFailure {
    /// The platform answered and refused the chunk.
    Rejected,
    /// No usable answer came: no token, no connection, or an unreadable reply.
    Unreachable,
}

/// What to do after a chunk failed.
#[derive(Debug, Clone, Copy, PartialEq, Eq, Structural)]
pub enum ChunkRecovery {
    /// Send the same chunk again, as plain text, in the same stream.
    RetryAsText,
    /// Give the stream up and report the error.
    Abandon,
}

/// A Markdown chunk that the platform refuses is sent again as plain text;
/// any other failure ends the stream.
pub fn recover_chunk(markdown: bool, failure: ChunkFailure) -> (r: ChunkRecovery)
    ensures
        r == (if markdown && failure == ChunkFailure::Rejected { ChunkRecovery::RetryAsText } else { ChunkRecovery::Abandon }),
{
    if markdown && failure == ChunkFailure::Rejected {
        ChunkRecovery::RetryAsText
    } else {
        ChunkRecovery::Abandon
    }
}

/// The streams that the bot is sending, one per user openid.
pub struct StreamRegistry {
    states: StringHashMap<StreamState>,
}

impl View for StreamRegistry {
    type V = Map<Seq<char>, StreamState>;

    closed spec fn view(&self) -> Map<Seq<char>, StreamState> {
        self.states@
    }
}

fn copy_state(s: &StreamState) -> (r: StreamState)
    ensures
        r == *s,
{
    let id = match &s.id {
        Some(x) => Some(x.clone()),
        None => None,
    };
    StreamState { id, index: s.index, active: s.active }
}

impl StreamRegistry {
    /// No stream going on.
    pub fn new() -> (r: StreamRegistry)
        ensures
            r@ == Map::<Seq<char>, StreamState>::empty(),
    {
        StreamRegistry { states: StringHashMap::new() }
    }

    /// Where the stream to `openid` stands.
    pub fn state(&self, openid: &str) -> (s: StreamState)
        ensures
            s == stream_state_of(self@, openid@),
    {
        match self.states.get(openid) {
            Some(st) => copy_state(st),
            None => StreamState::default(),
        }
    }

    /// Begins a chunk to `openid`: remembers the stream (fresh when unknown)
    /// and gives the `stream` field for the chunk, which carries the stream's
    /// id and index and says whether the chunk is the last.
    pub fn begin_chunk(&mut self, openid: &str, is_final: bool) -> (p: StreamPayload)
        ensures
            final(self)@ == after_begin(old(self)@, openid@),
            p == begin_payload(old(self)@, openid@, is_final),
    {
        let current = match self.states.get(openid) {
            Some(st) => copy_state(st),
            None => {
                let fresh = StreamState::default();
                self.states.insert(openid.to_string(), StreamState::default());
                fresh
            },
        };
        StreamPayload {
            id: current.id,
            index: current.index,
            state: if is_final { 10 } else { 1 },
            reset: false,
        }
    }

    /// Records that the platform accepted a chunk to `openid` and answered with
    /// the message id `response_id`: the last chunk forgets the stream, any other
    /// keeps the id and moves the index one on.
    pub fn accept_chunk(&mut self, openid: &str, is_final: bool, response_id: String)
        requires
            is_final || stream_state_of(old(self)@, openid@).index < u64::MAX,
        ensures
            final(self)@ == after_accept(old(self)@, openid@, is_final, response_id),
    {
        if is_final {
            self.states.remove(openid);
        } else {
            let current = self.state(openid);
            self.states.insert(
                openid.to_string(),
                StreamState { id: Some(response_id), index: current.index + 1, active: true },
            );
        }
    }

    /// Records that a chunk to `openid` failed for good: the stream is given up,
    /// so that the next message to `openid` starts a new one.
    pub fn fail_chunk(&mut self, openid: &str)
        ensures
            final(self)@ == after_failure(old(self)@, openid@),
    {
        self.states.remove(openid);
    }

    /// Forgets the stream to `openid`, if any.
    pub fn cancel(&mut self, openid: &str)
        ensures
            final(self)@ == old(self)@.remove(openid@),
    {
        self.states.remove(openid);
    }
}


/// The streams after the first `k` chunks of a stream to `key` were begun and
/// accepted, chunk `i` under the id `rids[i]`; the stream has `rids.len()`
/// chunks, and only the last one is final.
pub open spec fn streams_after(m: Map<Seq<char>, StreamState>, key: Seq<char>, rids: Seq<String>, k: nat) -> Map<Seq<char>, StreamState>
    decreases k,
{
    if k == 0 {
        m
    } else {
        let before = streams_after(m, key, rids, (k - 1) as nat);
        after_accept(after_begin(before, key), key, k == rids.len(), rids[k - 1])
    }
}

/// The `stream` field of chunk `k` of such a stream.
pub open spec fn stream_payload_at(m: Map<Seq<char>, StreamState>, key: Seq<char>, rids: Seq<String>, k: nat) -> StreamPayload {
    begin_payload(streams_after(m, key, rids, k), key, k + 1 == rids.len())
}

proof fn lemma_stream_prefix(m: Map<Seq<char>, StreamState>, key: Seq<char>, rids: Seq<String>, k: nat)
    requires
        !m.contains_key(key),
        k < rids.len(),
        rids.len() <= u64::MAX,
    ensures
        streams_after(m, key, rids, k) == (if k == 0 {
            m
        } else {
            m.insert(key, StreamState { id: Some(rids[k - 1]), index: k as u64, active: true })
        }),
    decreases k,
{
    if k > 0 {
        lemma_stream_prefix(m, key, rids, (k - 1) as nat);
        let st = StreamState { id: Some(rids[k - 1]), index: k as u64, active: true };
        if k == 1 {
            assert(m.insert(key, fresh_stream()).insert(key, st) =~= m.insert(key, st));
        } else {
            let prev = StreamState { id: Some(rids[k - 2]), index: (k - 1) as u64, active: true };
            assert(m.insert(key, prev).insert(key, st) =~= m.insert(key, st));
        }
    }
}

/// A stream to a user who has none going on runs as the platform expects:
/// chunk `k` carries index `k` and the id that the platform gave chunk `k - 1`
/// (none for the first chunk), every chunk is marked as going on (state 1)
/// but the last, which is marked as done (state 10), and none asks for a
/// reset; once the last chunk is accepted the user has no stream any more and
/// the streams to other users are as they were.
pub proof fn lemma_stream_run(m: Map<Seq<char>, StreamState>, key: Seq<char>, rids: Seq<String>)
    requires
        !m.contains_key(key),
        rids.len() <= u64::MAX,
    ensures
        forall|k: int| 0 <= k < rids.len() ==> {
            let p = #[trigger] stream_payload_at(m, key, rids, k as nat);
            &&& p.index == k
            &&& p.id == (if k == 0 { None } else { Some(rids[k - 1]) })
            &&& p.state == (if k == rids.len() - 1 { 10u8 } else { 1u8 })
            &&& !p.reset
        },
        streams_after(m, key, rids, rids.len()) == m,
{
    assert forall|k: int| 0 <= k < rids.len() implies {
        let p = #[trigger] stream_payload_at(m, key, rids, k as nat);
        &&& p.index == k
        &&& p.id == (if k == 0 { None } else { Some(rids[k - 1]) })
        &&& p.state == (if k == rids.len() - 1 { 10u8 } else { 1u8 })
        &&& !p.reset
    } by {
        lemma_stream_prefix(m, key, rids, k as nat);
    }
    if rids.len() > 0 {
        let n = rids.len();
        lemma_stream_prefix(m, key, rids, (n - 1) as nat);
        let before = streams_after(m, key, rids, (n - 1) as nat);
        assert(after_begin(before, key).remove(key) =~= m);
    }
}

/// A stream that is not remembered begins at chunk 0 with no id.
pub proof fn lemma_first_chunk_is_fresh(m: Map<Seq<char>, StreamState>, key: Seq<char>, is_final: bool)
    requires
        !m.contains_key(key),
    ensures
        begin_payload(m, key, is_final).index == 0,
        begin_payload(m, key, is_final).id is None,
{
}

/// Once the platform accepted a chunk that was not the last, the next chunk to
/// the same user carries the next index and the id that the platform answered.
pub proof fn lemma_next_chunk_follows(m: Map<Seq<char>, StreamState>, key: Seq<char>, rid: String, next_final: bool)
    requires
        stream_state_of(m, key).index < u64::MAX,
    ensures
        ({
            let before = begin_payload(m, key, false);
            let after = after_accept(after_begin(m, key), key, false, rid);
            let next = begin_payload(after, key, next_final);
            &&& next.index == before.index + 1
            &&& next.id == Some(rid)
        }),
{
}

/// Once the platform accepted the last chunk, the stream is forgotten: the
/// next chunk to the same user begins a new stream.
pub proof fn lemma_last_chunk_resets(m: Map<Seq<char>, StreamState>, key: Seq<char>, rid: String, next_final: bool)
    ensures
        ({
            let after = after_accept(after_begin(m, key), key, true, rid);
            &&& !after.contains_key(key)
            &&& begin_payload(after, key, next_final).index == 0
            &&& begin_payload(after, key, next_final).id is None
        }),
{
}

/// A chunk is marked as the last (state 10) exactly when it is the last, and
/// as going on (state 1) otherwise; it never asks for a reset.
pub proof fn lemma_chunk_state_marks_last(m: Map<Seq<char>, StreamState>, key: Seq<char>, is_final: bool)
    ensures
        (begin_payload(m, key, is_final).state == 10) == is_final,
        (begin_payload(m, key, is_final).state == 1) == !is_final,
        !begin_payload(m, key, is_final).reset,
{
}

/// Sending to one user leaves the streams to every other user as they were.
pub proof fn lemma_streams_are_per_user(m: Map<Seq<char>, StreamState>, key: Seq<char>, other: Seq<char>, is_final: bool, rid: String)
    requires
        key != other,
    ensures
        stream_state_of(after_begin(m, key), other) == stream_state_of(m, other),
        stream_state_of(after_accept(m, key, is_final, rid), other) == stream_state_of(m, other),
        stream_state_of(m.remove(key), other) == stream_state_of(m, other),
{
}

/// A chunk that failed for good leaves no stream behind: the next chunk to
/// the same user begins a new stream, and the streams to other users are as
/// they were.
pub proof fn lemma_failed_chunk_cleans_up(m: Map<Seq<char>, StreamState>, key: Seq<char>, other: Seq<char>, is_final: bool)
    ensures
        !after_failure(after_begin(m, key), key).contains_key(key),
        begin_payload(after_failure(after_begin(m, key), key), key, is_final).index == 0,
        begin_payload(after_failure(after_begin(m, key), key), key, is_final).id is None,
        other != key ==> stream_state_of(after_failure(after_begin(m, key), key), other) == stream_state_of(m, other),
{
}

/// Beginning a chunk again after a refused one gives the same `stream`
/// field: a chunk sent again as text stays where the refused one was.
pub proof fn lemma_retry_keeps_place(m: Map<Seq<char>, StreamState>, key: Seq<char>, is_final: bool)
    ensures
        after_begin(after_begin(m, key), key) == after_begin(m, key),
        begin_payload(after_begin(m, key), key, is_final) == begin_payload(m, key, is_final),
{
}

/// A cancelled stream starts over: the next chunk has index 0 and no id.
pub proof fn lemma_cancel_starts_over(m: Map<Seq<char>, StreamState>, key: Seq<char>, is_final: bool)
    ensures
        begin_payload(m.remove(key), key, is_final).index == 0,
        begin_payload(m.remove(key), key, is_final).id is None,
{
}

/// In a stream plan, only the last chunk is marked last; it ends with a
/// newline, has sent the whole message, and shows all of a message shorter
/// than 4096 characters.
pub proof fn lemma_plan_ends_once(chunks: Seq<StreamChunk>, c: Seq<char>, size: nat)
    requires
        chunks_planned(chunks, c, size),
        c.len() > 0,
    ensures
        chunks.len() > 0,
        chunks.last().is_final,
        forall|j: int| 0 <= j < chunks.len() - 1 ==> !(#[trigger] chunks[j]).is_final,
        chunks.last().content@.len() > 0 && chunks.last().content@.last() == '\n',
        chunks.last().sent == c.len(),
        c.len() < 4096 ==> (chunks.last().content@ == c || chunks.last().content@ == c.push('\n')),
{
    assert(chunks.len() > 0) by (nonlinear_arith)
        requires chunks.len() * size >= c.len(), c.len() > 0;
    let l = chunks.len() - 1;
    assert(chunk_end(c.len(), size, l as nat) == c.len()) by (nonlinear_arith)
        requires chunks.len() * size >= c.len(), l == chunks.len() - 1;
    assert(chunks[l] == chunks.last());
    assert(c.take(c.len() as int) =~= c);
    assert forall|j: int| 0 <= j < chunks.len() - 1 implies !(#[trigger] chunks[j]).is_final by {
        assert((j + 1) * size <= (chunks.len() - 1) * size) by (nonlinear_arith)
            requires j + 1 <= chunks.len() - 1;
        assert(chunk_end(c.len(), size, j as nat) < c.len());
    }
}

/// In a stream plan, no chunk holds more than 4096 characters, each shows what
/// the one before showed and more (up to 4096 characters), and every chunk's
/// text is a prefix of the message, but for the closing newline of the last.
pub proof fn lemma_plan_grows(chunks: Seq<StreamChunk>, c: Seq<char>, size: nat, j: int)
    requires
        chunks_planned(chunks, c, size),
        0 <= j < chunks.len(),
    ensures
        ({
            let shown = shown_text(c, chunk_end(c.len(), size, j as nat));
            &&& shown.len() <= 4096
            &&& shown == c.take(shown.len() as int)
            &&& chunks[j].content@.len() <= 4096
            &&& chunks[j].content@ == shown || ({
                let t = chunks[j].content@;
                &&& chunks[j].is_final
                &&& t.len() > 0 && t.last() == '\n'
                &&& t.drop_last() == c.take(t.len() - 1)
            })
            &&& j + 1 < chunks.len() ==> shown.len() <= shown_text(c, chunk_end(c.len(), size, (j + 1) as nat)).len()
        }),
{
    assert(chunks[j].content@ == chunk_text(c, size, j as nat));
    let shown = shown_text(c, chunk_end(c.len(), size, j as nat));
    if closes_with_newline(c, size, j as nat) {
        let t = chunks[j].content@;
        let k: int = if shown.len() < 4096 { shown.len() as int } else { 4095 };
        assert(t.drop_last() =~= c.take(k));
    }
    if j + 1 < chunks.len() {
        assert((j + 1) * size <= (j + 2) * size) by (nonlinear_arith);
    }
}

} // verus!
