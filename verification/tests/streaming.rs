use qq_warning::stream::{plan_stream_chunks, recover_chunk, ChunkFailure, ChunkRecovery, StreamRegistry};

#[test]
fn stream_plan_accumulates() {
    let chunks = plan_stream_chunks("abcdefg", 3);
    let got: Vec<(String, bool)> = chunks.into_iter().map(|c| (c.content, c.is_final)).collect();
    assert_eq!(
        got,
        vec![("abc".to_string(), false), ("abcdef".to_string(), false), ("abcdefg\n".to_string(), true)]
    );
}

#[test]
fn stream_plan_keeps_final_newline() {
    let chunks = plan_stream_chunks("hi\n", 2);
    assert_eq!(chunks.len(), 2);
    assert_eq!(chunks[1].content, "hi\n");
    assert!(chunks[1].is_final);
}

#[test]
fn stream_plan_empty_and_whole() {
    assert!(plan_stream_chunks("", 0).is_empty());
    let chunks = plan_stream_chunks("你好世界", 100);
    assert_eq!(chunks.len(), 1);
    assert_eq!(chunks[0].content, "你好世界\n");
    assert!(chunks[0].is_final);
}

#[test]
fn stream_plan_cuts_at_4096_characters() {
    let text: String = std::iter::repeat('字').take(5000).collect();
    let chunks = plan_stream_chunks(&text, 2000);
    assert_eq!(chunks.len(), 3);
    assert_eq!(chunks[0].content.chars().count(), 2000);
    assert_eq!(chunks[1].content.chars().count(), 4000);
    assert_eq!(chunks[2].content.chars().count(), 4096);
    assert!(chunks[2].content.ends_with('\n'));
    assert_eq!(chunks[2].content.chars().filter(|c| *c == '字').count(), 4095);
    assert_eq!((chunks[0].sent, chunks[1].sent, chunks[2].sent), (2000, 4000, 5000));
}

#[test]
fn stream_registry_counts_chunks() {
    let mut r = StreamRegistry::new();
    let p = r.begin_chunk("u1", false);
    assert_eq!((p.id.clone(), p.index, p.state, p.reset), (None, 0, 1, false));
    r.accept_chunk("u1", false, "m1".to_string());
    let p = r.begin_chunk("u1", false);
    assert_eq!((p.id.clone(), p.index, p.state), (Some("m1".to_string()), 1, 1));
    r.accept_chunk("u1", false, "m2".to_string());
    let s = r.state("u1");
    assert_eq!((s.id.clone(), s.index, s.active), (Some("m2".to_string()), 2, true));
    let p = r.begin_chunk("u1", true);
    assert_eq!((p.id.clone(), p.index, p.state), (Some("m2".to_string()), 2, 10));
    r.accept_chunk("u1", true, "m3".to_string());
    let p = r.begin_chunk("u1", false);
    assert_eq!((p.id, p.index), (None, 0));
}

#[test]
fn stream_registry_per_user_and_cancel() {
    let mut r = StreamRegistry::new();
    r.begin_chunk("a", false);
    r.accept_chunk("a", false, "x".to_string());
    let p = r.begin_chunk("b", false);
    assert_eq!(p.index, 0);
    assert_eq!(r.state("a").index, 1);
    r.cancel("a");
    assert_eq!(r.state("a").index, 0);
    assert!(r.state("a").id.is_none());
    // a failed send leaves the stream where it was
    let p1 = r.begin_chunk("c", false);
    let p2 = r.begin_chunk("c", false);
    assert_eq!(p1.index, p2.index);
}

#[test]
fn stream_of_one_chunk_is_done_at_once() {
    let mut r = StreamRegistry::new();
    r.begin_chunk("other", false);
    r.accept_chunk("other", false, "o1".to_string());
    let p = r.begin_chunk("u", true);
    assert_eq!((p.id.clone(), p.index, p.state, p.reset), (None, 0, 10, false));
    r.accept_chunk("u", true, "m1".to_string());
    let s = r.state("u");
    assert_eq!((s.id, s.index, s.active), (None, 0, false));
    let o = r.state("other");
    assert_eq!((o.id, o.index, o.active), (Some("o1".to_string()), 1, true));
}

#[test]
fn stream_run_follows_the_plan() {
    let chunks = plan_stream_chunks("abcdefghij", 4);
    let mut r = StreamRegistry::new();
    let mut seen = Vec::new();
    for (k, c) in chunks.iter().enumerate() {
        let p = r.begin_chunk("u", c.is_final);
        seen.push((p.id.clone(), p.index, p.state));
        r.accept_chunk("u", c.is_final, format!("id{}", k));
    }
    assert_eq!(
        seen,
        vec![(None, 0, 1), (Some("id0".to_string()), 1, 1), (Some("id1".to_string()), 2, 10)]
    );
    assert_eq!(r.state("u").index, 0);
}

#[test]
fn stream_chunks_never_exceed_4096_characters() {
    let mut text: String = std::iter::repeat('a').take(4095).collect();
    text.push('\n');
    text.push_str("tail");
    let chunks = plan_stream_chunks(&text, 4096);
    assert_eq!(chunks.len(), 2);
    assert_eq!(chunks[0].content.chars().count(), 4096);
    // the whole message is past the cap and already ends the shown text with a newline
    assert_eq!(chunks[1].content.chars().count(), 4096);
    assert!(chunks[1].content.ends_with('\n'));
    let short = plan_stream_chunks("abc", 10);
    assert_eq!(short[0].content, "abc\n");
    assert_eq!(short[0].sent, 3);
    let exact: String = std::iter::repeat('b').take(4096).collect();
    let c = plan_stream_chunks(&exact, 5000);
    assert_eq!(c[0].content.chars().count(), 4096);
    assert_eq!(c[0].content.chars().filter(|x| *x == 'b').count(), 4095);
}

#[test]
fn failed_chunk_gives_the_stream_up() {
    let mut r = StreamRegistry::new();
    r.begin_chunk("u", false);
    r.accept_chunk("u", false, "m1".to_string());
    r.begin_chunk("v", false);
    r.accept_chunk("v", false, "n1".to_string());
    let p = r.begin_chunk("u", false);
    assert_eq!(p.index, 1);
    r.fail_chunk("u");
    let s = r.state("u");
    assert_eq!((s.id, s.index, s.active), (None, 0, false));
    let p = r.begin_chunk("u", false);
    assert_eq!((p.id, p.index), (None, 0));
    assert_eq!(r.state("v").index, 1);
}

#[test]
fn refused_markdown_chunk_is_retried_as_text() {
    assert_eq!(recover_chunk(true, ChunkFailure::Rejected), ChunkRecovery::RetryAsText);
    assert_eq!(recover_chunk(true, ChunkFailure::Unreachable), ChunkRecovery::Abandon);
    assert_eq!(recover_chunk(false, ChunkFailure::Rejected), ChunkRecovery::Abandon);
    assert_eq!(recover_chunk(false, ChunkFailure::Unreachable), ChunkRecovery::Abandon);
}
