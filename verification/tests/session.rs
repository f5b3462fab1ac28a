use qq_warning::session::{cached_token, expires_in_seconds, fetched_token, msg_seq_at, next_msg_seq, parse_u64, rate_limit_delay, ExpiresIn, TokenCache};

/// The sequence number as the original fold computes it.
fn seq_reference(base: i64, seed: &str) -> i64 {
    let salt = seed.bytes().fold(0_i64, |acc, b| acc.wrapping_mul(31).wrapping_add(b as i64));
    (base.wrapping_add(salt).rem_euclid(65535)).max(1)
}

#[test]
fn msg_seq_matches_fold() {
    let bases = [0i64, 1, 65535, 1719720000000, i64::MAX, i64::MAX - 5, 1234567];
    let seeds = ["", "a", "87FAB80C79F56E0EFB3E5B8590AF00BC", "群聊", "user_openid_123456789012345678901234567890"];
    for b in bases {
        for s in seeds {
            assert_eq!(msg_seq_at(b, s), seq_reference(b, s), "base {} seed {}", b, s);
        }
    }
}

#[test]
fn msg_seq_exact_values() {
    assert_eq!(msg_seq_at(0, ""), 1);
    assert_eq!(msg_seq_at(65535, ""), 1);
    assert_eq!(msg_seq_at(65536, ""), 1);
    assert_eq!(msg_seq_at(65537, ""), 2);
    // 'a' is 97
    assert_eq!(msg_seq_at(3, "a"), 100);
}

#[test]
fn next_msg_seq_in_range() {
    for _ in 0..100 {
        let s = next_msg_seq("user");
        assert!((1..=65534).contains(&s));
    }
}

#[test]
fn token_cache_reuse_window() {
    let c = fetched_token("tok".to_string(), 7200, 1000);
    assert_eq!(c.expires_at_ms, 1000 + 7_200_000);
    let cache = Some(c);
    assert_eq!(cached_token(&cache, 1000), Some("tok".to_string()));
    assert_eq!(cached_token(&cache, 1000 + 7_200_000 - 60_001), Some("tok".to_string()));
    assert_eq!(cached_token(&cache, 1000 + 7_200_000 - 60_000), None);
    assert_eq!(cached_token(&None, 0), None);
    let short = Some(TokenCache { token: "t".to_string(), expires_at_ms: 60_000 });
    assert_eq!(cached_token(&short, 0), None);
}

#[test]
fn expires_in_as_number_or_text() {
    assert_eq!(expires_in_seconds(&ExpiresIn::Number(7200)), Some(7200));
    assert_eq!(expires_in_seconds(&ExpiresIn::Text("2178".to_string())), Some(2178));
    assert_eq!(expires_in_seconds(&ExpiresIn::Text("abc".to_string())), None);
}

#[test]
fn parse_u64_like_std() {
    let cases = ["", "+", "-", "0", "+0", "007", "-1", " 1", "1 ", "12a", "18446744073709551615", "18446744073709551616", "99999999999999999999", "+18446744073709551615", "١٢"];
    for c in cases {
        assert_eq!(parse_u64(c), c.parse::<u64>().ok(), "input {:?}", c);
    }
}

#[test]
fn rate_limit_pause() {
    assert_eq!(rate_limit_delay(None, 1), 0);
    assert_eq!(rate_limit_delay(Some(300_000_000), 1), 700_000_000);
    assert_eq!(rate_limit_delay(Some(1_000_000_000), 1), 0);
    assert_eq!(rate_limit_delay(Some(5_000_000_000), 1), 0);
    assert_eq!(rate_limit_delay(Some(0), 0), 0);
    assert_eq!(rate_limit_delay(Some(0), 3), 3_000_000_000);
}
