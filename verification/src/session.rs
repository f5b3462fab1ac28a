//! Decisions of the HTTP client that do not depend on the network: message
//! sequence numbers, the access-token cache, the token lifetime field, and the
//! pause that the rate limit asks for.

use vstd::prelude::*;
use vstd::string::StringSliceAdditionalSpecFns;
use vstd::wrapping::i64_specs;
use crate::text::{chars_of, decimal, digit_char};

verus! {

/// The salt that a seed adds to a sequence number: its UTF-8 bytes folded
/// as `acc * 31 + byte`, wrapping on 64 bits.
pub open spec fn seed_salt(bytes: Seq<u8>) -> i64
    decreases bytes.len(),
{
    if bytes.len() == 0 {
        0
    } else {
        i64_specs::wrapping_add(i64_specs::wrapping_mul(seed_salt(bytes.drop_last()), 31), bytes.last() as i64)
    }
}

/// The sequence number for a message at `base` milliseconds with the given seed
/// bytes: `(base + salt)` wrapping on 64 bits, taken modulo 65535 (never
/// negative), and 1 in place of 0.
pub open spec fn msg_seq_for(base: i64, bytes: Seq<u8>) -> i64 {
    let r = i64_specs::wrapping_add(base, seed_salt(bytes)) % 65535;
    if r >= 1 { r } else { 1 }
}

/// `chrono::Utc::now().timestamp_millis()`: the current time in milliseconds
/// since the Unix epoch.  Nothing is claimed of the value but that it is not
/// negative (`Utc::now` panics on a clock set before the epoch).
#[verifier::external_body]
fn utc_now_millis() -> (ms: i64)
    ensures
        ms >= 0,
{
    chrono::Utc::now().timestamp_millis()
}

/// The sequence number for a message at `base` milliseconds with the given seed.
pub fn msg_seq_at(base: i64, seed: &str) -> (r: i64)
    ensures
        r == msg_seq_for(base, seed.spec_bytes()),
        1 <= r <= 65534,
{
    let bytes = seed.as_bytes();
    let mut salt: i64 = 0;
    let mut i: usize = 0;
    while i < bytes.len()
        invariant
            bytes@ == seed.spec_bytes(),
            i <= bytes@.len(),
            salt == seed_salt(bytes@.take(i as int)),
        decreases bytes@.len() - i,
    {
        assert(bytes@.take(i + 1).drop_last() =~= bytes@.take(i as int));
        salt = salt.wrapping_mul(31).wrapping_add(bytes[i] as i64);
        i = i + 1;
    }
    assert(bytes@.take(i as int) =~= bytes@);
    let v = base.wrapping_add(salt);
    let r = match v.checked_rem_euclid(65535) {
        Some(r) => r,
        None => 0,
    };
    if r >= 1 { r } else { 1 }
}

/// A fresh sequence number for a message to `seed`, from the current time.
pub fn next_msg_seq(seed: &str) -> (r: i64)
    ensures
        1 <= r <= 65534,
        exists|base: i64| base >= 0 && r == msg_seq_for(base, seed.spec_bytes()),
{
    let base = utc_now_millis();
    msg_seq_at(base, seed)
}

/// How long before its expiry a cached token is renewed.
pub const TOKEN_REFRESH_MARGIN_MS: u64 = 60000;

/// An access token and the time, in milliseconds on the caller's monotonic
/// clock, at which it expires.
#[derive(Debug, Clone)]
pub struct TokenCache {
    pub token: String,
    pub expires_at_ms: u128,
}

/// A cached token is used while it has more than a minute left.
pub open spec fn token_usable(c: TokenCache, now_ms: nat) -> bool {
    c.expires_at_ms > now_ms + 60000
}

/// The cached token, when there is one with more than a minute left at `now_ms`.
pub fn cached_token(cache: &Option<TokenCache>, now_ms: u64) -> (t: Option<String>)
    ensures
        t is Some <==> (*cache matches Some(c) && token_usable(c, now_ms as nat)),
        t matches Some(s) ==> (*cache matches Some(c) && s@ == c.token@),
{
    match cache {
        Some(c) => {
            if c.expires_at_ms > (now_ms as u128) + 60000 {
                Some(c.token.clone())
            } else {
                None
            }
        },
        None => None,
    }
}

/// The cache entry for a token fetched at `now_ms` that lives `expires_in_secs` seconds.
pub fn fetched_token(token: String, expires_in_secs: u64, now_ms: u64) -> (c: TokenCache)
    ensures
        c.token == token,
        c.expires_at_ms == now_ms + expires_in_secs * 1000,
{
    TokenCache { token, expires_at_ms: (now_ms as u128) + (expires_in_secs as u128) * 1000 }
}

/// The `expires_in` field of the token response, which the platform sends
/// either as a number or as a string of digits.
#[derive(Debug, Clone)]
pub enum ExpiresIn {
    Number(u64),
    Text(String),
}

/// `c` is an ASCII decimal digit.
pub open spec fn is_digit(c: char) -> bool {
    '0' <= c && c <= '9'
}

/// Every character of `d` is an ASCII decimal digit.
pub open spec fn all_digits(d: Seq<char>) -> bool {
    forall|i: int| 0 <= i < d.len() ==> is_digit(#[trigger] d[i])
}

/// The value of a string of decimal digits.
pub open spec fn digits_value(d: Seq<char>) -> nat
    decreases d.len(),
{
    if d.len() == 0 { 0 } else { digits_value(d.drop_last()) * 10 + ((d.last() as u32) - 48) as nat }
}

/// `s` without a leading `+`.
pub open spec fn unsigned_part(s: Seq<char>) -> Seq<char> {
    if s.len() > 0 && s[0] == '+' { s.drop_first() } else { s }
}

/// `str::parse::<u64>`: an optional `+` followed by one or more ASCII digits
/// whose value fits in 64 bits.
pub open spec fn parse_u64_spec(s: Seq<char>) -> Option<u64> {
    let d = unsigned_part(s);
    if d.len() > 0 && all_digits(d) && digits_value(d) <= u64::MAX {
        Some(digits_value(d) as u64)
    } else {
        None
    }
}

proof fn lemma_digits_value_grows(d: Seq<char>, i: int)
    requires
        0 <= i <= d.len(),
    ensures
        digits_value(d.take(i)) <= digits_value(d),
    decreases d.len() - i,
{
    if i < d.len() {
        lemma_digits_value_grows(d, i + 1);
        assert(d.take(i + 1).drop_last() =~= d.take(i));
    } else {
        assert(d.take(i) =~= d);
    }
}

/// Reads a `u64` as `str::parse` does.
pub fn parse_u64(s: &str) -> (r: Option<u64>)
    ensures
        r == parse_u64_spec(s@),
{
    let cs = chars_of(s);
    let n = cs.len();
    let start: usize = if n > 0 && cs[0] == '+' { 1 } else { 0 };
    let ghost d = unsigned_part(s@);
    assert(d =~= cs@.subrange(start as int, n as int));
    if start == n {
        return None;
    }
    let mut v: u64 = 0;
    let mut i: usize = start;
    while i < n
        invariant
            cs@ == s@,
            n == cs@.len(),
            start < n,
            start <= i <= n,
            d == cs@.subrange(start as int, n as int),
            d == unsigned_part(s@),
            forall|k: int| 0 <= k < i - start ==> is_digit(#[trigger] d[k]),
            v == digits_value(d.take(i - start)),
        decreases n - i,
    {
        let c = cs[i];
        if !('0' <= c && c <= '9') {
            assert(!is_digit(d[i - start]));
            assert(!all_digits(d));
            return None;
        }
        let dv = (c as u64) - 48;
        assert(d.take(i - start + 1).drop_last() =~= d.take(i - start));
        match v.checked_mul(10) {
            Some(m) => match m.checked_add(dv) {
                Some(w) => {
                    v = w;
                },
                None => {
                    proof {
                        lemma_digits_value_grows(d, i - start + 1);
                        assert(d.take(i - start + 1).last() == c);
                        assert(digits_value(d.take(i - start + 1)) == v * 10 + dv);
                        assert(digits_value(d) > u64::MAX);
                    }
                    return None;
                },
            },
            None => {
                proof { lemma_digits_value_grows(d, i - start + 1); }
                return None;
            },
        }
        i = i + 1;
    }
    assert(d.take(n - start) =~= d);
    Some(v)
}

/// The token lifetime in seconds, or `None` when the text is no number.
pub fn expires_in_seconds(field: &ExpiresIn) -> (r: Option<u64>)
    ensures
        r == (match *field {
            ExpiresIn::Number(n) => Some(n),
            ExpiresIn::Text(t) => parse_u64_spec(t@),
        }),
{
    match field {
        ExpiresIn::Number(n) => Some(*n),
        ExpiresIn::Text(t) => parse_u64(t.as_str()),
    }
}

/// How long to wait before sending, in nanoseconds: what is left of the
/// minimum interval since the last send, or nothing when there was none.
pub open spec fn rate_limit_pause(elapsed_ns: Option<u128>, min_interval_secs: u64) -> nat {
    match elapsed_ns {
        None => 0,
        Some(e) => if e < min_interval_secs * 1000000000 { (min_interval_secs * 1000000000 - e) as nat } else { 0 },
    }
}

/// The pause that the rate limit asks for before the next send.
pub fn rate_limit_delay(elapsed_ns: Option<u128>, min_interval_secs: u64) -> (d: u128)
    ensures
        d == rate_limit_pause(elapsed_ns, min_interval_secs),
{
    match elapsed_ns {
        None => 0,
        Some(e) => {
            let min_ns = (min_interval_secs as u128) * 1000000000;
            if e < min_ns { min_ns - e } else { 0 }
        },
    }
}


/// A token fetched at `now_ms` that lives `expires_in_secs` seconds is reused
/// exactly while more than a minute of its life is left.
pub proof fn lemma_token_reused_until_last_minute(token: String, expires_in_secs: u64, now_ms: u64, later_ms: u64)
    ensures
        ({
            let c = TokenCache { token, expires_at_ms: (now_ms + expires_in_secs * 1000) as u128 };
            token_usable(c, later_ms as nat) <==> later_ms + 60000 < now_ms + expires_in_secs * 1000
        }),
{
    assert(now_ms + expires_in_secs * 1000 <= u128::MAX) by (nonlinear_arith)
        requires now_ms <= u64::MAX, expires_in_secs <= u64::MAX;
}

/// A token whose life is a minute or less is never reused.
pub proof fn lemma_short_lived_token_not_cached(token: String, expires_in_secs: u64, now_ms: u64, later_ms: u64)
    requires
        expires_in_secs <= 60,
        later_ms >= now_ms,
    ensures
        !token_usable(TokenCache { token, expires_at_ms: (now_ms + expires_in_secs * 1000) as u128 }, later_ms as nat),
{
}

/// After the pause that the rate limit asks for, at least the minimum
/// interval has passed since the last send; no pause is asked once it has
/// passed, and never more than the interval.
pub proof fn lemma_rate_limit_spaces_sends(elapsed_ns: u128, min_interval_secs: u64)
    ensures
        elapsed_ns + rate_limit_pause(Some(elapsed_ns), min_interval_secs) >= min_interval_secs * 1000000000,
        elapsed_ns >= min_interval_secs * 1000000000 ==> rate_limit_pause(Some(elapsed_ns), min_interval_secs) == 0,
        rate_limit_pause(Some(elapsed_ns), min_interval_secs) <= min_interval_secs * 1000000000,
        rate_limit_pause(None, min_interval_secs) == 0,
{
}

/// Sequence numbers are never 0 nor above 65534, whatever the time and seed.
pub proof fn lemma_msg_seq_range(base: i64, bytes: Seq<u8>)
    ensures
        1 <= msg_seq_for(base, bytes) <= 65534,
{
}

proof fn lemma_digit_char_value(n: nat)
    requires
        n < 10,
    ensures
        is_digit(digit_char(n)),
        ((digit_char(n) as u32) - 48) as nat == n,
{
    assert('0' as u32 == 48);
    assert('9' as u32 == 57);
    if n == 0 { assert('0' as u32 == 48); }
    else if n == 1 { assert('1' as u32 == 49); }
    else if n == 2 { assert('2' as u32 == 50); }
    else if n == 3 { assert('3' as u32 == 51); }
    else if n == 4 { assert('4' as u32 == 52); }
    else if n == 5 { assert('5' as u32 == 53); }
    else if n == 6 { assert('6' as u32 == 54); }
    else if n == 7 { assert('7' as u32 == 55); }
    else if n == 8 { assert('8' as u32 == 56); }
    else { assert('9' as u32 == 57); }
}

proof fn lemma_decimal_digits(n: nat)
    ensures
        decimal(n).len() > 0,
        all_digits(decimal(n)),
        digits_value(decimal(n)) == n,
    decreases n,
{
    if n < 10 {
        let d = decimal(n);
        assert(d.drop_last() =~= Seq::<char>::empty());
        assert(d.last() == digit_char(n));
        lemma_digit_char_value(n);
        assert(digits_value(Seq::<char>::empty()) == 0);
        assert(digits_value(d) == digits_value(d.drop_last()) * 10 + ((d.last() as u32) - 48) as nat);
    } else {
        lemma_digit_char_value(n % 10);
        lemma_decimal_digits(n / 10);
        let d = decimal(n);
        assert(d.drop_last() =~= decimal(n / 10));
        assert(d.last() == digit_char(n % 10));
        assert(digits_value(d) == digits_value(d.drop_last()) * 10 + ((d.last() as u32) - 48) as nat);
        assert(digits_value(d) == (n / 10) * 10 + n % 10);
        assert forall|i: int| 0 <= i < d.len() implies is_digit(#[trigger] d[i]) by {
            if i < d.len() - 1 {
                assert(d[i] == decimal(n / 10)[i]);
            }
        }
    }
}

proof fn lemma_leading_zero(d: Seq<char>)
    ensures
        digits_value(seq!['0'] + d) == digits_value(d),
    decreases d.len(),
{
    if d.len() == 0 {
        assert((seq!['0'] + d).drop_last() =~= Seq::<char>::empty());
        assert((seq!['0'] + d).last() == '0');
        lemma_digit_char_value(0);
        assert(digits_value(Seq::<char>::empty()) == 0);
        assert(d =~= Seq::<char>::empty());
    } else {
        assert((seq!['0'] + d).drop_last() =~= seq!['0'] + d.drop_last());
        assert((seq!['0'] + d).last() == d.last());
        let z = seq!['0'] + d;
        assert(digits_value(z) == digits_value(z.drop_last()) * 10 + ((z.last() as u32) - 48) as nat);
        lemma_leading_zero(d.drop_last());
    }
}

/// Reading a number back: the decimal notation of every `u64`, trailing zeros
/// included, reads as that number, also after a `+` or a leading zero; the
/// notation of a number past `u64::MAX` reads as nothing.
pub proof fn lemma_parse_reads_decimal(n: nat)
    ensures
        n <= u64::MAX ==> parse_u64_spec(decimal(n)) == Some(n as u64),
        n <= u64::MAX ==> parse_u64_spec(seq!['+'] + decimal(n)) == Some(n as u64),
        n <= u64::MAX ==> parse_u64_spec(seq!['0'] + decimal(n)) == Some(n as u64),
        n > u64::MAX ==> parse_u64_spec(decimal(n)) is None,
{
    lemma_decimal_digits(n);
    let d = decimal(n);
    assert(is_digit(d[0]));
    assert(unsigned_part(d) == d);
    assert((seq!['+'] + d).drop_first() =~= d);
    let z = seq!['0'] + d;
    lemma_leading_zero(d);
    assert(unsigned_part(z) == z);
    assert forall|i: int| 0 <= i < z.len() implies is_digit(#[trigger] z[i]) by {
        if i > 0 {
            assert(z[i] == d[i - 1]);
        }
    }
}

/// Text that is empty, a lone `+`, or holds anything but ASCII digits (after
/// an optional leading `+`) reads as nothing.
pub proof fn lemma_parse_rejects(s: Seq<char>, i: int)
    ensures
        s.len() == 0 ==> parse_u64_spec(s) is None,
        s == seq!['+'] ==> parse_u64_spec(s) is None,
        (0 <= i < s.len() && !(i == 0 && s[0] == '+') && !('0' <= s[i] && s[i] <= '9')) ==> parse_u64_spec(s) is None,
{
    if s == seq!['+'] {
        assert(s.drop_first().len() == 0);
    }
    if 0 <= i < s.len() && !(i == 0 && s[0] == '+') && !('0' <= s[i] && s[i] <= '9') {
        let d = unsigned_part(s);
        if s.len() > 0 && s[0] == '+' {
            assert(d[i - 1] == s[i]);
            assert(!is_digit(d[i - 1]));
        } else {
            assert(!is_digit(d[i]));
        }
    }
}

/// The seed shifts the sequence number by its bytes folded as `acc * 31 +
/// byte` on 64 wrapping bits: an empty seed shifts nothing, a one-byte seed
/// shifts by that byte, and each byte more multiplies what came before by 31
/// and adds itself.  The number is the shifted time modulo 65535, 1 in place of 0.
pub proof fn lemma_msg_seq_salt(base: i64, bytes: Seq<u8>, b: u8)
    ensures
        seed_salt(Seq::<u8>::empty()) == 0,
        seed_salt(seq![b]) == b as i64,
        seed_salt(bytes.push(b)) == i64_specs::wrapping_add(i64_specs::wrapping_mul(seed_salt(bytes), 31), b as i64),
        msg_seq_for(base, Seq::<u8>::empty()) == (if base % 65535 == 0 { 1 } else { base % 65535 }),
        0 <= base && base + (b as int) <= i64::MAX ==> msg_seq_for(base, seq![b]) == (if (base + b) % 65535 == 0 { 1 } else { (base + b) % 65535 }),
{
    assert(seq![b].drop_last() =~= Seq::<u8>::empty());
    assert(bytes.push(b).drop_last() =~= bytes);
    assert(i64_specs::wrapping_mul(0, 31) == 0) by {
        reveal(i64_specs::wrapping_mul);
    }
    assert(i64_specs::wrapping_add(0, b as i64) == b as i64) by {
        reveal(i64_specs::wrapping_add);
    }
    assert(i64_specs::wrapping_add(base, 0) == base) by {
        reveal(i64_specs::wrapping_add);
    }
    if 0 <= base && base + (b as int) <= i64::MAX {
        assert(i64_specs::wrapping_add(base, b as i64) == base + b) by {
            reveal(i64_specs::wrapping_add);
        }
    }
}

} // verus!
