//! Character-level helpers shared by the formatting and routing code.

use vstd::prelude::*;

verus! {

/// `String::push` appends one character at the end of the string.
pub assume_specification[ String::push ](string: &mut String, ch: char)
    ensures
        final(string)@ == old(string)@.push(ch),
;

/// The characters of `s`, in order.
pub fn chars_of(s: &str) -> (v: Vec<char>)
    ensures
        v@ == s@,
{
    let mut v: Vec<char> = Vec::new();
    for c in it: s.chars()
        invariant
            it.seq() == s@,
            v@ == it.seq().take(it.index()),
    {
        v.push(c);
    }
    v
}

/// A string holding exactly the characters of `cs`.
pub fn string_from_chars(cs: &[char]) -> (s: String)
    ensures
        s@ == cs@,
{
    let mut s = String::new();
    let n = cs.len();
    let mut i: usize = 0;
    while i < n
        invariant
            n == cs@.len(),
            i <= n,
            s@ == cs@.take(i as int),
        decreases n - i,
    {
        s.push(cs[i]);
        assert(cs@.take(i as int).push(cs@[i as int]) =~= cs@.take(i + 1));
        i = i + 1;
    }
    assert(cs@.take(n as int) =~= cs@);
    s
}

/// The character of a decimal digit.
pub open spec fn digit_char(d: nat) -> char {
    if d == 0 { '0' }
    else if d == 1 { '1' }
    else if d == 2 { '2' }
    else if d == 3 { '3' }
    else if d == 4 { '4' }
    else if d == 5 { '5' }
    else if d == 6 { '6' }
    else if d == 7 { '7' }
    else if d == 8 { '8' }
    else { '9' }
}

/// The decimal notation of a natural number, without sign or leading zeros.
pub open spec fn decimal(n: nat) -> Seq<char>
    decreases n,
{
    if n < 10 {
        seq![digit_char(n)]
    } else {
        decimal(n / 10).push(digit_char(n % 10))
    }
}

/// The character of decimal digit `d`.
pub fn digit(d: u128) -> (c: char)
    requires
        d < 10,
    ensures
        c == digit_char(d as nat),
{
    if d == 0 { '0' }
    else if d == 1 { '1' }
    else if d == 2 { '2' }
    else if d == 3 { '3' }
    else if d == 4 { '4' }
    else if d == 5 { '5' }
    else if d == 6 { '6' }
    else if d == 7 { '7' }
    else if d == 8 { '8' }
    else { '9' }
}

/// Appends the decimal notation of `n` to `s`.
pub fn push_decimal(s: &mut String, n: u128)
    ensures
        final(s)@ == old(s)@ + decimal(n as nat),
    decreases n,
{
    if n >= 10 {
        push_decimal(s, n / 10);
    }
    s.push(digit(n % 10));
    assert(old(s)@ + decimal(n as nat) =~= (old(s)@ + (if n >= 10 { decimal((n / 10) as nat) } else { Seq::empty() })).push(digit_char((n % 10) as nat)));
}

/// The decimal notation of `n`.
pub fn decimal_string(n: u128) -> (s: String)
    ensures
        s@ == decimal(n as nat),
{
    let mut s = String::new();
    push_decimal(&mut s, n);
    assert(s@ =~= decimal(n as nat));
    s
}

/// Appends the characters of `t` to `s`.
pub fn push_str(s: &mut String, t: &str)
    ensures
        final(s)@ == old(s)@ + t@,
{
    let cs = chars_of(t);
    let n = cs.len();
    let mut i: usize = 0;
    while i < n
        invariant
            n == cs@.len(),
            cs@ == t@,
            i <= n,
            s@ == old(s)@ + t@.take(i as int),
        decreases n - i,
    {
        s.push(cs[i]);
        assert(t@.take(i as int).push(t@[i as int]) =~= t@.take(i + 1));
        assert((old(s)@ + t@.take(i as int)).push(t@[i as int]) =~= old(s)@ + t@.take(i + 1));
        i = i + 1;
    }
    assert(t@.take(n as int) =~= t@);
}

/// The characters of all `parts`, one after the other.
pub open spec fn concat_all(parts: Seq<&str>) -> Seq<char>
    decreases parts.len(),
{
    if parts.len() == 0 { Seq::empty() } else { concat_all(parts.drop_last()) + parts.last()@ }
}

/// A string made of all `parts`, one after the other.
pub fn cat(parts: &[&str]) -> (s: String)
    ensures
        s@ == concat_all(parts@),
{
    let mut s = String::new();
    let mut i: usize = 0;
    while i < parts.len()
        invariant
            i <= parts@.len(),
            s@ == concat_all(parts@.take(i as int)),
        decreases parts@.len() - i,
    {
        push_str(&mut s, parts[i]);
        assert(parts@.take(i + 1).drop_last() =~= parts@.take(i as int));
        i = i + 1;
    }
    assert(parts@.take(parts@.len() as int) =~= parts@);
    s
}

} // verus!
