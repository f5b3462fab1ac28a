//! Telling group ids from user ids, and choosing what to send for a command.

use vstd::prelude::*;
use crate::text::chars_of;

verus! {

/// `char::is_whitespace`: the characters with the Unicode `White_Space` property.
pub open spec fn is_space(c: char) -> bool {
    ||| c == ' '
    ||| ('\u{9}' <= c && c <= '\u{d}')
    ||| c == '\u{85}'
    ||| c == '\u{a0}'
    ||| c == '\u{1680}'
    ||| ('\u{2000}' <= c && c <= '\u{200a}')
    ||| c == '\u{2028}'
    ||| c == '\u{2029}'
    ||| c == '\u{202f}'
    ||| c == '\u{205f}'
    ||| c == '\u{3000}'
}

/// `s` without its leading white space.
pub open spec fn trim_start(s: Seq<char>) -> Seq<char>
    decreases s.len(),
{
    if s.len() > 0 && is_space(s[0]) { trim_start(s.drop_first()) } else { s }
}

/// `s` without its trailing white space.
pub open spec fn trim_end(s: Seq<char>) -> Seq<char>
    decreases s.len(),
{
    if s.len() > 0 && is_space(s.last()) { trim_end(s.drop_last()) } else { s }
}

/// `s` without white space at either end, as `str::trim` gives it.
pub open spec fn trim(s: Seq<char>) -> Seq<char> {
    trim_end(trim_start(s))
}

/// The ASCII lower case of a character; other characters are kept.
pub open spec fn ascii_lower(c: char) -> char {
    if 'A' <= c && c <= 'Z' { ((c as u32) + 32) as char } else { c }
}

/// `s` with ASCII letters in lower case, as `str::to_ascii_lowercase` gives it.
pub open spec fn lower(s: Seq<char>) -> Seq<char> {
    s.map_values(|c: char| ascii_lower(c))
}

/// `p` is a prefix of `s`.
pub open spec fn has_prefix(s: Seq<char>, p: Seq<char>) -> bool {
    p.len() <= s.len() && s.take(p.len() as int) == p
}

/// `p` occurs in `s` starting at position `i`.
pub open spec fn occurs_at(s: Seq<char>, p: Seq<char>, i: int) -> bool {
    0 <= i && i + p.len() <= s.len() && s.subrange(i, i + p.len() as int) == p
}

/// `p` occurs somewhere in `s`.
pub open spec fn has_infix(s: Seq<char>, p: Seq<char>) -> bool {
    exists|i: int| occurs_at(s, p, i)
}

/// An id names a group when, trimmed and in lower case, it starts with
/// `group_`, `grp_` or `qqgroup_`, or contains `group`.
pub open spec fn names_group(id: Seq<char>) -> bool {
    let l = lower(trim(id));
    ||| has_prefix(l, seq!['g', 'r', 'o', 'u', 'p', '_'])
    ||| has_prefix(l, seq!['g', 'r', 'p', '_'])
    ||| has_prefix(l, seq!['q', 'q', 'g', 'r', 'o', 'u', 'p', '_'])
    ||| has_infix(l, seq!['g', 'r', 'o', 'u', 'p'])
}

fn is_space_exec(c: char) -> (b: bool)
    ensures
        b == is_space(c),
{
    c == ' ' || ('\u{9}' <= c && c <= '\u{d}') || c == '\u{85}' || c == '\u{a0}' || c == '\u{1680}'
        || ('\u{2000}' <= c && c <= '\u{200a}') || c == '\u{2028}' || c == '\u{2029}'
        || c == '\u{202f}' || c == '\u{205f}' || c == '\u{3000}'
}

proof fn lemma_trim_start_skip(s: Seq<char>, i: int)
    requires
        0 <= i <= s.len(),
        forall|k: int| 0 <= k < i ==> is_space(#[trigger] s[k]),
    ensures
        trim_start(s) == trim_start(s.subrange(i, s.len() as int)),
    decreases i,
{
    if i > 0 {
        assert(s.drop_first() =~= s.subrange(1, s.len() as int));
        lemma_trim_start_skip(s.drop_first(), i - 1);
        assert(s.drop_first().subrange(i - 1, s.drop_first().len() as int) =~= s.subrange(i, s.len() as int));
    } else {
        assert(s.subrange(0, s.len() as int) =~= s);
    }
}

proof fn lemma_trim_end_skip(s: Seq<char>, j: int)
    requires
        0 <= j <= s.len(),
        forall|k: int| j <= k < s.len() ==> is_space(#[trigger] s[k]),
    ensures
        trim_end(s) == trim_end(s.take(j)),
    decreases s.len() - j,
{
    if j < s.len() {
        assert(s.drop_last() =~= s.take(s.len() - 1));
        lemma_trim_end_skip(s.drop_last(), j);
        assert(s.drop_last().take(j) =~= s.take(j));
    } else {
        assert(s.take(j) =~= s);
    }
}

/// The characters of `s` without white space at either end.
fn trimmed_chars(s: &str) -> (v: Vec<char>)
    ensures
        v@ == trim(s@),
{
    let cs = chars_of(s);
    let n = cs.len();
    let mut lo: usize = 0;
    while lo < n && is_space_exec(cs[lo])
        invariant
            n == cs@.len(),
            lo <= n,
            forall|k: int| 0 <= k < lo ==> is_space(#[trigger] cs@[k]),
        decreases n - lo,
    {
        lo = lo + 1;
    }
    proof {
        lemma_trim_start_skip(cs@, lo as int);
    }
    let ghost rest = cs@.subrange(lo as int, n as int);
    assert(lo < n ==> !is_space(rest[0]));
    assert(trim_start(cs@) == rest) by {
        if lo < n {
        } else {
            assert(rest.len() == 0);
        }
    }
    let mut hi: usize = n;
    while hi > lo && is_space_exec(cs[hi - 1])
        invariant
            n == cs@.len(),
            lo <= hi <= n,
            rest == cs@.subrange(lo as int, n as int),
            forall|k: int| hi <= k < n ==> is_space(#[trigger] cs@[k]),
        decreases hi - lo,
    {
        hi = hi - 1;
    }
    proof {
        assert forall|k: int| (hi - lo) <= k < rest.len() implies is_space(#[trigger] rest[k]) by {
            assert(rest[k] == cs@[lo + k]);
        }
        lemma_trim_end_skip(rest, (hi - lo) as int);
        let kept = rest.take((hi - lo) as int);
        if hi > lo {
            assert(kept.last() == cs@[hi - 1]);
        }
        assert(trim_end(kept) == kept);
    }
    let mut v: Vec<char> = Vec::new();
    let mut i: usize = lo;
    while i < hi
        invariant
            n == cs@.len(),
            lo <= i <= hi <= n,
            v@ == cs@.subrange(lo as int, i as int),
        decreases hi - i,
    {
        v.push(cs[i]);
        assert(cs@.subrange(lo as int, i as int).push(cs@[i as int]) =~= cs@.subrange(lo as int, i + 1));
        i = i + 1;
    }
    assert(v@ =~= rest.take((hi - lo) as int));
    v
}

/// The ASCII lower case of a character.
fn ascii_lower_exec(c: char) -> (d: char)
    ensures
        d == ascii_lower(c),
{
    if 'A' <= c && c <= 'Z' {
        let b = (c as u8) + 32;
        b as char
    } else {
        c
    }
}

/// `p` is a prefix of `s`.
fn prefix_of(s: &[char], p: &[char]) -> (b: bool)
    ensures
        b == has_prefix(s@, p@),
{
    if p.len() > s.len() {
        return false;
    }
    let mut i: usize = 0;
    while i < p.len()
        invariant
            p@.len() <= s@.len(),
            i <= p@.len(),
            forall|k: int| 0 <= k < i ==> s@[k] == p@[k],
        decreases p@.len() - i,
    {
        if s[i] != p[i] {
            assert(s@.take(p@.len() as int)[i as int] != p@[i as int]);
            return false;
        }
        i = i + 1;
    }
    assert(s@.take(p@.len() as int) =~= p@);
    true
}

/// `p` occurs in `s` at position `at`.
fn occurs_at_exec(s: &[char], p: &[char], at: usize) -> (b: bool)
    requires
        at + p@.len() <= s@.len(),
    ensures
        b == occurs_at(s@, p@, at as int),
{
    let slen = s.len();
    let mut i: usize = 0;
    while i < p.len()
        invariant
            slen == s@.len(),
            at + p@.len() <= s@.len(),
            i <= p@.len(),
            forall|k: int| 0 <= k < i ==> s@[at + k] == p@[k],
        decreases p@.len() - i,
    {
        if s[at + i] != p[i] {
            assert(s@.subrange(at as int, at + p@.len())[i as int] != p@[i as int]);
            return false;
        }
        i = i + 1;
    }
    assert(s@.subrange(at as int, at + p@.len()) =~= p@);
    true
}

/// `p` occurs somewhere in `s`.
fn infix_of(s: &[char], p: &[char]) -> (b: bool)
    ensures
        b == has_infix(s@, p@),
{
    if p.len() > s.len() {
        assert(forall|i: int| !occurs_at(s@, p@, i));
        return false;
    }
    if p.len() == 0 {
        assert(s@.subrange(0, 0) =~= p@);
        assert(occurs_at(s@, p@, 0));
        return true;
    }
    let slen = s.len();
    let last = slen - p.len();
    let mut at: usize = 0;
    while at <= last
        invariant
            slen == s@.len(),
            last + p@.len() == s@.len(),
            p@.len() >= 1,
            at <= last + 1,
            forall|i: int| 0 <= i < at ==> !occurs_at(s@, p@, i),
        decreases last + 1 - at,
    {
        if occurs_at_exec(s, p, at) {
            return true;
        }
        at = at + 1;
    }
    assert forall|i: int| !occurs_at(s@, p@, i) by {
        if 0 <= i && i + p@.len() <= s@.len() {
            assert(i < at);
        }
    }
    false
}

/// Tells a group id from a user id: after trimming white space and ignoring
/// ASCII case, the id starts with `group_`, `grp_` or `qqgroup_`, or contains `group`.
pub fn looks_like_group(id: &str) -> (b: bool)
    ensures
        b == names_group(id@),
{
    let t = trimmed_chars(id);
    let mut l: Vec<char> = Vec::new();
    let mut i: usize = 0;
    while i < t.len()
        invariant
            i <= t@.len(),
            l@ == lower(t@).take(i as int),
        decreases t@.len() - i,
    {
        l.push(ascii_lower_exec(t[i]));
        assert(lower(t@).take(i as int).push(ascii_lower(t@[i as int])) =~= lower(t@).take(i + 1));
        i = i + 1;
    }
    assert(l@ =~= lower(t@));
    let group_prefix: [char; 6] = ['g', 'r', 'o', 'u', 'p', '_'];
    let grp_prefix: [char; 4] = ['g', 'r', 'p', '_'];
    let qqgroup_prefix: [char; 8] = ['q', 'q', 'g', 'r', 'o', 'u', 'p', '_'];
    let group_word: [char; 5] = ['g', 'r', 'o', 'u', 'p'];
    assert(group_prefix@ =~= seq!['g', 'r', 'o', 'u', 'p', '_']);
    assert(grp_prefix@ =~= seq!['g', 'r', 'p', '_']);
    assert(qqgroup_prefix@ =~= seq!['q', 'q', 'g', 'r', 'o', 'u', 'p', '_']);
    assert(group_word@ =~= seq!['g', 'r', 'o', 'u', 'p']);
    prefix_of(l.as_slice(), &group_prefix) || prefix_of(l.as_slice(), &grp_prefix)
        || prefix_of(l.as_slice(), &qqgroup_prefix) || infix_of(l.as_slice(), &group_word)
}

/// The kind of send that a command resolves to.
#[derive(Debug, Clone)]
pub enum SendPlan {
    /// A text message to a group.
    GroupText,
    /// A text message to a user.
    UserText,
    /// A Markdown message to a user.
    UserMarkdown,
    /// An image, given by its URL, to a user.
    UserImage(String),
    /// A text or Markdown message streamed to a user chunk by chunk.
    UserStream,
}

/// A remark on how a command was carried out differently from what it asked.
#[derive(Debug, Clone, Copy, PartialEq, Eq, Structural)]
pub enum SendWarning {
    /// Groups take no streamed messages: the text is sent as it is.
    GroupStreamUnsupported,
    /// Groups take no images here: the text is sent instead.
    GroupImageUnsupported,
    /// Groups may not take Markdown: it is tried anyway.
    GroupMarkdownUnsure,
}

/// A send plan with the remark that goes with it.
#[derive(Debug, Clone)]
pub struct SendDecision {
    pub plan: SendPlan,
    pub warning: Option<SendWarning>,
}

/// Which kind of conversation a recall is addressed to.
#[derive(Debug, Clone, Copy, PartialEq, Eq, Structural)]
pub enum RecallTarget {
    Group,
    User,
}

/// The plan for `send to`, which tells a group from a user by the id: a
/// stream, an image or Markdown to a group falls back to text (Markdown is
/// tried as a user Markdown message), in that order of precedence.
pub open spec fn send_to_decision(is_group: bool, markdown: bool, image: Option<Seq<char>>, stream: bool) -> (SendPlan, Option<SendWarning>) {
    if stream {
        if is_group { (SendPlan::GroupText, Some(SendWarning::GroupStreamUnsupported)) } else { (SendPlan::UserStream, None) }
    } else if image is Some {
        if is_group { (SendPlan::GroupText, Some(SendWarning::GroupImageUnsupported)) } else { (SendPlan::UserImage(arbitrary()), None) }
    } else if markdown {
        (SendPlan::UserMarkdown, if is_group { Some(SendWarning::GroupMarkdownUnsure) } else { None })
    } else {
        (if is_group { SendPlan::GroupText } else { SendPlan::UserText }, None)
    }
}

/// `d` is the decision of `send to` for these options, the image URL carried over.
pub open spec fn send_to_made(d: SendDecision, is_group: bool, markdown: bool, image: Option<Seq<char>>, stream: bool) -> bool {
    let (plan, warning) = send_to_decision(is_group, markdown, image, stream);
    &&& d.warning == warning
    &&& match plan {
        SendPlan::UserImage(_) => d.plan matches SendPlan::UserImage(url) && Some(url@) == image,
        _ => d.plan == plan,
    }
}

/// Plans `send to <id>`: the id decides between group and user.
pub fn plan_send_to(target_id: &str, markdown: bool, image: Option<String>, stream: bool) -> (d: SendDecision)
    ensures
        send_to_made(d, names_group(target_id@), markdown, match image { Some(u) => Some(u@), None => None }, stream),
{
    let is_group = looks_like_group(target_id);
    if stream {
        if is_group {
            SendDecision { plan: SendPlan::GroupText, warning: Some(SendWarning::GroupStreamUnsupported) }
        } else {
            SendDecision { plan: SendPlan::UserStream, warning: None }
        }
    } else {
        match image {
            Some(url) => {
                if is_group {
                    SendDecision { plan: SendPlan::GroupText, warning: Some(SendWarning::GroupImageUnsupported) }
                } else {
                    SendDecision { plan: SendPlan::UserImage(url), warning: None }
                }
            },
            None => {
                if markdown {
                    SendDecision {
                        plan: SendPlan::UserMarkdown,
                        warning: if is_group { Some(SendWarning::GroupMarkdownUnsure) } else { None },
                    }
                } else if is_group {
                    SendDecision { plan: SendPlan::GroupText, warning: None }
                } else {
                    SendDecision { plan: SendPlan::UserText, warning: None }
                }
            },
        }
    }
}

/// `p` is what `send user` does with these options: a stream when one is
/// asked for, else the image when one is given, else Markdown, else text.
pub open spec fn user_plan_made(p: SendPlan, markdown: bool, image: Option<Seq<char>>, stream: bool) -> bool {
    &&& stream ==> p == SendPlan::UserStream
    &&& (!stream && image is Some) ==> (p matches SendPlan::UserImage(url) && image == Some(url@))
    &&& (!stream && image is None && markdown) ==> p == SendPlan::UserMarkdown
    &&& (!stream && image is None && !markdown) ==> p == SendPlan::UserText
}

/// Plans `send user`: a stream first, then an image, then Markdown, else text.
pub fn plan_send_user(markdown: bool, image: Option<String>, stream: bool) -> (p: SendPlan)
    ensures
        user_plan_made(p, markdown, match image { Some(u) => Some(u@), None => None }, stream),
        stream ==> p == SendPlan::UserStream,
        !stream && image is Some ==> (p matches SendPlan::UserImage(url) && image == Some(url)),
        !stream && image is None && markdown ==> p == SendPlan::UserMarkdown,
        !stream && image is None && !markdown ==> p == SendPlan::UserText,
{
    if stream {
        SendPlan::UserStream
    } else {
        match image {
            Some(url) => SendPlan::UserImage(url),
            None => if markdown { SendPlan::UserMarkdown } else { SendPlan::UserText },
        }
    }
}

/// Plans `send group`: always text, with a remark when an image was asked for.
pub fn plan_send_group(image_given: bool) -> (d: SendDecision)
    ensures
        d.plan == SendPlan::GroupText,
        d.warning == (if image_given { Some(SendWarning::GroupImageUnsupported) } else { None::<SendWarning> }),
{
    SendDecision {
        plan: SendPlan::GroupText,
        warning: if image_given { Some(SendWarning::GroupImageUnsupported) } else { None },
    }
}

/// Plans `recall`: the id decides between group and user.
pub fn plan_recall(target_id: &str) -> (t: RecallTarget)
    ensures
        t == (if names_group(target_id@) { RecallTarget::Group } else { RecallTarget::User }),
{
    if looks_like_group(target_id) { RecallTarget::Group } else { RecallTarget::User }
}

/// Every character of `s` is white space.
pub open spec fn all_space(s: Seq<char>) -> bool {
    forall|k: int| 0 <= k < s.len() ==> is_space(#[trigger] s[k])
}

proof fn lemma_trim_start_append(s: Seq<char>, b: Seq<char>)
    ensures
        trim_start(s + b) == (if all_space(s) { trim_start(b) } else { trim_start(s) + b }),
    decreases s.len(),
{
    if s.len() == 0 {
        assert(s + b =~= b);
    } else {
        assert((s + b)[0] == s[0]);
        if is_space(s[0]) {
            assert((s + b).drop_first() =~= s.drop_first() + b);
            lemma_trim_start_append(s.drop_first(), b);
            assert(all_space(s) == all_space(s.drop_first())) by {
                if all_space(s.drop_first()) {
                    assert forall|k: int| 0 <= k < s.len() implies is_space(#[trigger] s[k]) by {
                        if k > 0 {
                            assert(s[k] == s.drop_first()[k - 1]);
                        }
                    }
                }
            }
        } else {
            assert(!all_space(s));
        }
    }
}

proof fn lemma_trim_start_all_space(b: Seq<char>)
    requires
        all_space(b),
    ensures
        trim_start(b) == Seq::<char>::empty(),
    decreases b.len(),
{
    if b.len() > 0 {
        assert(all_space(b.drop_first())) by {
            assert forall|k: int| 0 <= k < b.drop_first().len() implies is_space(#[trigger] b.drop_first()[k]) by {
                assert(b.drop_first()[k] == b[k + 1]);
            }
        }
        lemma_trim_start_all_space(b.drop_first());
    }
}

/// White space around an id does not change whether it names a group.
pub proof fn lemma_group_ignores_surrounding_space(before: Seq<char>, id: Seq<char>, after: Seq<char>)
    requires
        all_space(before),
        all_space(after),
    ensures
        names_group(before + id + after) == names_group(id),
{
    let t = id + after;
    assert(before + id + after =~= before + t);
    lemma_trim_start_append(before, t);
    lemma_trim_start_append(id, after);
    lemma_trim_start_all_space(after);
    if !all_space(id) {
        let x = trim_start(id);
        assert forall|k: int| x.len() <= k < (x + after).len() implies is_space(#[trigger] (x + after)[k]) by {
            assert((x + after)[k] == after[k - x.len()]);
        }
        lemma_trim_end_skip(x + after, x.len() as int);
        assert((x + after).take(x.len() as int) =~= x);
    } else {
        lemma_trim_start_all_space(id);
    }
}

proof fn lemma_lower_keeps_space(c: char)
    ensures
        is_space(ascii_lower(c)) == is_space(c),
{
}

proof fn lemma_lower_trim_start(s: Seq<char>)
    ensures
        lower(trim_start(s)) == trim_start(lower(s)),
    decreases s.len(),
{
    if s.len() > 0 {
        lemma_lower_keeps_space(s[0]);
        assert(lower(s)[0] == ascii_lower(s[0]));
        assert(lower(s).drop_first() =~= lower(s.drop_first()));
        lemma_lower_trim_start(s.drop_first());
    }
}

proof fn lemma_lower_trim_end(s: Seq<char>)
    ensures
        lower(trim_end(s)) == trim_end(lower(s)),
    decreases s.len(),
{
    if s.len() > 0 {
        lemma_lower_keeps_space(s.last());
        assert(lower(s).last() == ascii_lower(s.last()));
        assert(lower(s).drop_last() =~= lower(s.drop_last()));
        lemma_lower_trim_end(s.drop_last());
    }
}

/// Ids that differ only in the case of ASCII letters are told apart alike.
pub proof fn lemma_group_ignores_case(a: Seq<char>, b: Seq<char>)
    requires
        lower(a) == lower(b),
    ensures
        names_group(a) == names_group(b),
{
    lemma_lower_trim_start(a);
    lemma_lower_trim_end(trim_start(a));
    lemma_lower_trim_start(b);
    lemma_lower_trim_end(trim_start(b));
    assert(lower(trim(a)) == lower(trim(b)));
}

/// `send to` and `recall` tell a group from a user alike: a plain text sent
/// to an id goes to a group exactly when a recall for that id goes to one,
/// and only a group is ever warned about.
pub proof fn lemma_send_and_recall_agree(id: Seq<char>, markdown: bool, image: Option<Seq<char>>, stream: bool)
    ensures
        (send_to_decision(names_group(id), false, None, false).0 == SendPlan::GroupText) == names_group(id),
        send_to_decision(names_group(id), markdown, image, stream).1 is Some ==> names_group(id),
        send_to_decision(names_group(id), markdown, image, stream).0 == SendPlan::GroupText ==> names_group(id),
{
}

/// `send to` a user does what `send user` does with the same options, and
/// never warns: a stream when asked, else the given image, else Markdown,
/// else text.
pub proof fn lemma_send_to_user_is_send_user(d: SendDecision, markdown: bool, image: Option<Seq<char>>, stream: bool)
    requires
        send_to_made(d, false, markdown, image, stream),
    ensures
        user_plan_made(d.plan, markdown, image, stream),
        d.warning is None,
        stream ==> d.plan == SendPlan::UserStream,
        !stream ==> (image matches Some(u) ==> (d.plan matches SendPlan::UserImage(url) && url@ == u)),
{
}

/// `send to` a group sends text, but Markdown is tried as it is; it warns
/// exactly when an option is not honoured: a stream or an image asked for, or
/// Markdown that a group may not take.
pub proof fn lemma_send_to_group_falls_back(d: SendDecision, markdown: bool, image: Option<Seq<char>>, stream: bool)
    requires
        send_to_made(d, true, markdown, image, stream),
    ensures
        d.plan == SendPlan::GroupText || d.plan == SendPlan::UserMarkdown,
        (d.plan == SendPlan::UserMarkdown) == (!stream && image is None && markdown),
        (d.warning is None) == (!stream && image is None && !markdown),
        stream ==> d.warning == Some(SendWarning::GroupStreamUnsupported),
        (!stream && image is Some) ==> d.warning == Some(SendWarning::GroupImageUnsupported),
        (!stream && image is None && markdown) ==> d.warning == Some(SendWarning::GroupMarkdownUnsure),
{
}

/// An id names a group exactly when, trimmed and with ASCII letters in lower
/// case, it starts with `grp_` or holds `group` at some position (which
/// covers the `group_` and `qqgroup_` prefixes).
pub proof fn lemma_group_id_rule(id: Seq<char>)
    ensures
        names_group(id) == ({
            let l = lower(trim(id));
            ||| (l.len() >= 4 && l.take(4) == seq!['g', 'r', 'p', '_'])
            ||| exists|i: int| 0 <= i && i + 5 <= l.len() && #[trigger] l.subrange(i, i + 5) == seq!['g', 'r', 'o', 'u', 'p']
        }),
{
    let l = lower(trim(id));
    let word = seq!['g', 'r', 'o', 'u', 'p'];
    if has_prefix(l, seq!['g', 'r', 'o', 'u', 'p', '_']) {
        assert(l.subrange(0, 5) =~= word) by {
            assert(l.take(6)[0] == l[0]);
            assert forall|k: int| 0 <= k < 5 implies l.subrange(0, 5)[k] == word[k] by {
                assert(l.take(6)[k] == l[k]);
            }
        }
        assert(occurs_at(l, word, 0));
    }
    if has_prefix(l, seq!['q', 'q', 'g', 'r', 'o', 'u', 'p', '_']) {
        assert(l.subrange(2, 7) =~= word) by {
            assert forall|k: int| 0 <= k < 5 implies l.subrange(2, 7)[k] == word[k] by {
                assert(l.take(8)[k + 2] == l[k + 2]);
            }
        }
        assert(occurs_at(l, word, 2));
    }
    if exists|i: int| 0 <= i && i + 5 <= l.len() && #[trigger] l.subrange(i, i + 5) == word {
        let i = choose|i: int| 0 <= i && i + 5 <= l.len() && #[trigger] l.subrange(i, i + 5) == word;
        assert(occurs_at(l, word, i));
    }
    if has_infix(l, word) {
        let i = choose|i: int| occurs_at(l, word, i);
        assert(l.subrange(i, i + 5) == word);
    }
}

/// An id that holds `group` anywhere, its end included, names a group.
pub proof fn lemma_group_word_anywhere(id: Seq<char>, i: int)
    requires
        0 <= i,
        i + 5 <= lower(trim(id)).len(),
        lower(trim(id)).subrange(i, i + 5) == seq!['g', 'r', 'o', 'u', 'p'],
    ensures
        names_group(id),
{
    lemma_group_id_rule(id);
}

/// Ids that differ only in that some ASCII capital letters of one are the
/// small letters of the other are told apart alike.
pub proof fn lemma_group_ignores_letter_case(a: Seq<char>, b: Seq<char>)
    requires
        a.len() == b.len(),
        forall|i: int| 0 <= i < a.len() ==> (#[trigger] a[i] == b[i]
            || ('A' <= a[i] && a[i] <= 'Z' && (b[i] as u32) == (a[i] as u32) + 32)
            || ('A' <= b[i] && b[i] <= 'Z' && (a[i] as u32) == (b[i] as u32) + 32)),
    ensures
        names_group(a) == names_group(b),
{
    assert forall|i: int| 0 <= i < a.len() implies #[trigger] lower(a)[i] == lower(b)[i] by {
        assert(lower(a)[i] == ascii_lower(a[i]));
        assert(lower(b)[i] == ascii_lower(b[i]));
    }
    assert(lower(a) =~= lower(b));
    lemma_group_ignores_case(a, b);
}

} // verus!
