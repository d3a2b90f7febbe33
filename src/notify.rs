//! What a failure notification says, and how a URL is reduced to its host
//! before it is shown.
use vstd::prelude::*;
use vstd::string::*;
use crate::text::{chars_of, find_from, find_seq, trim_str, trimmed};

verus! {

/// Notification preferences in force for one dispatch.
#[derive(Clone, Copy, Debug, PartialEq, Eq)]
pub struct NotifyPrefs {
    pub enabled: bool,
    pub redact_urls: bool,
}

/// Whether `c` ends the host part of a URL.
pub open spec fn is_host_end(c: char) -> bool {
    c == '/' || c == '?' || c == '#'
}

/// Index of the first character at or after `i` that ends a host, or the
/// length of `s`.
pub open spec fn first_host_end(s: Seq<char>, i: nat) -> nat
    decreases s.len() - i,
{
    if i < s.len() && !is_host_end(s[i as int]) {
        first_host_end(s, i + 1)
    } else {
        i
    }
}

/// Where the host starts in a trimmed URL: after the first `://`, or at 0.
pub open spec fn host_start(t: Seq<char>) -> int {
    let f = find_from(t, seq![':', '/', '/'], 0);
    if f >= 0 {
        f + 3
    } else {
        0
    }
}

/// The host of `url`: the trimmed URL without everything up to the first
/// `://`, cut at the first `/`, `?` or `#`; the trimmed URL itself when that
/// leaves nothing.
pub open spec fn redacted(url: Seq<char>) -> Seq<char> {
    let t = trimmed(url);
    let rest = t.subrange(host_start(t), t.len() as int);
    let host = rest.subrange(0, first_host_end(rest, 0) as int);
    if host.len() == 0 {
        t
    } else {
        host
    }
}

proof fn lemma_first_host_end(s: Seq<char>, i: nat)
    requires
        i <= s.len(),
    ensures
        i <= first_host_end(s, i) <= s.len(),
    decreases s.len() - i,
{
    if i < s.len() && !is_host_end(s[i as int]) {
        lemma_first_host_end(s, i + 1);
    }
}

/// Reduces `url` to its host, for display where URLs are kept private.
pub fn redact_url(url: &str) -> (r: String)
    ensures
        r@ == redacted(url@),
{
    let t = trim_str(url);
    let cs = chars_of(t);
    let n = cs.len();
    let sep: Vec<char> = vec![':', '/', '/'];
    assert(sep@ =~= seq![':', '/', '/']);
    let start: usize = match find_seq(&cs, &sep) {
        Some(k) => {
            proof {
                crate::text::lemma_find_contains(cs@, sep@);
                assert(k + 3 <= n);
            }
            k + 3
        },
        None => 0,
    };
    let ghost rest = cs@.subrange(start as int, cs@.len() as int);
    let mut end: usize = start;
    proof {
        lemma_first_host_end(rest, 0);
    }
    while end < cs.len() && !(cs[end] == '/' || cs[end] == '?' || cs[end] == '#')
        invariant
            start <= end <= cs@.len(),
            rest == cs@.subrange(start as int, cs@.len() as int),
            first_host_end(rest, (end - start) as nat) == first_host_end(rest, 0),
        decreases cs@.len() - end,
    {
        end = end + 1;
    }
    if end == start {
        String::from_str(t)
    } else {
        let host = t.substring_char(start, end);
        assert(host@ =~= rest.subrange(0, first_host_end(rest, 0) as int));
        String::from_str(host)
    }
}

/// The URL as a notification shows it under `prefs`.
pub open spec fn shown_url(url: Seq<char>, prefs: NotifyPrefs) -> Seq<char> {
    if prefs.redact_urls {
        redacted(url)
    } else {
        url
    }
}

/// The body of a failure notification:
/// `<url> via rule '<rule>' → <browser>: <error>`.
pub open spec fn notice_body(
    url: Seq<char>,
    rule: Seq<char>,
    browser: Seq<char>,
    error: Seq<char>,
    prefs: NotifyPrefs,
) -> Seq<char> {
    shown_url(url, prefs) + " via rule '"@ + rule + "' → "@ + browser + ": "@ + error
}

/// The body of the notification for a failed launch, or `None` when
/// notifications are disabled.
pub fn notification_body(
    url: &str,
    rule: &str,
    browser: &str,
    error_summary: &str,
    prefs: &NotifyPrefs,
) -> (r: Option<String>)
    ensures
        r is None <==> !prefs.enabled,
        r matches Some(b) ==> b@ == notice_body(url@, rule@, browser@, error_summary@, *prefs),
{
    if !prefs.enabled {
        return None;
    }
    let mut body = if prefs.redact_urls {
        redact_url(url)
    } else {
        String::from_str(url)
    };
    body.append(" via rule '");
    body.append(rule);
    body.append("' → ");
    body.append(browser);
    body.append(": ");
    body.append(error_summary);
    Some(body)
}

} // verus!
