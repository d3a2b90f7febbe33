//! Deciding whether a URL satisfies a rule's pattern.
//!
//! A pattern without `*` is a literal: it matches every URL that contains it.
//! A pattern with `*` is a wildcard pattern, matched against the whole URL by
//! the `wildflower` crate after every `?` in it has been escaped, so that `*`
//! is its only meta-character.
use vstd::prelude::*;
use crate::text::{contains_char, contains_seq, contains_str, push_char};

verus! {

/// Whether `wildflower` finds that `text` matches the wildcard pattern
/// compiled from `pattern`.
pub uninterp spec fn glob_match(pattern: Seq<char>, text: Seq<char>) -> bool;

/// Relies on `wildflower::Pattern::new` and `wildflower::Pattern::matches`:
/// the answer depends on the pattern source and the text alone.
#[verifier::external_body]
fn wildflower_matches(pattern: &str, text: &str) -> (r: bool)
    ensures
        r == glob_match(pattern@, text@),
{
    wildflower::Pattern::new(pattern.to_string()).matches(text)
}

/// `p` with a backslash put in front of every `?`.
pub open spec fn escape_question(p: Seq<char>) -> Seq<char>
    decreases p.len(),
{
    if p.len() == 0 {
        Seq::empty()
    } else if p.last() == '?' {
        escape_question(p.drop_last()) + seq!['\\', '?']
    } else {
        escape_question(p.drop_last()).push(p.last())
    }
}

/// Whether `url` satisfies the rule pattern `p`.
pub open spec fn url_matches(p: Seq<char>, url: Seq<char>) -> bool {
    if p.contains('*') {
        glob_match(escape_question(p), url)
    } else {
        contains_seq(url, p)
    }
}

/// `p` with every `?` escaped, so that a wildcard pattern reads it literally.
pub fn escape_question_marks(p: &str) -> (r: String)
    ensures
        r@ == escape_question(p@),
{
    let cs = crate::text::chars_of(p);
    let mut out = String::new();
    let mut i: usize = 0;
    while i < cs.len()
        invariant
            i <= cs@.len(),
            cs@ == p@,
            out@ == escape_question(cs@.subrange(0, i as int)),
        decreases cs@.len() - i,
    {
        let c = cs[i];
        proof {
            let next = cs@.subrange(0, i + 1);
            assert(next.drop_last() =~= cs@.subrange(0, i as int));
            assert(next.last() == c);
        }
        if c == '?' {
            push_char(&mut out, '\\');
            push_char(&mut out, '?');
            proof {
                assert(out@ =~= escape_question(cs@.subrange(0, i as int)) + seq!['\\', '?']);
            }
        } else {
            push_char(&mut out, c);
        }
        i = i + 1;
    }
    assert(cs@.subrange(0, cs@.len() as int) =~= cs@);
    out
}

/// Whether `url` satisfies the rule pattern `pattern`: a substring test for a
/// literal pattern, an anchored wildcard match for one that holds `*`.
pub fn pattern_matches_url(pattern: &str, url: &str) -> (r: bool)
    ensures
        r == url_matches(pattern@, url@),
        !pattern@.contains('*') ==> (r == contains_seq(url@, pattern@)),
{
    if contains_char(pattern, '*') {
        let escaped = escape_question_marks(pattern);
        wildflower_matches(escaped.as_str(), url)
    } else {
        contains_str(url, pattern)
    }
}

/// Something that can decide whether a URL matches it.
pub trait Pattern {
    /// Whether `url` matches `self`, in the model.
    spec fn matches_spec(&self, url: Seq<char>) -> bool;

    fn matches(&self, url: &str) -> (r: bool)
        ensures
            r == self.matches_spec(url@),
    ;
}

impl Pattern for String {
    open spec fn matches_spec(&self, url: Seq<char>) -> bool {
        url_matches(self@, url)
    }

    fn matches(&self, url: &str) -> (r: bool) {
        pattern_matches_url(self.as_str(), url)
    }
}

} // verus!
