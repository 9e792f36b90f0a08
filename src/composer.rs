//! Text rules for composed posts: a rough token count, the length limit, and
//! the clean-up of a model's reply into a topic or a post.

use vstd::prelude::*;
use crate::text::{
    chars_of, is_space, is_space_char, strip_bounds, strip_prefixes, strip_prefixes_from,
    strip_suffixes, strip_suffixes_from, string_of, trim, Strip,
};

verus! {

/// The most characters a post may have.
pub const MAX_TWEET_LENGTH: usize = 270;

/// Whether `c` is ASCII punctuation (what `char::is_ascii_punctuation` tests).
pub open spec fn is_punct(c: char) -> bool {
    let u = c as u32;
    (33 <= u && u <= 47) || (58 <= u && u <= 64) || (91 <= u && u <= 96) || (123 <= u && u <= 126)
}

pub open spec fn is_separator(c: char) -> bool {
    is_space(c) || is_punct(c)
}

/// The number of maximal runs of characters that are neither whitespace nor
/// ASCII punctuation.
pub open spec fn token_count(s: Seq<char>) -> nat
    decreases s.len(),
{
    if s.len() == 0 {
        0
    } else {
        token_count(s.drop_last()) + if !is_separator(s.last()) && (s.len() == 1 || is_separator(
            s[s.len() - 2],
        )) {
            1nat
        } else {
            0nat
        }
    }
}

/// `s` cut to its first `MAX_TWEET_LENGTH` characters.
pub open spec fn truncated(s: Seq<char>) -> Seq<char> {
    if s.len() <= MAX_TWEET_LENGTH {
        s
    } else {
        s.take(MAX_TWEET_LENGTH as int)
    }
}

/// A reply with the label `label` and surrounding double quotes taken off.
pub open spec fn unlabelled(reply: Seq<char>, label: Seq<char>) -> Seq<char> {
    trim(strip_suffixes(strip_prefixes(strip_prefixes(trim(reply), label), seq!['"']), seq!['"']))
}

pub open spec fn topic_label() -> Seq<char> {
    seq!['T', 'o', 'p', 'i', 'c', ':']
}

pub open spec fn tweet_label() -> Seq<char> {
    seq!['T', 'w', 'e', 'e', 't', ':']
}

proof fn lemma_token_count_bound(s: Seq<char>)
    ensures
        token_count(s) <= s.len(),
    decreases s.len(),
{
    if s.len() > 0 {
        lemma_token_count_bound(s.drop_last());
    }
}

fn is_separator_char(c: char) -> (r: bool)
    ensures
        r == is_separator(c),
{
    let u = c as u32;
    is_space_char(c) || (33 <= u && u <= 47) || (58 <= u && u <= 64) || (91 <= u && u <= 96) || (
    123 <= u && u <= 126)
}

/// Takes the label and quotes off `v[..]`, as `unlabelled` says.
fn unlabel(v: &Vec<char>, label: &Vec<char>) -> (r: String)
    ensures
        r@ == unlabelled(v@, label@),
{
    assert(v@.subrange(0, v@.len() as int) =~= v@);
    let quote = vec!['"'];
    assert(quote@ =~= seq!['"']);
    let (a, b) = strip_bounds(v, 0, v.len(), Strip::Space);
    let a = strip_prefixes_from(v, a, b, label);
    let a = strip_prefixes_from(v, a, b, &quote);
    let b = strip_suffixes_from(v, a, b, &quote);
    let (a, b) = strip_bounds(v, a, b, Strip::Space);
    string_of(v, a, b)
}

pub struct TweetComposer;

impl TweetComposer {
    /// A rough token count: the pieces left when `text` is split at whitespace
    /// and ASCII punctuation, empty pieces not counted.
    pub fn count_tokens(text: &str) -> (r: usize)
        ensures
            r == token_count(text@),
    {
        let v = chars_of(text);
        let mut n: usize = 0;
        let mut i: usize = 0;
        while i < v.len()
            invariant
                i <= v@.len(),
                n == token_count(v@.subrange(0, i as int)),
            decreases v@.len() - i,
        {
            let ghost pre = v@.subrange(0, i + 1);
            assert(pre.drop_last() =~= v@.subrange(0, i as int));
            proof {
                lemma_token_count_bound(v@.subrange(0, i as int));
            }
            if !is_separator_char(v[i]) && (i == 0 || is_separator_char(v[i - 1])) {
                n = n + 1;
            }
            i = i + 1;
        }
        assert(v@.subrange(0, v@.len() as int) =~= v@);
        n
    }

    /// The first `MAX_TWEET_LENGTH` characters of `content`.
    pub fn truncate_content(content: String) -> (r: String)
        ensures
            r@ == truncated(content@),
    {
        let v = chars_of(content.as_str());
        if v.len() <= MAX_TWEET_LENGTH {
            content
        } else {
            string_of(&v, 0, MAX_TWEET_LENGTH)
        }
    }

    /// The topic in a model's reply: trimmed, with a leading `Topic:` and
    /// surrounding double quotes taken off.
    pub fn topic_from_reply(reply: &str) -> (r: String)
        ensures
            r@ == unlabelled(reply@, topic_label()),
    {
        let label = vec!['T', 'o', 'p', 'i', 'c', ':'];
        assert(label@ =~= topic_label());
        unlabel(&chars_of(reply), &label)
    }

    /// The post in a model's reply: trimmed, with a leading `Tweet:` and
    /// surrounding double quotes taken off, cut to the length limit.
    pub fn tweet_from_reply(reply: &str) -> (r: String)
        ensures
            r@ == truncated(unlabelled(reply@, tweet_label())),
    {
        let label = vec!['T', 'w', 'e', 'e', 't', ':'];
        assert(label@ =~= tweet_label());
        Self::truncate_content(unlabel(&chars_of(reply), &label))
    }
}

} // verus!
