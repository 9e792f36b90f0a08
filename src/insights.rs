//! Insights: what a language model's reply is turned into. The reply is asked
//! to be a JSON array, but nothing holds the model to that, so it is read in
//! three tiers: as it stands after sanitising, then with a bracket repair, and
//! last as one insight per non-blank line.

use vstd::prelude::*;
use crate::json::{json_of, parse_json, Json};
use crate::text::{
    chars_of, has_prefix, is_space, lemma_trim_nonempty, push_char, same, strip_both, strip_bounds, strip_prefixes,
    strip_prefixes_from, string_of, trim, Strip,
};

verus! {

/// One finding drawn from a document. `relevance` is the score in decimal
/// notation, as the model gave it (meant to lie between 0 and 1).
#[derive(Debug, PartialEq, Eq)]
pub struct Insight {
    pub text: String,
    pub relevance: String,
}

pub ghost struct InsightView {
    pub text: Seq<char>,
    pub relevance: Seq<char>,
}

impl View for Insight {
    type V = InsightView;

    open spec fn view(&self) -> InsightView {
        InsightView { text: self.text@, relevance: self.relevance@ }
    }
}

impl Clone for Insight {
    fn clone(&self) -> (r: Self)
        ensures
            r@ == self@,
    {
        Insight { text: self.text.clone(), relevance: self.relevance.clone() }
    }
}

/// The views of a sequence of insights.
pub open spec fn views(v: Seq<Insight>) -> Seq<InsightView> {
    v.map_values(|i: Insight| i@)
}

/// The relevance given to an insight read from a plain line.
pub open spec fn default_relevance() -> Seq<char> {
    seq!['0', '.', '8']
}

/// The tier of the parse that produced the insights.
#[derive(Debug, Clone, Copy, PartialEq, Eq, Structural)]
pub enum ReplyTier {
    /// The sanitised reply parsed as an array of insights.
    Structured,
    /// The sanitised reply parsed once wrapped in brackets.
    Repaired,
    /// Neither parsed: one insight per non-blank line of the raw reply.
    Lines,
}

pub open spec fn quotes_doubled(s: Seq<char>) -> Seq<char> {
    s.map_values(|c: char| if c == '\'' { '"' } else { c })
}

/// The reply with surrounding whitespace and backticks, a leading `json` or
/// `JSON` tag, and single quotes (turned into double ones) dealt with.
pub open spec fn sanitize(r: Seq<char>) -> Seq<char> {
    trim(
        quotes_doubled(
            strip_prefixes(
                strip_prefixes(strip_both(trim(r), Strip::Char('`')), seq!['j', 's', 'o', 'n']),
                seq!['J', 'S', 'O', 'N'],
            ),
        ),
    )
}

/// A sanitised reply that does not open an array is wrapped in one (this covers
/// a bare object); one that does is left as it is.
pub open spec fn repair(s: Seq<char>) -> Seq<char> {
    if has_prefix(s, seq!['[']) {
        s
    } else {
        seq!['['] + s + seq![']']
    }
}

/// Appends the trimmed line `cur` to `done` unless it is blank.
pub open spec fn flush(done: Seq<Seq<char>>, cur: Seq<char>) -> Seq<Seq<char>> {
    if trim(cur).len() > 0 {
        done.push(trim(cur))
    } else {
        done
    }
}

/// Reading `s` left to right: the kept lines so far and the line under way.
pub open spec fn scan_lines(s: Seq<char>) -> (Seq<Seq<char>>, Seq<char>)
    decreases s.len(),
{
    if s.len() == 0 {
        (Seq::empty(), Seq::empty())
    } else {
        let prev = scan_lines(s.drop_last());
        if s.last() == '\n' {
            (flush(prev.0, prev.1), Seq::empty())
        } else {
            (prev.0, prev.1.push(s.last()))
        }
    }
}

/// The lines of `s`, each trimmed, blank ones left out.
pub open spec fn nonblank_lines(s: Seq<char>) -> Seq<Seq<char>> {
    flush(scan_lines(s).0, scan_lines(s).1)
}

pub open spec fn line_insight(t: Seq<char>) -> InsightView {
    InsightView { text: t, relevance: default_relevance() }
}

/// One insight per non-blank line of `s`, with the default relevance.
pub open spec fn line_insights(s: Seq<char>) -> Seq<InsightView> {
    nonblank_lines(s).map_values(|t: Seq<char>| line_insight(t))
}

/// What the ladder yields for a reply, given the outcomes of the strict parse
/// and of the parse after repair.
pub open spec fn ladder(
    reply: Seq<char>,
    strict: Option<Seq<InsightView>>,
    repaired: Option<Seq<InsightView>>,
) -> (Seq<InsightView>, ReplyTier) {
    match strict {
        Some(v) => (v, ReplyTier::Structured),
        None => match repaired {
            Some(v) => (v, ReplyTier::Repaired),
            None => (line_insights(reply), ReplyTier::Lines),
        },
    }
}

pub open spec fn opt_views(o: Option<Vec<Insight>>) -> Option<Seq<InsightView>> {
    match o {
        Some(v) => Some(views(v@)),
        None => None,
    }
}

/// Scanning a text with a non-blank character leaves a kept line, or one
/// under way that is not blank.
proof fn lemma_scan_finds(s: Seq<char>, i: int)
    requires
        0 <= i < s.len(),
        !is_space(s[i]),
    ensures
        scan_lines(s).0.len() > 0 || trim(scan_lines(s).1).len() > 0,
    decreases s.len(),
{
    let n = s.len() - 1;
    let prev = scan_lines(s.drop_last());
    if i < n {
        assert(s.drop_last()[i] == s[i]);
        lemma_scan_finds(s.drop_last(), i);
        if s.last() != '\n' && trim(prev.1).len() > 0 {
            lemma_trim_keeps_nonempty(prev.1, s.last());
        }
    } else {
        assert(s.last() != '\n');
        let c = prev.1.push(s.last());
        assert(c[c.len() - 1] == s[i]);
        lemma_trim_nonempty(c, c.len() - 1);
    }
}

/// Appending a character to a non-blank string leaves it non-blank.
proof fn lemma_trim_keeps_nonempty(c: Seq<char>, x: char)
    requires
        trim(c).len() > 0,
    ensures
        trim(c.push(x)).len() > 0,
{
    if forall|m: int| 0 <= m < c.len() ==> is_space(c[m]) {
        lemma_all_space_trims_empty(c);
    } else {
        let m = choose|m: int| 0 <= m < c.len() && !is_space(c[m]);
        assert(c.push(x)[m] == c[m]);
        lemma_trim_nonempty(c.push(x), m);
    }
}

proof fn lemma_all_space_trims_empty(c: Seq<char>)
    requires
        forall|m: int| 0 <= m < c.len() ==> is_space(c[m]),
    ensures
        trim(c).len() == 0,
    decreases c.len(),
{
    if c.len() > 0 {
        assert forall|m: int| 0 <= m < c.drop_first().len() implies is_space(c.drop_first()[m]) by {
            assert(c.drop_first()[m] == c[m + 1]);
        }
        lemma_all_space_trims_empty(c.drop_first());
    }
}

/// The ladder always answers. Where a parse succeeds its insights are taken as
/// they are; where neither does, a reply with any character other than
/// whitespace gives at least one insight, one per non-blank line in order.
pub proof fn lemma_ladder_answers(
    reply: Seq<char>,
    strict: Option<Seq<InsightView>>,
    repaired: Option<Seq<InsightView>>,
    i: int,
)
    requires
        0 <= i < reply.len(),
        !is_space(reply[i]),
        strict matches Some(v) ==> v.len() > 0,
        repaired matches Some(v) ==> v.len() > 0,
    ensures
        ladder(reply, strict, repaired).0.len() > 0,
        ladder(reply, strict, repaired).1 == ReplyTier::Lines ==> ladder(reply, strict, repaired).0
            == line_insights(reply),
{
    lemma_scan_finds(reply, i);
    let sc = scan_lines(reply);
    if sc.0.len() == 0 {
        assert(nonblank_lines(reply).len() > 0);
    } else {
        assert(nonblank_lines(reply).len() >= sc.0.len());
    }
}

pub const INSIGHT_PROMPT_HEAD: &'static str = "Extract key insights from the following text and format them as a JSON array.

Each insight must be an object with exactly these fields:
\"text\": (string) The insight text
\"relevance\": (number) Importance score between 0 and 1

Example format:
[
  {\"text\": \"First key insight here\", \"relevance\": 0.95},
  {\"text\": \"Second key insight here\", \"relevance\": 0.85}
]

Text to analyze:
";

pub const INSIGHT_PROMPT_TAIL: &'static str = "

Respond ONLY with the JSON array. Do not add any explanations or additional text.";

pub const QUICK_PROMPT_HEAD: &'static str = "Please analyze this text and provide the key insights in a clear, concise way:

";

/// The value under `key` among an object's entries (the first one with that key).
pub open spec fn field_of(fs: Seq<(String, Json)>, key: Seq<char>) -> Option<Json>
    decreases fs.len(),
{
    if fs.len() == 0 {
        None
    } else if fs[0].0@ == key {
        Some(fs[0].1)
    } else {
        field_of(fs.drop_first(), key)
    }
}

pub open spec fn text_key() -> Seq<char> {
    seq!['t', 'e', 'x', 't']
}

pub open spec fn relevance_key() -> Seq<char> {
    seq!['r', 'e', 'l', 'e', 'v', 'a', 'n', 'c', 'e']
}

/// One array element read as an insight: an object with a string `text` and
/// a numeric `relevance` (other keys ignored), or a two-element array holding
/// the same in that order.
pub open spec fn insight_of(j: Json) -> Option<InsightView> {
    match j {
        Json::Object(fs) => match field_of(fs@, text_key()) {
            Some(Json::Str(t)) => match field_of(fs@, relevance_key()) {
                Some(Json::Number(n)) => Some(InsightView { text: t@, relevance: n@ }),
                _ => None,
            },
            _ => None,
        },
        Json::Array(xs) => if xs@.len() == 2 {
            match xs@[0] {
                Json::Str(t) => match xs@[1] {
                    Json::Number(n) => Some(InsightView { text: t@, relevance: n@ }),
                    _ => None,
                },
                _ => None,
            }
        } else {
            None
        },
        _ => None,
    }
}

/// Every element read as an insight, in order; none if one of them is not one.
pub open spec fn all_insights(xs: Seq<Json>) -> Option<Seq<InsightView>>
    decreases xs.len(),
{
    if xs.len() == 0 {
        Some(Seq::empty())
    } else {
        match all_insights(xs.drop_last()) {
            Some(v) => match insight_of(xs.last()) {
                Some(x) => Some(v.push(x)),
                None => None,
            },
            None => None,
        }
    }
}

/// The insights a parsed reply holds: it must be an array of insights.
pub open spec fn insights_of(j: Option<Json>) -> Option<Seq<InsightView>> {
    match j {
        Some(Json::Array(xs)) => all_insights(xs@),
        _ => None,
    }
}

/// What the whole ladder makes of a reply: the strict parse of the sanitised
/// reply, else the parse of its repair, else its non-blank lines.
pub open spec fn reply_insights(reply: Seq<char>) -> (Seq<InsightView>, ReplyTier) {
    let strict = insights_of(json_of(sanitize(reply)));
    let repaired = if strict is Some {
        None
    } else {
        insights_of(json_of(repair(sanitize(reply))))
    };
    ladder(reply, strict, repaired)
}

proof fn lemma_all_insights_prefix(xs: Seq<Json>, k: int)
    requires
        0 <= k <= xs.len(),
        all_insights(xs.subrange(0, k)) is None,
    ensures
        all_insights(xs) is None,
    decreases xs.len() - k,
{
    if k < xs.len() {
        assert(xs.subrange(0, k + 1).drop_last() =~= xs.subrange(0, k));
        lemma_all_insights_prefix(xs, k + 1);
    } else {
        assert(xs.subrange(0, k) =~= xs);
    }
}

/// The value under `key` among the entries `fs`.
fn lookup_field<'a>(fs: &'a Vec<(String, Json)>, key: Vec<char>) -> (r: Option<&'a Json>)
    ensures
        match r {
            Some(j) => field_of(fs@, key@) == Some(*j),
            None => field_of(fs@, key@) is None,
        },
{
    let mut i: usize = 0;
    assert(fs@.subrange(0, fs@.len() as int) =~= fs@);
    while i < fs.len()
        invariant
            i <= fs@.len(),
            field_of(fs@, key@) == field_of(fs@.subrange(i as int, fs@.len() as int), key@),
        decreases fs@.len() - i,
    {
        let ghost rest = fs@.subrange(i as int, fs@.len() as int);
        assert(rest.drop_first() =~= fs@.subrange(i + 1, fs@.len() as int));
        let k = chars_of(fs[i].0.as_str());
        if same(&k, key.clone()) {
            return Some(&fs[i].1);
        }
        i = i + 1;
    }
    None
}

/// Reads one array element as an insight, as `insight_of` says.
fn decode_one(item: &Json) -> (r: Option<Insight>)
    ensures
        match r {
            Some(x) => insight_of(*item) == Some(x@),
            None => insight_of(*item) is None,
        },
{
    match item {
        Json::Object(fs) => {
            let tk = vec!['t', 'e', 'x', 't'];
            assert(tk@ =~= text_key());
            let rk = vec!['r', 'e', 'l', 'e', 'v', 'a', 'n', 'c', 'e'];
            assert(rk@ =~= relevance_key());
            match lookup_field(fs, tk) {
                Some(Json::Str(t)) => match lookup_field(fs, rk) {
                    Some(Json::Number(n)) => Some(Insight { text: t.clone(), relevance: n.clone() }),
                    _ => None,
                },
                _ => None,
            }
        },
        Json::Array(xs) => {
            if xs.len() != 2 {
                return None;
            }
            match &xs[0] {
                Json::Str(t) => match &xs[1] {
                    Json::Number(n) => Some(Insight { text: t.clone(), relevance: n.clone() }),
                    _ => None,
                },
                _ => None,
            }
        },
        _ => None,
    }
}

proof fn lemma_views_push(out: Seq<Insight>, x: Insight, d: Seq<Seq<char>>, t: Seq<char>)
    requires
        views(out) == d.map_values(|s: Seq<char>| line_insight(s)),
        x@ == line_insight(t),
    ensures
        views(out.push(x)) == d.push(t).map_values(|s: Seq<char>| line_insight(s)),
{
    let lhs = views(out.push(x));
    let rhs = d.push(t).map_values(|s: Seq<char>| line_insight(s));
    assert(views(out).len() == d.map_values(|s: Seq<char>| line_insight(s)).len());
    assert forall|i: int| 0 <= i < lhs.len() implies lhs[i] == rhs[i] by {
        if i < out.len() {
            assert(views(out)[i] == d.map_values(|s: Seq<char>| line_insight(s))[i]);
        }
    }
    assert(lhs =~= rhs);
}

/// Builds the string that `v` holds.
fn string_from(v: &Vec<char>) -> (r: String)
    ensures
        r@ == v@,
{
    let r = string_of(v, 0, v.len());
    assert(v@.subrange(0, v@.len() as int) =~= v@);
    r
}

pub struct InsightExtractor;

impl InsightExtractor {
    pub fn new() -> Self {
        InsightExtractor
    }

    /// The prompt that asks the model for a JSON array of insights about `text`.
    pub fn insight_prompt(&self, text: &str) -> (r: String)
        ensures
            r@ == INSIGHT_PROMPT_HEAD@ + text@ + INSIGHT_PROMPT_TAIL@,
    {
        let mut r = String::from_str(INSIGHT_PROMPT_HEAD);
        r.append(text);
        r.append(INSIGHT_PROMPT_TAIL);
        r
    }

    /// The prompt that asks the model for a free-form analysis of `text`.
    pub fn quick_prompt(&self, text: &str) -> (r: String)
        ensures
            r@ == QUICK_PROMPT_HEAD@ + text@,
    {
        let mut r = String::from_str(QUICK_PROMPT_HEAD);
        r.append(text);
        r
    }

    /// The reply made ready for the strict parse.
    pub fn sanitize(reply: &str) -> (r: String)
        ensures
            r@ == sanitize(reply@),
    {
        let v = chars_of(reply);
        assert(v@.subrange(0, v@.len() as int) =~= v@);
        let (a, b) = strip_bounds(&v, 0, v.len(), Strip::Space);
        let (a, b) = strip_bounds(&v, a, b, Strip::Char('`'));
        let lower_tag = vec!['j', 's', 'o', 'n'];
        let upper_tag = vec!['J', 'S', 'O', 'N'];
        assert(lower_tag@ =~= seq!['j', 's', 'o', 'n']);
        assert(upper_tag@ =~= seq!['J', 'S', 'O', 'N']);
        let a = strip_prefixes_from(&v, a, b, &lower_tag);
        let a = strip_prefixes_from(&v, a, b, &upper_tag);
        let ghost mid = v@.subrange(a as int, b as int);
        let mut w: Vec<char> = Vec::new();
        let mut i = a;
        while i < b
            invariant
                a <= i <= b <= v@.len(),
                mid == v@.subrange(a as int, b as int),
                w@ == quotes_doubled(v@.subrange(a as int, i as int)),
            decreases b - i,
        {
            let c = v[i];
            w.push(if c == '\'' { '"' } else { c });
            i = i + 1;
            assert(w@ =~= quotes_doubled(v@.subrange(a as int, i as int)));
        }
        let (c, d) = strip_bounds(&w, 0, w.len(), Strip::Space);
        assert(w@.subrange(0, w@.len() as int) =~= w@);
        string_of(&w, c, d)
    }

    /// The sanitised reply wrapped in brackets unless it opens an array.
    pub fn repair(cleaned: &str) -> (r: String)
        ensures
            r@ == repair(cleaned@),
    {
        let v = chars_of(cleaned);
        assert(v@.subrange(0, v@.len() as int) =~= v@);
        let open = vec!['['];
        assert(open@ =~= seq!['[']);
        if crate::text::prefix_at(&v, 0, v.len(), &open) {
            string_from(&v)
        } else {
            let mut r = String::new();
            push_char(&mut r, '[');
            r.append(cleaned);
            push_char(&mut r, ']');
            assert(r@ =~= seq!['['] + cleaned@ + seq![']']);
            r
        }
    }

    /// Parses `json` as an array of insights; `None` where it is not one.
    pub fn decode(json: &str) -> (r: Option<Vec<Insight>>)
        ensures
            opt_views(r) == insights_of(json_of(json@)),
    {
        let parsed = parse_json(json);
        let xs = match &parsed {
            Some(Json::Array(xs)) => xs,
            _ => return None,
        };
        let mut out: Vec<Insight> = Vec::new();
        let mut i: usize = 0;
        while i < xs.len()
            invariant
                parsed == json_of(json@),
                parsed == Some(Json::Array(*xs)),
                i <= xs@.len(),
                all_insights(xs@.subrange(0, i as int)) == Some(views(out@)),
            decreases xs@.len() - i,
        {
            assert(xs@.subrange(0, i + 1).drop_last() =~= xs@.subrange(0, i as int));
            match decode_one(&xs[i]) {
                Some(one) => {
                    let ghost before = out@;
                    out.push(one);
                    assert(views(out@) =~= views(before).push(one@));
                },
                None => {
                    proof {
                        assert(xs@.subrange(0, i + 1).last() == xs@[i as int]);
                        assert(all_insights(xs@.subrange(0, i + 1)) is None);
                        lemma_all_insights_prefix(xs@, i + 1);
                    }
                    return None;
                },
            }
            i = i + 1;
        }
        assert(xs@.subrange(0, xs@.len() as int) =~= xs@);
        Some(out)
    }

    /// One insight per non-blank line of the reply, trimmed, with the default relevance.
    pub fn line_insights(reply: &str) -> (r: Vec<Insight>)
        ensures
            views(r@) == line_insights(reply@),
    {
        let v = chars_of(reply);
        let mut out: Vec<Insight> = Vec::new();
        let mut start: usize = 0;
        let mut i: usize = 0;
        while i < v.len()
            invariant
                start <= i <= v@.len(),
                scan_lines(v@.subrange(0, i as int)).0.map_values(|t: Seq<char>| line_insight(t))
                    == views(out@),
                scan_lines(v@.subrange(0, i as int)).1 == v@.subrange(start as int, i as int),
            decreases v@.len() - i,
        {
            let ghost pre = v@.subrange(0, i as int);
            assert(v@.subrange(0, i + 1).drop_last() =~= pre);
            if v[i] == '\n' {
                let (a, b) = strip_bounds(&v, start, i, Strip::Space);
                if a < b {
                    let ins = Insight { text: string_of(&v, a, b), relevance: Self::default_relevance() };
                    proof {
                        lemma_views_push(out@, ins, scan_lines(pre).0, trim(scan_lines(pre).1));
                    }
                    out.push(ins);
                }
                start = i + 1;
            } else {
                assert(v@.subrange(start as int, i + 1) =~= v@.subrange(start as int, i as int).push(v@[i as int]));
            }
            i = i + 1;
            assert(scan_lines(v@.subrange(0, i as int)).1 =~= v@.subrange(start as int, i as int));
        }
        assert(v@.subrange(0, v@.len() as int) =~= v@);
        let (a, b) = strip_bounds(&v, start, v.len(), Strip::Space);
        if a < b {
            let ins = Insight { text: string_of(&v, a, b), relevance: Self::default_relevance() };
            proof {
                lemma_views_push(out@, ins, scan_lines(v@).0, trim(scan_lines(v@).1));
            }
            out.push(ins);
        }
        out
    }

    fn default_relevance() -> (r: String)
        ensures
            r@ == default_relevance(),
    {
        let mut r = String::new();
        push_char(&mut r, '0');
        push_char(&mut r, '.');
        push_char(&mut r, '8');
        assert(r@ =~= default_relevance());
        r
    }

    /// Picks the first tier that produced insights: the strict parse, then the
    /// parse after repair, then the lines of the raw reply.
    pub fn select(reply: &str, strict: Option<Vec<Insight>>, repaired: Option<Vec<Insight>>) -> (r: (
        Vec<Insight>,
        ReplyTier,
    ))
        ensures
            (views(r.0@), r.1) == ladder(reply@, opt_views(strict), opt_views(repaired)),
    {
        match strict {
            Some(v) => (v, ReplyTier::Structured),
            None => match repaired {
                Some(v) => (v, ReplyTier::Repaired),
                None => (Self::line_insights(reply), ReplyTier::Lines),
            },
        }
    }

    /// Reads a model reply into insights; this never fails. Where neither
    /// parse succeeds, the result is the reply's non-blank lines.
    pub fn parse_reply(&self, reply: &str) -> (r: (Vec<Insight>, ReplyTier))
        ensures
            (views(r.0@), r.1) == reply_insights(reply@),
    {
        let cleaned = Self::sanitize(reply);
        let strict = Self::decode(cleaned.as_str());
        let fixed = Self::repair(cleaned.as_str());
        let repaired = match strict {
            Some(_) => None,
            None => Self::decode(fixed.as_str()),
        };
        Self::select(reply, strict, repaired)
    }
}

} // verus!
