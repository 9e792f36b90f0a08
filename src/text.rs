//! Character-level helpers shared by the parsers: whitespace, trimming,
//! prefix stripping and conversions between `str`, `Vec<char>` and `String`.

use vstd::prelude::*;

verus! {

/// Whether `c` has the Unicode `White_Space` property (what `char::is_whitespace` tests).
pub open spec fn is_space(c: char) -> bool {
    let u = c as u32;
    (9 <= u && u <= 13) || u == 32 || u == 0x85 || u == 0xa0 || u == 0x1680 || (0x2000 <= u
        && u <= 0x200a) || u == 0x2028 || u == 0x2029 || u == 0x202f || u == 0x205f || u == 0x3000
}

pub fn is_space_char(c: char) -> (r: bool)
    ensures
        r == is_space(c),
{
    let u = c as u32;
    (9 <= u && u <= 13) || u == 32 || u == 0x85 || u == 0xa0 || u == 0x1680 || (0x2000 <= u
        && u <= 0x200a) || u == 0x2028 || u == 0x2029 || u == 0x202f || u == 0x205f || u == 0x3000
}

/// Which characters a trim removes.
#[derive(Clone, Copy, PartialEq, Eq, Structural)]
pub enum Strip {
    Space,
    Char(char),
}

pub open spec fn strips(k: Strip, c: char) -> bool {
    match k {
        Strip::Space => is_space(c),
        Strip::Char(d) => c == d,
    }
}

fn strips_char(k: Strip, c: char) -> (r: bool)
    ensures
        r == strips(k, c),
{
    match k {
        Strip::Space => is_space_char(c),
        Strip::Char(d) => c == d,
    }
}

/// `s` without its leading run of characters that `k` removes.
pub open spec fn strip_front(s: Seq<char>, k: Strip) -> Seq<char>
    decreases s.len(),
{
    if s.len() > 0 && strips(k, s[0]) {
        strip_front(s.drop_first(), k)
    } else {
        s
    }
}

/// `s` without its trailing run of characters that `k` removes.
pub open spec fn strip_back(s: Seq<char>, k: Strip) -> Seq<char>
    decreases s.len(),
{
    if s.len() > 0 && strips(k, s.last()) {
        strip_back(s.drop_last(), k)
    } else {
        s
    }
}

/// Both ends stripped, as `str::trim_matches` does.
pub open spec fn strip_both(s: Seq<char>, k: Strip) -> Seq<char> {
    strip_back(strip_front(s, k), k)
}

/// `str::trim`: leading and trailing whitespace removed.
pub open spec fn trim(s: Seq<char>) -> Seq<char> {
    strip_both(s, Strip::Space)
}

pub open spec fn has_prefix(s: Seq<char>, p: Seq<char>) -> bool {
    p.len() <= s.len() && s.subrange(0, p.len() as int) == p
}

/// `str::trim_start_matches` with a string pattern: every leading copy of `p` removed.
pub open spec fn strip_prefixes(s: Seq<char>, p: Seq<char>) -> Seq<char>
    decreases s.len(),
{
    if p.len() > 0 && has_prefix(s, p) {
        strip_prefixes(s.subrange(p.len() as int, s.len() as int), p)
    } else {
        s
    }
}

/// `str::trim_end_matches` with a string pattern: every trailing copy of `p` removed.
pub open spec fn strip_suffixes(s: Seq<char>, p: Seq<char>) -> Seq<char>
    decreases s.len(),
{
    if p.len() > 0 && p.len() <= s.len() && s.subrange(s.len() - p.len(), s.len() as int) == p {
        strip_suffixes(s.subrange(0, s.len() - p.len()), p)
    } else {
        s
    }
}

proof fn lemma_strip_front_step(s: Seq<char>, k: Strip, lo: int, hi: int)
    requires
        0 <= lo < hi <= s.len(),
        strips(k, s[lo]),
    ensures
        strip_front(s.subrange(lo, hi), k) == strip_front(s.subrange(lo + 1, hi), k),
{
    assert(s.subrange(lo, hi).drop_first() =~= s.subrange(lo + 1, hi));
}

proof fn lemma_strip_back_step(s: Seq<char>, k: Strip, lo: int, hi: int)
    requires
        0 <= lo < hi <= s.len(),
        strips(k, s[hi - 1]),
    ensures
        strip_back(s.subrange(lo, hi), k) == strip_back(s.subrange(lo, hi - 1), k),
{
    assert(s.subrange(lo, hi).drop_last() =~= s.subrange(lo, hi - 1));
}

proof fn lemma_strip_front_from(s: Seq<char>, k: Strip, i: int) -> (j: int)
    requires
        0 <= i < s.len(),
        !strips(k, s[i]),
    ensures
        0 <= j <= i,
        strip_front(s, k) == s.subrange(j, s.len() as int),
    decreases s.len(),
{
    if strips(k, s[0]) {
        let j = lemma_strip_front_from(s.drop_first(), k, i - 1);
        assert(s.drop_first().subrange(j, s.len() - 1) =~= s.subrange(j + 1, s.len() as int));
        j + 1
    } else {
        assert(s.subrange(0, s.len() as int) =~= s);
        0
    }
}

proof fn lemma_strip_back_keeps(s: Seq<char>, k: Strip, i: int)
    requires
        0 <= i < s.len(),
        !strips(k, s[i]),
    ensures
        strip_back(s, k).len() > i,
    decreases s.len(),
{
    if strips(k, s.last()) {
        lemma_strip_back_keeps(s.drop_last(), k, i);
    }
}

/// A string with a character that is not whitespace keeps it when trimmed.
pub proof fn lemma_trim_nonempty(s: Seq<char>, i: int)
    requires
        0 <= i < s.len(),
        !is_space(s[i]),
    ensures
        trim(s).len() > 0,
{
    let j = lemma_strip_front_from(s, Strip::Space, i);
    let t = s.subrange(j, s.len() as int);
    assert(t[i - j] == s[i]);
    lemma_strip_back_keeps(t, Strip::Space, i - j);
}

/// The bounds `(a, b)` of what stays of `v[lo..hi]` once both ends are stripped.
pub fn strip_bounds(v: &Vec<char>, lo: usize, hi: usize, k: Strip) -> (r: (usize, usize))
    requires
        lo <= hi <= v@.len(),
    ensures
        lo <= r.0 <= r.1 <= hi,
        v@.subrange(r.0 as int, r.1 as int) == strip_both(v@.subrange(lo as int, hi as int), k),
{
    let mut a = lo;
    while a < hi && strips_char(k, v[a])
        invariant
            lo <= a <= hi <= v@.len(),
            strip_front(v@.subrange(lo as int, hi as int), k) == strip_front(
                v@.subrange(a as int, hi as int),
                k,
            ),
        decreases hi - a,
    {
        proof {
            lemma_strip_front_step(v@, k, a as int, hi as int);
        }
        a = a + 1;
    }
    assert(strip_front(v@.subrange(a as int, hi as int), k) == v@.subrange(a as int, hi as int));
    let mut b = hi;
    while b > a && strips_char(k, v[b - 1])
        invariant
            lo <= a <= b <= hi <= v@.len(),
            strip_back(v@.subrange(a as int, hi as int), k) == strip_back(
                v@.subrange(a as int, b as int),
                k,
            ),
        decreases b - a,
    {
        proof {
            lemma_strip_back_step(v@, k, a as int, b as int);
        }
        b = b - 1;
    }
    (a, b)
}

/// Whether `v[at..]` begins with `p`.
pub fn prefix_at(v: &Vec<char>, at: usize, hi: usize, p: &Vec<char>) -> (r: bool)
    requires
        at <= hi <= v@.len(),
    ensures
        r == has_prefix(v@.subrange(at as int, hi as int), p@),
{
    if p.len() > hi - at {
        return false;
    }
    let mut i: usize = 0;
    while i < p.len()
        invariant
            p@.len() <= hi - at,
            at <= hi <= v@.len(),
            i <= p@.len(),
            forall|j: int| 0 <= j < i ==> v@[at + j] == p@[j],
        decreases p@.len() - i,
    {
        if v[at + i] != p[i] {
            assert(v@.subrange(at as int, hi as int).subrange(0, p@.len() as int)[i as int]
                != p@[i as int]);
            return false;
        }
        i = i + 1;
    }
    assert(v@.subrange(at as int, hi as int).subrange(0, p@.len() as int) =~= p@);
    true
}

/// The start of what stays of `v[lo..hi]` once every leading copy of `p` is removed.
pub fn strip_prefixes_from(v: &Vec<char>, lo: usize, hi: usize, p: &Vec<char>) -> (r: usize)
    requires
        lo <= hi <= v@.len(),
    ensures
        lo <= r <= hi,
        v@.subrange(r as int, hi as int) == strip_prefixes(v@.subrange(lo as int, hi as int), p@),
{
    let mut a = lo;
    while p.len() > 0 && prefix_at(v, a, hi, p)
        invariant
            lo <= a <= hi <= v@.len(),
            strip_prefixes(v@.subrange(lo as int, hi as int), p@) == strip_prefixes(
                v@.subrange(a as int, hi as int),
                p@,
            ),
        decreases hi - a,
    {
        assert(v@.subrange(a as int, hi as int).subrange(p@.len() as int, (hi - a) as int)
            =~= v@.subrange(a + p@.len(), hi as int));
        a = a + p.len();
    }
    a
}

/// The end of what stays of `v[lo..hi]` once every trailing copy of `p` is removed.
pub fn strip_suffixes_from(v: &Vec<char>, lo: usize, hi: usize, p: &Vec<char>) -> (r: usize)
    requires
        lo <= hi <= v@.len(),
    ensures
        lo <= r <= hi,
        v@.subrange(lo as int, r as int) == strip_suffixes(v@.subrange(lo as int, hi as int), p@),
{
    let mut b = hi;
    while p.len() > 0 && p.len() <= b - lo && prefix_at(v, b - p.len(), b, p)
        invariant
            lo <= b <= hi <= v@.len(),
            strip_suffixes(v@.subrange(lo as int, hi as int), p@) == strip_suffixes(
                v@.subrange(lo as int, b as int),
                p@,
            ),
        decreases b - lo,
    {
        let ghost s = v@.subrange(lo as int, b as int);
        assert(s.subrange(s.len() - p@.len(), s.len() as int) =~= v@.subrange(
            b - p@.len(),
            b as int,
        ).subrange(0, p@.len() as int));
        assert(s.subrange(0, s.len() - p@.len()) =~= v@.subrange(lo as int, b - p@.len()));
        b = b - p.len();
    }
    proof {
        let s = v@.subrange(lo as int, b as int);
        if p@.len() > 0 && p@.len() <= s.len() {
            assert(s.subrange(s.len() - p@.len(), s.len() as int) =~= v@.subrange(
                b - p@.len(),
                b as int,
            ).subrange(0, p@.len() as int));
        }
    }
    b
}

/// The characters of `s`, in order.
pub fn chars_of(s: &str) -> (r: Vec<char>)
    ensures
        r@ == s@,
{
    let mut r: Vec<char> = Vec::new();
    for c in it: s.chars()
        invariant
            it.seq() == s@,
            r@ == s@.take(it.index() as int),
    {
        r.push(c);
        assert(r@ =~= s@.take(it.index() + 1));
    }
    assert(s@.take(s@.len() as int) =~= s@);
    r
}

/// Relies on `String::push`: the character is appended.
#[verifier::external_body]
pub(crate) fn push_char(s: &mut String, c: char)
    ensures
        final(s)@ == old(s)@.push(c),
{
    s.push(c);
}

/// The string made of `v[lo..hi]`.
pub fn string_of(v: &Vec<char>, lo: usize, hi: usize) -> (r: String)
    requires
        lo <= hi <= v@.len(),
    ensures
        r@ == v@.subrange(lo as int, hi as int),
{
    let mut r = String::new();
    let mut i = lo;
    while i < hi
        invariant
            lo <= i <= hi <= v@.len(),
            r@ == v@.subrange(lo as int, i as int),
        decreases hi - i,
    {
        push_char(&mut r, v[i]);
        i = i + 1;
        assert(r@ =~= v@.subrange(lo as int, i as int));
    }
    r
}

/// Whether `e` and `w` hold the same characters.
pub fn same(e: &Vec<char>, w: Vec<char>) -> (r: bool)
    ensures
        r == (e@ == w@),
{
    if e.len() != w.len() {
        return false;
    }
    let mut i: usize = 0;
    while i < e.len()
        invariant
            e@.len() == w@.len(),
            i <= e@.len(),
            forall|j: int| 0 <= j < i ==> e@[j] == w@[j],
        decreases e@.len() - i,
    {
        if e[i] != w[i] {
            return false;
        }
        i = i + 1;
    }
    assert(e@ =~= w@);
    true
}

} // verus!
