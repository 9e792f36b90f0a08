//! Routing a path to an extractor: the extension is read off the path's file
//! name and looked up, case aside, in the table of supported extensions.

use vstd::prelude::*;
use crate::error::DocumentError;
use crate::text::{chars_of, same};
use crate::text::string_of;

verus! {

/// The families of documents that have an extractor.
#[derive(Debug, Clone, Copy, PartialEq, Eq, Structural)]
pub enum Format {
    Pdf,
    Spreadsheet,
    WordProcessor,
    Image,
    PlainText,
}

/// Index just past the last `/` of `p`, or 0 where it has none.
pub open spec fn after_last_slash(p: Seq<char>) -> int
    decreases p.len(),
{
    if p.len() == 0 {
        0
    } else if p.last() == '/' {
        p.len() as int
    } else {
        after_last_slash(p.drop_last())
    }
}

/// The file name of a path, as `Path::file_name` gives it: the last component,
/// trailing separators and `.` components passed over; none where the path is
/// empty, a root, or ends in `..`.
pub open spec fn file_name(p: Seq<char>) -> Option<Seq<char>>
    decreases p.len(),
{
    let n = p.len() as int;
    if n == 0 {
        None
    } else if p[n - 1] == '/' {
        file_name(p.drop_last())
    } else if p[n - 1] == '.' && (n == 1 || p[n - 2] == '/') {
        file_name(p.drop_last())
    } else if n >= 2 && p[n - 1] == '.' && p[n - 2] == '.' && (n == 2 || p[n - 3] == '/') {
        None
    } else {
        Some(p.subrange(after_last_slash(p), n))
    }
}

/// Index of the last `.` of `s`, or -1 where it has none.
pub open spec fn last_dot(s: Seq<char>) -> int
    decreases s.len(),
{
    if s.len() == 0 {
        -1
    } else if s.last() == '.' {
        s.len() - 1
    } else {
        last_dot(s.drop_last())
    }
}

/// The extension of a path, as `Path::extension` gives it: what follows the
/// last `.` of the file name; none where the name has no `.`, or only a
/// leading one.
pub open spec fn path_extension(p: Seq<char>) -> Option<Seq<char>> {
    match file_name(p) {
        Some(n) => if last_dot(n) <= 0 {
            None
        } else {
            Some(n.subrange(last_dot(n) + 1, n.len() as int))
        },
        None => None,
    }
}

pub open spec fn ascii_lower(c: char) -> char {
    if 'A' <= c && c <= 'Z' {
        ((c as u32) + 32) as char
    } else {
        c
    }
}

/// `s` with ASCII capitals made small. For the names in the table this decides
/// as full Unicode lowercasing would: no other character lowercases into the
/// letters they use.
pub open spec fn lower(s: Seq<char>) -> Seq<char> {
    s.map_values(|c: char| ascii_lower(c))
}

pub open spec fn is_image_ext(e: Seq<char>) -> bool {
    e == seq!['j', 'p', 'g'] || e == seq!['j', 'p', 'e', 'g'] || e == seq!['p', 'n', 'g'] || e
        == seq!['g', 'i', 'f'] || e == seq!['b', 'm', 'p'] || e == seq!['t', 'i', 'f', 'f'] || e
        == seq!['w', 'e', 'b', 'p'] || e == seq!['i', 'c', 'o'] || e == seq!['t', 'g', 'a']
}

pub open spec fn is_text_ext(e: Seq<char>) -> bool {
    e == seq!['t', 'x', 't'] || e == seq!['m', 'd'] || e == seq!['r', 's'] || e == seq!['p', 'y']
        || e == seq!['j', 's'] || e == seq!['j', 's', 'o', 'n'] || e == seq!['y', 'a', 'm', 'l']
        || e == seq!['y', 'm', 'l']
}

/// The extension table, on an extension already lowercased.
pub open spec fn format_of_lower(e: Seq<char>) -> Option<Format> {
    if e == seq!['p', 'd', 'f'] {
        Some(Format::Pdf)
    } else if e == seq!['x', 'l', 's', 'x'] || e == seq!['x', 'l', 's'] {
        Some(Format::Spreadsheet)
    } else if e == seq!['d', 'o', 'c', 'x'] || e == seq!['d', 'o', 'c'] {
        Some(Format::WordProcessor)
    } else if is_image_ext(e) {
        Some(Format::Image)
    } else if is_text_ext(e) {
        Some(Format::PlainText)
    } else {
        None
    }
}

/// The format that handles extension `e`, case aside.
pub open spec fn format_of(e: Seq<char>) -> Option<Format> {
    format_of_lower(lower(e))
}

/// The OCR extractor takes exactly the extensions that route to it.
pub proof fn lemma_image_support_is_routing(e: Seq<char>)
    ensures
        is_image_ext(lower(e)) <==> format_of(e) == Some(Format::Image),
{
    let l = lower(e);
    if is_image_ext(l) {
        assert(l.len() == 3 || l.len() == 4);
        if l.len() == 3 {
            assert(l != seq!['p', 'd', 'f'] && l != seq!['x', 'l', 's'] && l != seq!['d', 'o', 'c'])
                by {
                assert(seq!['p', 'd', 'f'][0] == 'p' && seq!['x', 'l', 's'][0] == 'x' && seq![
                    'd',
                    'o',
                    'c',
                ][0] == 'd');
                assert(l[0] == 'j' || l[0] == 'p' || l[0] == 'g' || l[0] == 'b' || l[0] == 'i'
                    || l[0] == 't');
                if l[0] == 'p' {
                    assert(l[1] == 'n');
                    assert(seq!['p', 'd', 'f'][1] == 'd');
                }
            }
        } else {
            assert(l != seq!['x', 'l', 's', 'x'] && l != seq!['d', 'o', 'c', 'x']) by {
                assert(seq!['x', 'l', 's', 'x'][0] == 'x' && seq!['d', 'o', 'c', 'x'][0] == 'd');
                assert(l[0] == 'j' || l[0] == 't' || l[0] == 'w');
            }
        }
    }
}

/// Routing ignores letter case: an extension and its lowercase form select
/// the same extractor.
pub proof fn lemma_routing_ignores_case(e: Seq<char>)
    ensures
        format_of(lower(e)) == format_of(e),
{
    assert(lower(lower(e)) =~= lower(e));
}

/// What routing `p` gives: its format, or the error that stops it.
pub open spec fn routed(p: Seq<char>, r: Result<Format, DocumentError>) -> bool {
    match path_extension(p) {
        None => r == Err::<Format, DocumentError>(DocumentError::InvalidExtension),
        Some(e) => match format_of(e) {
            Some(f) => r == Ok::<Format, DocumentError>(f),
            None => r matches Err(DocumentError::UnsupportedFileType(x)) && x@ == e,
        },
    }
}

/// The largest file, in bytes, that goes to OCR.
pub const MAX_FILE_SIZE: u64 = 10 * 1024 * 1024;

proof fn lemma_after_last_slash_bound(p: Seq<char>)
    ensures
        0 <= after_last_slash(p) <= p.len(),
    decreases p.len(),
{
    if p.len() > 0 && p.last() != '/' {
        lemma_after_last_slash_bound(p.drop_last());
    }
}

/// Index just past the last `/` in `v[0..hi]`, or 0.
fn slash_end(v: &Vec<char>, hi: usize) -> (r: usize)
    requires
        hi <= v@.len(),
    ensures
        r as int == after_last_slash(v@.subrange(0, hi as int)),
{
    let mut k = hi;
    while k > 0 && v[k - 1] != '/'
        invariant
            k <= hi <= v@.len(),
            after_last_slash(v@.subrange(0, hi as int)) == after_last_slash(
                v@.subrange(0, k as int),
            ),
        decreases k,
    {
        assert(v@.subrange(0, k as int).drop_last() =~= v@.subrange(0, k - 1));
        k = k - 1;
    }
    k
}

/// Bounds of the file name of `v[0..]`, where there is one.
fn file_name_bounds(v: &Vec<char>) -> (r: Option<(usize, usize)>)
    ensures
        match r {
            Some((a, b)) => a <= b <= v@.len() && file_name(v@) == Some(
                v@.subrange(a as int, b as int),
            ),
            None => file_name(v@) is None,
        },
{
    let mut hi = v.len();
    assert(v@.subrange(0, hi as int) =~= v@);
    loop
        invariant
            hi <= v@.len(),
            file_name(v@.subrange(0, hi as int)) == file_name(v@),
        decreases hi,
    {
        if hi == 0 {
            return None;
        }
        let ghost p = v@.subrange(0, hi as int);
        if v[hi - 1] == '/' || (v[hi - 1] == '.' && (hi == 1 || v[hi - 2] == '/')) {
            assert(p.drop_last() =~= v@.subrange(0, hi - 1));
            hi = hi - 1;
        } else if hi >= 2 && v[hi - 1] == '.' && v[hi - 2] == '.' && (hi == 2 || v[hi - 3] == '/') {
            return None;
        } else {
            let k = slash_end(v, hi);
            proof {
                lemma_after_last_slash_bound(p);
            }
            assert(p.subrange(k as int, hi as int) =~= v@.subrange(k as int, hi as int));
            return Some((k, hi));
        }
    }
}

proof fn lemma_last_dot_bound(s: Seq<char>)
    ensures
        -1 <= last_dot(s) < s.len(),
    decreases s.len(),
{
    if s.len() > 0 && s.last() != '.' {
        lemma_last_dot_bound(s.drop_last());
    }
}

/// Index just past the last `.` in `v[a..b]`, or `a` where there is none.
fn dot_end(v: &Vec<char>, a: usize, b: usize) -> (r: usize)
    requires
        a <= b <= v@.len(),
    ensures
        a <= r <= b,
        r as int - a - 1 == last_dot(v@.subrange(a as int, b as int)),
{
    let mut k = b;
    while k > a && v[k - 1] != '.'
        invariant
            a <= k <= b <= v@.len(),
            last_dot(v@.subrange(a as int, b as int)) == last_dot(v@.subrange(a as int, k as int)),
        decreases k,
    {
        assert(v@.subrange(a as int, k as int).drop_last() =~= v@.subrange(a as int, k - 1));
        k = k - 1;
    }
    k
}

/// The extension of `path`, as `Path::extension` reads it.
pub fn extension_of(path: &str) -> (r: Option<String>)
    ensures
        match r {
            Some(e) => path_extension(path@) == Some(e@),
            None => path_extension(path@) is None,
        },
{
    let v = chars_of(path);
    match file_name_bounds(&v) {
        None => None,
        Some((a, b)) => {
            let s = dot_end(&v, a, b);
            if s - a <= 1 {
                None
            } else {
                let ghost n = v@.subrange(a as int, b as int);
                assert(n.subrange(last_dot(n) + 1, n.len() as int) =~= v@.subrange(
                    s as int,
                    b as int,
                ));
                Some(string_of(&v, s, b))
            }
        },
    }
}

/// `s` with ASCII capitals made small.
pub fn lowercase(s: &str) -> (r: Vec<char>)
    ensures
        r@ == lower(s@),
{
    let v = chars_of(s);
    let mut r: Vec<char> = Vec::new();
    let mut i: usize = 0;
    while i < v.len()
        invariant
            i <= v@.len(),
            r@ == lower(v@.subrange(0, i as int)),
        decreases v@.len() - i,
    {
        let c = v[i];
        let d = if 'A' <= c && c <= 'Z' {
            ((c as u8) + 32) as char
        } else {
            c
        };
        r.push(d);
        i = i + 1;
        assert(r@ =~= lower(v@.subrange(0, i as int)));
    }
    assert(v@.subrange(0, v@.len() as int) =~= v@);
    r
}

/// The extractor family for extension `ext`, case aside; none where no
/// extractor takes it.
pub fn format_for_extension(ext: &str) -> (r: Option<Format>)
    ensures
        r == format_of(ext@),
{
    let e = lowercase(ext);
    if same(&e, vec!['p', 'd', 'f']) {
        Some(Format::Pdf)
    } else if same(&e, vec!['x', 'l', 's', 'x']) || same(&e, vec!['x', 'l', 's']) {
        Some(Format::Spreadsheet)
    } else if same(&e, vec!['d', 'o', 'c', 'x']) || same(&e, vec!['d', 'o', 'c']) {
        Some(Format::WordProcessor)
    } else if is_image_extension(&e) {
        Some(Format::Image)
    } else if same(&e, vec!['t', 'x', 't']) || same(&e, vec!['m', 'd']) || same(&e, vec!['r', 's'])
        || same(&e, vec!['p', 'y']) || same(&e, vec!['j', 's']) || same(&e, vec!['j', 's', 'o', 'n'])
        || same(&e, vec!['y', 'a', 'm', 'l']) || same(&e, vec!['y', 'm', 'l']) {
        Some(Format::PlainText)
    } else {
        None
    }
}

/// Whether the lowercased extension `e` names an image format.
pub fn is_image_extension(e: &Vec<char>) -> (r: bool)
    ensures
        r == is_image_ext(e@),
{
    same(e, vec!['j', 'p', 'g']) || same(e, vec!['j', 'p', 'e', 'g']) || same(e, vec!['p', 'n', 'g'])
        || same(e, vec!['g', 'i', 'f']) || same(e, vec!['b', 'm', 'p']) || same(
        e,
        vec!['t', 'i', 'f', 'f'],
    ) || same(e, vec!['w', 'e', 'b', 'p']) || same(e, vec!['i', 'c', 'o']) || same(
        e,
        vec!['t', 'g', 'a'],
    )
}

/// The format that handles `path`: `InvalidExtension` where the path has no
/// extension, `UnsupportedFileType` with the extension where no extractor
/// takes it.
pub fn route(path: &str) -> (r: Result<Format, DocumentError>)
    ensures
        routed(path@, r),
{
    match extension_of(path) {
        None => Err(DocumentError::InvalidExtension),
        Some(e) => match format_for_extension(e.as_str()) {
            Some(f) => Ok(f),
            None => Err(DocumentError::UnsupportedFileType(e)),
        },
    }
}

/// The size check made before OCR: `FileTooLarge` with the size where it is
/// over `MAX_FILE_SIZE`.
pub fn check_size(size: u64) -> (r: Result<(), DocumentError>)
    ensures
        size <= MAX_FILE_SIZE ==> r is Ok,
        size > MAX_FILE_SIZE ==> r == Err::<(), DocumentError>(DocumentError::FileTooLarge(size)),
{
    if size > MAX_FILE_SIZE {
        Err(DocumentError::FileTooLarge(size))
    } else {
        Ok(())
    }
}

} // verus!
