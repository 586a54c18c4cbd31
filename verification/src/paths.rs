//! Unix path arithmetic on character sequences, after `std::path::Path`.
use vstd::prelude::*;

use crate::text::{slice_chars, ascii_lower, ascii_lower_chars};

verus! {

/// Index of the last occurrence of `c` in `s`.
pub open spec fn rfind_char(s: Seq<char>, c: char) -> Option<int>
    decreases s.len(),
{
    if s.len() == 0 {
        None
    } else if s.last() == c {
        Some(s.len() - 1)
    } else {
        rfind_char(s.drop_last(), c)
    }
}

pub proof fn lemma_rfind_char(s: Seq<char>, c: char)
    ensures
        match rfind_char(s, c) {
            Some(i) => 0 <= i < s.len() && s[i] == c && forall|j: int| i < j < s.len() ==> s[j] != c,
            None => forall|j: int| 0 <= j < s.len() ==> s[j] != c,
        },
    decreases s.len(),
{
    if s.len() > 0 && s.last() != c {
        lemma_rfind_char(s.drop_last(), c);
        assert(forall|j: int| 0 <= j < s.len() - 1 ==> s[j] == s.drop_last()[j]);
    }
}

/// `s[..to]` with trailing `/` and trailing `/.` removed, repeatedly: the end of the
/// last component of the path.
pub open spec fn tail_end(s: Seq<char>, to: int) -> int
    decreases to,
{
    if to <= 0 {
        0
    } else if s[to - 1] == '/' {
        tail_end(s, to - 1)
    } else if to >= 2 && s[to - 1] == '.' && s[to - 2] == '/' {
        tail_end(s, to - 1)
    } else {
        to
    }
}

/// Start and end of the last component of `s` when it is a normal name
/// (`Path::file_name`); `None` when the path ends in the root, `.` or `..`.
pub open spec fn file_name_range(s: Seq<char>) -> Option<(int, int)> {
    let e = tail_end(s, s.len() as int);
    let t = s.take(e);
    let b = match rfind_char(t, '/') {
        Some(i) => i + 1,
        None => 0,
    };
    let part = s.subrange(b, e);
    if part.len() == 0 || part == "."@ || part == ".."@ {
        None
    } else {
        Some((b, e))
    }
}

/// `Path::file_name`.
pub open spec fn file_name(s: Seq<char>) -> Option<Seq<char>> {
    match file_name_range(s) {
        Some((b, e)) => Some(s.subrange(b, e)),
        None => None,
    }
}

/// Where the stem of the file name ends: at its last dot, unless there is none or the
/// only dot leads the name.
pub open spec fn stem_end(s: Seq<char>, b: int, e: int) -> int {
    match rfind_char(s.subrange(b, e), '.') {
        Some(d) => if d == 0 {
            e
        } else {
            b + d
        },
        None => e,
    }
}

/// `Path::file_stem`.
pub open spec fn file_stem(s: Seq<char>) -> Option<Seq<char>> {
    match file_name_range(s) {
        Some((b, e)) => Some(s.subrange(b, stem_end(s, b, e))),
        None => None,
    }
}

/// `Path::extension`.
pub open spec fn extension(s: Seq<char>) -> Option<Seq<char>> {
    match file_name_range(s) {
        Some((b, e)) => {
            let d = stem_end(s, b, e);
            if d == e {
                None
            } else {
                Some(s.subrange(d + 1, e))
            }
        },
        None => None,
    }
}

/// `Path::with_extension`.
pub open spec fn with_extension(s: Seq<char>, ext: Seq<char>) -> Seq<char> {
    match file_name_range(s) {
        Some((b, e)) => {
            let base = s.take(stem_end(s, b, e));
            if ext.len() == 0 {
                base
            } else {
                base + seq!['.'] + ext
            }
        },
        None => s,
    }
}

fn tail_end_exec(s: &[char]) -> (r: usize)
    ensures
        r == tail_end(s@, s@.len() as int),
        r <= s@.len(),
{
    let mut to = s.len();
    while to > 0 && (s[to - 1] == '/' || (to >= 2 && s[to - 1] == '.' && s[to - 2] == '/'))
        invariant
            to <= s@.len(),
            tail_end(s@, s@.len() as int) == tail_end(s@, to as int),
        decreases to,
    {
        to -= 1;
    }
    to
}

pub(crate) fn rfind_char_in(s: &[char], from: usize, to: usize, c: char) -> (r: Option<usize>)
    requires
        from <= to <= s@.len(),
    ensures
        match r {
            Some(i) => rfind_char(s@.subrange(from as int, to as int), c) == Some(i - from) && from
                <= i < to,
            None => rfind_char(s@.subrange(from as int, to as int), c) is None,
        },
{
    let mut j = to;
    while j > from
        invariant
            from <= j <= to <= s@.len(),
            rfind_char(s@.subrange(from as int, to as int), c) == rfind_char(
                s@.subrange(from as int, j as int),
                c,
            ),
        decreases j - from,
    {
        if s[j - 1] == c {
            return Some(j - 1);
        }
        assert(s@.subrange(from as int, j as int).drop_last() =~= s@.subrange(
            from as int,
            j - 1,
        ));
        j -= 1;
    }
    None
}

fn is_dot_name(s: &[char], b: usize, e: usize) -> (r: bool)
    requires
        b <= e <= s@.len(),
    ensures
        r == (s@.subrange(b as int, e as int) == "."@ || s@.subrange(b as int, e as int)
            == ".."@),
{
    proof {
        reveal_strlit(".");
        reveal_strlit("..");
    }
    if e - b == 1 {
        let r = s[b] == '.';
        proof {
            if !r {
                assert(s@.subrange(b as int, e as int)[0] != "."@[0]);
            } else {
                assert(s@.subrange(b as int, e as int) =~= "."@);
            }
        }
        r
    } else if e - b == 2 {
        let r = s[b] == '.' && s[b + 1] == '.';
        proof {
            if !r {
                if s@[b as int] != '.' {
                    assert(s@.subrange(b as int, e as int)[0] != ".."@[0]);
                } else {
                    assert(s@.subrange(b as int, e as int)[1] != ".."@[1]);
                }
            } else {
                assert(s@.subrange(b as int, e as int) =~= ".."@);
            }
        }
        r
    } else {
        false
    }
}

/// Bounds of the file name of `s`, as `file_name_range` gives them.
pub fn file_name_bounds(s: &[char]) -> (r: Option<(usize, usize)>)
    ensures
        match r {
            Some((b, e)) => file_name_range(s@) == Some((b as int, e as int)) && b < e <= s@.len(),
            None => file_name_range(s@) is None,
        },
{
    let e = tail_end_exec(s);
    let b = match rfind_char_in(s, 0, e, '/') {
        Some(i) => i + 1,
        None => 0,
    };
    assert(s@.subrange(0, e as int) =~= s@.take(e as int));
    if b == e || is_dot_name(s, b, e) {
        None
    } else {
        Some((b, e))
    }
}

fn stem_end_exec(s: &[char], b: usize, e: usize) -> (r: usize)
    requires
        b <= e <= s@.len(),
    ensures
        r == stem_end(s@, b as int, e as int),
        b <= r <= e,
{
    match rfind_char_in(s, b, e, '.') {
        Some(d) => if d == b {
            e
        } else {
            d
        },
        None => e,
    }
}

/// `Path::file_name`.
pub fn file_name_of(s: &[char]) -> (r: Option<Vec<char>>)
    ensures
        match r {
            Some(v) => file_name(s@) == Some(v@),
            None => file_name(s@) is None,
        },
{
    match file_name_bounds(s) {
        Some((b, e)) => Some(slice_chars(s, b, e)),
        None => None,
    }
}

/// `Path::file_stem`.
pub fn file_stem_of(s: &[char]) -> (r: Option<Vec<char>>)
    ensures
        match r {
            Some(v) => file_stem(s@) == Some(v@) && v@.len() <= s@.len(),
            None => file_stem(s@) is None,
        },
{
    match file_name_bounds(s) {
        Some((b, e)) => {
            let d = stem_end_exec(s, b, e);
            Some(slice_chars(s, b, d))
        },
        None => None,
    }
}

/// `Path::extension`.
pub fn extension_of(s: &[char]) -> (r: Option<Vec<char>>)
    ensures
        match r {
            Some(v) => extension(s@) == Some(v@),
            None => extension(s@) is None,
        },
{
    match file_name_bounds(s) {
        Some((b, e)) => {
            let d = stem_end_exec(s, b, e);
            if d == e {
                None
            } else {
                Some(slice_chars(s, d + 1, e))
            }
        },
        None => None,
    }
}

/// `Path::with_extension`.
pub fn with_extension_of(s: &[char], ext: &[char]) -> (r: Vec<char>)
    ensures
        r@ == with_extension(s@, ext@),
{
    match file_name_bounds(s) {
        Some((b, e)) => {
            let d = stem_end_exec(s, b, e);
            let mut r = slice_chars(s, 0, d);
            assert(r@ =~= s@.take(d as int));
            if ext.len() > 0 {
                r.push('.');
                let mut i: usize = 0;
                let ghost base = r@;
                while i < ext.len()
                    invariant
                        i <= ext@.len(),
                        r@ == base + ext@.take(i as int),
                    decreases ext@.len() - i,
                {
                    r.push(ext[i]);
                    i += 1;
                    assert(r@ =~= base + ext@.take(i as int));
                }
                assert(ext@.take(ext@.len() as int) =~= ext@);
            }
            r
        },
        None => slice_chars_all(s),
    }
}

fn slice_chars_all(s: &[char]) -> (r: Vec<char>)
    ensures
        r@ == s@,
{
    let r = slice_chars(s, 0, s.len());
    assert(s@.subrange(0, s@.len() as int) =~= s@);
    r
}

/// The extension of `s`, lower-cased in ASCII, when it has one.
pub fn lower_extension_of(s: &[char]) -> (r: Option<Vec<char>>)
    ensures
        match r {
            Some(v) => extension(s@) is Some && v@ == ascii_lower(extension(s@)->0),
            None => extension(s@) is None,
        },
{
    match extension_of(s) {
        Some(x) => Some(ascii_lower_chars(&x)),
        None => None,
    }
}

} // verus!
