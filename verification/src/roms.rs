//! What the emulator scanners share: a game's title from its ROM file's name, the
//! cover image beside the ROM, and the launcher entry for a ROM.
use vstd::prelude::*;

use crate::model::AppEntry;
use crate::paths::{
    extension, file_name, file_name_of, file_stem, file_stem_of, with_extension, with_extension_of,
};
use crate::text::{chars_of, string_of, trim, trim_chars};

verus! {

// ---------------------------------------------------------------------------
// Titles
// ---------------------------------------------------------------------------

/// How a closing bracket lowers a nesting depth: `saturating` lets the depth go
/// below zero (down to the least `i32`), otherwise it stops at zero.
pub open spec fn depth_down(d: int, saturating: bool) -> int {
    if saturating {
        if d - 1 < i32::MIN {
            i32::MIN as int
        } else {
            d - 1
        }
    } else if d > 0 {
        d - 1
    } else {
        d
    }
}

/// Reading one character of a file stem: the depth inside `( )`, the depth inside
/// `[ ]`, and the characters kept so far (those read at depth zero in both).
pub open spec fn title_step(st: (int, int, Seq<char>), c: char, saturating: bool) -> (
    int,
    int,
    Seq<char>,
) {
    if c == '(' {
        (st.0 + 1, st.1, st.2)
    } else if c == ')' {
        (depth_down(st.0, saturating), st.1, st.2)
    } else if c == '[' {
        (st.0, st.1 + 1, st.2)
    } else if c == ']' {
        (st.0, depth_down(st.1, saturating), st.2)
    } else if st.0 == 0 && st.1 == 0 {
        (st.0, st.1, st.2.push(c))
    } else {
        st
    }
}

pub open spec fn title_run(s: Seq<char>, saturating: bool) -> (int, int, Seq<char>)
    decreases s.len(),
{
    if s.len() == 0 {
        (0, 0, Seq::<char>::empty())
    } else {
        title_step(title_run(s.drop_last(), saturating), s.last(), saturating)
    }
}

/// The title of a ROM: its file stem with every bracketed part removed, trimmed.
pub open spec fn rom_title(path: Seq<char>, saturating: bool) -> Seq<char> {
    let stem = match file_stem(path) {
        Some(s) => s,
        None => Seq::<char>::empty(),
    };
    trim(title_run(stem, saturating).2)
}

proof fn lemma_title_depths(s: Seq<char>, saturating: bool)
    ensures
        -(s.len() as int) <= title_run(s, saturating).0 <= s.len(),
        -(s.len() as int) <= title_run(s, saturating).1 <= s.len(),
    decreases s.len(),
{
    if s.len() > 0 {
        lemma_title_depths(s.drop_last(), saturating);
    }
}

/// The title of the ROM at `path`.
pub fn title_from_filename(path: &str, saturating: bool) -> (r: String)
    requires
        path@.len() < i32::MAX,
    ensures
        r@ == rom_title(path@, saturating),
{
    let p = chars_of(path);
    let stem = match file_stem_of(p.as_slice()) {
        Some(s) => s,
        None => Vec::new(),
    };
    let ghost stem_v = match file_stem(path@) {
        Some(s) => s,
        None => Seq::<char>::empty(),
    };
    assert(stem@ == stem_v);
    let mut round: i32 = 0;
    let mut square: i32 = 0;
    let mut kept: Vec<char> = Vec::new();
    let n = stem.len();
    let mut i: usize = 0;
    assert(stem@.take(0) =~= Seq::<char>::empty());
    while i < n
        invariant
            n == stem@.len(),
            n < i32::MAX,
            i <= n,
            (round as int, square as int, kept@) == title_run(stem@.take(i as int), saturating),
        decreases n - i,
    {
        let c = stem[i];
        proof {
            assert(stem@.take(i + 1).drop_last() =~= stem@.take(i as int));
            lemma_title_depths(stem@.take(i as int), saturating);
        }
        if c == '(' {
            round = round + 1;
        } else if c == ')' {
            if saturating {
                if round > i32::MIN {
                    round = round - 1;
                }
            } else if round > 0 {
                round = round - 1;
            }
        } else if c == '[' {
            square = square + 1;
        } else if c == ']' {
            if saturating {
                if square > i32::MIN {
                    square = square - 1;
                }
            } else if square > 0 {
                square = square - 1;
            }
        } else if round == 0 && square == 0 {
            kept.push(c);
        }
        i += 1;
    }
    assert(stem@.take(n as int) =~= stem@);
    string_of(trim_chars(kept.as_slice()).as_slice())
}

// ---------------------------------------------------------------------------
// Extensions
// ---------------------------------------------------------------------------

/// Is `e` one of the names in `set`?
pub open spec fn one_of(e: Seq<char>, set: Seq<Seq<char>>) -> bool {
    exists|k: int| 0 <= k < set.len() && #[trigger] set[k] == e
}

pub fn chars_one_of(e: &[char], set: &Vec<Vec<char>>) -> (r: bool)
    ensures
        r == one_of(e@, crate::text::vecs_view(set@)),
{
    let mut k: usize = 0;
    while k < set.len()
        invariant
            k <= set@.len(),
            forall|j: int| 0 <= j < k ==> crate::text::vecs_view(set@)[j] != e@,
        decreases set@.len() - k,
    {
        if crate::text::chars_eq(set[k].as_slice(), e) {
            assert(crate::text::vecs_view(set@)[k as int] == e@);
            return true;
        }
        k += 1;
    }
    false
}

// ---------------------------------------------------------------------------
// Covers
// ---------------------------------------------------------------------------

/// The image types looked for beside a ROM, in order of preference.
pub open spec fn cover_exts() -> Seq<Seq<char>> {
    seq!["png"@, "jpg"@, "jpeg"@, "webp"@]
}

/// The paths at which a ROM's cover may lie: the ROM's path with each image
/// extension in turn.
pub open spec fn cover_candidates(rom: Seq<char>) -> Seq<Seq<char>> {
    cover_exts().map_values(|e: Seq<char>| with_extension(rom, e))
}

/// `is_present` answered `answer` for the path `p`.
pub open spec fn answered<F: Fn(&str) -> bool>(is_present: F, p: Seq<char>, answer: bool) -> bool {
    exists|s: &str| s@ == p && #[trigger] call_ensures(is_present, (s,), answer)
}

/// The first candidate for which `is_present` answered yes, every earlier one having
/// been answered no.
pub open spec fn cover_choice_ok<F: Fn(&str) -> bool>(
    rom: Seq<char>,
    is_present: F,
    r: Option<String>,
) -> bool {
    match r {
        Some(c) => exists|k: int|
            0 <= k < 4 && c@ == #[trigger] cover_candidates(rom)[k] && answered(
                is_present,
                cover_candidates(rom)[k],
                true,
            ) && forall|j: int|
                0 <= j < k ==> answered(is_present, #[trigger] cover_candidates(rom)[j], false),
        None => forall|j: int|
            0 <= j < 4 ==> answered(is_present, #[trigger] cover_candidates(rom)[j], false),
    }
}

/// The cover beside a ROM is looked for as the ROM's path with the extension
/// `png`, then `jpg`, then `jpeg`, then `webp`: what is found is one of these four
/// paths, reported present, every earlier one reported absent; and nothing is found
/// only when all four were reported absent (so a present `.webp` image is found when
/// none of the others is).
pub proof fn law_covers_are_png_jpg_jpeg_webp<F: Fn(&str) -> bool>(
    rom: Seq<char>,
    is_present: F,
    r: Option<String>,
)
    requires
        cover_choice_ok(rom, is_present, r),
    ensures
        cover_candidates(rom) == seq![
            with_extension(rom, "png"@),
            with_extension(rom, "jpg"@),
            with_extension(rom, "jpeg"@),
            with_extension(rom, "webp"@),
        ],
        r is None ==> answered(is_present, with_extension(rom, "png"@), false) && answered(
            is_present,
            with_extension(rom, "jpg"@),
            false,
        ) && answered(is_present, with_extension(rom, "jpeg"@), false) && answered(
            is_present,
            with_extension(rom, "webp"@),
            false,
        ),
        r matches Some(c) ==> answered(is_present, c@, true) && (c@ == with_extension(rom, "png"@)
            || c@ == with_extension(rom, "jpg"@) || c@ == with_extension(rom, "jpeg"@) || c@
            == with_extension(rom, "webp"@)),
{
    let c = cover_candidates(rom);
    assert(c =~= seq![
        with_extension(rom, "png"@),
        with_extension(rom, "jpg"@),
        with_extension(rom, "jpeg"@),
        with_extension(rom, "webp"@),
    ]);
    if r is None {
        assert(answered(is_present, c[0], false));
        assert(answered(is_present, c[1], false));
        assert(answered(is_present, c[2], false));
        assert(answered(is_present, c[3], false));
    }
}

/// The cover image of the ROM at `rom_path`: the first of its candidate paths that
/// `is_present` reports present.
pub fn find_cover<F: Fn(&str) -> bool>(rom_path: &str, is_present: F) -> (r: Option<String>)
    requires
        forall|s: &str| call_requires(is_present, (s,)),
    ensures
        cover_choice_ok(rom_path@, is_present, r),
{
    let p = chars_of(rom_path);
    let mut exts: Vec<Vec<char>> = Vec::new();
    exts.push(chars_of("png"));
    exts.push(chars_of("jpg"));
    exts.push(chars_of("jpeg"));
    exts.push(chars_of("webp"));
    assert(crate::text::vecs_view(exts@) =~= cover_exts());
    let mut k: usize = 0;
    while k < 4
        invariant
            k <= 4,
            exts@.len() == 4,
            p@ == rom_path@,
            crate::text::vecs_view(exts@) == cover_exts(),
            forall|s: &str| call_requires(is_present, (s,)),
            forall|j: int|
                0 <= j < k ==> answered(is_present, #[trigger] cover_candidates(rom_path@)[j], false),
        decreases 4 - k,
    {
        let cand = string_of(with_extension_of(p.as_slice(), exts[k].as_slice()).as_slice());
        assert(cand@ == cover_candidates(rom_path@)[k as int]);
        let found = is_present(cand.as_str());
        assert(answered(is_present, cand@, found));
        if found {
            return Some(cand);
        }
        k += 1;
    }
    None
}

// ---------------------------------------------------------------------------
// Entries
// ---------------------------------------------------------------------------

/// The file name of `path`, or nothing when it has none.
pub open spec fn file_name_or_empty(path: Seq<char>) -> Seq<char> {
    match file_name(path) {
        Some(n) => n,
        None => Seq::<char>::empty(),
    }
}

pub fn file_name_or_empty_of(path: &[char]) -> (r: Vec<char>)
    ensures
        r@ == file_name_or_empty(path@),
{
    match file_name_of(path) {
        Some(n) => n,
        None => Vec::new(),
    }
}

/// `a` followed by `b`, as a new vector.
pub fn concat(a: &[char], b: &[char]) -> (r: Vec<char>)
    ensures
        r@ == a@ + b@,
{
    let mut r = crate::text::slice_chars(a, 0, a.len());
    assert(r@ =~= a@);
    let mut i: usize = 0;
    let ghost base = r@;
    while i < b.len()
        invariant
            i <= b@.len(),
            base == a@,
            r@ == base + b@.take(i as int),
        decreases b@.len() - i,
    {
        r.push(b[i]);
        i += 1;
        assert(r@ =~= base + b@.take(i as int));
    }
    assert(b@.take(b@.len() as int) =~= b@);
    r
}

/// `"<tag>:<file name of path>"`: the key under which a ROM's launches are remembered.
pub open spec fn rom_launch_key(tag: Seq<char>, path: Seq<char>) -> Seq<char> {
    tag + ":"@ + file_name_or_empty(path)
}

pub fn launch_key_for(tag: &str, path: &[char]) -> (r: String)
    ensures
        r@ == rom_launch_key(tag@, path@),
{
    let k = concat(chars_of(tag).as_slice(), chars_of(":").as_slice());
    let k = concat(k.as_slice(), file_name_or_empty_of(path).as_slice());
    string_of(k.as_slice())
}

/// `<before>"<path>"`: a command line that runs a program on a quoted ROM path.
pub open spec fn quoted_command(before: Seq<char>, path: Seq<char>) -> Seq<char> {
    before + "\""@ + path + "\""@
}

pub fn quoted_command_of(before: &str, path: &[char]) -> (r: String)
    ensures
        r@ == quoted_command(before@, path@),
{
    let q = chars_of("\"");
    let c = concat(chars_of(before).as_slice(), q.as_slice());
    let c = concat(c.as_slice(), path);
    let c = concat(c.as_slice(), q.as_slice());
    string_of(c.as_slice())
}

/// What a launcher entry for a ROM holds: its title, the command, the cover and the
/// launch key.
pub open spec fn rom_entry_ok(
    e: AppEntry,
    title: Seq<char>,
    command: Seq<char>,
    cover: Option<String>,
    key: Seq<char>,
) -> bool {
    &&& e.name@ == title
    &&& e.command@ == command
    &&& e.icon == cover
    &&& e.game_executable is None
    &&& e.launch_key matches Some(k) && k@ == key
}

/// `r` holds the first of `cands` that `f` answered yes for, every earlier one having
/// been answered no; or nothing, every candidate having been answered no.
pub open spec fn first_yes<F: Fn(&str) -> bool>(
    cands: Seq<Seq<char>>,
    f: F,
    r: Seq<Seq<char>>,
) -> bool {
    ||| r.len() == 0 && forall|j: int| 0 <= j < cands.len() ==> answered(f, #[trigger] cands[j], false)
    ||| r.len() == 1 && exists|k: int|
        0 <= k < cands.len() && r[0] == #[trigger] cands[k] && answered(f, cands[k], true)
            && forall|j: int| 0 <= j < k ==> answered(f, #[trigger] cands[j], false)
}


// ---------------------------------------------------------------------------
// Lists of paths
// ---------------------------------------------------------------------------

/// The paths in strictly increasing order (so each one once).
#[verifier::opaque]
pub open spec fn paths_sorted(r: Seq<Seq<char>>) -> bool {
    forall|i: int, j: int|
        0 <= i < j < r.len() ==> crate::category_list::lex_le(#[trigger] r[i], #[trigger] r[j]) && r[i]
            != r[j]
}

/// `sort` then `dedup` of a list of paths: the same paths, in order, each once.
pub open spec fn sorted_unique(input: Seq<Seq<char>>, r: Seq<Seq<char>>) -> bool {
    &&& paths_sorted(r)
    &&& forall|i: int| 0 <= i < r.len() ==> #[trigger] input.contains(r[i])
    &&& forall|k: int| 0 <= k < input.len() ==> #[trigger] r.contains(input[k])
}

fn path_in(r: &Vec<String>, p: &[char]) -> (found: bool)
    ensures
        found == crate::launcher::strings_view(r@).contains(p@),
{
    let mut i: usize = 0;
    while i < r.len()
        invariant
            i <= r@.len(),
            forall|j: int| 0 <= j < i ==> crate::launcher::strings_view(r@)[j] != p@,
        decreases r@.len() - i,
    {
        if crate::text::chars_eq(chars_of(r[i].as_str()).as_slice(), p) {
            assert(crate::launcher::strings_view(r@)[i as int] == p@);
            return true;
        }
        i += 1;
    }
    false
}

proof fn lemma_sorted_insert(r0: Seq<Seq<char>>, p: int, x: Seq<char>)
    requires
        paths_sorted(r0),
        !r0.contains(x),
        0 <= p <= r0.len(),
        forall|a: int| 0 <= a < p ==> crate::category_list::lex_le(#[trigger] r0[a], x),
        p < r0.len() ==> !crate::category_list::lex_le(r0[p], x),
    ensures
        paths_sorted(r0.insert(p, x)),
{
    reveal(paths_sorted);
    let r = r0.insert(p, x);
    if p < r0.len() {
        crate::category_list::lemma_lex_total(r0[p], x);
    }
    assert forall|a: int, b: int| 0 <= a < b < r.len() implies crate::category_list::lex_le(
        #[trigger] r[a],
        #[trigger] r[b],
    ) && r[a] != r[b] by {
        if b < p {
            assert(r[a] == r0[a] && r[b] == r0[b]);
        } else if b == p {
            assert(r[a] == r0[a]);
        } else if a == p {
            assert(r[b] == r0[b - 1]);
            if b - 1 > p {
                assert(crate::category_list::lex_le(r0[p], r0[b - 1]));
                crate::category_list::lemma_lex_trans(x, r0[p], r0[b - 1]);
            }
        } else if a < p {
            assert(r[a] == r0[a] && r[b] == r0[b - 1]);
        } else {
            assert(r[a] == r0[a - 1] && r[b] == r0[b - 1]);
        }
    }
}

/// The paths sorted, each once.
pub fn sorted_unique_paths(paths: &Vec<String>) -> (r: Vec<String>)
    ensures
        sorted_unique(crate::launcher::strings_view(paths@), crate::launcher::strings_view(r@)),
{
    let ghost input = crate::launcher::strings_view(paths@);
    let mut r: Vec<String> = Vec::new();
    proof {
        reveal(paths_sorted);
    }
    let mut i: usize = 0;
    while i < paths.len()
        invariant
            i <= paths@.len(),
            input == crate::launcher::strings_view(paths@),
            paths_sorted(crate::launcher::strings_view(r@)),
            forall|a: int|
                0 <= a < r@.len() ==> #[trigger] input.contains(crate::launcher::strings_view(r@)[a]),
            forall|k: int| 0 <= k < i ==> #[trigger] crate::launcher::strings_view(r@).contains(input[k]),
        decreases paths@.len() - i,
    {
        let x = chars_of(paths[i].as_str());
        assert(input[i as int] == x@);
        if !path_in(&r, x.as_slice()) {
            let ghost rv = crate::launcher::strings_view(r@);
            let mut p: usize = 0;
            while p < r.len() && crate::category_list::lex_le_chars(
                chars_of(r[p].as_str()).as_slice(),
                x.as_slice(),
            )
                invariant
                    p <= r@.len(),
                    rv == crate::launcher::strings_view(r@),
                    forall|a: int| 0 <= a < p ==> crate::category_list::lex_le(#[trigger] rv[a], x@),
                decreases r@.len() - p,
            {
                p += 1;
            }
            r.insert(p, string_of(x.as_slice()));
            let ghost rn = crate::launcher::strings_view(r@);
            assert(rn =~= rv.insert(p as int, x@));
            proof {
                lemma_sorted_insert(rv, p as int, x@);
                assert forall|a: int| 0 <= a < rn.len() implies #[trigger] input.contains(rn[a]) by {
                    if a < p {
                        assert(rn[a] == rv[a]);
                        assert(input.contains(rv[a]));
                    } else if a == p {
                        assert(input[i as int] == rn[a]);
                    } else {
                        assert(rn[a] == rv[a - 1]);
                        assert(input.contains(rv[a - 1]));
                    }
                }
                assert forall|k: int| 0 <= k < i + 1 implies #[trigger] rn.contains(input[k]) by {
                    if k == i {
                        assert(rn[p as int] == input[k]);
                    } else {
                        assert(rv.contains(input[k]));
                        let a0 = choose|a: int| 0 <= a < rv.len() && rv[a] == input[k];
                        if a0 < p {
                            assert(rn[a0] == rv[a0]);
                        } else {
                            assert(rn[a0 + 1] == rv[a0]);
                        }
                    }
                }
            }
        }
        i += 1;
    }
    r
}

/// The paths with every repeat left out, in the order of their first occurrence.
pub open spec fn first_of_each(paths: Seq<Seq<char>>) -> Seq<Seq<char>>
    decreases paths.len(),
{
    if paths.len() == 0 {
        paths
    } else {
        let rest = first_of_each(paths.drop_last());
        if rest.contains(paths.last()) {
            rest
        } else {
            rest.push(paths.last())
        }
    }
}

pub fn first_of_each_path(paths: &Vec<String>) -> (r: Vec<String>)
    ensures
        crate::launcher::strings_view(r@) == first_of_each(crate::launcher::strings_view(paths@)),
{
    let ghost input = crate::launcher::strings_view(paths@);
    let mut r: Vec<String> = Vec::new();
    let mut i: usize = 0;
    assert(input.take(0) =~= Seq::<Seq<char>>::empty());
    while i < paths.len()
        invariant
            i <= paths@.len(),
            input == crate::launcher::strings_view(paths@),
            crate::launcher::strings_view(r@) == first_of_each(input.take(i as int)),
        decreases paths@.len() - i,
    {
        assert(input.take(i + 1).drop_last() =~= input.take(i as int));
        let x = chars_of(paths[i].as_str());
        assert(input.take(i + 1).last() == x@);
        if !path_in(&r, x.as_slice()) {
            let ghost before = crate::launcher::strings_view(r@);
            r.push(string_of(x.as_slice()));
            assert(crate::launcher::strings_view(r@) =~= before.push(x@));
        }
        i += 1;
    }
    assert(input.take(paths@.len() as int) =~= input);
    r
}

} // verus!
