//! Nintendo 64 games for the mupen64plus emulator, found through the directories
//! that its Qt front end remembers.
use vstd::prelude::*;

use crate::launcher::{char_vecs_view, split_char, split_chars, strings_view};
use crate::model::AppEntry;
use crate::paths::{extension, lower_extension_of};
use crate::roms::{
    answered, chars_one_of, cover_choice_ok, launch_key_for, one_of, quoted_command,
    quoted_command_of, rom_entry_ok, rom_launch_key, rom_title, title_from_filename,
};
use crate::snes9x::{expand_tilde, expand_tilde_of, opt_view};
use crate::text::{
    ascii_lower, chars_eq, chars_of, contains_chars, contains_seq, has_prefix, slice_chars,
    split_lines, starts_with, string_of, text_lines, trim, trim_char, trim_char_chars, trim_chars,
    vecs_view,
};

verus! {

/// The file extensions of N64 ROMs that mupen64plus opens (compared in lower case).
pub open spec fn n64_extensions() -> Seq<Seq<char>> {
    seq!["z64"@, "n64"@, "v64"@, "zip"@]
}

/// Is the file at `path` an N64 ROM that mupen64plus opens, judged by its extension
/// in any case?
pub fn is_valid_extension(path: &str) -> (r: bool)
    ensures
        r == (extension(path@) is Some && one_of(
            ascii_lower(extension(path@)->0),
            n64_extensions(),
        )),
{
    let mut set: Vec<Vec<char>> = Vec::new();
    set.push(chars_of("z64"));
    set.push(chars_of("n64"));
    set.push(chars_of("v64"));
    set.push(chars_of("zip"));
    assert(vecs_view(set@) =~= n64_extensions());
    match lower_extension_of(chars_of(path).as_slice()) {
        Some(e) => chars_one_of(e.as_slice(), &set),
        None => false,
    }
}

/// The game's title: the ROM's file stem without the parts in `( )` and `[ ]`.
pub fn extract_title_from_filename(path: &str) -> (r: String)
    requires
        path@.len() < i32::MAX,
    ensures
        r@ == rom_title(path@, true),
{
    title_from_filename(path, true)
}

/// The cover beside the ROM: the first of `game.png`, `game.jpg`, `game.jpeg`,
/// `game.webp` that `is_present` reports.
pub fn find_cover<F: Fn(&str) -> bool>(rom_path: &str, is_present: F) -> (r: Option<String>)
    requires
        forall|s: &str| call_requires(is_present, (s,)),
    ensures
        cover_choice_ok(rom_path@, is_present, r),
{
    crate::roms::find_cover(rom_path, is_present)
}

/// The launcher entry of the ROM at `path`.
pub fn process_rom<F: Fn(&str) -> bool>(path: &str, is_present: F) -> (r: Option<AppEntry>)
    requires
        path@.len() < i32::MAX,
        forall|s: &str| call_requires(is_present, (s,)),
    ensures
        r matches Some(e) && rom_entry_ok(
            e,
            rom_title(path@, true),
            quoted_command("mupen64plus --fullscreen "@, path@),
            e.icon,
            rom_launch_key("mupen64plus"@, path@),
        ) && cover_choice_ok(path@, is_present, e.icon),
{
    let title = extract_title_from_filename(path);
    let cover = find_cover(path, is_present);
    let p = chars_of(path);
    let command = quoted_command_of("mupen64plus --fullscreen ", p.as_slice());
    let key = launch_key_for("mupen64plus", p.as_slice());
    Some(AppEntry::new(title, command, cover).with_launch_key(key))
}

// ---------------------------------------------------------------------------
// Configuration
// ---------------------------------------------------------------------------

/// Reading one line of `mupen64plus-qt.conf`: whether the `[Paths]` section is open,
/// and the value of its `roms=` line once one has been read.
pub open spec fn qt_config_step(st: (bool, Option<Seq<char>>), line: Seq<char>) -> (
    bool,
    Option<Seq<char>>,
) {
    let t = trim(line);
    if st.1 is Some {
        st
    } else if t.len() > 0 && (t[0] == ';' || t[0] == '#') {
        st
    } else if t.len() > 0 && t[0] == '[' && t.last() == ']' {
        (t == "[Paths]"@, None)
    } else if st.0 && starts_with(t, "roms="@) {
        (st.0, Some(trim_char(t.skip(5), '"')))
    } else {
        st
    }
}

pub open spec fn qt_config_run(lines: Seq<Seq<char>>) -> (bool, Option<Seq<char>>)
    decreases lines.len(),
{
    if lines.len() == 0 {
        (false, None)
    } else {
        qt_config_step(qt_config_run(lines.drop_last()), lines.last())
    }
}

/// The `roms=` value of the `[Paths]` section, without surrounding quotes.
pub open spec fn qt_roms_value(content: Seq<char>) -> Option<Seq<char>> {
    qt_config_run(text_lines(content)).1
}

/// The non-empty `|`-separated parts of a value, trimmed, `~` standing for `home`.
pub open spec fn roms_segments_run(parts: Seq<Seq<char>>, home: Option<Seq<char>>) -> Seq<Seq<char>>
    decreases parts.len(),
{
    if parts.len() == 0 {
        Seq::<Seq<char>>::empty()
    } else {
        let rest = roms_segments_run(parts.drop_last(), home);
        let t = trim(parts.last());
        if t.len() == 0 {
            rest
        } else {
            rest.push(expand_tilde(t, home))
        }
    }
}

/// The directories that the configuration names: none when the value is Qt's
/// `@Invalid()` marker.
pub open spec fn qt_config_dirs(content: Seq<char>, home: Option<Seq<char>>) -> Seq<Seq<char>> {
    match qt_roms_value(content) {
        Some(v) => if contains_seq(v, "@Invalid()"@) {
            Seq::<Seq<char>>::empty()
        } else {
            roms_segments_run(split_char(v, '|'), home)
        },
        None => Seq::<Seq<char>>::empty(),
    }
}

/// The candidates kept where `answers` says yes, in order.
pub open spec fn kept(cands: Seq<Seq<char>>, answers: Seq<bool>) -> Seq<Seq<char>>
    decreases cands.len(),
{
    if cands.len() == 0 || answers.len() != cands.len() {
        Seq::<Seq<char>>::empty()
    } else {
        let rest = kept(cands.drop_last(), answers.drop_last());
        if answers.last() {
            rest.push(cands.last())
        } else {
            rest
        }
    }
}

/// `r` holds, in order, the candidates for which `f` answered yes.
pub open spec fn all_yes<F: Fn(&str) -> bool>(cands: Seq<Seq<char>>, f: F, r: Seq<Seq<char>>) -> bool {
    exists|answers: Seq<bool>|
        answers.len() == cands.len() && (forall|j: int|
            0 <= j < cands.len() ==> answered(f, #[trigger] cands[j], answers[j])) && r
            == #[trigger] kept(cands, answers)
}

fn qt_roms_value_of(content: &[char]) -> (r: Option<Vec<char>>)
    ensures
        match r {
            Some(v) => qt_roms_value(content@) == Some(v@),
            None => qt_roms_value(content@) is None,
        },
{
    let lines = split_lines(content);
    let ghost lv = vecs_view(lines@);
    let paths = chars_of("[Paths]");
    let key = chars_of("roms=");
    let mut in_paths = false;
    let mut i: usize = 0;
    assert(lv.take(0) =~= Seq::<Seq<char>>::empty());
    while i < lines.len()
        invariant
            i <= lines@.len(),
            lv == vecs_view(lines@),
            lv == text_lines(content@),
            paths@ == "[Paths]"@,
            key@ == "roms="@,
            (in_paths, None::<Seq<char>>) == qt_config_run(lv.take(i as int)),
        decreases lines@.len() - i,
    {
        assert(lv.take(i + 1).drop_last() =~= lv.take(i as int));
        assert(lv.take(i + 1).last() == lines@[i as int]@);
        let t = trim_chars(lines[i].as_slice());
        if t.len() > 0 && (t[0] == ';' || t[0] == '#') {
        } else if t.len() > 0 && t[0] == '[' && t[t.len() - 1] == ']' {
            in_paths = chars_eq(t.as_slice(), paths.as_slice());
        } else if in_paths && has_prefix(t.as_slice(), key.as_slice()) {
            proof {
                reveal_strlit("roms=");
            }
            let rest = slice_chars(t.as_slice(), 5, t.len());
            assert(rest@ =~= t@.skip(5));
            let v = trim_char_chars(rest.as_slice(), '"');
            proof {
                lemma_qt_run_found(lv, i as int + 1);
            }
            return Some(v);
        }
        i += 1;
    }
    assert(lv.take(lines@.len() as int) =~= lv);
    None
}

/// Once a `roms=` value has been read, the lines after it change nothing.
proof fn lemma_qt_run_found(lines: Seq<Seq<char>>, k: int)
    requires
        0 <= k <= lines.len(),
        qt_config_run(lines.take(k)).1 is Some,
    ensures
        qt_config_run(lines).1 == qt_config_run(lines.take(k)).1,
    decreases lines.len(),
{
    if k == lines.len() {
        assert(lines.take(k) =~= lines);
    } else {
        assert(lines.drop_last().take(k) =~= lines.take(k));
        lemma_qt_run_found(lines.drop_last(), k);
    }
}

fn roms_segments_of(v: &[char], home: &Option<String>) -> (r: Vec<Vec<char>>)
    ensures
        vecs_view(r@) == roms_segments_run(split_char(v@, '|'), opt_view(*home)),
{
    let parts = split_chars(v, '|');
    let ghost pv = char_vecs_view(parts@);
    let mut r: Vec<Vec<char>> = Vec::new();
    let mut i: usize = 0;
    assert(pv.take(0) =~= Seq::<Seq<char>>::empty());
    while i < parts.len()
        invariant
            i <= parts@.len(),
            pv == char_vecs_view(parts@),
            pv == split_char(v@, '|'),
            vecs_view(r@) == roms_segments_run(pv.take(i as int), opt_view(*home)),
        decreases parts@.len() - i,
    {
        assert(pv.take(i + 1).drop_last() =~= pv.take(i as int));
        assert(pv.take(i + 1).last() == parts@[i as int]@);
        let t = trim_chars(parts[i].as_slice());
        if t.len() > 0 {
            let ghost before = vecs_view(r@);
            let e = expand_tilde_of(t.as_slice(), home);
            r.push(e);
            assert(vecs_view(r@) =~= before.push(e@));
        }
        i += 1;
    }
    assert(pv.take(parts@.len() as int) =~= pv);
    r
}

/// The ROM directories of a `mupen64plus-qt.conf` with text `content`: those it
/// names that `is_dir` reports to be existing directories, in order.
pub fn rom_dirs_from_qt_config<F: Fn(&str) -> bool>(content: &str, home: Option<String>, is_dir: F) -> (r:
    Vec<String>)
    requires
        forall|s: &str| call_requires(is_dir, (s,)),
    ensures
        all_yes(qt_config_dirs(content@, opt_view(home)), is_dir, strings_view(r@)),
{
    let mut r: Vec<String> = Vec::new();
    let ghost cands = qt_config_dirs(content@, opt_view(home));
    let v = match qt_roms_value_of(chars_of(content).as_slice()) {
        Some(v) => v,
        None => {
            proof {
                let answers = Seq::<bool>::empty();
                assert(cands.len() == 0);
                assert(strings_view(r@) =~= kept(cands, answers));
                assert(all_yes(cands, is_dir, strings_view(r@)));
            }
            return r;
        },
    };
    if contains_chars(v.as_slice(), chars_of("@Invalid()").as_slice()) {
        proof {
            let answers = Seq::<bool>::empty();
            assert(cands.len() == 0);
            assert(strings_view(r@) =~= kept(cands, answers));
            assert(all_yes(cands, is_dir, strings_view(r@)));
        }
        return r;
    }
    let segs = roms_segments_of(v.as_slice(), &home);
    let ghost sv = vecs_view(segs@);
    assert(sv == cands);
    let ghost mut answers: Seq<bool> = Seq::empty();
    let mut i: usize = 0;
    assert(sv.take(0) =~= Seq::<Seq<char>>::empty());
    while i < segs.len()
        invariant
            i <= segs@.len(),
            sv == vecs_view(segs@),
            answers.len() == i,
            forall|s: &str| call_requires(is_dir, (s,)),
            forall|j: int| 0 <= j < i ==> answered(is_dir, #[trigger] sv[j], answers[j]),
            strings_view(r@) == kept(sv.take(i as int), answers),
        decreases segs@.len() - i,
    {
        let dir = string_of(segs[i].as_slice());
        let yes = is_dir(dir.as_str());
        assert(answered(is_dir, sv[i as int], yes));
        let ghost before = strings_view(r@);
        let ghost old_ans = answers;
        proof {
            answers = answers.push(yes);
            assert(sv.take(i + 1).drop_last() =~= sv.take(i as int));
            assert(answers.drop_last() =~= old_ans);
            assert(sv.take(i + 1).last() == sv[i as int]);
        }
        if yes {
            r.push(dir);
            assert(strings_view(r@) =~= before.push(sv[i as int]));
        }
        i += 1;
    }
    assert(sv.take(segs@.len() as int) =~= sv);
    assert(all_yes(cands, is_dir, strings_view(r@)));
    r
}

/// The ROM directories of a `mupen64plus-qt.conf` with text `content`, `~` standing
/// for the user's home directory as the `directories` crate finds it.
pub fn parse_mupen64plus_qt_config<F: Fn(&str) -> bool>(content: &str, is_dir: F) -> (r: Vec<String>)
    requires
        forall|s: &str| call_requires(is_dir, (s,)),
    ensures
        exists|home: Option<Seq<char>>|
            all_yes(qt_config_dirs(content@, home), is_dir, #[trigger] strings_view(r@)),
{
    let home = crate::user_dirs::home_dir();
    let ghost h = opt_view(home);
    let r = rom_dirs_from_qt_config(content, home, is_dir);
    assert(all_yes(qt_config_dirs(content@, h), is_dir, strings_view(r@)));
    r
}

} // verus!
