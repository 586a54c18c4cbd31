//! Nintendo 64 games for the simple64 emulator: its ROM directory and recently opened
//! ROMs, and the setting that makes it start in full screen.
use vstd::prelude::*;

use crate::launcher::strings_view;
use crate::model::AppEntry;
use crate::mupen64plus::kept;
use crate::paths::{extension, extension_of};
use crate::roms::{
    answered, chars_one_of, cover_choice_ok, launch_key_for, one_of, quoted_command,
    quoted_command_of, rom_entry_ok, rom_launch_key, rom_title, title_from_filename,
};
use crate::text::{
    chars_eq, chars_of, first_occurrence, find_seq, has_prefix, join_chars, join_with, lower_chars,
    slice_chars, split_lines, split_on, split_on_chars, starts_with, string_of, text_lines, trim,
    trim_chars, unicode_lower, vecs_view,
};

verus! {

/// The file extensions of N64 ROMs that simple64 opens (compared in lower case).
pub open spec fn simple64_extensions() -> Seq<Seq<char>> {
    seq!["z64"@, "n64"@, "v64"@, "zip"@, "7z"@]
}

/// Is the file at `path` an N64 ROM that simple64 opens, judged by its extension in
/// any case?
pub fn is_valid_extension(path: &str) -> (r: bool)
    ensures
        r == (extension(path@) is Some && one_of(
            unicode_lower(extension(path@)->0),
            simple64_extensions(),
        )),
{
    let mut set: Vec<Vec<char>> = Vec::new();
    set.push(chars_of("z64"));
    set.push(chars_of("n64"));
    set.push(chars_of("v64"));
    set.push(chars_of("zip"));
    set.push(chars_of("7z"));
    assert(vecs_view(set@) =~= simple64_extensions());
    match extension_of(chars_of(path).as_slice()) {
        Some(e) => chars_one_of(lower_chars(e.as_slice()).as_slice(), &set),
        None => false,
    }
}

/// The game's title: the ROM's file stem without the parts in `( )` and `[ ]`; a
/// closing bracket never takes a depth below zero.
pub fn extract_title_from_filename(path: &str) -> (r: String)
    requires
        path@.len() < i32::MAX,
    ensures
        r@ == rom_title(path@, false),
{
    title_from_filename(path, false)
}

/// The cover beside the ROM: the first of `game.png`, `game.jpg`, `game.jpeg`,
/// `game.webp` that `is_present` reports.
pub fn find_cover<F: Fn(&str) -> bool>(rom_path: &str, is_present: F) -> (r: Option<String>)
    requires
        forall|s: &str| call_requires(is_present, (s,)),
    ensures
        cover_choice_ok(rom_path@, is_present, r),
{
    crate::roms::find_cover(rom_path, is_present)
}

/// The launcher entry of the ROM at `path`.
pub fn process_rom<F: Fn(&str) -> bool>(path: &str, is_present: F) -> (r: Option<AppEntry>)
    requires
        path@.len() < i32::MAX,
        forall|s: &str| call_requires(is_present, (s,)),
    ensures
        r matches Some(e) && rom_entry_ok(
            e,
            rom_title(path@, false),
            quoted_command("simple64-gui "@, path@),
            e.icon,
            rom_launch_key("simple64"@, path@),
        ) && cover_choice_ok(path@, is_present, e.icon),
{
    let title = extract_title_from_filename(path);
    let cover = find_cover(path, is_present);
    let p = chars_of(path);
    let command = quoted_command_of("simple64-gui ", p.as_slice());
    let key = launch_key_for("simple64", p.as_slice());
    Some(AppEntry::new(title, command, cover).with_launch_key(key))
}

// ---------------------------------------------------------------------------
// gui.conf
// ---------------------------------------------------------------------------

/// `key=value` around the first `=` of a line, both trimmed.
pub open spec fn key_value(line: Seq<char>) -> Option<(Seq<char>, Seq<char>)> {
    match first_occurrence(line, seq!['=']) {
        Some(e) => Some((trim(line.take(e)), trim(line.skip(e + 1)))),
        None => None,
    }
}

/// Reading one line of `gui.conf`: the `ROMdir` values and the recently opened ROMs
/// so far.
pub open spec fn gui_step(st: (Seq<Seq<char>>, Seq<Seq<char>>), line: Seq<char>) -> (
    Seq<Seq<char>>,
    Seq<Seq<char>>,
) {
    match key_value(line) {
        Some((k, v)) => if k == "ROMdir"@ {
            (st.0.push(v), st.1)
        } else if k == "RecentROMs2"@ {
            (st.0, st.1 + split_on(v, ", "@))
        } else {
            st
        },
        None => st,
    }
}

pub open spec fn gui_run(lines: Seq<Seq<char>>) -> (Seq<Seq<char>>, Seq<Seq<char>>)
    decreases lines.len(),
{
    if lines.len() == 0 {
        (Seq::<Seq<char>>::empty(), Seq::<Seq<char>>::empty())
    } else {
        gui_step(gui_run(lines.drop_last()), lines.last())
    }
}

/// Every `ROMdir` value of a `gui.conf`, in order.
pub open spec fn gui_rom_dirs(content: Seq<char>) -> Seq<Seq<char>> {
    gui_run(text_lines(content)).0
}

/// The recently opened ROMs of a `gui.conf`: each `RecentROMs2` value split at `, `.
pub open spec fn gui_recent_roms(content: Seq<char>) -> Seq<Seq<char>> {
    gui_run(text_lines(content)).1
}

/// `r` is the last of `cands` that `f` answered yes for, or nothing when it answered
/// no to all.
pub open spec fn last_yes<F: Fn(&str) -> bool>(cands: Seq<Seq<char>>, f: F, r: Option<Seq<char>>) -> bool {
    exists|answers: Seq<bool>|
        #![trigger kept(cands, answers)]
        answers.len() == cands.len() && (forall|j: int|
            0 <= j < cands.len() ==> answered(f, #[trigger] cands[j], answers[j])) && r == (if kept(
            cands,
            answers,
        ).len() > 0 {
            Some(kept(cands, answers).last())
        } else {
            None
        })
}

/// The ROM directory (the last `ROMdir` that `path_exists` reports present) and the
/// recently opened ROMs of a `gui.conf` with text `content`.
pub fn parse_config<F: Fn(&str) -> bool>(content: &str, path_exists: F) -> (r: (Option<String>, Vec<String>))
    requires
        forall|s: &str| call_requires(path_exists, (s,)),
    ensures
        last_yes(
            gui_rom_dirs(content@),
            path_exists,
            match r.0 {
                Some(d) => Some(d@),
                None => None,
            },
        ),
        strings_view(r.1@) == gui_recent_roms(content@),
{
    let lines = split_lines(chars_of(content).as_slice());
    let ghost lv = vecs_view(lines@);
    let eq = vec!['='];
    assert(eq@ =~= seq!['=']);
    let romdir = chars_of("ROMdir");
    let recent_key = chars_of("RecentROMs2");
    let sep = chars_of(", ");
    let mut rom_dir: Option<String> = None;
    let mut recent: Vec<String> = Vec::new();
    let ghost mut answers: Seq<bool> = Seq::empty();
    let mut i: usize = 0;
    assert(lv.take(0) =~= Seq::<Seq<char>>::empty());
    while i < lines.len()
        invariant
            i <= lines@.len(),
            lv == vecs_view(lines@),
            lv == text_lines(content@),
            eq@ == seq!['='],
            romdir@ == "ROMdir"@,
            recent_key@ == "RecentROMs2"@,
            sep@ == ", "@,
            forall|s: &str| call_requires(path_exists, (s,)),
            answers.len() == gui_run(lv.take(i as int)).0.len(),
            forall|j: int|
                0 <= j < answers.len() ==> answered(
                    path_exists,
                    #[trigger] gui_run(lv.take(i as int)).0[j],
                    answers[j],
                ),
            (match rom_dir {
                Some(d) => Some(d@),
                None => None,
            }) == (if kept(gui_run(lv.take(i as int)).0, answers).len() > 0 {
                Some(kept(gui_run(lv.take(i as int)).0, answers).last())
            } else {
                None
            }),
            strings_view(recent@) == gui_run(lv.take(i as int)).1,
        decreases lines@.len() - i,
    {
        let ghost pre = gui_run(lv.take(i as int));
        assert(lv.take(i + 1).drop_last() =~= lv.take(i as int));
        assert(lv.take(i + 1).last() == lines@[i as int]@);
        let line = &lines[i];
        match find_seq(line.as_slice(), eq.as_slice()) {
            Some(e) => {
                assert(eq@.len() == 1);
                assert(e + 1 <= line@.len());
                let n = line.len();
                assert(e < n);
                let k = slice_chars(line.as_slice(), 0, e);
                let v = slice_chars(line.as_slice(), e + 1, n);
                assert(k@ =~= line@.take(e as int));
                assert(v@ =~= line@.skip(e + 1));
                let key = trim_chars(k.as_slice());
                let value = trim_chars(v.as_slice());
                if chars_eq(key.as_slice(), romdir.as_slice()) {
                    let d = string_of(value.as_slice());
                    let yes = path_exists(d.as_str());
                    assert(answered(path_exists, value@, yes));
                    let ghost old_ans = answers;
                    proof {
                        answers = answers.push(yes);
                        let post = gui_run(lv.take(i + 1)).0;
                        assert(post == pre.0.push(value@));
                        assert(answers.drop_last() =~= old_ans);
                        assert(post.drop_last() =~= pre.0);
                        assert forall|j: int| 0 <= j < answers.len() implies answered(
                            path_exists,
                            #[trigger] post[j],
                            answers[j],
                        ) by {
                            if j < old_ans.len() {
                                assert(post[j] == pre.0[j]);
                            }
                        }
                    }
                    if yes {
                        rom_dir = Some(d);
                    }
                } else if chars_eq(key.as_slice(), recent_key.as_slice()) {
                    proof {
                        reveal_strlit(", ");
                    }
                    let parts = split_on_chars(value.as_slice(), sep.as_slice());
                    let mut k2: usize = 0;
                    let ghost r0 = strings_view(recent@);
                    while k2 < parts.len()
                        invariant
                            k2 <= parts@.len(),
                            strings_view(recent@) == r0 + vecs_view(parts@).take(k2 as int),
                        decreases parts@.len() - k2,
                    {
                        let ghost b = strings_view(recent@);
                        recent.push(string_of(parts[k2].as_slice()));
                        assert(strings_view(recent@) =~= b.push(parts@[k2 as int]@));
                        k2 += 1;
                        assert(vecs_view(parts@).take(k2 as int) =~= vecs_view(parts@).take(
                            k2 - 1,
                        ).push(parts@[k2 - 1]@));
                        assert(strings_view(recent@) =~= r0 + vecs_view(parts@).take(k2 as int));
                    }
                    assert(vecs_view(parts@).take(parts@.len() as int) =~= vecs_view(parts@));
                }
            },
            None => {},
        }
        i += 1;
    }
    assert(lv.take(lines@.len() as int) =~= lv);
    proof {
        let cands = gui_rom_dirs(content@);
        assert(cands == gui_run(lv.take(lines@.len() as int)).0);
        assert(forall|j: int| 0 <= j < cands.len() ==> answered(path_exists, #[trigger] cands[j], answers[j]));
        assert(kept(cands, answers) == kept(gui_run(lv.take(lines@.len() as int)).0, answers));
    }
    assert(last_yes(
        gui_rom_dirs(content@),
        path_exists,
        match rom_dir {
            Some(d) => Some(d@),
            None => None,
        },
    ));
    (rom_dir, recent)
}

// ---------------------------------------------------------------------------
// mupen64plus.cfg
// ---------------------------------------------------------------------------

pub open spec fn fullscreen_line() -> Seq<char> {
    "Fullscreen = True"@
}

/// Rewriting one line of `mupen64plus.cfg`: inside `[Video-General]`, whether a
/// `Fullscreen` setting has been seen, and the lines written so far.  Every
/// `Fullscreen...` line of that section becomes `Fullscreen = True`, and a section
/// without one gets it at its end.
pub open spec fn cfg_step(st: (bool, bool, Seq<Seq<char>>), line: Seq<char>) -> (
    bool,
    bool,
    Seq<Seq<char>>,
) {
    let t = trim(line);
    let header = t.len() > 0 && t[0] == '[' && t.last() == ']';
    let out = if header && st.0 && !st.1 {
        st.2.push(fullscreen_line())
    } else {
        st.2
    };
    let inside = if header {
        t == "[Video-General]"@
    } else {
        st.0
    };
    let found = if header {
        false
    } else {
        st.1
    };
    if inside && starts_with(t, "Fullscreen"@) {
        (inside, true, out.push(fullscreen_line()))
    } else {
        (inside, found, out.push(line))
    }
}

pub open spec fn cfg_run(lines: Seq<Seq<char>>) -> (bool, bool, Seq<Seq<char>>)
    decreases lines.len(),
{
    if lines.len() == 0 {
        (false, false, Seq::<Seq<char>>::empty())
    } else {
        cfg_step(cfg_run(lines.drop_last()), lines.last())
    }
}

/// The text of `mupen64plus.cfg` with full screen turned on, its lines joined by
/// newlines.
pub open spec fn fullscreen_cfg(content: Seq<char>) -> Seq<char> {
    let st = cfg_run(text_lines(content));
    let out = if st.0 && !st.1 {
        st.2.push(fullscreen_line())
    } else {
        st.2
    };
    join_with(out, "\n"@)
}

/// The new text of a `mupen64plus.cfg` with text `content` that makes simple64 start
/// in full screen, or nothing when the text already does.
pub fn ensure_fullscreen_config(content: &str) -> (r: Option<String>)
    ensures
        fullscreen_cfg(content@) == content@ ==> r is None,
        fullscreen_cfg(content@) != content@ ==> (r matches Some(t) && t@ == fullscreen_cfg(
            content@,
        )),
{
    let c = chars_of(content);
    let lines = split_lines(c.as_slice());
    let ghost lv = vecs_view(lines@);
    let video = chars_of("[Video-General]");
    let key = chars_of("Fullscreen");
    let on = chars_of("Fullscreen = True");
    let mut inside = false;
    let mut found = false;
    let mut out: Vec<Vec<char>> = Vec::new();
    let mut i: usize = 0;
    assert(lv.take(0) =~= Seq::<Seq<char>>::empty());
    while i < lines.len()
        invariant
            i <= lines@.len(),
            lv == vecs_view(lines@),
            lv == text_lines(content@),
            video@ == "[Video-General]"@,
            key@ == "Fullscreen"@,
            on@ == fullscreen_line(),
            (inside, found, vecs_view(out@)) == cfg_run(lv.take(i as int)),
        decreases lines@.len() - i,
    {
        assert(lv.take(i + 1).drop_last() =~= lv.take(i as int));
        assert(lv.take(i + 1).last() == lines@[i as int]@);
        let line = &lines[i];
        let t = trim_chars(line.as_slice());
        let header = t.len() > 0 && t[0] == '[' && t[t.len() - 1] == ']';
        if header {
            if inside && !found {
                let ghost b = vecs_view(out@);
                out.push(slice_chars(on.as_slice(), 0, on.len()));
                assert(on@.subrange(0, on@.len() as int) =~= on@);
                assert(vecs_view(out@) =~= b.push(on@));
            }
            inside = chars_eq(t.as_slice(), video.as_slice());
            found = false;
        }
        let ghost b = vecs_view(out@);
        if inside && has_prefix(t.as_slice(), key.as_slice()) {
            out.push(slice_chars(on.as_slice(), 0, on.len()));
            assert(on@.subrange(0, on@.len() as int) =~= on@);
            assert(vecs_view(out@) =~= b.push(on@));
            found = true;
        } else {
            out.push(slice_chars(line.as_slice(), 0, line.len()));
            assert(line@.subrange(0, line@.len() as int) =~= line@);
            assert(vecs_view(out@) =~= b.push(line@));
        }
        i += 1;
    }
    assert(lv.take(lines@.len() as int) =~= lv);
    if inside && !found {
        let ghost b = vecs_view(out@);
        out.push(slice_chars(on.as_slice(), 0, on.len()));
        assert(on@.subrange(0, on@.len() as int) =~= on@);
        assert(vecs_view(out@) =~= b.push(on@));
    }
    let joined = join_chars(&out, chars_of("\n").as_slice());
    if chars_eq(joined.as_slice(), c.as_slice()) {
        None
    } else {
        Some(string_of(joined.as_slice()))
    }
}

} // verus!
