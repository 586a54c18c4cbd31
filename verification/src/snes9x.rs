//! SNES games for the snes9x emulator: which files are ROMs, where the emulator's
//! configuration says the ROMs are, and the launcher entry of each ROM.
use vstd::prelude::*;

use crate::model::AppEntry;
use crate::paths::{extension, lower_extension_of};
use crate::launcher::strings_view;
use crate::roms::{
    answered, first_yes, chars_one_of, concat, cover_choice_ok, launch_key_for, one_of, quoted_command,
    quoted_command_of, rom_entry_ok, rom_launch_key, rom_title, title_from_filename,
};
use crate::text::{
    ascii_lower, chars_eq, chars_of, contains_chars, contains_seq, find_seq, first_occurrence,
    has_prefix, has_suffix, lower_chars, ltrim_char, replace_all, replace_all_chars, slice_chars,
    split_lines, starts_with, ends_with, string_of, text_lines, trim, trim_char, trim_char_chars,
    trim_chars, unicode_lower, vecs_view,
};

verus! {

/// The file extensions of SNES ROMs (compared in lower case).
pub open spec fn snes_extensions() -> Seq<Seq<char>> {
    seq!["sfc"@, "smc"@, "fig"@, "swc"@, "bs"@, "st"@]
}

/// Is the file at `path` a SNES ROM, judged by its extension in any case?
pub fn is_valid_extension(path: &str) -> (r: bool)
    ensures
        r == (extension(path@) is Some && one_of(
            ascii_lower(extension(path@)->0),
            snes_extensions(),
        )),
{
    let mut set: Vec<Vec<char>> = Vec::new();
    set.push(chars_of("sfc"));
    set.push(chars_of("smc"));
    set.push(chars_of("fig"));
    set.push(chars_of("swc"));
    set.push(chars_of("bs"));
    set.push(chars_of("st"));
    assert(vecs_view(set@) =~= snes_extensions());
    match lower_extension_of(chars_of(path).as_slice()) {
        Some(e) => chars_one_of(e.as_slice(), &set),
        None => false,
    }
}

/// The game's title: the ROM's file stem without the parts in `( )` and `[ ]`.
pub fn extract_title_from_filename(path: &str) -> (r: String)
    requires
        path@.len() < i32::MAX,
    ensures
        r@ == rom_title(path@, true),
{
    title_from_filename(path, true)
}

/// The cover beside the ROM: the first of `game.png`, `game.jpg`, `game.jpeg`,
/// `game.webp` that `is_present` reports.
pub fn find_cover<F: Fn(&str) -> bool>(rom_path: &str, is_present: F) -> (r: Option<String>)
    requires
        forall|s: &str| call_requires(is_present, (s,)),
    ensures
        cover_choice_ok(rom_path@, is_present, r),
{
    crate::roms::find_cover(rom_path, is_present)
}

/// The command that starts the emulator on a ROM: plain `snes9x` is asked for full
/// screen, `snes9x-gtk` is set up for it in its configuration.
pub open spec fn snes9x_command(binary: Seq<char>, path: Seq<char>) -> Seq<char> {
    if binary == "snes9x"@ {
        quoted_command(binary + " -fullscreen "@, path)
    } else {
        quoted_command(binary + "  "@, path)
    }
}

/// The launcher entry of the ROM at `path`, started with `emulator_binary`.
pub fn process_rom<F: Fn(&str) -> bool>(path: &str, emulator_binary: &str, is_present: F) -> (r:
    Option<AppEntry>)
    requires
        path@.len() < i32::MAX,
        forall|s: &str| call_requires(is_present, (s,)),
    ensures
        r matches Some(e) && rom_entry_ok(
            e,
            rom_title(path@, true),
            snes9x_command(emulator_binary@, path@),
            e.icon,
            rom_launch_key("snes9x"@, path@),
        ) && cover_choice_ok(path@, is_present, e.icon),
{
    let title = extract_title_from_filename(path);
    let cover = find_cover(path, is_present);
    let p = chars_of(path);
    let b = chars_of(emulator_binary);
    let command = if chars_eq(b.as_slice(), chars_of("snes9x").as_slice()) {
        let before = concat(b.as_slice(), chars_of(" -fullscreen ").as_slice());
        quoted_command_of(string_of(before.as_slice()).as_str(), p.as_slice())
    } else {
        let before = concat(b.as_slice(), chars_of("  ").as_slice());
        quoted_command_of(string_of(before.as_slice()).as_str(), p.as_slice())
    };
    let key = launch_key_for("snes9x", p.as_slice());
    Some(AppEntry::new(title, command, cover).with_launch_key(key))
}

/// Which emulator binary to start: `snes9x-gtk` when installed, else `snes9x`.
pub fn get_snes9x_binary(gtk_found: bool, plain_found: bool) -> (r: Option<String>)
    ensures
        gtk_found ==> (r matches Some(b) && b@ == "snes9x-gtk"@),
        !gtk_found && plain_found ==> (r matches Some(b) && b@ == "snes9x"@),
        !gtk_found && !plain_found ==> r is None,
{
    if gtk_found {
        Some(string_of(chars_of("snes9x-gtk").as_slice()))
    } else if plain_found {
        Some(string_of(chars_of("snes9x").as_slice()))
    } else {
        None
    }
}

// ---------------------------------------------------------------------------
// Configuration
// ---------------------------------------------------------------------------

/// `PathBuf::join` with a relative path: a separator goes between unless the base is
/// empty or already ends in one.
pub open spec fn path_join(base: Seq<char>, rest: Seq<char>) -> Seq<char> {
    if base.len() > 0 && base.last() != '/' {
        base + "/"@ + rest
    } else {
        base + rest
    }
}

pub fn path_join_of(base: &[char], rest: &[char]) -> (r: Vec<char>)
    ensures
        r@ == path_join(base@, rest@),
{
    if base.len() > 0 && base[base.len() - 1] != '/' {
        let b = concat(base, chars_of("/").as_slice());
        concat(b.as_slice(), rest)
    } else {
        concat(base, rest)
    }
}

/// A leading `~` stands for the home directory, when there is one.
pub open spec fn expand_tilde(v: Seq<char>, home: Option<Seq<char>>) -> Seq<char> {
    if v.len() > 0 && v[0] == '~' {
        match home {
            Some(h) => path_join(h, ltrim_char(v.drop_first(), '/')),
            None => v,
        }
    } else {
        v
    }
}

pub fn expand_tilde_of(v: &[char], home: &Option<String>) -> (r: Vec<char>)
    ensures
        r@ == expand_tilde(
            v@,
            match home {
                Some(h) => Some(h@),
                None => None,
            },
        ),
{
    if v.len() > 0 && v[0] == '~' {
        match home {
            Some(h) => {
                let rest = slice_chars(v, 1, v.len());
                assert(rest@ =~= v@.drop_first());
                let k = crate::launcher::strip_repeated_at(rest.as_slice(), chars_of("/").as_slice());
                proof {
                    lemma_strip_slashes(rest@);
                }
                let tail = slice_chars(rest.as_slice(), k, rest.len());
                assert(tail@ =~= rest@.skip(k as int));
                path_join_of(chars_of(h.as_str()).as_slice(), tail.as_slice())
            },
            None => slice_chars(v, 0, v.len()),
        }
    } else {
        let r = slice_chars(v, 0, v.len());
        assert(r@ =~= v@);
        r
    }
}

/// Removing `/` from the front as a one-character pattern removes the same as
/// trimming the character.
proof fn lemma_strip_slashes(s: Seq<char>)
    ensures
        crate::launcher::strip_repeated(s, "/"@) == ltrim_char(s, '/'),
    decreases s.len(),
{
    reveal_strlit("/");
    if s.len() > 0 && s[0] == '/' {
        assert(s.take(1) =~= "/"@);
        lemma_strip_slashes(s.skip(1));
        assert(s.skip(1) =~= s.drop_first());
        let k = crate::text::lead_count(s.drop_first(), '/') as int;
        crate::text::lemma_lead_count_bound(s.drop_first(), '/');
        assert(crate::text::lead_count(s, '/') == 1 + k);
        assert(s.skip(1 + k) =~= s.drop_first().skip(k as int));
    } else {
        assert("/"@.len() == 1 && "/"@[0] == '/');
        if crate::text::starts_with(s, "/"@) {
            assert(s.take(1)[0] == s[0]);
        }
        assert(crate::text::lead_count(s, '/') == 0);
        assert(ltrim_char(s, '/') =~= s);
    }
}


/// The directory named by a `LastDirectory = value` line: the value after the first
/// `=`, trimmed, without surrounding double and then single quotes; nothing when
/// that leaves it empty or the line has no `=`.
pub open spec fn last_directory_value(t: Seq<char>) -> Option<Seq<char>> {
    match first_occurrence(t, seq!['=']) {
        Some(eq) => {
            let v = trim_char(trim_char(trim(t.skip(eq + 1)), '"'), '\'');
            if v.len() > 0 {
                Some(v)
            } else {
                None
            }
        },
        None => None,
    }
}

/// Reading one line of `snes9x.conf`: whether the `[Files]` section is open, and the
/// directories named so far.
pub open spec fn snes_config_step(
    st: (bool, Seq<Seq<char>>),
    line: Seq<char>,
    home: Option<Seq<char>>,
) -> (bool, Seq<Seq<char>>) {
    let t = trim(line);
    if t.len() > 0 && (t[0] == ';' || t[0] == '#') {
        st
    } else if t.len() > 0 && t[0] == '[' && t.last() == ']' {
        (t == "[Files]"@, st.1)
    } else if st.0 && starts_with(unicode_lower(t), "lastdirectory"@) {
        match last_directory_value(t) {
            Some(v) => (st.0, st.1.push(expand_tilde(v, home))),
            None => st,
        }
    } else {
        st
    }
}

pub open spec fn snes_config_run(lines: Seq<Seq<char>>, home: Option<Seq<char>>) -> (
    bool,
    Seq<Seq<char>>,
)
    decreases lines.len(),
{
    if lines.len() == 0 {
        (false, Seq::<Seq<char>>::empty())
    } else {
        snes_config_step(snes_config_run(lines.drop_last(), home), lines.last(), home)
    }
}

/// The ROM directories that `snes9x.conf` names, in order: every `LastDirectory` of
/// its `[Files]` section (the key in any case), `~` standing for `home`.
pub open spec fn snes_config_dirs(content: Seq<char>, home: Option<Seq<char>>) -> Seq<Seq<char>> {
    snes_config_run(text_lines(content), home).1
}

pub open spec fn opt_view(o: Option<String>) -> Option<Seq<char>> {
    match o {
        Some(h) => Some(h@),
        None => None,
    }
}

proof fn lemma_snes_run_prefix(lines: Seq<Seq<char>>, k: int, h: Option<Seq<char>>)
    requires
        0 <= k <= lines.len(),
    ensures
        snes_config_run(lines.take(k), h).1.len() <= snes_config_run(lines, h).1.len(),
        forall|j: int|
            0 <= j < snes_config_run(lines.take(k), h).1.len() ==> snes_config_run(lines, h).1[j]
                == snes_config_run(lines.take(k), h).1[j],
    decreases lines.len(),
{
    if k == lines.len() {
        assert(lines.take(k) =~= lines);
    } else {
        lemma_snes_run_prefix(lines.drop_last(), k, h);
        assert(lines.drop_last().take(k) =~= lines.take(k));
    }
}

/// The ROM directory of a `snes9x.conf` with text `content`: the first directory it
/// names that `is_dir` reports to be an existing directory.
pub fn rom_dirs_from_config<F: Fn(&str) -> bool>(content: &str, home: Option<String>, is_dir: F) -> (r:
    Vec<String>)
    requires
        forall|s: &str| call_requires(is_dir, (s,)),
    ensures
        first_yes(snes_config_dirs(content@, opt_view(home)), is_dir, strings_view(r@)),
{
    let lines = split_lines(chars_of(content).as_slice());
    let ghost h = opt_view(home);
    let ghost lv = vecs_view(lines@);
    let mut in_files = false;
    let ghost mut cands: Seq<Seq<char>> = Seq::empty();
    let lower_key = chars_of("lastdirectory");
    let files = chars_of("[Files]");
    let eq = vec!['='];
    assert(eq@ =~= seq!['=']);
    let mut i: usize = 0;
    assert(lv.take(0) =~= Seq::<Seq<char>>::empty());
    while i < lines.len()
        invariant
            i <= lines@.len(),
            lv == vecs_view(lines@),
            lv == text_lines(content@),
            h == opt_view(home),
            lower_key@ == "lastdirectory"@,
            files@ == "[Files]"@,
            eq@ == seq!['='],
            forall|s: &str| call_requires(is_dir, (s,)),
            (in_files, cands) == snes_config_run(lv.take(i as int), h),
            forall|j: int| 0 <= j < cands.len() ==> answered(is_dir, #[trigger] cands[j], false),
        decreases lines@.len() - i,
    {
        assert(lv.take(i + 1).drop_last() =~= lv.take(i as int));
        assert(lv.take(i + 1).last() == lines@[i as int]@);
        let t = trim_chars(lines[i].as_slice());
        if t.len() > 0 && (t[0] == ';' || t[0] == '#') {
        } else if t.len() > 0 && t[0] == '[' && t[t.len() - 1] == ']' {
            in_files = chars_eq(t.as_slice(), files.as_slice());
        } else if in_files && has_prefix(lower_chars(t.as_slice()).as_slice(), lower_key.as_slice()) {
            let value = match find_seq(t.as_slice(), eq.as_slice()) {
                Some(e) => {
                    let rest = slice_chars(t.as_slice(), e + 1, t.len());
                    assert(rest@ =~= t@.skip(e + 1));
                    let v = trim_char_chars(
                        trim_char_chars(trim_chars(rest.as_slice()).as_slice(), '"').as_slice(),
                        '\'',
                    );
                    if v.len() > 0 {
                        Some(v)
                    } else {
                        None
                    }
                },
                None => None,
            };
            match value {
                Some(v) => {
                    let dir = string_of(expand_tilde_of(v.as_slice(), &home).as_slice());
                    proof {
                        cands = cands.push(dir@);
                    }
                    let yes = is_dir(dir.as_str());
                    assert(answered(is_dir, dir@, yes));
                    if yes {
                        let mut r: Vec<String> = Vec::new();
                        r.push(dir);
                        proof {
                            let full = snes_config_dirs(content@, h);
                            assert(cands == snes_config_run(lv.take(i + 1), h).1);
                            lemma_snes_run_prefix(lv, i + 1, h);
                            let k = cands.len() - 1;
                            assert(full[k] == dir@);
                            assert forall|j: int| 0 <= j < k implies answered(
                                is_dir,
                                #[trigger] full[j],
                                false,
                            ) by {
                                assert(full[j] == cands[j]);
                            }
                            assert(strings_view(r@) =~= seq![dir@]);
                        }
                        return r;
                    }
                },
                None => {},
            }
        }
        i += 1;
    }
    assert(lv.take(lines@.len() as int) =~= lv);
    Vec::new()
}


/// The ROM directory of a `snes9x.conf` with text `content`, `~` standing for the
/// user's home directory as the `directories` crate finds it.
pub fn parse_snes9x_config<F: Fn(&str) -> bool>(content: &str, is_dir: F) -> (r: Vec<String>)
    requires
        forall|s: &str| call_requires(is_dir, (s,)),
    ensures
        exists|home: Option<Seq<char>>|
            first_yes(snes_config_dirs(content@, home), is_dir, #[trigger] strings_view(r@)),
{
    let home = crate::user_dirs::home_dir();
    let ghost h = opt_view(home);
    let r = rom_dirs_from_config(content, home, is_dir);
    assert(first_yes(snes_config_dirs(content@, h), is_dir, strings_view(r@)));
    r
}

/// Where snes9x keeps its configuration: under the configuration directory, then the
/// older place in the home directory.
pub open spec fn snes9x_config_paths_from(config_dir: Seq<char>, home: Seq<char>) -> Seq<Seq<char>> {
    seq![path_join(config_dir, "snes9x/snes9x.conf"@), path_join(home, ".snes9x/snes9x.conf"@)]
}

/// The places of snes9x's configuration file for this user (none when the user's
/// directories cannot be found).
pub fn get_snes9x_config_paths() -> (r: Vec<String>)
    ensures
        r@.len() == 0 || exists|c: Seq<char>, h: Seq<char>|
            c.len() > 0 && h.len() > 0 && strings_view(r@) == #[trigger] snes9x_config_paths_from(c, h),
{
    let mut r: Vec<String> = Vec::new();
    match crate::user_dirs::base_dirs() {
        Some(d) => {
            let c = crate::user_dirs::config_dir_of(&d);
            let h = crate::user_dirs::home_dir_of(&d);
            let a = path_join_of(chars_of(c.as_str()).as_slice(), chars_of("snes9x/snes9x.conf").as_slice());
            let b = path_join_of(chars_of(h.as_str()).as_slice(), chars_of(".snes9x/snes9x.conf").as_slice());
            r.push(string_of(a.as_slice()));
            r.push(string_of(b.as_slice()));
            assert(strings_view(r@) =~= snes9x_config_paths_from(c@, h@));
        },
        None => {},
    }
    r
}

/// What to do with one snes9x configuration file so that the emulator opens in full
/// screen.
#[derive(Debug)]
pub enum ConfigEdit {
    /// The setting is already on: nothing more to do.
    Done,
    /// Write this text back, with the setting turned on, and stop.
    Write(String),
    /// The file does not hold the setting: look at the next one.
    Next,
}

pub open spec fn fullscreen_on() -> Seq<char> {
    "FullscreenOnOpen        = true"@
}

pub open spec fn fullscreen_off() -> Seq<char> {
    "FullscreenOnOpen        = false"@
}

/// The edit for a configuration file with text `content`.
pub fn fullscreen_on_open_edit(content: &str) -> (r: ConfigEdit)
    ensures
        contains_seq(content@, fullscreen_on()) ==> r is Done,
        !contains_seq(content@, fullscreen_on()) && contains_seq(content@, fullscreen_off()) ==> (
        r matches ConfigEdit::Write(t) && t@ == replace_all(
            content@,
            fullscreen_off(),
            fullscreen_on(),
        )),
        !contains_seq(content@, fullscreen_on()) && !contains_seq(content@, fullscreen_off())
            ==> r is Next,
{
    let c = chars_of(content);
    let on = chars_of("FullscreenOnOpen        = true");
    let off = chars_of("FullscreenOnOpen        = false");
    if contains_chars(c.as_slice(), on.as_slice()) {
        ConfigEdit::Done
    } else if contains_chars(c.as_slice(), off.as_slice()) {
        proof {
            reveal_strlit("FullscreenOnOpen        = false");
        }
        ConfigEdit::Write(string_of(replace_all_chars(c.as_slice(), off.as_slice(), on.as_slice()).as_slice()))
    } else {
        ConfigEdit::Next
    }
}

} // verus!
