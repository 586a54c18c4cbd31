//! Games installed through Steam and Heroic: reading Steam's library and app
//! manifests (Valve's KeyValues text), leaving out runtimes and tools, and the
//! commands that start the games.
use vstd::prelude::*;

use crate::launcher::{char_vecs_view, strings_view};
use crate::model::AppEntry;
use crate::paths::{file_name, file_name_of, file_stem, file_stem_of};
use crate::roms::concat;
use crate::snes9x::{path_join, path_join_of};
use crate::text::{
    ascii_lower, chars_eq, chars_of, contains_chars, contains_seq, ends_with, eq_ignore_ascii_case,
    eq_ignore_case_chars, has_prefix, has_suffix, lower_chars, replace_all, replace_all_chars,
    slice_chars, split_lines, starts_with, string_of, text_lines, trim, trim_chars, unicode_lower,
    vecs_view,
};

verus! {

// ---------------------------------------------------------------------------
// KeyValues lines
// ---------------------------------------------------------------------------

/// Reading a line of KeyValues text: the strings finished so far, the one being read,
/// whether inside quotes, and whether the last character was a backslash inside them.
pub open spec fn quote_step(st: (Seq<Seq<char>>, Seq<char>, bool, bool), ch: char) -> (
    Seq<Seq<char>>,
    Seq<char>,
    bool,
    bool,
) {
    let (items, cur, in_quotes, escape) = st;
    if escape {
        (items, cur.push(ch), in_quotes, false)
    } else if in_quotes && ch == '\\' {
        (items, cur, in_quotes, true)
    } else if ch == '"' {
        if in_quotes {
            (items.push(cur), Seq::<char>::empty(), false, false)
        } else {
            (items, cur, true, false)
        }
    } else if in_quotes {
        (items, cur.push(ch), in_quotes, false)
    } else {
        st
    }
}

pub open spec fn quote_run(s: Seq<char>) -> (Seq<Seq<char>>, Seq<char>, bool, bool)
    decreases s.len(),
{
    if s.len() == 0 {
        (Seq::<Seq<char>>::empty(), Seq::<char>::empty(), false, false)
    } else {
        quote_step(quote_run(s.drop_last()), s.last())
    }
}

/// The quoted strings of a line, in order, a backslash inside quotes taking the next
/// character as it is.  An unclosed string is dropped.
pub open spec fn quoted_strings(line: Seq<char>) -> Seq<Seq<char>> {
    quote_run(line).0
}

fn quoted_strings_of(line: &[char]) -> (r: Vec<Vec<char>>)
    ensures
        vecs_view(r@) == quoted_strings(line@),
{
    let mut items: Vec<Vec<char>> = Vec::new();
    let mut cur: Vec<char> = Vec::new();
    let mut in_quotes = false;
    let mut escape = false;
    let n = line.len();
    let mut i: usize = 0;
    assert(line@.take(0) =~= Seq::<char>::empty());
    while i < n
        invariant
            n == line@.len(),
            i <= n,
            (vecs_view(items@), cur@, in_quotes, escape) == quote_run(line@.take(i as int)),
        decreases n - i,
    {
        let ch = line[i];
        assert(line@.take(i + 1).drop_last() =~= line@.take(i as int));
        if escape {
            cur.push(ch);
            escape = false;
        } else if in_quotes && ch == '\\' {
            escape = true;
        } else if ch == '"' {
            if in_quotes {
                let ghost b = vecs_view(items@);
                let ghost c = cur@;
                items.push(cur);
                cur = Vec::new();
                assert(vecs_view(items@) =~= b.push(c));
                assert(cur@ =~= Seq::<char>::empty());
                in_quotes = false;
            } else {
                in_quotes = true;
            }
        } else if in_quotes {
            cur.push(ch);
        }
        i += 1;
    }
    assert(line@.take(n as int) =~= line@);
    items
}

/// The quoted strings of a KeyValues line.
pub fn extract_quoted_strings(line: &str) -> (r: Vec<String>)
    ensures
        strings_view(r@) == quoted_strings(line@),
{
    let v = quoted_strings_of(chars_of(line).as_slice());
    crate::launcher::strings_of(&v)
}

// ---------------------------------------------------------------------------
// App manifests
// ---------------------------------------------------------------------------

/// What an app manifest says of a game.
#[derive(Debug, Clone)]
pub struct SteamManifest {
    pub appid: String,
    pub name: String,
}

/// The last value given to `key` on a line of the text, if any.
pub open spec fn last_value(lines: Seq<Seq<char>>, key: Seq<char>) -> Option<Seq<char>>
    decreases lines.len(),
{
    if lines.len() == 0 {
        None
    } else {
        let q = quoted_strings(lines.last());
        if q.len() >= 2 && q[0] == key {
            Some(q[1])
        } else {
            last_value(lines.drop_last(), key)
        }
    }
}

/// An app manifest's `appid` (empty when absent) and `name`, trimmed; nothing when
/// the name is missing or blank.
pub open spec fn manifest_spec(contents: Seq<char>) -> Option<(Seq<char>, Seq<char>)> {
    let lines = text_lines(contents);
    match last_value(lines, "name"@) {
        Some(n) => if trim(n).len() > 0 {
            Some(
                (
                    match last_value(lines, "appid"@) {
                        Some(a) => a,
                        None => Seq::<char>::empty(),
                    },
                    trim(n),
                ),
            )
        } else {
            None
        },
        None => None,
    }
}

pub fn parse_steam_manifest(contents: &str) -> (r: Option<SteamManifest>)
    ensures
        match r {
            Some(m) => manifest_spec(contents@) == Some((m.appid@, m.name@)),
            None => manifest_spec(contents@) is None,
        },
{
    let lines = split_lines(chars_of(contents).as_slice());
    let ghost lv = vecs_view(lines@);
    let appid_key = chars_of("appid");
    let name_key = chars_of("name");
    proof {
        reveal_strlit("appid");
        reveal_strlit("name");
        assert("appid"@ != "name"@) by {
            assert("appid"@.len() != "name"@.len());
        }
    }
    let mut appid: Option<Vec<char>> = None;
    let mut name: Option<Vec<char>> = None;
    let mut i: usize = 0;
    assert(lv.take(0) =~= Seq::<Seq<char>>::empty());
    while i < lines.len()
        invariant
            i <= lines@.len(),
            lv == vecs_view(lines@),
            lv == text_lines(contents@),
            appid_key@ == "appid"@,
            name_key@ == "name"@,
            "appid"@ != "name"@,
            match appid {
                Some(a) => last_value(lv.take(i as int), "appid"@) == Some(a@),
                None => last_value(lv.take(i as int), "appid"@) is None,
            },
            match name {
                Some(a) => last_value(lv.take(i as int), "name"@) == Some(a@),
                None => last_value(lv.take(i as int), "name"@) is None,
            },
        decreases lines@.len() - i,
    {
        assert(lv.take(i + 1).drop_last() =~= lv.take(i as int));
        assert(lv.take(i + 1).last() == lines@[i as int]@);
        let parts = quoted_strings_of(lines[i].as_slice());
        if parts.len() >= 2 {
            assert(vecs_view(parts@)[0] == parts@[0]@);
            assert(vecs_view(parts@)[1] == parts@[1]@);
            if chars_eq(parts[0].as_slice(), appid_key.as_slice()) {
                appid = Some(slice_chars(parts[1].as_slice(), 0, parts[1].len()));
                assert(parts@[1]@.subrange(0, parts@[1]@.len() as int) =~= parts@[1]@);
            } else if chars_eq(parts[0].as_slice(), name_key.as_slice()) {
                name = Some(slice_chars(parts[1].as_slice(), 0, parts[1].len()));
                assert(parts@[1]@.subrange(0, parts@[1]@.len() as int) =~= parts@[1]@);
            }
        }
        i += 1;
    }
    assert(lv.take(lines@.len() as int) =~= lv);
    let n = match name {
        Some(n) => trim_chars(n.as_slice()),
        None => return None,
    };
    if n.len() == 0 {
        return None;
    }
    let a = match appid {
        Some(a) => a,
        None => Vec::new(),
    };
    Some(SteamManifest { appid: string_of(a.as_slice()), name: string_of(n.as_slice()) })
}

/// Is the file at `path` an app manifest (`appmanifest_*.acf`)?
pub fn is_manifest_file(path: &str) -> (r: bool)
    ensures
        r == (file_name(path@) matches Some(n) && starts_with(n, "appmanifest_"@) && ends_with(
            n,
            ".acf"@,
        )),
{
    match file_name_of(chars_of(path).as_slice()) {
        Some(n) => has_prefix(n.as_slice(), chars_of("appmanifest_").as_slice()) && has_suffix(
            n.as_slice(),
            chars_of(".acf").as_slice(),
        ),
        None => false,
    }
}

pub open spec fn ascii_digits(s: Seq<char>) -> bool {
    forall|i: int| 0 <= i < s.len() ==> 48 <= (#[trigger] s[i] as u32) && (s[i] as u32) <= 57
}

fn ascii_digits_of(s: &[char]) -> (r: bool)
    ensures
        r == ascii_digits(s@),
{
    let mut i: usize = 0;
    while i < s.len()
        invariant
            i <= s@.len(),
            forall|j: int| 0 <= j < i ==> 48 <= (#[trigger] s@[j] as u32) && (s@[j] as u32) <= 57,
        decreases s@.len() - i,
    {
        let u = s[i] as u32;
        if u < 48 || u > 57 {
            return false;
        }
        i += 1;
    }
    true
}

/// The app id in a manifest's file name (`appmanifest_570.acf` gives `570`), when
/// it is all digits.
pub open spec fn appid_from_path_spec(path: Seq<char>) -> Option<Seq<char>> {
    match file_stem(path) {
        Some(stem) => if starts_with(stem, "appmanifest_"@) && ascii_digits(
            stem.skip(12),
        ) {
            Some(stem.skip(12))
        } else {
            None
        },
        None => None,
    }
}

pub fn appid_from_manifest_path(path: &str) -> (r: Option<String>)
    ensures
        match r {
            Some(a) => appid_from_path_spec(path@) == Some(a@),
            None => appid_from_path_spec(path@) is None,
        },
{
    let stem = match file_stem_of(chars_of(path).as_slice()) {
        Some(s) => s,
        None => return None,
    };
    let prefix = chars_of("appmanifest_");
    if !has_prefix(stem.as_slice(), prefix.as_slice()) {
        return None;
    }
    proof {
        reveal_strlit("appmanifest_");
    }
    let rest = slice_chars(stem.as_slice(), 12, stem.len());
    assert(rest@ =~= stem@.skip(12));
    if ascii_digits_of(rest.as_slice()) {
        Some(string_of(rest.as_slice()))
    } else {
        None
    }
}

// ---------------------------------------------------------------------------
// Library folders
// ---------------------------------------------------------------------------

/// A library path as written in `libraryfolders.vdf`: doubled backslashes made single.
pub open spec fn normalized_vdf_path(v: Seq<char>) -> Seq<char> {
    replace_all(v, "\\\\"@, "\\"@)
}

pub fn normalize_vdf_path(value: &str) -> (r: String)
    ensures
        r@ == normalized_vdf_path(value@),
{
    let from = chars_of("\\\\");
    proof {
        reveal_strlit("\\\\");
    }
    string_of(replace_all_chars(chars_of(value).as_slice(), from.as_slice(), chars_of("\\").as_slice()).as_slice())
}

pub open spec fn library_run(lines: Seq<Seq<char>>) -> Seq<Seq<char>>
    decreases lines.len(),
{
    if lines.len() == 0 {
        Seq::<Seq<char>>::empty()
    } else {
        let rest = library_run(lines.drop_last());
        let q = quoted_strings(lines.last());
        if q.len() >= 2 && (eq_ignore_ascii_case(q[0], "path"@) || ascii_digits(q[0])) {
            rest.push(normalized_vdf_path(q[1]))
        } else {
            rest
        }
    }
}

/// The library folders in `libraryfolders.vdf`: the value of every `path` key (in any
/// case) or numbered key, in order.
pub fn parse_library_folders(contents: &str) -> (r: Vec<String>)
    ensures
        strings_view(r@) == library_run(text_lines(contents@)),
{
    let lines = split_lines(chars_of(contents).as_slice());
    let ghost lv = vecs_view(lines@);
    let path_key = chars_of("path");
    let mut r: Vec<String> = Vec::new();
    let mut i: usize = 0;
    assert(lv.take(0) =~= Seq::<Seq<char>>::empty());
    while i < lines.len()
        invariant
            i <= lines@.len(),
            lv == vecs_view(lines@),
            lv == text_lines(contents@),
            path_key@ == "path"@,
            strings_view(r@) == library_run(lv.take(i as int)),
        decreases lines@.len() - i,
    {
        assert(lv.take(i + 1).drop_last() =~= lv.take(i as int));
        assert(lv.take(i + 1).last() == lines@[i as int]@);
        let parts = quoted_strings_of(lines[i].as_slice());
        if parts.len() >= 2 {
            assert(vecs_view(parts@)[0] == parts@[0]@);
            assert(vecs_view(parts@)[1] == parts@[1]@);
            if eq_ignore_case_chars(parts[0].as_slice(), path_key.as_slice()) || ascii_digits_of(
                parts[0].as_slice(),
            ) {
                let ghost b = strings_view(r@);
                let p = normalize_vdf_path(string_of(parts[1].as_slice()).as_str());
                r.push(p);
                assert(strings_view(r@) =~= b.push(normalized_vdf_path(parts@[1]@)));
            }
        }
        i += 1;
    }
    assert(lv.take(lines@.len() as int) =~= lv);
    r
}

// ---------------------------------------------------------------------------
// Runtimes and tools
// ---------------------------------------------------------------------------

/// Steam's runtimes, redistributables and compatibility tools, which are no games.
pub open spec fn ignored_app(name: Seq<char>, id: Seq<char>) -> bool {
    let l = unicode_lower(name);
    ||| id == "228980"@
    ||| id == "1391110"@
    ||| id == "1628350"@
    ||| id == "1070560"@
    ||| id == "1493710"@
    ||| id == "1887720"@
    ||| contains_seq(l, "proton"@)
    ||| contains_seq(l, "steam linux runtime"@)
    ||| contains_seq(l, "steamworks common redist"@)
    ||| contains_seq(l, "galaxy common redist"@)
    ||| l == "dxvk"@
    ||| l == "vkd3d"@
}

/// Is the app with this name and id a runtime or tool rather than a game?
pub fn is_ignored_app(name: &str, id: &str) -> (r: bool)
    ensures
        r == ignored_app(name@, id@),
{
    let i = chars_of(id);
    let ids = [
        chars_of("228980"),
        chars_of("1391110"),
        chars_of("1628350"),
        chars_of("1070560"),
        chars_of("1493710"),
        chars_of("1887720"),
    ];
    if chars_eq(i.as_slice(), ids[0].as_slice()) || chars_eq(i.as_slice(), ids[1].as_slice())
        || chars_eq(i.as_slice(), ids[2].as_slice()) || chars_eq(i.as_slice(), ids[3].as_slice())
        || chars_eq(i.as_slice(), ids[4].as_slice()) || chars_eq(i.as_slice(), ids[5].as_slice()) {
        return true;
    }
    let l = lower_chars(chars_of(name).as_slice());
    contains_chars(l.as_slice(), chars_of("proton").as_slice()) || contains_chars(
        l.as_slice(),
        chars_of("steam linux runtime").as_slice(),
    ) || contains_chars(l.as_slice(), chars_of("steamworks common redist").as_slice())
        || contains_chars(l.as_slice(), chars_of("galaxy common redist").as_slice()) || chars_eq(
        l.as_slice(),
        chars_of("dxvk").as_slice(),
    ) || chars_eq(l.as_slice(), chars_of("vkd3d").as_slice())
}

/// The launcher entry of a Steam game: started with `steam -applaunch <id>`,
/// remembered under `steam:<id>`, its cover art looked up by the app id.  The id in the manifest wins over the one in the
/// file name; without either, or for a runtime or tool, there is no entry.
pub fn steam_entry(appid_from_name: Option<String>, manifest: SteamManifest) -> (r: Option<AppEntry>)
    ensures
        ({
            let id = if manifest.appid@.len() == 0 && appid_from_name is Some {
                appid_from_name->0@
            } else {
                manifest.appid@
            };
            if id.len() == 0 || ignored_app(manifest.name@, id) {
                r is None
            } else {
                r matches Some(e) && e.name@ == manifest.name@ && e.command@ == "steam -applaunch "@
                    + id && e.icon is None && e.game_executable is None && (e.launch_key matches Some(
                    k,
                ) && k@ == "steam:"@ + id) && (e.steam_appid matches Some(a) && a@ == id)
            }
        }),
{
    let appid_empty = chars_of(manifest.appid.as_str()).len() == 0;
    let id = if appid_empty && appid_from_name.is_some() {
        match appid_from_name {
            Some(a) => a,
            None => manifest.appid,
        }
    } else {
        manifest.appid
    };
    if chars_of(id.as_str()).len() == 0 || is_ignored_app(manifest.name.as_str(), id.as_str()) {
        return None;
    }
    let idc = chars_of(id.as_str());
    let command = string_of(concat(chars_of("steam -applaunch ").as_slice(), idc.as_slice()).as_slice());
    let key = string_of(concat(chars_of("steam:").as_slice(), idc.as_slice()).as_slice());
    let appid = string_of(idc.as_slice());
    Some(AppEntry::new(manifest.name, command, None).with_launch_key(key).with_steam_appid(appid))
}

// ---------------------------------------------------------------------------
// Heroic commands
// ---------------------------------------------------------------------------

/// A byte that `encodeURIComponent` leaves as it is.
pub open spec fn unreserved(b: u8) -> bool {
    (48 <= b <= 57) || (65 <= b <= 90) || (97 <= b <= 122) || b == 45 || b == 95 || b == 46 || b
        == 126
}

pub open spec fn hex_digit(d: u8) -> char {
    if d < 10 {
        (48 + d) as char
    } else {
        (55 + d) as char
    }
}

pub open spec fn encode_bytes(b: Seq<u8>) -> Seq<char>
    decreases b.len(),
{
    if b.len() == 0 {
        Seq::<char>::empty()
    } else {
        let x = b.last();
        encode_bytes(b.drop_last()) + if unreserved(x) {
            seq![x as char]
        } else {
            seq!['%', hex_digit(x / 16), hex_digit(x % 16)]
        }
    }
}

/// Percent-encoding of the UTF-8 bytes of a text, leaving letters, digits and
/// `-_.~` as they are (upper-case hexadecimal).
pub open spec fn uri_component(s: Seq<char>) -> Seq<char> {
    encode_bytes(vstd::utf8::encode_utf8(s))
}

fn hex_of(d: u8) -> (c: char)
    requires
        d < 16,
    ensures
        c == hex_digit(d),
{
    if d < 10 {
        (48 + d) as char
    } else {
        (55 + d) as char
    }
}

pub fn encode_uri_component(input: &str) -> (r: String)
    ensures
        r@ == uri_component(input@),
{
    let bytes = input.as_bytes();
    let ghost bv = bytes@;
    assert(bv == vstd::utf8::encode_utf8(input@));
    let mut out: Vec<char> = Vec::new();
    let mut i: usize = 0;
    assert(bv.take(0) =~= Seq::<u8>::empty());
    while i < bytes.len()
        invariant
            i <= bv.len(),
            bv == bytes@,
            out@ == encode_bytes(bv.take(i as int)),
        decreases bv.len() - i,
    {
        let b = bytes[i];
        assert(bv.take(i + 1).drop_last() =~= bv.take(i as int));
        let ghost before = out@;
        if (48 <= b && b <= 57) || (65 <= b && b <= 90) || (97 <= b && b <= 122) || b == 45 || b
            == 95 || b == 46 || b == 126 {
            out.push(b as char);
            assert(out@ =~= before + seq![b as char]);
        } else {
            out.push('%');
            out.push(hex_of(b / 16));
            out.push(hex_of(b % 16));
            assert(out@ =~= before + seq!['%', hex_digit(b / 16), hex_digit(b % 16)]);
        }
        i += 1;
    }
    assert(bv.take(bv.len() as int) =~= bv);
    string_of(out.as_slice())
}

/// Runners that Heroic starts without naming a store.
pub open spec fn storeless(store: Seq<char>) -> bool {
    store.len() == 0 || store == "heroic"@ || store == "wine"@ || store == "native"@ || store
        == "proton"@ || store == "sideload"@
}

/// The command that asks Heroic to start a game.
pub open spec fn heroic_exec_spec(store: Seq<char>, app_name: Seq<char>) -> Seq<char> {
    if storeless(store) {
        "xdg-open heroic://launch/"@ + uri_component(app_name)
    } else {
        "xdg-open heroic://launch/"@ + store + "/"@ + uri_component(app_name)
    }
}

pub fn heroic_exec(store: &str, app_name: &str) -> (r: String)
    ensures
        r@ == heroic_exec_spec(store@, app_name@),
{
    let encoded = chars_of(encode_uri_component(app_name).as_str());
    let s = chars_of(store);
    let plain = s.len() == 0 || chars_eq(s.as_slice(), chars_of("heroic").as_slice()) || chars_eq(
        s.as_slice(),
        chars_of("wine").as_slice(),
    ) || chars_eq(s.as_slice(), chars_of("native").as_slice()) || chars_eq(
        s.as_slice(),
        chars_of("proton").as_slice(),
    ) || chars_eq(s.as_slice(), chars_of("sideload").as_slice());
    let head = chars_of("xdg-open heroic://launch/");
    if plain {
        string_of(concat(head.as_slice(), encoded.as_slice()).as_slice())
    } else {
        let a = concat(head.as_slice(), s.as_slice());
        let a = concat(a.as_slice(), chars_of("/").as_slice());
        string_of(concat(a.as_slice(), encoded.as_slice()).as_slice())
    }
}

// ---------------------------------------------------------------------------
// Where Steam keeps its libraries
// ---------------------------------------------------------------------------

/// `rest` joined to the path `base`.
pub fn join_path(base: &str, rest: &str) -> (r: String)
    ensures
        r@ == path_join(base@, rest@),
{
    string_of(path_join_of(chars_of(base).as_slice(), chars_of(rest).as_slice()).as_slice())
}

/// The places in the home directory where Steam may be installed, in the order
/// they are looked at.
pub open spec fn steam_root_candidates(home: Seq<char>) -> Seq<Seq<char>> {
    seq![
        path_join(home, ".steam/steam"@),
        path_join(home, ".local/share/Steam"@),
        path_join(home, ".steam/root"@),
    ]
}

pub fn steam_roots(home: &str) -> (r: Vec<String>)
    ensures
        strings_view(r@) == steam_root_candidates(home@),
{
    let mut r: Vec<String> = Vec::new();
    r.push(join_path(home, ".steam/steam"));
    r.push(join_path(home, ".local/share/Steam"));
    r.push(join_path(home, ".steam/root"));
    assert(strings_view(r@) =~= steam_root_candidates(home@));
    r
}

/// Steam's list of further library folders, under a Steam installation.
pub fn steam_library_file(root: &str) -> (r: String)
    ensures
        r@ == path_join(root@, "steamapps/libraryfolders.vdf"@),
{
    join_path(root, "steamapps/libraryfolders.vdf")
}

/// The directory of a Steam library that holds its app manifests.
pub fn steam_apps_dir(library: &str) -> (r: String)
    ensures
        r@ == path_join(library@, "steamapps"@),
{
    join_path(library, "steamapps")
}

} // verus!
