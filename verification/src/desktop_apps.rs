//! Installed desktop applications (freedesktop `.desktop` entries): which become
//! launcher entries, their cleaned commands, and their icons.
use vstd::prelude::*;

use crate::model::AppEntry;
use freedesktop_desktop_entry::DesktopEntry;
use crate::launcher::strings_view;
use crate::text::{
    chars_eq, chars_of, eq_ignore_ascii_case, eq_ignore_case_chars, join_chars, join_with,
    lower_chars, slice_chars, split_words, string_of, unicode_lower, vecs_view, words,
};
use crate::roms::{answered, concat, first_yes};
use crate::model::opt_view;
use crate::paths::{rfind_char, rfind_char_in};
use crate::text::{ends_with, has_prefix, starts_with};

verus! {

/// The words of a command that are no field codes (`%f`, `%U`, ...), in order.
pub open spec fn kept_words(w: Seq<Seq<char>>) -> Seq<Seq<char>>
    decreases w.len(),
{
    if w.len() == 0 {
        w
    } else {
        let rest = kept_words(w.drop_last());
        if w.last().len() > 0 && w.last()[0] == '%' {
            rest
        } else {
            rest.push(w.last())
        }
    }
}

/// A desktop entry's command without its field codes, its words joined by single
/// spaces.
pub open spec fn clean_exec_spec(exec: Seq<char>) -> Seq<char> {
    join_with(kept_words(words(exec)), " "@)
}

pub fn clean_exec_code(exec: &str) -> (r: String)
    ensures
        r@ == clean_exec_spec(exec@),
{
    let w = split_words(chars_of(exec).as_slice());
    let ghost wv = vecs_view(w@);
    let mut kept: Vec<Vec<char>> = Vec::new();
    let mut i: usize = 0;
    assert(wv.take(0) =~= Seq::<Seq<char>>::empty());
    while i < w.len()
        invariant
            i <= w@.len(),
            wv == vecs_view(w@),
            vecs_view(kept@) == kept_words(wv.take(i as int)),
        decreases w@.len() - i,
    {
        assert(wv.take(i + 1).drop_last() =~= wv.take(i as int));
        assert(wv.take(i + 1).last() == w@[i as int]@);
        let part = &w[i];
        if !(part.len() > 0 && part[0] == '%') {
            let ghost b = vecs_view(kept@);
            kept.push(slice_chars(part.as_slice(), 0, part.len()));
            assert(part@.subrange(0, part@.len() as int) =~= part@);
            assert(vecs_view(kept@) =~= b.push(part@));
        }
        i += 1;
    }
    assert(wv.take(w@.len() as int) =~= wv);
    string_of(join_chars(&kept, chars_of(" ").as_slice()).as_slice())
}

/// The icon themes in the order searched: `hicolor` first, then every other theme
/// (any spelling of `hicolor` left out).
pub open spec fn themes_after_hicolor(themes: Seq<Seq<char>>) -> Seq<Seq<char>>
    decreases themes.len(),
{
    if themes.len() == 0 {
        seq!["hicolor"@]
    } else {
        let rest = themes_after_hicolor(themes.drop_last());
        if eq_ignore_ascii_case(themes.last(), "hicolor"@) {
            rest
        } else {
            rest.push(themes.last())
        }
    }
}

/// The icon themes to search, given the installed ones.
pub fn themes_in_search_order(installed: Vec<String>) -> (r: Vec<String>)
    ensures
        strings_view(r@) == themes_after_hicolor(strings_view(installed@)),
{
    let ghost iv = strings_view(installed@);
    let mut r: Vec<String> = Vec::new();
    r.push(String::from_str("hicolor"));
    let hi = chars_of("hicolor");
    let mut i: usize = 0;
    assert(strings_view(r@) =~= themes_after_hicolor(iv.take(0)));
    while i < installed.len()
        invariant
            i <= installed@.len(),
            iv == strings_view(installed@),
            hi@ == "hicolor"@,
            strings_view(r@) == themes_after_hicolor(iv.take(i as int)),
        decreases installed@.len() - i,
    {
        assert(iv.take(i + 1).drop_last() =~= iv.take(i as int));
        assert(iv.take(i + 1).last() == installed@[i as int]@);
        let t = chars_of(installed[i].as_str());
        if !eq_ignore_case_chars(t.as_slice(), hi.as_slice()) {
            let ghost b = strings_view(r@);
            r.push(string_of(t.as_slice()));
            assert(strings_view(r@) =~= b.push(t@));
        }
        i += 1;
    }
    assert(iv.take(installed@.len() as int) =~= iv);
    r
}

/// The icon sizes searched, largest first.
pub open spec fn icon_sizes() -> Seq<u16> {
    seq![512u16, 256, 128, 96, 64, 48, 32, 24, 22, 16]
}

/// `find` answered `res` for `size` in the theme `theme`.
pub open spec fn found_as<F: Fn(u16, &str) -> Option<String>>(
    find: F,
    size: u16,
    theme: Seq<char>,
    res: Option<Seq<char>>,
) -> bool {
    exists|t: &str, o: Option<String>|
        t@ == theme && #[trigger] call_ensures(find, (size, t), o) && match o {
            Some(p) => res == Some(p@),
            None => res is None,
        }
}

/// The pair (size `i2`, theme `j2`) is searched before the pair (`i`, `j`): all
/// themes are tried at one size before the next size.
pub open spec fn searched_before(i2: int, j2: int, i: int, j: int) -> bool {
    i2 < i || (i2 == i && j2 < j)
}

/// `r` is the path found for the first (size, theme) pair for which `find` found one,
/// every pair searched before it having found none; or nothing, when no pair found
/// one.
pub open spec fn icon_found_ok<F: Fn(u16, &str) -> Option<String>>(
    themes: Seq<Seq<char>>,
    find: F,
    r: Option<String>,
) -> bool {
    let n = themes.len() as int;
    match r {
        Some(p) => exists|i: int, j: int|
            #![trigger found_as(find, icon_sizes()[i], themes[j], Some(p@))]
            0 <= i < 10 && 0 <= j < n && found_as(find, icon_sizes()[i], themes[j], Some(p@))
                && forall|i2: int, j2: int|
                0 <= i2 < 10 && 0 <= j2 < n && searched_before(i2, j2, i, j) ==> found_as(
                    find,
                    #[trigger] icon_sizes()[i2],
                    #[trigger] themes[j2],
                    None,
                ),
        None => forall|i2: int, j2: int|
            0 <= i2 < 10 && 0 <= j2 < n ==> found_as(
                find,
                #[trigger] icon_sizes()[i2],
                #[trigger] themes[j2],
                None,
            ),
    }
}

/// The first icon path that `find` reports, trying every theme at 512 pixels, then
/// every theme at 256, and so on down to 16.
pub fn first_icon_found<F: Fn(u16, &str) -> Option<String>>(themes: &Vec<String>, find: F) -> (r:
    Option<String>)
    requires
        forall|size: u16, t: &str| call_requires(find, (size, t)),
    ensures
        icon_found_ok(strings_view(themes@), find, r),
{
    let ghost tv = strings_view(themes@);
    let sizes: Vec<u16> = vec![512u16, 256, 128, 96, 64, 48, 32, 24, 22, 16];
    assert(sizes@ =~= icon_sizes());
    let n = themes.len();
    let mut si: usize = 0;
    while si < 10
        invariant
            si <= 10,
            sizes@ == icon_sizes(),
            n == themes@.len(),
            tv == strings_view(themes@),
            forall|size: u16, t: &str| call_requires(find, (size, t)),
            forall|i2: int, j2: int|
                0 <= i2 < 10 && 0 <= j2 < n && searched_before(i2, j2, si as int, 0) ==> found_as(
                    find,
                    #[trigger] icon_sizes()[i2],
                    #[trigger] tv[j2],
                    None,
                ),
        decreases 10 - si,
    {
        let mut ti: usize = 0;
        while ti < n
            invariant
                si < 10,
                ti <= n,
                sizes@ == icon_sizes(),
                n == themes@.len(),
                tv == strings_view(themes@),
                forall|size: u16, t: &str| call_requires(find, (size, t)),
                forall|i2: int, j2: int|
                    0 <= i2 < 10 && 0 <= j2 < n && searched_before(i2, j2, si as int, ti as int)
                        ==> found_as(find, #[trigger] icon_sizes()[i2], #[trigger] tv[j2], None),
            decreases n - ti,
        {
            let t = themes[ti].as_str();
            let size = sizes[si];
            let o = find(size, t);
            assert(tv[ti as int] == t@);
            match o {
                Some(p) => {
                    assert(found_as(find, icon_sizes()[si as int], tv[ti as int], Some(p@)));
                    return Some(p);
                },
                None => {
                    assert(found_as(find, icon_sizes()[si as int], tv[ti as int], None));
                },
            }
            ti += 1;
        }
        si += 1;
    }
    None
}

/// Is `e` the extension of an image file (png, svg, xpm, jpg, jpeg; any case)?
pub open spec fn is_image_ext(e: Seq<char>) -> bool {
    let l = unicode_lower(e);
    l == "png"@ || l == "svg"@ || l == "xpm"@ || l == "jpg"@ || l == "jpeg"@
}

/// The name under which an icon is looked up: the icon's name without the last
/// `.ext` when `ext` names an image type.
pub open spec fn icon_search_name(icon: Seq<char>) -> Seq<char> {
    match rfind_char(icon, '.') {
        Some(d) => if is_image_ext(icon.subrange(d + 1, icon.len() as int)) {
            icon.take(d)
        } else {
            icon
        },
        None => icon,
    }
}

pub fn search_name_of(icon: &str) -> (r: String)
    ensures
        r@ == icon_search_name(icon@),
{
    let c = chars_of(icon);
    assert(c@.subrange(0, c@.len() as int) =~= c@);
    match rfind_char_in(c.as_slice(), 0, c.len(), '.') {
        Some(d) => {
            let ext = lower_chars(slice_chars(c.as_slice(), d + 1, c.len()).as_slice());
            let image = chars_eq(ext.as_slice(), chars_of("png").as_slice()) || chars_eq(
                ext.as_slice(),
                chars_of("svg").as_slice(),
            ) || chars_eq(ext.as_slice(), chars_of("xpm").as_slice()) || chars_eq(
                ext.as_slice(),
                chars_of("jpg").as_slice(),
            ) || chars_eq(ext.as_slice(), chars_of("jpeg").as_slice());
            if image {
                let r = string_of(slice_chars(c.as_slice(), 0, d).as_slice());
                assert(c@.subrange(0, d as int) =~= c@.take(d as int));
                r
            } else {
                string_of(c.as_slice())
            }
        },
        None => string_of(c.as_slice()),
    }
}

/// The places in `/usr/share/pixmaps` where an icon of that name may lie, in the
/// order tried.
pub open spec fn pixmap_candidates(name: Seq<char>) -> Seq<Seq<char>> {
    seq!["png"@, "svg"@, "xpm"@, "jpg"@].map_values(
        |e: Seq<char>| "/usr/share/pixmaps/"@ + name + "."@ + e,
    )
}

/// An optional path as a sequence of at most one path.
pub open spec fn opt_seq(o: Option<String>) -> Seq<Seq<char>> {
    match o {
        Some(s) => seq![s@],
        None => Seq::empty(),
    }
}

/// The first pixmap of that name that `is_present` reports present.
pub fn pixmap_fallback<E: Fn(&str) -> bool>(name: &str, is_present: E) -> (r: Option<String>)
    requires
        forall|s: &str| call_requires(is_present, (s,)),
    ensures
        first_yes(pixmap_candidates(name@), is_present, opt_seq(r)),
{
    let ghost cands = pixmap_candidates(name@);
    let mut exts: Vec<Vec<char>> = Vec::new();
    exts.push(chars_of("png"));
    exts.push(chars_of("svg"));
    exts.push(chars_of("xpm"));
    exts.push(chars_of("jpg"));
    assert(vecs_view(exts@) =~= seq!["png"@, "svg"@, "xpm"@, "jpg"@]);
    let dir = chars_of("/usr/share/pixmaps/");
    let dot = chars_of(".");
    let nm = chars_of(name);
    let mut k: usize = 0;
    while k < 4
        invariant
            k <= 4,
            exts@.len() == 4,
            vecs_view(exts@) == seq!["png"@, "svg"@, "xpm"@, "jpg"@],
            dir@ == "/usr/share/pixmaps/"@,
            dot@ == "."@,
            nm@ == name@,
            cands == pixmap_candidates(name@),
            forall|s: &str| call_requires(is_present, (s,)),
            forall|j: int| 0 <= j < k ==> answered(is_present, #[trigger] cands[j], false),
        decreases 4 - k,
    {
        let a = concat(dir.as_slice(), nm.as_slice());
        let b = concat(a.as_slice(), dot.as_slice());
        let c = concat(b.as_slice(), exts[k].as_slice());
        let cand = string_of(c.as_slice());
        assert(cand@ == cands[k as int]);
        let found = is_present(cand.as_str());
        assert(answered(is_present, cand@, found));
        if found {
            assert(opt_seq(Some(cand))[0] == cands[k as int]);
            return Some(cand);
        }
        k += 1;
    }
    assert(opt_seq(None) =~= Seq::<Seq<char>>::empty());
    None
}

/// `resolve` answered `res` for the name `name`.
pub open spec fn resolved_as<R: Fn(&str) -> Option<String>>(
    resolve: R,
    name: Seq<char>,
    res: Option<String>,
) -> bool {
    exists|t: &str| t@ == name && #[trigger] call_ensures(resolve, (t,), res)
}

/// The icon of an application entry whose desktop file names the icon `icon`: an
/// absolute path as it is; else the theme icon that `resolve` finds under the
/// search name; else the first pixmap that `is_present` reports; else none.
pub open spec fn entry_icon_ok<R: Fn(&str) -> Option<String>, E: Fn(&str) -> bool>(
    icon: Option<Seq<char>>,
    resolve: R,
    is_present: E,
    r: Option<String>,
) -> bool {
    match icon {
        None => r is None,
        Some(n) => if starts_with(n, "/"@) {
            r matches Some(p) && p@ == n
        } else {
            exists|o: Option<String>|
                #![trigger resolved_as(resolve, icon_search_name(n), o)]
                resolved_as(resolve, icon_search_name(n), o) && match o {
                    Some(p) => r matches Some(q) && q@ == p@,
                    None => first_yes(pixmap_candidates(icon_search_name(n)), is_present, opt_seq(r)),
                }
        },
    }
}

/// The icon of an application entry (see `entry_icon_ok`).
pub fn entry_icon<R: Fn(&str) -> Option<String>, E: Fn(&str) -> bool>(
    icon: Option<String>,
    resolve: R,
    is_present: E,
) -> (r: Option<String>)
    requires
        forall|t: &str| call_requires(resolve, (t,)),
        forall|s: &str| call_requires(is_present, (s,)),
    ensures
        entry_icon_ok(opt_view(icon), resolve, is_present, r),
{
    match icon {
        None => None,
        Some(n) => {
            let c = chars_of(n.as_str());
            if has_prefix(c.as_slice(), chars_of("/").as_slice()) {
                Some(n)
            } else {
                let search = search_name_of(n.as_str());
                let o = resolve(search.as_str());
                assert(resolved_as(resolve, icon_search_name(n@), o));
                match o {
                    Some(p) => Some(p),
                    None => pixmap_fallback(search.as_str(), is_present),
                }
            }
        },
    }
}

/// The launcher entry of an installed application, from the fields of its desktop
/// file: none when it is hidden (`NoDisplay`), is not of type `Application`, or lacks
/// a name or a command.
pub open spec fn desktop_app_ok<R: Fn(&str) -> Option<String>, E: Fn(&str) -> bool>(
    no_display: bool,
    kind: Option<Seq<char>>,
    name: Option<Seq<char>>,
    exec: Option<Seq<char>>,
    icon: Option<Seq<char>>,
    resolve: R,
    is_present: E,
    r: Option<AppEntry>,
) -> bool {
    if no_display || kind != Some("Application"@) || name is None || exec is None {
        r is None
    } else {
        r matches Some(e) && e.name@ == name->0 && e.command@ == clean_exec_spec(exec->0)
            && e.game_executable is None && e.launch_key is None && entry_icon_ok(
            icon,
            resolve,
            is_present,
            e.icon,
        )
    }
}

pub fn app_from_desktop_fields<R: Fn(&str) -> Option<String>, E: Fn(&str) -> bool>(
    no_display: bool,
    kind: Option<String>,
    name: Option<String>,
    exec: Option<String>,
    icon: Option<String>,
    resolve: R,
    is_present: E,
) -> (r: Option<AppEntry>)
    requires
        forall|t: &str| call_requires(resolve, (t,)),
        forall|s: &str| call_requires(is_present, (s,)),
    ensures
        desktop_app_ok(
            no_display,
            opt_view(kind),
            opt_view(name),
            opt_view(exec),
            opt_view(icon),
            resolve,
            is_present,
            r,
        ),
{
    if no_display {
        return None;
    }
    let is_app = match &kind {
        Some(k) => chars_eq(chars_of(k.as_str()).as_slice(), chars_of("Application").as_slice()),
        None => false,
    };
    if !is_app {
        return None;
    }
    let name = match name {
        Some(n) => n,
        None => return None,
    };
    let exec = match exec {
        Some(e) => e,
        None => return None,
    };
    let command = clean_exec_code(exec.as_str());
    let icon = entry_icon(icon, resolve, is_present);
    Some(AppEntry::new(name, command, icon))
}


/// A parsed `.desktop` file (`freedesktop_desktop_entry::DesktopEntry`), carried as
/// it is; its fields are read through the accessors below.
#[verifier::external_type_specification]
#[verifier::external_body]
pub struct ExDesktopEntry(freedesktop_desktop_entry::DesktopEntry);

/// `DesktopEntry::no_display`: the entry's `NoDisplay` key read as a boolean.  What
/// the parsed file holds is not visible here, so nothing is stated of the result.
#[verifier::external_body]
fn entry_no_display(entry: &DesktopEntry) -> bool {
    entry.no_display()
}

/// `DesktopEntry::type_`: the entry's `Type` key, copied.  Nothing is stated of it.
#[verifier::external_body]
fn entry_kind(entry: &DesktopEntry) -> Option<String> {
    match entry.type_() {
        Some(t) => Some(t.to_string()),
        None => None,
    }
}

/// `DesktopEntry::name` with no locale: the entry's unlocalised `Name`, copied.
/// Nothing is stated of it.
#[verifier::external_body]
fn entry_name(entry: &DesktopEntry) -> Option<String> {
    match entry.name(&[] as &[&str]) {
        Some(n) => Some(n.to_string()),
        None => None,
    }
}

/// `DesktopEntry::exec`: the entry's `Exec` key, copied.  Nothing is stated of it.
#[verifier::external_body]
fn entry_exec(entry: &DesktopEntry) -> Option<String> {
    match entry.exec() {
        Some(e) => Some(e.to_string()),
        None => None,
    }
}

/// `DesktopEntry::icon`: the entry's `Icon` key, copied.  Nothing is stated of it.
#[verifier::external_body]
fn entry_icon_name(entry: &DesktopEntry) -> Option<String> {
    match entry.icon() {
        Some(i) => Some(i.to_string()),
        None => None,
    }
}

/// `freedesktop_icons::list_themes`: the names of the icon themes installed on this
/// machine, read from disk; nothing is stated of them.
#[verifier::external_body]
fn installed_themes() -> Vec<String> {
    freedesktop_icons::list_themes()
}

/// The file name endings of the icon files that `freedesktop_icons` finds.
pub open spec fn is_icon_file(p: Seq<char>) -> bool {
    ends_with(p, ".png"@) || ends_with(p, ".svg"@) || ends_with(p, ".xmp"@)
}

/// `freedesktop_icons::lookup(name).with_size(size).with_theme(theme).with_cache()
/// .find()`, the path turned into a string: the icon file found on disk, if any.
/// What lies on disk decides which; every path the crate's source returns (also from
/// its cache, which holds only earlier answers) is a directory joined with a file
/// name that it built as the icon's name and `.png`, `.svg` or `.xmp`, so that is
/// how the text ends.  That is all that is stated.
#[verifier::external_body]
fn lookup_icon(name: &str, size: u16, theme: &str) -> (r: Option<String>)
    ensures
        r matches Some(p) ==> is_icon_file(p@),
{
    match freedesktop_icons::lookup(name).with_size(size).with_theme(theme).with_cache().find() {
        Some(p) => Some(p.to_string_lossy().to_string()),
        None => None,
    }
}

/// The icon themes to search on this machine: `hicolor`, then the installed ones.
pub fn ordered_themes() -> (r: Vec<String>)
    ensures
        exists|installed: Seq<Seq<char>>|
            strings_view(r@) == #[trigger] themes_after_hicolor(installed),
{
    let installed = installed_themes();
    themes_in_search_order(installed)
}

/// The path of the icon named `search_name` in the installed themes, trying all
/// themes at each size from 512 pixels down.  What lies on disk decides which file
/// is found; it is a `.png`, `.svg` or `.xmp` file.
pub fn resolve_icon_path(search_name: &str) -> (r: Option<String>)
    ensures
        r matches Some(p) ==> is_icon_file(p@),
{
    let themes = ordered_themes();
    let find = |size: u16, theme: &str| -> (o: Option<String>)
        ensures
            o matches Some(p) ==> is_icon_file(p@),
        { lookup_icon(search_name, size, theme) };
    let r = first_icon_found(&themes, find);
    proof {
        if r is Some {
            let p = r->0;
            let (i, j) = choose|i: int, j: int|
                #![trigger found_as(find, icon_sizes()[i], strings_view(themes@)[j], Some(p@))]
                0 <= i < 10 && 0 <= j < strings_view(themes@).len() && found_as(
                    find,
                    icon_sizes()[i],
                    strings_view(themes@)[j],
                    Some(p@),
                );
            let (t, o) = choose|t: &str, o: Option<String>|
                t@ == strings_view(themes@)[j] && #[trigger] call_ensures(
                    find,
                    (icon_sizes()[i], t),
                    o,
                ) && match o {
                    Some(q) => Some(p@) == Some(q@),
                    None => false,
                };
        }
    }
    r
}

/// The launcher entry of an installed application's desktop entry; `is_present`
/// reports which pixmap files exist.  The entry's fields are read through the
/// parser; what follows them is `app_from_desktop_fields`.
pub fn convert_entry<E: Fn(&str) -> bool>(entry: &DesktopEntry, is_present: E) -> (r: Option<AppEntry>)
    requires
        forall|s: &str| call_requires(is_present, (s,)),
    ensures
        r matches Some(e) ==> e.game_executable is None && e.launch_key is None && exists|x: Seq<
            char,
        >| e.command@ == #[trigger] clean_exec_spec(x),
{
    let no_display = entry_no_display(entry);
    let kind = entry_kind(entry);
    let name = entry_name(entry);
    let exec = entry_exec(entry);
    let icon = entry_icon_name(entry);
    app_from_desktop_fields(
        no_display,
        kind,
        name,
        exec,
        icon,
        |n: &str| resolve_icon_path(n),
        is_present,
    )
}

} // verus!
