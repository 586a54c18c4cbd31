//! Games installed through the Heroic launcher: its library files (JSON) and the
//! launcher entries made of them.
use vstd::prelude::*;

use crate::game_sources::{heroic_exec, heroic_exec_spec, ignored_app, is_ignored_app, join_path};
use crate::snes9x::path_join;
use crate::json::{
    as_text, field, find_member, json_bool, lemma_member_index, member, member_index, member_text,
    opt_json_bool, parse_json, parse_json_bool, parsed_json, JsonMember, JsonValue, JsonView,
};
use crate::model::{opt_view, AppEntry};
use crate::roms::{concat, file_name_or_empty, file_name_or_empty_of};
use crate::launcher::strings_view;
use crate::text::{chars_eq, chars_of, string_of, trim, trim_chars};

verus! {

/// A game read from a Heroic library file.
pub struct HeroicGame {
    pub app_name: String,
    pub title: String,
    pub store: String,
    pub art_cover: Option<String>,
    pub executable: Option<String>,
    pub launch_key: String,
}

/// The mathematical form of a `HeroicGame`.
pub struct HeroicView {
    pub app_name: Seq<char>,
    pub title: Seq<char>,
    pub store: Seq<char>,
    pub art_cover: Option<Seq<char>>,
    pub executable: Option<Seq<char>>,
    pub launch_key: Seq<char>,
}

impl View for HeroicGame {
    type V = HeroicView;

    open spec fn view(&self) -> HeroicView {
        HeroicView {
            app_name: self.app_name@,
            title: self.title@,
            store: self.store@,
            art_cover: opt_view(self.art_cover),
            executable: opt_view(self.executable),
            launch_key: self.launch_key@,
        }
    }
}

pub open spec fn heroic_views(s: Seq<HeroicGame>) -> Seq<HeroicView> {
    s.map_values(|g: HeroicGame| g@)
}

pub open spec fn opt_heroic_view(o: Option<HeroicGame>) -> Option<HeroicView> {
    match o {
        Some(g) => Some(g@),
        None => None,
    }
}

/// The members of an object in their mathematical form.
pub open spec fn members_view(m: Seq<JsonMember>) -> Seq<(Seq<char>, JsonView)> {
    m.map_values(|x: JsonMember| (x.key@, x.value@))
}

pub proof fn lemma_object_view(m: Vec<JsonMember>)
    ensures
        JsonValue::Object(m)@ == JsonView::Object(members_view(m@)),
{
    let v = JsonValue::Object(m)@;
    let s = v->Object_0;
    assert(s.len() == m@.len());
    assert forall|i: int| 0 <= i < s.len() implies s[i] == members_view(m@)[i] by {}
    assert(s =~= members_view(m@));
}

/// `a`, or `b` when `a` is nothing (`Option::or`).
pub open spec fn or_else<A>(a: Option<A>, b: Option<A>) -> Option<A> {
    if a is Some {
        a
    } else {
        b
    }
}

/// Whether the game is installed, from the first of the keys `installed`,
/// `is_installed`, `isInstalled` and `install.is_installed` that holds a boolean.
pub open spec fn installed_flag(m: Seq<(Seq<char>, JsonView)>) -> Option<bool> {
    or_else(
        opt_json_bool(member(m, "installed"@)),
        or_else(
            opt_json_bool(member(m, "is_installed"@)),
            or_else(
                opt_json_bool(member(m, "isInstalled"@)),
                match member(m, "install"@) {
                    Some(v) => opt_json_bool(field(v, "is_installed"@)),
                    None => None,
                },
            ),
        ),
    )
}

/// The file name of the game's executable (`install.executable`), when given.
pub open spec fn executable_name(m: Seq<(Seq<char>, JsonView)>) -> Option<Seq<char>> {
    match member(m, "install"@) {
        Some(v) => match field(v, "executable"@) {
            Some(e) => match as_text(e) {
                Some(p) => Some(file_name_or_empty(p)),
                None => None,
            },
            None => None,
        },
        None => None,
    }
}

/// The key under which a game's starts are remembered.
pub open spec fn heroic_launch_key(store: Seq<char>, app_name: Seq<char>) -> Seq<char> {
    if store.len() == 0 {
        "heroic:"@ + app_name
    } else {
        "heroic:"@ + store + ":"@ + app_name
    }
}

/// The game an object of a library file describes: none when its install state
/// rules it out (`require_installed`: it must say installed; otherwise it must not
/// say uninstalled), or when it has no app name (`app_name`, `appName`, else `key`)
/// or title (`title`, `name`, `display_name`) left after trimming.  The store is the
/// first of `runner`, `store`, `provider`, `backend`, else `store_hint`.
pub open spec fn heroic_game_spec(
    key: Option<Seq<char>>,
    m: Seq<(Seq<char>, JsonView)>,
    store_hint: Seq<char>,
    require_installed: bool,
) -> Option<HeroicView> {
    let installed = installed_flag(m);
    let app_name = or_else(member_text(m, "app_name"@), or_else(member_text(m, "appName"@), key));
    let title = or_else(
        member_text(m, "title"@),
        or_else(member_text(m, "name"@), member_text(m, "display_name"@)),
    );
    let store = match or_else(
        member_text(m, "runner"@),
        or_else(
            member_text(m, "store"@),
            or_else(member_text(m, "provider"@), member_text(m, "backend"@)),
        ),
    ) {
        Some(s) => s,
        None => store_hint,
    };
    if (require_installed && installed != Some(true)) || (!require_installed && installed == Some(
        false,
    )) {
        None
    } else if app_name is None || title is None {
        None
    } else if trim(app_name->0).len() == 0 || trim(title->0).len() == 0 {
        None
    } else {
        Some(
            HeroicView {
                app_name: trim(app_name->0),
                title: trim(title->0),
                store: trim(store),
                art_cover: or_else(member_text(m, "art_cover"@), member_text(m, "art_square"@)),
                executable: executable_name(m),
                launch_key: heroic_launch_key(trim(store), trim(app_name->0)),
            },
        )
    }
}

// ---------------------------------------------------------------------------
// Reading an object
// ---------------------------------------------------------------------------

fn member_of<'a>(obj: &'a Vec<JsonMember>, k: &str) -> (r: Option<&'a JsonValue>)
    ensures
        match r {
            Some(v) => member(members_view(obj@), k@) == Some(v@),
            None => member(members_view(obj@), k@) is None,
        },
{
    match find_member(obj, k) {
        Some(i) => Some(&obj[i].value),
        None => None,
    }
}

fn text_member(obj: &Vec<JsonMember>, k: &str) -> (r: Option<String>)
    ensures
        opt_view(r) == member_text(members_view(obj@), k@),
{
    match member_of(obj, k) {
        Some(JsonValue::Str(s)) => Some(s.clone()),
        _ => None,
    }
}

fn bool_member(obj: &Vec<JsonMember>, k: &str) -> (r: Option<bool>)
    ensures
        r == opt_json_bool(member(members_view(obj@), k@)),
{
    match member_of(obj, k) {
        Some(v) => parse_json_bool(v),
        None => None,
    }
}

fn installed_of(obj: &Vec<JsonMember>) -> (r: Option<bool>)
    ensures
        r == installed_flag(members_view(obj@)),
{
    let a = bool_member(obj, "installed");
    if a.is_some() {
        return a;
    }
    let b = bool_member(obj, "is_installed");
    if b.is_some() {
        return b;
    }
    let c = bool_member(obj, "isInstalled");
    if c.is_some() {
        return c;
    }
    match member_of(obj, "install") {
        Some(JsonValue::Object(inner)) => {
            proof {
                lemma_object_view(*inner);
            }
            bool_member(inner, "is_installed")
        },
        _ => None,
    }
}

fn executable_of(obj: &Vec<JsonMember>) -> (r: Option<String>)
    ensures
        opt_view(r) == executable_name(members_view(obj@)),
{
    match member_of(obj, "install") {
        Some(JsonValue::Object(inner)) => {
            proof {
                lemma_object_view(*inner);
            }
            match text_member(inner, "executable") {
                Some(p) => Some(string_of(file_name_or_empty_of(chars_of(p.as_str()).as_slice()).as_slice())),
                None => None,
            }
        },
        _ => None,
    }
}

fn first_text(a: Option<String>, b: Option<String>) -> (r: Option<String>)
    ensures
        opt_view(r) == or_else(opt_view(a), opt_view(b)),
{
    if a.is_some() {
        a
    } else {
        b
    }
}

/// The game an object of a library file describes (see `heroic_game_spec`).
pub fn heroic_game_from_object(
    key: Option<&str>,
    obj: &Vec<JsonMember>,
    store_hint: &str,
    require_installed: bool,
) -> (r: Option<HeroicGame>)
    ensures
        opt_heroic_view(r) == heroic_game_spec(
            match key {
                Some(k) => Some(k@),
                None => None,
            },
            members_view(obj@),
            store_hint@,
            require_installed,
        ),
{
    let ghost m = members_view(obj@);
    let installed = installed_of(obj);
    if require_installed {
        if !(installed == Some(true)) {
            return None;
        }
    } else if installed == Some(false) {
        return None;
    }
    let key_text = match key {
        Some(k) => Some(string_of(chars_of(k).as_slice())),
        None => None,
    };
    let app_name = first_text(
        text_member(obj, "app_name"),
        first_text(text_member(obj, "appName"), key_text),
    );
    let title = first_text(
        text_member(obj, "title"),
        first_text(text_member(obj, "name"), text_member(obj, "display_name")),
    );
    let store_given = first_text(
        text_member(obj, "runner"),
        first_text(
            text_member(obj, "store"),
            first_text(text_member(obj, "provider"), text_member(obj, "backend")),
        ),
    );
    let store_raw = match store_given {
        Some(s) => chars_of(s.as_str()),
        None => chars_of(store_hint),
    };
    let app_name = match app_name {
        Some(a) => trim_chars(chars_of(a.as_str()).as_slice()),
        None => return None,
    };
    let title = match title {
        Some(t) => trim_chars(chars_of(t.as_str()).as_slice()),
        None => return None,
    };
    if app_name.len() == 0 || title.len() == 0 {
        return None;
    }
    let store = trim_chars(store_raw.as_slice());
    let launch_key = if store.len() == 0 {
        concat(chars_of("heroic:").as_slice(), app_name.as_slice())
    } else {
        let a = concat(chars_of("heroic:").as_slice(), store.as_slice());
        let b = concat(a.as_slice(), chars_of(":").as_slice());
        concat(b.as_slice(), app_name.as_slice())
    };
    let art_cover = first_text(text_member(obj, "art_cover"), text_member(obj, "art_square"));
    let executable = executable_of(obj);
    Some(
        HeroicGame {
            app_name: string_of(app_name.as_slice()),
            title: string_of(title.as_slice()),
            store: string_of(store.as_slice()),
            art_cover,
            executable,
            launch_key: string_of(launch_key.as_slice()),
        },
    )
}

// ---------------------------------------------------------------------------
// Walking a library file
// ---------------------------------------------------------------------------

/// The games a JSON value holds: an object that describes a game is that game;
/// any other object gives the games under its `installed` and `games` members, then
/// those of its other members in order (an object member that describes a game,
/// its key taken as the app name when it names none, or the games inside it); an
/// array gives the games of its items in order.
pub open spec fn collect_spec(v: JsonView, hint: Seq<char>, req: bool) -> Seq<HeroicView>
    decreases v, 0int,
{
    match v {
        JsonView::Array(items) => collect_items(items, items.len() as int, hint, req),
        JsonView::Object(m) => match heroic_game_spec(None, m, hint, req) {
            Some(g) => seq![g],
            None => {
                proof {
                    lemma_member_index(m, "installed"@);
                    lemma_member_index(m, "games"@);
                }
                let a = match member_index(m, "installed"@) {
                    Some(i) => collect_spec(m[i].1, hint, req),
                    None => Seq::empty(),
                };
                let b = match member_index(m, "games"@) {
                    Some(i) => collect_spec(m[i].1, hint, req),
                    None => Seq::empty(),
                };
                a + b + collect_members(m, m.len() as int, hint, req)
            },
        },
        _ => Seq::empty(),
    }
}

/// The games of the first `n` items of an array.
pub open spec fn collect_items(items: Seq<JsonView>, n: int, hint: Seq<char>, req: bool) -> Seq<
    HeroicView,
>
    decreases items, n,
{
    if n <= 0 || n > items.len() {
        Seq::empty()
    } else {
        collect_items(items, n - 1, hint, req) + collect_spec(items[n - 1], hint, req)
    }
}

/// The games of the first `n` members of an object, `installed` and `games` left
/// out.
pub open spec fn collect_members(
    m: Seq<(Seq<char>, JsonView)>,
    n: int,
    hint: Seq<char>,
    req: bool,
) -> Seq<HeroicView>
    decreases m, n,
{
    if n <= 0 || n > m.len() {
        Seq::empty()
    } else {
        let rest = collect_members(m, n - 1, hint, req);
        let k = m[n - 1].0;
        let val = m[n - 1].1;
        if k == "installed"@ || k == "games"@ {
            rest
        } else {
            match val {
                JsonView::Object(obj) => match heroic_game_spec(Some(k), obj, hint, req) {
                    Some(g) => rest.push(g),
                    None => rest + collect_spec(val, hint, req),
                },
                JsonView::Array(_) => rest + collect_spec(val, hint, req),
                _ => rest,
            }
        }
    }
}

/// Appends the games that `value` holds (see `collect_spec`) to `games`.
pub fn collect_heroic_games(
    value: &JsonValue,
    store_hint: &str,
    require_installed: bool,
    games: &mut Vec<HeroicGame>,
)
    ensures
        heroic_views(final(games)@) == heroic_views(old(games)@) + collect_spec(
            value@,
            store_hint@,
            require_installed,
        ),
    decreases value,
{
    match value {
        JsonValue::Array(items) => {
            let ghost iv = value@->Array_0;
            assert(value@ == JsonView::Array(iv));
            assert(iv.len() == items@.len());
            assert(forall|j: int| 0 <= j < items@.len() ==> iv[j] == (#[trigger] items@[j])@);
            let ghost start = heroic_views(games@);
            let mut i: usize = 0;
            while i < items.len()
                invariant
                    i <= items@.len(),
                    *value == JsonValue::Array(*items),
                    iv.len() == items@.len(),
                    forall|j: int| 0 <= j < items@.len() ==> iv[j] == (#[trigger] items@[j])@,
                    heroic_views(games@) == start + collect_items(
                        iv,
                        i as int,
                        store_hint@,
                        require_installed,
                    ),
                decreases items@.len() - i,
            {
                let ghost before = heroic_views(games@);
                assert(decreases_to!(*value => value->Array_0));
                assert(decreases_to!(*items => items@));
                assert(decreases_to!(items@ => items@[i as int]));
                assert(decreases_to!(*value => items@[i as int]));
                collect_heroic_games(&items[i], store_hint, require_installed, games);
                assert(iv[i as int] == items@[i as int]@);
                assert(heroic_views(games@) =~= start + collect_items(
                    iv,
                    i + 1,
                    store_hint@,
                    require_installed,
                ));
                i += 1;
            }
        },
        JsonValue::Object(members) => {
            proof {
                lemma_object_view(*members);
            }
            let ghost m = members_view(members@);
            let ghost start = heroic_views(games@);
            match heroic_game_from_object(None, members, store_hint, require_installed) {
                Some(g) => {
                    games.push(g);
                    assert(heroic_views(games@) =~= start.push(g@));
                    return ;
                },
                None => {},
            }
            proof {
                lemma_member_index(m, "installed"@);
                lemma_member_index(m, "games"@);
            }
            match find_member(members, "installed") {
                Some(i) => {
                    assert(decreases_to!(*value => members@[i as int].value));
                    collect_heroic_games(&members[i].value, store_hint, require_installed, games);
                },
                None => {},
            }
            let ghost after_installed = heroic_views(games@);
            match find_member(members, "games") {
                Some(i) => {
                    assert(decreases_to!(*value => members@[i as int].value));
                    collect_heroic_games(&members[i].value, store_hint, require_installed, games);
                },
                None => {},
            }
            let ghost mid = heroic_views(games@);
            let mut j: usize = 0;
            while j < members.len()
                invariant
                    j <= members@.len(),
                    *value == JsonValue::Object(*members),
                    m == members_view(members@),
                    heroic_views(games@) == mid + collect_members(
                        m,
                        j as int,
                        store_hint@,
                        require_installed,
                    ),
                decreases members@.len() - j,
            {
                let ghost before = heroic_views(games@);
                let key = members[j].key.as_str();
                let skip = chars_eq(chars_of(key).as_slice(), chars_of("installed").as_slice())
                    || chars_eq(chars_of(key).as_slice(), chars_of("games").as_slice());
                assert(m[j as int] == (members@[j as int].key@, members@[j as int].value@));
                if !skip {
                    assert(decreases_to!(*value => value->Object_0));
                    assert(decreases_to!(*members => members@));
                    assert(decreases_to!(members@ => members@[j as int]));
                    assert(decreases_to!(*value => members@[j as int].value));
                    match &members[j].value {
                        JsonValue::Object(obj) => {
                            proof {
                                lemma_object_view(*obj);
                            }
                            match heroic_game_from_object(
                                Some(key),
                                obj,
                                store_hint,
                                require_installed,
                            ) {
                                Some(g) => {
                                    games.push(g);
                                    assert(heroic_views(games@) =~= before.push(g@));
                                },
                                None => {
                                    collect_heroic_games(
                                        &members[j].value,
                                        store_hint,
                                        require_installed,
                                        games,
                                    );
                                },
                            }
                        },
                        JsonValue::Array(_) => {
                            collect_heroic_games(
                                &members[j].value,
                                store_hint,
                                require_installed,
                                games,
                            );
                        },
                        _ => {},
                    }
                }
                assert(heroic_views(games@) =~= mid + collect_members(
                    m,
                    j + 1,
                    store_hint@,
                    require_installed,
                ));
                j += 1;
            }
            assert(heroic_views(games@) =~= start + collect_spec(
                value@,
                store_hint@,
                require_installed,
            ));
        },
        _ => {},
    }
}

/// The installed games of a Heroic library file; none when it is no JSON document.
pub fn parse_heroic_library_json(contents: &str, store_hint: &str) -> (r: Vec<HeroicGame>)
    ensures
        heroic_views(r@) == match parsed_json(contents@) {
            Some(v) => collect_spec(v, store_hint@, true),
            None => Seq::empty(),
        },
{
    let mut games: Vec<HeroicGame> = Vec::new();
    match parse_json(contents) {
        Some(value) => {
            collect_heroic_games(&value, store_hint, true, &mut games);
            assert(heroic_views(Seq::<HeroicGame>::empty()) =~= Seq::<HeroicView>::empty());
        },
        None => {
            assert(heroic_views(games@) =~= Seq::<HeroicView>::empty());
        },
    }
    games
}


// ---------------------------------------------------------------------------
// Launcher entries
// ---------------------------------------------------------------------------

/// The launcher entry of a Heroic game: its title, the `heroic://launch` command,
/// the cover art, the executable's name and the launch key.
pub open spec fn heroic_entry_ok(e: AppEntry, g: HeroicView) -> bool {
    &&& e.name@ == g.title
    &&& e.command@ == heroic_exec_spec(g.store, g.app_name)
    &&& opt_view(e.icon) == g.art_cover
    &&& opt_view(e.game_executable) == g.executable
    &&& e.launch_key matches Some(k) && k@ == g.launch_key
}

/// The app names seen after the games `found`, and the games that become entries:
/// a game is kept unless it is a runtime or tool, or its app name was seen before.
pub open spec fn heroic_admit(found: Seq<HeroicView>, seen: Seq<Seq<char>>) -> (
    Seq<Seq<char>>,
    Seq<HeroicView>,
)
    decreases found.len(),
{
    if found.len() == 0 {
        (seen, Seq::empty())
    } else {
        let (s, kept) = heroic_admit(found.drop_last(), seen);
        let g = found.last();
        if ignored_app(g.title, g.app_name) || s.contains(g.app_name) {
            (s, kept)
        } else {
            (s.push(g.app_name), kept.push(g))
        }
    }
}

fn seen_contains(seen: &Vec<String>, name: &str) -> (r: bool)
    ensures
        r == strings_view(seen@).contains(name@),
{
    let n = chars_of(name);
    let mut i: usize = 0;
    while i < seen.len()
        invariant
            i <= seen@.len(),
            n@ == name@,
            forall|j: int| 0 <= j < i ==> strings_view(seen@)[j] != name@,
        decreases seen@.len() - i,
    {
        if chars_eq(chars_of(seen[i].as_str()).as_slice(), n.as_slice()) {
            assert(strings_view(seen@)[i as int] == name@);
            return true;
        }
        i += 1;
    }
    false
}

/// Adds the games `found` in one library file to `games`, skipping runtimes and
/// tools and every app name already in `seen`, which records the names added.
pub fn add_heroic_games(found: Vec<HeroicGame>, seen: &mut Vec<String>, games: &mut Vec<AppEntry>)
    ensures
        ({
            let (s, kept) = heroic_admit(heroic_views(found@), strings_view(old(seen)@));
            &&& strings_view(final(seen)@) == s
            &&& final(games)@.len() == old(games)@.len() + kept.len()
            &&& forall|i: int| 0 <= i < old(games)@.len() ==> final(games)@[i] == old(games)@[i]
            &&& forall|i: int|
                0 <= i < kept.len() ==> heroic_entry_ok(
                    #[trigger] final(games)@[old(games)@.len() + i],
                    kept[i],
                )
        }),
{
    let ghost fv = heroic_views(found@);
    let ghost seen0 = strings_view(seen@);
    let ghost games0 = games@;
    let mut found = found;
    let mut k: usize = 0;
    let n = found.len();
    assert(fv.take(0) =~= Seq::<HeroicView>::empty());
    while k < n
        invariant
            k <= n,
            n == fv.len(),
            found@.len() == n - k,
            forall|j: int| 0 <= j < n - k ==> (#[trigger] found@[j])@ == fv[k + j],
            strings_view(seen@) == heroic_admit(fv.take(k as int), seen0).0,
            games@.len() == games0.len() + heroic_admit(fv.take(k as int), seen0).1.len(),
            forall|i: int| 0 <= i < games0.len() ==> games@[i] == games0[i],
            forall|i: int|
                0 <= i < heroic_admit(fv.take(k as int), seen0).1.len() ==> heroic_entry_ok(
                    #[trigger] games@[games0.len() + i],
                    heroic_admit(fv.take(k as int), seen0).1[i],
                ),
        decreases n - k,
    {
        let g = found.remove(0);
        assert(g@ == fv[k as int]);
        assert(fv.take(k + 1).drop_last() =~= fv.take(k as int));
        assert(fv.take(k + 1).last() == fv[k as int]);
        let ghost kept0 = heroic_admit(fv.take(k as int), seen0).1;
        let ghost games_before = games@;
        if !is_ignored_app(g.title.as_str(), g.app_name.as_str()) && !seen_contains(
            seen,
            g.app_name.as_str(),
        ) {
            let ghost sv = strings_view(seen@);
            seen.push(g.app_name.clone());
            assert(strings_view(seen@) =~= sv.push(g.app_name@));
            let command = heroic_exec(g.store.as_str(), g.app_name.as_str());
            let e = AppEntry::new(g.title, command, g.art_cover).with_executable(
                g.executable,
            ).with_launch_key(g.launch_key);
            games.push(e);
            assert(heroic_entry_ok(games@[(games0.len() + kept0.len()) as int], fv[k as int]));
        }
        k += 1;
    }
    assert(fv.take(n as int) =~= fv);
}

/// No app name is added twice: when the names seen so far are distinct, they stay
/// distinct, and every kept game has a name not seen before and unlike the other
/// kept games' names.
pub proof fn law_heroic_names_unique(found: Seq<HeroicView>, seen: Seq<Seq<char>>)
    requires
        seen.no_duplicates(),
    ensures
        heroic_admit(found, seen).0.no_duplicates(),
        heroic_admit(found, seen).0 == seen + heroic_admit(found, seen).1.map_values(
            |g: HeroicView| g.app_name,
        ),
    decreases found.len(),
{
    if found.len() > 0 {
        law_heroic_names_unique(found.drop_last(), seen);
        let (s, kept) = heroic_admit(found.drop_last(), seen);
        let g = found.last();
        if !(ignored_app(g.title, g.app_name) || s.contains(g.app_name)) {
            assert(kept.push(g).map_values(|x: HeroicView| x.app_name) =~= kept.map_values(
                |x: HeroicView| x.app_name,
            ).push(g.app_name));
            assert forall|i: int, j: int|
                0 <= i < s.push(g.app_name).len() && 0 <= j < s.push(g.app_name).len() && i
                    != j implies s.push(g.app_name)[i] != s.push(g.app_name)[j] by {
                if i == s.len() {
                    assert(s[j] == s.push(g.app_name)[j]);
                } else if j == s.len() {
                    assert(s[i] == s.push(g.app_name)[i]);
                }
            }
        }
    }
}

// ---------------------------------------------------------------------------
// Where Heroic keeps its libraries
// ---------------------------------------------------------------------------

/// Heroic's configuration directories: the native one, then the Flatpak one.
pub open spec fn heroic_root_candidates(config_dir: Seq<char>, home: Seq<char>) -> Seq<Seq<char>> {
    seq![
        path_join(config_dir, "heroic"@),
        path_join(home, ".var/app/com.heroicgameslauncher.hgl/config/heroic"@),
    ]
}

pub fn heroic_roots(config_dir: &str, home: &str) -> (r: Vec<String>)
    ensures
        strings_view(r@) == heroic_root_candidates(config_dir@, home@),
{
    let mut r: Vec<String> = Vec::new();
    r.push(join_path(config_dir, "heroic"));
    r.push(join_path(home, ".var/app/com.heroicgameslauncher.hgl/config/heroic"));
    assert(strings_view(r@) =~= heroic_root_candidates(config_dir@, home@));
    r
}

/// The library files under a Heroic directory, each with the store it lists, in
/// the order they are read: the Epic, GOG and Amazon libraries, then the sideloaded
/// games (the current file, then the older cache).
pub open spec fn heroic_library_candidates(root: Seq<char>) -> Seq<(Seq<char>, Seq<char>)> {
    let cache = path_join(root, "store_cache"@);
    seq![
        (path_join(cache, "legendary_library.json"@), "legendary"@),
        (path_join(cache, "gog_library.json"@), "gog"@),
        (path_join(cache, "nile_library.json"@), "nile"@),
        (path_join(path_join(root, "sideload_apps"@), "library.json"@), "sideload"@),
        (path_join(cache, "sideload_cache.json"@), "sideload"@),
    ]
}

pub fn heroic_library_files(root: &str) -> (r: Vec<(String, String)>)
    ensures
        r@.len() == 5,
        forall|i: int|
            0 <= i < 5 ==> (#[trigger] r@[i]).0@ == heroic_library_candidates(root@)[i].0 && r@[i].1@
                == heroic_library_candidates(root@)[i].1,
{
    let cache = join_path(root, "store_cache");
    let sideload = join_path(root, "sideload_apps");
    let mut r: Vec<(String, String)> = Vec::new();
    r.push((join_path(cache.as_str(), "legendary_library.json"), String::from_str("legendary")));
    r.push((join_path(cache.as_str(), "gog_library.json"), String::from_str("gog")));
    r.push((join_path(cache.as_str(), "nile_library.json"), String::from_str("nile")));
    r.push((join_path(sideload.as_str(), "library.json"), String::from_str("sideload")));
    r.push((join_path(cache.as_str(), "sideload_cache.json"), String::from_str("sideload")));
    r
}

} // verus!
