//! Items shown by the launcher and the entries they are built from.
use uuid::Uuid;
use vstd::prelude::*;

use crate::text::{chars_of, has_prefix, starts_with};

verus! {

#[verifier::external_type_specification]
#[verifier::external_body]
pub struct ExUuid(Uuid);

/// `<Uuid as Clone>::clone`: `Uuid` is `Copy` and derives `Clone`, so the clone is the same value.
pub assume_specification[ <Uuid as Clone>::clone ](u: &Uuid) -> (r: Uuid)
    ensures
        r == *u,
;

/// `Uuid::new_v4`: a fresh random identifier.  Nothing is stated of its value.
#[verifier::external_body]
pub(crate) fn new_id() -> (r: Uuid) {
    Uuid::new_v4()
}

/// `<Uuid as PartialEq>::eq`: two identifiers compare equal exactly when they are the same value.
#[verifier::external_body]
pub(crate) fn same_id(a: &Uuid, b: &Uuid) -> (r: bool)
    ensures
        r == (*a == *b),
{
    a == b
}

/// The three rows of the launcher.
#[derive(Debug, Clone, Copy, PartialEq, Eq, Structural)]
pub enum Category {
    Apps,
    Games,
    System,
}

pub open spec fn category_title(c: Category) -> Seq<char> {
    match c {
        Category::Apps => "Apps"@,
        Category::Games => "Games"@,
        Category::System => "System"@,
    }
}

/// The category after `c`, wrapping around.
pub open spec fn category_next(c: Category) -> Category {
    match c {
        Category::Apps => Category::Games,
        Category::Games => Category::System,
        Category::System => Category::Apps,
    }
}

/// The category before `c`, wrapping around.
pub open spec fn category_prev(c: Category) -> Category {
    match c {
        Category::Apps => Category::System,
        Category::Games => Category::Apps,
        Category::System => Category::Games,
    }
}

impl Category {
    pub fn title(self) -> (r: &'static str)
        ensures
            r@ == category_title(self),
    {
        match self {
            Category::Apps => "Apps",
            Category::Games => "Games",
            Category::System => "System",
        }
    }

    pub fn next(self) -> (r: Self)
        ensures
            r == category_next(self),
    {
        match self {
            Category::Apps => Category::Games,
            Category::Games => Category::System,
            Category::System => Category::Apps,
        }
    }

    pub fn prev(self) -> (r: Self)
        ensures
            r == category_prev(self),
    {
        match self {
            Category::Apps => Category::System,
            Category::Games => Category::Apps,
            Category::System => Category::Games,
        }
    }
}

/// `next` and `prev` undo each other, and three steps in one direction come back.
pub proof fn law_category_cycle(c: Category)
    ensures
        category_prev(category_next(c)) == c,
        category_next(category_prev(c)) == c,
        category_next(category_next(category_next(c))) == c,
        category_prev(category_prev(category_prev(c))) == c,
        category_next(c) != c,
        category_prev(c) != c,
{
}

/// Input actions, from the gamepad or the keyboard.
#[derive(Debug, Clone, Copy, PartialEq, Eq, Structural)]
pub enum Action {
    Up,
    Down,
    Left,
    Right,
    Select,
    Back,
    NextCategory,
    PrevCategory,
    ContextMenu,
    AddApp,
    ShowHelp,
    Quit,
}

/// Icons drawn for the built-in system entries.
#[derive(Debug, Clone, Copy, PartialEq, Eq, Structural)]
pub enum SystemIcon {
    PowerOff,
    Pause,
    ArrowsRotate,
    ExitBracket,
}

/// What activating an item does.
#[derive(Debug, Clone)]
pub enum LauncherAction {
    Launch { command: String },
    SystemUpdate,
    SystemInfo,
    Shutdown,
    Suspend,
    Exit,
}

/// One entry of a category row.
#[derive(Debug, Clone)]
pub struct LauncherItem {
    pub id: Uuid,
    pub name: String,
    pub icon: Option<String>,
    pub system_icon: Option<SystemIcon>,
    pub action: LauncherAction,
    /// Source image URL (e.g., from Heroic) to use for fetching cover art
    pub source_image_url: Option<String>,
    pub game_executable: Option<String>,
    /// Stable identifier used to remember when the item was last started.
    pub launch_key: Option<String>,
    /// Unix timestamp (seconds) of the last start, if any.
    pub last_started: Option<i64>,
    /// The Steam app id, by which SteamGridDB finds the game's cover art.
    pub steam_appid: Option<String>,
}

/// A launchable entry as stored in the configuration or found by a scanner.
#[derive(Debug, Clone)]
pub struct AppEntry {
    pub id: Uuid,
    pub name: String,
    /// The command line that starts the entry.
    pub command: String,
    pub icon: Option<String>,
    pub game_executable: Option<String>,
    pub launch_key: Option<String>,
    /// The Steam app id, by which SteamGridDB finds the game's cover art.
    pub steam_appid: Option<String>,
}

pub open spec fn is_remote_icon(icon: Seq<char>) -> bool {
    starts_with(icon, "http://"@) || starts_with(icon, "https://"@)
}

pub open spec fn opt_view(o: Option<String>) -> Option<Seq<char>> {
    match o {
        Some(s) => Some(s@),
        None => None,
    }
}

pub open spec fn action_command(a: LauncherAction) -> Option<Seq<char>> {
    match a {
        LauncherAction::Launch { command } => Some(command@),
        _ => None,
    }
}

/// Does `icon` name a remote (http or https) image?
pub fn icon_is_remote(icon: &str) -> (r: bool)
    ensures
        r == is_remote_icon(icon@),
{
    let s = chars_of(icon);
    let http = chars_of("http://");
    let https = chars_of("https://");
    has_prefix(&s, &http) || has_prefix(&s, &https)
}

/// The item built from an entry: the entry's identity, name, command, program and
/// launch key, never started; a remote icon becomes the source of the cover art
/// instead of a local icon.
pub open spec fn item_from_entry(entry: AppEntry, r: LauncherItem) -> bool {
    &&& r.id == entry.id
    &&& r.name@ == entry.name@
    &&& action_command(r.action) == Some(entry.command@)
    &&& r.system_icon is None
    &&& r.game_executable == entry.game_executable
    &&& r.launch_key == entry.launch_key
    &&& r.steam_appid == entry.steam_appid
    &&& r.last_started is None
    &&& match entry.icon {
        Some(i) => if is_remote_icon(i@) {
            r.icon is None && opt_view(r.source_image_url) == Some(i@)
        } else {
            opt_view(r.icon) == Some(i@) && r.source_image_url is None
        },
        None => r.icon is None && r.source_image_url is None,
    }
}

impl LauncherItem {
    /// Builds an item from an entry.  A remote icon becomes the source of the cover
    /// art instead of a local icon.
    pub fn from_app_entry(entry: AppEntry) -> (r: Self)
        ensures
            r.id == entry.id,
            r.name@ == entry.name@,
            action_command(r.action) == Some(entry.command@),
            r.system_icon is None,
            r.game_executable == entry.game_executable,
            r.launch_key == entry.launch_key,
            r.steam_appid == entry.steam_appid,
            r.last_started is None,
            match entry.icon {
                Some(i) => if is_remote_icon(i@) {
                    r.icon is None && opt_view(r.source_image_url) == Some(i@)
                } else {
                    opt_view(r.icon) == Some(i@) && r.source_image_url is None
                },
                None => r.icon is None && r.source_image_url is None,
            },
            item_from_entry(entry, r),
    {
        let (icon, source_image_url) = match entry.icon {
            Some(icon_str) => {
                if icon_is_remote(icon_str.as_str()) {
                    (None, Some(icon_str))
                } else {
                    (Some(icon_str), None)
                }
            },
            None => (None, None),
        };
        LauncherItem {
            id: entry.id,
            name: entry.name,
            icon,
            system_icon: None,
            action: LauncherAction::Launch { command: entry.command },
            source_image_url,
            game_executable: entry.game_executable,
            launch_key: entry.launch_key,
            last_started: None,
            steam_appid: entry.steam_appid,
        }
    }

    fn builtin(
        name: String,
        icon: Option<String>,
        system_icon: Option<SystemIcon>,
        action: LauncherAction,
    ) -> (r: Self)
        ensures
            r.name == name,
            r.icon == icon,
            r.system_icon == system_icon,
            r.action == action,
            r.source_image_url is None,
            r.game_executable is None,
            r.launch_key is None,
            r.last_started is None,
            r.steam_appid is None,
    {
        LauncherItem {
            id: new_id(),
            name,
            icon,
            system_icon,
            action,
            source_image_url: None,
            game_executable: None,
            launch_key: None,
            last_started: None,
            steam_appid: None,
        }
    }

    pub fn system_update() -> (r: Self)
        ensures
            r.name@ == "Update System"@,
            r.icon is None,
            r.system_icon == Some(SystemIcon::ArrowsRotate),
            r.action is SystemUpdate,
            r.source_image_url is None && r.game_executable is None,
            r.launch_key is None && r.last_started is None,
    {
        Self::builtin(
            String::from_str("Update System"),
            None,
            Some(SystemIcon::ArrowsRotate),
            LauncherAction::SystemUpdate,
        )
    }

    pub fn system_info() -> (r: Self)
        ensures
            r.name@ == "System Info"@,
            r.icon is None,
            r.system_icon is None,
            r.action is SystemInfo,
            r.source_image_url is None && r.game_executable is None,
            r.launch_key is None && r.last_started is None,
    {
        Self::builtin(String::from_str("System Info"), None, None, LauncherAction::SystemInfo)
    }

    pub fn shutdown() -> (r: Self)
        ensures
            r.name@ == "Shutdown"@,
            opt_view(r.icon) == Some("assets/shutdown.svg"@),
            r.system_icon == Some(SystemIcon::PowerOff),
            r.action is Shutdown,
            r.source_image_url is None && r.game_executable is None,
            r.launch_key is None && r.last_started is None,
    {
        Self::builtin(
            String::from_str("Shutdown"),
            Some(String::from_str("assets/shutdown.svg")),
            Some(SystemIcon::PowerOff),
            LauncherAction::Shutdown,
        )
    }

    pub fn suspend() -> (r: Self)
        ensures
            r.name@ == "Suspend"@,
            opt_view(r.icon) == Some("assets/suspend.svg"@),
            r.system_icon == Some(SystemIcon::Pause),
            r.action is Suspend,
            r.source_image_url is None && r.game_executable is None,
            r.launch_key is None && r.last_started is None,
    {
        Self::builtin(
            String::from_str("Suspend"),
            Some(String::from_str("assets/suspend.svg")),
            Some(SystemIcon::Pause),
            LauncherAction::Suspend,
        )
    }

    pub fn exit() -> (r: Self)
        ensures
            r.name@ == "Exit Launcher"@,
            opt_view(r.icon) == Some("assets/exit.svg"@),
            r.system_icon == Some(SystemIcon::ExitBracket),
            r.action is Exit,
            r.source_image_url is None && r.game_executable is None,
            r.launch_key is None && r.last_started is None,
    {
        Self::builtin(
            String::from_str("Exit Launcher"),
            Some(String::from_str("assets/exit.svg")),
            Some(SystemIcon::ExitBracket),
            LauncherAction::Exit,
        )
    }
}

impl AppEntry {
    pub fn new(name: String, command: String, icon: Option<String>) -> (r: Self)
        ensures
            r.name == name,
            r.command == command,
            r.icon == icon,
            r.game_executable is None,
            r.launch_key is None,
            r.steam_appid is None,
    {
        AppEntry {
            id: new_id(),
            name,
            command,
            icon,
            game_executable: None,
            launch_key: None,
            steam_appid: None,
        }
    }

    pub fn with_executable(self, executable: Option<String>) -> (r: Self)
        ensures
            r == (AppEntry { game_executable: executable, ..self }),
    {
        let mut s = self;
        s.game_executable = executable;
        s
    }

    pub fn with_launch_key(self, launch_key: String) -> (r: Self)
        ensures
            r == (AppEntry { launch_key: Some(launch_key), ..self }),
    {
        let mut s = self;
        s.launch_key = Some(launch_key);
        s
    }

    pub fn with_steam_appid(self, appid: String) -> (r: Self)
        ensures
            r == (AppEntry { steam_appid: Some(appid), ..self }),
    {
        let mut s = self;
        s.steam_appid = Some(appid);
        s
    }
}

} // verus!
