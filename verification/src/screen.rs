//! The launcher's screen as a state machine.  Each message updates the rows, the
//! open dialog, the installed apps offered for adding and the launch history, and
//! names the work that the front end does next: reading the configuration, scanning,
//! fetching cover art, starting a program, saving.  The window's size and scale,
//! the clock and the battery readings stay with the front end, which measures them;
//! it keeps `picker_cols`, the number of app picker columns that fit the window.
use uuid::Uuid;
use vstd::prelude::*;

use crate::category_list::{clamped_index, id_index, sorted_items, CategoryList};
use crate::launcher::LaunchError;
use crate::model::{
    action_command, item_from_entry, opt_view, Action, AppEntry, Category, LauncherAction, LauncherItem,
};
use crate::navigation::{list_of, navigation_ok, Modal, NavEffect, NavState};
use crate::session::{
    activation_for, activation_ok, app_item_ok, apps_not_added, desktop_key, forget_removed,
    game_item_ok, history_map, launch_failed, launch_failure_shown, launch_recorded, launchable,
    not_added, pairs_map, picked_app_entry, record_launch, saved_apps, saved_entry_ok, Activation,
    LaunchHistory,
};
use crate::system_info::GamingSystemInfo;
use crate::text::{chars_of, string_of};
use crate::system_update_state::{
    cancelled_message, progressed, status_running, SystemUpdateProgress, SystemUpdateState,
    UpdateStatus,
};

verus! {

/// The stored configuration as it was read: the configured apps, the SteamGridDB
/// key, and when each game was last started (by launch key).
pub struct AppConfig {
    pub apps: Vec<AppEntry>,
    pub steamgriddb_api_key: Option<String>,
    pub game_launch_history: Vec<(String, i64)>,
}

/// What happened: an answer to earlier work, or an input.
pub enum Message {
    /// The stored configuration, or why it could not be read.
    AppsLoaded(Result<AppConfig, String>),
    /// The games that the scanners found.
    GamesLoaded(Vec<AppEntry>),
    /// Cover art for the game with this id was stored at this path.
    ImageFetched(Uuid, String),
    Input(Action),
    OpenAppPicker,
    /// The installed applications that were found.
    AvailableAppsLoaded(Vec<AppEntry>),
    AddSelectedApp,
    CloseAppPicker,
    StartSystemUpdate,
    SystemUpdateProgress(SystemUpdateProgress),
    CloseSystemUpdateModal,
    CancelSystemUpdate,
    RequestReboot,
    OpenSystemInfo,
    SystemInfoLoaded(GamingSystemInfo),
    CloseSystemInfoModal,
    /// The started game or application has ended.
    GameExited,
    WindowOpened(u64),
    WindowFocused(u64),
    /// Whether the background check installed a new version of the launcher.
    AppUpdateResult(Result<bool, String>),
    RestartApp,
    /// Nothing happened.
    Nothing,
}

/// The work that the front end does after a message.
pub enum Command {
    Nothing,
    /// Read the stored configuration; the answer is `AppsLoaded`.
    LoadConfig,
    /// Look for installed games; the answer is `GamesLoaded`.
    ScanGames,
    /// Fetch cover art for the games row; each answer is `ImageFetched`.
    FetchCovers,
    /// Look for installed applications; the answer is `AvailableAppsLoaded`.
    ScanDesktopApps,
    /// Scroll the current row to its selection.
    SnapMain,
    /// Scroll the app picker to its selection.
    SnapPicker,
    /// Store `config()`.
    SaveConfig,
    /// Start the item with this id as `activation` says; the outcome is reported by
    /// `launch_started`, `launch_failed` or `command_failed`.
    Start { item_id: Uuid, activation: Activation },
    /// Show the on-screen keyboard.
    ShowKeyboard,
    /// Read the system information; the answer is `SystemInfoLoaded`.
    FetchSystemInfo,
    /// Restart the machine.
    Reboot,
    /// Check for a new version of the launcher; the answer is `AppUpdateResult`.
    CheckForUpdates,
    /// Send `RestartApp` after a short pause.
    RestartSoon,
    /// Start the launcher anew.
    Restart,
    /// Open a new window in place of this one; the answer is `WindowOpened`.
    ReopenWindow { old: u64 },
    /// Leave the launcher.
    Exit,
}

/// The screen: the rows, dialog and status line, what is loaded, the installed
/// apps the picker offers, whether a started program is running, the window, the
/// SteamGridDB key and the launch history.
pub struct Launcher {
    pub nav: NavState,
    pub available_apps: Vec<AppEntry>,
    pub apps_loaded: bool,
    pub games_loaded: bool,
    pub game_running: bool,
    pub window_id: Option<u64>,
    pub api_key: Option<String>,
    pub history: LaunchHistory,
    pub picker_cols: usize,
}

/// The system row: power off, suspend, the system update when the machine has a
/// supported update tool, system information, and leaving the launcher.
pub open spec fn system_row_ok(s: Seq<LauncherItem>, update_supported: bool) -> bool {
    if update_supported {
        &&& s.len() == 5
        &&& s[0].action is Shutdown
        &&& s[1].action is Suspend
        &&& s[2].action is SystemUpdate
        &&& s[3].action is SystemInfo
        &&& s[4].action is Exit
    } else {
        &&& s.len() == 4
        &&& s[0].action is Shutdown
        &&& s[1].action is Suspend
        &&& s[2].action is SystemInfo
        &&& s[3].action is Exit
    }
}

/// The launcher with a new dialog.
pub open spec fn with_modal(s: Launcher, m: Modal) -> Launcher {
    Launcher { nav: NavState { modal: m, ..s.nav }, ..s }
}

/// The number of columns of the app picker: as the front end measured, at least one.
pub open spec fn picker_columns(cols: usize) -> usize {
    if cols == 0 {
        1
    } else {
        cols
    }
}

impl Launcher {
    /// The picker's count of offered apps is the number of apps it offers, and the
    /// history holds each key once.
    pub open spec fn wf(&self) -> bool {
        &&& self.history.wf()
        &&& self.nav.modal matches Modal::AppPicker { available, .. } ==> available
            == self.available_apps@.len()
    }

    /// The screen at start: empty apps and games rows, the system row, the games
    /// row current; the configuration is read first.
    pub fn new(update_supported: bool) -> (r: (Self, Command))
        ensures
            r.0.wf(),
            r.0.nav.apps.items@.len() == 0,
            r.0.nav.apps.selected_index == 0,
            r.0.nav.games.items@.len() == 0,
            r.0.nav.games.selected_index == 0,
            system_row_ok(r.0.nav.system_items.items@, update_supported),
            r.0.nav.system_items.selected_index == 0,
            r.0.nav.category == Category::Games,
            r.0.nav.modal is Closed,
            r.0.nav.status_message is None,
            r.0.available_apps@.len() == 0,
            !r.0.apps_loaded && !r.0.games_loaded && !r.0.game_running,
            r.0.window_id is None,
            r.0.api_key is None,
            r.0.history.view() == Map::<Seq<char>, i64>::empty(),
            r.1 is LoadConfig,
    {
        let mut system: Vec<LauncherItem> = Vec::new();
        system.push(LauncherItem::shutdown());
        system.push(LauncherItem::suspend());
        if update_supported {
            system.push(LauncherItem::system_update());
        }
        system.push(LauncherItem::system_info());
        system.push(LauncherItem::exit());
        let launcher = Launcher {
            nav: NavState::new(
                CategoryList::new(Vec::new()),
                CategoryList::new(Vec::new()),
                CategoryList::new(system),
            ),
            available_apps: Vec::new(),
            apps_loaded: false,
            games_loaded: false,
            game_running: false,
            window_id: None,
            api_key: None,
            history: LaunchHistory::new(),
            picker_cols: 6,
        };
        (launcher, Command::LoadConfig)
    }
}

// ---------------------------------------------------------------------------
// Loading
// ---------------------------------------------------------------------------

/// The apps row after the configuration was read (or could not be): the configured
/// apps in display order, the status line cleared, the history and (when none was
/// known) the SteamGridDB key taken from it; on an error, an empty row and the error
/// in the status line.  Either way the apps count as loaded.
pub open spec fn apps_loaded_ok(o: Launcher, result: Result<AppConfig, String>, n: Launcher) -> bool {
    match result {
        Ok(cfg) => {
            &&& n == Launcher {
                nav: NavState { apps: n.nav.apps, status_message: None, ..o.nav },
                apps_loaded: true,
                api_key: n.api_key,
                history: n.history,
                ..o
            }
            &&& exists|x: Seq<LauncherItem>|
                #![trigger sorted_items(x)]
                sorted_items(x) == n.nav.apps.items@ && x.len() == cfg.apps@.len() && forall|i: int|
                    0 <= i < x.len() ==> app_item_ok(cfg.apps@[i], #[trigger] x[i])
            &&& n.nav.apps.selected_index == clamped_index(
                o.nav.apps.selected_index,
                cfg.apps@.len(),
            )
            &&& n.history.view() == pairs_map(cfg.game_launch_history@)
            &&& n.api_key == (if o.api_key is Some {
                o.api_key
            } else {
                cfg.steamgriddb_api_key
            })
        },
        Err(e) => {
            &&& n == Launcher {
                nav: NavState { apps: n.nav.apps, status_message: Some(e), ..o.nav },
                apps_loaded: true,
                ..o
            }
            &&& n.nav.apps.items@.len() == 0
            &&& n.nav.apps.selected_index == 0
        },
    }
}

/// The games row after a scan: the found games in display order, each with the
/// last start the history holds for it; the status line cleared.
pub open spec fn games_loaded_ok(o: Launcher, games: Seq<AppEntry>, n: Launcher) -> bool {
    &&& n == Launcher {
        nav: NavState { games: n.nav.games, status_message: None, ..o.nav },
        games_loaded: true,
        ..o
    }
    &&& exists|x: Seq<LauncherItem>|
        #![trigger sorted_items(x)]
        sorted_items(x) == n.nav.games.items@ && x.len() == games.len() && forall|i: int|
            0 <= i < x.len() ==> game_item_ok(games[i], o.history.view(), #[trigger] x[i])
    &&& n.nav.games.selected_index == clamped_index(o.nav.games.selected_index, games.len())
}

/// The games row after cover art arrived: the first game with that id shows it.
pub open spec fn image_fetched_ok(o: Launcher, id: Uuid, path: String, n: Launcher) -> bool {
    let items = o.nav.games.items@;
    &&& n == Launcher {
        nav: NavState { games: CategoryList { items: n.nav.games.items, ..o.nav.games }, ..o.nav },
        ..o
    }
    &&& n.nav.games.items@ == match id_index(items, id) {
        Some(k) => items.update(k, LauncherItem { icon: Some(path), ..items[k] }),
        None => items,
    }
}

impl Launcher {
    pub fn handle_apps_loaded(&mut self, result: Result<AppConfig, String>) -> (c: Command)
        requires
            old(self).wf(),
        ensures
            final(self).wf(),
            apps_loaded_ok(*old(self), result, *final(self)),
            c is ScanGames,
    {
        self.apps_loaded = true;
        match result {
            Ok(config) => {
                let AppConfig { apps, steamgriddb_api_key, game_launch_history } = config;
                let items = crate::session::app_items(apps);
                let ghost x = items@;
                self.nav.apps.set_items(items);
                self.nav.apps.sort_inplace();
                self.nav.status_message = None;
                self.history = LaunchHistory::from_pairs(game_launch_history);
                if self.api_key.is_none() {
                    self.api_key = steamgriddb_api_key;
                }
                assert(sorted_items(x) == self.nav.apps.items@);
            },
            Err(err) => {
                self.nav.apps.clear();
                self.nav.status_message = Some(err);
            },
        }
        Command::ScanGames
    }

    pub fn handle_games_loaded(&mut self, games: Vec<AppEntry>) -> (c: Command)
        requires
            old(self).wf(),
        ensures
            final(self).wf(),
            games_loaded_ok(*old(self), games@, *final(self)),
            c is FetchCovers,
    {
        let items = crate::session::game_items(games, &self.history);
        let ghost x = items@;
        self.nav.games.set_items(items);
        self.nav.games.sort_inplace();
        self.games_loaded = true;
        self.nav.status_message = None;
        assert(sorted_items(x) == self.nav.games.items@);
        Command::FetchCovers
    }

    pub fn handle_image_fetched(&mut self, id: Uuid, path: String) -> (c: Command)
        requires
            old(self).wf(),
        ensures
            final(self).wf(),
            image_fetched_ok(*old(self), id, path, *final(self)),
            c is Nothing,
    {
        proof {
            crate::category_list::lemma_id_index(self.nav.games.items@, id);
        }
        match self.nav.games.find_id(&id) {
            Some(k) => {
                let ghost before = self.nav.games.items@;
                let mut it = self.nav.games.items.remove(k);
                it.icon = Some(path);
                self.nav.games.items.insert(k, it);
                assert(self.nav.games.items@ =~= before.update(
                    k as int,
                    LauncherItem { icon: Some(path), ..before[k as int] },
                ));
            },
            None => {},
        }
        Command::Nothing
    }
}

// ---------------------------------------------------------------------------
// Dialogs
// ---------------------------------------------------------------------------

/// The app picker opened afresh: its first cell selected, nothing offered until
/// the scan answers.
pub open spec fn picker_opened_ok(o: Launcher, n: Launcher) -> bool {
    &&& n == Launcher {
        nav: NavState {
            modal: Modal::AppPicker { selected_index: 0, cols: 6, available: 0 },
            ..o.nav
        },
        available_apps: n.available_apps,
        ..o
    }
    &&& n.available_apps@.len() == 0
}

/// The installed apps arrived: the picker offers those whose command is not in the
/// apps row yet and, when it is open, selects its first cell and takes the number
/// of columns that fit the window.
pub open spec fn available_loaded_ok(o: Launcher, apps: Seq<AppEntry>, n: Launcher, c: Command) -> bool {
    &&& n.available_apps@ == not_added(apps, o.nav.apps.items@)
    &&& if o.nav.modal is AppPicker {
        &&& n == Launcher {
            nav: NavState {
                modal: Modal::AppPicker {
                    selected_index: 0,
                    cols: picker_columns(o.picker_cols),
                    available: n.available_apps@.len() as usize,
                },
                ..o.nav
            },
            available_apps: n.available_apps,
            ..o
        }
        &&& c is SnapPicker
    } else {
        n == Launcher { available_apps: n.available_apps, ..o } && c is Nothing
    }
}

/// The item made from an app picked in the picker: the app remembered under
/// `desktop:<command>`.
pub open spec fn picked_item_ok(app: AppEntry, it: LauncherItem) -> bool {
    &&& it.launch_key matches Some(k) && k@ == desktop_key(app.command@)
    &&& item_from_entry(AppEntry { launch_key: it.launch_key, ..app }, it)
}

/// The app selected in the picker added: it joins the apps row (in display order),
/// leaves the offered apps, the picker closes and the configuration is saved.
pub open spec fn app_added_ok(o: Launcher, n: Launcher, c: Command) -> bool {
    if o.nav.modal matches Modal::AppPicker { selected_index, .. } && selected_index
        < o.available_apps@.len() {
        let k = o.nav.modal->AppPicker_selected_index as int;
        let app = o.available_apps@[k];
        &&& n == Launcher {
            nav: NavState { apps: n.nav.apps, modal: Modal::Closed, ..o.nav },
            available_apps: n.available_apps,
            ..o
        }
        &&& n.available_apps@ == o.available_apps@.remove(k)
        &&& exists|it: LauncherItem|
            #![trigger picked_item_ok(app, it)]
            picked_item_ok(app, it) && n.nav.apps.items@ == sorted_items(
                o.nav.apps.items@.push(it),
            )
        &&& n.nav.apps.selected_index == clamped_index(
            o.nav.apps.selected_index,
            o.nav.apps.items@.len() + 1,
        )
        &&& c is SaveConfig
    } else {
        n == o && c is Nothing
    }
}

/// A fresh system update dialog.
pub open spec fn update_started_ok(o: Launcher, n: Launcher) -> bool {
    &&& n == with_modal(o, n.nav.modal)
    &&& n.nav.modal matches Modal::SystemUpdate(st) && st.status is Starting && st.spinner_tick
        == 0 && st.output_log@.len() == 0
}

/// The update dialog after a progress report (see `progressed`).
pub open spec fn update_progressed(st: SystemUpdateState, p: SystemUpdateProgress, st2: SystemUpdateState) -> bool {
    &&& st2.status == progressed(st, p).status
    &&& st2.spinner_tick == progressed(st, p).spinner_tick
    &&& st2.output_log@ == if status_running(st.status) && p is LogLine {
        st.output_log@.push(p->LogLine_0)
    } else {
        st.output_log@
    }
}

/// The update dialog after the user cancelled: failed as cancelled, unless
/// packages are being installed.
pub open spec fn update_cancelled(st: SystemUpdateState, st2: SystemUpdateState) -> bool {
    if st.status is Installing {
        st2 == st
    } else {
        &&& st2.status matches UpdateStatus::Failed(m) && m@ == cancelled_message()
        &&& st2.spinner_tick == st.spinner_tick
        &&& st2.output_log == st.output_log
    }
}

/// A progress report reaches the update dialog when it is open.
pub open spec fn progress_ok(o: Launcher, p: SystemUpdateProgress, n: Launcher) -> bool {
    if o.nav.modal is SystemUpdate {
        &&& n == with_modal(o, n.nav.modal)
        &&& n.nav.modal matches Modal::SystemUpdate(st2) && update_progressed(
            o.nav.modal->SystemUpdate_0,
            p,
            st2,
        )
    } else {
        n == o
    }
}

/// The user cancels the update shown in the dialog, if one is.
pub open spec fn cancel_ok(o: Launcher, n: Launcher) -> bool {
    if o.nav.modal is SystemUpdate {
        &&& n == with_modal(o, n.nav.modal)
        &&& n.nav.modal matches Modal::SystemUpdate(st2) && update_cancelled(
            o.nav.modal->SystemUpdate_0,
            st2,
        )
    } else {
        n == o
    }
}

/// The system information arrived; the dialog shows it if it is still open.
pub open spec fn info_loaded_ok(o: Launcher, info: GamingSystemInfo, n: Launcher) -> bool {
    if o.nav.modal is SystemInfo {
        n == with_modal(o, Modal::SystemInfo(Some(info)))
    } else {
        n == o
    }
}

impl Launcher {
    pub fn open_app_picker(&mut self) -> (c: Command)
        requires
            old(self).wf(),
        ensures
            final(self).wf(),
            picker_opened_ok(*old(self), *final(self)),
            c is ScanDesktopApps,
    {
        self.nav.modal = Modal::AppPicker { selected_index: 0, cols: 6, available: 0 };
        self.available_apps.clear();
        Command::ScanDesktopApps
    }

    pub fn handle_available_apps_loaded(&mut self, apps: Vec<AppEntry>) -> (c: Command)
        requires
            old(self).wf(),
        ensures
            final(self).wf(),
            available_loaded_ok(*old(self), apps@, *final(self), c),
    {
        self.available_apps = apps_not_added(apps, &self.nav.apps.items);
        if let Modal::AppPicker { .. } = self.nav.modal {
            let cols = if self.picker_cols == 0 {
                1
            } else {
                self.picker_cols
            };
            self.nav.modal = Modal::AppPicker {
                selected_index: 0,
                cols,
                available: self.available_apps.len(),
            };
            Command::SnapPicker
        } else {
            Command::Nothing
        }
    }

    pub fn add_selected_app(&mut self) -> (c: Command)
        requires
            old(self).wf(),
        ensures
            final(self).wf(),
            app_added_ok(*old(self), *final(self), c),
    {
        let selected = match self.nav.modal {
            Modal::AppPicker { selected_index, .. } => selected_index,
            _ => {
                return Command::Nothing;
            },
        };
        if selected < self.available_apps.len() {
            let app = self.available_apps.remove(selected);
            let ghost a = app;
            let entry = picked_app_entry(app);
            let item = LauncherItem::from_app_entry(entry);
            let ghost it = item;
            self.nav.apps.add_item(item);
            self.nav.modal = Modal::Closed;
            assert(picked_item_ok(a, it));
            Command::SaveConfig
        } else {
            Command::Nothing
        }
    }

    /// Closes the open dialog.
    pub fn close_modal(&mut self)
        requires
            old(self).wf(),
        ensures
            final(self).wf(),
            *final(self) == with_modal(*old(self), Modal::Closed),
    {
        self.nav.modal = Modal::Closed;
    }

    pub fn start_system_update(&mut self) -> (c: Command)
        requires
            old(self).wf(),
        ensures
            final(self).wf(),
            update_started_ok(*old(self), *final(self)),
            c is ShowKeyboard,
    {
        self.nav.modal = Modal::SystemUpdate(SystemUpdateState::new());
        Command::ShowKeyboard
    }

    pub fn handle_system_update_progress(&mut self, progress: SystemUpdateProgress)
        requires
            old(self).wf(),
        ensures
            final(self).wf(),
            progress_ok(*old(self), progress, *final(self)),
    {
        let mut modal = Modal::Closed;
        std::mem::swap(&mut modal, &mut self.nav.modal);
        match modal {
            Modal::SystemUpdate(mut st) => {
                st.apply_progress(progress);
                self.nav.modal = Modal::SystemUpdate(st);
            },
            other => {
                self.nav.modal = other;
            },
        }
    }

    pub fn cancel_system_update(&mut self)
        requires
            old(self).wf(),
        ensures
            final(self).wf(),
            cancel_ok(*old(self), *final(self)),
    {
        let mut modal = Modal::Closed;
        std::mem::swap(&mut modal, &mut self.nav.modal);
        match modal {
            Modal::SystemUpdate(mut st) => {
                st.cancel();
                self.nav.modal = Modal::SystemUpdate(st);
            },
            other => {
                self.nav.modal = other;
            },
        }
    }

    pub fn open_system_info(&mut self) -> (c: Command)
        requires
            old(self).wf(),
        ensures
            final(self).wf(),
            *final(self) == with_modal(*old(self), Modal::SystemInfo(None)),
            c is FetchSystemInfo,
    {
        self.nav.modal = Modal::SystemInfo(None);
        Command::FetchSystemInfo
    }

    pub fn handle_system_info_loaded(&mut self, info: GamingSystemInfo)
        requires
            old(self).wf(),
        ensures
            final(self).wf(),
            info_loaded_ok(*old(self), info, *final(self)),
    {
        if let Modal::SystemInfo(_) = self.nav.modal {
            self.nav.modal = Modal::SystemInfo(Some(info));
        }
    }
}

// ---------------------------------------------------------------------------
// Starting items and following the started program
// ---------------------------------------------------------------------------

/// Starting the selected item of the current row: the system update and system
/// information open their dialogs, the exit item leaves, anything else is started
/// by the front end as `activation_for` says.
pub open spec fn activated_ok(s: Launcher, n: Launcher, c: Command) -> bool {
    let l = list_of(s.nav, s.nav.category);
    if l.selected_index < l.items@.len() {
        let item = l.items@[l.selected_index as int];
        match item.action {
            LauncherAction::SystemUpdate => update_started_ok(s, n) && c is ShowKeyboard,
            LauncherAction::SystemInfo => n == with_modal(s, Modal::SystemInfo(None))
                && c is FetchSystemInfo,
            LauncherAction::Exit => n == s && c is Exit,
            _ => n == s && (c matches Command::Start { item_id, activation } && item_id == item.id
                && activation_ok(item, activation)),
        }
    } else {
        n == s && c is Nothing
    }
}

/// The launcher after a started program ended: no program runs any more; the
/// window, if there is one, is opened anew so that it regains the focus.
pub open spec fn game_exited_ok(o: Launcher, n: Launcher, c: Command) -> bool {
    &&& n == Launcher { game_running: false, ..o }
    &&& c == match o.window_id {
        Some(old) => Command::ReopenWindow { old },
        None => Command::Nothing,
    }
}

/// The status line after the check for a new launcher version: a notice, and a
/// restart soon, only when an update was installed.
pub open spec fn app_update_ok(o: Launcher, result: Result<bool, String>, n: Launcher, c: Command) -> bool {
    if result == Ok::<bool, String>(true) {
        &&& n == Launcher { nav: NavState { status_message: n.nav.status_message, ..o.nav }, ..o }
        &&& n.nav.status_message matches Some(m) && m@ == "App updated, restarting..."@
        &&& c is RestartSoon
    } else {
        n == o && c is Nothing
    }
}

impl Launcher {
    fn activate_selected(&mut self) -> (c: Command)
        requires
            old(self).wf(),
        ensures
            final(self).wf(),
            activated_ok(*old(self), *final(self), c),
    {
        let l = self.nav.current_category_list();
        let (activation, item_id) = match l.get_selected() {
            Some(item) => (activation_for(item), item.id),
            None => {
                return Command::Nothing;
            },
        };
        match activation {
            Activation::StartSystemUpdate => self.start_system_update(),
            Activation::OpenSystemInfo => self.open_system_info(),
            Activation::Exit => Command::Exit,
            _ => Command::Start { item_id, activation },
        }
    }

    /// The start of `item` at `now` succeeded: a program now runs, and the start is
    /// recorded as `record_launch` says; the result tells whether to save.
    pub fn launch_started(&mut self, item: &LauncherItem, now: i64) -> (save: bool)
        requires
            old(self).wf(),
        ensures
            final(self).wf(),
            *final(self) == (Launcher {
                nav: final(self).nav,
                history: final(self).history,
                game_running: true,
                ..*old(self)
            }),
            launch_recorded(
                old(self).nav,
                old(self).history.view(),
                *item,
                now,
                final(self).nav,
                final(self).history.view(),
                save,
            ),
    {
        self.game_running = true;
        record_launch(&mut self.nav, &mut self.history, item, now)
    }

    /// The start of `item` failed with `err` (see `launch_failed`).
    pub fn launch_failed(&mut self, item: &LauncherItem, err: LaunchError)
        requires
            old(self).wf(),
        ensures
            final(self).wf(),
            *final(self) == (Launcher { nav: final(self).nav, ..*old(self) }),
            launch_failure_shown(old(self).nav, *item, err, final(self).nav),
    {
        launch_failed(&mut self.nav, item, err);
    }

    /// A system program could not be run for `action`: the status line says so.
    pub fn command_failed(&mut self, action: &str, error: &str)
        requires
            old(self).wf(),
        ensures
            final(self).wf(),
            *final(self) == (Launcher {
                nav: NavState { status_message: final(self).nav.status_message, ..old(self).nav },
                ..*old(self)
            }),
            final(self).nav.status_message matches Some(m) && m@ == "Failed to "@ + action@ + ": "@
                + error@,
    {
        let a = crate::roms::concat(chars_of("Failed to ").as_slice(), chars_of(action).as_slice());
        let b = crate::roms::concat(a.as_slice(), chars_of(": ").as_slice());
        let m = crate::roms::concat(b.as_slice(), chars_of(error).as_slice());
        self.nav.status_message = Some(string_of(m.as_slice()));
    }

    pub fn handle_game_exited(&mut self) -> (c: Command)
        requires
            old(self).wf(),
        ensures
            final(self).wf(),
            game_exited_ok(*old(self), *final(self), c),
    {
        self.game_running = false;
        match self.window_id {
            Some(old) => Command::ReopenWindow { old },
            None => Command::Nothing,
        }
    }

    pub fn handle_window_opened(&mut self, id: u64) -> (c: Command)
        requires
            old(self).wf(),
        ensures
            final(self).wf(),
            *final(self) == (Launcher { window_id: Some(id), ..*old(self) }),
            c is CheckForUpdates,
    {
        self.window_id = Some(id);
        Command::CheckForUpdates
    }

    pub fn handle_app_update_result(&mut self, result: Result<bool, String>) -> (c: Command)
        requires
            old(self).wf(),
        ensures
            final(self).wf(),
            app_update_ok(*old(self), result, *final(self), c),
    {
        match crate::session::app_update_notice(result) {
            Some(m) => {
                self.nav.status_message = Some(m);
                Command::RestartSoon
            },
            None => Command::Nothing,
        }
    }
}

// ---------------------------------------------------------------------------
// Input and the message loop
// ---------------------------------------------------------------------------

/// What the screen does with the effect of a navigation step.
pub open spec fn effect_ok(s: Launcher, e: NavEffect, n: Launcher, c: Command) -> bool {
    match e {
        NavEffect::Nothing => n == s && c is Nothing,
        NavEffect::Exit => n == s && c is Exit,
        NavEffect::SnapMain => n == s && c is SnapMain,
        NavEffect::Activate => activated_ok(s, n, c),
        NavEffect::OpenAppPicker => {
            &&& n == Launcher { available_apps: n.available_apps, ..s }
            &&& n.available_apps@.len() == 0
            &&& c is ScanDesktopApps
        },
        NavEffect::AddSelectedApp => app_added_ok(s, n, c),
        NavEffect::CloseAppPicker => n == with_modal(s, Modal::Closed) && c is Nothing,
        NavEffect::SnapPicker => n == s && c is SnapPicker,
        NavEffect::RequestReboot => n == s && c is Reboot,
        NavEffect::CloseSystemUpdate => n == with_modal(s, Modal::Closed) && c is Nothing,
        NavEffect::CancelSystemUpdate => cancel_ok(s, n) && c is Nothing,
        NavEffect::CloseSystemInfo => n == with_modal(s, Modal::Closed) && c is Nothing,
        NavEffect::SaveApps { .. } => n == s && c is SaveConfig,
        NavEffect::RemovedMissing { category, item } => {
            &&& n == Launcher { history: n.history, ..s }
            &&& n.history.view() == match (category, item.launch_key) {
                (Category::Games, Some(k)) => s.history.view().remove(k@),
                _ => s.history.view(),
            }
            &&& c is SaveConfig
        },
    }
}

/// An input: a navigation step (see `navigation_ok`), then what its effect does.
pub open spec fn input_ok(o: Launcher, a: Action, n: Launcher, c: Command) -> bool {
    exists|mid: NavState, e: NavEffect|
        #![trigger navigation_ok(o.nav, a, mid, e)]
        navigation_ok(o.nav, a, mid, e) && effect_ok(Launcher { nav: mid, ..o }, e, n, c)
}

/// One message handled.
pub open spec fn update_ok(o: Launcher, m: Message, n: Launcher, c: Command) -> bool {
    match m {
        Message::AppsLoaded(r) => apps_loaded_ok(o, r, n) && c is ScanGames,
        Message::GamesLoaded(g) => games_loaded_ok(o, g@, n) && c is FetchCovers,
        Message::ImageFetched(id, path) => image_fetched_ok(o, id, path, n) && c is Nothing,
        Message::Input(a) => input_ok(o, a, n, c),
        Message::OpenAppPicker => picker_opened_ok(o, n) && c is ScanDesktopApps,
        Message::AvailableAppsLoaded(apps) => available_loaded_ok(o, apps@, n, c),
        Message::AddSelectedApp => app_added_ok(o, n, c),
        Message::CloseAppPicker => n == with_modal(o, Modal::Closed) && c is Nothing,
        Message::StartSystemUpdate => update_started_ok(o, n) && c is ShowKeyboard,
        Message::SystemUpdateProgress(p) => progress_ok(o, p, n) && c is Nothing,
        Message::CloseSystemUpdateModal => n == with_modal(o, Modal::Closed) && c is Nothing,
        Message::CancelSystemUpdate => cancel_ok(o, n) && c is Nothing,
        Message::RequestReboot => n == o && c is Reboot,
        Message::OpenSystemInfo => n == with_modal(o, Modal::SystemInfo(None)) && c is FetchSystemInfo,
        Message::SystemInfoLoaded(info) => info_loaded_ok(o, info, n) && c is Nothing,
        Message::CloseSystemInfoModal => n == with_modal(o, Modal::Closed) && c is Nothing,
        Message::GameExited => game_exited_ok(o, n, c),
        Message::WindowOpened(id) => n == (Launcher { window_id: Some(id), ..o })
            && c is CheckForUpdates,
        Message::WindowFocused(id) => c is Nothing && n == if o.window_id is None {
            Launcher { window_id: Some(id), ..o }
        } else {
            o
        },
        Message::AppUpdateResult(r) => app_update_ok(o, r, n, c),
        Message::RestartApp => n == o && c is Restart,
        Message::Nothing => n == o && c is Nothing,
    }
}

impl Launcher {
    fn apply_effect(&mut self, e: NavEffect) -> (c: Command)
        requires
            old(self).history.wf(),
            !(e is OpenAppPicker) ==> old(self).wf(),
            e is OpenAppPicker ==> old(self).nav.modal == (Modal::AppPicker {
                selected_index: 0,
                cols: 6,
                available: 0,
            }),
        ensures
            final(self).wf(),
            effect_ok(*old(self), e, *final(self), c),
    {
        match e {
            NavEffect::Nothing => Command::Nothing,
            NavEffect::Exit => Command::Exit,
            NavEffect::SnapMain => Command::SnapMain,
            NavEffect::Activate => self.activate_selected(),
            NavEffect::OpenAppPicker => {
                self.available_apps.clear();
                Command::ScanDesktopApps
            },
            NavEffect::AddSelectedApp => self.add_selected_app(),
            NavEffect::CloseAppPicker | NavEffect::CloseSystemUpdate | NavEffect::CloseSystemInfo => {
                self.close_modal();
                Command::Nothing
            },
            NavEffect::SnapPicker => Command::SnapPicker,
            NavEffect::RequestReboot => Command::Reboot,
            NavEffect::CancelSystemUpdate => {
                self.cancel_system_update();
                Command::Nothing
            },
            NavEffect::SaveApps { .. } => Command::SaveConfig,
            NavEffect::RemovedMissing { category, item } => {
                forget_removed(&mut self.history, category, &item);
                Command::SaveConfig
            },
        }
    }

    /// One input: the navigation step, then its effect.
    pub fn handle_navigation(&mut self, action: Action) -> (c: Command)
        requires
            old(self).wf(),
        ensures
            final(self).wf(),
            input_ok(*old(self), action, *final(self), c),
    {
        let e = self.nav.handle_navigation(action);
        let ghost mid = self.nav;
        let ghost e0 = e;
        assert(navigation_ok(old(self).nav, action, mid, e0));
        let c = self.apply_effect(e);
        c
    }

    /// Handles one message and says what the front end is to do next.
    pub fn update(&mut self, message: Message) -> (c: Command)
        requires
            old(self).wf(),
        ensures
            final(self).wf(),
            update_ok(*old(self), message, *final(self), c),
    {
        match message {
            Message::AppsLoaded(r) => self.handle_apps_loaded(r),
            Message::GamesLoaded(g) => self.handle_games_loaded(g),
            Message::ImageFetched(id, path) => self.handle_image_fetched(id, path),
            Message::Input(a) => self.handle_navigation(a),
            Message::OpenAppPicker => self.open_app_picker(),
            Message::AvailableAppsLoaded(apps) => self.handle_available_apps_loaded(apps),
            Message::AddSelectedApp => self.add_selected_app(),
            Message::CloseAppPicker | Message::CloseSystemUpdateModal
            | Message::CloseSystemInfoModal => {
                self.close_modal();
                Command::Nothing
            },
            Message::StartSystemUpdate => self.start_system_update(),
            Message::SystemUpdateProgress(p) => {
                self.handle_system_update_progress(p);
                Command::Nothing
            },
            Message::CancelSystemUpdate => {
                self.cancel_system_update();
                Command::Nothing
            },
            Message::RequestReboot => Command::Reboot,
            Message::OpenSystemInfo => self.open_system_info(),
            Message::SystemInfoLoaded(info) => {
                self.handle_system_info_loaded(info);
                Command::Nothing
            },
            Message::GameExited => self.handle_game_exited(),
            Message::WindowOpened(id) => self.handle_window_opened(id),
            Message::WindowFocused(id) => {
                if self.window_id.is_none() {
                    self.window_id = Some(id);
                }
                Command::Nothing
            },
            Message::AppUpdateResult(r) => self.handle_app_update_result(r),
            Message::RestartApp => Command::Restart,
            Message::Nothing => Command::Nothing,
        }
    }
}

// ---------------------------------------------------------------------------
// What is stored
// ---------------------------------------------------------------------------

/// The configuration stored for the screen: an entry for each launchable item of
/// the apps row, in order, the SteamGridDB key and the launch history.
pub open spec fn config_ok(s: Launcher, r: AppConfig) -> bool {
    let apps = launchable(s.nav.apps.items@);
    &&& r.apps@.len() == apps.len()
    &&& forall|i: int| 0 <= i < r.apps@.len() ==> saved_entry_ok(apps[i], #[trigger] r.apps@[i])
    &&& opt_view(r.steamgriddb_api_key) == opt_view(s.api_key)
    &&& pairs_map(r.game_launch_history@) == s.history.view()
}

impl Launcher {
    /// The configuration to store.
    pub fn config(&self) -> (r: AppConfig)
        ensures
            config_ok(*self, r),
    {
        let apps = saved_apps(&self.nav.apps.items);
        let api_key = match &self.api_key {
            Some(k) => Some(string_of(chars_of(k.as_str()).as_slice())),
            None => None,
        };
        let entries = &self.history.entries;
        let mut pairs: Vec<(String, i64)> = Vec::new();
        let mut i: usize = 0;
        while i < entries.len()
            invariant
                i <= entries@.len(),
                pairs_map(pairs@) == history_map(entries@.take(i as int)),
            decreases entries@.len() - i,
        {
            let key = string_of(chars_of(entries[i].key.as_str()).as_slice());
            let ghost before = pairs@;
            pairs.push((key, entries[i].started));
            assert(entries@.take(i + 1).drop_last() =~= entries@.take(i as int));
            assert(pairs@.drop_last() =~= before);
            i += 1;
        }
        assert(entries@.take(entries@.len() as int) =~= entries@);
        AppConfig { apps, steamgriddb_api_key: api_key, game_launch_history: pairs }
    }
}

/// What is stored is what is read back: loading the configuration that `config()`
/// gave, on a screen that knows no SteamGridDB key yet, restores the launch history
/// and the key, and fills the apps row with one item for each launchable item of
/// the saved row (same id, name and command), in display order.
pub proof fn law_saved_config_reloads(s: Launcher, r: AppConfig, o: Launcher, n: Launcher)
    requires
        config_ok(s, r),
        apps_loaded_ok(o, Ok(r), n),
        o.api_key is None,
    ensures
        n.history.view() == s.history.view(),
        opt_view(n.api_key) == opt_view(s.api_key),
        exists|x: Seq<LauncherItem>|
            #![trigger sorted_items(x)]
            {
                let l = launchable(s.nav.apps.items@);
                &&& n.nav.apps.items@ == sorted_items(x)
                &&& x.len() == l.len()
                &&& forall|i: int|
                    0 <= i < x.len() ==> (#[trigger] x[i]).id == l[i].id && x[i].name@ == l[i].name@
                        && action_command(x[i].action) == action_command(l[i].action)
            },
{
    let x = choose|x: Seq<LauncherItem>|
        #![trigger sorted_items(x)]
        sorted_items(x) == n.nav.apps.items@ && x.len() == r.apps@.len() && forall|i: int|
            0 <= i < x.len() ==> app_item_ok(r.apps@[i], #[trigger] x[i]);
    let l = launchable(s.nav.apps.items@);
    assert forall|i: int| 0 <= i < x.len() implies (#[trigger] x[i]).id == l[i].id && x[i].name@
        == l[i].name@ && action_command(x[i].action) == action_command(l[i].action) by {
        assert(app_item_ok(r.apps@[i], x[i]));
        assert(saved_entry_ok(l[i], r.apps@[i]));
    }
    assert(n.nav.apps.items@ == sorted_items(x));
}

} // verus!
