use rhinco_tv::launcher::LaunchError;
use rhinco_tv::model::{Action, AppEntry, Category, LauncherAction, LauncherItem};
use rhinco_tv::navigation::Modal;
use rhinco_tv::screen::{AppConfig, Command, Launcher, Message};
use rhinco_tv::session::Activation;
use rhinco_tv::system_info::{GamingSystemInfo, ZramInfo};
use rhinco_tv::system_update_state::{SystemUpdateProgress, UpdateStatus};

fn entry(name: &str, command: &str) -> AppEntry {
    AppEntry::new(name.to_string(), command.to_string(), None)
}

fn names(items: &[LauncherItem]) -> Vec<String> {
    items.iter().map(|i| i.name.clone()).collect()
}

fn loaded() -> Launcher {
    let (mut l, first) = Launcher::new(true);
    assert!(matches!(first, Command::LoadConfig));
    let config = AppConfig {
        apps: vec![entry("Zed", "zed"), entry("Firefox", "firefox")],
        steamgriddb_api_key: Some("key".to_string()),
        game_launch_history: vec![("steam:1".to_string(), 50)],
    };
    assert!(matches!(l.update(Message::AppsLoaded(Ok(config))), Command::ScanGames));
    l
}

fn info() -> GamingSystemInfo {
    GamingSystemInfo {
        os_name: "Linux".to_string(),
        kernel_version: "6.0".to_string(),
        cpu_model: "cpu".to_string(),
        memory_total: "8 GB".to_string(),
        memory_used: "1 GB".to_string(),
        gpu_info: "gpu".to_string(),
        gpu_driver: "driver".to_string(),
        vulkan_info: "vk".to_string(),
        xdg_session_type: "wayland".to_string(),
        wine_versions: vec![],
        proton_versions: vec![],
        disks: vec![],
        zram: ZramInfo::disabled(),
    }
}

#[test]
fn new_screen_shows_the_system_row() {
    let (l, c) = Launcher::new(true);
    assert!(matches!(c, Command::LoadConfig));
    let actions: Vec<&LauncherAction> = l.nav.system_items.items.iter().map(|i| &i.action).collect();
    assert!(matches!(
        actions.as_slice(),
        [
            LauncherAction::Shutdown,
            LauncherAction::Suspend,
            LauncherAction::SystemUpdate,
            LauncherAction::SystemInfo,
            LauncherAction::Exit
        ]
    ));
    assert_eq!(l.nav.category, Category::Games);
    assert!(l.nav.apps.items.is_empty() && l.nav.games.items.is_empty());
    let (without, _) = Launcher::new(false);
    assert_eq!(without.nav.system_items.items.len(), 4);
    assert!(!without
        .nav
        .system_items
        .items
        .iter()
        .any(|i| matches!(i.action, LauncherAction::SystemUpdate)));
}

#[test]
fn loaded_configuration_fills_the_apps_row() {
    let l = loaded();
    assert!(l.apps_loaded);
    assert_eq!(names(&l.nav.apps.items), vec!["Firefox", "Zed"]);
    assert_eq!(l.nav.apps.items[0].launch_key.as_deref(), Some("desktop:firefox"));
    assert_eq!(l.api_key.as_deref(), Some("key"));
    assert_eq!(l.history.get("steam:1"), Some(50));
    assert_eq!(l.nav.status_message, None);
}

#[test]
fn unreadable_configuration_is_reported() {
    let (mut l, _) = Launcher::new(false);
    l.nav.apps.set_items(vec![LauncherItem::exit()]);
    let c = l.update(Message::AppsLoaded(Err("broken".to_string())));
    assert!(matches!(c, Command::ScanGames));
    assert!(l.nav.apps.items.is_empty());
    assert_eq!(l.nav.status_message.as_deref(), Some("broken"));
    assert!(l.apps_loaded);
}

#[test]
fn a_known_key_is_kept() {
    let (mut l, _) = Launcher::new(false);
    l.api_key = Some("from-env".to_string());
    let config = AppConfig {
        apps: vec![],
        steamgriddb_api_key: Some("stored".to_string()),
        game_launch_history: vec![],
    };
    l.update(Message::AppsLoaded(Ok(config)));
    assert_eq!(l.api_key.as_deref(), Some("from-env"));
}

#[test]
fn games_take_their_last_start_from_the_history() {
    let mut l = loaded();
    let mut portal = entry("Portal", "steam -applaunch 1");
    portal.launch_key = Some("steam:1".to_string());
    let c = l.update(Message::GamesLoaded(vec![entry("Braid", "braid"), portal]));
    assert!(matches!(c, Command::FetchCovers));
    assert!(l.games_loaded);
    assert_eq!(names(&l.nav.games.items), vec!["Portal", "Braid"]);
    assert_eq!(l.nav.games.items[0].last_started, Some(50));
}

#[test]
fn cover_art_goes_to_its_game() {
    let mut l = loaded();
    l.update(Message::GamesLoaded(vec![entry("Braid", "braid"), entry("Celeste", "celeste")]));
    let id = l.nav.games.items[1].id;
    let c = l.update(Message::ImageFetched(id, "/cache/celeste.png".to_string()));
    assert!(matches!(c, Command::Nothing));
    assert_eq!(l.nav.games.items[1].icon.as_deref(), Some("/cache/celeste.png"));
    assert_eq!(l.nav.games.items[0].icon, None);
    l.update(Message::ImageFetched(uuid::Uuid::new_v4(), "/x.png".to_string()));
    assert_eq!(l.nav.games.items[0].icon, None);
}

#[test]
fn adding_an_app_through_the_picker() {
    let mut l = loaded();
    l.nav.category = Category::Apps;
    l.picker_cols = 4;
    assert!(matches!(l.update(Message::Input(Action::AddApp)), Command::ScanDesktopApps));
    assert!(matches!(l.nav.modal, Modal::AppPicker { available: 0, .. }));
    let c = l.update(Message::AvailableAppsLoaded(vec![
        entry("Firefox", "firefox"),
        entry("Gimp", "gimp"),
        entry("Kate", "kate"),
    ]));
    assert!(matches!(c, Command::SnapPicker));
    assert_eq!(
        l.available_apps.iter().map(|a| a.name.as_str()).collect::<Vec<_>>(),
        vec!["Gimp", "Kate"]
    );
    assert!(matches!(
        l.nav.modal,
        Modal::AppPicker {
            selected_index: 0,
            cols: 4,
            available: 2
        }
    ));
    assert!(matches!(l.update(Message::Input(Action::Right)), Command::SnapPicker));
    assert!(matches!(l.update(Message::Input(Action::Select)), Command::SaveConfig));
    assert!(matches!(l.nav.modal, Modal::Closed));
    assert_eq!(names(&l.nav.apps.items), vec!["Firefox", "Kate", "Zed"]);
    assert_eq!(l.nav.apps.items[1].launch_key.as_deref(), Some("desktop:kate"));
    assert_eq!(l.available_apps.len(), 1);
}

#[test]
fn picker_scan_after_closing_changes_no_dialog() {
    let mut l = loaded();
    let c = l.update(Message::AvailableAppsLoaded(vec![entry("Gimp", "gimp")]));
    assert!(matches!(c, Command::Nothing));
    assert!(matches!(l.nav.modal, Modal::Closed));
    assert!(matches!(l.update(Message::AddSelectedApp), Command::Nothing));
}

#[test]
fn starting_a_game_records_it() {
    let mut l = loaded();
    let mut portal = entry("Portal", "steam -applaunch 1");
    portal.launch_key = Some("steam:1".to_string());
    l.update(Message::GamesLoaded(vec![entry("Braid", "braid"), portal]));
    l.nav.games.selected_index = 1;
    let c = l.update(Message::Input(Action::Select));
    let braid = l.nav.games.items[1].clone();
    match c {
        Command::Start {
            item_id,
            activation: Activation::Launch { command, .. },
        } => {
            assert_eq!(item_id, braid.id);
            assert_eq!(command, "braid");
        }
        _ => panic!("expected a start"),
    }
    assert!(l.launch_started(&braid, 900));
    assert!(l.game_running);
    assert_eq!(names(&l.nav.games.items), vec!["Braid", "Portal"]);
    assert_eq!(l.nav.games.selected_index, 0);
    let config = l.config();
    assert_eq!(config.apps.len(), 2);
    assert_eq!(config.steamgriddb_api_key.as_deref(), Some("key"));
    l.window_id = Some(7);
    match l.update(Message::GameExited) {
        Command::ReopenWindow { old } => assert_eq!(old, 7),
        _ => panic!("expected the window to be opened anew"),
    }
    assert!(!l.game_running);
    assert!(matches!(l.update(Message::WindowOpened(8)), Command::CheckForUpdates));
    assert_eq!(l.window_id, Some(8));
}

#[test]
fn a_missing_program_offers_removal() {
    let mut l = loaded();
    l.nav.category = Category::Apps;
    let item = l.nav.apps.items[0].clone();
    l.launch_failed(
        &item,
        LaunchError::CommandNotFound {
            command: "firefox".to_string(),
        },
    );
    assert!(matches!(l.nav.modal, Modal::AppNotFound { selected_index: 0, .. }));
    assert!(matches!(l.update(Message::Input(Action::Select)), Command::SaveConfig));
    assert_eq!(names(&l.nav.apps.items), vec!["Zed"]);
    assert!(matches!(l.nav.modal, Modal::Closed));
}

#[test]
fn a_failed_system_command_is_shown() {
    let mut l = loaded();
    l.command_failed("shutdown", "permission denied");
    assert_eq!(
        l.nav.status_message.as_deref(),
        Some("Failed to shutdown: permission denied")
    );
}

#[test]
fn system_items_open_their_dialogs() {
    let (mut l, _) = Launcher::new(true);
    l.nav.category = Category::System;
    l.nav.system_items.selected_index = 2;
    assert!(matches!(l.update(Message::Input(Action::Select)), Command::ShowKeyboard));
    assert!(matches!(&l.nav.modal, Modal::SystemUpdate(st) if matches!(st.status, UpdateStatus::Starting)));
    l.update(Message::SystemUpdateProgress(SystemUpdateProgress::LogLine("sync".to_string())));
    l.update(Message::SystemUpdateProgress(SystemUpdateProgress::SpinnerTick));
    match &l.nav.modal {
        Modal::SystemUpdate(st) => {
            assert_eq!(st.output_log, vec!["sync".to_string()]);
            assert_eq!(st.spinner_tick, 1);
        }
        _ => panic!("expected the update dialog"),
    }
    assert!(matches!(l.update(Message::Input(Action::Back)), Command::Nothing));
    match &l.nav.modal {
        Modal::SystemUpdate(st) => {
            assert!(matches!(&st.status, UpdateStatus::Failed(m) if m == "Update cancelled by user"))
        }
        _ => panic!("expected the update dialog"),
    }
    l.update(Message::SystemUpdateProgress(SystemUpdateProgress::StatusChange(
        UpdateStatus::Downloading { package: None },
    )));
    assert!(matches!(&l.nav.modal, Modal::SystemUpdate(st) if matches!(st.status, UpdateStatus::Failed(_))));
    assert!(matches!(l.update(Message::Input(Action::Back)), Command::Nothing));
    assert!(matches!(l.nav.modal, Modal::Closed));

    l.nav.system_items.selected_index = 3;
    assert!(matches!(l.update(Message::Input(Action::Select)), Command::FetchSystemInfo));
    assert!(matches!(l.nav.modal, Modal::SystemInfo(None)));
    l.update(Message::SystemInfoLoaded(info()));
    assert!(matches!(&l.nav.modal, Modal::SystemInfo(Some(i)) if i.os_name == "Linux"));
    l.update(Message::CloseSystemInfoModal);
    assert!(matches!(l.nav.modal, Modal::Closed));

    l.nav.system_items.selected_index = 0;
    match l.update(Message::Input(Action::Select)) {
        Command::Start {
            activation: Activation::SystemCommand { program, args, .. },
            ..
        } => {
            assert_eq!(program, "systemctl");
            assert_eq!(args, vec!["poweroff".to_string()]);
        }
        _ => panic!("expected a system command"),
    }
    l.nav.system_items.selected_index = 4;
    assert!(matches!(l.update(Message::Input(Action::Select)), Command::Exit));
}

#[test]
fn an_installed_update_restarts_the_launcher() {
    let mut l = loaded();
    assert!(matches!(l.update(Message::AppUpdateResult(Ok(false))), Command::Nothing));
    assert_eq!(l.nav.status_message, None);
    assert!(matches!(
        l.update(Message::AppUpdateResult(Err("offline".to_string()))),
        Command::Nothing
    ));
    assert!(matches!(l.update(Message::AppUpdateResult(Ok(true))), Command::RestartSoon));
    assert_eq!(l.nav.status_message.as_deref(), Some("App updated, restarting..."));
    assert!(matches!(l.update(Message::RestartApp), Command::Restart));
}

#[test]
fn the_first_focused_window_is_kept() {
    let (mut l, _) = Launcher::new(false);
    l.update(Message::WindowFocused(3));
    l.update(Message::WindowFocused(4));
    assert_eq!(l.window_id, Some(3));
    assert!(matches!(l.update(Message::GameExited), Command::ReopenWindow { old: 3 }));
}

#[test]
fn saved_configuration_reloads() {
    let mut l = loaded();
    l.history.insert("heroic:legendary:x".to_string(), 70);
    let saved = l.config();
    let (mut fresh, _) = Launcher::new(true);
    fresh.update(Message::AppsLoaded(Ok(saved)));
    assert_eq!(names(&fresh.nav.apps.items), names(&l.nav.apps.items));
    assert_eq!(fresh.history.get("steam:1"), Some(50));
    assert_eq!(fresh.history.get("heroic:legendary:x"), Some(70));
    assert_eq!(fresh.api_key.as_deref(), Some("key"));
}

#[test]
fn quitting_leaves_from_any_dialog() {
    let mut l = loaded();
    l.update(Message::Input(Action::ShowHelp));
    assert!(matches!(l.nav.modal, Modal::Help));
    assert!(matches!(l.update(Message::Input(Action::Quit)), Command::Exit));
}

#[test]
fn test_navigation_memory() {
    let (mut launcher, _) = Launcher::new(true);
    launcher
        .nav
        .apps
        .set_items(vec![LauncherItem::exit(), LauncherItem::exit()]);
    launcher.nav.games.set_items(vec![
        LauncherItem::exit(),
        LauncherItem::exit(),
        LauncherItem::exit(),
    ]);

    launcher.nav.category = Category::Apps;
    launcher.nav.apps.selected_index = 0;

    let _ = launcher.handle_navigation(Action::Right);
    assert_eq!(launcher.nav.apps.selected_index, 1);

    let _ = launcher.handle_navigation(Action::Up);
    assert_eq!(launcher.nav.category, Category::Games);
    assert_eq!(launcher.nav.games.selected_index, 0);

    let _ = launcher.handle_navigation(Action::Right);
    assert_eq!(launcher.nav.games.selected_index, 1);

    let _ = launcher.handle_navigation(Action::Down);
    assert_eq!(launcher.nav.category, Category::Apps);
    assert_eq!(launcher.nav.apps.selected_index, 1);
}

#[test]
fn test_bounds_checking() {
    let (mut launcher, _) = Launcher::new(true);
    launcher.nav.apps.set_items(vec![LauncherItem::exit()]);
    launcher.nav.category = Category::Apps;
    launcher.nav.apps.selected_index = 0;

    let _ = launcher.handle_navigation(Action::Right);
    assert_eq!(launcher.nav.apps.selected_index, 0);

    let _ = launcher.handle_navigation(Action::Left);
    assert_eq!(launcher.nav.apps.selected_index, 0);
}
