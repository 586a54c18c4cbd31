use rhinco_tv::auth_flow::{AuthFlow, AuthFlowState};
use rhinco_tv::category_list::CategoryList;
use rhinco_tv::launcher::LaunchError;
use rhinco_tv::model::{AppEntry, Category, LauncherAction, LauncherItem};
use rhinco_tv::monitor::MonitorTarget;
use rhinco_tv::navigation::{Modal, NavState};
use rhinco_tv::session::{
    activation_for, app_items, apps_not_added, forget_removed, game_items, launch_failed,
    launch_monitor_target, picked_app_entry, record_launch, Activation, LaunchHistory,
};
use rhinco_tv::system_update_state::{SystemUpdateProgress, SystemUpdateState, UpdateStatus};

fn item(name: &str, key: Option<&str>) -> LauncherItem {
    LauncherItem {
        id: uuid::Uuid::new_v4(),
        name: name.to_string(),
        icon: None,
        system_icon: None,
        action: LauncherAction::Launch {
            command: format!("run-{}", name),
        },
        source_image_url: None,
        game_executable: None,
        launch_key: key.map(|k| k.to_string()),
        last_started: None,
        steam_appid: None,
    }
}

#[test]
fn history_reads_back_what_was_written() {
    let mut h = LaunchHistory::new();
    assert_eq!(h.get("steam:570"), None);
    h.insert("steam:570".to_string(), 100);
    h.insert("heroic:gog:g1".to_string(), 200);
    h.insert("steam:570".to_string(), 300);
    assert_eq!(h.get("steam:570"), Some(300));
    assert_eq!(h.get("heroic:gog:g1"), Some(200));
    assert_eq!(h.entries.len(), 2);
    h.remove("steam:570");
    assert_eq!(h.get("steam:570"), None);
    assert_eq!(h.get("heroic:gog:g1"), Some(200));
    h.remove("missing");
    assert_eq!(h.entries.len(), 1);
}

#[test]
fn activations_follow_the_item_action() {
    let mut game = item("Doom", None);
    game.game_executable = Some("doom.exe".to_string());
    match activation_for(&game) {
        Activation::Launch { command, game_executable } => {
            assert_eq!(command, "run-Doom");
            assert_eq!(game_executable, Some("doom.exe".to_string()));
        }
        _ => panic!("a launch"),
    }
    let off = LauncherItem { action: LauncherAction::Shutdown, ..item("Power Off", None) };
    match activation_for(&off) {
        Activation::SystemCommand { program, args, action } => {
            assert_eq!(program, "systemctl");
            assert_eq!(args, vec!["poweroff".to_string()]);
            assert_eq!(action, "shutdown");
        }
        _ => panic!("a system command"),
    }
    let sleep = LauncherItem { action: LauncherAction::Suspend, ..item("Suspend", None) };
    assert!(matches!(activation_for(&sleep), Activation::SystemCommand { ref args, .. } if args[0] == "suspend"));
    let upd = LauncherItem { action: LauncherAction::SystemUpdate, ..item("U", None) };
    assert!(matches!(activation_for(&upd), Activation::StartSystemUpdate));
    let info = LauncherItem { action: LauncherAction::SystemInfo, ..item("I", None) };
    assert!(matches!(activation_for(&info), Activation::OpenSystemInfo));
    let exit = LauncherItem { action: LauncherAction::Exit, ..item("E", None) };
    assert!(matches!(activation_for(&exit), Activation::Exit));
}

#[test]
fn started_process_is_watched_first() {
    match launch_monitor_target(42, Some(MonitorTarget::SteamAppId("570".to_string()))) {
        MonitorTarget::Any(v) => {
            assert_eq!(v.len(), 2);
            assert!(matches!(v[0], MonitorTarget::Pid(42)));
            assert!(matches!(&v[1], MonitorTarget::SteamAppId(a) if a == "570"));
        }
        _ => panic!("any"),
    }
    assert!(matches!(launch_monitor_target(7, None), MonitorTarget::Pid(7)));
}

#[test]
fn a_started_game_moves_to_the_front_and_is_remembered() {
    let a = item("Alpha", Some("k:a"));
    let b = item("Beta", Some("k:b"));
    let b_copy = b.clone();
    let mut nav = NavState::new(
        CategoryList::new(Vec::new()),
        CategoryList::new(vec![a, b]),
        CategoryList::new(Vec::new()),
    );
    nav.games.selected_index = 1;
    let mut h = LaunchHistory::new();
    let save = record_launch(&mut nav, &mut h, &b_copy, 1_700_000_000);
    assert!(save);
    assert_eq!(nav.games.items[0].name, "Beta");
    assert_eq!(nav.games.items[0].last_started, Some(1_700_000_000));
    assert_eq!(nav.games.selected_index, 0);
    assert_eq!(h.get("k:b"), Some(1_700_000_000));

    nav.category = Category::System;
    assert!(!record_launch(&mut nav, &mut h, &b_copy, 5));
    assert_eq!(h.get("k:b"), Some(1_700_000_000));

    forget_removed(&mut h, Category::Games, &b_copy);
    assert_eq!(h.get("k:b"), None);
}

#[test]
fn failed_starts_open_the_dialog_or_show_the_error() {
    let it = item("Gone", None);
    let mut nav = NavState::new(
        CategoryList::new(vec![it.clone()]),
        CategoryList::new(Vec::new()),
        CategoryList::new(Vec::new()),
    );
    nav.category = Category::Apps;
    launch_failed(&mut nav, &it, LaunchError::CommandNotFound { command: "gone".to_string() });
    match &nav.modal {
        Modal::AppNotFound { item_id, item_name, category, selected_index } => {
            assert_eq!(*item_id, it.id);
            assert_eq!(item_name, "Gone");
            assert_eq!(*category, Category::Apps);
            assert_eq!(*selected_index, 0);
        }
        _ => panic!("the dialog"),
    }
    let mut nav2 = NavState::new(
        CategoryList::new(Vec::new()),
        CategoryList::new(Vec::new()),
        CategoryList::new(Vec::new()),
    );
    launch_failed(&mut nav2, &it, LaunchError::EmptyCommand);
    assert_eq!(nav2.status_message, Some("No command specified to launch.".to_string()));
    assert!(matches!(nav2.modal, Modal::Closed));
}

#[test]
fn loaded_rows_get_keys_and_history() {
    let apps = app_items(vec![
        AppEntry::new("Firefox".to_string(), "firefox".to_string(), None),
        AppEntry::new("Keyed".to_string(), "k".to_string(), None).with_launch_key("mine".to_string()),
    ]);
    assert_eq!(apps[0].launch_key, Some("desktop:firefox".to_string()));
    assert_eq!(apps[1].launch_key, Some("mine".to_string()));

    let mut h = LaunchHistory::new();
    h.insert("steam:1".to_string(), 77);
    let games = game_items(
        vec![
            AppEntry::new("G1".to_string(), "a".to_string(), None).with_launch_key("steam:1".to_string()),
            AppEntry::new("G2".to_string(), "b".to_string(), None).with_launch_key("steam:2".to_string()),
            AppEntry::new("G3".to_string(), "c".to_string(), None),
        ],
        &h,
    );
    assert_eq!(games[0].last_started, Some(77));
    assert_eq!(games[1].last_started, None);
    assert_eq!(games[2].last_started, None);
}

#[test]
fn picker_offers_only_new_apps() {
    let items = vec![item("A", None)];
    let available = vec![
        AppEntry::new("A".to_string(), "run-A".to_string(), None),
        AppEntry::new("B".to_string(), "run-B".to_string(), None),
    ];
    let left = apps_not_added(available, &items);
    assert_eq!(left.len(), 1);
    assert_eq!(left[0].name, "B");
    let e = picked_app_entry(AppEntry::new("B".to_string(), "run-B".to_string(), None));
    assert_eq!(e.launch_key, Some("desktop:run-B".to_string()));
}

#[test]
fn update_progress_and_cancellation() {
    let mut s = SystemUpdateState::new();
    s.apply_progress(SystemUpdateProgress::LogLine("line".to_string()));
    s.apply_progress(SystemUpdateProgress::SpinnerTick);
    s.apply_progress(SystemUpdateProgress::StatusChange(UpdateStatus::CheckingUpdates));
    assert_eq!(s.output_log, vec!["line".to_string()]);
    assert_eq!(s.spinner_tick, 1);
    assert!(matches!(s.status, UpdateStatus::CheckingUpdates));
    s.cancel();
    assert!(matches!(&s.status, UpdateStatus::Failed(m) if m == "Update cancelled by user"));
    s.apply_progress(SystemUpdateProgress::StatusChange(UpdateStatus::NoUpdates));
    s.apply_progress(SystemUpdateProgress::LogLine("late".to_string()));
    assert!(matches!(&s.status, UpdateStatus::Failed(_)));
    assert_eq!(s.output_log.len(), 1);

    let mut inst = SystemUpdateState::new();
    inst.apply_progress(SystemUpdateProgress::StatusChange(UpdateStatus::Installing {
        current: 1,
        total: 3,
        package: "a".to_string(),
    }));
    inst.cancel();
    assert!(matches!(inst.status, UpdateStatus::Installing { .. }));
}

#[test]
fn the_password_is_answered_once() {
    let mut f = AuthFlow::new("[sudo] password:".to_string(), "Update needs rights".to_string());
    assert!(f.is_answer_owed());
    f.set_password("secret".to_string());
    assert_eq!(f.submit(), Some("secret".to_string()));
    assert!(matches!(f.state, AuthFlowState::Verifying));
    assert_eq!(f.password, "");
    assert_eq!(f.submit(), None);
    assert!(!f.cancel());

    let mut g = AuthFlow::new("p".to_string(), "m".to_string());
    g.set_password("x".to_string());
    assert!(g.cancel());
    assert!(matches!(&g.state, AuthFlowState::Failed { message } if message == "Authentication cancelled"));
    assert_eq!(g.password, "");
}

#[test]
fn steam_app_id_stays_with_a_game() {
    let entry = AppEntry::new("Dota 2".to_string(), "steam -applaunch 570".to_string(), None)
        .with_steam_appid("570".to_string());
    let items = game_items(vec![entry], &LaunchHistory::new());
    assert_eq!(items[0].steam_appid, Some("570".to_string()));
    let saved = rhinco_tv::session::saved_apps(&items);
    assert_eq!(saved[0].steam_appid, Some("570".to_string()));
}
