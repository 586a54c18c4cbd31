use rhinco_tv::entries::sort_and_dedup_games;
use rhinco_tv::game_sources::{steam_apps_dir, steam_library_file, steam_roots};
use rhinco_tv::heroic::{heroic_library_files, heroic_roots};
use rhinco_tv::launcher::{split_exec_tokens, LaunchError};
use rhinco_tv::model::AppEntry;
use rhinco_tv::osk::{detect_backend, is_available, OskBackend};
use rhinco_tv::system_update_state::{SystemUpdateState, UpdateStatus};
use rhinco_tv::virtual_keyboard::{KeyboardMessage, KeyboardOutput, VirtualKeyboard};

#[test]
fn a_failed_start_names_the_command_first() {
    let err = LaunchError::LaunchFailed {
        command: "retroarch".to_string(),
        source: std::io::Error::new(std::io::ErrorKind::Other, "boom"),
    };
    let m = err.message();
    assert!(m.starts_with("Failed to launch `retroarch`: "));
    assert_eq!(LaunchError::EmptyCommand.message(), "No command specified to launch.");
}

#[test]
fn plain_command_lines_split_at_whitespace() {
    for line in ["  steam  -applaunch 570 ", "mupen64plus\t--fullscreen /roms/a.z64", "", "   "] {
        let expected: Vec<String> = line.split_whitespace().map(String::from).collect();
        assert_eq!(split_exec_tokens(line), expected);
    }
}

#[test]
fn typed_text_never_outgrows_its_limit() {
    // The start value is longer than the limit: typing adds nothing, erasing works.
    let mut k = VirtualKeyboard::new("abcd".to_string()).with_max_length(2);
    assert!(matches!(k.handle_message(KeyboardMessage::Press(1, 0)), KeyboardOutput::Nothing));
    assert_eq!(k.value(), "abcd");
    k.backspace();
    k.backspace();
    assert_eq!(k.value(), "ab");
    assert!(matches!(k.handle_message(KeyboardMessage::Press(1, 0)), KeyboardOutput::Nothing));
    k.backspace();
    assert!(matches!(k.handle_message(KeyboardMessage::Press(1, 0)), KeyboardOutput::Input(s) if s == "aq"));
    for _ in 0..5 {
        k.move_right();
        k.select_current();
        k.move_down();
        k.select_current();
        assert!(k.value().len() <= 4);
    }
    assert!(k.value().len() <= 2);
}

#[test]
fn found_games_hold_no_repeats() {
    let e = |n: &str, c: &str| AppEntry::new(n.to_string(), c.to_string(), None);
    let games = sort_and_dedup_games(vec![
        e("Zelda", "z"),
        e("Mario", "m"),
        e("Zelda", "z"),
        e("Mario", "m2"),
        e("Mario", "m"),
    ]);
    let pairs: Vec<(String, String)> = games.iter().map(|g| (g.name.clone(), g.command.clone())).collect();
    assert_eq!(
        pairs,
        vec![
            ("Mario".to_string(), "m".to_string()),
            ("Mario".to_string(), "m2".to_string()),
            ("Zelda".to_string(), "z".to_string()),
        ]
    );
}

#[test]
fn availability_agrees_with_detection() {
    for available in [vec![], vec![OskBackend::Squeekboard], vec![OskBackend::KdePlasma, OskBackend::Wvkbd]] {
        let test = |b: OskBackend| available.contains(&b);
        assert_eq!(is_available(test), detect_backend(test).is_some());
    }
}

#[test]
fn steam_and_heroic_places() {
    assert_eq!(
        steam_roots("/home/u"),
        vec!["/home/u/.steam/steam", "/home/u/.local/share/Steam", "/home/u/.steam/root"]
    );
    assert_eq!(steam_library_file("/s/"), "/s/steamapps/libraryfolders.vdf");
    assert_eq!(steam_apps_dir("/lib"), "/lib/steamapps");
    assert_eq!(
        heroic_roots("/home/u/.config", "/home/u"),
        vec![
            "/home/u/.config/heroic",
            "/home/u/.var/app/com.heroicgameslauncher.hgl/config/heroic"
        ]
    );
    let files = heroic_library_files("/h");
    assert_eq!(files.len(), 5);
    assert_eq!(files[0], ("/h/store_cache/legendary_library.json".to_string(), "legendary".to_string()));
    assert_eq!(files[3], ("/h/sideload_apps/library.json".to_string(), "sideload".to_string()));
    assert_eq!(files[4], ("/h/store_cache/sideload_cache.json".to_string(), "sideload".to_string()));
}

fn state(status: UpdateStatus) -> SystemUpdateState {
    let mut s = SystemUpdateState::new();
    s.status = status;
    s
}

#[test]
fn the_update_dialog_texts() {
    let installing = state(UpdateStatus::Installing {
        current: 3,
        total: 12,
        package: "mesa".to_string(),
    });
    assert_eq!(installing.status_message(), "Installing 3/12 \nmesa");
    assert_eq!(installing.hint(), "Installing... (Cannot cancel)");
    let mut spinning = state(UpdateStatus::Starting);
    spinning.spinner_tick = 5;
    assert_eq!(spinning.status_icon(), '\u{25D3}');
    assert_eq!(spinning.status_message(), "Preparing update...");
    assert_eq!(spinning.hint(), "Press B or Esc to Cancel");
    let done = state(UpdateStatus::Completed { restart_required: true });
    assert_eq!(done.status_icon(), '\u{2713}');
    assert_eq!(done.hint(), "Press Enter/A to Restart, or Esc/B to Postpone");
    let failed = state(UpdateStatus::Failed("conflict".to_string()));
    assert_eq!(failed.status_icon(), '\u{2717}');
    assert_eq!(failed.detail().as_deref(), Some("conflict\n\nManual intervention is required."));
    let manual = state(UpdateStatus::Failed("Manual Intervention needed".to_string()));
    assert_eq!(manual.detail().as_deref(), Some("Manual Intervention needed"));
    assert_eq!(manual.hint(), "Press B or Esc to close");
    assert_eq!(state(UpdateStatus::NoUpdates).detail(), None);
}
