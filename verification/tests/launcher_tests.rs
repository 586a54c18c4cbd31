use rhinco_tv::launcher::{
    check_launch, create_app_monitor_target, extract_executable_name, extract_executable_token,
    resolve_monitor_target, should_skip_command_check, split_exec_tokens, LaunchError,
};
use rhinco_tv::monitor::MonitorTarget;
use rhinco_tv::model::AppEntry;

#[test]
fn test_extract_executable_token() {
    assert_eq!(
        extract_executable_token("env LANG=C /usr/bin/firefox %u"),
        Some("/usr/bin/firefox".into())
    );
    assert_eq!(
        extract_executable_token("\"/opt/My Game/game\" --flag"),
        Some("/opt/My Game/game".into())
    );
    assert_eq!(extract_executable_token(""), None);
}

#[test]
fn test_extract_executable_name() {
    assert_eq!(extract_executable_name("firefox"), Some("firefox".into()));
    assert_eq!(
        extract_executable_name("/usr/bin/firefox"),
        Some("firefox".into())
    );
    assert_eq!(
        extract_executable_name("firefox --new-window"),
        Some("firefox".into())
    );
    assert_eq!(
        extract_executable_name("firefox %u"),
        Some("firefox".into())
    );
    assert_eq!(
        extract_executable_name("nautilus %U"),
        Some("nautilus".into())
    );
    assert_eq!(
        extract_executable_name("env LANG=C firefox"),
        Some("firefox".into())
    );
    assert_eq!(
        extract_executable_name("env VAR1=a VAR2=b /usr/bin/app"),
        Some("app".into())
    );
    assert_eq!(
        extract_executable_name("\"/opt/My Game/game\" --flag"),
        Some("game".into())
    );
    assert_eq!(
        extract_executable_name("/opt/My\\ Game/game --flag"),
        Some("game".into())
    );
    assert_eq!(
        extract_executable_name("env VAR=1 \"/opt/My Game/game\" --flag"),
        Some("game".into())
    );
    assert_eq!(extract_executable_name(""), None);
}

#[test]
fn test_verify_command_exists_skips_shell_expansion() {
    assert!(should_skip_command_check("~/.local/bin/app"));
    assert!(should_skip_command_check("$HOME/.local/bin/app"));
    assert!(should_skip_command_check("cd /tmp && ./app"));
    assert!(should_skip_command_check("echo foo | sed 's/foo/bar/'"));
}

#[test]
fn test_create_app_monitor_target() {
    let target = create_app_monitor_target("firefox", "Mozilla Firefox");
    assert!(matches!(target, MonitorTarget::Any(t) if t.len() == 2));

    let target = create_app_monitor_target("firefox", "Firefox");
    assert!(matches!(target, MonitorTarget::CmdLineContains(s) if s == "firefox"));

    let target = create_app_monitor_target("firefox", "firefox");
    assert!(matches!(target, MonitorTarget::CmdLineContains(s) if s == "firefox"));
}

#[test]
fn split_exec_tokens_keeps_quoted_spaces() {
    assert_eq!(
        split_exec_tokens("\"/opt/My Game/game\" --flag"),
        vec!["/opt/My Game/game".to_string(), "--flag".to_string()]
    );
    assert_eq!(
        split_exec_tokens("a\\ b c"),
        vec!["a b".to_string(), "c".to_string()]
    );
    assert_eq!(split_exec_tokens(""), Vec::<String>::new());
}

#[test]
fn check_launch_reports_each_error() {
    assert!(matches!(check_launch("", true), Err(LaunchError::EmptyCommand)));
    assert!(matches!(check_launch("   ", true), Err(LaunchError::EmptyCommand)));
    match check_launch("definitely-missing-tool --flag", false) {
        Err(LaunchError::CommandNotFound { command }) => {
            assert_eq!(command, "definitely-missing-tool")
        }
        _ => panic!("expected a missing command"),
    }
    assert!(check_launch("firefox", true).is_ok());
}

#[test]
fn steam_launch_is_monitored_by_app_id() {
    let t = resolve_monitor_target("steam -applaunch 570 ", "Dota 2", None);
    assert!(matches!(t, Some(MonitorTarget::SteamAppId(id)) if id == "570"));
}

#[test]
fn heroic_launch_is_monitored_by_name_and_executable() {
    let exe = "game.exe".to_string();
    let t = resolve_monitor_target(
        "xdg-open heroic://launch/legendary/Fortnite%20Game",
        "Fort: Nite",
        Some(&exe),
    );
    match t {
        Some(MonitorTarget::Any(targets)) => {
            assert_eq!(targets.len(), 5);
            assert!(matches!(&targets[0], MonitorTarget::EnvVarEq(k, v) if k == "LEGENDARY_GAME_ID" && v == "Fortnite Game"));
            assert!(matches!(&targets[1], MonitorTarget::EnvVarEq(k, v) if k == "HeroicAppName" && v == "Fortnite Game"));
            assert!(matches!(&targets[2], MonitorTarget::CmdLineContains(s) if s == "Fort: Nite"));
            assert!(matches!(&targets[3], MonitorTarget::CmdLineContains(s) if s == "game.exe"));
            assert!(matches!(&targets[4], MonitorTarget::CmdLineContains(s) if s == "Fort Nite"));
        }
        _ => panic!("expected several targets"),
    }
}

#[test]
fn plain_app_is_monitored_by_command_line() {
    let t = resolve_monitor_target("firefox", "Firefox", None);
    assert!(matches!(t, Some(MonitorTarget::CmdLineContains(s)) if s == "firefox"));
}

#[test]
fn test_deduplication_logic() {
    let games = vec![
        AppEntry::new("Game".to_string(), "exec1".to_string(), None),
        AppEntry::new("Game".to_string(), "exec2".to_string(), None),
        AppEntry::new("Game".to_string(), "exec1".to_string(), None),
    ];

    // Sort and deduplicate as the game scan does
    let games = rhinco_tv::entries::sort_and_dedup_games(games);

    assert_eq!(games.len(), 2);
    assert_eq!(games[0].command, "exec1");
    assert_eq!(games[1].command, "exec2");
}

#[test]
fn heroic_name_that_does_not_decode_falls_back_to_the_command_line() {
    let exec = "xdg-open heroic://launch/legendary/Bad%FFName";
    let t = resolve_monitor_target(exec, "Bad", None);
    let fallback = create_app_monitor_target(exec, "Bad");
    assert_eq!(format!("{:?}", t), format!("{:?}", Some(fallback)));
    assert!(!matches!(t, Some(MonitorTarget::Any(ref v)) if matches!(&v[0], MonitorTarget::EnvVarEq(..))));

    let plain = resolve_monitor_target("xdg-open heroic://launch/gog/1207658924", "Plain", None);
    match plain {
        Some(MonitorTarget::Any(targets)) => {
            assert!(matches!(&targets[0], MonitorTarget::EnvVarEq(k, v) if k == "LEGENDARY_GAME_ID" && v == "1207658924"));
        }
        _ => panic!("expected several targets"),
    }
}
