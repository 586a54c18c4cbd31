use rhinco_tv::system_update::{
    check_restart_required, classify_line, detect_aur_helper, drain_output, finish_output,
    get_update_command,
    is_interactive_prompt_line, parse_building_package, parse_downloading_package,
    parse_install_progress, parse_output_line, pending_prompt, take_line, update_exit_status,
    update_start, LineOutcome,
};
use rhinco_tv::system_update_state::{SystemUpdateProgress, SystemUpdateState, UpdateStatus};

#[test]
fn test_parse_install_progress_simple() {
    let line = "(1/5) installing firefox...";
    let result = parse_install_progress(line);
    assert_eq!(result, Some((1, 5, "firefox".to_string())));
}

#[test]
fn test_parse_downloading() {
    let line = " linux-firmware-20230804.7be2766d-2-any downloading...";
    let result = parse_downloading_package(line);
    assert_eq!(
        result,
        Some("linux-firmware-20230804.7be2766d-2-any".to_string())
    );
}

#[test]
fn test_parse_building_package() {
    let line = "==> Making package: topgrade-bin 16.8.0-1 (Sa 10 Jan 2026 13:23:20 CET)";
    let result = parse_building_package(line);
    assert_eq!(result, Some("topgrade-bin".to_string()));
}

#[test]
fn test_is_interactive_prompt() {
    assert!(is_interactive_prompt_line(
        ":: Proceed with installation? [Y/n]"
    ));
    assert!(is_interactive_prompt_line(":: Import PGP key 123? [y/N]"));
    assert!(is_interactive_prompt_line(
        "Enter a selection (default=all):"
    ));
    assert!(is_interactive_prompt_line("Enter a number (default=1):"));
    assert!(!is_interactive_prompt_line("installing package..."));
    assert!(!is_interactive_prompt_line(
        "Downloading (default=all): file"
    ));
    assert!(!is_interactive_prompt_line("random [Y/n]"));
}

#[test]
fn install_progress_rejects_malformed_counters() {
    assert_eq!(parse_install_progress("installing firefox"), None);
    assert_eq!(parse_install_progress("(a/5) installing firefox"), None);
    assert_eq!(parse_install_progress("(1/5) installing"), None);
    assert_eq!(parse_install_progress("(5) installing x"), None);
    assert_eq!(parse_install_progress(") / ( x y"), None);
    assert_eq!(
        parse_install_progress("  ( +2 / 10 ) upgrading glibc......  "),
        Some((2, 10, "glibc".to_string()))
    );
    assert_eq!(
        parse_install_progress("(99999999999999999999999/5) installing x"),
        None
    );
}

#[test]
fn building_and_downloading_need_their_shapes() {
    assert_eq!(parse_building_package("==> Making package:"), None);
    assert_eq!(parse_building_package("==> Making package: x"), Some("x".to_string()));
    assert_eq!(parse_building_package("Making package: a b c"), None);
    assert_eq!(parse_downloading_package("downloading..."), Some("downloading...".to_string()));
    assert_eq!(parse_downloading_package("pkg downloading"), None);
}

#[test]
fn restart_needed_for_kernel_and_drivers() {
    assert!(check_restart_required(&["linux".to_string()]));
    assert!(check_restart_required(&["firefox".to_string(), "nvidia-utils".to_string()]));
    assert!(check_restart_required(&["linux-firmware".to_string()]));
    assert!(!check_restart_required(&["linuxconsole".to_string()]));
    assert!(!check_restart_required(&["firefox".to_string()]));
    assert!(!check_restart_required(&[]));
}

#[test]
fn update_command_prefers_yay_then_paru_then_pacman() {
    assert_eq!(detect_aur_helper(true, true), Some("yay"));
    assert_eq!(detect_aur_helper(false, true), Some("paru"));
    assert_eq!(detect_aur_helper(false, false), None);
    assert_eq!(
        get_update_command(true, false, true),
        Some((
            "yay",
            vec!["-Syu", "--noconfirm", "--answerdiff=None", "--answerclean=None"]
        ))
    );
    assert_eq!(
        get_update_command(false, true, true),
        Some(("paru", vec!["-Syu", "--noconfirm", "--skipreview"]))
    );
    assert_eq!(
        get_update_command(false, false, true),
        Some(("pacman", vec!["-Syu", "--noconfirm"]))
    );
    assert_eq!(get_update_command(false, false, false), None);
}

fn status_of(line: &str) -> (Vec<SystemUpdateProgress>, Vec<String>) {
    let mut pkgs = Vec::new();
    let events = parse_output_line(line, &mut pkgs);
    (events, pkgs)
}

#[test]
fn output_lines_announce_stages() {
    let (e, p) = status_of(":: Synchronizing package databases...");
    assert!(matches!(&e[0], SystemUpdateProgress::LogLine(l) if l == ":: Synchronizing package databases..."));
    assert!(matches!(&e[1], SystemUpdateProgress::StatusChange(UpdateStatus::SyncingDatabases)));
    assert!(p.is_empty());

    let (e, _) = status_of(":: Starting full system upgrade...");
    assert!(matches!(&e[1], SystemUpdateProgress::StatusChange(UpdateStatus::CheckingUpdates)));

    let (e, p) = status_of("(3/7) upgrading mesa...");
    assert!(matches!(&e[1], SystemUpdateProgress::StatusChange(UpdateStatus::Installing { current: 3, total: 7, package }) if package == "mesa"));
    assert_eq!(p, vec!["mesa".to_string()]);

    let (e, _) = status_of("checking keys in keyring");
    assert!(matches!(&e[1], SystemUpdateProgress::StatusChange(UpdateStatus::Installing { current: 0, total: 0, package }) if package == "System"));

    let (e, _) = status_of(" there is nothing to do");
    assert!(matches!(&e[1], SystemUpdateProgress::StatusChange(UpdateStatus::NoUpdates)));

    let (e, _) = status_of("-> error making: foo-git");
    assert!(matches!(&e[1], SystemUpdateProgress::StatusChange(UpdateStatus::Failed(m)) if m == "foo-git"));

    let (e, _) = status_of("retrieving packages... downloading");
    assert!(matches!(&e[1], SystemUpdateProgress::StatusChange(UpdateStatus::Downloading { package: None })));

    let (e, _) = status_of("just some text");
    assert_eq!(e.len(), 1);
}

#[test]
fn buffered_output_is_cut_into_lines() {
    let mut buf = b"first\nsecond\npartial".to_vec();
    assert_eq!(take_line(&mut buf), Some(b"first\n".to_vec()));
    assert_eq!(take_line(&mut buf), Some(b"second\n".to_vec()));
    assert_eq!(take_line(&mut buf), None);
    assert_eq!(buf, b"partial".to_vec());
}

#[test]
fn prompts_stop_the_update() {
    match classify_line(b"  :: Proceed with installation? [Y/n]\n") {
        LineOutcome::Prompt(m) => assert_eq!(
            m,
            "Manual intervention required.\nPrompt: :: Proceed with installation? [Y/n]"
        ),
        _ => panic!("expected a prompt"),
    }
    assert!(matches!(classify_line(b"   \n"), LineOutcome::Blank));
    assert!(matches!(classify_line(b" text \n"), LineOutcome::Line(l) if l == "text"));
    assert_eq!(
        pending_prompt(b"Enter a number (default=1):"),
        Some("Manual intervention required.\nPrompt: Enter a number (default=1):".to_string())
    );
    assert_eq!(pending_prompt(b"partial output"), None);
}

#[test]
fn update_states_are_running_or_finished() {
    let s = SystemUpdateState::new();
    assert!(matches!(s.status, UpdateStatus::Starting));
    assert!(s.status.is_running());
    assert!(UpdateStatus::Completed { restart_required: false }.is_finished());
    assert!(UpdateStatus::Failed("x".to_string()).is_finished());
    assert!(UpdateStatus::NoUpdates.is_finished());
    assert!(!UpdateStatus::Building { package: "p".to_string() }.is_finished());
}

#[test]
fn update_start_needs_pkexec_and_a_manager() {
    match update_start(false, true, true, true) {
        Err(UpdateStatus::Failed(m)) => assert_eq!(m, "pkexec is required for system updates"),
        _ => panic!("refused"),
    }
    match update_start(true, false, false, false) {
        Err(UpdateStatus::Failed(m)) => assert_eq!(m, "No supported package manager found"),
        _ => panic!("refused"),
    }
    match update_start(true, false, true, true) {
        Ok((p, a)) => {
            assert_eq!(p, "paru");
            assert_eq!(a, vec!["-Syu", "--noconfirm", "--skipreview"]);
        }
        _ => panic!("started"),
    }
}

#[test]
fn update_exit_statuses() {
    let pkgs = vec!["vim".to_string(), "linux-zen".to_string()];
    assert!(matches!(
        update_exit_status(true, Some(0), &pkgs),
        UpdateStatus::Completed { restart_required: true }
    ));
    assert!(matches!(
        update_exit_status(true, Some(0), &["vim".to_string()]),
        UpdateStatus::Completed { restart_required: false }
    ));
    match update_exit_status(false, Some(1), &pkgs) {
        UpdateStatus::Failed(m) => assert_eq!(m, "Process exited with code: Some(1)"),
        _ => panic!("failed"),
    }
    match update_exit_status(false, Some(-15), &pkgs) {
        UpdateStatus::Failed(m) => assert_eq!(m, "Process exited with code: Some(-15)"),
        _ => panic!("failed"),
    }
    match update_exit_status(false, None, &pkgs) {
        UpdateStatus::Failed(m) => assert_eq!(m, "Process exited with code: None"),
        _ => panic!("failed"),
    }
}

#[test]
fn drained_output_reports_complete_lines_in_order() {
    let mut buf = b":: Synchronizing package databases...\n\n(1/2) upgrading mesa...\nhalf".to_vec();
    let mut pkgs: Vec<String> = Vec::new();
    let (events, prompt) = drain_output(&mut buf, &mut pkgs);
    assert_eq!(prompt, None);
    assert_eq!(events.len(), 4);
    assert!(matches!(&events[0], SystemUpdateProgress::LogLine(l) if l == ":: Synchronizing package databases..."));
    assert!(matches!(&events[1], SystemUpdateProgress::StatusChange(UpdateStatus::SyncingDatabases)));
    assert!(matches!(&events[2], SystemUpdateProgress::LogLine(l) if l == "(1/2) upgrading mesa..."));
    assert!(matches!(&events[3], SystemUpdateProgress::StatusChange(UpdateStatus::Installing { current: 1, total: 2, package }) if package == "mesa"));
    assert_eq!(pkgs, vec!["mesa".to_string()]);
    assert_eq!(buf, b"half".to_vec());
}

#[test]
fn drained_output_stops_at_a_question() {
    let mut buf = b"just text\n:: Proceed with installation? [Y/n]\nafter\n".to_vec();
    let mut pkgs: Vec<String> = Vec::new();
    let (events, prompt) = drain_output(&mut buf, &mut pkgs);
    assert_eq!(events.len(), 1);
    assert!(matches!(&events[0], SystemUpdateProgress::LogLine(l) if l == "just text"));
    assert_eq!(
        prompt,
        Some("Manual intervention required.\nPrompt: :: Proceed with installation? [Y/n]".to_string())
    );
    assert_eq!(buf, b"after\n".to_vec());
    assert!(pkgs.is_empty());
}

#[test]
fn drained_output_sees_an_unfinished_question() {
    let mut buf = b"Enter a number (default=1):".to_vec();
    let mut pkgs: Vec<String> = Vec::new();
    let (events, prompt) = drain_output(&mut buf, &mut pkgs);
    assert!(events.is_empty());
    assert_eq!(
        prompt,
        Some("Manual intervention required.\nPrompt: Enter a number (default=1):".to_string())
    );
    assert_eq!(buf, b"Enter a number (default=1):".to_vec());
}

#[test]
fn finished_output_reads_the_last_partial_line() {
    let mut buf = b" there is nothing to do".to_vec();
    let mut pkgs: Vec<String> = Vec::new();
    let (events, prompt) = finish_output(&mut buf, &mut pkgs);
    assert_eq!(prompt, None);
    assert_eq!(events.len(), 2);
    assert!(matches!(&events[1], SystemUpdateProgress::StatusChange(UpdateStatus::NoUpdates)));
    assert!(buf.is_empty());

    let mut empty: Vec<u8> = Vec::new();
    let (events, prompt) = finish_output(&mut empty, &mut pkgs);
    assert!(events.is_empty());
    assert_eq!(prompt, None);
}
