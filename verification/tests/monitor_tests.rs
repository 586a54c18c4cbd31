use rhinco_tv::monitor::{
    check_cmdline, check_env_var, check_target_running, is_valid_search_candidate, MonitorState,
    MonitorStep, MonitorTarget, ProcessInfo, GRACE_LONG_NS, GRACE_SHORT_NS, LAUNCH_TIMEOUT_NS,
    POLL_FAST_NS, POLL_SLOW_NS, STABLE_RUN_NS,
};

fn proc(pid: u32, comm: &str, args: &[&str], env: &[(&str, &str)]) -> ProcessInfo {
    ProcessInfo {
        pid,
        stat: Some(('S', comm.to_string())),
        cmdline: Some(args.iter().map(|a| a.to_string()).collect()),
        environ: Some(
            env.iter()
                .map(|(k, v)| (k.as_bytes().to_vec(), v.as_bytes().to_vec()))
                .collect(),
        ),
    }
}

fn system() -> Vec<ProcessInfo> {
    vec![
        proc(10, "steam", &["/usr/bin/steam", "-silent", "Cyberpunk"], &[("SteamAppId", "1091500")]),
        proc(11, "steamwebhelper", &["steamwebhelper", "Cyberpunk2077.exe"], &[]),
        ProcessInfo {
            pid: 12,
            stat: Some(('Z', "Cyberpunk2077.ex".to_string())),
            cmdline: Some(vec!["Z:\\Games\\Cyberpunk2077.exe".to_string()]),
            environ: None,
        },
        proc(13, "Cyberpunk2077.ex", &["Z:\\Games\\Cyberpunk2077.EXE", "--launcher-skip"], &[("SteamAppId", "1091500")]),
    ]
}

#[test]
fn helpers_and_zombies_are_no_candidates() {
    let s = system();
    assert!(!is_valid_search_candidate(&s[0]));
    assert!(!is_valid_search_candidate(&s[1]));
    assert!(!is_valid_search_candidate(&s[2]));
    assert!(is_valid_search_candidate(&s[3]));
}

#[test]
fn targets_find_the_game_process() {
    let s = system();
    assert_eq!(check_cmdline("cyberpunk2077.exe", &s), Some(13));
    assert_eq!(check_env_var("SteamAppId", "1091500", &s), Some(13));
    assert_eq!(check_env_var("SteamAppId", "42", &s), None);
    assert_eq!(check_target_running(&MonitorTarget::Pid(10), &s), Some(10));
    assert_eq!(check_target_running(&MonitorTarget::Pid(12), &s), None);
    assert_eq!(check_target_running(&MonitorTarget::Pid(99), &s), None);
    let any = MonitorTarget::Any(vec![
        MonitorTarget::Pid(99),
        MonitorTarget::SteamAppId("1091500".to_string()),
    ]);
    assert_eq!(check_target_running(&any, &s), Some(13));
}

#[test]
fn a_locked_process_is_kept_while_it_lives() {
    let s = system();
    let mut m = MonitorState::new(0);
    assert_eq!(m.observe(1, Some(10)), MonitorStep::Wait(POLL_FAST_NS));
    let t = MonitorTarget::CmdLineContains("cyberpunk".to_string());
    assert_eq!(m.poll(&t, &s), Some(10));
    let gone: Vec<ProcessInfo> = system().into_iter().filter(|p| p.pid != 10).collect();
    assert_eq!(m.poll(&t, &gone), Some(13));
}

#[test]
fn polling_and_launch_timeout() {
    let mut m = MonitorState::new(0);
    assert_eq!(m.observe(1_000, None), MonitorStep::Wait(POLL_SLOW_NS));
    assert_eq!(m.observe(LAUNCH_TIMEOUT_NS, None), MonitorStep::Wait(POLL_SLOW_NS));
    assert_eq!(m.observe(LAUNCH_TIMEOUT_NS + 1, None), MonitorStep::Stop);
}

#[test]
fn grace_is_long_at_first_and_short_later() {
    // Seen briefly, then gone: the long grace bridges the hand-over gap.
    let mut m = MonitorState::new(0);
    m.observe(1, Some(5));
    assert_eq!(m.observe(1 + GRACE_LONG_NS, None), MonitorStep::Wait(POLL_FAST_NS));
    assert_eq!(m.observe(2 + GRACE_LONG_NS, None), MonitorStep::Stop);
    // Ran for longer than the stable time: the short grace applies.
    let mut n = MonitorState::new(0);
    n.observe(1, Some(5));
    n.observe(2 + STABLE_RUN_NS, Some(5));
    let last = 2 + STABLE_RUN_NS;
    assert_eq!(n.observe(last + GRACE_SHORT_NS, None), MonitorStep::Wait(POLL_FAST_NS));
    assert_eq!(n.observe(last + GRACE_SHORT_NS + 1, None), MonitorStep::Stop);
}
