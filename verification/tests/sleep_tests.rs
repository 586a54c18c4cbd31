use rhinco_tv::sleep_inhibit::{InhibitStep, InhibitorKind, SleepInhibitor};

#[test]
fn test_new_creates_inactive_inhibitor() {
    let inhibitor = SleepInhibitor::new();
    assert_eq!(inhibitor.active, None);
}

#[test]
fn test_default_creates_inactive_inhibitor() {
    let inhibitor = SleepInhibitor::default();
    assert_eq!(inhibitor.active, None);
}

#[test]
fn test_release_on_inactive_is_safe() {
    let mut inhibitor = SleepInhibitor::new();
    assert!(!inhibitor.release());
}

#[test]
fn test_multiple_release_calls_are_safe() {
    let mut inhibitor = SleepInhibitor::new();
    inhibitor.release();
    inhibitor.release();
    inhibitor.release();
    assert_eq!(inhibitor.active, None);
}

#[test]
fn logind_is_tried_first_and_the_portal_after_it() {
    let mut i = SleepInhibitor::new();
    let step = i.acquire_start();
    assert_eq!(step, InhibitStep::TryLogind);
    let step = i.attempt_result(step, false);
    assert_eq!(step, InhibitStep::TryPortal);
    let step = i.attempt_result(step, true);
    assert_eq!(step, InhibitStep::Done);
    assert_eq!(i.active, Some(InhibitorKind::Portal));
    assert_eq!(i.acquire_start(), InhibitStep::Done);
    assert!(i.release());
    assert!(!i.release());
}

#[test]
fn test_inhibitor_handle_enum_variants() {
    fn assert_send<T: Send>() {}
    assert_send::<SleepInhibitor>();
}

#[test]
fn test_acquire_handles_all_failures_gracefully() {
    let mut i = SleepInhibitor::new();
    let s = i.acquire_start();
    let s = i.attempt_result(s, false);
    let s = i.attempt_result(s, false);
    assert_eq!(s, InhibitStep::Done);
    assert_eq!(i.active, None);
    assert!(!i.release());
    assert_eq!(i.active, None);
}

#[test]
fn logind_hold_needs_no_portal_close() {
    let mut j = SleepInhibitor::new();
    let s = j.acquire_start();
    j.attempt_result(s, true);
    assert_eq!(j.active, Some(InhibitorKind::LogindFd));
    assert!(!j.release());
}
