use rhinco_tv::gamepad::{
    classify_as_keyboard, is_nav_action, player_number, process_event, read_battery_info,
    AxisState, GamepadCapabilities, GamepadInput, PadAxis, PadButton, PadEvent, PowerLevel,
    Repeater,
};
use rhinco_tv::model::Action;
use rhinco_tv::osk::{
    parse_i32, wvkbd_pid, wvkbd_step, WvkbdStep,
    desktop_is, detect_backend, hide_osk, is_available, is_wvkbd_available, show,
    visibility_command, OskBackend, OskCommand,
};

#[test]
fn test_classify_as_keyboard_logic() {
    let xbox = GamepadCapabilities {
        is_sdl_mapped: true,
        has_left_stick: true,
        has_dpad: true,
        has_face_buttons: true,
        name: "Xbox 360 Controller".to_string(),
    };
    assert!(!classify_as_keyboard(&xbox), "Xbox should be a gamepad");

    let keychron = GamepadCapabilities {
        is_sdl_mapped: false,
        has_left_stick: false,
        has_dpad: false,
        has_face_buttons: false,
        name: "Keychron Q3 Pro System Control".to_string(),
    };
    assert!(
        classify_as_keyboard(&keychron),
        "Keychron should be a keyboard"
    );

    let generic_gamepad = GamepadCapabilities {
        is_sdl_mapped: false,
        has_left_stick: true,
        has_dpad: true,
        has_face_buttons: true,
        name: "Generic USB Gamepad".to_string(),
    };
    assert!(
        !classify_as_keyboard(&generic_gamepad),
        "Generic functional gamepad should be a gamepad"
    );

    let gaming_keyboard = GamepadCapabilities {
        is_sdl_mapped: false,
        has_left_stick: true,
        has_dpad: false,
        has_face_buttons: true,
        name: "Wooting Keyboard".to_string(),
    };
    assert!(
        classify_as_keyboard(&gaming_keyboard),
        "Named keyboard should be detected as keyboard even if functional"
    );

    let broken_device = GamepadCapabilities {
        is_sdl_mapped: false,
        has_left_stick: true,
        has_dpad: true,
        has_face_buttons: false,
        name: "Unknown Device".to_string(),
    };
    assert!(
        classify_as_keyboard(&broken_device),
        "Device without face buttons is not a usable gamepad"
    );
}

#[test]
fn buttons_map_to_actions() {
    let mut s = AxisState::new();
    assert_eq!(
        process_event(PadEvent::ButtonPressed(PadButton::South), &mut s),
        Some(GamepadInput::Press(Action::Select))
    );
    assert_eq!(
        process_event(PadEvent::ButtonPressed(PadButton::RightTrigger2), &mut s),
        Some(GamepadInput::Press(Action::NextCategory))
    );
    assert_eq!(
        process_event(PadEvent::ButtonPressed(PadButton::Select), &mut s),
        Some(GamepadInput::Press(Action::ShowHelp))
    );
    assert_eq!(
        process_event(PadEvent::ButtonReleased(PadButton::South), &mut s),
        None
    );
    assert_eq!(
        process_event(PadEvent::ButtonReleased(PadButton::DPadLeft), &mut s),
        Some(GamepadInput::Release(Action::Left))
    );
    assert_eq!(process_event(PadEvent::Other, &mut s), None);
}

#[test]
fn stick_presses_and_releases_directions() {
    let mut s = AxisState::new();
    assert_eq!(
        process_event(PadEvent::AxisChanged(PadAxis::LeftStickX, -1), &mut s),
        Some(GamepadInput::Press(Action::Left))
    );
    assert_eq!(
        process_event(PadEvent::AxisChanged(PadAxis::LeftStickX, -1), &mut s),
        None
    );
    assert_eq!(
        process_event(PadEvent::AxisChanged(PadAxis::LeftStickX, 0), &mut s),
        Some(GamepadInput::Release(Action::Left))
    );
    assert_eq!(
        process_event(PadEvent::AxisChanged(PadAxis::LeftStickY, 1), &mut s),
        Some(GamepadInput::Press(Action::Down))
    );
    assert_eq!(s, AxisState { dir_x: 0, dir_y: 1 });
}

#[test]
fn held_directions_repeat() {
    let mut r = Repeater::new();
    r.on_input(GamepadInput::Press(Action::Right), 1000);
    assert_eq!(r.tick(1300), None);
    assert_eq!(r.tick(1400), Some(Action::Right));
    assert_eq!(r.tick(1450), None);
    assert_eq!(r.tick(1500), Some(Action::Right));
    r.on_input(GamepadInput::Release(Action::Left), 1500);
    assert_eq!(r.tick(1700), Some(Action::Right));
    r.on_input(GamepadInput::Release(Action::Right), 1700);
    assert_eq!(r.tick(5000), None);
    r.on_input(GamepadInput::Press(Action::Select), 6000);
    assert_eq!(r.tick(9000), None);
    assert!(is_nav_action(Action::PrevCategory));
    assert!(!is_nav_action(Action::Back));
}

#[test]
fn player_numbers_follow_sorted_ids() {
    assert_eq!(player_number(&[7, 3, 5], 5), Some(2));
    assert_eq!(player_number(&[7, 3, 5], 3), Some(1));
    assert_eq!(player_number(&[7, 3, 5], 4), None);
}

#[test]
fn battery_readings() {
    assert_eq!(read_battery_info("57\n", "Charging\n"), PowerLevel::Charging(57));
    assert_eq!(read_battery_info("57", "Discharging"), PowerLevel::Discharging(57));
    assert_eq!(read_battery_info("100", "Full"), PowerLevel::Charged);
    assert_eq!(read_battery_info("95", "Not charging"), PowerLevel::Charged);
    assert_eq!(read_battery_info("80", "Not charging"), PowerLevel::Charging(80));
    assert_eq!(read_battery_info("x", "Unknown"), PowerLevel::Discharging(0));
    assert_eq!(read_battery_info("300", ""), PowerLevel::Discharging(0));
}

#[test]
fn test_backend_names() {
    assert_eq!(OskBackend::Wvkbd.name(), "wvkbd");
    assert_eq!(OskBackend::GnomeShell.name(), "GNOME Shell OSK");
    assert_eq!(OskBackend::Squeekboard.name(), "squeekboard");
    assert_eq!(OskBackend::KdePlasma.name(), "KDE Virtual Keyboard");
}

#[test]
fn test_detect_backend_does_not_panic() {
    let _ = detect_backend(|_| false);
}

#[test]
fn test_is_available_does_not_panic() {
    let _ = is_available(|_| false);
}

#[test]
fn detection_follows_priority() {
    assert_eq!(detect_backend(|_| true), Some(OskBackend::Wvkbd));
    assert_eq!(
        detect_backend(|b| b == OskBackend::Squeekboard || b == OskBackend::KdePlasma),
        Some(OskBackend::Squeekboard)
    );
    assert_eq!(detect_backend(|b| b == OskBackend::KdePlasma), Some(OskBackend::KdePlasma));
    assert!(!is_available(|_| false));
    assert!(is_available(|b| b == OskBackend::GnomeShell));
}

#[test]
fn show_and_hide_commands() {
    match show(|b| b == OskBackend::GnomeShell) {
        Some((OskBackend::GnomeShell, OskCommand::Run { program, args })) => {
            assert_eq!(program, "gsettings");
            assert_eq!(
                args,
                vec![
                    "set",
                    "org.gnome.desktop.a11y.applications",
                    "screen-keyboard-enabled",
                    "true"
                ]
            );
        }
        _ => panic!("expected the GNOME command"),
    }
    match hide_osk(|b| b == OskBackend::KdePlasma) {
        Some((OskBackend::KdePlasma, OskCommand::Run { program, args })) => {
            assert_eq!(program, "busctl");
            assert_eq!(args.last(), Some(&"false"));
        }
        _ => panic!("expected the KDE command"),
    }
    assert!(matches!(
        visibility_command(OskBackend::Wvkbd, true),
        OskCommand::Wvkbd { make_visible: true }
    ));
    assert!(show(|_| false).is_none());
    assert!(is_wvkbd_available(false, false, true));
    assert!(!is_wvkbd_available(false, false, false));
    assert!(desktop_is(Some("ubuntu:GNOME"), "GNOME"));
    assert!(desktop_is(Some("kde"), "KDE"));
    assert!(!desktop_is(None, "KDE"));
}

#[test]
fn wvkbd_pids_and_steps() {
    let c = |s: &str| s.chars().collect::<Vec<char>>();
    assert_eq!(parse_i32(&c("1234")), Some(1234));
    assert_eq!(parse_i32(&c("+7")), Some(7));
    assert_eq!(parse_i32(&c("-2147483648")), Some(i32::MIN));
    assert_eq!(parse_i32(&c("2147483648")), None);
    assert_eq!(parse_i32(&c("-+1")), None);
    assert_eq!(parse_i32(&c("-")), None);
    assert_eq!(parse_i32(&c("12a")), None);
    assert_eq!(wvkbd_pid(&vec![None, Some("4321\n".to_string())]), Some(4321));
    assert_eq!(wvkbd_pid(&vec![Some("oops".to_string()), Some(" 99 ".to_string())]), Some(99));
    assert_eq!(wvkbd_pid(&vec![None, None]), None);
    assert!(matches!(wvkbd_step(true, Some(5)), WvkbdStep::Signal { signal: "-USR2", pid: 5 }));
    assert!(matches!(wvkbd_step(false, Some(5)), WvkbdStep::Signal { signal: "-USR1", pid: 5 }));
    assert!(matches!(wvkbd_step(true, None), WvkbdStep::Start));
    assert!(matches!(wvkbd_step(false, None), WvkbdStep::Nothing));
}
