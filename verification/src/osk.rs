//! The on-screen keyboard: which of the supported keyboards to use, and what to run
//! to show or hide it.  Probing the system and running the commands is the caller's
//! part.
use vstd::prelude::*;

use crate::text::{
    all_digits, chars_of, contains_chars, contains_seq, decimal_value, is_digit, parse_u64, parsed_u64,
    slice_chars, string_of, trim, trim_chars, unsigned_digits,
};

verus! {

/// A supported on-screen keyboard.
#[derive(Debug, Clone, Copy, PartialEq, Eq, Structural)]
pub enum OskBackend {
    /// wvkbd, shown and hidden by signals (wlroots compositors).
    Wvkbd,
    /// GNOME Shell's keyboard, switched through gsettings.
    GnomeShell,
    /// Phosh's squeekboard, over D-Bus (`sm.puri.OSK0`).
    Squeekboard,
    /// KDE's virtual keyboard, over KWin's D-Bus interface.
    KdePlasma,
}

pub open spec fn backend_name(b: OskBackend) -> Seq<char> {
    match b {
        OskBackend::Wvkbd => "wvkbd"@,
        OskBackend::GnomeShell => "GNOME Shell OSK"@,
        OskBackend::Squeekboard => "squeekboard"@,
        OskBackend::KdePlasma => "KDE Virtual Keyboard"@,
    }
}

impl OskBackend {
    /// The name shown to people.
    pub fn name(&self) -> (r: &'static str)
        ensures
            r@ == backend_name(*self),
    {
        match self {
            OskBackend::Wvkbd => "wvkbd",
            OskBackend::GnomeShell => "GNOME Shell OSK",
            OskBackend::Squeekboard => "squeekboard",
            OskBackend::KdePlasma => "KDE Virtual Keyboard",
        }
    }
}

/// The order in which keyboards are tried.
pub open spec fn backend_priority() -> Seq<OskBackend> {
    seq![OskBackend::Wvkbd, OskBackend::GnomeShell, OskBackend::Squeekboard, OskBackend::KdePlasma]
}

/// `r` is the first keyboard, in order of priority, that `is_backend_available`
/// reported available, every earlier one having been reported unavailable; or none,
/// every one having been reported unavailable.
pub open spec fn detected<F: Fn(OskBackend) -> bool>(is_backend_available: F, r: Option<OskBackend>) -> bool {
    match r {
        Some(b) => exists|k: int|
            0 <= k < 4 && #[trigger] backend_priority()[k] == b && call_ensures(
                is_backend_available,
                (b,),
                true,
            ) && forall|j: int|
                0 <= j < k ==> call_ensures(
                    is_backend_available,
                    (#[trigger] backend_priority()[j],),
                    false,
                ),
        None => forall|j: int|
            0 <= j < 4 ==> call_ensures(
                is_backend_available,
                (#[trigger] backend_priority()[j],),
                false,
            ),
    }
}

/// The keyboard to use: the first of wvkbd, GNOME Shell, squeekboard and KDE that
/// `is_backend_available` reports; `None` when there is none.
pub fn detect_backend<F: Fn(OskBackend) -> bool>(is_backend_available: F) -> (r: Option<OskBackend>)
    requires
        forall|b: OskBackend| call_requires(is_backend_available, (b,)),
    ensures
        detected(is_backend_available, r),
{
    if is_backend_available(OskBackend::Wvkbd) {
        assert(backend_priority()[0] == OskBackend::Wvkbd);
        return Some(OskBackend::Wvkbd);
    }
    if is_backend_available(OskBackend::GnomeShell) {
        assert(backend_priority()[0] == OskBackend::Wvkbd);
        assert(backend_priority()[1] == OskBackend::GnomeShell);
        return Some(OskBackend::GnomeShell);
    }
    if is_backend_available(OskBackend::Squeekboard) {
        assert(backend_priority()[0] == OskBackend::Wvkbd);
        assert(backend_priority()[1] == OskBackend::GnomeShell);
        assert(backend_priority()[2] == OskBackend::Squeekboard);
        return Some(OskBackend::Squeekboard);
    }
    if is_backend_available(OskBackend::KdePlasma) {
        assert(backend_priority()[0] == OskBackend::Wvkbd);
        assert(backend_priority()[1] == OskBackend::GnomeShell);
        assert(backend_priority()[2] == OskBackend::Squeekboard);
        assert(backend_priority()[3] == OskBackend::KdePlasma);
        return Some(OskBackend::KdePlasma);
    }
    assert(backend_priority()[0] == OskBackend::Wvkbd);
    assert(backend_priority()[1] == OskBackend::GnomeShell);
    assert(backend_priority()[2] == OskBackend::Squeekboard);
    assert(backend_priority()[3] == OskBackend::KdePlasma);
    None
}

/// Is some on-screen keyboard available?
pub fn is_available<F: Fn(OskBackend) -> bool>(is_backend_available: F) -> (r: bool)
    requires
        forall|b: OskBackend| call_requires(is_backend_available, (b,)),
    ensures
        exists|d: Option<OskBackend>| detected(is_backend_available, d) && r == (d is Some),
{
    let d = detect_backend(is_backend_available);
    d.is_some()
}

/// The availability test answers the same way each time a keyboard is asked about.
pub open spec fn answers_consistently<F: Fn(OskBackend) -> bool>(is_backend_available: F) -> bool {
    forall|b: OskBackend, x: bool, y: bool|
        #![trigger call_ensures(is_backend_available, (b,), x), call_ensures(is_backend_available, (b,), y)]
        call_ensures(is_backend_available, (b,), x) && call_ensures(is_backend_available, (b,), y)
            ==> x == y
}

/// With an availability test that answers consistently, detection has one answer.
pub proof fn lemma_detection_is_unique<F: Fn(OskBackend) -> bool>(
    f: F,
    d1: Option<OskBackend>,
    d2: Option<OskBackend>,
)
    requires
        answers_consistently(f),
        detected(f, d1),
        detected(f, d2),
    ensures
        d1 == d2,
{
    match (d1, d2) {
        (Some(b1), Some(b2)) => {
            let k1 = choose|k: int|
                0 <= k < 4 && #[trigger] backend_priority()[k] == b1 && call_ensures(f, (b1,), true)
                    && forall|j: int|
                    0 <= j < k ==> call_ensures(f, (#[trigger] backend_priority()[j],), false);
            let k2 = choose|k: int|
                0 <= k < 4 && #[trigger] backend_priority()[k] == b2 && call_ensures(f, (b2,), true)
                    && forall|j: int|
                    0 <= j < k ==> call_ensures(f, (#[trigger] backend_priority()[j],), false);
            if k1 < k2 {
                assert(call_ensures(f, (backend_priority()[k1],), false));
            } else if k2 < k1 {
                assert(call_ensures(f, (backend_priority()[k2],), false));
            }
        },
        (Some(b1), None) => {
            let k1 = choose|k: int|
                0 <= k < 4 && #[trigger] backend_priority()[k] == b1 && call_ensures(f, (b1,), true)
                    && forall|j: int|
                    0 <= j < k ==> call_ensures(f, (#[trigger] backend_priority()[j],), false);
            assert(call_ensures(f, (backend_priority()[k1],), false));
        },
        (None, Some(b2)) => {
            let k2 = choose|k: int|
                0 <= k < 4 && #[trigger] backend_priority()[k] == b2 && call_ensures(f, (b2,), true)
                    && forall|j: int|
                    0 <= j < k ==> call_ensures(f, (#[trigger] backend_priority()[j],), false);
            assert(call_ensures(f, (backend_priority()[k2],), false));
        },
        (None, None) => {},
    }
}

/// When the availability test answers the same way each time, `is_available`
/// agrees with `detect_backend`: some keyboard is available exactly when one is
/// detected.  (`d` is what `detect_backend` gave, `r` what `is_available` gave.)
pub proof fn law_is_available_agrees_with_detection<F: Fn(OskBackend) -> bool>(
    f: F,
    d: Option<OskBackend>,
    r: bool,
)
    requires
        answers_consistently(f),
        detected(f, d),
        exists|e: Option<OskBackend>| detected(f, e) && r == (e is Some),
    ensures
        r == (d is Some),
{
    let e = choose|e: Option<OskBackend>| detected(f, e) && r == (e is Some);
    lemma_detection_is_unique(f, d, e);
}

/// What to run to show or hide a keyboard.
#[derive(Debug)]
pub enum OskCommand {
    /// Signal the running wvkbd (`SIGUSR2` shows it, `SIGUSR1` hides it); when none
    /// runs, showing starts one and hiding has nothing to do.
    Wvkbd { make_visible: bool },
    /// Run `program` with `args`; the keyboard changed when it succeeds.
    Run { program: &'static str, args: Vec<&'static str> },
}

/// The command that makes `backend`'s keyboard visible or not.
pub open spec fn command_ok(backend: OskBackend, visible: bool, c: OskCommand) -> bool {
    let on: &str = if visible {
        "true"
    } else {
        "false"
    };
    match backend {
        OskBackend::Wvkbd => c matches OskCommand::Wvkbd { make_visible } && make_visible == visible,
        OskBackend::GnomeShell => c matches OskCommand::Run { program, args } && program
            == "gsettings" && args@ == seq![
            "set",
            "org.gnome.desktop.a11y.applications",
            "screen-keyboard-enabled",
            on,
        ],
        OskBackend::Squeekboard => c matches OskCommand::Run { program, args } && program
            == "busctl" && args@ == seq![
            "call",
            "--user",
            "sm.puri.OSK0",
            "/sm/puri/OSK0",
            "sm.puri.OSK0",
            "SetVisible",
            "b",
            on,
        ],
        OskBackend::KdePlasma => c matches OskCommand::Run { program, args } && program
            == "busctl" && args@ == seq![
            "call",
            "--user",
            "org.kde.KWin",
            "/VirtualKeyboard",
            "org.kde.kwin.VirtualKeyboard",
            "setEnabled",
            "b",
            on,
        ],
    }
}

pub fn visibility_command(backend: OskBackend, visible: bool) -> (r: OskCommand)
    ensures
        command_ok(backend, visible, r),
{
    let on: &'static str = if visible {
        "true"
    } else {
        "false"
    };
    let mut args: Vec<&'static str> = Vec::new();
    match backend {
        OskBackend::Wvkbd => {
            OskCommand::Wvkbd { make_visible: visible }
        },
        OskBackend::GnomeShell => {
            args.push("set");
            args.push("org.gnome.desktop.a11y.applications");
            args.push("screen-keyboard-enabled");
            args.push(on);
            assert(args@ =~= seq![
                "set",
                "org.gnome.desktop.a11y.applications",
                "screen-keyboard-enabled",
                on,
            ]);
            let c = OskCommand::Run { program: "gsettings", args };
            assert(command_ok(backend, visible, c));
            c
        },
        OskBackend::Squeekboard => {
            args.push("call");
            args.push("--user");
            args.push("sm.puri.OSK0");
            args.push("/sm/puri/OSK0");
            args.push("sm.puri.OSK0");
            args.push("SetVisible");
            args.push("b");
            args.push(on);
            assert(args@ =~= seq![
                "call",
                "--user",
                "sm.puri.OSK0",
                "/sm/puri/OSK0",
                "sm.puri.OSK0",
                "SetVisible",
                "b",
                on,
            ]);
            let c = OskCommand::Run { program: "busctl", args };
            assert(command_ok(backend, visible, c));
            c
        },
        OskBackend::KdePlasma => {
            args.push("call");
            args.push("--user");
            args.push("org.kde.KWin");
            args.push("/VirtualKeyboard");
            args.push("org.kde.kwin.VirtualKeyboard");
            args.push("setEnabled");
            args.push("b");
            args.push(on);
            assert(args@ =~= seq![
                "call",
                "--user",
                "org.kde.KWin",
                "/VirtualKeyboard",
                "org.kde.kwin.VirtualKeyboard",
                "setEnabled",
                "b",
                on,
            ]);
            let c = OskCommand::Run { program: "busctl", args };
            assert(command_ok(backend, visible, c));
            c
        },
    }
}

/// Showing the keyboard: the detected keyboard and the command that shows it; `None`
/// when no keyboard is available.
pub fn show<F: Fn(OskBackend) -> bool>(is_backend_available: F) -> (r: Option<(OskBackend, OskCommand)>)
    requires
        forall|b: OskBackend| call_requires(is_backend_available, (b,)),
    ensures
        match r {
            Some((b, c)) => detected(is_backend_available, Some(b)) && command_ok(b, true, c),
            None => detected(is_backend_available, None),
        },
{
    match detect_backend(is_backend_available) {
        Some(b) => Some((b, visibility_command(b, true))),
        None => None,
    }
}

/// Hiding the keyboard: the detected keyboard and the command that hides it; `None`
/// when no keyboard is available.
pub fn hide_osk<F: Fn(OskBackend) -> bool>(is_backend_available: F) -> (r: Option<(OskBackend, OskCommand)>)
    requires
        forall|b: OskBackend| call_requires(is_backend_available, (b,)),
    ensures
        match r {
            Some((b, c)) => detected(is_backend_available, Some(b)) && command_ok(b, false, c),
            None => detected(is_backend_available, None),
        },
{
    match detect_backend(is_backend_available) {
        Some(b) => Some((b, visibility_command(b, false))),
        None => None,
    }
}

/// wvkbd is there when one of its two variants runs or is installed.
pub fn is_wvkbd_available(running: bool, mobintl_installed: bool, deskintl_installed: bool) -> (r:
    bool)
    ensures
        r == (running || mobintl_installed || deskintl_installed),
{
    running || mobintl_installed || deskintl_installed
}

/// The wvkbd programs, in the order in which one is started.
pub open spec fn wvkbd_binaries() -> Seq<&'static str> {
    seq!["wvkbd-mobintl", "wvkbd-deskintl"]
}

pub fn wvkbd_binary_names() -> (r: Vec<&'static str>)
    ensures
        r@ == wvkbd_binaries(),
{
    let mut r: Vec<&'static str> = Vec::new();
    r.push("wvkbd-mobintl");
    r.push("wvkbd-deskintl");
    r
}

/// A name for `str::to_uppercase` (full Unicode upper-case mapping).
pub uninterp spec fn unicode_upper(s: Seq<char>) -> Seq<char>;

/// `str::to_uppercase`: the result is the Unicode upper-case mapping of `s`, a
/// function of `s` alone.  Nothing else is stated of it.
#[verifier::external_body]
fn to_uppercase(s: &str) -> (r: String)
    ensures
        r@ == unicode_upper(s@),
{
    s.to_uppercase()
}

/// Does the desktop named by `XDG_CURRENT_DESKTOP` (`None` when unset) include
/// `name`, compared in upper case?
pub fn desktop_is(current_desktop: Option<&str>, name: &str) -> (r: bool)
    ensures
        r == match current_desktop {
            Some(d) => contains_seq(unicode_upper(d@), name@),
            None => false,
        },
{
    match current_desktop {
        Some(d) => contains_chars(chars_of(to_uppercase(d).as_str()).as_slice(), chars_of(name).as_slice()),
        None => false,
    }
}


// ---------------------------------------------------------------------------
// wvkbd
// ---------------------------------------------------------------------------

/// `i32::from_str`: an optional sign, then one or more ASCII digits whose value
/// fits.
pub open spec fn parsed_i32(s: Seq<char>) -> Option<i32> {
    if s.len() > 0 && s[0] == '-' {
        let d = s.drop_first();
        if d.len() > 0 && all_digits(d) && decimal_value(d) <= 0x8000_0000 {
            Some((-decimal_value(d)) as i32)
        } else {
            None
        }
    } else {
        match parsed_u64(s) {
            Some(v) => if v <= 0x7fff_ffff {
                Some(v as i32)
            } else {
                None
            },
            None => None,
        }
    }
}

pub fn parse_i32(s: &[char]) -> (r: Option<i32>)
    ensures
        r == parsed_i32(s@),
{
    if s.len() > 0 && s[0] == '-' {
        let rest = slice_chars(s, 1, s.len());
        assert(rest@ =~= s@.drop_first());
        if rest.len() == 0 || rest[0] == '+' {
            proof {
                if rest@.len() > 0 {
                    assert(!is_digit(rest@[0]));
                }
            }
            return None;
        }
        assert(unsigned_digits(rest@) == rest@);
        proof {
            if rest@.len() > 0 && all_digits(rest@) {
                crate::text::lemma_decimal_prefix(rest@, 0);
            }
        }
        match parse_u64(rest.as_slice()) {
            Some(v) => if v <= 0x8000_0000 {
                assert(v == decimal_value(rest@));
                let w: i64 = -(v as i64);
                assert(w == -decimal_value(s@.drop_first()));
                Some(w as i32)
            } else {
                assert(decimal_value(rest@) > 0x8000_0000);
                None
            },
            None => {
                assert(!(rest@.len() > 0 && all_digits(rest@) && decimal_value(rest@) <= u64::MAX));
                None
            },
        }
    } else {
        match parse_u64(s) {
            Some(v) => if v <= 0x7fff_ffff {
                Some(v as i32)
            } else {
                None
            },
            None => None,
        }
    }
}

/// The running wvkbd's process id, from the outputs of `pgrep -x` for each wvkbd
/// program in order (`None` where pgrep found nothing): the first output that reads
/// as a number once trimmed.
pub open spec fn wvkbd_pid_spec(outputs: Seq<Option<String>>) -> Option<i32>
    decreases outputs.len(),
{
    if outputs.len() == 0 {
        None
    } else {
        match outputs[0] {
            Some(o) => match parsed_i32(trim(o@)) {
                Some(p) => Some(p),
                None => wvkbd_pid_spec(outputs.drop_first()),
            },
            None => wvkbd_pid_spec(outputs.drop_first()),
        }
    }
}

pub fn wvkbd_pid(outputs: &Vec<Option<String>>) -> (r: Option<i32>)
    ensures
        r == wvkbd_pid_spec(outputs@),
{
    let mut i: usize = 0;
    assert(outputs@.skip(0) =~= outputs@);
    while i < outputs.len()
        invariant
            i <= outputs@.len(),
            wvkbd_pid_spec(outputs@) == wvkbd_pid_spec(outputs@.skip(i as int)),
        decreases outputs@.len() - i,
    {
        assert(outputs@.skip(i as int).drop_first() =~= outputs@.skip(i + 1));
        assert(outputs@.skip(i as int)[0] == outputs@[i as int]);
        match &outputs[i] {
            Some(o) => {
                match parse_i32(trim_chars(chars_of(o.as_str()).as_slice()).as_slice()) {
                    Some(p) => {
                        return Some(p);
                    },
                    None => {},
                }
            },
            None => {},
        }
        i += 1;
    }
    assert(outputs@.skip(outputs@.len() as int) =~= Seq::<Option<String>>::empty());
    None
}

/// What showing or hiding wvkbd takes.
#[derive(Debug, Clone, Copy)]
pub enum WvkbdStep {
    /// Send the running keyboard a signal (`kill <signal> <pid>`).
    Signal { signal: &'static str, pid: i32 },
    /// Start the first installed wvkbd program.
    Start,
    /// Nothing to do (hiding a keyboard that does not run).
    Nothing,
}

/// A running wvkbd is shown with `SIGUSR2` and hidden with `SIGUSR1`; one that does
/// not run is started to be shown and left alone to be hidden.
pub fn wvkbd_step(make_visible: bool, pid: Option<i32>) -> (r: WvkbdStep)
    ensures
        r == match pid {
            Some(p) => WvkbdStep::Signal {
                signal: if make_visible {
                    "-USR2"
                } else {
                    "-USR1"
                },
                pid: p,
            },
            None => if make_visible {
                WvkbdStep::Start
            } else {
                WvkbdStep::Nothing
            },
        },
{
    match pid {
        Some(p) => WvkbdStep::Signal {
            signal: if make_visible {
                "-USR2"
            } else {
                "-USR1"
            },
            pid: p,
        },
        None => if make_visible {
            WvkbdStep::Start
        } else {
            WvkbdStep::Nothing
        },
    }
}

} // verus!
