//! Gamepads: telling keyboards that pose as gamepads from real ones, turning button
//! and stick events into launcher actions, repeating held directions, and battery
//! readings.
use vstd::prelude::*;

use crate::model::Action;
use crate::text::{chars_of, contains_chars, contains_seq, lower_chars, parse_usize, parsed_usize, trim, trim_chars, unicode_lower, chars_eq};

verus! {

/// What a connected device offers, as far as telling gamepads from keyboards goes.
pub struct GamepadCapabilities {
    pub is_sdl_mapped: bool,
    pub has_left_stick: bool,
    pub has_dpad: bool,
    pub has_face_buttons: bool,
    pub name: String,
}

/// A device is taken for a keyboard unless SDL maps it as a gamepad, or it has a way
/// to move (stick or pad) and an `A` button and its name does not say keyboard.
pub open spec fn keyboard_like(caps: GamepadCapabilities) -> bool {
    if caps.is_sdl_mapped {
        false
    } else if !((caps.has_left_stick || caps.has_dpad) && caps.has_face_buttons) {
        true
    } else {
        let lower = unicode_lower(caps.name@);
        contains_seq(lower, "keyboard"@) || contains_seq(lower, "system control"@) || contains_seq(
            lower,
            "consumer control"@,
        )
    }
}

/// Is the device with these capabilities likely a keyboard rather than a gamepad?
pub fn classify_as_keyboard(caps: &GamepadCapabilities) -> (r: bool)
    ensures
        r == keyboard_like(*caps),
{
    if caps.is_sdl_mapped {
        return false;
    }
    let has_navigation = caps.has_left_stick || caps.has_dpad;
    let functional_gamepad = has_navigation && caps.has_face_buttons;
    if !functional_gamepad {
        return true;
    }
    let lower = lower_chars(chars_of(caps.name.as_str()).as_slice());
    contains_chars(lower.as_slice(), chars_of("keyboard").as_slice()) || contains_chars(
        lower.as_slice(),
        chars_of("system control").as_slice(),
    ) || contains_chars(lower.as_slice(), chars_of("consumer control").as_slice())
}

// ---------------------------------------------------------------------------
// Events
// ---------------------------------------------------------------------------

/// The buttons that the launcher reads.
#[derive(Debug, Clone, Copy, PartialEq, Eq, Structural)]
pub enum PadButton {
    South,
    East,
    West,
    North,
    DPadUp,
    DPadDown,
    DPadLeft,
    DPadRight,
    LeftTrigger,
    RightTrigger,
    LeftTrigger2,
    RightTrigger2,
    Select,
    Other,
}

/// The left stick's axes.
#[derive(Debug, Clone, Copy, PartialEq, Eq, Structural)]
pub enum PadAxis {
    LeftStickX,
    LeftStickY,
    Other,
}

/// A gamepad event, the stick's position already read as a direction: `-1`, `0` or
/// `1`, past the dead zone or not.
#[derive(Debug, Clone, Copy, PartialEq, Eq, Structural)]
pub enum PadEvent {
    ButtonPressed(PadButton),
    ButtonReleased(PadButton),
    AxisChanged(PadAxis, i8),
    Other,
}

/// An action started or ended by a gamepad.
#[derive(Debug, Clone, Copy, PartialEq, Eq, Structural)]
pub enum GamepadInput {
    Press(Action),
    Release(Action),
}

/// The direction in which each axis of the left stick points.
#[derive(Debug, Clone, Copy, PartialEq, Eq, Structural)]
pub struct AxisState {
    pub dir_x: i8,
    pub dir_y: i8,
}

impl AxisState {
    pub fn new() -> (r: Self)
        ensures
            r.dir_x == 0,
            r.dir_y == 0,
    {
        AxisState { dir_x: 0, dir_y: 0 }
    }
}

/// The action that pressing `b` starts.
pub open spec fn press_action(b: PadButton) -> Option<Action> {
    match b {
        PadButton::South => Some(Action::Select),
        PadButton::East => Some(Action::Back),
        PadButton::West => Some(Action::ContextMenu),
        PadButton::North => Some(Action::AddApp),
        PadButton::DPadUp => Some(Action::Up),
        PadButton::DPadDown => Some(Action::Down),
        PadButton::DPadLeft => Some(Action::Left),
        PadButton::DPadRight => Some(Action::Right),
        PadButton::LeftTrigger | PadButton::LeftTrigger2 => Some(Action::PrevCategory),
        PadButton::RightTrigger | PadButton::RightTrigger2 => Some(Action::NextCategory),
        PadButton::Select => Some(Action::ShowHelp),
        PadButton::Other => None,
    }
}

/// The action that releasing `b` ends (only the repeating ones are reported).
pub open spec fn release_action(b: PadButton) -> Option<Action> {
    match b {
        PadButton::DPadUp => Some(Action::Up),
        PadButton::DPadDown => Some(Action::Down),
        PadButton::DPadLeft => Some(Action::Left),
        PadButton::DPadRight => Some(Action::Right),
        PadButton::LeftTrigger | PadButton::LeftTrigger2 => Some(Action::PrevCategory),
        PadButton::RightTrigger | PadButton::RightTrigger2 => Some(Action::NextCategory),
        _ => None,
    }
}

/// A stick axis moving from `old` to `new`: pointing starts the action of the new
/// direction; coming back to the middle ends the old one.
pub open spec fn axis_input(old: i8, new: i8, negative: Action, positive: Action) -> Option<GamepadInput> {
    if new == old {
        None
    } else if new == -1 {
        Some(GamepadInput::Press(negative))
    } else if new == 1 {
        Some(GamepadInput::Press(positive))
    } else if new == 0 {
        if old == -1 {
            Some(GamepadInput::Release(negative))
        } else if old == 1 {
            Some(GamepadInput::Release(positive))
        } else {
            None
        }
    } else {
        None
    }
}

pub open spec fn event_ok(event: PadEvent, old: AxisState, new: AxisState, r: Option<GamepadInput>) -> bool {
    match event {
        PadEvent::ButtonPressed(b) => new == old && r == match press_action(b) {
            Some(a) => Some(GamepadInput::Press(a)),
            None => None,
        },
        PadEvent::ButtonReleased(b) => new == old && r == match release_action(b) {
            Some(a) => Some(GamepadInput::Release(a)),
            None => None,
        },
        PadEvent::AxisChanged(PadAxis::LeftStickX, d) => new == AxisState { dir_x: d, ..old } && r
            == axis_input(old.dir_x, d, Action::Left, Action::Right),
        PadEvent::AxisChanged(PadAxis::LeftStickY, d) => new == AxisState { dir_y: d, ..old } && r
            == axis_input(old.dir_y, d, Action::Up, Action::Down),
        _ => new == old && r is None,
    }
}

/// What each button does: pressing A (South) selects, B (East) goes back, X (West)
/// opens the context menu, Y (North) adds an app, the D-pad moves, the shoulder
/// buttons and triggers change category, Select shows the help, and any other
/// button does nothing; releasing only ends the repeating D-pad and category
/// actions.  A button never moves the stick's remembered directions.
pub proof fn law_buttons_map_to_their_actions(
    b: PadButton,
    old: AxisState,
    new: AxisState,
    r: Option<GamepadInput>,
    released: Option<GamepadInput>,
)
    requires
        event_ok(PadEvent::ButtonPressed(b), old, new, r),
        event_ok(PadEvent::ButtonReleased(b), old, old, released),
    ensures
        new == old,
        b is South ==> r == Some(GamepadInput::Press(Action::Select)),
        b is East ==> r == Some(GamepadInput::Press(Action::Back)),
        b is West ==> r == Some(GamepadInput::Press(Action::ContextMenu)),
        b is North ==> r == Some(GamepadInput::Press(Action::AddApp)),
        b is DPadUp ==> r == Some(GamepadInput::Press(Action::Up)) && released == Some(
            GamepadInput::Release(Action::Up),
        ),
        b is DPadDown ==> r == Some(GamepadInput::Press(Action::Down)) && released == Some(
            GamepadInput::Release(Action::Down),
        ),
        b is DPadLeft ==> r == Some(GamepadInput::Press(Action::Left)) && released == Some(
            GamepadInput::Release(Action::Left),
        ),
        b is DPadRight ==> r == Some(GamepadInput::Press(Action::Right)) && released == Some(
            GamepadInput::Release(Action::Right),
        ),
        (b is LeftTrigger || b is LeftTrigger2) ==> r == Some(
            GamepadInput::Press(Action::PrevCategory),
        ) && released == Some(GamepadInput::Release(Action::PrevCategory)),
        (b is RightTrigger || b is RightTrigger2) ==> r == Some(
            GamepadInput::Press(Action::NextCategory),
        ) && released == Some(GamepadInput::Release(Action::NextCategory)),
        b is Select ==> r == Some(GamepadInput::Press(Action::ShowHelp)),
        b is Other ==> r is None,
        (b is South || b is East || b is West || b is North || b is Select || b is Other)
            ==> released is None,
{
}

/// Pushing the stick past its dead zone presses the direction it points to
/// (left/right on the X axis, up/down on the Y axis), and letting it come back to
/// the middle releases that direction; the new direction is remembered.
pub proof fn law_stick_presses_and_releases_directions(
    axis: PadAxis,
    d: i8,
    old: AxisState,
    new: AxisState,
    r: Option<GamepadInput>,
)
    requires
        event_ok(PadEvent::AxisChanged(axis, d), old, new, r),
    ensures
        axis is LeftStickX && old.dir_x == 0 && d == -1 ==> r == Some(GamepadInput::Press(Action::Left)),
        axis is LeftStickX && old.dir_x == 0 && d == 1 ==> r == Some(GamepadInput::Press(Action::Right)),
        axis is LeftStickX && old.dir_x == -1 && d == 0 ==> r == Some(GamepadInput::Release(Action::Left)),
        axis is LeftStickX && old.dir_x == 1 && d == 0 ==> r == Some(GamepadInput::Release(Action::Right)),
        axis is LeftStickY && old.dir_y == 0 && d == -1 ==> r == Some(GamepadInput::Press(Action::Up)),
        axis is LeftStickY && old.dir_y == 0 && d == 1 ==> r == Some(GamepadInput::Press(Action::Down)),
        axis is LeftStickY && old.dir_y == -1 && d == 0 ==> r == Some(GamepadInput::Release(Action::Up)),
        axis is LeftStickY && old.dir_y == 1 && d == 0 ==> r == Some(GamepadInput::Release(Action::Down)),
        axis is LeftStickX ==> new.dir_x == d && new.dir_y == old.dir_y,
        axis is LeftStickY ==> new.dir_y == d && new.dir_x == old.dir_x,
{
}

fn axis_step(old: i8, new: i8, negative: Action, positive: Action) -> (r: Option<GamepadInput>)
    ensures
        r == axis_input(old, new, negative, positive),
{
    if new == old {
        None
    } else if new == -1 {
        Some(GamepadInput::Press(negative))
    } else if new == 1 {
        Some(GamepadInput::Press(positive))
    } else if new == 0 {
        if old == -1 {
            Some(GamepadInput::Release(negative))
        } else if old == 1 {
            Some(GamepadInput::Release(positive))
        } else {
            None
        }
    } else {
        None
    }
}

/// What a gamepad event means for the launcher, the stick's directions being kept in
/// `state`.
pub fn process_event(event: PadEvent, state: &mut AxisState) -> (r: Option<GamepadInput>)
    ensures
        event_ok(event, *old(state), *final(state), r),
{
    match event {
        PadEvent::ButtonPressed(b) => {
            let a = match b {
                PadButton::South => Some(Action::Select),
                PadButton::East => Some(Action::Back),
                PadButton::West => Some(Action::ContextMenu),
                PadButton::North => Some(Action::AddApp),
                PadButton::DPadUp => Some(Action::Up),
                PadButton::DPadDown => Some(Action::Down),
                PadButton::DPadLeft => Some(Action::Left),
                PadButton::DPadRight => Some(Action::Right),
                PadButton::LeftTrigger | PadButton::LeftTrigger2 => Some(Action::PrevCategory),
                PadButton::RightTrigger | PadButton::RightTrigger2 => Some(Action::NextCategory),
                PadButton::Select => Some(Action::ShowHelp),
                PadButton::Other => None,
            };
            match a {
                Some(a) => Some(GamepadInput::Press(a)),
                None => None,
            }
        },
        PadEvent::ButtonReleased(b) => {
            let a = match b {
                PadButton::DPadUp => Some(Action::Up),
                PadButton::DPadDown => Some(Action::Down),
                PadButton::DPadLeft => Some(Action::Left),
                PadButton::DPadRight => Some(Action::Right),
                PadButton::LeftTrigger | PadButton::LeftTrigger2 => Some(Action::PrevCategory),
                PadButton::RightTrigger | PadButton::RightTrigger2 => Some(Action::NextCategory),
                _ => None,
            };
            match a {
                Some(a) => Some(GamepadInput::Release(a)),
                None => None,
            }
        },
        PadEvent::AxisChanged(PadAxis::LeftStickX, d) => {
            let old_dir = state.dir_x;
            state.dir_x = d;
            axis_step(old_dir, d, Action::Left, Action::Right)
        },
        PadEvent::AxisChanged(PadAxis::LeftStickY, d) => {
            let old_dir = state.dir_y;
            state.dir_y = d;
            axis_step(old_dir, d, Action::Up, Action::Down)
        },
        _ => None,
    }
}

pub open spec fn nav_action(a: Action) -> bool {
    a is Up || a is Down || a is Left || a is Right || a is NextCategory || a is PrevCategory
}

/// Does holding this action repeat it?
pub fn is_nav_action(action: Action) -> (r: bool)
    ensures
        r == nav_action(action),
{
    match action {
        Action::Up | Action::Down | Action::Left | Action::Right | Action::NextCategory
        | Action::PrevCategory => true,
        _ => false,
    }
}

// ---------------------------------------------------------------------------
// Repeating a held direction
// ---------------------------------------------------------------------------

/// How long a direction is held before it repeats, in milliseconds.
pub const REPEAT_DELAY_MS: u64 = 400;

/// How often a held direction repeats, in milliseconds.
pub const REPEAT_INTERVAL_MS: u64 = 100;

/// A direction being held: since when, and when it was last sent (milliseconds).
#[derive(Debug, Clone, Copy, PartialEq, Eq, Structural)]
pub struct Held {
    pub action: Action,
    pub since: u64,
    pub last_sent: u64,
}

/// The direction being held, if any.
#[derive(Debug, Clone, Copy, PartialEq, Eq, Structural)]
pub struct Repeater {
    pub held: Option<Held>,
}

/// An input at time `now` (milliseconds): pressing a direction starts holding it,
/// releasing the held one stops; other inputs change nothing.
pub open spec fn input_applied(o: Repeater, input: GamepadInput, now: u64, n: Repeater) -> bool {
    match input {
        GamepadInput::Press(a) => if nav_action(a) {
            n.held == Some(Held { action: a, since: now, last_sent: now })
        } else {
            n == o
        },
        GamepadInput::Release(a) => if o.held matches Some(h) && h.action == a {
            n.held is None
        } else {
            n == o
        },
    }
}

/// A tick at time `now`: the held direction is sent again when it has been held for
/// the repeat delay and was last sent at least one repeat interval ago.
pub open spec fn ticked(o: Repeater, now: u64, n: Repeater, r: Option<Action>) -> bool {
    match o.held {
        Some(h) => if now >= h.since + REPEAT_DELAY_MS && now >= h.last_sent + REPEAT_INTERVAL_MS {
            r == Some(h.action) && n.held == Some(Held { last_sent: now, ..h })
        } else {
            r is None && n == o
        },
        None => r is None && n == o,
    }
}

impl Repeater {
    pub fn new() -> (r: Self)
        ensures
            r.held is None,
    {
        Repeater { held: None }
    }

    /// An input at time `now` (milliseconds): pressing a direction starts holding it,
    /// releasing the held one stops.
    pub fn on_input(&mut self, input: GamepadInput, now: u64)
        ensures
            input_applied(*old(self), input, now, *final(self)),
    {
        match input {
            GamepadInput::Press(a) => {
                if is_nav_action(a) {
                    self.held = Some(Held { action: a, since: now, last_sent: now });
                }
            },
            GamepadInput::Release(a) => {
                if let Some(h) = self.held {
                    if h.action == a {
                        self.held = None;
                    }
                }
            },
        }
    }

    /// The action to send again at time `now`, when the held direction has been held
    /// long enough and was last sent long enough ago (it is then marked sent).
    pub fn tick(&mut self, now: u64) -> (r: Option<Action>)
        ensures
            ticked(*old(self), now, *final(self), r),
    {
        match self.held {
            Some(h) => {
                if now >= h.since && now - h.since >= REPEAT_DELAY_MS && now >= h.last_sent && now
                    - h.last_sent >= REPEAT_INTERVAL_MS {
                    self.held = Some(Held { last_sent: now, ..h });
                    Some(h.action)
                } else {
                    None
                }
            },
            None => None,
        }
    }
}

// ---------------------------------------------------------------------------
// Player numbers
// ---------------------------------------------------------------------------

pub open spec fn count_below(ids: Seq<usize>, x: usize) -> nat
    decreases ids.len(),
{
    if ids.len() == 0 {
        0
    } else {
        count_below(ids.drop_last(), x) + if ids.last() < x {
            1nat
        } else {
            0nat
        }
    }
}

/// The player number of gamepad `connected` among the gamepads `ids` (keyboards
/// left out): its place when the identifiers are sorted, counted from one.
pub fn player_number(ids: &[usize], connected: usize) -> (r: Option<usize>)
    ensures
        ids@.contains(connected) ==> r == Some((count_below(ids@, connected) + 1) as usize),
        !ids@.contains(connected) ==> r is None,
{
    let mut below: usize = 0;
    let mut found = false;
    let mut i: usize = 0;
    assert(ids@.take(0) =~= Seq::<usize>::empty());
    while i < ids.len()
        invariant
            i <= ids@.len(),
            below == count_below(ids@.take(i as int), connected),
            below <= i,
            found ==> below < i,
            found == exists|j: int| 0 <= j < i && ids@[j] == connected,
        decreases ids@.len() - i,
    {
        assert(ids@.take(i + 1).drop_last() =~= ids@.take(i as int));
        if ids[i] < connected {
            below += 1;
        }
        if ids[i] == connected {
            found = true;
        }
        i += 1;
    }
    assert(ids@.take(ids@.len() as int) =~= ids@);
    assert(found == ids@.contains(connected));
    if found {
        Some(below + 1)
    } else {
        None
    }
}

// ---------------------------------------------------------------------------
// Batteries
// ---------------------------------------------------------------------------

/// A device's power: as in the `gilrs` crate, which the screen shows.
#[derive(Debug, Clone, Copy, PartialEq, Eq, Structural)]
pub enum PowerLevel {
    Unknown,
    Wired,
    Discharging(u8),
    Charging(u8),
    Charged,
}

/// `u8::from_str` on the trimmed capacity text, `0` when it does not read.
pub open spec fn capacity_of(text: Seq<char>) -> u8 {
    match parsed_usize(trim(text)) {
        Some(v) => if v <= 255 {
            v as u8
        } else {
            0
        },
        None => 0,
    }
}

/// A laptop battery's power from the kernel's `capacity` and `status` files.
pub open spec fn battery_power_spec(capacity: Seq<char>, status: Seq<char>) -> PowerLevel {
    let c = capacity_of(capacity);
    let s = trim(status);
    if s == "Charging"@ {
        PowerLevel::Charging(c)
    } else if s == "Discharging"@ {
        PowerLevel::Discharging(c)
    } else if s == "Full"@ {
        PowerLevel::Charged
    } else if s == "Not charging"@ {
        if c > 90 {
            PowerLevel::Charged
        } else {
            PowerLevel::Charging(c)
        }
    } else {
        PowerLevel::Discharging(c)
    }
}

/// The power of a battery whose `capacity` file reads `capacity` and whose `status`
/// file reads `status` (empty when it could not be read).
pub fn read_battery_info(capacity: &str, status: &str) -> (r: PowerLevel)
    ensures
        r == battery_power_spec(capacity@, status@),
{
    let c: u8 = match parse_usize(trim_chars(chars_of(capacity).as_slice()).as_slice()) {
        Some(v) => if v <= 255 {
            v as u8
        } else {
            0
        },
        None => 0,
    };
    let s = trim_chars(chars_of(status).as_slice());
    if chars_eq(s.as_slice(), chars_of("Charging").as_slice()) {
        PowerLevel::Charging(c)
    } else if chars_eq(s.as_slice(), chars_of("Discharging").as_slice()) {
        PowerLevel::Discharging(c)
    } else if chars_eq(s.as_slice(), chars_of("Full").as_slice()) {
        PowerLevel::Charged
    } else if chars_eq(s.as_slice(), chars_of("Not charging").as_slice()) {
        if c > 90 {
            PowerLevel::Charged
        } else {
            PowerLevel::Charging(c)
        }
    } else {
        PowerLevel::Discharging(c)
    }
}


/// Letting the stick go back to the middle ends exactly the direction that pushing
/// it started.
pub proof fn law_stick_release_ends_its_press(
    axis: PadAxis,
    d: i8,
    s0: AxisState,
    s1: AxisState,
    s2: AxisState,
    a: Action,
    r: Option<GamepadInput>,
)
    requires
        axis is LeftStickX || axis is LeftStickY,
        event_ok(PadEvent::AxisChanged(axis, d), s0, s1, Some(GamepadInput::Press(a))),
        event_ok(PadEvent::AxisChanged(axis, 0), s1, s2, r),
    ensures
        r == Some(GamepadInput::Release(a)),
{
}

/// Releasing the held direction stops its repeats: no later tick sends it.
pub proof fn law_release_stops_repeats(
    o: Repeater,
    h: Held,
    t: u64,
    n: Repeater,
    now: u64,
    n2: Repeater,
    r: Option<Action>,
)
    requires
        o.held == Some(h),
        input_applied(o, GamepadInput::Release(h.action), t, n),
        ticked(n, now, n2, r),
    ensures
        r is None,
        n2.held is None,
{
}

/// A direction held for less than the repeat delay is not repeated.
pub proof fn law_no_repeat_before_delay(o: Repeater, h: Held, now: u64, n: Repeater, r: Option<Action>)
    requires
        o.held == Some(h),
        now < h.since + REPEAT_DELAY_MS,
        ticked(o, now, n, r),
    ensures
        r is None,
        n == o,
{
}

} // verus!
