//! Keeping the machine awake while the launcher runs: which inhibition is held,
//! in which order the two D-Bus mechanisms are tried, and what releasing needs.
//! The D-Bus calls themselves are made by the caller, step by step.
use vstd::prelude::*;

verus! {

/// The mechanism that holds the inhibition.
#[derive(Debug, Clone, Copy, PartialEq, Eq, Structural)]
pub enum InhibitorKind {
    /// A file descriptor from systemd-logind; closing it releases the inhibition.
    LogindFd,
    /// A handle from the XDG desktop portal; it must be closed explicitly.
    Portal,
}

/// The next D-Bus call to make while acquiring.
#[derive(Debug, Clone, Copy, PartialEq, Eq, Structural)]
pub enum InhibitStep {
    /// Nothing more to try.
    Done,
    /// Ask systemd-logind (`org.freedesktop.login1.Manager.Inhibit`).
    TryLogind,
    /// Ask the portal (`org.freedesktop.portal.Inhibit`).
    TryPortal,
}

/// The sleep inhibition the launcher holds, if any.
#[derive(Debug)]
pub struct SleepInhibitor {
    pub active: Option<InhibitorKind>,
}

/// A release: afterwards nothing is held, and the portal handle is closed exactly
/// when the portal held the inhibition.
pub open spec fn released(before: Option<InhibitorKind>, after: Option<InhibitorKind>, close_portal: bool) -> bool {
    after is None && close_portal == (before == Some(InhibitorKind::Portal))
}

impl SleepInhibitor {
    /// No inhibition held; no D-Bus call is made.
    pub fn new() -> (r: Self)
        ensures
            r.active is None,
    {
        SleepInhibitor { active: None }
    }

    /// The first step of acquiring: nothing when an inhibition is already held,
    /// else logind first.
    pub fn acquire_start(&self) -> (step: InhibitStep)
        ensures
            step == (if self.active is Some {
                InhibitStep::Done
            } else {
                InhibitStep::TryLogind
            }),
    {
        match self.active {
            Some(_) => InhibitStep::Done,
            None => InhibitStep::TryLogind,
        }
    }

    /// Records how the call of `step` went and gives the next step: a granted
    /// request holds the inhibition; a refused logind request falls back to the
    /// portal; a refused portal request leaves none held.
    pub fn attempt_result(&mut self, step: InhibitStep, granted: bool) -> (next: InhibitStep)
        requires
            old(self).active is None,
        ensures
            match step {
                InhibitStep::TryLogind => if granted {
                    final(self).active == Some(InhibitorKind::LogindFd) && next == InhibitStep::Done
                } else {
                    final(self).active is None && next == InhibitStep::TryPortal
                },
                InhibitStep::TryPortal => next == InhibitStep::Done && final(self).active == (if granted {
                    Some(InhibitorKind::Portal)
                } else {
                    None
                }),
                InhibitStep::Done => next == InhibitStep::Done && final(self).active is None,
            },
    {
        match step {
            InhibitStep::TryLogind => if granted {
                self.active = Some(InhibitorKind::LogindFd);
                InhibitStep::Done
            } else {
                InhibitStep::TryPortal
            },
            InhibitStep::TryPortal => {
                if granted {
                    self.active = Some(InhibitorKind::Portal);
                }
                InhibitStep::Done
            },
            InhibitStep::Done => InhibitStep::Done,
        }
    }

    /// Lets the inhibition go; the result tells whether the portal handle must be
    /// closed (a logind descriptor is released by dropping it).  Safe when none is
    /// held.
    pub fn release(&mut self) -> (close_portal: bool)
        ensures
            released(old(self).active, final(self).active, close_portal),
    {
        let close = self.active == Some(InhibitorKind::Portal);
        self.active = None;
        close
    }
}

impl Default for SleepInhibitor {
    fn default() -> (r: Self)
        ensures
            r.active is None,
    {
        SleepInhibitor::new()
    }
}

/// Releasing twice is releasing once: the second release changes nothing and has
/// nothing to close.
pub proof fn law_release_is_idempotent(
    a: Option<InhibitorKind>,
    b: Option<InhibitorKind>,
    c: Option<InhibitorKind>,
    first: bool,
    second: bool,
)
    requires
        released(a, b, first),
        released(b, c, second),
    ensures
        !second,
        c == b,
{
}

} // verus!
