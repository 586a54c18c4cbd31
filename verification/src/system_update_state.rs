//! Progress of a system update, as shown in its dialog.
use vstd::prelude::*;

use crate::roms::concat;
use crate::system_info::{decimal_of, decimal_text};
use crate::text::{chars_of, contains_chars, contains_seq, string_of, to_lowercase, unicode_lower};

verus! {

#[derive(Debug, Clone)]
pub enum UpdateStatus {
    Starting,
    SyncingDatabases,
    CheckingUpdates,
    Downloading { package: Option<String> },
    Building { package: String },
    Installing { current: usize, total: usize, package: String },
    Completed { restart_required: bool },
    Failed(String),
    NoUpdates,
}

pub open spec fn status_running(s: UpdateStatus) -> bool {
    ||| s is Starting
    ||| s is SyncingDatabases
    ||| s is CheckingUpdates
    ||| s is Downloading
    ||| s is Building
    ||| s is Installing
}

impl UpdateStatus {
    /// Is the update still in progress?
    pub fn is_running(&self) -> (r: bool)
        ensures
            r == status_running(*self),
    {
        match self {
            UpdateStatus::Starting | UpdateStatus::SyncingDatabases | UpdateStatus::CheckingUpdates
            | UpdateStatus::Downloading { .. } | UpdateStatus::Building { .. }
            | UpdateStatus::Installing { .. } => true,
            _ => false,
        }
    }

    /// Has the update come to an end (completed, failed, or nothing to do)?
    pub fn is_finished(&self) -> (r: bool)
        ensures
            r == !status_running(*self),
            r == (self is Completed || self is Failed || self is NoUpdates),
    {
        !self.is_running()
    }
}

#[derive(Debug, Clone)]
pub struct SystemUpdateState {
    pub status: UpdateStatus,
    pub spinner_tick: usize,
    pub output_log: Vec<String>,
}

impl SystemUpdateState {
    pub fn new() -> (r: Self)
        ensures
            r.status is Starting,
            r.spinner_tick == 0,
            r.output_log@.len() == 0,
    {
        SystemUpdateState { status: UpdateStatus::Starting, spinner_tick: 0, output_log: Vec::new() }
    }
}

#[derive(Debug, Clone)]
pub enum SystemUpdateProgress {
    StatusChange(UpdateStatus),
    LogLine(String),
    SpinnerTick,
}


/// The dialog's status and spinner after a progress report (its log is stated by
/// `apply_progress`): once the update has finished (completed, failed, cancelled,
/// or nothing to do) reports change nothing, so a late report cannot overwrite a
/// cancellation; before that, a status replaces the status and a tick advances the
/// spinner (wrapping).
pub open spec fn progressed(s: SystemUpdateState, p: SystemUpdateProgress) -> SystemUpdateState {
    if !status_running(s.status) {
        s
    } else {
        match p {
            SystemUpdateProgress::StatusChange(st) => SystemUpdateState { status: st, ..s },
            SystemUpdateProgress::LogLine(l) => s,
            SystemUpdateProgress::SpinnerTick => SystemUpdateState {
                spinner_tick: if s.spinner_tick == usize::MAX {
                    0
                } else {
                    (s.spinner_tick + 1) as usize
                },
                ..s
            },
        }
    }
}

/// The message of a cancelled update.
pub open spec fn cancelled_message() -> Seq<char> {
    "Update cancelled by user"@
}

impl SystemUpdateState {
    /// Applies a progress report (see `progressed`).
    pub fn apply_progress(&mut self, progress: SystemUpdateProgress)
        ensures
            final(self).status == progressed(*old(self), progress).status,
            final(self).spinner_tick == progressed(*old(self), progress).spinner_tick,
            final(self).output_log@ == (if status_running(old(self).status) && progress is LogLine {
                old(self).output_log@.push(progress->LogLine_0)
            } else {
                old(self).output_log@
            }),
    {
        if !self.status.is_finished() {
            match progress {
                SystemUpdateProgress::StatusChange(new_status) => {
                    self.status = new_status;
                },
                SystemUpdateProgress::LogLine(line) => {
                    self.output_log.push(line);
                },
                SystemUpdateProgress::SpinnerTick => {
                    self.spinner_tick = self.spinner_tick.wrapping_add(1);
                },
            }
        }
    }

    /// The user cancels the update: it fails as cancelled, unless packages are being
    /// installed, which cannot be interrupted.
    pub fn cancel(&mut self)
        ensures
            old(self).status is Installing ==> *final(self) == *old(self),
            !(old(self).status is Installing) ==> (final(self).status matches UpdateStatus::Failed(m)
                && m@ == cancelled_message()) && final(self).spinner_tick == old(self).spinner_tick
                && final(self).output_log == old(self).output_log,
    {
        match self.status {
            UpdateStatus::Installing { .. } => {},
            _ => {
                self.status = UpdateStatus::Failed(String::from_str("Update cancelled by user"));
            },
        }
    }
}

/// A finished update stays as it is: no progress report changes its status.
pub proof fn law_finished_update_is_final(s: SystemUpdateState, p: SystemUpdateProgress)
    requires
        !status_running(s.status),
    ensures
        progressed(s, p) == s,
{
}

/// The state after a run of progress reports, in order.
pub open spec fn progressed_all(s: SystemUpdateState, ps: Seq<SystemUpdateProgress>) -> SystemUpdateState
    decreases ps.len(),
{
    if ps.len() == 0 {
        s
    } else {
        progressed(progressed_all(s, ps.drop_last()), ps.last())
    }
}

/// A cancelled (or otherwise finished) update stays as it is whatever reports
/// arrive after it, in any number.
pub proof fn law_cancel_wins_over_late_reports(s: SystemUpdateState, ps: Seq<SystemUpdateProgress>)
    requires
        !status_running(s.status),
    ensures
        progressed_all(s, ps) == s,
    decreases ps.len(),
{
    if ps.len() > 0 {
        law_cancel_wins_over_late_reports(s, ps.drop_last());
    }
}

// ---------------------------------------------------------------------------
// What the dialog says
// ---------------------------------------------------------------------------

/// The line that tells where the update stands.
pub open spec fn status_text(s: UpdateStatus) -> Seq<char> {
    match s {
        UpdateStatus::Starting => "Preparing update..."@,
        UpdateStatus::SyncingDatabases => "Syncing databases..."@,
        UpdateStatus::CheckingUpdates => "Checking for updates..."@,
        UpdateStatus::Downloading { package } => match package {
            Some(p) => "Downloading: "@ + p@,
            None => "Downloading packages..."@,
        },
        UpdateStatus::Building { package } => "Building: "@ + package@,
        UpdateStatus::Installing { current, total, package } => "Installing "@ + decimal_text(
            current as nat,
        ) + "/"@ + decimal_text(total as nat) + " \n"@ + package@,
        UpdateStatus::Completed { restart_required } => if restart_required {
            "Update complete. Restart required."@
        } else {
            "Update complete!"@
        },
        UpdateStatus::NoUpdates => "System is up to date"@,
        UpdateStatus::Failed(_) => "Update failed"@,
    }
}

/// The sign shown beside it: a turning spinner while the update runs, a check mark
/// once it succeeded or found nothing to do, a cross when it failed.
pub open spec fn status_sign(s: UpdateStatus, spinner_tick: usize) -> char {
    if status_running(s) {
        seq!['\u{25D0}', '\u{25D3}', '\u{25D1}', '\u{25D2}'][(spinner_tick % 4) as int]
    } else if s is Failed {
        '\u{2717}'
    } else {
        '\u{2713}'
    }
}

/// The text shown under a failed update: its message, with a note that manual
/// intervention is required unless the message (in lower case) already says so.
pub open spec fn failure_detail(s: UpdateStatus) -> Option<Seq<char>> {
    match s {
        UpdateStatus::Failed(m) => if contains_seq(unicode_lower(m@), "manual intervention"@) {
            Some(m@)
        } else {
            Some(m@ + "\n\nManual intervention is required."@)
        },
        _ => None,
    }
}

/// The hint on the keys the dialog answers to.
pub open spec fn update_hint_text(s: UpdateStatus) -> Seq<char> {
    if s matches UpdateStatus::Completed { restart_required } && restart_required {
        "Press Enter/A to Restart, or Esc/B to Postpone"@
    } else if !status_running(s) {
        "Press B or Esc to close"@
    } else if s is Installing {
        "Installing... (Cannot cancel)"@
    } else {
        "Press B or Esc to Cancel"@
    }
}

impl SystemUpdateState {
    /// The line that tells where the update stands (see `status_text`).
    pub fn status_message(&self) -> (r: String)
        ensures
            r@ == status_text(self.status),
    {
        match &self.status {
            UpdateStatus::Starting => String::from_str("Preparing update..."),
            UpdateStatus::SyncingDatabases => String::from_str("Syncing databases..."),
            UpdateStatus::CheckingUpdates => String::from_str("Checking for updates..."),
            UpdateStatus::Downloading { package } => match package {
                Some(p) => string_of(
                    concat(chars_of("Downloading: ").as_slice(), chars_of(p.as_str()).as_slice()).as_slice(),
                ),
                None => String::from_str("Downloading packages..."),
            },
            UpdateStatus::Building { package } => string_of(
                concat(chars_of("Building: ").as_slice(), chars_of(package.as_str()).as_slice()).as_slice(),
            ),
            UpdateStatus::Installing { current, total, package } => {
                let a = concat(chars_of("Installing ").as_slice(), decimal_of(*current as u64).as_slice());
                let b = concat(a.as_slice(), chars_of("/").as_slice());
                let c = concat(b.as_slice(), decimal_of(*total as u64).as_slice());
                let d = concat(c.as_slice(), chars_of(" \n").as_slice());
                string_of(concat(d.as_slice(), chars_of(package.as_str()).as_slice()).as_slice())
            },
            UpdateStatus::Completed { restart_required } => if *restart_required {
                String::from_str("Update complete. Restart required.")
            } else {
                String::from_str("Update complete!")
            },
            UpdateStatus::NoUpdates => String::from_str("System is up to date"),
            UpdateStatus::Failed(_) => String::from_str("Update failed"),
        }
    }

    /// The sign shown beside the status line (see `status_sign`).
    pub fn status_icon(&self) -> (r: char)
        ensures
            r == status_sign(self.status, self.spinner_tick),
    {
        if self.status.is_running() {
            let spinner = ['\u{25D0}', '\u{25D3}', '\u{25D1}', '\u{25D2}'];
            let k = self.spinner_tick % 4;
            proof {
                assert(seq!['\u{25D0}', '\u{25D3}', '\u{25D1}', '\u{25D2}'] =~= spinner@);
            }
            spinner[k]
        } else if let UpdateStatus::Failed(_) = self.status {
            '\u{2717}'
        } else {
            '\u{2713}'
        }
    }

    /// The text under a failed update (see `failure_detail`).
    pub fn detail(&self) -> (r: Option<String>)
        ensures
            match failure_detail(self.status) {
                Some(t) => r matches Some(m) && m@ == t,
                None => r is None,
            },
    {
        match &self.status {
            UpdateStatus::Failed(m) => {
                let lower = to_lowercase(m.as_str());
                if contains_chars(chars_of(lower.as_str()).as_slice(), chars_of("manual intervention").as_slice()) {
                    Some(string_of(chars_of(m.as_str()).as_slice()))
                } else {
                    Some(string_of(
                        concat(
                            chars_of(m.as_str()).as_slice(),
                            chars_of("\n\nManual intervention is required.").as_slice(),
                        ).as_slice(),
                    ))
                }
            },
            _ => None,
        }
    }

    /// The hint on the keys the dialog answers to (see `update_hint_text`).
    pub fn hint(&self) -> (r: &'static str)
        ensures
            r@ == update_hint_text(self.status),
    {
        if let UpdateStatus::Completed { restart_required } = self.status {
            if restart_required {
                return "Press Enter/A to Restart, or Esc/B to Postpone";
            }
        }
        if self.status.is_finished() {
            "Press B or Esc to close"
        } else if let UpdateStatus::Installing { .. } = self.status {
            "Installing... (Cannot cancel)"
        } else {
            "Press B or Esc to Cancel"
        }
    }
}

} // verus!
