//! Watching a started game: which processes count as the game, and when the
//! launcher may take the screen back.
use vstd::prelude::*;

use crate::text::{chars_of, contains_chars, contains_seq, join_chars, join_with, lower_chars, unicode_lower, vecs_view};
use crate::launcher::strings_view;

verus! {

/// A description of the process(es) that count as the running program.
#[derive(Debug)]
pub enum MonitorTarget {
    Pid(u32),
    SteamAppId(String),
    EnvVarEq(String, String),
    CmdLineContains(String),
    Any(Vec<MonitorTarget>),
}

/// What is known of a process: its id; its state and command name when its status
/// could be read; its arguments and environment (as bytes) when they could be read.
#[derive(Debug)]
pub struct ProcessInfo {
    pub pid: u32,
    pub stat: Option<(char, String)>,
    pub cmdline: Option<Vec<String>>,
    pub environ: Option<Vec<(Vec<u8>, Vec<u8>)>>,
}

/// Helpers of Steam and its overlay, which never count as the game.
pub open spec fn helper_name(n: Seq<char>) -> bool {
    n == "steam"@ || n == "steamwebhelper"@ || n == "gameoverlayui"@ || n == "pressure-vessel"@
}

/// A live process that is not one of Steam's helpers.
pub open spec fn search_candidate(p: ProcessInfo) -> bool {
    match p.stat {
        Some((state, comm)) => state != 'Z' && !helper_name(unicode_lower(comm@)),
        None => false,
    }
}

pub fn is_valid_search_candidate(p: &ProcessInfo) -> (r: bool)
    ensures
        r == search_candidate(*p),
{
    match &p.stat {
        Some((state, comm)) => {
            if *state == 'Z' {
                return false;
            }
            let n = lower_chars(chars_of(comm.as_str()).as_slice());
            let s = n.as_slice();
            !(crate::text::chars_eq(s, chars_of("steam").as_slice()) || crate::text::chars_eq(
                s,
                chars_of("steamwebhelper").as_slice(),
            ) || crate::text::chars_eq(s, chars_of("gameoverlayui").as_slice())
                || crate::text::chars_eq(s, chars_of("pressure-vessel").as_slice()))
        },
        None => false,
    }
}

/// Does the process's command line (its arguments joined by spaces) contain the
/// pattern, both in lower case?
pub open spec fn cmdline_matches(p: ProcessInfo, pattern: Seq<char>) -> bool {
    match p.cmdline {
        Some(args) => contains_seq(
            unicode_lower(join_with(strings_view(args@), " "@)),
            unicode_lower(pattern),
        ),
        None => false,
    }
}

/// A search candidate whose environment gives `key` the value `val`.
pub open spec fn env_accept(key: Seq<u8>, val: Seq<u8>) -> spec_fn(ProcessInfo) -> bool {
    |p: ProcessInfo| search_candidate(p) && environ_matches(p, key, val)
}

/// A search candidate whose command line contains `pattern`, ignoring case.
pub open spec fn cmdline_accept(pattern: Seq<char>) -> spec_fn(ProcessInfo) -> bool {
    |p: ProcessInfo| search_candidate(p) && cmdline_matches(p, pattern)
}

/// The first process (in the given order) that `accept` holds of, as an index.
pub open spec fn first_index(procs: Seq<ProcessInfo>, accept: spec_fn(ProcessInfo) -> bool) -> Option<int> {
    if exists|i: int| 0 <= i < procs.len() && #[trigger] accept(procs[i]) {
        Some(choose|i: int| 0 <= i < procs.len() && #[trigger] accept(procs[i]) && forall|j: int| 0 <= j < i ==> !#[trigger] accept(procs[j]))
    } else {
        None
    }
}

pub open spec fn found_pid(procs: Seq<ProcessInfo>, accept: spec_fn(ProcessInfo) -> bool) -> Option<u32> {
    match first_index(procs, accept) {
        Some(i) => Some(procs[i].pid),
        None => None,
    }
}

fn cmdline_of(p: &ProcessInfo, pattern_lower: &[char]) -> (r: bool)
    requires
        true,
    ensures
        r == match p.cmdline {
            Some(args) => contains_seq(
                unicode_lower(join_with(strings_view(args@), " "@)),
                pattern_lower@,
            ),
            None => false,
        },
{
    match &p.cmdline {
        Some(args) => {
            let mut parts: Vec<Vec<char>> = Vec::new();
            let mut i: usize = 0;
            while i < args.len()
                invariant
                    i <= args@.len(),
                    vecs_view(parts@) == strings_view(args@).take(i as int),
                decreases args@.len() - i,
            {
                let ghost b = vecs_view(parts@);
                parts.push(chars_of(args[i].as_str()));
                assert(vecs_view(parts@) =~= b.push(args@[i as int]@));
                assert(strings_view(args@)[i as int] == args@[i as int]@);
                assert(vecs_view(parts@) =~= strings_view(args@).take(i + 1));
                i += 1;
            }
            assert(strings_view(args@).take(args@.len() as int) =~= strings_view(args@));
            let joined = join_chars(&parts, chars_of(" ").as_slice());
            let lower = lower_chars(joined.as_slice());
            contains_chars(lower.as_slice(), pattern_lower)
        },
        None => false,
    }
}

/// The first candidate process whose command line contains `pattern` (ignoring
/// case).
pub fn check_cmdline(pattern: &str, processes: &[ProcessInfo]) -> (r: Option<u32>)
    ensures
        r == found_pid(processes@, cmdline_accept(pattern@)),
{
    let ghost accept = cmdline_accept(pattern@);
    let pl = lower_chars(chars_of(pattern).as_slice());
    let mut i: usize = 0;
    while i < processes.len()
        invariant
            i <= processes@.len(),
            pl@ == unicode_lower(pattern@),
            accept == (cmdline_accept(pattern@)),
            forall|j: int| 0 <= j < i ==> !#[trigger] accept(processes@[j]),
        decreases processes@.len() - i,
    {
        let p = &processes[i];
        if is_valid_search_candidate(p) && cmdline_of(p, pl.as_slice()) {
            assert(accept(processes@[i as int]));
            proof {
                let k = choose|k: int|
                    0 <= k < processes@.len() && #[trigger] accept(processes@[k]) && forall|j: int|
                        0 <= j < k ==> !#[trigger] accept(processes@[j]);
                if k < i {
                    assert(!accept(processes@[k]));
                }
                if k > i {
                    assert(!accept(processes@[i as int]));
                }
            }
            return Some(p.pid);
        }
        i += 1;
    }
    None
}

/// Does the process's environment give `key` exactly the value `val`?
pub open spec fn environ_matches(p: ProcessInfo, key: Seq<u8>, val: Seq<u8>) -> bool {
    match p.environ {
        Some(env) => env_has(env@, key, val),
        None => false,
    }
}

/// Some entry of `env` is `key = val`.
pub open spec fn env_has(env: Seq<(Vec<u8>, Vec<u8>)>, key: Seq<u8>, val: Seq<u8>) -> bool {
    exists|i: int| 0 <= i < env.len() && (#[trigger] env[i]).0@ == key && env[i].1@ == val
}

fn environ_of(p: &ProcessInfo, key: &[u8], val: &[u8]) -> (r: bool)
    ensures
        r == environ_matches(*p, key@, val@),
{
    match &p.environ {
        Some(env) => {
            let mut i: usize = 0;
            while i < env.len()
                invariant
                    i <= env@.len(),
                    p.environ == Some(*env),
                    forall|j: int| 0 <= j < i ==> !((#[trigger] env@[j]).0@ == key@ && env@[j].1@ == val@),
                decreases env@.len() - i,
            {
                let pair = &env[i];
                if bytes_eq(pair.0.as_slice(), key) && bytes_eq(pair.1.as_slice(), val) {
                    assert((env@[i as int]).0@ == key@ && env@[i as int].1@ == val@);
                    assert(env_has(env@, key@, val@));
                    return true;
                }
                i += 1;
            }
            false
        },
        None => false,
    }
}

fn bytes_eq(a: &[u8], b: &[u8]) -> (r: bool)
    ensures
        r == (a@ == b@),
{
    if a.len() != b.len() {
        return false;
    }
    let mut i: usize = 0;
    while i < a.len()
        invariant
            a@.len() == b@.len(),
            i <= a@.len(),
            forall|j: int| 0 <= j < i ==> a@[j] == b@[j],
        decreases a@.len() - i,
    {
        if a[i] != b[i] {
            return false;
        }
        i += 1;
    }
    assert(a@ =~= b@);
    true
}

/// The first candidate process whose environment sets `key` to `val` (compared as
/// the UTF-8 bytes of the two texts).
pub fn check_env_var(key: &str, val: &str, processes: &[ProcessInfo]) -> (r: Option<u32>)
    ensures
        r == found_pid(
            processes@,
            env_accept(vstd::utf8::encode_utf8(key@), vstd::utf8::encode_utf8(val@)),
        ),
{
    let ghost accept = env_accept(vstd::utf8::encode_utf8(key@), vstd::utf8::encode_utf8(val@));
    let kb = key.as_bytes();
    let vb = val.as_bytes();
    let mut i: usize = 0;
    while i < processes.len()
        invariant
            i <= processes@.len(),
            kb@ == vstd::utf8::encode_utf8(key@),
            vb@ == vstd::utf8::encode_utf8(val@),
            accept == (env_accept(vstd::utf8::encode_utf8(key@), vstd::utf8::encode_utf8(val@))),
            forall|j: int| 0 <= j < i ==> !#[trigger] accept(processes@[j]),
        decreases processes@.len() - i,
    {
        let p = &processes[i];
        if is_valid_search_candidate(p) && environ_of(p, kb, vb) {
            assert(accept(processes@[i as int]));
            proof {
                let k = choose|k: int|
                    0 <= k < processes@.len() && #[trigger] accept(processes@[k]) && forall|j: int|
                        0 <= j < k ==> !#[trigger] accept(processes@[j]);
                if k < i {
                    assert(!accept(processes@[k]));
                }
                if k > i {
                    assert(!accept(processes@[i as int]));
                }
            }
            return Some(p.pid);
        }
        i += 1;
    }
    None
}


// ---------------------------------------------------------------------------
// Targets
// ---------------------------------------------------------------------------

/// Is the process `pid` alive (listed and not a zombie)?
pub open spec fn pid_alive(procs: Seq<ProcessInfo>, pid: u32) -> bool {
    exists|i: int|
        0 <= i < procs.len() && (#[trigger] procs[i]).pid == pid && (procs[i].stat matches Some(
            (state, _),
        ) && state != 'Z')
}

/// The process that the target finds among `procs`, if any.
pub open spec fn target_found(t: MonitorTarget, procs: Seq<ProcessInfo>) -> Option<u32>
    decreases t, 1int,
{
    match t {
        MonitorTarget::Pid(pid) => if pid_alive(procs, pid) {
            Some(pid)
        } else {
            None
        },
        MonitorTarget::SteamAppId(appid) => found_pid(
            procs,
            env_accept(vstd::utf8::encode_utf8("SteamAppId"@), vstd::utf8::encode_utf8(appid@)),
        ),
        MonitorTarget::EnvVarEq(key, val) => found_pid(
            procs,
            env_accept(vstd::utf8::encode_utf8(key@), vstd::utf8::encode_utf8(val@)),
        ),
        MonitorTarget::CmdLineContains(pattern) => found_pid(
            procs,
            cmdline_accept(pattern@),
        ),
        MonitorTarget::Any(targets) => any_found(targets@, procs),
    }
}

/// The first of `ts` that finds a process, and the process it finds.
pub open spec fn any_found(ts: Seq<MonitorTarget>, procs: Seq<ProcessInfo>) -> Option<u32>
    decreases ts, 0int,
{
    if ts.len() == 0 {
        None
    } else {
        match target_found(ts[0], procs) {
            Some(pid) => Some(pid),
            None => any_found(ts.subrange(1, ts.len() as int), procs),
        }
    }
}

fn pid_is_alive(pid: u32, procs: &[ProcessInfo]) -> (r: bool)
    ensures
        r == pid_alive(procs@, pid),
{
    let mut i: usize = 0;
    while i < procs.len()
        invariant
            i <= procs@.len(),
            forall|j: int|
                0 <= j < i ==> !((#[trigger] procs@[j]).pid == pid && (procs@[j].stat matches Some(
                    (state, _),
                ) && state != 'Z')),
        decreases procs@.len() - i,
    {
        let p = &procs[i];
        if p.pid == pid {
            match &p.stat {
                Some((state, _)) => {
                    if *state != 'Z' {
                        return true;
                    }
                },
                None => {},
            }
        }
        i += 1;
    }
    false
}

/// The process that `target` finds among the system's processes `processes`: a live
/// process for a pid, the first candidate with the right environment or command line
/// otherwise, and the first find among the alternatives of `Any`.
pub fn check_target_running(target: &MonitorTarget, processes: &[ProcessInfo]) -> (r: Option<u32>)
    ensures
        r == target_found(*target, processes@),
    decreases *target, 1int,
{
    match target {
        MonitorTarget::Pid(pid) => if pid_is_alive(*pid, processes) {
            Some(*pid)
        } else {
            None
        },
        MonitorTarget::SteamAppId(appid) => check_env_var("SteamAppId", appid.as_str(), processes),
        MonitorTarget::EnvVarEq(key, val) => check_env_var(key.as_str(), val.as_str(), processes),
        MonitorTarget::CmdLineContains(pattern) => check_cmdline(pattern.as_str(), processes),
        MonitorTarget::Any(targets) => {
            proof {
                assert(targets@.subrange(0, targets@.len() as int) =~= targets@);
            }
            check_any(targets, 0, processes)
        },
    }
}

fn check_any(targets: &Vec<MonitorTarget>, from: usize, processes: &[ProcessInfo]) -> (r: Option<u32>)
    requires
        from <= targets@.len(),
    ensures
        r == any_found(targets@.subrange(from as int, targets@.len() as int), processes@),
    decreases targets@.subrange(from as int, targets@.len() as int), 0int,
{
    let ghost rest = targets@.subrange(from as int, targets@.len() as int);
    if from >= targets.len() {
        return None;
    }
    assert(rest[0] == targets@[from as int]);
    assert(rest.subrange(1, rest.len() as int) =~= targets@.subrange(from + 1, targets@.len() as int));
    match check_target_running(&targets[from], processes) {
        Some(pid) => Some(pid),
        None => check_any(targets, from + 1, processes),
    }
}


// ---------------------------------------------------------------------------
// Deciding when the game has ended
// ---------------------------------------------------------------------------

/// How long a started game may take to appear, in nanoseconds.
pub const LAUNCH_TIMEOUT_NS: u64 = 60_000_000_000;

/// After a run longer than this (nanoseconds), a game that disappears has ended soon.
pub const STABLE_RUN_NS: u64 = 15_000_000_000;

/// How long a short-lived game may be missing before it counts as ended.
pub const GRACE_LONG_NS: u64 = 10_000_000_000;

/// How long a game that ran for a while may be missing before it counts as ended.
pub const GRACE_SHORT_NS: u64 = 500_000_000;

/// Polling interval while the game is (or was) seen.
pub const POLL_FAST_NS: u64 = 250_000_000;

/// Polling interval while waiting for the game to appear.
pub const POLL_SLOW_NS: u64 = 1_000_000_000;

/// What has been seen of the game so far; times in nanoseconds on a monotonic clock.
#[derive(Debug, Clone, Copy, PartialEq, Eq, Structural)]
pub struct MonitorState {
    pub start: u64,
    pub found_once: bool,
    pub first_seen: Option<u64>,
    pub last_seen: u64,
    pub current_pid: Option<u32>,
}

/// What to do after an observation.
#[derive(Debug, Clone, Copy, PartialEq, Eq, Structural)]
pub enum MonitorStep {
    /// Look again after this many nanoseconds.
    Wait(u64),
    /// The game has ended (or never started): stop watching.
    Stop,
}

/// Times never run backwards.
pub open spec fn monitor_wf(s: MonitorState) -> bool {
    &&& s.start <= s.last_seen
    &&& (s.first_seen matches Some(f) ==> s.start <= f <= s.last_seen)
    &&& s.found_once == (s.first_seen is Some)
}

/// The grace period after a run from `first` to `last`.
pub open spec fn grace(first: u64, last: u64) -> u64 {
    if last - first > STABLE_RUN_NS {
        GRACE_SHORT_NS
    } else {
        GRACE_LONG_NS
    }
}

/// One observation at time `now`: the game was seen as `running`, or not.
pub open spec fn observe_ok(o: MonitorState, now: u64, running: Option<u32>, n: MonitorState, step: MonitorStep) -> bool {
    match running {
        Some(pid) => {
            &&& n == MonitorState {
                found_once: true,
                first_seen: if o.found_once { o.first_seen } else { Some(now) },
                last_seen: now,
                current_pid: Some(pid),
                ..o
            }
            &&& step == MonitorStep::Wait(POLL_FAST_NS)
        },
        None => {
            &&& n == MonitorState { current_pid: None, ..o }
            &&& if !o.found_once {
                step == (if now - o.start > LAUNCH_TIMEOUT_NS {
                    MonitorStep::Stop
                } else {
                    MonitorStep::Wait(POLL_SLOW_NS)
                })
            } else {
                let first = match o.first_seen {
                    Some(f) => f,
                    None => o.last_seen,
                };
                step == (if now - o.last_seen > grace(first, o.last_seen) {
                    MonitorStep::Stop
                } else {
                    MonitorStep::Wait(POLL_FAST_NS)
                })
            }
        },
    }
}

/// Whether the game runs now: the locked process while it lives, else what the
/// target finds among `procs`.
pub open spec fn polled(s: MonitorState, target: MonitorTarget, procs: Seq<ProcessInfo>) -> Option<u32> {
    match s.current_pid {
        Some(pid) => if pid_alive(procs, pid) {
            Some(pid)
        } else {
            target_found(target, procs)
        },
        None => target_found(target, procs),
    }
}

impl MonitorState {
    /// Watching starts at `now`, nothing seen yet.
    pub fn new(now: u64) -> (r: Self)
        ensures
            r == (MonitorState { start: now, found_once: false, first_seen: None, last_seen: now, current_pid: None }),
            monitor_wf(r),
    {
        MonitorState { start: now, found_once: false, first_seen: None, last_seen: now, current_pid: None }
    }

    /// Records whether the game runs at `now` and says whether to keep watching.
    pub fn observe(&mut self, now: u64, running: Option<u32>) -> (step: MonitorStep)
        requires
            monitor_wf(*old(self)),
            now >= old(self).last_seen,
        ensures
            observe_ok(*old(self), now, running, *final(self), step),
            monitor_wf(*final(self)),
    {
        match running {
            Some(pid) => {
                if !self.found_once {
                    self.found_once = true;
                    self.first_seen = Some(now);
                }
                self.last_seen = now;
                self.current_pid = Some(pid);
                MonitorStep::Wait(POLL_FAST_NS)
            },
            None => {
                self.current_pid = None;
                if !self.found_once {
                    if now - self.start > LAUNCH_TIMEOUT_NS {
                        MonitorStep::Stop
                    } else {
                        MonitorStep::Wait(POLL_SLOW_NS)
                    }
                } else {
                    let first = match self.first_seen {
                        Some(f) => f,
                        None => self.last_seen,
                    };
                    let g = if self.last_seen - first > STABLE_RUN_NS {
                        GRACE_SHORT_NS
                    } else {
                        GRACE_LONG_NS
                    };
                    if now - self.last_seen > g {
                        MonitorStep::Stop
                    } else {
                        MonitorStep::Wait(POLL_FAST_NS)
                    }
                }
            },
        }
    }

    /// Whether the game runs now (see `polled`).
    pub fn poll(&self, target: &MonitorTarget, processes: &[ProcessInfo]) -> (r: Option<u32>)
        ensures
            r == polled(*self, *target, processes@),
    {
        match self.current_pid {
            Some(pid) => if pid_is_alive(pid, processes) {
                Some(pid)
            } else {
                check_target_running(target, processes)
            },
            None => check_target_running(target, processes),
        }
    }
}

/// While the game is seen, watching never stops.
pub proof fn law_running_game_is_watched(o: MonitorState, now: u64, pid: u32, n: MonitorState, step: MonitorStep)
    requires
        observe_ok(o, now, Some(pid), n, step),
    ensures
        step != MonitorStep::Stop,
        n.current_pid == Some(pid),
        n.found_once,
{
}

/// A game that never appeared is given up exactly when the launch timeout has
/// passed.
pub proof fn law_launch_timeout(o: MonitorState, now: u64, n: MonitorState, step: MonitorStep)
    requires
        !o.found_once,
        observe_ok(o, now, None, n, step),
    ensures
        (step == MonitorStep::Stop) == (now - o.start > LAUNCH_TIMEOUT_NS),
{
}

/// A game that ran for more than the stable time is let go after the short grace
/// period; one that ran for less, after the long one.
pub proof fn law_adaptive_grace(o: MonitorState, now: u64, n: MonitorState, step: MonitorStep)
    requires
        monitor_wf(o),
        o.found_once,
        now >= o.last_seen,
        observe_ok(o, now, None, n, step),
    ensures
        o.last_seen - o.first_seen->0 > STABLE_RUN_NS ==> ((step == MonitorStep::Stop) == (now
            - o.last_seen > GRACE_SHORT_NS)),
        o.last_seen - o.first_seen->0 <= STABLE_RUN_NS ==> ((step == MonitorStep::Stop) == (now
            - o.last_seen > GRACE_LONG_NS)),
{
}


/// When some process is accepted, a first one is.
proof fn lemma_first_accepted(procs: Seq<ProcessInfo>, accept: spec_fn(ProcessInfo) -> bool, k: int)
    requires
        0 <= k < procs.len(),
        accept(procs[k]),
    ensures
        exists|i: int|
            0 <= i < procs.len() && #[trigger] accept(procs[i]) && forall|j: int|
                0 <= j < i ==> !#[trigger] accept(procs[j]),
    decreases k,
{
    if exists|j: int| 0 <= j < k && #[trigger] accept(procs[j]) {
        let j = choose|j: int| 0 <= j < k && #[trigger] accept(procs[j]);
        lemma_first_accepted(procs, accept, j);
    } else {
        assert(forall|j: int| 0 <= j < k ==> !#[trigger] accept(procs[j]));
    }
}

/// Once the game's process is known it is locked: while it lives, every poll
/// answers with it and no search of the other processes decides anything.
pub proof fn law_locked_pid_is_kept(s: MonitorState, target: MonitorTarget, procs: Seq<ProcessInfo>, pid: u32)
    requires
        s.current_pid == Some(pid),
        pid_alive(procs, pid),
    ensures
        polled(s, target, procs) == Some(pid),
{
}

/// Polling is slow (once a second) while the game is searched for and fast
/// (every quarter second) once it has been seen.
pub proof fn law_adaptive_polling(o: MonitorState, now: u64, running: Option<u32>, n: MonitorState, step: MonitorStep)
    requires
        observe_ok(o, now, running, n, step),
    ensures
        running is Some ==> step == MonitorStep::Wait(POLL_FAST_NS),
        running is None && !o.found_once && step != MonitorStep::Stop ==> step == MonitorStep::Wait(
            POLL_SLOW_NS,
        ),
        running is None && o.found_once && step != MonitorStep::Stop ==> step == MonitorStep::Wait(
            POLL_FAST_NS,
        ),
{
}

/// A search by command line or environment never settles on one of Steam's helper
/// processes (`steam`, `steamwebhelper`, `gameoverlayui`, `pressure-vessel`) nor on
/// a zombie: the process it finds is a search candidate.
pub proof fn law_helpers_never_count(target: MonitorTarget, procs: Seq<ProcessInfo>)
    requires
        !(target is Pid),
        !(target is Any),
        target_found(target, procs) is Some,
    ensures
        exists|i: int|
            0 <= i < procs.len() && (#[trigger] procs[i]).pid == target_found(target, procs)->0
                && search_candidate(procs[i]),
{
    let accept = match target {
        MonitorTarget::SteamAppId(appid) => env_accept(
            vstd::utf8::encode_utf8("SteamAppId"@),
            vstd::utf8::encode_utf8(appid@),
        ),
        MonitorTarget::EnvVarEq(key, val) => env_accept(
            vstd::utf8::encode_utf8(key@),
            vstd::utf8::encode_utf8(val@),
        ),
        MonitorTarget::CmdLineContains(pattern) => cmdline_accept(pattern@),
        _ => cmdline_accept(Seq::empty()),
    };
    assert(target_found(target, procs) == found_pid(procs, accept));
    let k = choose|i: int| 0 <= i < procs.len() && #[trigger] accept(procs[i]);
    lemma_first_accepted(procs, accept, k);
    let i = first_index(procs, accept)->0;
    assert(accept(procs[i]));
}

} // verus!
