//! What the launcher does around starting an item: what activating it means, what
//! a start records (the last-start times and the launch history), what a failed
//! start shows, and how loaded entries become the rows' items.
use uuid::Uuid;
use vstd::prelude::*;

use crate::category_list::{id_index, sorted_items, CategoryList};
use crate::launcher::LaunchError;
use crate::model::{action_command, opt_view, AppEntry, Category, LauncherAction, LauncherItem};
use crate::monitor::MonitorTarget;
use crate::navigation::{list_of, Modal, NavState};
use crate::roms::concat;
use crate::text::{chars_eq, chars_of, string_of};

verus! {

// ---------------------------------------------------------------------------
// The launch history
// ---------------------------------------------------------------------------

/// When the entry with a launch key was last started (Unix seconds).
pub struct HistoryEntry {
    pub key: String,
    pub started: i64,
}

/// The start times of games, by launch key; each key occurs once.
pub struct LaunchHistory {
    pub entries: Vec<HistoryEntry>,
}

/// The history as a map from launch keys to start times.
pub open spec fn history_map(s: Seq<HistoryEntry>) -> Map<Seq<char>, i64>
    decreases s.len(),
{
    if s.len() == 0 {
        Map::empty()
    } else {
        history_map(s.drop_last()).insert(s.last().key@, s.last().started)
    }
}

/// No key occurs twice.
pub open spec fn distinct_keys(s: Seq<HistoryEntry>) -> bool {
    forall|i: int, j: int| 0 <= i < j < s.len() ==> s[i].key@ != s[j].key@
}

pub proof fn lemma_history_map(s: Seq<HistoryEntry>)
    requires
        distinct_keys(s),
    ensures
        forall|k: Seq<char>|
            #![trigger history_map(s).dom().contains(k)]
            history_map(s).dom().contains(k) <==> exists|i: int|
                0 <= i < s.len() && (#[trigger] s[i]).key@ == k,
        forall|i: int| 0 <= i < s.len() ==> history_map(s)[(#[trigger] s[i]).key@] == s[i].started,
    decreases s.len(),
{
    if s.len() > 0 {
        let t = s.drop_last();
        assert(distinct_keys(t)) by {
            assert(forall|i: int| 0 <= i < t.len() ==> t[i] == s[i]);
        }
        lemma_history_map(t);
        assert forall|k: Seq<char>| #[trigger]
            history_map(s).dom().contains(k) implies exists|i: int|
                0 <= i < s.len() && (#[trigger] s[i]).key@ == k by {
            if k != s.last().key@ {
                assert(history_map(t).dom().contains(k));
                let i = choose|i: int| 0 <= i < t.len() && (#[trigger] t[i]).key@ == k;
                assert(s[i] == t[i]);
                assert(s[i].key@ == k);
            } else {
                assert(s[s.len() - 1].key@ == k);
            }
        }
        assert forall|k: Seq<char>|
            (exists|i: int| 0 <= i < s.len() && (#[trigger] s[i]).key@ == k) implies #[trigger]
            history_map(s).dom().contains(k) by {
            let i = choose|i: int| 0 <= i < s.len() && (#[trigger] s[i]).key@ == k;
            if i < s.len() - 1 {
                assert(t[i] == s[i]);
            }
        }
        assert forall|i: int| 0 <= i < s.len() implies history_map(s)[(#[trigger] s[i]).key@]
            == s[i].started by {
            if i < s.len() - 1 {
                assert(t[i] == s[i]);
                assert(s[i].key@ != s.last().key@);
            }
        }
    }
}

/// The time recorded for `k`, if any.
pub open spec fn history_lookup(h: Map<Seq<char>, i64>, k: Seq<char>) -> Option<i64> {
    if h.dom().contains(k) {
        Some(h[k])
    } else {
        None
    }
}

impl LaunchHistory {
    pub open spec fn wf(&self) -> bool {
        distinct_keys(self.entries@)
    }

    pub open spec fn view(&self) -> Map<Seq<char>, i64> {
        history_map(self.entries@)
    }

    pub fn new() -> (r: Self)
        ensures
            r.wf(),
            r.view() == Map::<Seq<char>, i64>::empty(),
    {
        LaunchHistory { entries: Vec::new() }
    }

    fn position(&self, key: &str) -> (r: Option<usize>)
        ensures
            match r {
                Some(i) => i < self.entries@.len() && self.entries@[i as int].key@ == key@,
                None => forall|i: int| 0 <= i < self.entries@.len() ==> self.entries@[i].key@ != key@,
            },
    {
        let k = chars_of(key);
        let mut i: usize = 0;
        while i < self.entries.len()
            invariant
                i <= self.entries@.len(),
                k@ == key@,
                forall|j: int| 0 <= j < i ==> self.entries@[j].key@ != key@,
            decreases self.entries@.len() - i,
        {
            if chars_eq(chars_of(self.entries[i].key.as_str()).as_slice(), k.as_slice()) {
                return Some(i);
            }
            i += 1;
        }
        None
    }

    /// When the entry with this launch key was last started, if it was.
    pub fn get(&self, key: &str) -> (r: Option<i64>)
        requires
            self.wf(),
        ensures
            r == history_lookup(self.view(), key@),
    {
        proof {
            lemma_history_map(self.entries@);
        }
        match self.position(key) {
            Some(i) => Some(self.entries[i].started),
            None => None,
        }
    }

    /// Records that the entry with this launch key was started at `started`.
    pub fn insert(&mut self, key: String, started: i64)
        requires
            old(self).wf(),
        ensures
            final(self).wf(),
            final(self).view() == old(self).view().insert(key@, started),
    {
        let ghost s0 = self.entries@;
        proof {
            lemma_history_map(s0);
        }
        match self.position(key.as_str()) {
            Some(i) => {
                let ghost k = key@;
                self.entries.set(i, HistoryEntry { key, started });
                let ghost s1 = self.entries@;
                assert(forall|j: int| 0 <= j < s1.len() && j != i ==> s1[j] == s0[j]);
                assert(s1[i as int].key@ == k);
                assert(distinct_keys(s1)) by {
                    assert forall|a: int, b: int| 0 <= a < b < s1.len() implies s1[a].key@
                        != s1[b].key@ by {
                        assert(s1[a].key@ == s0[a].key@);
                        assert(s1[b].key@ == s0[b].key@);
                    }
                }
                proof {
                    lemma_history_map(s1);
                }
                assert forall|x: Seq<char>| #[trigger]
                    history_map(s1).dom().contains(x) <==> history_map(s0).insert(
                        k,
                        started,
                    ).dom().contains(x) by {
                    if history_map(s1).dom().contains(x) {
                        let j = choose|j: int| 0 <= j < s1.len() && (#[trigger] s1[j]).key@ == x;
                        assert(s1[j].key@ == s0[j].key@);
                    }
                    if history_map(s0).dom().contains(x) {
                        let j = choose|j: int| 0 <= j < s0.len() && (#[trigger] s0[j]).key@ == x;
                        assert(s1[j].key@ == s0[j].key@);
                    }
                }
                assert forall|x: Seq<char>| #[trigger]
                    history_map(s1).dom().contains(x) implies history_map(s1)[x] == history_map(
                    s0,
                ).insert(k, started)[x] by {
                    let j = choose|j: int| 0 <= j < s1.len() && (#[trigger] s1[j]).key@ == x;
                    if j != i {
                        assert(s1[j] == s0[j]);
                    }
                }
                assert(history_map(s1) =~= history_map(s0).insert(k, started));
            },
            None => {
                self.entries.push(HistoryEntry { key, started });
                assert(self.entries@.drop_last() =~= s0);
            },
        }
    }

    /// Forgets the entry with this launch key.
    pub fn remove(&mut self, key: &str)
        requires
            old(self).wf(),
        ensures
            final(self).wf(),
            final(self).view() == old(self).view().remove(key@),
    {
        let ghost s0 = self.entries@;
        proof {
            lemma_history_map(s0);
        }
        match self.position(key) {
            Some(i) => {
                self.entries.remove(i);
                let ghost s1 = self.entries@;
                assert(distinct_keys(s1)) by {
                    assert forall|a: int, b: int| 0 <= a < b < s1.len() implies s1[a].key@
                        != s1[b].key@ by {
                        let a0 = if a < i { a } else { a + 1 };
                        let b0 = if b < i { b } else { b + 1 };
                        assert(s1[a] == s0[a0]);
                        assert(s1[b] == s0[b0]);
                    }
                }
                proof {
                    lemma_history_map(s1);
                }
                assert forall|k: Seq<char>| #[trigger]
                    history_map(s1).dom().contains(k) <==> history_map(s0).remove(
                        key@,
                    ).dom().contains(k) by {
                    if history_map(s1).dom().contains(k) {
                        let j = choose|j: int| 0 <= j < s1.len() && (#[trigger] s1[j]).key@ == k;
                        let j0 = if j < i { j } else { j + 1 };
                        assert(s1[j] == s0[j0]);
                    }
                    if history_map(s0).remove(key@).dom().contains(k) {
                        let j = choose|j: int| 0 <= j < s0.len() && (#[trigger] s0[j]).key@ == k;
                        assert(j != i);
                        let j1 = if j < i { j } else { j - 1 };
                        assert(s1[j1] == s0[j]);
                    }
                }
                assert forall|k: Seq<char>| #[trigger]
                    history_map(s1).dom().contains(k) implies history_map(s1)[k] == history_map(
                    s0,
                )[k] by {
                    let j = choose|j: int| 0 <= j < s1.len() && (#[trigger] s1[j]).key@ == k;
                    let j0 = if j < i { j } else { j + 1 };
                    assert(s1[j] == s0[j0]);
                }
                assert(history_map(s1) =~= history_map(s0).remove(key@));
            },
            None => {
                assert(history_map(s0) =~= history_map(s0).remove(key@));
            },
        }
    }
}

/// The history made from (launch key, start time) pairs, later pairs winning.
pub open spec fn pairs_map(s: Seq<(String, i64)>) -> Map<Seq<char>, i64>
    decreases s.len(),
{
    if s.len() == 0 {
        Map::empty()
    } else {
        pairs_map(s.drop_last()).insert(s.last().0@, s.last().1)
    }
}

impl LaunchHistory {
    /// The history holding the given start times.
    pub fn from_pairs(pairs: Vec<(String, i64)>) -> (r: Self)
        ensures
            r.wf(),
            r.view() == pairs_map(pairs@),
    {
        let ghost p0 = pairs@;
        let mut h = LaunchHistory::new();
        let mut pairs = pairs;
        let n = pairs.len();
        while pairs.len() > 0
            invariant
                n == p0.len(),
                pairs@.len() <= n,
                forall|j: int| 0 <= j < pairs@.len() ==> pairs@[j] == p0[n - pairs@.len() + j],
                h.wf(),
                h.view() == pairs_map(p0.take(n - pairs@.len())),
            decreases pairs@.len(),
        {
            let k: usize = n - pairs.len();
            let (key, started) = pairs.remove(0);
            assert(p0.take(k + 1).drop_last() =~= p0.take(k as int));
            h.insert(key, started);
        }
        assert(p0.take(n as int) =~= p0);
        h
    }
}

/// What was written is read back, and nothing else changes: after `insert(k, t)`,
/// `get(k)` gives `t` and every other key gives what it gave before; after
/// `remove(k)`, `get(k)` gives nothing and every other key is unchanged.
pub proof fn law_history_read_after_write(
    h: Map<Seq<char>, i64>,
    k: Seq<char>,
    t: i64,
    other: Seq<char>,
)
    requires
        other != k,
    ensures
        history_lookup(h.insert(k, t), k) == Some(t),
        history_lookup(h.insert(k, t), other) == history_lookup(h, other),
        history_lookup(h.remove(k), k) is None,
        history_lookup(h.remove(k), other) == history_lookup(h, other),
{
}

// ---------------------------------------------------------------------------
// Activating an item
// ---------------------------------------------------------------------------

/// What activating an item asks of the screen.
pub enum Activation {
    /// Start the item's command; `game_executable` names the game's program.
    Launch { command: String, game_executable: Option<String> },
    /// Open the system update dialog.
    StartSystemUpdate,
    /// Open the system information dialog.
    OpenSystemInfo,
    /// Run a system program (power off, suspend); `action` names it in an error.
    SystemCommand { program: String, args: Vec<String>, action: String },
    /// Leave the launcher.
    Exit,
}

pub open spec fn system_command_ok(a: Activation, arg: Seq<char>, action: Seq<char>) -> bool {
    a matches Activation::SystemCommand { program, args, action: act } && program@ == "systemctl"@
        && args@.len() == 1 && args@[0]@ == arg && act@ == action
}

/// The activation of an item with this action.
pub open spec fn activation_ok(item: LauncherItem, a: Activation) -> bool {
    match item.action {
        LauncherAction::Launch { command } => a matches Activation::Launch {
            command: c,
            game_executable: g,
        } && c@ == command@ && opt_view(g) == opt_view(item.game_executable),
        LauncherAction::SystemUpdate => a is StartSystemUpdate,
        LauncherAction::SystemInfo => a is OpenSystemInfo,
        LauncherAction::Shutdown => system_command_ok(a, "poweroff"@, "shutdown"@),
        LauncherAction::Suspend => system_command_ok(a, "suspend"@, "suspend"@),
        LauncherAction::Exit => a is Exit,
    }
}

fn systemctl(arg: &str, action: &str) -> (r: Activation)
    ensures
        system_command_ok(r, arg@, action@),
{
    let mut args: Vec<String> = Vec::new();
    args.push(string_of(chars_of(arg).as_slice()));
    Activation::SystemCommand {
        program: String::from_str("systemctl"),
        args,
        action: string_of(chars_of(action).as_slice()),
    }
}

/// What activating `item` does.
pub fn activation_for(item: &LauncherItem) -> (r: Activation)
    ensures
        activation_ok(*item, r),
{
    match &item.action {
        LauncherAction::Launch { command } => Activation::Launch {
            command: string_of(chars_of(command.as_str()).as_slice()),
            game_executable: match &item.game_executable {
                Some(g) => Some(string_of(chars_of(g.as_str()).as_slice())),
                None => None,
            },
        },
        LauncherAction::SystemUpdate => Activation::StartSystemUpdate,
        LauncherAction::SystemInfo => Activation::OpenSystemInfo,
        LauncherAction::Shutdown => systemctl("poweroff", "shutdown"),
        LauncherAction::Suspend => systemctl("suspend", "suspend"),
        LauncherAction::Exit => Activation::Exit,
    }
}

/// What is watched after a start: the started process first, then the entry's own
/// target when it has one.
pub fn launch_monitor_target(pid: u32, target: Option<MonitorTarget>) -> (r: MonitorTarget)
    ensures
        match target {
            Some(t) => r matches MonitorTarget::Any(v) && v@ == seq![MonitorTarget::Pid(pid), t],
            None => r == MonitorTarget::Pid(pid),
        },
{
    match target {
        Some(t) => {
            let mut v: Vec<MonitorTarget> = Vec::new();
            v.push(MonitorTarget::Pid(pid));
            v.push(t);
            assert(v@ =~= seq![MonitorTarget::Pid(pid), t]);
            MonitorTarget::Any(v)
        },
        None => MonitorTarget::Pid(pid),
    }
}

// ---------------------------------------------------------------------------
// After a start
// ---------------------------------------------------------------------------

/// The items of a row after the item `id` was started at `now`: that item's last
/// start set, and the row put back in display order.
pub open spec fn items_after_start(s: Seq<LauncherItem>, id: Uuid, now: i64) -> Seq<LauncherItem> {
    match id_index(s, id) {
        Some(k) => sorted_items(s.update(k, LauncherItem { last_started: Some(now), ..s[k] })),
        None => sorted_items(s),
    }
}

fn mark_started(list: &mut CategoryList, id: Uuid, now: i64)
    ensures
        final(list).items@ == items_after_start(old(list).items@, id, now),
        final(list).selected_index == 0,
{
    proof {
        crate::category_list::lemma_id_index(list.items@, id);
    }
    match list.find_id(&id) {
        Some(k) => {
            let mut it = list.items.remove(k);
            it.last_started = Some(now);
            list.items.insert(k, it);
            assert(list.items@ =~= old(list).items@.update(
                k as int,
                LauncherItem { last_started: Some(now), ..old(list).items@[k as int] },
            ));
        },
        None => {},
    }
    list.sort_inplace();
    list.selected_index = 0;
}

/// A start of `item` at `now` recorded (see `record_launch`).
pub open spec fn launch_recorded(
    o: NavState,
    oh: Map<Seq<char>, i64>,
    item: LauncherItem,
    now: i64,
    n: NavState,
    nh: Map<Seq<char>, i64>,
    save: bool,
) -> bool {
    &&& save == !(o.category is System)
    &&& n.category == o.category
    &&& n.modal == o.modal
    &&& n.status_message == o.status_message
    &&& o.category is System ==> n == o && nh == oh
    &&& !(o.category is System) ==> {
        let c = o.category;
        &&& list_of(n, c).items@ == items_after_start(list_of(o, c).items@, item.id, now)
        &&& list_of(n, c).selected_index == 0
        &&& forall|d: Category| d != c ==> list_of(n, d) == list_of(o, d)
    }
    &&& nh == (match (o.category, item.launch_key) {
        (Category::Games, Some(k)) => oh.insert(k@, now),
        _ => oh,
    })
}

/// A start of `item` at `now` recorded: in the apps and games rows the item's last
/// start is set, the row re-sorted and its first item selected; a game's launch key
/// is written to the history.  Nothing is recorded for system items.  The result
/// tells whether the configuration is to be saved.
pub fn record_launch(nav: &mut NavState, history: &mut LaunchHistory, item: &LauncherItem, now: i64) -> (save: bool)
    requires
        old(history).wf(),
    ensures
        final(history).wf(),
        launch_recorded(*old(nav), old(history).view(), *item, now, *final(nav), final(history).view(), save),
{
    match nav.category {
        Category::Apps => {
            mark_started(&mut nav.apps, item.id, now);
            true
        },
        Category::Games => {
            mark_started(&mut nav.games, item.id, now);
            match &item.launch_key {
                Some(k) => history.insert(string_of(chars_of(k.as_str()).as_slice()), now),
                None => {},
            }
            true
        },
        Category::System => false,
    }
}

/// What a failed start of `item` shows (see `launch_failed`).
pub open spec fn launch_failure_shown(o: NavState, item: LauncherItem, err: LaunchError, n: NavState) -> bool {
    &&& n.apps == o.apps
    &&& n.games == o.games
    &&& n.system_items == o.system_items
    &&& n.category == o.category
    &&& match err {
        LaunchError::CommandNotFound { .. } => {
            &&& n.modal matches Modal::AppNotFound { item_id, item_name, category, selected_index }
                && item_id == item.id && item_name@ == item.name@ && category == o.category
                && selected_index == 0
            &&& n.status_message == o.status_message
        },
        _ => n.modal == o.modal && (n.status_message matches Some(m)
            && crate::launcher::launch_error_shown(err, m@)),
    }
}

/// A failed start: a missing program opens the dialog that offers to remove the
/// item; any other failure is shown in the status line.
pub fn launch_failed(nav: &mut NavState, item: &LauncherItem, err: LaunchError)
    ensures
        launch_failure_shown(*old(nav), *item, err, *final(nav)),
{
    match err {
        LaunchError::CommandNotFound { .. } => {
            nav.modal = Modal::AppNotFound {
                item_id: item.id,
                item_name: string_of(chars_of(item.name.as_str()).as_slice()),
                category: nav.category,
                selected_index: 0,
            };
        },
        _ => {
            let m = err.message();
            nav.status_message = Some(m);
        },
    }
}

// ---------------------------------------------------------------------------
// Loading the rows
// ---------------------------------------------------------------------------

/// The launch key that a configured app without one is remembered under.
pub open spec fn desktop_key(command: Seq<char>) -> Seq<char> {
    "desktop:"@ + command
}

/// An item of the apps row made from a configured entry: as `from_app_entry`, with
/// the key `desktop:<command>` when the entry has no launch key.
pub open spec fn app_item_ok(e: AppEntry, it: LauncherItem) -> bool {
    &&& it.id == e.id
    &&& it.name@ == e.name@
    &&& action_command(it.action) == Some(e.command@)
    &&& it.game_executable == e.game_executable
    &&& it.steam_appid == e.steam_appid
    &&& it.last_started is None
    &&& match e.launch_key {
        Some(k) => it.launch_key == Some(k),
        None => it.launch_key matches Some(k) && k@ == desktop_key(e.command@),
    }
}

pub fn app_items(entries: Vec<AppEntry>) -> (r: Vec<LauncherItem>)
    ensures
        r@.len() == entries@.len(),
        forall|i: int| 0 <= i < r@.len() ==> app_item_ok(entries@[i], #[trigger] r@[i]),
{
    let ghost e0 = entries@;
    let mut entries = entries;
    let mut r: Vec<LauncherItem> = Vec::new();
    let n = entries.len();
    while entries.len() > 0
        invariant
            entries@.len() + r@.len() == n,
            n == e0.len(),
            forall|j: int| 0 <= j < entries@.len() ==> entries@[j] == e0[r@.len() + j],
            forall|i: int| 0 <= i < r@.len() ==> app_item_ok(e0[i], #[trigger] r@[i]),
        decreases entries@.len(),
    {
        let e = entries.remove(0);
        let command = match &e.launch_key {
            Some(_) => None,
            None => Some(string_of(chars_of(e.command.as_str()).as_slice())),
        };
        let mut item = LauncherItem::from_app_entry(e);
        match command {
            Some(c) => {
                let key = concat(chars_of("desktop:").as_slice(), chars_of(c.as_str()).as_slice());
                item.launch_key = Some(string_of(key.as_slice()));
            },
            None => {},
        }
        r.push(item);
    }
    r
}

/// An item of the games row made from a found game: as `from_app_entry`, with the
/// last start the history holds for its launch key.
pub open spec fn game_item_ok(e: AppEntry, h: Map<Seq<char>, i64>, it: LauncherItem) -> bool {
    &&& it.id == e.id
    &&& it.name@ == e.name@
    &&& action_command(it.action) == Some(e.command@)
    &&& it.game_executable == e.game_executable
    &&& it.launch_key == e.launch_key
    &&& it.steam_appid == e.steam_appid
    &&& it.last_started == match e.launch_key {
        Some(k) => history_lookup(h, k@),
        None => None,
    }
}

pub fn game_items(games: Vec<AppEntry>, history: &LaunchHistory) -> (r: Vec<LauncherItem>)
    requires
        history.wf(),
    ensures
        r@.len() == games@.len(),
        forall|i: int| 0 <= i < r@.len() ==> game_item_ok(games@[i], history.view(), #[trigger] r@[i]),
{
    let ghost g0 = games@;
    let mut games = games;
    let mut r: Vec<LauncherItem> = Vec::new();
    let n = games.len();
    while games.len() > 0
        invariant
            games@.len() + r@.len() == n,
            n == g0.len(),
            history.wf(),
            forall|j: int| 0 <= j < games@.len() ==> games@[j] == g0[r@.len() + j],
            forall|i: int| 0 <= i < r@.len() ==> game_item_ok(g0[i], history.view(), #[trigger] r@[i]),
        decreases games@.len(),
    {
        let e = games.remove(0);
        let mut item = LauncherItem::from_app_entry(e);
        match &item.launch_key {
            Some(k) => {
                item.last_started = history.get(k.as_str());
            },
            None => {},
        }
        r.push(item);
    }
    r
}

/// The installed apps that the picker offers: those whose command is not yet the
/// command of an item in the apps row, in order.
pub open spec fn not_added(available: Seq<AppEntry>, items: Seq<LauncherItem>) -> Seq<AppEntry>
    decreases available.len(),
{
    if available.len() == 0 {
        available
    } else {
        let rest = not_added(available.drop_last(), items);
        let e = available.last();
        if exists|i: int| 0 <= i < items.len() && action_command(#[trigger] items[i].action) == Some(e.command@) {
            rest
        } else {
            rest.push(e)
        }
    }
}

/// An app is already in the apps row when an item has its command.
pub open spec fn is_added_to(e: AppEntry, items: Seq<LauncherItem>) -> bool {
    exists|i: int| 0 <= i < items.len() && action_command(#[trigger] items[i].action) == Some(e.command@)
}

/// The picker offers exactly the installed apps that are not in the apps row yet:
/// an app is offered if and only if it was found and no item has its command.
pub proof fn law_picker_offers_only_new_apps(available: Seq<AppEntry>, items: Seq<LauncherItem>, e: AppEntry)
    ensures
        not_added(available, items).contains(e) <==> (available.contains(e) && !is_added_to(e, items)),
    decreases available.len(),
{
    if available.len() > 0 {
        let rest = available.drop_last();
        law_picker_offers_only_new_apps(rest, items, e);
        let last = available.last();
        assert(available =~= rest.push(last));
        if available.contains(e) {
            let k = choose|k: int| 0 <= k < available.len() && available[k] == e;
            if k < available.len() - 1 {
                assert(rest[k] == e);
            }
        }
        if rest.contains(e) {
            let k = choose|k: int| 0 <= k < rest.len() && rest[k] == e;
            assert(available[k] == e);
        }
        if !is_added_to(last, items) {
            let r = not_added(rest, items);
            assert(not_added(available, items) == r.push(last));
            if r.push(last).contains(e) {
                let k = choose|k: int| 0 <= k < r.len() + 1 && r.push(last)[k] == e;
                if k < r.len() {
                    assert(r[k] == e);
                }
            }
            if r.contains(e) {
                let k = choose|k: int| 0 <= k < r.len() && r[k] == e;
                assert(r.push(last)[k] == e);
            }
            if e == last {
                assert(r.push(last)[r.len() as int] == e);
            }
        }
    }
}

fn is_added(command: &str, items: &Vec<LauncherItem>) -> (r: bool)
    ensures
        r == exists|i: int| 0 <= i < items@.len() && action_command(#[trigger] items@[i].action) == Some(command@),
{
    let c = chars_of(command);
    let mut i: usize = 0;
    while i < items.len()
        invariant
            i <= items@.len(),
            c@ == command@,
            forall|j: int| 0 <= j < i ==> action_command(#[trigger] items@[j].action) != Some(command@),
        decreases items@.len() - i,
    {
        match &items[i].action {
            LauncherAction::Launch { command: x } => {
                if chars_eq(chars_of(x.as_str()).as_slice(), c.as_slice()) {
                    assert(action_command(items@[i as int].action) == Some(command@));
                    return true;
                }
            },
            _ => {},
        }
        i += 1;
    }
    false
}

pub fn apps_not_added(available: Vec<AppEntry>, items: &Vec<LauncherItem>) -> (r: Vec<AppEntry>)
    ensures
        r@ == not_added(available@, items@),
{
    let ghost a0 = available@;
    let mut r: Vec<AppEntry> = Vec::new();
    let mut available = available;
    let n = available.len();
    assert(a0.take(0) =~= Seq::<AppEntry>::empty());
    while available.len() > 0
        invariant
            n == a0.len(),
            available@.len() <= n,
            forall|j: int| 0 <= j < available@.len() ==> available@[j] == a0[n - available@.len() + j],
            r@ == not_added(a0.take(n - available@.len()), items@),
        decreases available@.len(),
    {
        let k: usize = n - available.len();
        let e = available.remove(0);
        assert(a0.take(k + 1).drop_last() =~= a0.take(k as int));
        assert(a0.take(k + 1).last() == e);
        if !is_added(e.command.as_str(), items) {
            r.push(e);
        }
    }
    assert(a0.take(n as int) =~= a0);
    r
}

/// The entry added from the picker: the installed app, remembered under
/// `desktop:<command>`.
pub fn picked_app_entry(app: AppEntry) -> (r: AppEntry)
    ensures
        r == (AppEntry { launch_key: r.launch_key, ..app }),
        r.launch_key matches Some(k) && k@ == desktop_key(app.command@),
{
    let key = concat(chars_of("desktop:").as_slice(), chars_of(app.command.as_str()).as_slice());
    app.with_launch_key(string_of(key.as_slice()))
}

/// Forgets the history of a removed game.
pub fn forget_removed(history: &mut LaunchHistory, category: Category, item: &LauncherItem)
    requires
        old(history).wf(),
    ensures
        final(history).wf(),
        final(history).view() == (match (category, item.launch_key) {
            (Category::Games, Some(k)) => old(history).view().remove(k@),
            _ => old(history).view(),
        }),
{
    match category {
        Category::Games => match &item.launch_key {
            Some(k) => history.remove(k.as_str()),
            None => {},
        },
        _ => {},
    }
}


/// The entry stored for an item of the apps row (none for a built-in item).
pub open spec fn saved_entry_ok(it: LauncherItem, e: AppEntry) -> bool {
    &&& e.id == it.id
    &&& e.name@ == it.name@
    &&& Some(e.command@) == action_command(it.action)
    &&& opt_view(e.icon) == opt_view(it.icon)
    &&& opt_view(e.game_executable) == opt_view(it.game_executable)
    &&& opt_view(e.launch_key) == opt_view(it.launch_key)
    &&& opt_view(e.steam_appid) == opt_view(it.steam_appid)
}

/// The launchable items of a row, in order.
pub open spec fn launchable(items: Seq<LauncherItem>) -> Seq<LauncherItem>
    decreases items.len(),
{
    if items.len() == 0 {
        items
    } else if items.last().action is Launch {
        launchable(items.drop_last()).push(items.last())
    } else {
        launchable(items.drop_last())
    }
}

fn copy_opt(o: &Option<String>) -> (r: Option<String>)
    ensures
        opt_view(r) == opt_view(*o),
{
    match o {
        Some(s) => Some(string_of(chars_of(s.as_str()).as_slice())),
        None => None,
    }
}

/// The entries stored in the configuration for the apps row: one per launchable
/// item, in order.
pub fn saved_apps(items: &Vec<LauncherItem>) -> (r: Vec<AppEntry>)
    ensures
        r@.len() == launchable(items@).len(),
        forall|i: int| 0 <= i < r@.len() ==> saved_entry_ok(launchable(items@)[i], #[trigger] r@[i]),
{
    let mut r: Vec<AppEntry> = Vec::new();
    let mut i: usize = 0;
    while i < items.len()
        invariant
            i <= items@.len(),
            r@.len() == launchable(items@.take(i as int)).len(),
            forall|j: int|
                0 <= j < r@.len() ==> saved_entry_ok(launchable(items@.take(i as int))[j], #[trigger] r@[j]),
        decreases items@.len() - i,
    {
        assert(items@.take(i + 1).drop_last() =~= items@.take(i as int));
        let it = &items[i];
        match &it.action {
            LauncherAction::Launch { command } => {
                r.push(
                    AppEntry {
                        id: it.id,
                        name: string_of(chars_of(it.name.as_str()).as_slice()),
                        command: string_of(chars_of(command.as_str()).as_slice()),
                        icon: copy_opt(&it.icon),
                        game_executable: copy_opt(&it.game_executable),
                        launch_key: copy_opt(&it.launch_key),
                        steam_appid: copy_opt(&it.steam_appid),
                    },
                );
            },
            _ => {},
        }
        i += 1;
    }
    assert(items@.take(items@.len() as int) =~= items@);
    r
}

/// What the status line says after the background check for a new launcher
/// version: a notice (and a restart) only when an update was installed.
pub fn app_update_notice(result: Result<bool, String>) -> (r: Option<String>)
    ensures
        match result {
            Ok(true) => r matches Some(m) && m@ == "App updated, restarting..."@,
            _ => r is None,
        },
{
    match result {
        Ok(true) => Some(String::from_str("App updated, restarting...")),
        _ => None,
    }
}

} // verus!
