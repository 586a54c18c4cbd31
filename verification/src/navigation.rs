//! What the launcher's screen does with each input action: moving along the rows,
//! switching rows, and driving the dialogs.  The screen itself only performs the
//! effect that is handed back.
use uuid::Uuid;
use vstd::prelude::*;

use crate::category_list::{CategoryList, clamped_index, id_index};
use crate::model::{Action, Category, LauncherItem, category_next, category_prev};
use crate::system_info::GamingSystemInfo;
use crate::system_update_state::{SystemUpdateState, UpdateStatus, status_running};

verus! {

/// The dialog on top of the rows, if any.
#[derive(Debug)]
pub enum Modal {
    Closed,
    ContextMenu { index: usize },
    AppPicker { selected_index: usize, cols: usize, available: usize },
    SystemUpdate(SystemUpdateState),
    SystemInfo(Option<GamingSystemInfo>),
    AppNotFound { item_id: Uuid, item_name: String, category: Category, selected_index: usize },
    Help,
}

/// Work that the screen has to do after a navigation step.
#[derive(Debug)]
pub enum NavEffect {
    Nothing,
    /// Leave the launcher.
    Exit,
    /// Scroll the current row to its selection.
    SnapMain,
    /// Start the selected item of the current row.
    Activate,
    /// Open the app picker and look for installed applications.
    OpenAppPicker,
    AddSelectedApp,
    CloseAppPicker,
    /// Scroll the app picker to its selection.
    SnapPicker,
    RequestReboot,
    CloseSystemUpdate,
    CancelSystemUpdate,
    CloseSystemInfo,
    /// The apps row changed: store it (the item named here was removed).
    SaveApps { removed_name: String },
    /// An item whose program is gone was removed from a row.
    RemovedMissing { category: Category, item: LauncherItem },
}

/// The rows of the launcher, which one is current, the open dialog and the status
/// line.
#[derive(Debug)]
pub struct NavState {
    pub apps: CategoryList,
    pub games: CategoryList,
    pub system_items: CategoryList,
    pub category: Category,
    pub modal: Modal,
    pub status_message: Option<String>,
}

pub open spec fn list_of(s: NavState, c: Category) -> CategoryList {
    match c {
        Category::Apps => s.apps,
        Category::Games => s.games,
        Category::System => s.system_items,
    }
}

pub open spec fn with_list(s: NavState, c: Category, l: CategoryList) -> NavState {
    match c {
        Category::Apps => NavState { apps: l, ..s },
        Category::Games => NavState { games: l, ..s },
        Category::System => NavState { system_items: l, ..s },
    }
}

/// `next_grid_index`: a step in a grid of `cols` columns holding `len` cells.
pub open spec fn grid_step(current: usize, action: Action, cols: usize, len: usize) -> usize {
    match action {
        Action::Up => if current >= cols {
            (current - cols) as usize
        } else {
            current
        },
        Action::Down => if current + cols < len {
            (current + cols) as usize
        } else {
            current
        },
        Action::Left => if current > 0 {
            (current - 1) as usize
        } else {
            current
        },
        Action::Right => if current + 1 < len {
            (current + 1) as usize
        } else {
            current
        },
        _ => current,
    }
}

/// The index reached from `current` by `action` in a grid of `cols` columns and `len`
/// cells; unchanged when the step would leave the grid.
pub fn next_grid_index(current: usize, action: Action, cols: usize, len: usize) -> (r: usize)
    ensures
        r == grid_step(current, action, cols, len),
{
    match action {
        Action::Up => if current >= cols {
            current - cols
        } else {
            current
        },
        Action::Down => if current < len && cols < len - current {
            current + cols
        } else {
            current
        },
        Action::Left => if current > 0 {
            current - 1
        } else {
            current
        },
        Action::Right => if current < len && 1 < len - current {
            current + 1
        } else {
            current
        },
        _ => current,
    }
}

/// Moves `index` by `action` in the grid, and tells whether it moved.
pub fn navigate_grid(index: &mut usize, action: Action, cols: usize, len: usize) -> (moved: bool)
    ensures
        *final(index) == grid_step(*old(index), action, cols, len),
        moved == (*final(index) != *old(index)),
{
    let n = next_grid_index(*index, action, cols, len);
    let moved = n != *index;
    *index = n;
    moved
}

/// A grid step never leaves a grid that it starts inside.
pub proof fn law_grid_step_stays_inside(current: usize, action: Action, cols: usize, len: usize)
    requires
        current < len,
    ensures
        grid_step(current, action, cols, len) < len,
{
}

// ---------------------------------------------------------------------------
// Per-dialog steps
// ---------------------------------------------------------------------------

pub open spec fn menu_max(c: Category) -> usize {
    match c {
        Category::Apps => 3,
        _ => 2,
    }
}

pub open spec fn quit_index(c: Category) -> usize {
    match c {
        Category::Apps => 2,
        _ => 1,
    }
}

/// Starting the selection: the status line is cleared when there is something to
/// start.
pub open spec fn activate_ok(o: NavState, n: NavState, e: NavEffect) -> bool {
    let l = list_of(o, o.category);
    if l.selected_index < l.items@.len() {
        n == NavState { status_message: None, ..o } && e is Activate
    } else {
        n == o && e is Nothing
    }
}

pub open spec fn context_menu_ok(o: NavState, a: Action, n: NavState, e: NavEffect) -> bool {
    let index = o.modal->ContextMenu_index;
    let cat = o.category;
    match a {
        Action::Up => n == NavState {
            modal: Modal::ContextMenu { index: if index > 0 { (index - 1) as usize } else { 0 } },
            ..o
        } && e is Nothing,
        Action::Down => n == NavState {
            modal: Modal::ContextMenu {
                index: if index < menu_max(cat) { (index + 1) as usize } else { index },
            },
            ..o
        } && e is Nothing,
        Action::Select => if index == 0 {
            activate_ok(NavState { modal: Modal::Closed, ..o }, n, e)
        } else if cat is Apps && index == 1 {
            let l = o.apps;
            if l.selected_index < l.items@.len() {
                &&& n.apps.items@ == l.items@.remove(l.selected_index as int)
                &&& n.apps.selected_index == clamped_index(
                    l.selected_index,
                    (l.items@.len() - 1) as nat,
                )
                &&& n == NavState { apps: n.apps, ..o }
                &&& e matches NavEffect::SaveApps { removed_name } && removed_name
                    == l.items@[l.selected_index as int].name
            } else {
                n == o && e is Nothing
            }
        } else if index == quit_index(cat) {
            n == o && e is Exit
        } else {
            n == NavState { modal: Modal::Closed, ..o } && e is Nothing
        },
        Action::Back | Action::ContextMenu => n == NavState { modal: Modal::Closed, ..o }
            && e is Nothing,
        _ => n == o && e is Nothing,
    }
}

pub open spec fn help_ok(o: NavState, a: Action, n: NavState, e: NavEffect) -> bool {
    &&& e is Nothing
    &&& (a is Back || a is ShowHelp) ==> n == NavState { modal: Modal::Closed, ..o }
    &&& !(a is Back || a is ShowHelp) ==> n == o
}

pub open spec fn removed_ok(o: NavState, id: Uuid, cat: Category, n: NavState, e: NavEffect) -> bool {
    if cat is System {
        n == o && e is Nothing
    } else {
        let l = list_of(o, cat);
        match id_index(l.items@, id) {
            Some(k) => {
                &&& list_of(n, cat).items@ == l.items@.remove(k)
                &&& list_of(n, cat).selected_index == clamped_index(
                    l.selected_index,
                    (l.items@.len() - 1) as nat,
                )
                &&& n == with_list(o, cat, list_of(n, cat))
                &&& e matches NavEffect::RemovedMissing { category, item } && category == cat && item
                    == l.items@[k]
            },
            None => n == o && e is Nothing,
        }
    }
}

pub open spec fn app_not_found_ok(o: NavState, a: Action, n: NavState, e: NavEffect) -> bool {
    match o.modal {
        Modal::AppNotFound { item_id, item_name, category, selected_index } => app_not_found_step(
            o,
            a,
            n,
            e,
            item_id,
            item_name,
            category,
            selected_index,
        ),
        _ => false,
    }
}

pub open spec fn app_not_found_step(
    o: NavState,
    a: Action,
    n: NavState,
    e: NavEffect,
    item_id: Uuid,
    item_name: String,
    category: Category,
    selected_index: usize,
) -> bool {
    match a {
        Action::Left | Action::Right | Action::Up | Action::Down => n == NavState {
            modal: Modal::AppNotFound {
                item_id,
                item_name,
                category,
                selected_index: if selected_index == 0 { 1 } else { 0 },
            },
            ..o
        } && e is Nothing,
        Action::Select => {
            let closed = NavState { modal: Modal::Closed, ..o };
            if selected_index == 0 {
                removed_ok(closed, item_id, category, n, e)
            } else {
                n == closed && e is Nothing
            }
        },
        Action::Back | Action::ContextMenu | Action::ShowHelp => n == NavState {
            modal: Modal::Closed,
            ..o
        } && e is Nothing,
        _ => n == o && e is Nothing,
    }
}

pub open spec fn system_update_effect(status: UpdateStatus, a: Action) -> NavEffect {
    if status matches UpdateStatus::Completed { restart_required } && restart_required {
        match a {
            Action::Select => NavEffect::RequestReboot,
            Action::Back | Action::ShowHelp => NavEffect::CloseSystemUpdate,
            _ => NavEffect::Nothing,
        }
    } else if !status_running(status) {
        match a {
            Action::Back | Action::Select | Action::ShowHelp => NavEffect::CloseSystemUpdate,
            _ => NavEffect::Nothing,
        }
    } else if !(status is Installing) && a is Back {
        NavEffect::CancelSystemUpdate
    } else {
        NavEffect::Nothing
    }
}

pub open spec fn picker_ok(o: NavState, a: Action, n: NavState, e: NavEffect) -> bool {
    match o.modal {
        Modal::AppPicker { selected_index, cols, available } => picker_step(
            o,
            a,
            n,
            e,
            selected_index,
            cols,
            available,
        ),
        _ => false,
    }
}

pub open spec fn picker_step(
    o: NavState,
    a: Action,
    n: NavState,
    e: NavEffect,
    selected_index: usize,
    cols: usize,
    available: usize,
) -> bool {
    if available == 0 {
        n == o && if a is Back || a is AddApp {
            e is CloseAppPicker
        } else {
            e is Nothing
        }
    } else {
        match a {
            Action::Select => n == o && e is AddSelectedApp,
            Action::Back | Action::AddApp => n == o && e is CloseAppPicker,
            _ => n == NavState {
                modal: Modal::AppPicker {
                    selected_index: grid_step(selected_index, a, cols, available),
                    cols,
                    available,
                },
                ..o
            } && e is SnapPicker,
        }
    }
}

/// Steps with no dialog open.
pub open spec fn main_ok(o: NavState, a: Action, n: NavState, e: NavEffect) -> bool {
    let l = list_of(o, o.category);
    match a {
        Action::ShowHelp => n == NavState { modal: Modal::Help, ..o } && e is Nothing,
        Action::AddApp => if o.category is Apps {
            n == NavState {
                modal: Modal::AppPicker { selected_index: 0, cols: 6, available: 0 },
                ..o
            } && e is OpenAppPicker
        } else {
            n == o && e is Nothing
        },
        Action::ContextMenu => e is Nothing && if l.items@.len() > 0 {
            n == NavState { modal: Modal::ContextMenu { index: 0 }, ..o }
        } else {
            n == o
        },
        Action::Back => n == NavState { status_message: None, ..o } && e is Nothing,
        Action::Up => n == NavState { category: category_next(o.category), ..o } && e is SnapMain,
        Action::Down => n == NavState { category: category_prev(o.category), ..o }
            && e is SnapMain,
        Action::Left => if l.items@.len() > 0 && l.selected_index > 0 {
            n == with_list(
                o,
                o.category,
                CategoryList { selected_index: (l.selected_index - 1) as usize, ..l },
            ) && e is SnapMain
        } else {
            n == o && e is Nothing
        },
        Action::Right => if l.selected_index + 1 < l.items@.len() {
            n == with_list(
                o,
                o.category,
                CategoryList { selected_index: (l.selected_index + 1) as usize, ..l },
            ) && e is SnapMain
        } else {
            n == o && e is Nothing
        },
        Action::Select => if l.items@.len() > 0 {
            activate_ok(o, n, e)
        } else {
            n == o && e is Nothing
        },
        Action::NextCategory => n == NavState {
            category: category_next(o.category),
            status_message: None,
            ..o
        } && e is SnapMain,
        Action::PrevCategory => n == NavState {
            category: category_prev(o.category),
            status_message: None,
            ..o
        } && e is SnapMain,
        Action::Quit => n == o && e is Exit,
    }
}

/// One navigation step, whatever dialog is open.
pub open spec fn navigation_ok(o: NavState, a: Action, n: NavState, e: NavEffect) -> bool {
    if a is Quit {
        n == o && e is Exit
    } else {
        match o.modal {
            Modal::Closed => main_ok(o, a, n, e),
            Modal::Help => help_ok(o, a, n, e),
            Modal::ContextMenu { .. } => context_menu_ok(o, a, n, e),
            Modal::AppPicker { .. } => picker_ok(o, a, n, e),
            Modal::SystemUpdate(st) => n == o && e == system_update_effect(st.status, a),
            Modal::SystemInfo(_) => n == o && if a is Back || a is Select || a is ShowHelp {
                e is CloseSystemInfo
            } else {
                e is Nothing
            },
            Modal::AppNotFound { .. } => app_not_found_ok(o, a, n, e),
        }
    }
}

impl NavState {
    pub fn new(apps: CategoryList, games: CategoryList, system_items: CategoryList) -> (r: Self)
        ensures
            r.apps == apps,
            r.games == games,
            r.system_items == system_items,
            r.category == Category::Games,
            r.modal is Closed,
            r.status_message is None,
    {
        NavState {
            apps,
            games,
            system_items,
            category: Category::Games,
            modal: Modal::Closed,
            status_message: None,
        }
    }

    pub fn current_category_list(&self) -> (r: &CategoryList)
        ensures
            *r == list_of(*self, self.category),
    {
        match self.category {
            Category::Apps => &self.apps,
            Category::Games => &self.games,
            Category::System => &self.system_items,
        }
    }

    fn move_current(&mut self, right: bool) -> (moved: bool)
        ensures
            ({
                let l = list_of(*old(self), old(self).category);
                let can = if right {
                    l.selected_index + 1 < l.items@.len()
                } else {
                    l.items@.len() > 0 && l.selected_index > 0
                };
                &&& moved == can
                &&& can ==> *final(self) == with_list(
                    *old(self),
                    old(self).category,
                    CategoryList {
                        selected_index: (if right {
                            l.selected_index + 1
                        } else {
                            l.selected_index - 1
                        }) as usize,
                        ..l
                    },
                )
                &&& !can ==> *final(self) == *old(self)
            }),
    {
        match self.category {
            Category::Apps => if right {
                self.apps.move_right()
            } else {
                self.apps.move_left()
            },
            Category::Games => if right {
                self.games.move_right()
            } else {
                self.games.move_left()
            },
            Category::System => if right {
                self.system_items.move_right()
            } else {
                self.system_items.move_left()
            },
        }
    }

    fn activate_selected(&mut self) -> (e: NavEffect)
        ensures
            activate_ok(*old(self), *final(self), e),
    {
        let l = self.current_category_list();
        if l.selected_index < l.items.len() {
            self.status_message = None;
            NavEffect::Activate
        } else {
            NavEffect::Nothing
        }
    }

    pub fn cycle_category(&mut self)
        ensures
            *final(self) == (NavState {
                category: category_next(old(self).category),
                status_message: None,
                ..*old(self)
            }),
    {
        self.category = self.category.next();
        self.status_message = None;
    }

    pub fn cycle_category_back(&mut self)
        ensures
            *final(self) == (NavState {
                category: category_prev(old(self).category),
                status_message: None,
                ..*old(self)
            }),
    {
        self.category = self.category.prev();
        self.status_message = None;
    }

    fn handle_main_navigation(&mut self, action: Action) -> (e: NavEffect)
        requires
            old(self).modal is Closed,
        ensures
            main_ok(*old(self), action, *final(self), e),
    {
        match action {
            Action::Quit => NavEffect::Exit,
            Action::ShowHelp => {
                self.modal = Modal::Help;
                NavEffect::Nothing
            },
            Action::AddApp => {
                if self.category == Category::Apps {
                    self.modal = Modal::AppPicker { selected_index: 0, cols: 6, available: 0 };
                    NavEffect::OpenAppPicker
                } else {
                    NavEffect::Nothing
                }
            },
            Action::ContextMenu => {
                if !self.current_category_list().is_empty() {
                    self.modal = Modal::ContextMenu { index: 0 };
                }
                NavEffect::Nothing
            },
            Action::Back => {
                self.status_message = None;
                NavEffect::Nothing
            },
            Action::Up => {
                self.category = self.category.next();
                NavEffect::SnapMain
            },
            Action::Down => {
                self.category = self.category.prev();
                NavEffect::SnapMain
            },
            Action::Left => {
                if self.move_current(false) {
                    NavEffect::SnapMain
                } else {
                    NavEffect::Nothing
                }
            },
            Action::Right => {
                if self.move_current(true) {
                    NavEffect::SnapMain
                } else {
                    NavEffect::Nothing
                }
            },
            Action::Select => {
                if !self.current_category_list().is_empty() {
                    self.activate_selected()
                } else {
                    NavEffect::Nothing
                }
            },
            Action::NextCategory => {
                self.cycle_category();
                NavEffect::SnapMain
            },
            Action::PrevCategory => {
                self.cycle_category_back();
                NavEffect::SnapMain
            },
        }
    }

    fn handle_context_menu_navigation(&mut self, action: Action) -> (e: NavEffect)
        requires
            old(self).modal is ContextMenu,
        ensures
            context_menu_ok(*old(self), action, *final(self), e),
    {
        let max_index: usize = match self.category {
            Category::Apps => 3,
            _ => 2,
        };
        let index = match self.modal {
            Modal::ContextMenu { index } => index,
            _ => 0,
        };
        match action {
            Action::Up => {
                self.modal = Modal::ContextMenu { index: if index > 0 { index - 1 } else { 0 } };
                NavEffect::Nothing
            },
            Action::Down => {
                self.modal = Modal::ContextMenu {
                    index: if index < max_index { index + 1 } else { index },
                };
                NavEffect::Nothing
            },
            Action::Select => {
                if index == 0 {
                    self.modal = Modal::Closed;
                    self.activate_selected()
                } else if self.category == Category::Apps && index == 1 {
                    match self.apps.remove_selected() {
                        Some(removed) => NavEffect::SaveApps { removed_name: removed.name },
                        None => NavEffect::Nothing,
                    }
                } else {
                    let quit: usize = if self.category == Category::Apps {
                        2
                    } else {
                        1
                    };
                    if index == quit {
                        NavEffect::Exit
                    } else {
                        self.modal = Modal::Closed;
                        NavEffect::Nothing
                    }
                }
            },
            Action::Back | Action::ContextMenu => {
                self.modal = Modal::Closed;
                NavEffect::Nothing
            },
            _ => NavEffect::Nothing,
        }
    }

    fn remove_missing_item(&mut self, item_id: Uuid, category: Category) -> (e: NavEffect)
        ensures
            removed_ok(*old(self), item_id, category, *final(self), e),
    {
        match category {
            Category::Apps => match self.apps.remove_item_by_id(item_id) {
                Some(item) => NavEffect::RemovedMissing { category, item },
                None => NavEffect::Nothing,
            },
            Category::Games => match self.games.remove_item_by_id(item_id) {
                Some(item) => NavEffect::RemovedMissing { category, item },
                None => NavEffect::Nothing,
            },
            Category::System => NavEffect::Nothing,
        }
    }

    fn handle_app_not_found_navigation(&mut self, action: Action) -> (e: NavEffect)
        requires
            old(self).modal is AppNotFound,
        ensures
            app_not_found_ok(*old(self), action, *final(self), e),
    {
        let mut modal = Modal::Closed;
        std::mem::swap(&mut modal, &mut self.modal);
        let (item_id, item_name, category, selected_index) = match modal {
            Modal::AppNotFound { item_id, item_name, category, selected_index } => (
                item_id,
                item_name,
                category,
                selected_index,
            ),
            _ => {
                self.modal = modal;
                return NavEffect::Nothing;
            },
        };
        match action {
            Action::Left | Action::Right | Action::Up | Action::Down => {
                self.modal = Modal::AppNotFound {
                    item_id,
                    item_name,
                    category,
                    selected_index: if selected_index == 0 { 1 } else { 0 },
                };
                NavEffect::Nothing
            },
            Action::Select => {
                if selected_index == 0 {
                    self.remove_missing_item(item_id, category)
                } else {
                    NavEffect::Nothing
                }
            },
            Action::Back | Action::ContextMenu | Action::ShowHelp => NavEffect::Nothing,
            _ => {
                self.modal = Modal::AppNotFound { item_id, item_name, category, selected_index };
                NavEffect::Nothing
            },
        }
    }

    fn handle_system_update_navigation(&self, action: Action) -> (e: NavEffect)
        requires
            self.modal is SystemUpdate,
        ensures
            e == system_update_effect(self.modal->SystemUpdate_0.status, action),
    {
        let status = match &self.modal {
            Modal::SystemUpdate(st) => &st.status,
            _ => return NavEffect::Nothing,
        };
        if let UpdateStatus::Completed { restart_required } = status {
            if *restart_required {
                return match action {
                    Action::Select => NavEffect::RequestReboot,
                    Action::Back | Action::ShowHelp => NavEffect::CloseSystemUpdate,
                    _ => NavEffect::Nothing,
                };
            }
        }
        if status.is_finished() {
            match action {
                Action::Back | Action::Select | Action::ShowHelp => NavEffect::CloseSystemUpdate,
                _ => NavEffect::Nothing,
            }
        } else {
            let installing = match status {
                UpdateStatus::Installing { .. } => true,
                _ => false,
            };
            if !installing && action == Action::Back {
                NavEffect::CancelSystemUpdate
            } else {
                NavEffect::Nothing
            }
        }
    }

    fn handle_app_picker_navigation(&mut self, action: Action) -> (e: NavEffect)
        requires
            old(self).modal is AppPicker,
        ensures
            picker_ok(*old(self), action, *final(self), e),
    {
        let (selected_index, cols, available) = match self.modal {
            Modal::AppPicker { selected_index, cols, available } => (selected_index, cols, available),
            _ => return NavEffect::Nothing,
        };
        if available == 0 {
            return match action {
                Action::Back | Action::AddApp => NavEffect::CloseAppPicker,
                _ => NavEffect::Nothing,
            };
        }
        match action {
            Action::Select => NavEffect::AddSelectedApp,
            Action::Back | Action::AddApp => NavEffect::CloseAppPicker,
            _ => {
                let next = next_grid_index(selected_index, action, cols, available);
                self.modal = Modal::AppPicker { selected_index: next, cols, available };
                NavEffect::SnapPicker
            },
        }
    }

    /// One step of navigation for `action`.
    pub fn handle_navigation(&mut self, action: Action) -> (e: NavEffect)
        ensures
            navigation_ok(*old(self), action, *final(self), e),
    {
        if action == Action::Quit {
            return NavEffect::Exit;
        }
        match self.modal {
            Modal::Closed => self.handle_main_navigation(action),
            Modal::Help => {
                if action == Action::Back || action == Action::ShowHelp {
                    self.modal = Modal::Closed;
                }
                NavEffect::Nothing
            },
            Modal::ContextMenu { .. } => self.handle_context_menu_navigation(action),
            Modal::AppPicker { .. } => self.handle_app_picker_navigation(action),
            Modal::SystemUpdate(_) => self.handle_system_update_navigation(action),
            Modal::SystemInfo(_) => {
                if action == Action::Back || action == Action::Select || action == Action::ShowHelp {
                    NavEffect::CloseSystemInfo
                } else {
                    NavEffect::Nothing
                }
            },
            Modal::AppNotFound { .. } => self.handle_app_not_found_navigation(action),
        }
    }
}


/// Switching rows with no dialog open remembers every row's selection: the three
/// rows come out of the step exactly as they went in.
pub proof fn law_switching_rows_keeps_selections(o: NavState, a: Action, n: NavState, e: NavEffect)
    requires
        o.modal is Closed,
        a is Up || a is Down || a is NextCategory || a is PrevCategory,
        navigation_ok(o, a, n, e),
    ensures
        n.apps == o.apps,
        n.games == o.games,
        n.system_items == o.system_items,
        n.modal is Closed,
{
}

/// Moving left or right with no dialog open keeps the current row's selection on one
/// of its items, and never touches another row.
pub proof fn law_row_moves_stay_on_the_row(o: NavState, a: Action, n: NavState, e: NavEffect)
    requires
        o.modal is Closed,
        a is Left || a is Right,
        list_of(o, o.category).selected_index < list_of(o, o.category).items@.len(),
        navigation_ok(o, a, n, e),
    ensures
        n.category == o.category,
        list_of(n, n.category).items@ == list_of(o, o.category).items@,
        list_of(n, n.category).selected_index < list_of(n, n.category).items@.len(),
        forall|c: Category| c != o.category ==> list_of(n, c) == list_of(o, c),
{
}

/// Quit leaves the launcher from any screen and changes nothing on the way.
pub proof fn law_quit_always_exits(o: NavState, n: NavState, e: NavEffect)
    requires
        navigation_ok(o, Action::Quit, n, e),
    ensures
        n == o,
        e is Exit,
{
}


// ---------------------------------------------------------------------------
// The keyboard
// ---------------------------------------------------------------------------

/// A key press as the screen reports it.
pub enum KeyPress {
    ArrowUp,
    ArrowDown,
    ArrowLeft,
    ArrowRight,
    Enter,
    Escape,
    Tab,
    F4,
    /// A key that types text.
    Character(String),
    /// Any other named key.
    Other,
}

/// The action a key stands for: the arrows navigate, Enter selects, Escape goes
/// back, Tab moves to the next row, F4 quits, `c` opens the context menu, `+` or
/// `a` adds an app, `-` shows the controls; a press that a widget already took, and
/// every key while a game runs, stands for nothing.
pub open spec fn key_action_spec(key: KeyPress, captured: bool, game_running: bool) -> Option<Action> {
    if captured || game_running {
        None
    } else {
        match key {
            KeyPress::ArrowUp => Some(Action::Up),
            KeyPress::ArrowDown => Some(Action::Down),
            KeyPress::ArrowLeft => Some(Action::Left),
            KeyPress::ArrowRight => Some(Action::Right),
            KeyPress::Enter => Some(Action::Select),
            KeyPress::Escape => Some(Action::Back),
            KeyPress::Tab => Some(Action::NextCategory),
            KeyPress::F4 => Some(Action::Quit),
            KeyPress::Character(c) => if c@ == "c"@ {
                Some(Action::ContextMenu)
            } else if c@ == "+"@ || c@ == "a"@ {
                Some(Action::AddApp)
            } else if c@ == "-"@ {
                Some(Action::ShowHelp)
            } else {
                None
            },
            KeyPress::Other => None,
        }
    }
}

pub fn key_action(key: &KeyPress, captured: bool, game_running: bool) -> (r: Option<Action>)
    ensures
        r == key_action_spec(*key, captured, game_running),
{
    if captured || game_running {
        return None;
    }
    match key {
        KeyPress::ArrowUp => Some(Action::Up),
        KeyPress::ArrowDown => Some(Action::Down),
        KeyPress::ArrowLeft => Some(Action::Left),
        KeyPress::ArrowRight => Some(Action::Right),
        KeyPress::Enter => Some(Action::Select),
        KeyPress::Escape => Some(Action::Back),
        KeyPress::Tab => Some(Action::NextCategory),
        KeyPress::F4 => Some(Action::Quit),
        KeyPress::Character(c) => {
            let t = crate::text::chars_of(c.as_str());
            if crate::text::chars_eq(t.as_slice(), crate::text::chars_of("c").as_slice()) {
                Some(Action::ContextMenu)
            } else if crate::text::chars_eq(t.as_slice(), crate::text::chars_of("+").as_slice())
                || crate::text::chars_eq(t.as_slice(), crate::text::chars_of("a").as_slice()) {
                Some(Action::AddApp)
            } else if crate::text::chars_eq(t.as_slice(), crate::text::chars_of("-").as_slice()) {
                Some(Action::ShowHelp)
            } else {
                None
            }
        },
        KeyPress::Other => None,
    }
}

/// While a game runs, no key reaches the launcher.
pub proof fn law_no_input_while_a_game_runs(key: KeyPress, captured: bool)
    ensures
        key_action_spec(key, captured, true) is None,
{
}

} // verus!
