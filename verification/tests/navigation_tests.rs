use rhinco_tv::category_list::CategoryList;
use rhinco_tv::model::{Action, AppEntry, Category, LauncherAction, LauncherItem};
use rhinco_tv::navigation::{
    key_action, navigate_grid, next_grid_index, KeyPress, Modal, NavEffect, NavState,
};
use rhinco_tv::system_update_state::{SystemUpdateState, UpdateStatus};

fn item(name: &str) -> LauncherItem {
    LauncherItem {
        id: uuid::Uuid::new_v4(),
        name: name.to_string(),
        icon: None,
        system_icon: None,
        action: LauncherAction::Launch {
            command: format!("run-{}", name),
        },
        source_image_url: None,
        game_executable: None,
        launch_key: None,
        last_started: None,
        steam_appid: None,
    }
}

fn item_with_timestamp(name: &str, timestamp: i64) -> LauncherItem {
    LauncherItem {
        last_started: Some(timestamp),
        ..item(name)
    }
}

fn names(list: &CategoryList) -> Vec<&str> {
    list.items.iter().map(|i| i.name.as_str()).collect()
}

fn state() -> NavState {
    NavState::new(
        CategoryList::new(Vec::new()),
        CategoryList::new(Vec::new()),
        CategoryList::new(Vec::new()),
    )
}

#[test]
fn test_new_and_basic_operations() {
    let list = CategoryList::new(Vec::new());
    assert!(list.is_empty());
    assert_eq!(list.selected_index, 0);
    assert!(list.get_selected().is_none());

    let list = CategoryList::new(vec![item("A"), item("B")]);
    assert_eq!(list.items.len(), 2);
    assert_eq!(list.get_selected().unwrap().name, "A");
}

#[test]
fn test_move_left_right_boundaries() {
    let mut list = CategoryList::new(vec![item("A"), item("B"), item("C")]);
    assert!(!list.move_left());
    assert_eq!(list.selected_index, 0);
    assert!(list.move_right());
    assert!(list.move_right());
    assert_eq!(list.selected_index, 2);
    assert!(!list.move_right());
    assert_eq!(list.selected_index, 2);
    assert!(list.move_left());
    assert_eq!(list.selected_index, 1);
    let mut empty = CategoryList::new(Vec::new());
    assert!(!empty.move_left());
    assert!(!empty.move_right());
}

#[test]
fn test_remove_selected_clamps_index() {
    let mut list = CategoryList::new(vec![item("A"), item("B"), item("C")]);
    list.selected_index = 1;
    assert_eq!(list.remove_selected().unwrap().name, "B");
    assert_eq!(list.selected_index, 1);
    assert_eq!(list.get_selected().unwrap().name, "C");
    list.selected_index = 1;
    assert_eq!(list.remove_selected().unwrap().name, "C");
    assert_eq!(list.selected_index, 0);
    assert_eq!(list.remove_selected().unwrap().name, "A");
    assert!(list.is_empty());
    assert_eq!(list.selected_index, 0);
    assert!(list.remove_selected().is_none());
}

#[test]
fn test_add_item_sorts_and_set_items_clamps() {
    let mut list = CategoryList::new(vec![item("A"), item("C")]);
    list.add_item(item("B"));
    assert_eq!(names(&list), vec!["A", "B", "C"]);
    list.selected_index = 2;
    list.set_items(vec![item("X")]);
    assert_eq!(list.selected_index, 0);
    list.set_items(vec![item("Y"), item("Z")]);
    list.selected_index = 1;
    list.set_items(vec![item("P"), item("Q")]);
    assert_eq!(list.selected_index, 1);
}

#[test]
fn test_update_item_by_id() {
    let i = item("Original");
    let id = i.id;
    let mut list = CategoryList::new(vec![i]);
    list.update_item_by_id(id, |i| i.name = "Updated".to_string());
    assert_eq!(list.items[0].name, "Updated");
    list.update_item_by_id(uuid::Uuid::new_v4(), |i| i.name = "Nope".to_string());
    assert_eq!(list.items[0].name, "Updated");
}

#[test]
fn test_sort_inplace_alphabetical_fallback() {
    let mut list = CategoryList::new(vec![item("C"), item("A"), item("B")]);
    list.sort_inplace();
    assert_eq!(names(&list), vec!["A", "B", "C"]);
}

#[test]
fn test_sort_by_last_started() {
    let mut list = CategoryList::new(vec![
        item_with_timestamp("Old", 1000),
        item_with_timestamp("Newest", 3000),
        item_with_timestamp("Middle", 2000),
    ]);
    list.sort_inplace();
    assert_eq!(names(&list), vec!["Newest", "Middle", "Old"]);
}

#[test]
fn test_sort_mixed_timestamps_and_no_timestamps() {
    let mut list = CategoryList::new(vec![
        item("Zebra"),
        item_with_timestamp("Game1", 1000),
        item("Apple"),
        item_with_timestamp("Game2", 2000),
    ]);
    list.sort_inplace();
    assert_eq!(names(&list), vec!["Game2", "Game1", "Apple", "Zebra"]);
}

#[test]
fn test_sort_case_insensitive_alphabetical() {
    let mut list = CategoryList::new(vec![item("zebra"), item("Apple"), item("banana")]);
    list.sort_inplace();
    assert_eq!(names(&list), vec!["Apple", "banana", "zebra"]);
}

#[test]
fn removing_by_id_keeps_selection_on_the_row() {
    let a = item("A");
    let id = a.id;
    let mut list = CategoryList::new(vec![item("X"), a]);
    list.selected_index = 1;
    assert_eq!(list.remove_item_by_id(id).unwrap().name, "A");
    assert_eq!(list.selected_index, 0);
    assert!(list.remove_item_by_id(id).is_none());
}

#[test]
fn test_app_entry_creation() {
    let entry = AppEntry::new(
        "Terminal".to_string(),
        "gnome-terminal".to_string(),
        Some("utilities-terminal".to_string()),
    );
    assert_eq!(entry.name, "Terminal");
    assert_eq!(entry.command, "gnome-terminal");
    assert!(entry.icon.is_some());
}

#[test]
fn test_launcher_item_from_app_entry() {
    let entry = AppEntry::new("Game".to_string(), "steam -applaunch 570".to_string(), None);
    let item = LauncherItem::from_app_entry(entry);
    assert_eq!(item.name, "Game");
    match item.action {
        LauncherAction::Launch { .. } => {}
        _ => panic!("expected launch action"),
    }
}

#[test]
fn remote_icons_become_source_images() {
    let entry = AppEntry::new(
        "G".to_string(),
        "g".to_string(),
        Some("https://example.com/c.png".to_string()),
    );
    let item = LauncherItem::from_app_entry(entry);
    assert_eq!(item.icon, None);
    assert_eq!(item.source_image_url, Some("https://example.com/c.png".to_string()));
    let local = LauncherItem::from_app_entry(AppEntry::new(
        "L".to_string(),
        "l".to_string(),
        Some("/usr/share/icons/l.png".to_string()),
    ));
    assert_eq!(local.icon, Some("/usr/share/icons/l.png".to_string()));
    assert_eq!(local.source_image_url, None);
}

#[test]
fn test_category_cycles() {
    let mut s = state();
    s.category = Category::Apps;
    let _ = s.handle_navigation(Action::NextCategory);
    assert_eq!(s.category, Category::Games);
    let _ = s.handle_navigation(Action::NextCategory);
    assert_eq!(s.category, Category::System);
    let _ = s.handle_navigation(Action::NextCategory);
    assert_eq!(s.category, Category::Apps);
    assert_eq!(Category::Apps.title(), "Apps");
    assert_eq!(Category::Games.prev(), Category::Apps);
}

#[test]
fn test_navigate_grid_moves_within_bounds() {
    let mut index = 5;
    let moved = navigate_grid(&mut index, Action::Up, 3, 10);
    assert!(moved);
    assert_eq!(index, 2);
}

#[test]
fn test_navigate_grid_blocks_out_of_bounds() {
    let mut index = 1;
    let moved = navigate_grid(&mut index, Action::Up, 3, 10);
    assert!(!moved);
    assert_eq!(index, 1);
}

#[test]
fn grid_steps_stay_in_the_grid() {
    assert_eq!(next_grid_index(8, Action::Down, 3, 10), 8);
    assert_eq!(next_grid_index(6, Action::Down, 3, 10), 9);
    assert_eq!(next_grid_index(9, Action::Right, 3, 10), 9);
    assert_eq!(next_grid_index(0, Action::Left, 3, 10), 0);
    assert_eq!(next_grid_index(4, Action::Select, 3, 10), 4);
}

#[test]
fn dialogs_open_and_close() {
    let mut s = state();
    s.apps.set_items(vec![item("A"), item("B")]);
    s.category = Category::Apps;
    assert!(matches!(s.handle_navigation(Action::ShowHelp), NavEffect::Nothing));
    assert!(matches!(s.modal, Modal::Help));
    let _ = s.handle_navigation(Action::Back);
    assert!(matches!(s.modal, Modal::Closed));
    let _ = s.handle_navigation(Action::ContextMenu);
    assert!(matches!(s.modal, Modal::ContextMenu { index: 0 }));
    let _ = s.handle_navigation(Action::Down);
    assert!(matches!(s.modal, Modal::ContextMenu { index: 1 }));
    match s.handle_navigation(Action::Select) {
        NavEffect::SaveApps { removed_name } => assert_eq!(removed_name, "A"),
        _ => panic!("expected the apps row to be saved"),
    }
    assert_eq!(names(&s.apps), vec!["B"]);
    assert!(matches!(s.handle_navigation(Action::Quit), NavEffect::Exit));
}

#[test]
fn select_starts_the_selection() {
    let mut s = state();
    s.games.set_items(vec![item("G")]);
    s.status_message = Some("old".to_string());
    assert!(matches!(s.handle_navigation(Action::Select), NavEffect::Activate));
    assert_eq!(s.status_message, None);
    let mut empty = state();
    empty.category = Category::Apps;
    assert!(matches!(empty.handle_navigation(Action::Select), NavEffect::Nothing));
}

#[test]
fn update_dialog_reacts_to_its_state() {
    let mut s = state();
    s.modal = Modal::SystemUpdate(update_state(UpdateStatus::Completed {
        restart_required: true,
    }));
    assert!(matches!(s.handle_navigation(Action::Select), NavEffect::RequestReboot));
    s.modal = Modal::SystemUpdate(update_state(UpdateStatus::Downloading { package: None }));
    assert!(matches!(s.handle_navigation(Action::Back), NavEffect::CancelSystemUpdate));
    s.modal = Modal::SystemUpdate(update_state(UpdateStatus::Installing {
        current: 1,
        total: 2,
        package: "p".to_string(),
    }));
    assert!(matches!(s.handle_navigation(Action::Back), NavEffect::Nothing));
    s.modal = Modal::SystemUpdate(update_state(UpdateStatus::NoUpdates));
    assert!(matches!(s.handle_navigation(Action::Select), NavEffect::CloseSystemUpdate));
}

fn update_state(status: UpdateStatus) -> SystemUpdateState {
    let mut st = SystemUpdateState::new();
    st.status = status;
    st
}

#[test]
fn missing_app_dialog_removes_the_entry() {
    let mut s = state();
    let g = item("Gone");
    let id = g.id;
    s.games.set_items(vec![g, item("Kept")]);
    s.modal = Modal::AppNotFound {
        item_id: id,
        item_name: "Gone".to_string(),
        category: Category::Games,
        selected_index: 0,
    };
    let _ = s.handle_navigation(Action::Right);
    assert!(matches!(s.modal, Modal::AppNotFound { selected_index: 1, .. }));
    let _ = s.handle_navigation(Action::Left);
    match s.handle_navigation(Action::Select) {
        NavEffect::RemovedMissing { category, item } => {
            assert_eq!(category, Category::Games);
            assert_eq!(item.name, "Gone");
        }
        _ => panic!("expected the entry to be removed"),
    }
    assert!(matches!(s.modal, Modal::Closed));
    assert_eq!(names(&s.games), vec!["Kept"]);
}

#[test]
fn app_picker_moves_in_its_grid() {
    let mut s = state();
    s.category = Category::Apps;
    assert!(matches!(s.handle_navigation(Action::AddApp), NavEffect::OpenAppPicker));
    assert!(matches!(s.handle_navigation(Action::Right), NavEffect::Nothing));
    s.modal = Modal::AppPicker {
        selected_index: 0,
        cols: 6,
        available: 8,
    };
    assert!(matches!(s.handle_navigation(Action::Down), NavEffect::SnapPicker));
    assert!(matches!(s.modal, Modal::AppPicker { selected_index: 6, .. }));
    assert!(matches!(s.handle_navigation(Action::Select), NavEffect::AddSelectedApp));
    assert!(matches!(s.handle_navigation(Action::Back), NavEffect::CloseAppPicker));
}

#[test]
fn keys_map_to_actions_as_documented() {
    assert_eq!(key_action(&KeyPress::ArrowUp, false, false), Some(Action::Up));
    assert_eq!(key_action(&KeyPress::ArrowDown, false, false), Some(Action::Down));
    assert_eq!(key_action(&KeyPress::ArrowLeft, false, false), Some(Action::Left));
    assert_eq!(key_action(&KeyPress::ArrowRight, false, false), Some(Action::Right));
    assert_eq!(key_action(&KeyPress::Enter, false, false), Some(Action::Select));
    assert_eq!(key_action(&KeyPress::Escape, false, false), Some(Action::Back));
    assert_eq!(key_action(&KeyPress::Tab, false, false), Some(Action::NextCategory));
    assert_eq!(key_action(&KeyPress::F4, false, false), Some(Action::Quit));
    assert_eq!(key_action(&KeyPress::Character("c".to_string()), false, false), Some(Action::ContextMenu));
    assert_eq!(key_action(&KeyPress::Character("+".to_string()), false, false), Some(Action::AddApp));
    assert_eq!(key_action(&KeyPress::Character("a".to_string()), false, false), Some(Action::AddApp));
    assert_eq!(key_action(&KeyPress::Character("-".to_string()), false, false), Some(Action::ShowHelp));
    assert_eq!(key_action(&KeyPress::Character("x".to_string()), false, false), None);
    assert_eq!(key_action(&KeyPress::Other, false, false), None);
    assert_eq!(key_action(&KeyPress::Enter, true, false), None);
    assert_eq!(key_action(&KeyPress::F4, false, true), None);
}
