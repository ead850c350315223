use srdwm::context_menu::{ContextMenu, MenuAction, HEADER_HEIGHT, MENU_ROW_HEIGHT, MENU_WIDTH, SEPARATOR_HEIGHT};
use srdwm::manager::WindowManager;
use srdwm::window::{Window, WindowId};
use srdwm::{Monitor, Rect};

fn wm_with_window() -> (WindowManager, WindowId) {
    let mut wm = WindowManager::new();
    wm.set_monitors(vec![Monitor::new(0, "primary", Rect::new(0, 0, 1920, 1080))]);
    let id = wm.alloc_window_id();
    wm.add_window(Window::new(id, "a"));
    (wm, id)
}

fn wm_with_tiling_window() -> (WindowManager, WindowId) {
    let mut wm = WindowManager::new();
    wm.set_monitors(vec![Monitor::new(0, "primary", Rect::new(0, 0, 1920, 1080))]);
    wm.set_layout(wm.current_workspace(), "tiling");
    let id = wm.alloc_window_id();
    wm.add_window(Window::new(id, "a"));
    (wm, id)
}

#[test]
fn open_labels_maximize_action_by_current_state() {
    let (mut wm, id) = wm_with_window();
    let menu = ContextMenu::open(&wm, id, (100, 100)).unwrap();
    assert_eq!(menu.items[1].0, "Maximize");

    wm.toggle_maximize(id);
    let menu = ContextMenu::open(&wm, id, (100, 100)).unwrap();
    assert_eq!(menu.items[1].0, "Restore");
}

#[test]
fn floating_row_is_hidden_outside_tiling_layout() {
    let (wm, id) = wm_with_window();
    let menu = ContextMenu::open(&wm, id, (100, 100)).unwrap();
    assert!(!menu.items.iter().any(|(label, _)| label.contains("Floating")), "dynamic layout: toggling floating has no visible effect, so it must not be offered");
}

#[test]
fn floating_row_is_shown_under_tiling_layout() {
    let (wm, id) = wm_with_tiling_window();
    let menu = ContextMenu::open(&wm, id, (100, 100)).unwrap();
    assert!(menu.items.iter().any(|(label, _)| label.contains("Floating")), "tiling layout: toggling floating genuinely changes the window's geometry");
}

#[test]
fn open_marks_pinned_state_on_the_always_on_top_row() {
    let (mut wm, id) = wm_with_window();
    let menu = ContextMenu::open(&wm, id, (100, 100)).unwrap();
    assert_eq!(menu.items[3].0, "Always on Top");

    wm.toggle_always_on_top(id);
    let menu = ContextMenu::open(&wm, id, (100, 100)).unwrap();
    assert!(menu.items[3].0.starts_with('\u{2713}'), "pinned state must be visible on the label itself");
}

#[test]
fn open_returns_none_for_a_window_that_no_longer_exists() {
    let (wm, id) = wm_with_window();
    assert!(ContextMenu::open(&wm, id + 999, (0, 0)).is_none());
}

#[test]
fn single_workspace_gets_no_move_to_workspace_section() {
    let (wm, id) = wm_with_window();
    let menu = ContextMenu::open(&wm, id, (100, 100)).unwrap();
    assert!(!menu.items.iter().any(|(label, _)| label.contains("Workspace")));
}

#[test]
fn a_second_workspace_adds_a_move_row_but_not_for_its_own_workspace() {
    let (mut wm, id) = wm_with_window();
    wm.add_workspace("2", "dynamic");
    let menu = ContextMenu::open(&wm, id, (100, 100)).unwrap();
    let workspace_rows: Vec<&str> = menu
        .items
        .iter()
        .filter_map(|(label, action)| matches!(action, MenuAction::MoveToWorkspace(_)).then_some(*label))
        .collect();
    assert_eq!(workspace_rows, vec!["2"], "only the OTHER workspace gets a row, not the window's own");
}

#[test]
fn header_rows_are_not_interactive() {
    let (wm, id) = wm_with_window();
    let menu = ContextMenu::open(&wm, id, (100, 100)).unwrap();
    let headers: Vec<_> = menu.items.iter().filter(|(_, a)| matches!(a, MenuAction::Header)).collect();
    assert!(!headers.is_empty());
    for (_, action) in headers {
        assert!(!action.is_interactive());
    }
}

#[test]
fn customize_section_reflects_current_theme_state() {
    let (mut wm, id) = wm_with_window();
    wm.theme.traffic_light_buttons = true;
    wm.theme.buttons_left = false;
    let menu = ContextMenu::open(&wm, id, (100, 100)).unwrap();
    assert!(menu.items.iter().any(|(label, _)| *label == "Button Style: Traffic Lights"));
    assert!(menu.items.iter().any(|(label, _)| *label == "Button Side: Right"));

    wm.theme.traffic_light_buttons = false;
    wm.theme.buttons_left = true;
    let menu = ContextMenu::open(&wm, id, (100, 100)).unwrap();
    assert!(menu.items.iter().any(|(label, _)| *label == "Button Style: Traditional"));
    assert!(menu.items.iter().any(|(label, _)| *label == "Button Side: Left"));
}

#[test]
fn separators_and_headers_are_shorter_than_a_real_item_row() {
    let (wm, id) = wm_with_window();
    let menu = ContextMenu::open(&wm, id, (100, 100)).unwrap();
    for (i, (_, action)) in menu.items.iter().enumerate() {
        let h = menu.row_height_for(i);
        match action {
            MenuAction::Separator => assert_eq!(h, SEPARATOR_HEIGHT),
            MenuAction::Header => assert_eq!(h, HEADER_HEIGHT),
            _ => assert_eq!(h, MENU_ROW_HEIGHT),
        }
    }
}

#[test]
fn height_is_the_sum_of_every_rows_own_height() {
    let (wm, id) = wm_with_window();
    let menu = ContextMenu::open(&wm, id, (100, 100)).unwrap();
    let expected: i32 = (0..menu.items.len()).map(|i| menu.row_height_for(i) as i32).sum();
    assert_eq!(menu.height(), expected);
}

#[test]
fn row_at_maps_a_point_to_the_right_row_with_variable_heights() {
    let (wm, id) = wm_with_window();
    let menu = ContextMenu::open(&wm, id, (100, 100)).unwrap();
    assert_eq!(menu.row_at(150, 100), Some(0), "top of the first row");
    assert_eq!(menu.row_at(150, 100 + menu.row_height as i32 - 1), Some(0), "bottom of the first row");
    assert_eq!(menu.row_at(150, 100 + menu.row_height as i32), Some(1), "top of the second row");
    assert_eq!(menu.row_at(150, 100 + menu.height() - 1), Some(menu.items.len() - 1), "last row, last pixel");
    for y in 0..menu.height() {
        assert!(menu.row_at(150, 100 + y).is_some(), "no gap at offset {y}");
    }
}

#[test]
fn row_at_is_none_outside_the_menus_bounds() {
    let (wm, id) = wm_with_window();
    let menu = ContextMenu::open(&wm, id, (100, 100)).unwrap();
    assert_eq!(menu.row_at(99, 110), None, "just left of the menu");
    assert_eq!(menu.row_at(100 + MENU_WIDTH as i32, 110), None, "just right of the menu");
    assert_eq!(menu.row_at(150, 99), None, "just above the menu");
    assert_eq!(menu.row_at(150, 100 + menu.height()), None, "just below the menu");
}
