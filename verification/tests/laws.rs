use srdwm::context_menu::{ContextMenu, MenuAction};
use srdwm::ieee::{Float32, Float64};
use srdwm::manager::{Direction, WindowManager};
use srdwm::rules::{Regex, WindowMatch, WindowRule, WindowRuleActions};
use srdwm::theme::{format_hex_color, parse_hex_color};
use srdwm::window::{format_button_order, parse_button_order, TitlebarButton, Window};
use srdwm::{
    canonicalize_key_combo, Layout, MasterStackLayout, Monitor, PlacementConfig, Rect, SmartPlacement, TilingConfig,
};

fn wm() -> WindowManager {
    let mut wm = WindowManager::new();
    wm.set_monitors(vec![Monitor::new(0, "primary", Rect::new(0, 0, 1920, 1080))]);
    wm
}

fn add(wm: &mut WindowManager, title: &str) -> u64 {
    let id = wm.alloc_window_id();
    wm.add_window(Window::new(id, title));
    id
}

fn add_app(wm: &mut WindowManager, app: &str) -> u64 {
    let id = wm.alloc_window_id();
    let mut w = Window::new(id, "title");
    w.app_id = app.into();
    wm.add_window(w);
    id
}

fn order(wm: &WindowManager) -> Vec<u64> {
    wm.stacking_order().iter().map(|w| w.id).collect()
}

#[test]
fn maximizing_twice_restores_the_window() {
    let mut wm = wm();
    let id = add(&mut wm, "a");
    wm.move_window(id, 33, 44);
    let before = wm.window(id).unwrap().geometry;
    wm.toggle_maximize(id);
    assert_eq!(wm.window(id).unwrap().geometry, Rect::new(0, 0, 1920, 1080));
    wm.toggle_maximize(id);
    assert_eq!(wm.window(id).unwrap().geometry, before);
    assert!(!wm.window(id).unwrap().maximized);
}

#[test]
fn fullscreen_twice_restores_the_decoration() {
    let mut wm = wm();
    let id = add(&mut wm, "a");
    wm.window_mut(id).unwrap().decorated = false;
    let before = wm.window(id).unwrap().geometry;
    wm.toggle_fullscreen(id);
    wm.toggle_fullscreen(id);
    assert_eq!(wm.window(id).unwrap().geometry, before);
    assert!(!wm.window(id).unwrap().decorated);
}

#[test]
fn fullscreen_from_maximized_goes_back_to_the_first_geometry() {
    let mut wm = wm();
    let id = add(&mut wm, "a");
    let before = wm.window(id).unwrap().geometry;
    wm.toggle_maximize(id);
    wm.toggle_fullscreen(id);
    wm.toggle_fullscreen(id);
    assert_eq!(wm.window(id).unwrap().geometry, before);
    assert!(!wm.window(id).unwrap().maximized);
}

#[test]
fn pinned_windows_stay_above_a_raised_one() {
    let mut wm = wm();
    let a = add(&mut wm, "a");
    let b = add(&mut wm, "b");
    let c = add(&mut wm, "c");
    wm.toggle_always_on_top(a);
    wm.raise_window(b);
    assert_eq!(order(&wm), vec![c, b, a]);
    wm.lower_window(b);
    assert_eq!(order(&wm), vec![b, c, a]);
}

#[test]
fn focusing_a_window_elsewhere_brings_its_workspace() {
    let mut wm = wm();
    let a = add(&mut wm, "a");
    let first = wm.current_workspace();
    let second = wm.add_workspace("2", "dynamic");
    wm.switch_workspace(second);
    wm.focus_window(a);
    assert_eq!(wm.current_workspace(), first);
    assert_eq!(wm.focused_id(), Some(a));
    wm.focus_window(a);
    assert_eq!(wm.current_workspace(), first);
}

#[test]
fn switching_nowhere_changes_nothing() {
    let mut wm = wm();
    let before = wm.current_workspace();
    wm.switch_workspace(999);
    assert_eq!(wm.current_workspace(), before);
}

#[test]
fn back_and_forth_returns() {
    let mut wm = wm();
    wm.auto_back_and_forth = true;
    let first = wm.current_workspace();
    let second = wm.add_workspace("2", "dynamic");
    wm.switch_workspace(second);
    wm.switch_workspace(second);
    assert_eq!(wm.current_workspace(), first);
}

#[test]
fn removing_a_workspace_keeps_its_windows() {
    let mut wm = wm();
    let a = add(&mut wm, "a");
    let first = wm.current_workspace();
    let second = wm.add_workspace("2", "dynamic");
    wm.remove_workspace(first);
    assert_eq!(wm.window(a).unwrap().workspace, second);
    assert_eq!(wm.current_workspace(), second);
    assert!(wm.workspace(first).is_none());
    wm.remove_workspace(second);
    assert!(wm.workspace(second).is_some());
}

#[test]
fn cycling_on_and_back_returns() {
    let mut wm = wm();
    add(&mut wm, "a");
    add(&mut wm, "b");
    let c = add(&mut wm, "c");
    wm.focus_next();
    assert_ne!(wm.focused_id(), Some(c));
    wm.focus_previous();
    assert_eq!(wm.focused_id(), Some(c));
}

#[test]
fn a_minimized_window_loses_the_focus() {
    let mut wm = wm();
    let a = add(&mut wm, "a");
    let b = add(&mut wm, "b");
    wm.minimize_window(b);
    assert_eq!(wm.focused_id(), Some(a));
    wm.minimize_window(a);
    assert_eq!(wm.focused_id(), None);
}

#[test]
fn the_scratchpad_comes_and_goes() {
    let mut wm = wm();
    let a = add(&mut wm, "a");
    wm.scratchpad_add(a);
    let second = wm.add_workspace("2", "dynamic");
    wm.switch_workspace(second);
    wm.scratchpad_show();
    assert_eq!(wm.focused_id(), Some(a));
    assert_eq!(wm.window(a).unwrap().workspace, second);
    wm.scratchpad_show();
    assert!(wm.window(a).unwrap().minimized);
}

#[test]
fn a_closed_window_reopens_in_place() {
    let mut wm = wm();
    let a = add_app(&mut wm, "term");
    wm.move_window(a, 700, 300);
    wm.resize_window(a, 640, 400);
    wm.remove_window(a);
    let b = add_app(&mut wm, "term");
    assert_eq!(wm.window(b).unwrap().geometry, Rect::new(700, 300, 640, 400));
    let c = add_app(&mut wm, "other");
    assert_ne!(wm.window(c).unwrap().geometry, Rect::new(700, 300, 640, 400));
}

#[test]
fn the_first_matching_rule_decides() {
    let mut wm = wm();
    for floating in [true, false] {
        wm.add_rule(WindowRule {
            matcher: WindowMatch { class: Some("term".into()), ..Default::default() },
            actions: WindowRuleActions { floating: Some(floating), ..Default::default() },
        });
    }
    let a = add_app(&mut wm, "term");
    assert!(wm.is_floating(a));
}

#[test]
fn the_preview_is_where_the_window_goes() {
    let mut wm = wm();
    let a = add(&mut wm, "a");
    wm.move_window(a, 400, 300);
    wm.start_drag(a, 500, 310);
    wm.update_drag(102, 500);
    let preview = wm.drag_snap_preview();
    assert!(preview.is_some());
    wm.end_drag();
    assert_eq!(wm.window(a).map(|w| w.geometry), preview);
}

#[test]
fn a_dragged_window_stays_reachable() {
    let mut wm = wm();
    let a = add(&mut wm, "a");
    wm.start_drag(a, 0, 0);
    wm.update_drag(-50_000, -50_000);
    let g = wm.window(a).unwrap().geometry;
    assert_eq!(g.y, 0);
    assert_eq!(g.right(), 40);
    wm.update_drag(50_000, 50_000);
    let g = wm.window(a).unwrap().geometry;
    assert_eq!((g.x, g.y), (1880, 1040));
}

#[test]
fn arranging_leaves_floating_windows_alone() {
    let mut wm = wm();
    let ws = wm.current_workspace();
    wm.set_layout(ws, "tiling");
    let a = add(&mut wm, "a");
    let b = add(&mut wm, "b");
    wm.toggle_floating(b);
    wm.move_window(b, 321, 123);
    let moved = wm.arrange_workspace(ws);
    assert_eq!(moved.len(), 1);
    assert_eq!(moved[0].0, a);
    assert_eq!(wm.window(b).unwrap().geometry.x, 321);
}

#[test]
fn windows_follow_the_monitors_that_are_left() {
    let mut wm = wm();
    let a = add(&mut wm, "a");
    wm.move_window(a, 5000, 5000);
    wm.set_monitors(vec![Monitor::new(3, "other", Rect::new(0, 0, 800, 600))]);
    let w = wm.window(a).unwrap();
    assert_eq!(w.monitor, 3);
    assert!(w.geometry.x >= 0 && w.geometry.right() <= 800);
}

#[test]
fn the_topmost_window_is_under_the_pointer() {
    let mut wm = wm();
    let a = add(&mut wm, "a");
    let b = add(&mut wm, "b");
    for id in [a, b] {
        wm.move_window(id, 100, 100);
    }
    assert_eq!(wm.window_at(150, 150), Some(b));
    wm.focus_window(a);
    assert_eq!(wm.window_at(150, 150), Some(a));
    assert_eq!(wm.window_at(1900, 1000), None);
}

#[test]
fn the_nearest_neighbour_gets_the_focus() {
    let mut wm = wm();
    let far = add(&mut wm, "far");
    let near = add(&mut wm, "near");
    let here = add(&mut wm, "here");
    wm.move_window(far, 0, 0);
    wm.move_window(near, 300, 0);
    wm.move_window(here, 600, 0);
    wm.focus_window(here);
    assert_eq!(wm.focus_direction(Direction::Left), Some(near));
    assert_eq!(wm.focus_direction(Direction::Left), Some(far));
    assert_eq!(wm.focus_direction(Direction::Left), None);
}

#[test]
fn the_last_position_request_is_kept() {
    let mut wm = wm();
    wm.request_output_position(1, 10, 10);
    wm.request_output_position(2, 20, 20);
    wm.request_output_position(1, 30, 30);
    assert_eq!(wm.drain_output_position_requests(), vec![(2, 20, 20), (1, 30, 30)]);
    assert!(wm.drain_output_position_requests().is_empty());
}

#[test]
fn the_menu_does_not_offer_the_own_workspace() {
    let mut wm = wm();
    let a = add(&mut wm, "a");
    let own = wm.current_workspace();
    wm.add_workspace("2", "dynamic");
    let menu = ContextMenu::open(&wm, a, (0, 0)).unwrap();
    assert!(!menu.items.iter().any(|(_, action)| *action == MenuAction::MoveToWorkspace(own)));
}

#[test]
fn colours_and_orders_read_back() {
    for rgb in [(0, 0, 0), (255, 1, 16), (0x88, 0xc0, 0xd0)] {
        assert_eq!(parse_hex_color(&format_hex_color(rgb)), Some(rgb));
    }
    let list = [TitlebarButton::Maximize, TitlebarButton::Close, TitlebarButton::Minimize];
    assert_eq!(parse_button_order(&format_button_order(list)), Some(list));
}

#[test]
fn canonical_combos_stay() {
    let once = canonicalize_key_combo("Mod4+Shift+x");
    assert_eq!(once, "Shift+Mod4+x");
    assert_eq!(canonicalize_key_combo(&once), once);
}

#[test]
fn shares_agree_with_single_precision() {
    let ratios = [0.0f32, 0.1, 0.35, 0.5, 0.6, 0.75, 0.9, 1.0, 1.5, -0.5, 1e-30, 1e30, f32::INFINITY, f32::NAN];
    for r in ratios {
        for n in [0u32, 1, 7, 1888, 1920, 3840, 16_777_217, 4_000_000_001, u32::MAX] {
            let expected = (n as f32 * r) as u32;
            assert_eq!(Float32 { bits: r.to_bits() }.share_of(n), expected, "{r} of {n}");
        }
    }
}

#[test]
fn comparisons_agree_with_floating_point() {
    let values = [0.0f64, -0.0, 1.0, -1.0, 1e300, -1e300, f64::INFINITY, f64::NEG_INFINITY, f64::NAN, 5e-324];
    for a in values {
        for b in values {
            let less = Float64 { bits: a.to_bits() }.is_less(&Float64 { bits: b.to_bits() });
            assert_eq!(less, a < b, "{a} < {b}");
        }
    }
}

#[test]
fn titles_match_in_any_unicode_case() {
    let m = WindowMatch { title_contains: Some("STRASSE \u{c4}".into()), ..Default::default() };
    assert!(m.matches(&Window::new(1, "die strasse \u{e4}nderte sich")));
    assert!(!m.matches(&Window::new(1, "die gasse")));
}

#[test]
fn expressions_are_compiled_and_searched() {
    assert!(Regex::new("(").is_err());
    let re = Regex::new("^a.c$").unwrap();
    assert!(re.is_match("abc"));
    assert!(!re.is_match("abcd"));
    assert_eq!(re.as_str(), "^a.c$");
}

#[test]
fn a_window_added_under_a_known_id_is_stacked_twice() {
    let mut wm = wm();
    let a = add(&mut wm, "a");
    let b = add(&mut wm, "b");
    wm.add_window(Window::new(a, "again"));
    assert_eq!(order(&wm), vec![a, b, a]);
    assert_eq!(wm.windows().len(), 2);
    assert_eq!(wm.window(a).unwrap().title, "again");
    assert_eq!(wm.window_ids_on_workspace_front_to_back(wm.current_workspace()), vec![a, b, a]);
    wm.raise_window(a);
    assert_eq!(order(&wm), vec![b, a, a]);
    wm.lower_window(a);
    assert_eq!(order(&wm), vec![a, b, a]);
    assert!(wm.remove_window(a).is_some());
    assert_eq!(order(&wm), vec![b]);
}

#[test]
fn a_late_rule_puts_a_pinned_window_on_top() {
    let mut wm = wm();
    wm.add_rule(WindowRule {
        matcher: WindowMatch { class: Some("player".into()), ..Default::default() },
        actions: WindowRuleActions { pinned: Some(true), ..Default::default() },
    });
    let late = add(&mut wm, "");
    let other = add(&mut wm, "other");
    assert_eq!(order(&wm), vec![late, other]);
    wm.window_mut(late).unwrap().app_id = "player".into();
    assert!(wm.reapply_rules_if_pending(late));
    assert!(wm.is_always_on_top(late));
    assert_eq!(order(&wm), vec![other, late]);
}

#[test]
fn a_lone_window_needs_no_grid() {
    let mut wm = wm();
    wm.set_placement(PlacementConfig { max_grid: 0, ..Default::default() });
    let id = add(&mut wm, "a");
    assert_eq!(wm.focused_window().unwrap().id, id);
    let m = Monitor::new(0, "primary", Rect::new(0, 0, 1920, 1080));
    let cfg = PlacementConfig { max_grid: 0, ..Default::default() };
    let with_grid = PlacementConfig::default();
    assert_eq!(
        SmartPlacement::place(&m, &[], (300, 200), &cfg, 2),
        SmartPlacement::place(&m, &[], (300, 200), &with_grid, 2)
    );
}

#[test]
fn masters_alone_do_not_overlap_at_the_edge_of_the_coordinates() {
    let cfg = TilingConfig { master_count: 2, ..Default::default() };
    let m = Monitor::new(0, "far", Rect::new(i32::MAX - 1000, 0, 1000, 800));
    let tiles = MasterStackLayout.arrange(&[1, 2], &m, &cfg);
    assert_eq!(tiles.len(), 2);
    assert!(!tiles[&1].overlaps(&tiles[&2]));
}

#[test]
fn back_and_forth_returns_on_one_monitor() {
    let mut wm = WindowManager::new();
    wm.set_monitors(vec![
        Monitor::new(0, "left", Rect::new(0, 0, 1920, 1080)),
        Monitor::new(1, "right", Rect::new(1920, 0, 1920, 1080)),
    ]);
    wm.auto_back_and_forth = true;
    wm.per_monitor_workspaces = true;
    let first = wm.current_workspace();
    let second = wm.add_workspace("2", "dynamic");
    wm.switch_workspace_on_monitor(second, 0);
    assert_eq!(wm.workspace_for_monitor(0), second);
    wm.switch_workspace_on_monitor(second, 0);
    assert_eq!(wm.workspace_for_monitor(0), first);
    wm.switch_workspace_on_monitor(first, 0);
    assert_eq!(wm.workspace_for_monitor(0), second);
    assert_eq!(wm.workspace_for_monitor(1), first);
}

#[test]
fn asking_one_monitor_for_what_it_shows_changes_nothing_without_back_and_forth() {
    let mut wm = wm();
    wm.per_monitor_workspaces = true;
    let second = wm.add_workspace("2", "dynamic");
    wm.switch_workspace_on_monitor(second, 0);
    wm.switch_workspace_on_monitor(second, 0);
    assert_eq!(wm.workspace_for_monitor(0), second);
}
