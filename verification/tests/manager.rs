use srdwm::ieee::Float32;
use srdwm::manager::{Direction, WindowManager};
use srdwm::placement::SnapZoneKind;
use srdwm::rules::{WindowMatch, WindowRule, WindowRuleActions};
use srdwm::window::{ResizeEdge, TitlebarHit, Window};
use srdwm::{Monitor, Rect};

fn single(v: f32) -> Float32 {
    Float32 { bits: v.to_bits() }
}

fn wm_with_monitor() -> WindowManager {
    let mut wm = WindowManager::new();
    wm.set_monitors(vec![{
        let mut m = Monitor::new(0, "primary", Rect::new(0, 0, 1920, 1080));
        m.primary = true;
        m
    }]);
    wm
}

#[test]
fn tests_new_window_on_dynamic_workspace_uses_smart_placement() {
    let mut wm = wm_with_monitor();
    let id = wm.alloc_window_id();
    let mut w = Window::new(id, "first");
    w.geometry = Rect::new(0, 0, 400, 300);
    wm.add_window(w);
    let placed = wm.window(id).unwrap().geometry;
    assert_eq!(placed.x, wm.placement.cascade_offset);
}

#[test]
fn add_window_picks_up_the_configured_default_decoration_mode() {
    let mut wm = wm_with_monitor();
    wm.theme.default_decorated = false;
    let id = wm.alloc_window_id();
    wm.add_window(Window::new(id, "a"));
    assert!(!wm.window(id).unwrap().decorated, "must pick up the live theme default, not Window::new's own hardcoded one");
}

#[test]
fn phone_mode_maximizes_a_new_window_by_default() {
    let mut wm = wm_with_monitor();
    wm.phone_mode = true;
    let id = wm.alloc_window_id();
    wm.add_window(Window::new(id, "a"));
    assert!(wm.window(id).unwrap().maximized);
}

#[test]
fn phone_mode_does_not_maximize_a_window_a_rule_floats() {
    let mut wm = wm_with_monitor();
    wm.phone_mode = true;
    wm.add_rule(WindowRule {
        matcher: WindowMatch { class: Some("popup".into()), ..Default::default() },
        actions: WindowRuleActions { floating: Some(true), ..Default::default() },
    });
    let id = wm.alloc_window_id();
    let mut w = Window::new(id, "a");
    w.app_id = "popup".into();
    wm.add_window(w);
    assert!(!wm.window(id).unwrap().maximized, "a window a rule explicitly floats is meant to stay small, phone mode or not");
}

#[test]
fn a_rules_explicit_maximized_false_still_wins_in_phone_mode() {
    let mut wm = wm_with_monitor();
    wm.phone_mode = true;
    wm.add_rule(WindowRule {
        matcher: WindowMatch { class: Some("widget".into()), ..Default::default() },
        actions: WindowRuleActions { maximized: Some(false), ..Default::default() },
    });
    let id = wm.alloc_window_id();
    let mut w = Window::new(id, "a");
    w.app_id = "widget".into();
    wm.add_window(w);
    assert!(!wm.window(id).unwrap().maximized, "an explicit rule action must win over phone mode's own default");
}

#[test]
fn phone_mode_off_leaves_ordinary_placement_unaffected() {
    let mut wm = wm_with_monitor();
    assert!(!wm.phone_mode, "sanity: default is off");
    let id = wm.alloc_window_id();
    wm.add_window(Window::new(id, "a"));
    assert!(!wm.window(id).unwrap().maximized);
}

#[test]
fn a_rules_decorated_action_still_overrides_the_theme_default() {
    let mut wm = wm_with_monitor();
    wm.theme.default_decorated = false;
    wm.add_rule(WindowRule {
        matcher: WindowMatch { class: Some("nemo".into()), ..Default::default() },
        actions: WindowRuleActions { decorated: Some(true), ..Default::default() },
    });
    let id = wm.alloc_window_id();
    let mut w = Window::new(id, "a");
    w.app_id = "nemo".into();
    wm.add_window(w);
    assert!(wm.window(id).unwrap().decorated, "an explicit rule must still win over the theme-wide default");
}

#[test]
fn a_decorated_false_rule_applies_once_app_id_becomes_known_after_creation() {
    let mut wm = wm_with_monitor();
    wm.add_rule(WindowRule {
        matcher: WindowMatch { class: Some("firefox".into()), ..Default::default() },
        actions: WindowRuleActions { decorated: Some(false), ..Default::default() },
    });
    let id = wm.alloc_window_id();
    let w = Window::new(id, "");
    wm.add_window(w);
    assert!(wm.window(id).unwrap().decorated, "nothing could have matched yet with an empty app_id - still the theme default (true)");
    assert!(!wm.window(id).unwrap().rules_applied, "must stay pending, not falsely marked settled");

    if let Some(win) = wm.window_mut(id) {
        win.app_id = "firefox".into();
        win.title = "Mozilla Firefox".into();
    }
    let reapplied = wm.reapply_rules_if_pending(id);
    assert!(reapplied, "the now-real app_id should let the firefox rule match");
    assert!(!wm.window(id).unwrap().decorated, "the rule's decorated=false must actually take effect");
}

#[test]
fn tests_tiling_workspace_arranges_two_windows_side_by_side() {
    let mut wm = wm_with_monitor();
    wm.set_layout(wm.current_workspace(), "tiling");
    let a = wm.alloc_window_id();
    wm.add_window(Window::new(a, "a"));
    let b = wm.alloc_window_id();
    wm.add_window(Window::new(b, "b"));

    wm.arrange_workspace(wm.current_workspace());
    let ra = wm.window(a).unwrap().geometry;
    let rb = wm.window(b).unwrap().geometry;
    assert!(!ra.overlaps(&rb));
    assert_eq!(ra.y, rb.y);
    assert!(ra.x < rb.x);
}

#[test]
fn tests_floating_window_is_skipped_by_tiling_arrange() {
    let mut wm = wm_with_monitor();
    wm.set_layout(wm.current_workspace(), "tiling");
    let a = wm.alloc_window_id();
    wm.add_window(Window::new(a, "a"));
    wm.toggle_floating(a);
    let before = wm.window(a).unwrap().geometry;
    wm.arrange_workspace(wm.current_workspace());
    assert_eq!(wm.window(a).unwrap().geometry, before);
}

#[test]
fn tests_focus_cycles_forward_and_wraps() {
    let mut wm = wm_with_monitor();
    let a = wm.alloc_window_id();
    wm.add_window(Window::new(a, "a"));
    let b = wm.alloc_window_id();
    wm.add_window(Window::new(b, "b"));
    assert_eq!(wm.focused_id(), Some(b));
    wm.focus_next();
    assert_eq!(wm.focused_id(), Some(a));
    wm.focus_next();
    assert_eq!(wm.focused_id(), Some(b));
}

#[test]
fn tests_minimized_window_is_skipped_by_focus_cycling() {
    let mut wm = wm_with_monitor();
    let a = wm.alloc_window_id();
    wm.add_window(Window::new(a, "a"));
    let b = wm.alloc_window_id();
    wm.add_window(Window::new(b, "b"));
    wm.minimize_window(a);
    wm.focus_window(b);
    wm.focus_next();
    assert_eq!(wm.focused_id(), Some(b), "only unminimized window should ever be focused");
}

#[test]
fn tests_drag_moves_window_by_pointer_delta() {
    let mut wm = wm_with_monitor();
    wm.set_layout(wm.current_workspace(), "tiling");
    let a = wm.alloc_window_id();
    let mut w = Window::new(a, "a");
    w.geometry = Rect::new(300, 300, 400, 300);
    wm.add_window(w);
    wm.start_drag(a, 310, 310);
    wm.update_drag(360, 340);
    let g = wm.window(a).unwrap().geometry;
    assert_eq!((g.x, g.y), (350, 330));
    wm.end_drag();
    assert!(!wm.is_dragging());
}

#[test]
fn dragging_across_a_monitor_boundary_updates_monitor_live_not_just_at_end() {
    let mut wm = WindowManager::new();
    wm.set_monitors(two_monitors());
    wm.set_layout(wm.current_workspace(), "tiling");
    let a = wm.alloc_window_id();
    let mut w = Window::new(a, "a");
    w.geometry = Rect::new(1000, 100, 200, 150);
    wm.add_window(w);
    wm.window_mut(a).unwrap().monitor = 0;
    wm.start_drag(a, 1010, 110);
    assert_eq!(wm.window(a).unwrap().monitor, 0);
    wm.update_drag(1600, 110);
    assert_eq!(wm.window(a).unwrap().monitor, 1, "monitor must update live during the drag, not only once it ends");
}

#[test]
fn tests_drag_ending_near_edge_snaps_to_half_screen() {
    let mut wm = wm_with_monitor();
    wm.set_layout(wm.current_workspace(), "tiling");
    let a = wm.alloc_window_id();
    let mut w = Window::new(a, "a");
    w.geometry = Rect::new(500, 500, 400, 300);
    wm.add_window(w);
    wm.start_drag(a, 510, 510);
    wm.update_drag(15, 510);
    wm.end_drag();
    let g = wm.window(a).unwrap().geometry;
    assert_eq!(g, Rect::new(0, 0, 960, 1080));
}

#[test]
fn tests_resize_from_bottom_right_grows_size_only() {
    let mut wm = wm_with_monitor();
    wm.set_layout(wm.current_workspace(), "tiling");
    let a = wm.alloc_window_id();
    let mut w = Window::new(a, "a");
    w.geometry = Rect::new(100, 100, 300, 200);
    wm.add_window(w);
    wm.start_resize(a, ResizeEdge::BottomRight, 400, 300);
    wm.update_resize(450, 340);
    let g = wm.window(a).unwrap().geometry;
    assert_eq!(g, Rect::new(100, 100, 350, 240));
    wm.end_resize();
    assert!(!wm.is_resizing());
}

#[test]
fn resizing_across_a_monitor_boundary_updates_monitor_live() {
    let mut wm = WindowManager::new();
    wm.set_monitors(two_monitors());
    wm.set_layout(wm.current_workspace(), "tiling");
    let a = wm.alloc_window_id();
    let mut w = Window::new(a, "a");
    w.geometry = Rect::new(1000, 100, 500, 150);
    wm.add_window(w);
    wm.window_mut(a).unwrap().monitor = 0;
    wm.start_resize(a, ResizeEdge::Left, 1050, 100);
    wm.update_resize(1340, 100);
    let g = wm.window(a).unwrap().geometry;
    assert_eq!(g, Rect::new(1290, 100, 210, 150), "sanity: resize must actually have cleared the boundary");
    assert_eq!(wm.window(a).unwrap().monitor, 1, "monitor must update live during the resize");
}

#[test]
fn ending_a_resize_remembers_the_new_size_for_the_apps_next_window() {
    let mut wm = wm_with_monitor();
    wm.set_layout(wm.current_workspace(), "tiling");
    let a = wm.alloc_window_id();
    let mut w = Window::new(a, "a");
    w.app_id = "alacritty".into();
    w.geometry = Rect::new(100, 100, 300, 200);
    wm.add_window(w);
    wm.start_resize(a, ResizeEdge::BottomRight, 400, 300);
    wm.update_resize(500, 400);
    wm.end_resize();

    let b = wm.alloc_window_id();
    let mut w2 = Window::new(b, "b");
    w2.app_id = "alacritty".into();
    w2.geometry = Rect::new(0, 0, 800, 600);
    wm.add_window(w2);
    let placed = wm.window(b).unwrap().geometry;
    assert_eq!((placed.width, placed.height), (400, 300), "the second alacritty window must open at the size the first was resized to");
}

#[test]
fn remembered_size_is_keyed_by_app_id_not_shared_across_different_apps() {
    let mut wm = wm_with_monitor();
    wm.set_layout(wm.current_workspace(), "tiling");
    let a = wm.alloc_window_id();
    let mut w = Window::new(a, "a");
    w.app_id = "alacritty".into();
    w.geometry = Rect::new(100, 100, 300, 200);
    wm.add_window(w);
    wm.start_resize(a, ResizeEdge::BottomRight, 400, 300);
    wm.update_resize(500, 400);
    wm.end_resize();

    let b = wm.alloc_window_id();
    let mut w2 = Window::new(b, "b");
    w2.app_id = "firefox".into();
    w2.geometry = Rect::new(0, 0, 800, 600);
    wm.add_window(w2);
    let placed = wm.window(b).unwrap().geometry;
    assert_eq!((placed.width, placed.height), (800, 600), "a different app's default size must be untouched by alacritty's remembered size");
}

#[test]
fn a_dragged_window_remembers_its_new_position_for_the_next_same_app_window() {
    let mut wm = wm_with_monitor();
    wm.set_layout(wm.current_workspace(), "tiling");
    let a = wm.alloc_window_id();
    let mut w = Window::new(a, "a");
    w.app_id = "alacritty".into();
    w.geometry = Rect::new(100, 100, 300, 200);
    wm.add_window(w);
    wm.start_drag(a, 150, 150);
    wm.update_drag(650, 550);
    wm.end_drag();
    let dragged_to = wm.window(a).unwrap().geometry;

    let b = wm.alloc_window_id();
    let mut w2 = Window::new(b, "b");
    w2.app_id = "alacritty".into();
    w2.geometry = Rect::new(0, 0, 800, 600);
    wm.add_window(w2);
    let placed = wm.window(b).unwrap().geometry;
    assert_eq!((placed.x, placed.y), (dragged_to.x, dragged_to.y), "the second alacritty window must open where the first was dragged to");
}

#[test]
fn closing_a_window_remembers_its_geometry_even_if_it_was_never_dragged_or_resized() {
    let mut wm = wm_with_monitor();
    wm.set_layout(wm.current_workspace(), "tiling");
    let a = wm.alloc_window_id();
    let mut w = Window::new(a, "a");
    w.app_id = "alacritty".into();
    w.geometry = Rect::new(321, 111, 444, 222);
    wm.add_window(w);
    wm.remove_window(a);

    let b = wm.alloc_window_id();
    let mut w2 = Window::new(b, "b");
    w2.app_id = "alacritty".into();
    w2.geometry = Rect::new(0, 0, 800, 600);
    wm.add_window(w2);
    let placed = wm.window(b).unwrap().geometry;
    assert_eq!((placed.x, placed.y, placed.width, placed.height), (321, 111, 444, 222), "the next alacritty window must open where/how large the first one was when it closed");
}

#[test]
fn a_remembered_position_on_a_monitor_that_no_longer_exists_falls_back_to_placement() {
    let mut wm = wm_with_monitor();
    wm.set_layout(wm.current_workspace(), "dynamic");
    let a = wm.alloc_window_id();
    let mut w = Window::new(a, "a");
    w.app_id = "alacritty".into();
    w.geometry = Rect::new(100, 100, 300, 200);
    wm.add_window(w);
    wm.start_drag(a, 150, 150);
    wm.update_drag(150, 150);
    wm.end_drag();
    wm.set_monitors(vec![Monitor::new(1, "different", Rect::new(5000, 5000, 1920, 1080))]);

    let b = wm.alloc_window_id();
    let mut w2 = Window::new(b, "b");
    w2.app_id = "alacritty".into();
    w2.geometry = Rect::new(0, 0, 800, 600);
    wm.add_window(w2);
    let placed = wm.window(b).unwrap().geometry;
    assert!(placed.x >= 5000, "an invalid remembered position must fall back to placement on a real, currently-connected monitor, not be reused blindly");
}

#[test]
fn maximizing_then_unmaximizing_does_not_change_the_remembered_size() {
    let mut wm = wm_with_monitor();
    wm.set_layout(wm.current_workspace(), "tiling");
    let a = wm.alloc_window_id();
    let mut w = Window::new(a, "a");
    w.app_id = "alacritty".into();
    w.geometry = Rect::new(100, 100, 300, 200);
    wm.add_window(w);
    wm.toggle_maximize(a);
    wm.toggle_maximize(a);

    let b = wm.alloc_window_id();
    let mut w2 = Window::new(b, "b");
    w2.app_id = "alacritty".into();
    w2.geometry = Rect::new(0, 0, 800, 600);
    wm.add_window(w2);
    let placed = wm.window(b).unwrap().geometry;
    assert_eq!((placed.width, placed.height), (800, 600), "maximize/unmaximize alone must not have remembered anything");
}

#[test]
fn a_rules_explicit_geometry_still_wins_over_a_remembered_size() {
    let mut wm = wm_with_monitor();
    wm.set_layout(wm.current_workspace(), "tiling");
    let a = wm.alloc_window_id();
    let mut w = Window::new(a, "a");
    w.app_id = "alacritty".into();
    w.geometry = Rect::new(100, 100, 300, 200);
    wm.add_window(w);
    wm.start_resize(a, ResizeEdge::BottomRight, 400, 300);
    wm.update_resize(500, 400);
    wm.end_resize();

    wm.add_rule(WindowRule {
        matcher: WindowMatch { class: Some("alacritty".into()), ..Default::default() },
        actions: WindowRuleActions { geometry: Some(Rect::new(0, 0, 640, 480)), ..Default::default() },
    });
    let b = wm.alloc_window_id();
    let mut w2 = Window::new(b, "b");
    w2.app_id = "alacritty".into();
    w2.geometry = Rect::new(0, 0, 800, 600);
    wm.add_window(w2);
    let placed = wm.window(b).unwrap().geometry;
    assert_eq!((placed.width, placed.height), (640, 480), "a rule's explicit geometry is more specific and must win");
}

#[test]
fn tests_toggle_maximize_restores_original_geometry() {
    let mut wm = wm_with_monitor();
    let a = wm.alloc_window_id();
    let mut w = Window::new(a, "a");
    w.geometry = Rect::new(50, 50, 300, 200);
    wm.add_window(w);
    let original = wm.window(a).unwrap().geometry;
    wm.toggle_maximize(a);
    assert_eq!(wm.window(a).unwrap().geometry, Rect::new(0, 0, 1920, 1080));
    wm.toggle_maximize(a);
    assert_eq!(wm.window(a).unwrap().geometry, original);
}

#[test]
fn apply_snap_zone_resizes_to_the_named_zones_rect() {
    let mut wm = wm_with_monitor();
    let a = wm.alloc_window_id();
    let mut w = Window::new(a, "a");
    w.geometry = Rect::new(50, 50, 300, 200);
    wm.add_window(w);
    wm.apply_snap_zone(a, SnapZoneKind::LeftHalf);
    assert_eq!(wm.window(a).unwrap().geometry, Rect::new(0, 0, 960, 1080));
}

#[test]
fn apply_snap_zone_on_a_maximized_window_un_maximizes_it() {
    let mut wm = wm_with_monitor();
    let a = wm.alloc_window_id();
    wm.add_window(Window::new(a, "a"));
    wm.toggle_maximize(a);
    assert!(wm.window(a).unwrap().maximized);
    wm.apply_snap_zone(a, SnapZoneKind::TopRightQuarter);
    let w = wm.window(a).unwrap();
    assert!(!w.maximized, "snapping a maximized window must clear the maximized flag");
    assert_eq!(w.geometry, Rect::new(960, 0, 960, 540));
}

#[test]
fn maximize_records_anim_from_when_animations_enabled() {
    let mut wm = wm_with_monitor();
    let a = wm.alloc_window_id();
    let mut w = Window::new(a, "a");
    w.geometry = Rect::new(50, 50, 300, 200);
    wm.add_window(w);
    let placed = wm.window(a).unwrap().geometry;
    wm.toggle_maximize(a);
    assert_eq!(wm.window(a).unwrap().anim_from, Some(placed));
}

#[test]
fn maximize_does_not_record_anim_from_when_animations_disabled() {
    let mut wm = wm_with_monitor();
    wm.animations_enabled = false;
    let a = wm.alloc_window_id();
    let mut w = Window::new(a, "a");
    w.geometry = Rect::new(50, 50, 300, 200);
    wm.add_window(w);
    wm.toggle_maximize(a);
    assert_eq!(wm.window(a).unwrap().anim_from, None);
}

#[test]
fn fullscreen_records_anim_from_covering_the_full_monitor() {
    let mut wm = wm_with_monitor();
    let a = wm.alloc_window_id();
    let mut w = Window::new(a, "a");
    w.geometry = Rect::new(50, 50, 300, 200);
    wm.add_window(w);
    let placed = wm.window(a).unwrap().geometry;
    wm.toggle_fullscreen(a);
    assert_eq!(wm.window(a).unwrap().anim_from, Some(placed));
}

#[test]
fn tests_directional_focus_picks_nearest_window_in_that_direction() {
    let mut wm = wm_with_monitor();
    wm.set_layout(wm.current_workspace(), "tiling");
    let center = wm.alloc_window_id();
    let mut wc = Window::new(center, "center");
    wc.geometry = Rect::new(500, 500, 100, 100);
    wm.add_window(wc);
    let left = wm.alloc_window_id();
    let mut wl = Window::new(left, "left");
    wl.geometry = Rect::new(0, 500, 100, 100);
    wm.add_window(wl);
    let right = wm.alloc_window_id();
    let mut wr = Window::new(right, "right");
    wr.geometry = Rect::new(1000, 500, 100, 100);
    wm.add_window(wr);

    wm.focus_window(center);
    assert_eq!(wm.focus_direction(Direction::Left), Some(left));
    assert_eq!(wm.focused_id(), Some(left));

    wm.focus_window(center);
    assert_eq!(wm.focus_direction(Direction::Right), Some(right));
}

#[test]
fn tests_hit_test_prefers_topmost_window() {
    let mut wm = wm_with_monitor();
    wm.set_layout(wm.current_workspace(), "tiling");
    let a = wm.alloc_window_id();
    let mut wa = Window::new(a, "a");
    wa.geometry = Rect::new(0, 0, 400, 300);
    wm.add_window(wa);
    let b = wm.alloc_window_id();
    let mut wb = Window::new(b, "b");
    wb.geometry = Rect::new(0, 0, 400, 300);
    wm.add_window(wb);

    let (hit_id, hit) = wm.hit_test(200, 10).unwrap();
    assert_eq!(hit_id, b);
    assert_eq!(hit, TitlebarHit::Drag);
}

#[test]
fn hit_test_ignores_a_window_on_another_workspace_even_if_its_geometry_overlaps() {
    let mut wm = wm_with_monitor();
    let a = wm.alloc_window_id();
    let mut wa = Window::new(a, "a");
    wa.geometry = Rect::new(0, 0, 400, 300);
    wm.add_window(wa);
    let a_geom = wm.window(a).unwrap().geometry;
    let b = wm.alloc_window_id();
    wm.add_window(Window::new(b, "b"));
    wm.window_mut(b).unwrap().geometry = a_geom;
    let other_workspace = wm.add_workspace("2", "dynamic");
    wm.move_window_to_workspace(b, other_workspace);

    let (px, py) = (a_geom.x + a_geom.width as i32 / 2, a_geom.y + 5);
    let (hit_id, _) = wm.hit_test(px, py).unwrap();
    assert_eq!(hit_id, a, "a click must land on the visible window, not one hidden on another workspace");
    let center = (a_geom.x + a_geom.width as i32 / 2, a_geom.y + a_geom.height as i32 / 2);
    assert_eq!(wm.window_at(center.0, center.1), Some(a));
}

#[test]
fn hit_test_does_not_see_through_a_covering_windows_content_to_a_lower_windows_edge() {
    let mut wm = wm_with_monitor();
    let a = wm.alloc_window_id();
    let mut wa = Window::new(a, "a");
    wa.geometry = Rect::new(0, 0, 400, 300);
    wm.add_window(wa);
    let b = wm.alloc_window_id();
    let mut wb = Window::new(b, "b");
    wb.geometry = Rect::new(-100, 0, 600, 300);
    wm.add_window(wb);

    assert_eq!(wm.hit_test(0, 150), None, "a's edge must not be reachable through b's opaque content");
}

#[test]
fn per_window_resize_margin_overrides_the_wm_wide_default() {
    let mut wm = wm_with_monitor();
    wm.set_layout(wm.current_workspace(), "tiling");
    let id = wm.alloc_window_id();
    let mut w = Window::new(id, "a");
    w.geometry = Rect::new(100, 100, 400, 800);
    w.resize_margin = Some(30);
    wm.add_window(w);

    let hit = wm.hit_test(115, 500);
    assert_eq!(hit.map(|(_, h)| h), Some(TitlebarHit::Resize(ResizeEdge::Left)));
}

#[test]
fn tests_moving_window_to_another_workspace_removes_it_from_current() {
    let mut wm = wm_with_monitor();
    let a = wm.alloc_window_id();
    wm.add_window(Window::new(a, "a"));
    let ws2 = wm.add_workspace("2", "dynamic");
    wm.move_window_to_workspace(a, ws2);
    assert_eq!(wm.visible_windows().len(), 0);
    wm.switch_workspace(ws2);
    assert_eq!(wm.visible_windows().len(), 1);
}

#[test]
fn tests_matching_rule_floats_new_window_on_add() {
    let mut wm = wm_with_monitor();
    wm.set_layout(wm.current_workspace(), "tiling");
    wm.add_rule(WindowRule {
        matcher: WindowMatch { title_contains: Some("calculator".into()), ..Default::default() },
        actions: WindowRuleActions { floating: Some(true), ..Default::default() },
    });
    let id = wm.alloc_window_id();
    wm.add_window(Window::new(id, "Calculator"));
    assert!(wm.is_floating(id));
}

#[test]
fn tests_non_matching_rule_leaves_window_untouched() {
    let mut wm = wm_with_monitor();
    wm.add_rule(WindowRule {
        matcher: WindowMatch { title_contains: Some("calculator".into()), ..Default::default() },
        actions: WindowRuleActions { floating: Some(true), ..Default::default() },
    });
    let id = wm.alloc_window_id();
    wm.add_window(Window::new(id, "Terminal"));
    assert!(!wm.is_floating(id));
}

#[test]
fn tests_rule_assigns_window_to_target_workspace() {
    let mut wm = wm_with_monitor();
    let target = wm.add_workspace("scratch", "dynamic");
    wm.add_rule(WindowRule {
        matcher: WindowMatch { class: Some("scratchpad".into()), ..Default::default() },
        actions: WindowRuleActions { workspace: Some(target), ..Default::default() },
    });
    let id = wm.alloc_window_id();
    let mut w = Window::new(id, "notes");
    w.app_id = "scratchpad".into();
    wm.add_window(w);
    assert_eq!(wm.window(id).unwrap().workspace, target);
}

#[test]
fn tests_removing_a_workspace_reassigns_its_windows() {
    let mut wm = wm_with_monitor();
    let ws2 = wm.add_workspace("2", "dynamic");
    wm.switch_workspace(ws2);
    let a = wm.alloc_window_id();
    wm.add_window(Window::new(a, "a"));
    wm.remove_workspace(ws2);
    assert_ne!(wm.window(a).unwrap().workspace, ws2);
    assert!(wm.workspace(ws2).is_none());
}

#[test]
fn rename_workspace_changes_the_display_name() {
    let mut wm = wm_with_monitor();
    let ws2 = wm.add_workspace("2", "dynamic");
    wm.rename_workspace(ws2, "code");
    assert_eq!(wm.workspace(ws2).unwrap().name, "code");
}

#[test]
fn auto_back_and_forth_jumps_to_the_previous_workspace_when_reselecting_the_active_one() {
    let mut wm = wm_with_monitor();
    wm.auto_back_and_forth = true;
    let ws2 = wm.add_workspace("2", "dynamic");
    wm.switch_workspace(ws2);
    assert_eq!(wm.current_workspace(), ws2);
    wm.switch_workspace(ws2);
    assert_eq!(wm.current_workspace(), 1);
}

#[test]
fn without_auto_back_and_forth_reselecting_the_active_workspace_is_a_plain_no_op() {
    let mut wm = wm_with_monitor();
    let ws2 = wm.add_workspace("2", "dynamic");
    wm.switch_workspace(ws2);
    wm.switch_workspace(ws2);
    assert_eq!(wm.current_workspace(), ws2);
}

#[test]
fn switching_to_a_workspace_with_a_window_focuses_it() {
    let mut wm = wm_with_monitor();
    let a = wm.alloc_window_id();
    wm.add_window(Window::new(a, "a"));
    let ws2 = wm.add_workspace("2", "dynamic");
    let b = wm.alloc_window_id();
    wm.add_window(Window::new(b, "b"));
    wm.move_window_to_workspace(b, ws2);
    wm.focus_window(a);
    assert_eq!(wm.focused_id(), Some(a), "sanity: a is focused on the original workspace");

    wm.switch_workspace(ws2);
    assert_eq!(wm.focused_id(), Some(b), "switching to a workspace with a window must focus it, not leave the old workspace's window focused");
}

#[test]
fn switching_to_an_empty_workspace_clears_focus() {
    let mut wm = wm_with_monitor();
    let a = wm.alloc_window_id();
    wm.add_window(Window::new(a, "a"));
    wm.focus_window(a);
    let empty_ws = wm.add_workspace("2", "dynamic");

    wm.switch_workspace(empty_ws);
    assert_eq!(wm.focused_id(), None, "no window on the new workspace to focus, and the old one is no longer visible");
}

#[test]
fn per_monitor_workspaces_off_by_default_switch_workspace_still_moves_every_monitor() {
    let mut wm = WindowManager::new();
    wm.set_monitors(two_monitors());
    assert!(!wm.per_monitor_workspaces, "shared mode must be the default");
    let ws2 = wm.add_workspace("2", "dynamic");
    wm.switch_workspace(ws2);
    assert_eq!(wm.workspace_for_monitor(0), ws2);
    assert_eq!(wm.workspace_for_monitor(1), ws2, "shared mode: every monitor must agree");
}

#[test]
fn per_monitor_workspaces_on_switching_one_monitor_leaves_the_other_alone() {
    let mut wm = WindowManager::new();
    wm.set_monitors(two_monitors());
    wm.per_monitor_workspaces = true;
    let ws2 = wm.add_workspace("2", "dynamic");

    wm.switch_workspace_on_monitor(ws2, 1);

    assert_eq!(wm.workspace_for_monitor(1), ws2, "monitor 1 switched");
    assert_eq!(wm.workspace_for_monitor(0), 1, "monitor 0 must still fall back to current_workspace, untouched");
}

#[test]
fn per_monitor_workspaces_on_visible_windows_respects_each_monitors_own_workspace() {
    let mut wm = WindowManager::new();
    wm.set_monitors(two_monitors());
    wm.per_monitor_workspaces = true;
    let ws2 = wm.add_workspace("2", "dynamic");

    let a = wm.alloc_window_id();
    wm.add_window(Window::new(a, "on-monitor-0-workspace-1"));
    wm.window_mut(a).unwrap().monitor = 0;

    let b = wm.alloc_window_id();
    wm.add_window(Window::new(b, "on-monitor-1-workspace-2"));
    wm.window_mut(b).unwrap().monitor = 1;
    wm.move_window_to_workspace(b, ws2);

    assert!(!wm.visible_windows().iter().any(|w| w.id == b));

    wm.switch_workspace_on_monitor(ws2, 1);

    let visible: Vec<_> = wm.visible_windows().iter().map(|w| w.id).collect();
    assert!(visible.contains(&a), "monitor 0's own window must still be visible");
    assert!(visible.contains(&b), "monitor 1's window must become visible once its monitor switches to workspace 2");
}

#[test]
fn per_monitor_workspaces_on_multiple_workspaces_can_be_active_at_once() {
    let mut wm = WindowManager::new();
    wm.set_monitors(two_monitors());
    wm.per_monitor_workspaces = true;
    let ws2 = wm.add_workspace("2", "dynamic");

    wm.switch_workspace_on_monitor(ws2, 1);

    assert!(wm.is_workspace_visible(1), "monitor 0 is still showing workspace 1");
    assert!(wm.is_workspace_visible(ws2), "monitor 1 is showing workspace 2");
}

#[test]
fn switching_to_a_workspace_where_the_already_focused_window_lives_is_a_no_op_for_focus() {
    let mut wm = wm_with_monitor();
    let ws2 = wm.add_workspace("2", "dynamic");
    let a = wm.alloc_window_id();
    wm.add_window(Window::new(a, "a"));
    wm.move_window_to_workspace(a, ws2);
    let b = wm.alloc_window_id();
    wm.add_window(Window::new(b, "b"));
    wm.move_window_to_workspace(b, ws2);
    wm.focus_window(a);
    assert_eq!(wm.focused_id(), Some(a));
}

#[test]
fn focusing_a_window_on_another_workspace_switches_to_it() {
    let mut wm = wm_with_monitor();
    let ws2 = wm.add_workspace("2", "dynamic");
    let id = wm.alloc_window_id();
    wm.add_window(Window::new(id, "a"));
    wm.move_window_to_workspace(id, ws2);
    assert_eq!(wm.current_workspace(), 1, "sanity: still on the default workspace");

    wm.focus_window(id);
    assert_eq!(wm.current_workspace(), ws2, "focusing a window must bring its workspace along");
    assert_eq!(wm.focused_id(), Some(id));
}

#[test]
fn focusing_a_minimized_window_also_restores_it() {
    let mut wm = wm_with_monitor();
    let id = wm.alloc_window_id();
    wm.add_window(Window::new(id, "a"));
    wm.minimize_window(id);
    assert!(wm.window(id).unwrap().minimized, "sanity: actually minimized first");

    wm.focus_window(id);
    assert!(!wm.window(id).unwrap().minimized, "focusing a minimized window must restore it");
    assert_eq!(wm.focused_id(), Some(id));
    assert!(wm.visible_windows().iter().any(|w| w.id == id));
}

#[test]
fn refocusing_an_already_visible_window_does_not_trigger_auto_back_and_forth() {
    let mut wm = wm_with_monitor();
    wm.auto_back_and_forth = true;
    let ws2 = wm.add_workspace("2", "dynamic");
    wm.switch_workspace(ws2);
    let id = wm.alloc_window_id();
    wm.add_window(Window::new(id, "a"));

    wm.focus_window(id);
    assert_eq!(wm.current_workspace(), ws2, "must stay put - this is not a workspace-switch request");
}

#[test]
fn switching_to_a_nonexistent_workspace_does_not_move_or_touch_previous() {
    let mut wm = wm_with_monitor();
    let ws2 = wm.add_workspace("2", "dynamic");
    wm.switch_workspace(ws2);
    wm.switch_workspace(9999);
    assert_eq!(wm.current_workspace(), ws2);
    wm.auto_back_and_forth = true;
    wm.switch_workspace(ws2);
    assert_eq!(wm.current_workspace(), 1);
}

#[test]
fn output_position_requests_drain_in_arrival_order() {
    let mut wm = wm_with_monitor();
    wm.request_output_position(0, 100, 0);
    wm.request_output_position(1, 0, 0);
    assert_eq!(wm.drain_output_position_requests(), vec![(0, 100, 0), (1, 0, 0)]);
    assert!(wm.drain_output_position_requests().is_empty());
}

#[test]
fn a_second_output_position_request_for_the_same_output_replaces_the_first() {
    let mut wm = wm_with_monitor();
    wm.request_output_position(0, 100, 0);
    wm.request_output_position(0, 200, 50);
    assert_eq!(wm.drain_output_position_requests(), vec![(0, 200, 50)]);
}

#[test]
fn rename_workspace_is_a_no_op_for_an_id_that_does_not_exist() {
    let mut wm = wm_with_monitor();
    wm.rename_workspace(9999, "ghost");
    assert!(wm.workspaces().iter().all(|w| w.name != "ghost"));
}

#[test]
fn scratchpad_add_hides_the_window_and_marks_pool_membership() {
    let mut wm = wm_with_monitor();
    let a = wm.alloc_window_id();
    wm.add_window(Window::new(a, "term"));
    wm.scratchpad_add(a);
    let w = wm.window(a).unwrap();
    assert!(w.scratchpad);
    assert!(w.minimized);
    assert!(w.floating);
    assert!(!wm.visible_windows().iter().any(|w| w.id == a));
}

#[test]
fn scratchpad_show_brings_back_the_hidden_window_and_focuses_it() {
    let mut wm = wm_with_monitor();
    let a = wm.alloc_window_id();
    wm.add_window(Window::new(a, "term"));
    wm.scratchpad_add(a);
    wm.scratchpad_show();
    let w = wm.window(a).unwrap();
    assert!(!w.minimized);
    assert_eq!(wm.focused_id(), Some(a));
    assert!(wm.visible_windows().iter().any(|w| w.id == a));
}

#[test]
fn scratchpad_show_hides_again_when_the_shown_scratchpad_window_is_focused() {
    let mut wm = wm_with_monitor();
    let a = wm.alloc_window_id();
    wm.add_window(Window::new(a, "term"));
    wm.scratchpad_add(a);
    wm.scratchpad_show();
    wm.scratchpad_show();
    assert!(wm.window(a).unwrap().minimized);
    assert!(!wm.visible_windows().iter().any(|w| w.id == a));
}

#[test]
fn scratchpad_show_brings_it_back_even_when_minimized_through_a_different_path() {
    let mut wm = wm_with_monitor();
    let a = wm.alloc_window_id();
    wm.add_window(Window::new(a, "term"));
    wm.scratchpad_add(a);
    wm.scratchpad_show();
    wm.minimize_window(a);
    assert!(wm.window(a).unwrap().scratchpad, "must still be pool-managed after an ordinary minimize");
    wm.scratchpad_show();
    let w = wm.window(a).unwrap();
    assert!(!w.minimized, "the binding must show it again, not treat it as already visible");
    assert_eq!(wm.focused_id(), Some(a));
}

#[test]
fn scratchpad_show_moves_the_window_onto_the_current_workspace() {
    let mut wm = wm_with_monitor();
    let a = wm.alloc_window_id();
    wm.add_window(Window::new(a, "term"));
    wm.scratchpad_add(a);
    let ws2 = wm.add_workspace("2", "dynamic");
    wm.switch_workspace(ws2);
    wm.scratchpad_show();
    assert_eq!(wm.window(a).unwrap().workspace, ws2);
    assert!(wm.visible_windows().iter().any(|w| w.id == a));
}

#[test]
fn scratchpad_show_with_no_scratchpad_windows_is_a_no_op() {
    let mut wm = wm_with_monitor();
    let a = wm.alloc_window_id();
    wm.add_window(Window::new(a, "normal"));
    wm.scratchpad_show();
    assert_eq!(wm.focused_id(), Some(a));
    assert!(!wm.window(a).unwrap().minimized);
}

#[test]
fn scratchpad_show_picks_the_most_recently_added_hidden_window() {
    let mut wm = wm_with_monitor();
    let a = wm.alloc_window_id();
    wm.add_window(Window::new(a, "old"));
    wm.scratchpad_add(a);
    let b = wm.alloc_window_id();
    wm.add_window(Window::new(b, "new"));
    wm.scratchpad_add(b);
    wm.scratchpad_show();
    assert_eq!(wm.focused_id(), Some(b));
    assert!(wm.window(a).unwrap().minimized);
}

#[test]
fn scratchpad_remove_leaves_current_visibility_untouched_but_drops_pool_membership() {
    let mut wm = wm_with_monitor();
    let a = wm.alloc_window_id();
    wm.add_window(Window::new(a, "term"));
    wm.scratchpad_add(a);
    wm.scratchpad_remove(a);
    assert!(!wm.window(a).unwrap().scratchpad);
    assert!(wm.window(a).unwrap().minimized);
    wm.scratchpad_show();
    assert!(wm.window(a).unwrap().minimized);
}

fn two_monitors() -> Vec<Monitor> {
    let mut a = Monitor::new(0, "primary", Rect::new(0, 0, 1280, 800));
    a.primary = true;
    let b = Monitor::new(1, "secondary", Rect::new(1280, 0, 1920, 1080));
    vec![a, b]
}

#[test]
fn disabled_monitor_is_reported_but_never_shows_up_in_monitors() {
    let mut wm = WindowManager::new();
    wm.set_monitors(two_monitors());
    wm.set_disabled_monitor("HDMI-A-1".to_string(), Rect::new(1920, 0, 1920, 1080), Rect::new(1920, 0, 1920, 1080), false);

    assert_eq!(wm.monitors().len(), 2, "disabled_monitors must not leak into real placement's monitor list");
    let disabled = wm.disabled_monitors();
    assert_eq!(disabled.len(), 1);
    assert_eq!(disabled[0].0, "HDMI-A-1");
}

#[test]
fn re_enabling_clears_the_disabled_monitor_record() {
    let mut wm = WindowManager::new();
    wm.set_disabled_monitor("HDMI-A-1".to_string(), Rect::new(0, 0, 1920, 1080), Rect::new(0, 0, 1920, 1080), false);
    assert_eq!(wm.disabled_monitors().len(), 1);

    wm.clear_disabled_monitor("HDMI-A-1");
    assert_eq!(wm.disabled_monitors().len(), 0);
}

#[test]
fn primary_secondary_layout_is_a_no_op_outside_per_monitor_workspaces_mode() {
    let mut wm = WindowManager::new();
    wm.primary_layout = "dynamic".to_string();
    wm.secondary_layout = "tiling".to_string();
    wm.set_monitors(two_monitors());
    assert_eq!(wm.workspace(1).unwrap().layout, "dynamic", "must not touch the shared workspace's layout");
}

#[test]
fn primary_secondary_layout_applies_once_workspaces_are_split_per_monitor() {
    let mut wm = WindowManager::new();
    wm.per_monitor_workspaces = true;
    wm.primary_layout = "dynamic".to_string();
    wm.secondary_layout = "tiling".to_string();
    wm.set_monitors(two_monitors());
    let ws2 = wm.add_workspace("2", "dynamic");
    wm.switch_workspace_on_monitor(ws2, 1);
    wm.set_monitors(two_monitors());

    assert_eq!(wm.workspace(wm.workspace_for_monitor(0)).unwrap().layout, "dynamic");
    assert_eq!(wm.workspace(ws2).unwrap().layout, "tiling");
}

#[test]
fn primary_secondary_layout_does_not_clobber_the_still_shared_workspace() {
    let mut wm = WindowManager::new();
    wm.per_monitor_workspaces = true;
    wm.primary_layout = "dynamic".to_string();
    wm.secondary_layout = "tiling".to_string();
    wm.set_monitors(two_monitors());
    assert_eq!(wm.workspace(1).unwrap().layout, "dynamic");
}

#[test]
fn tests_unplugging_a_monitor_rehomes_its_windows_to_the_primary() {
    let mut wm = WindowManager::new();
    wm.set_monitors(two_monitors());

    let id = wm.alloc_window_id();
    let mut w = Window::new(id, "on-second-monitor");
    w.geometry = Rect::new(1500, 200, 600, 400);
    wm.add_window(w);
    wm.window_mut(id).unwrap().monitor = 1;

    wm.set_monitors(vec![two_monitors().remove(0)]);

    let w = wm.window(id).unwrap();
    assert_eq!(w.monitor, 0, "window should be rehomed to the primary monitor");
    assert!(
        Rect::new(0, 0, 1280, 800).overlaps(&w.geometry),
        "rehomed window should be on-screen, got {:?}",
        w.geometry
    );
}

#[test]
fn tests_windows_already_on_a_surviving_monitor_are_left_alone() {
    let mut wm = WindowManager::new();
    wm.set_monitors(two_monitors());

    let id = wm.alloc_window_id();
    let mut w = Window::new(id, "on-primary");
    w.geometry = Rect::new(10, 20, 300, 200);
    wm.add_window(w);
    wm.window_mut(id).unwrap().monitor = 0;
    wm.window_mut(id).unwrap().geometry = Rect::new(10, 20, 300, 200);

    wm.set_monitors(vec![two_monitors().remove(0)]);

    let w = wm.window(id).unwrap();
    assert_eq!(w.monitor, 0);
    assert_eq!(w.geometry, Rect::new(10, 20, 300, 200), "untouched window must not move");
}

#[test]
fn tests_a_window_still_overlapping_the_primary_keeps_its_geometry() {
    let mut wm = WindowManager::new();
    wm.set_monitors(two_monitors());

    let id = wm.alloc_window_id();
    let mut w = Window::new(id, "straddling");
    wm.add_window(w.clone());
    w.geometry = Rect::new(1200, 100, 400, 300);
    wm.window_mut(id).unwrap().monitor = 1;
    wm.window_mut(id).unwrap().geometry = w.geometry;

    wm.set_monitors(vec![two_monitors().remove(0)]);

    let got = wm.window(id).unwrap();
    assert_eq!(got.monitor, 0, "monitor id must still be remapped");
    assert_eq!(got.geometry, Rect::new(1200, 100, 400, 300), "already-visible geometry should be kept");
}

#[test]
fn tests_losing_every_monitor_leaves_windows_intact_for_when_one_returns() {
    let mut wm = WindowManager::new();
    wm.set_monitors(two_monitors());
    let id = wm.alloc_window_id();
    let mut w = Window::new(id, "orphan");
    w.geometry = Rect::new(1500, 200, 600, 400);
    wm.add_window(w);
    wm.window_mut(id).unwrap().monitor = 1;
    wm.window_mut(id).unwrap().geometry = Rect::new(1500, 200, 600, 400);

    wm.set_monitors(Vec::new());

    let got = wm.window(id).unwrap();
    assert_eq!(got.geometry, Rect::new(1500, 200, 600, 400));
    assert_eq!(got.monitor, 1);
}

#[test]
fn tests_a_window_whose_monitor_field_is_stale_is_still_rescued() {
    let mut wm = WindowManager::new();
    wm.set_monitors(two_monitors());

    let id = wm.alloc_window_id();
    let w = Window::new(id, "placed-by-rule");
    wm.add_window(w);
    wm.window_mut(id).unwrap().geometry = Rect::new(1500, 200, 600, 400);
    assert_eq!(wm.window(id).unwrap().monitor, 0, "precondition: stale field");

    wm.set_monitors(vec![two_monitors().remove(0)]);

    let got = wm.window(id).unwrap();
    assert!(
        Rect::new(0, 0, 1280, 800).overlaps(&got.geometry),
        "window must be pulled back on-screen, got {:?}",
        got.geometry
    );
}

#[test]
fn a_new_window_lands_on_the_focused_windows_monitor_not_always_primary() {
    let mut wm = WindowManager::new();
    wm.set_monitors(two_monitors());

    let first = wm.alloc_window_id();
    wm.add_window(Window::new(first, "on-primary"));
    assert_eq!(wm.window(first).unwrap().monitor, 0, "sanity: nothing focused yet falls back to primary");

    wm.window_mut(first).unwrap().monitor = 1;

    let second = wm.alloc_window_id();
    wm.add_window(Window::new(second, "should-follow-focus"));
    assert_eq!(wm.window(second).unwrap().monitor, 1, "a new window must land on the focused window's monitor, not primary");
}

#[test]
fn a_new_window_lands_on_the_pointers_monitor_when_nothing_is_focused_there() {
    let mut wm = WindowManager::new();
    wm.set_monitors(two_monitors());
    wm.set_pointer_monitor(Some(1));

    let id = wm.alloc_window_id();
    wm.add_window(Window::new(id, "should-follow-pointer"));
    assert_eq!(wm.window(id).unwrap().monitor, 1, "a new window must land on the pointer's monitor when nothing is focused, not primary");
}

#[test]
fn the_pointers_monitor_wins_over_a_stale_focused_window() {
    let mut wm = WindowManager::new();
    wm.set_monitors(two_monitors());

    let first = wm.alloc_window_id();
    wm.add_window(Window::new(first, "focused-on-primary"));
    wm.window_mut(first).unwrap().monitor = 0;
    wm.set_pointer_monitor(Some(1));

    let second = wm.alloc_window_id();
    wm.add_window(Window::new(second, "should-follow-the-pointer"));
    assert_eq!(wm.window(second).unwrap().monitor, 1, "the pointer's monitor must win over a stale focused window's");
}

#[test]
fn tests_fullscreen_covers_the_monitor_and_restores_the_original_geometry() {
    let mut wm = WindowManager::new();
    wm.set_monitors(two_monitors());
    let id = wm.alloc_window_id();
    let mut w = Window::new(id, "app");
    w.geometry = Rect::new(100, 100, 400, 300);
    wm.add_window(w);
    wm.window_mut(id).unwrap().geometry = Rect::new(100, 100, 400, 300);

    wm.toggle_fullscreen(id);
    let got = wm.window(id).unwrap();
    assert!(got.fullscreen);
    assert_eq!(got.geometry, Rect::new(0, 0, 1280, 800), "should cover the whole monitor");
    assert!(!got.decorated, "fullscreen must drop the titlebar");

    wm.toggle_fullscreen(id);
    let got = wm.window(id).unwrap();
    assert!(!got.fullscreen);
    assert_eq!(got.geometry, Rect::new(100, 100, 400, 300));
    assert!(got.decorated);
}

#[test]
fn fullscreen_round_trip_restores_a_client_side_decorated_window_to_undecorated() {
    let mut wm = WindowManager::new();
    wm.set_monitors(two_monitors());
    let id = wm.alloc_window_id();
    let mut w = Window::new(id, "firefox");
    w.geometry = Rect::new(100, 100, 400, 300);
    wm.add_window(w);
    wm.window_mut(id).unwrap().decorated = false;

    wm.toggle_fullscreen(id);
    assert!(!wm.window(id).unwrap().decorated, "fullscreen itself must still drop the titlebar");

    wm.toggle_fullscreen(id);
    assert!(!wm.window(id).unwrap().decorated, "must restore the pre-fullscreen decorated=false, not default to true");
}

fn monitor_with_dock() -> Monitor {
    let mut m = Monitor::new(0, "primary", Rect::new(0, 0, 1920, 1020));
    m.full_geometry = Rect::new(0, 0, 1920, 1080);
    m.maximize_geometry = Rect::new(0, 0, 1920, 1080);
    m.primary = true;
    m
}

fn monitor_with_dock_and_bar() -> Monitor {
    let mut m = Monitor::new(0, "primary", Rect::new(0, 34, 1920, 986));
    m.full_geometry = Rect::new(0, 0, 1920, 1080);
    m.maximize_geometry = Rect::new(0, 34, 1920, 1046);
    m.primary = true;
    m
}

#[test]
fn fullscreen_covers_the_full_monitor_ignoring_a_dock_reservation() {
    let mut wm = WindowManager::new();
    wm.set_monitors(vec![monitor_with_dock()]);
    let id = wm.alloc_window_id();
    wm.add_window(Window::new(id, "a"));

    wm.toggle_fullscreen(id);
    assert_eq!(wm.window(id).unwrap().geometry, Rect::new(0, 0, 1920, 1080), "fullscreen must reach the true monitor edge, past the dock");
}

#[test]
fn maximize_also_covers_the_full_monitor_ignoring_a_dock_reservation() {
    let mut wm = WindowManager::new();
    wm.set_monitors(vec![monitor_with_dock()]);
    let id = wm.alloc_window_id();
    wm.add_window(Window::new(id, "a"));

    wm.toggle_maximize(id);
    assert_eq!(wm.window(id).unwrap().geometry, Rect::new(0, 0, 1920, 1080), "maximize must reach the true monitor edge, past the dock, same as fullscreen");
}

#[test]
fn maximize_covers_a_dock_but_still_stops_at_a_top_bar() {
    let mut wm = WindowManager::new();
    wm.set_monitors(vec![monitor_with_dock_and_bar()]);
    let id = wm.alloc_window_id();
    wm.add_window(Window::new(id, "a"));

    wm.toggle_maximize(id);
    assert_eq!(
        wm.window(id).unwrap().geometry,
        Rect::new(0, 34, 1920, 1046),
        "maximize must cover the dock's strip but still stop at the top bar's"
    );
}

#[test]
fn maximized_window_live_tracks_a_monitor_geometry_change() {
    let mut wm = WindowManager::new();
    wm.set_monitors(vec![monitor_with_dock()]);
    let id = wm.alloc_window_id();
    wm.add_window(Window::new(id, "a"));
    wm.toggle_maximize(id);
    assert_eq!(wm.window(id).unwrap().geometry, Rect::new(0, 0, 1920, 1080));

    let mut resized = Monitor::new(0, "primary", Rect::new(0, 0, 2560, 1420));
    resized.full_geometry = Rect::new(0, 0, 2560, 1440);
    resized.maximize_geometry = Rect::new(0, 0, 2560, 1440);
    resized.primary = true;
    wm.set_monitors(vec![resized]);

    assert_eq!(
        wm.window(id).unwrap().geometry,
        Rect::new(0, 0, 2560, 1440),
        "an already-maximized window must live-track a monitor geometry change, not just windows placed afterward"
    );
}

#[test]
fn fullscreen_window_also_live_tracks_a_monitor_geometry_change() {
    let mut wm = WindowManager::new();
    wm.set_monitors(vec![monitor_with_dock()]);
    let id = wm.alloc_window_id();
    wm.add_window(Window::new(id, "a"));
    wm.toggle_fullscreen(id);
    assert_eq!(wm.window(id).unwrap().geometry, Rect::new(0, 0, 1920, 1080));

    let mut resized = Monitor::new(0, "primary", Rect::new(0, 0, 2560, 1420));
    resized.full_geometry = Rect::new(0, 0, 2560, 1440);
    resized.primary = true;
    wm.set_monitors(vec![resized]);

    assert_eq!(wm.window(id).unwrap().geometry, Rect::new(0, 0, 2560, 1440), "fullscreen must live-track the true full rect, not the usable one");
}

#[test]
fn a_non_maximized_window_is_left_alone_by_a_monitor_geometry_change() {
    let mut wm = WindowManager::new();
    wm.set_monitors(vec![monitor_with_dock()]);
    let id = wm.alloc_window_id();
    let mut w = Window::new(id, "a");
    w.geometry = Rect::new(100, 100, 400, 300);
    wm.add_window(w);
    wm.window_mut(id).unwrap().geometry = Rect::new(100, 100, 400, 300);

    let mut freed = Monitor::new(0, "primary", Rect::new(0, 0, 1920, 1080));
    freed.full_geometry = Rect::new(0, 0, 1920, 1080);
    freed.primary = true;
    wm.set_monitors(vec![freed]);

    assert_eq!(wm.window(id).unwrap().geometry, Rect::new(100, 100, 400, 300));
}

#[test]
fn dragging_a_window_can_cross_into_the_dock_reserved_strip() {
    let mut wm = WindowManager::new();
    wm.set_monitors(vec![monitor_with_dock()]);
    let id = wm.alloc_window_id();
    let mut w = Window::new(id, "a");
    w.geometry = Rect::new(500, 500, 200, 200);
    wm.add_window(w);

    wm.start_drag(id, 600, 600);
    wm.update_drag(600, 5000);
    let g = wm.window(id).unwrap().geometry;
    assert_eq!(g.y, 1040, "must clamp against the true monitor bottom, not the dock-shrunk usable area");
}

#[test]
fn class_rule_applies_once_app_id_is_known_after_creation() {
    let mut wm = wm_with_monitor();
    wm.add_rule(WindowRule {
        matcher: WindowMatch { class: Some("firefox".into()), ..Default::default() },
        actions: WindowRuleActions { decorated: Some(false), ..Default::default() },
    });
    let id = wm.alloc_window_id();
    wm.add_window(Window::new(id, ""));
    assert!(wm.window(id).unwrap().decorated, "no app_id yet, so no match - must not have flipped early");

    let w = wm.window_mut(id).unwrap();
    w.app_id = "firefox".into();
    wm.reapply_rules_if_pending(id);
    assert!(!wm.window(id).unwrap().decorated, "app_id now known - the rule must apply on retry");

    let w = wm.window_mut(id).unwrap();
    w.decorated = true;
    w.title = "a new tab title".into();
    wm.reapply_rules_if_pending(id);
    assert!(wm.window(id).unwrap().decorated, "rules_applied is already true - must not re-run the match");
}

#[test]
fn opacity_rule_applies_on_the_deferred_retry_same_as_other_actions() {
    let mut wm = wm_with_monitor();
    wm.add_rule(WindowRule {
        matcher: WindowMatch { class: Some("alacritty".into()), ..Default::default() },
        actions: WindowRuleActions { opacity: Some(single(0.4)), ..Default::default() },
    });
    let id = wm.alloc_window_id();
    wm.add_window(Window::new(id, ""));
    assert_eq!(wm.window(id).unwrap().opacity, single(1.0), "no app_id yet, so no match - must not have applied early");

    let w = wm.window_mut(id).unwrap();
    w.app_id = "Alacritty".into();
    wm.reapply_rules_if_pending(id);
    assert_eq!(wm.window(id).unwrap().opacity, single(0.4), "app_id now known - the rule must apply on retry");
}

#[test]
fn tests_fullscreen_from_maximized_still_restores_the_pre_maximize_size() {
    let mut wm = WindowManager::new();
    wm.set_monitors(two_monitors());
    let id = wm.alloc_window_id();
    let mut w = Window::new(id, "app");
    w.geometry = Rect::new(50, 60, 300, 200);
    wm.add_window(w);
    wm.window_mut(id).unwrap().geometry = Rect::new(50, 60, 300, 200);

    wm.toggle_maximize(id);
    wm.toggle_fullscreen(id);
    assert!(wm.is_fullscreen(id));
    assert!(!wm.window(id).unwrap().maximized, "the two states are mutually exclusive");

    wm.toggle_fullscreen(id);
    assert_eq!(
        wm.window(id).unwrap().geometry,
        Rect::new(50, 60, 300, 200),
        "must restore the size from before maximise, not the monitor rect"
    );
}

#[test]
fn tests_tiling_leaves_fullscreen_windows_alone() {
    let mut wm = WindowManager::new();
    wm.set_monitors(two_monitors());
    wm.set_layout(wm.current_workspace(), "tiling");
    let a = wm.alloc_window_id();
    wm.add_window(Window::new(a, "tiled"));
    let b = wm.alloc_window_id();
    wm.add_window(Window::new(b, "full"));
    wm.toggle_fullscreen(b);

    let changes = wm.arrange_workspace(wm.current_workspace());
    assert!(
        !changes.iter().any(|(id, _)| *id == b),
        "a fullscreen window must not be re-tiled"
    );
    assert_eq!(wm.window(b).unwrap().geometry, Rect::new(0, 0, 1280, 800));
}

#[test]
fn tests_moving_a_window_swaps_it_with_its_neighbour() {
    let mut wm = wm_with_monitor();
    let left = wm.alloc_window_id();
    let mut a = Window::new(left, "left");
    a.geometry = Rect::new(0, 0, 400, 400);
    wm.add_window(a);
    wm.window_mut(left).unwrap().geometry = Rect::new(0, 0, 400, 400);

    let right = wm.alloc_window_id();
    let mut b = Window::new(right, "right");
    b.geometry = Rect::new(600, 0, 400, 400);
    wm.add_window(b);
    wm.window_mut(right).unwrap().geometry = Rect::new(600, 0, 400, 400);

    wm.focus_window(left);
    let swapped = wm.move_window_direction(Direction::Right);

    assert_eq!(swapped, Some(right));
    assert_eq!(wm.window(left).unwrap().geometry, Rect::new(600, 0, 400, 400));
    assert_eq!(wm.window(right).unwrap().geometry, Rect::new(0, 0, 400, 400));
}

#[test]
fn tests_moving_with_no_neighbour_pushes_to_the_monitor_edge() {
    let mut wm = wm_with_monitor();
    let id = wm.alloc_window_id();
    let mut w = Window::new(id, "only");
    w.geometry = Rect::new(500, 300, 200, 150);
    wm.add_window(w);
    wm.window_mut(id).unwrap().geometry = Rect::new(500, 300, 200, 150);
    wm.focus_window(id);

    assert_eq!(wm.move_window_direction(Direction::Left), None);
    assert_eq!(wm.window(id).unwrap().geometry.x, 0, "should hug the left edge");

    wm.move_window_direction(Direction::Down);
    let g = wm.window(id).unwrap().geometry;
    let mon = wm.primary_monitor().unwrap().geometry;
    assert_eq!(g.bottom(), mon.bottom(), "should hug the bottom edge");
}

#[test]
fn tests_swapping_also_reorders_the_stack_so_tiling_follows() {
    let mut wm = wm_with_monitor();
    wm.set_layout(wm.current_workspace(), "tiling");
    let a = wm.alloc_window_id();
    wm.add_window(Window::new(a, "a"));
    let b = wm.alloc_window_id();
    wm.add_window(Window::new(b, "b"));
    wm.arrange_workspace(wm.current_workspace());

    wm.focus_window(a);
    let order_before: Vec<_> = wm.stacking_order().iter().map(|w| w.id).collect();
    wm.move_window_direction(Direction::Right);
    let order_after: Vec<_> = wm.stacking_order().iter().map(|w| w.id).collect();

    assert_ne!(order_before, order_after, "stacking order must reflect the swap");
    assert_eq!(
        order_after,
        order_before.iter().rev().copied().collect::<Vec<_>>(),
        "the two windows should have traded places in the stack"
    );
}

#[test]
fn tests_pinned_windows_stay_above_newly_raised_ones() {
    let mut wm = wm_with_monitor();
    let pinned = wm.alloc_window_id();
    wm.add_window(Window::new(pinned, "pip"));
    let other = wm.alloc_window_id();
    wm.add_window(Window::new(other, "normal"));

    wm.toggle_always_on_top(pinned);
    assert!(wm.is_always_on_top(pinned));
    assert_eq!(wm.stacking_order().last().map(|w| w.id), Some(pinned));

    wm.raise_window(other);
    assert_eq!(
        wm.stacking_order().last().map(|w| w.id),
        Some(pinned),
        "pinned window must remain topmost after another is raised"
    );
}

#[test]
fn tests_a_new_window_does_not_cover_a_pinned_one() {
    let mut wm = wm_with_monitor();
    let pinned = wm.alloc_window_id();
    wm.add_window(Window::new(pinned, "pip"));
    wm.toggle_always_on_top(pinned);

    let fresh = wm.alloc_window_id();
    wm.add_window(Window::new(fresh, "just opened"));

    assert_eq!(wm.stacking_order().last().map(|w| w.id), Some(pinned));
}

#[test]
fn tests_unpinning_lets_a_window_fall_back_into_the_normal_stack() {
    let mut wm = wm_with_monitor();
    let a = wm.alloc_window_id();
    wm.add_window(Window::new(a, "a"));
    let b = wm.alloc_window_id();
    wm.add_window(Window::new(b, "b"));

    wm.toggle_always_on_top(a);
    assert_eq!(wm.stacking_order().last().map(|w| w.id), Some(a));
    wm.toggle_always_on_top(a);
    wm.raise_window(b);
    assert_eq!(wm.stacking_order().last().map(|w| w.id), Some(b));
}

#[test]
fn lower_window_sends_it_to_the_back_of_the_stack() {
    let mut wm = wm_with_monitor();
    let a = wm.alloc_window_id();
    wm.add_window(Window::new(a, "a"));
    let b = wm.alloc_window_id();
    wm.add_window(Window::new(b, "b"));
    let c = wm.alloc_window_id();
    wm.add_window(Window::new(c, "c"));
    assert_eq!(wm.stacking_order().last().map(|w| w.id), Some(c), "precondition: c is on top after being added last");

    wm.lower_window(c);
    let order: Vec<_> = wm.stacking_order().iter().map(|w| w.id).collect();
    assert_eq!(order, vec![c, a, b], "c must be at the very back, a/b unchanged relative to each other");
}

#[test]
fn lower_window_never_buries_a_pinned_window() {
    let mut wm = wm_with_monitor();
    let a = wm.alloc_window_id();
    wm.add_window(Window::new(a, "a"));
    let pinned = wm.alloc_window_id();
    wm.add_window(Window::new(pinned, "pinned"));
    wm.toggle_always_on_top(pinned);
    assert_eq!(wm.stacking_order().last().map(|w| w.id), Some(pinned));

    wm.lower_window(a);
    assert_eq!(wm.stacking_order().last().map(|w| w.id), Some(pinned), "a pinned window must stay on top even after an unrelated lower_window call");
}
